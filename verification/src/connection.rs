//! One target, local or remote, and the windows that are open on it.

use vstd::prelude::*;

use crate::text::{push_decimal_text, push_text};
use crate::window::{Window, WindowState};

verus! {

/// What a connection leads to.
pub enum Target {
    /// A shell on this machine.
    Local,
    /// A host that is reached by SSH: `host`, `user@host`, or an alias.
    Ssh(String),
}

/// A command to start: the program, its arguments, and what is added to its
/// environment.
pub struct Command {
    pub program: String,
    pub args: Vec<String>,
    pub env: Vec<(String, String)>,
}

/// A connection. All windows on a remote host share one SSH connection.
pub struct Connection {
    pub target: Target,
    pub label: String,
    windows: Vec<Window>,
    next_id: usize,
}

/// The state of a connection.
#[verifier::ext_equal]
pub struct ConnectionState {
    /// The host, for a remote one.
    pub host: Option<Seq<char>>,
    pub label: Seq<char>,
    /// The windows in the order in which they were opened.
    pub windows: Seq<WindowState>,
    /// The identifier of the next window.
    pub next_id: int,
}

/// What a [`Command`] says.
#[verifier::ext_equal]
pub struct CommandView {
    pub program: Seq<char>,
    pub args: Seq<Seq<char>>,
    pub env: Seq<(Seq<char>, Seq<char>)>,
}

impl View for Command {
    type V = CommandView;

    open spec fn view(&self) -> CommandView {
        CommandView {
            program: self.program@,
            args: self.args@.map_values(|a: String| a@),
            env: self.env@.map_values(|e: (String, String)| (e.0@, e.1@)),
        }
    }
}

/// The command that runs in a window. A local window runs the shell, `/bin/bash`
/// where none is set. A remote one runs `ssh` with a terminal on the other side;
/// the first window on a host makes a connection that the next ones use, and that
/// stays for ten minutes after the last.
pub open spec fn launch(host: Option<Seq<char>>, shell: Option<Seq<char>>) -> CommandView {
    CommandView {
        program: match host {
            None => match shell {
                Some(s) => s,
                None => "/bin/bash"@,
            },
            Some(_) => "ssh"@,
        },
        args: match host {
            None => Seq::empty(),
            Some(h) => seq![
                "-tt"@,
                "-o"@,
                "ControlMaster=auto"@,
                "-o"@,
                "ControlPath=~/.ssh/cm-%C"@,
                "-o"@,
                "ControlPersist=10m"@,
                h,
            ],
        },
        env: seq![("TERM"@, "xterm-256color"@)],
    }
}

/// What a list of windows holds.
pub open spec fn windows_view(windows: Seq<Window>) -> Seq<WindowState> {
    windows.map_values(|w: Window| w@)
}

/// The title of a window that has not set one: the label and the identifier.
pub open spec fn default_title(label: Seq<char>, id: nat) -> Seq<char> {
    label + seq![' ', '\u{b7}', ' ', 'w', 'i', 'n'] + crate::text::decimal_text(id)
}

impl View for Target {
    type V = Option<Seq<char>>;

    open spec fn view(&self) -> Option<Seq<char>> {
        match *self {
            Target::Local => None,
            Target::Ssh(host) => Some(host@),
        }
    }
}

impl View for Connection {
    type V = ConnectionState;

    closed spec fn view(&self) -> ConnectionState {
        ConnectionState {
            host: self.target@,
            label: self.label@,
            windows: windows_view(self.windows@),
            next_id: self.next_id as int,
        }
    }
}

impl ConnectionState {
    /// A connection without windows.
    pub open spec fn start(host: Option<Seq<char>>) -> ConnectionState {
        ConnectionState {
            host,
            label: match host {
                Some(h) => h,
                None => seq!['l', 'o', 'c', 'a', 'l'],
            },
            windows: Seq::empty(),
            next_id: 0,
        }
    }

    /// The identifiers grow from one window to the next and have all been given
    /// out; every window is in order.
    pub open spec fn wf(self) -> bool {
        &&& 0 <= self.next_id <= usize::MAX
        &&& forall|i: int, j: int|
            0 <= i < j < self.windows.len() ==> (#[trigger] self.windows[i]).id < (
            #[trigger] self.windows[j]).id
        &&& forall|i: int|
            0 <= i < self.windows.len() ==> (#[trigger] self.windows[i]).id < self.next_id
        &&& forall|i: int| 0 <= i < self.windows.len() ==> (#[trigger] self.windows[i]).wf()
    }

    /// Whether the window at a place has an identifier.
    pub open spec fn is_at(self, id: usize, i: int) -> bool {
        0 <= i < self.windows.len() && self.windows[i].id == id
    }

    /// Whether a window with this identifier is open.
    pub open spec fn has(self, id: usize) -> bool {
        exists|i: int| self.is_at(id, i)
    }

    /// The place of the window with an identifier.
    pub open spec fn place(self, id: usize) -> int {
        choose|i: int| self.is_at(id, i)
    }

    /// The window with an identifier.
    pub open spec fn window(self, id: usize) -> Option<WindowState> {
        if self.has(id) {
            Some(self.windows[self.place(id)])
        } else {
            None
        }
    }

    /// With the window that has an identifier replaced; without such a window, as
    /// it is.
    pub open spec fn with_window(self, id: usize, w: WindowState) -> ConnectionState {
        if self.has(id) {
            ConnectionState { windows: self.windows.update(self.place(id), w), ..self }
        } else {
            self
        }
    }

    /// The identifiers of the windows, in the order in which they were opened.
    pub open spec fn ids(self) -> Seq<usize> {
        self.windows.map_values(|w: WindowState| w.id)
    }

    pub open spec fn opened(self, cols: int, rows: int) -> ConnectionState {
        ConnectionState {
            windows: self.windows.push(
                WindowState::start(
                    self.next_id as usize,
                    default_title(self.label, self.next_id as nat),
                    cols,
                    rows,
                ),
            ),
            next_id: self.next_id + 1,
            ..self
        }
    }

    pub open spec fn skipped(self) -> ConnectionState {
        ConnectionState { next_id: self.next_id + 1, ..self }
    }

    /// With every window changed in the same way.
    pub open spec fn mapped(self, f: spec_fn(WindowState) -> WindowState) -> ConnectionState {
        ConnectionState { windows: self.windows.map_values(f), ..self }
    }

    /// With every screen in another size.
    pub open spec fn resized(self, cols: int, rows: int) -> ConnectionState {
        self.mapped(|w: WindowState| w.with_screen(w.screen.resize(cols, rows)))
    }

    /// With a limit set to every history.
    pub open spec fn limited(self, n: int) -> ConnectionState {
        self.mapped(|w: WindowState| w.with_screen(w.screen.set_scrollback_max(n)))
    }

    pub open spec fn closed(self, id: usize) -> ConnectionState {
        ConnectionState { windows: self.windows.filter(|w: WindowState| w.id != id), ..self }
    }
}

/// A window is found at one place only.
pub proof fn lemma_place(c: ConnectionState, id: usize, i: int)
    requires
        c.wf(),
        c.is_at(id, i),
    ensures
        c.has(id),
        c.place(id) == i,
        c.window(id) == Some(c.windows[i]),
{
    let p = c.place(id);
    assert(c.is_at(id, p));
    if p < i {
        assert(c.windows[p].id < c.windows[i].id);
    } else if i < p {
        assert(c.windows[i].id < c.windows[p].id);
    }
}

/// A window may be replaced by one with the same identifier.
pub proof fn lemma_with_window(c: ConnectionState, id: usize, w: WindowState)
    requires
        c.wf(),
        w.wf(),
        w.id == id,
    ensures
        c.with_window(id, w).wf(),
        c.has(id) ==> c.with_window(id, w).window(id) == Some(w),
        c.with_window(id, w).ids() == c.ids(),
        forall|other: usize| other != id ==> c.with_window(id, w).window(other) == c.window(other),
{
    let d = c.with_window(id, w);
    if c.has(id) {
        let p = c.place(id);
        assert(c.is_at(id, p));
        assert forall|i: int| 0 <= i < d.windows.len() implies (#[trigger] d.windows[i]).id
            == c.windows[i].id by {}
        assert(d.wf());
        assert(d.is_at(id, p));
        lemma_place(d, id, p);
        assert(d.ids() =~= c.ids());
        assert forall|other: usize| other != id implies d.window(other) == c.window(other) by {
            if c.has(other) {
                let q = c.place(other);
                assert(c.is_at(other, q));
                assert(d.is_at(other, q));
                lemma_place(d, other, q);
            } else if d.has(other) {
                let q = d.place(other);
                assert(d.is_at(other, q));
                assert(c.is_at(other, q));
            }
        }
    }
}

/// Closing a window takes it out, and the others stay in their order.
pub proof fn lemma_closed(c: ConnectionState, id: usize)
    requires
        c.wf(),
    ensures
        c.closed(id).wf(),
        !c.has(id) ==> c.closed(id) == c,
        c.has(id) ==> c.closed(id).windows == c.windows.remove(c.place(id)),
        !c.closed(id).has(id),
{
    let keep = |w: WindowState| w.id != id;
    let d = c.closed(id);
    if c.has(id) {
        let p = c.place(id);
        assert(c.is_at(id, p));
        let head = c.windows.take(p);
        let tail = c.windows.skip(p + 1);
        assert forall|i: int| 0 <= i < head.len() implies keep(#[trigger] head[i]) by {
            assert(c.windows[i].id < c.windows[p].id);
        }
        assert forall|i: int| 0 <= i < tail.len() implies keep(#[trigger] tail[i]) by {
            assert(c.windows[p].id < c.windows[i + p + 1].id);
        }
        assert(c.windows =~= head + seq![c.windows[p]] + tail);
        lemma_filter_all(head, keep);
        lemma_filter_all(tail, keep);
        lemma_filter_one(head, c.windows[p], tail, keep);
        assert(d.windows =~= c.windows.remove(p));
        let from = |i: int|
            if i < p {
                i
            } else {
                i + 1
            };
        assert forall|i: int| 0 <= i < d.windows.len() implies #[trigger] d.windows[i]
            == c.windows[from(i)] by {}
        assert forall|i: int, j: int| 0 <= i < j < d.windows.len() implies (
        #[trigger] d.windows[i]).id < (#[trigger] d.windows[j]).id by {
            assert(c.windows[from(i)].id < c.windows[from(j)].id);
        }
    } else {
        assert forall|i: int| 0 <= i < c.windows.len() implies keep(#[trigger] c.windows[i]) by {
            if c.windows[i].id == id {
                assert(c.is_at(id, i));
            }
        }
        lemma_filter_all(c.windows, keep);
    }
    if d.has(id) {
        let q = d.place(id);
        assert(d.is_at(id, q));
        if c.has(id) {
            let p = c.place(id);
            assert(c.is_at(id, p));
            if q < p {
                assert(c.windows[q].id < c.windows[p].id);
            } else {
                assert(c.windows[p].id < c.windows[q + 1].id);
            }
        } else {
            assert(c.is_at(id, q));
        }
    }
}

/// A new window gets an identifier that no window of the connection has or has had:
/// closing a window does not free its identifier.
pub proof fn law_identifier_is_never_given_twice(
    c: ConnectionState,
    id: usize,
    cols: int,
    rows: int,
)
    requires
        c.wf(),
        c.next_id < usize::MAX,
        1 <= cols <= usize::MAX,
        1 <= rows <= usize::MAX,
    ensures
        c.has(id) ==> id < c.next_id,
        c.closed(id).next_id == c.next_id,
        c.opened(cols, rows).windows.last().id == c.next_id,
        c.opened(cols, rows).next_id == c.next_id + 1,
        c.opened(cols, rows).wf(),
        c.skipped().wf(),
{
    if c.has(id) {
        assert(c.is_at(id, c.place(id)));
    }
}

proof fn lemma_filter_all<T>(s: Seq<T>, keep: spec_fn(T) -> bool)
    requires
        forall|i: int| 0 <= i < s.len() ==> keep(#[trigger] s[i]),
    ensures
        s.filter(keep) == s,
    decreases s.len(),
{
    reveal(Seq::filter);
    if s.len() > 0 {
        let head = s.drop_last();
        assert forall|i: int| 0 <= i < head.len() implies keep(#[trigger] head[i]) by {
            assert(keep(s[i]));
        }
        lemma_filter_all(head, keep);
        assert(keep(s.last()));
        assert(head.push(s.last()) =~= s);
    }
}

proof fn lemma_filter_one<T>(head: Seq<T>, x: T, tail: Seq<T>, keep: spec_fn(T) -> bool)
    requires
        !keep(x),
        head.filter(keep) == head,
        tail.filter(keep) == tail,
    ensures
        (head + seq![x] + tail).filter(keep) == head + tail,
    decreases tail.len(),
{
    reveal(Seq::filter);
    let all = head + seq![x] + tail;
    if tail.len() == 0 {
        assert(all.drop_last() =~= head);
        assert(all.last() == x);
        assert(head + tail =~= head);
    } else {
        assert(tail.filter(keep).len() == tail.len());
        lemma_filter_short(tail.drop_last(), keep);
        assert(tail.drop_last().filter(keep) =~= tail.drop_last());
        lemma_filter_one(head, x, tail.drop_last(), keep);
        assert(all.drop_last() =~= head + seq![x] + tail.drop_last());
        assert(all.last() == tail.last());
        assert((head + tail.drop_last()).push(tail.last()) =~= head + tail);
    }
}

proof fn lemma_filter_short<T>(s: Seq<T>, keep: spec_fn(T) -> bool)
    ensures
        s.filter(keep).len() <= s.len(),
    decreases s.len(),
{
    reveal(Seq::filter);
    if s.len() > 0 {
        lemma_filter_short(s.drop_last(), keep);
    }
}

impl Connection {
    pub open spec fn wf(&self) -> bool {
        self@.wf()
    }

    /// A connection without windows. Its label is `local` or the host.
    pub fn new(target: Target) -> (c: Connection)
        ensures
            c.wf(),
            c@ == ConnectionState::start(target@),
    {
        let label = match &target {
            Target::Local => {
                proof {
                    reveal_strlit("local");
                }
                let label = "local".to_owned();
                assert(label@ =~= seq!['l', 'o', 'c', 'a', 'l']);
                label
            },
            Target::Ssh(host) => host.clone(),
        };
        let c = Connection { target, label, windows: Vec::new(), next_id: 0 };
        assert(c@ =~= ConnectionState::start(target@));
        c
    }

    /// What the connection is called.
    pub fn label(&self) -> (label: &str)
        ensures
            label@ == self@.label,
    {
        self.label.as_str()
    }

    /// Opens a window with a blank screen and gives its identifier.
    pub fn open_window(&mut self, cols: u16, rows: u16) -> (id: usize)
        requires
            old(self).wf(),
            old(self)@.next_id < usize::MAX,
        ensures
            final(self).wf(),
            final(self)@ == old(self)@.opened(cols as int, rows as int),
            id == old(self)@.next_id,
    {
        let id: usize = self.next_id;
        self.next_id = id + 1;
        let mut title = self.label.clone();
        proof {
            reveal_strlit(" \u{b7} win");
        }
        push_text(&mut title, " \u{b7} win");
        push_decimal_text(&mut title, id);
        assert(title@ =~= default_title(self.label@, id as nat));
        self.windows.push(Window::new(id, title, cols, rows));
        assert(self@ =~= old(self)@.opened(cols as int, rows as int));
        id
    }

    /// Gives an identifier away without a window.
    pub fn skip_id(&mut self)
        requires
            old(self).wf(),
            old(self)@.next_id < usize::MAX,
        ensures
            final(self).wf(),
            final(self)@ == old(self)@.skipped(),
    {
        self.next_id = self.next_id + 1;
        assert(self@ =~= old(self)@.skipped());
    }

    /// Whether there is an identifier for another window.
    pub fn has_free_id(&self) -> (r: bool)
        requires
            self.wf(),
        ensures
            r == (self@.next_id < usize::MAX),
    {
        self.next_id < usize::MAX
    }

    /// The place of a window in the list.
    fn find(&self, id: usize) -> (place: Option<usize>)
        requires
            self.wf(),
        ensures
            match place {
                Some(i) => self@.is_at(id, i as int) && self@.place(id) == i && self@.has(id) && i
                    < self.windows@.len(),
                None => !self@.has(id),
            },
    {
        let mut i: usize = 0;
        while i < self.windows.len()
            invariant
                self.wf(),
                i <= self.windows@.len(),
                forall|j: int| 0 <= j < i ==> (#[trigger] self@.windows[j]).id != id,
            decreases self.windows@.len() - i,
        {
            assert(self@.windows[i as int] == self.windows@[i as int]@);
            if self.windows[i].id == id {
                proof {
                    lemma_place(self@, id, i as int);
                }
                return Some(i);
            }
            i += 1;
        }
        proof {
            if self@.has(id) {
                assert(self@.is_at(id, self@.place(id)));
            }
        }
        None
    }

    /// The window with an identifier.
    pub fn window(&self, id: usize) -> (w: Option<&Window>)
        requires
            self.wf(),
        ensures
            match w {
                Some(w) => self@.window(id) == Some(w@) && w.wf(),
                None => self@.window(id) is None,
            },
    {
        match self.find(id) {
            Some(i) => {
                assert(self@.windows[i as int] == self.windows@[i as int]@);
                Some(&self.windows[i])
            },
            None => None,
        }
    }

    /// The window with an identifier, to be changed. The connection stays in order
    /// as long as the window does and keeps its identifier.
    pub fn window_mut(&mut self, id: usize) -> (w: Option<&mut Window>)
        requires
            old(self).wf(),
        ensures
            match w {
                Some(w) => {
                    &&& old(self)@.window(id) == Some((*w)@)
                    &&& (*w).wf()
                    &&& final(self)@ == old(self)@.with_window(id, (*final(w))@)
                    &&& (*final(w)).wf() && (*final(w)).id == id ==> final(self).wf()
                },
                None => old(self)@.window(id) is None && *final(self) == *old(self),
            },
    {
        match self.find(id) {
            Some(i) => {
                assert(self@.windows[i as int] == self.windows@[i as int]@);
                proof {
                    assert forall|after: Window| #[trigger]
                        windows_view(self.windows@.update(i as int, after))
                            == self@.windows.update(i as int, after@) by {
                        assert(windows_view(self.windows@.update(i as int, after))
                            =~= self@.windows.update(i as int, after@));
                    }
                    assert forall|after: WindowState| after.wf() && after.id == id implies (
                    #[trigger] self@.with_window(id, after)).wf() by {
                        lemma_with_window(self@, id, after);
                    }
                }
                Some(&mut self.windows[i])
            },
            None => None,
        }
    }

    /// The identifiers of the windows, in the order in which they were opened.
    pub fn window_ids(&self) -> (ids: Vec<usize>)
        requires
            self.wf(),
        ensures
            ids@ == self@.ids(),
    {
        let mut ids: Vec<usize> = Vec::new();
        let mut i: usize = 0;
        while i < self.windows.len()
            invariant
                self.wf(),
                i <= self.windows@.len(),
                ids@ == self@.ids().take(i as int),
            decreases self.windows@.len() - i,
        {
            ids.push(self.windows[i].id);
            i += 1;
            assert(self@.ids().take(i as int) =~= self@.ids().take(i - 1).push(
                self.windows@[i - 1].id,
            ));
        }
        assert(self@.ids().take(i as int) =~= self@.ids());
        ids
    }

    /// The windows, in the order in which they were opened.
    pub fn windows(&self) -> (windows: &Vec<Window>)
        requires
            self.wf(),
        ensures
            windows_view(windows@) == self@.windows,
    {
        &self.windows
    }

    /// Closes a window. Says whether there was one with this identifier.
    pub fn close_window(&mut self, id: usize) -> (found: bool)
        requires
            old(self).wf(),
        ensures
            final(self).wf(),
            final(self)@ == old(self)@.closed(id),
            found == old(self)@.has(id),
    {
        proof {
            lemma_closed(self@, id);
        }
        match self.find(id) {
            Some(i) => {
                let _ = self.windows.remove(i);
                assert(windows_view(self.windows@) =~= old(self)@.windows.remove(i as int));
                assert(self@ =~= old(self)@.closed(id));
                true
            },
            None => false,
        }
    }

    /// Gives every screen another size.
    pub fn resize_windows(&mut self, cols: u16, rows: u16)
        requires
            old(self).wf(),
        ensures
            final(self).wf(),
            final(self)@ == old(self)@.resized(cols as int, rows as int),
            final(self)@.ids() == old(self)@.ids(),
    {
        let ghost goal = self@.resized(cols as int, rows as int);
        let mut i: usize = 0;
        while i < self.windows.len()
            invariant
                old(self).wf(),
                goal == old(self)@.resized(cols as int, rows as int),
                *self == (Connection { windows: self.windows, ..*old(self) }),
                i <= self.windows@.len(),
                self.windows@.len() == old(self).windows@.len(),
                forall|j: int|
                    0 <= j < i ==> (#[trigger] self.windows@[j])@ == goal.windows[j]
                        && self.windows@[j].wf(),
                forall|j: int| i <= j < self.windows@.len() ==> #[trigger] self.windows@[j]
                    == old(self).windows@[j],
            decreases self.windows@.len() - i,
        {
            assert(old(self)@.windows[i as int] == old(self).windows@[i as int]@);
            self.windows[i].resize(cols, rows);
            i += 1;
        }
        proof {
            assert(self@.windows =~= goal.windows);
            assert(self@ =~= goal);
            assert forall|j: int| 0 <= j < self@.windows.len() implies (
            #[trigger] self@.windows[j]).id == old(self)@.windows[j].id
                && self@.windows[j].wf() by {
                assert(self@.windows[j] == self.windows@[j]@);
            }
            assert(self@.ids() =~= old(self)@.ids());
        }
    }

    /// Sets how many lines of history every window keeps.
    pub fn limit_history(&mut self, n: usize)
        requires
            old(self).wf(),
        ensures
            final(self).wf(),
            final(self)@ == old(self)@.limited(n as int),
            final(self)@.ids() == old(self)@.ids(),
    {
        let ghost goal = self@.limited(n as int);
        let mut i: usize = 0;
        while i < self.windows.len()
            invariant
                old(self).wf(),
                goal == old(self)@.limited(n as int),
                *self == (Connection { windows: self.windows, ..*old(self) }),
                i <= self.windows@.len(),
                self.windows@.len() == old(self).windows@.len(),
                forall|j: int|
                    0 <= j < i ==> (#[trigger] self.windows@[j])@ == goal.windows[j]
                        && self.windows@[j].wf(),
                forall|j: int| i <= j < self.windows@.len() ==> #[trigger] self.windows@[j]
                    == old(self).windows@[j],
            decreases self.windows@.len() - i,
        {
            assert(old(self)@.windows[i as int] == old(self).windows@[i as int]@);
            self.windows[i].grid.set_scrollback_max(n);
            i += 1;
        }
        proof {
            assert(self@.windows =~= goal.windows);
            assert(self@ =~= goal);
            assert forall|j: int| 0 <= j < self@.windows.len() implies (
            #[trigger] self@.windows[j]).id == old(self)@.windows[j].id
                && self@.windows[j].wf() by {
                assert(self@.windows[j] == self.windows@[j]@);
            }
            assert(self@.ids() =~= old(self)@.ids());
        }
    }

    /// The command to run in a window of this connection. `shell` is the shell of
    /// the user, where one is set.
    pub fn build_command(&self, shell: Option<String>) -> (command: Command)
        requires
            self.wf(),
        ensures
            command@ == launch(
                self@.host,
                match shell {
                    Some(s) => Some(s@),
                    None => None,
                },
            ),
    {
        let env = vec![("TERM".to_owned(), "xterm-256color".to_owned())];
        let command = match &self.target {
            Target::Local => {
                let program = match shell {
                    Some(s) => s,
                    None => "/bin/bash".to_owned(),
                };
                Command { program, args: Vec::new(), env }
            },
            Target::Ssh(host) => {
                let args = vec![
                    "-tt".to_owned(),
                    "-o".to_owned(),
                    "ControlMaster=auto".to_owned(),
                    "-o".to_owned(),
                    "ControlPath=~/.ssh/cm-%C".to_owned(),
                    "-o".to_owned(),
                    "ControlPersist=10m".to_owned(),
                    host.clone(),
                ];
                Command { program: "ssh".to_owned(), args, env }
            },
        };
        assert(command@ =~= launch(
            self@.host,
            match shell {
                Some(s) => Some(s@),
                None => None,
            },
        ));
        command
    }
}

} // verus!
