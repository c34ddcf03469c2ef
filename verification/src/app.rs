//! The program without its windows, its processes and its devices: what it does
//! with each event, and what it asks for in return.

use vstd::prelude::*;

use crate::grid::{MouseProto, Selection, TermEvent};
use crate::input::{encode, encode_paste, Key, ModifiersState, NamedKey};
use crate::manager::ConnectionManager;
use crate::render::SidebarItem;
use crate::session::{AppState, EffectView, Shortcut, SidebarTarget, SYNC_LIMIT};
use crate::text::{chars_of, push_decimal};
use crate::window::{WinStatus, Window, WindowState};

verus! {

/// What the program in a window has sent.
pub enum UserEvent {
    /// Output.
    Pty { conn: usize, win: usize, bytes: Vec<u8> },
    /// The program has ended.
    Closed { conn: usize, win: usize },
}

/// What has to be done outside.
pub enum Effect {
    /// Send bytes to the program in a window.
    Write { conn: usize, win: usize, bytes: Vec<u8> },
    /// Tell the program in a window its new size.
    Resize { conn: usize, win: usize, cols: u16, rows: u16 },
    /// A window is closed: let go of the program in it.
    Close { conn: usize, win: usize },
    /// Start a program for a new window on a connection, and add the window.
    Open { conn: usize },
    /// The tabs or the sidebar have changed: work out the size of the screens anew.
    Relayout,
    /// Show a title.
    Title(String),
    /// Put text on the clipboard.
    SetClipboard(String),
    /// Read the clipboard, and paste what is on it.
    Paste,
    /// Show a notification on the desktop.
    Notify { summary: String, body: String },
    /// Open an address.
    OpenUrl(String),
    Redraw,
    Exit,
}

impl View for Effect {
    type V = EffectView;

    open spec fn view(&self) -> EffectView {
        match *self {
            Effect::Write { conn, win, bytes } => EffectView::Write { conn, win, bytes: bytes@ },
            Effect::Resize { conn, win, cols, rows } => EffectView::Resize {
                conn,
                win,
                cols,
                rows,
            },
            Effect::Close { conn, win } => EffectView::Close { conn, win },
            Effect::Open { conn } => EffectView::Open { conn },
            Effect::Relayout => EffectView::Relayout,
            Effect::Title(t) => EffectView::Title(t@),
            Effect::SetClipboard(t) => EffectView::SetClipboard(t@),
            Effect::Paste => EffectView::Paste,
            Effect::Notify { summary, body } => EffectView::Notify {
                summary: summary@,
                body: body@,
            },
            Effect::OpenUrl(u) => EffectView::OpenUrl(u@),
            Effect::Redraw => EffectView::Redraw,
            Effect::Exit => EffectView::Exit,
        }
    }
}

/// What a list of effects says.
pub open spec fn effects_view(effects: Seq<Effect>) -> Seq<EffectView> {
    effects.map_values(|e: Effect| e@)
}

/// What an optional text says.
pub open spec fn text_view(text: Option<&str>) -> Option<Seq<char>> {
    match text {
        Some(t) => Some(t@),
        None => None,
    }
}

/// The program.
pub struct App {
    manager: ConnectionManager,
    conn_idx: usize,
    win_id: usize,
    tabs: Vec<(usize, usize)>,
    scrollback: Option<usize>,
    mods: ModifiersState,
    focused: bool,
    mouse_down: bool,
    selecting: bool,
    selection: Option<Selection>,
    sync_skip_count: u32,
    sidebar_override: Option<bool>,
}

impl View for App {
    type V = AppState;

    closed spec fn view(&self) -> AppState {
        AppState {
            manager: self.manager@,
            conn: self.conn_idx,
            win: self.win_id,
            tabs: self.tabs@,
            scrollback: self.scrollback,
            mods: self.mods,
            focused: self.focused,
            mouse_down: self.mouse_down,
            selecting: self.selecting,
            selection: self.selection,
            sync_skips: self.sync_skip_count,
            sidebar: self.sidebar_override,
        }
    }
}

fn no_effects() -> (out: Vec<Effect>)
    ensures
        effects_view(out@) == Seq::<EffectView>::empty(),
{
    let out: Vec<Effect> = Vec::new();
    assert(effects_view(out@) =~= Seq::<EffectView>::empty());
    out
}

fn one_effect(e: Effect) -> (out: Vec<Effect>)
    ensures
        effects_view(out@) == seq![e@],
{
    let mut out: Vec<Effect> = Vec::new();
    out.push(e);
    assert(effects_view(out@) =~= seq![e@]);
    out
}

fn push_effect(out: &mut Vec<Effect>, e: Effect)
    ensures
        effects_view(final(out)@) == effects_view(old(out)@).push(e@),
{
    out.push(e);
    assert(effects_view(out@) =~= effects_view(old(out)@).push(e@));
}

fn push_effects(out: &mut Vec<Effect>, more: Vec<Effect>)
    ensures
        effects_view(final(out)@) == effects_view(old(out)@) + effects_view(more@),
{
    let ghost start = effects_view(out@);
    let ghost all = effects_view(more@);
    assert(start + all.take(0) =~= start);
    for e in it: more
        invariant
            it.seq() == more@,
            all == effects_view(more@),
            effects_view(out@) == start + all.take(it.index()),
    {
        let ghost i = it.index();
        push_effect(out, e);
        assert(start + all.take(i + 1) =~= (start + all.take(i)).push(all[i]));
    }
    assert(all.take(all.len() as int) =~= all);
}

/// The name of the program.
fn term_text() -> (text: String)
    ensures
        text@ == seq!['t', 'e', 'r', 'm'],
{
    proof {
        reveal_strlit("term");
    }
    let text = "term".to_owned();
    assert(text@ =~= seq!['t', 'e', 'r', 'm']);
    text
}

/// The body of the notification that the bell gives.
fn done_text() -> (text: String)
    ensures
        text@ == seq!['\u{5b8c}', '\u{6210}'],
{
    proof {
        reveal_strlit("\u{5b8c}\u{6210}");
    }
    let text = "\u{5b8c}\u{6210}".to_owned();
    assert(text@ =~= seq!['\u{5b8c}', '\u{6210}']);
    text
}

fn is_empty_text(text: &str) -> (r: bool)
    ensures
        r == (text@.len() == 0),
{
    chars_of(text).len() == 0
}

/// Whether text begins with a prefix.
fn starts_with(text: &str, prefix: &str) -> (r: bool)
    ensures
        r == crate::session::begins_with(text@, prefix@),
{
    let t = chars_of(text);
    let p = chars_of(prefix);
    if p.len() > t.len() {
        return false;
    }
    let mut i: usize = 0;
    while i < p.len()
        invariant
            p@.len() <= t@.len(),
            i <= p@.len(),
            p@ == prefix@,
            t@ == text@,
            forall|j: int| 0 <= j < i ==> p@[j] == t@[j],
        decreases p@.len() - i,
    {
        if p[i] != t[i] {
            assert(text@.take(prefix@.len() as int)[i as int] != prefix@[i as int]);
            return false;
        }
        i += 1;
    }
    assert(text@.take(prefix@.len() as int) =~= prefix@);
    true
}

/// Whether an address may be opened: a web page, a file, or a mail address.
pub fn is_openable(url: &str) -> (r: bool)
    ensures
        r == crate::session::may_open(url@),
{
    starts_with(url, "http://") || starts_with(url, "https://") || starts_with(url, "file://")
        || starts_with(url, "mailto:")
}

/// A coordinate in the old form of a mouse report.
fn old_coordinate(n: usize) -> (b: u8)
    ensures
        b == crate::session::old_coordinate(n as int),
{
    if n >= 222 {
        255
    } else {
        32 + (n + 1) as u8
    }
}

/// The report of a mouse event at a cell.
pub fn mouse_report_bytes(sgr: bool, btn: u8, cell: (usize, usize), press: bool) -> (bytes: Vec<u8>)
    requires
        cell.0 < usize::MAX,
        cell.1 < usize::MAX,
    ensures
        bytes@ == crate::session::mouse_bytes(sgr, btn, cell.0 as int, cell.1 as int, press),
{
    let mut bytes: Vec<u8> = vec![0x1b, 0x5b];
    if sgr {
        bytes.push(0x3c);
        push_decimal(&mut bytes, btn as usize);
        bytes.push(0x3b);
        push_decimal(&mut bytes, cell.0 + 1);
        bytes.push(0x3b);
        push_decimal(&mut bytes, cell.1 + 1);
        bytes.push(
            if press {
                0x4d
            } else {
                0x6d
            },
        );
    } else {
        bytes.push(0x4d);
        let button: u8 = if !press {
            3
        } else if btn > 223 {
            223
        } else {
            btn
        };
        bytes.push(32 + button);
        bytes.push(old_coordinate(cell.0));
        bytes.push(old_coordinate(cell.1));
    }
    assert(bytes@ =~= crate::session::mouse_bytes(
        sgr,
        btn,
        cell.0 as int,
        cell.1 as int,
        press,
    ));
    bytes
}

/// The shortcut under a key.
fn find_shortcut(key: &Key) -> (shortcut: Option<Shortcut>)
    ensures
        shortcut == crate::session::key_shortcut(*key),
{
    match key {
        Key::Character(s) => {
            let chars = chars_of(s.as_str());
            if chars.len() != 1 {
                return None;
            }
            let c = chars[0];
            match c {
                'c' | 'C' => Some(Shortcut::Copy),
                'v' | 'V' => Some(Shortcut::Paste),
                't' | 'T' => Some(Shortcut::NewTab),
                'w' | 'W' => Some(Shortcut::CloseTab),
                'b' | 'B' => Some(Shortcut::ToggleSidebar),
                '[' => Some(Shortcut::PreviousTab),
                ']' => Some(Shortcut::NextTab),
                '1'..='9' => Some(Shortcut::Tab((c as u8 - 0x31) as usize)),
                _ => None,
            }
        },
        _ => None,
    }
}

impl App {
    pub open spec fn wf(&self) -> bool {
        self@.wf()
    }

    /// The program, with the window `win_id` of the connection `conn_idx` shown.
    /// `scrollback` is how many lines of history every window keeps, where that is
    /// set.
    pub fn new(
        manager: ConnectionManager,
        conn_idx: usize,
        win_id: usize,
        scrollback: Option<usize>,
    ) -> (app: App)
        requires
            manager.wf(),
        ensures
            app.wf(),
            app@ == AppState::start(manager@, conn_idx, win_id, scrollback),
    {
        let mut manager = manager;
        let tabs = manager.all_windows();
        if let Some(n) = scrollback {
            manager.limit_history(n);
        }
        App {
            manager,
            conn_idx,
            win_id,
            tabs,
            scrollback,
            mods: ModifiersState::default(),
            focused: true,
            mouse_down: false,
            selecting: false,
            selection: None,
            sync_skip_count: 0,
            sidebar_override: None,
        }
    }

    // ---- reading ----

    /// Whether the sidebar is shown.
    pub fn show_sidebar(&self) -> (r: bool)
        requires
            self.wf(),
        ensures
            r == self@.sidebar_shown(),
    {
        match self.sidebar_override {
            Some(b) => b,
            None => self.tabs.len() > 1,
        }
    }

    /// The connection and the window that are shown.
    pub fn shown(&self) -> (place: (usize, usize))
        requires
            self.wf(),
        ensures
            place == (self@.conn, self@.win),
    {
        (self.conn_idx, self.win_id)
    }

    /// The tabs, each a connection and a window.
    pub fn tabs(&self) -> (tabs: &Vec<(usize, usize)>)
        requires
            self.wf(),
        ensures
            tabs@ == self@.tabs,
    {
        &self.tabs
    }

    /// What is selected.
    pub fn selection(&self) -> (selection: Option<Selection>)
        requires
            self.wf(),
        ensures
            selection == self@.selection,
    {
        self.selection
    }

    /// The connections and their windows.
    pub fn manager(&self) -> (manager: &ConnectionManager)
        requires
            self.wf(),
        ensures
            manager@ == self@.manager,
            manager.wf(),
    {
        &self.manager
    }

    /// A window.
    pub fn window(&self, conn: usize, win: usize) -> (w: Option<&Window>)
        requires
            self.wf(),
        ensures
            match w {
                Some(w) => self@.manager.window(conn as int, win) == Some(w@) && w.wf(),
                None => self@.manager.window(conn as int, win) is None,
            },
    {
        match self.manager.connection(conn) {
            Some(c) => c.window(win),
            None => None,
        }
    }

    /// The window that is shown.
    pub fn active(&self) -> (w: Option<&Window>)
        requires
            self.wf(),
        ensures
            match w {
                Some(w) => self@.active() == Some(w@) && w.wf(),
                None => self@.active() is None,
            },
    {
        self.window(self.conn_idx, self.win_id)
    }

    /// Whether the application updates the screen and wants no redraw.
    fn active_syncing(&self) -> (r: bool)
        requires
            self.wf(),
        ensures
            r == self@.syncing(),
    {
        match self.active() {
            Some(w) => w.grid.modes().sync_output,
            None => false,
        }
    }

    /// The title of a window.
    fn title_of(&self, conn: usize, win: usize) -> (title: String)
        requires
            self.wf(),
        ensures
            title@ == self@.title_of(conn, win),
    {
        match self.window(conn, win) {
            Some(w) => w.title.clone(),
            None => term_text(),
        }
    }

    /// The title of the window that is shown.
    pub fn active_title(&self) -> (title: String)
        requires
            self.wf(),
        ensures
            title@ == self@.active_title(),
    {
        self.title_of(self.conn_idx, self.win_id)
    }

    /// Bytes for the window that is shown.
    fn write_active(&self, bytes: Vec<u8>) -> (out: Vec<Effect>)
        requires
            self.wf(),
        ensures
            effects_view(out@) == self@.write_active(bytes@),
    {
        match self.active() {
            Some(_) => one_effect(Effect::Write { conn: self.conn_idx, win: self.win_id, bytes }),
            None => no_effects(),
        }
    }

    // ---- the sidebar ----

    /// The rows of the sidebar, and what a click on each leads to.
    pub fn build_sidebar(&self) -> (r: (Vec<SidebarItem>, Vec<SidebarTarget>))
        requires
            self.wf(),
        ensures
            crate::render::items_view(r.0@) == self@.sidebar_rows(
                self@.manager.connections.len() as int,
            ),
            r.1@ == self@.sidebar_targets(self@.manager.connections.len() as int),
    {
        let mut items: Vec<SidebarItem> = Vec::new();
        let mut targets: Vec<SidebarTarget> = Vec::new();
        let mut ci: usize = 0;
        assert(crate::render::items_view(items@) =~= Seq::empty());
        while ci < self.manager.connections.len()
            invariant
                self.wf(),
                ci <= self.manager.connections@.len(),
                crate::render::items_view(items@) == self@.sidebar_rows(ci as int),
                targets@ == self@.sidebar_targets(ci as int),
            decreases self.manager.connections@.len() - ci,
        {
            let conn = &self.manager.connections[ci];
            let ghost state = self@.manager.connections[ci as int];
            let ghost shown = self@.shown_on(ci as int);
            let ghost rows = crate::session::connection_rows(state, shown);
            let ghost leads = crate::session::connection_targets(ci, state);
            let ghost rows0 = crate::render::items_view(items@);
            let ghost leads0 = targets@;
            assert(conn@ == state);
            items.push(
                SidebarItem {
                    label: conn.label().to_owned(),
                    is_host: true,
                    status: WinStatus::Idle,
                    activity: false,
                    alerted: false,
                    active: false,
                },
            );
            targets.push(SidebarTarget::Host(ci));
            let windows = conn.windows();
            let mut i: usize = 0;
            proof {
                assert(crate::render::items_view(items@) =~= rows0 + rows.take(1));
                assert(targets@ =~= leads0 + leads.take(1));
            }
            while i < windows.len()
                invariant
                    self.wf(),
                    ci < self.manager.connections@.len(),
                    i <= windows@.len(),
                    state == self@.manager.connections[ci as int],
                    crate::connection::windows_view(windows@) == state.windows,
                    shown == self@.shown_on(ci as int),
                    rows == crate::session::connection_rows(state, shown),
                    leads == crate::session::connection_targets(ci, state),
                    crate::render::items_view(items@) == rows0 + rows.take(i + 1),
                    targets@ == leads0 + leads.take(i + 1),
                decreases windows@.len() - i,
            {
                let w = &windows[i];
                let ghost before = crate::render::items_view(items@);
                assert(state.windows[i as int] == w@);
                let active = ci == self.conn_idx && w.id == self.win_id;
                items.push(
                    SidebarItem {
                        label: w.title.clone(),
                        is_host: false,
                        status: w.status,
                        activity: w.activity,
                        alerted: w.alerted,
                        active,
                    },
                );
                targets.push(SidebarTarget::Win(ci, w.id));
                proof {
                    assert(rows[i + 1] == crate::session::window_row(w@, shown == Some(w.id)));
                    assert(crate::render::items_view(items@) =~= before.push(rows[i + 1]));
                    assert(before.push(rows[i + 1]) =~= rows0 + rows.take(i + 2));
                    assert(targets@ =~= leads0 + leads.take(i + 2));
                }
                i += 1;
            }
            proof {
                assert(rows.take(i + 1) =~= rows);
                assert(leads.take(i + 1) =~= leads);
            }
            ci += 1;
        }
        (items, targets)
    }

    // ---- sizes ----

    /// Gives every screen, shown or not, another size.
    pub fn sync_all_sizes(&mut self, cols: u16, rows: u16) -> (out: Vec<Effect>)
        requires
            old(self).wf(),
        ensures
            final(self).wf(),
            final(self)@ == old(self)@.resized(cols, rows),
            effects_view(out@) == old(self)@.resized_effects(cols, rows),
    {
        let ghost goal = self@.resized_effects(cols, rows);
        self.manager.resize_windows(cols, rows);
        let mut out = no_effects();
        let mut i: usize = 0;
        assert(goal.take(0) =~= Seq::empty());
        while i < self.tabs.len()
            invariant
                i <= self.tabs@.len(),
                self.tabs@ == old(self)@.tabs,
                goal == old(self)@.resized_effects(cols, rows),
                effects_view(out@) == goal.take(i as int),
            decreases self.tabs@.len() - i,
        {
            let (conn, win) = self.tabs[i];
            push_effect(&mut out, Effect::Resize { conn, win, cols, rows });
            i += 1;
            assert(goal.take(i as int) =~= goal.take(i - 1).push(goal[i - 1]));
        }
        assert(goal.take(i as int) =~= goal);
        out
    }

    // ---- tabs ----

    /// Shows another window.
    pub fn switch_to(&mut self, conn: usize, win: usize) -> (out: Vec<Effect>)
        requires
            old(self).wf(),
        ensures
            final(self).wf(),
            final(self)@ == old(self)@.switched(conn, win),
            effects_view(out@) == old(self)@.switched_effects(conn, win),
    {
        let title = self.title_of(conn, win);
        let ghost m = self.manager@;
        self.conn_idx = conn;
        self.win_id = win;
        self.selection = None;
        self.selecting = false;
        proof {
            crate::manager::lemma_window(m, conn as int, win);
            if let Some(w) = m.window(conn as int, win) {
                crate::manager::lemma_with_window(
                    m,
                    conn as int,
                    win,
                    WindowState {
                        activity: false,
                        alerted: false,
                        ..w.with_screen(w.screen.reset_view())
                    },
                );
            }
        }
        if let Some(w) = self.manager.window_mut(conn, win) {
            w.activity = false;
            w.alerted = false;
            w.grid.reset_view();
        }
        let mut out = one_effect(Effect::Title(title));
        push_effect(&mut out, Effect::Redraw);
        assert(effects_view(out@) =~= old(self)@.switched_effects(conn, win));
        out
    }

    /// Closes a window and takes it from the tabs.
    fn remove_window(&mut self, conn: usize, win: usize) -> (out: Vec<Effect>)
        requires
            old(self).wf(),
        ensures
            final(self).wf(),
            final(self)@ == old(self)@.removed(conn, win),
            effects_view(out@) == old(self)@.removed_effects(conn, win),
    {
        let mut out = no_effects();
        let ghost m = self.manager@;
        if let Some(c) = self.manager.connection_mut(conn) {
            if c.close_window(win) {
                push_effect(&mut out, Effect::Close { conn, win });
            }
        }
        assert(self.manager@ =~= m.without(conn as int, win));
        self.tabs = self.manager.all_windows();
        push_effect(&mut out, Effect::Relayout);
        assert(effects_view(out@) =~= old(self)@.removed_effects(conn, win));
        out
    }

    /// Closes the window that is shown, and shows the last tab. Without a tab left,
    /// the program ends.
    pub fn close_active_tab(&mut self) -> (out: Vec<Effect>)
        requires
            old(self).wf(),
        ensures
            final(self).wf(),
            final(self)@ == old(self)@.active_closed(),
            effects_view(out@) == old(self)@.active_closed_effects(),
    {
        let mut out = self.remove_window(self.conn_idx, self.win_id);
        let more = if self.tabs.len() == 0 {
            one_effect(Effect::Exit)
        } else {
            let (conn, win) = self.tabs[self.tabs.len() - 1];
            self.switch_to(conn, win)
        };
        push_effects(&mut out, more);
        out
    }

    /// The program in a window has ended.
    pub fn on_closed(&mut self, conn: usize, win: usize) -> (out: Vec<Effect>)
        requires
            old(self).wf(),
        ensures
            final(self).wf(),
            final(self)@ == old(self)@.ended(conn, win),
            effects_view(out@) == old(self)@.ended_effects(conn, win),
    {
        if conn == self.conn_idx && win == self.win_id {
            self.close_active_tab()
        } else {
            let mut out = self.remove_window(conn, win);
            push_effect(&mut out, Effect::Redraw);
            out
        }
    }

    /// Adds a window to a connection, once its program has been started, and shows
    /// it. There is none to add where there is no such connection, or where it has
    /// no identifier left.
    pub fn add_window(&mut self, conn: usize, cols: u16, rows: u16) -> (r: Option<
        (usize, Vec<Effect>),
    >)
        requires
            old(self).wf(),
        ensures
            final(self).wf(),
            match r {
                Some((id, out)) => {
                    &&& old(self)@.can_add(conn)
                    &&& final(self)@ == old(self)@.added(conn, cols, rows)
                    &&& id == old(self)@.manager.connections[conn as int].next_id
                    &&& effects_view(out@) == old(self)@.added_effects(conn, cols, rows)
                },
                None => !old(self)@.can_add(conn) && final(self)@ == old(self)@,
            },
    {
        let scrollback = self.scrollback;
        let ghost m = self.manager@;
        let free = match self.manager.connection(conn) {
            Some(c) => c.has_free_id(),
            None => false,
        };
        if !free {
            return None;
        }
        let mut id: usize = 0;
        if let Some(c) = self.manager.connection_mut(conn) {
            id = c.open_window(cols, rows);
            let ghost opened = c@;
            proof {
                crate::connection::lemma_place(opened, id, opened.windows.len() - 1);
                let w = opened.windows.last();
                if let Some(n) = scrollback {
                    crate::connection::lemma_with_window(
                        opened,
                        id,
                        w.with_screen(w.screen.set_scrollback_max(n as int)),
                    );
                }
            }
            if let Some(n) = scrollback {
                if let Some(w) = c.window_mut(id) {
                    w.grid.set_scrollback_max(n);
                }
            }
        }
        self.tabs = self.manager.all_windows();
        assert(self@ =~= old(self)@.grown(conn, cols, rows));
        let mut out = one_effect(Effect::Relayout);
        let more = self.switch_to(conn, id);
        push_effects(&mut out, more);
        Some((id, out))
    }

    /// Shows a tab by its place, if there is one.
    pub fn select_tab(&mut self, idx: usize) -> (out: Vec<Effect>)
        requires
            old(self).wf(),
        ensures
            final(self).wf(),
            final(self)@ == old(self)@.tab_selected(idx as int),
            effects_view(out@) == old(self)@.tab_selected_effects(idx as int),
    {
        if idx < self.tabs.len() {
            let (conn, win) = self.tabs[idx];
            self.switch_to(conn, win)
        } else {
            no_effects()
        }
    }

    /// The place of the tab that is shown.
    fn current_tab(&self) -> (place: usize)
        requires
            self.wf(),
            self@.tabs.len() > 0,
        ensures
            place == self@.current_tab(),
            place < self@.tabs.len(),
    {
        let ghost shown = (self.conn_idx, self.win_id);
        let mut i: usize = 0;
        while i < self.tabs.len()
            invariant
                self.wf(),
                shown == (self.conn_idx, self.win_id),
                self@.tabs.len() > 0,
                i <= self.tabs@.len(),
                forall|j: int| 0 <= j < i ==> self.tabs@[j] != shown,
            decreases self.tabs@.len() - i,
        {
            let (conn, win) = self.tabs[i];
            if conn == self.conn_idx && win == self.win_id {
                proof {
                    crate::screen::lemma_first_place(self.tabs@, shown, i as int);
                }
                return i;
            }
            i += 1;
        }
        proof {
            crate::screen::lemma_first_place(self.tabs@, shown, i as int);
        }
        0
    }

    /// Shows the next tab, or the one before. They go round.
    pub fn cycle_tab(&mut self, forward: bool) -> (out: Vec<Effect>)
        requires
            old(self).wf(),
        ensures
            final(self).wf(),
            final(self)@ == old(self)@.cycled(forward),
            effects_view(out@) == old(self)@.cycled_effects(forward),
    {
        let n: usize = self.tabs.len();
        if n < 2 {
            return no_effects();
        }
        let cur: usize = self.current_tab();
        let next: usize = if forward {
            if cur + 1 == n {
                0
            } else {
                cur + 1
            }
        } else {
            if cur == 0 {
                n - 1
            } else {
                cur - 1
            }
        };
        self.select_tab(next)
    }

    // ---- the clipboard ----

    /// Text for the clipboard; none for empty text.
    fn set_clipboard(text: String) -> (out: Vec<Effect>)
        ensures
            effects_view(out@) == AppState::clipboard_effects(text@),
    {
        if is_empty_text(text.as_str()) {
            no_effects()
        } else {
            one_effect(Effect::SetClipboard(text))
        }
    }

    /// Copies the text that is selected.
    pub fn copy_selection(&self) -> (out: Vec<Effect>)
        requires
            self.wf(),
        ensures
            effects_view(out@) == self@.copied_effects(),
    {
        match self.selection {
            None => no_effects(),
            Some(sel) => {
                if sel.is_empty() {
                    return no_effects();
                }
                match self.active() {
                    None => no_effects(),
                    Some(w) => {
                        let text = w.grid.text_in_span(sel.anchor, sel.head);
                        App::set_clipboard(text)
                    },
                }
            },
        }
    }

    /// Pastes text into the window that is shown.
    pub fn paste(&self, text: &str) -> (out: Vec<Effect>)
        requires
            self.wf(),
        ensures
            effects_view(out@) == self@.pasted_effects(text@),
    {
        match self.active() {
            None => no_effects(),
            Some(w) => {
                if is_empty_text(text) {
                    return no_effects();
                }
                let bracketed = w.grid.modes().bracketed_paste;
                self.write_active(encode_paste(text, bracketed))
            },
        }
    }

    // ---- notifications ----

    fn is_unseen(&self, conn: usize, win: usize) -> (r: bool)
        requires
            self.wf(),
        ensures
            r == self@.unseen(conn, win),
    {
        !self.focused || !(conn == self.conn_idx && win == self.win_id)
    }

    /// A notification from a window: where the window is out of sight, it is marked,
    /// and the notification is shown on the desktop.
    pub fn notify(&mut self, conn: usize, win: usize, title: String, body: String) -> (out: Vec<
        Effect,
    >)
        requires
            old(self).wf(),
        ensures
            final(self).wf(),
            final(self)@ == old(self)@.notified(conn, win),
            effects_view(out@) == old(self)@.notified_effects(conn, win, title@, body@),
    {
        let ghost m = self.manager@;
        if self.is_unseen(conn, win) {
            proof {
                crate::manager::lemma_window(m, conn as int, win);
                if let Some(w) = m.window(conn as int, win) {
                    crate::manager::lemma_with_window(
                        m,
                        conn as int,
                        win,
                        WindowState { alerted: true, ..w },
                    );
                }
            }
            if let Some(w) = self.manager.window_mut(conn, win) {
                w.alerted = true;
            }
            let summary = if is_empty_text(title.as_str()) {
                term_text()
            } else {
                title
            };
            let mut out = one_effect(Effect::Notify { summary, body });
            push_effect(&mut out, Effect::Redraw);
            assert(effects_view(out@) =~= old(self)@.notified_effects(conn, win, title@, body@));
            out
        } else {
            one_effect(Effect::Redraw)
        }
    }

    /// The bell of a window.
    pub fn on_bell(&mut self, conn: usize, win: usize) -> (out: Vec<Effect>)
        requires
            old(self).wf(),
        ensures
            final(self).wf(),
            final(self)@ == old(self)@.notified(conn, win),
            effects_view(out@) == old(self)@.belled_effects(conn, win),
    {
        if self.is_unseen(conn, win) {
            let title = self.title_of(conn, win);
            self.notify(conn, win, title, done_text())
        } else {
            no_effects()
        }
    }

    // ---- output ----

    /// An event that a window has passed on.
    fn on_event(&mut self, conn: usize, win: usize, ev: TermEvent) -> (out: Vec<Effect>)
        requires
            old(self).wf(),
        ensures
            final(self).wf(),
            final(self)@ == old(self)@.after_event(conn, win, ev@),
            effects_view(out@) == old(self)@.event_effects(conn, win, ev@),
    {
        match ev {
            TermEvent::SetClipboard(text) => App::set_clipboard(text),
            TermEvent::Bell => self.on_bell(conn, win),
            TermEvent::Notify(title, body) => self.notify(conn, win, title, body),
            TermEvent::Cwd(path) => {
                let ghost m = self.manager@;
                proof {
                    crate::manager::lemma_window(m, conn as int, win);
                    if let Some(w) = m.window(conn as int, win) {
                        crate::manager::lemma_with_window(
                            m,
                            conn as int,
                            win,
                            WindowState { cwd: Some(path@), ..w },
                        );
                    }
                }
                if let Some(w) = self.manager.window_mut(conn, win) {
                    w.cwd = Some(path);
                }
                no_effects()
            },
            _ => no_effects(),
        }
    }

    /// A redraw, unless the application updates the screen; then it is held back,
    /// but not for ever.
    fn pace(&mut self) -> (out: Vec<Effect>)
        requires
            old(self).wf(),
        ensures
            final(self).wf(),
            final(self)@ == old(self)@.paced(),
            effects_view(out@) == old(self)@.paced_effects(),
    {
        if self.active_syncing() && self.sync_skip_count < SYNC_LIMIT {
            self.sync_skip_count = self.sync_skip_count + 1;
            no_effects()
        } else {
            self.sync_skip_count = 0;
            one_effect(Effect::Redraw)
        }
    }

    /// The answers of a window to the program in it.
    fn replies(conn: usize, win: usize, replies: Vec<Vec<u8>>) -> (out: Vec<Effect>)
        ensures
            effects_view(out@) == AppState::reply_effects(
                conn,
                win,
                crate::decode::nested(replies@),
            ),
    {
        let ghost goal = AppState::reply_effects(conn, win, crate::decode::nested(replies@));
        let mut out = no_effects();
        assert(goal.take(0) =~= Seq::empty());
        for bytes in it: replies
            invariant
                it.seq() == replies@,
                goal == AppState::reply_effects(conn, win, crate::decode::nested(replies@)),
                effects_view(out@) == goal.take(it.index()),
        {
            let ghost i = it.index();
            push_effect(&mut out, Effect::Write { conn, win, bytes });
            assert(goal[i] == EffectView::Write { conn, win, bytes: bytes@ });
            assert(goal.take(i + 1) =~= goal.take(i).push(goal[i]));
        }
        assert(goal.take(goal.len() as int) =~= goal);
        out
    }

    /// Gives output to a window. Hands back the answers and the events that the
    /// window passes on.
    fn feed_window(&mut self, conn: usize, win: usize, bytes: &[u8]) -> (r: Option<
        (Vec<Vec<u8>>, Vec<TermEvent>),
    >)
        requires
            old(self).wf(),
        ensures
            final(self).wf(),
            match (old(self)@.manager.window(conn as int, win), r) {
                (Some(w), Some((answers, others))) => {
                    &&& final(self)@ == old(self)@.fed(conn, win, w, bytes@)
                    &&& crate::decode::nested(answers@) == crate::window::replies_of(
                        w.after_output(bytes@).screen.events,
                    )
                    &&& crate::event::events_view(others@) == crate::window::others_of(
                        w.after_output(bytes@).screen.events,
                    )
                },
                (None, None) => final(self)@ == old(self)@,
                _ => false,
            },
    {
        let is_active = conn == self.conn_idx && win == self.win_id;
        let ghost m = self.manager@;
        proof {
            crate::manager::lemma_window(m, conn as int, win);
        }
        match self.manager.window_mut(conn, win) {
            None => None,
            Some(w) => {
                let ghost before = w@;
                let scrolled = w.grid.view_offset() > 0;
                w.feed(bytes);
                let r = w.settle();
                if !is_active {
                    w.activity = true;
                }
                proof {
                    crate::window::lemma_settled_id(before.after_output(bytes@));
                    crate::manager::lemma_with_window(m, conn as int, win, w@);
                }
                if is_active && scrolled {
                    self.selection = None;
                }
                assert(self@ =~= old(self)@.fed(conn, win, before, bytes@));
                Some(r)
            },
        }
    }

    /// Output for a window.
    pub fn on_output(&mut self, conn: usize, win: usize, bytes: &[u8]) -> (out: Vec<Effect>)
        requires
            old(self).wf(),
        ensures
            final(self).wf(),
            final(self)@ == old(self)@.after_output(conn, win, bytes@),
            effects_view(out@) == old(self)@.output_effects(conn, win, bytes@),
    {
        let is_active = conn == self.conn_idx && win == self.win_id;
        let mut out = no_effects();
        let mut events: Vec<TermEvent> = Vec::new();
        if let Some((answers, others)) = self.feed_window(conn, win, bytes) {
            out = App::replies(conn, win, answers);
            events = others;
        }
        let ghost s = self@;
        let ghost replied = effects_view(out@);
        if is_active {
            let title = self.active_title();
            push_effect(&mut out, Effect::Title(title));
        }
        assert(effects_view(out@) =~= replied + s.retitled_effects(conn, win));
        let ghost titled = effects_view(out@);
        let ghost all = crate::event::events_view(events@);
        assert(all.take(0) =~= Seq::empty());
        assert(titled + s.events_effects(conn, win, all.take(0)) =~= titled);
        for ev in it: events
            invariant
                it.seq() == events@,
                all == crate::event::events_view(events@),
                self.wf(),
                self@ == s.after_events(conn, win, all.take(it.index())),
                effects_view(out@) == titled + s.events_effects(
                    conn,
                    win,
                    all.take(it.index()),
                ),
        {
            let ghost i = it.index();
            proof {
                assert(all[i] == ev@);
                assert(all.take(i + 1).drop_last() =~= all.take(i));
                assert(all.take(i + 1).last() == ev@);
            }
            let more = self.on_event(conn, win, ev);
            push_effects(&mut out, more);
            assert(effects_view(out@) =~= titled + s.events_effects(conn, win, all.take(i + 1)));
        }
        assert(all.take(all.len() as int) =~= all);
        let more = self.pace();
        push_effects(&mut out, more);
        assert(effects_view(out@) =~= old(self)@.output_effects(conn, win, bytes@));
        out
    }

    /// What the program in a window has sent.
    pub fn user_event(&mut self, event: UserEvent) -> (out: Vec<Effect>)
        requires
            old(self).wf(),
        ensures
            final(self).wf(),
            match event {
                UserEvent::Pty { conn, win, bytes } => {
                    &&& final(self)@ == old(self)@.after_output(conn, win, bytes@)
                    &&& effects_view(out@) == old(self)@.output_effects(conn, win, bytes@)
                },
                UserEvent::Closed { conn, win } => {
                    &&& final(self)@ == old(self)@.ended(conn, win)
                    &&& effects_view(out@) == old(self)@.ended_effects(conn, win)
                },
            },
    {
        match event {
            UserEvent::Pty { conn, win, bytes } => self.on_output(conn, win, bytes.as_slice()),
            UserEvent::Closed { conn, win } => self.on_closed(conn, win),
        }
    }

    /// Uses up an identifier for a window that could not be added.
    pub fn skip_window(&mut self, conn: usize)
        requires
            old(self).wf(),
        ensures
            final(self).wf(),
            final(self)@ == old(self)@.skipped(conn),
    {
        let ghost m = self.manager@;
        let free = match self.manager.connection(conn) {
            Some(c) => c.has_free_id(),
            None => false,
        };
        if !free {
            return ;
        }
        if let Some(c) = self.manager.connection_mut(conn) {
            c.skip_id();
        }
        proof {
            let after = m.with_connection(conn as int, m.connections[conn as int].skipped());
            assert forall|i: int| 0 <= i < m.connections.len() implies (
            #[trigger] after.connections[i]).ids() == m.connections[i].ids() by {}
            crate::manager::lemma_same_ids(m, after, m.connections.len() as int);
            assert(self@ =~= old(self)@.skipped(conn));
        }
    }

    // ---- keys ----

    /// The modifiers that are held from now on.
    pub fn set_modifiers(&mut self, mods: ModifiersState)
        requires
            old(self).wf(),
        ensures
            final(self).wf(),
            final(self)@ == (AppState { mods, ..old(self)@ }),
    {
        self.mods = mods;
    }

    /// The program gets the focus, or loses it.
    pub fn focus(&mut self, focused: bool) -> (out: Vec<Effect>)
        requires
            old(self).wf(),
        ensures
            final(self).wf(),
            final(self)@ == old(self)@.focus_changed(focused),
            effects_view(out@) == old(self)@.focus_effects(focused),
    {
        let wanted = match self.active() {
            Some(w) => w.grid.modes().focus_event,
            None => false,
        };
        let mut out = if wanted {
            let bytes: Vec<u8> = vec![
                0x1b,
                0x5b,
                if focused {
                    0x49
                } else {
                    0x4f
                },
            ];
            assert(bytes@ =~= seq![
                0x1bu8,
                0x5bu8,
                if focused {
                    0x49u8
                } else {
                    0x4fu8
                },
            ]);
            self.write_active(bytes)
        } else {
            no_effects()
        };
        self.focused = focused;
        if focused {
            let ghost m = self.manager@;
            proof {
                crate::manager::lemma_window(m, self.conn_idx as int, self.win_id);
                if let Some(w) = m.window(self.conn_idx as int, self.win_id) {
                    crate::manager::lemma_with_window(
                        m,
                        self.conn_idx as int,
                        self.win_id,
                        WindowState { alerted: false, ..w },
                    );
                }
            }
            if let Some(w) = self.manager.window_mut(self.conn_idx, self.win_id) {
                w.alerted = false;
            }
        }
        push_effect(&mut out, Effect::Redraw);
        out
    }

    /// Scrolls the view of the window that is shown.
    fn scroll_view(&mut self, up: bool, n: usize)
        requires
            old(self).wf(),
        ensures
            final(self).wf(),
            final(self)@ == old(self)@.scrolled(up, n as int),
    {
        let ghost m = self.manager@;
        self.selection = None;
        proof {
            crate::manager::lemma_window(m, self.conn_idx as int, self.win_id);
            if let Some(w) = m.window(self.conn_idx as int, self.win_id) {
                crate::manager::lemma_with_window(
                    m,
                    self.conn_idx as int,
                    self.win_id,
                    w.with_screen(
                        if up {
                            w.screen.scroll_view_up(n as int)
                        } else {
                            w.screen.scroll_view_down(n as int)
                        },
                    ),
                );
            }
        }
        if let Some(w) = self.manager.window_mut(self.conn_idx, self.win_id) {
            if up {
                w.grid.scroll_view_up(n);
            } else {
                w.grid.scroll_view_down(n);
            }
        }
    }

    /// Scrolls the view by a page.
    fn scroll_page(&mut self, up: bool)
        requires
            old(self).wf(),
        ensures
            final(self).wf(),
            final(self)@ == old(self)@.paged(up),
    {
        let rows: usize = match self.active() {
            Some(w) => w.grid.size().1,
            None => 1,
        };
        self.scroll_view(up, rows - 1);
    }

    /// Deals with a key that is not for the application. Gives nothing for a key that
    /// is.
    pub fn handle_shortcut(&mut self, key: &Key) -> (r: Option<Vec<Effect>>)
        requires
            old(self).wf(),
        ensures
            final(self).wf(),
            match r {
                Some(out) => {
                    &&& old(self)@.swallows(*key)
                    &&& forall|text: Option<Seq<char>>|
                        {
                            &&& final(self)@ == #[trigger] old(self)@.key_pressed(*key, text)
                            &&& effects_view(out@) == old(self)@.key_effects(*key, text)
                        }
                },
                None => !old(self)@.swallows(*key) && final(self)@ == old(self)@,
            },
    {
        if self.mods.shift {
            if let Key::Named(named) = key {
                if *named == NamedKey::PageUp {
                    self.scroll_page(true);
                    return Some(one_effect(Effect::Redraw));
                }
                if *named == NamedKey::PageDown {
                    self.scroll_page(false);
                    return Some(one_effect(Effect::Redraw));
                }
            }
        }
        assert(self@.scroll_key(*key) is None);
        if self.mods.super_key || (self.mods.control && self.mods.shift) {
            if let Some(shortcut) = find_shortcut(key) {
                return Some(self.do_shortcut(shortcut));
            }
        }
        if self.mods.super_key {
            Some(no_effects())
        } else {
            None
        }
    }

    /// Carries out a shortcut.
    fn do_shortcut(&mut self, shortcut: Shortcut) -> (out: Vec<Effect>)
        requires
            old(self).wf(),
        ensures
            final(self).wf(),
            final(self)@ == old(self)@.shortcut_done(shortcut),
            effects_view(out@) == old(self)@.shortcut_effects(shortcut),
    {
        match shortcut {
            Shortcut::Copy => self.copy_selection(),
            Shortcut::Paste => one_effect(Effect::Paste),
            Shortcut::NewTab => one_effect(Effect::Open { conn: self.conn_idx }),
            Shortcut::CloseTab => self.close_active_tab(),
            Shortcut::ToggleSidebar => {
                let shown = self.show_sidebar();
                self.sidebar_override = Some(!shown);
                let mut out = one_effect(Effect::Relayout);
                push_effect(&mut out, Effect::Redraw);
                assert(effects_view(out@) =~= old(self)@.shortcut_effects(shortcut));
                out
            },
            Shortcut::PreviousTab => self.cycle_tab(false),
            Shortcut::NextTab => self.cycle_tab(true),
            Shortcut::Tab(n) => self.select_tab(n),
        }
    }

    /// A key is pressed; `text` is what the keyboard layout makes of it. It is a
    /// shortcut, or goes to the application.
    pub fn key(&mut self, key: &Key, text: Option<&str>) -> (out: Vec<Effect>)
        requires
            old(self).wf(),
        ensures
            final(self).wf(),
            final(self)@ == old(self)@.key_pressed(*key, text_view(text)),
            effects_view(out@) == old(self)@.key_effects(*key, text_view(text)),
    {
        if let Some(out) = self.handle_shortcut(key) {
            assert(self@ == old(self)@.key_pressed(*key, text_view(text)));
            return out;
        }
        let app_cursor = match self.active() {
            Some(w) => w.grid.modes().app_cursor_keys,
            None => false,
        };
        match encode(key, text, self.mods, app_cursor) {
            None => no_effects(),
            Some(bytes) => {
                let mut out = self.write_active(bytes);
                let ghost m = self.manager@;
                self.selection = None;
                proof {
                    crate::manager::lemma_window(m, self.conn_idx as int, self.win_id);
                    if let Some(w) = m.window(self.conn_idx as int, self.win_id) {
                        crate::manager::lemma_with_window(
                            m,
                            self.conn_idx as int,
                            self.win_id,
                            w.with_screen(w.screen.reset_view()),
                        );
                    }
                }
                if let Some(w) = self.manager.window_mut(self.conn_idx, self.win_id) {
                    w.grid.reset_view();
                }
                push_effect(&mut out, Effect::Redraw);
                out
            },
        }
    }

    // ---- the mouse ----

    /// The mouse events that the application wants.
    fn mouse_proto(&self) -> (proto: MouseProto)
        requires
            self.wf(),
        ensures
            proto == self@.mouse_proto(),
    {
        match self.active() {
            Some(w) => w.grid.modes().mouse_proto,
            None => MouseProto::Off,
        }
    }

    /// Reports a mouse event at a cell to an application that wants it.
    pub fn mouse_report(&self, cell: (usize, usize), btn: u8, press: bool) -> (out: Vec<Effect>)
        requires
            self.wf(),
            cell.0 < usize::MAX,
            cell.1 < usize::MAX,
        ensures
            effects_view(out@) == self@.report_effects(cell, btn, press),
    {
        match self.active() {
            None => no_effects(),
            Some(w) => {
                let modes = w.grid.modes();
                if modes.mouse_proto == MouseProto::Off {
                    no_effects()
                } else {
                    self.write_active(mouse_report_bytes(modes.mouse_sgr, btn, cell, press))
                }
            },
        }
    }

    /// The mouse has moved to a cell.
    pub fn cursor_moved(&mut self, cell: (usize, usize)) -> (out: Vec<Effect>)
        requires
            old(self).wf(),
            cell.0 < usize::MAX,
            cell.1 < usize::MAX,
        ensures
            final(self).wf(),
            final(self)@ == old(self)@.pointed(cell),
            effects_view(out@) == old(self)@.pointed_effects(cell),
    {
        if self.selecting {
            if let Some(sel) = self.selection {
                self.selection = Some(Selection { anchor: sel.anchor, head: cell });
            }
            one_effect(Effect::Redraw)
        } else if self.mouse_down {
            let proto = self.mouse_proto();
            if proto == MouseProto::ButtonEvent || proto == MouseProto::AnyEvent {
                self.mouse_report(cell, 32, true)
            } else {
                no_effects()
            }
        } else if self.mouse_proto() == MouseProto::AnyEvent {
            self.mouse_report(cell, 35, true)
        } else {
            no_effects()
        }
    }

    /// A click on a row of the sidebar.
    fn sidebar_click(&mut self, row: usize) -> (out: Vec<Effect>)
        requires
            old(self).wf(),
        ensures
            final(self).wf(),
            final(self)@ == old(self)@.sidebar_clicked(row as int),
            effects_view(out@) == old(self)@.sidebar_effects(row as int),
    {
        let (_, targets) = self.build_sidebar();
        if row >= targets.len() {
            return no_effects();
        }
        match targets[row] {
            SidebarTarget::Win(conn, win) => self.switch_to(conn, win),
            SidebarTarget::Host(conn) => one_effect(Effect::Open { conn }),
        }
    }

    /// The left button goes down or up, at a cell, or on a row of the sidebar.
    pub fn mouse_left(&mut self, down: bool, row: Option<usize>, cell: (usize, usize)) -> (out: Vec<
        Effect,
    >)
        requires
            old(self).wf(),
            cell.0 < usize::MAX,
            cell.1 < usize::MAX,
        ensures
            final(self).wf(),
            final(self)@ == old(self)@.clicked(down, row, cell),
            effects_view(out@) == old(self)@.click_effects(down, row, cell),
    {
        self.mouse_down = down;
        let ghost s = self@;
        if down {
            if let Some(r) = row {
                proof {
                    lemma_same_sidebar(old(self)@, s, s.manager.connections.len() as int);
                }
                return self.sidebar_click(r);
            }
        }
        if self.mouse_proto() != MouseProto::Off && !self.mods.shift {
            self.mouse_report(cell, 0, down)
        } else if down {
            self.selection = Some(Selection { anchor: cell, head: cell });
            self.selecting = true;
            one_effect(Effect::Redraw)
        } else {
            self.selecting = false;
            match self.selection {
                None => no_effects(),
                Some(sel) => {
                    if !sel.is_empty() {
                        return no_effects();
                    }
                    let link = match self.active() {
                        Some(w) => w.grid.link_at(sel.anchor.0, sel.anchor.1),
                        None => None,
                    };
                    self.selection = None;
                    match link {
                        Some(url) => if is_openable(url.as_str()) {
                            one_effect(Effect::OpenUrl(url))
                        } else {
                            no_effects()
                        },
                        None => no_effects(),
                    }
                },
            }
        }
    }

    /// The wheel turns by `step` lines, at a cell.
    pub fn wheel(&mut self, up: bool, step: usize, cell: (usize, usize)) -> (out: Vec<Effect>)
        requires
            old(self).wf(),
            cell.0 < usize::MAX,
            cell.1 < usize::MAX,
        ensures
            final(self).wf(),
            final(self)@ == old(self)@.wheeled(up, step as int),
            effects_view(out@) == old(self)@.wheel_effects(up, step as int, cell),
    {
        let taken = match self.active() {
            Some(w) => w.grid.modes().mouse_proto != MouseProto::Off || w.grid.on_alt(),
            None => false,
        };
        if !taken {
            self.scroll_view(up, step);
            return one_effect(Effect::Redraw);
        }
        let btn: u8 = if up {
            64
        } else {
            65
        };
        let n: usize = if step < 5 {
            step
        } else {
            5
        };
        let mut out = no_effects();
        let ghost each = self@.report_effects(cell, btn, true);
        let mut i: usize = 0;
        while i < n
            invariant
                *self == *old(self),
                self.wf(),
                cell.0 < usize::MAX,
                cell.1 < usize::MAX,
                i <= n,
                each == self@.report_effects(cell, btn, true),
                effects_view(out@) == crate::session::repeated(each, i as nat),
            decreases n - i,
        {
            let more = self.mouse_report(cell, btn, true);
            push_effects(&mut out, more);
            i += 1;
        }
        out
    }
}

/// The sidebar does not hang on whether the button is down.
proof fn lemma_same_sidebar(a: AppState, b: AppState, n: int)
    requires
        a.manager == b.manager,
    ensures
        a.sidebar_targets(n) == b.sidebar_targets(n),
    decreases n,
{
    if n > 0 {
        lemma_same_sidebar(a, b, n - 1);
    }
}

} // verus!
