//! The state of the whole program, and what each event makes of it.

use vstd::prelude::*;

use crate::connection::ConnectionState;
use crate::event::EventView;
use crate::input::{Key, ModifiersState, NamedKey};
use crate::manager::ManagerState;
use crate::modes::MouseProto;
use crate::selection::Selection;
use crate::window::{WinStatus, WindowState};

verus! {

/// How many times in a row a redraw may be held back while the application updates
/// the screen.
pub const SYNC_LIMIT: u32 = 64;

/// What the program has to do outside.
pub enum EffectView {
    /// Send bytes to the program in a window.
    Write { conn: usize, win: usize, bytes: Seq<u8> },
    /// Tell the program in a window its new size.
    Resize { conn: usize, win: usize, cols: u16, rows: u16 },
    /// A window is closed: let go of the program in it.
    Close { conn: usize, win: usize },
    /// Start a program for a new window on a connection, and add the window.
    Open { conn: usize },
    /// The tabs or the sidebar have changed: work out the size of the screens anew.
    Relayout,
    /// Show a title.
    Title(Seq<char>),
    /// Put text on the clipboard.
    SetClipboard(Seq<char>),
    /// Read the clipboard, and paste what is on it.
    Paste,
    /// Show a notification on the desktop.
    Notify { summary: Seq<char>, body: Seq<char> },
    /// Open an address.
    OpenUrl(Seq<char>),
    Redraw,
    Exit,
}

/// A row of the sidebar.
pub struct SidebarRow {
    pub label: Seq<char>,
    pub is_host: bool,
    pub status: WinStatus,
    pub activity: bool,
    pub alerted: bool,
    pub active: bool,
}

/// What a click on a row of the sidebar leads to.
#[derive(Clone, Copy, PartialEq, Eq, Debug, Structural)]
pub enum SidebarTarget {
    /// A new window on a connection.
    Host(usize),
    /// A window.
    Win(usize, usize),
}

/// The state of the program.
#[verifier::ext_equal]
pub struct AppState {
    pub manager: ManagerState,
    /// The connection of the window that is shown.
    pub conn: usize,
    /// The window that is shown.
    pub win: usize,
    /// The tabs, each a connection and a window.
    pub tabs: Seq<(usize, usize)>,
    /// How many lines of history a new window keeps, where that is set.
    pub scrollback: Option<usize>,
    pub mods: ModifiersState,
    pub focused: bool,
    pub mouse_down: bool,
    pub selecting: bool,
    pub selection: Option<Selection>,
    /// How many redraws in a row have been held back.
    pub sync_skips: u32,
    /// Whether the sidebar is shown, where that has been set.
    pub sidebar: Option<bool>,
}

// ---- mouse reports ----

/// A coordinate in the old form: counted from one, at most 223, and 32 more.
pub open spec fn old_coordinate(n: int) -> u8 {
    (32 + vstd::math::min(n + 1, 223)) as u8
}

/// The report of a mouse event at a cell. The new form names the button also on
/// release; the old form has one button for all releases.
pub open spec fn mouse_bytes(sgr: bool, btn: u8, col: int, row: int, press: bool) -> Seq<u8> {
    if sgr {
        seq![0x1bu8, 0x5bu8, 0x3cu8] + crate::text::decimal(btn as nat) + seq![0x3bu8]
            + crate::text::decimal((col + 1) as nat) + seq![0x3bu8] + crate::text::decimal(
            (row + 1) as nat,
        ) + seq![if press {
            0x4du8
        } else {
            0x6du8
        }]
    } else {
        seq![
            0x1bu8,
            0x5bu8,
            0x4du8,
            (32 + (if press {
                vstd::math::min(btn as int, 223)
            } else {
                3
            })) as u8,
            old_coordinate(col),
            old_coordinate(row),
        ]
    }
}

/// `n` times the same effects.
pub open spec fn repeated(effects: Seq<EffectView>, n: nat) -> Seq<EffectView>
    decreases n,
{
    if n == 0 {
        Seq::empty()
    } else {
        repeated(effects, (n - 1) as nat) + effects
    }
}

// ---- addresses ----

pub open spec fn begins_with(text: Seq<char>, prefix: Seq<char>) -> bool {
    prefix.len() <= text.len() && text.take(prefix.len() as int) == prefix
}

/// Whether an address may be opened: a web page, a file, or a mail address.
pub open spec fn may_open(url: Seq<char>) -> bool {
    begins_with(url, "http://"@) || begins_with(url, "https://"@) || begins_with(url, "file://"@)
        || begins_with(url, "mailto:"@)
}

// ---- the sidebar ----

/// The row of a connection, above those of its windows.
pub open spec fn host_row(c: ConnectionState) -> SidebarRow {
    SidebarRow {
        label: c.label,
        is_host: true,
        status: WinStatus::Idle,
        activity: false,
        alerted: false,
        active: false,
    }
}

/// The row of a window.
pub open spec fn window_row(w: WindowState, active: bool) -> SidebarRow {
    SidebarRow {
        label: w.title,
        is_host: false,
        status: w.status,
        activity: w.activity,
        alerted: w.alerted,
        active,
    }
}

/// The rows of a connection.
pub open spec fn connection_rows(c: ConnectionState, shown: Option<usize>) -> Seq<SidebarRow> {
    seq![host_row(c)] + c.windows.map_values(|w: WindowState| window_row(w, shown == Some(w.id)))
}

/// What the rows of a connection lead to.
pub open spec fn connection_targets(conn: usize, c: ConnectionState) -> Seq<SidebarTarget> {
    seq![SidebarTarget::Host(conn)] + c.windows.map_values(
        |w: WindowState| SidebarTarget::Win(conn, w.id),
    )
}

// ---- shortcuts ----

/// What a key with the command key, or with control and shift, asks for.
pub enum Shortcut {
    Copy,
    Paste,
    NewTab,
    CloseTab,
    ToggleSidebar,
    PreviousTab,
    NextTab,
    /// A tab, counted from zero.
    Tab(usize),
}

/// The shortcut under a character. Capitals count as small letters.
pub open spec fn shortcut_of(c: char) -> Option<Shortcut> {
    if c == 'c' || c == 'C' {
        Some(Shortcut::Copy)
    } else if c == 'v' || c == 'V' {
        Some(Shortcut::Paste)
    } else if c == 't' || c == 'T' {
        Some(Shortcut::NewTab)
    } else if c == 'w' || c == 'W' {
        Some(Shortcut::CloseTab)
    } else if c == 'b' || c == 'B' {
        Some(Shortcut::ToggleSidebar)
    } else if c == '[' {
        Some(Shortcut::PreviousTab)
    } else if c == ']' {
        Some(Shortcut::NextTab)
    } else if '1' <= c <= '9' {
        Some(Shortcut::Tab((c as int - '1' as int) as usize))
    } else {
        None
    }
}

/// The shortcut under a key: it has one where it stands for a single character.
pub open spec fn key_shortcut(key: Key) -> Option<Shortcut> {
    match key {
        Key::Character(s) => if s@.len() == 1 {
            shortcut_of(s@[0])
        } else {
            None
        },
        _ => None,
    }
}

impl AppState {
    /// The state at the start, with the window `win` of the connection `conn` shown.
    pub open spec fn start(
        manager: ManagerState,
        conn: usize,
        win: usize,
        scrollback: Option<usize>,
    ) -> AppState {
        AppState {
            manager: match scrollback {
                Some(n) => manager.limited(n as int),
                None => manager,
            },
            conn,
            win,
            tabs: manager.all(),
            scrollback,
            mods: crate::input::no_modifiers(),
            focused: true,
            mouse_down: false,
            selecting: false,
            selection: None,
            sync_skips: 0,
            sidebar: None,
        }
    }

    /// All windows are in order, and the tabs are the windows.
    pub open spec fn wf(self) -> bool {
        &&& self.manager.wf()
        &&& self.tabs == self.manager.all()
        &&& self.sync_skips <= SYNC_LIMIT
    }

    pub open spec fn is_active(self, conn: usize, win: usize) -> bool {
        conn == self.conn && win == self.win
    }

    /// The window that is shown.
    pub open spec fn active(self) -> Option<WindowState> {
        self.manager.window(self.conn as int, self.win)
    }

    pub open spec fn with_window(self, conn: usize, win: usize, w: WindowState) -> AppState {
        AppState { manager: self.manager.with_window(conn as int, win, w), ..self }
    }

    pub open spec fn with_active(self, w: WindowState) -> AppState {
        self.with_window(self.conn, self.win, w)
    }

    /// Whether the sidebar is shown: as it has been set, or else where there is more
    /// than one window.
    pub open spec fn sidebar_shown(self) -> bool {
        match self.sidebar {
            Some(b) => b,
            None => self.tabs.len() > 1,
        }
    }

    /// The window of a connection that is shown, if it is one of it.
    pub open spec fn shown_on(self, conn: int) -> Option<usize> {
        if conn == self.conn {
            Some(self.win)
        } else {
            None
        }
    }

    /// The rows of the sidebar for the first `n` connections.
    pub open spec fn sidebar_rows(self, n: int) -> Seq<SidebarRow>
        decreases n,
    {
        if n <= 0 {
            Seq::empty()
        } else {
            self.sidebar_rows(n - 1) + connection_rows(
                self.manager.connections[n - 1],
                self.shown_on(n - 1),
            )
        }
    }

    /// What the rows of the sidebar lead to, for the first `n` connections.
    pub open spec fn sidebar_targets(self, n: int) -> Seq<SidebarTarget>
        decreases n,
    {
        if n <= 0 {
            Seq::empty()
        } else {
            self.sidebar_targets(n - 1) + connection_targets(
                (n - 1) as usize,
                self.manager.connections[n - 1],
            )
        }
    }

    /// The title of the window that is shown.
    pub open spec fn active_title(self) -> Seq<char> {
        self.title_of(self.conn, self.win)
    }

    /// The title of a window, `term` where there is no such window.
    pub open spec fn title_of(self, conn: usize, win: usize) -> Seq<char> {
        match self.manager.window(conn as int, win) {
            Some(w) => w.title,
            None => seq!['t', 'e', 'r', 'm'],
        }
    }

    /// Bytes for the window that is shown, if there is one.
    pub open spec fn write_active(self, bytes: Seq<u8>) -> Seq<EffectView> {
        if self.active() is Some {
            seq![EffectView::Write { conn: self.conn, win: self.win, bytes }]
        } else {
            Seq::empty()
        }
    }

    /// Whether the application updates the screen and wants no redraw.
    pub open spec fn syncing(self) -> bool {
        match self.active() {
            Some(w) => w.screen.modes.sync_output,
            None => false,
        }
    }

    pub open spec fn without_selection(self) -> AppState {
        AppState { selection: None, ..self }
    }

    // ---- sizes ----

    pub open spec fn resized(self, cols: u16, rows: u16) -> AppState {
        AppState { manager: self.manager.resized(cols as int, rows as int), ..self }
    }

    pub open spec fn resized_effects(self, cols: u16, rows: u16) -> Seq<EffectView> {
        self.tabs.map_values(
            |t: (usize, usize)| EffectView::Resize { conn: t.0, win: t.1, cols, rows },
        )
    }

    // ---- tabs ----

    /// Another window is shown. What was new in it has been seen; its view goes back
    /// to the live screen; nothing is selected.
    pub open spec fn switched(self, conn: usize, win: usize) -> AppState {
        let s = AppState { conn, win, selection: None, selecting: false, ..self };
        match s.active() {
            Some(w) => s.with_active(
                WindowState {
                    activity: false,
                    alerted: false,
                    ..w.with_screen(w.screen.reset_view())
                },
            ),
            None => s,
        }
    }

    pub open spec fn switched_effects(self, conn: usize, win: usize) -> Seq<EffectView> {
        seq![EffectView::Title(self.title_of(conn, win)), EffectView::Redraw]
    }

    /// A window is closed and taken from the tabs.
    pub open spec fn removed(self, conn: usize, win: usize) -> AppState {
        let manager = self.manager.without(conn as int, win);
        AppState { manager, tabs: manager.all(), ..self }
    }

    pub open spec fn removed_effects(self, conn: usize, win: usize) -> Seq<EffectView> {
        if self.manager.window(conn as int, win) is Some {
            seq![EffectView::Close { conn, win }, EffectView::Relayout]
        } else {
            seq![EffectView::Relayout]
        }
    }

    /// The window that is shown is closed, and the last tab is shown.
    pub open spec fn active_closed(self) -> AppState {
        let s = self.removed(self.conn, self.win);
        if s.tabs.len() == 0 {
            s
        } else {
            s.switched(s.tabs.last().0, s.tabs.last().1)
        }
    }

    pub open spec fn active_closed_effects(self) -> Seq<EffectView> {
        let s = self.removed(self.conn, self.win);
        self.removed_effects(self.conn, self.win) + (if s.tabs.len() == 0 {
            seq![EffectView::Exit]
        } else {
            s.switched_effects(s.tabs.last().0, s.tabs.last().1)
        })
    }

    /// A window whose program has ended is closed.
    pub open spec fn ended(self, conn: usize, win: usize) -> AppState {
        if self.is_active(conn, win) {
            self.active_closed()
        } else {
            self.removed(conn, win)
        }
    }

    pub open spec fn ended_effects(self, conn: usize, win: usize) -> Seq<EffectView> {
        if self.is_active(conn, win) {
            self.active_closed_effects()
        } else {
            self.removed_effects(conn, win).push(EffectView::Redraw)
        }
    }

    /// Whether a window can be added to a connection: it is there, and has an
    /// identifier left.
    pub open spec fn can_add(self, conn: usize) -> bool {
        conn < self.manager.connections.len() && self.manager.connections[conn as int].next_id
            < usize::MAX
    }

    /// A new window is added to a connection.
    pub open spec fn grown(self, conn: usize, cols: u16, rows: u16) -> AppState {
        let c = self.manager.connections[conn as int].opened(cols as int, rows as int);
        let w = c.windows.last();
        let d = match self.scrollback {
            Some(n) => c.with_window(
                w.id,
                w.with_screen(w.screen.set_scrollback_max(n as int)),
            ),
            None => c,
        };
        let manager = self.manager.with_connection(conn as int, d);
        AppState { manager, tabs: manager.all(), ..self }
    }

    /// A new window is added to a connection, and shown.
    pub open spec fn added(self, conn: usize, cols: u16, rows: u16) -> AppState {
        let id = self.manager.connections[conn as int].next_id as usize;
        self.grown(conn, cols, rows).switched(conn, id)
    }

    pub open spec fn added_effects(self, conn: usize, cols: u16, rows: u16) -> Seq<EffectView> {
        let id = self.manager.connections[conn as int].next_id as usize;
        seq![EffectView::Relayout] + self.grown(conn, cols, rows).switched_effects(conn, id)
    }

    /// An identifier of a connection is used up, if there is one.
    pub open spec fn skipped(self, conn: usize) -> AppState {
        if self.can_add(conn) {
            AppState {
                manager: self.manager.with_connection(
                    conn as int,
                    self.manager.connections[conn as int].skipped(),
                ),
                ..self
            }
        } else {
            self
        }
    }

    /// A tab by its place; nothing changes where there is none.
    pub open spec fn tab_selected(self, idx: int) -> AppState {
        if 0 <= idx < self.tabs.len() {
            self.switched(self.tabs[idx].0, self.tabs[idx].1)
        } else {
            self
        }
    }

    pub open spec fn tab_selected_effects(self, idx: int) -> Seq<EffectView> {
        if 0 <= idx < self.tabs.len() {
            self.switched_effects(self.tabs[idx].0, self.tabs[idx].1)
        } else {
            Seq::empty()
        }
    }

    /// The place of the tab that is shown, the first where it is none of them.
    pub open spec fn current_tab(self) -> int {
        let p = crate::screen::first_place(self.tabs, (self.conn, self.win));
        if p < self.tabs.len() {
            p
        } else {
            0
        }
    }

    /// The place of the next tab, or of the one before; they go round.
    pub open spec fn neighbour(self, forward: bool) -> int {
        let n = self.tabs.len() as int;
        let cur = self.current_tab();
        if forward {
            if cur + 1 == n {
                0
            } else {
                cur + 1
            }
        } else {
            if cur == 0 {
                n - 1
            } else {
                cur - 1
            }
        }
    }

    pub open spec fn cycled(self, forward: bool) -> AppState {
        if self.tabs.len() < 2 {
            self
        } else {
            self.tab_selected(self.neighbour(forward))
        }
    }

    pub open spec fn cycled_effects(self, forward: bool) -> Seq<EffectView> {
        if self.tabs.len() < 2 {
            Seq::empty()
        } else {
            self.tab_selected_effects(self.neighbour(forward))
        }
    }

    // ---- the clipboard ----

    pub open spec fn clipboard_effects(text: Seq<char>) -> Seq<EffectView> {
        if text.len() == 0 {
            Seq::empty()
        } else {
            seq![EffectView::SetClipboard(text)]
        }
    }

    /// The text that is selected goes to the clipboard.
    pub open spec fn copied_effects(self) -> Seq<EffectView> {
        match (self.selection, self.active()) {
            (Some(sel), Some(w)) => if sel.anchor == sel.head {
                Seq::empty()
            } else {
                AppState::clipboard_effects(w.screen.span(sel.anchor, sel.head))
            },
            _ => Seq::empty(),
        }
    }

    /// Text is pasted into the window that is shown.
    pub open spec fn pasted_effects(self, text: Seq<char>) -> Seq<EffectView> {
        match self.active() {
            Some(w) => if text.len() == 0 {
                Seq::empty()
            } else {
                self.write_active(
                    crate::input::pasted(
                        vstd::utf8::encode_utf8(text),
                        w.screen.modes.bracketed_paste,
                    ),
                )
            },
            None => Seq::empty(),
        }
    }

    // ---- notifications ----

    /// Whether a window is out of sight: another one is shown, or the program does
    /// not have the focus.
    pub open spec fn unseen(self, conn: usize, win: usize) -> bool {
        !self.focused || !self.is_active(conn, win)
    }

    /// A notification marks a window that is out of sight.
    pub open spec fn notified(self, conn: usize, win: usize) -> AppState {
        match self.manager.window(conn as int, win) {
            Some(w) => if self.unseen(conn, win) {
                self.with_window(conn, win, WindowState { alerted: true, ..w })
            } else {
                self
            },
            None => self,
        }
    }

    pub open spec fn notified_effects(
        self,
        conn: usize,
        win: usize,
        title: Seq<char>,
        body: Seq<char>,
    ) -> Seq<EffectView> {
        if self.unseen(conn, win) {
            seq![
                EffectView::Notify {
                    summary: if title.len() == 0 {
                        seq!['t', 'e', 'r', 'm']
                    } else {
                        title
                    },
                    body,
                },
                EffectView::Redraw,
            ]
        } else {
            seq![EffectView::Redraw]
        }
    }

    /// The bell is a notification that something is done.
    pub open spec fn belled_effects(self, conn: usize, win: usize) -> Seq<EffectView> {
        if self.unseen(conn, win) {
            self.notified_effects(conn, win, self.title_of(conn, win), seq!['\u{5b8c}', '\u{6210}'])
        } else {
            Seq::empty()
        }
    }

    // ---- output ----

    /// After an event that a window has passed on.
    pub open spec fn after_event(self, conn: usize, win: usize, ev: EventView) -> AppState {
        match ev {
            EventView::Bell => self.notified(conn, win),
            EventView::Notify(_, _) => self.notified(conn, win),
            EventView::Cwd(path) => match self.manager.window(conn as int, win) {
                Some(w) => self.with_window(conn, win, WindowState { cwd: Some(path), ..w }),
                None => self,
            },
            _ => self,
        }
    }

    pub open spec fn event_effects(self, conn: usize, win: usize, ev: EventView) -> Seq<EffectView> {
        match ev {
            EventView::SetClipboard(text) => AppState::clipboard_effects(text),
            EventView::Bell => self.belled_effects(conn, win),
            EventView::Notify(title, body) => self.notified_effects(conn, win, title, body),
            _ => Seq::empty(),
        }
    }

    pub open spec fn after_events(self, conn: usize, win: usize, events: Seq<EventView>) -> AppState
        decreases events.len(),
    {
        if events.len() == 0 {
            self
        } else {
            self.after_events(conn, win, events.drop_last()).after_event(conn, win, events.last())
        }
    }

    pub open spec fn events_effects(
        self,
        conn: usize,
        win: usize,
        events: Seq<EventView>,
    ) -> Seq<EffectView>
        decreases events.len(),
    {
        if events.len() == 0 {
            Seq::empty()
        } else {
            self.events_effects(conn, win, events.drop_last()) + self.after_events(
                conn,
                win,
                events.drop_last(),
            ).event_effects(conn, win, events.last())
        }
    }

    /// A window has got output and has dealt with what concerns it alone. Where it is
    /// not shown, it is marked as active; where it is and was scrolled back, what was
    /// selected has moved away.
    pub open spec fn fed(self, conn: usize, win: usize, w: WindowState, bytes: Seq<u8>) -> AppState {
        let active = self.is_active(conn, win);
        let after = w.after_output(bytes).settled();
        AppState {
            selection: if active && w.screen.view_offset > 0 {
                None
            } else {
                self.selection
            },
            ..self.with_window(
                conn,
                win,
                WindowState { activity: after.activity || !active, ..after },
            )
        }
    }

    /// The answers that a window sends to the program in it.
    pub open spec fn reply_effects(conn: usize, win: usize, replies: Seq<Seq<u8>>) -> Seq<
        EffectView,
    > {
        replies.map_values(|bytes: Seq<u8>| EffectView::Write { conn, win, bytes })
    }

    /// A redraw is held back while the application updates the screen, but not for
    /// ever.
    pub open spec fn paced(self) -> AppState {
        AppState {
            sync_skips: if self.syncing() && self.sync_skips < SYNC_LIMIT {
                (self.sync_skips + 1) as u32
            } else {
                0
            },
            ..self
        }
    }

    pub open spec fn paced_effects(self) -> Seq<EffectView> {
        if self.syncing() && self.sync_skips < SYNC_LIMIT {
            Seq::empty()
        } else {
            seq![EffectView::Redraw]
        }
    }

    /// The title is shown anew after output in the window that is shown.
    pub open spec fn retitled_effects(self, conn: usize, win: usize) -> Seq<EffectView> {
        if self.is_active(conn, win) {
            seq![EffectView::Title(self.active_title())]
        } else {
            Seq::empty()
        }
    }

    /// After output for a window.
    pub open spec fn after_output(self, conn: usize, win: usize, bytes: Seq<u8>) -> AppState {
        match self.manager.window(conn as int, win) {
            Some(w) => self.fed(conn, win, w, bytes).after_events(
                conn,
                win,
                crate::window::others_of(w.after_output(bytes).screen.events),
            ).paced(),
            None => self.paced(),
        }
    }

    pub open spec fn output_effects(self, conn: usize, win: usize, bytes: Seq<u8>) -> Seq<
        EffectView,
    > {
        match self.manager.window(conn as int, win) {
            Some(w) => {
                let events = w.after_output(bytes).screen.events;
                let others = crate::window::others_of(events);
                let s = self.fed(conn, win, w, bytes);
                AppState::reply_effects(conn, win, crate::window::replies_of(events))
                    + s.retitled_effects(conn, win) + s.events_effects(conn, win, others)
                    + s.after_events(conn, win, others).paced_effects()
            },
            None => self.retitled_effects(conn, win) + self.paced_effects(),
        }
    }

    // ---- focus ----

    pub open spec fn focus_changed(self, focused: bool) -> AppState {
        let s = AppState { focused, ..self };
        match s.active() {
            Some(w) => if focused {
                s.with_active(WindowState { alerted: false, ..w })
            } else {
                s
            },
            None => s,
        }
    }

    pub open spec fn focus_effects(self, focused: bool) -> Seq<EffectView> {
        let report = match self.active() {
            Some(w) => if w.screen.modes.focus_event {
                self.write_active(
                    seq![
                        0x1bu8,
                        0x5bu8,
                        if focused {
                            0x49u8
                        } else {
                            0x4fu8
                        },
                    ],
                )
            } else {
                Seq::empty()
            },
            None => Seq::empty(),
        };
        report.push(EffectView::Redraw)
    }

    // ---- keys ----

    /// Whether a key scrolls the view back or forth: page up and page down with
    /// shift.
    pub open spec fn scroll_key(self, key: Key) -> Option<bool> {
        match key {
            Key::Named(named) => if !self.mods.shift {
                None
            } else if named == NamedKey::PageUp {
                Some(true)
            } else if named == NamedKey::PageDown {
                Some(false)
            } else {
                None
            },
            _ => None,
        }
    }

    /// The view scrolled by `n` lines; what was selected has moved away.
    pub open spec fn scrolled(self, up: bool, n: int) -> AppState {
        let s = self.without_selection();
        match s.active() {
            Some(w) => s.with_active(
                w.with_screen(
                    if up {
                        w.screen.scroll_view_up(n)
                    } else {
                        w.screen.scroll_view_down(n)
                    },
                ),
            ),
            None => s,
        }
    }

    /// A page is one row less than the screen has.
    pub open spec fn paged(self, up: bool) -> AppState {
        match self.active() {
            Some(w) => self.scrolled(up, w.screen.rows - 1),
            None => self.without_selection(),
        }
    }

    /// Whether the modifiers make a key a shortcut.
    pub open spec fn combo(self) -> bool {
        self.mods.super_key || (self.mods.control && self.mods.shift)
    }

    /// The shortcut that a key is with the modifiers held.
    pub open spec fn shortcut(self, key: Key) -> Option<Shortcut> {
        if self.combo() {
            key_shortcut(key)
        } else {
            None
        }
    }

    pub open spec fn shortcut_done(self, shortcut: Shortcut) -> AppState {
        match shortcut {
            Shortcut::CloseTab => self.active_closed(),
            Shortcut::ToggleSidebar => AppState { sidebar: Some(!self.sidebar_shown()), ..self },
            Shortcut::PreviousTab => self.cycled(false),
            Shortcut::NextTab => self.cycled(true),
            Shortcut::Tab(n) => self.tab_selected(n as int),
            _ => self,
        }
    }

    pub open spec fn shortcut_effects(self, shortcut: Shortcut) -> Seq<EffectView> {
        match shortcut {
            Shortcut::Copy => self.copied_effects(),
            Shortcut::Paste => seq![EffectView::Paste],
            Shortcut::NewTab => seq![EffectView::Open { conn: self.conn }],
            Shortcut::CloseTab => self.active_closed_effects(),
            Shortcut::ToggleSidebar => seq![EffectView::Relayout, EffectView::Redraw],
            Shortcut::PreviousTab => self.cycled_effects(false),
            Shortcut::NextTab => self.cycled_effects(true),
            Shortcut::Tab(n) => self.tab_selected_effects(n as int),
        }
    }

    /// Whether a key is dealt with here and not sent to the application.
    pub open spec fn swallows(self, key: Key) -> bool {
        self.scroll_key(key) is Some || self.shortcut(key) is Some || self.mods.super_key
    }

    /// What a key sends to the application.
    pub open spec fn key_bytes(self, key: Key, text: Option<Seq<char>>) -> Option<Seq<u8>> {
        crate::input::encoded(
            key,
            text,
            self.mods,
            match self.active() {
                Some(w) => w.screen.modes.app_cursor_keys,
                None => false,
            },
        )
    }

    /// After a key that goes to the application: the view is live again, and nothing
    /// is selected.
    pub open spec fn typed(self) -> AppState {
        let s = self.without_selection();
        match s.active() {
            Some(w) => s.with_active(w.with_screen(w.screen.reset_view())),
            None => s,
        }
    }

    pub open spec fn key_pressed(self, key: Key, text: Option<Seq<char>>) -> AppState {
        if self.scroll_key(key) is Some {
            self.paged(self.scroll_key(key)->0)
        } else if self.shortcut(key) is Some {
            self.shortcut_done(self.shortcut(key)->0)
        } else if self.mods.super_key || self.key_bytes(key, text) is None {
            self
        } else {
            self.typed()
        }
    }

    pub open spec fn key_effects(self, key: Key, text: Option<Seq<char>>) -> Seq<EffectView> {
        if self.scroll_key(key) is Some {
            seq![EffectView::Redraw]
        } else if self.shortcut(key) is Some {
            self.shortcut_effects(self.shortcut(key)->0)
        } else if self.mods.super_key || self.key_bytes(key, text) is None {
            Seq::empty()
        } else {
            self.write_active(self.key_bytes(key, text)->0).push(EffectView::Redraw)
        }
    }

    // ---- the mouse ----

    /// The mouse events that the application wants.
    pub open spec fn mouse_proto(self) -> MouseProto {
        match self.active() {
            Some(w) => w.screen.modes.mouse_proto,
            None => MouseProto::Off,
        }
    }

    pub open spec fn report_effects(
        self,
        cell: (usize, usize),
        btn: u8,
        press: bool,
    ) -> Seq<EffectView> {
        match self.active() {
            Some(w) => if w.screen.modes.mouse_proto == MouseProto::Off {
                Seq::empty()
            } else {
                self.write_active(
                    mouse_bytes(
                        w.screen.modes.mouse_sgr,
                        btn,
                        cell.0 as int,
                        cell.1 as int,
                        press,
                    ),
                )
            },
            None => Seq::empty(),
        }
    }

    /// The mouse has moved to a cell: a selection goes along.
    pub open spec fn pointed(self, cell: (usize, usize)) -> AppState {
        match self.selection {
            Some(sel) => if self.selecting {
                AppState { selection: Some(Selection { head: cell, ..sel }), ..self }
            } else {
                self
            },
            None => self,
        }
    }

    /// A selection is drawn anew. Elsewhere an application that wants it hears of the
    /// movement: under one mode with the button held (32), under the other also with no
    /// button (35).
    pub open spec fn pointed_effects(self, cell: (usize, usize)) -> Seq<EffectView> {
        if self.selecting {
            seq![EffectView::Redraw]
        } else if self.mouse_down && (self.mouse_proto() == MouseProto::ButtonEvent
            || self.mouse_proto() == MouseProto::AnyEvent) {
            self.report_effects(cell, 32, true)
        } else if !self.mouse_down && self.mouse_proto() == MouseProto::AnyEvent {
            self.report_effects(cell, 35, true)
        } else {
            Seq::empty()
        }
    }

    /// The target of a row of the sidebar.
    pub open spec fn target(self, row: int) -> Option<SidebarTarget> {
        let targets = self.sidebar_targets(self.manager.connections.len() as int);
        if 0 <= row < targets.len() {
            Some(targets[row])
        } else {
            None
        }
    }

    /// The sidebar is clicked: a window is shown, or one is to be opened.
    pub open spec fn sidebar_clicked(self, row: int) -> AppState {
        match self.target(row) {
            Some(SidebarTarget::Win(c, w)) => self.switched(c, w),
            _ => self,
        }
    }

    pub open spec fn sidebar_effects(self, row: int) -> Seq<EffectView> {
        match self.target(row) {
            Some(SidebarTarget::Win(c, w)) => self.switched_effects(c, w),
            Some(SidebarTarget::Host(c)) => seq![EffectView::Open { conn: c }],
            None => Seq::empty(),
        }
    }

    /// Whether the mouse belongs to the application. Shift takes it back.
    pub open spec fn mouse_taken(self) -> bool {
        self.mouse_proto() != MouseProto::Off && !self.mods.shift
    }

    /// The left button goes down on the screen: a selection begins.
    pub open spec fn pressed(self, cell: (usize, usize)) -> AppState {
        let s = AppState { mouse_down: true, ..self };
        if s.mouse_taken() {
            s
        } else {
            AppState {
                selection: Some(Selection { anchor: cell, head: cell }),
                selecting: true,
                ..s
            }
        }
    }

    pub open spec fn pressed_effects(self, cell: (usize, usize)) -> Seq<EffectView> {
        if self.mouse_taken() {
            self.report_effects(cell, 0, true)
        } else {
            seq![EffectView::Redraw]
        }
    }

    /// The left button goes up: a selection ends; one that has not moved is none.
    pub open spec fn released(self) -> AppState {
        let s = AppState { mouse_down: false, ..self };
        if s.mouse_taken() {
            s
        } else {
            AppState {
                selecting: false,
                selection: match s.selection {
                    Some(sel) => if sel.anchor == sel.head {
                        None
                    } else {
                        Some(sel)
                    },
                    None => None,
                },
                ..s
            }
        }
    }

    /// The hyperlink under a click: where the mouse has not moved between press and
    /// release.
    pub open spec fn clicked_link(self) -> Option<Seq<char>> {
        match (self.selection, self.active()) {
            (Some(sel), Some(w)) => if sel.anchor == sel.head {
                w.screen.link_uri(
                    w.screen.visible_cell(sel.anchor.0 as int, sel.anchor.1 as int).link,
                )
            } else {
                None
            },
            _ => None,
        }
    }

    pub open spec fn released_effects(self, cell: (usize, usize)) -> Seq<EffectView> {
        if self.mouse_taken() {
            self.report_effects(cell, 0, false)
        } else {
            match self.clicked_link() {
                Some(url) => if may_open(url) {
                    seq![EffectView::OpenUrl(url)]
                } else {
                    Seq::empty()
                },
                None => Seq::empty(),
            }
        }
    }

    /// The left button, on the sidebar where `row` is given.
    pub open spec fn clicked(
        self,
        down: bool,
        row: Option<usize>,
        cell: (usize, usize),
    ) -> AppState {
        if !down {
            self.released()
        } else {
            match row {
                Some(r) => (AppState { mouse_down: true, ..self }).sidebar_clicked(r as int),
                None => self.pressed(cell),
            }
        }
    }

    pub open spec fn click_effects(
        self,
        down: bool,
        row: Option<usize>,
        cell: (usize, usize),
    ) -> Seq<EffectView> {
        if !down {
            self.released_effects(cell)
        } else {
            match row {
                Some(r) => self.sidebar_effects(r as int),
                None => self.pressed_effects(cell),
            }
        }
    }

    /// Whether the wheel belongs to the application: it wants the mouse, or is on the
    /// alternate screen.
    pub open spec fn wheel_taken(self) -> bool {
        match self.active() {
            Some(w) => w.screen.modes.mouse_proto != MouseProto::Off || w.screen.on_alt(),
            None => false,
        }
    }

    /// The wheel turns by `step` lines.
    pub open spec fn wheeled(self, up: bool, step: int) -> AppState {
        if self.wheel_taken() {
            self
        } else {
            self.scrolled(up, step)
        }
    }

    /// The application hears of at most five turns at once.
    pub open spec fn wheel_effects(
        self,
        up: bool,
        step: int,
        cell: (usize, usize),
    ) -> Seq<EffectView> {
        if self.wheel_taken() {
            repeated(
                self.report_effects(
                    cell,
                    if up {
                        64
                    } else {
                        65
                    },
                    true,
                ),
                vstd::math::min(step, 5) as nat,
            )
        } else {
            seq![EffectView::Redraw]
        }
    }
}

} // verus!
