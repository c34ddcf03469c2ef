//! What events do, one by one: keys, the mouse, the focus, tabs and windows.

use vstd::prelude::*;

use crate::connection::ConnectionState;
use crate::event::EventView;
use crate::input::{Key, NamedKey};
use crate::manager::ManagerState;
use crate::modes::MouseProto;
use crate::selection::Selection;
use crate::session::{AppState, EffectView, SidebarTarget};
use crate::window::{WinStatus, WindowState};

verus! {

// ---- connections and windows ----

/// A local window runs the shell of the user, or `/bin/bash`, without arguments.
pub proof fn law_local_windows_run_the_shell(shell: Seq<char>)
    ensures
        crate::connection::launch(None, Some(shell)).program == shell,
        crate::connection::launch(None, Some(shell)).args.len() == 0,
        crate::connection::launch(None, None).program == seq![
            '/',
            'b',
            'i',
            'n',
            '/',
            'b',
            'a',
            's',
            'h',
        ],
        crate::connection::launch(None, None).args.len() == 0,
{
    reveal_strlit("/bin/bash");
    assert("/bin/bash"@ =~= seq!['/', 'b', 'i', 'n', '/', 'b', 'a', 's', 'h']);
}

/// A remote window runs `ssh` with a terminal on the other side; it makes a connection
/// that others share, under a path that is the same for all windows of a host, and that
/// stays for ten minutes. The host comes last, and the shell does not matter.
pub proof fn law_remote_windows_share_a_connection(
    host: Seq<char>,
    other: Seq<char>,
    shell: Option<Seq<char>>,
)
    ensures
        ({
            let command = crate::connection::launch(Some(host), shell);
            &&& command == crate::connection::launch(Some(host), None)
            &&& command.program == "ssh"@
            &&& command.args.len() == 8
            &&& command.args[0] == "-tt"@
            &&& command.args[1] == "-o"@ && command.args[2] == "ControlMaster=auto"@
            &&& command.args[3] == "-o"@ && command.args[4] == "ControlPath=~/.ssh/cm-%C"@
            &&& command.args[5] == "-o"@ && command.args[6] == "ControlPersist=10m"@
            &&& command.args[7] == host
            &&& command.args.drop_last() == crate::connection::launch(
                Some(other),
                shell,
            ).args.drop_last()
        }),
{
    assert(crate::connection::launch(Some(host), shell).args.drop_last()
        =~= crate::connection::launch(Some(other), shell).args.drop_last());
}

/// Every program is told what terminal this is.
pub proof fn law_programs_are_told_the_terminal(host: Option<Seq<char>>, shell: Option<Seq<char>>)
    ensures
        crate::connection::launch(host, shell).env == seq![("TERM"@, "xterm-256color"@)],
{
}

/// A connection is called by its host, or `local`, and begins without windows.
pub proof fn law_connections_are_called_by_their_host(host: Seq<char>)
    ensures
        ConnectionState::start(Some(host)).label == host,
        ConnectionState::start(Some(host)).host == Some(host),
        ConnectionState::start(None).label == seq!['l', 'o', 'c', 'a', 'l'],
        ConnectionState::start(None).host is None,
        ConnectionState::start(Some(host)).windows.len() == 0,
        ConnectionState::start(None).windows.len() == 0,
        ConnectionState::start(None).next_id == 0,
{
}

/// A new window comes after the others, which stay as they are. It has a blank screen of
/// the size asked for, is titled by the label and its number, waits for input, and has
/// nothing to be looked at.
pub proof fn law_new_window_comes_last(c: ConnectionState, cols: int, rows: int)
    requires
        c.wf(),
        cols >= 1,
        rows >= 1,
    ensures
        ({
            let d = c.opened(cols, rows);
            let w = d.windows.last();
            &&& d.windows.drop_last() == c.windows
            &&& d.next_id == c.next_id + 1
            &&& w.id == c.next_id
            &&& w.screen == crate::screen::Screen::start(cols, rows)
            &&& w.title == c.label + seq![' ', '\u{b7}', ' ', 'w', 'i', 'n']
                + crate::text::decimal_text(c.next_id as nat)
            &&& w.status == WinStatus::Idle
            &&& !w.activity && !w.alerted
            &&& w.cwd is None
            &&& w.fed.len() == 0
            &&& d.label == c.label && d.host == c.host
        }),
{
    assert(c.opened(cols, rows).windows.drop_last() =~= c.windows);
}

/// Closing a window takes that one away and no other, and leaves the others in order.
pub proof fn law_closing_takes_one_window(c: ConnectionState, id: usize, other: usize)
    requires
        c.wf(),
    ensures
        c.closed(id).window(id) is None,
        other != id ==> c.closed(id).window(other) == c.window(other),
        c.has(id) ==> c.closed(id).windows.len() == c.windows.len() - 1,
        !c.has(id) ==> c.closed(id) == c,
        c.closed(id).label == c.label,
        c.closed(id).host == c.host,
{
    crate::connection::lemma_closed(c, id);
    if other != id {
        crate::session_laws::lemma_closed_others(c, id, other);
    }
    if c.has(id) {
        assert(c.is_at(id, c.place(id)));
    }
}

/// Another size, and another limit of the history, reach the screen of every window, and
/// change nothing else of it.
pub proof fn law_every_screen_is_reached(m: ManagerState, cols: int, rows: int, n: int, conn: int, i: int)
    requires
        0 <= conn < m.connections.len(),
        0 <= i < m.connections[conn].windows.len(),
    ensures
        ({
            let w = m.connections[conn].windows[i];
            &&& m.resized(cols, rows).connections[conn].windows[i] == (WindowState {
                screen: w.screen.resize(cols, rows),
                ..w
            })
            &&& m.limited(n).connections[conn].windows[i] == (WindowState {
                screen: w.screen.set_scrollback_max(n),
                ..w
            })
        }),
        m.resized(cols, rows).connections.len() == m.connections.len(),
        m.limited(n).connections.len() == m.connections.len(),
        m.resized(cols, rows).connections[conn].windows.len() == m.connections[conn].windows.len(),
        m.limited(n).connections[conn].windows.len() == m.connections[conn].windows.len(),
{
}

/// A command that ends with zero, or without a code, leaves the shell waiting; any other
/// code is a failure.
pub proof fn law_exit_codes_set_the_status(code: i32)
    ensures
        crate::window::status_after(None) == WinStatus::Idle,
        code == 0 ==> crate::window::status_after(Some(code)) == WinStatus::Idle,
        code != 0 ==> crate::window::status_after(Some(code)) == WinStatus::Failed,
{
}

/// A window takes its title, and its status, from the events of its own screen, and what
/// concerns the program around it leaves them alone.
pub proof fn law_windows_deal_with_their_own_events(w: WindowState, ev: EventView)
    ensures
        ev matches EventView::Title(t) ==> w.after_event(ev) == (WindowState { title: t, ..w }),
        ev is PromptStart ==> w.after_event(ev) == (WindowState { status: WinStatus::Running, ..w }),
        ev is Bell || ev is Notify || ev is Cwd || ev is SetClipboard || ev is Reply
            ==> w.after_event(ev) == w,
        ev is Bell || ev is Notify || ev is Cwd || ev is SetClipboard <==> !crate::window::is_own(
            ev,
        ),
{
}

/// The answers of a terminal are sent in the order in which they were asked for, and
/// nothing else is sent among them.
pub proof fn law_answers_keep_their_order(
    first: Seq<EventView>,
    second: Seq<EventView>,
    ev: EventView,
)
    ensures
        crate::window::replies_of(first + second) == crate::window::replies_of(first)
            + crate::window::replies_of(second),
        ev matches EventView::Reply(bytes) ==> crate::window::replies_of(seq![ev]) == seq![bytes],
        !(ev is Reply) ==> crate::window::replies_of(seq![ev]).len() == 0,
    decreases second.len(),
{
    assert(seq![ev].drop_last() =~= Seq::<EventView>::empty());
    assert(crate::window::replies_of(seq![ev].drop_last()) =~= Seq::<Seq<u8>>::empty());
    assert(seq![ev].last() == ev);
    if let EventView::Reply(bytes) = ev {
        assert(crate::window::replies_of(seq![ev]) =~= seq![bytes]);
    }
    let both = first + second;
    if second.len() == 0 {
        assert(both =~= first);
        assert(crate::window::replies_of(first) + crate::window::replies_of(second)
            =~= crate::window::replies_of(first));
    } else {
        law_answers_keep_their_order(first, second.drop_last(), ev);
        assert(both.drop_last() =~= first + second.drop_last());
        assert(both.last() == second.last());
        if let EventView::Reply(bytes) = second.last() {
            assert(crate::window::replies_of(first) + crate::window::replies_of(second)
                =~= (crate::window::replies_of(first) + crate::window::replies_of(
                second.drop_last(),
            )).push(bytes));
        }
    }
}

/// What a window asks the clipboard for, and what it answers, goes where it belongs: the
/// answers to the program in that very window.
pub proof fn law_answers_go_back_to_their_window(
    conn: usize,
    win: usize,
    replies: Seq<Seq<u8>>,
    i: int,
)
    requires
        0 <= i < replies.len(),
    ensures
        AppState::reply_effects(conn, win, replies).len() == replies.len(),
        AppState::reply_effects(conn, win, replies)[i] == (EffectView::Write {
            conn,
            win,
            bytes: replies[i],
        }),
{
}

// ---- the start ----

/// The program begins with the focus, with nothing selected and nothing held, with a
/// tab for every window, and with the limit of the history set everywhere.
pub proof fn law_program_begins_with_all_windows(
    m: ManagerState,
    conn: usize,
    win: usize,
    scrollback: Option<usize>,
)
    ensures
        ({
            let s = AppState::start(m, conn, win, scrollback);
            &&& s.conn == conn && s.win == win
            &&& s.tabs == m.all()
            &&& s.focused && !s.mouse_down && !s.selecting && s.selection is None
            &&& !s.mods.shift && !s.mods.control && !s.mods.alt && !s.mods.super_key
            &&& s.sync_skips == 0 && s.sidebar is None && s.scrollback == scrollback
            &&& scrollback is None ==> s.manager == m
            &&& scrollback matches Some(n) ==> s.manager == m.limited(n as int)
        }),
{
}

// ---- tabs ----

/// The window that is chosen is shown, its title too; nothing is selected any more, and
/// no other window changes.
pub proof fn law_chosen_window_is_shown(
    s: AppState,
    conn: usize,
    win: usize,
    c: int,
    i: usize,
)
    requires
        s.wf(),
    ensures
        ({
            let after = s.switched(conn, win);
            let fx = s.switched_effects(conn, win);
            &&& after.conn == conn && after.win == win
            &&& after.selection is None && !after.selecting
            &&& after.tabs == s.tabs && after.focused == s.focused && after.mods == s.mods
            &&& c != conn || i != win ==> after.manager.window(c, i) == s.manager.window(c, i)
            &&& fx.len() == 2 && fx[1] == EffectView::Redraw
            &&& s.manager.window(conn as int, win) matches Some(w) ==> {
                &&& fx[0] == EffectView::Title(w.title)
                &&& after.manager.window(conn as int, win) == Some(
                    WindowState {
                        activity: false,
                        alerted: false,
                        screen: w.screen.reset_view(),
                        ..w
                    },
                )
            }
            &&& s.manager.window(conn as int, win) is None ==> fx[0] == EffectView::Title(
                seq!['t', 'e', 'r', 'm'],
            )
        }),
{
    crate::manager::lemma_window(s.manager, conn as int, win);
    if let Some(w) = s.manager.window(conn as int, win) {
        crate::manager::lemma_with_window(
            s.manager,
            conn as int,
            win,
            WindowState { activity: false, alerted: false, ..w.with_screen(w.screen.reset_view()) },
        );
    }
}

/// Going on shows the tab after the one that is shown, and after the last the first;
/// going back shows the one before, and before the first the last.
pub proof fn law_tabs_go_round(s: AppState, p: int)
    requires
        s.wf(),
        s.tabs.len() >= 2,
        0 <= p < s.tabs.len(),
        s.tabs[p] == (s.conn, s.win),
    ensures
        ({
            let n = s.tabs.len() as int;
            let on = s.tabs[if p + 1 < n {
                p + 1
            } else {
                0
            }];
            let back = s.tabs[if p > 0 {
                p - 1
            } else {
                n - 1
            }];
            &&& s.cycled(true).conn == on.0 && s.cycled(true).win == on.1
            &&& s.cycled(false).conn == back.0 && s.cycled(false).win == back.1
            &&& s.cycled_effects(true) == s.switched_effects(on.0, on.1)
            &&& s.cycled_effects(false) == s.switched_effects(back.0, back.1)
        }),
{
    crate::session_laws::lemma_tabs(s);
    crate::session_laws::lemma_place_of(s.tabs, p);
}

/// A single tab has nowhere to go on to.
pub proof fn law_a_single_tab_stays(s: AppState, forward: bool)
    requires
        s.tabs.len() < 2,
    ensures
        s.cycled(forward) == s,
        s.cycled_effects(forward).len() == 0,
{
}

/// A tab is chosen by its place; a place without a tab changes nothing.
pub proof fn law_tab_is_chosen_by_its_place(s: AppState, i: int)
    ensures
        0 <= i < s.tabs.len() ==> s.tab_selected(i).conn == s.tabs[i].0 && s.tab_selected(i).win
            == s.tabs[i].1,
        0 <= i < s.tabs.len() ==> s.tab_selected_effects(i) == s.switched_effects(
            s.tabs[i].0,
            s.tabs[i].1,
        ),
        !(0 <= i < s.tabs.len()) ==> s.tab_selected(i) == s && s.tab_selected_effects(i).len() == 0,
{
}

/// Closing the window that is shown takes it away and no other, and shows the last of
/// the tabs that are left; where none is left, the program ends.
pub proof fn law_closing_shows_the_last_tab(s: AppState, c: int, i: usize)
    requires
        s.wf(),
    ensures
        ({
            let after = s.active_closed();
            let rest = s.removed(s.conn, s.win).tabs;
            &&& after.tabs == rest
            &&& s.manager.window(s.conn as int, s.win) is Some ==> after.manager.window(
                s.conn as int,
                s.win,
            ) is None
            &&& rest.len() > 0 ==> after.conn == rest.last().0 && after.win == rest.last().1
            &&& c != s.conn || i != s.win ==> (after.manager.window(c, i) is Some
                <==> s.manager.window(c, i) is Some)
            &&& s.active() is Some ==> s.active_closed_effects()[0] == (EffectView::Close {
                conn: s.conn,
                win: s.win,
            }) && s.active_closed_effects()[1] == EffectView::Relayout
            &&& rest.len() == 0 ==> s.active_closed_effects().last() == EffectView::Exit
            &&& rest.len() > 0 ==> s.active_closed_effects().last() == EffectView::Redraw
                && !s.active_closed_effects().contains(EffectView::Exit)
        }),
{
    crate::session_laws::lemma_removed(s, s.conn, s.win);
    let r = s.removed(s.conn, s.win);
    if r.tabs.len() > 0 {
        let last = r.tabs.last();
        law_chosen_window_is_shown(r, last.0, last.1, c, i);
        law_chosen_window_is_shown(r, last.0, last.1, s.conn as int, s.win);
        crate::session_laws::lemma_switched(r, last.0, last.1);
        crate::session_laws::lemma_tabs(r);
        assert(r.manager.window(r.tabs[r.tabs.len() - 1].0 as int, r.tabs[r.tabs.len() - 1].1)
            is Some);
    }
}

/// The end of a program in a window that is not shown takes that window away and leaves
/// the one that is shown.
pub proof fn law_background_window_ends_quietly(s: AppState, conn: usize, win: usize, c: int, i: usize)
    requires
        s.wf(),
        conn != s.conn || win != s.win,
    ensures
        s.ended(conn, win).conn == s.conn,
        s.ended(conn, win).win == s.win,
        s.ended(conn, win).selection == s.selection,
        s.ended(conn, win).manager.window(conn as int, win) is None,
        c != conn || i != win ==> s.ended(conn, win).manager.window(c, i) == s.manager.window(c, i),
        s.ended_effects(conn, win).last() == EffectView::Redraw,
        s.manager.window(conn as int, win) is Some ==> s.ended_effects(conn, win)[0] == (
        EffectView::Close { conn, win }),
        s.ended(s.conn, s.win) == s.active_closed(),
{
    crate::session_laws::lemma_removed(s, conn, win);
}

/// A window that is added to a connection is its last, of the size asked for, with the
/// limit of the history that is set; the other windows stay.
pub proof fn law_added_window_keeps_the_limit(s: AppState, conn: usize, cols: u16, rows: u16)
    requires
        s.wf(),
        s.can_add(conn),
        cols >= 1,
        rows >= 1,
    ensures
        ({
            let c = s.manager.connections[conn as int];
            let after = s.added(conn, cols, rows);
            let w = after.active()->0;
            &&& after.active() is Some
            &&& w.id == c.next_id
            &&& w.screen.cols == cols && w.screen.rows == rows
            &&& s.scrollback matches Some(n) ==> w.screen.history_max == (if n >= 1 {
                n as int
            } else {
                1
            })
            &&& s.scrollback is None ==> w.screen.history_max == 5000
            &&& after.manager.connections.len() == s.manager.connections.len()
            &&& s.added_effects(conn, cols, rows)[0] == EffectView::Relayout
        }),
{
    let c = s.manager.connections[conn as int];
    let d = c.opened(cols as int, rows as int);
    let id = c.next_id as usize;
    assert(d.wf());
    crate::connection::lemma_place(d, id, d.windows.len() - 1);
    let w = d.windows.last();
    if let Some(n) = s.scrollback {
        crate::connection::lemma_with_window(
            d,
            id,
            w.with_screen(w.screen.set_scrollback_max(n as int)),
        );
    }
    let g = s.grown(conn, cols, rows);
    assert(g.wf());
    law_chosen_window_is_shown(g, conn, id, 0, 0);
}

/// A window that could not be opened uses its identifier up, and changes nothing else.
pub proof fn law_failed_window_uses_its_identifier_up(s: AppState, conn: usize, c: int)
    requires
        0 <= c < s.manager.connections.len(),
    ensures
        s.can_add(conn) <==> conn < s.manager.connections.len() && s.manager.connections[
            conn as int
        ].next_id < usize::MAX,
        s.can_add(conn) && c == conn ==> s.skipped(conn).manager.connections[c] == (
        ConnectionState {
            next_id: s.manager.connections[c].next_id + 1,
            ..s.manager.connections[c]
        }),
        c != conn ==> s.skipped(conn).manager.connections[c] == s.manager.connections[c],
        !s.can_add(conn) ==> s.skipped(conn) == s,
        s.skipped(conn) == (AppState { manager: s.skipped(conn).manager, ..s }),
{
}

/// The sidebar is shown where there is more than one window, unless it has been set;
/// setting it turns it round.
pub proof fn law_sidebar_is_shown_for_many_windows(s: AppState)
    ensures
        s.sidebar is None ==> (s.sidebar_shown() <==> s.tabs.len() > 1),
        s.sidebar matches Some(b) ==> s.sidebar_shown() == b,
{
}

/// The tabs stand in the order of the connections, and those of a connection in the order
/// in which its windows were opened.
pub proof fn law_tabs_stand_in_order(s: AppState, a: int, b: int)
    requires
        s.wf(),
        0 <= a < b < s.tabs.len(),
    ensures
        s.tabs[a].0 <= s.tabs[b].0,
        s.tabs[a].0 == s.tabs[b].0 ==> ({
            let c = s.manager.connections[s.tabs[a].0 as int];
            exists|i: int, j: int|
                0 <= i < j < c.windows.len() && #[trigger] c.windows[i].id == s.tabs[a].1
                    && #[trigger] c.windows[j].id == s.tabs[b].1
        }),
{
    lemma_flattened_order(s.manager, s.manager.connections.len() as int, a, b);
}

proof fn lemma_flattened_order(m: ManagerState, n: int, a: int, b: int)
    requires
        m.wf(),
        0 <= n <= m.connections.len(),
        0 <= a < b < crate::manager::flattened(m.connections, n).len(),
    ensures
        ({
            let all = crate::manager::flattened(m.connections, n);
            &&& all[a].0 <= all[b].0 < n
            &&& all[a].0 == all[b].0 ==> ({
                let c = m.connections[all[a].0 as int];
                exists|i: int, j: int|
                    0 <= i < j < c.windows.len() && #[trigger] c.windows[i].id == all[a].1
                        && #[trigger] c.windows[j].id == all[b].1
            })
        }),
    decreases n,
{
    let all = crate::manager::flattened(m.connections, n);
    if n > 0 {
        let head = crate::manager::flattened(m.connections, n - 1);
        let c = m.connections[n - 1];
        let tail = crate::manager::tagged((n - 1) as usize, c.ids());
        assert(all == head + tail);
        if b < head.len() {
            lemma_flattened_order(m, n - 1, a, b);
            assert(all[a] == head[a] && all[b] == head[b]);
        } else {
            assert(all[b] == tail[b - head.len()]);
            if a < head.len() {
                assert(all[a] == head[a]);
                lemma_flattened_below(m, n - 1, a);
            } else {
                let i = a - head.len();
                let j = b - head.len();
                assert(all[a] == tail[i]);
                assert(c.windows[i].id == all[a].1 && c.windows[j].id == all[b].1);
            }
        }
    }
}

proof fn lemma_flattened_below(m: ManagerState, n: int, a: int)
    requires
        0 <= n <= m.connections.len() <= usize::MAX,
        0 <= a < crate::manager::flattened(m.connections, n).len(),
    ensures
        crate::manager::flattened(m.connections, n)[a].0 < n,
    decreases n,
{
    if n > 0 {
        let all = crate::manager::flattened(m.connections, n);
        let head = crate::manager::flattened(m.connections, n - 1);
        if a < head.len() {
            assert(all[a] == head[a]);
            lemma_flattened_below(m, n - 1, a);
        } else {
            let tail = crate::manager::tagged((n - 1) as usize, m.connections[n - 1].ids());
            assert(all[a] == tail[a - head.len()]);
        }
    }
}

// ---- shortcuts ----

/// Whether the command key is held, or control with shift.
pub open spec fn command_held(s: AppState) -> bool {
    s.mods.super_key || (s.mods.control && s.mods.shift)
}

/// The shortcuts: `c` copies, `v` pastes, `t` opens a window on the connection that is
/// shown, `w` closes the window that is shown, `b` turns the sidebar round, the brackets
/// go back and on, and a digit from one on chooses a tab. Capitals do the same.
pub proof fn law_shortcuts_do_what_they_say(s: AppState, key: String, text: Option<Seq<char>>)
    requires
        command_held(s),
        key@.len() == 1,
    ensures
        ({
            let c = key@[0];
            let after = s.key_pressed(Key::Character(key), text);
            let fx = s.key_effects(Key::Character(key), text);
            &&& c == 'c' || c == 'C' ==> after == s && fx == s.copied_effects()
            &&& c == 'v' || c == 'V' ==> after == s && fx == seq![EffectView::Paste]
            &&& c == 't' || c == 'T' ==> after == s && fx == seq![
                EffectView::Open { conn: s.conn },
            ]
            &&& c == 'w' || c == 'W' ==> after == s.active_closed() && fx
                == s.active_closed_effects()
            &&& c == 'b' || c == 'B' ==> after == (AppState {
                sidebar: Some(!s.sidebar_shown()),
                ..s
            }) && fx == seq![EffectView::Relayout, EffectView::Redraw]
            &&& c == '[' ==> after == s.cycled(false) && fx == s.cycled_effects(false)
            &&& c == ']' ==> after == s.cycled(true) && fx == s.cycled_effects(true)
            &&& c == '1' ==> after == s.tab_selected(0)
            &&& c == '2' ==> after == s.tab_selected(1)
            &&& c == '9' ==> after == s.tab_selected(8)
            &&& '1' <= c <= '9' ==> after == s.tab_selected(c as int - '1' as int) && fx
                == s.tab_selected_effects(c as int - '1' as int)
        }),
{
    let k = Key::Character(key);
    assert(s.scroll_key(k) is None);
    assert(s.shortcut(k) == crate::session::shortcut_of(key@[0]));
}

/// What is selected goes to the clipboard, unless nothing is, or it shows nothing.
pub proof fn law_copying_takes_what_is_selected(s: AppState, sel: Selection, w: WindowState)
    requires
        s.active() == Some(w),
    ensures
        s.selection == Some(sel) && sel.anchor != sel.head ==> ({
            let text = w.screen.span(sel.anchor, sel.head);
            &&& text.len() > 0 ==> s.copied_effects() == seq![EffectView::SetClipboard(text)]
            &&& text.len() == 0 ==> s.copied_effects().len() == 0
        }),
        s.selection == Some(sel) && sel.anchor == sel.head ==> s.copied_effects().len() == 0,
        s.selection is None ==> s.copied_effects().len() == 0,
{
}

/// Text that is pasted goes to the window that is shown, between markers where the
/// application has asked for them.
pub proof fn law_pasting_goes_to_the_window_that_is_shown(
    s: AppState,
    text: Seq<char>,
    w: WindowState,
)
    requires
        s.active() == Some(w),
    ensures
        text.len() > 0 ==> s.pasted_effects(text) == seq![
            EffectView::Write {
                conn: s.conn,
                win: s.win,
                bytes: crate::input::pasted(
                    vstd::utf8::encode_utf8(text),
                    w.screen.modes.bracketed_paste,
                ),
            },
        ],
        text.len() == 0 ==> s.pasted_effects(text).len() == 0,
{
}

// ---- keys ----

/// Whether a key is page up or page down.
pub open spec fn is_page_key(key: Key) -> bool {
    match key {
        Key::Named(named) => named == NamedKey::PageUp || named == NamedKey::PageDown,
        _ => false,
    }
}

/// Any other key goes to the application in the window that is shown, as its bytes; the
/// view is live again and nothing is selected. A key without bytes does nothing.
pub proof fn law_keys_go_to_the_application(
    s: AppState,
    key: Key,
    text: Option<Seq<char>>,
    w: WindowState,
)
    requires
        s.wf(),
        s.active() == Some(w),
        !s.mods.super_key,
        !(s.mods.control && s.mods.shift),
        !(s.mods.shift && is_page_key(key)),
    ensures
        ({
            let bytes = crate::input::encoded(
                key,
                text,
                s.mods,
                w.screen.modes.app_cursor_keys,
            );
            let after = s.key_pressed(key, text);
            &&& bytes is None ==> after == s && s.key_effects(key, text).len() == 0
            &&& bytes is Some ==> {
                &&& s.key_effects(key, text) == seq![
                    EffectView::Write { conn: s.conn, win: s.win, bytes: bytes->0 },
                    EffectView::Redraw,
                ]
                &&& after.selection is None
                &&& after.active() == Some(WindowState { screen: w.screen.reset_view(), ..w })
                &&& after.conn == s.conn && after.win == s.win
            }
        }),
{
    crate::manager::lemma_window(s.manager, s.conn as int, s.win);
    crate::manager::lemma_with_window(
        s.manager,
        s.conn as int,
        s.win,
        w.with_screen(w.screen.reset_view()),
    );
    let bytes = crate::input::encoded(key, text, s.mods, w.screen.modes.app_cursor_keys);
    assert(s.scroll_key(key) is None);
    assert(s.shortcut(key) is None);
    if bytes is Some {
        assert(s.key_effects(key, text) =~= seq![
            EffectView::Write { conn: s.conn, win: s.win, bytes: bytes->0 },
            EffectView::Redraw,
        ]);
    }
}

/// The keys that do not go to the application: all with the command key, the shortcuts,
/// and the page keys with shift. All others do.
pub proof fn law_keys_that_are_taken(s: AppState, key: Key)
    ensures
        s.mods.super_key ==> s.swallows(key),
        !s.mods.super_key && key is Named ==> (s.swallows(key) <==> s.mods.shift && is_page_key(
            key,
        )),
        !s.mods.super_key && !(s.mods.control && s.mods.shift) && !(key is Named)
            ==> !s.swallows(key),
        s.mods.control && s.mods.shift && !s.mods.super_key ==> (key matches Key::Character(t) ==> (
        s.swallows(key) <==> t@.len() == 1 && is_shortcut_character(t@[0]))),
{
}

/// The characters of the shortcuts.
pub open spec fn is_shortcut_character(c: char) -> bool {
    ||| c == 'c' || c == 'C'
    ||| c == 'v' || c == 'V'
    ||| c == 't' || c == 'T'
    ||| c == 'w' || c == 'W'
    ||| c == 'b' || c == 'B'
    ||| c == '[' || c == ']'
    ||| '1' <= c <= '9'
}

/// With shift, page up goes back in the history and page down forth, by one line less
/// than the screen has; the application hears of nothing.
pub proof fn law_page_keys_scroll_the_view(s: AppState, text: Option<Seq<char>>, w: WindowState)
    requires
        s.wf(),
        s.active() == Some(w),
        s.mods.shift,
    ensures
        ({
            let up = Key::Named(NamedKey::PageUp);
            let down = Key::Named(NamedKey::PageDown);
            let page = w.screen.rows - 1;
            &&& s.key_pressed(up, text).active() == Some(
                WindowState { screen: w.screen.scroll_view_up(page), ..w },
            )
            &&& s.key_pressed(down, text).active() == Some(
                WindowState { screen: w.screen.scroll_view_down(page), ..w },
            )
            &&& s.key_pressed(up, text).selection is None
            &&& s.key_pressed(down, text).selection is None
            &&& s.key_effects(up, text) == seq![EffectView::Redraw]
            &&& s.key_effects(down, text) == seq![EffectView::Redraw]
        }),
{
    lemma_scrolled_window(s, true, w.screen.rows - 1, w);
    lemma_scrolled_window(s, false, w.screen.rows - 1, w);
}

proof fn lemma_scrolled_window(s: AppState, up: bool, n: int, w: WindowState)
    requires
        s.wf(),
        s.active() == Some(w),
        n >= 0,
    ensures
        up ==> s.scrolled(up, n).active() == Some(
            WindowState { screen: w.screen.scroll_view_up(n), ..w },
        ),
        !up ==> s.scrolled(up, n).active() == Some(
            WindowState { screen: w.screen.scroll_view_down(n), ..w },
        ),
{
    crate::manager::lemma_window(s.manager, s.conn as int, s.win);
    crate::manager::lemma_with_window(
        s.manager,
        s.conn as int,
        s.win,
        w.with_screen(
            if up {
                w.screen.scroll_view_up(n)
            } else {
                w.screen.scroll_view_down(n)
            },
        ),
    );
}

// ---- the mouse ----

/// In the new form a report is `ESC [ <`, the button, the column and the row counted from
/// one, with semicolons between, and `M` for a press or `m` for a release.
pub proof fn law_new_reports_name_button_column_and_row(btn: u8, col: int, row: int)
    requires
        col >= 0,
        row >= 0,
    ensures
        ({
            let head = seq![0x1bu8, 0x5bu8, 0x3cu8] + crate::text::decimal(btn as nat) + seq![
                0x3bu8,
            ] + crate::text::decimal((col + 1) as nat) + seq![0x3bu8] + crate::text::decimal(
                (row + 1) as nat,
            );
            &&& crate::session::mouse_bytes(true, btn, col, row, true) == head + seq![0x4du8]
            &&& crate::session::mouse_bytes(true, btn, col, row, false) == head + seq![0x6du8]
        }),
{
}

/// In the old form a report is six bytes: `ESC [ M`, and the button, the column and the
/// row, each 32 more, the places counted from one and no further than 223. All releases
/// look alike.
pub proof fn law_old_reports_have_six_bytes(btn: u8, col: int, row: int, press: bool)
    requires
        col >= 0,
        row >= 0,
    ensures
        ({
            let out = crate::session::mouse_bytes(false, btn, col, row, press);
            &&& out.len() == 6
            &&& out[0] == 0x1b && out[1] == 0x5b && out[2] == 0x4d
            &&& press && btn <= 223 ==> out[3] - 32 == btn
            &&& press && btn > 223 ==> out[3] == 255
            &&& !press ==> out[3] - 32 == 3
            &&& col < 223 ==> out[4] - 33 == col
            &&& col >= 223 ==> out[4] == 255
            &&& row < 223 ==> out[5] - 33 == row
            &&& row >= 223 ==> out[5] == 255
        }),
{
}

/// An application that wants the mouse hears of the left button going down and up, at
/// the cell where it does, as button zero.
pub proof fn law_clicks_are_reported(s: AppState, cell: (usize, usize), w: WindowState)
    requires
        s.active() == Some(w),
        w.screen.modes.mouse_proto != MouseProto::Off,
        !s.mods.shift,
    ensures
        ({
            let report = |press: bool|
                seq![
                    EffectView::Write {
                        conn: s.conn,
                        win: s.win,
                        bytes: crate::session::mouse_bytes(
                            w.screen.modes.mouse_sgr,
                            0,
                            cell.0 as int,
                            cell.1 as int,
                            press,
                        ),
                    },
                ];
            &&& s.click_effects(true, None, cell) == report(true)
            &&& s.click_effects(false, None, cell) == report(false)
            &&& s.clicked(true, None, cell) == (AppState { mouse_down: true, ..s })
            &&& s.clicked(false, None, cell) == (AppState { mouse_down: false, ..s })
        }),
{
}

/// Movement with the button held is reported where the application wants to hear of it,
/// and not where it wants to hear of presses alone.
pub proof fn law_dragging_is_reported_on_demand(s: AppState, cell: (usize, usize), w: WindowState)
    requires
        s.active() == Some(w),
        !s.selecting,
    ensures
        s.mouse_down && (w.screen.modes.mouse_proto == MouseProto::ButtonEvent
            || w.screen.modes.mouse_proto == MouseProto::AnyEvent) ==> s.pointed_effects(cell)
            == seq![
            EffectView::Write {
                conn: s.conn,
                win: s.win,
                bytes: crate::session::mouse_bytes(
                    w.screen.modes.mouse_sgr,
                    32,
                    cell.0 as int,
                    cell.1 as int,
                    true,
                ),
            },
        ],
        w.screen.modes.mouse_proto == MouseProto::Off || w.screen.modes.mouse_proto
            == MouseProto::Normal ==> s.pointed_effects(cell).len() == 0,
        !s.mouse_down && w.screen.modes.mouse_proto == MouseProto::ButtonEvent
            ==> s.pointed_effects(cell).len() == 0,
        s.pointed(cell) == s,
{
}

/// Where the application does not want the mouse, or shift is held, dragging selects from
/// where the button went down to where it has got to; releasing it keeps the selection,
/// unless the mouse has not moved.
pub proof fn law_dragging_selects(s: AppState, from: (usize, usize), to: (usize, usize))
    requires
        s.mods.shift || s.mouse_proto() == MouseProto::Off,
    ensures
        ({
            let down = s.clicked(true, None, from);
            let dragged = down.pointed(to);
            let up = dragged.clicked(false, None, to);
            &&& down.selection == Some(Selection { anchor: from, head: from }) && down.selecting
            &&& dragged.selection == Some(Selection { anchor: from, head: to })
            &&& down.pointed_effects(to) == seq![EffectView::Redraw]
            &&& from != to ==> up.selection == Some(Selection { anchor: from, head: to })
            &&& from == to ==> up.selection is None
            &&& !up.selecting && !up.mouse_down
            &&& up.manager == s.manager
        }),
{
}

/// A click that does not move opens the hyperlink under it, if it is one that may be
/// opened; a drag opens nothing.
pub proof fn law_click_opens_the_hyperlink_under_it(
    s: AppState,
    at: (usize, usize),
    cell: (usize, usize),
    w: WindowState,
)
    requires
        s.active() == Some(w),
        s.mods.shift || w.screen.modes.mouse_proto == MouseProto::Off,
    ensures
        ({
            let link = w.screen.link_uri(w.screen.visible_cell(at.0 as int, at.1 as int).link);
            let still = AppState {
                selection: Some(Selection { anchor: at, head: at }),
                ..s
            };
            &&& link is Some && crate::session::may_open(link->0) ==> still.click_effects(
                false,
                None,
                cell,
            ) == seq![EffectView::OpenUrl(link->0)]
            &&& link is None || !crate::session::may_open(link->0) ==> still.click_effects(
                false,
                None,
                cell,
            ).len() == 0
        }),
        s.selection is Some && s.selection->0.anchor != s.selection->0.head ==> s.click_effects(
            false,
            None,
            cell,
        ).len() == 0,
{
}

/// Web pages, files and mail addresses may be opened, and nothing else.
pub proof fn law_only_known_addresses_may_be_opened(url: Seq<char>)
    ensures
        crate::session::may_open(url) <==> {
            ||| starts(url, seq!['h', 't', 't', 'p', ':', '/', '/'])
            ||| starts(url, seq!['h', 't', 't', 'p', 's', ':', '/', '/'])
            ||| starts(url, seq!['f', 'i', 'l', 'e', ':', '/', '/'])
            ||| starts(url, seq!['m', 'a', 'i', 'l', 't', 'o', ':'])
        },
{
    reveal_strlit("http://");
    reveal_strlit("https://");
    reveal_strlit("file://");
    reveal_strlit("mailto:");
    let web = seq!['h', 't', 't', 'p', ':', '/', '/'];
    let safe = seq!['h', 't', 't', 'p', 's', ':', '/', '/'];
    let file = seq!['f', 'i', 'l', 'e', ':', '/', '/'];
    let mail = seq!['m', 'a', 'i', 'l', 't', 'o', ':'];
    assert("http://"@ =~= web);
    assert("https://"@ =~= safe);
    assert("file://"@ =~= file);
    assert("mailto:"@ =~= mail);
    lemma_starts(url, web);
    lemma_starts(url, safe);
    lemma_starts(url, file);
    lemma_starts(url, mail);
}

/// Whether text starts with other text, character by character.
pub open spec fn starts(text: Seq<char>, head: Seq<char>) -> bool {
    head.len() <= text.len() && forall|i: int| 0 <= i < head.len() ==> text[i] == #[trigger] head[i]
}

proof fn lemma_starts(text: Seq<char>, head: Seq<char>)
    ensures
        crate::session::begins_with(text, head) == starts(text, head),
{
    if starts(text, head) {
        assert(text.take(head.len() as int) =~= head);
    }
    if crate::session::begins_with(text, head) {
        let part = text.take(head.len() as int);
        assert forall|i: int| 0 <= i < head.len() implies text[i] == #[trigger] head[i] by {
            assert(part[i] == text[i]);
        }
    }
}

/// The wheel scrolls the view by as many lines as it turns; nothing is selected any
/// more.
pub proof fn law_wheel_scrolls_the_view(
    s: AppState,
    step: int,
    cell: (usize, usize),
    w: WindowState,
)
    requires
        s.wf(),
        s.active() == Some(w),
        step >= 0,
        w.screen.modes.mouse_proto == MouseProto::Off,
        !w.screen.on_alt(),
    ensures
        s.wheeled(true, step).active() == Some(
            WindowState { screen: w.screen.scroll_view_up(step), ..w },
        ),
        s.wheeled(false, step).active() == Some(
            WindowState { screen: w.screen.scroll_view_down(step), ..w },
        ),
        s.wheeled(true, step).selection is None,
        s.wheeled(false, step).selection is None,
{
    lemma_scrolled_window(s, true, step, w);
    lemma_scrolled_window(s, false, step, w);
}

/// An application that wants the mouse hears of each turn of the wheel, five at most, as
/// button 64 for up and 65 for down.
pub proof fn law_wheel_is_reported_turn_by_turn(
    s: AppState,
    up: bool,
    step: int,
    cell: (usize, usize),
    w: WindowState,
    k: int,
)
    requires
        s.active() == Some(w),
        w.screen.modes.mouse_proto != MouseProto::Off,
        step >= 0,
    ensures
        ({
            let fx = s.wheel_effects(up, step, cell);
            &&& step <= 5 ==> fx.len() == step
            &&& step > 5 ==> fx.len() == 5
            &&& 0 <= k < fx.len() ==> fx[k] == (EffectView::Write {
                conn: s.conn,
                win: s.win,
                bytes: crate::session::mouse_bytes(
                    w.screen.modes.mouse_sgr,
                    if up {
                        64
                    } else {
                        65
                    },
                    cell.0 as int,
                    cell.1 as int,
                    true,
                ),
            })
        }),
{
    let one = s.report_effects(
        cell,
        if up {
            64
        } else {
            65
        },
        true,
    );
    lemma_repeated(one, vstd::math::min(step, 5) as nat, k);
}

proof fn lemma_repeated(one: Seq<EffectView>, n: nat, k: int)
    requires
        one.len() == 1,
    ensures
        crate::session::repeated(one, n).len() == n,
        0 <= k < n ==> crate::session::repeated(one, n)[k] == one[0],
    decreases n,
{
    if n > 0 {
        lemma_repeated(one, (n - 1) as nat, k);
    }
}

/// On the alternate screen of an application that does not want the mouse, the wheel does
/// nothing.
pub proof fn law_wheel_rests_on_the_alternate_screen(
    s: AppState,
    up: bool,
    step: int,
    cell: (usize, usize),
    w: WindowState,
)
    requires
        s.active() == Some(w),
        step >= 0,
        w.screen.on_alt(),
        w.screen.modes.mouse_proto == MouseProto::Off,
    ensures
        s.wheeled(up, step) == s,
        s.wheel_effects(up, step, cell).len() == 0,
{
    lemma_repeated_nothing(vstd::math::min(step, 5) as nat);
}

proof fn lemma_repeated_nothing(n: nat)
    ensures
        crate::session::repeated(Seq::empty(), n).len() == 0,
    decreases n,
{
    if n > 0 {
        lemma_repeated_nothing((n - 1) as nat);
    }
}

/// Without a window nothing is sent, copied or pasted, and nothing is reported.
pub proof fn law_without_a_window_nothing_is_sent(
    s: AppState,
    text: Seq<char>,
    cell: (usize, usize),
    focused: bool,
)
    requires
        s.active() is None,
    ensures
        s.pasted_effects(text).len() == 0,
        s.copied_effects().len() == 0,
        s.click_effects(true, None, cell) == seq![EffectView::Redraw],
        !s.selecting ==> s.pointed_effects(cell).len() == 0,
        s.focus_effects(focused) == seq![EffectView::Redraw],
{
    assert(s.focus_effects(focused) =~= seq![EffectView::Redraw]);
}

// ---- the focus ----

/// An application that asks for it hears of the focus coming and going; what was marked
/// in the window that is shown is seen once the focus comes. Other windows keep their
/// marks.
pub proof fn law_focus_is_told_and_seen(s: AppState, focused: bool, w: WindowState, c: int, i: usize)
    requires
        s.wf(),
        s.active() == Some(w),
    ensures
        ({
            let after = s.focus_changed(focused);
            let fx = s.focus_effects(focused);
            &&& after.focused == focused
            &&& focused ==> after.active() == Some(WindowState { alerted: false, ..w })
            &&& !focused ==> after.active() == Some(w)
            &&& c != s.conn || i != s.win ==> after.manager.window(c, i) == s.manager.window(c, i)
            &&& !w.screen.modes.focus_event ==> fx == seq![EffectView::Redraw]
            &&& w.screen.modes.focus_event && focused ==> fx == seq![
                EffectView::Write {
                    conn: s.conn,
                    win: s.win,
                    bytes: seq![0x1bu8, 0x5bu8, 0x49u8],
                },
                EffectView::Redraw,
            ]
            &&& w.screen.modes.focus_event && !focused ==> fx == seq![
                EffectView::Write {
                    conn: s.conn,
                    win: s.win,
                    bytes: seq![0x1bu8, 0x5bu8, 0x4fu8],
                },
                EffectView::Redraw,
            ]
        }),
{
    crate::manager::lemma_window(s.manager, s.conn as int, s.win);
    let t = AppState { focused, ..s };
    crate::manager::lemma_with_window(
        s.manager,
        s.conn as int,
        s.win,
        WindowState { alerted: false, ..w },
    );
    assert(t.active() == Some(w));
    let fx = s.focus_effects(focused);
    if w.screen.modes.focus_event {
        let bytes = seq![
            0x1bu8,
            0x5bu8,
            if focused {
                0x49u8
            } else {
                0x4fu8
            },
        ];
        assert(fx =~= seq![
            EffectView::Write { conn: s.conn, win: s.win, bytes },
            EffectView::Redraw,
        ]);
    } else {
        assert(fx =~= seq![EffectView::Redraw]);
    }
}

// ---- output ----

/// Output in the window that is shown brings its title up to date; elsewhere the title
/// stays. A selection in the history is dropped when the window gets output; one in the
/// live screen stays.
pub proof fn law_output_keeps_title_and_selection(
    s: AppState,
    conn: usize,
    win: usize,
    w: WindowState,
    bytes: Seq<u8>,
)
    requires
        s.manager.window(conn as int, win) == Some(w),
    ensures
        conn != s.conn || win != s.win ==> s.retitled_effects(conn, win).len() == 0,
        conn == s.conn && win == s.win ==> s.retitled_effects(conn, win) == seq![
            EffectView::Title(w.title),
        ],
        s.fed(conn, win, w, bytes).selection == (if conn == s.conn && win == s.win
            && w.screen.view_offset > 0 {
            None
        } else {
            s.selection
        }),
{
}

/// While an application updates the screen, redraws are held back, up to 64 in a row;
/// at any other time output is drawn at once, and the count begins anew.
pub proof fn law_updates_hold_redraws_back(s: AppState)
    ensures
        ({
            let updating = s.active() is Some && s.active()->0.screen.modes.sync_output;
            &&& updating && s.sync_skips < 64 ==> s.paced_effects().len() == 0 && s.paced() == (
            AppState { sync_skips: (s.sync_skips + 1) as u32, ..s })
            &&& !updating || s.sync_skips >= 64 ==> s.paced_effects() == seq![EffectView::Redraw]
                && s.paced() == (AppState { sync_skips: 0, ..s })
        }),
{
}

/// What output asks for: first the answers to the program in the window, in order, then
/// the title where the window is shown, then what the events ask for, and last the
/// redraw.
pub proof fn law_output_is_answered_first(
    s: AppState,
    conn: usize,
    win: usize,
    bytes: Seq<u8>,
    w: WindowState,
    i: int,
)
    requires
        s.wf(),
        s.manager.window(conn as int, win) == Some(w),
    ensures
        ({
            let fx = s.output_effects(conn, win, bytes);
            let after = w.after_output(bytes);
            let replies = crate::window::replies_of(after.screen.events);
            &&& fx.len() >= replies.len()
            &&& 0 <= i < replies.len() ==> fx[i] == (EffectView::Write {
                conn,
                win,
                bytes: replies[i],
            })
            &&& conn == s.conn && win == s.win ==> fx.len() > replies.len()
                && fx[replies.len() as int] == EffectView::Title(after.settled().title)
            &&& conn == s.conn && win == s.win && !after.screen.modes.sync_output ==> fx.last()
                == EffectView::Redraw
            &&& conn == s.conn && win == s.win && after.screen.modes.sync_output && s.sync_skips
                >= 64 ==> fx.last() == EffectView::Redraw
        }),
{
    let after = w.after_output(bytes);
    let events = after.screen.events;
    let others = crate::window::others_of(events);
    let replies = crate::window::replies_of(events);
    let t = s.fed(conn, win, w, bytes);
    let a = AppState::reply_effects(conn, win, replies);
    let b = t.retitled_effects(conn, win);
    let c = t.events_effects(conn, win, others);
    let e = t.after_events(conn, win, others);
    let d = e.paced_effects();
    assert(s.output_effects(conn, win, bytes) == a + b + c + d);
    crate::manager::lemma_window(s.manager, conn as int, win);
    crate::window::lemma_settled_id(after);
    crate::laws::law_any_output_keeps_the_screen_in_order(
        w.screen,
        crate::decode::decoded(w.fed, bytes),
        crate::screen::DCS_LIMIT as nat,
    );
    let settled = after.settled();
    crate::manager::lemma_with_window(
        s.manager,
        conn as int,
        win,
        WindowState { activity: settled.activity || !s.is_active(conn, win), ..settled },
    );
    crate::session_laws::lemma_events_others(t, conn, win, others);
    lemma_same_skips(t, conn, win, others);
    assert(e.sync_skips == s.sync_skips);
    if conn == s.conn && win == s.win {
        assert(e.active() is Some && e.active()->0.screen == after.screen.drained());
        assert(b == seq![EffectView::Title(settled.title)]);
        assert((a + b + c + d)[a.len() as int] == b[0]);
        if d.len() > 0 {
            assert((a + b + c + d).last() == d.last());
        }
    }
}

proof fn lemma_same_skips(s: AppState, conn: usize, win: usize, events: Seq<EventView>)
    ensures
        s.after_events(conn, win, events).sync_skips == s.sync_skips,
    decreases events.len(),
{
    if events.len() > 0 {
        lemma_same_skips(s, conn, win, events.drop_last());
    }
}

/// The events of a screen are dealt with one after the other.
pub proof fn law_events_are_dealt_with_in_order(
    s: AppState,
    w: WindowState,
    conn: usize,
    win: usize,
    first: Seq<EventView>,
    second: Seq<EventView>,
    ev: EventView,
)
    ensures
        w.after_events(first + second) == w.after_events(first).after_events(second),
        w.after_events(seq![ev]) == w.after_event(ev),
        s.after_events(conn, win, first + second) == s.after_events(conn, win, first).after_events(
            conn,
            win,
            second,
        ),
        s.after_events(conn, win, seq![ev]) == s.after_event(conn, win, ev),
        s.events_effects(conn, win, first + second) == s.events_effects(conn, win, first)
            + s.after_events(conn, win, first).events_effects(conn, win, second),
        s.events_effects(conn, win, seq![ev]) == s.event_effects(conn, win, ev),
    decreases second.len(),
{
    let one = seq![ev];
    assert(one.drop_last() =~= Seq::<EventView>::empty());
    assert(w.after_events(one.drop_last()) == w);
    assert(s.after_events(conn, win, one.drop_last()) == s);
    assert(s.events_effects(conn, win, one.drop_last()) =~= Seq::<EffectView>::empty());
    assert(s.events_effects(conn, win, one) =~= s.event_effects(conn, win, ev));
    let all = first + second;
    if second.len() == 0 {
        assert(all =~= first);
        assert(s.events_effects(conn, win, first) + s.after_events(
            conn,
            win,
            first,
        ).events_effects(conn, win, second) =~= s.events_effects(conn, win, first));
    } else {
        let less = second.drop_last();
        law_events_are_dealt_with_in_order(s, w, conn, win, first, less, ev);
        assert(all.drop_last() =~= first + less);
        assert(all.last() == second.last());
        let mid = s.after_events(conn, win, first);
        let more = s.after_events(conn, win, first + less).event_effects(conn, win, second.last());
        assert(s.events_effects(conn, win, all) == s.events_effects(conn, win, first + less) + more);
        assert(mid.events_effects(conn, win, second) == mid.events_effects(conn, win, less) + more);
        assert(s.events_effects(conn, win, all) =~= s.events_effects(conn, win, first)
            + mid.events_effects(conn, win, second));
    }
}

/// What a window passes on keeps its order, and what it deals with itself is not among
/// it.
pub proof fn law_events_are_passed_on_in_order(
    first: Seq<EventView>,
    second: Seq<EventView>,
    ev: EventView,
)
    ensures
        crate::window::others_of(first + second) == crate::window::others_of(first)
            + crate::window::others_of(second),
        ev is Bell || ev is Notify || ev is Cwd || ev is SetClipboard ==> crate::window::others_of(
            seq![ev],
        ) == seq![ev],
        ev is Title || ev is PromptStart || ev is CommandEnd || ev is Reply
            ==> crate::window::others_of(seq![ev]).len() == 0,
{
    let keep = |e: EventView| !crate::window::is_own(e);
    Seq::filter_distributes_over_add(first, second, keep);
    reveal(Seq::filter);
    let one = seq![ev];
    assert(one.drop_last() =~= Seq::<EventView>::empty());
    assert(one.drop_last().filter(keep) =~= Seq::<EventView>::empty());
    assert(one.last() == ev);
    if keep(ev) {
        assert(one.filter(keep) =~= seq![ev]);
    }
}

/// A notification without a title, and a bell in a window that is gone, are called
/// `term`; a bell says that something is done.
pub proof fn law_notifications_have_a_title(
    s: AppState,
    conn: usize,
    win: usize,
    body: Seq<char>,
)
    requires
        s.unseen(conn, win),
    ensures
        s.notified_effects(conn, win, Seq::empty(), body)[0] == (EffectView::Notify {
            summary: seq!['t', 'e', 'r', 'm'],
            body,
        }),
        s.manager.window(conn as int, win) is Some && s.manager.window(
            conn as int,
            win,
        )->0.title.len() > 0 ==> s.belled_effects(conn, win)[0] == (EffectView::Notify {
            summary: s.manager.window(conn as int, win)->0.title,
            body: seq!['\u{5b8c}', '\u{6210}'],
        }),
        s.manager.window(conn as int, win) is None ==> s.belled_effects(conn, win)[0] == (
        EffectView::Notify {
            summary: seq!['t', 'e', 'r', 'm'],
            body: seq!['\u{5b8c}', '\u{6210}'],
        }),
{
}

/// A bell or a notification marks a window that is out of sight, and nothing else; where
/// it is seen, nothing is marked.
pub proof fn law_only_what_is_out_of_sight_is_marked(
    s: AppState,
    conn: usize,
    win: usize,
    ev: EventView,
    w: WindowState,
    c: int,
    i: usize,
)
    requires
        s.wf(),
        ev is Bell || ev is Notify,
        s.manager.window(conn as int, win) == Some(w),
    ensures
        s.focused && conn == s.conn && win == s.win ==> s.after_event(conn, win, ev) == s,
        !s.focused || conn != s.conn || win != s.win ==> s.after_event(conn, win, ev).manager.window(
            conn as int,
            win,
        ) == Some(WindowState { alerted: true, ..w }),
        c != conn || i != win ==> s.after_event(conn, win, ev).manager.window(c, i)
            == s.manager.window(c, i),
        s.focused && conn == s.conn && win == s.win && ev is Bell ==> s.event_effects(
            conn,
            win,
            ev,
        ).len() == 0,
        s.focused && conn == s.conn && win == s.win && ev is Notify ==> s.event_effects(
            conn,
            win,
            ev,
        ) == seq![EffectView::Redraw],
{
    crate::manager::lemma_window(s.manager, conn as int, win);
    crate::manager::lemma_with_window(
        s.manager,
        conn as int,
        win,
        WindowState { alerted: true, ..w },
    );
}

/// A window is out of sight where another one is shown, or the program has no focus.
pub proof fn law_out_of_sight(s: AppState, conn: usize, win: usize)
    ensures
        s.unseen(conn, win) <==> !s.focused || conn != s.conn || win != s.win,
{
}

/// Text for the clipboard is put there; no text is not. A directory is remembered by its
/// window.
pub proof fn law_events_for_the_program(
    s: AppState,
    conn: usize,
    win: usize,
    text: Seq<char>,
    w: WindowState,
)
    requires
        s.wf(),
        s.manager.window(conn as int, win) == Some(w),
    ensures
        text.len() > 0 ==> s.event_effects(conn, win, EventView::SetClipboard(text)) == seq![
            EffectView::SetClipboard(text),
        ],
        text.len() == 0 ==> s.event_effects(conn, win, EventView::SetClipboard(text)).len() == 0,
        s.after_event(conn, win, EventView::SetClipboard(text)) == s,
        s.after_event(conn, win, EventView::Cwd(text)).manager.window(conn as int, win) == Some(
            WindowState { cwd: Some(text), ..w },
        ),
        s.event_effects(conn, win, EventView::Cwd(text)).len() == 0,
{
    crate::manager::lemma_window(s.manager, conn as int, win);
    crate::manager::lemma_with_window(
        s.manager,
        conn as int,
        win,
        WindowState { cwd: Some(text), ..w },
    );
}

/// Every tab hears of another size.
pub proof fn law_every_tab_hears_of_the_size(s: AppState, cols: u16, rows: u16, k: int)
    requires
        0 <= k < s.tabs.len(),
    ensures
        s.resized_effects(cols, rows).len() == s.tabs.len(),
        s.resized_effects(cols, rows)[k] == (EffectView::Resize {
            conn: s.tabs[k].0,
            win: s.tabs[k].1,
            cols,
            rows,
        }),
        s.resized(cols, rows).manager == s.manager.resized(cols as int, rows as int),
{
}

// ---- the sidebar ----

/// Whether a row of the sidebar and what it leads to belong together: the name of a
/// connection, or a window of it with its title and its marks.
pub open spec fn row_fits(s: AppState, n: int, r: int) -> bool {
    let row = s.sidebar_rows(n)[r];
    match s.sidebar_targets(n)[r] {
        SidebarTarget::Host(c) => {
            &&& c < n
            &&& row.is_host
            &&& row.label == s.manager.connections[c as int].label
            &&& !row.active && !row.activity && !row.alerted
        },
        SidebarTarget::Win(c, id) => {
            &&& c < n
            &&& !row.is_host
            &&& s.manager.window(c as int, id) matches Some(w) && {
                &&& row.label == w.title
                &&& row.status == w.status
                &&& row.activity == w.activity
                &&& row.alerted == w.alerted
            }
            &&& row.active == (c == s.conn && id == s.win)
        },
    }
}

/// Every row of the sidebar shows what a click on it leads to: a connection, on which a
/// window is opened, or a window, which is shown. The window that is shown is marked.
pub proof fn law_rows_of_the_sidebar_lead_to_what_they_show(s: AppState, n: int, r: int)
    requires
        s.wf(),
        0 <= n <= s.manager.connections.len(),
        0 <= r < s.sidebar_targets(n).len(),
    ensures
        s.sidebar_rows(n).len() == s.sidebar_targets(n).len(),
        row_fits(s, n, r),
    decreases n,
{
    lemma_sidebar_len(s, n);
    if n > 0 {
        let conn = s.manager.connections[n - 1];
        let head = s.sidebar_targets(n - 1);
        let tail = crate::session::connection_targets((n - 1) as usize, conn);
        let rows = s.sidebar_rows(n - 1);
        let more = crate::session::connection_rows(conn, s.shown_on(n - 1));
        lemma_sidebar_len(s, n - 1);
        if r < head.len() {
            law_rows_of_the_sidebar_lead_to_what_they_show(s, n - 1, r);
            assert(s.sidebar_targets(n)[r] == head[r]);
            assert(s.sidebar_rows(n)[r] == rows[r]);
        } else {
            let i = r - head.len();
            assert(s.sidebar_targets(n)[r] == tail[i]);
            assert(s.sidebar_rows(n)[r] == more[i]);
            if i > 0 {
                let w = conn.windows[i - 1];
                assert(conn.is_at(w.id, i - 1));
                crate::connection::lemma_place(conn, w.id, i - 1);
                assert(tail[i] == SidebarTarget::Win((n - 1) as usize, w.id));
                assert(more[i] == crate::session::window_row(
                    w,
                    s.shown_on(n - 1) == Some(w.id),
                ));
            } else {
                assert(tail[0] == SidebarTarget::Host((n - 1) as usize));
                assert(more[0] == crate::session::host_row(conn));
            }
        }
    }
}

proof fn lemma_sidebar_len(s: AppState, n: int)
    ensures
        s.sidebar_rows(n).len() == s.sidebar_targets(n).len(),
    decreases n,
{
    if n > 0 {
        lemma_sidebar_len(s, n - 1);
    }
}

/// Every window has a row in the sidebar, and every connection has one above those of
/// its windows.
pub proof fn law_sidebar_lists_everything(s: AppState, n: int, c: int, i: int)
    requires
        s.wf(),
        0 <= c < n <= s.manager.connections.len(),
        0 <= i < s.manager.connections[c].windows.len(),
    ensures
        exists|a: int, b: int|
            0 <= a < b < s.sidebar_targets(n).len() && #[trigger] s.sidebar_targets(n)[a]
                == SidebarTarget::Host(c as usize) && #[trigger] s.sidebar_targets(n)[b]
                == SidebarTarget::Win(c as usize, s.manager.connections[c].windows[i].id),
    decreases n,
{
    let conn = s.manager.connections[n - 1];
    let head = s.sidebar_targets(n - 1);
    let tail = crate::session::connection_targets((n - 1) as usize, conn);
    let all = s.sidebar_targets(n);
    assert(all == head + tail);
    if c == n - 1 {
        assert(all[head.len() as int] == tail[0]);
        assert(all[head.len() + i + 1] == tail[i + 1]);
        assert(tail[i + 1] == SidebarTarget::Win(c as usize, conn.windows[i].id));
    } else {
        law_sidebar_lists_everything(s, n - 1, c, i);
        let (a, b) = choose|a: int, b: int|
            0 <= a < b < head.len() && #[trigger] head[a] == SidebarTarget::Host(c as usize)
                && #[trigger] head[b] == SidebarTarget::Win(
                c as usize,
                s.manager.connections[c].windows[i].id,
            );
        assert(all[a] == head[a] && all[b] == head[b]);
    }
}

/// A click on the sidebar does what its row leads to, and begins no selection.
pub proof fn law_click_on_the_sidebar(s: AppState, row: usize, cell: (usize, usize))
    ensures
        ({
            let targets = s.sidebar_targets(s.manager.connections.len() as int);
            let after = s.clicked(true, Some(row), cell);
            let fx = s.click_effects(true, Some(row), cell);
            &&& row >= targets.len() ==> fx.len() == 0 && after == (AppState {
                mouse_down: true,
                ..s
            })
            &&& row < targets.len() ==> match targets[row as int] {
                SidebarTarget::Host(c) => {
                    &&& fx == seq![EffectView::Open { conn: c }]
                    &&& after == (AppState { mouse_down: true, ..s })
                },
                SidebarTarget::Win(c, w) => {
                    &&& fx == s.switched_effects(c, w)
                    &&& after.conn == c && after.win == w && after.selection is None
                },
            }
        }),
{
    let n = s.manager.connections.len() as int;
    let t = AppState { mouse_down: true, ..s };
    lemma_same_targets(s, t, n);
}

proof fn lemma_same_targets(s: AppState, t: AppState, n: int)
    requires
        s.manager == t.manager,
    ensures
        s.sidebar_targets(n) == t.sidebar_targets(n),
    decreases n,
{
    if n > 0 {
        lemma_same_targets(s, t, n - 1);
    }
}

} // verus!
