//! What holds of the program as a whole.

use vstd::prelude::*;

use crate::connection::ConnectionState;
use crate::event::EventView;
use crate::input::Key;
use crate::manager::ManagerState;
use crate::modes::MouseProto;
use crate::selection::Selection;
use crate::session::{AppState, EffectView, Shortcut, SidebarTarget, SYNC_LIMIT};
use crate::window::{WinStatus, WindowState};

verus! {

// ---- tabs ----

proof fn lemma_flattened(connections: Seq<ConnectionState>, n: int)
    requires
        0 <= n <= connections.len() <= usize::MAX,
        forall|i: int| 0 <= i < connections.len() ==> (#[trigger] connections[i]).wf(),
    ensures
        forall|k: int|
            0 <= k < crate::manager::flattened(connections, n).len() ==> ({
                let t = #[trigger] crate::manager::flattened(connections, n)[k];
                t.0 < n && connections[t.0 as int].has(t.1)
            }),
        forall|a: int, b: int|
            0 <= a < b < crate::manager::flattened(connections, n).len()
                ==> #[trigger] crate::manager::flattened(connections, n)[a]
                != #[trigger] crate::manager::flattened(connections, n)[b],
        forall|c: int, id: usize|
            0 <= c < n && #[trigger] connections[c].has(id) ==> crate::manager::flattened(
                connections,
                n,
            ).contains((c as usize, id)),
    decreases n,
{
    if n > 0 {
        lemma_flattened(connections, n - 1);
        let head = crate::manager::flattened(connections, n - 1);
        let conn = connections[n - 1];
        let tail = crate::manager::tagged((n - 1) as usize, conn.ids());
        let all = crate::manager::flattened(connections, n);
        assert(all == head + tail);
        assert forall|k: int| 0 <= k < all.len() implies ({
            let t = #[trigger] all[k];
            t.0 < n && connections[t.0 as int].has(t.1)
        }) by {
            if k < head.len() {
                assert(all[k] == head[k]);
            } else {
                let i = k - head.len();
                assert(all[k] == tail[i]);
                assert(conn.is_at(tail[i].1, i));
            }
        }
        assert forall|a: int, b: int| 0 <= a < b < all.len() implies #[trigger] all[a]
            != #[trigger] all[b] by {
            if b < head.len() {
                assert(head[a] != head[b]);
            } else if a < head.len() {
                assert(all[a] == head[a]);
                assert(all[b] == tail[b - head.len()]);
            } else {
                let i = a - head.len();
                let j = b - head.len();
                assert(conn.windows[i].id < conn.windows[j].id);
                assert(all[a] == tail[i] && all[b] == tail[j]);
            }
        }
        assert forall|c: int, id: usize|
            0 <= c < n && #[trigger] connections[c].has(id) implies all.contains(
            (c as usize, id),
        ) by {
            if c < n - 1 {
                let k = choose|k: int| 0 <= k < head.len() && head[k] == (c as usize, id);
                assert(head.contains((c as usize, id)));
                assert(all[k] == (c as usize, id));
            } else {
                let i = conn.place(id);
                assert(conn.is_at(id, i));
                assert(tail[i] == (c as usize, id));
                assert(all[head.len() + i] == (c as usize, id));
            }
        }
    }
}

/// A tab is a window that is open, and no window has two tabs.
pub proof fn law_tabs_are_open_windows(s: AppState, a: int, b: int)
    requires
        s.wf(),
        0 <= a < s.tabs.len(),
        0 <= b < s.tabs.len(),
    ensures
        s.manager.window(s.tabs[a].0 as int, s.tabs[a].1) is Some,
        s.tabs[a] == s.tabs[b] ==> a == b,
{
    lemma_tabs(s);
}

pub proof fn lemma_tabs(s: AppState)
    requires
        s.wf(),
    ensures
        forall|k: int|
            0 <= k < s.tabs.len() ==> s.manager.window(
                (#[trigger] s.tabs[k]).0 as int,
                s.tabs[k].1,
            ) is Some,
        forall|a: int, b: int|
            0 <= a < b < s.tabs.len() ==> #[trigger] s.tabs[a] != #[trigger] s.tabs[b],
{
    lemma_flattened(s.manager.connections, s.manager.connections.len() as int);
    assert forall|k: int| 0 <= k < s.tabs.len() implies s.manager.window(
        (#[trigger] s.tabs[k]).0 as int,
        s.tabs[k].1,
    ) is Some by {
        assert(s.manager.connections[s.tabs[k].0 as int].has(s.tabs[k].1));
    }
}

/// A window is open where it has a tab, and only there.
pub proof fn law_every_open_window_has_a_tab(s: AppState, conn: usize, win: usize)
    requires
        s.wf(),
    ensures
        s.manager.window(conn as int, win) is Some <==> s.tabs.contains((conn, win)),
{
    lemma_flattened(s.manager.connections, s.manager.connections.len() as int);
    if s.manager.window(conn as int, win) is Some {
        assert(s.manager.connections[conn as int].has(win));
    }
    if s.tabs.contains((conn, win)) {
        let k = choose|k: int| 0 <= k < s.tabs.len() && s.tabs[k] == (conn, win);
        assert(s.manager.connections[s.tabs[k].0 as int].has(s.tabs[k].1));
    }
}

/// Whether the window that is shown is open, as long as there is any.
pub open spec fn shows_a_window(s: AppState) -> bool {
    s.tabs.len() > 0 ==> s.active() is Some
}

pub proof fn lemma_switched(s: AppState, conn: usize, win: usize)
    requires
        s.wf(),
    ensures
        s.switched(conn, win).wf(),
        s.switched(conn, win).tabs == s.tabs,
        s.switched(conn, win).conn == conn,
        s.switched(conn, win).win == win,
        s.switched(conn, win).active() is Some <==> s.manager.window(conn as int, win) is Some,
        s.switched(conn, win).active() matches Some(w) ==> !w.activity && !w.alerted
            && w.screen.view_offset == 0,
{
    crate::manager::lemma_window(s.manager, conn as int, win);
    if let Some(w) = s.manager.window(conn as int, win) {
        crate::manager::lemma_with_window(
            s.manager,
            conn as int,
            win,
            WindowState { activity: false, alerted: false, ..w.with_screen(w.screen.reset_view()) },
        );
    }
}

pub proof fn lemma_removed(s: AppState, conn: usize, win: usize)
    requires
        s.wf(),
    ensures
        s.removed(conn, win).wf(),
        s.removed(conn, win).manager.window(conn as int, win) is None,
        forall|c: int, i: usize|
            c != conn || i != win ==> #[trigger] s.removed(conn, win).manager.window(c, i)
                == s.manager.window(c, i),
{
    let m = s.manager;
    if conn < m.connections.len() {
        let c = m.connections[conn as int];
        crate::connection::lemma_closed(c, win);
        let d = c.closed(win);
        assert forall|i: usize| i != win implies d.window(i) == c.window(i) by {
            lemma_closed_others(c, win, i);
        }
    }
}

pub proof fn lemma_closed_others(c: ConnectionState, id: usize, other: usize)
    requires
        c.wf(),
        other != id,
    ensures
        c.closed(id).window(other) == c.window(other),
{
    crate::connection::lemma_closed(c, id);
    let d = c.closed(id);
    if c.has(id) {
        let p = c.place(id);
        assert(c.is_at(id, p));
        if c.has(other) {
            let q = c.place(other);
            assert(c.is_at(other, q));
            let k = if q < p {
                q
            } else {
                q - 1
            };
            assert(d.is_at(other, k));
            crate::connection::lemma_place(d, other, k);
        } else if d.has(other) {
            let k = d.place(other);
            assert(d.is_at(other, k));
            let q = if k < p {
                k
            } else {
                k + 1
            };
            assert(c.is_at(other, q));
        }
    }
}

/// Closing a window never leaves the program without one to show, as long as there
/// is one.
pub proof fn law_closing_shows_another_window(s: AppState, conn: usize, win: usize)
    requires
        s.wf(),
        shows_a_window(s),
    ensures
        shows_a_window(s.active_closed()),
        shows_a_window(s.ended(conn, win)),
        s.active_closed().tabs.len() == 0 <==> s.active_closed_effects().contains(
            EffectView::Exit,
        ),
{
    let r = s.removed(s.conn, s.win);
    lemma_removed(s, s.conn, s.win);
    lemma_tabs(r);
    let fx = s.active_closed_effects();
    if r.tabs.len() > 0 {
        let last = r.tabs.last();
        assert(r.manager.window(r.tabs[r.tabs.len() - 1].0 as int, r.tabs[r.tabs.len() - 1].1)
            is Some);
        lemma_switched(r, last.0, last.1);
        assert(s.active_closed().tabs.len() > 0);
        assert forall|k: int| 0 <= k < fx.len() implies #[trigger] fx[k] != EffectView::Exit by {}
    } else {
        assert(fx.last() == EffectView::Exit);
    }
    if !s.is_active(conn, win) {
        lemma_removed(s, conn, win);
        let q = s.removed(conn, win);
        if q.tabs.len() > 0 {
            lemma_tabs(q);
            let t = q.tabs[0];
            assert(q.manager.window(t.0 as int, t.1) is Some);
            lemma_removed(s, conn, win);
            assert(s.manager.window(t.0 as int, t.1) is Some);
            law_every_open_window_has_a_tab(s, t.0, t.1);
            assert(s.tabs.len() > 0);
        }
    }
}

proof fn lemma_keeps_window(s: AppState, w: WindowState)
    requires
        s.wf(),
        w.wf(),
        w.id == s.win,
    ensures
        s.with_active(w).wf(),
        s.with_active(w).tabs == s.tabs,
        s.active() is Some ==> s.with_active(w).active() is Some,
{
    crate::manager::lemma_with_window(s.manager, s.conn as int, s.win, w);
}

proof fn lemma_scrolled(s: AppState, up: bool, n: int)
    requires
        s.wf(),
        shows_a_window(s),
        n >= 0,
    ensures
        shows_a_window(s.scrolled(up, n)),
{
    crate::manager::lemma_window(s.manager, s.conn as int, s.win);
    let t = s.without_selection();
    if let Some(w) = t.active() {
        lemma_keeps_window(
            t,
            w.with_screen(
                if up {
                    w.screen.scroll_view_up(n)
                } else {
                    w.screen.scroll_view_down(n)
                },
            ),
        );
    }
}

proof fn lemma_targets(s: AppState, n: int, r: int)
    requires
        0 <= n <= s.manager.connections.len() <= usize::MAX,
        0 <= r < s.sidebar_targets(n).len(),
    ensures
        s.sidebar_targets(n)[r] matches SidebarTarget::Win(c, w) ==> c < n
            && s.manager.connections[c as int].has(w),
    decreases n,
{
    if n > 0 {
        let head = s.sidebar_targets(n - 1);
        let conn = s.manager.connections[n - 1];
        let tail = crate::session::connection_targets((n - 1) as usize, conn);
        if r < head.len() {
            lemma_targets(s, n - 1, r);
            assert(s.sidebar_targets(n)[r] == head[r]);
        } else {
            let i = r - head.len();
            assert(s.sidebar_targets(n)[r] == tail[i]);
            if i > 0 {
                assert(conn.is_at(conn.windows[i - 1].id, i - 1));
            }
        }
    }
}

/// Choosing a tab shows a window that is open.
pub proof fn law_choosing_a_tab_shows_an_open_window(s: AppState, idx: int, forward: bool, row: int)
    requires
        s.wf(),
        shows_a_window(s),
    ensures
        shows_a_window(s.tab_selected(idx)),
        shows_a_window(s.cycled(forward)),
        shows_a_window(s.sidebar_clicked(row)),
{
    lemma_tabs(s);
    if 0 <= idx < s.tabs.len() {
        lemma_switched(s, s.tabs[idx].0, s.tabs[idx].1);
    }
    if s.tabs.len() >= 2 {
        lemma_current(s);
        let q = s.neighbour(forward);
        lemma_switched(s, s.tabs[q].0, s.tabs[q].1);
    }
    let n = s.manager.connections.len() as int;
    if 0 <= row < s.sidebar_targets(n).len() {
        lemma_targets(s, n, row);
        if let SidebarTarget::Win(c, w) = s.sidebar_targets(n)[row] {
            lemma_switched(s, c, w);
        }
    }
}

proof fn lemma_current(s: AppState)
    requires
        s.tabs.len() > 0,
    ensures
        0 <= s.current_tab() < s.tabs.len(),
{
    lemma_first_bound(s.tabs, (s.conn, s.win));
}

proof fn lemma_first_bound<T>(s: Seq<T>, x: T)
    ensures
        0 <= crate::screen::first_place(s, x) <= s.len(),
    decreases s.len(),
{
    if s.len() > 0 && s[0] != x {
        lemma_first_bound(s.skip(1), x);
    }
}

/// A window that is added is shown.
pub proof fn law_added_window_is_shown(s: AppState, conn: usize, cols: u16, rows: u16)
    requires
        s.wf(),
        s.can_add(conn),
    ensures
        s.added(conn, cols, rows).wf(),
        s.added(conn, cols, rows).active() is Some,
        s.added(conn, cols, rows).conn == conn,
        s.added(conn, cols, rows).win == s.manager.connections[conn as int].next_id,
{
    let c = s.manager.connections[conn as int];
    let d = c.opened(cols as int, rows as int);
    let id = c.next_id as usize;
    assert(d.wf());
    crate::connection::lemma_place(d, id, d.windows.len() - 1);
    let w = d.windows.last();
    if let Some(n) = s.scrollback {
        crate::connection::lemma_with_window(
            d,
            id,
            w.with_screen(w.screen.set_scrollback_max(n as int)),
        );
    }
    let g = s.grown(conn, cols, rows);
    assert(g.wf());
    assert(g.manager.window(conn as int, id) is Some);
    lemma_switched(g, conn, id);
}

/// Keys, the mouse, the focus and output leave a window that is open to be shown.
pub proof fn law_every_event_shows_an_open_window(
    s: AppState,
    key: Key,
    text: Option<Seq<char>>,
    down: bool,
    row: Option<usize>,
    cell: (usize, usize),
    step: int,
    conn: usize,
    win: usize,
    bytes: Seq<u8>,
)
    requires
        s.wf(),
        shows_a_window(s),
        step >= 0,
    ensures
        shows_a_window(s.key_pressed(key, text)),
        shows_a_window(s.pointed(cell)),
        shows_a_window(s.clicked(down, row, cell)),
        shows_a_window(s.wheeled(down, step)),
        shows_a_window(s.focus_changed(down)),
        shows_a_window(s.after_output(conn, win, bytes)),
{
    lemma_key_shows(s, key, text);
    lemma_scrolled(s, down, step);
    lemma_output_shows(s, conn, win, bytes);
    if let Some(r) = row {
        law_choosing_a_tab_shows_an_open_window(
            AppState { mouse_down: true, ..s },
            0,
            true,
            r as int,
        );
    }
    crate::manager::lemma_window(s.manager, s.conn as int, s.win);
    let t = AppState { focused: down, ..s };
    if let Some(w) = t.active() {
        lemma_keeps_window(t, WindowState { alerted: false, ..w });
    }
}

proof fn lemma_key_shows(s: AppState, key: Key, text: Option<Seq<char>>)
    requires
        s.wf(),
        shows_a_window(s),
    ensures
        shows_a_window(s.key_pressed(key, text)),
{
    crate::manager::lemma_window(s.manager, s.conn as int, s.win);
    let after = s.key_pressed(key, text);
    if s.scroll_key(key) is Some {
        let up = s.scroll_key(key)->0;
        assert(after == s.paged(up));
        if let Some(w) = s.active() {
            lemma_scrolled(s, up, w.screen.rows - 1);
        }
    } else if s.shortcut(key) is Some {
        assert(after == s.shortcut_done(s.shortcut(key)->0));
        lemma_shortcut_shows(s, s.shortcut(key)->0);
    } else if s.mods.super_key || s.key_bytes(key, text) is None {
        assert(after == s);
    } else {
        assert(after == s.typed());
        if let Some(w) = s.active() {
            lemma_keeps_window(s.without_selection(), w.with_screen(w.screen.reset_view()));
        }
    }
}

proof fn lemma_shortcut_shows(s: AppState, shortcut: Shortcut)
    requires
        s.wf(),
        shows_a_window(s),
    ensures
        shows_a_window(s.shortcut_done(shortcut)),
{
    match shortcut {
        Shortcut::CloseTab => law_closing_shows_another_window(s, s.conn, s.win),
        Shortcut::PreviousTab => law_choosing_a_tab_shows_an_open_window(
            s,
            0,
            false,
            0,
        ),
        Shortcut::NextTab => law_choosing_a_tab_shows_an_open_window(s, 0, true, 0),
        Shortcut::Tab(n) => law_choosing_a_tab_shows_an_open_window(
            s,
            n as int,
            true,
            0,
        ),
        _ => {},
    }
}

proof fn lemma_output_shows(s: AppState, conn: usize, win: usize, bytes: Seq<u8>)
    requires
        s.wf(),
        shows_a_window(s),
    ensures
        shows_a_window(s.after_output(conn, win, bytes)),
{
    let after = s.after_output(conn, win, bytes);
    lemma_output(s, conn, win, bytes);
    if s.is_active(conn, win) {
    } else {
        law_output_reaches_one_window_only(s, conn, win, bytes, s.conn as int, s.win);
    }
}

/// Going to the next tab and back shows the same window again.
pub proof fn law_going_back_undoes_going_on(s: AppState)
    requires
        s.wf(),
        s.active() is Some,
    ensures
        s.cycled(true).cycled(false).conn == s.conn,
        s.cycled(true).cycled(false).win == s.win,
        s.cycled(false).cycled(true).conn == s.conn,
        s.cycled(false).cycled(true).win == s.win,
{
    lemma_tabs(s);
    law_every_open_window_has_a_tab(s, s.conn, s.win);
    let here = (s.conn, s.win);
    let p = choose|k: int| 0 <= k < s.tabs.len() && s.tabs[k] == here;
    lemma_place_of(s.tabs, p);
    assert(s.current_tab() == p);
    if s.tabs.len() >= 2 {
        let q = s.neighbour(true);
        lemma_switched(s, s.tabs[q].0, s.tabs[q].1);
        lemma_place_of(s.tabs, q);
        let on = s.cycled(true);
        assert(on.current_tab() == q);
        assert(on.neighbour(false) == p);
        lemma_switched(on, on.tabs[p].0, on.tabs[p].1);
        let r = s.neighbour(false);
        lemma_switched(s, s.tabs[r].0, s.tabs[r].1);
        lemma_place_of(s.tabs, r);
        let back = s.cycled(false);
        assert(back.current_tab() == r);
        assert(back.neighbour(true) == p);
        lemma_switched(back, back.tabs[p].0, back.tabs[p].1);
    }
}

pub proof fn lemma_place_of(tabs: Seq<(usize, usize)>, p: int)
    requires
        0 <= p < tabs.len(),
        forall|a: int, b: int|
            0 <= a < b < tabs.len() ==> #[trigger] tabs[a] != #[trigger] tabs[b],
    ensures
        crate::screen::first_place(tabs, tabs[p]) == p,
{
    crate::screen::lemma_first_place(tabs, tabs[p], p);
}

// ---- output ----

/// Whether a window has changed by no more than a notification or its directory.
pub open spec fn as_told(before: WindowState, after: WindowState) -> bool {
    &&& after == (WindowState { alerted: after.alerted, cwd: after.cwd, ..before })
    &&& before.alerted ==> after.alerted
}

proof fn lemma_event_others(s: AppState, conn: usize, win: usize, ev: EventView)
    requires
        s.wf(),
    ensures
        s.after_event(conn, win, ev).wf(),
        forall|c: int, i: usize|
            c != conn || i != win ==> #[trigger] s.after_event(conn, win, ev).manager.window(c, i)
                == s.manager.window(c, i),
        s.after_event(conn, win, ev).conn == s.conn,
        s.after_event(conn, win, ev).tabs == s.tabs,
        s.after_event(conn, win, ev).win == s.win,
        s.after_event(conn, win, ev).focused == s.focused,
        s.manager.window(conn as int, win) matches Some(w) ==> (s.after_event(
            conn,
            win,
            ev,
        ).manager.window(conn as int, win) matches Some(v) && as_told(w, v)),
{
    crate::manager::lemma_window(s.manager, conn as int, win);
    if let Some(w) = s.manager.window(conn as int, win) {
        crate::manager::lemma_with_window(
            s.manager,
            conn as int,
            win,
            WindowState { alerted: true, ..w },
        );
        if let EventView::Cwd(path) = ev {
            crate::manager::lemma_with_window(
                s.manager,
                conn as int,
                win,
                WindowState { cwd: Some(path), ..w },
            );
        }
    }
}

pub proof fn lemma_events_others(s: AppState, conn: usize, win: usize, events: Seq<EventView>)
    requires
        s.wf(),
    ensures
        s.after_events(conn, win, events).wf(),
        forall|c: int, i: usize|
            c != conn || i != win ==> #[trigger] s.after_events(
                conn,
                win,
                events,
            ).manager.window(c, i) == s.manager.window(c, i),
        s.after_events(conn, win, events).conn == s.conn,
        s.after_events(conn, win, events).win == s.win,
        s.after_events(conn, win, events).tabs == s.tabs,
        s.manager.window(conn as int, win) matches Some(w) ==> (s.after_events(
            conn,
            win,
            events,
        ).manager.window(conn as int, win) matches Some(v) && as_told(w, v)),
        s.after_events(conn, win, events).focused == s.focused,
    decreases events.len(),
{
    if events.len() > 0 {
        let before = s.after_events(conn, win, events.drop_last());
        lemma_events_others(s, conn, win, events.drop_last());
        lemma_event_others(before, conn, win, events.last());
    }
}

proof fn lemma_output(s: AppState, conn: usize, win: usize, bytes: Seq<u8>)
    requires
        s.wf(),
    ensures
        s.after_output(conn, win, bytes).wf(),
        s.after_output(conn, win, bytes).tabs == s.tabs,
        s.after_output(conn, win, bytes).conn == s.conn,
        s.after_output(conn, win, bytes).win == s.win,
        s.manager.window(conn as int, win) matches Some(w) ==> (s.after_output(
            conn,
            win,
            bytes,
        ).manager.window(conn as int, win) matches Some(v) && as_told(
            WindowState {
                activity: w.activity || !s.is_active(conn, win),
                ..w.after_output(bytes).settled()
            },
            v,
        )),
        forall|c: int, i: usize|
            c != conn || i != win ==> #[trigger] s.after_output(
                conn,
                win,
                bytes,
            ).manager.window(c, i) == s.manager.window(c, i),
{
    crate::manager::lemma_window(s.manager, conn as int, win);
    if let Some(w) = s.manager.window(conn as int, win) {
        let after = w.after_output(bytes);
        crate::laws::law_any_output_keeps_the_screen_in_order(
            w.screen,
            crate::decode::decoded(w.fed, bytes),
            crate::screen::DCS_LIMIT as nat,
        );
        crate::window::lemma_settled_id(after);
        let settled = after.settled();
        crate::manager::lemma_with_window(
            s.manager,
            conn as int,
            win,
            WindowState { activity: settled.activity || !s.is_active(conn, win), ..settled },
        );
        lemma_events_others(
            s.fed(conn, win, w, bytes),
            conn,
            win,
            crate::window::others_of(after.screen.events),
        );
    }
}

/// Output for one window reaches no other: each has its own screen, its own decoder
/// and its own status.
pub proof fn law_output_reaches_one_window_only(
    s: AppState,
    conn: usize,
    win: usize,
    bytes: Seq<u8>,
    c: int,
    i: usize,
)
    requires
        s.wf(),
        c != conn || i != win,
    ensures
        s.after_output(conn, win, bytes).manager.window(c, i) == s.manager.window(c, i),
        s.after_output(conn, win, bytes).conn == s.conn,
        s.after_output(conn, win, bytes).win == s.win,
{
    lemma_output(s, conn, win, bytes);
}

/// Output is carried out on the screen of its window, whether that is shown or not:
/// the window shows what it says once it is chosen. Its status and its title follow,
/// and where it is not shown, it is marked.
pub proof fn law_output_reaches_its_window(s: AppState, conn: usize, win: usize, bytes: Seq<u8>)
    requires
        s.wf(),
        s.manager.window(conn as int, win) is Some,
    ensures
        s.after_output(conn, win, bytes).manager.window(conn as int, win) matches Some(v) && ({
            let w = s.manager.window(conn as int, win)->0;
            let fed = w.after_output(bytes);
            &&& v.screen == fed.screen.drained()
            &&& v.fed == fed.fed
            &&& v.status == fed.settled().status
            &&& v.title == fed.settled().title
            &&& v.activity == (w.activity || !s.is_active(conn, win))
        }),
{
    let w = s.manager.window(conn as int, win)->0;
    crate::window::lemma_settled_id(w.after_output(bytes));
    lemma_output(s, conn, win, bytes);
}

/// Choosing a window clears its marks and shows its live screen.
pub proof fn law_choosing_a_window_clears_its_marks(s: AppState, conn: usize, win: usize)
    requires
        s.wf(),
        s.manager.window(conn as int, win) is Some,
    ensures
        s.switched(conn, win).active() matches Some(w) && !w.activity && !w.alerted
            && w.screen.view_offset == 0,
{
    lemma_switched(s, conn, win);
}

/// The status that a mark of a shell stands for.
pub open spec fn marked_status(mark: EventView) -> Option<WinStatus> {
    match mark {
        EventView::PromptStart => Some(WinStatus::Running),
        EventView::CommandEnd(code) => Some(crate::window::status_after(code)),
        _ => None,
    }
}

/// The status of a window is that of the last mark that came, whatever came before it
/// and whatever else came after it.
pub proof fn law_status_follows_the_last_mark(
    w: WindowState,
    before: Seq<EventView>,
    mark: EventView,
    rest: Seq<EventView>,
)
    requires
        marked_status(mark) is Some,
        forall|i: int| 0 <= i < rest.len() ==> marked_status(#[trigger] rest[i]) is None,
    ensures
        Some(w.after_events(before.push(mark) + rest).status) == marked_status(mark),
    decreases rest.len(),
{
    let all = before.push(mark) + rest;
    if rest.len() == 0 {
        assert(all =~= before.push(mark));
        assert(all.drop_last() =~= before);
    } else {
        assert forall|i: int| 0 <= i < rest.drop_last().len() implies marked_status(
            #[trigger] rest.drop_last()[i],
        ) is None by {
            assert(rest.drop_last()[i] == rest[i]);
        }
        law_status_follows_the_last_mark(w, before, mark, rest.drop_last());
        assert(all.drop_last() =~= before.push(mark) + rest.drop_last());
        assert(marked_status(rest[rest.len() - 1]) is None);
    }
}

/// A window that is shown while the program has the focus raises no notification on
/// the desktop, whatever it asks for.
pub proof fn law_what_is_seen_is_not_announced(
    s: AppState,
    conn: usize,
    win: usize,
    events: Seq<EventView>,
    k: int,
)
    requires
        s.wf(),
        s.focused,
        s.is_active(conn, win),
        0 <= k < s.events_effects(conn, win, events).len(),
    ensures
        !(s.events_effects(conn, win, events)[k] is Notify),
    decreases events.len(),
{
    if events.len() > 0 {
        let before = s.after_events(conn, win, events.drop_last());
        lemma_events_others(s, conn, win, events.drop_last());
        let head = s.events_effects(conn, win, events.drop_last());
        if k < head.len() {
            law_what_is_seen_is_not_announced(s, conn, win, events.drop_last(), k);
        } else {
            assert(s.events_effects(conn, win, events)[k] == before.event_effects(
                conn,
                win,
                events.last(),
            )[k - head.len()]);
        }
    }
}

/// A window that is out of sight raises one notification on the desktop for each that
/// it asks for and for each bell, and is marked.
pub proof fn law_what_is_not_seen_is_announced(
    s: AppState,
    conn: usize,
    win: usize,
    title: Seq<char>,
    body: Seq<char>,
)
    requires
        s.wf(),
        s.unseen(conn, win),
        s.manager.window(conn as int, win) is Some,
    ensures
        s.event_effects(conn, win, EventView::Notify(title, body)).len() == 2,
        s.event_effects(conn, win, EventView::Notify(title, body))[0] matches EffectView::Notify {
            summary,
            body: shown,
        } && shown == body && (title.len() > 0 ==> summary == title),
        s.event_effects(conn, win, EventView::Bell).len() == 2,
        s.event_effects(conn, win, EventView::Bell)[0] is Notify,
        s.after_event(conn, win, EventView::Notify(title, body)).manager.window(
            conn as int,
            win,
        ) matches Some(w) && w.alerted,
        s.after_event(conn, win, EventView::Bell).manager.window(conn as int, win) matches Some(w)
            && w.alerted,
{
    crate::manager::lemma_window(s.manager, conn as int, win);
    if let Some(w) = s.manager.window(conn as int, win) {
        crate::manager::lemma_with_window(
            s.manager,
            conn as int,
            win,
            WindowState { alerted: true, ..w },
        );
    }
}

/// An application that never ends its update holds redraws back no more than so
/// many times in a row.
pub proof fn law_redraw_is_not_held_back_for_ever(s: AppState)
    requires
        s.wf(),
    ensures
        s.paced_effects().len() == 0 ==> s.paced().sync_skips == s.sync_skips + 1
            && s.paced().sync_skips <= SYNC_LIMIT,
        s.sync_skips == SYNC_LIMIT ==> s.paced_effects() == seq![EffectView::Redraw],
        !s.syncing() ==> s.paced_effects() == seq![EffectView::Redraw],
{
}

// ---- keys ----

/// A key with the command key held is never sent to the application.
pub proof fn law_command_keys_are_not_sent(s: AppState, key: Key, text: Option<Seq<char>>, k: int)
    requires
        s.mods.super_key,
        0 <= k < s.key_effects(key, text).len(),
    ensures
        !(s.key_effects(key, text)[k] is Write),
{
    if s.scroll_key(key) is None && s.shortcut(key) is Some {
        let r = s.removed(s.conn, s.win);
        let fx = s.shortcut_effects(s.shortcut(key)->0);
        assert(s.key_effects(key, text) == fx);
        match s.shortcut(key)->0 {
            Shortcut::Copy => {},
            Shortcut::CloseTab => {
                let head = s.removed_effects(s.conn, s.win);
                if k >= head.len() {
                    assert(fx[k] == (if r.tabs.len() == 0 {
                        seq![EffectView::Exit]
                    } else {
                        r.switched_effects(r.tabs.last().0, r.tabs.last().1)
                    })[k - head.len()]);
                } else {
                    assert(fx[k] == head[k]);
                }
            },
            _ => {},
        }
    }
}

// ---- the mouse ----

/// The mouse belongs either to the application or to the selection: an application
/// that wants it hears of a press and nothing is selected, and with shift held, or
/// where it does not want it, a selection begins and it hears of nothing.
pub proof fn law_mouse_belongs_to_one_side(s: AppState, cell: (usize, usize))
    ensures
        s.mods.shift || s.mouse_proto() == MouseProto::Off ==> {
            &&& s.pressed(cell).selection == Some(Selection { anchor: cell, head: cell })
            &&& s.pressed_effects(cell) == seq![EffectView::Redraw]
        },
        !s.mods.shift && s.mouse_proto() != MouseProto::Off ==> {
            &&& s.pressed(cell).selection == s.selection
            &&& s.pressed_effects(cell).len() == 1
            &&& s.pressed_effects(cell)[0] is Write
        },
{
}

/// Where the application wants to hear of all movement of the mouse, every movement is
/// reported to it, with the button held and without, unless text is being selected.
pub proof fn law_every_movement_is_reported(s: AppState, cell: (usize, usize))
    requires
        s.mouse_proto() == MouseProto::AnyEvent,
        !s.selecting,
    ensures
        s.pointed(cell) == s,
        s.active() matches Some(w) && s.pointed_effects(cell) == seq![
            EffectView::Write {
                conn: s.conn,
                win: s.win,
                bytes: crate::session::mouse_bytes(
                    w.screen.modes.mouse_sgr,
                    if s.mouse_down {
                        32
                    } else {
                        35
                    },
                    cell.0 as int,
                    cell.1 as int,
                    true,
                ),
            },
        ],
{
}

/// The wheel belongs either to the application or to the view: on the alternate screen,
/// or where the application wants the mouse, the view stays; elsewhere it scrolls, and
/// the application hears of nothing.
pub proof fn law_wheel_belongs_to_one_side(
    s: AppState,
    up: bool,
    step: int,
    cell: (usize, usize),
)
    ensures
        s.wheel_taken() ==> s.wheeled(up, step) == s,
        !s.wheel_taken() ==> s.wheel_effects(up, step, cell) == seq![EffectView::Redraw],
        s.active() matches Some(w) && w.screen.on_alt() ==> s.wheel_taken(),
        s.mouse_proto() != MouseProto::Off ==> s.wheel_taken(),
{
}

// ---- sizes ----

/// Another size reaches every window, whether it is shown or not.
pub proof fn law_every_window_gets_the_size(m: ManagerState, cols: int, rows: int, conn: int, i: int)
    requires
        0 <= conn < m.connections.len(),
        0 <= i < m.connections[conn].windows.len(),
        cols >= 1,
        rows >= 1,
    ensures
        m.resized(cols, rows).connections[conn].windows[i].screen.cols == cols,
        m.resized(cols, rows).connections[conn].windows[i].screen.rows == rows,
        m.resized(cols, rows).connections[conn].windows[i].id
            == m.connections[conn].windows[i].id,
{
}

} // verus!
