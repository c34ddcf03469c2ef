//! What holds of the screen as a whole.

use vstd::prelude::*;

use crate::cell::{Cell, Pen};
use crate::decode::Token;
use crate::event::EventView;
use crate::modes::{Modes, MouseProto};
use crate::screen::{Screen, DCS_LIMIT};
use crate::selection::Selection;
use crate::theme::Theme;

verus! {

// ---- order ----

proof fn lemma_row_len(row: Seq<Cell>, col: int, w: int, cell: Cell, spacer: Cell)
    requires
        0 <= col < row.len(),
    ensures
        crate::screen::written(row, col, w, cell, spacer).len() == row.len(),
{
}

proof fn lemma_put_wf(s: Screen, c: char, w: int)
    requires
        s.wf(),
        w == 1 || w == 2,
    ensures
        s.put(c, w).wf(),
{
    lemma_row_len(s.cells[s.cy], s.cx, w, s.pen.stamp(c), s.pen.spacer());
}

proof fn lemma_last_of_len<T>(s: Seq<T>, n: int)
    requires
        n >= 0,
    ensures
        crate::screen::last_of(s, n).len() <= n,
        crate::screen::last_of(s, n).len() <= s.len(),
{
}

proof fn lemma_scroll_wf(s: Screen, n: int)
    requires
        s.wf(),
        n >= 0,
    ensures
        s.scroll_up_region(n).wf(),
        s.scroll_down_region(n).wf(),
{
    let k = vstd::math::min(n, s.region_rows());
    lemma_last_of_len(s.history + s.cells.take(k), s.history_max);
}

proof fn lemma_index_wf(s: Screen)
    requires
        s.wf(),
    ensures
        s.index().wf(),
        s.reverse_index().wf(),
{
    lemma_scroll_wf(Screen { wrap_pending: false, ..s }, 1);
}

proof fn lemma_print_wf(s: Screen, c: char)
    requires
        s.wf(),
    ensures
        s.print(c).wf(),
{
    let w = crate::width::columns_of(c);
    let live = s.reset_view();
    lemma_index_wf(Screen { cx: 0, ..live });
    let broken = live.wrapped();
    assert(broken.wf());
    if w == 2 && broken.cx + 1 >= broken.cols {
        lemma_index_wf(Screen { cx: 0, ..broken });
        if broken.modes.autowrap {
            lemma_put_wf((Screen { cx: 0, ..broken }).index(), c, w);
        }
    } else if w != 0 {
        lemma_put_wf(broken, c, w);
    }
}

proof fn lemma_alt_wf(s: Screen)
    requires
        s.wf(),
    ensures
        s.enter_alt_screen().wf(),
        s.leave_alt_screen().wf(),
        s.save_cursor().wf(),
        s.restore_cursor().wf(),
        s.full_reset().wf(),
{
}

proof fn lemma_private_modes_wf(s: Screen, params: Seq<Seq<u16>>, set: bool)
    requires
        s.wf(),
    ensures
        s.private_modes(params, set).wf(),
    decreases params.len(),
{
    if params.len() > 0 {
        let before = s.private_modes(params.drop_last(), set);
        lemma_private_modes_wf(s, params.drop_last(), set);
        lemma_alt_wf(before);
        lemma_alt_wf(before.save_cursor());
        lemma_alt_wf(before.leave_alt_screen());
    }
}

proof fn lemma_edit_wf(s: Screen, n: int, mode: u16)
    requires
        s.wf(),
        n >= 1,
    ensures
        s.insert_lines(n).wf(),
        s.delete_lines(n).wf(),
        s.insert_chars(n).wf(),
        s.delete_chars(n).wf(),
        s.erase_chars(n).wf(),
        s.erase_in_display(mode).wf(),
        s.erase_in_line(mode).wf(),
{
}

proof fn lemma_move_wf(s: Screen, n: int, col: int, row: int)
    requires
        s.wf(),
        n >= 1,
        col >= 0,
        row >= 0,
    ensures
        s.move_up(n).wf(),
        s.move_down(n).wf(),
        s.move_left(n).wf(),
        s.move_right(n).wf(),
        s.move_to(col, row).wf(),
        s.move_to_col(col).wf(),
        s.move_to_row(row).wf(),
        s.move_down(n).move_to_col(0).wf(),
        s.move_up(n).move_to_col(0).wf(),
        s.set_scroll_region(col, row).wf(),
{
}

proof fn lemma_csi_wf(s: Screen, params: Seq<Seq<u16>>, intermediates: Seq<u8>, action: char)
    requires
        s.wf(),
    ensures
        s.csi(params, intermediates, action).wf(),
{
    let n = crate::control::arg(params, 0, 1) as int;
    if intermediates.len() > 0 {
        lemma_private_modes_wf(s, params, action == 'h');
    } else if crate::control::moves_cursor(action) {
        lemma_move_wf(
            s,
            n,
            crate::control::place_arg(params, 0),
            crate::control::place_arg(params, 1),
        );
        lemma_move_wf(
            s,
            n,
            crate::control::place_arg(params, 1),
            crate::control::place_arg(params, 0),
        );
    } else if crate::control::edits_cells(action) {
        lemma_edit_wf(s, n, crate::control::raw_arg(params, 0, 0));
        lemma_scroll_wf(s, vstd::math::max(n, 1));
    } else {
        lemma_alt_wf(s);
    }
}

proof fn lemma_osc_wf(s: Screen, parts: Seq<Seq<u8>>)
    requires
        s.wf(),
    ensures
        s.osc(parts).wf(),
{
}

proof fn lemma_step_wf(s: Screen, token: Token, limit: nat)
    requires
        s.wf(),
    ensures
        s.step(token, limit).wf(),
    decreases limit, 0nat,
{
    match token {
        Token::Print(c) => lemma_print_wf(s, c),
        Token::Execute(b) => lemma_index_wf(s.reset_view()),
        Token::Csi { params, intermediates, action } => lemma_csi_wf(
            s,
            params,
            intermediates,
            action,
        ),
        Token::Esc { intermediates, byte } => {
            lemma_index_wf(s);
            lemma_index_wf(s.carriage_return());
            lemma_alt_wf(s);
        },
        Token::Osc { parts } => lemma_osc_wf(s, parts),
        Token::Unhook => {
            if let Some(inner) = s.dcs_inner() {
                if inner.len() < limit {
                    law_any_output_keeps_the_screen_in_order(
                        s.dcs_cleared(),
                        crate::decode::decoded(Seq::empty(), inner),
                        inner.len(),
                    );
                }
            }
        },
        _ => {},
    }
}

/// No output of an application, however malformed, brings the screen out of order:
/// the cursor stays on it, the scroll region in it, the history within its limit.
pub proof fn law_any_output_keeps_the_screen_in_order(s: Screen, tokens: Seq<Token>, limit: nat)
    requires
        s.wf(),
    ensures
        s.run(tokens, limit).wf(),
    decreases limit, tokens.len() + 1,
{
    if tokens.len() > 0 {
        law_any_output_keeps_the_screen_in_order(s, tokens.drop_last(), limit);
        lemma_step_wf(s.run(tokens.drop_last(), limit), tokens.last(), limit);
    }
}

// ---- the alternate screen ----

/// Whether a token leaves the alternate screen, or resets everything.
pub open spec fn leaves_alt(token: Token) -> bool {
    match token {
        Token::Csi { params, intermediates, action } => {
            &&& intermediates.len() > 0
            &&& intermediates[0] == 0x3f
            &&& action == 'l'
            &&& names_alt_mode(params)
        },
        Token::Esc { intermediates, byte } => intermediates.len() == 0 && byte == 0x63,
        _ => false,
    }
}

/// Whether one of the parameters is a mode that shows the alternate screen.
pub open spec fn names_alt_mode(params: Seq<Seq<u16>>) -> bool {
    exists|i: int|
        0 <= i < params.len() && #[trigger] is_alt_mode(crate::control::raw_arg(params, i, 0))
}

/// The modes that show the alternate screen.
pub open spec fn is_alt_mode(mode: u16) -> bool {
    mode == 47 || mode == 1047 || mode == 1049
}

/// Whether output, and what is wrapped into it, nowhere leaves the alternate
/// screen.
pub open spec fn stays_on_alt(s: Screen, tokens: Seq<Token>, limit: nat) -> bool
    decreases limit, tokens.len(),
{
    if tokens.len() == 0 {
        true
    } else {
        let before = s.run(tokens.drop_last(), limit);
        &&& stays_on_alt(s, tokens.drop_last(), limit)
        &&& !leaves_alt(tokens.last())
        &&& tokens.last() is Unhook ==> match before.dcs_inner() {
            Some(inner) => inner.len() < limit ==> stays_on_alt(
                before.dcs_cleared(),
                crate::decode::decoded(Seq::empty(), inner),
                inner.len(),
            ),
            None => true,
        }
    }
}

/// What the alternate screen leaves alone: the main screen put aside, the history,
/// and the size.
pub open spec fn same_main(a: Screen, b: Screen) -> bool {
    &&& a.alt == b.alt
    &&& a.history == b.history
    &&& a.history_max == b.history_max
    &&& a.cols == b.cols
    &&& a.rows == b.rows
}

proof fn lemma_modes_keep_main(s: Screen, params: Seq<Seq<u16>>, set: bool)
    requires
        s.on_alt(),
        set || !names_alt_mode(params),
    ensures
        same_main(s, s.private_modes(params, set)),
    decreases params.len(),
{
    if params.len() > 0 {
        let before = params.drop_last();
        if !set {
            assert(!is_alt_mode(crate::control::raw_arg(params, params.len() - 1, 0)));
            if names_alt_mode(before) {
                let i = choose|i: int|
                    0 <= i < before.len() && #[trigger] is_alt_mode(
                        crate::control::raw_arg(before, i, 0),
                    );
                assert(crate::control::raw_arg(before, i, 0) == crate::control::raw_arg(
                    params,
                    i,
                    0,
                ));
                assert(is_alt_mode(crate::control::raw_arg(params, i, 0)));
            }
        }
        lemma_modes_keep_main(s, before, set);
    }
}

proof fn lemma_index_keeps_main(s: Screen)
    requires
        s.on_alt(),
    ensures
        same_main(s, s.index()),
        same_main(s, s.reverse_index()),
{
}

proof fn lemma_print_keeps_main(s: Screen, c: char)
    requires
        s.on_alt(),
    ensures
        same_main(s, s.print(c)),
{
    let live = s.reset_view();
    lemma_index_keeps_main(Screen { cx: 0, ..live });
    let broken = live.wrapped();
    lemma_index_keeps_main(Screen { cx: 0, ..broken });
}

proof fn lemma_plain_csi_keeps_main(s: Screen, params: Seq<Seq<u16>>, action: char)
    requires
        s.on_alt(),
    ensures
        same_main(s, s.plain_csi(params, action)),
{
    if crate::control::moves_cursor(action) {
    } else if crate::control::edits_cells(action) {
    } else {
    }
}

proof fn lemma_csi_keeps_main(
    s: Screen,
    params: Seq<Seq<u16>>,
    intermediates: Seq<u8>,
    action: char,
)
    requires
        s.on_alt(),
        !leaves_alt(Token::Csi { params, intermediates, action }),
    ensures
        same_main(s, s.csi(params, intermediates, action)),
{
    if intermediates.len() == 0 {
        lemma_plain_csi_keeps_main(s, params, action);
    } else if intermediates[0] == 0x3f && (action == 'h' || action == 'l') {
        lemma_modes_keep_main(s, params, action == 'h');
    }
}

proof fn lemma_execute_keeps_main(s: Screen, byte: u8)
    requires
        s.on_alt(),
    ensures
        same_main(s, s.execute(byte)),
{
    lemma_index_keeps_main(s.reset_view());
}

proof fn lemma_esc_keeps_main(s: Screen, intermediates: Seq<u8>, byte: u8)
    requires
        s.on_alt(),
        intermediates.len() > 0 || byte != 0x63,
    ensures
        same_main(s, s.esc(intermediates, byte)),
{
    let after = s.esc(intermediates, byte);
    if intermediates.len() > 0 {
        assert(after == s);
    } else if byte == 0x4d {
        lemma_index_keeps_main(s);
        assert(after == s.reverse_index());
    } else if byte == 0x44 {
        lemma_index_keeps_main(s);
        assert(after == s.index());
    } else if byte == 0x45 {
        lemma_index_keeps_main(s.carriage_return());
        assert(after == s.carriage_return().index());
    }
}

proof fn lemma_step_keeps_main(s: Screen, token: Token, limit: nat)
    requires
        s.on_alt(),
        !leaves_alt(token),
        !(token is Unhook),
    ensures
        same_main(s, s.step(token, limit)),
{
    match token {
        Token::Print(c) => lemma_print_keeps_main(s, c),
        Token::Execute(b) => lemma_execute_keeps_main(s, b),
        Token::Csi { params, intermediates, action } => lemma_csi_keeps_main(
            s,
            params,
            intermediates,
            action,
        ),
        Token::Esc { intermediates, byte } => lemma_esc_keeps_main(s, intermediates, byte),
        Token::Osc { parts } => lemma_osc_keeps_main(s, parts),
        _ => {},
    }
}

proof fn lemma_osc_keeps_main(s: Screen, parts: Seq<Seq<u8>>)
    ensures
        same_main(s, s.osc(parts)),
{
}

/// What an application does on the alternate screen does not reach the main screen,
/// nor the history.
pub proof fn law_alt_screen_keeps_the_main_screen(s: Screen, tokens: Seq<Token>, limit: nat)
    requires
        s.on_alt(),
        stays_on_alt(s, tokens, limit),
    ensures
        same_main(s, s.run(tokens, limit)),
    decreases limit, tokens.len(),
{
    if tokens.len() > 0 {
        let before = s.run(tokens.drop_last(), limit);
        law_alt_screen_keeps_the_main_screen(s, tokens.drop_last(), limit);
        if tokens.last() is Unhook {
            if let Some(inner) = before.dcs_inner() {
                if inner.len() < limit {
                    law_alt_screen_keeps_the_main_screen(
                        before.dcs_cleared(),
                        crate::decode::decoded(Seq::empty(), inner),
                        inner.len(),
                    );
                }
            }
        } else {
            lemma_step_keeps_main(before, tokens.last(), limit);
        }
        assert(s.run(tokens, limit) == before.step(tokens.last(), limit));
        assert(same_main(before, before.step(tokens.last(), limit)));
    }
}

/// Whatever an application shows on the alternate screen, leaving it brings the main
/// screen back as it was, with its cursor and the cursor put aside there.
pub proof fn law_leaving_restores_the_main_screen(s: Screen, tokens: Seq<Token>, limit: nat)
    requires
        s.wf(),
        !s.on_alt(),
        stays_on_alt(s.enter_alt_screen(), tokens, limit),
    ensures
        ({
            let after = s.enter_alt_screen().run(tokens, limit).leave_alt_screen();
            &&& !after.on_alt()
            &&& after.cells == s.cells
            &&& after.cx == s.cx
            &&& after.cy == s.cy
            &&& after.saved == s.saved
            &&& after.history == s.history
        }),
{
    law_alt_screen_keeps_the_main_screen(s.enter_alt_screen(), tokens, limit);
}

/// With mode 1049 the pen and a line break that was due come back too.
pub proof fn law_mode_1049_restores_everything(s: Screen, tokens: Seq<Token>, limit: nat)
    requires
        s.wf(),
        !s.on_alt(),
        stays_on_alt(s.private_mode(1049, true), tokens, limit),
    ensures
        ({
            let after = s.private_mode(1049, true).run(tokens, limit).private_mode(1049, false);
            &&& !after.on_alt()
            &&& after.cells == s.cells
            &&& after.cx == s.cx
            &&& after.cy == s.cy
            &&& after.pen == s.pen
            &&& after.wrap_pending == s.wrap_pending
            &&& after.history == s.history
        }),
{
    law_alt_screen_keeps_the_main_screen(s.private_mode(1049, true), tokens, limit);
}

// ---- the cursor ----

/// A cursor that was put aside comes back with its pen, whatever has happened since.
/// Where the screen has become too small for it, it comes to the last column or row.
pub proof fn law_saved_cursor_comes_back(s: Screen, later: Screen)
    requires
        s.wf(),
        later.wf(),
        later.saved == s.save_cursor().saved,
    ensures
        later.restore_cursor().cx == vstd::math::min(s.cx, later.cols - 1),
        later.restore_cursor().cy == vstd::math::min(s.cy, later.rows - 1),
        s.cx < later.cols ==> later.restore_cursor().cx == s.cx,
        s.cy < later.rows ==> later.restore_cursor().cy == s.cy,
        later.restore_cursor().pen == s.pen,
        later.restore_cursor().wrap_pending == s.wrap_pending,
        later.restore_cursor().cells == later.cells,
{
}

/// In the scroll region the cursor moves up and down no further than the region goes.
/// Outside of it the region does not hold it back on its way up.
pub proof fn law_region_holds_only_a_cursor_in_it(s: Screen, n: int)
    requires
        s.wf(),
        n >= 1,
    ensures
        s.top <= s.cy <= s.bottom ==> {
            &&& s.move_up(n).cy == vstd::math::max(s.cy - n, s.top)
            &&& s.move_down(n).cy == vstd::math::min(s.cy + n, s.bottom)
        },
        !(s.top <= s.cy <= s.bottom) ==> s.move_up(n).cy == vstd::math::max(s.cy - n, 0),
        s.cy > s.bottom ==> s.move_down(n).cy == vstd::math::min(s.cy + n, s.rows - 1),
        s.move_up(n).cx == s.cx,
        s.move_down(n).cx == s.cx,
{
}

// ---- modes ----

/// Setting or resetting one of the private modes changes that mode, and nothing else of
/// the screen. Three modes of the mouse exclude each other. The modes of the alternate
/// screen do more.
pub proof fn law_private_mode_changes_nothing_else(s: Screen, mode: u16, set: bool)
    requires
        mode != 47 && mode != 1047 && mode != 1049,
    ensures
        s.private_modes(seq![seq![mode]], set) == s.with_modes(
            crate::control::modes_after(s.modes, mode, set),
        ),
        s.csi(
            seq![seq![mode]],
            seq![0x3fu8],
            if set {
                'h'
            } else {
                'l'
            },
        ) == s.private_modes(seq![seq![mode]], set),
        ({
            let m = s.modes;
            let after = s.private_modes(seq![seq![mode]], set).modes;
            let proto = |on: MouseProto| if set {
                on
            } else {
                MouseProto::Off
            };
            &&& mode == 1 ==> after == (Modes { app_cursor_keys: set, ..m })
            &&& mode == 7 ==> after == (Modes { autowrap: set, ..m })
            &&& mode == 25 ==> after == (Modes { cursor_visible: set, ..m })
            &&& mode == 1000 ==> after == (Modes { mouse_proto: proto(MouseProto::Normal), ..m })
            &&& mode == 1002 ==> after == (Modes {
                mouse_proto: proto(MouseProto::ButtonEvent),
                ..m
            })
            &&& mode == 1003 ==> after == (Modes { mouse_proto: proto(MouseProto::AnyEvent), ..m })
            &&& mode == 1004 ==> after == (Modes { focus_event: set, ..m })
            &&& mode == 1006 ==> after == (Modes { mouse_sgr: set, ..m })
            &&& mode == 2004 ==> after == (Modes { bracketed_paste: set, ..m })
            &&& mode == 2026 ==> after == (Modes { sync_output: set, ..m })
        }),
        ({
            let after = s.private_modes(seq![seq![mode]], set);
            &&& after.cells == s.cells
            &&& after.cx == s.cx
            &&& after.cy == s.cy
            &&& after.wrap_pending == s.wrap_pending
            &&& after.pen == s.pen
            &&& after.alt == s.alt
            &&& after.history == s.history
            &&& after.events == s.events
        }),
{
    lemma_one_private_mode(s, mode, set);
    assert(s.private_mode(mode, set) == s.with_modes(
        crate::control::modes_after(s.modes, mode, set),
    ));
}

/// A single parameter is one private mode.
proof fn lemma_one_private_mode(s: Screen, mode: u16, set: bool)
    ensures
        s.private_modes(seq![seq![mode]], set) == s.private_mode(mode, set),
{
    let params = seq![seq![mode]];
    assert(params.drop_last() =~= Seq::<Seq<u16>>::empty());
    assert(s.private_modes(params.drop_last(), set) == s);
    assert(params[0][0] == mode);
    assert(crate::control::raw_arg(params, 0, 0) == mode);
}

// ---- hyperlinks ----

proof fn lemma_first_place_bound<T>(s: Seq<T>, x: T)
    ensures
        0 <= crate::screen::first_place(s, x) <= s.len(),
        crate::screen::first_place(s, x) < s.len() ==> s[crate::screen::first_place(s, x)] == x,
        s.contains(x) <==> crate::screen::first_place(s, x) < s.len(),
    decreases s.len(),
{
    if s.len() > 0 && s[0] != x {
        let tail = s.skip(1);
        lemma_first_place_bound(tail, x);
        if s.contains(x) {
            let i = choose|i: int| 0 <= i < s.len() && s[i] == x;
            assert(tail[i - 1] == x);
        }
        if tail.contains(x) {
            let i = choose|i: int| 0 <= i < tail.len() && tail[i] == x;
            assert(s[i + 1] == x);
        }
    }
}

/// The identifier that a hyperlink gets leads back to it, and it gets the same one
/// again. Identifiers given before still lead to their hyperlinks. This holds for as
/// many hyperlinks as there are identifiers.
pub proof fn law_link_is_found_by_its_identifier(s: Screen, uri: Seq<char>)
    requires
        uri.len() > 0,
        crate::screen::first_place(s.links, uri) < 0xffff,
    ensures
        s.registered(uri).link_uri(s.registered_id(uri)) == Some(uri),
        s.registered(uri).registered_id(uri) == s.registered_id(uri),
        s.registered(uri).registered(uri) == s.registered(uri),
        forall|id: u16|
            s.link_uri(id) is Some ==> s.registered(uri).link_uri(id) == s.link_uri(id),
{
    lemma_first_place_bound(s.links, uri);
    let after = s.registered(uri);
    let p = crate::screen::first_place(s.links, uri);
    if !s.links.contains(uri) {
        assert(p == s.links.len());
        assert(after.links[p] == uri);
        assert forall|j: int| 0 <= j < p implies after.links[j] != uri by {
            assert(s.links[j] != uri);
        }
        crate::screen::lemma_first_place(after.links, uri, p);
        assert(after.links.contains(uri));
    }
}

// ---- device control strings ----

/// Bytes with each escape byte made double, as tmux wraps them.
pub open spec fn doubled(s: Seq<u8>) -> Seq<u8>
    decreases s.len(),
{
    if s.len() == 0 {
        Seq::empty()
    } else if s[0] == 0x1b {
        seq![0x1bu8, 0x1bu8] + doubled(s.skip(1))
    } else {
        seq![s[0]] + doubled(s.skip(1))
    }
}

proof fn lemma_undoubled_doubled(s: Seq<u8>)
    ensures
        crate::screen::undoubled(doubled(s)) == s,
    decreases s.len(),
{
    if s.len() > 0 {
        let tail = s.skip(1);
        lemma_undoubled_doubled(tail);
        let d = doubled(s);
        if s[0] == 0x1b {
            assert(d[0] == 0x1b && d[1] == 0x1b);
            assert(d.skip(2) =~= doubled(tail));
            assert(seq![0x1bu8] + tail =~= s);
        } else {
            assert(d[0] == s[0]);
            assert(d.skip(1) =~= doubled(tail));
            assert(seq![s[0]] + tail =~= s);
        }
    }
}

/// The screen after the bytes of a device control string.
pub open spec fn received(s: Screen, bytes: Seq<u8>) -> Screen
    decreases bytes.len(),
{
    if bytes.len() == 0 {
        s
    } else {
        received(s, bytes.drop_last()).dcs_put(bytes.last())
    }
}

proof fn lemma_received(s: Screen, bytes: Seq<u8>)
    requires
        s.dcs_buf.len() + bytes.len() <= DCS_LIMIT,
    ensures
        received(s, bytes) == (Screen { dcs_buf: s.dcs_buf + bytes, ..s }),
    decreases bytes.len(),
{
    if bytes.len() > 0 {
        lemma_received(s, bytes.drop_last());
        assert(s.dcs_buf + bytes =~= (s.dcs_buf + bytes.drop_last()).push(bytes.last()));
    } else {
        assert(s.dcs_buf + bytes =~= s.dcs_buf);
    }
}

/// The screen when tmux has sent a device control string with bytes wrapped into it,
/// before its end.
pub open spec fn wrapped_in(s: Screen, bytes: Seq<u8>) -> Screen {
    received(s.dcs_start('t'), seq![0x6du8, 0x75u8, 0x78u8, 0x3bu8] + doubled(bytes))
}

/// What tmux has wrapped into a device control string comes out as it went in, as
/// long as the string is within the limit. At the end of the string it does what it
/// does on its own.
pub proof fn law_tmux_wrapping_is_undone(s: Screen, bytes: Seq<u8>)
    requires
        doubled(bytes).len() + 4 <= DCS_LIMIT,
    ensures
        wrapped_in(s, bytes).dcs_inner() == Some(bytes),
        wrapped_in(s, bytes).unhooked() == s.dcs_cleared().run(
            crate::decode::decoded(Seq::empty(), bytes),
            bytes.len(),
        ),
{
    let sent = seq![0x6du8, 0x75u8, 0x78u8, 0x3bu8] + doubled(bytes);
    let start = s.dcs_start('t');
    lemma_received(start, sent);
    let after = received(start, sent);
    assert(after == wrapped_in(s, bytes));
    assert(after.dcs_buf =~= sent);
    let full = after.dcs_string();
    assert(full.take(5) =~= crate::screen::tmux_prefix());
    assert(full.skip(5) =~= doubled(bytes));
    lemma_undoubled_doubled(bytes);
    crate::control::lemma_undoubled_len(doubled(bytes));
    assert(after.dcs_cleared() == s.dcs_cleared());
}

/// An application inside tmux sets the clipboard as one outside does: where the bytes
/// that tmux has wrapped are the command for it, the text is passed on.
pub proof fn law_clipboard_is_set_through_tmux(
    s: Screen,
    bytes: Seq<u8>,
    parts: Seq<Seq<u8>>,
    text: Seq<u8>,
)
    requires
        doubled(bytes).len() + 4 <= DCS_LIMIT,
        parts.len() >= 3,
        parts[0] == seq![0x35u8, 0x32u8],
        parts[2] != seq![0x3fu8],
    ensures
        crate::decode::decoded(Seq::empty(), bytes) == seq![Token::Osc { parts }]
            && crate::codec::base64_either(parts[2]) == Some(text) ==> wrapped_in(
            s,
            bytes,
        ).unhooked().events == s.events.push(EventView::SetClipboard(crate::text::lossy(text))),
{
    law_tmux_wrapping_is_undone(s, bytes);
    let tokens = seq![Token::Osc { parts }];
    let clear = s.dcs_cleared();
    assert(tokens.drop_last() =~= Seq::empty());
    assert(clear.run(tokens.drop_last(), bytes.len()) == clear);
    assert(clear.run(tokens, bytes.len()) == clear.step(tokens.last(), bytes.len()));
    assert(clear.step(tokens.last(), bytes.len()) == clear.osc(parts));
    assert(parts[0][0] == 0x35 && parts[0][1] == 0x32);
    assert(clear.osc(parts) == clear.osc_clipboard(parts));
}

// ---- scrolling ----

/// Scrolling, inserting and deleting lines leave the rows outside the scroll region
/// alone.
pub proof fn law_region_confines_scrolling(s: Screen, n: int, row: int)
    requires
        s.wf(),
        n >= 0,
        0 <= row < s.rows,
        row < s.top || row > s.bottom,
    ensures
        s.scroll_up(n).cells[row] == s.cells[row],
        s.scroll_down(n).cells[row] == s.cells[row],
        s.insert_lines(n).cells[row] == s.cells[row],
        s.delete_lines(n).cells[row] == s.cells[row],
        s.index().cells[row] == s.cells[row],
        s.reverse_index().cells[row] == s.cells[row],
{
}

/// A line feed on the last row of a main screen that scrolls as a whole puts the
/// first line into the history, and scrolling the view back by one shows it again.
pub proof fn law_scrolled_line_can_be_seen_again(s: Screen, col: int)
    requires
        s.wf(),
        !s.on_alt(),
        s.top == 0,
        s.cy == s.bottom,
        0 <= col < s.cols,
    ensures
        s.linefeed().history.last() == s.cells[0],
        s.linefeed().scroll_view_up(1).visible_cell(col, 0) == s.cell(col, 0),
{
    let live = Screen { wrap_pending: false, ..s.reset_view() };
    let after = s.linefeed();
    assert(after == live.scroll_up_region(1));
    let all = s.history + s.cells.take(1);
    assert(all.last() == s.cells[0]);
    assert(after.history == crate::screen::last_of(all, s.history_max));
    assert(after.history.last() == all.last());
}

/// The history never grows over its limit, and what it loses are its oldest lines.
pub proof fn law_history_keeps_the_latest_lines(s: Screen, n: int)
    requires
        s.wf(),
        !s.on_alt(),
        s.top == 0,
        0 <= n <= s.region_rows(),
    ensures
        s.scroll_up_region(n).history.len() == vstd::math::min(
            s.history.len() + n,
            s.history_max,
        ),
        forall|i: int|
            0 <= i < s.scroll_up_region(n).history.len() ==> #[trigger] s.scroll_up_region(
                n,
            ).history[i] == (s.history + s.cells.take(n))[i + s.history.len() + n
                - s.scroll_up_region(n).history.len()],
{
}

// ---- sizes ----

/// Another size keeps what both sizes have room for, at the top left; the rest is
/// empty; the cursor stays on the screen.
pub proof fn law_resize_keeps_the_top_left(s: Screen, cols: int, rows: int, col: int, row: int)
    requires
        s.wf(),
        1 <= cols <= usize::MAX,
        1 <= rows <= usize::MAX,
        0 <= col < cols,
        0 <= row < rows,
    ensures
        s.resize(cols, rows).wf(),
        s.resize(cols, rows).cell(col, row) == s.cell(col, row),
        s.resize(cols, rows).history == s.history,
        s.resize(s.cols, s.rows) == s,
{
    crate::screen::lemma_top_left_shape(s.cells, cols, rows);
    if let Some(a) = s.alt {
        crate::screen::lemma_top_left_shape(a.cells, cols, rows);
    }
    assert(crate::screen::top_left(s.cells, cols, rows)[row][col] == s.cell(col, row));
}

// ---- printing ----

/// A character that takes no column leaves the cells and the cursor alone.
pub proof fn law_combining_character_takes_no_cell(s: Screen, c: char)
    requires
        crate::width::columns_of(c) == 0,
    ensures
        s.print(c) == s.reset_view(),
{
}

/// A printed character stands where the cursor was, in the pen's attributes, and the
/// cursor stands after it; in the last column it stays, and the next character
/// breaks the line.
pub proof fn law_printed_character_can_be_read(s: Screen, c: char)
    requires
        s.wf(),
        !s.wrap_pending,
        crate::width::columns_of(c) == 1,
    ensures
        s.print(c).cell(s.cx, s.cy) == s.pen.stamp(c),
        s.print(c).cy == s.cy,
        s.cx + 1 < s.cols ==> s.print(c).cx == s.cx + 1 && !s.print(c).wrap_pending,
        s.cx + 1 == s.cols ==> s.print(c).cx == s.cx && s.print(c).wrap_pending,
        forall|row: int| 0 <= row < s.rows && row != s.cy ==> s.print(c).cells[row] == s.cells[row],
{
    lemma_row_len(s.cells[s.cy], s.cx, 1, s.pen.stamp(c), s.pen.spacer());
}

/// The screen on which a character is put: with the line breaks made that come before
/// it.
pub open spec fn before_put(s: Screen, c: char) -> Screen {
    let at = s.reset_view().wrapped();
    if crate::width::columns_of(c) == 2 && at.cx + 1 >= at.cols {
        (Screen { cx: 0, ..at }).index()
    } else {
        at
    }
}

/// Whether a character is put on the screen: it takes a column, and it fits on the line
/// or the line breaks.
pub open spec fn is_put(s: Screen, c: char) -> bool {
    let at = s.reset_view().wrapped();
    &&& crate::width::columns_of(c) > 0
    &&& crate::width::columns_of(c) == 2 && at.cx + 1 >= at.cols ==> s.modes.autowrap
}

proof fn lemma_before_put(s: Screen, c: char)
    requires
        s.wf(),
        is_put(s, c),
    ensures
        before_put(s, c).wf(),
        before_put(s, c).cols == s.cols,
        before_put(s, c).rows == s.rows,
        before_put(s, c).pen == s.pen,
        !before_put(s, c).wrap_pending,
        s.print(c) == before_put(s, c).put(c, crate::width::columns_of(c)),
        crate::screen::written(
            before_put(s, c).cells[before_put(s, c).cy],
            before_put(s, c).cx,
            crate::width::columns_of(c),
            s.pen.stamp(c),
            s.pen.spacer(),
        ).len() == s.cols,
{
    let live = s.reset_view();
    lemma_index_wf(Screen { cx: 0, ..live });
    let at = live.wrapped();
    assert(at.wf());
    assert(at.modes == s.modes);
    lemma_index_wf(Screen { cx: 0, ..at });
    let spot = before_put(s, c);
    assert(spot.wf());
    lemma_row_len(
        spot.cells[spot.cy],
        spot.cx,
        crate::width::columns_of(c),
        s.pen.stamp(c),
        s.pen.spacer(),
    );
}

/// After a full line, the next character stands in the first column. It stands on the
/// line below, where there is one; in the last row of the scroll region the full line
/// goes one row up, or into the history from a main screen of one row; in the last row
/// of the screen below the region, the character stands on the full line itself.
pub proof fn law_full_line_breaks_before_the_next_character(s: Screen, c: char)
    requires
        s.wf(),
        s.wrap_pending,
        s.modes.autowrap,
        0 < crate::width::columns_of(c) <= s.cols,
    ensures
        s.print(c).cell(0, s.print(c).cy) == s.pen.stamp(c),
        s.cy != s.bottom && s.cy + 1 < s.rows ==> {
            &&& s.print(c).cy == s.cy + 1
            &&& s.print(c).cells[s.cy] == s.cells[s.cy]
        },
        s.cy == s.bottom ==> {
            &&& s.print(c).cy == s.cy
            &&& s.top < s.bottom ==> s.print(c).cells[s.cy - 1] == s.cells[s.cy]
            &&& s.rows == 1 && !s.on_alt() ==> s.print(c).history.last() == s.cells[s.cy]
        },
        s.cy != s.bottom && s.cy + 1 == s.rows ==> {
            &&& s.print(c).cy == s.cy
            &&& forall|col: int|
                crate::width::columns_of(c) < col < s.cols ==> #[trigger] s.print(c).cell(col, s.cy)
                    == s.cell(col, s.cy)
        },
{
    lemma_before_put(s, c);
    let live = s.reset_view();
    let spot = before_put(s, c);
    assert(spot == (Screen { cx: 0, ..live }).index());
    if s.cy == s.bottom {
        let all = s.history + s.cells.take(1);
        if s.rows == 1 && !s.on_alt() {
            assert(all.last() == s.cells[0]);
            assert(crate::screen::last_of(all, s.history_max).last() == all.last());
        }
    }
}

/// A wide character takes two cells: it stands in the first, and the second is its
/// right half. Where the line has only one column left, both stand at the beginning of
/// the next line.
pub proof fn law_wide_character_takes_two_cells(s: Screen, c: char)
    requires
        s.wf(),
        is_put(s, c),
        crate::width::columns_of(c) == 2,
        s.cols >= 2,
    ensures
        ({
            let spot = before_put(s, c);
            &&& s.print(c).cell(spot.cx, spot.cy) == s.pen.stamp(c)
            &&& s.print(c).cell(spot.cx + 1, spot.cy) == s.pen.spacer()
            &&& s.print(c).cell(spot.cx + 1, spot.cy).wide_spacer
            &&& spot.cx + 2 < s.cols ==> s.print(c).cx == spot.cx + 2
            &&& !s.wrap_pending && s.cx + 1 < s.cols ==> spot.cx == s.cx && spot.cy == s.cy
            &&& !s.wrap_pending && s.cx + 1 == s.cols ==> spot.cx == 0 && spot.cy == s.index().cy
        }),
{
    lemma_before_put(s, c);
}

/// Overwriting one half of a wide character blanks the other half, be it before the
/// character that is printed or after it.
pub proof fn law_no_half_of_a_wide_character_is_left(s: Screen, c: char)
    requires
        s.wf(),
        is_put(s, c),
    ensures
        ({
            let spot = before_put(s, c);
            let last = spot.cx + crate::width::columns_of(c) - 1;
            &&& spot.cell(spot.cx, spot.cy).wide_spacer && spot.cx > 0 ==> s.print(c).cell(
                spot.cx - 1,
                spot.cy,
            ) == crate::cell::empty_cell()
            &&& !spot.cell(last, spot.cy).wide_spacer && crate::width::columns_of(
                spot.cell(last, spot.cy).c,
            ) == 2 && spot.cell(last + 1, spot.cy).wide_spacer ==> s.print(c).cell(
                last + 1,
                spot.cy,
            ) == crate::cell::empty_cell()
            &&& !s.wrap_pending && s.cx + crate::width::columns_of(c) <= s.cols ==> spot
                == s.reset_view()
        }),
{
    lemma_before_put(s, c);
}

/// Whether the right half of a wide character in a column stands after its left
/// half.
pub open spec fn paired(row: Seq<Cell>, col: int) -> bool {
    row[col].wide_spacer ==> col > 0 && !row[col - 1].wide_spacer && crate::width::columns_of(
        row[col - 1].c,
    ) == 2
}

/// The columns that text takes.
pub open spec fn columns(text: Seq<char>) -> int
    decreases text.len(),
{
    if text.len() == 0 {
        0
    } else {
        columns(text.drop_last()) + crate::width::columns_of(text.last())
    }
}

/// The cells that text stands in: one for each character, two for a wide one, none
/// for one that takes no column.
pub open spec fn cells_of(pen: Pen, text: Seq<char>) -> Seq<Cell>
    decreases text.len(),
{
    if text.len() == 0 {
        Seq::empty()
    } else {
        let before = cells_of(pen, text.drop_last());
        let w = crate::width::columns_of(text.last());
        if w == 0 {
            before
        } else if w == 2 {
            before.push(pen.stamp(text.last())).push(pen.spacer())
        } else {
            before.push(pen.stamp(text.last()))
        }
    }
}

/// The characters of text that take a column.
pub open spec fn seen(text: Seq<char>) -> Seq<char>
    decreases text.len(),
{
    if text.len() == 0 {
        Seq::empty()
    } else if crate::width::columns_of(text.last()) == 0 {
        seen(text.drop_last())
    } else {
        seen(text.drop_last()).push(text.last())
    }
}

/// Whether a character of text that is printed from a column on can begin where it
/// does: it is the first, or the row has no right half there without its left half.
pub open spec fn can_begin(row: Seq<Cell>, from: int, text: Seq<char>, i: int) -> bool {
    columns(text.take(i)) > 0 && crate::width::columns_of(text[i]) > 0 ==> paired(
        row,
        from + columns(text.take(i)),
    )
}

/// Whether text can be printed at the cursor: it holds no control characters, it fits
/// into the line, and none of it begins on a right half that has lost its left half.
pub open spec fn fits(s: Screen, text: Seq<char>) -> bool {
    &&& !s.wrap_pending
    &&& s.cx + columns(text) <= s.cols
    &&& forall|i: int| 0 <= i < text.len() ==> crate::decode::plain_token(#[trigger] text[i]) is Print
    &&& forall|i: int| 0 <= i < text.len() ==> #[trigger] can_begin(s.cells[s.cy], s.cx, text, i)
}

/// Text that fits into the line stands on it after it has been printed, in the pen's
/// attributes, and the cursor stands after it.
pub proof fn law_printed_text_can_be_read(s: Screen, text: Seq<char>)
    requires
        s.wf(),
        fits(s, text),
    ensures
        s.text(text).cells[s.cy].subrange(s.cx, s.cx + columns(text)) == cells_of(s.pen, text),
        s.cx + columns(text) < s.cols ==> s.text(text).cx == s.cx + columns(text),
        s.text(text).cy == s.cy,
        forall|row: int|
            0 <= row < s.rows && row != s.cy ==> #[trigger] s.text(text).cells[row] == s.cells[row],
{
    lemma_printed_text(s, text);
    let row = s.text(text).cells[s.cy];
    let part = row.subrange(s.cx, s.cx + columns(text));
    assert forall|i: int| 0 <= i < columns(text) implies #[trigger] part[i] == cells_of(
        s.pen,
        text,
    )[i] by {
        assert(row[s.cx + i] == cells_of(s.pen, text)[i]);
    }
    assert(part =~= cells_of(s.pen, text));
}

proof fn lemma_columns(pen: Pen, text: Seq<char>)
    ensures
        cells_of(pen, text).len() == columns(text),
        crate::screen::shown(cells_of(pen, text)) == seen(text),
    decreases text.len(),
{
    if text.len() > 0 {
        lemma_columns(pen, text.drop_last());
        let before = cells_of(pen, text.drop_last());
        let one = before.push(pen.stamp(text.last()));
        let two = one.push(pen.spacer());
        assert(one.drop_last() =~= before);
        assert(two.drop_last() =~= one);
        assert(crate::screen::shown(one) == crate::screen::shown(before).push(text.last()));
        assert(crate::screen::shown(two) == crate::screen::shown(one));
    }
}

/// What is left to be said of a line after text has been printed on it.
spec fn printed(s: Screen, text: Seq<char>, after: Screen) -> bool {
    let old_row = s.cells[s.cy];
    let row = after.cells[s.cy];
    let end = s.cx + columns(text);
    &&& after.wf()
    &&& after.cols == s.cols
    &&& after.rows == s.rows
    &&& after.cy == s.cy
    &&& after.pen == s.pen
    &&& after.view_offset == (if text.len() == 0 {
        s.view_offset
    } else {
        0
    })
    &&& end < s.cols ==> after.cx == end && !after.wrap_pending
    &&& forall|i: int|
        0 <= i < columns(text) ==> #[trigger] row[s.cx + i] == cells_of(s.pen, text)[i]
    &&& forall|col: int| end < col < s.cols ==> #[trigger] row[col] == old_row[col]
    &&& columns(text) == 0 ==> row == old_row
    &&& end < s.cols ==> row[end] == old_row[end] || (old_row[end].wide_spacer && row[end]
        == crate::cell::empty_cell())
    &&& 0 < columns(text) && end < s.cols && paired(old_row, end) ==> !row[end].wide_spacer
    &&& forall|r: int| 0 <= r < s.rows && r != s.cy ==> #[trigger] after.cells[r] == s.cells[r]
}

proof fn lemma_printed_text(s: Screen, text: Seq<char>)
    requires
        s.wf(),
        fits(s, text),
    ensures
        printed(s, text, s.text(text)),
        cells_of(s.pen, text).len() == columns(text),
    decreases text.len(),
{
    lemma_columns(s.pen, text);
    if text.len() > 0 {
        let before = text.drop_last();
        let c = text.last();
        let w = crate::width::columns_of(c);
        lemma_columns(s.pen, before);
        assert forall|i: int| 0 <= i < before.len() implies crate::decode::plain_token(
            #[trigger] before[i],
        ) is Print by {
            assert(before[i] == text[i]);
        }
        assert forall|i: int| 0 <= i < before.len() implies #[trigger] can_begin(
            s.cells[s.cy],
            s.cx,
            before,
            i,
        ) by {
            assert(can_begin(s.cells[s.cy], s.cx, text, i));
            assert(before.take(i) =~= text.take(i));
        }
        lemma_printed_text(s, before);
        assert(crate::decode::plain_token(text[text.len() - 1]) is Print);
        let mid = s.text(before);
        assert(s.text(text) == mid.print(c));
        if w > 0 {
            assert(can_begin(s.cells[s.cy], s.cx, text, text.len() - 1));
            assert(text.take(text.len() - 1) =~= before);
            lemma_printed_next(s, before, mid, c, w);
            assert(text =~= before.push(c));
        }
    }
}

/// One more character of text.
proof fn lemma_printed_next(s: Screen, before: Seq<char>, mid: Screen, c: char, w: int)
    requires
        s.wf(),
        printed(s, before, mid),
        w == crate::width::columns_of(c),
        w > 0,
        s.cx + columns(before) + w <= s.cols,
        columns(before) > 0 ==> paired(s.cells[s.cy], s.cx + columns(before)),
        cells_of(s.pen, before).len() == columns(before),
    ensures
        printed(s, before.push(c), mid.print(c)),
{
    let text = before.push(c);
    assert(text.drop_last() =~= before);
    let col = s.cx + columns(before);
    let end = col + w;
    let old_row = s.cells[s.cy];
    lemma_print_wf(mid, c);
    lemma_row_len(mid.cells[mid.cy], mid.cx, w, mid.pen.stamp(c), mid.pen.spacer());
    let after = mid.print(c);
    let row0 = mid.cells[s.cy];
    let row = after.cells[s.cy];
    assert(after == mid.reset_view().put(c, w));
    assert(row == crate::screen::written(row0, col, w, s.pen.stamp(c), s.pen.spacer()));
    let row1 = crate::screen::without_partner(row0, col);
    if columns(before) > 0 {
        assert(!row0[col].wide_spacer);
    }
    assert(row[col] == s.pen.stamp(c));
    if w == 2 {
        assert(row[col + 1] == s.pen.spacer());
    }
    assert forall|i: int| 0 <= i < columns(text) implies #[trigger] row[s.cx + i] == cells_of(
        s.pen,
        text,
    )[i] by {
        if i < columns(before) {
            assert(row0[s.cx + i] == cells_of(s.pen, before)[i]);
        }
    }
    if end < s.cols {
        assert(row0[end] == old_row[end]);
        if paired(old_row, end) && old_row[end].wide_spacer {
            assert(row0[end - 1] == old_row[end - 1]);
            assert(row1[end] == if w == 1 {
                crate::cell::empty_cell()
            } else {
                row0[end]
            });
        }
    }
}

// ---- taking text ----

/// The text between two places does not hang on which of them is named first.
pub proof fn law_span_has_no_direction(s: Screen, a: (usize, usize), b: (usize, usize))
    ensures
        s.span(a, b) == s.span(b, a),
{
    let (x, y) = crate::selection::in_order(a, b);
    let (u, v) = crate::selection::in_order(b, a);
    assert(x == u && y == v);
}

/// Text that has been printed is what is taken from the places where it stands, but
/// for spaces at its end and for characters that take no column.
pub proof fn law_printed_text_can_be_taken(s: Screen, text: Seq<char>)
    requires
        s.wf(),
        fits(s, text),
        columns(text) > 0,
    ensures
        s.text(text).span(
            (s.cx as usize, s.cy as usize),
            ((s.cx + columns(text) - 1) as usize, s.cy as usize),
        ) == crate::screen::trim_spaces(seen(text)),
{
    lemma_printed_text(s, text);
    lemma_columns(s.pen, text);
    let after = s.text(text);
    let start = (s.cx as usize, s.cy as usize);
    let end = ((s.cx + columns(text) - 1) as usize, s.cy as usize);
    assert(after.visible_run(s.cy, s.cx, s.cx + columns(text)) =~= cells_of(s.pen, text)) by {
        assert forall|i: int| 0 <= i < columns(text) implies #[trigger] after.visible_run(
            s.cy,
            s.cx,
            s.cx + columns(text),
        )[i] == cells_of(s.pen, text)[i] by {
            assert(after.cells[s.cy][s.cx + i] == cells_of(s.pen, text)[i]);
        }
    }
    assert(crate::selection::in_order(start, end) == (start, end));
    assert(after.span_before(start, end, s.cy) =~= Seq::empty());
    assert(after.span(start, end) =~= after.span_row(start, end, s.cy));
}

/// A selection covers the same places whichever end it began at, both ends among
/// them.
pub proof fn law_selection_covers_its_ends(sel: Selection, col: usize, row: usize)
    ensures
        sel.covers(sel.anchor.0, sel.anchor.1),
        sel.covers(sel.head.0, sel.head.1),
        sel.covers(col, row) == (Selection { anchor: sel.head, head: sel.anchor }).covers(col, row),
{
}

// ---- erasing ----

/// Erasing twice is erasing once, and the cursor stays.
pub proof fn law_erasing_again_changes_nothing(s: Screen, mode: u16)
    requires
        s.wf(),
    ensures
        s.erase_in_display(mode).erase_in_display(mode) == s.erase_in_display(mode),
        s.erase_in_line(mode).erase_in_line(mode) == s.erase_in_line(mode),
        s.erase_in_display(mode).cx == s.cx,
        s.erase_in_display(mode).cy == s.cy,
{
    let once = s.erase_in_display(mode);
    assert(once.erase_in_display(mode).cells =~~= once.cells);
    let line = s.erase_in_line(mode);
    assert(line.erase_in_line(mode).cells =~~= line.cells);
}

// ---- the hard reset ----

/// The hard reset leaves the alternate screen and brings back an empty screen, the
/// cursor at its top left, and the pen, the modes and the scroll region of the start;
/// the history stays.
pub proof fn law_hard_reset_keeps_the_history(s: Screen, col: int, row: int)
    requires
        s.wf(),
    ensures
        s.full_reset().wf(),
        !s.full_reset().on_alt(),
        s.full_reset().cell(col, row) == crate::cell::empty_cell(),
        s.full_reset().cx == 0 && s.full_reset().cy == 0,
        s.full_reset().pen == crate::cell::plain_pen(0),
        s.full_reset().modes == crate::modes::initial_modes(),
        s.full_reset().top == 0 && s.full_reset().bottom == s.rows - 1,
        s.full_reset().cols == s.cols && s.full_reset().rows == s.rows,
        s.full_reset().history == s.history,
{
}

// ---- colours ----

/// Hidden text has the colour of what is behind it.
pub proof fn law_hidden_text_cannot_be_seen(cell: Cell, theme: Theme, extra_inverse: bool)
    requires
        cell.hidden,
    ensures
        cell.colors(theme, extra_inverse).0 == cell.colors(theme, extra_inverse).1,
{
}

/// Reverse video exchanges the foreground and the background, and twice is not at
/// all.
pub proof fn law_reverse_video_swaps(cell: Cell, theme: Theme)
    ensures
        cell.colors(theme, true) == (cell.colors(theme, false).1, cell.colors(theme, false).0),
        (Cell { inverse: !cell.inverse, ..cell }).colors(theme, true) == cell.colors(theme, false),
{
}

} // verus!
