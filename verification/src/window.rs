//! One window: a screen, the output that feeds it, and what is known of the
//! program that runs in it.

use vstd::prelude::*;

use crate::decode::Decoder;
use crate::event::EventView;
use crate::grid::{Grid, TermEvent};
use crate::parser::feed;
use crate::screen::Screen;

verus! {

/// What the program in a window is doing.
#[derive(Clone, Copy, PartialEq, Eq, Debug, Structural)]
pub enum WinStatus {
    /// It waits for input.
    Idle,
    /// A command is running.
    Running,
    /// The last command has failed.
    Failed,
}

/// A window.
pub struct Window {
    pub id: usize,
    pub title: String,
    pub grid: Grid,
    /// Takes the output apart; it keeps what one piece leaves unfinished.
    pub decoder: Decoder,
    pub status: WinStatus,
    /// There is output that has not been looked at.
    pub activity: bool,
    /// A notification has come that has not been looked at.
    pub alerted: bool,
    /// The working directory of the program, as a URL.
    pub cwd: Option<String>,
}

/// The state of a window.
#[verifier::ext_equal]
pub struct WindowState {
    pub id: usize,
    pub title: Seq<char>,
    pub screen: Screen,
    /// The pieces of output so far.
    pub fed: Seq<Seq<u8>>,
    pub status: WinStatus,
    pub activity: bool,
    pub alerted: bool,
    pub cwd: Option<Seq<char>>,
}

impl View for Window {
    type V = WindowState;

    open spec fn view(&self) -> WindowState {
        WindowState {
            id: self.id,
            title: self.title@,
            screen: self.grid@,
            fed: self.decoder@,
            status: self.status,
            activity: self.activity,
            alerted: self.alerted,
            cwd: match self.cwd {
                Some(c) => Some(c@),
                None => None,
            },
        }
    }
}

/// What a command that has ended leaves behind: failure for an exit code other
/// than zero.
pub open spec fn status_after(code: Option<i32>) -> WinStatus {
    match code {
        Some(n) => if n == 0 {
            WinStatus::Idle
        } else {
            WinStatus::Failed
        },
        None => WinStatus::Idle,
    }
}

/// The events that a window deals with itself, and not the program around it.
pub open spec fn is_own(ev: EventView) -> bool {
    ev is Reply || ev is Title || ev is PromptStart || ev is CommandEnd
}

/// The answers among events, oldest first.
pub open spec fn replies_of(events: Seq<EventView>) -> Seq<Seq<u8>>
    decreases events.len(),
{
    if events.len() == 0 {
        Seq::empty()
    } else {
        match events.last() {
            EventView::Reply(bytes) => replies_of(events.drop_last()).push(bytes),
            _ => replies_of(events.drop_last()),
        }
    }
}

/// The events that are left for the program around the windows, oldest first.
pub open spec fn others_of(events: Seq<EventView>) -> Seq<EventView> {
    events.filter(|ev: EventView| !is_own(ev))
}

impl WindowState {
    /// A window that has just been opened.
    pub open spec fn start(id: usize, title: Seq<char>, cols: int, rows: int) -> WindowState {
        WindowState {
            id,
            title,
            screen: Screen::start(cols, rows),
            fed: Seq::empty(),
            status: WinStatus::Idle,
            activity: false,
            alerted: false,
            cwd: None,
        }
    }

    pub open spec fn wf(self) -> bool {
        self.screen.wf()
    }

    pub open spec fn with_screen(self, screen: Screen) -> WindowState {
        WindowState { screen, ..self }
    }

    /// After a piece of output.
    pub open spec fn after_output(self, bytes: Seq<u8>) -> WindowState {
        WindowState {
            screen: self.screen.fed(self.fed, bytes),
            fed: self.fed.push(bytes),
            ..self
        }
    }

    /// After one event: a title is taken over, the marks of a shell set the status.
    pub open spec fn after_event(self, ev: EventView) -> WindowState {
        match ev {
            EventView::Title(t) => WindowState { title: t, ..self },
            EventView::PromptStart => WindowState { status: WinStatus::Running, ..self },
            EventView::CommandEnd(code) => WindowState { status: status_after(code), ..self },
            _ => self,
        }
    }

    /// After one event after the other.
    pub open spec fn after_events(self, events: Seq<EventView>) -> WindowState
        decreases events.len(),
    {
        if events.len() == 0 {
            self
        } else {
            self.after_events(events.drop_last()).after_event(events.last())
        }
    }

    /// After the window has dealt with the events of its screen.
    pub open spec fn settled(self) -> WindowState {
        self.with_screen(self.screen.drained()).after_events(self.screen.events)
    }
}

impl Window {
    pub open spec fn wf(&self) -> bool {
        self@.wf()
    }

    /// A window with a blank screen.
    pub fn new(id: usize, title: String, cols: u16, rows: u16) -> (w: Window)
        ensures
            w.wf(),
            w@ == WindowState::start(id, title@, cols as int, rows as int),
    {
        Window {
            id,
            title,
            grid: Grid::new(cols as usize, rows as usize),
            decoder: Decoder::new(),
            status: WinStatus::Idle,
            activity: false,
            alerted: false,
            cwd: None,
        }
    }

    /// Carries out a piece of output on the screen.
    pub fn feed(&mut self, bytes: &[u8])
        requires
            old(self).wf(),
        ensures
            final(self).wf(),
            final(self)@ == old(self)@.after_output(bytes@),
            crate::decode::all_plain(old(self)@.fed) && crate::decode::is_plain(bytes@)
                ==> final(self)@.screen == old(self)@.screen.text(
                vstd::utf8::decode_utf8(bytes@),
            ),
    {
        feed(&mut self.grid, &mut self.decoder, bytes);
    }

    /// Gives the screen another size.
    pub fn resize(&mut self, cols: u16, rows: u16)
        requires
            old(self).wf(),
        ensures
            final(self).wf(),
            final(self)@ == old(self)@.with_screen(
                old(self)@.screen.resize(cols as int, rows as int),
            ),
    {
        self.grid.resize(cols as usize, rows as usize);
    }

    /// Takes the events of the screen and deals with those that concern the window
    /// alone. Gives the answers to send to the program, and the other events.
    pub fn settle(&mut self) -> (r: (Vec<Vec<u8>>, Vec<TermEvent>))
        requires
            old(self).wf(),
        ensures
            final(self).wf(),
            final(self)@ == old(self)@.settled(),
            crate::decode::nested(r.0@) == replies_of(old(self)@.screen.events),
            crate::event::events_view(r.1@) == others_of(old(self)@.screen.events),
    {
        let ghost all = self@.screen.events;
        let ghost keep = |ev: EventView| !is_own(ev);
        let events = self.grid.drain_events();
        let ghost start = self@;
        let mut replies: Vec<Vec<u8>> = Vec::new();
        let mut others: Vec<TermEvent> = Vec::new();
        proof {
            reveal(Seq::filter);
            assert(all.take(0) =~= Seq::empty());
            assert(crate::decode::nested(replies@) =~= replies_of(all.take(0)));
            assert(crate::event::events_view(others@) =~= all.take(0).filter(keep));
        }
        for ev in it: events
            invariant
                it.seq() == events@,
                all == crate::event::events_view(events@),
                keep == (|ev: EventView| !is_own(ev)),
                self.wf(),
                self@ == start.after_events(all.take(it.index())),
                crate::decode::nested(replies@) == replies_of(all.take(it.index())),
                crate::event::events_view(others@) == all.take(it.index()).filter(keep),
        {
            let ghost i = it.index();
            let ghost said = ev@;
            let ghost replies0 = crate::decode::nested(replies@);
            let ghost others0 = crate::event::events_view(others@);
            proof {
                reveal(Seq::filter);
                assert(all[i] == said);
                assert(all.take(i + 1).drop_last() =~= all.take(i));
                assert(all.take(i + 1).last() == said);
            }
            match ev {
                TermEvent::Reply(bytes) => {
                    replies.push(bytes);
                    assert(crate::decode::nested(replies@) =~= replies0.push(bytes@));
                },
                TermEvent::Title(t) => {
                    self.title = t;
                },
                TermEvent::PromptStart => {
                    self.status = WinStatus::Running;
                },
                TermEvent::CommandEnd(code) => {
                    self.status = match code {
                        Some(n) => if n == 0 {
                            WinStatus::Idle
                        } else {
                            WinStatus::Failed
                        },
                        None => WinStatus::Idle,
                    };
                },
                other => {
                    others.push(other);
                    assert(crate::event::events_view(others@) =~= others0.push(other@));
                },
            }
        }
        assert(all.take(all.len() as int) =~= all);
        (replies, others)
    }
}

/// Events leave the identifier, the screen and the output of a window alone.
proof fn lemma_events_keep(w: WindowState, events: Seq<EventView>)
    ensures
        w.after_events(events).id == w.id,
        w.after_events(events).screen == w.screen,
        w.after_events(events).fed == w.fed,
        w.after_events(events).activity == w.activity,
    decreases events.len(),
{
    if events.len() > 0 {
        lemma_events_keep(w, events.drop_last());
    }
}

/// A window that deals with its events keeps its identifier and its output.
pub proof fn lemma_settled_id(w: WindowState)
    ensures
        w.settled().id == w.id,
        w.settled().fed == w.fed,
        w.settled().screen == w.screen.drained(),
        w.settled().activity == w.activity,
{
    lemma_events_keep(w.with_screen(w.screen.drained()), w.screen.events);
}

} // verus!
