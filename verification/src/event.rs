//! What the screen has to tell the program around it.

use vstd::prelude::*;

verus! {

/// An event for the program around the screen.
#[derive(Clone, Debug)]
pub enum TermEvent {
    /// The application names its window.
    Title(String),
    /// The application puts text on the clipboard.
    SetClipboard(String),
    /// The bell rings: something is done.
    Bell,
    /// A desktop notification: its title and its body.
    Notify(String, String),
    /// The working directory of the application, as a URL.
    Cwd(String),
    /// A command has begun.
    PromptStart,
    /// A command has ended, with its exit code if that was given.
    CommandEnd(Option<i32>),
    /// Bytes to send back to the application.
    Reply(Vec<u8>),
}

/// What a [`TermEvent`] says.
pub enum EventView {
    Title(Seq<char>),
    SetClipboard(Seq<char>),
    Bell,
    Notify(Seq<char>, Seq<char>),
    Cwd(Seq<char>),
    PromptStart,
    CommandEnd(Option<i32>),
    Reply(Seq<u8>),
}

impl View for TermEvent {
    type V = EventView;

    open spec fn view(&self) -> EventView {
        match *self {
            TermEvent::Title(t) => EventView::Title(t@),
            TermEvent::SetClipboard(t) => EventView::SetClipboard(t@),
            TermEvent::Bell => EventView::Bell,
            TermEvent::Notify(t, b) => EventView::Notify(t@, b@),
            TermEvent::Cwd(u) => EventView::Cwd(u@),
            TermEvent::PromptStart => EventView::PromptStart,
            TermEvent::CommandEnd(code) => EventView::CommandEnd(code),
            TermEvent::Reply(b) => EventView::Reply(b@),
        }
    }
}

/// What a sequence of events says.
pub open spec fn events_view(events: Seq<TermEvent>) -> Seq<EventView> {
    events.map_values(|e: TermEvent| e@)
}

} // verus!
