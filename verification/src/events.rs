//! The abstract input event stream: the event vocabulary, and a handle
//! on the ordered channel the surrounding system funnels events into.

use vstd::prelude::*;

verus! {

/// An abstract input event, produced outside the engine by translating
/// raw terminal events; unrecognized combinations arrive as
/// `Unsupported`.
pub enum Event {
    Tick,
    CharKey(char),
    CtrlKey(char),
    Up,
    Down,
    Left,
    Right,
    ScrollUp(u16, u16),
    ScrollDown(u16, u16),
    Press(u16, u16),
    Enter,
    Backspace,
    Esc,
    Unsupported(String),
}

/// The mathematical image of an [`Event`].
pub ghost enum EventV {
    Tick,
    CharKey(char),
    CtrlKey(char),
    Up,
    Down,
    Left,
    Right,
    ScrollUp(u16, u16),
    ScrollDown(u16, u16),
    Press(u16, u16),
    Enter,
    Backspace,
    Esc,
    Unsupported(Seq<char>),
}

impl View for Event {
    type V = EventV;

    open spec fn view(&self) -> EventV {
        match self {
            Event::Tick => EventV::Tick,
            Event::CharKey(c) => EventV::CharKey(*c),
            Event::CtrlKey(c) => EventV::CtrlKey(*c),
            Event::Up => EventV::Up,
            Event::Down => EventV::Down,
            Event::Left => EventV::Left,
            Event::Right => EventV::Right,
            Event::ScrollUp(x, y) => EventV::ScrollUp(*x, *y),
            Event::ScrollDown(x, y) => EventV::ScrollDown(*x, *y),
            Event::Press(x, y) => EventV::Press(*x, *y),
            Event::Enter => EventV::Enter,
            Event::Backspace => EventV::Backspace,
            Event::Esc => EventV::Esc,
            Event::Unsupported(s) => EventV::Unsupported(s@),
        }
    }
}

/// The error [`Events::next`] returns once every sender of the channel
/// is gone and the buffered events are drained.
#[derive(Clone, Copy, Debug, PartialEq, Eq, Structural)]
pub struct ChannelClosed;

#[verifier::external_type_specification]
#[verifier::external_body]
#[verifier::reject_recursive_types(T)]
pub struct ExReceiver<T>(std::sync::mpsc::Receiver<T>);

/// Relies on `std::sync::mpsc::Receiver::recv`: blocks until a value
/// arrives and hands it over, or reports the channel closed.  Which of
/// the two happens depends on the senders, so nothing more is promised.
#[verifier::external_body]
fn recv_from(rx: &std::sync::mpsc::Receiver<Event>) -> (r: Option<Event>) {
    match rx.recv() {
        Ok(e) => Some(e),
        Err(_) => None,
    }
}

/// The consuming end of the one ordered event channel.  The raw-input
/// poller and the ticker outside the engine share the sending end.
pub struct Events {
    rx: std::sync::mpsc::Receiver<Event>,
}

impl Events {
    /// Wraps the consuming end of the event channel.
    pub fn new(rx: std::sync::mpsc::Receiver<Event>) -> Events {
        Events { rx }
    }

    /// The next event, in arrival order; blocks until one is there.
    /// `ChannelClosed` comes back exactly when the wrapped receiver
    /// reports the channel finished, which depends on the senders
    /// alone.
    pub fn next(&self) -> Result<Event, ChannelClosed> {
        match recv_from(&self.rx) {
            Some(e) => Ok(e),
            None => Err(ChannelClosed),
        }
    }
}

} // verus!
