//! The console: where the interpreter leaves what it prints and the
//! diagnostics it reports, in the order in which they arise.

use vstd::prelude::*;
use crate::value::Value;

verus! {

/// One thing that the interpreter hands to the outside world.
#[derive(Debug, PartialEq, Eq)]
pub enum Event {
    /// Text printed by a program.
    Output(String),
    /// The message of a diagnostic.
    Diagnostic(String),
}

/// The mathematical content of an [`Event`].
pub enum EventV {
    Output(Seq<char>),
    Diagnostic(Seq<char>),
}

impl View for Event {
    type V = EventV;

    open spec fn view(&self) -> EventV {
        match self {
            Event::Output(s) => EventV::Output(s@),
            Event::Diagnostic(s) => EventV::Diagnostic(s@),
        }
    }
}

/// The sink for printed text and diagnostics.
#[derive(Debug, PartialEq, Eq)]
pub struct Console {
    pub events: Vec<Event>,
}

impl View for Console {
    type V = Seq<EventV>;

    open spec fn view(&self) -> Seq<EventV> {
        self.events@.map_values(|e: Event| e@)
    }
}

impl Console {
    /// A console that holds nothing yet.
    pub fn new() -> (r: Console)
        ensures
            r@ == Seq::<EventV>::empty(),
    {
        let r = Console { events: Vec::new() };
        assert(r@ =~= Seq::<EventV>::empty());
        r
    }

    /// Records a piece of printed text.
    pub fn print(&mut self, text: String)
        ensures
            final(self)@ == old(self)@.push(EventV::Output(text@)),
    {
        self.events.push(Event::Output(text));
        assert(self@ =~= old(self)@.push(EventV::Output(text@)));
    }

    /// Hands out everything recorded so far and leaves the console empty.
    pub fn take(&mut self) -> (r: Vec<Event>)
        ensures
            r@.map_values(|e: Event| e@) == old(self)@,
            final(self)@ == Seq::<EventV>::empty(),
    {
        let mut out: Vec<Event> = Vec::new();
        out.append(&mut self.events);
        assert(out@ =~= old(self).events@);
        assert(self@ =~= Seq::<EventV>::empty());
        out
    }
}

/// Reports a diagnostic and yields the value of a failed evaluation, `Nil`.
pub fn error(msg: String, console: &mut Console) -> (r: Value)
    ensures
        r is Nil,
        final(console)@ == old(console)@.push(EventV::Diagnostic(msg@)),
{
    console.events.push(Event::Diagnostic(msg));
    assert(console@ =~= old(console)@.push(EventV::Diagnostic(msg@)));
    Value::Nil
}

} // verus!
