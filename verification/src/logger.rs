use vstd::prelude::*;

use crate::program::SwppContext;

verus! {

/// What a logger is handed: a record of a cost charged (the line, the name the
/// instruction is logged under, the cost, the total cost after it, and the
/// function it is charged in), or the entry or exit of a function.
pub enum LogEvent {
    Record { line: u64, inst: Seq<char>, cost: u64, total: u64, fname: Seq<char> },
    Enter,
    Exit,
}

/// Receives one record per cost charged, and the entry and exit of functions.
pub trait SwppLogger {
    /// Everything the logger has been handed so far, in order. A logger
    /// gives its own account of it; the one given here, nothing, only stands
    /// for loggers written outside this library.
    closed spec fn history(&self) -> Seq<LogEvent> {
        Seq::empty()
    }

    /// Whether the logger keeps the account above: what each call appends to
    /// its history is stated only of loggers for which this holds. It does not
    /// of a logger written outside this library, unless its author says so.
    open spec fn obeys_history() -> bool {
        false
    }

    fn log(&mut self, line_num: u64, inst: &str, cost: u64, total_cost: u64, ctxt: &SwppContext)
        ensures
            Self::obeys_history() ==> final(self).history() == old(self).history().push(
                LogEvent::Record {
                    line: line_num,
                    inst: inst@,
                    cost: cost,
                    total: total_cost,
                    fname: ctxt.spec_fname(),
                },
            ),
    ;

    fn enter_fn(&mut self)
        ensures
            Self::obeys_history() ==> final(self).history() == old(self).history().push(LogEvent::Enter),
    ;

    fn exit_fn(&mut self)
        ensures
            Self::obeys_history() ==> final(self).history() == old(self).history().push(LogEvent::Exit),
    ;
}

/// A logger that writes nothing; it only keeps, as ghost state, what it was handed.
pub struct DummyLogger {
    history: Ghost<Seq<LogEvent>>,
}

impl DummyLogger {
    pub fn new() -> (res: Self)
        ensures
            res.history() == Seq::<LogEvent>::empty(),
    {
        Self { history: Ghost(Seq::empty()) }
    }
}

impl SwppLogger for DummyLogger {
    closed spec fn history(&self) -> Seq<LogEvent> {
        self.history@
    }

    open spec fn obeys_history() -> bool {
        true
    }

    fn log(
        &mut self,
        line_num: u64,
        inst: &str,
        cost: u64,
        total_cost: u64,
        ctxt: &SwppContext,
    ) {
        self.history = Ghost(
            self.history@.push(
                LogEvent::Record {
                    line: line_num,
                    inst: inst@,
                    cost: cost,
                    total: total_cost,
                    fname: ctxt.spec_fname(),
                },
            ),
        );
    }

    fn enter_fn(&mut self) {
        self.history = Ghost(self.history@.push(LogEvent::Enter));
    }

    fn exit_fn(&mut self) {
        self.history = Ghost(self.history@.push(LogEvent::Exit));
    }
}


} // verus!
