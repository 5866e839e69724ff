//! Named, ordered, multi-handler dispatch.
//!
//! The table records every `connect_signal` in order; the handlers of a
//! signal are the ones connected under its name, in connection order,
//! duplicates included. An emission hands them out one by one; a handler
//! that fails only produces a log line and never stops the emission.
use vstd::prelude::*;

verus! {

/// Key under which the script side keeps a handler's callable.
pub type HandlerId = u64;

/// Handlers connected under `name`, in connection order.
pub open spec fn handlers_for(conns: Seq<(Seq<char>, HandlerId)>, name: Seq<char>) -> Seq<HandlerId>
    decreases conns.len(),
{
    if conns.len() == 0 {
        Seq::empty()
    } else {
        let earlier = handlers_for(conns.drop_last(), name);
        if conns.last().0 == name {
            earlier.push(conns.last().1)
        } else {
            earlier
        }
    }
}

/// One `connect_signal` call.
struct Connection {
    signal: String,
    handler: HandlerId,
}

spec fn connection_view(c: Connection) -> (Seq<char>, HandlerId) {
    (c.signal@, c.handler)
}

/// The signal table: every connection made, in order. Entries are never removed.
pub struct SignalTable {
    connections: Vec<Connection>,
}

impl View for SignalTable {
    type V = Seq<(Seq<char>, HandlerId)>;

    closed spec fn view(&self) -> Seq<(Seq<char>, HandlerId)> {
        self.connections@.map_values(|c: Connection| connection_view(c))
    }
}

impl SignalTable {
    pub fn new() -> (t: SignalTable)
        ensures
            t@ == Seq::<(Seq<char>, HandlerId)>::empty(),
    {
        let t = SignalTable { connections: Vec::new() };
        assert(t@ =~= Seq::<(Seq<char>, HandlerId)>::empty());
        t
    }

    /// Handlers connected under `name`, in connection order.
    pub open spec fn handlers(&self, name: Seq<char>) -> Seq<HandlerId> {
        handlers_for(self@, name)
    }
}

/// Appends `handler` to the handlers of `name`; the list is created on first use.
pub fn connect_signal(signals: &mut SignalTable, name: &str, handler: HandlerId)
    ensures
        final(signals)@ == old(signals)@.push((name@, handler)),
        final(signals).handlers(name@) == old(signals).handlers(name@).push(handler),
{
    let c = Connection { signal: name.to_owned(), handler };
    signals.connections.push(c);
    assert(signals@ =~= old(signals)@.push((name@, handler)));
    assert(signals@.drop_last() =~= old(signals)@);
}

/// What is left of an emission: the signal's name and the handlers still to run.
pub struct EmissionView {
    pub signal: Seq<char>,
    pub remaining: Seq<HandlerId>,
}

/// The emission that `emit_signal` starts on a table holding `conns`.
pub open spec fn emission_of(conns: Seq<(Seq<char>, HandlerId)>, name: Seq<char>) -> EmissionView {
    EmissionView { signal: name, remaining: handlers_for(conns, name) }
}

/// One step of an emission: the handler to run next, if any, and what is left after it.
pub open spec fn next_step(e: EmissionView) -> (Option<HandlerId>, EmissionView) {
    if e.remaining.len() == 0 {
        (None, e)
    } else {
        (Some(e.remaining[0]), EmissionView { signal: e.signal, remaining: e.remaining.drop_first() })
    }
}

/// The log line for a handler of `signal` that failed with `error`.
pub open spec fn failure_line(signal: Seq<char>, error: Seq<char>) -> Seq<char> {
    "Error while emitting signal "@ + signal + ": "@ + error
}

/// What reporting a handler's outcome yields: nothing on success, a log line on failure.
pub open spec fn report_line(signal: Seq<char>, outcome: Result<(), Seq<char>>) -> Option<Seq<char>> {
    match outcome {
        Ok(()) => None,
        Err(error) => Some(failure_line(signal, error)),
    }
}

pub open spec fn outcome_view(outcome: Result<(), String>) -> Result<(), Seq<char>> {
    match outcome {
        Ok(()) => Ok(()),
        Err(error) => Err(error@),
    }
}

/// A dispatch in progress: the handlers of one signal, handed out in order.
pub struct Emission {
    signal: String,
    handlers: Vec<HandlerId>,
    next: usize,
}

impl View for Emission {
    type V = EmissionView;

    closed spec fn view(&self) -> EmissionView {
        EmissionView { signal: self.signal@, remaining: self.handlers@.skip(self.next as int) }
    }
}

impl Emission {
    #[verifier::type_invariant]
    spec fn cursor_in_range(&self) -> bool {
        self.next <= self.handlers.len()
    }

    /// Hands out the next handler to run, or `None` once every handler has run.
    pub fn next_handler(&mut self) -> (r: Option<HandlerId>)
        ensures
            (r, final(self)@) == next_step(old(self)@),
    {
        proof {
            use_type_invariant(&*self);
        }
        if self.next < self.handlers.len() {
            let h = self.handlers[self.next];
            self.next = self.next + 1;
            assert(self.handlers@.skip(self.next as int) =~= old(self)@.remaining.drop_first());
            Some(h)
        } else {
            None
        }
    }

    /// The log line owed for a handler's outcome. Nothing else follows from a
    /// failure: the remaining handlers stay as they were.
    pub fn report(&self, outcome: &Result<(), String>) -> (r: Option<String>)
        ensures
            match r {
                Some(line) => report_line(self@.signal, outcome_view(*outcome)) == Some(line@),
                None => report_line(self@.signal, outcome_view(*outcome)) is None,
            },
    {
        match outcome {
            Ok(()) => None,
            Err(error) => {
                let mut line = "Error while emitting signal ".to_owned();
                line.append(self.signal.as_str());
                line.append(": ");
                line.append(error.as_str());
                Some(line)
            },
        }
    }
}

/// Starts dispatching `name`: every handler connected under it, in
/// connection order. A name nobody connected to gives an empty emission.
pub fn emit_signal_inner(signals: &SignalTable, name: &str) -> (e: Emission)
    ensures
        e@ == emission_of(signals@, name@),
{
    let key = name.to_owned();
    let ghost conns = signals@;
    let mut handlers: Vec<HandlerId> = Vec::new();
    let mut i: usize = 0;
    while i < signals.connections.len()
        invariant
            i <= signals.connections.len(),
            conns == signals@,
            key@ == name@,
            handlers@ == handlers_for(conns.take(i as int), name@),
        decreases signals.connections.len() - i,
    {
        let c = &signals.connections[i];
        assert(conns.take(i + 1).drop_last() =~= conns.take(i as int));
        assert(conns.take(i + 1).last() == connection_view(signals.connections@[i as int]));
        if c.signal == key {
            handlers.push(c.handler);
        }
        i = i + 1;
    }
    assert(conns.take(i as int) =~= conns);
    let e = Emission { signal: key, handlers, next: 0 };
    assert(e@.remaining =~= handlers@);
    e
}

/// Dispatches a signal named by the script; see `emit_signal_inner`.
pub fn emit_signal(signals: &SignalTable, name: String) -> (e: Emission)
    ensures
        e@ == emission_of(signals@, name@),
{
    emit_signal_inner(signals, name.as_str())
}

/// Drives an emission to its end, reporting `outcomes[k]` for the k-th handler
/// run: the handlers run, in order, and the log lines written.
pub open spec fn drive(e: EmissionView, outcomes: Seq<Result<(), Seq<char>>>) -> (Seq<HandlerId>, Seq<Seq<char>>)
    decreases outcomes.len(),
{
    let (h, rest) = next_step(e);
    if outcomes.len() == 0 || h is None {
        (Seq::empty(), Seq::empty())
    } else {
        let (ran, lines) = drive(rest, outcomes.drop_first());
        let line = report_line(rest.signal, outcomes[0]);
        (
            seq![h->0] + ran,
            if line is Some { seq![line->0] + lines } else { lines },
        )
    }
}

/// The log lines for the failed outcomes, in order.
pub open spec fn failure_lines(signal: Seq<char>, outcomes: Seq<Result<(), Seq<char>>>) -> Seq<Seq<char>>
    decreases outcomes.len(),
{
    if outcomes.len() == 0 {
        Seq::empty()
    } else {
        let rest = failure_lines(signal, outcomes.drop_first());
        match outcomes[0] {
            Ok(()) => rest,
            Err(error) => seq![failure_line(signal, error)] + rest,
        }
    }
}

/// Two handlers connected to one name, then an emission of that name: both
/// run exactly once, after any handlers connected earlier, first `h1`, then
/// `h2`.
pub proof fn lemma_connected_handlers_run_in_order(
    conns: Seq<(Seq<char>, HandlerId)>,
    name: Seq<char>,
    h1: HandlerId,
    h2: HandlerId,
)
    ensures
        emission_of(conns.push((name, h1)).push((name, h2)), name).remaining
            == handlers_for(conns, name) + seq![h1, h2],
        handlers_for(conns, name).len() == 0 ==> emission_of(
            conns.push((name, h1)).push((name, h2)),
            name,
        ).remaining == seq![h1, h2],
{
    let once = conns.push((name, h1));
    let twice = once.push((name, h2));
    assert(once.drop_last() =~= conns);
    assert(twice.drop_last() =~= once);
    assert(handlers_for(once, name) == handlers_for(conns, name).push(h1));
    assert(handlers_for(twice, name) == handlers_for(once, name).push(h2));
    assert(handlers_for(conns, name) + seq![h1, h2] =~= handlers_for(conns, name).push(h1).push(h2));
    assert(handlers_for(conns, name).len() == 0 ==> handlers_for(conns, name) + seq![h1, h2] =~= seq![h1, h2]);
}

/// Emitting a signal that has no handlers runs nothing and writes no log line.
pub proof fn lemma_emission_without_handlers(
    conns: Seq<(Seq<char>, HandlerId)>,
    name: Seq<char>,
    outcomes: Seq<Result<(), Seq<char>>>,
)
    requires
        handlers_for(conns, name).len() == 0,
    ensures
        next_step(emission_of(conns, name)).0 is None,
        drive(emission_of(conns, name), outcomes) == (Seq::<HandlerId>::empty(), Seq::<Seq<char>>::empty()),
{
}

/// A failing handler does not stop the emission: reporting one outcome per
/// handler, whatever each is, runs every remaining handler once, in order,
/// and the failures show only as log lines.
pub proof fn lemma_failures_do_not_stop_emission(e: EmissionView, outcomes: Seq<Result<(), Seq<char>>>)
    requires
        outcomes.len() == e.remaining.len(),
    ensures
        drive(e, outcomes).0 == e.remaining,
        drive(e, outcomes).1 == failure_lines(e.signal, outcomes),
    decreases outcomes.len(),
{
    if outcomes.len() > 0 {
        let rest = next_step(e).1;
        lemma_failures_do_not_stop_emission(rest, outcomes.drop_first());
        assert(seq![e.remaining[0]] + rest.remaining =~= e.remaining);
    }
}

} // verus!
