//! The process bridge: merges the worker's two output channels into one
//! event sequence. Each channel is read on its own; whichever yields a line
//! first is forwarded first. Lines from the error channel carry a marker.
use vstd::prelude::*;
use vstd::string::*;

verus! {

/// Marker put in front of every line read from the worker's error channel.
pub const ERROR_MARKER: &'static str = "[ERROR] ";

/// The interpreter the worker runs under; no other location is tried.
pub const INTERPRETER_PATH: &'static str = "../python/venv/Scripts/python.exe";

/// The worker script handed to the interpreter.
pub const WORKER_SCRIPT: &'static str = "../python/ai_server.py";

/// Why a stream could not start.
#[derive(Clone, Copy, Debug, PartialEq, Eq, Structural)]
pub enum ConfigError {
    /// The interpreter is not at its known location.
    InterpreterMissing,
}

/// The command that starts the worker.
#[derive(Debug)]
pub struct WorkerCommand {
    pub program: String,
    pub script: String,
}

/// Resolves the worker command, given whether the interpreter is present at
/// its known location. A missing interpreter is a configuration error.
pub fn resolve_worker(interpreter_present: bool) -> (r: Result<WorkerCommand, ConfigError>)
    ensures
        r is Ok <==> interpreter_present,
        r is Ok ==> r->Ok_0.program@ == INTERPRETER_PATH@ && r->Ok_0.script@ == WORKER_SCRIPT@,
        r is Err ==> r->Err_0 == ConfigError::InterpreterMissing,
{
    if interpreter_present {
        Ok(
            WorkerCommand {
                program: String::from_str(INTERPRETER_PATH),
                script: String::from_str(WORKER_SCRIPT),
            },
        )
    } else {
        Err(ConfigError::InterpreterMissing)
    }
}

/// One of the worker's two output channels.
#[derive(Clone, Copy, Debug, PartialEq, Eq, Structural)]
pub enum Channel {
    Stdout,
    Stderr,
}

/// What a channel reader hands to the bridge: a line, or the end of the
/// channel (end of file, or a read error, which ends that channel only).
#[derive(Debug)]
pub enum StreamEvent {
    Line(Channel, String),
    Closed(Channel),
}

/// The text sent to the subscriber for a line read on `ch`.
pub open spec fn tagged(ch: Channel, line: Seq<char>) -> Seq<char> {
    match ch {
        Channel::Stdout => line,
        Channel::Stderr => ERROR_MARKER@ + line,
    }
}

/// The text part of a forwarded item.
pub open spec fn sent_text(item: (Channel, Seq<char>)) -> Seq<char> {
    item.1
}

/// State of one streaming session: which channels are still being read.
#[derive(Clone, Copy, Debug, PartialEq, Eq, Structural)]
pub struct Merger {
    pub out_open: bool,
    pub err_open: bool,
}

impl Merger {
    pub open spec fn is_open(self, ch: Channel) -> bool {
        match ch {
            Channel::Stdout => self.out_open,
            Channel::Stderr => self.err_open,
        }
    }

    pub open spec fn completed(self) -> bool {
        !self.out_open && !self.err_open
    }

    /// One transition: the next state, and what is forwarded (a channel and
    /// the text sent), if anything.
    pub open spec fn step(self, ev: StreamEvent) -> (Merger, Option<(Channel, Seq<char>)>) {
        match ev {
            StreamEvent::Line(ch, line) => {
                if self.is_open(ch) {
                    (self, Some((ch, tagged(ch, line@))))
                } else {
                    (self, None)
                }
            },
            StreamEvent::Closed(Channel::Stdout) => (Merger { out_open: false, ..self }, None),
            StreamEvent::Closed(Channel::Stderr) => (Merger { err_open: false, ..self }, None),
        }
    }

    /// A session that has just started streaming: both channels open.
    pub fn new() -> (r: Merger)
        ensures
            r.out_open,
            r.err_open,
    {
        Merger { out_open: true, err_open: true }
    }

    /// The session is over once both channels are exhausted.
    pub fn is_completed(&self) -> (r: bool)
        ensures
            r == self.completed(),
    {
        !self.out_open && !self.err_open
    }

    /// Takes one event from a channel reader and returns the text to
    /// forward, if any.
    pub fn on_event(&mut self, ev: StreamEvent) -> (r: Option<String>)
        ensures
            *final(self) == old(self).step(ev).0,
            r is Some <==> old(self).step(ev).1 is Some,
            r is Some ==> r->0@ == sent_text(old(self).step(ev).1->0),
    {
        match ev {
            StreamEvent::Line(ch, line) => {
                match ch {
                    Channel::Stdout => {
                        if self.out_open {
                            Some(line)
                        } else {
                            None
                        }
                    },
                    Channel::Stderr => {
                        if self.err_open {
                            Some(String::from_str(ERROR_MARKER).concat(line.as_str()))
                        } else {
                            None
                        }
                    },
                }
            },
            StreamEvent::Closed(ch) => {
                match ch {
                    Channel::Stdout => self.out_open = false,
                    Channel::Stderr => self.err_open = false,
                }
                None
            },
        }
    }
}

/// The state after a whole sequence of events, from a fresh session.
pub open spec fn state_after(evs: Seq<StreamEvent>) -> Merger
    decreases evs.len(),
{
    if evs.len() == 0 {
        Merger { out_open: true, err_open: true }
    } else {
        state_after(evs.drop_last()).step(evs.last()).0
    }
}

/// Everything forwarded while the events are handled in order.
pub open spec fn forwarded(evs: Seq<StreamEvent>) -> Seq<(Channel, Seq<char>)>
    decreases evs.len(),
{
    if evs.len() == 0 {
        seq![]
    } else {
        let prev = forwarded(evs.drop_last());
        match state_after(evs.drop_last()).step(evs.last()).1 {
            Some(item) => prev.push(item),
            None => prev,
        }
    }
}

/// Whether the events hold the end of channel `ch`.
pub open spec fn closed_in(evs: Seq<StreamEvent>, ch: Channel) -> bool
    decreases evs.len(),
{
    if evs.len() == 0 {
        false
    } else {
        closed_in(evs.drop_last(), ch) || evs.last() == StreamEvent::Closed(ch)
    }
}

/// The lines that the worker emitted on `ch`, in emission order: every line
/// of that channel before its end.
pub open spec fn emitted(evs: Seq<StreamEvent>, ch: Channel) -> Seq<Seq<char>>
    decreases evs.len(),
{
    if evs.len() == 0 {
        seq![]
    } else {
        let prev = emitted(evs.drop_last(), ch);
        match evs.last() {
            StreamEvent::Line(c, line) => {
                if c == ch && !closed_in(evs.drop_last(), ch) {
                    prev.push(line@)
                } else {
                    prev
                }
            },
            StreamEvent::Closed(_) => prev,
        }
    }
}

/// The texts among `items` that came from channel `ch`, in order.
pub open spec fn on_channel(items: Seq<(Channel, Seq<char>)>, ch: Channel) -> Seq<Seq<char>>
    decreases items.len(),
{
    if items.len() == 0 {
        seq![]
    } else {
        let prev = on_channel(items.drop_last(), ch);
        if items.last().0 == ch {
            prev.push(items.last().1)
        } else {
            prev
        }
    }
}

proof fn lemma_open_iff_not_closed(evs: Seq<StreamEvent>, ch: Channel)
    ensures
        state_after(evs).is_open(ch) == !closed_in(evs, ch),
    decreases evs.len(),
{
    if evs.len() > 0 {
        lemma_open_iff_not_closed(evs.drop_last(), ch);
    }
}

/// Every line emitted on a channel before its end is forwarded, lines of one
/// channel keep their emission order (error lines carry the marker), nothing
/// else is forwarded, and the session completes exactly when both channels
/// have ended. No relative order between the two channels is promised.
pub proof fn lemma_stream_independence(evs: Seq<StreamEvent>)
    ensures
        on_channel(forwarded(evs), Channel::Stdout) == emitted(evs, Channel::Stdout),
        on_channel(forwarded(evs), Channel::Stderr) == emitted(evs, Channel::Stderr).map_values(
            |l: Seq<char>| tagged(Channel::Stderr, l),
        ),
        forwarded(evs).len() == emitted(evs, Channel::Stdout).len() + emitted(
            evs,
            Channel::Stderr,
        ).len(),
        state_after(evs).completed() <==> closed_in(evs, Channel::Stdout) && closed_in(
            evs,
            Channel::Stderr,
        ),
    decreases evs.len(),
{
    lemma_open_iff_not_closed(evs, Channel::Stdout);
    lemma_open_iff_not_closed(evs, Channel::Stderr);
    if evs.len() > 0 {
        let prefix = evs.drop_last();
        lemma_stream_independence(prefix);
        lemma_open_iff_not_closed(prefix, Channel::Stdout);
        lemma_open_iff_not_closed(prefix, Channel::Stderr);
        let f = |l: Seq<char>| tagged(Channel::Stderr, l);
        match evs.last() {
            StreamEvent::Line(c, line) => {
                if state_after(prefix).is_open(c) {
                    let item = (c, tagged(c, line@));
                    assert(forwarded(evs).drop_last() == forwarded(prefix));
                    if c == Channel::Stderr {
                        assert(emitted(evs, Channel::Stderr) == emitted(prefix, Channel::Stderr).push(
                            line@,
                        ));
                        assert(emitted(prefix, Channel::Stderr).push(line@).map_values(f)
                            =~= emitted(prefix, Channel::Stderr).map_values(f).push(f(line@)));
                    }
                }
            },
            StreamEvent::Closed(_) => {},
        }
    }
}

/// The texts of forwarded items, in order.
pub open spec fn texts(items: Seq<(Channel, Seq<char>)>) -> Seq<Seq<char>> {
    items.map_values(|it: (Channel, Seq<char>)| it.1)
}

/// Taken together, what is forwarded is exactly every emitted line, each
/// once: the standard-output lines as they are and the error lines with
/// their marker.
pub proof fn lemma_all_lines_delivered(evs: Seq<StreamEvent>)
    ensures
        texts(forwarded(evs)).to_multiset() == emitted(evs, Channel::Stdout).to_multiset().add(
            emitted(evs, Channel::Stderr).map_values(|l: Seq<char>| tagged(Channel::Stderr, l)).to_multiset(),
        ),
    decreases evs.len(),
{
    broadcast use vstd::seq_lib::group_to_multiset_ensures;
    broadcast use vstd::multiset::group_multiset_axioms;

    let f = |l: Seq<char>| tagged(Channel::Stderr, l);
    if evs.len() == 0 {
        assert(texts(forwarded(evs)) =~= Seq::<Seq<char>>::empty());
        assert(emitted(evs, Channel::Stderr).map_values(f) =~= Seq::<Seq<char>>::empty());
        assert(texts(forwarded(evs)).to_multiset() =~= emitted(evs, Channel::Stdout).to_multiset().add(
            emitted(evs, Channel::Stderr).map_values(f).to_multiset(),
        ));
    } else {
        let prefix = evs.drop_last();
        lemma_all_lines_delivered(prefix);
        lemma_open_iff_not_closed(prefix, Channel::Stdout);
        lemma_open_iff_not_closed(prefix, Channel::Stderr);
        let o = emitted(prefix, Channel::Stdout);
        let e = emitted(prefix, Channel::Stderr);
        let t = texts(forwarded(prefix));
        match evs.last() {
            StreamEvent::Line(c, line) => {
                if state_after(prefix).is_open(c) {
                    let x = tagged(c, line@);
                    assert(texts(forwarded(evs)) =~= t.push(x));
                    assert(t.push(x).to_multiset() == t.to_multiset().insert(x));
                    if c == Channel::Stdout {
                        assert(emitted(evs, Channel::Stdout) == o.push(line@));
                        assert(o.push(line@).to_multiset() == o.to_multiset().insert(line@));
                        assert(o.to_multiset().insert(x).add(e.map_values(f).to_multiset())
                            =~= o.to_multiset().add(e.map_values(f).to_multiset()).insert(x));
                    } else {
                        assert(emitted(evs, Channel::Stderr) == e.push(line@));
                        assert(e.push(line@).map_values(f) =~= e.map_values(f).push(x));
                        assert(e.map_values(f).push(x).to_multiset() == e.map_values(
                            f,
                        ).to_multiset().insert(x));
                        assert(o.to_multiset().add(e.map_values(f).to_multiset().insert(x))
                            =~= o.to_multiset().add(e.map_values(f).to_multiset()).insert(x));
                    }
                }
            },
            StreamEvent::Closed(_) => {},
        }
    }
}

fn copy_event(ev: &StreamEvent) -> (r: StreamEvent)
    ensures
        r == *ev,
{
    match ev {
        StreamEvent::Line(ch, line) => StreamEvent::Line(*ch, line.clone()),
        StreamEvent::Closed(ch) => StreamEvent::Closed(*ch),
    }
}

/// Handles a whole sequence of events in order and returns the texts
/// forwarded, in the order they were sent.
pub fn merge_events(events: &Vec<StreamEvent>) -> (r: Vec<String>)
    ensures
        r@.len() == forwarded(events@).len(),
        forall|i: int| 0 <= i < r@.len() ==> #[trigger] r@[i]@ == forwarded(events@)[i].1,
{
    let mut m = Merger::new();
    let mut out: Vec<String> = Vec::new();
    let mut i: usize = 0;
    while i < events.len()
        invariant
            i <= events@.len(),
            m == state_after(events@.subrange(0, i as int)),
            out@.len() == forwarded(events@.subrange(0, i as int)).len(),
            forall|j: int|
                0 <= j < out@.len() ==> #[trigger] out@[j]@ == forwarded(
                    events@.subrange(0, i as int),
                )[j].1,
        decreases events@.len() - i,
    {
        let ghost pre = events@.subrange(0, i as int);
        let ghost cur = events@.subrange(0, i as int + 1);
        assert(cur.drop_last() == pre);
        assert(cur.last() == events@[i as int]);
        let r = m.on_event(copy_event(&events[i]));
        match r {
            Some(text) => out.push(text),
            None => {},
        }
        i = i + 1;
    }
    assert(events@.subrange(0, events@.len() as int) == events@);
    out
}

} // verus!
