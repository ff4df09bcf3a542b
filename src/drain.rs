use vstd::prelude::*;

use crate::text::{code_text, decode_lossy, exit_code_text, lossy_text, line_body, tag, tagged_line, trim_line_end, Source};

verus! {

/// One event from the child's I/O plumbing.
pub enum OutputEvent {
    /// A line the child wrote to its standard output.
    Stdout(Vec<u8>),
    /// A line the child wrote to its standard error.
    Stderr(Vec<u8>),
    /// The child ended, with its exit code when it had one.
    Terminated(Option<i32>),
    /// Anything else the plumbing reports; it is not logged.
    Other,
}

/// An [`OutputEvent`] with its bytes as a sequence.
pub enum EventView {
    Stdout(Seq<u8>),
    Stderr(Seq<u8>),
    Terminated(Option<i32>),
    Other,
}

impl View for OutputEvent {
    type V = EventView;

    open spec fn view(&self) -> EventView {
        match self {
            OutputEvent::Stdout(b) => EventView::Stdout(b@),
            OutputEvent::Stderr(b) => EventView::Stderr(b@),
            OutputEvent::Terminated(c) => EventView::Terminated(*c),
            OutputEvent::Other => EventView::Other,
        }
    }
}

/// A line for the diagnostic sink. Lines from [`Source::Stderr`] go to the
/// host's standard error, the others to its standard output.
pub struct LogEntry {
    pub source: Source,
    pub text: String,
}

/// A [`LogEntry`] with its text as a sequence.
pub struct EntryView {
    pub source: Source,
    pub text: Seq<char>,
}

impl View for LogEntry {
    type V = EntryView;

    open spec fn view(&self) -> EntryView {
        EntryView { source: self.source, text: self.text@ }
    }
}

/// The view of an optional entry.
pub open spec fn entry_view(r: Option<LogEntry>) -> Option<EntryView> {
    match r {
        Some(e) => Some(e@),
        None => None,
    }
}

/// The logged form of a line of output from stream `s`: the tag, then the
/// line without its terminator, decoded permissively.
pub open spec fn output_line(s: Source, b: Seq<u8>) -> Seq<char> {
    tag(s) + lossy_text(line_body(b))
}

/// The logged form of the child's termination.
pub open spec fn terminated_line(code: Option<i32>) -> Seq<char> {
    tag(Source::Child) + "terminated with code: "@ + code_text(code)
}

/// What one event is logged as, if anything.
pub open spec fn entry_of(e: EventView) -> Option<EntryView> {
    match e {
        EventView::Stdout(b) => Some(
            EntryView { source: Source::Stdout, text: output_line(Source::Stdout, b) },
        ),
        EventView::Stderr(b) => Some(
            EntryView { source: Source::Stderr, text: output_line(Source::Stderr, b) },
        ),
        EventView::Terminated(c) => Some(
            EntryView { source: Source::Child, text: terminated_line(c) },
        ),
        EventView::Other => None,
    }
}

/// The contents of an option as a sequence of at most one item.
pub open spec fn opt_seq<A>(o: Option<A>) -> Seq<A> {
    match o {
        Some(a) => seq![a],
        None => Seq::empty(),
    }
}

/// Whether the child's termination is among the events.
pub open spec fn has_terminated(evs: Seq<EventView>) -> bool
    decreases evs.len(),
{
    if evs.len() == 0 {
        false
    } else {
        has_terminated(evs.drop_last()) || evs.last() is Terminated
    }
}

/// Everything logged for a stream of events: each event up to and including
/// the termination, in order; nothing after it.
pub open spec fn log_of(evs: Seq<EventView>) -> Seq<EntryView>
    decreases evs.len(),
{
    if evs.len() == 0 {
        Seq::empty()
    } else if has_terminated(evs.drop_last()) {
        log_of(evs.drop_last())
    } else {
        log_of(evs.drop_last()) + opt_seq(entry_of(evs.last()))
    }
}

/// The log entry for one event.
pub fn entry_for(ev: &OutputEvent) -> (r: Option<LogEntry>)
    ensures
        entry_view(r) == entry_of(ev@),
{
    match ev {
        OutputEvent::Stdout(b) => {
            let body = trim_line_end(b);
            let t = decode_lossy(body.as_slice());
            Some(LogEntry { source: Source::Stdout, text: tagged_line(Source::Stdout, t.as_str()) })
        },
        OutputEvent::Stderr(b) => {
            let body = trim_line_end(b);
            let t = decode_lossy(body.as_slice());
            Some(LogEntry { source: Source::Stderr, text: tagged_line(Source::Stderr, t.as_str()) })
        },
        OutputEvent::Terminated(c) => {
            let mut t = String::from_str("terminated with code: ");
            let code = exit_code_text(*c);
            t.append(code.as_str());
            let line = tagged_line(Source::Child, t.as_str());
            assert(line@ =~= terminated_line(*c));
            Some(LogEntry { source: Source::Child, text: line })
        },
        OutputEvent::Other => None,
    }
}

/// The consumer of the child's event stream. It logs each event until the
/// termination, then is finished and logs nothing more.
pub struct Drain {
    finished: bool,
    fed: Ghost<Seq<EventView>>,
}

impl View for Drain {
    type V = Seq<EventView>;

    /// The events fed so far, in order.
    closed spec fn view(&self) -> Seq<EventView> {
        self.fed@
    }
}

impl Drain {
    #[verifier::type_invariant]
    spec fn inv(self) -> bool {
        self.finished == has_terminated(self.fed@)
    }

    /// A drain that has seen no event.
    pub fn new() -> (r: Self)
        ensures
            r@ == Seq::<EventView>::empty(),
    {
        Drain { finished: false, fed: Ghost(Seq::empty()) }
    }

    /// Whether the termination has been seen: the task then ends.
    pub fn is_finished(&self) -> (r: bool)
        ensures
            r == has_terminated(self@),
    {
        proof {
            use_type_invariant(self);
        }
        self.finished
    }

    /// Takes the next event and returns the line to log for it, if any.
    pub fn feed(&mut self, ev: &OutputEvent) -> (r: Option<LogEntry>)
        ensures
            final(self)@ == old(self)@.push(ev@),
            entry_view(r) == (if has_terminated(old(self)@) {
                None
            } else {
                entry_of(ev@)
            }),
            log_of(final(self)@) == log_of(old(self)@) + opt_seq(entry_view(r)),
    {
        proof {
            use_type_invariant(&*self);
        }
        let ghost before = self.fed@;
        let ghost after = before.push(ev@);
        assert(after.drop_last() =~= before);
        let r = if self.finished {
            None
        } else {
            entry_for(ev)
        };
        let done = self.finished || matches!(ev, OutputEvent::Terminated(_));
        *self = Drain { finished: done, fed: Ghost(after) };
        assert(log_of(after) =~= log_of(before) + opt_seq(entry_view(r)));
        r
    }
}

/// The line that event `e` carries from stream `s`, if any.
pub open spec fn payload_of(e: EventView, s: Source) -> Option<Seq<u8>> {
    match e {
        EventView::Stdout(b) => if s == Source::Stdout { Some(b) } else { None },
        EventView::Stderr(b) => if s == Source::Stderr { Some(b) } else { None },
        _ => None,
    }
}

/// The lines that stream `s` delivered before the termination, in order.
pub open spec fn stream_payloads(evs: Seq<EventView>, s: Source) -> Seq<Seq<u8>>
    decreases evs.len(),
{
    if evs.len() == 0 {
        Seq::empty()
    } else if has_terminated(evs.drop_last()) {
        stream_payloads(evs.drop_last(), s)
    } else {
        stream_payloads(evs.drop_last(), s) + opt_seq(payload_of(evs.last(), s))
    }
}

/// The texts of the log entries from source `s`, in order.
pub open spec fn logged_texts(log: Seq<EntryView>, s: Source) -> Seq<Seq<char>>
    decreases log.len(),
{
    if log.len() == 0 {
        Seq::empty()
    } else {
        logged_texts(log.drop_last(), s) + if log.last().source == s {
            seq![log.last().text]
        } else {
            Seq::empty()
        }
    }
}

/// Every line that the child wrote to one of its output streams before it
/// terminated is logged, once, as that stream's line, and the lines of each
/// stream keep their order. How the two streams interleave is left open.
pub proof fn lemma_drain_complete(evs: Seq<EventView>, s: Source)
    requires
        s != Source::Child,
    ensures
        logged_texts(log_of(evs), s) == stream_payloads(evs, s).map_values(
            |b: Seq<u8>| output_line(s, b),
        ),
    decreases evs.len(),
{
    let f = |b: Seq<u8>| output_line(s, b);
    if evs.len() == 0 {
        assert(stream_payloads(evs, s).map_values(f) =~= Seq::empty());
    } else {
        let p = evs.drop_last();
        lemma_drain_complete(p, s);
        if !has_terminated(p) {
            let e = evs.last();
            let a = log_of(p);
            let q = stream_payloads(p, s);
            match entry_of(e) {
                Some(x) => {
                    assert(log_of(evs) =~= a.push(x));
                    assert(a.push(x).drop_last() =~= a);
                    match payload_of(e, s) {
                        Some(b) => {
                            assert(stream_payloads(evs, s) =~= q.push(b));
                            assert(q.push(b).map_values(f) =~= q.map_values(f).push(f(b)));
                        },
                        None => {
                            assert(stream_payloads(evs, s) =~= q);
                        },
                    }
                    assert(logged_texts(a.push(x), s) =~= logged_texts(log_of(evs), s));
                },
                None => {
                    assert(log_of(evs) =~= a);
                    assert(stream_payloads(evs, s) =~= q);
                },
            }
        }
    }
}

} // verus!
