//! What holds of the bookkeeping over any sequence of scans that begin and end.

use vstd::prelude::*;

use crate::scan::{
    after, begin_line, elapsed_micros, end_line, logged, Instrumentation, ScanEvent, Usage,
};

verus! {

/// The bookkeeping after a sequence of events.
pub open spec fn after_all(s: Instrumentation, events: Seq<ScanEvent>) -> Instrumentation
    decreases events.len(),
{
    if events.len() == 0 {
        s
    } else {
        after(after_all(s, events.drop_last()), events.last())
    }
}

/// The lines that a sequence of events logs, in order.
pub open spec fn log_of(s: Instrumentation, pid: int, events: Seq<ScanEvent>) -> Seq<Seq<char>>
    decreases events.len(),
{
    if events.len() == 0 {
        Seq::empty()
    } else {
        let before = log_of(s, pid, events.drop_last());
        match logged(after_all(s, events.drop_last()), pid, events.last()) {
            Some(line) => before.push(line),
            None => before,
        }
    }
}

/// How many scans the events leave open, on top of those that were.
pub open spec fn opened(events: Seq<ScanEvent>) -> int
    decreases events.len(),
{
    if events.len() == 0 {
        0
    } else {
        opened(events.drop_last()) + match events.last() {
            ScanEvent::Begin { .. } => 1int,
            ScanEvent::End { .. } => -1int,
            _ => 0int,
        }
    }
}

/// How many tuples the events ask for.
pub open spec fn tuples(events: Seq<ScanEvent>) -> int
    decreases events.len(),
{
    if events.len() == 0 {
        0
    } else {
        tuples(events.drop_last()) + if events.last() is Exec {
            1int
        } else {
            0int
        }
    }
}

/// With `depth` scans open at first, at least `least` are open after each of the events, and no
/// more than can be counted.
pub open spec fn keeps_depth(depth: int, least: int, events: Seq<ScanEvent>) -> bool {
    forall|n: int|
        0 <= n <= events.len() ==> least <= depth + opened(#[trigger] events.take(n)) <= u32::MAX
}

/// No scan begins or ends.
pub open spec fn is_idle(events: Seq<ScanEvent>) -> bool {
    forall|i: int| 0 <= i < events.len() ==> #[trigger] events[i] is Exec || events[i] is Other
}

/// A stretch of events over which a scan is open, with those before it over which none is.
pub struct Stretch {
    pub idle: Seq<ScanEvent>,
    /// The scan that begins the stretch, and the readings then.
    pub first: Seq<char>,
    pub mark: u128,
    pub before: Usage,
    /// What happens up to its end.
    pub inside: Seq<ScanEvent>,
    /// The scan that ends the stretch, and the readings then.
    pub last: Seq<char>,
    pub now: u128,
    pub after: Usage,
}

impl Stretch {
    /// A scan is open all along, and none before and after.
    pub open spec fn wf(self) -> bool {
        &&& is_idle(self.idle)
        &&& keeps_depth(1, 1, self.inside)
        &&& opened(self.inside) == 0
    }

    /// The beginning.
    pub open spec fn begin(self) -> ScanEvent {
        ScanEvent::Begin { name: self.first, now: self.mark, usage: self.before }
    }

    /// The end.
    pub open spec fn end(self) -> ScanEvent {
        ScanEvent::End { name: self.last, now: self.now, usage: self.after }
    }

    /// All its events.
    pub open spec fn events(self) -> Seq<ScanEvent> {
        self.idle + (seq![self.begin()] + self.inside + seq![self.end()])
    }

    /// The two lines that it is to log: one for the scan that begins it, and one for the scan that
    /// ends it, with the tuples that any scan has asked for meanwhile.
    pub open spec fn lines(self, pid: int) -> Seq<Seq<char>> {
        seq![
            begin_line(self.first, pid, self.before),
            end_line(
                self.last,
                pid,
                elapsed_micros(self.mark, self.now),
                tuples(self.inside),
                self.before,
                self.after,
            ),
        ]
    }
}

/// The events of stretches one behind the other.
pub open spec fn all_events(stretches: Seq<Stretch>) -> Seq<ScanEvent>
    decreases stretches.len(),
{
    if stretches.len() == 0 {
        Seq::empty()
    } else {
        all_events(stretches.drop_last()) + stretches.last().events()
    }
}

/// The lines of stretches one behind the other.
pub open spec fn all_lines(pid: int, stretches: Seq<Stretch>) -> Seq<Seq<char>>
    decreases stretches.len(),
{
    if stretches.len() == 0 {
        Seq::empty()
    } else {
        all_lines(pid, stretches.drop_last()) + stretches.last().lines(pid)
    }
}

/// Each is a stretch.
pub open spec fn all_wf(stretches: Seq<Stretch>) -> bool {
    forall|i: int| 0 <= i < stretches.len() ==> (#[trigger] stretches[i]).wf()
}

/// The number of tuples is no less than 0.
proof fn lemma_tuples(events: Seq<ScanEvent>)
    ensures
        tuples(events) >= 0,
    decreases events.len(),
{
    if events.len() > 0 {
        lemma_tuples(events.drop_last());
    }
}

/// Counts add up over sequences one behind the other.
proof fn lemma_counts_add(a: Seq<ScanEvent>, b: Seq<ScanEvent>)
    ensures
        opened(a + b) == opened(a) + opened(b),
        tuples(a + b) == tuples(a) + tuples(b),
    decreases b.len(),
{
    if b.len() == 0 {
        assert(a + b =~= a);
    } else {
        assert((a + b).drop_last() =~= a + b.drop_last());
        lemma_counts_add(a, b.drop_last());
    }
}

/// A sequence of events starts from what those before it have left.
proof fn lemma_runs_on(s: Instrumentation, pid: int, a: Seq<ScanEvent>, b: Seq<ScanEvent>)
    ensures
        after_all(s, a + b) == after_all(after_all(s, a), b),
        log_of(s, pid, a + b) == log_of(s, pid, a) + log_of(after_all(s, a), pid, b),
    decreases b.len(),
{
    if b.len() == 0 {
        assert(a + b =~= a);
    } else {
        assert((a + b).drop_last() =~= a + b.drop_last());
        lemma_runs_on(s, pid, a, b.drop_last());
    }
}

/// A single event is a sequence of one.
proof fn lemma_single(s: Instrumentation, pid: int, event: ScanEvent)
    ensures
        after_all(s, seq![event]) == after(s, event),
        log_of(s, pid, seq![event]) == match logged(s, pid, event) {
            Some(line) => seq![line],
            None => Seq::<Seq<char>>::empty(),
        },
        opened(seq![event]) == match event {
            ScanEvent::Begin { .. } => 1int,
            ScanEvent::End { .. } => -1int,
            _ => 0int,
        },
        tuples(seq![event]) == if event is Exec {
            1int
        } else {
            0int
        },
{
    let one = seq![event];
    assert(one.drop_last() =~= Seq::<ScanEvent>::empty());
    assert(after_all(s, one.drop_last()) == s);
    assert(log_of(s, pid, one.drop_last()) =~= Seq::<Seq<char>>::empty());
    assert(opened(one.drop_last()) == 0);
    assert(tuples(one.drop_last()) == 0);
}

/// Over idle events nothing is logged, and only tuples are counted.
proof fn lemma_idle(s: Instrumentation, pid: int, events: Seq<ScanEvent>)
    requires
        is_idle(events),
        s.exec_calls + tuples(events) <= u64::MAX,
    ensures
        opened(events) == 0,
        log_of(s, pid, events) == Seq::<Seq<char>>::empty(),
        after_all(s, events).depth == s.depth,
        after_all(s, events).begin == s.begin,
        after_all(s, events).exec_calls == s.exec_calls + tuples(events),
    decreases events.len(),
{
    if events.len() > 0 {
        let before = events.drop_last();
        assert(is_idle(before));
        assert(events.last() == events[events.len() - 1]);
        lemma_tuples(before);
        lemma_idle(s, pid, before);
    }
}

/// While a scan is open, those that begin and end inside it are counted and leave its note alone:
/// nothing is logged, and each tuple that any of them asks for counts for it.
pub proof fn law_nested_scans_belong_to_the_outermost(
    s: Instrumentation,
    pid: int,
    events: Seq<ScanEvent>,
)
    requires
        keeps_depth(s.depth as int, 1, events),
        s.exec_calls + tuples(events) <= u64::MAX,
    ensures
        after_all(s, events).depth == s.depth + opened(events),
        after_all(s, events).exec_calls == s.exec_calls + tuples(events),
        after_all(s, events).begin == s.begin,
        log_of(s, pid, events) == Seq::<Seq<char>>::empty(),
    decreases events.len(),
{
    assert(events.take(events.len() as int) =~= events);
    assert(1 <= s.depth + opened(events) <= u32::MAX);
    if events.len() > 0 {
        let before = events.drop_last();
        assert forall|n: int| 0 <= n <= before.len() implies 1 <= s.depth + opened(
            #[trigger] before.take(n),
        ) <= u32::MAX by {
            assert(before.take(n) =~= events.take(n));
        }
        lemma_tuples(before);
        assert(before.take(before.len() as int) =~= before);
        law_nested_scans_belong_to_the_outermost(s, pid, before);
    }
}

/// A stretch over which a scan is open is logged with one line when it begins, under the name of
/// the scan that begins it, and with one when it ends, under the name of the scan that ends it,
/// with what was noted at its beginning and the number of tuples that any scan has asked for
/// meanwhile. No scan is then open, and no note is left.
pub proof fn law_stretch_is_logged_once(s: Instrumentation, pid: int, stretch: Stretch)
    requires
        s.depth == 0,
        s.begin is None,
        stretch.wf(),
        s.exec_calls + tuples(stretch.events()) <= u64::MAX,
    ensures
        log_of(s, pid, stretch.events()) == stretch.lines(pid),
        after_all(s, stretch.events()).depth == 0,
        after_all(s, stretch.events()).begin is None,
        after_all(s, stretch.events()).exec_calls <= s.exec_calls + tuples(stretch.events()),
        opened(stretch.events()) == 0,
{
    let idle = stretch.idle;
    let inside = stretch.inside;
    let begin = seq![stretch.begin()];
    let end = seq![stretch.end()];
    lemma_counts_add(idle, begin + inside + end);
    lemma_counts_add(begin + inside, end);
    lemma_counts_add(begin, inside);
    lemma_single(s, pid, stretch.begin());
    lemma_single(s, pid, stretch.end());
    lemma_tuples(idle);
    lemma_tuples(inside);
    lemma_idle(s, pid, idle);
    let s1 = after_all(s, idle);
    lemma_runs_on(s, pid, idle, begin + inside + end);
    lemma_runs_on(s1, pid, begin + inside, end);
    lemma_runs_on(s1, pid, begin, inside);
    lemma_single(s1, pid, stretch.begin());
    let s2 = after(s1, stretch.begin());
    law_nested_scans_belong_to_the_outermost(s2, pid, inside);
    let s3 = after_all(s2, inside);
    lemma_single(s3, pid, stretch.end());
    assert(log_of(s, pid, stretch.events()) =~= stretch.lines(pid));
}

/// Stretches one behind the other log their lines one behind the other.
proof fn lemma_stretches_logged(s: Instrumentation, pid: int, stretches: Seq<Stretch>)
    requires
        s.depth == 0,
        s.begin is None,
        all_wf(stretches),
        s.exec_calls + tuples(all_events(stretches)) <= u64::MAX,
    ensures
        log_of(s, pid, all_events(stretches)) == all_lines(pid, stretches),
        after_all(s, all_events(stretches)).depth == 0,
        after_all(s, all_events(stretches)).begin is None,
        after_all(s, all_events(stretches)).exec_calls <= s.exec_calls + tuples(
            all_events(stretches),
        ),
    decreases stretches.len(),
{
    if stretches.len() > 0 {
        let before = stretches.drop_last();
        let stretch = stretches.last();
        assert(stretch == stretches[stretches.len() - 1]);
        assert(all_wf(before));
        lemma_counts_add(all_events(before), stretch.events());
        lemma_tuples(stretch.events());
        lemma_stretches_logged(s, pid, before);
        lemma_runs_on(s, pid, all_events(before), stretch.events());
        law_stretch_is_logged_once(after_all(s, all_events(before)), pid, stretch);
    }
}

/// The last place up to `m` at which no scan is open.
proof fn lemma_last_closed(events: Seq<ScanEvent>, m: int) -> (n: int)
    requires
        0 <= m <= events.len(),
    ensures
        0 <= n <= m,
        opened(events.take(n)) == 0,
        forall|l: int| n < l <= m ==> opened(#[trigger] events.take(l)) != 0,
    decreases m,
{
    if opened(events.take(m)) == 0 || m == 0 {
        m
    } else {
        lemma_last_closed(events, m - 1)
    }
}

/// Events before an end that closes the last open scan begin, behind the last place at which none
/// is open, with a beginning, and from there a scan is open up to the end.
proof fn lemma_stretch_before_end(events: Seq<ScanEvent>, n: int)
    requires
        keeps_depth(0, 0, events),
        opened(events) == 0,
        events.len() > 0,
        events.last() is End,
        0 <= n < events.len(),
        opened(events.take(n)) == 0,
        forall|l: int| n < l < events.len() ==> opened(#[trigger] events.take(l)) != 0,
    ensures
        n + 1 < events.len(),
        events[n] is Begin,
        keeps_depth(1, 1, events.subrange(n + 1, events.len() - 1)),
        opened(events.subrange(n + 1, events.len() - 1)) == 0,
{
    let len = events.len() as int;
    let body = events.drop_last();
    let inside = events.subrange(n + 1, len - 1);
    let none = Instrumentation { depth: 0, exec_calls: 0, begin: None };
    assert(events.take(len - 1) =~= body);
    assert(opened(body) == 1);
    assert(events.take(n + 1) =~= events.take(n) + seq![events[n]]);
    lemma_counts_add(events.take(n), seq![events[n]]);
    lemma_single(none, 0, events[n]);
    assert(opened(events.take(n + 1)) > 0);
    assert forall|l: int| 0 <= l <= inside.len() implies 1 <= 1 + opened(#[trigger] inside.take(l))
        <= u32::MAX by {
        assert(events.take(n + 1 + l) =~= events.take(n + 1) + inside.take(l));
        lemma_counts_add(events.take(n + 1), inside.take(l));
    }
    assert(body =~= events.take(n + 1) + inside);
    lemma_counts_add(events.take(n + 1), inside);
}

/// A part of events that keep their depth keeps it too.
proof fn lemma_prefix_keeps_depth(events: Seq<ScanEvent>, n: int)
    requires
        keeps_depth(0, 0, events),
        0 <= n <= events.len(),
    ensures
        keeps_depth(0, 0, events.take(n)),
{
    let prefix = events.take(n);
    assert forall|l: int| 0 <= l <= prefix.len() implies 0 <= opened(#[trigger] prefix.take(l))
        <= u32::MAX by {
        assert(prefix.take(l) =~= events.take(l));
    }
}

/// Events after which no scan is left open make up stretches, with idle events behind them.
proof fn lemma_splits(events: Seq<ScanEvent>) -> (r: (Seq<Stretch>, Seq<ScanEvent>))
    requires
        keeps_depth(0, 0, events),
        opened(events) == 0,
    ensures
        all_wf(r.0),
        is_idle(r.1),
        events == all_events(r.0) + r.1,
    decreases events.len(),
{
    let none = Seq::<ScanEvent>::empty();
    let len = events.len() as int;
    if len == 0 {
        assert(events =~= all_events(Seq::empty()) + none);
        (Seq::empty(), none)
    } else if events.last() is End {
        let n = lemma_last_closed(events, len - 1);
        lemma_stretch_before_end(events, n);
        lemma_prefix_keeps_depth(events, n);
        let (stretches, idle) = lemma_splits(events.take(n));
        let stretch = Stretch {
            idle,
            first: events[n]->Begin_name,
            mark: events[n]->Begin_now,
            before: events[n]->Begin_usage,
            inside: events.subrange(n + 1, len - 1),
            last: events.last()->End_name,
            now: events.last()->End_now,
            after: events.last()->End_usage,
        };
        let all = stretches.push(stretch);
        assert(all.drop_last() =~= stretches);
        assert(events =~= events.take(n) + (seq![stretch.begin()] + stretch.inside + seq![
            stretch.end(),
        ]));
        assert(events =~= all_events(all) + none);
        (all, none)
    } else {
        let body = events.drop_last();
        assert(events.take(len - 1) =~= body);
        assert(0 <= opened(events.take(len - 1)));
        lemma_prefix_keeps_depth(events, len - 1);
        let (stretches, idle) = lemma_splits(body);
        let tail = idle.push(events.last());
        assert(events =~= body.push(events.last()));
        assert(events =~= all_events(stretches) + tail);
        (stretches, tail)
    }
}

/// The log tells of each stretch over which a scan is open, and of nothing else. Over any sequence
/// of events with as many ends as beginnings, and at no point more, from bookkeeping with no scan
/// open, the events make up stretches, and the log is made of the two lines of each, one behind the
/// other. In the end no scan is open, and no note is left.
pub proof fn law_log_is_a_pair_per_stretch(
    s: Instrumentation,
    pid: int,
    events: Seq<ScanEvent>,
) -> (r: (Seq<Stretch>, Seq<ScanEvent>))
    requires
        s.depth == 0,
        s.begin is None,
        keeps_depth(0, 0, events),
        opened(events) == 0,
        s.exec_calls + tuples(events) <= u64::MAX,
    ensures
        all_wf(r.0),
        is_idle(r.1),
        events == all_events(r.0) + r.1,
        log_of(s, pid, events) == all_lines(pid, r.0),
        after_all(s, events).depth == 0,
        after_all(s, events).begin is None,
{
    let (stretches, idle) = lemma_splits(events);
    lemma_counts_add(all_events(stretches), idle);
    lemma_tuples(idle);
    lemma_stretches_logged(s, pid, stretches);
    lemma_runs_on(s, pid, all_events(stretches), idle);
    lemma_idle(after_all(s, all_events(stretches)), pid, idle);
    assert(log_of(s, pid, events) =~= all_lines(pid, stretches));
    (stretches, idle)
}

/// A note is held exactly while a scan is open: so it is with no scan begun yet, and every event
/// keeps it so. In particular an end without a beginning logs nothing.
pub proof fn law_note_is_held_while_open(s: Instrumentation, pid: int, event: ScanEvent)
    requires
        s.begin is Some <==> s.depth > 0,
        s.depth < u32::MAX,
    ensures
        after(s, event).begin is Some <==> after(s, event).depth > 0,
        s.depth == 0 && event is End ==> after(s, event) == s && logged(s, pid, event) is None,
{
}

} // verus!
