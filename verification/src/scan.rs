use vstd::prelude::*;

use crate::failure::optional_text;
use crate::text::{
    all_keys, decimal, decimal_text, law_line_settles_numbers, lemma_shows_more, shows,
};

verus! {

/// A span of time as the system gives it: seconds, and microseconds on top.
#[derive(Clone, Copy, PartialEq, Eq, Structural, Debug)]
pub struct TimeVal {
    pub sec: i64,
    pub usec: i64,
}

impl TimeVal {
    /// The span in microseconds.
    pub open spec fn micros(self) -> int {
        self.sec * 1_000_000 + self.usec
    }
}

/// The span in microseconds.
pub fn instr_tv_us(tv: &TimeVal) -> (us: i128)
    ensures
        us == tv.micros(),
        us == tv.sec * 1_000_000 + tv.usec,
{
    (tv.sec as i128) * 1_000_000 + (tv.usec as i128)
}

/// What the process has used up so far: page faults without and with a read from disk, and time in
/// user and in system mode.
#[derive(Clone, Copy, PartialEq, Eq, Structural, Debug)]
pub struct Usage {
    pub minflt: i64,
    pub majflt: i64,
    pub utime: TimeVal,
    pub stime: TimeVal,
}

/// The bookkeeping of nested scans on one thread.
#[derive(Clone, Copy, PartialEq, Eq, Debug)]
pub struct Instrumentation {
    /// How many scans are open.
    pub depth: u32,
    /// How many tuples were asked for since the outermost scan began.
    pub exec_calls: u64,
    /// When the outermost scan began, in nanoseconds of a clock that the caller keeps, and what was
    /// used up then.
    pub begin: Option<(u128, Usage)>,
}

impl Instrumentation {
    /// Bookkeeping with no scan open.
    pub fn new() -> (s: Instrumentation)
        ensures
            s.depth == 0,
            s.exec_calls == 0,
            s.begin is None,
    {
        Instrumentation { depth: 0, exec_calls: 0, begin: None }
    }
}

/// One more scan is open.
pub open spec fn begun(s: Instrumentation) -> Instrumentation {
    Instrumentation { depth: (s.depth + 1) as u32, ..s }
}

/// The beginning of the outermost scan is noted, and no tuple was asked for yet.
pub open spec fn noted(s: Instrumentation, mark: u128, usage: Usage) -> Instrumentation {
    Instrumentation { begin: Some((mark, usage)), exec_calls: 0, ..s }
}

/// One more tuple was asked for.
pub open spec fn executed(s: Instrumentation) -> Instrumentation {
    Instrumentation { exec_calls: (s.exec_calls + 1) as u64, ..s }
}

/// One scan less is open. An end without a beginning changes nothing.
pub open spec fn ended(s: Instrumentation) -> Instrumentation {
    Instrumentation { depth: if s.depth == 0 { 0 } else { (s.depth - 1) as u32 }, ..s }
}

/// The note of the outermost scan is taken out.
pub open spec fn taken(s: Instrumentation) -> Instrumentation {
    Instrumentation { begin: None, ..s }
}

/// Counts a scan that begins. Answers whether it is the outermost one, whose beginning is to be
/// logged.
pub fn begin_custom_scan(state: &mut Instrumentation) -> (outermost: bool)
    requires
        old(state).depth < u32::MAX,
    ensures
        *final(state) == begun(*old(state)),
        final(state).depth == old(state).depth + 1,
        final(state).exec_calls == old(state).exec_calls,
        final(state).begin == old(state).begin,
        outermost == (old(state).depth == 0),
{
    let depth: u32 = state.depth;
    state.depth = depth + 1;
    depth == 0
}

/// Counts a tuple that is asked for.
pub fn exec_custom_scan(state: &mut Instrumentation)
    requires
        old(state).exec_calls < u64::MAX,
    ensures
        *final(state) == executed(*old(state)),
        final(state).depth == old(state).depth,
        final(state).exec_calls == old(state).exec_calls + 1,
        final(state).begin == old(state).begin,
{
    state.exec_calls = state.exec_calls + 1;
}

/// Counts a scan that ends. Answers whether none is open any longer, so that the end of the
/// outermost one is to be logged.
pub fn end_custom_scan(state: &mut Instrumentation) -> (outermost: bool)
    ensures
        *final(state) == ended(*old(state)),
        old(state).depth > 0 ==> final(state).depth == old(state).depth - 1,
        old(state).depth == 0 ==> final(state).depth == 0,
        final(state).exec_calls == old(state).exec_calls,
        final(state).begin == old(state).begin,
        outermost == (final(state).depth == 0),
{
    state.depth = state.depth.saturating_sub(1);
    state.depth == 0
}

/// The name under which a scan is logged.
pub open spec fn logged_name(name: Option<Seq<char>>) -> Seq<char> {
    match name {
        Some(text) => text,
        None => "?"@,
    }
}

/// A scan is logged under its own name, whatever that is, and scans of different names are told
/// apart; one whose name is no text is logged as a question mark.
pub proof fn law_scans_are_logged_under_their_names(a: Seq<char>, b: Seq<char>)
    ensures
        logged_name(Some(a)) == a,
        a != b ==> logged_name(Some(a)) != logged_name(Some(b)),
        logged_name(None) == "?"@,
{
}

/// The name under which a scan is logged: its own where that is text, else a question mark.
pub fn scan_name<'a>(name: Option<&'a str>) -> (r: &'a str)
    ensures
        r@ == match name {
            Some(text) => text@,
            None => "?"@,
        },
        r@ == logged_name(
            match name {
                Some(text) => Some(text@),
                None => None,
            },
        ),
        name matches Some(text) ==> r@ == text@,
{
    match name {
        Some(text) => text,
        None => "?",
    }
}

/// The line that is logged when the outermost scan begins.
pub open spec fn begin_line(name: Seq<char>, pid: int, usage: Usage) -> Seq<char> {
    "[INSTR-4902] BEGIN scan="@ + name + " pid="@ + decimal_text(pid) + " minflt="@ + decimal_text(
        usage.minflt as int,
    ) + " majflt="@ + decimal_text(usage.majflt as int) + " utime_us="@ + decimal_text(
        usage.utime.micros(),
    ) + " stime_us="@ + decimal_text(usage.stime.micros())
}

/// Notes the beginning of the outermost scan and gives the line to log.
pub fn instr_log_begin(
    state: &mut Instrumentation,
    name: &str,
    pid: i32,
    mark: u128,
    usage: Usage,
) -> (line: String)
    ensures
        *final(state) == noted(*old(state), mark, usage),
        final(state).begin == Some((mark, usage)),
        final(state).exec_calls == 0,
        final(state).depth == old(state).depth,
        line@ == begin_line(name@, pid as int, usage),
        shows(
            line@,
            "[INSTR-4902] BEGIN scan="@ + name@,
            seq![" pid="@, " minflt="@, " majflt="@, " utime_us="@, " stime_us="@],
            seq![
                pid as int,
                usage.minflt as int,
                usage.majflt as int,
                usage.utime.sec * 1_000_000 + usage.utime.usec,
                usage.stime.sec * 1_000_000 + usage.stime.usec,
            ],
        ),
{
    proof {
        law_begin_line_shows_readings(name@, pid as int, usage);
    }
    state.begin = Some((mark, usage));
    state.exec_calls = 0;
    let mut line = "[INSTR-4902] BEGIN scan=".to_owned();
    line.append(name);
    line.append(" pid=");
    line.append(decimal(pid as i128).as_str());
    line.append(" minflt=");
    line.append(decimal(usage.minflt as i128).as_str());
    line.append(" majflt=");
    line.append(decimal(usage.majflt as i128).as_str());
    line.append(" utime_us=");
    line.append(decimal(instr_tv_us(&usage.utime)).as_str());
    line.append(" stime_us=");
    line.append(decimal(instr_tv_us(&usage.stime)).as_str());
    line
}

/// The whole microseconds between two marks of the clock in nanoseconds; none where the second is
/// before the first.
pub open spec fn elapsed_micros(mark: u128, now: u128) -> int {
    if now < mark {
        0
    } else {
        (now - mark) / 1000
    }
}

/// `n` is the number of whole microseconds between two marks of the clock in nanoseconds, the
/// second not before the first, and has its place in 64 bits.
pub open spec fn is_whole_micros(n: int, mark: u128, now: u128) -> bool {
    &&& mark <= now
    &&& n * 1000 <= now - mark < (n + 1) * 1000
    &&& n < 0x1_0000_0000_0000_0000
}

/// The keys of the line that is logged when the outermost scan ends.
pub open spec fn end_keys() -> Seq<Seq<char>> {
    seq![
        " pid="@,
        " elapsed_us="@,
        " exec_calls="@,
        " minflt_delta="@,
        " majflt_delta="@,
        " utime_delta_us="@,
        " stime_delta_us="@,
    ]
}

/// The numbers of the line that is logged when the outermost scan ends, `n` microseconds after it
/// began.
pub open spec fn end_numbers(
    pid: int,
    n: int,
    exec_calls: int,
    before: Usage,
    after: Usage,
) -> Seq<int> {
    seq![
        pid,
        n,
        exec_calls,
        after.minflt - before.minflt,
        after.majflt - before.majflt,
        (after.utime.sec - before.utime.sec) * 1_000_000 + (after.utime.usec - before.utime.usec),
        (after.stime.sec - before.stime.sec) * 1_000_000 + (after.stime.usec - before.stime.usec),
    ]
}

/// The line that is logged when the outermost scan ends. Of the microseconds that have passed the
/// low 64 bits are shown.
pub open spec fn end_line(
    name: Seq<char>,
    pid: int,
    elapsed_micros: int,
    exec_calls: int,
    before: Usage,
    after: Usage,
) -> Seq<char> {
    "[INSTR-4902] END scan="@ + name + " pid="@ + decimal_text(pid) + " elapsed_us="@
        + decimal_text(elapsed_micros % 0x1_0000_0000_0000_0000) + " exec_calls="@ + decimal_text(
        exec_calls,
    ) + " minflt_delta="@ + decimal_text(after.minflt - before.minflt) + " majflt_delta="@
        + decimal_text(after.majflt - before.majflt) + " utime_delta_us="@ + decimal_text(
        after.utime.micros() - before.utime.micros(),
    ) + " stime_delta_us="@ + decimal_text(after.stime.micros() - before.stime.micros())
}

/// The number of page faults between two readings is a number that the system can give.
pub open spec fn countable(before: Usage, after: Usage) -> bool {
    &&& i64::MIN <= after.minflt - before.minflt <= i64::MAX
    &&& i64::MIN <= after.majflt - before.majflt <= i64::MAX
}

/// Takes out the note of the outermost scan, which has ended, and gives the line to log. Where no
/// scan was noted there is none.
pub fn instr_log_end(
    state: &mut Instrumentation,
    name: &str,
    pid: i32,
    now: u128,
    usage: Usage,
) -> (line: Option<String>)
    requires
        old(state).begin matches Some((mark, before)) ==> countable(before, usage),
    ensures
        *final(state) == taken(*old(state)),
        final(state).begin is None,
        final(state).exec_calls == old(state).exec_calls,
        final(state).depth == old(state).depth,
        line is Some <==> old(state).begin is Some,
        old(state).begin matches Some((mark, before)) ==> forall|n: int| #[trigger]
            is_whole_micros(n, mark, now) ==> shows(
                line->Some_0@,
                "[INSTR-4902] END scan="@ + name@,
                seq![
                    " pid="@,
                    " elapsed_us="@,
                    " exec_calls="@,
                    " minflt_delta="@,
                    " majflt_delta="@,
                    " utime_delta_us="@,
                    " stime_delta_us="@,
                ],
                seq![
                    pid as int,
                    n,
                    old(state).exec_calls as int,
                    usage.minflt - before.minflt,
                    usage.majflt - before.majflt,
                    (usage.utime.sec - before.utime.sec) * 1_000_000 + (usage.utime.usec
                        - before.utime.usec),
                    (usage.stime.sec - before.stime.sec) * 1_000_000 + (usage.stime.usec
                        - before.stime.usec),
                ],
            ),
        match old(state).begin {
            Some((mark, before)) => line matches Some(text) && text@ == end_line(
                name@,
                pid as int,
                elapsed_micros(mark, now),
                old(state).exec_calls as int,
                before,
                usage,
            ),
            None => line is None,
        },
{
    let calls: u64 = state.exec_calls;
    let (mark, before) = match state.begin {
        Some(note) => note,
        None => {
            return None;
        },
    };
    proof {
        assert forall|n: int| #[trigger] is_whole_micros(n, mark, now) implies shows(
            end_line(
                name@,
                pid as int,
                elapsed_micros(mark, now),
                calls as int,
                before,
                usage,
            ),
            "[INSTR-4902] END scan="@ + name@,
            end_keys(),
            end_numbers(pid as int, n, calls as int, before, usage),
        ) by {
            law_end_line_shows_readings(name@, pid as int, mark, now, n, calls as int, before, usage);
        }
    }
    state.begin = None;
    let elapsed: u128 = if now < mark {
        0
    } else {
        (now - mark) / 1000
    };
    let shown: u128 = elapsed % 0x1_0000_0000_0000_0000u128;
    let minflt: i64 = usage.minflt - before.minflt;
    let majflt: i64 = usage.majflt - before.majflt;
    let utime: i128 = instr_tv_us(&usage.utime) - instr_tv_us(&before.utime);
    let stime: i128 = instr_tv_us(&usage.stime) - instr_tv_us(&before.stime);
    let mut line = "[INSTR-4902] END scan=".to_owned();
    line.append(name);
    line.append(" pid=");
    line.append(decimal(pid as i128).as_str());
    line.append(" elapsed_us=");
    line.append(decimal(shown as i128).as_str());
    line.append(" exec_calls=");
    line.append(decimal(calls as i128).as_str());
    line.append(" minflt_delta=");
    line.append(decimal(minflt as i128).as_str());
    line.append(" majflt_delta=");
    line.append(decimal(majflt as i128).as_str());
    line.append(" utime_delta_us=");
    line.append(decimal(utime).as_str());
    line.append(" stime_delta_us=");
    line.append(decimal(stime).as_str());
    Some(line)
}

/// What happens to a scan. The readings of a beginning and of an end are those of the clock and of
/// what the process has used up.
pub enum ScanEvent {
    /// The scan of this name begins.
    Begin { name: Seq<char>, now: u128, usage: Usage },
    /// A tuple is asked for.
    Exec,
    /// The scan of this name ends.
    End { name: Seq<char>, now: u128, usage: Usage },
    /// Anything else: it is rewound, say, or explained.
    Other,
}

/// The bookkeeping after an event: a beginning at depth 0 is noted, and an end that leaves no scan
/// open takes the note out.
pub open spec fn after(s: Instrumentation, event: ScanEvent) -> Instrumentation {
    match event {
        ScanEvent::Begin { name, now, usage } => if s.depth == 0 {
            noted(begun(s), now, usage)
        } else {
            begun(s)
        },
        ScanEvent::Exec => executed(s),
        ScanEvent::End { .. } => if ended(s).depth == 0 {
            taken(ended(s))
        } else {
            ended(s)
        },
        ScanEvent::Other => s,
    }
}

/// The line that is logged at an event of the process `pid`.
pub open spec fn logged(s: Instrumentation, pid: int, event: ScanEvent) -> Option<Seq<char>> {
    match event {
        ScanEvent::Begin { name, now, usage } => if s.depth == 0 {
            Some(begin_line(name, pid, usage))
        } else {
            None
        },
        ScanEvent::End { name, now, usage } => match s.begin {
            Some((mark, before)) => if ended(s).depth == 0 {
                Some(
                    end_line(
                        name,
                        pid,
                        elapsed_micros(mark, now),
                        s.exec_calls as int,
                        before,
                        usage,
                    ),
                )
            } else {
                None
            },
            None => None,
        },
        _ => None,
    }
}

/// Does what the beginning of a scan asks for: counts it and, where it is the outermost one, notes
/// it and gives the line to log.
pub fn begin_and_log(
    state: &mut Instrumentation,
    name: &str,
    pid: i32,
    now: u128,
    usage: Usage,
) -> (line: Option<String>)
    requires
        old(state).depth < u32::MAX,
    ensures
        *final(state) == after(*old(state), ScanEvent::Begin { name: name@, now, usage }),
        optional_text(line) == logged(
            *old(state),
            pid as int,
            ScanEvent::Begin { name: name@, now, usage },
        ),
{
    if begin_custom_scan(state) {
        Some(instr_log_begin(state, name, pid, now, usage))
    } else {
        None
    }
}

/// Does what the end of a scan asks for: counts it and, where none is open any longer, takes out
/// the note and gives the line to log.
pub fn end_and_log(
    state: &mut Instrumentation,
    name: &str,
    pid: i32,
    now: u128,
    usage: Usage,
) -> (line: Option<String>)
    requires
        ended(*old(state)).depth == 0 ==> (old(state).begin matches Some((mark, before))
            ==> countable(before, usage)),
    ensures
        *final(state) == after(*old(state), ScanEvent::End { name: name@, now, usage }),
        optional_text(line) == logged(
            *old(state),
            pid as int,
            ScanEvent::End { name: name@, now, usage },
        ),
{
    if end_custom_scan(state) {
        instr_log_end(state, name, pid, now, usage)
    } else {
        None
    }
}

/// A span of time is counted in microseconds: none is 0, and two spans differ by a million for each
/// second and by one for each microsecond between them.
pub proof fn law_spans_are_microseconds(a: TimeVal, b: TimeVal)
    ensures
        a.sec == 0 && a.usec == 0 ==> a.micros() == 0,
        a.micros() - b.micros() == (a.sec - b.sec) * 1_000_000 + (a.usec - b.usec),
{
}

/// Each number of the line that is logged at a beginning, read back as a decimal, is the reading
/// that was taken.
pub proof fn law_begin_line_shows_readings(name: Seq<char>, pid: int, usage: Usage)
    ensures
        shows(
            begin_line(name, pid, usage),
            "[INSTR-4902] BEGIN scan="@ + name,
            seq![" pid="@, " minflt="@, " majflt="@, " utime_us="@, " stime_us="@],
            seq![
                pid,
                usage.minflt as int,
                usage.majflt as int,
                usage.utime.sec * 1_000_000 + usage.utime.usec,
                usage.stime.sec * 1_000_000 + usage.stime.usec,
            ],
        ),
{
    let head = "[INSTR-4902] BEGIN scan="@ + name;
    let k0 = Seq::<Seq<char>>::empty();
    let n0 = Seq::<int>::empty();
    let k1 = k0.push(" pid="@);
    let n1 = n0.push(pid);
    let l1 = head + " pid="@ + decimal_text(pid);
    lemma_shows_more(head, head, k0, n0, " pid="@, pid);
    let k2 = k1.push(" minflt="@);
    let n2 = n1.push(usage.minflt as int);
    let l2 = l1 + " minflt="@ + decimal_text(usage.minflt as int);
    lemma_shows_more(l1, head, k1, n1, " minflt="@, usage.minflt as int);
    let k3 = k2.push(" majflt="@);
    let n3 = n2.push(usage.majflt as int);
    let l3 = l2 + " majflt="@ + decimal_text(usage.majflt as int);
    lemma_shows_more(l2, head, k2, n2, " majflt="@, usage.majflt as int);
    let k4 = k3.push(" utime_us="@);
    let n4 = n3.push(usage.utime.micros());
    let l4 = l3 + " utime_us="@ + decimal_text(usage.utime.micros());
    lemma_shows_more(l3, head, k3, n3, " utime_us="@, usage.utime.micros());
    lemma_shows_more(l4, head, k4, n4, " stime_us="@, usage.stime.micros());
    assert(begin_line(name, pid, usage) == l4 + " stime_us="@ + decimal_text(usage.stime.micros()));
    assert(k4.push(" stime_us="@) =~= seq![
        " pid="@,
        " minflt="@,
        " majflt="@,
        " utime_us="@,
        " stime_us="@,
    ]);
    assert(n4.push(usage.stime.micros()) =~= seq![
        pid,
        usage.minflt as int,
        usage.majflt as int,
        usage.utime.sec * 1_000_000 + usage.utime.usec,
        usage.stime.sec * 1_000_000 + usage.stime.usec,
    ]);
}

/// The line that is logged at a beginning settles the readings: of one scan's name, lines for
/// readings that differ in any number differ.
pub proof fn law_begin_line_settles_readings(
    name: Seq<char>,
    pid: int,
    usage: Usage,
    pid2: int,
    usage2: Usage,
)
    requires
        begin_line(name, pid, usage) == begin_line(name, pid2, usage2),
    ensures
        pid == pid2,
        usage.minflt == usage2.minflt,
        usage.majflt == usage2.majflt,
        usage.utime.sec * 1_000_000 + usage.utime.usec == usage2.utime.sec * 1_000_000
            + usage2.utime.usec,
        usage.stime.sec * 1_000_000 + usage.stime.usec == usage2.stime.sec * 1_000_000
            + usage2.stime.usec,
{
    law_begin_line_shows_readings(name, pid, usage);
    law_begin_line_shows_readings(name, pid2, usage2);
    let keys = seq![" pid="@, " minflt="@, " majflt="@, " utime_us="@, " stime_us="@];
    let a = seq![
        pid,
        usage.minflt as int,
        usage.majflt as int,
        usage.utime.sec * 1_000_000 + usage.utime.usec,
        usage.stime.sec * 1_000_000 + usage.stime.usec,
    ];
    let b = seq![
        pid2,
        usage2.minflt as int,
        usage2.majflt as int,
        usage2.utime.sec * 1_000_000 + usage2.utime.usec,
        usage2.stime.sec * 1_000_000 + usage2.stime.usec,
    ];
    reveal_strlit(" pid=");
    reveal_strlit(" minflt=");
    reveal_strlit(" majflt=");
    reveal_strlit(" utime_us=");
    reveal_strlit(" stime_us=");
    assert(all_keys(keys));
    law_line_settles_numbers(
        begin_line(name, pid, usage),
        "[INSTR-4902] BEGIN scan="@ + name,
        keys,
        a,
        b,
    );
    assert(a[0] == b[0] && a[1] == b[1] && a[2] == b[2] && a[3] == b[3] && a[4] == b[4]);
}

/// Each number of the line that is logged at an end, read back as a decimal, is what was measured:
/// the whole microseconds between the two marks of the clock, the tuples that were asked for, and
/// by how much the readings of the usage differ.
pub proof fn law_end_line_shows_readings(
    name: Seq<char>,
    pid: int,
    mark: u128,
    now: u128,
    n: int,
    exec_calls: int,
    before: Usage,
    after: Usage,
)
    requires
        mark <= now,
        n * 1000 <= now - mark < (n + 1) * 1000,
        n < 0x1_0000_0000_0000_0000,
    ensures
        shows(
            end_line(name, pid, elapsed_micros(mark, now), exec_calls, before, after),
            "[INSTR-4902] END scan="@ + name,
            seq![
                " pid="@,
                " elapsed_us="@,
                " exec_calls="@,
                " minflt_delta="@,
                " majflt_delta="@,
                " utime_delta_us="@,
                " stime_delta_us="@,
            ],
            seq![
                pid,
                n,
                exec_calls,
                after.minflt - before.minflt,
                after.majflt - before.majflt,
                (after.utime.sec - before.utime.sec) * 1_000_000 + (after.utime.usec
                    - before.utime.usec),
                (after.stime.sec - before.stime.sec) * 1_000_000 + (after.stime.usec
                    - before.stime.usec),
            ],
        ),
{
    assert(elapsed_micros(mark, now) == n);
    assert(n % 0x1_0000_0000_0000_0000 == n);
    let head = "[INSTR-4902] END scan="@ + name;
    let minflt = after.minflt - before.minflt;
    let majflt = after.majflt - before.majflt;
    let utime = after.utime.micros() - before.utime.micros();
    let stime = after.stime.micros() - before.stime.micros();
    let k0 = Seq::<Seq<char>>::empty();
    let n0 = Seq::<int>::empty();
    let k1 = k0.push(" pid="@);
    let n1 = n0.push(pid);
    let l1 = head + " pid="@ + decimal_text(pid);
    lemma_shows_more(head, head, k0, n0, " pid="@, pid);
    let k2 = k1.push(" elapsed_us="@);
    let n2 = n1.push(n);
    let l2 = l1 + " elapsed_us="@ + decimal_text(n);
    lemma_shows_more(l1, head, k1, n1, " elapsed_us="@, n);
    let k3 = k2.push(" exec_calls="@);
    let n3 = n2.push(exec_calls);
    let l3 = l2 + " exec_calls="@ + decimal_text(exec_calls);
    lemma_shows_more(l2, head, k2, n2, " exec_calls="@, exec_calls);
    let k4 = k3.push(" minflt_delta="@);
    let n4 = n3.push(minflt);
    let l4 = l3 + " minflt_delta="@ + decimal_text(minflt);
    lemma_shows_more(l3, head, k3, n3, " minflt_delta="@, minflt);
    let k5 = k4.push(" majflt_delta="@);
    let n5 = n4.push(majflt);
    let l5 = l4 + " majflt_delta="@ + decimal_text(majflt);
    lemma_shows_more(l4, head, k4, n4, " majflt_delta="@, majflt);
    let k6 = k5.push(" utime_delta_us="@);
    let n6 = n5.push(utime);
    let l6 = l5 + " utime_delta_us="@ + decimal_text(utime);
    lemma_shows_more(l5, head, k5, n5, " utime_delta_us="@, utime);
    lemma_shows_more(l6, head, k6, n6, " stime_delta_us="@, stime);
    assert(end_line(name, pid, elapsed_micros(mark, now), exec_calls, before, after) == l6
        + " stime_delta_us="@ + decimal_text(stime));
    assert(k6.push(" stime_delta_us="@) =~= end_keys());
    assert(n6.push(stime) =~= end_numbers(pid, n, exec_calls, before, after));
}

/// The line that is logged at an end settles what was measured: of one scan's name, lines for
/// elapsed times of different whole microseconds, for different numbers of tuples or for different
/// growths of the usage differ.
pub proof fn law_end_line_settles_readings(
    name: Seq<char>,
    pid: int,
    mark: u128,
    now: u128,
    n: int,
    exec_calls: int,
    before: Usage,
    after: Usage,
    pid2: int,
    mark2: u128,
    now2: u128,
    n2: int,
    exec_calls2: int,
    before2: Usage,
    after2: Usage,
)
    requires
        mark <= now,
        n * 1000 <= now - mark < (n + 1) * 1000,
        n < 0x1_0000_0000_0000_0000,
        mark2 <= now2,
        n2 * 1000 <= now2 - mark2 < (n2 + 1) * 1000,
        n2 < 0x1_0000_0000_0000_0000,
        end_line(name, pid, elapsed_micros(mark, now), exec_calls, before, after) == end_line(
            name,
            pid2,
            elapsed_micros(mark2, now2),
            exec_calls2,
            before2,
            after2,
        ),
    ensures
        pid == pid2,
        n == n2,
        exec_calls == exec_calls2,
        after.minflt - before.minflt == after2.minflt - before2.minflt,
        after.majflt - before.majflt == after2.majflt - before2.majflt,
        after.utime.micros() - before.utime.micros() == after2.utime.micros()
            - before2.utime.micros(),
        after.stime.micros() - before.stime.micros() == after2.stime.micros()
            - before2.stime.micros(),
{
    law_end_line_shows_readings(name, pid, mark, now, n, exec_calls, before, after);
    law_end_line_shows_readings(name, pid2, mark2, now2, n2, exec_calls2, before2, after2);
    reveal_strlit(" pid=");
    reveal_strlit(" elapsed_us=");
    reveal_strlit(" exec_calls=");
    reveal_strlit(" minflt_delta=");
    reveal_strlit(" majflt_delta=");
    reveal_strlit(" utime_delta_us=");
    reveal_strlit(" stime_delta_us=");
    assert(all_keys(end_keys()));
    let a = end_numbers(pid, n, exec_calls, before, after);
    let b = end_numbers(pid2, n2, exec_calls2, before2, after2);
    law_line_settles_numbers(
        end_line(name, pid, elapsed_micros(mark, now), exec_calls, before, after),
        "[INSTR-4902] END scan="@ + name,
        end_keys(),
        a,
        b,
    );
    assert(a[0] == b[0] && a[1] == b[1] && a[2] == b[2] && a[3] == b[3]);
    assert(a[4] == b[4] && a[5] == b[5] && a[6] == b[6]);
}

/// A clock that runs back shows no time, and a span of more microseconds than 64 bits count, `q`
/// rounds of them and `n` more, is shown as the `n`: the line is that of a scan that took `n`.
pub proof fn law_long_spans_show_their_low_bits(
    name: Seq<char>,
    pid: int,
    mark: u128,
    now: u128,
    n: int,
    q: int,
    exec_calls: int,
    before: Usage,
    after: Usage,
)
    requires
        0 <= n < 0x1_0000_0000_0000_0000,
        q >= 0,
        mark <= now ==> (n + q * 0x1_0000_0000_0000_0000) * 1000 <= now - mark < (n + q
            * 0x1_0000_0000_0000_0000 + 1) * 1000,
        now < mark ==> n == 0 && q == 0,
    ensures
        end_line(name, pid, elapsed_micros(mark, now), exec_calls, before, after) == end_line(
            name,
            pid,
            elapsed_micros(0, (n * 1000) as u128),
            exec_calls,
            before,
            after,
        ),
{
    assert(elapsed_micros(mark, now) == n + q * 0x1_0000_0000_0000_0000);
    assert((n + q * 0x1_0000_0000_0000_0000) % 0x1_0000_0000_0000_0000 == n) by (nonlinear_arith)
        requires
            0 <= n < 0x1_0000_0000_0000_0000,
            q >= 0,
    ;
    assert(elapsed_micros(0, (n * 1000) as u128) == n);
    assert(n % 0x1_0000_0000_0000_0000 == n);
}

/// Counters of page faults that are not negative can be subtracted.
pub proof fn law_ordinary_readings_are_countable(before: Usage, after: Usage)
    requires
        before.minflt >= 0,
        before.majflt >= 0,
        after.minflt >= 0,
        after.majflt >= 0,
    ensures
        countable(before, after),
{
}

} // verus!
