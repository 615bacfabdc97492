use lindera_store::scan::{
    begin_and_log, begin_custom_scan, end_and_log, end_custom_scan, exec_custom_scan, instr_log_begin, instr_log_end,
    instr_tv_us, scan_name, Instrumentation, TimeVal, Usage,
};

fn usage(minflt: i64, majflt: i64, utime: (i64, i64), stime: (i64, i64)) -> Usage {
    Usage {
        minflt,
        majflt,
        utime: TimeVal { sec: utime.0, usec: utime.1 },
        stime: TimeVal { sec: stime.0, usec: stime.1 },
    }
}

#[test]
fn spans_in_microseconds() {
    assert_eq!(instr_tv_us(&TimeVal { sec: 2, usec: 345 }), 2_000_345);
    assert_eq!(instr_tv_us(&TimeVal { sec: 0, usec: 0 }), 0);
    assert_eq!(instr_tv_us(&TimeVal { sec: -1, usec: 1 }), -999_999);
    assert_eq!(
        instr_tv_us(&TimeVal { sec: i64::MAX, usec: i64::MAX }),
        9_223_372_036_854_775_807_i128 * 1_000_001
    );
}

#[test]
fn names_that_are_no_text() {
    assert_eq!(scan_name(Some("AggregateScan")), "AggregateScan");
    assert_eq!(scan_name(None), "?");
}

#[test]
fn line_of_a_beginning() {
    let mut state: Instrumentation = Instrumentation::new();
    begin_custom_scan(&mut state);
    let line = instr_log_begin(&mut state, "BaseScan", 42, 7, usage(10, 2, (1, 5), (0, 9)));
    assert_eq!(
        line,
        "[INSTR-4902] BEGIN scan=BaseScan pid=42 minflt=10 majflt=2 utime_us=1000005 stime_us=9"
    );
    assert!(state.begin == Some((7, usage(10, 2, (1, 5), (0, 9)))));
    assert_eq!(state.exec_calls, 0);
}

#[test]
fn line_of_an_end() {
    let mut state = Instrumentation {
        depth: 0,
        exec_calls: 3,
        begin: Some((5_000_500, usage(10, 2, (1, 5), (0, 9)))),
    };
    let line = instr_log_end(&mut state, "BaseScan", 42, 6_235_499, usage(15, 1, (2, 0), (0, 9)));
    assert_eq!(
        line,
        Some(
            "[INSTR-4902] END scan=BaseScan pid=42 elapsed_us=1234 exec_calls=3 minflt_delta=5 \
             majflt_delta=-1 utime_delta_us=999995 stime_delta_us=0"
                .to_string()
        )
    );
    assert_eq!(state.begin, None);
    assert_eq!(state.exec_calls, 3);
}

#[test]
fn elapsed_time_is_cut_to_its_low_half() {
    let none = usage(0, 0, (0, 0), (0, 0));
    let mut state = Instrumentation { depth: 0, exec_calls: 0, begin: Some((0, none)) };
    let now = ((1u128 << 64) + 5) * 1000;
    assert_eq!(
        instr_log_end(&mut state, "S", 1, now, none),
        Some(
            "[INSTR-4902] END scan=S pid=1 elapsed_us=5 exec_calls=0 minflt_delta=0 \
             majflt_delta=0 utime_delta_us=0 stime_delta_us=0"
                .to_string()
        )
    );
}

#[test]
fn clock_that_runs_back_shows_no_time() {
    let none = usage(0, 0, (0, 0), (0, 0));
    let mut state = Instrumentation { depth: 0, exec_calls: 0, begin: Some((9_000, none)) };
    let line = instr_log_end(&mut state, "S", 1, 2_000, none);
    assert!(line.is_some_and(|line| line.contains(" elapsed_us=0 ")));
}

/// Begins a scan and logs it where it is the outermost one.
fn begin(state: &mut Instrumentation, log: &mut Vec<String>, name: &str, now: u128) {
    if let Some(line) = begin_and_log(state, name, 1, now, usage(0, 0, (0, 0), (0, 0))) {
        log.push(line);
    }
}

/// Ends a scan and logs it where none is open any longer.
fn end(state: &mut Instrumentation, log: &mut Vec<String>, name: &str, now: u128) {
    if let Some(line) = end_and_log(state, name, 1, now, usage(0, 0, (0, 0), (0, 0))) {
        log.push(line);
    }
}

#[test]
fn only_the_outermost_scan_is_logged() {
    let mut state = Instrumentation::new();
    let mut log: Vec<String> = Vec::new();
    begin(&mut state, &mut log, "Outer", 0);
    exec_custom_scan(&mut state);
    begin(&mut state, &mut log, "Inner", 1_000);
    exec_custom_scan(&mut state);
    exec_custom_scan(&mut state);
    end(&mut state, &mut log, "Inner", 2_000);
    assert_eq!(state.depth, 1);
    assert_eq!(log.len(), 1);
    end(&mut state, &mut log, "Outer", 3_000);
    assert_eq!(log.len(), 2);
    assert!(log[0].starts_with("[INSTR-4902] BEGIN scan=Outer pid=1 "));
    assert!(log[1].starts_with("[INSTR-4902] END scan=Outer pid=1 elapsed_us=3 exec_calls=3 "));
    assert_eq!(state.depth, 0);
    assert_eq!(state.begin, None);
}

#[test]
fn each_stretch_is_logged_with_a_pair() {
    let mut state = Instrumentation::new();
    let mut log: Vec<String> = Vec::new();
    exec_custom_scan(&mut state);
    begin(&mut state, &mut log, "A", 0);
    begin(&mut state, &mut log, "B", 0);
    exec_custom_scan(&mut state);
    end(&mut state, &mut log, "A", 0);
    end(&mut state, &mut log, "B", 1_000);
    exec_custom_scan(&mut state);
    begin(&mut state, &mut log, "C", 5_000);
    exec_custom_scan(&mut state);
    exec_custom_scan(&mut state);
    end(&mut state, &mut log, "C", 9_000);
    let starts = vec![
        "[INSTR-4902] BEGIN scan=A pid=1 ",
        "[INSTR-4902] END scan=B pid=1 elapsed_us=1 exec_calls=1 ",
        "[INSTR-4902] BEGIN scan=C pid=1 ",
        "[INSTR-4902] END scan=C pid=1 elapsed_us=4 exec_calls=2 ",
    ];
    assert_eq!(log.len(), starts.len());
    for (line, start) in log.iter().zip(starts) {
        assert!(line.starts_with(start));
    }
}

#[test]
fn end_without_a_beginning_logs_nothing() {
    let mut state = Instrumentation::new();
    exec_custom_scan(&mut state);
    assert!(end_custom_scan(&mut state));
    assert_eq!(state.depth, 0);
    assert_eq!(instr_log_end(&mut state, "S", 1, 7, usage(0, 0, (0, 0), (0, 0))), None);
    assert_eq!(state.exec_calls, 1);
    assert_eq!(state.begin, None);
}
