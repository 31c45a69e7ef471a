use linreg::schedule::{Action, Schedule, DEFAULT_CHUNK_SIZE, REPORT_INTERVAL};

fn actions(len: usize, chunk_size: usize, verbose: bool) -> Vec<Action> {
    let mut schedule = Schedule::new(len, chunk_size, verbose).unwrap();
    let mut seen = Vec::new();
    loop {
        let action = schedule.next_action();
        seen.push(action);
        if action == Action::Finished {
            return seen;
        }
    }
}

#[test]
fn chunk_size_zero_is_rejected() {
    assert!(Schedule::new(25, 0, false).is_none());
    assert!(Schedule::new(0, 0, true).is_none());
    assert!(Schedule::new(25, 1, false).is_some());
}

#[test]
fn constants_have_their_documented_values() {
    assert_eq!(REPORT_INTERVAL, 500);
    assert_eq!(DEFAULT_CHUNK_SIZE, 10);
}

#[test]
fn quiet_run_only_descends() {
    assert_eq!(
        actions(25, 10, false),
        vec![
            Action::Descend { start: 0, end: 10 },
            Action::Descend { start: 10, end: 20 },
            Action::Descend { start: 20, end: 25 },
            Action::Finished,
        ]
    );
}

#[test]
fn reporting_run_opens_and_closes_with_a_report() {
    assert_eq!(
        actions(25, 10, true),
        vec![
            Action::Report { step: 0, total: 3, redraw: false },
            Action::Descend { start: 0, end: 10 },
            Action::Descend { start: 10, end: 20 },
            Action::Descend { start: 20, end: 25 },
            Action::Report { step: 3, total: 3, redraw: true },
            Action::Finished,
        ]
    );
}

#[test]
fn empty_quiet_run_finishes_at_once() {
    assert_eq!(actions(0, 10, false), vec![Action::Finished]);
}

#[test]
fn empty_reporting_run_reports_twice_and_never_descends() {
    assert_eq!(
        actions(0, 10, true),
        vec![
            Action::Report { step: 0, total: 0, redraw: false },
            Action::Report { step: 0, total: 0, redraw: true },
            Action::Finished,
        ]
    );
}

#[test]
fn finished_run_stays_finished() {
    let mut schedule = Schedule::new(3, 2, true).unwrap();
    while schedule.next_action() != Action::Finished {}
    for _ in 0..5 {
        assert_eq!(schedule.next_action(), Action::Finished);
    }
}

#[test]
fn reports_come_every_five_hundred_descents() {
    let seen = actions(12_345, 10, true);
    let reports: Vec<Action> =
        seen.iter().copied().filter(|a| matches!(a, Action::Report { .. })).collect();
    assert_eq!(
        reports,
        vec![
            Action::Report { step: 0, total: 1235, redraw: false },
            Action::Report { step: 500, total: 1235, redraw: true },
            Action::Report { step: 1000, total: 1235, redraw: true },
            Action::Report { step: 1235, total: 1235, redraw: true },
        ]
    );
    assert_eq!(seen[500], Action::Descend { start: 4990, end: 5000 });
    assert_eq!(seen[501], Action::Report { step: 500, total: 1235, redraw: true });
    assert_eq!(seen[502], Action::Descend { start: 5000, end: 5010 });
    assert_eq!(seen[seen.len() - 3], Action::Descend { start: 12_340, end: 12_345 });
}

#[test]
fn run_that_ends_on_an_interval_reports_it_and_then_closes() {
    let seen = actions(10_000, 10, true);
    let reports: Vec<Action> =
        seen.iter().copied().filter(|a| matches!(a, Action::Report { .. })).collect();
    assert_eq!(
        reports,
        vec![
            Action::Report { step: 0, total: 1000, redraw: false },
            Action::Report { step: 500, total: 1000, redraw: true },
            Action::Report { step: 1000, total: 1000, redraw: true },
            Action::Report { step: 1000, total: 1000, redraw: true },
        ]
    );
}

#[test]
fn reporting_leaves_the_descents_as_they_are() {
    for len in [0usize, 1, 9, 10, 11, 4_999, 5_000, 5_001, 10_000] {
        for chunk_size in [1usize, 3, 10] {
            let quiet = actions(len, chunk_size, false);
            let loud: Vec<Action> = actions(len, chunk_size, true)
                .into_iter()
                .filter(|a| !matches!(a, Action::Report { .. }))
                .collect();
            assert_eq!(quiet, loud);
        }
    }
}

#[test]
fn descents_cover_the_data_once_and_in_order() {
    for len in 0usize..80 {
        for chunk_size in 1usize..12 {
            let mut next: usize = 0;
            for action in actions(len, chunk_size, len % 2 == 0) {
                if let Action::Descend { start, end } = action {
                    assert_eq!(start, next);
                    assert!(start < end && end <= len);
                    assert!(end - start == chunk_size || end == len);
                    next = end;
                }
            }
            assert_eq!(next, len);
        }
    }
}
