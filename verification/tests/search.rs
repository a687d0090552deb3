use chromebook_charge::find_lowest_current_above::{
    after_current_above, attempt_limit, clamp_current, AboveStep, AfterAbove, BetweenStep,
    ExperimentalLimitedCurrent, FindCurrentAbove, FindLowestCurrentAbove, FindLowestCurrentBetween,
    LowestStep, Output, TryCurrent, CHECKS, MAX_RANGE, MIN_CURRENT,
};

#[test]
fn attempts_jump_by_doubling_steps() {
    assert_eq!(attempt_limit(150, 0), Some(150));
    assert_eq!(attempt_limit(150, 1), Some(200));
    assert_eq!(attempt_limit(150, 2), Some(300));
    assert_eq!(attempt_limit(150, 3), Some(500));
    assert_eq!(attempt_limit(150, 10), Some(150 + 50 * 1023));
    assert_eq!(attempt_limit(150, 32), None);
    assert_eq!(attempt_limit(u32::MAX, 1), None);
    assert_eq!(attempt_limit(u32::MAX, 0), Some(u32::MAX));
}

#[test]
fn readings_are_clamped_at_zero() {
    assert_eq!(clamp_current(-12), 0);
    assert_eq!(clamp_current(0), 0);
    assert_eq!(clamp_current(345), 345);
}

#[test]
fn try_current_keeps_the_lowest_reading() {
    let mut t = TryCurrent::new(500);
    assert_eq!(t.lowest_current(), 500);
    let mut n = 0;
    for reading in [600u32, 480, 490, 470, 800, 700, 475, 472] {
        assert!(t.needs_check());
        t.record(reading);
        n += 1;
    }
    assert_eq!(n, CHECKS);
    assert!(!t.needs_check());
    assert_eq!(t.lowest_current(), 470);
}

#[test]
fn first_attempt_success_reports_the_input() {
    let s = FindCurrentAbove::new(300);
    assert_eq!(s.attempt(), Some(300));
    match s.observe(320) {
        AboveStep::Found(out) => {
            assert_eq!(out.current_above, 320);
            assert_eq!(
                out.last_failed_attempt,
                ExperimentalLimitedCurrent { charge_current_limit: 300, experimental_current: 0 }
            );
        }
        AboveStep::Continue(_) => panic!("the first attempt reached the minimum"),
    }
}

#[test]
fn search_above_jumps_until_the_minimum_is_reached() {
    let mut s = FindCurrentAbove::new(150);
    let readings = [100, -3, 140, 151];
    let mut tried = vec![];
    for (i, r) in readings.iter().enumerate() {
        tried.push(s.attempt().unwrap());
        match s.observe(*r) {
            AboveStep::Continue(next) => s = next,
            AboveStep::Found(out) => {
                assert_eq!(i, 3);
                assert_eq!(out.current_above, 151);
                assert_eq!(
                    out.last_failed_attempt,
                    ExperimentalLimitedCurrent { charge_current_limit: 300, experimental_current: 140 }
                );
                assert_eq!(tried, vec![150, 200, 300, 500]);
                return;
            }
        }
    }
    panic!("the search should have ended");
}

#[test]
fn narrowing_follows_a_wide_gap() {
    let out = Output {
        current_above: 400,
        last_failed_attempt: ExperimentalLimitedCurrent { charge_current_limit: 300, experimental_current: 140 },
    };
    assert_eq!(
        after_current_above(&out),
        AfterAbove::Narrow(FindLowestCurrentBetween { min: 300, max: 400, max_range: MAX_RANGE })
    );
    let close = Output {
        current_above: 310,
        last_failed_attempt: ExperimentalLimitedCurrent { charge_current_limit: 300, experimental_current: 0 },
    };
    assert_eq!(after_current_above(&close), AfterAbove::Lowest(310));
}

#[test]
fn search_between_moves_its_ends() {
    let s = FindLowestCurrentBetween::new(300, 400, MAX_RANGE);
    assert_eq!(s.between(), Some(350));
    assert_eq!(
        s.observe(250),
        BetweenStep::Continue(FindLowestCurrentBetween { min: 350, max: 400, max_range: MAX_RANGE })
    );
    assert_eq!(
        s.observe(320),
        BetweenStep::Continue(FindLowestCurrentBetween { min: 300, max: 320, max_range: MAX_RANGE })
    );
    assert_eq!(
        s.observe(360),
        BetweenStep::Continue(FindLowestCurrentBetween { min: 350, max: 360, max_range: MAX_RANGE })
    );
    assert_eq!(
        s.observe(300),
        BetweenStep::Found(ExperimentalLimitedCurrent { charge_current_limit: 350, experimental_current: 300 })
    );
    assert_eq!(FindLowestCurrentBetween::new(u32::MAX, 1, 10).between(), None);
}

/// A battery that draws the limit where it is at least `knee`, and 100 mA
/// less below it.
fn run_search(min_current: u32, knee: u32) -> (u32, Vec<u32>) {
    let mut s = FindLowestCurrentAbove::new(min_current);
    let mut tried = vec![];
    for _ in 0..200 {
        let limit = s.next_limit().unwrap();
        tried.push(limit);
        let measured = if limit >= knee { limit as i32 } else { limit as i32 - 100 };
        assert!(s.observe_is_defined(measured));
        match s.observe(measured) {
            LowestStep::Continue(next) => s = next,
            LowestStep::Found(c) => return (c, tried),
        }
    }
    panic!("no answer");
}

#[test]
fn lowest_current_is_never_below_the_floor() {
    let (c, tried) = run_search(100, 0);
    assert_eq!(c, MIN_CURRENT);
    assert_eq!(tried, vec![150]);
    let (c, tried) = run_search(100, 180);
    assert_eq!(c, 187);
    assert_eq!(tried, vec![150, 200, 175, 187, 187]);
    let (c, tried) = run_search(400, 430);
    assert_eq!(c, 437);
    assert_eq!(tried, vec![400, 450, 425, 437, 437]);
    assert!(tried.iter().all(|t| *t >= 400));
}

#[test]
fn search_that_would_subtract_below_zero_is_not_defined() {
    let mut s = FindLowestCurrentAbove::new(150);
    for reading in [0, 0, 0] {
        s = match s.observe(reading) {
            LowestStep::Continue(next) => next,
            LowestStep::Found(_) => panic!("no current reached"),
        };
    }
    // The last failed limit is 300; a current of 160 is enough but below it.
    assert!(!s.observe_is_defined(160));
    assert!(s.observe_is_defined(310));
    assert!(s.observe_is_defined(10));
}
