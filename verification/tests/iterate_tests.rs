use fractal_core::IterationControl;
use fractal_core::SNAPSHOT_PERIOD;

#[test]
fn fresh_control_starts_at_zero() {
    let control = IterationControl::new(1024);
    assert_eq!(control.item_id, 0);
    assert_eq!(control.period, 0);
    assert_eq!(control.max_item_id, 1024);
}

#[test]
fn immediate_escape_takes_one_step() {
    // The origin-seeded variants: the seed passes the escape test, the first
    // iterate is the point itself, already outside the bound.
    let mut control = IterationControl::new(1024);
    assert!(control.wants_more(true));
    control.record_step(false);
    assert!(!control.wants_more(false));
    assert_eq!(control.finish(), 1);
}

#[test]
fn budget_of_zero_refuses_work() {
    let control = IterationControl::new(0);
    assert!(!control.wants_more(true));
}

#[test]
fn counts_steps_until_budget() {
    let mut control = IterationControl::new(5);
    let mut steps = 0;
    while control.wants_more(true) {
        control.record_step(false);
        steps += 1;
    }
    assert_eq!(steps, 5);
    assert_eq!(control.finish(), 5);
}

#[test]
fn cycle_forces_index_to_max() {
    let mut control = IterationControl::new(1024);
    for _ in 0..5 {
        control.record_step(false);
    }
    let refresh = control.record_step(true);
    assert!(!refresh);
    assert!(!control.wants_more(true));
    assert_eq!(control.finish(), 1024);
}

#[test]
fn snapshot_refreshes_every_twenty_steps() {
    let mut control = IterationControl::new(100);
    let mut refreshed_at = Vec::new();
    for step in 1..=100u32 {
        if control.record_step(false) {
            refreshed_at.push(step);
        }
    }
    assert_eq!(SNAPSHOT_PERIOD, 20);
    assert_eq!(refreshed_at, vec![20, 40, 60, 80, 100]);
}
