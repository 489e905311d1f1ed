use tickstep::particle::Particle;
use tickstep::simulator::{Expire, SimError, Simulation};

/// Ten clock units per tick, standing for a hundredth of a second when one
/// unit is a millisecond.
const UNITS_PER_TICK: u64 = 10;

fn particle(pos_x: i64, pos_y: i64, vel_x: i64, vel_y: i64, lifetime_ticks: u64) -> Particle {
    Particle { pos_x, pos_y, vel_x, vel_y, age_ticks: 0, lifetime_ticks }
}

#[test]
fn new_rejects_zero_tick_length() {
    let r = Simulation::<Particle>::new(0);
    assert!(matches!(r, Err(SimError::NonPositiveTickLength)));
}

#[test]
fn fresh_simulation_is_empty() {
    let sim = Simulation::<Particle>::new(UNITS_PER_TICK).unwrap();
    assert_eq!(sim.get_tick_count(), 0);
    assert_eq!(sim.get_object_count(), 0);
}

#[test]
fn add_object_appends_in_insertion_order() {
    let mut sim = Simulation::new(UNITS_PER_TICK).unwrap();
    sim.add_object(particle(1, 0, 0, 0, 100));
    sim.add_object(particle(2, 0, 0, 0, 100));
    sim.add_object(particle(3, 0, 0, 0, 100));
    assert_eq!(sim.get_object_count(), 3);
    assert_eq!(sim.get_object(0).unwrap().pos_x, 1);
    assert_eq!(sim.get_object(1).unwrap().pos_x, 2);
    assert_eq!(sim.get_object(2).unwrap().pos_x, 3);
    assert!(sim.get_object(3).is_none());
}

#[test]
fn concrete_scenario_tick_counts() {
    // An empty simulation at a hundredth of a second per tick: a call at
    // elapsed time zero performs the one guaranteed pass and leaves the tick
    // count at zero; a call at two and a half tick lengths catches up by two.
    let mut sim = Simulation::<Particle>::new(UNITS_PER_TICK).unwrap();
    assert_eq!(sim.do_tick(0), Ok(()));
    assert_eq!(sim.get_tick_count(), 0);
    assert_eq!(sim.do_tick(25), Ok(()));
    assert_eq!(sim.get_tick_count(), 2);
}

#[test]
fn concrete_scenario_pass_counts() {
    // The same scenario with one object aboard, whose age counts the tick
    // passes: one pass for the call at time zero, three for the catch-up call.
    let mut sim = Simulation::new(UNITS_PER_TICK).unwrap();
    sim.add_object(particle(0, 0, 1, 0, 1000));
    sim.do_tick(0).unwrap();
    assert_eq!(sim.get_object(0).unwrap().age_ticks, 1);
    sim.do_tick(25).unwrap();
    assert_eq!(sim.get_object(0).unwrap().age_ticks, 4);
    assert_eq!(sim.get_object(0).unwrap().pos_x, 4);
}

#[test]
fn catch_up_performs_eleven_passes() {
    // One call at ten tick lengths from tick zero: ten catch-up ticks plus
    // the guaranteed pass, so every object is ticked exactly eleven times.
    let mut sim = Simulation::new(UNITS_PER_TICK).unwrap();
    sim.add_object(particle(0, 0, 2, -1, 1000));
    sim.add_object(particle(50, 50, 0, 5, 1000));
    sim.do_tick(10 * UNITS_PER_TICK).unwrap();
    assert_eq!(sim.get_tick_count(), 10);
    assert_eq!(sim.get_object(0).unwrap().age_ticks, 11);
    assert_eq!(sim.get_object(0).unwrap().pos_x, 22);
    assert_eq!(sim.get_object(0).unwrap().pos_y, -11);
    assert_eq!(sim.get_object(1).unwrap().age_ticks, 11);
    assert_eq!(sim.get_object(1).unwrap().pos_y, 105);
}

#[test]
fn tick_accounting_over_non_decreasing_times() {
    // After any non-decreasing sequence of elapsed times, the tick count is
    // the last elapsed time divided by the tick length, rounded down.
    let mut sim = Simulation::<Particle>::new(UNITS_PER_TICK).unwrap();
    for t in [0, 5, 10, 25, 25, 107] {
        assert_eq!(sim.do_tick(t), Ok(()));
    }
    assert_eq!(sim.get_tick_count(), 10);
}

#[test]
fn time_regression_is_rejected_and_changes_nothing() {
    let mut sim = Simulation::new(UNITS_PER_TICK).unwrap();
    sim.add_object(particle(0, 0, 1, 0, 1000));
    sim.do_tick(100).unwrap();
    assert_eq!(sim.get_tick_count(), 10);
    assert_eq!(sim.get_object(0).unwrap().age_ticks, 11);
    assert_eq!(sim.do_tick(5), Err(SimError::TimeRegression));
    assert_eq!(sim.get_tick_count(), 10);
    assert_eq!(sim.get_object_count(), 1);
    assert_eq!(sim.get_object(0).unwrap().age_ticks, 11);
}

#[test]
fn expiry_removes_exactly_the_expired_and_keeps_order() {
    let mut sim = Simulation::new(UNITS_PER_TICK).unwrap();
    sim.add_object(particle(100, 0, 0, 0, 5));
    sim.add_object(particle(200, 0, 0, 0, 1));
    sim.add_object(particle(300, 0, 0, 0, 5));
    sim.do_tick(0).unwrap();
    assert!(!sim.get_object(0).unwrap().is_expired());
    assert!(sim.get_object(1).unwrap().is_expired());
    assert!(!sim.get_object(2).unwrap().is_expired());
    sim.do_handle_expiry();
    assert_eq!(sim.get_object_count(), 2);
    assert_eq!(sim.get_object(0).unwrap().pos_x, 100);
    assert_eq!(sim.get_object(1).unwrap().pos_x, 300);
}

#[test]
fn expiry_pass_with_no_expired_objects_removes_none() {
    let mut sim = Simulation::new(UNITS_PER_TICK).unwrap();
    sim.add_object(particle(1, 1, 0, 0, 100));
    sim.add_object(particle(2, 2, 0, 0, 100));
    sim.do_handle_expiry();
    assert_eq!(sim.get_object_count(), 2);
}

#[test]
fn expiry_is_monotonic_across_ticks() {
    // A particle with lifetime zero is expired from the start and stays
    // expired through every further tick until it is removed.
    let mut sim = Simulation::new(UNITS_PER_TICK).unwrap();
    sim.add_object(particle(0, 0, 1, 1, 0));
    assert!(sim.get_object(0).unwrap().is_expired());
    for t in [0, 10, 30] {
        sim.do_tick(t).unwrap();
        assert!(sim.get_object(0).unwrap().is_expired());
    }
    sim.do_handle_expiry();
    assert_eq!(sim.get_object_count(), 0);
}

#[test]
fn ticking_one_object_never_touches_another() {
    // Two objects with diverging velocities in one simulation follow exactly
    // the trajectories each would follow alone.
    let p = particle(0, 0, 3, -2, 1000);
    let q = particle(1000, 1000, -7, 11, 1000);
    let mut together = Simulation::new(UNITS_PER_TICK).unwrap();
    together.add_object(p);
    together.add_object(q);
    let mut p_alone = Simulation::new(UNITS_PER_TICK).unwrap();
    p_alone.add_object(p);
    let mut q_alone = Simulation::new(UNITS_PER_TICK).unwrap();
    q_alone.add_object(q);
    for t in [0, 35] {
        together.do_tick(t).unwrap();
        p_alone.do_tick(t).unwrap();
        q_alone.do_tick(t).unwrap();
    }
    assert_eq!(together.get_object(0).unwrap(), p_alone.get_object(0).unwrap());
    assert_eq!(together.get_object(1).unwrap(), q_alone.get_object(0).unwrap());
    // Five passes in all: one for the first call, four for the second.
    assert_eq!(together.get_object(0).unwrap().pos_x, 15);
    assert_eq!(together.get_object(0).unwrap().pos_y, -10);
    assert_eq!(together.get_object(1).unwrap().pos_x, 965);
    assert_eq!(together.get_object(1).unwrap().pos_y, 1055);
}

#[test]
fn do_draw_changes_no_state() {
    let mut sim = Simulation::new(UNITS_PER_TICK).unwrap();
    sim.add_object(particle(7, 8, 1, 1, 100));
    sim.do_tick(0).unwrap();
    let before = *sim.get_object(0).unwrap();
    sim.do_draw();
    sim.do_draw();
    assert_eq!(sim.get_tick_count(), 0);
    assert_eq!(sim.get_object_count(), 1);
    assert_eq!(*sim.get_object(0).unwrap(), before);
}

#[test]
fn position_and_age_saturate_at_the_extremes() {
    let mut sim = Simulation::new(UNITS_PER_TICK).unwrap();
    sim.add_object(Particle {
        pos_x: i64::MAX,
        pos_y: i64::MIN,
        vel_x: 1,
        vel_y: -1,
        age_ticks: u64::MAX,
        lifetime_ticks: u64::MAX,
    });
    sim.do_tick(0).unwrap();
    let p = sim.get_object(0).unwrap();
    assert_eq!(p.pos_x, i64::MAX);
    assert_eq!(p.pos_y, i64::MIN);
    assert_eq!(p.age_ticks, u64::MAX);
    assert!(p.is_expired());
}
