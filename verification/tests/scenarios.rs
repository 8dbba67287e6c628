use philosophers::forks_pool::Fork;
use philosophers::instructions::Instructions;
use philosophers::philosopher::{Activity, Pause, Phase, Step, Verdict, WATCH_INTERVAL};
use philosophers::philosopher_maker::PhilosopherMaker;
use philosophers::simulation::{Ending, Simulation};

fn orders(
    nums_of_philosophers: u64,
    time_to_die: u64,
    time_to_eat: u64,
    time_to_sleep: u64,
    must_eat: Option<u64>,
) -> Instructions {
    Instructions { nums_of_philosophers, time_to_die, time_to_eat, time_to_sleep, must_eat }
}

fn holds_left(phase: Phase) -> bool {
    matches!(phase, Phase::LeftTaken | Phase::BothTaken | Phase::Eating)
}

fn holds_right(phase: Phase) -> bool {
    matches!(phase, Phase::BothTaken | Phase::Eating)
}

/// Asserts what must hold of the table at every moment.
fn inspect_table(simulation: &Simulation, fed_before: u64) {
    let n = simulation.len();
    for who in 0..n {
        let here = simulation.philosopher(who);
        let next = simulation.philosopher((who + 1) % n);
        assert_eq!(here.right_fork, next.left_fork);
        assert!(!(holds_right(here.phase) && holds_left(next.phase)));
        assert_eq!(
            simulation.is_taken(&here.right_fork),
            holds_right(here.phase) || holds_left(next.phase)
        );
    }
    assert!(fed_before <= simulation.philosopher_meals());
    assert!(simulation.philosopher_meals() <= n as u64);
    if let Some(goal) = simulation.instructions().must_eat {
        let fed = (0..n).filter(|&who| goal > 0 && simulation.philosopher(who).meals >= goal).count();
        assert_eq!(simulation.philosopher_meals(), fed as u64);
    } else {
        assert_eq!(simulation.philosopher_meals(), 0);
    }
}

/// Plays a simulation that began at time 0 in steps of one millisecond: at
/// each one every philosopher in seat order goes on until there is something
/// to wait for, and at each watch interval every watchdog looks, in seat order
/// too.
fn play(simulation: &mut Simulation, from: u64, until: u64) -> Vec<(u64, u64, Activity)> {
    let mut log = Vec::new();
    for now in from..=until {
        for who in 0..simulation.len() {
            loop {
                let fed_before = simulation.philosopher_meals();
                let step = simulation.advance(who, now);
                inspect_table(simulation, fed_before);
                if let Some(activity) = step.activity {
                    log.push((now, who as u64 + 1, activity));
                }
                if step.pause != Pause::Nothing {
                    break;
                }
            }
        }
        if now > 0 && now % WATCH_INTERVAL == 0 {
            for who in 0..simulation.len() {
                if simulation.watch(who, now) == Some(Verdict::Starved) {
                    log.push((now, who as u64 + 1, Activity::Dead));
                }
            }
        }
    }
    log
}

#[test]
fn four_at_ease_do_not_starve_in_five_seconds() {
    let mut simulation =
        PhilosopherMaker::init(orders(4, 800, 200, 200, None)).start_simulation(0);
    let log = play(&mut simulation, 0, 5000);
    assert!(log.iter().all(|line| line.2 != Activity::Dead));
    assert_eq!(simulation.ended(), None);
    assert_eq!(
        log[..6],
        [
            (0, 1, Activity::TookFork),
            (0, 1, Activity::TookFork),
            (0, 1, Activity::Eating),
            (0, 3, Activity::TookFork),
            (0, 3, Activity::TookFork),
            (0, 3, Activity::Eating),
        ]
    );
    for who in 0..4 {
        assert!(simulation.philosopher(who).meals >= 5);
        assert!(5000 - simulation.philosopher(who).last_meal <= 800);
    }
    assert_eq!(simulation.philosopher_meals(), 0);
}

#[test]
fn four_in_haste_lose_one_and_fall_silent() {
    let mut simulation =
        PhilosopherMaker::init(orders(4, 150, 200, 200, None)).start_simulation(0);
    let log = play(&mut simulation, 0, 1000);
    assert_eq!(
        log,
        [
            (0, 1, Activity::TookFork),
            (0, 1, Activity::TookFork),
            (0, 1, Activity::Eating),
            (0, 3, Activity::TookFork),
            (0, 3, Activity::TookFork),
            (0, 3, Activity::Eating),
            (155, 1, Activity::Dead),
        ]
    );
    let deaths: Vec<_> = log.iter().filter(|line| line.2 == Activity::Dead).collect();
    assert_eq!(deaths.len(), 1);
    assert!(150 <= deaths[0].0 && deaths[0].0 <= 250);
    assert_eq!(simulation.ended(), Some(Ending { by: 1, verdict: Verdict::Starved, at: 155 }));
}

#[test]
fn five_with_a_goal_of_three_end_when_the_last_is_fed() {
    let mut simulation =
        PhilosopherMaker::init(orders(5, 2000, 200, 200, Some(3))).start_simulation(0);
    let mut now: u64 = 0;
    let mut log = Vec::new();
    while simulation.ended().is_none() {
        assert!(now < 10_000);
        log.extend(play(&mut simulation, now, now));
        let all_fed = (0..5).all(|who| simulation.philosopher(who).meals >= 3);
        assert_eq!(simulation.philosopher_meals() == 5, all_fed);
        if !all_fed {
            assert_eq!(simulation.ended(), None);
        }
        now += 1;
    }
    let ending = simulation.ended().unwrap();
    assert_eq!(ending.verdict, Verdict::Satisfied);
    assert_eq!(ending.by, 1);
    assert_eq!(ending.at, now - 1);
    assert_eq!(simulation.philosopher_meals(), 5);
    for who in 0..5 {
        assert!(simulation.philosopher(who).meals >= 3);
        let meals = log
            .iter()
            .filter(|line| line.1 == who as u64 + 1 && line.2 == Activity::Sleeping)
            .count();
        assert_eq!(meals as u64, simulation.philosopher(who).meals);
    }
    assert!((0..5).any(|who| simulation.philosopher(who).meals == 3));
    assert!(log.iter().all(|line| line.2 != Activity::Dead));
}

#[test]
fn lone_philosopher_takes_the_one_fork_and_starves() {
    let mut simulation =
        PhilosopherMaker::init(orders(1, 800, 200, 200, Some(1))).start_simulation(0);
    let log = play(&mut simulation, 0, 2000);
    assert_eq!(log, [(0, 1, Activity::TookFork), (805, 1, Activity::Dead)]);
    let state = simulation.philosopher(0);
    assert_eq!(state.left_fork, state.right_fork);
    assert_eq!(state.phase, Phase::LeftTaken);
    assert_eq!(state.meals, 0);
    assert_eq!(state.last_meal, 0);
    assert_eq!(simulation.philosopher_meals(), 0);
    assert_eq!(simulation.ended(), Some(Ending { by: 1, verdict: Verdict::Starved, at: 805 }));
}

#[test]
fn lone_philosopher_reaches_in_vain_for_the_fork_in_hand() {
    let mut simulation =
        PhilosopherMaker::init(orders(1, 800, 200, 200, None)).start_simulation(0);
    assert_eq!(
        simulation.advance(0, 0),
        Step { activity: Some(Activity::TookFork), pause: Pause::Nothing }
    );
    for now in 0..10 {
        assert_eq!(
            simulation.advance(0, now),
            Step { activity: None, pause: Pause::ForFork(Fork { index: 0 }) }
        );
        assert_eq!(simulation.philosopher(0).phase, Phase::LeftTaken);
        assert!(simulation.is_taken(&Fork { index: 0 }));
    }
}

#[test]
fn advance_takes_a_fork_from_the_shared_table() {
    let mut simulation =
        PhilosopherMaker::init(orders(3, 800, 200, 200, None)).start_simulation(0);
    assert_eq!(
        simulation.advance(0, 0),
        Step { activity: Some(Activity::TookFork), pause: Pause::Nothing }
    );
    assert!(simulation.is_taken(&Fork { index: 0 }));
    assert!(!simulation.is_taken(&Fork { index: 1 }));
    assert!(!simulation.is_taken(&Fork { index: 2 }));
    assert_eq!(simulation.philosopher(0).phase, Phase::LeftTaken);
    assert_eq!(simulation.philosopher(1).phase, Phase::Resting { since: 0 });
    assert_eq!(simulation.philosopher(2).phase, Phase::Hungry);
}

#[test]
fn advance_makes_a_neighbour_wait_for_the_shared_fork() {
    let mut simulation =
        PhilosopherMaker::init(orders(3, 800, 200, 200, None)).start_simulation(0);
    simulation.advance(0, 0);
    simulation.advance(0, 0);
    assert_eq!(simulation.philosopher(0).phase, Phase::BothTaken);
    assert_eq!(
        simulation.advance(2, 0),
        Step { activity: Some(Activity::TookFork), pause: Pause::Nothing }
    );
    assert_eq!(
        simulation.advance(2, 0),
        Step { activity: None, pause: Pause::ForFork(Fork { index: 0 }) }
    );
    assert_eq!(simulation.advance(1, 5), Step { activity: None, pause: Pause::Nothing });
    assert_eq!(
        simulation.advance(1, 5),
        Step { activity: None, pause: Pause::ForFork(Fork { index: 1 }) }
    );
    assert_eq!(simulation.philosopher(1).phase, Phase::Hungry);
    assert_eq!(simulation.philosopher(2).phase, Phase::LeftTaken);
}

#[test]
fn advance_counts_the_fed_as_each_meets_the_goal() {
    let mut simulation =
        PhilosopherMaker::init(orders(3, 800, 10, 10, Some(1))).start_simulation(0);
    simulation.advance(0, 0);
    simulation.advance(0, 0);
    simulation.advance(0, 0);
    assert_eq!(simulation.philosopher_meals(), 0);
    assert_eq!(
        simulation.advance(0, 10),
        Step { activity: Some(Activity::Sleeping), pause: Pause::For(10) }
    );
    assert_eq!(simulation.philosopher(0).meals, 1);
    assert_eq!(simulation.philosopher_meals(), 1);
    assert_eq!(simulation.watch(0, 10), Some(Verdict::Alive));
    assert_eq!(simulation.ended(), None);
}

#[test]
fn watch_reports_alive_and_leaves_the_simulation_running() {
    let mut simulation =
        PhilosopherMaker::init(orders(2, 800, 200, 200, None)).start_simulation(0);
    assert_eq!(simulation.watch(0, 5), Some(Verdict::Alive));
    assert_eq!(simulation.watch(1, 800), Some(Verdict::Alive));
    assert_eq!(simulation.ended(), None);
}

#[test]
fn watch_ends_the_simulation_once() {
    let mut simulation =
        PhilosopherMaker::init(orders(2, 800, 200, 200, None)).start_simulation(0);
    assert_eq!(simulation.watch(1, 801), Some(Verdict::Starved));
    let ending = Some(Ending { by: 2, verdict: Verdict::Starved, at: 801 });
    assert_eq!(simulation.ended(), ending);
    assert_eq!(simulation.watch(0, 802), None);
    assert_eq!(simulation.watch(1, 900), None);
    assert_eq!(simulation.ended(), ending);
}

#[test]
fn advance_after_the_end_changes_nothing() {
    let mut simulation =
        PhilosopherMaker::init(orders(2, 800, 200, 200, None)).start_simulation(0);
    simulation.advance(0, 0);
    assert_eq!(simulation.watch(0, 801), Some(Verdict::Starved));
    let before = [simulation.philosopher(0), simulation.philosopher(1)];
    for now in 801..820 {
        for who in 0..2 {
            assert_eq!(
                simulation.advance(who, now),
                Step { activity: None, pause: Pause::Forever }
            );
        }
    }
    assert_eq!([simulation.philosopher(0), simulation.philosopher(1)], before);
    assert!(simulation.is_taken(&Fork { index: 0 }));
    assert!(!simulation.is_taken(&Fork { index: 1 }));
}

#[test]
fn watch_is_satisfied_only_when_the_last_philosopher_is_fed() {
    let mut simulation =
        PhilosopherMaker::init(orders(2, 800, 10, 10, Some(1))).start_simulation(0);
    for _ in 0..3 {
        simulation.advance(0, 0);
    }
    simulation.advance(0, 10);
    assert_eq!(simulation.philosopher_meals(), 1);
    assert_eq!(simulation.watch(0, 10), Some(Verdict::Alive));
    assert_eq!(simulation.watch(1, 10), Some(Verdict::Alive));
    for _ in 0..4 {
        simulation.advance(1, 10);
    }
    assert_eq!(simulation.philosopher(1).phase, Phase::Eating);
    assert_eq!(simulation.watch(1, 19), Some(Verdict::Alive));
    simulation.advance(1, 20);
    assert_eq!(simulation.philosopher(1).meals, 1);
    assert_eq!(simulation.philosopher_meals(), 2);
    assert_eq!(simulation.watch(1, 20), Some(Verdict::Satisfied));
    assert_eq!(simulation.ended(), Some(Ending { by: 2, verdict: Verdict::Satisfied, at: 20 }));
}

#[test]
fn a_goal_of_zero_is_never_met() {
    let mut simulation =
        PhilosopherMaker::init(orders(2, 100_000, 10, 10, Some(0))).start_simulation(0);
    play(&mut simulation, 0, 500);
    assert!(simulation.philosopher(0).meals > 0);
    assert!(simulation.philosopher(1).meals > 0);
    assert_eq!(simulation.philosopher_meals(), 0);
    assert_eq!(simulation.ended(), None);
}
