use philosophers::forks_pool::Fork;
use philosophers::instructions::Instructions;
use philosophers::philosopher::Phase;
use philosophers::philosopher_maker::PhilosopherMaker;

fn orders(nums_of_philosophers: u64) -> Instructions {
    Instructions {
        nums_of_philosophers,
        time_to_die: 800,
        time_to_eat: 200,
        time_to_sleep: 200,
        must_eat: None,
    }
}

#[test]
fn init_has_made_nobody() {
    let maker = PhilosopherMaker::init(orders(4));
    assert_eq!(maker.philosopher_made(), 0);
    assert_eq!(maker.instructions(), orders(4));
}

#[test]
fn make_numbers_the_philosophers_from_one() {
    let mut maker = PhilosopherMaker::init(orders(3));
    assert_eq!(maker.make(0).state().id, 1);
    assert_eq!(maker.make(0).state().id, 2);
    assert_eq!(maker.make(0).state().id, 3);
    assert_eq!(maker.philosopher_made(), 3);
}

#[test]
fn make_seats_each_between_neighbouring_forks() {
    let mut maker = PhilosopherMaker::init(orders(4));
    let expected = [(0, 1), (1, 2), (2, 3), (3, 0)];
    for (left, right) in expected {
        let state = maker.make(7).state();
        assert_eq!(state.left_fork, Fork { index: left });
        assert_eq!(state.right_fork, Fork { index: right });
        assert_eq!(state.instructions, orders(4));
        assert_eq!(state.last_meal, 7);
        assert_eq!(state.meals, 0);
    }
}

#[test]
fn make_closes_the_ring() {
    for n in 1..=9 {
        let mut maker = PhilosopherMaker::init(orders(n));
        let first = maker.make(0).state();
        let mut last = first;
        for _ in 1..n {
            let next = maker.make(0).state();
            assert_eq!(last.right_fork, next.left_fork);
            last = next;
        }
        assert_eq!(last.id, n);
        assert_eq!(last.right_fork, first.left_fork);
        assert_eq!(first.left_fork, Fork { index: 0 });
    }
}

#[test]
fn make_beyond_the_table_goes_round_again() {
    let mut maker = PhilosopherMaker::init(orders(2));
    maker.make(0);
    maker.make(0);
    let third = maker.make(0).state();
    assert_eq!(third.id, 3);
    assert_eq!(third.left_fork, Fork { index: 0 });
    assert_eq!(third.right_fork, Fork { index: 1 });
}

#[test]
fn make_staggers_the_even_numbered() {
    let mut maker = PhilosopherMaker::init(orders(4));
    assert_eq!(maker.make(9).state().phase, Phase::Hungry);
    assert_eq!(maker.make(9).state().phase, Phase::Resting { since: 9 });
    assert_eq!(maker.make(9).state().phase, Phase::Hungry);
    assert_eq!(maker.make(9).state().phase, Phase::Resting { since: 9 });
}

#[test]
fn start_simulation_seats_everyone_at_an_untouched_table() {
    let simulation = PhilosopherMaker::init(orders(5)).start_simulation(3);
    assert_eq!(simulation.len(), 5);
    assert_eq!(simulation.instructions(), orders(5));
    assert_eq!(simulation.philosopher_meals(), 0);
    assert_eq!(simulation.ended(), None);
    for who in 0..5 {
        let state = simulation.philosopher(who);
        assert_eq!(state.id, who as u64 + 1);
        assert_eq!(state.left_fork, Fork { index: who });
        assert_eq!(state.right_fork, Fork { index: (who + 1) % 5 });
        assert_eq!(state.instructions, orders(5));
        assert_eq!(state.last_meal, 3);
        assert_eq!(state.meals, 0);
        let phase = if who % 2 == 0 { Phase::Hungry } else { Phase::Resting { since: 3 } };
        assert_eq!(state.phase, phase);
        assert!(!simulation.is_taken(&Fork { index: who }));
    }
    assert!(simulation.is_taken(&Fork { index: 5 }));
}

#[test]
fn start_simulation_for_one_gives_the_same_fork_twice() {
    let simulation = PhilosopherMaker::init(orders(1)).start_simulation(0);
    assert_eq!(simulation.len(), 1);
    let state = simulation.philosopher(0);
    assert_eq!(state.left_fork, Fork { index: 0 });
    assert_eq!(state.right_fork, Fork { index: 0 });
}
