use crate::forks_pool::{can_take, dropped, taken, Fork, ForkGuard, ForksPool};
use crate::instructions::Instructions;
use vstd::prelude::*;

verus! {

/// How long an even-numbered philosopher holds back before first reaching for
/// a fork, in milliseconds. Neighbours then do not all reach at once.
pub const START_STAGGER: u64 = 5;

/// How often a watchdog is meant to look, in milliseconds.
pub const WATCH_INTERVAL: u64 = 5;

/// What a philosopher is seen doing. Each activity has its line in the log.
#[derive(Debug, Clone, Copy, PartialEq, Eq, Structural)]
pub enum Activity {
    TookFork,
    Eating,
    Sleeping,
    Thinking,
    Dead,
}

impl Activity {
    /// The words that the log uses for this activity.
    pub open spec fn words(self) -> Seq<char> {
        match self {
            Activity::TookFork => "took a fork"@,
            Activity::Eating => "is eating"@,
            Activity::Sleeping => "is sleeping"@,
            Activity::Thinking => "is thinking"@,
            Activity::Dead => "is dead"@,
        }
    }

    /// The words that the log uses for this activity.
    pub fn text(&self) -> (text: &'static str)
        ensures
            text@ == self.words(),
    {
        match self {
            Activity::TookFork => "took a fork",
            Activity::Eating => "is eating",
            Activity::Sleeping => "is sleeping",
            Activity::Thinking => "is thinking",
            Activity::Dead => "is dead",
        }
    }
}

/// Where a philosopher stands in the cycle of eating, sleeping and thinking.
#[derive(Debug, Clone, Copy, PartialEq, Eq, Structural)]
pub enum Phase {
    /// Holding back before the first meal, since the given time.
    Resting { since: u64 },
    /// Empty-handed and about to reach for the left fork.
    Hungry,
    /// Left fork in hand and about to reach for the right one.
    LeftTaken,
    /// Both forks in hand and about to start the meal.
    BothTaken,
    /// At the meal, both forks in hand, since the time of the last meal.
    Eating,
    /// Asleep and empty-handed, since the given time.
    Sleeping { since: u64 },
}

/// What the caller must wait for before it asks for the next step.
#[derive(Debug, Clone, Copy, PartialEq, Eq)]
pub enum Pause {
    /// Nothing: ask again at once.
    Nothing,
    /// This many milliseconds.
    For(u64),
    /// Somebody putting this fork down.
    ForFork(Fork),
    /// The end of the simulation: nothing will change any more.
    Forever,
}

/// One step of a philosopher: what to write in the log, then what to wait for.
#[derive(Debug, Clone, Copy, PartialEq, Eq)]
pub struct Step {
    pub activity: Option<Activity>,
    pub pause: Pause,
}

/// What a watchdog finds when it looks at its philosopher.
#[derive(Debug, Clone, Copy, PartialEq, Eq, Structural)]
pub enum Verdict {
    /// Nothing to report.
    Alive,
    /// Every philosopher has had the meals asked for. This ends the
    /// simulation without a line in the log.
    Satisfied,
    /// The philosopher went too long without a meal. This ends the
    /// simulation, and the log says that the philosopher is dead.
    Starved,
}

/// All that is known of one philosopher, but for the fork tokens in hand.
#[derive(Debug, Clone, Copy, PartialEq, Eq)]
pub struct PhilosopherState {
    /// The seat number, counted from 1.
    pub id: u64,
    pub left_fork: Fork,
    pub right_fork: Fork,
    pub instructions: Instructions,
    pub phase: Phase,
    /// When the last meal began, or else when the philosopher was born.
    pub last_meal: u64,
    /// How many meals have been finished.
    pub meals: u64,
}

/// The time from `since` to `now`, and nothing if `now` is the earlier.
pub open spec fn elapsed(since: u64, now: u64) -> u64 {
    if now >= since {
        (now - since) as u64
    } else {
        0
    }
}

/// True in the phases in which the left fork is in hand.
pub open spec fn holds_left(phase: Phase) -> bool {
    phase is LeftTaken || phase is BothTaken || phase is Eating
}

/// True in the phases in which the right fork is in hand.
pub open spec fn holds_right(phase: Phase) -> bool {
    phase is BothTaken || phase is Eating
}

/// True once a philosopher with `meals` finished meals counts as fed: a goal
/// is set, it is not zero, and the meals have reached it.
pub open spec fn is_fed(must_eat: Option<u64>, meals: u64) -> bool {
    must_eat matches Some(goal) && 0 < goal <= meals
}

/// The shared count of fed philosophers after one of them, who had finished
/// `meals` meals, finishes one more: it goes up only as the goal is met.
pub open spec fn counted(must_eat: Option<u64>, meals: u64, philosopher_meals: u64) -> int {
    if must_eat == Some((meals + 1) as u64) {
        philosopher_meals + 1
    } else {
        philosopher_meals as int
    }
}

/// A philosopher as `Philosopher::born` makes one: no meal yet, the clock of
/// the last meal started, and the even-numbered ones holding back.
pub open spec fn newborn(
    id: u64,
    forks: (Fork, Fork),
    now: u64,
    instructions: Instructions,
) -> PhilosopherState {
    PhilosopherState {
        id,
        left_fork: forks.0,
        right_fork: forks.1,
        instructions,
        phase: if id % 2 == 0 {
            Phase::Resting { since: now }
        } else {
            Phase::Hungry
        },
        last_meal: now,
        meals: 0,
    }
}

/// What one step leaves behind: the philosopher, the table, the shared count
/// of fed philosophers, and the step handed to the caller.
pub ghost struct Turn {
    pub state: PhilosopherState,
    pub forks: Seq<bool>,
    pub philosopher_meals: u64,
    pub step: Step,
}

/// A step that changes nothing and only tells the caller what to wait for.
pub open spec fn waiting(
    p: PhilosopherState,
    forks: Seq<bool>,
    philosopher_meals: u64,
    pause: Pause,
) -> Turn {
    Turn { state: p, forks, philosopher_meals, step: Step { activity: None, pause } }
}

/// The step of a philosopher who reaches for a fork with one hand: taken if
/// it lies on the table, waited for otherwise.
pub open spec fn reach(
    p: PhilosopherState,
    forks: Seq<bool>,
    philosopher_meals: u64,
    fork: Fork,
    then: Phase,
) -> Turn {
    if can_take(forks, fork.index as int) {
        Turn {
            state: PhilosopherState { phase: then, ..p },
            forks: taken(forks, fork.index as int),
            philosopher_meals,
            step: Step { activity: Some(Activity::TookFork), pause: Pause::Nothing },
        }
    } else {
        waiting(p, forks, philosopher_meals, Pause::ForFork(fork))
    }
}

/// The step that ends a meal: one more meal on the philosopher's own count,
/// the shared count raised if that met the goal, both forks back on the table,
/// and off to sleep.
pub open spec fn leave_table(
    p: PhilosopherState,
    forks: Seq<bool>,
    philosopher_meals: u64,
    now: u64,
) -> Turn {
    Turn {
        state: PhilosopherState {
            phase: Phase::Sleeping { since: now },
            meals: (p.meals + 1) as u64,
            ..p
        },
        forks: dropped(dropped(forks, p.left_fork.index as int), p.right_fork.index as int),
        philosopher_meals: counted(p.instructions.must_eat, p.meals, philosopher_meals) as u64,
        step: Step { activity: Some(Activity::Sleeping), pause: Pause::For(p.instructions.time_to_sleep) },
    }
}

/// The next step of philosopher `p` at time `now`, on the table `forks` and
/// with `philosopher_meals` philosophers fed so far.
pub open spec fn next_turn(
    p: PhilosopherState,
    forks: Seq<bool>,
    philosopher_meals: u64,
    now: u64,
) -> Turn {
    match p.phase {
        Phase::Resting { since } => {
            if elapsed(since, now) >= START_STAGGER {
                Turn {
                    state: PhilosopherState { phase: Phase::Hungry, ..p },
                    forks,
                    philosopher_meals,
                    step: Step { activity: None, pause: Pause::Nothing },
                }
            } else {
                waiting(
                    p,
                    forks,
                    philosopher_meals,
                    Pause::For((START_STAGGER - elapsed(since, now)) as u64),
                )
            }
        },
        Phase::Hungry => reach(p, forks, philosopher_meals, p.left_fork, Phase::LeftTaken),
        Phase::LeftTaken => reach(p, forks, philosopher_meals, p.right_fork, Phase::BothTaken),
        Phase::BothTaken => Turn {
            state: PhilosopherState { phase: Phase::Eating, last_meal: now, ..p },
            forks,
            philosopher_meals,
            step: Step {
                activity: Some(Activity::Eating),
                pause: Pause::For(p.instructions.time_to_eat),
            },
        },
        Phase::Eating => {
            if elapsed(p.last_meal, now) >= p.instructions.time_to_eat {
                leave_table(p, forks, philosopher_meals, now)
            } else {
                waiting(
                    p,
                    forks,
                    philosopher_meals,
                    Pause::For((p.instructions.time_to_eat - elapsed(p.last_meal, now)) as u64),
                )
            }
        },
        Phase::Sleeping { since } => {
            if elapsed(since, now) >= p.instructions.time_to_sleep {
                Turn {
                    state: PhilosopherState { phase: Phase::Hungry, ..p },
                    forks,
                    philosopher_meals,
                    step: Step { activity: Some(Activity::Thinking), pause: Pause::Nothing },
                }
            } else {
                waiting(
                    p,
                    forks,
                    philosopher_meals,
                    Pause::For((p.instructions.time_to_sleep - elapsed(since, now)) as u64),
                )
            }
        },
    }
}

/// True when the counters have room for the step that `p` takes next.
pub open spec fn has_room(p: PhilosopherState, philosopher_meals: u64) -> bool {
    p.phase is Eating ==> p.meals < u64::MAX && counted(
        p.instructions.must_eat,
        p.meals,
        philosopher_meals,
    ) <= u64::MAX
}

/// What the watchdog of philosopher `p` finds at time `now`, with
/// `philosopher_meals` philosophers fed so far.
pub open spec fn verdict(p: PhilosopherState, philosopher_meals: u64, now: u64) -> Verdict {
    if p.instructions.must_eat is Some && philosopher_meals
        == p.instructions.nums_of_philosophers {
        Verdict::Satisfied
    } else if elapsed(p.last_meal, now) > p.instructions.time_to_die {
        Verdict::Starved
    } else {
        Verdict::Alive
    }
}

/// The time from `since` to `now`, and nothing if `now` is the earlier.
pub fn time_since(since: u64, now: u64) -> (passed: u64)
    ensures
        passed == elapsed(since, now),
{
    if now >= since {
        now - since
    } else {
        0
    }
}

/// The forks whose tokens a philosopher in state `p` has in hand, left hand
/// first: those that the phase says are held.
pub open spec fn forks_in_hand(p: PhilosopherState) -> (Option<Fork>, Option<Fork>) {
    (
        if holds_left(p.phase) {
            Some(p.left_fork)
        } else {
            None
        },
        if holds_right(p.phase) {
            Some(p.right_fork)
        } else {
            None
        },
    )
}

/// The fork that a token stands for, if there is a token.
pub open spec fn fork_of(guard: Option<ForkGuard>) -> Option<Fork> {
    match guard {
        Some(token) => Some(Fork { index: token.index() }),
        None => None,
    }
}

/// One philosopher, with the tokens of the forks in hand.
#[derive(Debug)]
pub struct Philosopher {
    state: PhilosopherState,
    left_guard: Option<ForkGuard>,
    right_guard: Option<ForkGuard>,
}

impl View for Philosopher {
    type V = PhilosopherState;

    closed spec fn view(&self) -> PhilosopherState {
        self.state
    }
}

impl Philosopher {
    /// The forks whose tokens are in the philosopher's hands, left hand
    /// first.
    pub closed spec fn tokens(&self) -> (Option<Fork>, Option<Fork>) {
        (fork_of(self.left_guard), fork_of(self.right_guard))
    }

    /// True when the tokens in hand are those of the forks that the phase
    /// says are held.
    pub open spec fn wf(&self) -> bool {
        self.tokens() == forks_in_hand(self@)
    }

    /// Seats philosopher `id` between the two forks, left one first, at time
    /// `now`.
    pub fn born(id: u64, forks: (Fork, Fork), now: u64, instructions: Instructions) -> (p: Self)
        ensures
            p.wf(),
            p@ == newborn(id, forks, now, instructions),
            p.tokens() == (None::<Fork>, None::<Fork>),
    {
        let phase = if id % 2 == 0 {
            Phase::Resting { since: now }
        } else {
            Phase::Hungry
        };
        Philosopher {
            state: PhilosopherState {
                id,
                left_fork: forks.0,
                right_fork: forks.1,
                instructions,
                phase,
                last_meal: now,
                meals: 0,
            },
            left_guard: None,
            right_guard: None,
        }
    }

    /// All that is known of the philosopher.
    pub fn state(&self) -> (state: PhilosopherState)
        ensures
            state == self@,
    {
        self.state
    }

    /// Counts a finished meal, and counts the philosopher among the fed if
    /// that meal met the goal.
    pub fn increment_meals(meals: &mut u64, philosopher_meals: &mut u64, instructions: Instructions)
        requires
            *old(meals) < u64::MAX,
            counted(instructions.must_eat, *old(meals), *old(philosopher_meals)) <= u64::MAX,
        ensures
            *final(meals) == *old(meals) + 1,
            *final(philosopher_meals) == counted(
                instructions.must_eat,
                *old(meals),
                *old(philosopher_meals),
            ),
    {
        *meals = *meals + 1;
        if let Some(must_eat) = instructions.must_eat {
            if must_eat == *meals {
                *philosopher_meals = *philosopher_meals + 1;
            }
        }
    }

    /// Starts the clock of the last meal anew.
    fn update_last_meal(&mut self, now: u64)
        requires
            old(self).wf(),
        ensures
            final(self).wf(),
            final(self)@ == (PhilosopherState { last_meal: now, ..old(self)@ }),
    {
        self.state.last_meal = now;
    }

    /// Wakes up to think, which takes no time and leaves the philosopher
    /// hungry.
    fn think(&mut self) -> (step: Step)
        requires
            old(self).wf(),
            old(self)@.phase is Sleeping,
        ensures
            final(self).wf(),
            final(self)@ == (PhilosopherState { phase: Phase::Hungry, ..old(self)@ }),
            step == (Step { activity: Some(Activity::Thinking), pause: Pause::Nothing }),
    {
        self.state.phase = Phase::Hungry;
        Step { activity: Some(Activity::Thinking), pause: Pause::Nothing }
    }

    /// Goes to sleep, empty-handed, at time `now`.
    fn sleep(&mut self, now: u64) -> (step: Step)
        requires
            old(self).left_guard is None,
            old(self).right_guard is None,
        ensures
            final(self).wf(),
            final(self)@ == (PhilosopherState {
                phase: Phase::Sleeping { since: now },
                ..old(self)@
            }),
            step == (Step {
                activity: Some(Activity::Sleeping),
                pause: Pause::For(old(self)@.instructions.time_to_sleep),
            }),
    {
        self.state.phase = Phase::Sleeping { since: now };
        Step {
            activity: Some(Activity::Sleeping),
            pause: Pause::For(self.state.instructions.time_to_sleep),
        }
    }

    /// Takes the meal one step further: reaches for the next fork, sits down
    /// to eat, or, once the meal has lasted its time, counts it, puts the
    /// forks down and goes to sleep.
    fn eat(&mut self, forks: &mut ForksPool, philosopher_meals: &mut u64, now: u64) -> (step: Step)
        requires
            old(self).wf(),
            holds_left(old(self)@.phase) || old(self)@.phase is Hungry,
            has_room(old(self)@, *old(philosopher_meals)),
        ensures
            final(self).wf(),
            (Turn {
                state: final(self)@,
                forks: final(forks)@,
                philosopher_meals: *final(philosopher_meals),
                step,
            }) == next_turn(old(self)@, old(forks)@, *old(philosopher_meals), now),
    {
        match self.state.phase {
            Phase::Hungry => {
                let guard = forks.take_fork(&self.state.left_fork);
                if guard.is_some() {
                    self.left_guard = guard;
                    self.state.phase = Phase::LeftTaken;
                    Step { activity: Some(Activity::TookFork), pause: Pause::Nothing }
                } else {
                    Step { activity: None, pause: Pause::ForFork(self.state.left_fork) }
                }
            },
            Phase::LeftTaken => {
                let guard = forks.take_fork(&self.state.right_fork);
                if guard.is_some() {
                    self.right_guard = guard;
                    self.state.phase = Phase::BothTaken;
                    Step { activity: Some(Activity::TookFork), pause: Pause::Nothing }
                } else {
                    Step { activity: None, pause: Pause::ForFork(self.state.right_fork) }
                }
            },
            Phase::BothTaken => {
                self.update_last_meal(now);
                self.state.phase = Phase::Eating;
                Step {
                    activity: Some(Activity::Eating),
                    pause: Pause::For(self.state.instructions.time_to_eat),
                }
            },
            // At the meal: the phases without a fork in hand are not met here.
            _ => {
                let passed: u64 = time_since(self.state.last_meal, now);
                if passed >= self.state.instructions.time_to_eat {
                    Self::increment_meals(
                        &mut self.state.meals,
                        philosopher_meals,
                        self.state.instructions,
                    );
                    if let Some(guard) = self.left_guard.take() {
                        forks.drop_fork(guard);
                    }
                    if let Some(guard) = self.right_guard.take() {
                        forks.drop_fork(guard);
                    }
                    self.sleep(now)
                } else {
                    Step {
                        activity: None,
                        pause: Pause::For(self.state.instructions.time_to_eat - passed),
                    }
                }
            },
        }
    }

    /// The philosopher's next step at time `now`.
    ///
    /// The step never waits: where the philosopher cannot go on, the state
    /// stays as it is and the step says what to wait for.
    pub fn advance(
        &mut self,
        forks: &mut ForksPool,
        philosopher_meals: &mut u64,
        now: u64,
    ) -> (step: Step)
        requires
            old(self).wf(),
            has_room(old(self)@, *old(philosopher_meals)),
        ensures
            final(self).wf(),
            (Turn {
                state: final(self)@,
                forks: final(forks)@,
                philosopher_meals: *final(philosopher_meals),
                step,
            }) == next_turn(old(self)@, old(forks)@, *old(philosopher_meals), now),
    {
        match self.state.phase {
            Phase::Resting { since } => {
                let passed: u64 = time_since(since, now);
                if passed >= START_STAGGER {
                    self.state.phase = Phase::Hungry;
                    Step { activity: None, pause: Pause::Nothing }
                } else {
                    Step { activity: None, pause: Pause::For(START_STAGGER - passed) }
                }
            },
            Phase::Sleeping { since } => {
                let passed: u64 = time_since(since, now);
                if passed >= self.state.instructions.time_to_sleep {
                    self.think()
                } else {
                    Step {
                        activity: None,
                        pause: Pause::For(self.state.instructions.time_to_sleep - passed),
                    }
                }
            },
            _ => self.eat(forks, philosopher_meals, now),
        }
    }

    /// What this philosopher's watchdog finds at time `now`, with
    /// `philosopher_meals` philosophers fed so far.
    pub fn watch(&self, philosopher_meals: u64, now: u64) -> (found: Verdict)
        ensures
            found == verdict(self@, philosopher_meals, now),
    {
        if self.state.instructions.must_eat.is_some() && philosopher_meals
            == self.state.instructions.nums_of_philosophers {
            Verdict::Satisfied
        } else if time_since(self.state.last_meal, now) > self.state.instructions.time_to_die {
            Verdict::Starved
        } else {
            Verdict::Alive
        }
    }
}

} // verus!
