use crate::forks_pool::{can_take, Fork, ForksPool};
use crate::instructions::Instructions;
use crate::philosopher::{
    elapsed, has_room, holds_left, holds_right, is_fed, newborn, next_turn, verdict, Pause,
    Philosopher, PhilosopherState, Step, Verdict,
};
use vstd::prelude::*;

verus! {

/// How a simulation ended: the one signal that a watchdog sent.
#[derive(Debug, Clone, Copy, PartialEq, Eq)]
pub struct Ending {
    /// The philosopher whose watchdog sent the signal.
    pub by: u64,
    /// What that watchdog had found.
    pub verdict: Verdict,
    /// When it looked.
    pub at: u64,
}

/// The whole table at one moment.
pub ghost struct SimulationState {
    pub instructions: Instructions,
    /// One flag per fork, in table order: true while the fork is taken.
    pub forks: Seq<bool>,
    /// The philosophers in seat order. The one at place `i` has fork `i` to
    /// the left.
    pub philosophers: Seq<PhilosopherState>,
    /// How many philosophers have been counted as fed.
    pub philosopher_meals: u64,
    /// The signal that ended the simulation, once there is one.
    pub ended: Option<Ending>,
}

/// The place to the right of place `i` at a round table of `n`.
pub open spec fn right_of(i: int, n: int) -> int {
    if i + 1 == n {
        0
    } else {
        i + 1
    }
}

/// The place to the left of place `i` at a round table of `n`.
pub open spec fn left_of(i: int, n: int) -> int {
    if i == 0 {
        n - 1
    } else {
        i - 1
    }
}

/// How many of the philosophers `ps` are fed under the goal `must_eat`.
pub open spec fn fed_count(ps: Seq<PhilosopherState>, must_eat: Option<u64>) -> nat
    decreases ps.len(),
{
    if ps.len() == 0 {
        0
    } else {
        fed_count(ps.drop_last(), must_eat) + if is_fed(must_eat, ps.last().meals) {
            1nat
        } else {
            0nat
        }
    }
}

/// True when `p` is the philosopher that belongs at place `i`: numbered from
/// 1, fork `i` to the left, the next fork round the table to the right.
pub open spec fn seated(p: PhilosopherState, i: int, instructions: Instructions) -> bool {
    &&& p.id == i + 1
    &&& p.left_fork.index == i
    &&& p.right_fork.index == right_of(i, instructions.nums_of_philosophers as int)
    &&& p.instructions == instructions
}

/// What holds of the table at every moment of a simulation.
///
/// Somebody sits at the table, and everyone sits in place. A fork is marked
/// as taken exactly while one of the two philosophers beside it has it in
/// hand, and never both have. The shared count is the number of fed
/// philosophers. An ending, once there, is what the watchdog that sent it had
/// found.
pub open spec fn consistent(s: SimulationState) -> bool {
    let n = s.instructions.nums_of_philosophers as int;
    &&& s.instructions.wf()
    &&& s.forks.len() == n
    &&& s.philosophers.len() == n
    &&& forall|i: int| 0 <= i < n ==> seated(#[trigger] s.philosophers[i], i, s.instructions)
    &&& forall|f: int|
        0 <= f < n ==> #[trigger] s.forks[f] == (holds_left(s.philosophers[f].phase)
            || holds_right(s.philosophers[left_of(f, n)].phase))
    &&& forall|f: int|
        0 <= f < n ==> !(holds_left((#[trigger] s.philosophers[f]).phase) && holds_right(
            s.philosophers[left_of(f, n)].phase,
        ))
    &&& s.philosopher_meals == fed_count(s.philosophers, s.instructions.must_eat)
    &&& s.ended matches Some(ending) ==> {
        &&& 1 <= ending.by <= n
        &&& !(ending.verdict is Alive)
        &&& ending.verdict == verdict(
            s.philosophers[ending.by - 1],
            s.philosopher_meals,
            ending.at,
        )
    }
}

/// The table as a simulation begins at time `now`: all forks down, nobody
/// fed, no ending, and every philosopher newly born in place.
pub open spec fn starting(instructions: Instructions, now: u64) -> SimulationState {
    let n = instructions.nums_of_philosophers as int;
    SimulationState {
        instructions,
        forks: Seq::new(n as nat, |i: int| false),
        philosophers: Seq::new(
            n as nat,
            |i: int|
                newborn(
                    (i + 1) as u64,
                    (Fork { index: i as usize }, Fork { index: right_of(i, n) as usize }),
                    now,
                    instructions,
                ),
        ),
        philosopher_meals: 0,
        ended: None,
    }
}

/// The table after the philosopher at place `who` took the next step at time
/// `now`, and that step. After the ending nobody moves.
pub open spec fn advanced(s: SimulationState, who: int, now: u64) -> (SimulationState, Step) {
    if s.ended is Some {
        (s, Step { activity: None, pause: Pause::Forever })
    } else {
        let turn = next_turn(s.philosophers[who], s.forks, s.philosopher_meals, now);
        (
            SimulationState {
                forks: turn.forks,
                philosophers: s.philosophers.update(who, turn.state),
                philosopher_meals: turn.philosopher_meals,
                ..s
            },
            turn.step,
        )
    }
}

/// The table after the watchdog of the philosopher at place `who` looked at
/// time `now`, and what it reports: nothing once the simulation has ended,
/// else what it found. The first finding other than `Alive` is the ending.
pub open spec fn watched(s: SimulationState, who: int, now: u64) -> (
    SimulationState,
    Option<Verdict>,
) {
    if s.ended is Some {
        (s, None)
    } else {
        let found = verdict(s.philosophers[who], s.philosopher_meals, now);
        if found is Alive {
            (s, Some(found))
        } else {
            (
                SimulationState {
                    ended: Some(Ending { by: s.philosophers[who].id, verdict: found, at: now }),
                    ..s
                },
                Some(found),
            )
        }
    }
}

/// No more philosophers are fed than there are.
pub proof fn lemma_fed_count_bound(ps: Seq<PhilosopherState>, must_eat: Option<u64>)
    ensures
        fed_count(ps, must_eat) <= ps.len(),
    decreases ps.len(),
{
    if ps.len() > 0 {
        lemma_fed_count_bound(ps.drop_last(), must_eat);
    }
}

/// Replacing one philosopher changes the count of the fed by that one alone.
pub proof fn lemma_fed_count_update(
    ps: Seq<PhilosopherState>,
    must_eat: Option<u64>,
    i: int,
    p: PhilosopherState,
)
    requires
        0 <= i < ps.len(),
    ensures
        fed_count(ps.update(i, p), must_eat) == fed_count(ps, must_eat) - (if is_fed(
            must_eat,
            ps[i].meals,
        ) {
            1int
        } else {
            0int
        }) + (if is_fed(must_eat, p.meals) {
            1int
        } else {
            0int
        }),
    decreases ps.len(),
{
    if i == ps.len() - 1 {
        assert(ps.update(i, p).drop_last() =~= ps.drop_last());
    } else {
        lemma_fed_count_update(ps.drop_last(), must_eat, i, p);
        assert(ps.update(i, p).drop_last() =~= ps.drop_last().update(i, p));
    }
}

/// The count of the fed is the number of philosophers exactly when each one
/// of them is fed.
pub proof fn lemma_fed_count_full(ps: Seq<PhilosopherState>, must_eat: Option<u64>)
    ensures
        fed_count(ps, must_eat) == ps.len() <==> (forall|i: int|
            0 <= i < ps.len() ==> is_fed(must_eat, (#[trigger] ps[i]).meals)),
    decreases ps.len(),
{
    if ps.len() > 0 {
        let front = ps.drop_last();
        lemma_fed_count_full(front, must_eat);
        lemma_fed_count_bound(front, must_eat);
        if fed_count(ps, must_eat) == ps.len() {
            assert forall|i: int| 0 <= i < ps.len() implies is_fed(
                must_eat,
                (#[trigger] ps[i]).meals,
            ) by {
                if i < ps.len() - 1 {
                    assert(ps[i] == front[i]);
                }
            }
        }
    }
}

/// A simulation begins in a consistent state.
pub proof fn lemma_starting_is_consistent(instructions: Instructions, now: u64)
    requires
        instructions.wf(),
        instructions.nums_of_philosophers <= usize::MAX,
    ensures
        consistent(starting(instructions, now)),
{
    let s = starting(instructions, now);
    lemma_nobody_fed(s.philosophers, instructions.must_eat);
}

/// Philosophers without a finished meal are not fed.
proof fn lemma_nobody_fed(ps: Seq<PhilosopherState>, must_eat: Option<u64>)
    requires
        forall|i: int| 0 <= i < ps.len() ==> (#[trigger] ps[i]).meals == 0,
    ensures
        fed_count(ps, must_eat) == 0,
    decreases ps.len(),
{
    if ps.len() > 0 {
        lemma_nobody_fed(ps.drop_last(), must_eat);
    }
}

/// A philosopher who is about to finish a meal in a consistent state finds
/// room in the shared count.
pub proof fn lemma_room_in_count(s: SimulationState, who: int)
    requires
        consistent(s),
        0 <= who < s.philosophers.len(),
        s.philosophers[who].meals < u64::MAX,
    ensures
        has_room(s.philosophers[who], s.philosopher_meals),
{
    let p = s.philosophers[who];
    let must_eat = s.instructions.must_eat;
    if must_eat == Some((p.meals + 1) as u64) {
        let q = PhilosopherState { meals: (p.meals + 1) as u64, ..p };
        lemma_fed_count_update(s.philosophers, must_eat, who, q);
        lemma_fed_count_bound(s.philosophers.update(who, q), must_eat);
    }
}

/// A step of any philosopher at any time leaves a consistent state
/// consistent.
pub proof fn lemma_advance_keeps_consistent(s: SimulationState, who: int, now: u64)
    requires
        consistent(s),
        0 <= who < s.philosophers.len(),
        s.philosophers[who].meals < u64::MAX,
    ensures
        consistent(advanced(s, who, now).0),
{
    if s.ended is None {
        let moved = advanced(s, who, now).0.philosophers[who];
        lemma_room_in_count(s, who);
        lemma_fed_count_update(s.philosophers, s.instructions.must_eat, who, moved);
    }
}

/// A look of any watchdog at any time leaves a consistent state consistent.
pub proof fn lemma_watch_keeps_consistent(s: SimulationState, who: int, now: u64)
    requires
        consistent(s),
        0 <= who < s.philosophers.len(),
    ensures
        consistent(watched(s, who, now).0),
{
}

/// Two neighbours never both have in hand the fork that lies between them,
/// and the table marks that fork as taken exactly while one of them has.
pub proof fn lemma_mutual_exclusion(s: SimulationState, i: int)
    requires
        consistent(s),
        0 <= i < s.philosophers.len(),
    ensures
        ({
            let n = s.instructions.nums_of_philosophers as int;
            let left = s.philosophers[i];
            let right = s.philosophers[right_of(i, n)];
            &&& left.right_fork == right.left_fork
            &&& !(holds_right(left.phase) && holds_left(right.phase))
            &&& s.forks[left.right_fork.index as int] == (holds_right(left.phase) || holds_left(
                right.phase,
            ))
        }),
{
}

/// Each fork lies between two seats and no others: it is the left fork of
/// the philosopher at its own place and the right fork of the one to the
/// left of that place.
pub proof fn lemma_each_fork_has_two_neighbours(s: SimulationState, f: int, i: int)
    requires
        consistent(s),
        0 <= f < s.forks.len(),
        0 <= i < s.philosophers.len(),
    ensures
        s.philosophers[i].left_fork.index == f <==> i == f,
        s.philosophers[i].right_fork.index == f <==> i == left_of(
            f,
            s.instructions.nums_of_philosophers as int,
        ),
{
}

/// A step moves the philosopher who takes it and nobody else, and a look of
/// a watchdog moves nobody.
pub proof fn lemma_a_step_moves_one_philosopher(s: SimulationState, who: int, now: u64, i: int)
    requires
        0 <= who < s.philosophers.len(),
        0 <= i < s.philosophers.len(),
        i != who,
    ensures
        advanced(s, who, now).0.philosophers[i] == s.philosophers[i],
        watched(s, who, now).0.philosophers == s.philosophers,
        watched(s, who, now).0.forks == s.forks,
        watched(s, who, now).0.philosopher_meals == s.philosopher_meals,
{
}

/// With a goal of at least one meal, a watchdog finds the table satisfied
/// exactly when every philosopher has finished as many meals as the goal
/// asks, and never before.
pub proof fn lemma_satisfied_exactly_when_all_fed(s: SimulationState, who: int, now: u64)
    requires
        consistent(s),
        0 <= who < s.philosophers.len(),
        s.instructions.must_eat matches Some(goal) && goal >= 1,
    ensures
        verdict(s.philosophers[who], s.philosopher_meals, now) is Satisfied <==> (forall|i: int|
            0 <= i < s.philosophers.len() ==> (#[trigger] s.philosophers[i]).meals
                >= s.instructions.must_eat->0),
{
    lemma_fed_count_full(s.philosophers, s.instructions.must_eat);
}

/// A simulation that ended as satisfied had a goal, and every philosopher
/// is counted as fed.
pub proof fn lemma_satisfied_ending(s: SimulationState)
    requires
        consistent(s),
        s.ended matches Some(ending) && ending.verdict is Satisfied,
    ensures
        s.instructions.must_eat is Some,
        s.philosopher_meals == s.philosophers.len(),
        forall|i: int|
            0 <= i < s.philosophers.len() ==> is_fed(
                s.instructions.must_eat,
                (#[trigger] s.philosophers[i]).meals,
            ),
{
    lemma_fed_count_full(s.philosophers, s.instructions.must_eat);
}

/// A simulation that ended as starved names a philosopher who, when the
/// watchdog looked, had gone longer than the time to die without a meal.
pub proof fn lemma_starved_ending(s: SimulationState)
    requires
        consistent(s),
        s.ended matches Some(ending) && ending.verdict is Starved,
    ensures
        ({
            let ending = s.ended->0;
            &&& 1 <= ending.by <= s.philosophers.len()
            &&& elapsed(s.philosophers[ending.by - 1].last_meal, ending.at)
                > s.instructions.time_to_die
        }),
{
}

/// A philosopher alone at the table has one fork, which lies to the left
/// and to the right at once. With that fork in the left hand the philosopher
/// reaches for it with the right in vain: the step changes nothing and says
/// to wait for the fork. So the lone philosopher is never at a meal.
pub proof fn lemma_lone_philosopher(s: SimulationState, now: u64)
    requires
        consistent(s),
        s.instructions.nums_of_philosophers == 1,
    ensures
        s.philosophers[0].left_fork == s.philosophers[0].right_fork,
        !holds_right(s.philosophers[0].phase),
        s.ended is None && s.philosophers[0].phase is LeftTaken ==> advanced(s, 0, now) == (
            s,
            Step { activity: None, pause: Pause::ForFork(s.philosophers[0].right_fork) },
        ),
{
    if s.ended is None && s.philosophers[0].phase is LeftTaken {
        assert(advanced(s, 0, now).0.philosophers =~= s.philosophers);
    }
}

/// Once the simulation has ended, no step and no look changes anything, a
/// step writes nothing in the log, and a look reports nothing.
pub proof fn lemma_frozen_after_the_end(s: SimulationState, who: int, now: u64)
    requires
        s.ended is Some,
    ensures
        advanced(s, who, now) == (s, Step { activity: None, pause: Pause::Forever }),
        watched(s, who, now) == (s, None::<Verdict>),
{
}

/// The count of the fed never falls by a step, whoever takes it.
pub proof fn lemma_count_never_falls(s: SimulationState, who: int, now: u64)
    requires
        consistent(s),
        0 <= who < s.philosophers.len(),
        s.philosophers[who].meals < u64::MAX,
    ensures
        s.philosopher_meals <= advanced(s, who, now).0.philosopher_meals,
{
    lemma_room_in_count(s, who);
}

/// The count of the fed never exceeds the number of philosophers.
pub proof fn lemma_count_within_table(s: SimulationState)
    requires
        consistent(s),
    ensures
        s.philosopher_meals <= s.instructions.nums_of_philosophers,
{
    lemma_fed_count_bound(s.philosophers, s.instructions.must_eat);
}

/// A running simulation: the table, the philosophers round it, and the
/// ending once a watchdog has sent it.
///
/// Nothing here waits or reads a clock. The caller brings the time, asks for
/// one philosopher's next step or for one watchdog's look, and does the
/// waiting itself.
#[derive(Debug)]
pub struct Simulation {
    instructions: Instructions,
    forks: ForksPool,
    philosopher_meals: u64,
    philosophers: Vec<Philosopher>,
    ended: Option<Ending>,
}

impl View for Simulation {
    type V = SimulationState;

    closed spec fn view(&self) -> SimulationState {
        SimulationState {
            instructions: self.instructions,
            forks: self.forks@,
            philosophers: Seq::new(self.philosophers@.len(), |i: int| self.philosophers@[i]@),
            philosopher_meals: self.philosopher_meals,
            ended: self.ended,
        }
    }
}

impl Simulation {
    /// The philosophers themselves, in seat order, tokens and all.
    pub closed spec fn seats(&self) -> Seq<Philosopher> {
        self.philosophers@
    }

    /// True when the table is consistent, shows each philosopher as that
    /// philosopher is, and every philosopher holds the tokens of the forks
    /// in hand.
    pub open spec fn wf(&self) -> bool {
        &&& consistent(self@)
        &&& self.seats().len() == self@.philosophers.len()
        &&& forall|i: int|
            0 <= i < self.seats().len() ==> (#[trigger] self.seats()[i]).wf() && self.seats()[i]@
                == self@.philosophers[i]
    }

    /// A well-formed simulation is a consistent table, and so all that is
    /// proved of consistent tables holds of it: no fork in two hands, the count
    /// of the fed within the table, an ending that means what it says.
    pub proof fn lemma_wf_is_consistent(&self)
        requires
            self.wf(),
        ensures
            consistent(self@),
            self@.philosophers.len() >= 1,
    {
    }

    /// Puts newly born philosophers round a table of untouched forks.
    pub(crate) fn seat(
        instructions: Instructions,
        forks: ForksPool,
        philosopher_meals: u64,
        philosophers: Vec<Philosopher>,
        now: Ghost<u64>,
    ) -> (simulation: Self)
        requires
            instructions.wf(),
            instructions.nums_of_philosophers <= usize::MAX,
            philosopher_meals == 0,
            forks@ == starting(instructions, now@).forks,
            philosophers@.len() == instructions.nums_of_philosophers,
            forall|i: int|
                0 <= i < philosophers@.len() ==> (#[trigger] philosophers@[i]).wf()
                    && philosophers@[i]@ == starting(instructions, now@).philosophers[i],
        ensures
            simulation.wf(),
            consistent(simulation@),
            simulation@ == starting(instructions, now@),
    {
        let simulation = Simulation {
            instructions,
            forks,
            philosopher_meals,
            philosophers,
            ended: None,
        };
        proof {
            assert(simulation@.philosophers =~= starting(instructions, now@).philosophers);
            lemma_starting_is_consistent(instructions, now@);
        }
        simulation
    }

    /// The parameters of this simulation.
    pub fn instructions(&self) -> (instructions: Instructions)
        ensures
            instructions == self@.instructions,
    {
        self.instructions
    }

    /// The number of philosophers at the table.
    pub fn len(&self) -> (len: usize)
        ensures
            len == self@.philosophers.len(),
    {
        self.philosophers.len()
    }

    /// All that is known of the philosopher at place `who`.
    pub fn philosopher(&self, who: usize) -> (state: PhilosopherState)
        requires
            who < self@.philosophers.len(),
        ensures
            state == self@.philosophers[who as int],
    {
        self.philosophers[who].state()
    }

    /// True while the fork is in a hand. A handle that names no fork of this
    /// table is reported as taken, since nobody can take it.
    pub fn is_taken(&self, fork: &Fork) -> (held: bool)
        ensures
            held == !can_take(self@.forks, fork.index as int),
    {
        self.forks.is_taken(fork)
    }

    /// How many philosophers have been counted as fed.
    pub fn philosopher_meals(&self) -> (count: u64)
        ensures
            count == self@.philosopher_meals,
    {
        self.philosopher_meals
    }

    /// The signal that ended the simulation, once there is one.
    pub fn ended(&self) -> (ended: Option<Ending>)
        ensures
            ended == self@.ended,
    {
        self.ended
    }

    /// The next step of the philosopher at place `who`, at time `now`.
    ///
    /// The count of the fed never falls by a step. Once the simulation has
    /// ended, nothing changes and the step says to wait forever.
    pub fn advance(&mut self, who: usize, now: u64) -> (step: Step)
        requires
            old(self).wf(),
            who < old(self)@.philosophers.len(),
            old(self)@.philosophers[who as int].meals < u64::MAX,
        ensures
            final(self).wf(),
            consistent(final(self)@),
            final(self)@ == advanced(old(self)@, who as int, now).0,
            step == advanced(old(self)@, who as int, now).1,
            old(self)@.philosopher_meals <= final(self)@.philosopher_meals
                <= final(self)@.philosophers.len(),
    {
        proof {
            lemma_advance_keeps_consistent(self@, who as int, now);
            lemma_count_never_falls(self@, who as int, now);
            lemma_count_within_table(advanced(self@, who as int, now).0);
        }
        if self.ended.is_some() {
            return Step { activity: None, pause: Pause::Forever };
        }
        proof {
            lemma_room_in_count(self@, who as int);
        }
        let step = self.philosophers[who].advance(
            &mut self.forks,
            &mut self.philosopher_meals,
            now,
        );
        assert(self@.philosophers =~= old(self)@.philosophers.update(
            who as int,
            self.philosophers@[who as int]@,
        ));
        step
    }

    /// One look of the watchdog of the philosopher at place `who`, at time
    /// `now`.
    ///
    /// Reports nothing once the simulation has ended, and else what the
    /// watchdog finds. The first finding other than `Alive` ends the
    /// simulation, and so is the only one ever reported.
    pub fn watch(&mut self, who: usize, now: u64) -> (report: Option<Verdict>)
        requires
            old(self).wf(),
            who < old(self)@.philosophers.len(),
        ensures
            final(self).wf(),
            consistent(final(self)@),
            final(self)@ == watched(old(self)@, who as int, now).0,
            report == watched(old(self)@, who as int, now).1,
    {
        proof {
            lemma_watch_keeps_consistent(self@, who as int, now);
        }
        if self.ended.is_some() {
            return None;
        }
        let found = self.philosophers[who].watch(self.philosopher_meals, now);
        match found {
            Verdict::Alive => {},
            _ => {
                let by: u64 = self.philosophers[who].state().id;
                self.ended = Some(Ending { by, verdict: found, at: now });
            },
        }
        Some(found)
    }
}

} // verus!
