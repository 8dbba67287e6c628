use crate::forks_pool::{place_of, Fork, ForksPool};
use crate::instructions::Instructions;
use crate::philosopher::{newborn, Philosopher};
use crate::simulation::{consistent, right_of, starting, Simulation};
use vstd::arithmetic::div_mod::{lemma_mod_self_0, lemma_small_mod};
use vstd::prelude::*;

verus! {

/// All that a factory holds.
pub ghost struct MakerState {
    pub instructions: Instructions,
    /// The number of philosophers to make, as the factory took it from the
    /// instructions.
    pub nums_of_philosophers: u64,
    /// The table that the factory laid: one flag per fork, true while the
    /// fork is taken.
    pub forks: Seq<bool>,
    /// The shared count of fed philosophers that the factory set up.
    pub philosopher_meals: u64,
    /// True once the factory was set up by `PhilosopherMaker::init`.
    pub initialised: bool,
    /// How many philosophers have been made so far.
    pub philosopher_made: u64,
}

/// A factory as `PhilosopherMaker::init` leaves it: every fork on the table,
/// nobody fed, nobody made.
pub open spec fn fresh(instructions: Instructions) -> MakerState {
    MakerState {
        instructions,
        nums_of_philosophers: instructions.nums_of_philosophers,
        forks: Seq::new(instructions.nums_of_philosophers as nat, |i: int| false),
        philosopher_meals: 0,
        initialised: true,
        philosopher_made: 0,
    }
}

/// Lays the table and makes the philosophers, numbered from 1 as they come.
#[derive(Debug)]
pub struct PhilosopherMaker {
    nums_of_philosophers: u64,
    forks: ForksPool,
    philosopher_meals: u64,
    initialised: bool,
    philosopher_made: u64,
    instructions: Instructions,
}

impl View for PhilosopherMaker {
    type V = MakerState;

    closed spec fn view(&self) -> MakerState {
        MakerState {
            instructions: self.instructions,
            nums_of_philosophers: self.nums_of_philosophers,
            forks: self.forks@,
            philosopher_meals: self.philosopher_meals,
            initialised: self.initialised,
            philosopher_made: self.philosopher_made,
        }
    }
}

/// The two forks of philosopher `id` at a table of `n`, left one first:
/// the fork before the seat and the fork after it, counted round the table.
pub open spec fn forks_of(id: u64, n: u64) -> (Fork, Fork) {
    (
        Fork { index: place_of((id - 1) as u64, n as nat) as usize },
        Fork { index: place_of(id, n as nat) as usize },
    )
}

/// The last philosopher's right fork is the first philosopher's left fork:
/// the table is round.
pub proof fn lemma_ring_closes(n: u64)
    requires
        1 <= n <= usize::MAX,
    ensures
        forks_of(n, n).1 == forks_of(1, n).0,
        forks_of(1, n).0.index == 0,
{
    lemma_mod_self_0(n as int);
    lemma_small_mod(0, n as nat);
}

/// Each philosopher's right fork is the next philosopher's left fork, and
/// within one round of the table the philosopher at place `i`, numbered
/// `i + 1`, sits between fork `i` and the fork to the right of it.
pub proof fn lemma_neighbours_share(id: u64, n: u64)
    requires
        1 <= id <= n <= usize::MAX,
    ensures
        id < n ==> forks_of(id, n).1 == forks_of((id + 1) as u64, n).0,
        forks_of(id, n).0.index == id - 1,
        forks_of(id, n).1.index == right_of(id - 1, n as int),
{
    lemma_small_mod((id - 1) as nat, n as nat);
    if id < n {
        lemma_small_mod(id as nat, n as nat);
    } else {
        lemma_mod_self_0(n as int);
    }
}

impl PhilosopherMaker {
    /// True when the factory is ready to make philosophers: it was
    /// initialised for a table where somebody sits, and the table it laid is
    /// untouched, with nobody counted as fed.
    pub open spec fn wf(&self) -> bool {
        &&& self@.instructions.wf()
        &&& self@ == (MakerState {
            philosopher_made: self@.philosopher_made,
            ..fresh(self@.instructions)
        })
    }

    /// Lays the table for the philosophers that `instructions` asks for.
    pub fn init(instructions: Instructions) -> (maker: Self)
        requires
            instructions.wf(),
            instructions.nums_of_philosophers <= usize::MAX,
        ensures
            maker.wf(),
            maker@ == fresh(instructions),
    {
        PhilosopherMaker {
            nums_of_philosophers: instructions.nums_of_philosophers,
            forks: ForksPool::init(instructions.nums_of_philosophers),
            philosopher_meals: 0,
            initialised: true,
            philosopher_made: 0,
            instructions,
        }
    }

    /// The parameters that the factory works to.
    pub fn instructions(&self) -> (instructions: Instructions)
        ensures
            instructions == self@.instructions,
    {
        self.instructions
    }

    /// How many philosophers have been made so far.
    pub fn philosopher_made(&self) -> (made: u64)
        ensures
            made == self@.philosopher_made,
    {
        self.philosopher_made
    }

    /// Makes the next philosopher, born at time `now`, and seats it between
    /// its two forks.
    pub fn make(&mut self, now: u64) -> (philosopher: Philosopher)
        requires
            old(self).wf(),
            old(self)@.philosopher_made < u64::MAX,
        ensures
            final(self).wf(),
            final(self)@ == (MakerState {
                philosopher_made: (old(self)@.philosopher_made + 1) as u64,
                ..old(self)@
            }),
            philosopher.wf(),
            philosopher@ == newborn(
                final(self)@.philosopher_made,
                forks_of(
                    final(self)@.philosopher_made,
                    old(self)@.instructions.nums_of_philosophers,
                ),
                now,
                old(self)@.instructions,
            ),
    {
        self.philosopher_made = self.philosopher_made + 1;
        let id: u64 = self.philosopher_made;
        Philosopher::born(
            id,
            (self.forks.get(id - 1), self.forks.get(id)),
            now,
            self.instructions,
        )
    }

    /// Makes every philosopher the instructions ask for, all born at time
    /// `now`, and hands over the table with them seated round it.
    pub fn start_simulation(self, now: u64) -> (simulation: Simulation)
        requires
            self.wf(),
            self@.philosopher_made == 0,
        ensures
            simulation.wf(),
            simulation@ == starting(self@.instructions, now),
            consistent(simulation@),
    {
        let mut maker = self;
        let instructions = maker.instructions;
        let n: u64 = instructions.nums_of_philosophers;
        let mut philosophers: Vec<Philosopher> = Vec::new();
        let mut made: u64 = 0;
        let laid: usize = maker.forks.len();
        assert(n == laid);
        while made < n
            invariant
                maker.wf(),
                maker@ == (MakerState { philosopher_made: made, ..fresh(instructions) }),
                n == instructions.nums_of_philosophers,
                n <= usize::MAX,
                made <= n,
                philosophers@.len() == made,
                forall|i: int|
                    0 <= i < made ==> (#[trigger] philosophers@[i]).wf() && philosophers@[i]@
                        == starting(instructions, now).philosophers[i],
            decreases n - made,
        {
            let philosopher = maker.make(now);
            proof {
                lemma_neighbours_share((made + 1) as u64, n);
            }
            philosophers.push(philosopher);
            made = made + 1;
        }
        Simulation::seat(
            instructions,
            maker.forks,
            maker.philosopher_meals,
            philosophers,
            Ghost(now),
        )
    }
}

} // verus!
