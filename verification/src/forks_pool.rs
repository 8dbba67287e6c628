use vstd::prelude::*;

verus! {

/// A handle to one fork of a pool: the fork's place on the table.
///
/// Handles are freely copied. Holding one gives no right to the fork.
#[derive(Debug, Clone, Copy, PartialEq, Eq, Structural)]
pub struct Fork {
    pub index: usize,
}

/// The token a taker gets with a fork, and gives up to put the fork down.
#[derive(Debug)]
pub struct ForkGuard {
    index: usize,
}

impl ForkGuard {
    /// The place of the fork that this token stands for.
    pub closed spec fn index(&self) -> usize {
        self.index
    }

    /// The handle of the fork that this token stands for.
    pub fn fork(&self) -> (fork: Fork)
        ensures
            fork.index == self.index(),
    {
        Fork { index: self.index }
    }
}

/// The forks on the table. Each one is either lying there or in one hand.
#[derive(Debug)]
pub struct ForksPool {
    forks: Vec<bool>,
}

impl View for ForksPool {
    type V = Seq<bool>;

    /// One flag per fork, in table order: true while the fork is taken.
    closed spec fn view(&self) -> Seq<bool> {
        self.forks@
    }
}

/// The place of the fork that `id` names on a table of `len` forks: places
/// are counted round the table, so `len` names the same fork as 0.
pub open spec fn place_of(id: u64, len: nat) -> int {
    id as int % len as int
}

/// The table after the fork at `index` was taken, if it could be.
pub open spec fn taken(forks: Seq<bool>, index: int) -> Seq<bool> {
    if can_take(forks, index) {
        forks.update(index, true)
    } else {
        forks
    }
}

/// True when the fork at `index` lies on this table.
pub open spec fn can_take(forks: Seq<bool>, index: int) -> bool {
    0 <= index < forks.len() && !forks[index]
}

/// The table after the fork at `index` was put down.
pub open spec fn dropped(forks: Seq<bool>, index: int) -> Seq<bool> {
    if 0 <= index < forks.len() {
        forks.update(index, false)
    } else {
        forks
    }
}

impl ForksPool {
    /// Lays `nums_of_philosophers` forks on the table.
    pub fn init(nums_of_philosophers: u64) -> (pool: Self)
        requires
            nums_of_philosophers <= usize::MAX,
        ensures
            pool@ == Seq::new(nums_of_philosophers as nat, |i: int| false),
    {
        let mut forks: Vec<bool> = Vec::new();
        let mut laid: u64 = 0;
        while laid < nums_of_philosophers
            invariant
                laid <= nums_of_philosophers,
                forks@ == Seq::new(laid as nat, |i: int| false),
            decreases nums_of_philosophers - laid,
        {
            forks.push(false);
            laid = laid + 1;
            assert(forks@ =~= Seq::new(laid as nat, |i: int| false));
        }
        ForksPool { forks }
    }

    /// The number of forks.
    pub fn len(&self) -> (len: usize)
        ensures
            len == self@.len(),
    {
        self.forks.len()
    }

    /// The handle of fork `id`, counted round the table.
    pub fn get(&self, id: u64) -> (fork: Fork)
        requires
            self@.len() > 0,
        ensures
            fork.index == place_of(id, self@.len()),
    {
        let len: u64 = self.forks.len() as u64;
        Fork { index: (id % len) as usize }
    }

    /// True while the fork is in a hand. A handle that names no fork of this
    /// pool is reported as taken, since nobody can take it.
    pub fn is_taken(&self, fork: &Fork) -> (held: bool)
        ensures
            held == !can_take(self@, fork.index as int),
    {
        fork.index >= self.forks.len() || self.forks[fork.index]
    }

    /// Takes the fork if it lies on the table, and says so with a token.
    ///
    /// Never waits: a fork in another hand, or a handle that names no fork of
    /// this pool, gives `None` and leaves the table as it was.
    pub fn take_fork(&mut self, fork: &Fork) -> (guard: Option<ForkGuard>)
        ensures
            guard is Some <==> can_take(old(self)@, fork.index as int),
            guard matches Some(token) ==> token.index() == fork.index,
            final(self)@ == taken(old(self)@, fork.index as int),
    {
        if fork.index < self.forks.len() && !self.forks[fork.index] {
            self.forks.set(fork.index, true);
            Some(ForkGuard { index: fork.index })
        } else {
            None
        }
    }

    /// Puts down the fork that the token stands for.
    pub fn drop_fork(&mut self, fork_guard: ForkGuard)
        ensures
            final(self)@ == dropped(old(self)@, fork_guard.index() as int),
    {
        if fork_guard.index < self.forks.len() {
            self.forks.set(fork_guard.index, false);
        }
    }
}

} // verus!
