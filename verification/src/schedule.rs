use crate::instructions::Instructions;
use crate::philosopher::{elapsed, holds_left, holds_right, verdict, Verdict};
use crate::simulation::{
    advanced, consistent, lemma_advance_keeps_consistent, lemma_count_never_falls,
    lemma_count_within_table, lemma_lone_philosopher, lemma_mutual_exclusion,
    lemma_starting_is_consistent, lemma_watch_keeps_consistent, right_of, starting,
    watched, SimulationState,
};
use vstd::prelude::*;

verus! {

/// One thing that happens at the table: a philosopher takes a step, or a
/// watchdog looks, each at its time.
pub ghost enum Event {
    Advance { who: int, now: u64 },
    Watch { who: int, now: u64 },
}

/// True when `event` can happen in state `s`: it names a philosopher at the
/// table, whose count of meals has room for one more.
pub open spec fn admissible(s: SimulationState, event: Event) -> bool {
    match event {
        Event::Advance { who, now } => 0 <= who < s.philosophers.len()
            && s.philosophers[who].meals < u64::MAX,
        Event::Watch { who, now } => 0 <= who < s.philosophers.len(),
    }
}

/// The table after `event` happened in state `s`.
pub open spec fn happened(s: SimulationState, event: Event) -> SimulationState {
    match event {
        Event::Advance { who, now } => advanced(s, who, now).0,
        Event::Watch { who, now } => watched(s, who, now).0,
    }
}

/// The table after `events` happened one after the other from state `s`.
pub open spec fn after(s: SimulationState, events: Seq<Event>) -> SimulationState
    decreases events.len(),
{
    if events.len() == 0 {
        s
    } else {
        happened(after(s, events.drop_last()), events.last())
    }
}

/// True when each of `events` can happen in its turn from state `s`.
pub open spec fn all_admissible(s: SimulationState, events: Seq<Event>) -> bool
    decreases events.len(),
{
    events.len() == 0 || (all_admissible(s, events.drop_last()) && admissible(
        after(s, events.drop_last()),
        events.last(),
    ))
}

/// Whatever happens in whatever order, a consistent table stays consistent,
/// keeps its instructions, and its count of the fed never falls.
pub proof fn lemma_every_schedule_is_consistent(s: SimulationState, events: Seq<Event>)
    requires
        consistent(s),
        all_admissible(s, events),
    ensures
        consistent(after(s, events)),
        after(s, events).instructions == s.instructions,
        s.philosopher_meals <= after(s, events).philosopher_meals
            <= s.instructions.nums_of_philosophers,
    decreases events.len(),
{
    if events.len() == 0 {
        lemma_count_within_table(s);
    } else {
        let before = after(s, events.drop_last());
        lemma_every_schedule_is_consistent(s, events.drop_last());
        match events.last() {
            Event::Advance { who, now } => {
                lemma_advance_keeps_consistent(before, who, now);
                lemma_count_never_falls(before, who, now);
            },
            Event::Watch { who, now } => {
                lemma_watch_keeps_consistent(before, who, now);
            },
        }
        lemma_count_within_table(after(s, events));
    }
}

/// From the start of a simulation and through every schedule, two neighbours
/// never both have in hand the fork that lies between them.
pub proof fn lemma_forks_are_never_shared(
    instructions: Instructions,
    start: u64,
    events: Seq<Event>,
    i: int,
)
    requires
        instructions.nums_of_philosophers <= usize::MAX,
        all_admissible(starting(instructions, start), events),
        0 <= i < instructions.nums_of_philosophers,
    ensures
        ({
            let s = after(starting(instructions, start), events);
            let n = instructions.nums_of_philosophers as int;
            &&& s.philosophers[i].right_fork == s.philosophers[right_of(i, n)].left_fork
            &&& !(holds_right(s.philosophers[i].phase) && holds_left(
                s.philosophers[right_of(i, n)].phase,
            ))
        }),
{
    lemma_starting_is_consistent(instructions, start);
    lemma_every_schedule_is_consistent(starting(instructions, start), events);
    lemma_mutual_exclusion(after(starting(instructions, start), events), i);
}

/// Once a simulation has ended, whatever is scheduled after changes nothing:
/// the ending is sent once and stands.
pub proof fn lemma_the_ending_stands(s: SimulationState, events: Seq<Event>)
    requires
        s.ended is Some,
    ensures
        after(s, events) == s,
    decreases events.len(),
{
    if events.len() > 0 {
        lemma_the_ending_stands(s, events.drop_last());
    }
}

/// A philosopher alone at the table never eats: through every schedule the
/// meals stay at none and the clock of the last meal at the time of birth.
/// So every look of the watchdog later than the time to die after the start
/// finds the philosopher starved, unless the simulation has ended already.
pub proof fn lemma_lone_philosopher_starves(
    instructions: Instructions,
    start: u64,
    events: Seq<Event>,
    now: u64,
)
    requires
        instructions.nums_of_philosophers == 1,
        all_admissible(starting(instructions, start), events),
    ensures
        ({
            let s = after(starting(instructions, start), events);
            &&& s.philosophers[0].meals == 0
            &&& s.philosophers[0].last_meal == start
            &&& s.philosopher_meals == 0
            &&& verdict(s.philosophers[0], s.philosopher_meals, now) == if elapsed(start, now)
                > instructions.time_to_die {
                Verdict::Starved
            } else {
                Verdict::Alive
            }
        }),
    decreases events.len(),
{
    let first = starting(instructions, start);
    lemma_starting_is_consistent(instructions, start);
    lemma_every_schedule_is_consistent(first, events);
    if events.len() > 0 {
        let earlier = events.drop_last();
        lemma_lone_philosopher_starves(instructions, start, earlier, now);
        lemma_every_schedule_is_consistent(first, earlier);
        lemma_lone_philosopher(after(first, earlier), now);
    }
}

/// The time at which `event` happens.
pub open spec fn time_of(event: Event) -> u64 {
    match event {
        Event::Advance { who, now } => now,
        Event::Watch { who, now } => now,
    }
}

/// True when none of `events` happens before `start` or after `end`.
pub open spec fn within(events: Seq<Event>, start: u64, end: u64) -> bool {
    forall|k: int| 0 <= k < events.len() ==> start <= time_of(#[trigger] events[k]) <= end
}

/// True when every clock of a last meal shows a time from `start` to `end`,
/// and whoever is not at a meal has either never begun one or begun the last
/// one at least the time to eat before `end`.
pub open spec fn meals_in_time(s: SimulationState, start: u64, end: u64) -> bool {
    forall|i: int|
        0 <= i < s.philosophers.len() ==> {
            let p = #[trigger] s.philosophers[i];
            &&& start <= p.last_meal <= end
            &&& p.phase is Eating || (p.last_meal == start && p.meals == 0) || p.last_meal
                + s.instructions.time_to_eat <= end
        }
}

/// Through every schedule that begins with the simulation and runs up to
/// some time, the clocks of the last meals keep within those times, and
/// every meal that is over has lasted the time to eat.
pub proof fn lemma_meals_take_their_time(
    instructions: Instructions,
    start: u64,
    events: Seq<Event>,
    end: u64,
)
    requires
        instructions.wf(),
        instructions.nums_of_philosophers <= usize::MAX,
        all_admissible(starting(instructions, start), events),
        within(events, start, end),
        start <= end,
    ensures
        consistent(after(starting(instructions, start), events)),
        after(starting(instructions, start), events).instructions == instructions,
        meals_in_time(after(starting(instructions, start), events), start, end),
    decreases events.len(),
{
    let first = starting(instructions, start);
    lemma_starting_is_consistent(instructions, start);
    lemma_every_schedule_is_consistent(first, events);
    if events.len() > 0 {
        lemma_meals_take_their_time(instructions, start, events.drop_last(), end);
    }
}

/// Nobody is found starved before the time to die has passed since the
/// start, whatever the schedule.
pub proof fn lemma_nobody_starves_early(
    instructions: Instructions,
    start: u64,
    events: Seq<Event>,
    who: int,
    now: u64,
)
    requires
        instructions.nums_of_philosophers <= usize::MAX,
        all_admissible(starting(instructions, start), events),
        within(events, start, now),
        0 <= who < instructions.nums_of_philosophers,
        start <= now,
        now - start <= instructions.time_to_die,
    ensures
        !(verdict(
            after(starting(instructions, start), events).philosophers[who],
            after(starting(instructions, start), events).philosopher_meals,
            now,
        ) is Starved),
{
    lemma_meals_take_their_time(instructions, start, events, now);
}

/// Where the time to die is shorter than a meal, starvation shows as soon
/// as the time to die has passed since the start: of any two neighbours, a
/// look later than that finds at least one starved, whatever the schedule
/// before it, unless it finds the table satisfied. (Were both alive they
/// would both be at a meal, with the fork between them in two hands.)
pub proof fn lemma_haste_starves(
    instructions: Instructions,
    start: u64,
    events: Seq<Event>,
    who: int,
    now: u64,
)
    requires
        instructions.nums_of_philosophers <= usize::MAX,
        instructions.time_to_die < instructions.time_to_eat,
        all_admissible(starting(instructions, start), events),
        within(events, start, now),
        0 <= who < instructions.nums_of_philosophers,
        start <= now,
        now - start > instructions.time_to_die,
    ensures
        ({
            let s = after(starting(instructions, start), events);
            let neighbour = right_of(who, instructions.nums_of_philosophers as int);
            let found = verdict(s.philosophers[who], s.philosopher_meals, now);
            let found_beside = verdict(s.philosophers[neighbour], s.philosopher_meals, now);
            found is Starved || found_beside is Starved || (found is Satisfied
                && found_beside is Satisfied)
        }),
{
    lemma_meals_take_their_time(instructions, start, events, now);
    lemma_mutual_exclusion(after(starting(instructions, start), events), who);
}

} // verus!
