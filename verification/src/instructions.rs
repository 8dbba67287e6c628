use crate::utils::{decimal, string_to};
use vstd::prelude::*;

verus! {

/// The parameters of one simulation. Times are in milliseconds.
#[derive(Debug, Clone, Copy, PartialEq, Eq)]
pub struct Instructions {
    /// How many philosophers sit at the table, and so how many forks lie on it.
    /// At least one does.
    pub nums_of_philosophers: u64,
    /// How long a philosopher survives without starting a meal.
    pub time_to_die: u64,
    /// How long a meal lasts.
    pub time_to_eat: u64,
    /// How long a philosopher sleeps after a meal.
    pub time_to_sleep: u64,
    /// The number of meals after which a philosopher counts as fed, if the
    /// simulation is to end once everyone is.
    pub must_eat: Option<u64>,
}

/// What `Instructions::new` makes of its five arguments: the record, or the
/// complaint about the first argument, in the order given, that will not do.
/// Every argument must be a number, and the number of philosophers must be at
/// least 1.
pub open spec fn read_instructions(
    nums_of_philosophers: Seq<char>,
    ttd: Seq<char>,
    tte: Seq<char>,
    tts: Seq<char>,
    must_eat: Option<Seq<char>>,
) -> Result<Instructions, Seq<char>> {
    if decimal(nums_of_philosophers) is None {
        Err("error parsing nums of philosophers"@)
    } else if decimal(nums_of_philosophers) == Some(0u64) {
        Err("nums of philosophers must be at least 1"@)
    } else if decimal(ttd) is None {
        Err("error parsing time to die"@)
    } else if decimal(tte) is None {
        Err("error parsing time to eat"@)
    } else if decimal(tts) is None {
        Err("error parsing time to sleep"@)
    } else if must_eat is Some && decimal(must_eat->0) is None {
        Err("error parsing must_eat"@)
    } else {
        Ok(
            Instructions {
                nums_of_philosophers: decimal(nums_of_philosophers)->0,
                time_to_die: decimal(ttd)->0,
                time_to_eat: decimal(tte)->0,
                time_to_sleep: decimal(tts)->0,
                must_eat: match must_eat {
                    Some(text) => decimal(text),
                    None => None,
                },
            },
        )
    }
}

/// The characters of an optional string.
pub open spec fn text_of(s: Option<&String>) -> Option<Seq<char>> {
    match s {
        Some(text) => Some(text@),
        None => None,
    }
}

impl Instructions {
    /// True of the instructions that a simulation can be run to: somebody
    /// sits at the table.
    pub open spec fn wf(&self) -> bool {
        self.nums_of_philosophers >= 1
    }

    /// Reads the parameters from their decimal text, times in milliseconds.
    ///
    /// The arguments are read in order and the first that will not do decides
    /// the error: one that is no number, or a table for nobody.
    pub fn new(
        nums_of_philosophers: &str,
        ttd: &str,
        tte: &str,
        tts: &str,
        must_eat: Option<&String>,
    ) -> (r: Result<Self, String>)
        ensures
            r matches Ok(instructions) ==> instructions.wf(),
            match r {
                Ok(instructions) => read_instructions(
                    nums_of_philosophers@,
                    ttd@,
                    tte@,
                    tts@,
                    text_of(must_eat),
                ) == Ok::<Instructions, Seq<char>>(instructions),
                Err(message) => read_instructions(
                    nums_of_philosophers@,
                    ttd@,
                    tte@,
                    tts@,
                    text_of(must_eat),
                ) == Err::<Instructions, Seq<char>>(message@),
            },
    {
        let nums_of_philosophers: u64 = match string_to(
            nums_of_philosophers,
            "error parsing nums of philosophers",
        ) {
            Ok(value) => value,
            Err(message) => return Err(message),
        };
        if nums_of_philosophers == 0 {
            return Err("nums of philosophers must be at least 1".to_owned());
        }
        let time_to_die: u64 = match string_to(ttd, "error parsing time to die") {
            Ok(value) => value,
            Err(message) => return Err(message),
        };
        let time_to_eat: u64 = match string_to(tte, "error parsing time to eat") {
            Ok(value) => value,
            Err(message) => return Err(message),
        };
        let time_to_sleep: u64 = match string_to(tts, "error parsing time to sleep") {
            Ok(value) => value,
            Err(message) => return Err(message),
        };
        let must_eat: Option<u64> = match must_eat {
            Some(text) => match string_to(text.as_str(), "error parsing must_eat") {
                Ok(value) => Some(value),
                Err(message) => return Err(message),
            },
            None => None,
        };
        Ok(Instructions { nums_of_philosophers, time_to_die, time_to_eat, time_to_sleep, must_eat })
    }
}

} // verus!
