//! Moods, and the rule that gives one.

use vstd::prelude::*;

verus! {

#[derive(Copy, Clone, PartialEq, Eq, Structural, Debug)]
pub enum Mood {
    Calm,
    Curious,
    Lonely,
    Distressed,
    Exhausted,
}

impl Mood {
    /// The number under which the mood is saved.
    pub open spec fn spec_code(self) -> u32 {
        match self {
            Mood::Calm => 0,
            Mood::Curious => 1,
            Mood::Lonely => 2,
            Mood::Distressed => 3,
            Mood::Exhausted => 4,
        }
    }

    /// The mood that has the code `v`; a number that is no code stands for
    /// calm.
    pub open spec fn of_code(v: u32) -> Mood {
        match v {
            1 => Mood::Curious,
            2 => Mood::Lonely,
            3 => Mood::Distressed,
            4 => Mood::Exhausted,
            _ => Mood::Calm,
        }
    }

    /// What the mood is called.
    pub open spec fn name(self) -> Seq<char> {
        match self {
            Mood::Calm => "Calm"@,
            Mood::Curious => "Curious"@,
            Mood::Lonely => "Lonely"@,
            Mood::Distressed => "Distressed"@,
            Mood::Exhausted => "Exhausted"@,
        }
    }

    /// The mood that fits these levels. The first rule that applies wins, so
    /// that exhaustion hides distress, distress hides loneliness, and
    /// loneliness hides curiosity.
    pub open spec fn fitting(energy: u32, stress: u32, loneliness: u32, curiosity: u32) -> Mood {
        if energy < 20 {
            Mood::Exhausted
        } else if stress > 60 {
            Mood::Distressed
        } else if loneliness > 60 {
            Mood::Lonely
        } else if curiosity > 70 && stress < 30 {
            Mood::Curious
        } else {
            Mood::Calm
        }
    }

    pub fn code(self) -> (v: u32)
        ensures
            v == self.spec_code(),
    {
        match self {
            Mood::Calm => 0,
            Mood::Curious => 1,
            Mood::Lonely => 2,
            Mood::Distressed => 3,
            Mood::Exhausted => 4,
        }
    }

    pub fn from_u32(v: u32) -> (m: Mood)
        ensures
            m == Mood::of_code(v),
    {
        match v {
            1 => Mood::Curious,
            2 => Mood::Lonely,
            3 => Mood::Distressed,
            4 => Mood::Exhausted,
            _ => Mood::Calm,
        }
    }

    pub fn label(self) -> (s: &'static str)
        ensures
            s@ == self.name(),
    {
        match self {
            Mood::Calm => "Calm",
            Mood::Curious => "Curious",
            Mood::Lonely => "Lonely",
            Mood::Distressed => "Distressed",
            Mood::Exhausted => "Exhausted",
        }
    }
}

/// Every mood is found again by its code.
pub proof fn law_mood_codes(m: Mood)
    ensures
        Mood::of_code(m.spec_code()) == m,
        m.spec_code() <= 4,
{
}

/// The order of the moods: exhaustion comes before distress, distress before
/// loneliness, loneliness before curiosity, and calm is what is left.
pub proof fn law_mood_priority(energy: u32, stress: u32, loneliness: u32, curiosity: u32)
    ensures
        ({
            let m = Mood::fitting(energy, stress, loneliness, curiosity);
            let tired = energy < 20;
            let upset = stress > 60;
            let alone = loneliness > 60;
            let keen = curiosity > 70 && stress < 30;
            &&& m == Mood::Exhausted <==> tired
            &&& m == Mood::Distressed <==> upset && !tired
            &&& m == Mood::Lonely <==> alone && !upset && !tired
            &&& m == Mood::Curious <==> keen && !alone && !upset && !tired
            &&& m == Mood::Calm <==> !keen && !alone && !upset && !tired
        }),
{
}

/// A number that is the code of no mood stands for calm.
pub proof fn law_other_codes_are_calm(v: u32)
    ensures
        Mood::of_code(v) == Mood::Calm <==> v == 0 || v > 4,
        v <= 4 ==> Mood::of_code(v).spec_code() == v,
{
}

} // verus!
