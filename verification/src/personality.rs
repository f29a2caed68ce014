//! The traits that last from one start to the next.

use vstd::prelude::*;

verus! {

/// Curiosity is the level that curiosity drifts to, attachment sets how fast
/// loneliness grows, aggression strengthens stress, and optimism lets energy
/// come back by itself.
#[derive(Copy, Clone, PartialEq, Eq, Structural, Debug)]
pub struct Personality {
    pub curiosity: u8,
    pub attachment: u8,
    pub aggression: u8,
    pub optimism: u8,
}

impl Personality {
    /// The traits of an entity that has not lived yet.
    pub open spec fn newborn() -> Personality {
        Personality { curiosity: 60, attachment: 70, aggression: 20, optimism: 65 }
    }

    /// The traits after the user came back to an entity that felt lonely.
    pub open spec fn attached(self) -> Personality {
        Personality {
            attachment: if self.attachment < 100 { (self.attachment + 1) as u8 } else { 100 },
            ..self
        }
    }

    pub fn initial() -> (p: Personality)
        ensures
            p == Personality::newborn(),
    {
        Personality { curiosity: 60, attachment: 70, aggression: 20, optimism: 65 }
    }

    pub fn reinforce_attachment(&mut self)
        ensures
            *final(self) == old(self).attached(),
    {
        let more: u8 = self.attachment.saturating_add(1);
        self.attachment = if more > 100 { 100 } else { more };
    }
}

/// Attachment grows with each return, up to its limit, and no other trait
/// changes.
pub proof fn law_attachment_grows(p: Personality)
    requires
        p.attachment <= 100,
    ensures
        p.attached().attachment >= p.attachment,
        p.attached().attachment <= 100,
        p.attachment < 100 ==> p.attached().attachment == p.attachment + 1,
        p.attached().curiosity == p.curiosity,
        p.attached().aggression == p.aggression,
        p.attached().optimism == p.optimism,
{
}

/// An attachment above its limit, which only an image can hold, falls back to
/// it.
pub proof fn law_attachment_is_limited(p: Personality)
    ensures
        p.attachment >= 100 ==> p.attached().attachment == 100,
        p.attached() == (Personality { attachment: p.attached().attachment, ..p }),
{
}

} // verus!
