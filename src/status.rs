//! Timed conditions attached to characters.
use vstd::prelude::*;

verus! {

/// A status effect. Timed ones carry the number of turns they have left.
#[derive(Clone, Copy, Debug, PartialEq, Eq, Structural)]
pub enum CharaStatus {
    Hungry,
    Weak,
    Starving,
    Asleep { turn_left: u16 },
    Poisoned { turn_left: u16 },
}

impl CharaStatus {
    /// The status after `n` more turns: the turns left shrink by `n`, down to zero.
    pub open spec fn advanced(self, n: u16) -> CharaStatus {
        match self {
            CharaStatus::Asleep { turn_left } => CharaStatus::Asleep {
                turn_left: if turn_left > n { (turn_left - n) as u16 } else { 0 },
            },
            CharaStatus::Poisoned { turn_left } => CharaStatus::Poisoned {
                turn_left: if turn_left > n { (turn_left - n) as u16 } else { 0 },
            },
            _ => self,
        }
    }

    /// A timed status expires when no turns are left; the others never do.
    pub open spec fn expired(self) -> bool {
        match self {
            CharaStatus::Asleep { turn_left } => turn_left == 0,
            CharaStatus::Poisoned { turn_left } => turn_left == 0,
            _ => false,
        }
    }

    /// Whether the status keeps its character from acting.
    pub open spec fn blocks_action(self) -> bool {
        self is Asleep
    }

    pub fn advance_turn(&mut self, n: u16)
        ensures
            *final(self) == old(self).advanced(n),
    {
        match self {
            CharaStatus::Asleep { turn_left } => {
                *turn_left = if *turn_left > n { *turn_left - n } else { 0 };
            },
            CharaStatus::Poisoned { turn_left } => {
                *turn_left = if *turn_left > n { *turn_left - n } else { 0 };
            },
            _ => {},
        }
    }

    pub fn is_expired(&self) -> (r: bool)
        ensures
            r == self.expired(),
    {
        match self {
            CharaStatus::Asleep { turn_left } => *turn_left == 0,
            CharaStatus::Poisoned { turn_left } => *turn_left == 0,
            _ => false,
        }
    }
}

/// The statuses after one turn: each advances by one turn, in order, and
/// those that expire are dropped.
pub open spec fn after_turn(s: Seq<CharaStatus>) -> Seq<CharaStatus>
    decreases s.len(),
{
    if s.len() == 0 {
        s
    } else {
        let rest = after_turn(s.drop_last());
        let a = s.last().advanced(1);
        if a.expired() {
            rest
        } else {
            rest.push(a)
        }
    }
}

} // verus!
