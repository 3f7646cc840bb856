use vstd::prelude::*;

verus! {

/// treasure boards can be: Small (2 x 2), Medium (4 x 4) or Big (6 x 6)
#[derive(Clone, Copy, PartialEq, Eq, Structural, Debug)]
pub enum BoardSize {
    Small,
    Medium,
    Big,
}

impl BoardSize {
    /// Number of slots on a board of this size.
    pub open spec fn spec_slot_count(self) -> u64 {
        match self {
            BoardSize::Small => 4,
            BoardSize::Medium => 16,
            BoardSize::Big => 36,
        }
    }

    /// Half of the slots hide bombs; a board closes once this many slots are claimed.
    pub open spec fn spec_half(self) -> u64 {
        self.spec_slot_count() / 2
    }

    #[verifier::when_used_as_spec(spec_slot_count)]
    pub fn slot_count(self) -> (n: u64)
        ensures
            n == self.spec_slot_count(),
    {
        match self {
            BoardSize::Small => 4,
            BoardSize::Medium => 16,
            BoardSize::Big => 36,
        }
    }
}

/// One claimed slot: which cell was taken and who paid for it.
pub struct SlotClaim {
    pub slot: u8,
    pub player: String,
}

/// A slot is taken when some claim holds it.
pub open spec fn slot_taken(answers: Seq<SlotClaim>, slot: u8) -> bool {
    exists|i: int| 0 <= i < answers.len() && answers[i].slot == slot
}

/// One game: its creator, its size, the commitment to the bomb layout,
/// the claims made so far, and whether the payout has already run.
pub struct TreasureBoard {
    pub creator: String,
    pub size: BoardSize,
    pub solution_hash: Vec<u8>,
    pub answers: Vec<SlotClaim>,
    pub revealed: bool,
}

impl TreasureBoard {
    /// Claims name distinct slots inside the board, never more than half the
    /// slot count, and a revealed board is exactly full.
    pub open spec fn wf(self) -> bool {
        &&& forall|i: int|
            0 <= i < self.answers.len() ==> (#[trigger] self.answers[i].slot)
                < self.size.spec_slot_count()
        &&& forall|i: int, j: int|
            0 <= i < j < self.answers.len() ==> self.answers[i].slot != self.answers[j].slot
        &&& self.answers.len() <= self.size.spec_half()
        &&& (self.revealed ==> self.answers.len() == self.size.spec_half())
    }

    /// return true if the treasure board is closed and not taking any more answers
    pub fn is_closed(&self) -> (b: bool)
        ensures
            b == (self.answers.len() == self.size.spec_half()),
    {
        self.answers.len() as u64 == self.size.slot_count() / 2
    }
}

/// The claim on `slot`, if any, together with its position in the claim list.
pub fn find_claim(answers: &Vec<SlotClaim>, slot: u8) -> (r: Option<usize>)
    ensures
        match r {
            Some(i) => i < answers.len() && answers@[i as int].slot == slot,
            None => !slot_taken(answers@, slot),
        },
{
    let mut i: usize = 0;
    while i < answers.len()
        invariant
            i <= answers.len(),
            forall|j: int| 0 <= j < i ==> answers@[j].slot != slot,
        decreases answers.len() - i,
    {
        if answers[i].slot == slot {
            return Some(i);
        }
        i = i + 1;
    }
    None
}

/// display struct to return treasure board to the user
pub struct GameInfo {
    pub id: u128,
    pub size: BoardSize,
    pub answers: Vec<u8>,
}

} // verus!
