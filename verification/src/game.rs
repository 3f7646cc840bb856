use vstd::prelude::*;

use crate::board::{find_claim, slot_taken, BoardSize, GameInfo, SlotClaim, TreasureBoard};
use crate::errors::GameError;
use crate::units::{to_yocto, yocto};

verus! {

/// A board together with the id the registry assigned to it.
pub struct BoardEntry {
    pub id: u128,
    pub board: TreasureBoard,
}

/// The registry of all boards, keyed by a strictly increasing id.
pub struct NearTreasureBoardGame {
    pub boards: Vec<BoardEntry>,
    pub next_index: u128,
}

impl NearTreasureBoardGame {
    /// Ids are strictly increasing (so listing follows insertion order),
    /// every id lies below the counter, and every board is well formed.
    pub open spec fn wf(self) -> bool {
        &&& forall|i: int, j: int|
            0 <= i < j < self.boards.len() ==> self.boards[i].id < self.boards[j].id
        &&& forall|i: int|
            0 <= i < self.boards.len() ==> (#[trigger] self.boards[i].id) < self.next_index
        &&& forall|i: int| 0 <= i < self.boards.len() ==> (#[trigger] self.boards[i].board).wf()
    }

    /// Some board in the registry carries the given id.
    pub open spec fn has_game(self, id: u128) -> bool {
        exists|i: int| 0 <= i < self.boards.len() && self.boards[i].id == id
    }

    /// The position of the board with the given id.
    pub open spec fn game_index(self, id: u128) -> int {
        choose|i: int| 0 <= i < self.boards.len() && self.boards[i].id == id
    }

    /// The board with the given id.
    pub open spec fn spec_game(self, id: u128) -> TreasureBoard {
        self.boards[self.game_index(id)].board
    }

    /// An empty registry whose first board will get the given id.
    pub fn new(start_index: u128) -> (r: Self)
        ensures
            r.boards.len() == 0,
            r.next_index == start_index,
            r.wf(),
    {
        NearTreasureBoardGame { boards: Vec::new(), next_index: start_index }
    }

    /// The position of the board with the given id, if present.
    pub fn game_position(&self, id: u128) -> (r: Option<usize>)
        ensures
            match r {
                Some(i) => i < self.boards.len() && self.boards@[i as int].id == id,
                None => !self.has_game(id),
            },
            r is Some <==> self.has_game(id),
    {
        let mut i: usize = 0;
        while i < self.boards.len()
            invariant
                i <= self.boards.len(),
                forall|j: int| 0 <= j < i ==> self.boards@[j].id != id,
            decreases self.boards.len() - i,
        {
            if self.boards[i].id == id {
                return Some(i);
            }
            i = i + 1;
        }
        None
    }

    /// creates a new treasure board of the given size taking NEARs equal to that size
    pub fn new_game(
        &mut self,
        size: BoardSize,
        solution_hash: Vec<u8>,
        creator: String,
        deposit: u128,
    ) -> (r: Result<(), GameError>)
        requires
            old(self).wf(),
            old(self).next_index < u128::MAX,
        ensures
            final(self).wf(),
            deposit < yocto(size.spec_slot_count() as int) ==> r == Err::<(), GameError>(
                GameError::InsufficientDeposit,
            ) && *final(self) == *old(self),
            deposit >= yocto(size.spec_slot_count() as int) ==> {
                &&& r == Ok::<(), GameError>(())
                &&& final(self).next_index == old(self).next_index + 1
                &&& final(self).boards.len() == old(self).boards.len() + 1
                &&& final(self).boards@.drop_last() == old(self).boards@
                &&& final(self).boards@.last().id == old(self).next_index
                &&& final(self).boards@.last().board.creator == creator
                &&& final(self).boards@.last().board.size == size
                &&& final(self).boards@.last().board.solution_hash == solution_hash
                &&& final(self).boards@.last().board.answers.len() == 0
                &&& !final(self).boards@.last().board.revealed
                &&& final(self).has_game(old(self).next_index)
            },
    {
        let count = size.slot_count();
        if deposit < to_yocto(count as u128) {
            return Err(GameError::InsufficientDeposit);
        }
        let id = self.next_index;
        let board = TreasureBoard {
            creator,
            size,
            solution_hash,
            answers: Vec::new(),
            revealed: false,
        };
        self.boards.push(BoardEntry { id, board });
        self.next_index = self.next_index + 1;
        proof {
            assert(self.boards@.drop_last() =~= old(self).boards@);
            assert(self.boards@.last().id == old(self).next_index);
        }
        Ok(())
    }

    /// return all treasure boards
    pub fn games(&self) -> (r: Vec<GameInfo>)
        ensures
            r.len() == self.boards.len(),
            forall|i: int|
                0 <= i < r.len() ==> {
                    &&& (#[trigger] r[i]).id == self.boards[i].id
                    &&& r[i].size == self.boards[i].board.size
                    &&& r[i].answers@ == self.boards[i].board.answers@.map_values(
                        |c: SlotClaim| c.slot,
                    )
                },
    {
        let mut games: Vec<GameInfo> = Vec::new();
        let mut i: usize = 0;
        while i < self.boards.len()
            invariant
                i <= self.boards.len(),
                games.len() == i,
                forall|k: int|
                    0 <= k < i ==> {
                        &&& (#[trigger] games@[k]).id == self.boards@[k].id
                        &&& games@[k].size == self.boards@[k].board.size
                        &&& games@[k].answers@ == self.boards@[k].board.answers@.map_values(
                            |c: SlotClaim| c.slot,
                        )
                    },
            decreases self.boards.len() - i,
        {
            let entry = &self.boards[i];
            let mut slots: Vec<u8> = Vec::new();
            let mut j: usize = 0;
            while j < entry.board.answers.len()
                invariant
                    j <= entry.board.answers.len(),
                    slots.len() == j,
                    forall|k: int| 0 <= k < j ==> slots@[k] == entry.board.answers@[k].slot,
                decreases entry.board.answers.len() - j,
            {
                let slot = entry.board.answers[j].slot;
                slots.push(slot);
                j = j + 1;
            }
            proof {
                assert(slots@ =~= entry.board.answers@.map_values(|c: SlotClaim| c.slot));
            }
            games.push(GameInfo { id: entry.id, size: entry.board.size, answers: slots });
            i = i + 1;
        }
        games
    }

    /// reserves a slot on the treasure board for the player
    pub fn play(&mut self, id: u128, choice: u8, player: String, deposit: u128) -> (r: Result<
        (),
        GameError,
    >)
        requires
            old(self).wf(),
        ensures
            final(self).wf(),
            r is Err ==> *final(self) == *old(self),
            !old(self).has_game(id) ==> r == Err::<(), GameError>(GameError::GameNotFound),
            old(self).has_game(id) ==> {
                let b = old(self).spec_game(id);
                let count = b.size.spec_slot_count();
                let half = b.size.spec_half();
                let open = b.answers.len() < half;
                let in_range = (choice as u64) < count;
                let taken = slot_taken(b.answers@, choice);
                &&& (b.answers.len() == half ==> r == Err::<(), GameError>(GameError::BoardClosed))
                &&& (open && !in_range ==> r == Err::<(), GameError>(GameError::SlotOutOfRange))
                &&& (open && in_range && taken ==> r == Err::<(), GameError>(GameError::SlotTaken))
                &&& (open && in_range && !taken && deposit < yocto(1) ==> r == Err::<
                    (),
                    GameError,
                >(GameError::InsufficientDeposit))
                &&& (open && in_range && !taken && deposit >= yocto(1) ==> r == Ok::<
                    (),
                    GameError,
                >(()) && claim_applied(*old(self), *final(self), id, choice, player))
            },
    {
        let pos = match self.game_position(id) {
            None => { return Err(GameError::GameNotFound) },
            Some(p) => p,
        };
        proof {
            lemma_position_is_index(*self, id, pos as int);
        }
        let board = &self.boards[pos].board;
        if board.is_closed() {
            return Err(GameError::BoardClosed);
        }
        if (choice as u64) >= board.size.slot_count() {
            return Err(GameError::SlotOutOfRange);
        }
        match find_claim(&board.answers, choice) {
            Some(_) => { return Err(GameError::SlotTaken) },
            None => {},
        }
        if deposit < to_yocto(1) {
            return Err(GameError::InsufficientDeposit);
        }
        let mut entry = self.boards.remove(pos);
        entry.board.answers.push(SlotClaim { slot: choice, player });
        self.boards.insert(pos, entry);
        proof {
            let k = pos as int;
            let b = old(self).spec_game(id);
            assert(self.boards@ =~= old(self).boards@.update(
                k,
                self.boards@[k],
            ));
            assert(self.boards@[k].board.answers@.drop_last() =~= b.answers@);
            assert(self.boards@[k].board.answers@ =~= b.answers@.push(
                self.boards@[k].board.answers@.last(),
            ));
        }
        Ok(())
    }

    /// returns a reference to the treasure board with the given id
    pub fn get_game(&self, id: u128) -> (r: Result<&TreasureBoard, GameError>)
        requires
            self.wf(),
        ensures
            match r {
                Ok(b) => self.has_game(id) && *b == self.spec_game(id),
                Err(e) => !self.has_game(id) && e == GameError::GameNotFound,
            },
    {
        match self.game_position(id) {
            None => Err(GameError::GameNotFound),
            Some(i) => {
                proof {
                    lemma_position_is_index(*self, id, i as int);
                }
                Ok(&self.boards[i].board)
            },
        }
    }
}

/// `post` is `pre` with `(choice -> player)` appended to the answers of
/// board `id` and nothing else changed.
pub open spec fn claim_applied(
    pre: NearTreasureBoardGame,
    post: NearTreasureBoardGame,
    id: u128,
    choice: u8,
    player: String,
) -> bool {
    let k = pre.game_index(id);
    let b = pre.spec_game(id);
    &&& post.next_index == pre.next_index
    &&& post.boards.len() == pre.boards.len()
    &&& (forall|j: int| 0 <= j < pre.boards.len() && j != k ==> post.boards[j] == pre.boards[j])
    &&& post.boards[k].id == id
    &&& post.boards[k].board.creator == b.creator
    &&& post.boards[k].board.size == b.size
    &&& post.boards[k].board.solution_hash == b.solution_hash
    &&& post.boards[k].board.revealed == b.revealed
    &&& post.boards[k].board.answers@ == b.answers@.push((SlotClaim { slot: choice, player }))
}

impl Default for NearTreasureBoardGame {
    /// An empty registry whose first board gets id 1.
    fn default() -> (r: Self)
        ensures
            r.boards.len() == 0,
            r.next_index == 1,
            r.wf(),
    {
        NearTreasureBoardGame { boards: Vec::new(), next_index: 1 }
    }
}

/// In any registry two positions holding the same id coincide, so an exec
/// lookup lands exactly on `game_index`.
pub proof fn lemma_position_is_index(g: NearTreasureBoardGame, id: u128, i: int)
    requires
        0 <= i < g.boards.len(),
        g.boards[i].id == id,
        forall|p: int, q: int| 0 <= p < q < g.boards.len() ==> g.boards[p].id < g.boards[q].id,
    ensures
        g.has_game(id),
        g.game_index(id) == i,
{
    assert(g.has_game(id));
    let j = g.game_index(id);
    if j < i {
        assert(g.boards[j].id < g.boards[i].id);
    } else if j > i {
        assert(g.boards[i].id < g.boards[j].id);
    }
}

} // verus!
