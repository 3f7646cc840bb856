use vstd::prelude::*;

use crate::board::{find_claim, slot_taken, SlotClaim, TreasureBoard};
use crate::errors::GameError;
use crate::game::{lemma_position_is_index, NearTreasureBoardGame};
use crate::hashing::{bytes_equal, sha256_of, solution_digest};
use crate::payout::{
    credit, distinct_accounts, lemma_amount_le_sum, lemma_payout_sum_update, payout_sum, Payout,
};
use crate::rng::{draw_u128_up_to, draw_u64_below, rng_with_seed};
use crate::units::{lemma_yocto_linear, lemma_yocto_monotone, to_yocto, yocto};

verus! {

/// Slot `slot` hides a bomb: it is named among the first `half` bytes of the
/// solution. Duplicates in the solution do not matter, only membership does.
pub open spec fn is_bomb(solution: Seq<u8>, half: int, slot: u8) -> bool {
    exists|j: int| 0 <= j < half && solution[j] == slot
}

/// How many of the slots below `upto` are claimed.
pub open spec fn claimed_count(answers: Seq<SlotClaim>, upto: int) -> int
    decreases upto,
{
    if upto <= 0 {
        0
    } else {
        claimed_count(answers, upto - 1) + if slot_taken(answers, (upto - 1) as u8) {
            1int
        } else {
            0int
        }
    }
}

/// How many of the slots below `upto` are claimed and hide bombs.
pub open spec fn claimed_bomb_count(
    answers: Seq<SlotClaim>,
    solution: Seq<u8>,
    half: int,
    upto: int,
) -> int
    decreases upto,
{
    if upto <= 0 {
        0
    } else {
        claimed_bomb_count(answers, solution, half, upto - 1) + if slot_taken(
            answers,
            (upto - 1) as u8,
        ) && is_bomb(solution, half, (upto - 1) as u8) {
            1int
        } else {
            0int
        }
    }
}

/// A claim list with no slot at all is counted as zero everywhere.
proof fn lemma_claimed_count_empty(answers: Seq<SlotClaim>, upto: int)
    requires
        answers.len() == 0,
    ensures
        claimed_count(answers, upto) == 0,
    decreases upto,
{
    if upto > 0 {
        lemma_claimed_count_empty(answers, upto - 1);
    }
}

/// Dropping a claim on slot `s` lowers the count by one exactly when `s`
/// lies below `upto`.
proof fn lemma_claimed_count_step(prefix: Seq<SlotClaim>, full: Seq<SlotClaim>, s: u8, upto: int)
    requires
        upto <= 256,
        forall|x: u8| slot_taken(full, x) <==> (slot_taken(prefix, x) || x == s),
        !slot_taken(prefix, s),
    ensures
        claimed_count(full, upto) == claimed_count(prefix, upto) + if (s as int) < upto {
            1int
        } else {
            0int
        },
    decreases upto,
{
    if upto > 0 {
        lemma_claimed_count_step(prefix, full, s, upto - 1);
        let t = (upto - 1) as u8;
        assert(slot_taken(full, t) <==> (slot_taken(prefix, t) || t == s));
    }
}

/// Claims name distinct slots inside the board, so counting the claimed
/// slots over the whole board counts exactly the claims.
pub proof fn lemma_claimed_count_is_len(answers: Seq<SlotClaim>, count: int)
    requires
        0 <= count <= 256,
        forall|i: int| 0 <= i < answers.len() ==> (#[trigger] answers[i].slot as int) < count,
        forall|i: int, j: int| 0 <= i < j < answers.len() ==> answers[i].slot != answers[j].slot,
    ensures
        claimed_count(answers, count) == answers.len(),
    decreases answers.len(),
{
    if answers.len() == 0 {
        lemma_claimed_count_empty(answers, count);
    } else {
        let prefix = answers.drop_last();
        let n = answers.len() - 1;
        let s = answers.last().slot;
        assert(!slot_taken(prefix, s)) by {
            if slot_taken(prefix, s) {
                let w = choose|i: int| 0 <= i < prefix.len() && prefix[i].slot == s;
                assert(answers[w].slot == answers[n].slot);
            }
        }
        assert forall|x: u8| slot_taken(answers, x) <==> (slot_taken(prefix, x) || x == s) by {
            if slot_taken(answers, x) {
                let w = choose|i: int| 0 <= i < answers.len() && answers[i].slot == x;
                if w < n {
                    assert(prefix[w].slot == x);
                }
            }
            if slot_taken(prefix, x) {
                let w = choose|i: int| 0 <= i < prefix.len() && prefix[i].slot == x;
                assert(answers[w].slot == x);
            }
            if x == s {
                assert(answers[n].slot == x);
            }
        }
        lemma_claimed_count_is_len(prefix, count);
        lemma_claimed_count_step(prefix, answers, s, count);
    }
}

/// The 64-bit seed folded from the first eight entropy bytes: each byte is
/// weighted by eight xor its position, and the results are summed.
pub open spec fn seed_sum(entropy: Seq<u8>, upto: int) -> int
    decreases upto,
{
    if upto <= 0 {
        0
    } else {
        seed_sum(entropy, upto - 1) + (entropy[upto - 1] as int) * ((8u64 ^ ((upto - 1) as u64))
            as int)
    }
}

/// Fold the host entropy into the generator seed.
pub fn seed_from_entropy(entropy: &Vec<u8>) -> (seed: u64)
    requires
        entropy@.len() >= 8,
    ensures
        seed as int == seed_sum(entropy@, 8),
{
    let mut seed: u64 = 0;
    let mut i: usize = 0;
    while i < 8
        invariant
            i <= 8,
            entropy@.len() >= 8,
            seed as int == seed_sum(entropy@, i as int),
            seed <= 3825 * i,
        decreases 8 - i,
    {
        let w: u64 = 8u64 ^ (i as u64);
        proof {
            let iv = i as u64;
            assert((8u64 ^ iv) <= 15u64) by (bit_vector)
                requires
                    iv < 8,
            ;
            assert((entropy@[i as int] as u64) * w <= 3825) by (nonlinear_arith)
                requires
                    entropy@[i as int] <= 255 && w <= 15,
            ;
        }
        let b = entropy[i];
        seed = seed + (b as u64) * w;
        i = i + 1;
    }
    seed
}

/// Whether `slot` is named among the first `upto` bytes of the solution.
pub fn bomb_in_prefix(solution: &Vec<u8>, upto: usize, slot: u8) -> (r: bool)
    requires
        upto <= solution.len(),
    ensures
        r == is_bomb(solution@, upto as int, slot),
{
    let mut j: usize = 0;
    while j < upto
        invariant
            j <= upto,
            upto <= solution.len(),
            forall|k: int| 0 <= k < j ==> solution@[k] != slot,
        decreases upto - j,
    {
        if solution[j] == slot {
            proof {
                assert(solution@[j as int] == slot);
            }
            return true;
        }
        j = j + 1;
    }
    false
}

/// All of reveal's gate checks pass: the caller owns the board, the board is
/// exactly full and not yet revealed, the solution matches the commitment,
/// and the solution is long enough to name every bomb.
pub open spec fn reveal_permitted(b: TreasureBoard, solution: Seq<u8>, caller: Seq<char>) -> bool {
    &&& b.creator@ == caller
    &&& b.answers.len() == b.size.spec_half()
    &&& !b.revealed
    &&& sha256_of(solution) == b.solution_hash@
    &&& solution.len() >= b.size.spec_half()
}

/// The first gate check that fails names the error `reveal` returns.
pub open spec fn reveal_error(b: TreasureBoard, solution: Seq<u8>, caller: Seq<char>) -> GameError {
    if b.creator@ != caller {
        GameError::Unauthorized
    } else if b.answers.len() != b.size.spec_half() || b.revealed {
        GameError::BoardNotClosed
    } else if sha256_of(solution) != b.solution_hash@ {
        GameError::SolutionHashMismatch
    } else {
        GameError::SolutionSizeInvalid
    }
}

/// `post` is `pre` with board `id` marked revealed and nothing else changed.
pub open spec fn reveal_applied(
    pre: NearTreasureBoardGame,
    post: NearTreasureBoardGame,
    id: u128,
) -> bool {
    let k = pre.game_index(id);
    let b = pre.spec_game(id);
    &&& post.next_index == pre.next_index
    &&& post.boards.len() == pre.boards.len()
    &&& (forall|j: int| 0 <= j < pre.boards.len() && j != k ==> post.boards[j] == pre.boards[j])
    &&& post.boards[k].id == id
    &&& post.boards[k].board.creator == b.creator
    &&& post.boards[k].board.size == b.size
    &&& post.boards[k].board.solution_hash == b.solution_hash
    &&& post.boards[k].board.answers@ == b.answers@
    &&& post.boards[k].board.revealed
}

/// The total a settlement pays out when `k` claimed slots were settled: the
/// whole creation deposit plus one stake unit for each of the `k` slots.
pub open spec fn settled_total(count: int, k: int) -> int {
    yocto(count) + k * yocto(1)
}

/// What a reveal settlement owes: the lines name distinct accounts, someone
/// is paid, only the creator and claimants are paid, and the total equals the
/// creation deposit plus one stake unit per claimed slot that was settled —
/// at least every claimed bomb slot, at most every claimed slot.
pub open spec fn payout_plan_sound(b: TreasureBoard, solution: Seq<u8>, ps: Seq<Payout>) -> bool {
    let count = b.size.spec_slot_count() as int;
    let half = b.size.spec_half() as int;
    &&& distinct_accounts(ps)
    &&& ps.len() >= 1
    &&& (forall|i: int|
        0 <= i < ps.len() ==> (#[trigger] ps[i].account@) == b.creator@ || exists|j: int|
            0 <= j < b.answers.len() && b.answers@[j].player@ == ps[i].account@)
    &&& exists|k: int|
        claimed_bomb_count(b.answers@, solution, half, count) <= k <= half && payout_sum(ps)
            == #[trigger] settled_total(count, k)
}

/// Conservation of value. A sound settlement never pays out less than the
/// creation deposit plus the stake of every claimed bomb slot, never more
/// than the deposit plus every collected stake, and exactly the deposit plus
/// every collected stake when every claimed slot hides a bomb.
pub proof fn lemma_settlement_conserves_value(b: TreasureBoard, solution: Seq<u8>, ps: Seq<Payout>)
    requires
        payout_plan_sound(b, solution, ps),
    ensures
        yocto(b.size.spec_slot_count() as int) + yocto(
            claimed_bomb_count(
                b.answers@,
                solution,
                b.size.spec_half() as int,
                b.size.spec_slot_count() as int,
            ),
        ) <= payout_sum(ps) <= yocto(b.size.spec_slot_count() as int) + yocto(
            b.size.spec_half() as int,
        ),
        claimed_bomb_count(
            b.answers@,
            solution,
            b.size.spec_half() as int,
            b.size.spec_slot_count() as int,
        ) == b.size.spec_half() ==> payout_sum(ps) == yocto(b.size.spec_slot_count() as int)
            + yocto(b.size.spec_half() as int),
{
    let count = b.size.spec_slot_count() as int;
    let half = b.size.spec_half() as int;
    let cbc = claimed_bomb_count(b.answers@, solution, half, count);
    let k = choose|k: int|
        cbc <= k <= half && payout_sum(ps) == #[trigger] settled_total(count, k);
    lemma_yocto_linear(k);
    lemma_yocto_linear(cbc);
    lemma_yocto_linear(half);
    lemma_yocto_monotone(cbc, k);
    lemma_yocto_monotone(k, half);
}

impl NearTreasureBoardGame {
    /// Check the solution against the commitment and settle the board: every
    /// claimed bomb slot forfeits its stake to the creator, every claimed
    /// treasure slot refunds its stake plus a random share of the remaining
    /// pool, unclaimed treasure slots pay the creator, and whatever the draws
    /// leave over goes to one randomly chosen recipient. The board is marked
    /// revealed, and the caller is handed the settlement to disburse.
    #[verifier::loop_isolation(false)]
    pub fn reveal_solution(
        &mut self,
        id: u128,
        solution: Vec<u8>,
        caller: String,
        entropy: &Vec<u8>,
    ) -> (r: Result<Vec<Payout>, GameError>)
        requires
            old(self).wf(),
            entropy@.len() >= 8,
        ensures
            final(self).wf(),
            r is Err ==> *final(self) == *old(self),
            !old(self).has_game(id) ==> r == Err::<Vec<Payout>, GameError>(
                GameError::GameNotFound,
            ),
            old(self).has_game(id) && !reveal_permitted(
                old(self).spec_game(id),
                solution@,
                caller@,
            ) ==> r == Err::<Vec<Payout>, GameError>(
                reveal_error(old(self).spec_game(id), solution@, caller@),
            ),
            old(self).has_game(id) && reveal_permitted(
                old(self).spec_game(id),
                solution@,
                caller@,
            ) ==> r is Ok,
            r matches Ok(p) ==> old(self).has_game(id) && reveal_permitted(
                old(self).spec_game(id),
                solution@,
                caller@,
            ) && reveal_applied(*old(self), *final(self), id) && payout_plan_sound(
                old(self).spec_game(id),
                solution@,
                p@,
            ),
    {
        let pos = match self.game_position(id) {
            None => { return Err(GameError::GameNotFound) },
            Some(p) => p,
        };
        proof {
            lemma_position_is_index(*self, id, pos as int);
        }
        let game = &self.boards[pos].board;
        let ghost b = *game;
        proof {
            assert(b == old(self).spec_game(id));
            assert(b.wf());
        }
        if !(game.creator == caller) {
            return Err(GameError::Unauthorized);
        }
        if !game.is_closed() {
            return Err(GameError::BoardNotClosed);
        }
        if game.revealed {
            return Err(GameError::BoardNotClosed);
        }
        let digest = solution_digest(&solution);
        if !bytes_equal(&digest, &game.solution_hash) {
            return Err(GameError::SolutionHashMismatch);
        }
        let tb_size = game.size.slot_count();
        let half = (tb_size / 2) as usize;
        if solution.len() < half {
            return Err(GameError::SolutionSizeInvalid);
        }

        proof {
            assert(tb_size == 4 || tb_size == 16 || tb_size == 36);
        }
        let pool = to_yocto(tb_size as u128);
        let unit = to_yocto(1);
        proof {
            lemma_yocto_monotone(tb_size as int, 36);
            assert(pool > 0);
        }
        let mut remaining: u128 = pool;
        let mut payouts: Vec<Payout> = Vec::new();

        let seed = seed_from_entropy(entropy);
        let mut rng = rng_with_seed(seed);

        let ghost answers = game.answers@;
        let ghost sol = solution@;
        let ghost mut credited: int = 0;

        let mut i: u64 = 0;
        while i < tb_size
            invariant
                i <= tb_size,
                remaining <= pool,
                distinct_accounts(payouts@),
                payout_sum(payouts@) + remaining == pool + credited * yocto(1),
                0 <= credited <= i,
                claimed_bomb_count(answers, sol, half as int, i as int) <= credited,
                credited <= claimed_count(answers, i as int),
                payouts@.len() == 0 ==> remaining == pool && credited == 0 && claimed_count(
                    answers,
                    i as int,
                ) == 0,
                forall|q: int|
                    0 <= q < payouts@.len() ==> (#[trigger] payouts@[q].account@) == b.creator@
                        || exists|j: int|
                        0 <= j < answers.len() && answers[j].player@ == payouts@[q].account@,
            decreases tb_size - i,
        {
            let slot = i as u8;
            let bombed = bomb_in_prefix(&solution, half, slot);
            proof {
                lemma_yocto_linear(credited);
                lemma_yocto_monotone(credited, 36);
                assert(payout_sum(payouts@) + remaining == pool + yocto(credited));
            }
            match find_claim(&game.answers, slot) {
                None => {
                    proof {
                        assert(!slot_taken(answers, slot));
                    }
                    if remaining > 0 && !bombed {
                        let draw = draw_u128_up_to(&mut rng, remaining);
                        credit(&mut payouts, &game.creator, draw);
                        remaining = remaining - draw;
                    }
                },
                Some(ci) => {
                    proof {
                        assert(answers[ci as int].slot == slot);
                        assert(slot_taken(answers, slot));
                    }
                    if bombed {
                        credit(&mut payouts, &game.creator, unit);
                        proof {
                            credited = credited + 1;
                        }
                    } else {
                        if remaining > 0 {
                            let draw = draw_u128_up_to(&mut rng, remaining);
                            let prize = draw + unit;
                            credit(&mut payouts, &game.answers[ci].player, prize);
                            remaining = remaining - draw;
                            proof {
                                credited = credited + 1;
                            }
                        }
                    }
                },
            }
            i = i + 1;
        }

        proof {
            lemma_claimed_count_is_len(answers, tb_size as int);
        }

        if remaining > 0 {
            if payouts.len() == 0 {
                // Unreachable once the board is full: some claimed slot has
                // settled by now. Kept as a guard so the draw below can never
                // see an empty range.
                return Err(GameError::AllocationError);
            }
            let idx_u64 = draw_u64_below(&mut rng, payouts.len() as u64);
            let idx = idx_u64 as usize;
            let ghost ps_before = payouts@;
            proof {
                lemma_yocto_linear(credited);
                lemma_yocto_monotone(credited, 36);
                lemma_amount_le_sum(payouts@, idx as int);
            }
            let line = payouts.remove(idx);
            let topped = line.amount + remaining;
            payouts.insert(idx, Payout { account: line.account, amount: topped });
            proof {
                assert(payouts@ =~= ps_before.update(idx as int, payouts@[idx as int]));
                lemma_payout_sum_update(ps_before, idx as int, payouts@[idx as int]);
                assert forall|p: int, q: int|
                    0 <= p < q < payouts@.len() implies payouts@[p].account@
                    != payouts@[q].account@ by {
                    assert(payouts@[p].account@ == ps_before[p].account@);
                    assert(payouts@[q].account@ == ps_before[q].account@);
                }
                assert forall|q: int|
                    0 <= q < payouts@.len() implies (#[trigger] payouts@[q].account@)
                    == b.creator@ || exists|j: int|
                    0 <= j < answers.len() && answers[j].player@ == payouts@[q].account@ by {
                    assert(payouts@[q].account@ == ps_before[q].account@);
                }
            }
            remaining = 0;
        }

        proof {
            lemma_yocto_linear(credited);
            assert(payout_sum(payouts@) == settled_total(tb_size as int, credited));
            assert(claimed_bomb_count(answers, sol, half as int, tb_size as int) <= credited
                <= b.size.spec_half());
        }
        let mut entry = self.boards.remove(pos);
        entry.board.revealed = true;
        self.boards.insert(pos, entry);
        proof {
            assert(self.boards@ =~= old(self).boards@.update(pos as int, self.boards@[pos as int]));
        }
        Ok(payouts)
    }
}

} // verus!
