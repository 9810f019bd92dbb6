//! Position and profit-and-loss tracking.
//!
//! One `Position` per coin, maintained under the average-cost model:
//! a single blended entry price instead of per-lot history.  Fills are
//! processed strictly in arrival order.  The update rule per fill:
//!
//! 1. The signed fill quantity is `+size` for a buy, `-size` for a sell.
//! 2. A fill against a flat position opens it: the amount becomes the
//!    signed quantity and the average price the fill price.
//! 3. A fill on the same side as the position blends the average price
//!    by size weight and grows the amount.
//! 4. A fill on the opposite side closes `min(|amount|, size)` units,
//!    realizing `(fill price - average price) * sign(amount)` per unit.
//!    Closing to exactly zero resets the average price to zero; a fill
//!    that flips the position past zero adopts the fill price as the
//!    average price of the residual (one of the two policies the data
//!    model admits; it is fixed here explicitly).
//! 5. Buy-side fees are denominated in the base asset and come out of
//!    the position amount; sell-side fees are denominated in quote
//!    currency and come out of realized PnL.
//!
//! All arithmetic is exact integer arithmetic; the size-weighted blend
//! truncates its one division toward zero.  A fill whose update would
//! leave the representable range is rejected and leaves the tracker
//! unchanged.

use vstd::prelude::*;

use crate::model::CustomUserFills;
use crate::model::Mid;
use crate::model::Side;

verus! {

/// Profit-and-loss figures of one position.
#[derive(Clone, Copy, PartialEq, Eq, Structural, Debug)]
pub struct Pnl {
    pub realized: i128,
    pub unrealized: i128,
    pub fee_in_token: i128,
    pub fee_in_usdc: i128,
}

/// The tracked state of one coin: signed amount, blended entry price,
/// and accumulated PnL.  A flat position keeps its record (amount zero)
/// for historical realized PnL.
#[derive(Debug)]
pub struct Position {
    pub coin: String,
    pub amount: i64,
    pub average_price: u64,
    pub pnl: Pnl,
}

impl Clone for Position {
    fn clone(&self) -> (res: Self)
        ensures
            res == *self,
    {
        Position {
            coin: self.coin.clone(),
            amount: self.amount,
            average_price: self.average_price,
            pnl: self.pnl,
        }
    }
}

/// Why a fill was rejected by the tracker.
#[derive(Clone, Copy, PartialEq, Eq, Structural, Debug)]
pub enum TrackerError {
    /// The update would leave the representable integer range.
    Overflow,
}

/// The position a first fill of a coin starts from.
pub open spec fn fresh_position(coin: String) -> Position {
    (Position {
        coin,
        amount: 0,
        average_price: 0,
        pnl: (Pnl { realized: 0, unrealized: 0, fee_in_token: 0, fee_in_usdc: 0 }),
    })
}

/// Signed quantity of a fill: `+size` for a buy, `-size` for a sell.
pub open spec fn fill_signed_qty(f: CustomUserFills) -> int {
    if f.side == Side::Buy {
        f.size as int
    } else {
        -(f.size as int)
    }
}

/// The fill grows the position on its own side.
pub open spec fn pos_is_same_side(p: Position, f: CustomUserFills) -> bool {
    ||| (p.amount > 0 && fill_signed_qty(f) > 0)
    ||| (p.amount < 0 && fill_signed_qty(f) < 0)
}

/// How much of the position an opposite-side fill closes.
pub open spec fn pos_closed_qty(p: Position, f: CustomUserFills) -> int {
    vstd::math::min(vstd::math::abs(p.amount as int) as int, f.size as int)
}

/// Sign of the position amount: +1 long, -1 short, 0 flat.
pub open spec fn pos_sign(p: Position) -> int {
    if p.amount > 0 {
        1
    } else if p.amount < 0 {
        -1
    } else {
        0
    }
}

/// Position amount after the trade itself, before the fee step.
pub open spec fn pos_amount_core(p: Position, f: CustomUserFills) -> int {
    if p.amount == 0 {
        fill_signed_qty(f)
    } else {
        p.amount + fill_signed_qty(f)
    }
}

/// Average price after the fill: the fill price on an open, the
/// size-weighted blend (truncating division) on a same-side fill, zero
/// on a close to flat, the fill price on a flip, and otherwise
/// unchanged.
pub open spec fn pos_avg_after(p: Position, f: CustomUserFills) -> int {
    if p.amount == 0 {
        f.price as int
    } else if pos_is_same_side(p, f) {
        (vstd::math::abs(p.amount as int) * (p.average_price as int) + (f.size as int) * (
        f.price as int)) / (vstd::math::abs(p.amount as int) + (f.size as int))
    } else {
        let a2 = pos_amount_core(p, f);
        if a2 == 0 {
            0
        } else if (p.amount > 0 && a2 < 0) || (p.amount < 0 && a2 > 0) {
            f.price as int
        } else {
            p.average_price as int
        }
    }
}

/// Realized PnL after the trade itself, before the fee step: an
/// opposite-side fill realizes `(price - average) * sign * closed`.
pub open spec fn pos_realized_core(p: Position, f: CustomUserFills) -> int {
    if p.amount == 0 || pos_is_same_side(p, f) {
        p.pnl.realized as int
    } else {
        p.pnl.realized + ((f.price as int) - (p.average_price as int)) * pos_sign(p)
            * pos_closed_qty(p, f)
    }
}

/// Position amount after the fee step: a buy-side fee is paid out of
/// the acquired quantity.
pub open spec fn pos_amount_after(p: Position, f: CustomUserFills) -> int {
    if f.side == Side::Buy {
        pos_amount_core(p, f) - f.fee
    } else {
        pos_amount_core(p, f)
    }
}

/// Realized PnL after the fee step: a sell-side fee is paid out of
/// realized PnL.
pub open spec fn pos_realized_after(p: Position, f: CustomUserFills) -> int {
    if f.side == Side::Buy {
        pos_realized_core(p, f)
    } else {
        pos_realized_core(p, f) - f.fee
    }
}

/// Accumulated base-asset fees after the fill.
pub open spec fn pos_fee_token_after(p: Position, f: CustomUserFills) -> int {
    if f.side == Side::Buy {
        p.pnl.fee_in_token + f.fee
    } else {
        p.pnl.fee_in_token as int
    }
}

/// Accumulated quote-currency fees after the fill.
pub open spec fn pos_fee_usdc_after(p: Position, f: CustomUserFills) -> int {
    if f.side == Side::Buy {
        p.pnl.fee_in_usdc as int
    } else {
        p.pnl.fee_in_usdc + f.fee
    }
}

/// Every intermediate and final value of the update stays representable:
/// the amount in `i64`, the PnL accumulators in `i128`.
pub open spec fn fill_fits(p: Position, f: CustomUserFills) -> bool {
    &&& i64::MIN <= pos_amount_core(p, f) <= i64::MAX
    &&& i64::MIN <= pos_amount_after(p, f) <= i64::MAX
    &&& i128::MIN <= pos_realized_core(p, f) <= i128::MAX
    &&& i128::MIN <= pos_realized_after(p, f) <= i128::MAX
    &&& i128::MIN <= pos_fee_token_after(p, f) <= i128::MAX
    &&& i128::MIN <= pos_fee_usdc_after(p, f) <= i128::MAX
}

/// The position after applying one fill, assuming `fill_fits`.
pub open spec fn pos_after_fill(p: Position, f: CustomUserFills) -> Position {
    (Position {
        coin: p.coin,
        amount: pos_amount_after(p, f) as i64,
        average_price: pos_avg_after(p, f) as u64,
        pnl: (Pnl {
            realized: pos_realized_after(p, f) as i128,
            unrealized: p.pnl.unrealized,
            fee_in_token: pos_fee_token_after(p, f) as i128,
            fee_in_usdc: pos_fee_usdc_after(p, f) as i128,
        }),
    })
}

/// The average price never leaves `u64`: it is either a fill price, a
/// size-weighted blend of two prices, or zero.
pub proof fn lemma_avg_in_range(p: Position, f: CustomUserFills)
    ensures
        0 <= pos_avg_after(p, f) <= u64::MAX,
{
    if p.amount != 0 && pos_is_same_side(p, f) {
        let absa = vstd::math::abs(p.amount as int) as int;
        let s = f.size as int;
        let avg = p.average_price as int;
        let price = f.price as int;
        let num = absa * avg + s * price;
        let tot = absa + s;
        let m: int = u64::MAX as int;
        assert(tot >= 2);
        assert(num >= 0) by (nonlinear_arith)
            requires
                num == absa * avg + s * price,
                absa >= 0 && s >= 0 && avg >= 0 && price >= 0,
        ;
        assert(num <= tot * m) by (nonlinear_arith)
            requires
                num == absa * avg + s * price,
                tot == absa + s,
                0 <= avg <= m,
                0 <= price <= m,
                absa >= 0,
                s >= 0,
        ;
        vstd::arithmetic::div_mod::lemma_div_is_ordered(num, tot * m, tot);
        vstd::arithmetic::div_mod::lemma_div_multiples_vanish(m, tot);
        vstd::arithmetic::div_mod::lemma_div_pos_is_pos(num, tot);
    }
}

/// Applies one fill to one position, or reports that the update does
/// not fit the representable range.
fn apply_fill_to(p: &Position, f: &CustomUserFills) -> (r: Option<Position>)
    ensures
        r == if fill_fits(*p, *f) {
            Some(pos_after_fill(*p, *f))
        } else {
            None::<Position>
        },
{
    proof {
        lemma_avg_in_range(*p, *f);
    }
    let is_buy = f.side == Side::Buy;
    let a: i128 = p.amount as i128;
    let s: i128 = f.size as i128;
    let q: i128 = if is_buy {
        s
    } else {
        -s
    };
    let fee: i128 = f.fee as i128;

    let amount_core: i128 = if a == 0 {
        q
    } else {
        a + q
    };
    if amount_core < i64::MIN as i128 || amount_core > i64::MAX as i128 {
        return None;
    }

    let avg_core: u64;
    let realized_core: i128;
    if a == 0 {
        avg_core = f.price;
        realized_core = p.pnl.realized;
    } else if (a > 0 && q > 0) || (a < 0 && q < 0) {
        let abs_a: u128 = if p.amount >= 0 {
            p.amount as u128
        } else {
            (-a) as u128
        };
        let s_u: u128 = f.size as u128;
        let tot: u128 = abs_a + s_u;
        proof {
            assert(abs_a as int == vstd::math::abs(p.amount as int));
            assert(tot as int == vstd::math::abs(p.amount as int) + f.size as int);
            let m: int = u64::MAX as int;
            assert(abs_a as int * (p.average_price as int) + s_u as int * (f.price as int) <= (
            tot as int) * m) by (nonlinear_arith)
                requires
                    0 <= p.average_price as int <= m,
                    0 <= f.price as int <= m,
                    abs_a as int >= 0,
                    s_u as int >= 0,
                    tot as int == abs_a as int + s_u as int,
            ;
            assert((tot as int) * m < u128::MAX as int) by (nonlinear_arith)
                requires
                    0 < tot as int <= 0x8000_0000_0000_0000int,
                    m == u64::MAX as int,
            ;
        }
        let num: u128 = abs_a * (p.average_price as u128) + s_u * (f.price as u128);
        let quot: u128 = num / tot;
        proof {
            let m: int = u64::MAX as int;
            vstd::arithmetic::div_mod::lemma_div_is_ordered(num as int, tot as int * m, tot as int);
            vstd::arithmetic::div_mod::lemma_div_multiples_vanish(m, tot as int);
        }
        avg_core = quot as u64;
        realized_core = p.pnl.realized;
    } else {
        let abs_a: u128 = if p.amount >= 0 {
            p.amount as u128
        } else {
            (-a) as u128
        };
        let s_u: u128 = f.size as u128;
        let closed: u128 = if abs_a < s_u {
            abs_a
        } else {
            s_u
        };
        let diff: i128 = f.price as i128 - p.average_price as i128;
        let sign: i128 = if a > 0 {
            1
        } else {
            -1
        };
        proof {
            assert(closed as int == pos_closed_qty(*p, *f));
            let d = f.price as int - p.average_price as int;
            let sg: int = if a > 0 {
                1
            } else {
                -1
            };
            let c = closed as int;
            let bound = (u64::MAX as int) * 0x8000_0000_0000_0000int;
            assert(-bound <= d * sg * c <= bound) by (nonlinear_arith)
                requires
                    -(u64::MAX as int) <= d <= u64::MAX as int,
                    sg == 1 || sg == -1,
                    0 <= c <= 0x8000_0000_0000_0000int,
                    bound == (u64::MAX as int) * 0x8000_0000_0000_0000int,
            ;
        }
        let inc: i128 = diff * sign * (closed as i128);
        realized_core = match p.pnl.realized.checked_add(inc) {
            Some(v) => v,
            None => {
                return None;
            },
        };
        avg_core = if amount_core == 0 {
            0
        } else if (a > 0 && amount_core < 0) || (a < 0 && amount_core > 0) {
            f.price
        } else {
            p.average_price
        };
    }

    let amount_after: i128 = if is_buy {
        amount_core - fee
    } else {
        amount_core
    };
    if amount_after < i64::MIN as i128 || amount_after > i64::MAX as i128 {
        return None;
    }
    let realized_after: i128 = if is_buy {
        realized_core
    } else {
        match realized_core.checked_sub(fee) {
            Some(v) => v,
            None => {
                return None;
            },
        }
    };
    let fee_in_token: i128 = if is_buy {
        match p.pnl.fee_in_token.checked_add(fee) {
            Some(v) => v,
            None => {
                return None;
            },
        }
    } else {
        p.pnl.fee_in_token
    };
    let fee_in_usdc: i128 = if is_buy {
        p.pnl.fee_in_usdc
    } else {
        match p.pnl.fee_in_usdc.checked_add(fee) {
            Some(v) => v,
            None => {
                return None;
            },
        }
    };
    Some(
        Position {
            coin: p.coin.clone(),
            amount: amount_after as i64,
            average_price: avg_core,
            pnl: (Pnl {
                realized: realized_after,
                unrealized: p.pnl.unrealized,
                fee_in_token,
                fee_in_usdc,
            }),
        },
    )
}

/// Some position in the sequence tracks this coin.
pub open spec fn has_coin(s: Seq<Position>, coin: Seq<char>) -> bool {
    exists|i: int| 0 <= i < s.len() && s[i].coin@ == coin
}

/// Unrealized PnL of one position at a mark price: zero when flat.
pub open spec fn position_unrealized(p: Position, mark: int) -> int {
    if p.amount != 0 {
        (mark - p.average_price as int) * (p.amount as int)
    } else {
        0
    }
}

/// Tracks one average-cost position per coin.  Positions are created
/// lazily on the first fill of a coin and never deleted.
#[derive(Debug)]
pub struct PortfolioManager {
    positions: Vec<Position>,
}

impl View for PortfolioManager {
    type V = Seq<Position>;

    closed spec fn view(&self) -> Seq<Position> {
        self.positions@
    }
}

impl Clone for PortfolioManager {
    fn clone(&self) -> (res: Self)
        ensures
            res@ == self@,
    {
        PortfolioManager { positions: clone_positions(&self.positions) }
    }
}

/// Clones a position vector; the copy equals the original element for
/// element.
pub fn clone_positions(v: &Vec<Position>) -> (r: Vec<Position>)
    ensures
        r@ == v@,
{
    let r = v.clone();
    proof {
        assert forall|i: int| 0 <= i < v@.len() implies r@[i] == v@[i] by {
            assert(cloned::<Position>(v@[i], r@[i]));
        }
        assert(r@ =~= v@);
    }
    r
}

impl PortfolioManager {
    /// At most one position per coin.
    pub open spec fn wf(&self) -> bool {
        forall|i: int, j: int|
            0 <= i < j < self@.len() ==> #[trigger] self@[i].coin@ != #[trigger] self@[j].coin@
    }

    /// An empty tracker.
    pub fn new() -> (r: Self)
        ensures
            r@ == Seq::<Position>::empty(),
            r.wf(),
    {
        PortfolioManager { positions: Vec::new() }
    }

    /// Index of the position tracking this coin, if any.
    fn find_position_index(&self, coin: &String) -> (r: Option<usize>)
        ensures
            (r matches Some(i) ==> i < self@.len() && self@[i as int].coin@ == coin@),
            r is None ==> !has_coin(self@, coin@),
    {
        let n = self.positions.len();
        let mut k: usize = 0;
        while k < n
            invariant
                k <= n,
                n == self@.len(),
                forall|j: int| 0 <= j < k ==> self@[j].coin@ != coin@,
            decreases n - k,
        {
            if self.positions[k].coin == *coin {
                return Some(k);
            }
            k += 1;
        }
        None
    }

    /// Processes one fill: finds or creates the position of the fill's
    /// coin and applies the update rule.  A fill whose update would not
    /// fit the representable range is rejected and nothing changes.
    pub fn update_position(&mut self, fill: &CustomUserFills) -> (r: Result<(), TrackerError>)
        requires
            old(self).wf(),
        ensures
            final(self).wf(),
            forall|i: int|
                0 <= i < old(self)@.len() && #[trigger] old(self)@[i].coin@ == fill.coin@ ==> (
                if fill_fits(old(self)@[i], *fill) {
                    r == Ok::<(), TrackerError>(()) && final(self)@ == old(self)@.update(
                        i,
                        pos_after_fill(old(self)@[i], *fill),
                    )
                } else {
                    r == Err::<(), TrackerError>(TrackerError::Overflow) && final(self)@ == old(
                        self,
                    )@
                }),
            !has_coin(old(self)@, fill.coin@) ==> (if fill_fits(fresh_position(fill.coin), *fill) {
                r == Ok::<(), TrackerError>(()) && final(self)@ == old(self)@.push(
                    pos_after_fill(fresh_position(fill.coin), *fill),
                )
            } else {
                r == Err::<(), TrackerError>(TrackerError::Overflow) && final(self)@ == old(self)@
            }),
            has_coin(final(self)@, fill.coin@) || r is Err,
    {
        match self.find_position_index(&fill.coin) {
            Some(i) => {
                match apply_fill_to(&self.positions[i], fill) {
                    Some(updated) => {
                        self.positions[i] = updated;
                        proof {
                            assert forall|j: int|
                                0 <= j < old(self)@.len() && #[trigger] old(
                                    self,
                                )@[j].coin@ == fill.coin@ implies j == i by {
                                if j != i as int {
                                    assert(old(self)@[i as int].coin@ != old(self)@[j].coin@);
                                }
                            }
                            assert(self@[i as int].coin@ == fill.coin@);
                            assert(has_coin(self@, fill.coin@));
                        }
                        Ok(())
                    },
                    None => Err(TrackerError::Overflow),
                }
            },
            None => {
                let fresh = Position {
                    coin: fill.coin.clone(),
                    amount: 0,
                    average_price: 0,
                    pnl: Pnl { realized: 0, unrealized: 0, fee_in_token: 0, fee_in_usdc: 0 },
                };
                proof {
                    assert(fresh == fresh_position(fill.coin));
                }
                match apply_fill_to(&fresh, fill) {
                    Some(updated) => {
                        self.positions.push(updated);
                        proof {
                            assert(self@[self@.len() - 1].coin@ == fill.coin@);
                            assert(has_coin(self@, fill.coin@));
                        }
                        Ok(())
                    },
                    None => Err(TrackerError::Overflow),
                }
            },
        }
    }

    /// A copy of every tracked position, in creation order.
    pub fn get_positions(&self) -> (r: Vec<Position>)
        ensures
            r@ == self@,
    {
        clone_positions(&self.positions)
    }

    /// A copy of the position tracking this coin, if any.
    pub fn get_position(&self, coin: &String) -> (r: Option<Position>)
        requires
            self.wf(),
        ensures
            (r matches Some(p) ==> has_coin(self@, coin@) && (forall|i: int|
                0 <= i < self@.len() && #[trigger] self@[i].coin@ == coin@ ==> p == self@[i])),
            r is None <==> !has_coin(self@, coin@),
    {
        match self.find_position_index(coin) {
            Some(i) => {
                proof {
                    assert forall|j: int|
                        0 <= j < self@.len() && #[trigger] self@[j].coin@ == coin@ implies j
                        == i as int by {
                        if j != i as int {
                            assert(self@[vstd::math::min(i as int, j)].coin@ != self@[vstd::math::max(
                                i as int,
                                j,
                            )].coin@);
                        }
                    }
                }
                Some(self.positions[i].clone())
            },
            None => None,
        }
    }

    /// Unrealized PnL of this coin at the given mark price: exactly
    /// zero when the coin is untracked or its position is flat.
    pub fn get_unrealized_pnl(&self, coin: &String, current_price: u64) -> (r: i128)
        requires
            self.wf(),
        ensures
            !has_coin(self@, coin@) ==> r == 0,
            forall|i: int|
                0 <= i < self@.len() && #[trigger] self@[i].coin@ == coin@ ==> r
                    == position_unrealized(self@[i], current_price as int),
            forall|i: int|
                0 <= i < self@.len() && #[trigger] self@[i].coin@ == coin@ && self@[i].amount == 0
                    ==> r == 0,
    {
        match self.get_position(coin) {
            Some(p) => {
                if p.amount != 0 {
                    let diff: i128 = current_price as i128 - p.average_price as i128;
                    proof {
                        let bound = (u64::MAX as int) * 0x8000_0000_0000_0000int;
                        assert(-bound <= (diff as int) * (p.amount as int) <= bound)
                            by (nonlinear_arith)
                            requires
                                -(u64::MAX as int) <= diff as int <= u64::MAX as int,
                                -0x8000_0000_0000_0000int <= (p.amount as int)
                                    < 0x8000_0000_0000_0000int,
                                bound == (u64::MAX as int) * 0x8000_0000_0000_0000int,
                        ;
                    }
                    diff * (p.amount as i128)
                } else {
                    0
                }
            },
            None => 0,
        }
    }
}

/// Realized PnL summed over positions left to right, `None` as soon as
/// a partial sum leaves `i128`.
pub open spec fn sum_realized_checked(s: Seq<Position>) -> Option<int>
    decreases s.len(),
{
    if s.len() == 0 {
        Some(0)
    } else {
        match sum_realized_checked(s.drop_last()) {
            Some(t) => {
                let t2 = t + s.last().pnl.realized;
                if i128::MIN <= t2 <= i128::MAX {
                    Some(t2)
                } else {
                    None
                }
            },
            None => None,
        }
    }
}

proof fn lemma_sum_checked_step(s: Seq<Position>, i: int)
    requires
        0 <= i < s.len(),
    ensures
        sum_realized_checked(s.take(i + 1)) == match sum_realized_checked(s.take(i)) {
            Some(t) => {
                let t2 = t + s[i].pnl.realized;
                if i128::MIN <= t2 <= i128::MAX {
                    Some(t2)
                } else {
                    None
                }
            },
            None => None::<int>,
        },
{
    assert(s.take(i + 1).drop_last() =~= s.take(i));
    assert(s.take(i + 1).last() == s[i]);
}

proof fn lemma_sum_checked_none(s: Seq<Position>, i: int)
    requires
        0 <= i <= s.len(),
        sum_realized_checked(s.take(i)) is None,
    ensures
        sum_realized_checked(s) is None,
    decreases s.len() - i,
{
    if i == s.len() {
        assert(s.take(i) =~= s);
    } else {
        lemma_sum_checked_step(s, i);
        lemma_sum_checked_none(s, i + 1);
    }
}

/// First mid price recorded for this coin, if any.
pub open spec fn lookup_mid(mids: Seq<Mid>, coin: Seq<char>) -> Option<u64>
    decreases mids.len(),
{
    if mids.len() == 0 {
        None::<u64>
    } else if mids[0].coin@ == coin {
        Some(mids[0].price)
    } else {
        lookup_mid(mids.drop_first(), coin)
    }
}

/// First mid price recorded for this coin, if any.
pub fn find_mid(mids: &Vec<Mid>, coin: &String) -> (r: Option<u64>)
    ensures
        r == lookup_mid(mids@, coin@),
{
    let n = mids.len();
    let mut k: usize = 0;
    proof {
        assert(mids@.skip(0) =~= mids@);
    }
    while k < n
        invariant
            k <= n,
            n == mids@.len(),
            lookup_mid(mids@, coin@) == lookup_mid(mids@.skip(k as int), coin@),
        decreases n - k,
    {
        proof {
            assert(mids@.skip(k as int)[0] == mids@[k as int]);
            assert(mids@.skip(k as int).drop_first() =~= mids@.skip(k as int + 1));
        }
        if mids[k].coin == *coin {
            return Some(mids[k].price);
        }
        k += 1;
    }
    proof {
        assert(mids@.skip(n as int) =~= Seq::<Mid>::empty());
    }
    None
}

/// The PnL report of one coin: stored realized PnL and fees, plus the
/// unrealized PnL at the supplied mark price.
#[derive(Debug)]
pub struct CoinPnl {
    pub coin: String,
    pub pnl: Pnl,
}

impl Clone for CoinPnl {
    fn clone(&self) -> (res: Self)
        ensures
            res == *self,
    {
        CoinPnl { coin: self.coin.clone(), pnl: self.pnl }
    }
}

/// The report entry of one position at a mark price.
pub open spec fn coin_pnl_of(p: Position, mark: int) -> CoinPnl {
    (CoinPnl {
        coin: p.coin,
        pnl: (Pnl {
            realized: p.pnl.realized,
            unrealized: position_unrealized(p, mark) as i128,
            fee_in_token: p.pnl.fee_in_token,
            fee_in_usdc: p.pnl.fee_in_usdc,
        }),
    })
}

/// Report entries for every position whose coin has a supplied mark
/// price, in position order; positions without a mark price are
/// skipped.
pub open spec fn unrealized_entries(s: Seq<Position>, mids: Seq<Mid>) -> Seq<CoinPnl>
    decreases s.len(),
{
    if s.len() == 0 {
        Seq::<CoinPnl>::empty()
    } else {
        let rest = unrealized_entries(s.drop_last(), mids);
        match lookup_mid(mids, s.last().coin@) {
            Some(m) => rest.push(coin_pnl_of(s.last(), m as int)),
            None => rest,
        }
    }
}

/// Unrealized PnL summed over the reported positions, `None` as soon
/// as a partial sum leaves `i128`.
pub open spec fn unrealized_total_checked(s: Seq<Position>, mids: Seq<Mid>) -> Option<int>
    decreases s.len(),
{
    if s.len() == 0 {
        Some(0)
    } else {
        match unrealized_total_checked(s.drop_last(), mids) {
            Some(t) => match lookup_mid(mids, s.last().coin@) {
                Some(m) => {
                    let t2 = t + position_unrealized(s.last(), m as int);
                    if i128::MIN <= t2 <= i128::MAX {
                        Some(t2)
                    } else {
                        None
                    }
                },
                None => Some(t),
            },
            None => None::<int>,
        }
    }
}

/// The unrealized PnL of a position always fits `i128`.
proof fn lemma_unrealized_bound(p: Position, mark: int)
    requires
        0 <= mark <= u64::MAX,
    ensures
        i128::MIN <= position_unrealized(p, mark) <= i128::MAX,
{
    if p.amount != 0 {
        let d = mark - p.average_price as int;
        let bound = (u64::MAX as int) * 0x8000_0000_0000_0000int;
        assert(-bound <= d * (p.amount as int) <= bound) by (nonlinear_arith)
            requires
                -(u64::MAX as int) <= d <= u64::MAX as int,
                -0x8000_0000_0000_0000int <= (p.amount as int) < 0x8000_0000_0000_0000int,
                bound == (u64::MAX as int) * 0x8000_0000_0000_0000int,
        ;
    }
}

proof fn lemma_unrealized_step(s: Seq<Position>, mids: Seq<Mid>, i: int)
    requires
        0 <= i < s.len(),
    ensures
        unrealized_entries(s.take(i + 1), mids) == match lookup_mid(mids, s[i].coin@) {
            Some(m) => unrealized_entries(s.take(i), mids).push(coin_pnl_of(s[i], m as int)),
            None => unrealized_entries(s.take(i), mids),
        },
        unrealized_total_checked(s.take(i + 1), mids) == match unrealized_total_checked(
            s.take(i),
            mids,
        ) {
            Some(t) => match lookup_mid(mids, s[i].coin@) {
                Some(m) => {
                    let t2 = t + position_unrealized(s[i], m as int);
                    if i128::MIN <= t2 <= i128::MAX {
                        Some(t2)
                    } else {
                        None
                    }
                },
                None => Some(t),
            },
            None => None::<int>,
        },
{
    assert(s.take(i + 1).drop_last() =~= s.take(i));
    assert(s.take(i + 1).last() == s[i]);
}

proof fn lemma_unrealized_none(s: Seq<Position>, mids: Seq<Mid>, i: int)
    requires
        0 <= i <= s.len(),
        unrealized_total_checked(s.take(i), mids) is None,
    ensures
        unrealized_total_checked(s, mids) is None,
    decreases s.len() - i,
{
    if i == s.len() {
        assert(s.take(i) =~= s);
    } else {
        lemma_unrealized_step(s, mids, i);
        lemma_unrealized_none(s, mids, i + 1);
    }
}

/// Unrealized PnL of one position at a mark price.
fn position_unrealized_exec(p: &Position, mark: u64) -> (r: i128)
    ensures
        r == position_unrealized(*p, mark as int),
{
    if p.amount != 0 {
        let diff: i128 = mark as i128 - p.average_price as i128;
        proof {
            lemma_unrealized_bound(*p, mark as int);
            let bound = (u64::MAX as int) * 0x8000_0000_0000_0000int;
            assert(-bound <= (diff as int) * (p.amount as int) <= bound) by (nonlinear_arith)
                requires
                    -(u64::MAX as int) <= diff as int <= u64::MAX as int,
                    -0x8000_0000_0000_0000int <= (p.amount as int) < 0x8000_0000_0000_0000int,
                    bound == (u64::MAX as int) * 0x8000_0000_0000_0000int,
            ;
        }
        diff * (p.amount as i128)
    } else {
        0
    }
}

impl PortfolioManager {
    /// Realized PnL summed across all coins, or `None` if the sum
    /// leaves the representable range.
    pub fn get_total_realized_pnl(&self) -> (r: Option<i128>)
        ensures
            sum_realized_checked(self@) matches Some(t) ==> r == Some(t as i128),
            sum_realized_checked(self@) is None ==> r is None,
    {
        let n = self.positions.len();
        let mut acc: i128 = 0;
        let mut k: usize = 0;
        proof {
            assert(self@.take(0) =~= Seq::<Position>::empty());
        }
        while k < n
            invariant
                k <= n,
                n == self@.len(),
                sum_realized_checked(self@.take(k as int)) == Some(acc as int),
            decreases n - k,
        {
            proof {
                lemma_sum_checked_step(self@, k as int);
            }
            acc = match acc.checked_add(self.positions[k].pnl.realized) {
                Some(v) => v,
                None => {
                    proof {
                        lemma_sum_checked_none(self@, k as int + 1);
                    }
                    return None;
                },
            };
            k += 1;
        }
        proof {
            assert(self@.take(n as int) =~= self@);
        }
        Some(acc)
    }

    /// Per-coin PnL reports for every position whose coin appears in
    /// the supplied mark prices, together with the total unrealized
    /// PnL over those positions (`None` if that total leaves the
    /// representable range).
    pub fn get_total_and_individual_unrealized_pnl(&self, current_prices: &Vec<Mid>) -> (r: (
        Option<i128>,
        Vec<CoinPnl>,
    ))
        ensures
            r.1@ == unrealized_entries(self@, current_prices@),
            unrealized_total_checked(self@, current_prices@) matches Some(t) ==> r.0 == Some(
                t as i128,
            ),
            unrealized_total_checked(self@, current_prices@) is None ==> r.0 is None,
    {
        let n = self.positions.len();
        let mut entries: Vec<CoinPnl> = Vec::new();
        let mut acc: i128 = 0;
        let mut overflowed = false;
        let mut k: usize = 0;
        proof {
            assert(self@.take(0) =~= Seq::<Position>::empty());
        }
        while k < n
            invariant
                k <= n,
                n == self@.len(),
                entries@ == unrealized_entries(self@.take(k as int), current_prices@),
                !overflowed ==> unrealized_total_checked(self@.take(k as int), current_prices@)
                    == Some(acc as int),
                overflowed ==> unrealized_total_checked(self@.take(k as int), current_prices@)
                    is None,
            decreases n - k,
        {
            proof {
                lemma_unrealized_step(self@, current_prices@, k as int);
            }
            let p = &self.positions[k];
            match find_mid(current_prices, &p.coin) {
                Some(m) => {
                    let u = position_unrealized_exec(p, m);
                    if !overflowed {
                        match acc.checked_add(u) {
                            Some(v) => {
                                acc = v;
                            },
                            None => {
                                overflowed = true;
                            },
                        }
                    }
                    entries.push(
                        CoinPnl {
                            coin: p.coin.clone(),
                            pnl: Pnl {
                                realized: p.pnl.realized,
                                unrealized: u,
                                fee_in_token: p.pnl.fee_in_token,
                                fee_in_usdc: p.pnl.fee_in_usdc,
                            },
                        },
                    );
                },
                None => {},
            }
            k += 1;
        }
        proof {
            assert(self@.take(n as int) =~= self@);
        }
        if overflowed {
            (None, entries)
        } else {
            (Some(acc), entries)
        }
    }
}

impl Default for PortfolioManager {
    /// Same as `new`: a tracker with no positions.
    fn default() -> (r: Self)
        ensures
            r@ == Seq::<Position>::empty(),
            r.wf(),
    {
        PortfolioManager::new()
    }
}

/// One point of a cumulative-PnL series.
#[derive(Clone, Copy, PartialEq, Eq, Structural, Debug)]
pub struct PnlPoint {
    pub timestamp: u64,
    pub cumulative: i128,
}

/// Cumulative closed PnL of one coin over a fill history, in fill
/// order: each fill of the coin contributes one point carrying its
/// timestamp and the running sum of `closed_pnl`.  `None` as soon as
/// the running sum leaves `i128`.
pub open spec fn coin_cum_points(fills: Seq<CustomUserFills>, coin: Seq<char>) -> Option<
    Seq<PnlPoint>,
>
    decreases fills.len(),
{
    if fills.len() == 0 {
        Some(Seq::<PnlPoint>::empty())
    } else {
        match coin_cum_points(fills.drop_last(), coin) {
            Some(ps) => {
                if fills.last().coin@ == coin {
                    let prev: int = if ps.len() == 0 {
                        0
                    } else {
                        ps.last().cumulative as int
                    };
                    let c = prev + fills.last().closed_pnl;
                    if i128::MIN <= c <= i128::MAX {
                        Some(ps.push((PnlPoint { timestamp: fills.last().timestamp, cumulative: c as i128 })))
                    } else {
                        None
                    }
                } else {
                    Some(ps)
                }
            },
            None => None,
        }
    }
}

proof fn lemma_cum_step(fills: Seq<CustomUserFills>, coin: Seq<char>, i: int)
    requires
        0 <= i < fills.len(),
    ensures
        coin_cum_points(fills.take(i + 1), coin) == match coin_cum_points(fills.take(i), coin) {
            Some(ps) => {
                if fills[i].coin@ == coin {
                    let prev: int = if ps.len() == 0 {
                        0
                    } else {
                        ps.last().cumulative as int
                    };
                    let c = prev + fills[i].closed_pnl;
                    if i128::MIN <= c <= i128::MAX {
                        Some(ps.push((PnlPoint { timestamp: fills[i].timestamp, cumulative: c as i128 })))
                    } else {
                        None
                    }
                } else {
                    Some(ps)
                }
            },
            None => None::<Seq<PnlPoint>>,
        },
{
    assert(fills.take(i + 1).drop_last() =~= fills.take(i));
    assert(fills.take(i + 1).last() == fills[i]);
}

proof fn lemma_cum_none(fills: Seq<CustomUserFills>, coin: Seq<char>, i: int)
    requires
        0 <= i <= fills.len(),
        coin_cum_points(fills.take(i), coin) is None,
    ensures
        coin_cum_points(fills, coin) is None,
    decreases fills.len() - i,
{
    if i == fills.len() {
        assert(fills.take(i) =~= fills);
    } else {
        lemma_cum_step(fills, coin, i);
        lemma_cum_none(fills, coin, i + 1);
    }
}

/// The cumulative-PnL series of one coin over a fill history, or
/// `None` if the running sum leaves the representable range.
pub fn cumulative_pnl_points(fills: &Vec<CustomUserFills>, coin: &String) -> (r: Option<
    Vec<PnlPoint>,
>)
    ensures
        (r matches Some(ps) ==> coin_cum_points(fills@, coin@) == Some(ps@)),
        r is None <==> coin_cum_points(fills@, coin@) is None,
{
    let n = fills.len();
    let mut points: Vec<PnlPoint> = Vec::new();
    let mut acc: i128 = 0;
    let mut k: usize = 0;
    proof {
        assert(fills@.take(0) =~= Seq::<CustomUserFills>::empty());
    }
    while k < n
        invariant
            k <= n,
            n == fills@.len(),
            coin_cum_points(fills@.take(k as int), coin@) == Some(points@),
            acc as int == if points@.len() == 0 {
                0
            } else {
                points@.last().cumulative as int
            },
        decreases n - k,
    {
        proof {
            lemma_cum_step(fills@, coin@, k as int);
        }
        if fills[k].coin == *coin {
            acc = match acc.checked_add(fills[k].closed_pnl as i128) {
                Some(v) => v,
                None => {
                    proof {
                        lemma_cum_none(fills@, coin@, k as int + 1);
                    }
                    return None;
                },
            };
            points.push(PnlPoint { timestamp: fills[k].timestamp, cumulative: acc });
        }
        k += 1;
    }
    proof {
        assert(fills@.take(n as int) =~= fills@);
    }
    Some(points)
}

/// The position after a whole sequence of fills, applied in order.
pub open spec fn pos_after_fills(p: Position, fs: Seq<CustomUserFills>) -> Position
    decreases fs.len(),
{
    if fs.len() == 0 {
        p
    } else {
        pos_after_fill(pos_after_fills(p, fs.drop_last()), fs.last())
    }
}

/// Every step of the fill sequence stays in the representable range.
pub open spec fn fills_all_fit(p: Position, fs: Seq<CustomUserFills>) -> bool {
    forall|i: int|
        0 <= i < fs.len() ==> fill_fits(pos_after_fills(p, #[trigger] fs.take(i)), fs[i])
}

/// Total size over a fill sequence.
pub open spec fn sum_sizes(fs: Seq<CustomUserFills>) -> int
    decreases fs.len(),
{
    if fs.len() == 0 {
        0
    } else {
        sum_sizes(fs.drop_last()) + fs.last().size
    }
}

/// Size-weighted price total over a fill sequence.
pub open spec fn weighted_sum(fs: Seq<CustomUserFills>) -> int
    decreases fs.len(),
{
    if fs.len() == 0 {
        0
    } else {
        weighted_sum(fs.drop_last()) + (fs.last().size as int) * (fs.last().price as int)
    }
}

proof fn lemma_sum_sizes_at_least_len(fs: Seq<CustomUserFills>)
    requires
        forall|i: int| 0 <= i < fs.len() ==> 1 <= #[trigger] fs[i].size,
    ensures
        sum_sizes(fs) >= fs.len(),
    decreases fs.len(),
{
    if fs.len() > 0 {
        lemma_sum_sizes_at_least_len(fs.drop_last());
    }
}

/// LAW: a sequence of same-side, fee-free fills applied to a fresh
/// position leaves the amount equal to the signed total of the fill
/// sizes and the average price equal to the size-weighted mean of the
/// fill prices (one truncating division), provided every intermediate
/// blend divides exactly.  On fills where an intermediate blend leaves
/// a remainder, the stored average can fall below the exact mean by
/// the truncated fraction, so the exactness premise is required.
pub proof fn lemma_same_side_average(coin: String, side: Side, fs: Seq<CustomUserFills>)
    requires
        fs.len() >= 1,
        forall|i: int| 0 <= i < fs.len() ==> #[trigger] fs[i].side == side,
        forall|i: int| 0 <= i < fs.len() ==> 1 <= #[trigger] fs[i].size,
        forall|i: int| 0 <= i < fs.len() ==> #[trigger] fs[i].fee == 0,
        fills_all_fit(fresh_position(coin), fs),
        forall|j: int|
            1 <= j < fs.len() ==> #[trigger] weighted_sum(fs.take(j)) % sum_sizes(fs.take(j))
                == 0,
    ensures
        pos_after_fills(fresh_position(coin), fs).amount as int == (if side == Side::Buy {
            sum_sizes(fs)
        } else {
            -sum_sizes(fs)
        }),
        pos_after_fills(fresh_position(coin), fs).average_price as int == weighted_sum(fs)
            / sum_sizes(fs),
        pos_after_fills(fresh_position(coin), fs).pnl.realized == fresh_position(
            coin,
        ).pnl.realized,
    decreases fs.len(),
{
    let p0 = fresh_position(coin);
    let dir: int = if side == Side::Buy {
        1
    } else {
        -1
    };
    lemma_sum_sizes_at_least_len(fs);
    if fs.len() == 1 {
        let f = fs.last();
        assert(fs.take(0) =~= Seq::<CustomUserFills>::empty());
        assert(pos_after_fills(p0, fs.take(0)) == p0);
        assert(fill_fits(p0, f));
        assert(fs.drop_last() =~= Seq::<CustomUserFills>::empty());
        assert(pos_after_fills(p0, fs.drop_last()) == p0);
        assert(pos_after_fills(p0, fs) == pos_after_fill(p0, f));
        let s = f.size as int;
        let pr = f.price as int;
        assert(sum_sizes(Seq::<CustomUserFills>::empty()) == 0);
        assert(weighted_sum(Seq::<CustomUserFills>::empty()) == 0);
        assert(sum_sizes(fs) == s);
        assert(weighted_sum(fs) == s * pr);
        assert(pos_amount_after(p0, f) == dir * s) by {
            assert(fill_signed_qty(f) == dir * s);
        }
        assert((s * pr) / s == pr) by {
            vstd::arithmetic::div_mod::lemma_div_multiples_vanish(pr, s);
            assert(s * pr == pr * s) by (nonlinear_arith);
        }
        assert(pos_avg_after(p0, f) == pr);
        lemma_avg_in_range(p0, f);
    } else {
        let fs0 = fs.drop_last();
        let f = fs.last();
        let n = fs0.len() as int;
        assert forall|j: int| 0 <= j <= n implies fs.take(j) =~= fs0.take(j) by {}
        assert forall|i: int| 0 <= i < n implies fill_fits(
            pos_after_fills(p0, #[trigger] fs0.take(i)),
            fs0[i],
        ) by {
            assert(fs.take(i) =~= fs0.take(i));
            assert(fs0[i] == fs[i]);
        }
        lemma_same_side_average(coin, side, fs0);
        let q0 = pos_after_fills(p0, fs0);
        let s0 = sum_sizes(fs0);
        let w0 = weighted_sum(fs0);
        lemma_sum_sizes_at_least_len(fs0);
        assert(s0 >= 1);
        assert(q0.amount as int == dir * s0);
        assert(q0.amount != 0);
        assert(q0.average_price as int == w0 / s0);
        // exactness of the intermediate blend: s0 divides w0
        assert(fs.take(n) =~= fs0);
        assert(weighted_sum(fs0) % sum_sizes(fs0) == 0);
        vstd::arithmetic::div_mod::lemma_fundamental_div_mod(w0, s0);
        assert(s0 * (w0 / s0) == w0);
        // the final fill is same-side
        let s = f.size as int;
        let pr = f.price as int;
        assert(fill_signed_qty(f) == dir * s);
        assert(pos_is_same_side(q0, f)) by {
            if side == Side::Buy {
                assert(q0.amount > 0) by {
                    assert(dir * s0 > 0);
                }
            } else {
                assert(dir * s0 == -s0);
                assert(q0.amount < 0);
            }
            if side == Side::Buy {
                assert(dir * s > 0);
            } else {
                assert(dir * s < 0);
            }
        }
        assert(vstd::math::abs(q0.amount as int) == s0) by {
            assert(q0.amount as int == dir * s0);
            if dir == 1 {
                assert(dir * s0 == s0) by (nonlinear_arith)
                    requires
                        dir == 1,
                ;
            } else {
                assert(dir * s0 == -s0) by (nonlinear_arith)
                    requires
                        dir == -1,
                ;
            }
        }
        assert(pos_after_fills(p0, fs) == pos_after_fill(q0, f));
        assert(fill_fits(q0, f)) by {
            assert(fs.take(n) =~= fs0);
            assert(fill_fits(pos_after_fills(p0, fs.take(n)), fs[n]));
        }
        // amount: dir * s0 + dir * s == dir * (s0 + s)
        assert(pos_amount_core(q0, f) == dir * (s0 + s)) by {
            assert(dir * s0 + dir * s == dir * (s0 + s)) by (nonlinear_arith);
        }
        assert(pos_amount_after(q0, f) == dir * (s0 + s));
        assert(sum_sizes(fs) == s0 + s);
        // average: (s0 * (w0 / s0) + s * pr) / (s0 + s) == (w0 + s * pr) / (s0 + s)
        assert(pos_avg_after(q0, f) == (s0 * (w0 / s0) + s * pr) / (s0 + s));
        assert(weighted_sum(fs) == w0 + s * pr);
        lemma_avg_in_range(q0, f);
        assert((pos_after_fill(q0, f).average_price) as int == weighted_sum(fs) / sum_sizes(fs));
        assert((pos_after_fill(q0, f).amount) as int == (if side == Side::Buy {
            sum_sizes(fs)
        } else {
            -sum_sizes(fs)
        })) by {
            if side == Side::Buy {
                assert(dir * (s0 + s) == s0 + s) by (nonlinear_arith)
                    requires
                        dir == 1,
                ;
            } else {
                assert(dir * (s0 + s) == -(s0 + s)) by (nonlinear_arith)
                    requires
                        dir == -1,
                ;
            }
        }
    }
}

/// Realized increments of a closing sequence: each fill contributes
/// `(price - entry average) * sign * size`.
pub open spec fn closing_sum(fs: Seq<CustomUserFills>, avg: int, dir: int) -> int
    decreases fs.len(),
{
    if fs.len() == 0 {
        0
    } else {
        closing_sum(fs.drop_last(), avg, dir) + ((fs.last().price as int) - avg) * dir * (
        fs.last().size as int)
    }
}

/// LAW: a sequence of fee-free opposite-side fills whose total size
/// does not exceed the open amount closes the position step by step:
/// realized PnL grows by `(fill price - entry average) * sign(amount)`
/// per closed unit, the amount shrinks by the signed total size, the
/// entry average is unchanged while any amount remains and resets to
/// zero on a full close, and the fee accumulators are untouched.
pub proof fn lemma_close_out_realized(p: Position, fs: Seq<CustomUserFills>)
    requires
        p.amount != 0,
        forall|i: int|
            0 <= i < fs.len() ==> #[trigger] fs[i].side == (if p.amount > 0 {
                Side::Sell
            } else {
                Side::Buy
            }),
        forall|i: int| 0 <= i < fs.len() ==> 1 <= #[trigger] fs[i].size,
        forall|i: int| 0 <= i < fs.len() ==> #[trigger] fs[i].fee == 0,
        sum_sizes(fs) <= vstd::math::abs(p.amount as int),
        fills_all_fit(p, fs),
    ensures
        ({
            let q = pos_after_fills(p, fs);
            let dir: int = if p.amount > 0 {
                1
            } else {
                -1
            };
            &&& q.pnl.realized as int == p.pnl.realized + closing_sum(
                fs,
                p.average_price as int,
                dir,
            )
            &&& q.amount as int == p.amount - dir * sum_sizes(fs)
            &&& q.average_price as int == (if p.amount == dir * sum_sizes(fs) {
                0
            } else {
                p.average_price as int
            })
            &&& q.pnl.fee_in_token == p.pnl.fee_in_token
            &&& q.pnl.fee_in_usdc == p.pnl.fee_in_usdc
        }),
    decreases fs.len(),
{
    let dir: int = if p.amount > 0 {
        1
    } else {
        -1
    };
    if fs.len() == 0 {
        assert(pos_after_fills(p, fs) == p);
    } else {
        let fs0 = fs.drop_last();
        let f = fs.last();
        let n = fs0.len() as int;
        assert forall|i: int| 0 <= i < n implies fill_fits(
            pos_after_fills(p, #[trigger] fs0.take(i)),
            fs0[i],
        ) by {
            assert(fs.take(i) =~= fs0.take(i));
            assert(fs0[i] == fs[i]);
        }
        let s = f.size as int;
        let s0 = sum_sizes(fs0);
        assert(sum_sizes(fs) == s0 + s);
        lemma_sum_sizes_at_least_len(fs0);
        assert(s0 >= 0);
        assert(s >= 1);
        lemma_close_out_realized(p, fs0);
        let q0 = pos_after_fills(p, fs0);
        // s0 < |amount|, so some position remains before the last fill
        assert(s0 + s <= vstd::math::abs(p.amount as int));
        assert(s0 < vstd::math::abs(p.amount as int));
        assert(q0.amount as int == p.amount - dir * s0);
        assert(q0.amount != 0 && pos_sign(q0) == dir) by {
            if p.amount > 0 {
                assert(p.amount - 1 * s0 > 0);
            } else {
                assert(vstd::math::abs(p.amount as int) == -(p.amount as int));
                assert(p.amount - (-1) * s0 < 0);
            }
        }
        assert(q0.average_price as int == p.average_price as int) by {
            if p.amount == dir * s0 {
                assert(vstd::math::abs(p.amount as int) == s0) by {
                    if dir == 1 {
                    } else {
                        assert(dir * s0 == -s0);
                    }
                }
            }
        }
        assert(pos_after_fills(p, fs) == pos_after_fill(q0, f));
        assert(fill_fits(q0, f)) by {
            assert(fs.take(n) =~= fs0);
            assert(fill_fits(pos_after_fills(p, fs.take(n)), fs[n]));
        }
        // the last fill is opposite-side
        assert(fill_signed_qty(f) == -dir * s) by {
            if p.amount > 0 {
            } else {
            }
        }
        assert(!pos_is_same_side(q0, f)) by {
            if dir == 1 {
                assert(fill_signed_qty(f) == -s < 0);
            } else {
                assert(fill_signed_qty(f) == s > 0);
            }
        }
        // it closes exactly its size
        assert(vstd::math::abs(q0.amount as int) == vstd::math::abs(p.amount as int) - s0) by {
            if dir == 1 {
            } else {
                assert(q0.amount as int == p.amount + s0);
            }
        }
        assert(pos_closed_qty(q0, f) == s);
        assert(pos_realized_core(q0, f) == q0.pnl.realized + ((f.price as int) - (
        p.average_price as int)) * dir * s);
        assert(closing_sum(fs, p.average_price as int, dir) == closing_sum(
            fs0,
            p.average_price as int,
            dir,
        ) + ((f.price as int) - (p.average_price as int)) * dir * s);
        // the amount after the last fill
        assert(pos_amount_core(q0, f) == p.amount - dir * (s0 + s)) by {
            assert((p.amount - dir * s0) + (-dir) * s == p.amount - dir * (s0 + s))
                by (nonlinear_arith);
        }
        // no flip: the remaining amount keeps the sign it opened with
        assert(pos_avg_after(q0, f) == (if p.amount == dir * sum_sizes(fs) {
            0
        } else {
            p.average_price as int
        })) by {
            let a2 = pos_amount_core(q0, f);
            if a2 == 0 {
                assert(p.amount == dir * (s0 + s)) by {
                    assert(p.amount - dir * (s0 + s) == 0);
                }
            } else {
                assert(vstd::math::abs(p.amount as int) >= s0 + s);
                if dir == 1 {
                    assert(a2 == p.amount - (s0 + s) >= 0);
                    assert(!(q0.amount > 0 && a2 < 0) && !(q0.amount < 0 && a2 > 0));
                } else {
                    assert(vstd::math::abs(p.amount as int) == -(p.amount as int));
                    assert(a2 == p.amount + s0 + s <= 0);
                    assert(!(q0.amount > 0 && a2 < 0) && !(q0.amount < 0 && a2 > 0));
                }
                assert(p.amount != dir * (s0 + s)) by {
                    assert(p.amount - dir * (s0 + s) == a2);
                }
            }
        }
    }
}

/// Index of the first position tracking this coin, or -1.
pub open spec fn first_coin_index(s: Seq<Position>, coin: Seq<char>) -> int
    decreases s.len(),
{
    if s.len() == 0 {
        -1
    } else if s[0].coin@ == coin {
        0
    } else {
        let r = first_coin_index(s.drop_first(), coin);
        if r == -1 {
            -1
        } else {
            r + 1
        }
    }
}

/// `first_coin_index` finds the first match exactly when one exists.
pub proof fn lemma_first_coin_index(s: Seq<Position>, coin: Seq<char>)
    ensures
        first_coin_index(s, coin) == -1 <==> !has_coin(s, coin),
        first_coin_index(s, coin) != -1 ==> 0 <= first_coin_index(s, coin) < s.len()
            && s[first_coin_index(s, coin)].coin@ == coin && (forall|j: int|
            0 <= j < first_coin_index(s, coin) ==> s[j].coin@ != coin),
    decreases s.len(),
{
    if s.len() > 0 && s[0].coin@ != coin {
        lemma_first_coin_index(s.drop_first(), coin);
        let r = first_coin_index(s.drop_first(), coin);
        if r == -1 {
            assert forall|i: int| 0 <= i < s.len() implies s[i].coin@ != coin by {
                if i > 0 {
                    assert(s.drop_first()[i - 1] == s[i]);
                    assert(!has_coin(s.drop_first(), coin));
                }
            }
        } else {
            assert(s.drop_first()[r] == s[r + 1]);
            assert forall|j: int| 0 <= j < r + 1 implies s[j].coin@ != coin by {
                if j > 0 {
                    assert(s.drop_first()[j - 1] == s[j]);
                }
            }
        }
    } else if s.len() > 0 {
        assert(has_coin(s, coin));
    }
}

/// The tracked positions after one fill: the fill's position updated
/// in place, a fresh position appended on a first fill of its coin,
/// or everything unchanged when the update does not fit.
pub open spec fn pm_after_fill(s: Seq<Position>, f: CustomUserFills) -> Seq<Position> {
    let i = first_coin_index(s, f.coin@);
    if i == -1 {
        if fill_fits(fresh_position(f.coin), f) {
            s.push(pos_after_fill(fresh_position(f.coin), f))
        } else {
            s
        }
    } else {
        if fill_fits(s[i], f) {
            s.update(i, pos_after_fill(s[i], f))
        } else {
            s
        }
    }
}

/// This fill's update fits the representable range in this state.
pub open spec fn fill_applies(s: Seq<Position>, f: CustomUserFills) -> bool {
    let i = first_coin_index(s, f.coin@);
    if i == -1 {
        fill_fits(fresh_position(f.coin), f)
    } else {
        fill_fits(s[i], f)
    }
}

/// The tracked positions after a whole batch of fills, in order;
/// fills whose update does not fit are skipped.
pub open spec fn pm_after_fill_batch(s: Seq<Position>, fs: Seq<CustomUserFills>) -> Seq<Position>
    decreases fs.len(),
{
    if fs.len() == 0 {
        s
    } else {
        pm_after_fill(pm_after_fill_batch(s, fs.drop_last()), fs.last())
    }
}

/// How many fills of the batch are skipped for not fitting.
pub open spec fn count_dropped(s: Seq<Position>, fs: Seq<CustomUserFills>) -> int
    decreases fs.len(),
{
    if fs.len() == 0 {
        0
    } else {
        count_dropped(s, fs.drop_last()) + (if fill_applies(
            pm_after_fill_batch(s, fs.drop_last()),
            fs.last(),
        ) {
            0int
        } else {
            1int
        })
    }
}

/// Unfolds one step of the batch fold over a prefix.
pub proof fn lemma_batch_step(s: Seq<Position>, fs: Seq<CustomUserFills>, i: int)
    requires
        0 <= i < fs.len(),
    ensures
        pm_after_fill_batch(s, fs.take(i + 1)) == pm_after_fill(
            pm_after_fill_batch(s, fs.take(i)),
            fs[i],
        ),
        count_dropped(s, fs.take(i + 1)) == count_dropped(s, fs.take(i)) + (if fill_applies(
            pm_after_fill_batch(s, fs.take(i)),
            fs[i],
        ) {
            0int
        } else {
            1int
        }),
{
    assert(fs.take(i + 1).drop_last() =~= fs.take(i));
    assert(fs.take(i + 1).last() == fs[i]);
}

impl PortfolioManager {
    /// `update_position`, restated against the batch model: the new
    /// state is `pm_after_fill` of the old, and the call succeeds
    /// exactly when the fill applies.
    pub fn apply_fill(&mut self, fill: &CustomUserFills) -> (r: Result<(), TrackerError>)
        requires
            old(self).wf(),
        ensures
            final(self).wf(),
            final(self)@ == pm_after_fill(old(self)@, *fill),
            r is Ok <==> fill_applies(old(self)@, *fill),
    {
        proof {
            lemma_first_coin_index(old(self)@, fill.coin@);
        }
        let r = self.update_position(fill);
        proof {
            let s = old(self)@;
            let i = first_coin_index(s, fill.coin@);
            if i != -1 {
                assert(s[i].coin@ == fill.coin@);
            }
        }
        r
    }
}

/// This coin already appears in the list.
pub open spec fn coins_contain(cs: Seq<String>, coin: Seq<char>) -> bool {
    exists|i: int| 0 <= i < cs.len() && cs[i]@ == coin
}

/// The coins of a fill history in order of first appearance, each once.
pub open spec fn distinct_coins_spec(fills: Seq<CustomUserFills>) -> Seq<String>
    decreases fills.len(),
{
    if fills.len() == 0 {
        Seq::<String>::empty()
    } else {
        let rest = distinct_coins_spec(fills.drop_last());
        if coins_contain(rest, fills.last().coin@) {
            rest
        } else {
            rest.push(fills.last().coin)
        }
    }
}

proof fn lemma_distinct_step(fills: Seq<CustomUserFills>, i: int)
    requires
        0 <= i < fills.len(),
    ensures
        distinct_coins_spec(fills.take(i + 1)) == if coins_contain(
            distinct_coins_spec(fills.take(i)),
            fills[i].coin@,
        ) {
            distinct_coins_spec(fills.take(i))
        } else {
            distinct_coins_spec(fills.take(i)).push(fills[i].coin)
        },
{
    assert(fills.take(i + 1).drop_last() =~= fills.take(i));
    assert(fills.take(i + 1).last() == fills[i]);
}

/// This coin already appears in the list.
fn contains_coin(cs: &Vec<String>, coin: &String) -> (r: bool)
    ensures
        r == coins_contain(cs@, coin@),
{
    let n = cs.len();
    let mut k: usize = 0;
    while k < n
        invariant
            k <= n,
            n == cs@.len(),
            forall|j: int| 0 <= j < k ==> cs@[j]@ != coin@,
        decreases n - k,
    {
        if cs[k] == *coin {
            return true;
        }
        k += 1;
    }
    false
}

/// The coins of a fill history in order of first appearance, each once.
pub fn distinct_coins(fills: &Vec<CustomUserFills>) -> (r: Vec<String>)
    ensures
        r@ == distinct_coins_spec(fills@),
{
    let n = fills.len();
    let mut coins: Vec<String> = Vec::new();
    let mut k: usize = 0;
    proof {
        assert(fills@.take(0) =~= Seq::<CustomUserFills>::empty());
    }
    while k < n
        invariant
            k <= n,
            n == fills@.len(),
            coins@ == distinct_coins_spec(fills@.take(k as int)),
        decreases n - k,
    {
        proof {
            lemma_distinct_step(fills@, k as int);
        }
        if !contains_coin(&coins, &fills[k].coin) {
            coins.push(fills[k].coin.clone());
        }
        k += 1;
    }
    proof {
        assert(fills@.take(n as int) =~= fills@);
    }
    coins
}

} // verus!
