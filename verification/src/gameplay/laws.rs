//! What holds of hit dice and health bars whatever their state: proved from
//! `Die::step` and `resolve`, the functions that `execute` is specified by.

use vstd::prelude::*;
use super::health::{
    bar_wf, chip, heal, leftmost_with, resolve, rightmost_without, Die, HealthAction,
    HealthActionResponse, HitDieActionResponse, HitDieStatus,
};
use super::{Amount, Index};

verus! {

/// The hit points in the dice from `lo` up to, not including, `hi`.
pub open spec fn span(dice: Seq<Die>, lo: int, hi: int) -> int
    decreases hi - lo,
{
    if lo >= hi {
        0
    } else {
        span(dice, lo, hi - 1) + dice[hi - 1].pool.current
    }
}

/// The hit points in the whole bar.
pub open spec fn hit_points(dice: Seq<Die>) -> int {
    span(dice, 0, dice.len() as int)
}

/// The hit points that the dice from `lo` up to, not including, `hi` can
/// still take.
pub open spec fn room(dice: Seq<Die>, lo: int, hi: int) -> int
    decreases hi - lo,
{
    if lo >= hi {
        0
    } else {
        dice[lo].pool.room() + room(dice, lo + 1, hi)
    }
}

/// The smaller of two numbers.
pub open spec fn least(a: int, b: int) -> int {
    if a <= b {
        a
    } else {
        b
    }
}

/// The die has neither armor nor the `Temporary` status, so that falling to
/// zero only makes it `Empty`.
pub open spec fn plain(die: Die) -> bool {
    die.statuses.fortified is None && !die.statuses.temporary
}

/// The die has nothing to do about its own level: it is above zero, or the
/// die is a plain one that is `Empty` already.
pub open spec fn at_rest(die: Die) -> bool {
    die.pool.current != 0 || (plain(die) && die.statuses.empty)
}

/// A chip of `damage` that starts at the die at `at` comes to the die at
/// `j` and leaves it at zero: the dice in between absorb less than the
/// damage, and with this die no more than it.
pub open spec fn emptied(dice: Seq<Die>, j: int, at: int, damage: int) -> bool {
    span(dice, j + 1, at + 1) < damage && span(dice, j, at + 1) <= damage
}

/// Every die that a chip of `damage` from the die at `at` leaves at zero is
/// a plain one.
pub open spec fn chips_plainly(dice: Seq<Die>, at: int, damage: int) -> bool {
    forall|j: int| 0 <= j <= at && emptied(dice, j, at, damage) ==> plain(#[trigger] dice[j])
}

/// What is left of a chip of `damage`, started at the die at `at`, when it
/// comes to the die at `j`: the damage less the hit points of the dice in
/// between, and nothing once those have absorbed it all.
pub open spec fn reaching(dice: Seq<Die>, j: int, at: int, damage: int) -> int {
    if damage > span(dice, j + 1, at + 1) {
        damage - span(dice, j + 1, at + 1)
    } else {
        0
    }
}

/// What is left of `amount` of healing, started at the die at `at`, when it
/// comes to the die at `j`: the amount less the room of the dice in
/// between, and nothing once those have taken it all.
pub open spec fn flowing(dice: Seq<Die>, j: int, at: int, amount: int) -> int {
    if amount > room(dice, at, j) {
        amount - room(dice, at, j)
    } else {
        0
    }
}

/// Hit points are never negative in a well-formed bar.
pub proof fn lemma_span_nonnegative(dice: Seq<Die>, lo: int, hi: int)
    requires
        bar_wf(dice),
        0 <= lo,
        hi <= dice.len(),
    ensures
        span(dice, lo, hi) >= 0,
    decreases hi - lo,
{
    if lo < hi {
        lemma_span_nonnegative(dice, lo, hi - 1);
        assert(dice[hi - 1].wf());
    }
}

/// Room is never negative in a well-formed bar.
pub proof fn lemma_room_nonnegative(dice: Seq<Die>, lo: int, hi: int)
    requires
        bar_wf(dice),
        0 <= lo,
        hi <= dice.len(),
    ensures
        room(dice, lo, hi) >= 0,
    decreases hi - lo,
{
    if lo < hi {
        lemma_room_nonnegative(dice, lo + 1, hi);
        assert(dice[lo].wf());
    }
}

/// Replacing one die moves the hit points of a range by the difference
/// between the two dice, if the die lies in the range, and not at all
/// otherwise.
pub proof fn lemma_span_update(dice: Seq<Die>, at: int, die: Die, lo: int, hi: int)
    requires
        0 <= at < dice.len(),
        0 <= lo,
        hi <= dice.len(),
    ensures
        span(dice.update(at, die), lo, hi) == span(dice, lo, hi) + if lo <= at < hi {
            die.pool.current - dice[at].pool.current
        } else {
            0
        },
    decreases hi - lo,
{
    if lo < hi {
        lemma_span_update(dice, at, die, lo, hi - 1);
    }
}

/// Replacing a die outside a range leaves the room of the range as it was.
pub proof fn lemma_room_update_outside(dice: Seq<Die>, at: int, die: Die, lo: int, hi: int)
    requires
        0 <= at < dice.len(),
        0 <= lo,
        hi <= dice.len(),
        !(lo <= at < hi),
    ensures
        room(dice.update(at, die), lo, hi) == room(dice, lo, hi),
    decreases hi - lo,
{
    if lo < hi {
        lemma_room_update_outside(dice, at, die, lo + 1, hi);
    }
}

/// Taking one die out of the bar takes its hit points out of every range
/// from the left end that reached past it.
pub proof fn lemma_span_remove(dice: Seq<Die>, at: int, hi: int)
    requires
        0 <= at < dice.len(),
        0 <= hi < dice.len(),
    ensures
        span(dice.remove(at), 0, hi) == if hi <= at {
            span(dice, 0, hi)
        } else {
            span(dice, 0, hi + 1) - dice[at].pool.current
        },
    decreases hi,
{
    if hi > 0 {
        lemma_span_remove(dice, at, hi - 1);
        if hi - 1 == at {
            assert(span(dice, 0, hi + 1) == span(dice, 0, hi) + dice[hi].pool.current);
        }
    }
}

/// The hit points of a range are those of its last die and of the range
/// before it.
pub proof fn lemma_span_last(dice: Seq<Die>, lo: int, hi: int)
    requires
        lo < hi,
    ensures
        span(dice, lo, hi) == span(dice, lo, hi - 1) + dice[hi - 1].pool.current,
{
}

/// The hit points of a range are those of its two parts.
pub proof fn lemma_span_join(dice: Seq<Die>, lo: int, mid: int, hi: int)
    requires
        lo <= mid <= hi,
    ensures
        span(dice, lo, hi) == span(dice, lo, mid) + span(dice, mid, hi),
    decreases hi - mid,
{
    if mid < hi {
        lemma_span_join(dice, lo, mid, hi - 1);
    }
}

/// Amounts that are not positive do nothing: `Create`, `Chip` and `Heal`
/// with such an amount leave every die of the bar as it was, value and
/// statuses.
pub proof fn law_idle_amounts(dice: Seq<Die>, n: Amount)
    requires
        n <= 0,
    ensures
        resolve(dice, HealthAction::Chip(n)).0 == dice,
        resolve(dice, HealthAction::Heal(n)).0 == dice,
        resolve(dice, HealthAction::Create(n)) == (dice, Seq::<HealthActionResponse>::empty()),
        dice.len() > 0 ==> resolve(dice, HealthAction::Chip(n)).1 == Seq::<
            HealthActionResponse,
        >::empty(),
        dice.len() > 0 ==> resolve(dice, HealthAction::Heal(n)).1 == Seq::<
            HealthActionResponse,
        >::empty(),
{
}

/// On one die, an amount that is not positive chips and heals nothing. The
/// die stays exactly as it was, and answers `NoResponse`, if and only if it
/// is at rest.
pub proof fn law_idle_amount_on_die(die: Die, n: Amount)
    requires
        n <= 0,
    ensures
        die.react(HealthAction::Chip(n)) == (die, HitDieActionResponse::NoResponse),
        die.react(HealthAction::Heal(n)) == (die, HitDieActionResponse::NoResponse),
        at_rest(die) <==> die.step(HealthAction::Chip(n)) == (
            die,
            HitDieActionResponse::NoResponse,
        ),
        at_rest(die) <==> die.step(HealthAction::Heal(n)) == (
            die,
            HitDieActionResponse::NoResponse,
        ),
{
    if !at_rest(die) {
        let (after, answer) = die.step(HealthAction::Chip(n));
        if die.statuses.fortified is Some {
            assert(answer == HitDieActionResponse::RecoveryResponse);
        } else if die.statuses.temporary {
            assert(answer == HitDieActionResponse::ShatterResponse);
        } else {
            assert(after.statuses.empty != die.statuses.empty);
        }
    }
}

/// Chipping conserves hit points. Where every die that the chip leaves at
/// zero is a plain one, chipping `damage` from the die at `at` leftwards
/// takes exactly `damage` hit points out of the bar, or all that the dice up
/// to `at` hold if that is less; no die leaves and the dice right of `at`
/// stay as they were.
pub proof fn law_chip_conserves(dice: Seq<Die>, at: int, damage: Amount)
    requires
        bar_wf(dice),
        0 <= at < dice.len(),
        damage > 0,
        chips_plainly(dice, at, damage as int),
    ensures
        chip(dice, at, damage).0.len() == dice.len(),
        bar_wf(chip(dice, at, damage).0),
        hit_points(chip(dice, at, damage).0) == hit_points(dice) - least(
            damage as int,
            span(dice, 0, at + 1),
        ),
        forall|k: int| at < k < dice.len() ==> chip(dice, at, damage).0[k] == dice[k],
    decreases at,
{
    let die = dice[at];
    let level = die.pool.current;
    let (struck, answer) = die.step(HealthAction::Chip(damage));
    let marked = dice.update(at, struck);
    assert(die.wf());
    lemma_span_nonnegative(dice, 0, at);
    lemma_span_update(dice, at, struck, 0, dice.len() as int);
    lemma_span_last(dice, at, at + 1);
    if damage >= level {
        assert(emptied(dice, at, at, damage as int));
        assert(plain(dice[at]));
        let rest = (damage - level) as Amount;
        assert(answer == HitDieActionResponse::ChipResponse(rest));
        if rest > 0 && at > 0 {
            lemma_chip_goes_on(dice, at, damage);
            law_chip_conserves(marked, at - 1, rest);
            lemma_span_update(dice, at, struck, 0, at);
            let after = chip(marked, at - 1, rest).0;
            assert(chip(dice, at, damage).0 == after);
            assert forall|k: int| at < k < dice.len() implies after[k] == dice[k] by {
                assert(after[k] == marked[k]);
            }
        }
    }
}

/// Past a die that it has emptied, a chip goes on as a chip of what is
/// left: it leaves the same dice at zero as before.
proof fn lemma_chip_goes_on(dice: Seq<Die>, at: int, damage: Amount)
    requires
        bar_wf(dice),
        0 < at < dice.len(),
        damage > dice[at].pool.current,
    ensures
        bar_wf(dice.update(at, dice[at].step(HealthAction::Chip(damage)).0)),
        forall|j: int|
            0 <= j < at ==> emptied(
                dice.update(at, dice[at].step(HealthAction::Chip(damage)).0),
                j,
                at - 1,
                damage - dice[at].pool.current,
            ) == emptied(dice, j, at, damage as int),
        chips_plainly(dice, at, damage as int) ==> chips_plainly(
            dice.update(at, dice[at].step(HealthAction::Chip(damage)).0),
            at - 1,
            damage - dice[at].pool.current,
        ),
{
    let struck = dice[at].step(HealthAction::Chip(damage)).0;
    let marked = dice.update(at, struck);
    let rest = damage - dice[at].pool.current;
    assert(dice[at].wf());
    assert forall|j: int| 0 <= j < at implies emptied(marked, j, at - 1, rest) == emptied(
        dice,
        j,
        at,
        damage as int,
    ) by {
        lemma_span_update(dice, at, struck, j, at);
        lemma_span_update(dice, at, struck, j + 1, at);
        lemma_span_last(dice, j, at + 1);
        if j + 1 < at + 1 {
            lemma_span_last(dice, j + 1, at + 1);
        }
    }
    if chips_plainly(dice, at, damage as int) {
        assert forall|j: int| 0 <= j <= at - 1 && emptied(marked, j, at - 1, rest) implies plain(
            #[trigger] marked[j],
        ) by {
            assert(emptied(dice, j, at, damage as int));
            assert(plain(dice[j]));
        }
    }
}

/// Where a chip stops short. Let the die at `j` be the first from the right
/// that the chip leaves at zero and that is not plain. If it has armor, it
/// is restored and no die leaves: the bar loses the hit points of the dice
/// from `j` to `at` and gains the capacity of the die. If it has none, it is
/// `Temporary` and leaves the bar with the hit points of the dice from `j`
/// to `at`. Hit points are conserved as in `law_chip_conserves` only in the
/// second case, and there only if the damage is used up at this die or the
/// dice left of it are all at zero.
pub proof fn law_chip_stops_at(dice: Seq<Die>, at: int, damage: Amount, j: int)
    requires
        bar_wf(dice),
        0 <= j <= at < dice.len(),
        damage > 0,
        emptied(dice, j, at, damage as int),
        !plain(dice[j]),
        forall|k: int| j < k <= at ==> plain(#[trigger] dice[k]),
    ensures
        dice[j].statuses.fortified is Some ==> chip(dice, at, damage).0.len() == dice.len()
            && hit_points(chip(dice, at, damage).0) == hit_points(dice) - span(dice, j, at + 1)
            + dice[j].pool.total,
        dice[j].statuses.fortified is None ==> chip(dice, at, damage).0.len() == dice.len() - 1
            && hit_points(chip(dice, at, damage).0) == hit_points(dice) - span(dice, j, at + 1),
        hit_points(chip(dice, at, damage).0) == hit_points(dice) - least(
            damage as int,
            span(dice, 0, at + 1),
        ) <==> dice[j].statuses.fortified is None && (damage == span(dice, j, at + 1) || span(
            dice,
            0,
            j,
        ) == 0),
    decreases at,
{
    let die = dice[at];
    let level = die.pool.current;
    let (struck, answer) = die.step(HealthAction::Chip(damage));
    let marked = dice.update(at, struck);
    let after = chip(dice, at, damage).0;
    assert(die.wf());
    lemma_span_last(dice, at, at + 1);
    lemma_span_nonnegative(dice, 0, j);
    lemma_span_nonnegative(dice, j, at);
    lemma_span_nonnegative(dice, j + 1, at);
    lemma_span_join(dice, 0, j, at + 1);
    if j == at {
        lemma_span_update(dice, at, struck, 0, dice.len() as int);
        if dice[j].statuses.fortified is Some {
            assert(answer == HitDieActionResponse::RecoveryResponse);
            assert(after == marked);
        } else {
            assert(answer == HitDieActionResponse::ShatterResponse);
            assert(after == dice.remove(at));
            lemma_span_remove(dice, at, dice.len() - 1);
        }
    } else {
        lemma_span_last(dice, j, at + 1);
        lemma_span_last(dice, j + 1, at + 1);
        assert(plain(dice[at]));
        let rest = (damage - level) as Amount;
        assert(answer == HitDieActionResponse::ChipResponse(rest));
        lemma_chip_goes_on(dice, at, damage);
        lemma_span_update(dice, at, struck, 0, dice.len() as int);
        lemma_span_update(dice, at, struck, j, at);
        lemma_span_update(dice, at, struck, 0, j);
        lemma_span_update(dice, at, struck, 0, at);
        assert(emptied(marked, j, at - 1, rest as int));
        assert forall|k: int| j < k <= at - 1 implies plain(#[trigger] marked[k]) by {
            assert(plain(dice[k]));
        }
        law_chip_stops_at(marked, at - 1, rest, j);
        assert(after == chip(marked, at - 1, rest).0);
        lemma_span_join(marked, 0, j, at);
    }
}

/// Healing conserves hit points. Healing `amount` from the die at `at`
/// rightwards puts exactly `amount` hit points into the bar, or all that the
/// dice from `at` on have room for if that is less; no die leaves and the
/// dice left of `at` stay as they were.
pub proof fn law_heal_conserves(dice: Seq<Die>, at: int, amount: Amount)
    requires
        bar_wf(dice),
        0 <= at < dice.len(),
        amount > 0,
    ensures
        heal(dice, at, amount).0.len() == dice.len(),
        bar_wf(heal(dice, at, amount).0),
        hit_points(heal(dice, at, amount).0) == hit_points(dice) + least(
            amount as int,
            room(dice, at, dice.len() as int),
        ),
        forall|k: int| 0 <= k < at ==> heal(dice, at, amount).0[k] == dice[k],
    decreases dice.len() - at,
{
    let die = dice[at];
    let gap = die.pool.room();
    let (mended, answer) = die.step(HealthAction::Heal(amount));
    let filled = dice.update(at, mended);
    assert(die.wf());
    lemma_room_nonnegative(dice, at + 1, dice.len() as int);
    lemma_span_update(dice, at, mended, 0, dice.len() as int);
    if amount > gap {
        let rest = (amount - gap) as Amount;
        assert(answer == HitDieActionResponse::HealResponse(rest));
        if at < dice.len() - 1 {
            assert(bar_wf(filled));
            law_heal_conserves(filled, at + 1, rest);
            lemma_room_update_outside(dice, at, mended, at + 1, dice.len() as int);
            let after = heal(filled, at + 1, rest).0;
            assert(heal(dice, at, amount).0 == after);
            assert forall|k: int| 0 <= k < at implies after[k] == dice[k] by {
                assert(after[k] == filled[k]);
            }
        }
    }
}

/// Chipping runs from right to left. Under the condition of
/// `law_chip_conserves`, each die from `at` leftwards loses what reaches it
/// of the damage, or all it has if that is less.
pub proof fn law_chip_runs_leftwards(dice: Seq<Die>, at: int, damage: Amount)
    requires
        bar_wf(dice),
        0 <= at < dice.len(),
        damage > 0,
        chips_plainly(dice, at, damage as int),
    ensures
        chip(dice, at, damage).0.len() == dice.len(),
        forall|j: int|
            0 <= j <= at ==> (#[trigger] chip(dice, at, damage).0[j]).pool.current
                == dice[j].pool.current - least(
                dice[j].pool.current,
                reaching(dice, j, at, damage as int),
            ),
    decreases at,
{
    let die = dice[at];
    let level = die.pool.current;
    let (struck, answer) = die.step(HealthAction::Chip(damage));
    let marked = dice.update(at, struck);
    let after = chip(dice, at, damage).0;
    assert(die.wf());
    assert(span(dice, at + 1, at + 1) == 0);
    assert(span(dice, at, at + 1) == level) by {
        assert(span(dice, at, at) == 0);
    }
    law_chip_conserves(dice, at, damage);
    if damage >= level && damage - level > 0 && at > 0 {
        let rest = (damage - level) as Amount;
        assert(emptied(dice, at, at, damage as int));
        assert(plain(dice[at]));
        assert(answer == HitDieActionResponse::ChipResponse(rest));
        lemma_chip_goes_on(dice, at, damage);
        law_chip_runs_leftwards(marked, at - 1, rest);
        law_chip_conserves(marked, at - 1, rest);
        assert(after == chip(marked, at - 1, rest).0);
        assert(after[at] == marked[at]);
        assert forall|j: int| 0 <= j <= at implies (#[trigger] after[j]).pool.current
            == dice[j].pool.current - least(
            dice[j].pool.current,
            reaching(dice, j, at, damage as int),
        ) by {
            if j < at {
                lemma_span_update(dice, at, struck, j + 1, at);
                assert(marked[j] == dice[j]);
            }
        }
    } else {
        assert(after == marked);
        assert forall|j: int| 0 <= j <= at implies (#[trigger] after[j]).pool.current
            == dice[j].pool.current - least(
            dice[j].pool.current,
            reaching(dice, j, at, damage as int),
        ) by {
            if j < at {
                lemma_span_nonnegative(dice, j + 1, at);
                assert(after[j] == dice[j]);
                assert(dice[j].wf());
            }
        }
    }
}

/// Healing runs from left to right. Each die from `at` rightwards gains
/// what reaches it of the amount, or all it has room for if that is less.
pub proof fn law_heal_runs_rightwards(dice: Seq<Die>, at: int, amount: Amount)
    requires
        bar_wf(dice),
        0 <= at < dice.len(),
        amount > 0,
    ensures
        heal(dice, at, amount).0.len() == dice.len(),
        forall|j: int|
            at <= j < dice.len() ==> (#[trigger] heal(dice, at, amount).0[j]).pool.current
                == dice[j].pool.current + least(
                dice[j].pool.room(),
                flowing(dice, j, at, amount as int),
            ),
    decreases dice.len() - at,
{
    let die = dice[at];
    let gap = die.pool.room();
    let (mended, answer) = die.step(HealthAction::Heal(amount));
    let filled = dice.update(at, mended);
    let after = heal(dice, at, amount).0;
    assert(die.wf());
    assert(room(dice, at, at) == 0);
    law_heal_conserves(dice, at, amount);
    if amount > gap && at < dice.len() - 1 {
        let rest = (amount - gap) as Amount;
        assert(answer == HitDieActionResponse::HealResponse(rest));
        assert(bar_wf(filled));
        law_heal_runs_rightwards(filled, at + 1, rest);
        law_heal_conserves(filled, at + 1, rest);
        assert(after == heal(filled, at + 1, rest).0);
        assert(after[at] == filled[at]);
        assert forall|j: int| at <= j < dice.len() implies (#[trigger] after[j]).pool.current
            == dice[j].pool.current + least(
            dice[j].pool.room(),
            flowing(dice, j, at, amount as int),
        ) by {
            if j > at {
                lemma_room_update_outside(dice, at, mended, at + 1, j);
                assert(filled[j] == dice[j]);
                assert(room(dice, at, j) == gap + room(dice, at + 1, j));
            }
        }
    } else {
        assert(after == filled);
        assert forall|j: int| at <= j < dice.len() implies (#[trigger] after[j]).pool.current
            == dice[j].pool.current + least(
            dice[j].pool.room(),
            flowing(dice, j, at, amount as int),
        ) by {
            if j > at {
                lemma_room_nonnegative(dice, at + 1, j);
                assert(room(dice, at, j) == gap + room(dice, at + 1, j));
                assert(after[j] == dice[j]);
                assert(dice[j].wf());
            }
        }
    }
}

/// `Chip` on a bar: where every die that the chip leaves at zero is a plain
/// one, the bar loses exactly `damage` hit points, or all it has if that is
/// less, and keeps all its dice.
pub proof fn law_chip_on_bar(dice: Seq<Die>, damage: Amount)
    requires
        bar_wf(dice),
        dice.len() > 0,
        damage > 0,
        chips_plainly(dice, dice.len() - 1, damage as int),
    ensures
        resolve(dice, HealthAction::Chip(damage)).0.len() == dice.len(),
        hit_points(resolve(dice, HealthAction::Chip(damage)).0) == hit_points(dice) - least(
            damage as int,
            hit_points(dice),
        ),
{
    law_chip_conserves(dice, dice.len() - 1, damage);
}

/// `Heal` on a bar: the bar gains exactly `amount` hit points, or all it has
/// room for if that is less, and keeps all its dice.
pub proof fn law_heal_on_bar(dice: Seq<Die>, amount: Amount)
    requires
        bar_wf(dice),
        dice.len() > 0,
        amount > 0,
    ensures
        resolve(dice, HealthAction::Heal(amount)).0.len() == dice.len(),
        hit_points(resolve(dice, HealthAction::Heal(amount)).0) == hit_points(dice) + least(
            amount as int,
            room(dice, 0, dice.len() as int),
        ),
{
    law_heal_conserves(dice, 0, amount);
}

/// The search from the right finds the right-most die among the first
/// `upto` that lacks the status: every die to its right carries it. It
/// finds nothing exactly if all of them carry it.
pub proof fn law_rightmost_without(dice: Seq<Die>, tag: HitDieStatus, upto: int)
    requires
        0 <= upto <= dice.len(),
    ensures
        match rightmost_without(dice, tag, upto) {
            Some(at) => {
                &&& 0 <= at < upto
                &&& !dice[at].statuses.has(tag)
                &&& forall|k: int| at < k < upto ==> (#[trigger] dice[k]).statuses.has(tag)
            },
            None => forall|k: int| 0 <= k < upto ==> (#[trigger] dice[k]).statuses.has(tag),
        },
    decreases upto,
{
    if upto > 0 && dice[upto - 1].statuses.has(tag) {
        law_rightmost_without(dice, tag, upto - 1);
    }
}

/// The search from the left finds the left-most die from `from` on that
/// carries the status: every die between `from` and it lacks it. It finds
/// nothing exactly if all of them lack it.
pub proof fn law_leftmost_with(dice: Seq<Die>, tag: HitDieStatus, from: int)
    requires
        0 <= from <= dice.len(),
    ensures
        match leftmost_with(dice, tag, from) {
            Some(at) => {
                &&& from <= at < dice.len()
                &&& dice[at].statuses.has(tag)
                &&& forall|k: int| from <= k < at ==> !(#[trigger] dice[k]).statuses.has(tag)
            },
            None => forall|k: int|
                from <= k < dice.len() ==> !(#[trigger] dice[k]).statuses.has(tag),
        },
    decreases dice.len() - from,
{
    if from < dice.len() && !dice[from].statuses.has(tag) {
        law_leftmost_with(dice, tag, from + 1);
    }
}

/// A die with armor that an action leaves at zero is restored at once: it
/// answers `RecoveryResponse`, is full again and not `Empty`, and its armor
/// has one charge less, or is gone if that was its last charge. Nothing
/// else about the die changes.
pub proof fn law_armor_absorbs_zero(die: Die, action: HealthAction, armor: Amount)
    requires
        die.wf(),
        die.react(action).0.pool.current == 0,
        die.react(action).0.statuses.fortified == Some(armor),
    ensures
        die.step(action).1 == HitDieActionResponse::RecoveryResponse,
        die.step(action).0.pool.current == die.pool.total,
        die.step(action).0.pool.total == die.pool.total,
        die.step(action).0.statuses.fortified == if armor > 1 {
            Some((armor - 1) as Amount)
        } else {
            None
        },
        !die.step(action).0.statuses.empty,
        die.step(action).0 == die.react(action).0.recovered(armor),
{
}

/// The same for the commonest case: a chip that the die cannot absorb, on a
/// die with `armor` charges.
pub proof fn law_armor_absorbs_chip(die: Die, damage: Amount, armor: Amount)
    requires
        die.wf(),
        die.statuses.fortified == Some(armor),
        damage > 0,
        damage >= die.pool.current,
    ensures
        die.step(HealthAction::Chip(damage)).1 == HitDieActionResponse::RecoveryResponse,
        die.step(HealthAction::Chip(damage)).0.pool == die.pool.reset(),
        die.step(HealthAction::Chip(damage)).0.statuses.fortified == if armor > 1 {
            Some((armor - 1) as Amount)
        } else {
            None
        },
{
}

/// A `Temporary` die without armor that a chip brings to zero leaves the
/// bar: the chip ends there with `ShatterResponse` for that die, the bar is
/// one die shorter, and the other dice are as the chip found them.
pub proof fn law_temporary_die_leaves(dice: Seq<Die>, at: int, damage: Amount)
    requires
        bar_wf(dice),
        0 <= at < dice.len(),
        damage > 0,
        damage >= dice[at].pool.current,
        dice[at].statuses.temporary,
        dice[at].statuses.fortified is None,
    ensures
        chip(dice, at, damage) == (
            dice.remove(at),
            seq![HealthActionResponse::ShatterResponse(at as Index)],
        ),
        chip(dice, at, damage).0.len() == dice.len() - 1,
{
    assert(dice[at].wf());
}

/// The same at the right end of the bar, where `Chip` starts.
pub proof fn law_temporary_last_die_leaves(dice: Seq<Die>, damage: Amount)
    requires
        bar_wf(dice),
        dice.len() > 0,
        damage > 0,
        damage >= dice.last().pool.current,
        dice.last().statuses.temporary,
        dice.last().statuses.fortified is None,
    ensures
        resolve(dice, HealthAction::Chip(damage)) == (
            dice.drop_last(),
            seq![HealthActionResponse::ShatterResponse((dice.len() - 1) as Index)],
        ),
        resolve(dice, HealthAction::Chip(damage)).0.len() == dice.len() - 1,
{
    law_temporary_die_leaves(dice, dice.len() - 1, damage);
    assert(dice.remove(dice.len() - 1) =~= dice.drop_last());
}

/// `Drain` and `Break` on a `Guarded` die answer `RecoveryResponse` and
/// leave the die exactly as it was, value and statuses, if and only if the
/// die is at rest. (A guarded die that is not at rest sits at zero with
/// something still to settle, and settles it.)
pub proof fn law_guard_cancels(die: Die)
    requires
        die.statuses.guarded,
    ensures
        die.react(HealthAction::Drain) == (die, HitDieActionResponse::RecoveryResponse),
        die.react(HealthAction::Break) == (die, HitDieActionResponse::RecoveryResponse),
        at_rest(die) <==> die.step(HealthAction::Drain) == (
            die,
            HitDieActionResponse::RecoveryResponse,
        ),
        at_rest(die) <==> die.step(HealthAction::Break) == (
            die,
            HitDieActionResponse::RecoveryResponse,
        ),
{
    if !at_rest(die) {
        let (after, answer) = die.step(HealthAction::Drain);
        if die.statuses.fortified is Some {
            assert(after.statuses.fortified != die.statuses.fortified);
        } else if die.statuses.temporary {
            assert(answer == HitDieActionResponse::ShatterResponse);
        } else {
            assert(after.statuses.empty != die.statuses.empty);
        }
    }
}

} // verus!
