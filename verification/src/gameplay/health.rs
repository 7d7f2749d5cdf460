//! Hit dice and the health bar built from them.
//!
//! A hit die is one bounded pool of hit points with statuses that change how
//! it reacts. `Die::step` says how one die answers one action; `HitDie`
//! carries it out.

use vstd::prelude::*;
use super::status::StatusSet;
use super::value::{Pool, Value};
use super::{Amount, Index, React, Time};

verus! {

/// A modifier attached to a hit die.
#[derive(PartialEq, Eq, Structural, Clone, Copy, Hash, Debug)]
pub enum HitDieStatus {
    /// A `Void` hit die has no influence.
    Void,
    /// An `Empty` hit die has zero hit points in it.
    Empty,
    /// A `Grafted` hit die gives no effort.
    Grafted,
    /// A `Temporary` hit die shatters when it is emptied.
    Temporary,
    /// A `Guarded` hit die cannot be broken or drained.
    Guarded,
    /// A `Fortified` hit die that would become empty heals completely
    /// instead and loses one charge of armor.
    Fortified(Amount),
    /// A `Stifled` hit die gives no effort for a number of turns.
    Stifled(Time),
    /// A `Cracked` hit die chips for one point every set number of turns.
    Cracked(Time),
    /// A `Mending` hit die heals one point every set number of turns.
    Mending(Time),
}

/// Whether a hit die has committed its effort, and for how long.
#[derive(Debug)]
pub enum Effort {
    Uncommited,
    Commited(Commitment),
}

/// How long a commitment lasts.
#[derive(Debug)]
pub enum Commitment {
    Turn(Amount),
    Encounter,
    Rest,
}

/// An outside modifier of a hit die. No rule reads it yet: its one variant
/// carries nothing and changes nothing.
#[derive(Debug)]
pub enum Influence {
    Inert,
}

/// What can be asked of a health bar.
#[derive(Clone, Copy)]
pub enum HealthAction {
    /// Adds a hit die of some size to the right end of the bar.
    Create(Amount),
    /// Adds a status to the right-most hit die.
    AddStatus(HitDieStatus),
    /// Removes a status from the right-most hit die.
    RemoveStatus(HitDieStatus),
    /// Reduces the right-most hit die by a number of hit points; what it
    /// cannot absorb spills over to the left.
    Chip(Amount),
    /// Restores the left-most hit die by a number of hit points; what it
    /// cannot hold spills over to the right.
    Heal(Amount),
    /// Empties the right-most hit die that is not `Empty`.
    Drain,
    /// Makes the right-most hit die that is not `Void` `Void`.
    Break,
    /// Takes `Void` from the left-most hit die that has it.
    Mend,
    /// Removes the right-most hit die.
    Shatter,
    /// Adds armor to the right-most hit die.
    Fortify(Amount),
}

/// What one hit die answers to an action.
#[derive(PartialEq, Eq, Structural, Clone, Copy, Debug)]
pub enum HitDieActionResponse {
    NoResponse,
    ChipResponse(Amount),
    HealResponse(Amount),
    DrainResponse,
    BreakResponse,
    MendResponse,
    ShatterResponse,
    FortifiedResponse(Amount),
    RecoveryResponse,
}

/// The mathematical content of a [`HitDie`].
pub struct Die {
    pub pool: Pool,
    pub effort: Effort,
    pub statuses: StatusSet,
    pub influences: Seq<Influence>,
}

impl Die {
    /// The pool is in bounds and can hold at least one hit point.
    pub open spec fn wf(self) -> bool {
        self.pool.wf() && self.pool.total > 0
    }

    /// A new die of the given size: full, uncommitted, without statuses.
    pub open spec fn fresh(size: int) -> Die {
        Die {
            pool: Pool::full(size),
            effort: Effort::Uncommited,
            statuses: StatusSet::none(),
            influences: Seq::empty(),
        }
    }

    /// The armor after `v` more charges.
    pub open spec fn armor_after(self, v: Amount) -> int {
        match self.statuses.fortified {
            Some(n) => n + v,
            None => v as int,
        }
    }

    /// The die may take `action`: it is well formed, and armor that the
    /// action adds still fits an `Amount`.
    pub open spec fn admits(self, action: HealthAction) -> bool {
        &&& self.wf()
        &&& action matches HealthAction::Fortify(v) ==> i32::MIN <= self.armor_after(v) <= i32::MAX
    }

    /// What the action itself does to the die, before the die looks at its
    /// own level. Amounts that are not positive chip and heal nothing.
    pub open spec fn react(self, action: HealthAction) -> (Die, HitDieActionResponse) {
        match action {
            HealthAction::Chip(n) => if n > 0 {
                (
                    Die { pool: self.pool.reduce(n as int), ..self },
                    HitDieActionResponse::ChipResponse(self.pool.shortfall(n as int) as Amount),
                )
            } else {
                (self, HitDieActionResponse::NoResponse)
            },
            HealthAction::Heal(n) => if n > 0 {
                (
                    Die {
                        pool: self.pool.add(n as int),
                        statuses: self.statuses.without(HitDieStatus::Empty),
                        ..self
                    },
                    HitDieActionResponse::HealResponse(self.pool.excess(n as int) as Amount),
                )
            } else {
                (self, HitDieActionResponse::NoResponse)
            },
            HealthAction::AddStatus(tag) => (
                Die { statuses: self.statuses.with(tag), ..self },
                HitDieActionResponse::NoResponse,
            ),
            HealthAction::RemoveStatus(tag) => (
                Die { statuses: self.statuses.without(tag), ..self },
                HitDieActionResponse::NoResponse,
            ),
            HealthAction::Drain => if self.statuses.guarded {
                (self, HitDieActionResponse::RecoveryResponse)
            } else {
                (Die { pool: self.pool.empty(), ..self }, HitDieActionResponse::DrainResponse)
            },
            HealthAction::Break => if self.statuses.guarded {
                (self, HitDieActionResponse::RecoveryResponse)
            } else {
                (
                    Die { statuses: self.statuses.with(HitDieStatus::Void), ..self },
                    HitDieActionResponse::BreakResponse,
                )
            },
            HealthAction::Mend => (
                Die { statuses: self.statuses.without(HitDieStatus::Void), ..self },
                HitDieActionResponse::MendResponse,
            ),
            HealthAction::Fortify(v) => (
                Die {
                    statuses: self.statuses.with(
                        HitDieStatus::Fortified(self.armor_after(v) as Amount),
                    ),
                    ..self
                },
                HitDieActionResponse::FortifiedResponse(self.armor_after(v) as Amount),
            ),
            HealthAction::Create(_) | HealthAction::Shatter => (self, HitDieActionResponse::NoResponse),
        }
    }

    /// The die after armor has absorbed a fall to zero: full again, no
    /// longer `Empty`, and with one charge less, or without armor if that
    /// was the last charge.
    pub open spec fn recovered(self, armor: Amount) -> Die {
        let cleared = StatusSet { fortified: None, ..self.statuses }.without(HitDieStatus::Empty);
        Die {
            pool: self.pool.reset(),
            statuses: if armor > 1 {
                cleared.with(HitDieStatus::Fortified((armor - 1) as Amount))
            } else {
                cleared
            },
            ..self
        }
    }

    /// What the die does about its own level once the action is done. At
    /// zero, armor comes first and answers `RecoveryResponse`; without
    /// armor a `Temporary` die answers `ShatterResponse`; any other die
    /// becomes `Empty` and keeps the answer it had.
    pub open spec fn settle(self, main: HitDieActionResponse) -> (Die, HitDieActionResponse) {
        if self.pool.current != 0 {
            (self, main)
        } else {
            match self.statuses.fortified {
                Some(armor) => (self.recovered(armor), HitDieActionResponse::RecoveryResponse),
                None => if self.statuses.temporary {
                    (self, HitDieActionResponse::ShatterResponse)
                } else {
                    (Die { statuses: self.statuses.with(HitDieStatus::Empty), ..self }, main)
                },
            }
        }
    }

    /// The die and its answer after one action.
    pub open spec fn step(self, action: HealthAction) -> (Die, HitDieActionResponse) {
        let (die, main) = self.react(action);
        die.settle(main)
    }
}

/// One pool of hit points with its statuses.
#[derive(Debug)]
pub struct HitDie {
    pub value: Value,
    pub effort: Effort,
    pub statuses: StatusSet,
    pub influences: Vec<Influence>,
}

impl View for HitDie {
    type V = Die;

    open spec fn view(&self) -> Die {
        Die {
            pool: self.value@,
            effort: self.effort,
            statuses: self.statuses,
            influences: self.influences@,
        }
    }
}

impl HitDie {
    /// A full hit die of the given size, without statuses.
    pub fn new(size: u32) -> (die: HitDie)
        requires
            0 < size <= i32::MAX,
        ensures
            die@ == Die::fresh(size as int),
            die@.wf(),
    {
        HitDie {
            value: Value::new(size),
            effort: Effort::Uncommited,
            statuses: StatusSet::new(),
            influences: Vec::new(),
        }
    }

    /// Carries out the action itself, before the die looks at its own
    /// level.
    fn respond(&mut self, action: HealthAction) -> (main: HitDieActionResponse)
        requires
            old(self)@.admits(action),
        ensures
            (final(self)@, main) == old(self)@.react(action),
            final(self)@.wf(),
    {
        match action {
            HealthAction::Chip(n) if n > 0 => {
                HitDieActionResponse::ChipResponse(self.value.reduce(n as u32))
            },
            HealthAction::AddStatus(status) => {
                self.statuses.insert(status);
                HitDieActionResponse::NoResponse
            },
            HealthAction::RemoveStatus(status) => {
                self.statuses.remove(&status);
                HitDieActionResponse::NoResponse
            },
            HealthAction::Heal(n) if n > 0 => {
                self.statuses.remove(&HitDieStatus::Empty);
                HitDieActionResponse::HealResponse(self.value.add(n as u32))
            },
            HealthAction::Drain if self.statuses.contains(&HitDieStatus::Guarded) => {
                HitDieActionResponse::RecoveryResponse
            },
            HealthAction::Drain => {
                self.value.empty();
                HitDieActionResponse::DrainResponse
            },
            HealthAction::Break if self.statuses.contains(&HitDieStatus::Guarded) => {
                HitDieActionResponse::RecoveryResponse
            },
            HealthAction::Break => {
                self.statuses.insert(HitDieStatus::Void);
                HitDieActionResponse::BreakResponse
            },
            HealthAction::Mend => {
                self.statuses.remove(&HitDieStatus::Void);
                HitDieActionResponse::MendResponse
            },
            HealthAction::Fortify(v) => {
                let value: Amount = match self.statuses.fortified {
                    Some(n) => n + v,
                    None => v,
                };
                self.statuses.insert(HitDieStatus::Fortified(value));
                HitDieActionResponse::FortifiedResponse(value)
            },
            _ => HitDieActionResponse::NoResponse,
        }
    }
}

impl React<HealthAction, HitDieActionResponse> for HitDie {
    open spec fn admits(&self, action: HealthAction) -> bool {
        self@.admits(action)
    }

    fn execute(&mut self, action: HealthAction) -> (response: HitDieActionResponse)
        ensures
            (final(self)@, response) == old(self)@.step(action),
            final(self)@.wf(),
        decreases
            (if action matches HealthAction::Heal(n) && n > 0 { 0nat } else { 1nat }),
    {
        let main_response = self.respond(action);

        if self.value.current() == 0 {
            if let Some(armor) = self.statuses.fortified {
                self.statuses.remove(&HitDieStatus::Fortified(armor));
                let total: Amount = self.value.total();
                self.execute(HealthAction::Heal(total));
                if armor > 1 {
                    self.statuses.insert(HitDieStatus::Fortified(armor - 1));
                }
                return HitDieActionResponse::RecoveryResponse;
            }
        }
        if self.value.current() == 0 && self.statuses.contains(&HitDieStatus::Temporary) {
            return HitDieActionResponse::ShatterResponse;
        }
        if self.value.current() == 0 {
            self.statuses.insert(HitDieStatus::Empty);
        }
        main_response
    }
}

/// What a health bar answers to an action: what one of its dice answered,
/// with the position of that die.
#[derive(PartialEq, Eq, Structural, Clone, Copy, Debug)]
pub enum HealthActionResponse {
    NoResponse,
    CreateResponse(Index),
    ChipResponse(Index, Amount),
    HealResponse(Index, Amount),
    DrainResponse(Index),
    FortifiedResponse(Index, Amount),
    RecoveryResponse(Index),
    BreakResponse(Index),
    MendResponse(Index),
    ShatterResponse(Index),
}

/// The answer of the die at `index`, as an answer of the bar.
pub open spec fn at_index(answer: HitDieActionResponse, index: Index) -> HealthActionResponse {
    match answer {
        HitDieActionResponse::NoResponse => HealthActionResponse::NoResponse,
        HitDieActionResponse::DrainResponse => HealthActionResponse::DrainResponse(index),
        HitDieActionResponse::BreakResponse => HealthActionResponse::BreakResponse(index),
        HitDieActionResponse::MendResponse => HealthActionResponse::MendResponse(index),
        HitDieActionResponse::ChipResponse(r) => HealthActionResponse::ChipResponse(index, r),
        HitDieActionResponse::HealResponse(r) => HealthActionResponse::HealResponse(index, r),
        HitDieActionResponse::FortifiedResponse(f) => HealthActionResponse::FortifiedResponse(
            index,
            f,
        ),
        HitDieActionResponse::RecoveryResponse => HealthActionResponse::RecoveryResponse(index),
        HitDieActionResponse::ShatterResponse => HealthActionResponse::ShatterResponse(index),
    }
}

impl From<(&HitDieActionResponse, Index)> for HealthActionResponse {
    fn from(value: (&HitDieActionResponse, Index)) -> (response: Self) {
        match value.0 {
            HitDieActionResponse::NoResponse => HealthActionResponse::NoResponse,
            HitDieActionResponse::DrainResponse => HealthActionResponse::DrainResponse(value.1),
            HitDieActionResponse::BreakResponse => HealthActionResponse::BreakResponse(value.1),
            HitDieActionResponse::MendResponse => HealthActionResponse::MendResponse(value.1),
            HitDieActionResponse::ChipResponse(r) => HealthActionResponse::ChipResponse(
                value.1,
                *r,
            ),
            HitDieActionResponse::HealResponse(r) => HealthActionResponse::HealResponse(
                value.1,
                *r,
            ),
            HitDieActionResponse::FortifiedResponse(f) => HealthActionResponse::FortifiedResponse(
                value.1,
                *f,
            ),
            HitDieActionResponse::RecoveryResponse => HealthActionResponse::RecoveryResponse(
                value.1,
            ),
            HitDieActionResponse::ShatterResponse => HealthActionResponse::ShatterResponse(
                value.1,
            ),
        }
    }
}

impl vstd::std_specs::convert::FromSpecImpl<(&HitDieActionResponse, Index)> for HealthActionResponse {
    open spec fn obeys_from_spec() -> bool {
        true
    }

    open spec fn from_spec(value: (&HitDieActionResponse, Index)) -> Self {
        at_index(*value.0, value.1)
    }
}

/// Every die of the bar is well formed.
pub open spec fn bar_wf(dice: Seq<Die>) -> bool {
    forall|i: int| 0 <= i < dice.len() ==> (#[trigger] dice[i]).wf()
}

/// Chipping `damage` off the die at `at`, and what it cannot absorb off the
/// dice to its left, one after the other. A die that shatters leaves the
/// bar and ends the chipping; so does a die that recovers.
pub open spec fn chip(dice: Seq<Die>, at: int, damage: Amount) -> (
    Seq<Die>,
    Seq<HealthActionResponse>,
)
    recommends
        0 <= at < dice.len(),
    decreases at,
{
    let (die, answer) = dice[at].step(HealthAction::Chip(damage));
    let first = seq![at_index(answer, at as Index)];
    match answer {
        HitDieActionResponse::ShatterResponse => (dice.remove(at), first),
        HitDieActionResponse::ChipResponse(rest) => if rest > 0 && at > 0 {
            let (after, more) = chip(dice.update(at, die), at - 1, rest);
            (after, first + more)
        } else {
            (dice.update(at, die), first)
        },
        _ => (dice.update(at, die), first),
    }
}

/// Healing the die at `at` by `restoration`, and the dice to its right by
/// what it cannot hold, one after the other.
pub open spec fn heal(dice: Seq<Die>, at: int, restoration: Amount) -> (
    Seq<Die>,
    Seq<HealthActionResponse>,
)
    recommends
        0 <= at < dice.len(),
    decreases dice.len() - at,
{
    let (die, answer) = dice[at].step(HealthAction::Heal(restoration));
    let first = seq![at_index(answer, at as Index)];
    match answer {
        HitDieActionResponse::HealResponse(rest) => if rest > 0 && 0 <= at < dice.len() - 1 {
            let (after, more) = heal(dice.update(at, die), at + 1, rest);
            (after, first + more)
        } else {
            (dice.update(at, die), first)
        },
        _ => (dice.update(at, die), first),
    }
}

/// The right-most die among the first `upto` that does not carry `tag`.
pub open spec fn rightmost_without(dice: Seq<Die>, tag: HitDieStatus, upto: int) -> Option<int>
    decreases upto,
{
    if upto <= 0 {
        None
    } else if !dice[upto - 1].statuses.has(tag) {
        Some(upto - 1)
    } else {
        rightmost_without(dice, tag, upto - 1)
    }
}

/// The left-most die from `from` on that carries `tag`.
pub open spec fn leftmost_with(dice: Seq<Die>, tag: HitDieStatus, from: int) -> Option<int>
    decreases dice.len() - from,
{
    if from >= dice.len() {
        None
    } else if dice[from].statuses.has(tag) {
        Some(from)
    } else {
        leftmost_with(dice, tag, from + 1)
    }
}

/// One action on the die at `at`: the bar afterwards and the answer of the
/// bar.
pub open spec fn target(dice: Seq<Die>, at: int, action: HealthAction) -> (
    Seq<Die>,
    Seq<HealthActionResponse>,
) {
    let (die, answer) = dice[at].step(action);
    (dice.update(at, die), seq![at_index(answer, at as Index)])
}

/// The bar and its answers after one action.
///
/// An empty bar answers `NoResponse` to everything but `Create`. `Create`,
/// `Chip` and `Heal` with an amount that is not positive do nothing and
/// answer nothing.
pub open spec fn resolve(dice: Seq<Die>, action: HealthAction) -> (
    Seq<Die>,
    Seq<HealthActionResponse>,
) {
    let last = dice.len() - 1;
    if dice.len() == 0 && !(action is Create) {
        (dice, seq![HealthActionResponse::NoResponse])
    } else {
        match action {
            HealthAction::Create(size) => if size > 0 {
                (
                    dice.push(Die::fresh(size as int)),
                    seq![HealthActionResponse::CreateResponse(dice.len() as Index)],
                )
            } else {
                (dice, Seq::empty())
            },
            HealthAction::AddStatus(_) | HealthAction::RemoveStatus(_) => (
                target(dice, last, action).0,
                seq![HealthActionResponse::NoResponse],
            ),
            HealthAction::Chip(n) => if n > 0 {
                chip(dice, last, n)
            } else {
                (dice, Seq::empty())
            },
            HealthAction::Heal(n) => if n > 0 {
                heal(dice, 0, n)
            } else {
                (dice, Seq::empty())
            },
            HealthAction::Drain => match rightmost_without(
                dice,
                HitDieStatus::Empty,
                dice.len() as int,
            ) {
                Some(at) => target(dice, at, action),
                None => (dice, seq![HealthActionResponse::NoResponse]),
            },
            HealthAction::Break => match rightmost_without(
                dice,
                HitDieStatus::Void,
                dice.len() as int,
            ) {
                Some(at) => target(dice, at, action),
                None => (dice, seq![HealthActionResponse::NoResponse]),
            },
            HealthAction::Fortify(_) => target(dice, last, action),
            HealthAction::Mend => match leftmost_with(dice, HitDieStatus::Void, 0) {
                Some(at) => (
                    target(dice, at, action).0,
                    seq![HealthActionResponse::MendResponse(at as Index)],
                ),
                None => (dice, seq![HealthActionResponse::NoResponse]),
            },
            HealthAction::Shatter => (
                dice.drop_last(),
                seq![HealthActionResponse::ShatterResponse(last as Index)],
            ),
        }
    }
}

/// The bar may take `action`: its dice are well formed, and the right-most
/// die, which is the one that `Fortify` reaches, may take it.
pub open spec fn bar_admits(dice: Seq<Die>, action: HealthAction) -> bool {
    &&& bar_wf(dice)
    &&& dice.len() > 0 ==> dice.last().admits(action)
}

/// An ordered bar of hit dice. The order is the order of creation, left to
/// right.
#[derive(Debug)]
pub struct Health {
    pub hit_dice: Vec<HitDie>,
}

impl View for Health {
    type V = Seq<Die>;

    open spec fn view(&self) -> Seq<Die> {
        self.hit_dice@.map_values(|die: HitDie| die@)
    }
}

impl Default for Health {
    fn default() -> (health: Health)
        ensures
            health@ == Seq::<Die>::empty(),
    {
        Health { hit_dice: Vec::new() }
    }
}

impl Health {
    /// The position of the right-most die without `tag`, if there is one.
    fn rightmost_without(&self, tag: &HitDieStatus) -> (found: Option<usize>)
        ensures
            found matches Some(at) ==> at < self@.len(),
            rightmost_without(self@, *tag, self@.len() as int) == match found {
                Some(at) => Some(at as int),
                None => None,
            },
    {
        let mut upto: usize = self.hit_dice.len();
        while upto > 0
            invariant
                upto <= self.hit_dice.len(),
                rightmost_without(self@, *tag, self@.len() as int) == rightmost_without(
                    self@,
                    *tag,
                    upto as int,
                ),
            decreases upto,
        {
            if !self.hit_dice[upto - 1].statuses.contains(tag) {
                return Some(upto - 1);
            }
            upto -= 1;
        }
        None
    }

    /// The position of the left-most die with `tag`, if there is one.
    fn leftmost_with(&self, tag: &HitDieStatus) -> (found: Option<usize>)
        ensures
            found matches Some(at) ==> at < self@.len(),
            leftmost_with(self@, *tag, 0) == match found {
                Some(at) => Some(at as int),
                None => None,
            },
    {
        let mut from: usize = 0;
        while from < self.hit_dice.len()
            invariant
                from <= self.hit_dice.len(),
                leftmost_with(self@, *tag, 0) == leftmost_with(self@, *tag, from as int),
            decreases self.hit_dice.len() - from,
        {
            if self.hit_dice[from].statuses.contains(tag) {
                return Some(from);
            }
            from += 1;
        }
        None
    }

    /// Lets the die at `at` take `action` and gives its answer.
    fn act(&mut self, at: usize, action: HealthAction) -> (answer: HitDieActionResponse)
        requires
            at < old(self)@.len(),
            bar_wf(old(self)@),
            old(self)@[at as int].admits(action),
        ensures
            (final(self)@[at as int], answer) == old(self)@[at as int].step(action),
            final(self)@ == old(self)@.update(at as int, final(self)@[at as int]),
            bar_wf(final(self)@),
    {
        let answer = self.hit_dice[at].execute(action);
        assert(self@ =~= old(self)@.update(at as int, self@[at as int]));
        answer
    }

    /// Chips `amount` off the right end of the bar.
    fn chip(&mut self, amount: Amount) -> (answers: Vec<HealthActionResponse>)
        requires
            old(self)@.len() > 0,
            bar_wf(old(self)@),
            amount > 0,
        ensures
            (final(self)@, answers@) == chip(old(self)@, old(self)@.len() - 1, amount),
            bar_wf(final(self)@),
    {
        let mut answers: Vec<HealthActionResponse> = Vec::new();
        let mut last: usize = self.hit_dice.len() - 1;
        let mut damage: Amount = amount;
        let ghost goal = chip(self@, last as int, amount);
        assert(answers@ + goal.1 =~= goal.1);
        loop
            invariant_except_break
                last < self@.len(),
                damage > 0,
                bar_wf(self@),
                goal == (
                    chip(self@, last as int, damage).0,
                    answers@ + chip(self@, last as int, damage).1,
                ),
            ensures
                (self@, answers@) == goal,
                bar_wf(self@),
            decreases last,
        {
            let ghost before = self@;
            let ghost said = answers@;
            let reaction = self.act(last, HealthAction::Chip(damage));
            answers.push(HealthActionResponse::from((&reaction, last)));
            let ghost first = seq![at_index(reaction, last)];
            assert(answers@ =~= said + first);
            assert(self.hit_dice@.len() == self@.len());
            match reaction {
                HitDieActionResponse::ShatterResponse => {
                    let ghost struck = self@;
                    self.hit_dice.remove(last);
                    assert(self@ =~= struck.remove(last as int));
                    assert(struck.remove(last as int) =~= before.remove(last as int));
                    break ;
                },
                HitDieActionResponse::ChipResponse(rest) => {
                    if rest > 0 && last > 0 {
                        damage = rest;
                        last -= 1;
                        assert(said + (first + chip(self@, last as int, damage).1) =~= answers@
                            + chip(self@, last as int, damage).1);
                    } else {
                        break ;
                    }
                },
                _ => {
                    break ;
                },
            }
        }
        answers
    }

    /// Heals the bar by `amount` from its left end.
    fn heal(&mut self, amount: Amount) -> (answers: Vec<HealthActionResponse>)
        requires
            old(self)@.len() > 0,
            bar_wf(old(self)@),
            amount > 0,
        ensures
            (final(self)@, answers@) == heal(old(self)@, 0, amount),
            bar_wf(final(self)@),
    {
        let mut answers: Vec<HealthActionResponse> = Vec::new();
        let mut first: usize = 0;
        let mut restoration: Amount = amount;
        let ghost goal = heal(self@, 0, amount);
        assert(answers@ + goal.1 =~= goal.1);
        loop
            invariant_except_break
                first < self@.len(),
                restoration > 0,
                bar_wf(self@),
                goal == (
                    heal(self@, first as int, restoration).0,
                    answers@ + heal(self@, first as int, restoration).1,
                ),
            ensures
                (self@, answers@) == goal,
                bar_wf(self@),
            decreases self@.len() - first,
        {
            let ghost said = answers@;
            let reaction = self.act(first, HealthAction::Heal(restoration));
            answers.push(HealthActionResponse::from((&reaction, first)));
            let ghost head = seq![at_index(reaction, first)];
            assert(answers@ =~= said + head);
            assert(self.hit_dice@.len() == self@.len());
            match reaction {
                HitDieActionResponse::HealResponse(rest) => {
                    if rest > 0 && first < self.hit_dice.len() - 1 {
                        restoration = rest;
                        first += 1;
                        assert(said + (head + heal(self@, first as int, restoration).1)
                            =~= answers@ + heal(self@, first as int, restoration).1);
                    } else {
                        break ;
                    }
                },
                _ => {
                    break ;
                },
            }
        }
        answers
    }
}

impl React<HealthAction, Vec<HealthActionResponse>> for Health {
    open spec fn admits(&self, action: HealthAction) -> bool {
        bar_admits(self@, action)
    }

    fn execute(&mut self, action: HealthAction) -> (responses: Vec<HealthActionResponse>)
        ensures
            (final(self)@, responses@) == resolve(old(self)@, action),
            bar_wf(final(self)@),
    {
        if self.hit_dice.is_empty() && !matches!(action, HealthAction::Create(_)) {
            return vec![HealthActionResponse::NoResponse];
        }
        match action {
            HealthAction::Create(size) if size > 0 => {
                self.hit_dice.push(HitDie::new(size as u32));
                assert(self@ =~= old(self)@.push(Die::fresh(size as int)));
                vec![HealthActionResponse::CreateResponse(self.hit_dice.len() - 1)]
            },
            HealthAction::AddStatus(_) | HealthAction::RemoveStatus(_) => {
                let last: usize = self.hit_dice.len() - 1;
                self.act(last, action);
                vec![HealthActionResponse::NoResponse]
            },
            HealthAction::Chip(damage) if damage > 0 => self.chip(damage),
            HealthAction::Heal(restoration) if restoration > 0 => self.heal(restoration),
            HealthAction::Drain => match self.rightmost_without(&HitDieStatus::Empty) {
                Some(at) => {
                    let answer = self.act(at, action);
                    vec![HealthActionResponse::from((&answer, at))]
                },
                None => vec![HealthActionResponse::NoResponse],
            },
            HealthAction::Break => match self.rightmost_without(&HitDieStatus::Void) {
                Some(at) => {
                    let answer = self.act(at, action);
                    vec![HealthActionResponse::from((&answer, at))]
                },
                None => vec![HealthActionResponse::NoResponse],
            },
            HealthAction::Fortify(_) => {
                let last: usize = self.hit_dice.len() - 1;
                let answer = self.act(last, action);
                vec![HealthActionResponse::from((&answer, last))]
            },
            HealthAction::Mend => match self.leftmost_with(&HitDieStatus::Void) {
                Some(at) => {
                    self.act(at, action);
                    vec![HealthActionResponse::MendResponse(at)]
                },
                None => vec![HealthActionResponse::NoResponse],
            },
            HealthAction::Shatter => {
                self.hit_dice.pop();
                assert(self@ =~= old(self)@.drop_last());
                vec![HealthActionResponse::ShatterResponse(self.hit_dice.len())]
            },
            _ => vec![],
        }
    }
}

} // verus!
