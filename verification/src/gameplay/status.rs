//! The statuses of one hit die, kept by kind.

use vstd::prelude::*;
use vstd::std_specs::iter::IteratorSpec;
use super::health::HitDieStatus;
use super::{Amount, Time};

verus! {

/// The statuses a hit die carries: for each kind of status whether it is
/// present, and with which payload. A die never carries two statuses of one
/// kind.
#[derive(Clone, Copy, Debug, PartialEq, Eq)]
pub struct StatusSet {
    pub void: bool,
    pub empty: bool,
    pub grafted: bool,
    pub temporary: bool,
    pub guarded: bool,
    pub fortified: Option<Amount>,
    pub stifled: Option<Time>,
    pub cracked: Option<Time>,
    pub mending: Option<Time>,
}

/// A status that may be absent, as a sequence of at most one status.
pub open spec fn listed(tag: Option<HitDieStatus>) -> Seq<HitDieStatus> {
    match tag {
        Some(t) => seq![t],
        None => Seq::empty(),
    }
}

/// Adds a status to a list, if there is one to add.
fn list(tags: &mut Vec<HitDieStatus>, tag: Option<HitDieStatus>)
    ensures
        final(tags)@ == old(tags)@ + listed(tag),
{
    if let Some(t) = tag {
        tags.push(t);
    }
    assert(tags@ =~= old(tags)@ + listed(tag));
}

/// The status that each kind of a set lists, if the set has one of the
/// kind.
pub open spec fn slots(set: StatusSet) -> Seq<Option<HitDieStatus>> {
    seq![
        if set.void { Some(HitDieStatus::Void) } else { None },
        if set.empty { Some(HitDieStatus::Empty) } else { None },
        if set.grafted { Some(HitDieStatus::Grafted) } else { None },
        if set.temporary { Some(HitDieStatus::Temporary) } else { None },
        if set.guarded { Some(HitDieStatus::Guarded) } else { None },
        match set.fortified {
            Some(n) => Some(HitDieStatus::Fortified(n)),
            None => None,
        },
        match set.stifled {
            Some(t) => Some(HitDieStatus::Stifled(t)),
            None => None,
        },
        match set.cracked {
            Some(t) => Some(HitDieStatus::Cracked(t)),
            None => None,
        },
        match set.mending {
            Some(t) => Some(HitDieStatus::Mending(t)),
            None => None,
        },
    ]
}

/// The statuses that the first `n` of a list of slots hold, in order.
pub open spec fn filled(slots: Seq<Option<HitDieStatus>>, n: int) -> Seq<HitDieStatus>
    decreases n,
{
    if n <= 0 {
        Seq::empty()
    } else {
        filled(slots, n - 1) + listed(slots[n - 1])
    }
}

impl StatusSet {
    /// The set without any status.
    pub open spec fn none() -> StatusSet {
        StatusSet {
            void: false,
            empty: false,
            grafted: false,
            temporary: false,
            guarded: false,
            fortified: None,
            stifled: None,
            cracked: None,
            mending: None,
        }
    }

    /// Whether exactly this status, payload included, is present.
    pub open spec fn has(self, tag: HitDieStatus) -> bool {
        match tag {
            HitDieStatus::Void => self.void,
            HitDieStatus::Empty => self.empty,
            HitDieStatus::Grafted => self.grafted,
            HitDieStatus::Temporary => self.temporary,
            HitDieStatus::Guarded => self.guarded,
            HitDieStatus::Fortified(n) => self.fortified == Some(n),
            HitDieStatus::Stifled(t) => self.stifled == Some(t),
            HitDieStatus::Cracked(t) => self.cracked == Some(t),
            HitDieStatus::Mending(t) => self.mending == Some(t),
        }
    }

    /// The set with `tag` present. A status of the same kind that was there
    /// with another payload gives way to it.
    pub open spec fn with(self, tag: HitDieStatus) -> StatusSet {
        match tag {
            HitDieStatus::Void => StatusSet { void: true, ..self },
            HitDieStatus::Empty => StatusSet { empty: true, ..self },
            HitDieStatus::Grafted => StatusSet { grafted: true, ..self },
            HitDieStatus::Temporary => StatusSet { temporary: true, ..self },
            HitDieStatus::Guarded => StatusSet { guarded: true, ..self },
            HitDieStatus::Fortified(n) => StatusSet { fortified: Some(n), ..self },
            HitDieStatus::Stifled(t) => StatusSet { stifled: Some(t), ..self },
            HitDieStatus::Cracked(t) => StatusSet { cracked: Some(t), ..self },
            HitDieStatus::Mending(t) => StatusSet { mending: Some(t), ..self },
        }
    }

    /// The set with `tag` absent. A status of the same kind with another
    /// payload stays.
    pub open spec fn without(self, tag: HitDieStatus) -> StatusSet {
        if !self.has(tag) {
            self
        } else {
            match tag {
                HitDieStatus::Void => StatusSet { void: false, ..self },
                HitDieStatus::Empty => StatusSet { empty: false, ..self },
                HitDieStatus::Grafted => StatusSet { grafted: false, ..self },
                HitDieStatus::Temporary => StatusSet { temporary: false, ..self },
                HitDieStatus::Guarded => StatusSet { guarded: false, ..self },
                HitDieStatus::Fortified(_) => StatusSet { fortified: None, ..self },
                HitDieStatus::Stifled(_) => StatusSet { stifled: None, ..self },
                HitDieStatus::Cracked(_) => StatusSet { cracked: None, ..self },
                HitDieStatus::Mending(_) => StatusSet { mending: None, ..self },
            }
        }
    }

    /// The statuses present, in the order in which the kinds are declared.
    pub open spec fn tags(self) -> Seq<HitDieStatus> {
        filled(slots(self), 9)
    }

    /// A set without any status.
    pub fn new() -> (s: StatusSet)
        ensures
            s == StatusSet::none(),
    {
        StatusSet {
            void: false,
            empty: false,
            grafted: false,
            temporary: false,
            guarded: false,
            fortified: None,
            stifled: None,
            cracked: None,
            mending: None,
        }
    }

    /// Whether exactly this status, payload included, is present.
    pub fn contains(&self, tag: &HitDieStatus) -> (found: bool)
        ensures
            found == self.has(*tag),
    {
        match *tag {
            HitDieStatus::Void => self.void,
            HitDieStatus::Empty => self.empty,
            HitDieStatus::Grafted => self.grafted,
            HitDieStatus::Temporary => self.temporary,
            HitDieStatus::Guarded => self.guarded,
            HitDieStatus::Fortified(n) => match self.fortified {
                Some(m) => m == n,
                None => false,
            },
            HitDieStatus::Stifled(t) => match self.stifled {
                Some(u) => u == t,
                None => false,
            },
            HitDieStatus::Cracked(t) => match self.cracked {
                Some(u) => u == t,
                None => false,
            },
            HitDieStatus::Mending(t) => match self.mending {
                Some(u) => u == t,
                None => false,
            },
        }
    }

    /// Makes `tag` present and says whether it was absent before.
    pub fn insert(&mut self, tag: HitDieStatus) -> (fresh: bool)
        ensures
            *final(self) == old(self).with(tag),
            fresh == !old(self).has(tag),
    {
        let fresh = !self.contains(&tag);
        match tag {
            HitDieStatus::Void => {
                self.void = true;
            },
            HitDieStatus::Empty => {
                self.empty = true;
            },
            HitDieStatus::Grafted => {
                self.grafted = true;
            },
            HitDieStatus::Temporary => {
                self.temporary = true;
            },
            HitDieStatus::Guarded => {
                self.guarded = true;
            },
            HitDieStatus::Fortified(n) => {
                self.fortified = Some(n);
            },
            HitDieStatus::Stifled(t) => {
                self.stifled = Some(t);
            },
            HitDieStatus::Cracked(t) => {
                self.cracked = Some(t);
            },
            HitDieStatus::Mending(t) => {
                self.mending = Some(t);
            },
        }
        fresh
    }

    /// Makes `tag` absent and says whether it was present before.
    pub fn remove(&mut self, tag: &HitDieStatus) -> (found: bool)
        ensures
            *final(self) == old(self).without(*tag),
            found == old(self).has(*tag),
    {
        let found = self.contains(tag);
        if found {
            match *tag {
                HitDieStatus::Void => {
                    self.void = false;
                },
                HitDieStatus::Empty => {
                    self.empty = false;
                },
                HitDieStatus::Grafted => {
                    self.grafted = false;
                },
                HitDieStatus::Temporary => {
                    self.temporary = false;
                },
                HitDieStatus::Guarded => {
                    self.guarded = false;
                },
                HitDieStatus::Fortified(_) => {
                    self.fortified = None;
                },
                HitDieStatus::Stifled(_) => {
                    self.stifled = None;
                },
                HitDieStatus::Cracked(_) => {
                    self.cracked = None;
                },
                HitDieStatus::Mending(_) => {
                    self.mending = None;
                },
            }
        }
        found
    }

    /// The statuses present, in the order in which the kinds are declared.
    pub fn to_vec(&self) -> (tags: Vec<HitDieStatus>)
        ensures
            tags@ == self.tags(),
    {
        let mut tags: Vec<HitDieStatus> = Vec::new();
        proof {
            reveal_with_fuel(filled, 10);
        }
        assert(tags@ == Seq::<HitDieStatus>::empty());
        list(&mut tags, if self.void { Some(HitDieStatus::Void) } else { None });
        list(&mut tags, if self.empty { Some(HitDieStatus::Empty) } else { None });
        list(&mut tags, if self.grafted { Some(HitDieStatus::Grafted) } else { None });
        list(&mut tags, if self.temporary { Some(HitDieStatus::Temporary) } else { None });
        list(&mut tags, if self.guarded { Some(HitDieStatus::Guarded) } else { None });
        list(
            &mut tags,
            match self.fortified {
                Some(n) => Some(HitDieStatus::Fortified(n)),
                None => None,
            },
        );
        list(
            &mut tags,
            match self.stifled {
                Some(t) => Some(HitDieStatus::Stifled(t)),
                None => None,
            },
        );
        list(
            &mut tags,
            match self.cracked {
                Some(t) => Some(HitDieStatus::Cracked(t)),
                None => None,
            },
        );
        list(
            &mut tags,
            match self.mending {
                Some(t) => Some(HitDieStatus::Mending(t)),
                None => None,
            },
        );
        tags
    }

    /// Whether no status is present.
    pub fn is_empty(&self) -> (none: bool)
        ensures
            none == (*self == StatusSet::none()),
    {
        !self.void && !self.empty && !self.grafted && !self.temporary && !self.guarded
            && self.fortified.is_none() && self.stifled.is_none() && self.cracked.is_none()
            && self.mending.is_none()
    }

    /// An iterator over the statuses present.
    pub fn iter(&self) -> (it: std::vec::IntoIter<HitDieStatus>)
        ensures
            it.remaining() == self.tags(),
            vstd::std_specs::vec::into_iter_elts(it) == self.tags(),
    {
        broadcast use vstd::std_specs::vec::axiom_spec_into_iter;

        self.to_vec().into_iter()
    }
}

/// Two statuses are of one kind: they differ at most in their payload.
pub open spec fn same_kind(a: HitDieStatus, b: HitDieStatus) -> bool {
    match (a, b) {
        (HitDieStatus::Void, HitDieStatus::Void) => true,
        (HitDieStatus::Empty, HitDieStatus::Empty) => true,
        (HitDieStatus::Grafted, HitDieStatus::Grafted) => true,
        (HitDieStatus::Temporary, HitDieStatus::Temporary) => true,
        (HitDieStatus::Guarded, HitDieStatus::Guarded) => true,
        (HitDieStatus::Fortified(_), HitDieStatus::Fortified(_)) => true,
        (HitDieStatus::Stifled(_), HitDieStatus::Stifled(_)) => true,
        (HitDieStatus::Cracked(_), HitDieStatus::Cracked(_)) => true,
        (HitDieStatus::Mending(_), HitDieStatus::Mending(_)) => true,
        _ => false,
    }
}

/// A status set behaves as a set that holds one status of each kind at
/// most: a status that is put in is there, and takes the place of any other
/// of its kind; a status that is taken out is gone; statuses of other kinds
/// are not touched by either.
pub proof fn law_one_status_of_each_kind(set: StatusSet, tag: HitDieStatus, other: HitDieStatus)
    ensures
        set.with(tag).has(tag),
        !set.without(tag).has(tag),
        set.has(tag) && set.has(other) && same_kind(tag, other) ==> tag == other,
        same_kind(tag, other) && tag != other ==> !set.with(tag).has(other),
        same_kind(tag, other) && tag != other ==> set.without(tag).has(other) == set.has(other),
        !same_kind(tag, other) ==> set.with(tag).has(other) == set.has(other),
        !same_kind(tag, other) ==> set.without(tag).has(other) == set.has(other),
        !StatusSet::none().has(tag),
{
}

/// A status is among those that the first `n` slots hold exactly if one of
/// these slots holds it.
proof fn lemma_filled(slots: Seq<Option<HitDieStatus>>, n: int, tag: HitDieStatus)
    requires
        0 <= n <= slots.len(),
    ensures
        filled(slots, n).contains(tag) <==> exists|k: int| 0 <= k < n && slots[k] == Some(tag),
    decreases n,
{
    if n > 0 {
        lemma_filled(slots, n - 1, tag);
        let before = filled(slots, n - 1);
        let joined = before + listed(slots[n - 1]);
        if before.contains(tag) {
            let i = choose|i: int| 0 <= i < before.len() && before[i] == tag;
            assert(joined[i] == tag);
        }
        if slots[n - 1] == Some(tag) {
            assert(joined[before.len() as int] == tag);
        }
        if joined.contains(tag) {
            let i = choose|i: int| 0 <= i < joined.len() && joined[i] == tag;
            if i < before.len() {
                assert(before[i] == tag);
            } else {
                assert(slots[n - 1] == Some(tag));
            }
        }
    }
}

/// A slot holds a status exactly if the set has it.
proof fn lemma_slots_hold_the_statuses(set: StatusSet, tag: HitDieStatus)
    ensures
        set.has(tag) <==> exists|k: int| 0 <= k < 9 && slots(set)[k] == Some(tag),
{
    let slots = slots(set);
    if set.has(tag) {
        let k: int = match tag {
            HitDieStatus::Void => 0,
            HitDieStatus::Empty => 1,
            HitDieStatus::Grafted => 2,
            HitDieStatus::Temporary => 3,
            HitDieStatus::Guarded => 4,
            HitDieStatus::Fortified(_) => 5,
            HitDieStatus::Stifled(_) => 6,
            HitDieStatus::Cracked(_) => 7,
            HitDieStatus::Mending(_) => 8,
        };
        assert(slots[k] == Some(tag));
    }
}

/// The statuses that slots hold are all different if no two slots hold the
/// same status.
proof fn lemma_filled_once(slots: Seq<Option<HitDieStatus>>, n: int)
    requires
        0 <= n <= slots.len(),
        forall|i: int, j: int|
            0 <= i < j < slots.len() && slots[i] is Some ==> slots[i] != slots[j],
    ensures
        filled(slots, n).no_duplicates(),
    decreases n,
{
    if n > 0 {
        lemma_filled_once(slots, n - 1);
        let before = filled(slots, n - 1);
        let joined = before + listed(slots[n - 1]);
        if let Some(tag) = slots[n - 1] {
            lemma_filled(slots, n - 1, tag);
            assert forall|i: int, j: int|
                0 <= i < joined.len() && 0 <= j < joined.len() && i != j implies joined[i]
                != joined[j] by {
                if i < before.len() && j < before.len() {
                } else if i < before.len() {
                    assert(before.contains(before[i]));
                } else {
                    assert(before.contains(before[j]));
                }
            }
        } else {
            assert(joined =~= before);
        }
    }
}

/// A status is listed among the statuses present exactly if it is there,
/// and no status is listed twice.
pub proof fn law_tags_list_the_statuses(set: StatusSet, tag: HitDieStatus)
    ensures
        set.tags().contains(tag) <==> set.has(tag),
        set.tags().no_duplicates(),
{
    lemma_filled(slots(set), 9, tag);
    lemma_slots_hold_the_statuses(set, tag);
    lemma_filled_once(slots(set), 9);
}

} // verus!
