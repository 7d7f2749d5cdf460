//! A bounded pool: a current level between zero and a fixed total.
//!
//! Reducing or adding past a bound clamps the level and reports the part
//! that did not fit as spillover, so that a caller can carry it on to a
//! neighbouring pool.

use vstd::prelude::*;

verus! {

/// The mathematical content of a [`Value`]: its capacity and its level.
pub struct Pool {
    pub total: int,
    pub current: int,
}

impl Pool {
    /// The level lies between zero and the capacity.
    pub open spec fn wf(self) -> bool {
        0 <= self.current <= self.total
    }

    /// A full pool of the given capacity.
    pub open spec fn full(total: int) -> Pool {
        Pool { total, current: total }
    }

    /// The pool after `n` points are taken out, clamped at zero.
    pub open spec fn reduce(self, n: int) -> Pool {
        Pool { total: self.total, current: if n >= self.current { 0 } else { self.current - n } }
    }

    /// The part of a reduction by `n` that the pool cannot absorb.
    pub open spec fn shortfall(self, n: int) -> int {
        if n > self.current {
            n - self.current
        } else {
            0
        }
    }

    /// The room left between the level and the capacity.
    pub open spec fn room(self) -> int {
        self.total - self.current
    }

    /// The pool after `n` points are put in, clamped at the capacity.
    pub open spec fn add(self, n: int) -> Pool {
        Pool { total: self.total, current: if n >= self.room() { self.total } else { self.current + n } }
    }

    /// The part of an addition of `n` that the pool cannot hold.
    pub open spec fn excess(self, n: int) -> int {
        if n > self.room() {
            n - self.room()
        } else {
            0
        }
    }

    /// The pool with its level at zero.
    pub open spec fn empty(self) -> Pool {
        Pool { total: self.total, current: 0 }
    }

    /// The pool with its level at the capacity.
    pub open spec fn reset(self) -> Pool {
        Pool { total: self.total, current: self.total }
    }
}

/// A pool of points with a fixed capacity and a level that only `reduce`,
/// `add`, `empty` and `reset` move.
#[derive(Debug)]
pub struct Value {
    total: i32,
    current: i32,
}

impl View for Value {
    type V = Pool;

    closed spec fn view(&self) -> Pool {
        Pool { total: self.total as int, current: self.current as int }
    }
}

impl Value {
    /// A full pool of capacity `total`.
    pub fn new(total: u32) -> (v: Value)
        requires
            total <= i32::MAX,
        ensures
            v@ == Pool::full(total as int),
            v@.wf(),
    {
        Value { total: total as i32, current: total as i32 }
    }

    /// The capacity.
    pub fn total(&self) -> (t: i32)
        ensures
            t == self@.total,
    {
        self.total
    }

    /// The level.
    pub fn current(&self) -> (c: i32)
        ensures
            c == self@.current,
    {
        self.current
    }

    /// Takes `n` points out. The level stops at zero; what could not be
    /// taken is returned.
    pub fn reduce(&mut self, n: u32) -> (rest: i32)
        requires
            old(self)@.wf(),
            n <= i32::MAX,
        ensures
            final(self)@ == old(self)@.reduce(n as int),
            rest == old(self)@.shortfall(n as int),
            final(self)@.wf(),
    {
        let n: i32 = n as i32;
        if n > self.current {
            let rest: i32 = n - self.current;
            self.current = 0;
            rest
        } else {
            self.current = self.current - n;
            0
        }
    }

    /// Puts `n` points in. The level stops at the capacity; what did not fit
    /// is returned.
    pub fn add(&mut self, n: u32) -> (rest: i32)
        requires
            old(self)@.wf(),
            n <= i32::MAX,
        ensures
            final(self)@ == old(self)@.add(n as int),
            rest == old(self)@.excess(n as int),
            final(self)@.wf(),
    {
        let n: i32 = n as i32;
        let room: i32 = self.total - self.current;
        if n > room {
            self.current = self.total;
            n - room
        } else {
            self.current = self.current + n;
            0
        }
    }

    /// Sets the level to zero. Nothing spills.
    pub fn empty(&mut self)
        ensures
            final(self)@ == old(self)@.empty(),
    {
        self.current = 0;
    }

    /// Sets the level to the capacity.
    pub fn reset(&mut self)
        ensures
            final(self)@ == old(self)@.reset(),
    {
        self.current = self.total;
    }
}

/// Reading a `Value` through `*` gives its level.
impl std::ops::Deref for Value {
    type Target = i32;

    fn deref(&self) -> (level: &i32)
        ensures
            *level == self@.current,
    {
        &self.current
    }
}

} // verus!
