//! Value traits for gauges and histograms, and the atomic cells backing
//! them.
//!
//! All atomic cells are shared between clones of a metric; nothing is
//! therefore promised about the stored value, only about the conversions
//! applied to values read and written.

use vstd::prelude::*;

use std::sync::atomic::{AtomicI64, AtomicIsize, AtomicU64, AtomicUsize, Ordering};

use crate::text::FIXED_SCALE;

verus! {

/// Thin wrapper around an atomic `u64` cell.
#[derive(Debug, Default)]
pub struct AtomicU64Wrapper(pub AtomicU64);

impl AtomicU64Wrapper {
    pub fn new(value: u64) -> Self {
        AtomicU64Wrapper(AtomicU64::new(value))
    }

    pub fn inc(&self) -> u64 {
        self.inc_by(1)
    }

    pub fn inc_by(&self, v: u64) -> u64 {
        self.0.fetch_add(v, Ordering::Relaxed)
    }

    pub fn dec(&self) -> u64
        opens_invariants none
        no_unwind
    {
        self.dec_by(1)
    }

    /// Relies on AtomicU64::fetch_sub: atomically subtracts, wrapping
    /// around on overflow; never unwinds.
    #[verifier::external_body]
    pub fn dec_by(&self, v: u64) -> u64
        opens_invariants none
        no_unwind
    {
        self.0.fetch_sub(v, Ordering::Relaxed)
    }

    pub fn set(&self, v: u64) -> u64 {
        self.0.swap(v, Ordering::Relaxed)
    }

    pub fn get(&self) -> u64 {
        self.0.load(Ordering::Relaxed)
    }
}

/// Thin wrapper around an atomic `usize` cell.
#[derive(Debug, Default)]
pub struct AtomicUsizeWrapper(pub AtomicUsize);

impl AtomicUsizeWrapper {
    pub fn new(value: usize) -> Self {
        AtomicUsizeWrapper(AtomicUsize::new(value))
    }

    pub fn inc_by(&self, v: usize) -> usize {
        self.0.fetch_add(v, Ordering::Relaxed)
    }

    /// Relies on AtomicUsize::fetch_sub: atomically subtracts, wrapping
    /// around on overflow; never unwinds.
    #[verifier::external_body]
    pub fn dec_by(&self, v: usize) -> usize
        opens_invariants none
        no_unwind
    {
        self.0.fetch_sub(v, Ordering::Relaxed)
    }

    pub fn set(&self, v: usize) -> usize {
        self.0.swap(v, Ordering::Relaxed)
    }

    pub fn get(&self) -> usize {
        self.0.load(Ordering::Relaxed)
    }
}

/// Thin wrapper around an atomic `isize` cell.
#[derive(Debug, Default)]
pub struct AtomicIsizeWrapper(pub AtomicIsize);

impl AtomicIsizeWrapper {
    pub fn new(value: isize) -> Self {
        AtomicIsizeWrapper(AtomicIsize::new(value))
    }

    pub fn inc_by(&self, v: isize) -> isize {
        self.0.fetch_add(v, Ordering::Relaxed)
    }

    /// Relies on AtomicIsize::fetch_sub: atomically subtracts, wrapping
    /// around on overflow; never unwinds.
    #[verifier::external_body]
    pub fn dec_by(&self, v: isize) -> isize
        opens_invariants none
        no_unwind
    {
        self.0.fetch_sub(v, Ordering::Relaxed)
    }

    pub fn set(&self, v: isize) -> isize {
        self.0.swap(v, Ordering::Relaxed)
    }

    pub fn get(&self) -> isize {
        self.0.load(Ordering::Relaxed)
    }
}

/// Thin wrapper around an atomic `i64` cell.
#[derive(Debug, Default)]
pub struct AtomicI64Wrapper(pub AtomicI64);

impl AtomicI64Wrapper {
    pub fn new(value: i64) -> Self {
        AtomicI64Wrapper(AtomicI64::new(value))
    }

    pub fn inc_by(&self, v: i64) -> i64 {
        self.0.fetch_add(v, Ordering::Relaxed)
    }

    /// Relies on AtomicI64::fetch_sub: atomically subtracts, wrapping
    /// around on overflow; never unwinds.
    #[verifier::external_body]
    pub fn dec_by(&self, v: i64) -> i64
        opens_invariants none
        no_unwind
    {
        self.0.fetch_sub(v, Ordering::Relaxed)
    }

    pub fn set(&self, v: i64) -> i64 {
        self.0.swap(v, Ordering::Relaxed)
    }

    pub fn get(&self) -> i64 {
        self.0.load(Ordering::Relaxed)
    }
}

/// The pending decrement of a gauge guard, with its cell's concrete
/// type made explicit so that dropping the guard needs no dispatch
/// through a trait.
pub enum GuardCell {
    U64(std::sync::Arc<AtomicU64Wrapper>, u64),
    I64(std::sync::Arc<AtomicI64Wrapper>, i64),
    Usize(std::sync::Arc<AtomicUsizeWrapper>, usize),
    Isize(std::sync::Arc<AtomicIsizeWrapper>, isize),
}

impl GuardCell {
    /// Applies the pending decrement.
    pub fn decrement(&self)
        opens_invariants none
        no_unwind
    {
        match self {
            GuardCell::U64(cell, v) => {
                cell.dec_by(*v);
            },
            GuardCell::I64(cell, v) => {
                cell.dec_by(*v);
            },
            GuardCell::Usize(cell, v) => {
                cell.dec_by(*v);
            },
            GuardCell::Isize(cell, v) => {
                cell.dec_by(*v);
            },
        }
    }
}

/// Value of a gauge: a signed or unsigned machine integer with an atomic
/// store and a signed encoding. Unsigned values above `i64::MAX` are
/// clamped when encoded.
pub trait GaugeValue: Copy + Send + Sync + 'static {
    type Atomic: Send + Sync + 'static;

    fn new_atomic() -> Self::Atomic;

    /// Packs a shared cell and a pending decrement for a gauge guard.
    fn guard_parts(cell: &std::sync::Arc<Self::Atomic>, v: Self) -> GuardCell;

    fn atomic_inc_by(cell: &Self::Atomic, v: Self) -> Self;

    fn atomic_dec_by(cell: &Self::Atomic, v: Self) -> Self;

    fn atomic_set(cell: &Self::Atomic, v: Self) -> Self;

    fn atomic_get(cell: &Self::Atomic) -> Self;

    /// The value as reported in the exposition text.
    fn encode_gauge(self) -> i64;
}

impl GaugeValue for i64 {
    type Atomic = AtomicI64Wrapper;

    fn new_atomic() -> Self::Atomic {
        AtomicI64Wrapper::new(0)
    }

    fn guard_parts(cell: &std::sync::Arc<Self::Atomic>, v: Self) -> GuardCell {
        GuardCell::I64(std::sync::Arc::clone(cell), v)
    }

    fn atomic_inc_by(cell: &Self::Atomic, v: Self) -> Self {
        cell.inc_by(v)
    }

    fn atomic_dec_by(cell: &Self::Atomic, v: Self) -> Self {
        cell.dec_by(v)
    }

    fn atomic_set(cell: &Self::Atomic, v: Self) -> Self {
        cell.set(v)
    }

    fn atomic_get(cell: &Self::Atomic) -> Self {
        cell.get()
    }

    fn encode_gauge(self) -> (r: i64)
        ensures
            r == self,
    {
        self
    }
}

impl GaugeValue for u64 {
    type Atomic = AtomicU64Wrapper;

    fn new_atomic() -> Self::Atomic {
        AtomicU64Wrapper::new(0)
    }

    fn guard_parts(cell: &std::sync::Arc<Self::Atomic>, v: Self) -> GuardCell {
        GuardCell::U64(std::sync::Arc::clone(cell), v)
    }

    fn atomic_inc_by(cell: &Self::Atomic, v: Self) -> Self {
        cell.inc_by(v)
    }

    fn atomic_dec_by(cell: &Self::Atomic, v: Self) -> Self {
        cell.dec_by(v)
    }

    fn atomic_set(cell: &Self::Atomic, v: Self) -> Self {
        cell.set(v)
    }

    fn atomic_get(cell: &Self::Atomic) -> Self {
        cell.get()
    }

    fn encode_gauge(self) -> (r: i64)
        ensures
            r == if self <= i64::MAX as u64 {
                self as int
            } else {
                i64::MAX as int
            },
    {
        if self <= i64::MAX as u64 {
            self as i64
        } else {
            i64::MAX
        }
    }
}

impl GaugeValue for usize {
    type Atomic = AtomicUsizeWrapper;

    fn new_atomic() -> Self::Atomic {
        AtomicUsizeWrapper::new(0)
    }

    fn guard_parts(cell: &std::sync::Arc<Self::Atomic>, v: Self) -> GuardCell {
        GuardCell::Usize(std::sync::Arc::clone(cell), v)
    }

    fn atomic_inc_by(cell: &Self::Atomic, v: Self) -> Self {
        cell.inc_by(v)
    }

    fn atomic_dec_by(cell: &Self::Atomic, v: Self) -> Self {
        cell.dec_by(v)
    }

    fn atomic_set(cell: &Self::Atomic, v: Self) -> Self {
        cell.set(v)
    }

    fn atomic_get(cell: &Self::Atomic) -> Self {
        cell.get()
    }

    fn encode_gauge(self) -> (r: i64)
        ensures
            r == if self <= i64::MAX as usize {
                self as int
            } else {
                i64::MAX as int
            },
    {
        if self <= i64::MAX as usize {
            self as i64
        } else {
            i64::MAX
        }
    }
}

impl GaugeValue for isize {
    type Atomic = AtomicIsizeWrapper;

    fn new_atomic() -> Self::Atomic {
        AtomicIsizeWrapper::new(0)
    }

    fn guard_parts(cell: &std::sync::Arc<Self::Atomic>, v: Self) -> GuardCell {
        GuardCell::Isize(std::sync::Arc::clone(cell), v)
    }

    fn atomic_inc_by(cell: &Self::Atomic, v: Self) -> Self {
        cell.inc_by(v)
    }

    fn atomic_dec_by(cell: &Self::Atomic, v: Self) -> Self {
        cell.dec_by(v)
    }

    fn atomic_set(cell: &Self::Atomic, v: Self) -> Self {
        cell.set(v)
    }

    fn atomic_get(cell: &Self::Atomic) -> Self {
        cell.get()
    }

    fn encode_gauge(self) -> (r: i64)
        ensures
            r == self as int,
    {
        self as i64
    }
}

/// Value of a histogram observation: converted to a non-negative
/// fixed-point number (scaled by [`FIXED_SCALE`]) before bucketing.
pub trait HistogramValue: Copy + Send + Sync + 'static {
    fn encode_scaled(&self) -> (r: i128)
        ensures
            r >= 0,
    ;
}

impl HistogramValue for u64 {
    fn encode_scaled(&self) -> (r: i128)
        ensures
            r >= 0,
            r == (*self as int) * (FIXED_SCALE as int),
    {
        proof {
            assert((*self as int) * (FIXED_SCALE as int) >= 0) by (nonlinear_arith);
            assert((*self as int) * (FIXED_SCALE as int) <= (u64::MAX as int) * (
            FIXED_SCALE as int)) by (nonlinear_arith);
        }
        (*self as i128) * (FIXED_SCALE as i128)
    }
}

impl HistogramValue for usize {
    fn encode_scaled(&self) -> (r: i128)
        ensures
            r >= 0,
            r == (*self as int) * (FIXED_SCALE as int),
    {
        proof {
            assert((*self as int) * (FIXED_SCALE as int) >= 0) by (nonlinear_arith);
            assert((*self as int) * (FIXED_SCALE as int) <= (u64::MAX as int) * (
            FIXED_SCALE as int)) by (nonlinear_arith)
                requires
                    *self <= u64::MAX,
            ;
        }
        (*self as i128) * (FIXED_SCALE as i128)
    }
}

/// Relies on Duration::as_nanos: the total nanosecond count of the
/// duration.
#[verifier::external_body]
fn duration_as_nanos(d: &std::time::Duration) -> u128 {
    d.as_nanos()
}

impl HistogramValue for std::time::Duration {
    /// A duration counts as its number of seconds; its nanosecond count
    /// is therefore already in fixed-point form.
    fn encode_scaled(&self) -> (r: i128)
        ensures
            r >= 0,
    {
        let nanos = duration_as_nanos(self);
        if nanos > i128::MAX as u128 {
            i128::MAX
        } else {
            nanos as i128
        }
    }
}

} // verus!
