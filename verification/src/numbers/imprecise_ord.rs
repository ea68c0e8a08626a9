//! A total, deterministic ordering over imprecise numeric slots, used only
//! to sort search results.  Slots order by their numeric component first and
//! by the shape of their comparator second, and an absent slot sorts below
//! every present one.
use vstd::prelude::*;
use super::{Comparison, ImpreciseOrd, MaybeImprecise, MaybeVar};
use core::cmp::Ordering;

verus! {

/// Tie-break rank of a comparator shape, from the most downward-looking to
/// the most open-ended.  A precise value ranks with `Equal`.
pub open spec fn comparison_rank(c: Comparison) -> int {
    match c {
        Comparison::LowerThan(_) => 0,
        Comparison::LowerThanOrEqual(_) => 1,
        Comparison::Equal(_) => 2,
        Comparison::GreaterThanOrEqual(_) => 3,
        Comparison::GreaterThan(_) => 4,
        Comparison::NotEqual(_) => 5,
    }
}

/// The sort key of a slot: its numeric component, then its shape rank.
pub open spec fn slot_key(m: MaybeImprecise) -> (int, int) {
    match m {
        MaybeImprecise::Precise(v) => (v.spec_assumed() as int, 2),
        MaybeImprecise::Imprecise(c) => (c.spec_bound() as int, comparison_rank(c)),
    }
}

/// Lexicographic comparison of two sort keys.
pub open spec fn key_cmp(a: (int, int), b: (int, int)) -> Ordering {
    if a.0 < b.0 {
        Ordering::Less
    } else if a.0 > b.0 {
        Ordering::Greater
    } else if a.1 < b.1 {
        Ordering::Less
    } else if a.1 > b.1 {
        Ordering::Greater
    } else {
        Ordering::Equal
    }
}

fn cmp_usize(a: usize, b: usize) -> (r: Ordering)
    ensures
        a < b ==> r == Ordering::Less,
        a > b ==> r == Ordering::Greater,
        a == b ==> r == Ordering::Equal,
{
    if a < b {
        Ordering::Less
    } else if a > b {
        Ordering::Greater
    } else {
        Ordering::Equal
    }
}

fn cmp_keys(n_a: usize, r_a: usize, n_b: usize, r_b: usize) -> (r: Ordering)
    ensures
        r == key_cmp((n_a as int, r_a as int), (n_b as int, r_b as int)),
{
    if n_a < n_b {
        Ordering::Less
    } else if n_a > n_b {
        Ordering::Greater
    } else {
        cmp_usize(r_a, r_b)
    }
}

impl Comparison {
    /// The exec mirrors of `spec_bound` and `comparison_rank`.
    pub fn bound(&self) -> (r: usize)
        ensures
            r == self.spec_bound(),
    {
        match self {
            Comparison::GreaterThan(x) => *x,
            Comparison::GreaterThanOrEqual(x) => *x,
            Comparison::LowerThanOrEqual(x) => *x,
            Comparison::Equal(x) => *x,
            Comparison::LowerThan(x) => *x,
            Comparison::NotEqual(x) => *x,
        }
    }

    pub fn rank(&self) -> (r: usize)
        ensures
            r as int == comparison_rank(*self),
    {
        match self {
            Comparison::LowerThan(_) => 0,
            Comparison::LowerThanOrEqual(_) => 1,
            Comparison::Equal(_) => 2,
            Comparison::GreaterThanOrEqual(_) => 3,
            Comparison::GreaterThan(_) => 4,
            Comparison::NotEqual(_) => 5,
        }
    }
}

impl ImpreciseOrd<Comparison> for Comparison {
    open spec fn spec_imprecise_cmp(&self, other: &Comparison) -> Ordering {
        key_cmp(
            slot_key(MaybeImprecise::Imprecise(*self)),
            slot_key(MaybeImprecise::Imprecise(*other)),
        )
    }

    fn imprecise_cmp(&self, other: &Comparison) -> (r: Ordering) {
        cmp_keys(self.bound(), self.rank(), other.bound(), other.rank())
    }
}

impl ImpreciseOrd<MaybeVar> for MaybeVar {
    open spec fn spec_imprecise_cmp(&self, other: &MaybeVar) -> Ordering {
        key_cmp((self.spec_assumed() as int, 2), (other.spec_assumed() as int, 2))
    }

    fn imprecise_cmp(&self, other: &MaybeVar) -> (r: Ordering) {
        cmp_usize(self.assumed(), other.assumed())
    }
}

impl ImpreciseOrd<MaybeVar> for Comparison {
    open spec fn spec_imprecise_cmp(&self, other: &MaybeVar) -> Ordering {
        key_cmp(
            slot_key(MaybeImprecise::Imprecise(*self)),
            (other.spec_assumed() as int, 2),
        )
    }

    fn imprecise_cmp(&self, other: &MaybeVar) -> (r: Ordering) {
        cmp_keys(self.bound(), self.rank(), other.assumed(), 2)
    }
}

impl ImpreciseOrd<Comparison> for MaybeVar {
    open spec fn spec_imprecise_cmp(&self, other: &Comparison) -> Ordering {
        key_cmp(
            (self.spec_assumed() as int, 2),
            slot_key(MaybeImprecise::Imprecise(*other)),
        )
    }

    fn imprecise_cmp(&self, other: &Comparison) -> (r: Ordering) {
        cmp_keys(self.assumed(), 2, other.bound(), other.rank())
    }
}

impl ImpreciseOrd<MaybeImprecise> for MaybeImprecise {
    open spec fn spec_imprecise_cmp(&self, other: &MaybeImprecise) -> Ordering {
        key_cmp(slot_key(*self), slot_key(*other))
    }

    fn imprecise_cmp(&self, other: &MaybeImprecise) -> (r: Ordering) {
        let (n_a, r_a) = match self {
            MaybeImprecise::Precise(v) => (v.assumed(), 2usize),
            MaybeImprecise::Imprecise(c) => (c.bound(), c.rank()),
        };
        let (n_b, r_b) = match other {
            MaybeImprecise::Precise(v) => (v.assumed(), 2usize),
            MaybeImprecise::Imprecise(c) => (c.bound(), c.rank()),
        };
        cmp_keys(n_a, r_a, n_b, r_b)
    }
}

impl ImpreciseOrd<Comparison> for MaybeImprecise {
    open spec fn spec_imprecise_cmp(&self, other: &Comparison) -> Ordering {
        key_cmp(slot_key(*self), slot_key(MaybeImprecise::Imprecise(*other)))
    }

    fn imprecise_cmp(&self, other: &Comparison) -> (r: Ordering) {
        self.imprecise_cmp(&MaybeImprecise::Imprecise(*other))
    }
}

impl ImpreciseOrd<MaybeImprecise> for Comparison {
    open spec fn spec_imprecise_cmp(&self, other: &MaybeImprecise) -> Ordering {
        key_cmp(slot_key(MaybeImprecise::Imprecise(*self)), slot_key(*other))
    }

    fn imprecise_cmp(&self, other: &MaybeImprecise) -> (r: Ordering) {
        MaybeImprecise::Imprecise(*self).imprecise_cmp(other)
    }
}

impl<T: ImpreciseOrd<T>> ImpreciseOrd<Option<T>> for Option<T> {
    open spec fn spec_imprecise_cmp(&self, other: &Option<T>) -> Ordering {
        match (self, other) {
            (Some(x), Some(y)) => x.spec_imprecise_cmp(y),
            (Some(_), None) => Ordering::Greater,
            (None, Some(_)) => Ordering::Less,
            (None, None) => Ordering::Equal,
        }
    }

    fn imprecise_cmp(&self, other: &Option<T>) -> (r: Ordering) {
        match (self, other) {
            (Some(x), Some(y)) => x.imprecise_cmp(y),
            (Some(_), None) => Ordering::Greater,
            (None, Some(_)) => Ordering::Less,
            (None, None) => Ordering::Equal,
        }
    }
}

} // verus!
