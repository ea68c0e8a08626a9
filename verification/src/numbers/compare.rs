//! The ternary result type and the comparison tables over imprecise numbers.
use vstd::prelude::*;
use super::{Compare, Comparison, MaybeImprecise};

verus! {

/// Whether a record matched a restriction.  This is a ternary value rather
/// than a boolean one, because a record may lack the asked-for property
/// altogether.
#[derive(Debug, Clone, Copy, PartialEq, Eq, Structural)]
pub enum Ternary {
    /// The record did not have the requested property.
    Void,
    /// The record had the requested property and it did not match.
    False,
    /// The record had the requested property and it matched.
    True,
}

/// The position of a ternary value in the total order `Void < False < True`.
pub open spec fn ternary_rank(t: Ternary) -> int {
    match t {
        Ternary::Void => 0,
        Ternary::False => 1,
        Ternary::True => 2,
    }
}

/// Ternary disjunction: the largest of the two values.
pub open spec fn spec_or(a: Ternary, b: Ternary) -> Ternary {
    if ternary_rank(a) >= ternary_rank(b) {
        a
    } else {
        b
    }
}

/// Ternary conjunction: the smallest of the two values.
pub open spec fn spec_and(a: Ternary, b: Ternary) -> Ternary {
    if ternary_rank(a) <= ternary_rank(b) {
        a
    } else {
        b
    }
}

/// The ternary exclusive-or table.
pub open spec fn spec_xor(a: Ternary, b: Ternary) -> Ternary {
    match (a, b) {
        (Ternary::Void, Ternary::Void) => Ternary::Void,
        (Ternary::True, Ternary::True) => Ternary::False,
        (Ternary::True, _) => Ternary::True,
        (_, Ternary::True) => Ternary::True,
        _ => Ternary::False,
    }
}

/// Ternary negation: `Void` is its own opposite.
pub open spec fn spec_not(a: Ternary) -> Ternary {
    match a {
        Ternary::True => Ternary::False,
        Ternary::False => Ternary::True,
        Ternary::Void => Ternary::Void,
    }
}

/// The boolean values lifted into the ternary order.
pub open spec fn spec_from_bool(b: bool) -> Ternary {
    if b {
        Ternary::True
    } else {
        Ternary::False
    }
}

impl Ternary {
    pub fn is_true(self) -> (r: bool)
        ensures
            r == (self == Ternary::True),
    {
        self == Ternary::True
    }

    pub fn is_false(self) -> (r: bool)
        ensures
            r == (self == Ternary::False),
    {
        self == Ternary::False
    }

    pub fn is_void(self) -> (r: bool)
        ensures
            r == (self == Ternary::Void),
    {
        self == Ternary::Void
    }

    /// A ternary OR: the highest-valued of the two results, where `True` is
    /// highest and `Void` is lowest.
    pub fn or(self, b: Self) -> (r: Self)
        ensures
            r == spec_or(self, b),
    {
        match (self, b) {
            (Ternary::True, _) | (_, Ternary::True) => Ternary::True,
            (Ternary::False, _) | (_, Ternary::False) => Ternary::False,
            _ => Ternary::Void,
        }
    }

    /// A ternary XOR.  Two equal boolean values give `False`; two `Void`s
    /// stay `Void`; otherwise the result says whether a `True` was present.
    pub fn xor(self, b: Self) -> (r: Self)
        ensures
            r == spec_xor(self, b),
    {
        match (self, b) {
            (Ternary::Void, Ternary::Void) => Ternary::Void,
            (Ternary::True, Ternary::False | Ternary::Void)
            | (Ternary::False | Ternary::Void, Ternary::True) => Ternary::True,
            (Ternary::False | Ternary::Void, Ternary::False)
            | (Ternary::False, Ternary::Void)
            | (Ternary::True, Ternary::True) => Ternary::False,
        }
    }

    /// A ternary AND: the lowest-valued of the two results, where `True` is
    /// highest and `Void` is lowest.
    pub fn and(self, b: Self) -> (r: Self)
        ensures
            r == spec_and(self, b),
    {
        match (self, b) {
            (Ternary::Void, _) | (_, Ternary::Void) => Ternary::Void,
            (Ternary::False, _) | (_, Ternary::False) => Ternary::False,
            _ => Ternary::True,
        }
    }

    /// Ternary NOT, where `Void` is its own opposite.
    pub fn not(self) -> (r: Self)
        ensures
            r == spec_not(self),
    {
        match self {
            Ternary::True => Ternary::False,
            Ternary::False => Ternary::True,
            Ternary::Void => Ternary::Void,
        }
    }

    /// A boolean lifted into the ternary order.
    pub fn from_bool(value: bool) -> (r: Self)
        ensures
            r == spec_from_bool(value),
    {
        if value {
            Ternary::True
        } else {
            Ternary::False
        }
    }
}

/// Ternary disjunction and exclusive-or do not depend on the order of their
/// operands, and neither does conjunction.
pub proof fn lemma_ternary_commutative(a: Ternary, b: Ternary)
    ensures
        spec_or(a, b) == spec_or(b, a),
        spec_xor(a, b) == spec_xor(b, a),
        spec_and(a, b) == spec_and(b, a),
{
}

/// Ternary conjunction and disjunction are associative, so folding them over
/// a list does not depend on grouping.
pub proof fn lemma_ternary_associative(a: Ternary, b: Ternary, c: Ternary)
    ensures
        spec_and(spec_and(a, b), c) == spec_and(a, spec_and(b, c)),
        spec_or(spec_or(a, b), c) == spec_or(a, spec_or(b, c)),
{
}

impl<T: Compare> Compare for Option<T> {
    open spec fn spec_gt(&self, comparison: usize) -> Ternary {
        match self {
            Some(x) => x.spec_gt(comparison),
            None => Ternary::Void,
        }
    }

    open spec fn spec_gt_eq(&self, comparison: usize) -> Ternary {
        match self {
            Some(x) => x.spec_gt_eq(comparison),
            None => Ternary::Void,
        }
    }

    open spec fn spec_lt(&self, comparison: usize) -> Ternary {
        match self {
            Some(x) => x.spec_lt(comparison),
            None => Ternary::Void,
        }
    }

    open spec fn spec_lt_eq(&self, comparison: usize) -> Ternary {
        match self {
            Some(x) => x.spec_lt_eq(comparison),
            None => Ternary::Void,
        }
    }

    open spec fn spec_eq(&self, comparison: usize) -> Ternary {
        match self {
            Some(x) => x.spec_eq(comparison),
            None => Ternary::Void,
        }
    }

    open spec fn spec_ne(&self, comparison: usize) -> Ternary {
        match self {
            Some(x) => x.spec_ne(comparison),
            None => Ternary::Void,
        }
    }

    fn gt(&self, comparison: usize) -> (r: Ternary) {
        match self {
            Some(x) => x.gt(comparison),
            None => Ternary::Void,
        }
    }

    fn gt_eq(&self, comparison: usize) -> (r: Ternary) {
        match self {
            Some(x) => x.gt_eq(comparison),
            None => Ternary::Void,
        }
    }

    fn lt(&self, comparison: usize) -> (r: Ternary) {
        match self {
            Some(x) => x.lt(comparison),
            None => Ternary::Void,
        }
    }

    fn lt_eq(&self, comparison: usize) -> (r: Ternary) {
        match self {
            Some(x) => x.lt_eq(comparison),
            None => Ternary::Void,
        }
    }

    fn eq(&self, comparison: usize) -> (r: Ternary) {
        match self {
            Some(x) => x.eq(comparison),
            None => Ternary::Void,
        }
    }

    fn ne(&self, comparison: usize) -> (r: Ternary) {
        match self {
            Some(x) => x.ne(comparison),
            None => Ternary::Void,
        }
    }
}

impl Compare for MaybeImprecise {
    open spec fn spec_gt(&self, k: usize) -> Ternary {
        match self {
            MaybeImprecise::Precise(x) => spec_from_bool(x.spec_assumed() > k),
            MaybeImprecise::Imprecise(c) => match c {
                Comparison::GreaterThan(_)
                | Comparison::GreaterThanOrEqual(_)
                | Comparison::NotEqual(_) => Ternary::True,
                Comparison::LowerThan(x) => spec_from_bool((*x as int) > (k as int) + 1),
                Comparison::LowerThanOrEqual(x) | Comparison::Equal(x) => spec_from_bool(*x > k),
            },
        }
    }

    open spec fn spec_gt_eq(&self, k: usize) -> Ternary {
        match self {
            MaybeImprecise::Precise(x) => spec_from_bool(x.spec_assumed() >= k),
            MaybeImprecise::Imprecise(c) => match c {
                Comparison::Equal(x) => spec_from_bool(*x >= k),
                Comparison::GreaterThan(_)
                | Comparison::GreaterThanOrEqual(_)
                | Comparison::NotEqual(_) => Ternary::True,
                Comparison::LowerThan(x) | Comparison::LowerThanOrEqual(x) => spec_from_bool(*x > k),
            },
        }
    }

    open spec fn spec_lt(&self, k: usize) -> Ternary {
        match self {
            MaybeImprecise::Precise(x) => spec_from_bool(x.spec_assumed() < k),
            MaybeImprecise::Imprecise(c) => match c {
                Comparison::GreaterThan(x) => spec_from_bool((*x as int) < (k as int) - 1),
                Comparison::GreaterThanOrEqual(x) | Comparison::Equal(x) => spec_from_bool(*x < k),
                Comparison::LowerThan(_)
                | Comparison::LowerThanOrEqual(_)
                | Comparison::NotEqual(_) => Ternary::True,
            },
        }
    }

    open spec fn spec_lt_eq(&self, k: usize) -> Ternary {
        match self {
            MaybeImprecise::Precise(x) => spec_from_bool(x.spec_assumed() <= k),
            MaybeImprecise::Imprecise(c) => match c {
                Comparison::Equal(x) => spec_from_bool(*x <= k),
                Comparison::GreaterThan(x) | Comparison::GreaterThanOrEqual(x) => spec_from_bool(*x < k),
                Comparison::LowerThan(_)
                | Comparison::LowerThanOrEqual(_)
                | Comparison::NotEqual(_) => Ternary::True,
            },
        }
    }

    open spec fn spec_eq(&self, k: usize) -> Ternary {
        match self {
            MaybeImprecise::Precise(x) => spec_from_bool(k == x.spec_assumed()),
            MaybeImprecise::Imprecise(c) => match c {
                Comparison::Equal(x) => spec_from_bool(k == *x),
                Comparison::GreaterThan(x) => spec_from_bool(k > *x),
                Comparison::GreaterThanOrEqual(x) => spec_from_bool(k >= *x),
                Comparison::LowerThan(x) => spec_from_bool(k < *x),
                Comparison::LowerThanOrEqual(x) => spec_from_bool(k <= *x),
                Comparison::NotEqual(x) => spec_from_bool(k != *x),
            },
        }
    }

    open spec fn spec_ne(&self, k: usize) -> Ternary {
        match self {
            MaybeImprecise::Precise(x) => spec_from_bool(k != x.spec_assumed()),
            MaybeImprecise::Imprecise(c) => match c {
                Comparison::Equal(x) => spec_from_bool(k != *x),
                _ => Ternary::True,
            },
        }
    }

    fn gt(&self, comparison: usize) -> (r: Ternary) {
        match self {
            MaybeImprecise::Precise(x) => Ternary::from_bool(x.assumed() > comparison),
            MaybeImprecise::Imprecise(c) => match c {
                Comparison::GreaterThan(_)
                | Comparison::GreaterThanOrEqual(_)
                | Comparison::NotEqual(_) => Ternary::True,
                Comparison::LowerThan(x) => Ternary::from_bool(
                    comparison < usize::MAX && *x > comparison + 1,
                ),
                Comparison::LowerThanOrEqual(x) | Comparison::Equal(x) => Ternary::from_bool(
                    *x > comparison,
                ),
            },
        }
    }

    fn gt_eq(&self, comparison: usize) -> (r: Ternary) {
        match self {
            MaybeImprecise::Precise(x) => Ternary::from_bool(x.assumed() >= comparison),
            MaybeImprecise::Imprecise(c) => match c {
                Comparison::Equal(x) => Ternary::from_bool(*x >= comparison),
                Comparison::GreaterThan(_)
                | Comparison::GreaterThanOrEqual(_)
                | Comparison::NotEqual(_) => Ternary::True,
                Comparison::LowerThan(x) | Comparison::LowerThanOrEqual(x) => Ternary::from_bool(
                    *x > comparison,
                ),
            },
        }
    }

    fn lt(&self, comparison: usize) -> (r: Ternary) {
        match self {
            MaybeImprecise::Precise(x) => Ternary::from_bool(x.assumed() < comparison),
            MaybeImprecise::Imprecise(c) => match c {
                Comparison::GreaterThan(x) => Ternary::from_bool(
                    comparison > 0 && *x < comparison - 1,
                ),
                Comparison::GreaterThanOrEqual(x) | Comparison::Equal(x) => Ternary::from_bool(
                    *x < comparison,
                ),
                Comparison::LowerThan(_)
                | Comparison::LowerThanOrEqual(_)
                | Comparison::NotEqual(_) => Ternary::True,
            },
        }
    }

    fn lt_eq(&self, comparison: usize) -> (r: Ternary) {
        match self {
            MaybeImprecise::Precise(x) => Ternary::from_bool(x.assumed() <= comparison),
            MaybeImprecise::Imprecise(c) => match c {
                Comparison::Equal(x) => Ternary::from_bool(*x <= comparison),
                Comparison::GreaterThan(x) | Comparison::GreaterThanOrEqual(x) => Ternary::from_bool(
                    *x < comparison,
                ),
                Comparison::LowerThan(_)
                | Comparison::LowerThanOrEqual(_)
                | Comparison::NotEqual(_) => Ternary::True,
            },
        }
    }

    fn eq(&self, comparison: usize) -> (r: Ternary) {
        match self {
            MaybeImprecise::Precise(x) => Ternary::from_bool(comparison == x.assumed()),
            MaybeImprecise::Imprecise(c) => match c {
                Comparison::Equal(x) => Ternary::from_bool(comparison == *x),
                Comparison::GreaterThan(x) => Ternary::from_bool(comparison > *x),
                Comparison::GreaterThanOrEqual(x) => Ternary::from_bool(comparison >= *x),
                Comparison::LowerThan(x) => Ternary::from_bool(comparison < *x),
                Comparison::LowerThanOrEqual(x) => Ternary::from_bool(comparison <= *x),
                Comparison::NotEqual(x) => Ternary::from_bool(comparison != *x),
            },
        }
    }

    fn ne(&self, comparison: usize) -> (r: Ternary) {
        match self {
            MaybeImprecise::Precise(x) => Ternary::from_bool(comparison != x.assumed()),
            MaybeImprecise::Imprecise(c) => match c {
                Comparison::Equal(x) => Ternary::from_bool(comparison != *x),
                _ => Ternary::True,
            },
        }
    }
}

impl Compare for usize {
    open spec fn spec_gt(&self, k: usize) -> Ternary {
        spec_from_bool(*self > k)
    }

    open spec fn spec_gt_eq(&self, k: usize) -> Ternary {
        spec_from_bool(*self >= k)
    }

    open spec fn spec_lt(&self, k: usize) -> Ternary {
        spec_from_bool(*self < k)
    }

    open spec fn spec_lt_eq(&self, k: usize) -> Ternary {
        spec_from_bool(*self <= k)
    }

    open spec fn spec_eq(&self, k: usize) -> Ternary {
        spec_from_bool(*self == k)
    }

    open spec fn spec_ne(&self, k: usize) -> Ternary {
        spec_from_bool(*self != k)
    }

    fn gt(&self, comparison: usize) -> (r: Ternary) {
        Ternary::from_bool(*self > comparison)
    }

    fn gt_eq(&self, comparison: usize) -> (r: Ternary) {
        Ternary::from_bool(*self >= comparison)
    }

    fn lt(&self, comparison: usize) -> (r: Ternary) {
        Ternary::from_bool(*self < comparison)
    }

    fn lt_eq(&self, comparison: usize) -> (r: Ternary) {
        Ternary::from_bool(*self <= comparison)
    }

    fn eq(&self, comparison: usize) -> (r: Ternary) {
        Ternary::from_bool(*self == comparison)
    }

    fn ne(&self, comparison: usize) -> (r: Ternary) {
        Ternary::from_bool(*self != comparison)
    }
}

/// A slot known only as an interval `> m` compares as the table says: it
/// exceeds every bound, and it equals `k` exactly when `k` lies above `m`.
pub proof fn lemma_interval_above(m: usize, k: usize)
    ensures
        MaybeImprecise::Imprecise(Comparison::GreaterThan(m)).spec_gt(k) == Ternary::True,
        MaybeImprecise::Imprecise(Comparison::GreaterThan(m)).spec_eq(k) == spec_from_bool(
            k > m,
        ),
{
}

} // verus!
