//! Numbers that may be a constant, a named variable, or a comparator-shaped
//! interval, together with the ternary comparison semantics over them.
pub mod compare;
pub mod imprecise_ord;

use vstd::prelude::*;
use compare::Ternary;
use core::cmp::Ordering;

verus! {

/// A number that may match a range of values instead of a single one.
#[derive(Debug, Eq, PartialEq, Clone, Copy, Structural)]
pub enum MaybeImprecise {
    Precise(MaybeVar),
    Imprecise(Comparison),
}

/// A number that is either a known constant or a named variable, rendered as
/// a single letter.
#[derive(Debug, Clone, Copy, PartialEq, Eq, Structural)]
pub enum MaybeVar {
    Const(usize),
    Var(char),
}

/// Comparisons to a certain numeric value.
#[derive(Eq, PartialEq, Debug, Clone, Copy, Structural)]
pub enum Comparison {
    GreaterThan(usize),
    GreaterThanOrEqual(usize),
    LowerThanOrEqual(usize),
    Equal(usize),
    LowerThan(usize),
    NotEqual(usize),
}

impl MaybeVar {
    /// The concrete value a slot is taken to hold: a variable counts as zero.
    pub open spec fn spec_assumed(&self) -> usize {
        match self {
            MaybeVar::Const(x) => *x,
            MaybeVar::Var(_) => 0,
        }
    }

    /// When a concrete value is required, a named variable is taken as zero.
    pub fn assumed(&self) -> (r: usize)
        ensures
            r == self.spec_assumed(),
    {
        match self {
            MaybeVar::Const(x) => *x,
            MaybeVar::Var(_) => 0,
        }
    }
}

impl Default for MaybeVar {
    fn default() -> (r: Self)
        ensures
            r == MaybeVar::Const(0usize),
    {
        MaybeVar::Const(0)
    }
}

impl MaybeImprecise {
    /// The comparator this slot stands for: a precise value compares as
    /// equality against its concrete value.
    pub open spec fn spec_as_comparison(&self) -> Comparison {
        match self {
            MaybeImprecise::Precise(x) => Comparison::Equal(x.spec_assumed()),
            MaybeImprecise::Imprecise(x) => *x,
        }
    }

    pub fn as_comparison(&self) -> (r: Comparison)
        ensures
            r == self.spec_as_comparison(),
    {
        match self {
            MaybeImprecise::Precise(x) => Comparison::Equal(x.assumed()),
            MaybeImprecise::Imprecise(x) => *x,
        }
    }
}

impl Default for MaybeImprecise {
    fn default() -> (r: Self)
        ensures
            r == MaybeImprecise::Precise(MaybeVar::Const(0usize)),
    {
        MaybeImprecise::Precise(MaybeVar::Const(0))
    }
}

/// Types whose values can be matched ternarily against a `usize`.
pub trait Compare {
    spec fn spec_gt(&self, k: usize) -> Ternary;

    spec fn spec_gt_eq(&self, k: usize) -> Ternary;

    spec fn spec_lt(&self, k: usize) -> Ternary;

    spec fn spec_lt_eq(&self, k: usize) -> Ternary;

    spec fn spec_eq(&self, k: usize) -> Ternary;

    spec fn spec_ne(&self, k: usize) -> Ternary;

    fn gt(&self, comparison: usize) -> (r: Ternary)
        ensures
            r == self.spec_gt(comparison),
    ;

    fn gt_eq(&self, comparison: usize) -> (r: Ternary)
        ensures
            r == self.spec_gt_eq(comparison),
    ;

    fn lt(&self, comparison: usize) -> (r: Ternary)
        ensures
            r == self.spec_lt(comparison),
    ;

    fn lt_eq(&self, comparison: usize) -> (r: Ternary)
        ensures
            r == self.spec_lt_eq(comparison),
    ;

    fn eq(&self, comparison: usize) -> (r: Ternary)
        ensures
            r == self.spec_eq(comparison),
    ;

    fn ne(&self, comparison: usize) -> (r: Ternary)
        ensures
            r == self.spec_ne(comparison),
    ;
}

/// An ordering that works over ranges, used only for sorting search results.
/// It does not come with a notion of equality: two slots may compare equal
/// here while being different values.
pub trait ImpreciseOrd<Other> {
    spec fn spec_imprecise_cmp(&self, other: &Other) -> Ordering;

    fn imprecise_cmp(&self, other: &Other) -> (r: Ordering)
        ensures
            r == self.spec_imprecise_cmp(other),
    ;
}

impl Comparison {
    /// The number the comparator is shaped around.
    pub open spec fn spec_bound(&self) -> usize {
        match self {
            Comparison::GreaterThan(x) => *x,
            Comparison::GreaterThanOrEqual(x) => *x,
            Comparison::LowerThanOrEqual(x) => *x,
            Comparison::Equal(x) => *x,
            Comparison::LowerThan(x) => *x,
            Comparison::NotEqual(x) => *x,
        }
    }

    /// The ternary answer of holding `a` against this comparator.
    pub open spec fn spec_compare_to<T: Compare>(&self, a: &T) -> Ternary {
        match self {
            Comparison::GreaterThan(x) => a.spec_gt(*x),
            Comparison::Equal(x) => a.spec_eq(*x),
            Comparison::LowerThan(x) => a.spec_lt(*x),
            Comparison::NotEqual(x) => a.spec_ne(*x),
            Comparison::GreaterThanOrEqual(x) => a.spec_gt_eq(*x),
            Comparison::LowerThanOrEqual(x) => a.spec_lt_eq(*x),
        }
    }

    /// Holds `a` against this comparator, ternarily.
    pub fn compare<T: Compare>(&self, a: &T) -> (r: Ternary)
        ensures
            r == self.spec_compare_to(a),
    {
        match self {
            Comparison::GreaterThan(x) => a.gt(*x),
            Comparison::Equal(x) => a.eq(*x),
            Comparison::LowerThan(x) => a.lt(*x),
            Comparison::NotEqual(x) => a.ne(*x),
            Comparison::GreaterThanOrEqual(x) => a.gt_eq(*x),
            Comparison::LowerThanOrEqual(x) => a.lt_eq(*x),
        }
    }
}

/// A decimal digit character.
pub open spec fn digit_char(d: int) -> char {
    (48 + d) as char
}

/// The decimal rendering of a number, most significant digit first.
pub open spec fn spec_render_usize(n: int) -> Seq<char>
    decreases n,
{
    if n < 10 {
        seq![digit_char(if n >= 0 {
            n
        } else {
            0
        })]
    } else {
        spec_render_usize(n / 10).push(digit_char(n % 10))
    }
}

/// The decimal rendering of a number reads back as that number.
pub proof fn lemma_render_usize_value(n: int)
    requires
        n >= 0,
    ensures
        spec_render_usize(n).len() > 0,
        crate::search::query_parser::all_digits(spec_render_usize(n)),
        crate::search::query_parser::digits_val(spec_render_usize(n)) == n,
    decreases n,
{
    if n < 10 {
        let s = spec_render_usize(n);
        assert(s.len() == 1);
        assert(s[0] == digit_char(n));
        assert((digit_char(n) as int) == 48 + n);
        assert(crate::search::query_parser::is_digit(s[0]));
        assert(s.subrange(0, 0) =~= Seq::<char>::empty());
        assert(crate::search::query_parser::digits_val(s)
            == crate::search::query_parser::digits_val(s.subrange(0, 0)) * 10 + ((s[0] as int)
            - 48));
    } else {
        lemma_render_usize_value(n / 10);
        let pre = spec_render_usize(n / 10);
        let s = spec_render_usize(n);
        assert(s == pre.push(digit_char(n % 10)));
        assert(s.subrange(0, s.len() - 1) =~= pre);
        assert((digit_char(n % 10) as int) == 48 + n % 10);
        assert forall|i: int|
            0 <= i < s.len() implies crate::search::query_parser::is_digit(#[trigger] s[i]) by {
            if i < s.len() - 1 {
                assert(s[i] == pre[i]);
            } else {
                assert(s[i] == digit_char(n % 10));
            }
        }
        assert(s[s.len() - 1] == digit_char(n % 10));
        assert(crate::search::query_parser::digits_val(s) == crate::search::query_parser::digits_val(
            pre,
        ) * 10 + ((s[s.len() - 1] as int) - 48));
        assert(n == 10 * (n / 10) + n % 10);
    }
}

/// The decimal rendering of a number.
pub fn render_usize(n: usize) -> (r: String)
    ensures
        r@ == spec_render_usize(n as int),
    decreases n,
{
    if n < 10 {
        let mut s = String::new();
        s.push((48 + (n as u8)) as char);
        proof {
            assert(Seq::<char>::empty().push(digit_char(n as int)) =~= spec_render_usize(
                n as int,
            ));
        }
        s
    } else {
        let mut s = render_usize(n / 10);
        s.push((48 + ((n % 10) as u8)) as char);
        s
    }
}

/// Whether a character counts as a letter, the only characters that may
/// name a variable.  Its value depends on the character alone.
pub uninterp spec fn spec_alphabetic(c: char) -> bool;

/// Relies on `char::is_alphabetic`: whether a character has the alphabetic
/// property is a function of the character alone; ASCII letters have it,
/// and no character below `'A'` (digits, punctuation, spaces) does.
pub assume_specification[ char::is_alphabetic ](c: char) -> (r: bool)
    ensures
        r == spec_alphabetic(c),
        ('a' <= c && c <= 'z') || ('A' <= c && c <= 'Z') ==> r,
        (c as int) < 65 ==> !r,
;

/// A variable named by the first character of a text, when that character
/// is a letter.
pub fn str_as_maybe_var(v: &str) -> (r: Option<MaybeVar>)
    ensures
        r == (if v@.len() > 0 && spec_alphabetic(v@[0]) {
            Some(MaybeVar::Var(v@[0]))
        } else {
            Option::<MaybeVar>::None
        }),
{
    if v.unicode_len() == 0 {
        return None;
    }
    let c = v.get_char(0);
    if c.is_alphabetic() {
        Some(MaybeVar::Var(c))
    } else {
        None
    }
}

/// A constant from a machine number, when it fits the pointer size.
pub fn u64_as_maybe_var(v: u64) -> (r: Result<MaybeVar, crate::search::Errors>)
    ensures
        v <= usize::MAX ==> r == Ok::<MaybeVar, crate::search::Errors>(
            MaybeVar::Const(v as usize),
        ),
        v > usize::MAX ==> r is Err,
{
    if v <= usize::MAX as u64 {
        Ok(MaybeVar::Const(v as usize))
    } else {
        Err(crate::search::Errors::InvalidComparisonString)
    }
}

/// The scalar a numeric slot reads from or writes to at the catalogue
/// boundary: a plain number, or a short text.
#[derive(Debug, PartialEq, Eq)]
pub enum NumericScalar {
    Number(u64),
    Text(String),
}

/// The mathematical form of a numeric scalar.
pub enum NumericScalarV {
    Number(u64),
    Text(Seq<char>),
}

impl View for NumericScalar {
    type V = NumericScalarV;

    open spec fn view(&self) -> NumericScalarV {
        match self {
            NumericScalar::Number(v) => NumericScalarV::Number(*v),
            NumericScalar::Text(t) => NumericScalarV::Text(t@),
        }
    }
}

/// The scalar a slot writes: constants and equality comparators as bare
/// numbers, a variable as its letter, any other comparator as its operator
/// followed by its number.
pub open spec fn spec_slot_to_scalar(m: MaybeImprecise) -> NumericScalarV {
    match m {
        MaybeImprecise::Precise(MaybeVar::Const(x)) => NumericScalarV::Number(x as u64),
        MaybeImprecise::Precise(MaybeVar::Var(c)) => NumericScalarV::Text(seq![c]),
        MaybeImprecise::Imprecise(c) => match c {
            Comparison::Equal(x) => NumericScalarV::Number(x as u64),
            Comparison::GreaterThan(x) => NumericScalarV::Text(
                seq!['>'] + spec_render_usize(x as int),
            ),
            Comparison::GreaterThanOrEqual(x) => NumericScalarV::Text(
                seq!['>', '='] + spec_render_usize(x as int),
            ),
            Comparison::LowerThan(x) => NumericScalarV::Text(
                seq!['<'] + spec_render_usize(x as int),
            ),
            Comparison::LowerThanOrEqual(x) => NumericScalarV::Text(
                seq!['<', '='] + spec_render_usize(x as int),
            ),
            Comparison::NotEqual(x) => NumericScalarV::Text(
                seq!['!', '='] + spec_render_usize(x as int),
            ),
        },
    }
}

/// The slot a scalar reads as: a number becomes a constant, a text is a
/// comparator string or a variable letter.  No comparator string starts
/// with a letter, so the two readings never compete.
pub open spec fn spec_slot_from_scalar(s: NumericScalarV) -> Option<MaybeImprecise> {
    match s {
        NumericScalarV::Number(v) => if v <= usize::MAX {
            Some(MaybeImprecise::Precise(MaybeVar::Const(v as usize)))
        } else {
            None
        },
        NumericScalarV::Text(t) => match crate::search::query_parser::spec_comparison_of(t) {
            Some(c) => Some(MaybeImprecise::Imprecise(c)),
            None => if t.len() > 0 && spec_alphabetic(t[0]) {
                Some(MaybeImprecise::Precise(MaybeVar::Var(t[0])))
            } else {
                None
            },
        },
    }
}

/// Writes a slot in its boundary scalar form.
pub fn maybe_imprecise_to_scalar(m: &MaybeImprecise) -> (r: NumericScalar)
    ensures
        r@ == spec_slot_to_scalar(*m),
{
    match m {
        MaybeImprecise::Precise(MaybeVar::Const(x)) => NumericScalar::Number(*x as u64),
        MaybeImprecise::Precise(MaybeVar::Var(c)) => {
            let mut s = String::new();
            s.push(*c);
            proof {
                assert(Seq::<char>::empty().push(*c) =~= seq![*c]);
            }
            NumericScalar::Text(s)
        },
        MaybeImprecise::Imprecise(c) => match c {
            Comparison::Equal(x) => NumericScalar::Number(*x as u64),
            Comparison::GreaterThan(x) => {
                let mut s = String::new();
                s.push('>');
                let digits = render_usize(*x);
                s.append(digits.as_str());
                proof {
                    assert(Seq::<char>::empty().push('>') =~= seq!['>']);
                }
                NumericScalar::Text(s)
            },
            Comparison::GreaterThanOrEqual(x) => {
                let mut s = String::new();
                s.push('>');
                s.push('=');
                let digits = render_usize(*x);
                s.append(digits.as_str());
                proof {
                    assert(Seq::<char>::empty().push('>').push('=') =~= seq!['>', '=']);
                }
                NumericScalar::Text(s)
            },
            Comparison::LowerThan(x) => {
                let mut s = String::new();
                s.push('<');
                let digits = render_usize(*x);
                s.append(digits.as_str());
                proof {
                    assert(Seq::<char>::empty().push('<') =~= seq!['<']);
                }
                NumericScalar::Text(s)
            },
            Comparison::LowerThanOrEqual(x) => {
                let mut s = String::new();
                s.push('<');
                s.push('=');
                let digits = render_usize(*x);
                s.append(digits.as_str());
                proof {
                    assert(Seq::<char>::empty().push('<').push('=') =~= seq!['<', '=']);
                }
                NumericScalar::Text(s)
            },
            Comparison::NotEqual(x) => {
                let mut s = String::new();
                s.push('!');
                s.push('=');
                let digits = render_usize(*x);
                s.append(digits.as_str());
                proof {
                    assert(Seq::<char>::empty().push('!').push('=') =~= seq!['!', '=']);
                }
                NumericScalar::Text(s)
            },
        },
    }
}

/// Reads a slot back from its boundary scalar form; a text that is neither
/// a variable letter nor a comparator string is refused.
pub fn maybe_imprecise_from_scalar(s: &NumericScalar) -> (r: Result<
    MaybeImprecise,
    crate::search::Errors,
>)
    ensures
        match r {
            Ok(m) => spec_slot_from_scalar(s@) == Some(m),
            Err(_) => spec_slot_from_scalar(s@) is None,
        },
{
    match s {
        NumericScalar::Number(v) => match u64_as_maybe_var(*v) {
            Ok(mv) => Ok(MaybeImprecise::Precise(mv)),
            Err(e) => Err(e),
        },
        NumericScalar::Text(t) => match crate::search::query_parser::text_comparison_parser(
            t.as_str(),
        ) {
            Ok(c) => Ok(MaybeImprecise::Imprecise(c)),
            Err(_) => match str_as_maybe_var(t.as_str()) {
                Some(mv) => Ok(MaybeImprecise::Precise(mv)),
                None => Err(crate::search::Errors::InvalidComparisonString),
            },
        },
    }
}

/// Whether a slot survives the scalar round trip as it is: an equality
/// comparator reads back as the precise constant it is equivalent to, so
/// it is left out, as is a variable not named by a letter, which the
/// boundary reader refuses.  Nothing beyond the classification itself is
/// assumed of `spec_alphabetic`, so the predicate also records that the
/// letter is not a digit.
pub open spec fn slot_round_trippable(m: MaybeImprecise) -> bool {
    match m {
        MaybeImprecise::Precise(MaybeVar::Var(c)) => spec_alphabetic(c)
            && !crate::search::query_parser::is_digit(c),
        MaybeImprecise::Imprecise(Comparison::Equal(_)) => false,
        _ => true,
    }
}

/// Writing a slot and reading it back yields the slot again, for every
/// slot the scalar form can tell apart.
pub proof fn lemma_slot_scalar_round_trip(m: MaybeImprecise)
    requires
        slot_round_trippable(m),
    ensures
        spec_slot_from_scalar(spec_slot_to_scalar(m)) == Some(m),
{
    match m {
        MaybeImprecise::Precise(MaybeVar::Const(x)) => {
            assert((x as u64) <= usize::MAX);
            assert(((x as u64) as usize) == x);
        },
        MaybeImprecise::Precise(MaybeVar::Var(c)) => {
            let t = seq![c];
            assert(t.len() == 1 && t[0] == c);
            // the one-letter text is no comparator string
            assert(!crate::search::query_parser::all_digits(t));
            assert(t.skip(1).len() == 0);
            assert(crate::search::query_parser::spec_parse_usize(t.skip(1)) is None);
            assert(crate::search::query_parser::spec_comparison_of(t) is None);
        },
        MaybeImprecise::Imprecise(c) => {
            lemma_comparison_scalar_round_trip(c);
        },
    }
}

proof fn lemma_prefix_digits(op: Seq<char>, x: int)
    requires
        x >= 0,
        forall|i: int| 0 <= i < op.len() ==> !crate::search::query_parser::is_digit(#[trigger] op[i]),
        op.len() >= 1,
    ensures
        (op + spec_render_usize(x)).len() > op.len(),
        (op + spec_render_usize(x)).skip(op.len() as int) =~= spec_render_usize(x),
        forall|i: int|
            0 <= i < op.len() ==> (#[trigger] (op + spec_render_usize(x))[i]) == op[i],
        crate::search::query_parser::spec_parse_usize(op + spec_render_usize(x)) is None,
{
    lemma_render_usize_value(x);
    let s = op + spec_render_usize(x);
    assert(!crate::search::query_parser::is_digit(s[0]));
}

#[verifier::rlimit(60)]
proof fn lemma_comparison_scalar_round_trip(c: Comparison)
    requires
        !(c matches Comparison::Equal(_)),
    ensures
        spec_slot_from_scalar(spec_slot_to_scalar(MaybeImprecise::Imprecise(c))) == Some(
            MaybeImprecise::Imprecise(c),
        ),
{
    reveal_strlit("");
    match c {
        Comparison::GreaterThan(x) => {
            lemma_render_usize_value(x as int);
            let s = seq!['>'] + spec_render_usize(x as int);
            lemma_prefix_digits(seq!['>'], x as int);
            assert(s[0] == '>');
            assert(s.skip(1) =~= spec_render_usize(x as int));
            if s.len() >= 2 {
                assert(s[1] == spec_render_usize(x as int)[0]);
                assert(crate::search::query_parser::is_digit(s[1]));
                assert(s[1] != '=');
            }
            assert(crate::search::query_parser::spec_comparison_of(s) == Some(
                Comparison::GreaterThan(x),
            ));
        },
        Comparison::GreaterThanOrEqual(x) => {
            lemma_render_usize_value(x as int);
            let s = seq!['>', '='] + spec_render_usize(x as int);
            lemma_prefix_digits(seq!['>', '='], x as int);
            assert(s[0] == '>');
            assert(s[1] == '=');
            assert(s.skip(2) =~= spec_render_usize(x as int));
            assert(crate::search::query_parser::spec_comparison_of(s) == Some(
                Comparison::GreaterThanOrEqual(x),
            ));
        },
        Comparison::LowerThan(x) => {
            lemma_render_usize_value(x as int);
            let s = seq!['<'] + spec_render_usize(x as int);
            lemma_prefix_digits(seq!['<'], x as int);
            assert(s[0] == '<');
            assert(s.skip(1) =~= spec_render_usize(x as int));
            if s.len() >= 2 {
                assert(s[1] == spec_render_usize(x as int)[0]);
                assert(crate::search::query_parser::is_digit(s[1]));
                assert(s[1] != '=');
            }
            assert(crate::search::query_parser::spec_comparison_of(s) == Some(
                Comparison::LowerThan(x),
            ));
        },
        Comparison::LowerThanOrEqual(x) => {
            lemma_render_usize_value(x as int);
            let s = seq!['<', '='] + spec_render_usize(x as int);
            lemma_prefix_digits(seq!['<', '='], x as int);
            assert(s[0] == '<');
            assert(s[1] == '=');
            assert(s.skip(2) =~= spec_render_usize(x as int));
            assert(crate::search::query_parser::spec_comparison_of(s) == Some(
                Comparison::LowerThanOrEqual(x),
            ));
        },
        Comparison::NotEqual(x) => {
            lemma_render_usize_value(x as int);
            let s = seq!['!', '='] + spec_render_usize(x as int);
            lemma_prefix_digits(seq!['!', '='], x as int);
            assert(s[0] == '!');
            assert(s[1] == '=');
            assert(s.skip(2) =~= spec_render_usize(x as int));
            assert(crate::search::query_parser::spec_comparison_of(s) == Some(
                Comparison::NotEqual(x),
            ));
        },
        Comparison::Equal(_) => {},
    }
}

} // verus!
