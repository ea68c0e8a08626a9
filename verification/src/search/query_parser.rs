//! Reading a user's query string into the typed query AST.
use vstd::prelude::*;
use crate::cards::kins::KinComparison;
use crate::cards::properties::{Array, Number, Text};
use crate::numbers::Comparison;
use crate::search::{Errors, Ordering, Query, QueryRestriction, Sort, TextComparison};
use crate::text::{chars_vec, regex_check, string_from_chars, str_eq};

verus! {

/// Whether a character is a decimal digit.
pub open spec fn is_digit(c: char) -> bool {
    '0' <= c && c <= '9'
}

/// The numeric value of a digit string, most significant first.
pub open spec fn digits_val(s: Seq<char>) -> int
    decreases s.len(),
{
    if s.len() == 0 {
        0
    } else {
        digits_val(s.subrange(0, s.len() - 1)) * 10 + ((s[s.len() - 1] as int) - 48)
    }
}

/// Whether every character of a string is a decimal digit.
pub open spec fn all_digits(s: Seq<char>) -> bool {
    forall|i: int| 0 <= i < s.len() ==> is_digit(#[trigger] s[i])
}

/// What a digit string denotes: its value, when it is non-empty, all
/// digits, and within machine range.
pub open spec fn spec_parse_usize(s: Seq<char>) -> Option<usize> {
    if s.len() > 0 && all_digits(s) && digits_val(s) <= usize::MAX {
        Some(digits_val(s) as usize)
    } else {
        None
    }
}

proof fn lemma_digits_val_nonneg(s: Seq<char>)
    requires
        all_digits(s),
    ensures
        digits_val(s) >= 0,
    decreases s.len(),
{
    if s.len() > 0 {
        let pre = s.subrange(0, s.len() - 1);
        assert(all_digits(pre));
        lemma_digits_val_nonneg(pre);
    }
}

proof fn lemma_digits_val_monotone(s: Seq<char>, i: int)
    requires
        all_digits(s),
        0 <= i <= s.len(),
    ensures
        digits_val(s.subrange(0, i)) <= digits_val(s),
    decreases s.len() - i,
{
    if i < s.len() {
        lemma_digits_val_monotone(s, i + 1);
        let a = s.subrange(0, i);
        let b = s.subrange(0, i + 1);
        assert(b.subrange(0, b.len() - 1) =~= a);
        assert(all_digits(a));
        lemma_digits_val_nonneg(a);
        assert(digits_val(b) == digits_val(a) * 10 + ((s[i] as int) - 48));
        assert(digits_val(a) * 10 >= digits_val(a)) by (nonlinear_arith)
            requires
                digits_val(a) >= 0,
        ;
    } else {
        assert(s.subrange(0, s.len() as int) =~= s);
    }
}

/// Reads a non-empty decimal digit string; `None` when the string is
/// empty, holds a non-digit, or overflows the machine range.
pub fn parse_usize_chars(cs: &Vec<char>) -> (r: Option<usize>)
    ensures
        r == spec_parse_usize(cs@),
{
    if cs.len() == 0 {
        return None;
    }
    let mut v: usize = 0;
    let mut i: usize = 0;
    while i < cs.len()
        invariant
            i <= cs@.len(),
            all_digits(cs@.take(i as int)),
            v == digits_val(cs@.take(i as int)),
        decreases cs@.len() - i,
    {
        let c = cs[i];
        if !('0' <= c && c <= '9') {
            assert(!is_digit(cs@[i as int]));
            return None;
        }
        let d: usize = ((c as u8) - 48) as usize;
        proof {
            assert(cs@.take(i + 1).subrange(0, i as int) =~= cs@.take(i as int));
            assert(cs@.take(i + 1)[i as int] == cs@[i as int]);
        }
        if v > (usize::MAX - d) / 10 {
            proof {
                assert(digits_val(cs@.take(i + 1)) == v * 10 + d);
                assert(v * 10 + d > usize::MAX) by (nonlinear_arith)
                    requires
                        v > (usize::MAX - d) / 10,
                        0 <= d <= 9,
                ;
                if all_digits(cs@) {
                    lemma_digits_val_monotone(cs@, i + 1);
                    assert(cs@.subrange(0, i + 1) =~= cs@.take(i + 1));
                    assert(digits_val(cs@) > usize::MAX);
                }
            }
            return None;
        }
        proof {
            assert(v * 10 + d <= usize::MAX) by (nonlinear_arith)
                requires
                    v <= (usize::MAX - d) / 10,
                    0 <= d <= 9,
            ;
        }
        v = v * 10 + d;
        i = i + 1;
    }
    proof {
        assert(cs@.take(cs@.len() as int) =~= cs@);
    }
    Some(v)
}

/// Reads a non-empty decimal digit string from a string slice.
pub fn parse_usize_str(s: &str) -> (r: Option<usize>)
    ensures
        r == spec_parse_usize(s@),
{
    let cs = chars_vec(s);
    parse_usize_chars(&cs)
}

/// What a comparison string denotes: a bare number compares as equality,
/// and an operator prefix picks the comparator for the number after it.
pub open spec fn spec_comparison_of(s: Seq<char>) -> Option<Comparison> {
    if spec_parse_usize(s) is Some {
        Some(Comparison::Equal(spec_parse_usize(s)->0))
    } else if s.len() >= 2 && s[0] == '>' && s[1] == '=' && spec_parse_usize(s.skip(2)) is Some {
        Some(Comparison::GreaterThanOrEqual(spec_parse_usize(s.skip(2))->0))
    } else if s.len() >= 2 && s[0] == '<' && s[1] == '=' && spec_parse_usize(s.skip(2)) is Some {
        Some(Comparison::LowerThanOrEqual(spec_parse_usize(s.skip(2))->0))
    } else if s.len() >= 1 && s[0] == '>' && spec_parse_usize(s.skip(1)) is Some {
        Some(Comparison::GreaterThan(spec_parse_usize(s.skip(1))->0))
    } else if s.len() >= 1 && s[0] == '<' && spec_parse_usize(s.skip(1)) is Some {
        Some(Comparison::LowerThan(spec_parse_usize(s.skip(1))->0))
    } else if s.len() >= 1 && s[0] == '=' && spec_parse_usize(s.skip(1)) is Some {
        Some(Comparison::Equal(spec_parse_usize(s.skip(1))->0))
    } else if s.len() >= 2 && s[0] == '!' && s[1] == '=' && spec_parse_usize(s.skip(2)) is Some {
        Some(Comparison::NotEqual(spec_parse_usize(s.skip(2))->0))
    } else {
        None
    }
}

fn tail_from(cs: &Vec<char>, from: usize) -> (r: Vec<char>)
    requires
        from <= cs@.len(),
    ensures
        r@ == cs@.skip(from as int),
{
    let mut r: Vec<char> = Vec::new();
    let mut i: usize = from;
    while i < cs.len()
        invariant
            from <= i <= cs@.len(),
            r@ == cs@.subrange(from as int, i as int),
        decreases cs@.len() - i,
    {
        r.push(cs[i]);
        proof {
            assert(cs@.subrange(from as int, i + 1) =~= cs@.subrange(from as int, i as int).push(
                cs@[i as int],
            ));
        }
        i = i + 1;
    }
    proof {
        assert(cs@.subrange(from as int, cs@.len() as int) =~= cs@.skip(from as int));
    }
    r
}

/// Reads the comparison mini-grammar `(>=|<=|>|<|=|!=)?number`.  A string
/// outside it is answered with `InvalidComparisonString`.
pub fn text_comparison_parser(s: &str) -> (r: Result<Comparison, Errors>)
    ensures
        match r {
            Ok(c) => spec_comparison_of(s@) == Some(c),
            Err(e) => spec_comparison_of(s@) is None && e is InvalidComparisonString,
        },
{
    let cs = chars_vec(s);
    if let Some(n) = parse_usize_chars(&cs) {
        return Ok(Comparison::Equal(n));
    }
    if cs.len() >= 2 && cs[0] == '>' && cs[1] == '=' {
        let t = tail_from(&cs, 2);
        if let Some(n) = parse_usize_chars(&t) {
            return Ok(Comparison::GreaterThanOrEqual(n));
        }
        proof {
            assert(s@.skip(1).len() >= 1);
            assert(s@.skip(1)[0] == '=');
            assert(!is_digit(s@.skip(1)[0]));
        }
        return Err(Errors::InvalidComparisonString);
    }
    if cs.len() >= 2 && cs[0] == '<' && cs[1] == '=' {
        let t = tail_from(&cs, 2);
        if let Some(n) = parse_usize_chars(&t) {
            return Ok(Comparison::LowerThanOrEqual(n));
        }
        proof {
            assert(s@.skip(1).len() >= 1);
            assert(s@.skip(1)[0] == '=');
            assert(!is_digit(s@.skip(1)[0]));
        }
        return Err(Errors::InvalidComparisonString);
    }
    if cs.len() >= 2 && cs[0] == '!' && cs[1] == '=' {
        let t = tail_from(&cs, 2);
        if let Some(n) = parse_usize_chars(&t) {
            return Ok(Comparison::NotEqual(n));
        }
        return Err(Errors::InvalidComparisonString);
    }
    if cs.len() >= 1 && cs[0] == '>' {
        let t = tail_from(&cs, 1);
        if let Some(n) = parse_usize_chars(&t) {
            return Ok(Comparison::GreaterThan(n));
        }
        return Err(Errors::InvalidComparisonString);
    }
    if cs.len() >= 1 && cs[0] == '<' {
        let t = tail_from(&cs, 1);
        if let Some(n) = parse_usize_chars(&t) {
            return Ok(Comparison::LowerThan(n));
        }
        return Err(Errors::InvalidComparisonString);
    }
    if cs.len() >= 1 && cs[0] == '=' {
        let t = tail_from(&cs, 1);
        if let Some(n) = parse_usize_chars(&t) {
            return Ok(Comparison::Equal(n));
        }
        return Err(Errors::InvalidComparisonString);
    }
    Err(Errors::InvalidComparisonString)
}

/// The kinds of things a parameter name can point at.
pub enum Properties {
    NumProperty(Number),
    StringProperty(Text),
    ArrayProperty(Array),
    KinProperty,
    Sort(Ordering),
    Keywords,
}

/// What each recognised parameter alias resolves to.
pub open spec fn spec_property_of(s: Seq<char>) -> Option<Properties> {
    if s == "id"@ {
        Some(Properties::StringProperty(Text::Id))
    } else if s == "name"@ || s == "n"@ {
        Some(Properties::StringProperty(Text::Name))
    } else if s == "flavortext"@ || s == "flavor"@ || s == "ft"@ {
        Some(Properties::StringProperty(Text::FlavorText))
    } else if s == "description"@ || s == "desc"@ || s == "de"@ {
        Some(Properties::StringProperty(Text::Description))
    } else if s == "type"@ || s == "t"@ {
        Some(Properties::StringProperty(Text::Type))
    } else if s == "cost"@ || s == "c"@ {
        Some(Properties::NumProperty(Number::Cost))
    } else if s == "health"@ || s == "h"@ || s == "hp"@ {
        Some(Properties::NumProperty(Number::Health))
    } else if s == "power"@ || s == "strength"@ || s == "damage"@ || s == "p"@ || s == "dmg"@
        || s == "str"@ {
        Some(Properties::NumProperty(Number::Power))
    } else if s == "defense"@ || s == "defence"@ || s == "def"@ || s == "d"@ {
        Some(Properties::NumProperty(Number::Defense))
    } else if s == "kin"@ || s == "k"@ {
        Some(Properties::KinProperty)
    } else if s == "function"@ || s == "fun"@ || s == "fn"@ || s == "f"@ {
        Some(Properties::ArrayProperty(Array::Functions))
    } else if s == "keyword"@ || s == "kw"@ {
        Some(Properties::Keywords)
    } else if s == "sort"@ || s == "so"@ {
        Some(Properties::Sort(Ordering::Ascending))
    } else if s == "sortd"@ || s == "sod"@ {
        Some(Properties::Sort(Ordering::Descending))
    } else {
        None
    }
}

/// Resolves a parameter name to the property it queries; an unknown name
/// is answered with `UnknownStringParam` carrying that name.
pub fn get_property_from_name(str: &str) -> (r: Result<Properties, Errors>)
    ensures
        match r {
            Ok(p) => spec_property_of(str@) == Some(p),
            Err(e) => spec_property_of(str@) is None && (e matches Errors::UnknownStringParam(
                n,
            ) && n@ == str@),
        },
{
    if str_eq(str, "id") {
        Ok(Properties::StringProperty(Text::Id))
    } else if str_eq(str, "name") || str_eq(str, "n") {
        Ok(Properties::StringProperty(Text::Name))
    } else if str_eq(str, "flavortext") || str_eq(str, "flavor") || str_eq(str, "ft") {
        Ok(Properties::StringProperty(Text::FlavorText))
    } else if str_eq(str, "description") || str_eq(str, "desc") || str_eq(str, "de") {
        Ok(Properties::StringProperty(Text::Description))
    } else if str_eq(str, "type") || str_eq(str, "t") {
        Ok(Properties::StringProperty(Text::Type))
    } else if str_eq(str, "cost") || str_eq(str, "c") {
        Ok(Properties::NumProperty(Number::Cost))
    } else if str_eq(str, "health") || str_eq(str, "h") || str_eq(str, "hp") {
        Ok(Properties::NumProperty(Number::Health))
    } else if str_eq(str, "power") || str_eq(str, "strength") || str_eq(str, "damage") || str_eq(
        str,
        "p",
    ) || str_eq(str, "dmg") || str_eq(str, "str") {
        Ok(Properties::NumProperty(Number::Power))
    } else if str_eq(str, "defense") || str_eq(str, "defence") || str_eq(str, "def") || str_eq(
        str,
        "d",
    ) {
        Ok(Properties::NumProperty(Number::Defense))
    } else if str_eq(str, "kin") || str_eq(str, "k") {
        Ok(Properties::KinProperty)
    } else if str_eq(str, "function") || str_eq(str, "fun") || str_eq(str, "fn") || str_eq(
        str,
        "f",
    ) {
        Ok(Properties::ArrayProperty(Array::Functions))
    } else if str_eq(str, "keyword") || str_eq(str, "kw") {
        Ok(Properties::Keywords)
    } else if str_eq(str, "sort") || str_eq(str, "so") {
        Ok(Properties::Sort(Ordering::Ascending))
    } else if str_eq(str, "sortd") || str_eq(str, "sod") {
        Ok(Properties::Sort(Ordering::Descending))
    } else {
        Err(Errors::UnknownStringParam(str.to_owned()))
    }
}

/// Every regex pattern a restriction carries is one the engine accepts.
pub open spec fn spec_patterns_valid_r(r: crate::search::QueryRestrictionV) -> bool
    decreases r,
{
    match r {
        crate::search::QueryRestrictionV::TextComparison(_, tc) => match tc {
            crate::search::TextComparisonV::HasMatch(p) => crate::text::regex_valid(p),
            _ => true,
        },
        crate::search::QueryRestrictionV::Has(_, tc) => match tc {
            crate::search::TextComparisonV::HasMatch(p) => crate::text::regex_valid(p),
            _ => true,
        },
        crate::search::QueryRestrictionV::HasKw(tc) => match tc {
            crate::search::TextComparisonV::HasMatch(p) => crate::text::regex_valid(p),
            _ => true,
        },
        crate::search::QueryRestrictionV::KinComparison(kc) => match kc {
            crate::cards::kins::KinComparisonV::RegexMatch(p) => crate::text::regex_valid(p),
            _ => true,
        },
        crate::search::QueryRestrictionV::Not(q) => spec_patterns_valid_q(q),
        crate::search::QueryRestrictionV::LenientNot(q) => spec_patterns_valid_q(q),
        crate::search::QueryRestrictionV::Group(q) => spec_patterns_valid_q(q),
        crate::search::QueryRestrictionV::Devours(q) => spec_patterns_valid_q(q),
        crate::search::QueryRestrictionV::DevouredBy(q) => spec_patterns_valid_q(q),
        crate::search::QueryRestrictionV::Or(a, b) => spec_patterns_valid_q(a)
            && spec_patterns_valid_q(b),
        crate::search::QueryRestrictionV::Xor(a, b) => spec_patterns_valid_q(a)
            && spec_patterns_valid_q(b),
        _ => true,
    }
}

/// Every regex pattern anywhere in a query is one the engine accepts.
pub open spec fn spec_patterns_valid_q(q: crate::search::QueryV) -> bool
    decreases q,
{
    forall|i: int|
        0 <= i < q.restrictions.len() ==> spec_patterns_valid_r(#[trigger] q.restrictions[i])
}

/// The characters that close a free word or a parameter name.
pub open spec fn spec_is_space(c: char) -> bool {
    c == ' ' || c == '\t' || c == '\n' || c == '\r'
}

pub open spec fn spec_is_word_delim(c: char) -> bool {
    spec_is_space(c) || c == ':' || c == '<' || c == '>' || c == '=' || c == '!' || c == '('
        || c == ')'
}

/// The characters that may separate a parameter name from its value.
pub open spec fn spec_is_sep(c: char) -> bool {
    c == ':' || c == '<' || c == '>' || c == '=' || c == '!'
}

/// The characters that close a bare parameter value.
pub open spec fn spec_is_value_stop(c: char) -> bool {
    spec_is_space(c) || c == '(' || c == ')'
}

fn is_space(c: char) -> (r: bool)
    ensures
        r == spec_is_space(c),
{
    c == ' ' || c == '\t' || c == '\n' || c == '\r'
}

fn is_word_delim(c: char) -> (r: bool)
    ensures
        r == spec_is_word_delim(c),
{
    c == ' ' || c == '\t' || c == '\n' || c == '\r' || c == ':' || c == '<' || c == '>' || c == '='
        || c == '!' || c == '(' || c == ')'
}

/// The end of the dash run starting at `p`.
pub open spec fn spec_dash_end(cs: Seq<char>, p: int) -> int
    decreases cs.len() - p,
{
    if p < 0 || p >= cs.len() {
        p
    } else if cs[p] == '-' {
        spec_dash_end(cs, p + 1)
    } else {
        p
    }
}

/// The end of the word starting at `p`: the first delimiter at or after it.
pub open spec fn spec_word_end(cs: Seq<char>, p: int) -> int
    decreases cs.len() - p,
{
    if p < 0 || p >= cs.len() {
        p
    } else if !spec_is_word_delim(cs[p]) {
        spec_word_end(cs, p + 1)
    } else {
        p
    }
}

/// The first quote at or after `p`.
pub open spec fn spec_quote_end(cs: Seq<char>, p: int) -> int
    decreases cs.len() - p,
{
    if p < 0 || p >= cs.len() {
        p
    } else if cs[p] != '"' {
        spec_quote_end(cs, p + 1)
    } else {
        p
    }
}

/// The first slash at or after `p`.
pub open spec fn spec_slash_end(cs: Seq<char>, p: int) -> int
    decreases cs.len() - p,
{
    if p < 0 || p >= cs.len() {
        p
    } else if cs[p] != '/' {
        spec_slash_end(cs, p + 1)
    } else {
        p
    }
}

/// The end of the bare value starting at `p`.
pub open spec fn spec_value_end(cs: Seq<char>, p: int) -> int
    decreases cs.len() - p,
{
    if p < 0 || p >= cs.len() {
        p
    } else if !spec_is_value_stop(cs[p]) {
        spec_value_end(cs, p + 1)
    } else {
        p
    }
}

/// The first non-space at or after `p`.
pub open spec fn spec_nonspace(cs: Seq<char>, p: int) -> int
    decreases cs.len() - p,
{
    if p < 0 || p >= cs.len() {
        p
    } else if spec_is_space(cs[p]) {
        spec_nonspace(cs, p + 1)
    } else {
        p
    }
}

proof fn lemma_dash_end(cs: Seq<char>, p: int)
    requires
        0 <= p <= cs.len(),
    ensures
        p <= spec_dash_end(cs, p) <= cs.len(),
        forall|k: int| p <= k < spec_dash_end(cs, p) ==> cs[k] == '-',
        spec_dash_end(cs, p) < cs.len() ==> cs[spec_dash_end(cs, p)] != '-',
    decreases cs.len() - p,
{
    if p < cs.len() && cs[p] == '-' {
        lemma_dash_end(cs, p + 1);
    }
}

proof fn lemma_word_end(cs: Seq<char>, p: int)
    requires
        0 <= p <= cs.len(),
    ensures
        p <= spec_word_end(cs, p) <= cs.len(),
        forall|k: int| p <= k < spec_word_end(cs, p) ==> !spec_is_word_delim(cs[k]),
        spec_word_end(cs, p) < cs.len() ==> spec_is_word_delim(cs[spec_word_end(cs, p)]),
    decreases cs.len() - p,
{
    if p < cs.len() && !spec_is_word_delim(cs[p]) {
        lemma_word_end(cs, p + 1);
    }
}

proof fn lemma_quote_end(cs: Seq<char>, p: int)
    requires
        0 <= p <= cs.len(),
    ensures
        p <= spec_quote_end(cs, p) <= cs.len(),
        forall|k: int| p <= k < spec_quote_end(cs, p) ==> cs[k] != '"',
        spec_quote_end(cs, p) < cs.len() ==> cs[spec_quote_end(cs, p)] == '"',
    decreases cs.len() - p,
{
    if p < cs.len() && cs[p] != '"' {
        lemma_quote_end(cs, p + 1);
    }
}

proof fn lemma_slash_end(cs: Seq<char>, p: int)
    requires
        0 <= p <= cs.len(),
    ensures
        p <= spec_slash_end(cs, p) <= cs.len(),
        forall|k: int| p <= k < spec_slash_end(cs, p) ==> cs[k] != '/',
        spec_slash_end(cs, p) < cs.len() ==> cs[spec_slash_end(cs, p)] == '/',
    decreases cs.len() - p,
{
    if p < cs.len() && cs[p] != '/' {
        lemma_slash_end(cs, p + 1);
    }
}

proof fn lemma_value_end(cs: Seq<char>, p: int)
    requires
        0 <= p <= cs.len(),
    ensures
        p <= spec_value_end(cs, p) <= cs.len(),
        forall|k: int| p <= k < spec_value_end(cs, p) ==> !spec_is_value_stop(cs[k]),
        spec_value_end(cs, p) < cs.len() ==> spec_is_value_stop(cs[spec_value_end(cs, p)]),
    decreases cs.len() - p,
{
    if p < cs.len() && !spec_is_value_stop(cs[p]) {
        lemma_value_end(cs, p + 1);
    }
}

proof fn lemma_nonspace(cs: Seq<char>, p: int)
    requires
        0 <= p <= cs.len(),
    ensures
        p <= spec_nonspace(cs, p) <= cs.len(),
        forall|k: int| p <= k < spec_nonspace(cs, p) ==> spec_is_space(cs[k]),
        spec_nonspace(cs, p) < cs.len() ==> !spec_is_space(cs[spec_nonspace(cs, p)]),
    decreases cs.len() - p,
{
    if p < cs.len() && spec_is_space(cs[p]) {
        lemma_nonspace(cs, p + 1);
    }
}

proof fn lemma_dash_end_pin(cs: Seq<char>, p: int, q: int)
    requires
        0 <= p <= q <= cs.len(),
        forall|k: int| p <= k < q ==> cs[k] == '-',
        q < cs.len() ==> cs[q] != '-',
    ensures
        spec_dash_end(cs, p) == q,
    decreases q - p,
{
    if p < q {
        lemma_dash_end_pin(cs, p + 1, q);
    }
}

proof fn lemma_word_end_pin(cs: Seq<char>, p: int, q: int)
    requires
        0 <= p <= q <= cs.len(),
        forall|k: int| p <= k < q ==> !spec_is_word_delim(cs[k]),
        q < cs.len() ==> spec_is_word_delim(cs[q]),
    ensures
        spec_word_end(cs, p) == q,
    decreases q - p,
{
    if p < q {
        lemma_word_end_pin(cs, p + 1, q);
    }
}

proof fn lemma_quote_end_pin(cs: Seq<char>, p: int, q: int)
    requires
        0 <= p <= q <= cs.len(),
        forall|k: int| p <= k < q ==> cs[k] != '"',
        q < cs.len() ==> cs[q] == '"',
    ensures
        spec_quote_end(cs, p) == q,
    decreases q - p,
{
    if p < q {
        lemma_quote_end_pin(cs, p + 1, q);
    }
}

proof fn lemma_slash_end_pin(cs: Seq<char>, p: int, q: int)
    requires
        0 <= p <= q <= cs.len(),
        forall|k: int| p <= k < q ==> cs[k] != '/',
        q < cs.len() ==> cs[q] == '/',
    ensures
        spec_slash_end(cs, p) == q,
    decreases q - p,
{
    if p < q {
        lemma_slash_end_pin(cs, p + 1, q);
    }
}

proof fn lemma_value_end_pin(cs: Seq<char>, p: int, q: int)
    requires
        0 <= p <= q <= cs.len(),
        forall|k: int| p <= k < q ==> !spec_is_value_stop(cs[k]),
        q < cs.len() ==> spec_is_value_stop(cs[q]),
    ensures
        spec_value_end(cs, p) == q,
    decreases q - p,
{
    if p < q {
        lemma_value_end_pin(cs, p + 1, q);
    }
}

proof fn lemma_nonspace_pin(cs: Seq<char>, p: int, q: int)
    requires
        0 <= p <= q <= cs.len(),
        forall|k: int| p <= k < q ==> spec_is_space(cs[k]),
        q < cs.len() ==> !spec_is_space(cs[q]),
    ensures
        spec_nonspace(cs, p) == q,
    decreases q - p,
{
    if p < q {
        lemma_nonspace_pin(cs, p + 1, q);
    }
}

/// The index of the parenthesis that closes the group open at depth zero
/// when the scan starts, if it is there.
pub open spec fn spec_close_at(cs: Seq<char>, p: int, depth: int) -> Option<int>
    decreases cs.len() - p,
{
    if p < 0 || p >= cs.len() {
        None
    } else if cs[p] == '(' {
        spec_close_at(cs, p + 1, depth + 1)
    } else if cs[p] == ')' {
        if depth == 0 {
            Some(p)
        } else {
            spec_close_at(cs, p + 1, depth - 1)
        }
    } else {
        spec_close_at(cs, p + 1, depth)
    }
}

proof fn lemma_close_at_bounds(cs: Seq<char>, p: int, depth: int)
    requires
        0 <= p <= cs.len(),
    ensures
        spec_close_at(cs, p, depth) matches Some(q) ==> p <= q < cs.len(),
    decreases cs.len() - p,
{
    if p < cs.len() {
        lemma_close_at_bounds(cs, p + 1, depth + 1);
        lemma_close_at_bounds(cs, p + 1, depth - 1);
        lemma_close_at_bounds(cs, p + 1, depth);
    }
}

fn slice_copy(cs: &Vec<char>, from: usize, to: usize) -> (r: Vec<char>)
    requires
        from <= to <= cs@.len(),
    ensures
        r@ == cs@.subrange(from as int, to as int),
{
    let mut r: Vec<char> = Vec::new();
    let mut i: usize = from;
    while i < to
        invariant
            from <= i <= to <= cs@.len(),
            r@ == cs@.subrange(from as int, i as int),
        decreases to - i,
    {
        r.push(cs[i]);
        proof {
            assert(cs@.subrange(from as int, i + 1) =~= cs@.subrange(from as int, i as int).push(
                cs@[i as int],
            ));
        }
        i = i + 1;
    }
    r
}

/// The position right after the subquery that starts at `from`: the index
/// of the parenthesis closing the one at `from - 1`, scanning balanced
/// pairs.
fn find_close(cs: &Vec<char>, from: usize) -> (r: Option<usize>)
    requires
        from <= cs@.len(),
    ensures
        match r {
            Some(p) => from <= p < cs@.len() && spec_close_at(cs@, from as int, 0) == Some(
                p as int,
            ),
            None => spec_close_at(cs@, from as int, 0) is None,
        },
{
    let mut depth: usize = 0;
    let mut i: usize = from;
    while i < cs.len()
        invariant
            from <= i <= cs@.len(),
            depth <= i - from,
            spec_close_at(cs@, i as int, depth as int) == spec_close_at(cs@, from as int, 0),
        decreases cs@.len() - i,
    {
        let c = cs[i];
        if c == '(' {
            if depth == usize::MAX {
                proof {
                    assert(false);
                }
                return None;
            }
            depth = depth + 1;
        } else if c == ')' {
            if depth == 0 {
                proof {
                    lemma_close_at_bounds(cs@, from as int, 0);
                }
                return Some(i);
            }
            depth = depth - 1;
        }
        i = i + 1;
    }
    None
}

/// The names a subquery key may use.
pub open spec fn spec_is_devours_key(w: Seq<char>) -> bool {
    w == "devours"@ || w == "dev"@ || w == "devs"@
}

pub open spec fn spec_is_devouredby_key(w: Seq<char>) -> bool {
    w == "devouredby"@ || w == "devby"@ || w == "deby"@ || w == "dby"@ || w == "db"@
}

/// The parser's running state: the restrictions and free words gathered so
/// far, an unfinished OR/XOR, what the previous unit was (0 nothing, 1 a
/// restriction, 2 a word), the sort asked for, and the reading position.
pub struct ParseSt {
    pub restrictions: Seq<crate::search::QueryRestrictionV>,
    pub names: Seq<Seq<char>>,
    pub pending: Option<(bool, crate::search::QueryV)>,
    pub last: int,
    pub sort_override: Option<Sort>,
    pub pos: int,
}

pub open spec fn spec_init_state() -> ParseSt {
    ParseSt {
        restrictions: Seq::empty(),
        names: Seq::empty(),
        pending: None,
        last: 0,
        sort_override: None,
        pos: 0,
    }
}

/// A restriction as a one-clause subquery.
pub open spec fn spec_wrap(
    rv: crate::search::QueryRestrictionV,
    name: Seq<char>,
) -> crate::search::QueryV {
    crate::search::QueryV { name, restrictions: seq![rv], sort: Sort::Unsorted }
}

/// The polarity marks wrap a unit in strict or lenient negation.
pub open spec fn spec_wrap_polarity(
    rv: crate::search::QueryRestrictionV,
    polarity: int,
) -> crate::search::QueryRestrictionV {
    if polarity == 1 {
        crate::search::QueryRestrictionV::Not(spec_wrap(rv, Seq::empty()))
    } else if polarity == 2 {
        crate::search::QueryRestrictionV::LenientNot(spec_wrap(rv, Seq::empty()))
    } else {
        rv
    }
}

/// A finished unit lands in the state: it fills a waiting OR/XOR, or joins
/// the restriction list.
pub open spec fn spec_complete(
    st: ParseSt,
    rv: crate::search::QueryRestrictionV,
    newpos: int,
) -> ParseSt {
    match st.pending {
        Some(pnd) => ParseSt {
            restrictions: st.restrictions.push(
                if pnd.0 {
                    crate::search::QueryRestrictionV::Xor(pnd.1, spec_wrap(rv, Seq::empty()))
                } else {
                    crate::search::QueryRestrictionV::Or(pnd.1, spec_wrap(rv, Seq::empty()))
                },
            ),
            names: st.names,
            pending: None,
            last: 1,
            sort_override: st.sort_override,
            pos: newpos,
        },
        None => ParseSt {
            restrictions: st.restrictions.push(rv),
            names: st.names,
            pending: None,
            last: 1,
            sort_override: st.sort_override,
            pos: newpos,
        },
    }
}

/// What one `key . value` parameter asks for, under the separator that
/// stood between them.
pub open spec fn spec_resolve_param(key: Seq<char>, value: Seq<char>, sep: char) -> Option<
    crate::search::QueryRestrictionV,
> {
    match spec_property_of(key) {
        None => None,
        Some(p) => match p {
            Properties::NumProperty(f) => match spec_comparison_of(value) {
                Some(c) => Some(crate::search::QueryRestrictionV::NumberComparison(f, c)),
                None => None,
            },
            Properties::StringProperty(f) => if sep == '=' {
                Some(
                    crate::search::QueryRestrictionV::TextComparison(
                        f,
                        crate::search::TextComparisonV::EqualTo(value),
                    ),
                )
            } else if sep == ':' {
                Some(
                    crate::search::QueryRestrictionV::TextComparison(
                        f,
                        crate::search::TextComparisonV::Contains(value),
                    ),
                )
            } else {
                None
            },
            Properties::KinProperty => if sep == '=' {
                Some(
                    crate::search::QueryRestrictionV::KinComparison(
                        crate::cards::kins::KinComparisonV::TextEqual(value),
                    ),
                )
            } else if sep == ':' {
                Some(
                    crate::search::QueryRestrictionV::KinComparison(
                        crate::cards::kins::KinComparisonV::TextContains(value),
                    ),
                )
            } else {
                None
            },
            Properties::ArrayProperty(a) => if sep == '=' {
                Some(
                    crate::search::QueryRestrictionV::Has(
                        a,
                        crate::search::TextComparisonV::EqualTo(value),
                    ),
                )
            } else if sep == ':' {
                Some(
                    crate::search::QueryRestrictionV::Has(
                        a,
                        crate::search::TextComparisonV::Contains(value),
                    ),
                )
            } else {
                None
            },
            Properties::Keywords => if sep == '=' {
                Some(
                    crate::search::QueryRestrictionV::HasKw(
                        crate::search::TextComparisonV::EqualTo(value),
                    ),
                )
            } else if sep == ':' {
                Some(
                    crate::search::QueryRestrictionV::HasKw(
                        crate::search::TextComparisonV::Contains(value),
                    ),
                )
            } else {
                None
            },
            Properties::Sort(_) => None,
        },
    }
}

/// What the trailing sort clause after the `SORT` word asks for: a
/// sortable field, a direction word, and nothing further.
pub open spec fn spec_sort_clause_of(cs: Seq<char>, p: int) -> Option<Sort> {
    let f0 = spec_nonspace(cs, p);
    let f1 = spec_word_end(cs, f0);
    let field = cs.subrange(f0, f1);
    let d0 = spec_nonspace(cs, f1);
    let d1 = spec_word_end(cs, d0);
    let dir_word = cs.subrange(d0, d1);
    let rest = spec_nonspace(cs, d1);
    let direction = if dir_word == "ascending"@ {
        Some(Ordering::Ascending)
    } else if dir_word == "descending"@ {
        Some(Ordering::Descending)
    } else {
        None
    };
    if rest < cs.len() {
        None
    } else {
        match (spec_property_of(field), direction) {
            (Some(Properties::NumProperty(f)), Some(o)) => Some(Sort::Numeric(f, o)),
            (Some(Properties::StringProperty(f)), Some(o)) => Some(Sort::Alphabet(f, o)),
            _ => None,
        }
    }
}

/// The free words joined by single spaces.
pub open spec fn spec_join_names(names: Seq<Seq<char>>) -> Seq<char>
    decreases names.len(),
{
    if names.len() == 0 {
        Seq::empty()
    } else if names.len() == 1 {
        names[0]
    } else {
        spec_join_names(names.drop_last()) + seq![' '] + names.last()
    }
}

/// What a finished scan yields: no unfinished OR/XOR may remain; the free
/// words become one fuzzy restriction; the sort is the override if one was
/// asked for, the fuzzy default when free text is present, the name order
/// otherwise — and always unsorted in a subquery.
pub open spec fn spec_finish(top: bool, st: ParseSt) -> Option<crate::search::QueryV> {
    if st.pending is Some {
        None
    } else {
        let name = spec_join_names(st.names);
        let rs = if name.len() > 0 {
            st.restrictions.push(crate::search::QueryRestrictionV::Fuzzy(name))
        } else {
            st.restrictions
        };
        let sort = if !top {
            Sort::Unsorted
        } else {
            match st.sort_override {
                Some(s) => s,
                None => if name.len() > 0 {
                    Sort::Fuzzy
                } else {
                    Sort::Alphabet(Text::Name, Ordering::Ascending)
                },
            }
        };
        Some(crate::search::QueryV { name, restrictions: rs, sort })
    }
}

/// One reading of the query grammar, from a state: the tokenizer and the
/// parser in one walk.  `None` stands for every parse error.
#[verifier::opaque]
pub open spec fn spec_parse_from(cs: Seq<char>, top: bool, st: ParseSt) -> Option<
    crate::search::QueryV,
>
    decreases cs.len(), cs.len() - st.pos, 1int,
    via spec_parse_from_decreases
{
    if st.pos < 0 || st.pos >= cs.len() {
        spec_finish(top, st)
    } else if spec_is_space(cs[st.pos]) {
        spec_parse_from(cs, top, ParseSt { pos: st.pos + 1, ..st })
    } else {
        let dend = spec_dash_end(cs, st.pos);
        let polarity = dend - st.pos;
        if polarity > 2 {
            None
        } else if dend >= cs.len() {
            if polarity > 0 {
                None
            } else {
                spec_finish(top, st)
            }
        } else if cs[dend] == '(' {
            match spec_close_at(cs, dend + 1, 0) {
                None => None,
                Some(close) => match spec_parse(cs.subrange(dend + 1, close), false) {
                    None => None,
                    Some(sub) => spec_parse_from(
                        cs,
                        top,
                        spec_complete(
                            st,
                            spec_wrap_polarity(
                                crate::search::QueryRestrictionV::Group(sub),
                                polarity,
                            ),
                            close + 1,
                        ),
                    ),
                },
            }
        } else if cs[dend] == ')' {
            None
        } else {
            let wend = spec_word_end(cs, dend);
            let word = cs.subrange(dend, wend);
            if wend < cs.len() && spec_is_sep(cs[wend]) {
                if word.len() == 0 {
                    None
                } else {
                    let sep = cs[wend];
                    if sep == ':' || (sep == '=' && wend + 1 < cs.len() && (cs[wend + 1] == '"'
                        || cs[wend + 1] == '/' || cs[wend + 1] == '(')) {
                        let vpos = wend + 1;
                        if vpos < cs.len() && cs[vpos] == '"' {
                            let qend = spec_quote_end(cs, vpos + 1);
                            if qend >= cs.len() {
                                None
                            } else {
                                let phrase = cs.subrange(vpos + 1, qend);
                                match spec_resolve_param(
                                    word,
                                    phrase,
                                    if sep == ':' {
                                        ':'
                                    } else {
                                        '='
                                    },
                                ) {
                                    None => None,
                                    Some(u) => spec_parse_from(
                                        cs,
                                        top,
                                        spec_complete(
                                            st,
                                            spec_wrap_polarity(u, polarity),
                                            qend + 1,
                                        ),
                                    ),
                                }
                            }
                        } else if vpos < cs.len() && cs[vpos] == '/' {
                            let rend = spec_slash_end(cs, vpos + 1);
                            if rend >= cs.len() {
                                None
                            } else {
                                let pattern = cs.subrange(vpos + 1, rend);
                                if !crate::text::regex_valid(pattern) {
                                    None
                                } else {
                                    match spec_property_of(word) {
                                        Some(Properties::StringProperty(f)) => spec_parse_from(
                                            cs,
                                            top,
                                            spec_complete(
                                                st,
                                                spec_wrap_polarity(
                                                    crate::search::QueryRestrictionV::TextComparison(
                                                        f,
                                                        crate::search::TextComparisonV::HasMatch(
                                                            pattern,
                                                        ),
                                                    ),
                                                    polarity,
                                                ),
                                                rend + 1,
                                            ),
                                        ),
                                        _ => None,
                                    }
                                }
                            }
                        } else if vpos < cs.len() && cs[vpos] == '(' {
                            match spec_close_at(cs, vpos + 1, 0) {
                                None => None,
                                Some(close) => match spec_parse(
                                    cs.subrange(vpos + 1, close),
                                    false,
                                ) {
                                    None => None,
                                    Some(sub) => if spec_is_devours_key(word) {
                                        spec_parse_from(
                                            cs,
                                            top,
                                            spec_complete(
                                                st,
                                                spec_wrap_polarity(
                                                    crate::search::QueryRestrictionV::Devours(sub),
                                                    polarity,
                                                ),
                                                close + 1,
                                            ),
                                        )
                                    } else if spec_is_devouredby_key(word) {
                                        spec_parse_from(
                                            cs,
                                            top,
                                            spec_complete(
                                                st,
                                                spec_wrap_polarity(
                                                    crate::search::QueryRestrictionV::DevouredBy(
                                                        sub,
                                                    ),
                                                    polarity,
                                                ),
                                                close + 1,
                                            ),
                                        )
                                    } else {
                                        None
                                    },
                                },
                            }
                        } else {
                            let vend = spec_value_end(cs, vpos);
                            let value = cs.subrange(vpos, vend);
                            match spec_property_of(word) {
                                None => None,
                                Some(Properties::Sort(direction)) => if !top {
                                    None
                                } else {
                                    match spec_property_of(value) {
                                        Some(Properties::NumProperty(f)) => spec_parse_from(
                                            cs,
                                            top,
                                            ParseSt {
                                                sort_override: Some(Sort::Numeric(f, direction)),
                                                last: 0,
                                                pos: vend,
                                                ..st
                                            },
                                        ),
                                        Some(Properties::StringProperty(f)) => spec_parse_from(
                                            cs,
                                            top,
                                            ParseSt {
                                                sort_override: Some(Sort::Alphabet(f, direction)),
                                                last: 0,
                                                pos: vend,
                                                ..st
                                            },
                                        ),
                                        _ => None,
                                    }
                                },
                                Some(_) => match spec_resolve_param(word, value, ':') {
                                    None => None,
                                    Some(u) => spec_parse_from(
                                        cs,
                                        top,
                                        spec_complete(st, spec_wrap_polarity(u, polarity), vend),
                                    ),
                                },
                            }
                        }
                    } else {
                        let vend = spec_value_end(cs, wend);
                        let value = cs.subrange(wend, vend);
                        match spec_resolve_param(word, value, sep) {
                            None => None,
                            Some(u) => spec_parse_from(
                                cs,
                                top,
                                spec_complete(st, spec_wrap_polarity(u, polarity), vend),
                            ),
                        }
                    }
                }
            } else {
                if word.len() == 0 {
                    None
                } else if word == "OR"@ || word == "XOR"@ {
                    if polarity > 0 || st.pending is Some {
                        None
                    } else {
                        let isx = word == "XOR"@;
                        if st.last == 1 {
                            if st.restrictions.len() == 0 {
                                None
                            } else {
                                spec_parse_from(
                                    cs,
                                    top,
                                    ParseSt {
                                        restrictions: st.restrictions.drop_last(),
                                        names: st.names,
                                        pending: Some(
                                            (isx, spec_wrap(st.restrictions.last(), Seq::empty())),
                                        ),
                                        last: 0,
                                        sort_override: st.sort_override,
                                        pos: wend,
                                    },
                                )
                            }
                        } else if st.last == 2 {
                            if st.names.len() == 0 {
                                None
                            } else {
                                spec_parse_from(
                                    cs,
                                    top,
                                    ParseSt {
                                        restrictions: st.restrictions,
                                        names: st.names.drop_last(),
                                        pending: Some(
                                            (
                                                isx,
                                                spec_wrap(
                                                    crate::search::QueryRestrictionV::Fuzzy(
                                                        st.names.last(),
                                                    ),
                                                    st.names.last(),
                                                ),
                                            ),
                                        ),
                                        last: 0,
                                        sort_override: st.sort_override,
                                        pos: wend,
                                    },
                                )
                            }
                        } else {
                            None
                        }
                    }
                } else if word == "SORT"@ {
                    if !top || polarity > 0 {
                        None
                    } else {
                        match spec_sort_clause_of(cs, wend) {
                            None => None,
                            Some(sort) => spec_parse_from(
                                cs,
                                top,
                                ParseSt { sort_override: Some(sort), pos: cs.len() as int, ..st },
                            ),
                        }
                    }
                } else if polarity > 0 {
                    let inner = spec_wrap(crate::search::QueryRestrictionV::Fuzzy(word), word);
                    let unit = if polarity == 1 {
                        crate::search::QueryRestrictionV::Not(inner)
                    } else {
                        crate::search::QueryRestrictionV::LenientNot(inner)
                    };
                    spec_parse_from(cs, top, spec_complete(st, unit, wend))
                } else {
                    match st.pending {
                        Some(pnd) => spec_parse_from(
                            cs,
                            top,
                            ParseSt {
                                restrictions: st.restrictions.push(
                                    if pnd.0 {
                                        crate::search::QueryRestrictionV::Xor(
                                            pnd.1,
                                            spec_wrap(
                                                crate::search::QueryRestrictionV::Fuzzy(word),
                                                word,
                                            ),
                                        )
                                    } else {
                                        crate::search::QueryRestrictionV::Or(
                                            pnd.1,
                                            spec_wrap(
                                                crate::search::QueryRestrictionV::Fuzzy(word),
                                                word,
                                            ),
                                        )
                                    },
                                ),
                                names: st.names,
                                pending: None,
                                last: 1,
                                sort_override: st.sort_override,
                                pos: wend,
                            },
                        ),
                        None => spec_parse_from(
                            cs,
                            top,
                            ParseSt {
                                restrictions: st.restrictions,
                                names: st.names.push(word),
                                pending: st.pending,
                                last: 2,
                                sort_override: st.sort_override,
                                pos: wend,
                            },
                        ),
                    }
                }
            }
        }
    }
}

#[via_fn]
proof fn spec_parse_from_decreases(cs: Seq<char>, top: bool, st: ParseSt) {
    if 0 <= st.pos < cs.len() {
        lemma_dash_end(cs, st.pos);
        let dend = spec_dash_end(cs, st.pos);
        if dend < cs.len() {
            lemma_close_at_bounds(cs, dend + 1, 0);
            lemma_word_end(cs, dend);
            let wend = spec_word_end(cs, dend);
            if wend + 2 <= cs.len() {
                lemma_quote_end(cs, wend + 2);
                lemma_slash_end(cs, wend + 2);
                lemma_close_at_bounds(cs, wend + 2, 0);
            }
            if wend + 1 <= cs.len() {
                lemma_value_end(cs, wend + 1);
            }
            lemma_value_end(cs, wend);
        }
    }
}

/// The whole grammar on a string: the reading from the empty state.
pub open spec fn spec_parse(cs: Seq<char>, top: bool) -> Option<crate::search::QueryV>
    decreases cs.len(), cs.len() + 1, 0int,
{
    spec_parse_from(cs, top, spec_init_state())
}

/// The mathematical form of the collected free words.
pub open spec fn names_view(parts: Seq<String>) -> Seq<Seq<char>> {
    Seq::new(parts.len(), |i: int| parts[i]@)
}

fn join_words(parts: &Vec<String>) -> (r: String)
    ensures
        r@ == spec_join_names(names_view(parts@)),
{
    let mut r = String::new();
    let mut i: usize = 0;
    while i < parts.len()
        invariant
            i <= parts@.len(),
            r@ == spec_join_names(names_view(parts@).take(i as int)),
        decreases parts@.len() - i,
    {
        if i > 0 {
            r.push(' ');
        }
        r.append(parts[i].as_str());
        proof {
            let nv = names_view(parts@);
            let cur = nv.take(i + 1);
            assert(cur.drop_last() =~= nv.take(i as int));
            assert(cur.last() == parts@[i as int]@);
            if i == 0 {
                assert(cur.len() == 1);
                assert(spec_join_names(nv.take(0)) =~= Seq::<char>::empty());
                assert(r@ =~= cur[0]);
            } else {
                assert(spec_join_names(cur) == spec_join_names(nv.take(i as int)) + seq![' ']
                    + cur.last());
                assert(r@ =~= spec_join_names(cur));
            }
        }
        i = i + 1;
    }
    proof {
        assert(names_view(parts@).take(parts@.len() as int) =~= names_view(parts@));
    }
    r
}

fn wrap_restriction(r: QueryRestriction, name: String) -> (q: Query)
    ensures
        q@.restrictions.len() == 1 && q@.restrictions[0] == r@,
        q@ == spec_wrap(r@, name@),
        spec_patterns_valid_r(r@) ==> spec_patterns_valid_q(q@),
{
    let ghost rv = r@;
    let q = Query { name, restrictions: vec![r], sort: Sort::Unsorted };
    proof {
        crate::search::lemma_view_restrictions(q.restrictions@);
        assert(q@.restrictions =~= seq![rv]);
        if spec_patterns_valid_r(rv) {
            assert forall|i: int|
                0 <= i < q@.restrictions.len() implies spec_patterns_valid_r(
                #[trigger] q@.restrictions[i],
            ) by {
                assert(q@.restrictions[i] == rv);
            }
        }
    }
    q
}

fn wrap_polarity(r: QueryRestriction, polarity: usize) -> (out: QueryRestriction)
    requires
        polarity <= 2,
    ensures
        out@ == spec_wrap_polarity(r@, polarity as int),
        spec_patterns_valid_r(r@) ==> spec_patterns_valid_r(out@),
{
    if polarity == 1 {
        let q = wrap_restriction(r, String::new());
        QueryRestriction::Not(q)
    } else if polarity == 2 {
        let q = wrap_restriction(r, String::new());
        QueryRestriction::LenientNot(q)
    } else {
        r
    }
}

/// Resolves one `key . value` parameter to the restriction it asks for.
/// `sep` is the separator that stood between them: `:`, or `=`, which asks
/// for equality on textual fields.
fn resolve_param(key: &str, value: String, sep: char) -> (r: Result<QueryRestriction, Errors>)
    ensures
        match r {
            Ok(restriction) => spec_resolve_param(key@, value@, sep) == Some(restriction@)
                && spec_patterns_valid_r(restriction@),
            Err(_) => spec_resolve_param(key@, value@, sep) is None,
        },
{
    let prop = match get_property_from_name(key) {
        Ok(p) => p,
        Err(e) => {
            return Err(e);
        },
    };
    match prop {
        Properties::NumProperty(f) => match text_comparison_parser(value.as_str()) {
            Ok(c) => Ok(QueryRestriction::NumberComparison(f, c)),
            Err(e) => Err(e),
        },
        Properties::StringProperty(f) => {
            if sep == '=' {
                Ok(QueryRestriction::TextComparison(f, TextComparison::EqualTo(value)))
            } else if sep == ':' {
                Ok(QueryRestriction::TextComparison(f, TextComparison::Contains(value)))
            } else {
                Err(Errors::InvalidComparisonString)
            }
        },
        Properties::KinProperty => {
            if sep == '=' {
                Ok(QueryRestriction::KinComparison(KinComparison::TextEqual(value)))
            } else if sep == ':' {
                Ok(QueryRestriction::KinComparison(KinComparison::TextContains(value)))
            } else {
                Err(Errors::InvalidComparisonString)
            }
        },
        Properties::ArrayProperty(a) => {
            if sep == '=' {
                Ok(QueryRestriction::Has(a, TextComparison::EqualTo(value)))
            } else if sep == ':' {
                Ok(QueryRestriction::Has(a, TextComparison::Contains(value)))
            } else {
                Err(Errors::InvalidComparisonString)
            }
        },
        Properties::Keywords => {
            if sep == '=' {
                Ok(QueryRestriction::HasKw(TextComparison::EqualTo(value)))
            } else if sep == ':' {
                Ok(QueryRestriction::HasKw(TextComparison::Contains(value)))
            } else {
                Err(Errors::InvalidComparisonString)
            }
        },
        Properties::Sort(_) => Err(Errors::NotSortable),
    }
}

fn is_devours_key(key: &str) -> (r: bool)
    ensures
        r == spec_is_devours_key(key@),
{
    str_eq(key, "devours") || str_eq(key, "dev") || str_eq(key, "devs")
}

fn is_devouredby_key(key: &str) -> (r: bool)
    ensures
        r == spec_is_devouredby_key(key@),
{
    str_eq(key, "devouredby") || str_eq(key, "devby") || str_eq(key, "deby") || str_eq(key, "dby")
        || str_eq(key, "db")
}

proof fn lemma_vr_push(s: Seq<QueryRestriction>, x: QueryRestriction)
    ensures
        crate::search::view_restrictions(s.push(x)) == crate::search::view_restrictions(s).push(
            crate::search::view_restriction(x),
        ),
{
    assert(s.push(x).subrange(0, s.len() as int) =~= s);
    assert(s.push(x)[s.len() as int] == x);
}

/// Lands a finished unit: it fills the waiting OR/XOR if one is open,
/// otherwise it joins the restriction list.
fn complete_unit(
    restrictions: &mut Vec<QueryRestriction>,
    pending: Option<(bool, Query)>,
    unit: QueryRestriction,
)
    ensures
        crate::search::view_restrictions(final(restrictions)@) == crate::search::view_restrictions(
            old(restrictions)@,
        ).push(
            match pending {
                Some(p) => if p.0 {
                    crate::search::QueryRestrictionV::Xor(p.1@, spec_wrap(unit@, Seq::empty()))
                } else {
                    crate::search::QueryRestrictionV::Or(p.1@, spec_wrap(unit@, Seq::empty()))
                },
                None => unit@,
            },
        ),
        (spec_patterns_valid_r(unit@) && (pending matches Some(p) ==> spec_patterns_valid_q(
            p.1@,
        )) && (forall|k: int|
            0 <= k < old(restrictions)@.len() ==> spec_patterns_valid_r(
                (#[trigger] old(restrictions)@[k])@,
            ))) ==> forall|k: int|
            0 <= k < final(restrictions)@.len() ==> spec_patterns_valid_r(
                (#[trigger] final(restrictions)@[k])@,
            ),
{
    let ghost pre = restrictions@;
    match pending {
        Some((is_xor, left)) => {
            let right = wrap_restriction(unit, String::new());
            let combined = if is_xor {
                QueryRestriction::Xor(left, right)
            } else {
                QueryRestriction::Or(left, right)
            };
            restrictions.push(combined);
            proof {
                lemma_vr_push(pre, combined);
            }
        },
        None => {
            restrictions.push(unit);
            proof {
                lemma_vr_push(pre, unit);
            }
        },
    }
}

/// Reads the value of one parameter whose name and separator have been
/// scanned, lands the restriction it asks for, and answers the new
/// position, previous-unit mark, sort override and pending state.
#[verifier::rlimit(100)]
#[verifier::spinoff_prover]
fn handle_param(
    cs: &Vec<char>,
    top_level: bool,
    word: String,
    polarity: usize,
    wend_pos: usize,
    sep: char,
    restrictions: &mut Vec<QueryRestriction>,
    pending: Option<(bool, Query)>,
    sort_override: Option<Sort>,
    Ghost(gst): Ghost<ParseSt>,
) -> (out: Result<(usize, u8, Option<Sort>, Option<(bool, Query)>, Ghost<ParseSt>), Errors>)
    requires
        0 <= gst.pos < cs@.len(),
        !spec_is_space(cs@[gst.pos]),
        polarity <= 2,
        spec_dash_end(cs@, gst.pos) == gst.pos + polarity,
        gst.pos + polarity < cs@.len(),
        cs@[gst.pos + polarity] != '(',
        cs@[gst.pos + polarity] != ')',
        spec_word_end(cs@, gst.pos + polarity) == wend_pos as int,
        gst.pos + polarity <= wend_pos as int,
        word@ == cs@.subrange(gst.pos + polarity, wend_pos as int),
        word@.len() > 0,
        wend_pos < cs@.len(),
        spec_is_sep(cs@[wend_pos as int]),
        sep == cs@[wend_pos as int],
        gst.restrictions == crate::search::view_restrictions(old(restrictions)@),
        match pending {
            Some(p) => gst.pending == Some((p.0, p.1@)),
            None => gst.pending is None,
        },
        gst.sort_override == sort_override,
        forall|k: int|
            0 <= k < old(restrictions)@.len() ==> spec_patterns_valid_r(
                (#[trigger] old(restrictions)@[k])@,
            ),
        match pending {
            Some(p) => spec_patterns_valid_q(p.1@),
            None => true,
        },
    ensures
        match out {
            Ok(o) => {
                let (np, nlast, nsort, npending, ngst) = o;
                &&& spec_parse_from(cs@, top_level, ngst@) == spec_parse_from(cs@, top_level, gst)
                &&& ngst@.restrictions == crate::search::view_restrictions(final(restrictions)@)
                &&& ngst@.names == gst.names
                &&& (match npending {
                    Some(p) => ngst@.pending == Some((p.0, p.1@)),
                    None => ngst@.pending is None,
                })
                &&& ngst@.last == nlast as int
                &&& ngst@.sort_override == nsort
                &&& ngst@.pos == np as int
                &&& gst.pos < np <= cs@.len()
                &&& (forall|k: int|
                    0 <= k < final(restrictions)@.len() ==> spec_patterns_valid_r(
                        (#[trigger] final(restrictions)@[k])@,
                    ))
                &&& (match npending {
                    Some(p) => spec_patterns_valid_q(p.1@),
                    None => true,
                })
            },
            Err(_) => spec_parse_from(cs@, top_level, gst) is None,
        },
    decreases cs@.len(), 0int,
{
    let len: usize = cs.len();
    let mut pos: usize = wend_pos;
    let ghost mut gst = gst;
    let mut sort_override = sort_override;
            if sep == ':' || (sep == '=' && pos + 1 < len && (cs[pos + 1] == '"' || cs[pos + 1]
                == '/' || cs[pos + 1] == '(')) {
                pos = pos + 1;
                let ghost vpos = pos as int;
                if pos < len && cs[pos] == '"' {
                    // a quoted phrase
                    let mut end = pos + 1;
                    while end < len && cs[end] != '"'
                        invariant
                            len == cs@.len(),
                            pos + 1 <= end <= len,
                            forall|k: int| pos + 1 <= k < end ==> cs@[k] != '"',
                        decreases len - end,
                    {
                        end = end + 1;
                    }
                    proof {
                        lemma_quote_end_pin(cs@, vpos + 1, end as int);
                    }
                    if end >= len {
                        proof {
                            assert(spec_parse_from(cs@, top_level, gst) is None) by {
                        reveal(spec_parse_from);
                    }
                        }
                        return Err(Errors::UnclosedString);
                    }
                    let phrase_chars = slice_copy(cs, pos + 1, end);
                    let phrase = string_from_chars(&phrase_chars);
                    let unit0 = match resolve_param(word.as_str(), phrase, if sep == ':' {
                        ':'
                    } else {
                        '='
                    }) {
                        Ok(u) => u,
                        Err(e) => {
                            proof {
                                assert(spec_parse_from(cs@, top_level, gst) is None) by {
                                    reveal(spec_parse_from);
                                }
                            }
                            return Err(e);
                        },
                    };
                    let unit = wrap_polarity(unit0, polarity);
                    proof {
                        let nst = spec_complete(gst, unit@, end + 1);
                    assert(spec_parse_from(cs@, top_level, nst) == spec_parse_from(
                        cs@,
                        top_level,
                        gst,
                    )) by {
                        reveal(spec_parse_from);
                    }
                    gst = nst;
                    }
                    complete_unit(restrictions, pending, unit);
                    return Ok((end + 1, 1, sort_override, None, Ghost(gst)));
                }
                if pos < len && cs[pos] == '/' {
                    // a regex pattern
                    let mut end = pos + 1;
                    while end < len && cs[end] != '/'
                        invariant
                            len == cs@.len(),
                            pos + 1 <= end <= len,
                            forall|k: int| pos + 1 <= k < end ==> cs@[k] != '/',
                        decreases len - end,
                    {
                        end = end + 1;
                    }
                    proof {
                        lemma_slash_end_pin(cs@, vpos + 1, end as int);
                    }
                    if end >= len {
                        proof {
                            assert(spec_parse_from(cs@, top_level, gst) is None) by {
                        reveal(spec_parse_from);
                    }
                        }
                        return Err(Errors::UnclosedRegex);
                    }
                    let pattern_chars = slice_copy(cs, pos + 1, end);
                    let pattern = string_from_chars(&pattern_chars);
                    match regex_check(pattern.as_str()) {
                        Ok(_) => {},
                        Err(msg) => {
                            proof {
                                assert(spec_parse_from(cs@, top_level, gst) is None) by {
                                    reveal(spec_parse_from);
                                }
                            }
                            return Err(Errors::RegexErr(msg));
                        },
                    }
                    let prop = match get_property_from_name(word.as_str()) {
                        Ok(p) => p,
                        Err(e) => {
                            proof {
                                assert(spec_parse_from(cs@, top_level, gst) is None) by {
                                    reveal(spec_parse_from);
                                }
                            }
                            return Err(e);
                        },
                    };
                    let unit0 = match prop {
                        Properties::StringProperty(f) => QueryRestriction::TextComparison(
                            f,
                            TextComparison::HasMatch(pattern),
                        ),
                        _ => {
                            proof {
                                assert(spec_parse_from(cs@, top_level, gst) is None) by {
                                    reveal(spec_parse_from);
                                }
                            }
                            return Err(Errors::NonRegexable(word));
                        },
                    };
                    let unit = wrap_polarity(unit0, polarity);
                    proof {
                        let nst = spec_complete(gst, unit@, end + 1);
                    assert(spec_parse_from(cs@, top_level, nst) == spec_parse_from(
                        cs@,
                        top_level,
                        gst,
                    )) by {
                        reveal(spec_parse_from);
                    }
                    gst = nst;
                    }
                    complete_unit(restrictions, pending, unit);
                    return Ok((end + 1, 1, sort_override, None, Ghost(gst)));
                }
                if pos < len && cs[pos] == '(' {
                    // a subquery parameter
                    let close = match find_close(cs, pos + 1) {
                        Some(p) => p,
                        None => {
                            proof {
                                assert(spec_parse_from(cs@, top_level, gst) is None) by {
                                    reveal(spec_parse_from);
                                }
                            }
                            return Err(Errors::UnclosedSubquery);
                        },
                    };
                    let inner = slice_copy(cs, pos + 1, close);
                    proof {
                        assert(inner@.len() < cs@.len());
                    }
                    let sub = match parse_chars(&inner, false) {
                        Ok(q) => q,
                        Err(e) => {
                            proof {
                                assert(spec_parse_from(cs@, top_level, gst) is None) by {
                                    reveal(spec_parse_from);
                                }
                            }
                            return Err(e);
                        },
                    };
                    let unit0 = if is_devours_key(word.as_str()) {
                        QueryRestriction::Devours(sub)
                    } else if is_devouredby_key(word.as_str()) {
                        QueryRestriction::DevouredBy(sub)
                    } else {
                        proof {
                            assert(spec_parse_from(cs@, top_level, gst) is None) by {
                        reveal(spec_parse_from);
                    }
                        }
                        return Err(Errors::UnknownSubQueryParam(word));
                    };
                    let unit = wrap_polarity(unit0, polarity);
                    proof {
                        let nst = spec_complete(gst, unit@, close + 1);
                    assert(spec_parse_from(cs@, top_level, nst) == spec_parse_from(
                        cs@,
                        top_level,
                        gst,
                    )) by {
                        reveal(spec_parse_from);
                    }
                    gst = nst;
                    }
                    complete_unit(restrictions, pending, unit);
                    return Ok((close + 1, 1, sort_override, None, Ghost(gst)));
                }
                // a bare value, read to the next space
                let value_start = pos;
                while pos < len && !is_space(cs[pos]) && cs[pos] != '(' && cs[pos] != ')'
                    invariant
                        len == cs@.len(),
                        value_start <= pos <= len,
                        forall|k: int| value_start <= k < pos ==> !spec_is_value_stop(cs@[k]),
                    decreases len - pos,
                {
                    pos = pos + 1;
                }
                proof {
                    lemma_value_end_pin(cs@, value_start as int, pos as int);
                }
                let value_chars = slice_copy(cs, value_start, pos);
                let value = string_from_chars(&value_chars);
                // the sort parameter names a field to sort by
                let prop = match get_property_from_name(word.as_str()) {
                    Ok(p) => p,
                    Err(e) => {
                        proof {
                            assert(spec_parse_from(cs@, top_level, gst) is None) by {
                        reveal(spec_parse_from);
                    }
                        }
                        return Err(e);
                    },
                };
                if let Properties::Sort(direction) = prop {
                    if !top_level {
                        proof {
                            assert(spec_parse_from(cs@, top_level, gst) is None) by {
                        reveal(spec_parse_from);
                    }
                        }
                        return Err(Errors::NotSortable);
                    }
                    let field = match get_property_from_name(value.as_str()) {
                        Ok(p) => p,
                        Err(e) => {
                            proof {
                                assert(spec_parse_from(cs@, top_level, gst) is None) by {
                                    reveal(spec_parse_from);
                                }
                            }
                            return Err(e);
                        },
                    };
                    sort_override = match field {
                        Properties::NumProperty(f) => Some(Sort::Numeric(f, direction)),
                        Properties::StringProperty(f) => Some(Sort::Alphabet(f, direction)),
                        _ => {
                            proof {
                                assert(spec_parse_from(cs@, top_level, gst) is None) by {
                                    reveal(spec_parse_from);
                                }
                            }
                            return Err(Errors::NotSortable);
                        },
                    };
                    proof {
                        let nst = ParseSt { sort_override, last: 0, pos: pos as int, ..gst };
                    assert(spec_parse_from(cs@, top_level, nst) == spec_parse_from(
                        cs@,
                        top_level,
                        gst,
                    )) by {
                        reveal(spec_parse_from);
                    }
                    gst = nst;
                    }
                    return Ok((pos, 0, sort_override, pending, Ghost(gst)));
                }
                let unit0 = match resolve_param(word.as_str(), value, ':') {
                    Ok(u) => u,
                    Err(e) => {
                        proof {
                            assert(spec_parse_from(cs@, top_level, gst) is None) by {
                        reveal(spec_parse_from);
                    }
                        }
                        return Err(e);
                    },
                };
                let unit = wrap_polarity(unit0, polarity);
                proof {
                    let nst = spec_complete(gst, unit@, pos as int);
                assert(spec_parse_from(cs@, top_level, nst) == spec_parse_from(
                    cs@,
                    top_level,
                    gst,
                )) by {
                    reveal(spec_parse_from);
                }
                gst = nst;
                }
                complete_unit(restrictions, pending, unit);
                return Ok((pos, 1, sort_override, None, Ghost(gst)));
            }
            // an operator separator: the value keeps the operator in front
            let op_start = pos;
            while pos < len && (cs[pos] == '<' || cs[pos] == '>' || cs[pos] == '=' || cs[pos]
                == '!')
                invariant
                    len == cs@.len(),
                    op_start <= pos <= len,
                    forall|k: int| op_start <= k < pos ==> !spec_is_value_stop(cs@[k]),
                decreases len - pos,
            {
                pos = pos + 1;
            }
            let value_start = op_start;
            while pos < len && !is_space(cs[pos]) && cs[pos] != '(' && cs[pos] != ')'
                invariant
                    len == cs@.len(),
                    value_start <= pos <= len,
                    forall|k: int| value_start <= k < pos ==> !spec_is_value_stop(cs@[k]),
                decreases len - pos,
            {
                pos = pos + 1;
            }
            proof {
                lemma_value_end_pin(cs@, value_start as int, pos as int);
            }
            let value_chars = slice_copy(cs, value_start, pos);
            let value = string_from_chars(&value_chars);
            let unit0 = match resolve_param(word.as_str(), value, sep) {
                Ok(u) => u,
                Err(e) => {
                    proof {
                        assert(spec_parse_from(cs@, top_level, gst) is None) by {
                        reveal(spec_parse_from);
                    }
                    }
                    return Err(e);
                },
            };
            let unit = wrap_polarity(unit0, polarity);
            proof {
                let nst = spec_complete(gst, unit@, pos as int);
            assert(spec_parse_from(cs@, top_level, nst) == spec_parse_from(
                cs@,
                top_level,
                gst,
            )) by {
                reveal(spec_parse_from);
            }
            gst = nst;
            }
            complete_unit(restrictions, pending, unit);
            return Ok((pos, 1, sort_override, None, Ghost(gst)));
}

/// Parses a query string: free words, `key:value` and `key<op>number`
/// parameters, quoted phrases, `/regex/` patterns, `(grouped)` and
/// `key:(sub)` subqueries, `-`/`--` polarity, `OR`/`XOR` pairs, a `sort:`
/// parameter, and a trailing `SORT field direction` clause at the top
/// level.  A parsed query carries only regex patterns the engine accepts.
pub fn parse_query(string: &str) -> (r: Result<Query, Errors>)
    ensures
        match r {
            Ok(q) => spec_parse(string@, true) == Some(q@) && spec_patterns_valid_q(q@),
            Err(_) => spec_parse(string@, true) is None,
        },
{
    let cs = chars_vec(string);
    parse_chars(&cs, true)
}

#[verifier::rlimit(100)]
#[verifier::spinoff_prover]
fn parse_chars(cs: &Vec<char>, top_level: bool) -> (r: Result<Query, Errors>)
    ensures
        match r {
            Ok(q) => spec_parse(cs@, top_level) == Some(q@) && spec_patterns_valid_q(q@),
            Err(_) => spec_parse(cs@, top_level) is None,
        },
    decreases cs@.len(), 1int,
{
    let mut restrictions: Vec<QueryRestriction> = Vec::new();
    let mut name_parts: Vec<String> = Vec::new();
    // a pending OR/XOR whose right-hand side has not arrived yet
    let mut pending: Option<(bool, Query)> = None;
    // what the previous completed unit was: nothing, a restriction, a word
    let mut last: u8 = 0;
    let mut sort_override: Option<Sort> = None;
    let mut pos: usize = 0;
    let len: usize = cs.len();
    let ghost mut gst: ParseSt = spec_init_state();
    proof {
        assert(gst.restrictions =~= crate::search::view_restrictions(restrictions@));
        assert(gst.names =~= names_view(name_parts@));
        assert(gst == spec_init_state());
        assert(spec_parse(cs@, top_level) == spec_parse_from(cs@, top_level, spec_init_state()))
            by {
            reveal(spec_parse);
            reveal(spec_parse_from);
        }
    }
    while pos < len
        invariant
            len == cs@.len(),
            pos <= len,
            gst.pos == pos as int,
            gst.restrictions == crate::search::view_restrictions(restrictions@),
            gst.names == names_view(name_parts@),
            gst.last == last as int,
            gst.sort_override == sort_override,
            match pending {
                Some(p) => gst.pending == Some((p.0, p.1@)),
                None => gst.pending is None,
            },
            spec_parse_from(cs@, top_level, gst) == spec_parse(cs@, top_level),
            forall|k: int|
                0 <= k < restrictions@.len() ==> spec_patterns_valid_r(
                    (#[trigger] restrictions@[k])@,
                ),
            match pending {
                Some(p) => spec_patterns_valid_q(p.1@),
                None => true,
            },
        ensures
            len == cs@.len(),
            gst.restrictions == crate::search::view_restrictions(restrictions@),
            gst.names == names_view(name_parts@),
            gst.sort_override == sort_override,
            match pending {
                Some(p) => gst.pending == Some((p.0, p.1@)),
                None => gst.pending is None,
            },
            spec_parse_from(cs@, top_level, gst) == spec_parse(cs@, top_level),
            pos == len,
            gst.pos == pos as int,
            forall|k: int|
                0 <= k < restrictions@.len() ==> spec_patterns_valid_r(
                    (#[trigger] restrictions@[k])@,
                ),
        decreases len - pos,
    {
        let c = cs[pos];
        if is_space(c) {
            proof {
                let nst = ParseSt { pos: pos + 1, ..gst };
            assert(spec_parse_from(cs@, top_level, nst) == spec_parse_from(
                cs@,
                top_level,
                gst,
            )) by {
                reveal(spec_parse_from);
            }
            gst = nst;
            }
            pos = pos + 1;
            continue;
        }
        let ghost pos0 = pos;
        // leading polarity
        let mut polarity: usize = 0;
        while pos < len && cs[pos] == '-'
            invariant
                len == cs@.len(),
                pos0 < len,
                pos0 <= pos <= len,
                polarity == pos - pos0,
                polarity <= 3,
                forall|k: int| pos0 <= k < pos ==> cs@[k] == '-',
                !spec_is_space(cs@[pos0 as int]),
                gst.pos == pos0 as int,
                spec_parse_from(cs@, top_level, gst) == spec_parse(cs@, top_level),
            decreases len - pos,
        {
            if polarity >= 3 {
                proof {
                    lemma_dash_end(cs@, pos0 as int);
                    assert(spec_dash_end(cs@, pos0 as int) - pos0 >= 3);
                    assert(spec_parse_from(cs@, top_level, gst) is None) by {
                        reveal(spec_parse_from);
                    }
                }
                return Err(Errors::InvalidPolarity);
            }
            polarity = polarity + 1;
            pos = pos + 1;
        }
        proof {
            lemma_dash_end_pin(cs@, pos0 as int, pos as int);
        }
        let ghost dend = pos as int;
        if polarity > 2 {
            proof {
                assert(spec_parse_from(cs@, top_level, gst) is None) by {
                    reveal(spec_parse_from);
                }
            }
            return Err(Errors::InvalidPolarity);
        }
        if pos >= len {
            if polarity > 0 {
                proof {
                    assert(spec_parse_from(cs@, top_level, gst) is None) by {
                        reveal(spec_parse_from);
                    }
                }
                return Err(Errors::InvalidPolarity);
            }
            proof {
                let nst = ParseSt { pos: len as int, ..gst };
                assert(spec_parse_from(cs@, top_level, nst) == spec_parse_from(
                    cs@,
                    top_level,
                    gst,
                )) by {
                    reveal(spec_parse_from);
                }
                gst = nst;
            }
            pos = len;
            break;
        }
        // a parenthesised group
        if cs[pos] == '(' {
            let close = match find_close(cs, pos + 1) {
                Some(p) => p,
                None => {
                    proof {
                        assert(spec_parse_from(cs@, top_level, gst) is None) by {
                        reveal(spec_parse_from);
                    }
                    }
                    return Err(Errors::UnclosedSubquery);
                },
            };
            let inner = slice_copy(cs, pos + 1, close);
            proof {
                assert(inner@.len() < cs@.len());
            }
            let sub = match parse_chars(&inner, false) {
                Ok(q) => q,
                Err(e) => {
                    proof {
                        assert(spec_parse_from(cs@, top_level, gst) is None) by {
                        reveal(spec_parse_from);
                    }
                    }
                    return Err(e);
                },
            };
            let unit = wrap_polarity(QueryRestriction::Group(sub), polarity);
            proof {
                let nst = spec_complete(gst, unit@, close + 1);
            assert(spec_parse_from(cs@, top_level, nst) == spec_parse_from(
                cs@,
                top_level,
                gst,
            )) by {
                reveal(spec_parse_from);
            }
            gst = nst;
            }
            complete_unit(&mut restrictions, pending, unit);
            pending = None;
            last = 1;
            pos = close + 1;
            continue;
        }
        if cs[pos] == ')' {
            proof {
                assert(spec_parse_from(cs@, top_level, gst) is None) by {
                    reveal(spec_parse_from);
                }
            }
            return Err(Errors::UnclosedSubquery);
        }
        // a word
        let word_start = pos;
        while pos < len && !is_word_delim(cs[pos])
            invariant
                len == cs@.len(),
                word_start <= pos <= len,
                forall|k: int| word_start <= k < pos ==> !spec_is_word_delim(cs@[k]),
            decreases len - pos,
        {
            pos = pos + 1;
        }
        proof {
            lemma_word_end_pin(cs@, word_start as int, pos as int);
        }
        let ghost wend = pos as int;
        let word_chars = slice_copy(cs, word_start, pos);
        let word = string_from_chars(&word_chars);
        let at_sep = pos < len && (cs[pos] == ':' || cs[pos] == '<' || cs[pos] == '>' || cs[pos]
            == '=' || cs[pos] == '!');
        if at_sep {
            if word.as_str().is_empty() {
                proof {
                    assert(spec_parse_from(cs@, top_level, gst) is None) by {
                        reveal(spec_parse_from);
                    }
                }
                return Err(Errors::AttemptedEmptyParamName);
            }
            let sep = cs[pos];
            match handle_param(
                cs,
                top_level,
                word,
                polarity,
                pos,
                sep,
                &mut restrictions,
                pending,
                sort_override,
                Ghost(gst),
            ) {
                Ok((np, nlast, nsort, npending, ngst)) => {
                    proof {
                        gst = ngst@;
                    }
                    pos = np;
                    last = nlast;
                    sort_override = nsort;
                    pending = npending;
                    continue;
                },
                Err(e) => {
                    return Err(e);
                },
            }
        }
        // a plain word
        if word.as_str().is_empty() {
            proof {
                assert(spec_parse_from(cs@, top_level, gst) is None) by {
                    reveal(spec_parse_from);
                }
            }
            return Err(Errors::AttemptedEmptyParamName);
        }
        if str_eq(word.as_str(), "OR") || str_eq(word.as_str(), "XOR") {
            if polarity > 0 {
                proof {
                    assert(spec_parse_from(cs@, top_level, gst) is None) by {
                        reveal(spec_parse_from);
                    }
                }
                return Err(Errors::InvalidOr);
            }
            match pending {
                Some(_) => {
                    proof {
                        assert(spec_parse_from(cs@, top_level, gst) is None) by {
                        reveal(spec_parse_from);
                    }
                    }
                    return Err(Errors::InvalidOr);
                },
                None => {},
            }
            let is_xor = str_eq(word.as_str(), "XOR");
            if last == 1 {
                let ghost pre = restrictions@;
                let left_restriction = match restrictions.pop() {
                    Some(r0) => r0,
                    None => {
                        proof {
                            assert(spec_parse_from(cs@, top_level, gst) is None) by {
                        reveal(spec_parse_from);
                    }
                        }
                        return Err(Errors::InvalidOr);
                    },
                };
                let left = wrap_restriction(left_restriction, String::new());
                proof {
                    assert(crate::search::view_restrictions(restrictions@) =~= gst.restrictions.drop_last());
                    assert(crate::search::view_restriction(left_restriction) == gst.restrictions.last());
                    let nst = ParseSt {
                        restrictions: gst.restrictions.drop_last(),
                        names: gst.names,
                        pending: Some((is_xor, spec_wrap(gst.restrictions.last(), Seq::empty()))),
                        last: 0,
                        sort_override: gst.sort_override,
                        pos: pos as int,
                    };
                assert(spec_parse_from(cs@, top_level, nst) == spec_parse_from(
                    cs@,
                    top_level,
                    gst,
                )) by {
                    reveal(spec_parse_from);
                }
                gst = nst;
                }
                pending = Some((is_xor, left));
            } else if last == 2 {
                let ghost pren = name_parts@;
                let left_word = match name_parts.pop() {
                    Some(w) => w,
                    None => {
                        proof {
                            assert(spec_parse_from(cs@, top_level, gst) is None) by {
                        reveal(spec_parse_from);
                    }
                        }
                        return Err(Errors::InvalidOr);
                    },
                };
                let left = wrap_restriction(
                    QueryRestriction::Fuzzy(left_word.clone()),
                    left_word,
                );
                proof {
                    assert(names_view(name_parts@) =~= gst.names.drop_last());
                    assert(left_word@ == gst.names.last());
                    let nst = ParseSt {
                        restrictions: gst.restrictions,
                        names: gst.names.drop_last(),
                        pending: Some(
                            (
                                is_xor,
                                spec_wrap(
                                    crate::search::QueryRestrictionV::Fuzzy(gst.names.last()),
                                    gst.names.last(),
                                ),
                            ),
                        ),
                        last: 0,
                        sort_override: gst.sort_override,
                        pos: pos as int,
                    };
                assert(spec_parse_from(cs@, top_level, nst) == spec_parse_from(
                    cs@,
                    top_level,
                    gst,
                )) by {
                    reveal(spec_parse_from);
                }
                gst = nst;
                }
                pending = Some((is_xor, left));
            } else {
                proof {
                    assert(spec_parse_from(cs@, top_level, gst) is None) by {
                        reveal(spec_parse_from);
                    }
                }
                return Err(Errors::InvalidOr);
            }
            last = 0;
            continue;
        }
        if str_eq(word.as_str(), "SORT") {
            if !top_level || polarity > 0 {
                proof {
                    assert(spec_parse_from(cs@, top_level, gst) is None) by {
                        reveal(spec_parse_from);
                    }
                }
                return Err(Errors::NotSortable);
            }
            // the trailing sort clause: a field and a direction, then the end
            let parsed = parse_sort_clause(cs, pos);
            match parsed {
                Ok(sort) => {
                    proof {
                        let nst = ParseSt { sort_override: Some(sort), pos: len as int, ..gst };
                    assert(spec_parse_from(cs@, top_level, nst) == spec_parse_from(
                        cs@,
                        top_level,
                        gst,
                    )) by {
                        reveal(spec_parse_from);
                    }
                    gst = nst;
                    }
                    sort_override = Some(sort);
                    pos = len;
                    continue;
                },
                Err(e) => {
                    proof {
                        assert(spec_parse_from(cs@, top_level, gst) is None) by {
                        reveal(spec_parse_from);
                    }
                    }
                    return Err(e);
                },
            }
        }
        // an ordinary word
        if polarity > 0 {
            let inner = wrap_restriction(QueryRestriction::Fuzzy(word.clone()), word);
            let unit = if polarity == 1 {
                QueryRestriction::Not(inner)
            } else {
                QueryRestriction::LenientNot(inner)
            };
            proof {
                let nst = spec_complete(gst, unit@, pos as int);
            assert(spec_parse_from(cs@, top_level, nst) == spec_parse_from(
                cs@,
                top_level,
                gst,
            )) by {
                reveal(spec_parse_from);
            }
            gst = nst;
            }
            complete_unit(&mut restrictions, pending, unit);
            pending = None;
            last = 1;
            continue;
        }
        match pending {
            Some((is_xor, left)) => {
                let right = wrap_restriction(QueryRestriction::Fuzzy(word.clone()), word);
                let combined = if is_xor {
                    QueryRestriction::Xor(left, right)
                } else {
                    QueryRestriction::Or(left, right)
                };
                let ghost pre = restrictions@;
                restrictions.push(combined);
                proof {
                    lemma_vr_push(pre, combined);
                    let nst = ParseSt {
                        restrictions: gst.restrictions.push(combined@),
                        names: gst.names,
                        pending: None,
                        last: 1,
                        sort_override: gst.sort_override,
                        pos: pos as int,
                    };
                assert(spec_parse_from(cs@, top_level, nst) == spec_parse_from(
                    cs@,
                    top_level,
                    gst,
                )) by {
                    reveal(spec_parse_from);
                }
                gst = nst;
                }
                pending = None;
                last = 1;
            },
            None => {
                proof {
                    let nst = ParseSt {
                        restrictions: gst.restrictions,
                        names: gst.names.push(word@),
                        pending: gst.pending,
                        last: 2,
                        sort_override: gst.sort_override,
                        pos: pos as int,
                    };
                assert(spec_parse_from(cs@, top_level, nst) == spec_parse_from(
                    cs@,
                    top_level,
                    gst,
                )) by {
                    reveal(spec_parse_from);
                }
                gst = nst;
                }
                name_parts.push(word);
                proof {
                    assert(gst.names =~= names_view(name_parts@));
                }
                last = 2;
            },
        }
    }
    proof {
        assert(spec_parse_from(cs@, top_level, gst) == spec_finish(top_level, gst)) by {
            reveal(spec_parse_from);
        }
    }
    match pending {
        Some(_) => {
            return Err(Errors::InvalidOr);
        },
        None => {},
    }
    let name = join_words(&name_parts);
    let ghost pre_fuzzy = restrictions@;
    if !name.as_str().is_empty() {
        restrictions.push(QueryRestriction::Fuzzy(name.clone()));
        proof {
            lemma_vr_push(pre_fuzzy, QueryRestriction::Fuzzy(name));
        }
    }
    let sort = if !top_level {
        Sort::Unsorted
    } else {
        match sort_override {
            Some(s) => s,
            None => if !name.as_str().is_empty() {
                Sort::Fuzzy
            } else {
                Sort::Alphabet(Text::Name, Ordering::Ascending)
            },
        }
    };
    let q = Query { name, restrictions, sort };
    proof {
        crate::search::lemma_view_restrictions(q.restrictions@);
        assert(q@.name == spec_join_names(gst.names));
        assert(q@.restrictions =~= spec_finish(top_level, gst)->0.restrictions);
        assert(q@ == spec_finish(top_level, gst)->0);
        assert forall|i: int|
            0 <= i < q@.restrictions.len() implies spec_patterns_valid_r(
            #[trigger] q@.restrictions[i],
        ) by {
            assert(q@.restrictions[i] == crate::search::view_restriction(q.restrictions@[i]));
            if i < pre_fuzzy.len() {
                assert(q.restrictions@[i] == pre_fuzzy[i]);
            }
        }
    }
    Ok(q)
}

/// Reads the trailing `SORT field direction` clause: a sortable field and
/// `ascending` or `descending`, which must close the query.
fn parse_sort_clause(cs: &Vec<char>, start: usize) -> (r: Result<Sort, Errors>)
    requires
        start <= cs@.len(),
    ensures
        match r {
            Ok(s) => spec_sort_clause_of(cs@, start as int) == Some(s),
            Err(_) => spec_sort_clause_of(cs@, start as int) is None,
        },
{
    let len = cs.len();
    let mut pos = start;
    while pos < len && is_space(cs[pos])
        invariant
            len == cs@.len(),
            start <= pos <= len,
            forall|k: int| start <= k < pos ==> spec_is_space(cs@[k]),
        decreases len - pos,
    {
        pos = pos + 1;
    }
    proof {
        lemma_nonspace_pin(cs@, start as int, pos as int);
    }
    let f0 = pos;
    while pos < len && !is_word_delim(cs[pos])
        invariant
            len == cs@.len(),
            f0 <= pos <= len,
            forall|k: int| f0 <= k < pos ==> !spec_is_word_delim(cs@[k]),
        decreases len - pos,
    {
        pos = pos + 1;
    }
    proof {
        lemma_word_end_pin(cs@, f0 as int, pos as int);
    }
    let f1 = pos;
    let field_word = string_from_chars(&slice_copy(cs, f0, f1));
    let field = match get_property_from_name(field_word.as_str()) {
        Ok(p) => Some(p),
        Err(_) => None,
    };
    while pos < len && is_space(cs[pos])
        invariant
            len == cs@.len(),
            f1 <= pos <= len,
            forall|k: int| f1 <= k < pos ==> spec_is_space(cs@[k]),
        decreases len - pos,
    {
        pos = pos + 1;
    }
    proof {
        lemma_nonspace_pin(cs@, f1 as int, pos as int);
    }
    let d0 = pos;
    while pos < len && !is_word_delim(cs[pos])
        invariant
            len == cs@.len(),
            d0 <= pos <= len,
            forall|k: int| d0 <= k < pos ==> !spec_is_word_delim(cs@[k]),
        decreases len - pos,
    {
        pos = pos + 1;
    }
    proof {
        lemma_word_end_pin(cs@, d0 as int, pos as int);
    }
    let d1 = pos;
    let dir_word = string_from_chars(&slice_copy(cs, d0, d1));
    let direction = if str_eq(dir_word.as_str(), "ascending") {
        Some(Ordering::Ascending)
    } else if str_eq(dir_word.as_str(), "descending") {
        Some(Ordering::Descending)
    } else {
        None
    };
    while pos < len && is_space(cs[pos])
        invariant
            len == cs@.len(),
            d1 <= pos <= len,
            forall|k: int| d1 <= k < pos ==> spec_is_space(cs@[k]),
        decreases len - pos,
    {
        pos = pos + 1;
    }
    proof {
        lemma_nonspace_pin(cs@, d1 as int, pos as int);
    }
    if pos < len {
        return Err(Errors::InvalidOrdering(String::new()));
    }
    let direction = match direction {
        Some(d) => d,
        None => {
            return Err(Errors::InvalidOrdering(dir_word));
        },
    };
    match field {
        Some(Properties::NumProperty(f)) => Ok(Sort::Numeric(f, direction)),
        Some(Properties::StringProperty(f)) => Ok(Sort::Alphabet(f, direction)),
        _ => Err(Errors::NotSortable),
    }
}

} // verus!
