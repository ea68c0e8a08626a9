//! Data structures and search routines for a card catalogue: typed card
//! records, an imprecise numeric algebra, a query language with a ternary
//! evaluation engine, and the sorting rules used to order search results.
use vstd::prelude::*;

pub mod cards;
pub mod numbers;
pub mod search;
pub mod text;

verus! {

/// One step of the fold applied before fuzzy-ish comparisons: the five
/// supported diacritics collapse to their base vowel, and quotes, periods
/// and commas vanish.  Every other character is kept as it is.
pub open spec fn clean_char(c: char) -> Seq<char> {
    if c == '\u{e4}' {
        seq!['a']
    } else if c == '\u{eb}' {
        seq!['e']
    } else if c == '\u{ef}' {
        seq!['i']
    } else if c == '\u{f6}' {
        seq!['o']
    } else if c == '\u{fc}' {
        seq!['u']
    } else if c == '"' || c == '\'' || c == '.' || c == ',' {
        Seq::empty()
    } else {
        seq![c]
    }
}

/// The fold of `clean_char` over a whole string.
pub open spec fn clean_seq(s: Seq<char>) -> Seq<char>
    decreases s.len(),
{
    if s.len() == 0 {
        Seq::empty()
    } else {
        clean_char(s[0]) + clean_seq(s.drop_first())
    }
}

/// Lower-casing of the alphabet this library folds: ASCII letters and the
/// five supported diacritics.  Other characters are kept as they are.
pub open spec fn lower_char(c: char) -> char {
    if 'A' <= c && c <= 'Z' {
        ((c as int) + 32) as char
    } else if c == '\u{c4}' {
        '\u{e4}'
    } else if c == '\u{cb}' {
        '\u{eb}'
    } else if c == '\u{cf}' {
        '\u{ef}'
    } else if c == '\u{d6}' {
        '\u{f6}'
    } else if c == '\u{dc}' {
        '\u{fc}'
    } else {
        c
    }
}

/// Character-wise lower-casing of a string.
pub open spec fn lower_seq(s: Seq<char>) -> Seq<char> {
    s.map_values(|c: char| lower_char(c))
}

/// The canonical form used wherever the search compares text loosely:
/// lower-case first, then clean.
pub open spec fn canon_seq(s: Seq<char>) -> Seq<char> {
    clean_seq(lower_seq(s))
}

proof fn lemma_clean_seq_push(s: Seq<char>, c: char)
    ensures
        clean_seq(s.push(c)) == clean_seq(s) + clean_char(c),
    decreases s.len(),
{
    if s.len() == 0 {
        assert(s.push(c)[0] == c);
        assert(s.push(c).drop_first() =~= Seq::<char>::empty());
        assert(clean_seq(s.push(c)) == clean_char(c) + clean_seq(Seq::<char>::empty()));
        assert(clean_char(c) + Seq::<char>::empty() =~= clean_char(c));
        assert(clean_seq(s) + clean_char(c) =~= clean_char(c));
    } else {
        assert(s.push(c).drop_first() =~= s.drop_first().push(c));
        lemma_clean_seq_push(s.drop_first(), c);
        assert(clean_seq(s.push(c)) =~= clean_seq(s) + clean_char(c));
    }
}

/// The exec mirror of `lower_char`.
pub fn lower_char_exec(c: char) -> (r: char)
    ensures
        r == lower_char(c),
{
    if 'A' <= c && c <= 'Z' {
        (((c as u8) + 32) as char)
    } else if c == '\u{c4}' {
        '\u{e4}'
    } else if c == '\u{cb}' {
        '\u{eb}'
    } else if c == '\u{cf}' {
        '\u{ef}'
    } else if c == '\u{d6}' {
        '\u{f6}'
    } else if c == '\u{dc}' {
        '\u{fc}'
    } else {
        c
    }
}

fn clean_chars(cs: &Vec<char>, lower_first: bool) -> (r: Vec<char>)
    ensures
        lower_first ==> r@ == clean_seq(lower_seq(cs@)),
        !lower_first ==> r@ == clean_seq(cs@),
{
    let ghost src: Seq<char> = if lower_first {
        lower_seq(cs@)
    } else {
        cs@
    };
    let mut r: Vec<char> = Vec::new();
    let mut i: usize = 0;
    while i < cs.len()
        invariant
            i <= cs@.len(),
            src.len() == cs@.len(),
            src == if lower_first {
                lower_seq(cs@)
            } else {
                cs@
            },
            r@ == clean_seq(src.take(i as int)),
        decreases cs@.len() - i,
    {
        let c0 = cs[i];
        let c = if lower_first {
            lower_char_exec(c0)
        } else {
            c0
        };
        assert(c == src[i as int]);
        if c == '\u{e4}' {
            r.push('a');
        } else if c == '\u{eb}' {
            r.push('e');
        } else if c == '\u{ef}' {
            r.push('i');
        } else if c == '\u{f6}' {
            r.push('o');
        } else if c == '\u{fc}' {
            r.push('u');
        } else if c == '"' || c == '\'' || c == '.' || c == ',' {
            // dropped
        } else {
            r.push(c);
        }
        proof {
            assert(src.take(i + 1) =~= src.take(i as int).push(src[i as int]));
            lemma_clean_seq_push(src.take(i as int), src[i as int]);
            assert(r@ =~= clean_seq(src.take(i as int)) + clean_char(src[i as int]));
        }
        i = i + 1;
    }
    proof {
        assert(src.take(src.len() as int) =~= src);
    }
    r
}

/// The canonical loose-match form of a string: lower-cased, diacritics
/// folded, quotes and separators removed.
pub fn clean_ascii(string: &str) -> (r: String)
    ensures
        r@ == canon_seq(string@),
{
    let cs = crate::text::chars_vec(string);
    let cleaned = clean_chars(&cs, true);
    crate::text::string_from_chars(&cleaned)
}

/// The cleaning step alone, without lower-casing.
pub fn clean_ascii_keep_case(string: &str) -> (r: String)
    ensures
        r@ == clean_seq(string@),
{
    let cs = crate::text::chars_vec(string);
    let cleaned = clean_chars(&cs, false);
    crate::text::string_from_chars(&cleaned)
}

/// Character-wise lower-casing of a string, used before regex matches.
pub fn lower_ascii(string: &str) -> (r: String)
    ensures
        r@ == lower_seq(string@),
{
    let cs = crate::text::chars_vec(string);
    let mut r: Vec<char> = Vec::new();
    let mut i: usize = 0;
    while i < cs.len()
        invariant
            i <= cs@.len(),
            r@ == lower_seq(cs@.take(i as int)),
        decreases cs@.len() - i,
    {
        r.push(lower_char_exec(cs[i]));
        proof {
            assert(cs@.take(i + 1) =~= cs@.take(i as int).push(cs@[i as int]));
            assert(lower_seq(cs@.take(i + 1)) =~= lower_seq(cs@.take(i as int)).push(
                lower_char(cs@[i as int])));
        }
        i = i + 1;
    }
    proof {
        assert(cs@.take(cs@.len() as int) =~= cs@);
        assert(lower_seq(cs@) =~= lower_seq(cs@.take(cs@.len() as int)));
    }
    crate::text::string_from_chars(&r)
}

} // verus!
