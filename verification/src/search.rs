//! The query AST, the ternary evaluation of queries against records, and
//! the per-search cache for reverse devours lookups.
pub mod query_parser;

use vstd::prelude::*;
use crate::cards::{Card, CardId, Keyword, KeywordData};
use crate::cards::kins::{KinComparison, KinComparisonV};
use crate::cards::properties::{Array, Number, Read, Text};
use crate::cards::rich_text::spec_render_string;
use crate::numbers::{Comparison, Compare, MaybeImprecise};
use crate::numbers::compare::{spec_and, spec_from_bool, spec_not, spec_or, spec_xor};
use crate::text::{
    clone_strings,
    regex_is_match,
    regex_match,
    regex_valid,
    seq_contains,
    str_contains,
    str_eq,
};
use crate::{canon_seq, clean_ascii, lower_ascii, lower_seq};

pub use crate::numbers::compare::Ternary;

verus! {

/// Errors that may arise while reading a query string.
#[derive(Debug)]
pub enum Errors {
    NonRegexable(String),
    InvalidOr,
    InvalidComparisonString,
    UnknownSubQueryParam(String),
    UnknownStringParam(String),
    InvalidOrdering(String),
    InvalidPolarity,
    NotSortable,
    UnclosedSubquery,
    UnclosedString,
    UnclosedRegex,
    RegexErr(String),
    AttemptedEmptyParamName,
}

/// A direction for sorting.
#[derive(Debug, Clone, Copy, PartialEq, Eq, Structural)]
pub enum Ordering {
    Ascending,
    Descending,
}

/// How search results are ordered.
#[derive(Debug, Clone, Copy, PartialEq, Eq, Structural)]
pub enum Sort {
    /// Keep the order the cards came in.
    Unsorted,
    /// Order by how well the cards match the query's free text.
    Fuzzy,
    Alphabet(Text, Ordering),
    Numeric(Number, Ordering),
}

/// A comparison a query can hold against a text property.
#[derive(Debug)]
pub enum TextComparison {
    Contains(String),
    EqualTo(String),
    /// The text matches a regex pattern, run over the lower-cased text.
    HasMatch(String),
}

/// A search query: free text, a list of restrictions, and a sorting rule.
#[derive(Debug)]
pub struct Query {
    pub name: String,
    pub restrictions: Vec<QueryRestriction>,
    pub sort: Sort,
}

/// One restriction a query applies to records.
#[derive(Debug)]
pub enum QueryRestriction {
    Fuzzy(String),
    Devours(Query),
    DevouredBy(Query),
    NumberComparison(Number, Comparison),
    TextComparison(Text, TextComparison),
    Has(Array, TextComparison),
    KinComparison(KinComparison),
    HasKw(TextComparison),
    Not(Query),
    LenientNot(Query),
    Group(Query),
    Or(Query, Query),
    Xor(Query, Query),
}

/// The mathematical form of a text comparison.
pub enum TextComparisonV {
    Contains(Seq<char>),
    EqualTo(Seq<char>),
    HasMatch(Seq<char>),
}

/// The mathematical form of a query.
pub struct QueryV {
    pub name: Seq<char>,
    pub restrictions: Seq<QueryRestrictionV>,
    pub sort: Sort,
}

/// The mathematical form of a restriction.
pub enum QueryRestrictionV {
    Fuzzy(Seq<char>),
    Devours(QueryV),
    DevouredBy(QueryV),
    NumberComparison(Number, Comparison),
    TextComparison(Text, TextComparisonV),
    Has(Array, TextComparisonV),
    KinComparison(KinComparisonV),
    HasKw(TextComparisonV),
    Not(QueryV),
    LenientNot(QueryV),
    Group(QueryV),
    Or(QueryV, QueryV),
    Xor(QueryV, QueryV),
}

impl View for TextComparison {
    type V = TextComparisonV;

    open spec fn view(&self) -> TextComparisonV {
        match self {
            TextComparison::Contains(s) => TextComparisonV::Contains(s@),
            TextComparison::EqualTo(s) => TextComparisonV::EqualTo(s@),
            TextComparison::HasMatch(s) => TextComparisonV::HasMatch(s@),
        }
    }
}

/// The view of a restriction, recursively.
pub open spec fn view_restriction(r: QueryRestriction) -> QueryRestrictionV
    decreases r,
{
    match r {
        QueryRestriction::Fuzzy(s) => QueryRestrictionV::Fuzzy(s@),
        QueryRestriction::Devours(q) => QueryRestrictionV::Devours(view_query(q)),
        QueryRestriction::DevouredBy(q) => QueryRestrictionV::DevouredBy(view_query(q)),
        QueryRestriction::NumberComparison(n, c) => QueryRestrictionV::NumberComparison(n, c),
        QueryRestriction::TextComparison(t, tc) => QueryRestrictionV::TextComparison(t, tc@),
        QueryRestriction::Has(a, tc) => QueryRestrictionV::Has(a, tc@),
        QueryRestriction::KinComparison(kc) => QueryRestrictionV::KinComparison(kc@),
        QueryRestriction::HasKw(tc) => QueryRestrictionV::HasKw(tc@),
        QueryRestriction::Not(q) => QueryRestrictionV::Not(view_query(q)),
        QueryRestriction::LenientNot(q) => QueryRestrictionV::LenientNot(view_query(q)),
        QueryRestriction::Group(q) => QueryRestrictionV::Group(view_query(q)),
        QueryRestriction::Or(a, b) => QueryRestrictionV::Or(view_query(a), view_query(b)),
        QueryRestriction::Xor(a, b) => QueryRestrictionV::Xor(view_query(a), view_query(b)),
    }
}

/// The views of a list of restrictions, in order.
pub open spec fn view_restrictions(rs: Seq<QueryRestriction>) -> Seq<QueryRestrictionV>
    decreases rs,
{
    if rs.len() == 0 {
        Seq::empty()
    } else {
        view_restrictions(rs.subrange(0, rs.len() - 1)).push(view_restriction(rs[rs.len() - 1]))
    }
}

/// `view_restrictions` keeps the length and maps each place.
pub proof fn lemma_view_restrictions(rs: Seq<QueryRestriction>)
    ensures
        view_restrictions(rs).len() == rs.len(),
        forall|i: int|
            0 <= i < rs.len() ==> #[trigger] view_restrictions(rs)[i] == view_restriction(
                rs[i],
            ),
    decreases rs.len(),
{
    if rs.len() > 0 {
        let pre = rs.subrange(0, rs.len() - 1);
        lemma_view_restrictions(pre);
        assert forall|i: int|
            0 <= i < rs.len() implies #[trigger] view_restrictions(rs)[i] == view_restriction(
            rs[i],
        ) by {
            if i < rs.len() - 1 {
                assert(view_restrictions(rs)[i] == view_restrictions(pre)[i]);
                assert(pre[i] == rs[i]);
            }
        }
    }
}

/// The view of a query, recursively.
pub open spec fn view_query(q: Query) -> QueryV
    decreases q,
    via view_query_decreases
{
    QueryV { name: q.name@, restrictions: view_restrictions(q.restrictions@), sort: q.sort }
}

#[via_fn]
proof fn view_query_decreases(q: Query) {
    assert(decreases_to!(q => q.restrictions));
    assert(decreases_to!(q.restrictions => q.restrictions@));
}

impl View for Query {
    type V = QueryV;

    open spec fn view(&self) -> QueryV {
        view_query(*self)
    }
}

impl View for QueryRestriction {
    type V = QueryRestrictionV;

    open spec fn view(&self) -> QueryRestrictionV {
        view_restriction(*self)
    }
}

impl Clone for TextComparison {
    fn clone(&self) -> (r: Self)
        ensures
            r@ == self@,
    {
        match self {
            TextComparison::Contains(s) => TextComparison::Contains(s.clone()),
            TextComparison::EqualTo(s) => TextComparison::EqualTo(s.clone()),
            TextComparison::HasMatch(s) => TextComparison::HasMatch(s.clone()),
        }
    }
}

impl Clone for Query {
    fn clone(&self) -> (r: Self)
        ensures
            r@ == self@,
        decreases *self,
    {
        let mut restrictions: Vec<QueryRestriction> = Vec::new();
        let mut i: usize = 0;
        while i < self.restrictions.len()
            invariant
                i <= self.restrictions@.len(),
                restrictions@.len() == i,
                forall|j: int|
                    0 <= j < i ==> #[trigger] view_restriction(restrictions@[j])
                        == view_restriction(self.restrictions@[j]),
            decreases self.restrictions@.len() - i,
        {
            proof {
                assert(decreases_to!(*self => self.restrictions));
                assert(decreases_to!(self.restrictions => self.restrictions@));
                assert(decreases_to!(self.restrictions@ => self.restrictions@[i as int]));
                assert(decreases_to!(*self => self.restrictions@[i as int]));
            }
            restrictions.push(self.restrictions[i].clone());
            i = i + 1;
        }
        let r = Query { name: self.name.clone(), restrictions, sort: self.sort };
        proof {
            lemma_view_restrictions(r.restrictions@);
            lemma_view_restrictions(self.restrictions@);
            assert(r@.restrictions =~= self@.restrictions);
        }
        r
    }
}

impl Clone for QueryRestriction {
    fn clone(&self) -> (r: Self)
        ensures
            r@ == self@,
        decreases *self,
    {
        match self {
            QueryRestriction::Fuzzy(s) => QueryRestriction::Fuzzy(s.clone()),
            QueryRestriction::Devours(q) => {
                proof {
                    assert(decreases_to!(*self => self->Devours_0));
                }
                QueryRestriction::Devours(q.clone())
            },
            QueryRestriction::DevouredBy(q) => {
                proof {
                    assert(decreases_to!(*self => self->DevouredBy_0));
                }
                QueryRestriction::DevouredBy(q.clone())
            },
            QueryRestriction::NumberComparison(n, c) => QueryRestriction::NumberComparison(
                *n,
                *c,
            ),
            QueryRestriction::TextComparison(t, tc) => QueryRestriction::TextComparison(
                *t,
                tc.clone(),
            ),
            QueryRestriction::Has(a, tc) => QueryRestriction::Has(*a, tc.clone()),
            QueryRestriction::KinComparison(kc) => QueryRestriction::KinComparison(kc.clone()),
            QueryRestriction::HasKw(tc) => QueryRestriction::HasKw(tc.clone()),
            QueryRestriction::Not(q) => {
                proof {
                    assert(decreases_to!(*self => self->Not_0));
                }
                QueryRestriction::Not(q.clone())
            },
            QueryRestriction::LenientNot(q) => {
                proof {
                    assert(decreases_to!(*self => self->LenientNot_0));
                }
                QueryRestriction::LenientNot(q.clone())
            },
            QueryRestriction::Group(q) => {
                proof {
                    assert(decreases_to!(*self => self->Group_0));
                }
                QueryRestriction::Group(q.clone())
            },
            QueryRestriction::Or(a, b) => {
                proof {
                    assert(decreases_to!(*self => self->Or_0));
                    assert(decreases_to!(*self => self->Or_1));
                }
                QueryRestriction::Or(a.clone(), b.clone())
            },
            QueryRestriction::Xor(a, b) => {
                proof {
                    assert(decreases_to!(*self => self->Xor_0));
                    assert(decreases_to!(*self => self->Xor_1));
                }
                QueryRestriction::Xor(a.clone(), b.clone())
            },
        }
    }
}

/// Whether two text comparisons say the same thing.
pub fn text_comparison_eq(a: &TextComparison, b: &TextComparison) -> (r: bool)
    ensures
        r == (a@ == b@),
{
    match (a, b) {
        (TextComparison::Contains(x), TextComparison::Contains(y)) => str_eq(
            x.as_str(),
            y.as_str(),
        ),
        (TextComparison::EqualTo(x), TextComparison::EqualTo(y)) => str_eq(
            x.as_str(),
            y.as_str(),
        ),
        (TextComparison::HasMatch(x), TextComparison::HasMatch(y)) => str_eq(
            x.as_str(),
            y.as_str(),
        ),
        _ => false,
    }
}

/// Whether two queries are the same, structurally.
pub fn query_eq(a: &Query, b: &Query) -> (r: bool)
    ensures
        r == (a@ == b@),
    decreases *a,
{
    if !str_eq(a.name.as_str(), b.name.as_str()) {
        return false;
    }
    if a.sort != b.sort {
        return false;
    }
    if a.restrictions.len() != b.restrictions.len() {
        proof {
            lemma_view_restrictions(a.restrictions@);
            lemma_view_restrictions(b.restrictions@);
        }
        return false;
    }
    let mut i: usize = 0;
    while i < a.restrictions.len()
        invariant
            a.name@ == b.name@,
            a.sort == b.sort,
            a.restrictions@.len() == b.restrictions@.len(),
            i <= a.restrictions@.len(),
            forall|j: int|
                0 <= j < i ==> #[trigger] view_restriction(a.restrictions@[j])
                    == view_restriction(b.restrictions@[j]),
        decreases a.restrictions@.len() - i,
    {
        proof {
            assert(decreases_to!(*a => a.restrictions));
            assert(decreases_to!(a.restrictions => a.restrictions@));
            assert(decreases_to!(a.restrictions@ => a.restrictions@[i as int]));
            assert(decreases_to!(*a => a.restrictions@[i as int]));
        }
        if !restriction_eq(&a.restrictions[i], &b.restrictions[i]) {
            proof {
                lemma_view_restrictions(a.restrictions@);
                lemma_view_restrictions(b.restrictions@);
                assert(a@.restrictions[i as int] != b@.restrictions[i as int]);
            }
            return false;
        }
        i = i + 1;
    }
    proof {
        lemma_view_restrictions(a.restrictions@);
        lemma_view_restrictions(b.restrictions@);
        assert(a@.restrictions =~= b@.restrictions);
    }
    true
}

/// Whether a text comparison holds of a present text property: contains and
/// equality work over the cleaned canonical form, a regex runs over the
/// lower-cased text.
pub open spec fn spec_text_cmp_holds(t: Seq<char>, cmp: TextComparisonV) -> bool {
    match cmp {
        TextComparisonV::Contains(n) => seq_contains(canon_seq(t), canon_seq(n)),
        TextComparisonV::EqualTo(n) => canon_seq(t) == canon_seq(n),
        TextComparisonV::HasMatch(p) => regex_valid(p) && regex_is_match(p, lower_seq(t)),
    }
}

/// Whether a text comparison holds of one element of an array property or
/// of a keyword name: these compare lower-cased, without further cleaning.
pub open spec fn spec_elem_cmp_holds(item: Seq<char>, cmp: TextComparisonV) -> bool {
    match cmp {
        TextComparisonV::Contains(n) => seq_contains(lower_seq(item), lower_seq(n)),
        TextComparisonV::EqualTo(n) => lower_seq(item) == lower_seq(n),
        TextComparisonV::HasMatch(p) => regex_valid(p) && regex_is_match(p, lower_seq(item)),
    }
}

/// Whether a record's free text matches a needle: the cleaned needle must
/// occur in the cleaned name, type, description, kin name, or any keyword
/// name.
pub open spec fn spec_fuzzy<R: Read>(card: R, needle: Seq<char>) -> bool {
    let n = canon_seq(needle);
    ||| (card.spec_description() matches Some(d) && seq_contains(
        canon_seq(spec_render_string(d)),
        n,
    ))
    ||| (card.spec_name() matches Some(s) && seq_contains(canon_seq(s), n))
    ||| (card.spec_type() matches Some(s) && seq_contains(canon_seq(s), n))
    ||| (card.spec_kin() matches Some(k) && seq_contains(canon_seq(k.spec_name()), n))
    ||| (card.spec_keywords() matches Some(ks) && exists|i: int|
        0 <= i < ks.len() && seq_contains(canon_seq(#[trigger] ks[i].name@), n))
}

/// A card lies in the family a partial identity describes: each populated
/// field of the identity holds of the card, under the rules the evaluator
/// uses for the matching restriction.
pub open spec fn spec_matches_id(d: Card, id: CardId) -> bool {
    &&& match id.name {
        Some(n) => seq_contains(canon_seq(d.name@), canon_seq(n@)),
        None => true,
    }
    &&& match id.card_type {
        Some(t) => seq_contains(canon_seq(d.card_type@), canon_seq(t@)),
        None => true,
    }
    &&& match id.description {
        Some(ds) => seq_contains(
            canon_seq(spec_render_string(d.description)),
            canon_seq(spec_render_string(ds)),
        ),
        None => true,
    }
    &&& match id.kin {
        Some(k) => match d.kin {
            Some(dk) => dk.spec_same_or_child(k),
            None => false,
        },
        None => true,
    }
    &&& match id.cost {
        Some(c) => c.spec_as_comparison().spec_compare_to(&d.spec_num(Number::Cost))
            == Ternary::True,
        None => true,
    }
    &&& match id.health {
        Some(c) => c.spec_as_comparison().spec_compare_to(&d.spec_num(Number::Health))
            == Ternary::True,
        None => true,
    }
    &&& match id.power {
        Some(c) => c.spec_as_comparison().spec_compare_to(&d.spec_num(Number::Power))
            == Ternary::True,
        None => true,
    }
    &&& match id.defense {
        Some(c) => c.spec_as_comparison().spec_compare_to(&d.spec_num(Number::Defense))
            == Ternary::True,
        None => true,
    }
    &&& match id.flip_cost {
        Some(c) => c.spec_as_comparison().spec_compare_to(&d.spec_num(Number::FlipCost))
            == Ternary::True,
        None => true,
    }
    &&& match id.keywords {
        Some(ks) => forall|i: int|
            0 <= i < ks.len() ==> spec_keyword_covered(d, (#[trigger] ks[i]).name@),
        None => true,
    }
}

/// Some keyword of the card has a name that lower-contains the given one.
pub open spec fn spec_keyword_covered(d: Card, kname: Seq<char>) -> bool {
    exists|j: int|
        0 <= j < d.keywords@.len() && seq_contains(
            lower_seq((#[trigger] d.keywords@[j]).name@),
            lower_seq(kname),
        )
}

/// The ternary a query evaluates to on a record, against a catalogue.
pub open spec fn spec_eval<R: Read>(card: R, q: QueryV, catalog: Seq<Card>) -> Ternary
    decreases q, 0int,
{
    spec_eval_restrictions(card, q.restrictions, catalog)
}

/// The conjunction, in order, of a list of restrictions.
pub open spec fn spec_eval_restrictions<R: Read>(
    card: R,
    rs: Seq<QueryRestrictionV>,
    catalog: Seq<Card>,
) -> Ternary
    decreases rs, 3int,
{
    if rs.len() == 0 {
        Ternary::True
    } else {
        spec_and(
            spec_eval_restrictions(card, rs.subrange(0, rs.len() - 1), catalog),
            spec_eval_restriction(card, rs[rs.len() - 1], catalog),
        )
    }
}

/// The ternary one restriction evaluates to on a record.
pub open spec fn spec_eval_restriction<R: Read>(
    card: R,
    r: QueryRestrictionV,
    catalog: Seq<Card>,
) -> Ternary
    decreases r, 2int,
{
    match r {
        QueryRestrictionV::Fuzzy(s) => spec_from_bool(spec_fuzzy(card, s)),
        QueryRestrictionV::NumberComparison(f, c) => c.spec_compare_to(&card.spec_num(f)),
        QueryRestrictionV::TextComparison(f, tc) => match card.spec_text(f) {
            Some(t) => spec_from_bool(spec_text_cmp_holds(t, tc)),
            None => Ternary::Void,
        },
        QueryRestrictionV::Has(f, tc) => match card.spec_vec(f) {
            Some(items) => spec_from_bool(
                exists|i: int| 0 <= i < items.len() && spec_elem_cmp_holds(#[trigger] items[i], tc),
            ),
            None => Ternary::Void,
        },
        QueryRestrictionV::HasKw(tc) => match card.spec_keywords() {
            Some(ks) => spec_from_bool(
                exists|i: int|
                    0 <= i < ks.len() && spec_elem_cmp_holds(#[trigger] ks[i].name@, tc),
            ),
            None => Ternary::Void,
        },
        QueryRestrictionV::KinComparison(kc) => match card.spec_kin() {
            Some(k) => spec_from_bool(kc.spec_matches(k)),
            None => Ternary::Void,
        },
        QueryRestrictionV::Not(q) => spec_not(spec_eval(card, q, catalog)),
        QueryRestrictionV::LenientNot(q) => if spec_eval(card, q, catalog) == Ternary::True {
            Ternary::False
        } else {
            Ternary::True
        },
        QueryRestrictionV::Group(q) => spec_eval(card, q, catalog),
        QueryRestrictionV::Or(a, b) => spec_or(
            spec_eval(card, a, catalog),
            spec_eval(card, b, catalog),
        ),
        QueryRestrictionV::Xor(a, b) => spec_xor(
            spec_eval(card, a, catalog),
            spec_eval(card, b, catalog),
        ),
        QueryRestrictionV::Devours(q) => match card.spec_keywords() {
            Some(ks) => spec_from_bool(
                exists|i: int|
                    0 <= i < ks.len() && (#[trigger] ks[i]).name@ == "devours"@ && match ks[i].data {
                        Some(KeywordData::CardId(inner)) => spec_eval(*inner, q, catalog)
                            == Ternary::True,
                        _ => false,
                    },
            ),
            None => Ternary::Void,
        },
        QueryRestrictionV::DevouredBy(q) => match card.spec_name() {
            Some(n) => spec_from_bool(dby_name(n, q, catalog)),
            None => Ternary::False,
        },
    }
}

/// Some catalogue card with this name is devoured by a card matching the
/// subquery.
pub open spec fn dby_name(n: Seq<char>, q: QueryV, catalog: Seq<Card>) -> bool
    decreases q, 2int,
{
    exists|i: int|
        0 <= i < catalog.len() && (#[trigger] catalog[i]).name@ == n && spec_devoured(
            catalog[i],
            q,
            catalog,
        )
}

/// The card carries a devours keyword whose embedded identity covers some
/// catalogue card that matches the subquery: that card devours this one.
pub open spec fn spec_devoured(c: Card, q: QueryV, catalog: Seq<Card>) -> bool
    decreases q, 1int,
{
    exists|i: int|
        0 <= i < c.keywords@.len() && (#[trigger] c.keywords@[i]).name@ == "devours"@
            && match c.keywords@[i].data {
            Some(KeywordData::CardId(inner)) => exists|j: int|
                0 <= j < catalog.len() && spec_eval(#[trigger] catalog[j], q, catalog)
                    == Ternary::True && spec_matches_id(catalog[j], *inner),
            _ => false,
        }
}

/// The names of the catalogue cards devoured by a card matching the
/// subquery, in catalogue order.
pub open spec fn spec_devoured_names(q: QueryV, catalog: Seq<Card>, full: Seq<Card>) -> Seq<
    String,
>
    decreases catalog.len(),
{
    if catalog.len() == 0 {
        Seq::empty()
    } else {
        let pre = spec_devoured_names(q, catalog.subrange(0, catalog.len() - 1), full);
        if spec_devoured(catalog[catalog.len() - 1], q, full) {
            pre.push(catalog[catalog.len() - 1].name)
        } else {
            pre
        }
    }
}

/// A name occurs among the devoured names exactly when some catalogue card
/// bears it and is devoured.
#[verifier::rlimit(60)]
pub proof fn lemma_devoured_names_membership(
    q: QueryV,
    catalog: Seq<Card>,
    full: Seq<Card>,
    n: Seq<char>,
)
    ensures
        (exists|k: int|
            0 <= k < spec_devoured_names(q, catalog, full).len() && (#[trigger] spec_devoured_names(
                q,
                catalog,
                full,
            )[k])@ == n) <==> (exists|i: int|
            0 <= i < catalog.len() && (#[trigger] catalog[i]).name@ == n && spec_devoured(
                catalog[i],
                q,
                full,
            )),
    decreases catalog.len(),
{
    let names = spec_devoured_names(q, catalog, full);
    if catalog.len() == 0 {
    } else {
        let pre_cat = catalog.subrange(0, catalog.len() - 1);
        let pre = spec_devoured_names(q, pre_cat, full);
        lemma_devoured_names_membership(q, pre_cat, full, n);
        let last = catalog[catalog.len() - 1];
        if (exists|k: int| 0 <= k < names.len() && (#[trigger] names[k])@ == n) {
            let k = choose|k: int| 0 <= k < names.len() && (#[trigger] names[k])@ == n;
            if spec_devoured(last, q, full) {
                if k < pre.len() {
                    assert(pre[k] == names[k]);
                    let i = choose|i: int|
                        0 <= i < pre_cat.len() && (#[trigger] pre_cat[i]).name@ == n
                            && spec_devoured(pre_cat[i], q, full);
                    assert(catalog[i] == pre_cat[i]);
                } else {
                    assert(names[k] == last.name);
                    assert(catalog[catalog.len() - 1].name@ == n);
                }
            } else {
                assert(names == pre);
                let i = choose|i: int|
                    0 <= i < pre_cat.len() && (#[trigger] pre_cat[i]).name@ == n && spec_devoured(
                        pre_cat[i],
                        q,
                        full,
                    );
                assert(catalog[i] == pre_cat[i]);
            }
        }
        if (exists|i: int|
            0 <= i < catalog.len() && (#[trigger] catalog[i]).name@ == n && spec_devoured(
                catalog[i],
                q,
                full,
            )) {
            let i = choose|i: int|
                0 <= i < catalog.len() && (#[trigger] catalog[i]).name@ == n && spec_devoured(
                    catalog[i],
                    q,
                    full,
                );
            if i < catalog.len() - 1 {
                assert(pre_cat[i] == catalog[i]);
                let k = choose|k: int| 0 <= k < pre.len() && (#[trigger] pre[k])@ == n;
                if spec_devoured(last, q, full) {
                    assert(names[k] == pre[k]);
                } else {
                    assert(names == pre);
                }
                assert(0 <= k < names.len() && names[k]@ == n);
            } else {
                assert(spec_devoured(last, q, full));
                assert(names[names.len() - 1] == last.name);
                assert(0 <= names.len() - 1 < names.len() && names[names.len() - 1]@ == n);
            }
        }
    }
}

/// Whether two restrictions are the same, structurally.
pub fn restriction_eq(a: &QueryRestriction, b: &QueryRestriction) -> (r: bool)
    ensures
        r == (a@ == b@),
    decreases *a,
{
    match (a, b) {
        (QueryRestriction::Fuzzy(x), QueryRestriction::Fuzzy(y)) => str_eq(
            x.as_str(),
            y.as_str(),
        ),
        (QueryRestriction::Devours(x), QueryRestriction::Devours(y)) => {
            proof {
                assert(decreases_to!(*a => a->Devours_0));
            }
            query_eq(x, y)
        },
        (QueryRestriction::DevouredBy(x), QueryRestriction::DevouredBy(y)) => {
            proof {
                assert(decreases_to!(*a => a->DevouredBy_0));
            }
            query_eq(x, y)
        },
        (
            QueryRestriction::NumberComparison(n1, c1),
            QueryRestriction::NumberComparison(n2, c2),
        ) => n1 == n2 && c1 == c2,
        (
            QueryRestriction::TextComparison(t1, tc1),
            QueryRestriction::TextComparison(t2, tc2),
        ) => t1 == t2 && text_comparison_eq(tc1, tc2),
        (QueryRestriction::Has(a1, tc1), QueryRestriction::Has(a2, tc2)) => a1 == a2
            && text_comparison_eq(tc1, tc2),
        (QueryRestriction::KinComparison(k1), QueryRestriction::KinComparison(k2)) => {
            crate::cards::kins::kin_comparison_eq(k1, k2)
        },
        (QueryRestriction::HasKw(tc1), QueryRestriction::HasKw(tc2)) => text_comparison_eq(
            tc1,
            tc2,
        ),
        (QueryRestriction::Not(x), QueryRestriction::Not(y)) => {
            proof {
                assert(decreases_to!(*a => a->Not_0));
            }
            query_eq(x, y)
        },
        (QueryRestriction::LenientNot(x), QueryRestriction::LenientNot(y)) => {
            proof {
                assert(decreases_to!(*a => a->LenientNot_0));
            }
            query_eq(x, y)
        },
        (QueryRestriction::Group(x), QueryRestriction::Group(y)) => {
            proof {
                assert(decreases_to!(*a => a->Group_0));
            }
            query_eq(x, y)
        },
        (QueryRestriction::Or(x1, y1), QueryRestriction::Or(x2, y2)) => {
            proof {
                assert(decreases_to!(*a => a->Or_0));
                assert(decreases_to!(*a => a->Or_1));
            }
            query_eq(x1, x2) && query_eq(y1, y2)
        },
        (QueryRestriction::Xor(x1, y1), QueryRestriction::Xor(x2, y2)) => {
            proof {
                assert(decreases_to!(*a => a->Xor_0));
                assert(decreases_to!(*a => a->Xor_1));
            }
            query_eq(x1, x2) && query_eq(y1, y2)
        },
        _ => false,
    }
}

/// Whether a text comparison holds of a present text property.
fn text_cmp_holds(t: &str, cmp: &TextComparison) -> (r: bool)
    ensures
        r == spec_text_cmp_holds(t@, cmp@),
{
    match cmp {
        TextComparison::Contains(n) => {
            let ct = clean_ascii(t);
            let cn = clean_ascii(n.as_str());
            str_contains(ct.as_str(), cn.as_str())
        },
        TextComparison::EqualTo(n) => {
            let ct = clean_ascii(t);
            let cn = clean_ascii(n.as_str());
            ct == cn
        },
        TextComparison::HasMatch(p) => {
            let lt = lower_ascii(t);
            regex_match(p.as_str(), lt.as_str())
        },
    }
}

/// Whether a text comparison holds of one array element or keyword name.
fn elem_cmp_holds(item: &str, cmp: &TextComparison) -> (r: bool)
    ensures
        r == spec_elem_cmp_holds(item@, cmp@),
{
    match cmp {
        TextComparison::Contains(n) => {
            let li = lower_ascii(item);
            let ln = lower_ascii(n.as_str());
            str_contains(li.as_str(), ln.as_str())
        },
        TextComparison::EqualTo(n) => {
            let li = lower_ascii(item);
            let ln = lower_ascii(n.as_str());
            li == ln
        },
        TextComparison::HasMatch(p) => {
            let li = lower_ascii(item);
            regex_match(p.as_str(), li.as_str())
        },
    }
}

/// Restriction that matches only if a record's text contains a needle.
pub fn fuzzy<R: Read>(card: &R, query: &str) -> (r: bool)
    ensures
        r == spec_fuzzy(*card, query@),
{
    let needle = clean_ascii(query);
    match card.get_description() {
        Some(d) => {
            let rendered = d.render();
            let cleaned = clean_ascii(rendered.as_str());
            if str_contains(cleaned.as_str(), needle.as_str()) {
                return true;
            }
        },
        None => {},
    }
    match card.get_name() {
        Some(s) => {
            let cleaned = clean_ascii(s);
            if str_contains(cleaned.as_str(), needle.as_str()) {
                return true;
            }
        },
        None => {},
    }
    match card.get_type() {
        Some(s) => {
            let cleaned = clean_ascii(s);
            if str_contains(cleaned.as_str(), needle.as_str()) {
                return true;
            }
        },
        None => {},
    }
    match card.get_kin() {
        Some(k) => {
            let cleaned = clean_ascii(k.get_name());
            if str_contains(cleaned.as_str(), needle.as_str()) {
                return true;
            }
        },
        None => {},
    }
    match card.get_keywords() {
        Some(ks) => {
            let mut i: usize = 0;
            while i < ks.len()
                invariant
                    i <= ks@.len(),
                    needle@ == canon_seq(query@),
                    card.spec_keywords() == Some(ks@),
                    forall|j: int|
                        0 <= j < i ==> !seq_contains(
                            canon_seq(#[trigger] ks@[j].name@),
                            canon_seq(query@),
                        ),
                decreases ks@.len() - i,
            {
                let cleaned = clean_ascii(ks[i].name.as_str());
                if str_contains(cleaned.as_str(), needle.as_str()) {
                    return true;
                }
                i = i + 1;
            }
        },
        None => {},
    }
    false
}

/// A card lies in the family a partial identity describes.
pub fn matches_id(d: &Card, id: &CardId) -> (r: bool)
    ensures
        r == spec_matches_id(*d, *id),
{
    match &id.name {
        Some(n) => {
            let cd = clean_ascii(d.name.as_str());
            let cn = clean_ascii(n.as_str());
            if !str_contains(cd.as_str(), cn.as_str()) {
                return false;
            }
        },
        None => {},
    }
    match &id.card_type {
        Some(t) => {
            let cd = clean_ascii(d.card_type.as_str());
            let cn = clean_ascii(t.as_str());
            if !str_contains(cd.as_str(), cn.as_str()) {
                return false;
            }
        },
        None => {},
    }
    match &id.description {
        Some(ds) => {
            let rd = d.description.render();
            let rs = ds.render();
            let cd = clean_ascii(rd.as_str());
            let cn = clean_ascii(rs.as_str());
            if !str_contains(cd.as_str(), cn.as_str()) {
                return false;
            }
        },
        None => {},
    }
    match &id.kin {
        Some(k) => match d.kin {
            Some(dk) => if !dk.is_same_or_child(*k) {
                return false;
            },
            None => {
                return false;
            },
        },
        None => {},
    }
    match &id.cost {
        Some(c) => if !c.as_comparison().compare(&d.get_num_property(&Number::Cost)).is_true() {
            return false;
        },
        None => {},
    }
    match &id.health {
        Some(c) => if !c.as_comparison().compare(&d.get_num_property(&Number::Health)).is_true() {
            return false;
        },
        None => {},
    }
    match &id.power {
        Some(c) => if !c.as_comparison().compare(&d.get_num_property(&Number::Power)).is_true() {
            return false;
        },
        None => {},
    }
    match &id.defense {
        Some(c) => if !c.as_comparison().compare(
            &d.get_num_property(&Number::Defense),
        ).is_true() {
            return false;
        },
        None => {},
    }
    match &id.flip_cost {
        Some(c) => if !c.as_comparison().compare(
            &d.get_num_property(&Number::FlipCost),
        ).is_true() {
            return false;
        },
        None => {},
    }
    match &id.keywords {
        Some(ks) => {
            let mut i: usize = 0;
            while i < ks.len()
                invariant
                    i <= ks@.len(),
                    id.keywords == Some(*ks),
                    forall|ii: int|
                        0 <= ii < i ==> spec_keyword_covered(*d, (#[trigger] ks@[ii]).name@),
                decreases ks@.len() - i,
            {
                let want = lower_ascii(ks[i].name.as_str());
                let mut j: usize = 0;
                let mut found = false;
                while j < d.keywords.len()
                    invariant
                        j <= d.keywords@.len(),
                        i < ks@.len(),
                        want@ == lower_seq(ks@[i as int].name@),
                        found ==> spec_keyword_covered(*d, ks@[i as int].name@),
                        !found ==> forall|jj: int|
                            0 <= jj < j ==> !seq_contains(
                                lower_seq((#[trigger] d.keywords@[jj]).name@),
                                lower_seq(ks@[i as int].name@),
                            ),
                    decreases d.keywords@.len() - j,
                {
                    let have = lower_ascii(d.keywords[j].name.as_str());
                    if str_contains(have.as_str(), want.as_str()) {
                        found = true;
                    }
                    j = j + 1;
                }
                if !found {
                    proof {
                        assert(!spec_keyword_covered(*d, ks@[i as int].name@));
                        assert(!spec_matches_id(*d, *id));
                    }
                    return false;
                }
                i = i + 1;
            }
        },
        None => {},
    }
    true
}

/// The memo a single search threads through its evaluations: for each
/// devoured-by subquery it has answered, the names of the devoured cards.
pub struct Cache {
    pub entries: Vec<(Query, Vec<String>)>,
}

impl Cache {
    /// Every stored list is exactly the devoured names of its subquery
    /// against the catalogue.
    pub open spec fn wf(&self, catalog: Seq<Card>) -> bool {
        forall|i: int|
            0 <= i < self.entries@.len() ==> (#[trigger] self.entries@[i]).1@
                == spec_devoured_names(self.entries@[i].0@, catalog, catalog)
    }

    /// An empty cache, fit for any catalogue.
    pub fn new() -> (r: Cache)
        ensures
            forall|catalog: Seq<Card>| r.wf(catalog),
    {
        Cache { entries: Vec::new() }
    }
}

/// Whether some stored name equals the given one.
fn contains_name(names: &Vec<String>, n: &str) -> (r: bool)
    ensures
        r == exists|k: int| 0 <= k < names@.len() && (#[trigger] names@[k])@ == n@,
{
    let mut k: usize = 0;
    while k < names.len()
        invariant
            k <= names@.len(),
            forall|kk: int| 0 <= kk < k ==> (#[trigger] names@[kk])@ != n@,
        decreases names@.len() - k,
    {
        if str_eq(names[k].as_str(), n) {
            return true;
        }
        k = k + 1;
    }
    false
}

/// Whether any element of an array property satisfies the comparison.
fn any_elem_matches(v: &Vec<String>, tc: &TextComparison) -> (r: bool)
    ensures
        r == exists|k: int|
            0 <= k < v.deep_view().len() && spec_elem_cmp_holds(
                #[trigger] v.deep_view()[k],
                tc@,
            ),
{
    let mut j: usize = 0;
    while j < v.len()
        invariant
            j <= v@.len(),
            forall|k: int| 0 <= k < j ==> !spec_elem_cmp_holds((#[trigger] v@[k])@, tc@),
        decreases v@.len() - j,
    {
        if elem_cmp_holds(v[j].as_str(), tc) {
            proof {
                assert(v.deep_view()[j as int] == v@[j as int]@);
            }
            return true;
        }
        j = j + 1;
    }
    proof {
        assert forall|k: int| 0 <= k < v.deep_view().len() implies !spec_elem_cmp_holds(
            #[trigger] v.deep_view()[k],
            tc@,
        ) by {
            assert(v.deep_view()[k] == v@[k]@);
        }
    }
    false
}

/// Whether any keyword's name satisfies the comparison.
fn any_keyword_matches(ks: &Vec<Keyword>, tc: &TextComparison) -> (r: bool)
    ensures
        r == exists|k: int|
            0 <= k < ks@.len() && spec_elem_cmp_holds((#[trigger] ks@[k]).name@, tc@),
{
    let mut j: usize = 0;
    while j < ks.len()
        invariant
            j <= ks@.len(),
            forall|k: int| 0 <= k < j ==> !spec_elem_cmp_holds((#[trigger] ks@[k]).name@, tc@),
        decreases ks@.len() - j,
    {
        if elem_cmp_holds(ks[j].name.as_str(), tc) {
            return true;
        }
        j = j + 1;
    }
    false
}

/// Whether any devours keyword carries an identity that matches the
/// subquery.
fn any_devours_matches(
    ks: &Vec<Keyword>,
    q: &Query,
    cards: &Vec<Card>,
    cache: &mut Cache,
) -> (r: bool)
    requires
        old(cache).wf(cards@),
    ensures
        final(cache).wf(cards@),
        r == exists|k: int|
            0 <= k < ks@.len() && (#[trigger] ks@[k]).name@ == "devours"@ && match ks@[k].data {
                Some(KeywordData::CardId(inner)) => spec_eval(*inner, q@, cards@)
                    == Ternary::True,
                _ => false,
            },
    decreases *q, 3int,
{
    let ghost qv = q@;
    let mut j: usize = 0;
    while j < ks.len()
        invariant
            cache.wf(cards@),
            j <= ks@.len(),
            qv == q@,
            forall|k: int|
                0 <= k < j ==> !((#[trigger] ks@[k]).name@ == "devours"@ && match ks@[k].data {
                    Some(KeywordData::CardId(inner)) => spec_eval(*inner, qv, cards@)
                        == Ternary::True,
                    _ => false,
                }),
        decreases ks@.len() - j,
    {
        if str_eq(ks[j].name.as_str(), "devours") {
            match &ks[j].data {
                Some(KeywordData::CardId(inner)) => {
                    let m = matches_query(&**inner, q, cards, cache);
                    if m.is_true() {
                        return true;
                    }
                },
                _ => {},
            }
        }
        j = j + 1;
    }
    false
}

/// Checks whether a record matches a query's restrictions, against a
/// catalogue of cards.  The cache only ever carries answers the catalogue
/// itself determines, so the result is the cache-free evaluation whatever
/// the cache held.
#[verifier::rlimit(100)]
pub fn matches_query<R: Read>(
    card: &R,
    query: &Query,
    cards: &Vec<Card>,
    cache: &mut Cache,
) -> (r: Ternary)
    requires
        old(cache).wf(cards@),
    ensures
        final(cache).wf(cards@),
        r == spec_eval(*card, query@, cards@),
    decreases *query, 0int,
{
    let ghost rsv = query@.restrictions;
    proof {
        lemma_view_restrictions(query.restrictions@);
    }
    let mut filtered = Ternary::True;
    let mut i: usize = 0;
    while i < query.restrictions.len()
        invariant
            cache.wf(cards@),
            i <= query.restrictions@.len(),
            rsv == query@.restrictions,
            rsv == view_restrictions(query.restrictions@),
            rsv.len() == query.restrictions@.len(),
            forall|j: int|
                0 <= j < rsv.len() ==> #[trigger] rsv[j] == view_restriction(
                    query.restrictions@[j],
                ),
            filtered == spec_eval_restrictions(*card, rsv.take(i as int), cards@),
        decreases query.restrictions@.len() - i, 0int,
    {
        proof {
            assert(decreases_to!(*query => query.restrictions));
            assert(decreases_to!(query.restrictions => query.restrictions@));
            assert(decreases_to!(query.restrictions@ => query.restrictions@[i as int]));
        }
        let restriction = &query.restrictions[i];
        let arm: Ternary;
        match restriction {
            QueryRestriction::Fuzzy(s) => {
                arm = Ternary::from_bool(fuzzy(card, s.as_str()));
            },
            QueryRestriction::NumberComparison(f, c) => {
                arm = c.compare(&card.get_num_property(f));
            },
            QueryRestriction::TextComparison(f, tc) => {
                arm = match card.get_text_property(f) {
                    Some(t) => Ternary::from_bool(text_cmp_holds(t.as_str(), tc)),
                    None => Ternary::Void,
                };
            },
            QueryRestriction::Has(f, tc) => {
                arm = match card.get_vec_property(f) {
                    Some(v) => Ternary::from_bool(any_elem_matches(v, tc)),
                    None => Ternary::Void,
                };
            },
            QueryRestriction::HasKw(tc) => {
                arm = match card.get_keywords() {
                    Some(ks) => Ternary::from_bool(any_keyword_matches(ks, tc)),
                    None => Ternary::Void,
                };
            },
            QueryRestriction::KinComparison(kc) => {
                arm = match card.get_kin() {
                    Some(k) => Ternary::from_bool(kc.is_match(k)),
                    None => Ternary::Void,
                };
            },
            QueryRestriction::Not(q) => {
                proof {
                    assert(decreases_to!(*restriction => restriction->Not_0));
                }
                arm = matches_query(card, q, cards, cache).not();
            },
            QueryRestriction::LenientNot(q) => {
                proof {
                    assert(decreases_to!(*restriction => restriction->LenientNot_0));
                }
                arm = if matches_query(card, q, cards, cache).is_true() {
                    Ternary::False
                } else {
                    Ternary::True
                };
            },
            QueryRestriction::Group(q) => {
                proof {
                    assert(decreases_to!(*restriction => restriction->Group_0));
                }
                arm = matches_query(card, q, cards, cache);
            },
            QueryRestriction::Or(a, b) => {
                proof {
                    assert(decreases_to!(*restriction => restriction->Or_0));
                    assert(decreases_to!(*restriction => restriction->Or_1));
                }
                let r1 = matches_query(card, a, cards, cache);
                let r2 = matches_query(card, b, cards, cache);
                arm = r1.or(r2);
            },
            QueryRestriction::Xor(a, b) => {
                proof {
                    assert(decreases_to!(*restriction => restriction->Xor_0));
                    assert(decreases_to!(*restriction => restriction->Xor_1));
                }
                let r1 = matches_query(card, a, cards, cache);
                let r2 = matches_query(card, b, cards, cache);
                arm = r1.xor(r2);
            },
            QueryRestriction::Devours(q) => {
                proof {
                    assert(decreases_to!(*restriction => restriction->Devours_0));
                }
                arm = match card.get_keywords() {
                    Some(ks) => Ternary::from_bool(any_devours_matches(ks, q, cards, cache)),
                    None => Ternary::Void,
                };
            },
            QueryRestriction::DevouredBy(q) => {
                proof {
                    assert(decreases_to!(*restriction => restriction->DevouredBy_0));
                }
                arm = eval_devoured_by(card, q, cards, cache);
            },
        }
        proof {
            assert(rsv[i as int] == view_restriction(query.restrictions@[i as int]));
            assert(arm == spec_eval_restriction(*card, rsv[i as int], cards@));
            assert(rsv.take(i + 1).subrange(0, i as int) =~= rsv.take(i as int));
            assert(rsv.take(i + 1)[i as int] == rsv[i as int]);
        }
        filtered = filtered.and(arm);
        i = i + 1;
    }
    proof {
        assert(rsv.take(rsv.len() as int) =~= rsv);
    }
    filtered
}

/// Evaluates a devoured-by restriction through the cache: the memoised
/// answer when the subquery was already met, the freshly computed one
/// otherwise.
fn eval_devoured_by<R: Read>(
    card: &R,
    sub: &Query,
    cards: &Vec<Card>,
    cache: &mut Cache,
) -> (r: Ternary)
    requires
        old(cache).wf(cards@),
    ensures
        final(cache).wf(cards@),
        r == match card.spec_name() {
            Some(n) => spec_from_bool(dby_name(n, sub@, cards@)),
            None => Ternary::False,
        },
    decreases *sub, 3int,
{
    let name = match card.get_name() {
        Some(n) => n,
        None => {
            return Ternary::False;
        },
    };
    let mut k: usize = 0;
    while k < cache.entries.len()
        invariant
            cache.wf(cards@),
            k <= cache.entries@.len(),
            card.spec_name() == Some(name@),
        decreases cache.entries@.len() - k,
    {
        if query_eq(&cache.entries[k].0, sub) {
            let hit = contains_name(&cache.entries[k].1, name);
            proof {
                assert(cache.entries@[k as int].1@ == spec_devoured_names(
                    cache.entries@[k as int].0@,
                    cards@,
                    cards@,
                ));
                assert(cache.entries@[k as int].0@ == sub@);
                lemma_devoured_names_membership(sub@, cards@, cards@, name@);
            }
            return Ternary::from_bool(hit);
        }
        k = k + 1;
    }
    let names = devoured_names(sub, cards, cache);
    let hit = contains_name(&names, name);
    let key = sub.clone();
    cache.entries.push((key, names));
    proof {
        lemma_devoured_names_membership(sub@, cards@, cards@, name@);
    }
    Ternary::from_bool(hit)
}

/// The names of the catalogue cards devoured by a card matching the
/// subquery, in catalogue order.
#[verifier::rlimit(60)]
fn devoured_names(sub: &Query, cards: &Vec<Card>, cache: &mut Cache) -> (names: Vec<String>)
    requires
        old(cache).wf(cards@),
    ensures
        final(cache).wf(cards@),
        names@ == spec_devoured_names(sub@, cards@, cards@),
    decreases *sub, 2int,
{
    let mut names: Vec<String> = Vec::new();
    let mut i: usize = 0;
    while i < cards.len()
        invariant
            cache.wf(cards@),
            i <= cards@.len(),
            names@ == spec_devoured_names(sub@, cards@.take(i as int), cards@),
        decreases cards@.len() - i,
    {
        let devoured = is_devoured(&cards[i], sub, cards, cache);
        if devoured {
            names.push(cards[i].name.clone());
        }
        proof {
            let pre = cards@.take(i as int);
            let cur = cards@.take(i + 1);
            assert(cur.subrange(0, cur.len() - 1) =~= pre);
            assert(cur[cur.len() - 1] == cards@[i as int]);
        }
        i = i + 1;
    }
    proof {
        assert(cards@.take(cards@.len() as int) =~= cards@);
    }
    names
}

/// Whether some catalogue card matching the subquery devours this card.
fn is_devoured(c: &Card, sub: &Query, cards: &Vec<Card>, cache: &mut Cache) -> (r: bool)
    requires
        old(cache).wf(cards@),
    ensures
        final(cache).wf(cards@),
        r == spec_devoured(*c, sub@, cards@),
    decreases *sub, 1int,
{
    let ghost qv = sub@;
    let mut i: usize = 0;
    while i < c.keywords.len()
        invariant
            cache.wf(cards@),
            i <= c.keywords@.len(),
            qv == sub@,
            forall|ii: int|
                0 <= ii < i ==> !((#[trigger] c.keywords@[ii]).name@ == "devours"@
                    && match c.keywords@[ii].data {
                    Some(KeywordData::CardId(inner)) => exists|j: int|
                        0 <= j < cards@.len() && spec_eval(#[trigger] cards@[j], qv, cards@)
                            == Ternary::True && spec_matches_id(cards@[j], *inner),
                    _ => false,
                }),
        decreases c.keywords@.len() - i,
    {
        if str_eq(c.keywords[i].name.as_str(), "devours") {
            match &c.keywords[i].data {
                Some(KeywordData::CardId(inner)) => {
                    let mut j: usize = 0;
                    while j < cards.len()
                        invariant
                            cache.wf(cards@),
                            j <= cards@.len(),
                            qv == sub@,
                            i < c.keywords@.len(),
                            c.keywords@[i as int].name@ == "devours"@,
                            c.keywords@[i as int].data == Some(KeywordData::CardId(*inner)),
                            forall|jj: int|
                                0 <= jj < j ==> !(spec_eval(#[trigger] cards@[jj], qv, cards@)
                                    == Ternary::True && spec_matches_id(cards@[jj], **inner)),
                        decreases cards@.len() - j,
                    {
                        let m = matches_query(&cards[j], sub, cards, cache);
                        if m.is_true() && matches_id(&cards[j], inner) {
                            return true;
                        }
                        j = j + 1;
                    }
                },
                _ => {},
            }
        }
        i = i + 1;
    }
    false
}

/// Disjunction and exclusive-or of two subqueries do not depend on the
/// order of their operands.
pub proof fn lemma_eval_or_xor_commutative<R: Read>(
    card: R,
    a: QueryV,
    b: QueryV,
    catalog: Seq<Card>,
)
    ensures
        spec_eval_restriction(card, QueryRestrictionV::Or(a, b), catalog)
            == spec_eval_restriction(card, QueryRestrictionV::Or(b, a), catalog),
        spec_eval_restriction(card, QueryRestrictionV::Xor(a, b), catalog)
            == spec_eval_restriction(card, QueryRestrictionV::Xor(b, a), catalog),
{
    crate::numbers::compare::lemma_ternary_commutative(
        spec_eval(card, a, catalog),
        spec_eval(card, b, catalog),
    );
}

/// Evaluating two restriction lists one after the other conjoins their
/// results, so the conjunction over a list does not depend on how the list
/// is split or, with commutativity, on the order of its parts.
pub proof fn lemma_eval_restrictions_concat<R: Read>(
    card: R,
    rs1: Seq<QueryRestrictionV>,
    rs2: Seq<QueryRestrictionV>,
    catalog: Seq<Card>,
)
    ensures
        spec_eval_restrictions(card, rs1 + rs2, catalog) == spec_and(
            spec_eval_restrictions(card, rs1, catalog),
            spec_eval_restrictions(card, rs2, catalog),
        ),
    decreases rs2.len(),
{
    if rs2.len() == 0 {
        assert(rs1 + rs2 =~= rs1);
    } else {
        let whole = rs1 + rs2;
        let pre2 = rs2.subrange(0, rs2.len() - 1);
        assert(whole.subrange(0, whole.len() - 1) =~= rs1 + pre2);
        assert(whole[whole.len() - 1] == rs2[rs2.len() - 1]);
        lemma_eval_restrictions_concat(card, rs1, pre2, catalog);
        crate::numbers::compare::lemma_ternary_associative(
            spec_eval_restrictions(card, rs1, catalog),
            spec_eval_restrictions(card, pre2, catalog),
            spec_eval_restriction(card, rs2[rs2.len() - 1], catalog),
        );
    }
}

/// Swapping two halves of a restriction list leaves a query's answer as it
/// was.
pub proof fn lemma_eval_restrictions_commutative<R: Read>(
    card: R,
    rs1: Seq<QueryRestrictionV>,
    rs2: Seq<QueryRestrictionV>,
    catalog: Seq<Card>,
)
    ensures
        spec_eval_restrictions(card, rs1 + rs2, catalog) == spec_eval_restrictions(
            card,
            rs2 + rs1,
            catalog,
        ),
{
    lemma_eval_restrictions_concat(card, rs1, rs2, catalog);
    lemma_eval_restrictions_concat(card, rs2, rs1, catalog);
    crate::numbers::compare::lemma_ternary_commutative(
        spec_eval_restrictions(card, rs1, catalog),
        spec_eval_restrictions(card, rs2, catalog),
    );
}

/// On a record whose subquery answer is void, strict negation stays void
/// while lenient negation answers true.
pub proof fn lemma_not_vs_lenient_not<R: Read>(card: R, q: QueryV, catalog: Seq<Card>)
    requires
        spec_eval(card, q, catalog) == Ternary::Void,
    ensures
        spec_eval_restriction(card, QueryRestrictionV::Not(q), catalog) == Ternary::Void,
        spec_eval_restriction(card, QueryRestrictionV::LenientNot(q), catalog) == Ternary::True,
{
}

/// On a command-typed card, a numeric restriction on health, power or
/// defense answers void, whatever the comparison asks.
pub proof fn lemma_command_carve_out(
    c: Card,
    f: Number,
    cmp: Comparison,
    catalog: Seq<Card>,
)
    requires
        crate::cards::spec_is_command(c.card_type@),
        f == Number::Health || f == Number::Power || f == Number::Defense,
    ensures
        spec_eval_restriction(c, QueryRestrictionV::NumberComparison(f, cmp), catalog)
            == Ternary::Void,
{
    assert(c.spec_num(f) is None);
}

/// A card that carries a devours keyword whose embedded identity covers a
/// catalogue card matching the subquery is itself answered true by the
/// devoured-by restriction on that subquery.
#[verifier::rlimit(60)]
pub proof fn lemma_devoured_by_symmetry(
    catalog: Seq<Card>,
    ai: int,
    bi: int,
    ki: int,
    q: QueryV,
)
    requires
        0 <= ai < catalog.len(),
        0 <= bi < catalog.len(),
        0 <= ki < catalog[ai].keywords@.len(),
        catalog[ai].keywords@[ki].name@ == "devours"@,
        catalog[ai].keywords@[ki].data matches Some(KeywordData::CardId(id))
            && spec_matches_id(catalog[bi], *id),
        spec_eval(catalog[bi], q, catalog) == Ternary::True,
    ensures
        spec_eval_restriction(catalog[ai], QueryRestrictionV::DevouredBy(q), catalog)
            == Ternary::True,
{
    let a = catalog[ai];
    assert(a.spec_name() == Some(a.name@));
    assert(spec_devoured(a, q, catalog)) by {
        assert(0 <= ki < a.keywords@.len() && (a.keywords@[ki]).name@ == "devours"@
            && match a.keywords@[ki].data {
            Some(KeywordData::CardId(inner)) => exists|j: int|
                0 <= j < catalog.len() && spec_eval(#[trigger] catalog[j], q, catalog)
                    == Ternary::True && spec_matches_id(catalog[j], *inner),
            _ => false,
        });
    }
    assert(dby_name(a.name@, q, catalog)) by {
        assert(0 <= ai < catalog.len() && (catalog[ai]).name@ == a.name@ && spec_devoured(
            catalog[ai],
            q,
            catalog,
        ));
    }
}

/// Text always contains itself, so a name query built from a card's own
/// name matches that card.
pub proof fn lemma_name_query_matches_self(c: Card, nameq: QueryV, catalog: Seq<Card>)
    requires
        nameq.restrictions =~= seq![
            QueryRestrictionV::TextComparison(
                Text::Name,
                TextComparisonV::Contains(c.name@),
            ),
        ],
    ensures
        spec_eval(c, nameq, catalog) == Ternary::True,
{
    let n = canon_seq(c.name@);
    assert(n.subrange(0, n.len() as int) =~= n);
    assert(crate::text::matches_at(n, n, 0));
    assert(seq_contains(n, n));
    let rs = nameq.restrictions;
    assert(rs.subrange(0, 0) =~= Seq::<QueryRestrictionV>::empty());
    assert(spec_eval_restrictions(c, rs.subrange(0, 0), catalog) == Ternary::True);
    assert(rs[0] == QueryRestrictionV::TextComparison(
        Text::Name,
        TextComparisonV::Contains(c.name@),
    ));
    assert(spec_eval_restriction(c, rs[0], catalog) == Ternary::True);
}

/// A sort key attached to one search result while ordering it.
#[derive(Debug)]
pub enum SortKey {
    /// A text property, ascending.
    Text(String),
    /// A text property, descending.
    TextDesc(String),
    /// A numeric slot, ascending, an absent slot first.
    Num(Option<MaybeImprecise>),
    /// A numeric slot, descending, an absent slot last.
    NumDesc(Option<MaybeImprecise>),
    /// A caller-supplied similarity weight, descending, ties by name.
    Score(u64, String),
}

/// The mathematical form of a sort key.
pub enum SortKeyV {
    Text(Seq<char>),
    TextDesc(Seq<char>),
    Num(Option<MaybeImprecise>),
    NumDesc(Option<MaybeImprecise>),
    Score(u64, Seq<char>),
}

impl View for SortKey {
    type V = SortKeyV;

    open spec fn view(&self) -> SortKeyV {
        match self {
            SortKey::Text(s) => SortKeyV::Text(s@),
            SortKey::TextDesc(s) => SortKeyV::TextDesc(s@),
            SortKey::Num(o) => SortKeyV::Num(*o),
            SortKey::NumDesc(o) => SortKeyV::NumDesc(*o),
            SortKey::Score(k, s) => SortKeyV::Score(*k, s@),
        }
    }
}

/// Strict lexicographic order on character sequences, by code point.
pub open spec fn lex_lt(a: Seq<char>, b: Seq<char>) -> bool
    decreases a.len(),
{
    if b.len() == 0 {
        false
    } else if a.len() == 0 {
        true
    } else if a[0] != b[0] {
        (a[0] as int) < (b[0] as int)
    } else {
        lex_lt(a.drop_first(), b.drop_first())
    }
}

proof fn lemma_lex_irrefl(a: Seq<char>)
    ensures
        !lex_lt(a, a),
    decreases a.len(),
{
    if a.len() > 0 {
        lemma_lex_irrefl(a.drop_first());
    }
}

proof fn lemma_lex_total(a: Seq<char>, b: Seq<char>)
    ensures
        lex_lt(a, b) || lex_lt(b, a) || a == b,
    decreases a.len(),
{
    if a.len() == 0 && b.len() == 0 {
        assert(a =~= b);
    } else if a.len() > 0 && b.len() > 0 && a[0] == b[0] {
        lemma_lex_total(a.drop_first(), b.drop_first());
        if a.drop_first() == b.drop_first() {
            assert(a.drop_first().len() == a.len() - 1);
            assert(b.drop_first().len() == b.len() - 1);
            assert(a.len() == b.len());
            assert forall|i: int| 0 <= i < a.len() implies a[i] == b[i] by {
                if i > 0 {
                    assert(a[i] == a.drop_first()[i - 1]);
                    assert(b[i] == b.drop_first()[i - 1]);
                }
            }
            assert(a =~= b);
        }
    }
}

proof fn lemma_lex_trans(a: Seq<char>, b: Seq<char>, c: Seq<char>)
    requires
        lex_lt(a, b),
        lex_lt(b, c),
    ensures
        lex_lt(a, c),
    decreases a.len() + b.len() + c.len(),
{
    if b.len() == 0 {
        // lex_lt(a, b) would be false
    } else if c.len() == 0 {
        // lex_lt(b, c) would be false
    } else if a.len() == 0 {
        // lex_lt(a, c) holds since c is non-empty
    } else {
        if a[0] == b[0] && b[0] == c[0] {
            lemma_lex_trans(a.drop_first(), b.drop_first(), c.drop_first());
        }
    }
}

/// The numeric characteristics of an optional slot: presence, numeric
/// component, shape rank.  An absent slot sorts below every present one.
pub open spec fn onum_key(o: Option<MaybeImprecise>) -> (int, int, int) {
    match o {
        None => (0, 0, 0),
        Some(m) => (1, crate::numbers::imprecise_ord::slot_key(m).0, crate::numbers::imprecise_ord::slot_key(m).1),
    }
}

/// Strict lexicographic order on numeric characteristics.
pub open spec fn triple_lt(a: (int, int, int), b: (int, int, int)) -> bool {
    a.0 < b.0 || (a.0 == b.0 && (a.1 < b.1 || (a.1 == b.1 && a.2 < b.2)))
}

/// The place of a key's shape among the key forms; only keys of the same
/// shape meet in one search.
pub open spec fn skey_rank(a: SortKeyV) -> int {
    match a {
        SortKeyV::Text(_) => 0,
        SortKeyV::TextDesc(_) => 1,
        SortKeyV::Num(_) => 2,
        SortKeyV::NumDesc(_) => 3,
        SortKeyV::Score(_, _) => 4,
    }
}

/// The total order the sorter uses over keyed results: by the key, and for
/// tied keys by the position the record held in the catalogue, so that ties
/// keep their incoming order.
pub open spec fn skey_le(a: SortKeyV, ai: int, b: SortKeyV, bi: int) -> bool {
    if skey_rank(a) != skey_rank(b) {
        skey_rank(a) < skey_rank(b)
    } else {
        match (a, b) {
            (SortKeyV::Text(x), SortKeyV::Text(y)) => if x != y {
                lex_lt(x, y)
            } else {
                ai <= bi
            },
            (SortKeyV::TextDesc(x), SortKeyV::TextDesc(y)) => if x != y {
                lex_lt(y, x)
            } else {
                ai <= bi
            },
            (SortKeyV::Num(x), SortKeyV::Num(y)) => if onum_key(x) != onum_key(y) {
                triple_lt(onum_key(x), onum_key(y))
            } else {
                ai <= bi
            },
            (SortKeyV::NumDesc(x), SortKeyV::NumDesc(y)) => if onum_key(x) != onum_key(y) {
                triple_lt(onum_key(y), onum_key(x))
            } else {
                ai <= bi
            },
            (SortKeyV::Score(k1, n1), SortKeyV::Score(k2, n2)) => if k1 != k2 {
                k1 > k2
            } else if n1 != n2 {
                lex_lt(n1, n2)
            } else {
                ai <= bi
            },
            _ => true,
        }
    }
}

/// Two keys that the order cannot tell apart.
pub open spec fn key_tied(a: SortKeyV, b: SortKeyV) -> bool {
    skey_le(a, 0, b, 0) && skey_le(b, 0, a, 0)
}

/// The order is total: any two keyed results compare one way or the other.
pub proof fn lemma_skey_le_total(a: SortKeyV, ai: int, b: SortKeyV, bi: int)
    ensures
        skey_le(a, ai, b, bi) || skey_le(b, bi, a, ai),
{
    if skey_rank(a) == skey_rank(b) {
        match (a, b) {
            (SortKeyV::Text(x), SortKeyV::Text(y)) => lemma_lex_total(x, y),
            (SortKeyV::TextDesc(x), SortKeyV::TextDesc(y)) => lemma_lex_total(x, y),
            (SortKeyV::Score(k1, n1), SortKeyV::Score(k2, n2)) => lemma_lex_total(n1, n2),
            _ => {},
        }
    }
}

/// The order is transitive.
pub proof fn lemma_skey_le_trans(
    a: SortKeyV,
    ai: int,
    b: SortKeyV,
    bi: int,
    c: SortKeyV,
    ci: int,
)
    requires
        skey_le(a, ai, b, bi),
        skey_le(b, bi, c, ci),
    ensures
        skey_le(a, ai, c, ci),
{
    if skey_rank(a) == skey_rank(b) && skey_rank(b) == skey_rank(c) {
        match (a, b, c) {
            (SortKeyV::Text(x), SortKeyV::Text(y), SortKeyV::Text(z)) => {
                lemma_lex_total(x, y);
                lemma_lex_total(y, z);
                lemma_lex_total(x, z);
                lemma_lex_irrefl(x);
                lemma_lex_irrefl(y);
                lemma_lex_irrefl(z);
                if lex_lt(x, y) && lex_lt(y, z) {
                    lemma_lex_trans(x, y, z);
                }
                if lex_lt(z, x) && lex_lt(x, y) {
                    lemma_lex_trans(z, x, y);
                }
                if lex_lt(y, z) && lex_lt(z, x) {
                    lemma_lex_trans(y, z, x);
                }
            },
            (SortKeyV::TextDesc(x), SortKeyV::TextDesc(y), SortKeyV::TextDesc(z)) => {
                lemma_lex_total(x, y);
                lemma_lex_total(y, z);
                lemma_lex_total(x, z);
                lemma_lex_irrefl(x);
                lemma_lex_irrefl(y);
                lemma_lex_irrefl(z);
                if lex_lt(z, y) && lex_lt(y, x) {
                    lemma_lex_trans(z, y, x);
                }
                if lex_lt(y, x) && lex_lt(x, z) {
                    lemma_lex_trans(y, x, z);
                }
                if lex_lt(x, z) && lex_lt(z, y) {
                    lemma_lex_trans(x, z, y);
                }
            },
            (SortKeyV::Score(k1, n1), SortKeyV::Score(k2, n2), SortKeyV::Score(k3, n3)) => {
                lemma_lex_total(n1, n2);
                lemma_lex_total(n2, n3);
                lemma_lex_total(n1, n3);
                lemma_lex_irrefl(n1);
                lemma_lex_irrefl(n2);
                lemma_lex_irrefl(n3);
                if lex_lt(n1, n2) && lex_lt(n2, n3) {
                    lemma_lex_trans(n1, n2, n3);
                }
                if lex_lt(n3, n1) && lex_lt(n1, n2) {
                    lemma_lex_trans(n3, n1, n2);
                }
                if lex_lt(n2, n3) && lex_lt(n3, n1) {
                    lemma_lex_trans(n2, n3, n1);
                }
            },
            _ => {},
        }
    }
}

/// Tied keys order by catalogue position alone.
pub proof fn lemma_skey_le_tie(a: SortKeyV, ai: int, b: SortKeyV, bi: int)
    requires
        key_tied(a, b),
        skey_le(a, ai, b, bi),
    ensures
        ai <= bi,
{
    match (a, b) {
        (SortKeyV::Text(x), SortKeyV::Text(y)) => {
            lemma_lex_irrefl(x);
            if lex_lt(x, y) && lex_lt(y, x) {
                lemma_lex_trans(x, y, x);
            }
        },
        (SortKeyV::TextDesc(x), SortKeyV::TextDesc(y)) => {
            lemma_lex_irrefl(x);
            if lex_lt(x, y) && lex_lt(y, x) {
                lemma_lex_trans(x, y, x);
            }
        },
        (SortKeyV::Score(k1, n1), SortKeyV::Score(k2, n2)) => {
            lemma_lex_irrefl(n1);
            if lex_lt(n1, n2) && lex_lt(n2, n1) {
                lemma_lex_trans(n1, n2, n1);
            }
        },
        _ => {},
    }
}

/// A keyed result list is sorted when every pair respects the order.
pub open spec fn spec_entries_sorted(s: Seq<(SortKeyV, int)>) -> bool {
    forall|i: int, j: int|
        0 <= i < j < s.len() ==> skey_le(
            (#[trigger] s[i]).0,
            s[i].1,
            (#[trigger] s[j]).0,
            s[j].1,
        )
}

/// Inserting a keyed result into a sorted list: it lands after every entry
/// that is not above it, so equal keys keep their order of arrival.
pub open spec fn spec_insert_entry(s: Seq<(SortKeyV, int)>, x: (SortKeyV, int)) -> Seq<
    (SortKeyV, int),
>
    decreases s.len(),
{
    if s.len() == 0 {
        seq![x]
    } else if skey_le(s.last().0, s.last().1, x.0, x.1) {
        s.push(x)
    } else {
        spec_insert_entry(s.subrange(0, s.len() - 1), x).push(s.last())
    }
}

/// The stable sort of a keyed result list, inserting left to right.
pub open spec fn spec_sort_entries(s: Seq<(SortKeyV, int)>) -> Seq<(SortKeyV, int)>
    decreases s.len(),
{
    if s.len() == 0 {
        Seq::empty()
    } else {
        spec_insert_entry(
            spec_sort_entries(s.subrange(0, s.len() - 1)),
            s[s.len() - 1],
        )
    }
}

proof fn lemma_insert_entry_ensures(s: Seq<(SortKeyV, int)>, x: (SortKeyV, int))
    requires
        spec_entries_sorted(s),
    ensures
        spec_entries_sorted(spec_insert_entry(s, x)),
        spec_insert_entry(s, x).to_multiset() == s.to_multiset().insert(x),
        spec_insert_entry(s, x).len() == s.len() + 1,
    decreases s.len(),
{
    broadcast use vstd::seq_lib::group_to_multiset_ensures;

    let out = spec_insert_entry(s, x);
    if s.len() == 0 {
        assert(seq![x] =~= Seq::<(SortKeyV, int)>::empty().push(x));
        assert(out.to_multiset() =~= s.to_multiset().insert(x));
    } else {
        let last = s.last();
        let pre = s.subrange(0, s.len() - 1);
        assert(s =~= pre.push(last));
        if skey_le(last.0, last.1, x.0, x.1) {
            assert forall|i: int, j: int|
                0 <= i < j < out.len() implies skey_le(
                (#[trigger] out[i]).0,
                out[i].1,
                (#[trigger] out[j]).0,
                out[j].1,
            ) by {
                if j == out.len() - 1 {
                    if i < s.len() - 1 {
                        lemma_skey_le_trans(
                            out[i].0,
                            out[i].1,
                            last.0,
                            last.1,
                            x.0,
                            x.1,
                        );
                    }
                }
            }
        } else {
            assert(spec_entries_sorted(pre));
            lemma_insert_entry_ensures(pre, x);
            lemma_skey_le_total(last.0, last.1, x.0, x.1);
            let inner = spec_insert_entry(pre, x);
            assert(out =~= inner.push(last));
            assert forall|i: int, j: int|
                0 <= i < j < out.len() implies skey_le(
                (#[trigger] out[i]).0,
                out[i].1,
                (#[trigger] out[j]).0,
                out[j].1,
            ) by {
                if j == out.len() - 1 {
                    // the moved last element goes after x and after all of pre
                    assert(out[j] == last);
                    if out[i] == x || inner.to_multiset().count(out[i]) > 0 {
                    }
                    // every element of inner is either x or an element of pre
                    assert(inner.to_multiset() == pre.to_multiset().insert(x));
                    assert(inner.to_multiset().count(out[i]) > 0);
                    if out[i] == x {
                        assert(skey_le(x.0, x.1, last.0, last.1));
                    } else {
                        assert(pre.to_multiset().count(out[i]) > 0);
                        assert(pre.contains(out[i]));
                        let k = choose|k: int| 0 <= k < pre.len() && pre[k] == out[i];
                        assert(skey_le(pre[k].0, pre[k].1, last.0, last.1));
                    }
                }
            }
            assert(out.to_multiset() =~= s.to_multiset().insert(x));
        }
    }
}

/// What the sorter promises: the output is a sorted permutation of the
/// keyed input.
pub proof fn lemma_sort_entries_ensures(s: Seq<(SortKeyV, int)>)
    ensures
        spec_entries_sorted(spec_sort_entries(s)),
        spec_sort_entries(s).to_multiset() == s.to_multiset(),
        spec_sort_entries(s).len() == s.len(),
    decreases s.len(),
{
    broadcast use vstd::seq_lib::group_to_multiset_ensures;

    if s.len() > 0 {
        let pre = s.subrange(0, s.len() - 1);
        assert(s =~= pre.push(s.last()));
        lemma_sort_entries_ensures(pre);
        lemma_insert_entry_ensures(spec_sort_entries(pre), s.last());
    }
}

/// Results with tied sort keys stand in the order their records came in:
/// the sorter never swaps them.
pub proof fn lemma_sorted_ties_keep_order(r: Seq<(SortKeyV, int)>, i: int, j: int)
    requires
        spec_entries_sorted(r),
        0 <= i < j < r.len(),
        key_tied(r[i].0, r[j].0),
    ensures
        r[i].1 <= r[j].1,
{
    assert(skey_le(r[i].0, r[i].1, r[j].0, r[j].1));
    assert(skey_le(r[i].0, 0, r[j].0, 0) && skey_le(r[j].0, 0, r[i].0, 0));
    lemma_skey_le_tie(r[i].0, r[i].1, r[j].0, r[j].1);
}

proof fn lemma_lex_common_prefix(a: Seq<char>, b: Seq<char>, i: int)
    requires
        0 <= i <= a.len(),
        i <= b.len(),
        forall|k: int| 0 <= k < i ==> a[k] == b[k],
    ensures
        lex_lt(a, b) == lex_lt(a.skip(i), b.skip(i)),
    decreases i,
{
    if i > 0 {
        assert(a.len() > 0 && b.len() > 0 && a[0] == b[0]);
        assert(lex_lt(a, b) == lex_lt(a.drop_first(), b.drop_first()));
        assert(a.drop_first().skip(i - 1) =~= a.skip(i));
        assert(b.drop_first().skip(i - 1) =~= b.skip(i));
        assert forall|k: int| 0 <= k < i - 1 implies a.drop_first()[k] == b.drop_first()[k] by {
            assert(a.drop_first()[k] == a[k + 1]);
            assert(b.drop_first()[k] == b[k + 1]);
        }
        lemma_lex_common_prefix(a.drop_first(), b.drop_first(), i - 1);
    } else {
        assert(a.skip(0) =~= a);
        assert(b.skip(0) =~= b);
    }
}

/// Strict lexicographic comparison of two strings, by code point.
fn str_lex_lt(a: &str, b: &str) -> (r: bool)
    ensures
        r == lex_lt(a@, b@),
{
    let av = crate::text::chars_vec(a);
    let bv = crate::text::chars_vec(b);
    let al: usize = av.len();
    let bl: usize = bv.len();
    let min: usize = if al < bl {
        al
    } else {
        bl
    };
    let mut i: usize = 0;
    while i < min
        invariant
            av@ == a@,
            bv@ == b@,
            al == a@.len(),
            bl == b@.len(),
            min == if al < bl {
                al
            } else {
                bl
            },
            i <= min,
            forall|k: int| 0 <= k < i ==> a@[k] == b@[k],
        decreases min - i,
    {
        let ca = av[i];
        let cb = bv[i];
        if ca != cb {
            proof {
                lemma_lex_common_prefix(a@, b@, i as int);
                assert(a@.skip(i as int).len() == a@.len() - i);
                assert(b@.skip(i as int).len() == b@.len() - i);
                assert(a@.skip(i as int)[0] == a@[i as int]);
                assert(b@.skip(i as int)[0] == b@[i as int]);
                assert(lex_lt(a@.skip(i as int), b@.skip(i as int)) == ((a@[i as int] as int) < (
                b@[i as int] as int)));
            }
            return ca < cb;
        }
        i = i + 1;
    }
    proof {
        lemma_lex_common_prefix(a@, b@, min as int);
        if al < bl {
            assert(a@.skip(min as int).len() == 0);
            assert(b@.skip(min as int).len() > 0);
        } else {
            assert(b@.skip(min as int).len() == 0);
        }
    }
    al < bl
}

fn onum_parts(o: &Option<MaybeImprecise>) -> (p: (usize, usize, usize))
    ensures
        onum_key(*o) == (p.0 as int, p.1 as int, p.2 as int),
{
    match o {
        None => (0, 0, 0),
        Some(m) => match m {
            MaybeImprecise::Precise(v) => (1, v.assumed(), 2),
            MaybeImprecise::Imprecise(c) => (1, c.bound(), c.rank()),
        },
    }
}

fn triple_lt_exec(a: (usize, usize, usize), b: (usize, usize, usize)) -> (r: bool)
    ensures
        r == triple_lt(
            (a.0 as int, a.1 as int, a.2 as int),
            (b.0 as int, b.1 as int, b.2 as int),
        ),
{
    a.0 < b.0 || (a.0 == b.0 && (a.1 < b.1 || (a.1 == b.1 && a.2 < b.2)))
}

fn skey_rank_exec(a: &SortKey) -> (r: usize)
    ensures
        r as int == skey_rank(a@),
{
    match a {
        SortKey::Text(_) => 0,
        SortKey::TextDesc(_) => 1,
        SortKey::Num(_) => 2,
        SortKey::NumDesc(_) => 3,
        SortKey::Score(_, _) => 4,
    }
}

fn skey_le_exec(a: &SortKey, ai: usize, b: &SortKey, bi: usize) -> (r: bool)
    ensures
        r == skey_le(a@, ai as int, b@, bi as int),
{
    let ra = skey_rank_exec(a);
    let rb = skey_rank_exec(b);
    if ra != rb {
        return ra < rb;
    }
    match (a, b) {
        (SortKey::Text(x), SortKey::Text(y)) => {
            if !str_eq(x.as_str(), y.as_str()) {
                str_lex_lt(x.as_str(), y.as_str())
            } else {
                ai <= bi
            }
        },
        (SortKey::TextDesc(x), SortKey::TextDesc(y)) => {
            if !str_eq(x.as_str(), y.as_str()) {
                str_lex_lt(y.as_str(), x.as_str())
            } else {
                ai <= bi
            }
        },
        (SortKey::Num(x), SortKey::Num(y)) => {
            let px = onum_parts(x);
            let py = onum_parts(y);
            if px.0 != py.0 || px.1 != py.1 || px.2 != py.2 {
                triple_lt_exec(px, py)
            } else {
                ai <= bi
            }
        },
        (SortKey::NumDesc(x), SortKey::NumDesc(y)) => {
            let px = onum_parts(x);
            let py = onum_parts(y);
            if px.0 != py.0 || px.1 != py.1 || px.2 != py.2 {
                triple_lt_exec(py, px)
            } else {
                ai <= bi
            }
        },
        (SortKey::Score(k1, n1), SortKey::Score(k2, n2)) => {
            if k1 != k2 {
                k1 > k2
            } else if !str_eq(n1.as_str(), n2.as_str()) {
                str_lex_lt(n1.as_str(), n2.as_str())
            } else {
                ai <= bi
            }
        },
        _ => true,
    }
}

/// The mathematical form of a keyed result list.
pub open spec fn entv_seq(s: Seq<(SortKey, usize)>) -> Seq<(SortKeyV, int)> {
    Seq::new(s.len(), |i: int| ((s[i].0)@, s[i].1 as int))
}

proof fn lemma_insert_entry_at(s: Seq<(SortKeyV, int)>, x: (SortKeyV, int), p: int)
    requires
        0 <= p <= s.len(),
        forall|k: int| p <= k < s.len() ==> !skey_le((#[trigger] s[k]).0, s[k].1, x.0, x.1),
        p > 0 ==> skey_le(s[p - 1].0, s[p - 1].1, x.0, x.1),
    ensures
        spec_insert_entry(s, x) =~= s.subrange(0, p) + seq![x] + s.subrange(p, s.len() as int),
    decreases s.len(),
{
    if s.len() == 0 {
    } else {
        let last = s.last();
        let pre = s.subrange(0, s.len() - 1);
        if skey_le(last.0, last.1, x.0, x.1) {
            assert(p == s.len());
            assert(s.subrange(p, s.len() as int) =~= Seq::<(SortKeyV, int)>::empty());
            assert(spec_insert_entry(s, x) == s.push(x));
            assert(s.push(x) =~= s.subrange(0, p) + seq![x] + s.subrange(p, s.len() as int));
        } else {
            assert(p < s.len());
            assert forall|k: int| p <= k < pre.len() implies !skey_le(
                (#[trigger] pre[k]).0,
                pre[k].1,
                x.0,
                x.1,
            ) by {
                assert(pre[k] == s[k]);
            }
            lemma_insert_entry_at(pre, x, p);
            assert(spec_insert_entry(s, x) == spec_insert_entry(pre, x).push(last));
            assert(spec_insert_entry(pre, x).push(last) =~= s.subrange(0, p) + seq![x]
                + s.subrange(p, s.len() as int));
        }
    }
}

/// Inserts a keyed result into an already sorted vector, keeping it sorted
/// and placing it after everything not above it.
fn insert_entry(out: &mut Vec<(SortKey, usize)>, x: (SortKey, usize))
    ensures
        entv_seq(final(out)@) == spec_insert_entry(entv_seq(old(out)@), ((x.0)@, x.1 as int)),
{
    let ghost xv = ((x.0)@, x.1 as int);
    let ghost s = entv_seq(out@);
    let mut p: usize = out.len();
    while p > 0 && !skey_le_exec(&out[p - 1].0, out[p - 1].1, &x.0, x.1)
        invariant
            s == entv_seq(out@),
            xv == ((x.0)@, x.1 as int),
            p <= out@.len(),
            forall|k: int| p <= k < s.len() ==> !skey_le((#[trigger] s[k]).0, s[k].1, xv.0, xv.1),
        decreases p,
    {
        p = p - 1;
    }
    proof {
        lemma_insert_entry_at(s, xv, p as int);
    }
    out.insert(p, x);
    proof {
        assert(entv_seq(out@) =~= s.subrange(0, p as int) + seq![xv] + s.subrange(
            p as int,
            s.len() as int,
        ));
    }
}

/// Sorts a keyed result list stably by its keys.
fn sort_entries(v: Vec<(SortKey, usize)>) -> (r: Vec<(SortKey, usize)>)
    ensures
        entv_seq(r@) == spec_sort_entries(entv_seq(v@)),
{
    let ghost orig = entv_seq(v@);
    let total: usize = v.len();
    let mut rest = v;
    let mut out: Vec<(SortKey, usize)> = Vec::new();
    let mut done: usize = 0;
    while done < total
        invariant
            orig.len() == total,
            done <= total,
            rest@.len() == total - done,
            entv_seq(rest@) =~= orig.skip(done as int),
            entv_seq(out@) == spec_sort_entries(orig.take(done as int)),
        decreases total - done,
    {
        let ghost pre_rest = rest@;
        let x = rest.remove(0);
        proof {
            assert(rest@ =~= pre_rest.subrange(1, pre_rest.len() as int));
            assert(x == pre_rest[0]);
            assert(entv_seq(pre_rest)[0] == orig.skip(done as int)[0]);
            assert(((x.0)@, x.1 as int) == orig.skip(done as int)[0]);
            assert(orig.skip(done as int)[0] == orig[done as int]);
            assert forall|k: int| 0 <= k < rest@.len() implies entv_seq(rest@)[k] == orig.skip(
                done + 1,
            )[k] by {
                assert(rest@[k] == pre_rest[k + 1]);
                assert(entv_seq(pre_rest)[k + 1] == orig.skip(done as int)[k + 1]);
                assert(orig.skip(done as int)[k + 1] == orig[done + 1 + k]);
                assert(orig.skip(done + 1)[k] == orig[done + 1 + k]);
            }
            assert(entv_seq(rest@) =~= orig.skip(done + 1));
        }
        insert_entry(&mut out, x);
        proof {
            let cur = orig.take(done + 1);
            assert(cur.subrange(0, cur.len() - 1) =~= orig.take(done as int));
            assert(cur[cur.len() - 1] == orig[done as int]);
        }
        done = done + 1;
    }
    proof {
        assert(orig.take(total as int) =~= orig);
    }
    out
}

/// The catalogue positions of the cards a query matches, in order.
pub open spec fn spec_hits(q: QueryV, prefix: Seq<Card>, full: Seq<Card>) -> Seq<int>
    decreases prefix.len(),
{
    if prefix.len() == 0 {
        Seq::empty()
    } else {
        let pre = spec_hits(q, prefix.subrange(0, prefix.len() - 1), full);
        if spec_eval(prefix[prefix.len() - 1], q, full) == Ternary::True {
            pre.push(prefix.len() - 1)
        } else {
            pre
        }
    }
}

/// The catalogue positions held by an index vector.
pub open spec fn idx_seq(s: Seq<usize>) -> Seq<int> {
    Seq::new(s.len(), |i: int| s[i] as int)
}

/// The sort key a query assigns to the card at one catalogue position.
pub open spec fn spec_key_at(
    sort: Sort,
    name: Seq<char>,
    keys: Seq<u64>,
    catalog: Seq<Card>,
    i: int,
) -> SortKeyV {
    match sort {
        Sort::Unsorted => SortKeyV::Text(Seq::empty()),
        Sort::Fuzzy => if name.len() > 0 {
            SortKeyV::Score(keys[i], catalog[i].name@)
        } else {
            SortKeyV::Text(catalog[i].name@)
        },
        Sort::Alphabet(p, o) => {
            let t = match catalog[i].spec_text(p) {
                Some(t) => t,
                None => Seq::empty(),
            };
            match o {
                Ordering::Ascending => SortKeyV::Text(t),
                Ordering::Descending => SortKeyV::TextDesc(t),
            }
        },
        Sort::Numeric(p, o) => {
            let n = catalog[i].spec_num(p);
            match o {
                Ordering::Ascending => SortKeyV::Num(n),
                Ordering::Descending => SortKeyV::NumDesc(n),
            }
        },
    }
}

/// The matching positions paired with their sort keys.
pub open spec fn spec_keyed(q: QueryV, catalog: Seq<Card>, keys: Seq<u64>) -> Seq<
    (SortKeyV, int),
> {
    let hits = spec_hits(q, catalog, catalog);
    Seq::new(
        hits.len(),
        |j: int| (spec_key_at(q.sort, q.name, keys, catalog, hits[j]), hits[j]),
    )
}

/// The catalogue positions a search returns, in their returned order: the
/// matching positions, stably sorted by the query's sorting rule.
pub open spec fn spec_search_idx(q: QueryV, catalog: Seq<Card>, keys: Seq<u64>) -> Seq<int> {
    if q.sort == Sort::Unsorted {
        spec_hits(q, catalog, catalog)
    } else {
        spec_sort_entries(spec_keyed(q, catalog, keys)).map_values(|e: (SortKeyV, int)| e.1)
    }
}

/// Every returned position lies in the catalogue.
proof fn lemma_hits_in_range(q: QueryV, prefix: Seq<Card>, full: Seq<Card>)
    ensures
        forall|j: int|
            0 <= j < spec_hits(q, prefix, full).len() ==> 0 <= (#[trigger] spec_hits(
                q,
                prefix,
                full,
            )[j]) < prefix.len(),
    decreases prefix.len(),
{
    if prefix.len() > 0 {
        let short = prefix.subrange(0, prefix.len() - 1);
        lemma_hits_in_range(q, short, full);
        let pre = spec_hits(q, short, full);
        assert forall|j: int|
            0 <= j < spec_hits(q, prefix, full).len() implies 0 <= (#[trigger] spec_hits(
            q,
            prefix,
            full,
        )[j]) < prefix.len() by {
            if j < pre.len() {
                assert(spec_hits(q, prefix, full)[j] == pre[j]);
                assert(0 <= pre[j] < short.len());
            }
        }
    }
}

fn make_key(query: &Query, fuzzy_keys: &Vec<u64>, cards: &Vec<Card>, idx: usize) -> (r: SortKey)
    requires
        idx < fuzzy_keys@.len(),
        idx < cards@.len(),
    ensures
        r@ == spec_key_at(query.sort, query.name@, fuzzy_keys@, cards@, idx as int),
{
    let card = &cards[idx];
    match query.sort {
        Sort::Unsorted => SortKey::Text(String::new()),
        Sort::Fuzzy => if !query.name.as_str().is_empty() {
            SortKey::Score(fuzzy_keys[idx], card.name.clone())
        } else {
            SortKey::Text(card.name.clone())
        },
        Sort::Alphabet(p, o) => {
            let t = match card.get_text_property(&p) {
                Some(t) => t,
                None => String::new(),
            };
            match o {
                Ordering::Ascending => SortKey::Text(t),
                Ordering::Descending => SortKey::TextDesc(t),
            }
        },
        Sort::Numeric(p, o) => {
            let n = card.get_num_property(&p);
            match o {
                Ordering::Ascending => SortKey::Num(n),
                Ordering::Descending => SortKey::NumDesc(n),
            }
        },
    }
}

/// Runs a query over a catalogue: the matching cards, ordered by the
/// query's sorting rule.  `fuzzy_keys` supplies, for each catalogue
/// position, the similarity weight used when the query sorts by how well
/// its free text matches; it is ignored by every other sorting rule.
pub fn search<'a>(query: &Query, cards: &'a Vec<Card>, fuzzy_keys: &Vec<u64>) -> (r: Vec<
    &'a Card,
>)
    requires
        fuzzy_keys@.len() == cards@.len(),
    ensures
        r@.len() == spec_search_idx(query@, cards@, fuzzy_keys@).len(),
        forall|j: int|
            0 <= j < r@.len() ==> {
                let idx = spec_search_idx(query@, cards@, fuzzy_keys@)[j];
                &&& 0 <= idx < cards@.len()
                &&& *(#[trigger] r@[j]) == cards@[idx]
            },
{
    let ghost qv = query@;
    let mut cache = Cache::new();
    let mut hits: Vec<usize> = Vec::new();
    let mut i: usize = 0;
    while i < cards.len()
        invariant
            fuzzy_keys@.len() == cards@.len(),
            cache.wf(cards@),
            i <= cards@.len(),
            qv == query@,
            idx_seq(hits@) == spec_hits(qv, cards@.take(i as int), cards@),
            forall|k: int| 0 <= k < hits@.len() ==> (#[trigger] hits@[k]) < i,
        decreases cards@.len() - i,
    {
        let m = matches_query(&cards[i], query, cards, &mut cache);
        proof {
            let cur = cards@.take(i + 1);
            assert(cur.subrange(0, cur.len() - 1) =~= cards@.take(i as int));
            assert(cur[cur.len() - 1] == cards@[i as int]);
        }
        if m.is_true() {
            hits.push(i);
        }
        proof {
            assert(idx_seq(hits@) =~= spec_hits(qv, cards@.take(i + 1), cards@));
        }
        i = i + 1;
    }
    proof {
        assert(cards@.take(cards@.len() as int) =~= cards@);
    }
    let is_unsorted = match query.sort {
        Sort::Unsorted => true,
        _ => false,
    };
    if is_unsorted {
        let mut r: Vec<&Card> = Vec::new();
        let mut j: usize = 0;
        while j < hits.len()
            invariant
                j <= hits@.len(),
                idx_seq(hits@) == spec_hits(qv, cards@, cards@),
                qv == query@,
                qv.sort == Sort::Unsorted,
                forall|k: int| 0 <= k < hits@.len() ==> (#[trigger] hits@[k]) < cards@.len(),
                r@.len() == j,
                forall|k: int| 0 <= k < j ==> *(#[trigger] r@[k]) == cards@[hits@[k] as int],
            decreases hits@.len() - j,
        {
            let idx = hits[j];
            r.push(&cards[idx]);
            j = j + 1;
        }
        r
    } else {
        let mut entries: Vec<(SortKey, usize)> = Vec::new();
        let mut j: usize = 0;
        while j < hits.len()
            invariant
                fuzzy_keys@.len() == cards@.len(),
                j <= hits@.len(),
                idx_seq(hits@) == spec_hits(qv, cards@, cards@),
                qv == query@,
                forall|k: int| 0 <= k < hits@.len() ==> (#[trigger] hits@[k]) < cards@.len(),
                entries@.len() == j,
                forall|k: int|
                    0 <= k < j ==> (#[trigger] entries@[k]).1 == hits@[k]
                        && (entries@[k].0)@ == spec_key_at(
                        qv.sort,
                        qv.name,
                        fuzzy_keys@,
                        cards@,
                        idx_seq(hits@)[k],
                    ),
            decreases hits@.len() - j,
        {
            let idx = hits[j];
            let key = make_key(query, fuzzy_keys, cards, idx);
            entries.push((key, idx));
            j = j + 1;
        }
        let ghost keyed = entv_seq(entries@);
        proof {
            assert(keyed =~= spec_keyed(qv, cards@, fuzzy_keys@));
        }
        let sorted = sort_entries(entries);
        proof {
            broadcast use vstd::seq_lib::group_to_multiset_ensures;

            lemma_sort_entries_ensures(keyed);
            assert forall|k: int|
                0 <= k < entv_seq(sorted@).len() implies 0 <= (#[trigger] entv_seq(sorted@)[k]).1
                < cards@.len() by {
                let e = entv_seq(sorted@)[k];
                assert(entv_seq(sorted@).contains(e));
                assert(entv_seq(sorted@).to_multiset().count(e) > 0);
                assert(keyed.to_multiset().count(e) > 0);
                assert(keyed.contains(e));
                let k0 = choose|k0: int| 0 <= k0 < keyed.len() && keyed[k0] == e;
                assert(keyed[k0].1 == spec_keyed(qv, cards@, fuzzy_keys@)[k0].1);
            }
        }
        let mut r: Vec<&Card> = Vec::new();
        let mut j: usize = 0;
        while j < sorted.len()
            invariant
                j <= sorted@.len(),
                qv == query@,
                entv_seq(sorted@) == spec_sort_entries(spec_keyed(qv, cards@, fuzzy_keys@)),
                forall|k: int|
                    0 <= k < sorted@.len() ==> 0 <= (#[trigger] entv_seq(sorted@)[k]).1
                        < cards@.len(),
                r@.len() == j,
                forall|k: int|
                    0 <= k < j ==> *(#[trigger] r@[k]) == cards@[entv_seq(sorted@)[k].1],
            decreases sorted@.len() - j,
        {
            let idx = sorted[j].1;
            proof {
                assert(entv_seq(sorted@)[j as int].1 == idx as int);
            }
            r.push(&cards[idx]);
            j = j + 1;
        }
        proof {
            assert(qv.sort != Sort::Unsorted);
        }
        r
    }
}

} // verus!
