//! Card descriptions are rich text: ordered elements that may link to other
//! cards, embed a saved search, or stage a saga.
use vstd::prelude::*;
use crate::cards::CardId;
use crate::text::string_from_chars;

verus! {

/// An element of a rich string.
#[derive(Debug, PartialEq, Eq)]
pub enum RichElement {
    String(String),
    CardId { display: String, identity: Box<CardId> },
    SpecificCard { display: String, id: String },
    CardSearch { display: String, search: String },
    Saga(Vec<RichString>),
    LineBreak,
}

/// A rich text string: an ordered sequence of elements.
#[derive(Debug, PartialEq, Eq)]
pub struct RichString {
    pub elements: Vec<RichElement>,
}

/// The plain text an element renders to: literals and link displays as they
/// are, a saga as its parts each followed by a line break.
pub open spec fn spec_render_element(e: RichElement) -> Seq<char>
    decreases e,
{
    match e {
        RichElement::String(s) => s@,
        RichElement::CardId { display, identity } => display@,
        RichElement::SpecificCard { display, id } => display@,
        RichElement::CardSearch { display, search } => display@,
        RichElement::Saga(parts) => spec_render_saga(parts@),
        RichElement::LineBreak => seq!['\n'],
    }
}

/// The plain text of a saga's parts, each followed by a line break.
pub open spec fn spec_render_saga(parts: Seq<RichString>) -> Seq<char>
    decreases parts,
{
    if parts.len() == 0 {
        Seq::empty()
    } else {
        spec_render_string(parts[0]) + seq!['\n'] + spec_render_saga(
            parts.subrange(1, parts.len() as int),
        )
    }
}

/// The plain text a rich string renders to.
pub open spec fn spec_render_string(rs: RichString) -> Seq<char>
    decreases rs,
{
    spec_render_elements(rs.elements@)
}

/// The concatenation of the renderings of a sequence of elements.
pub open spec fn spec_render_elements(es: Seq<RichElement>) -> Seq<char>
    decreases es,
{
    if es.len() == 0 {
        Seq::empty()
    } else {
        spec_render_element(es[0]) + spec_render_elements(es.subrange(1, es.len() as int))
    }
}

proof fn lemma_render_saga_concat(a: Seq<RichString>, b: Seq<RichString>)
    ensures
        spec_render_saga(a + b) == spec_render_saga(a) + spec_render_saga(b),
    decreases a.len(),
{
    if a.len() == 0 {
        assert(a + b =~= b);
        assert(spec_render_saga(a) + spec_render_saga(b) =~= spec_render_saga(b));
    } else {
        assert((a + b).subrange(1, (a + b).len() as int) =~= a.subrange(1, a.len() as int) + b);
        assert((a + b)[0] == a[0]);
        lemma_render_saga_concat(a.subrange(1, a.len() as int), b);
        assert(spec_render_saga(a + b) =~= spec_render_saga(a) + spec_render_saga(b));
    }
}

proof fn lemma_render_elements_concat(a: Seq<RichElement>, b: Seq<RichElement>)
    ensures
        spec_render_elements(a + b) == spec_render_elements(a) + spec_render_elements(b),
    decreases a.len(),
{
    if a.len() == 0 {
        assert(a + b =~= b);
        assert(spec_render_elements(a) + spec_render_elements(b) =~= spec_render_elements(b));
    } else {
        assert((a + b).subrange(1, (a + b).len() as int) =~= a.subrange(1, a.len() as int) + b);
        assert((a + b)[0] == a[0]);
        lemma_render_elements_concat(a.subrange(1, a.len() as int), b);
        assert(spec_render_elements(a + b) =~= spec_render_elements(a) + spec_render_elements(b));
    }
}

impl RichElement {
    /// The plain text this element renders to.
    pub fn render(&self) -> (r: String)
        ensures
            r@ == spec_render_element(*self),
        decreases *self,
    {
        match self {
            RichElement::String(s) => s.clone(),
            RichElement::CardId { display, identity: _ } => display.clone(),
            RichElement::SpecificCard { display, id: _ } => display.clone(),
            RichElement::CardSearch { display, search: _ } => display.clone(),
            RichElement::Saga(parts) => {
                let mut out = String::new();
                let mut i: usize = 0;
                while i < parts.len()
                    invariant
                        *self == RichElement::Saga(*parts),
                        i <= parts@.len(),
                        out@ == spec_render_saga(parts@.take(i as int)),
                    decreases parts@.len() - i,
                {
                    proof {
                        assert(decreases_to!(*self => self->Saga_0));
                        assert(decreases_to!(self->Saga_0 => self->Saga_0@));
                        assert(decreases_to!(self->Saga_0@ => self->Saga_0@[i as int]));
                        assert(self->Saga_0@[i as int] == parts@[i as int]);
                        assert(decreases_to!(*self => parts@[i as int]));
                    }
                    let part = &parts[i];
                    let rendered = part.render();
                    out.append(rendered.as_str());
                    out.push('\n');
                    proof {
                        let pre = parts@.take(i as int);
                        let one = seq![parts@[i as int]];
                        assert(parts@.take(i + 1) =~= pre + one);
                        lemma_render_saga_concat(pre, one);
                        assert(one.len() == 1);
                        assert(one[0] == parts@[i as int]);
                        let rest = one.subrange(1, 1);
                        assert(rest =~= Seq::<RichString>::empty());
                        assert(spec_render_saga(rest) == Seq::<char>::empty());
                        assert(spec_render_saga(one) == spec_render_string(one[0]) + seq!['\n']
                            + spec_render_saga(rest));
                        assert(spec_render_saga(one) =~= spec_render_string(parts@[i as int])
                            + seq!['\n']);
                        assert(out@ =~= spec_render_saga(parts@.take(i + 1)));
                    }
                    i = i + 1;
                }
                proof {
                    assert(parts@.take(parts@.len() as int) =~= parts@);
                }
                out
            },
            RichElement::LineBreak => {
                let mut out = String::new();
                out.push('\n');
                proof {
                    assert(Seq::<char>::empty().push('\n') =~= seq!['\n']);
                }
                out
            },
        }
    }
}

impl RichString {
    /// The elements of this rich string, in order.
    pub fn iter(&self) -> (r: &Vec<RichElement>)
        ensures
            r@ == self.elements@,
    {
        &self.elements
    }

    /// Appends a literal text element.
    pub fn push_string(&mut self, str: String)
        ensures
            final(self).elements@ == old(self).elements@.push(RichElement::String(str)),
    {
        self.elements.push(RichElement::String(str));
    }

    /// The plain text this rich string renders to.
    pub fn render(&self) -> (r: String)
        ensures
            r@ == spec_render_string(*self),
        decreases *self,
    {
        let mut out = String::new();
        let mut i: usize = 0;
        while i < self.elements.len()
            invariant
                i <= self.elements@.len(),
                out@ == spec_render_elements(self.elements@.take(i as int)),
            decreases self.elements@.len() - i,
        {
            proof {
                assert(decreases_to!(*self => self.elements));
                assert(decreases_to!(self.elements => self.elements@));
                assert(decreases_to!(self.elements@ => self.elements@[i as int]));
                assert(decreases_to!(*self => self.elements@[i as int]));
            }
            let rendered = self.elements[i].render();
            out.append(rendered.as_str());
            proof {
                let pre = self.elements@.take(i as int);
                let one = seq![self.elements@[i as int]];
                assert(self.elements@.take(i + 1) =~= pre + one);
                lemma_render_elements_concat(pre, one);
                assert(one.len() == 1);
                assert(one[0] == self.elements@[i as int]);
                let rest = one.subrange(1, 1);
                assert(rest =~= Seq::<RichElement>::empty());
                assert(spec_render_elements(rest) == Seq::<char>::empty());
                assert(spec_render_elements(one) == spec_render_element(one[0])
                    + spec_render_elements(rest));
                assert(spec_render_elements(one) =~= spec_render_element(
                    self.elements@[i as int],
                ));
                assert(out@ =~= spec_render_elements(self.elements@.take(i + 1)));
            }
            i = i + 1;
        }
        proof {
            assert(self.elements@.take(self.elements@.len() as int) =~= self.elements@);
        }
        out
    }
}

impl Default for RichString {
    fn default() -> (r: Self)
        ensures
            r.elements@.len() == 0,
    {
        RichString { elements: Vec::new() }
    }
}

/// The rule deciding what a rich-text object with a `display` and at most
/// one of `id`, `identity` and `search` stands for.  Exactly one of the
/// three must be present, and `display` is required.
pub fn rich_element_from_parts(
    display: Option<String>,
    identity: Option<CardId>,
    id: Option<String>,
    search: Option<String>,
) -> (r: Result<RichElement, ()>)
    ensures
        match r {
            Ok(e) => {
                &&& display is Some
                &&& match e {
                    RichElement::CardId { display: d, identity: i } => {
                        &&& display == Some(d)
                        &&& identity == Some(*i)
                        &&& id is None
                        &&& search is None
                    },
                    RichElement::SpecificCard { display: d, id: i } => {
                        &&& display == Some(d)
                        &&& id == Some(i)
                        &&& identity is None
                        &&& search is None
                    },
                    RichElement::CardSearch { display: d, search: s } => {
                        &&& display == Some(d)
                        &&& search == Some(s)
                        &&& identity is None
                        &&& id is None
                    },
                    _ => false,
                }
            },
            Err(_) => {
                ||| display is None
                ||| {
                    let n = (if identity is Some { 1int } else { 0int })
                        + (if id is Some { 1int } else { 0int })
                        + (if search is Some { 1int } else { 0int });
                    n != 1
                }
            },
        },
{
    match (display, identity, id, search) {
        (None, _, _, _) => Err(()),
        (Some(display), Some(identity), None, None) => Ok(
            RichElement::CardId { display, identity: Box::new(identity) },
        ),
        (Some(display), None, Some(id), None) => Ok(RichElement::SpecificCard { display, id }),
        (Some(display), None, None, Some(search)) => Ok(
            RichElement::CardSearch { display, search },
        ),
        _ => Err(()),
    }
}

} // verus!
