//! The uniform read capability over complete cards and partial card
//! identities, and the closed enumerations naming queryable fields.
use vstd::prelude::*;
use crate::numbers::MaybeImprecise;
use crate::cards::Keyword;
use crate::cards::kins::Kin;
use crate::cards::rich_text::RichString;

verus! {

/// The uniform read surface over `Card` and `CardId`.  A reader returns
/// `None` for a property the record does not carry; what each record
/// answers is pinned by the `spec_` members.
pub trait Read {
    /// The numeric slot a record carries for a property, if any.
    spec fn spec_num(&self, property: Number) -> Option<MaybeImprecise>;

    /// The text a record carries for a property, if any.
    spec fn spec_text(&self, property: Text) -> Option<Seq<char>>;

    /// The string array a record carries for a property, if any.
    spec fn spec_vec(&self, property: Array) -> Option<Seq<Seq<char>>>;

    /// The record's keywords, if it has them.
    spec fn spec_keywords(&self) -> Option<Seq<Keyword>>;

    /// The record's name, if it has one.
    spec fn spec_name(&self) -> Option<Seq<char>>;

    /// The record's rich-text description, if it has one.
    spec fn spec_description(&self) -> Option<RichString>;

    /// The record's type line, if it has one.
    spec fn spec_type(&self) -> Option<Seq<char>>;

    /// The record's kin, if it has one.
    spec fn spec_kin(&self) -> Option<Kin>;

    /// The record's flavor text, if it has one.
    spec fn spec_flavor_text(&self) -> Option<Seq<char>>;

    /// Return a record's numeric property, if it has it.
    fn get_num_property(&self, property: &Number) -> (r: Option<MaybeImprecise>)
        ensures
            r == self.spec_num(*property),
    ;

    /// Return a record's text property, if it has it.
    fn get_text_property(&self, property: &Text) -> (r: Option<String>)
        ensures
            match r {
                Some(s) => self.spec_text(*property) == Some(s@),
                None => self.spec_text(*property) is None,
            },
    ;

    /// Return a record's array property, if it has it.
    fn get_vec_property(&self, property: &Array) -> (r: Option<&Vec<String>>)
        ensures
            match r {
                Some(v) => self.spec_vec(*property) == Some(v.deep_view()),
                None => self.spec_vec(*property) is None,
            },
    ;

    /// Return a record's keywords, if it has them.
    fn get_keywords(&self) -> (r: Option<&Vec<Keyword>>)
        ensures
            match r {
                Some(v) => self.spec_keywords() == Some(v@),
                None => self.spec_keywords() is None,
            },
    ;

    /// Return a record's name, if it has one.
    fn get_name(&self) -> (r: Option<&str>)
        ensures
            match r {
                Some(s) => self.spec_name() == Some(s@),
                None => self.spec_name() is None,
            },
    ;

    /// Return a record's description, if it has one.
    fn get_description(&self) -> (r: Option<&RichString>)
        ensures
            match r {
                Some(d) => self.spec_description() == Some(*d),
                None => self.spec_description() is None,
            },
    ;

    /// Return a record's type line, if it has one.
    fn get_type(&self) -> (r: Option<&str>)
        ensures
            match r {
                Some(s) => self.spec_type() == Some(s@),
                None => self.spec_type() is None,
            },
    ;

    /// Return a record's kin, if it has one.
    fn get_kin(&self) -> (r: Option<Kin>)
        ensures
            r == self.spec_kin(),
    ;

    /// Return a record's flavor text, if it has one.
    fn get_flavor_text(&self) -> (r: Option<&str>)
        ensures
            match r {
                Some(s) => self.spec_flavor_text() == Some(s@),
                None => self.spec_flavor_text() is None,
            },
    ;
}

/// A card's numeric properties.
#[derive(Debug, Clone, Copy, PartialEq, Eq, Structural)]
pub enum Number {
    Cost,
    FlipCost,
    Health,
    Power,
    Defense,
}

impl Number {
    /// The capitalised name used when describing a query in words.
    pub open spec fn spec_label(self) -> Seq<char> {
        match self {
            Number::Cost => "Cost"@,
            Number::Health => "Health"@,
            Number::Power => "Power"@,
            Number::Defense => "Defense"@,
            Number::FlipCost => "Flip Cost"@,
        }
    }

    pub fn label(self) -> (r: &'static str)
        ensures
            r@ == self.spec_label(),
    {
        match self {
            Number::Cost => "Cost",
            Number::Health => "Health",
            Number::Power => "Power",
            Number::Defense => "Defense",
            Number::FlipCost => "Flip Cost",
        }
    }
}

/// A card's array properties.
#[derive(Debug, Clone, Copy, PartialEq, Eq, Structural)]
pub enum Array {
    Functions,
}

impl Array {
    pub open spec fn spec_label(self) -> Seq<char> {
        match self {
            Array::Functions => "Functions"@,
        }
    }

    pub fn label(self) -> (r: &'static str)
        ensures
            r@ == self.spec_label(),
    {
        match self {
            Array::Functions => "Functions",
        }
    }
}

/// A card's text properties.
#[derive(PartialEq, Eq, Hash, Debug, Clone, Copy, Structural)]
pub enum Text {
    Id,
    Name,
    Type,
    Description,
    FlavorText,
}

impl Text {
    pub open spec fn spec_label(self) -> Seq<char> {
        match self {
            Text::Id => "ID"@,
            Text::Name => "Name"@,
            Text::Type => "Type"@,
            Text::Description => "Description"@,
            Text::FlavorText => "FlavorText"@,
        }
    }

    pub fn label(self) -> (r: &'static str)
        ensures
            r@ == self.spec_label(),
    {
        match self {
            Text::Id => "ID",
            Text::Name => "Name",
            Text::Type => "Type",
            Text::Description => "Description",
            Text::FlavorText => "FlavorText",
        }
    }
}

} // verus!
