//! Complete card records and partial card identities, with their shared
//! read capability.
pub mod functions;
pub mod kins;
pub mod properties;
pub mod rich_text;
pub mod types;

use vstd::prelude::*;
use crate::clean_ascii_keep_case;
use crate::clean_seq;
use crate::numbers::MaybeImprecise;
use crate::text::{str_contains, seq_contains, chars_vec, string_from_chars};
use kins::Kin;
use properties::{Array, Number, Read, Text};
use rich_text::{RichString, spec_render_string};

verus! {

/// Where a card's pictures come from: a list of files, or a file derived
/// from the card's name.
#[derive(Debug, PartialEq, Eq)]
pub enum ImageSource {
    Files(Vec<String>),
    CardName,
}

#[derive(PartialEq, Eq, Debug)]
pub struct Image {
    pub sources: ImageSource,
    pub authors: Vec<String>,
}

/// A complete card record.  All fields are mandatory; the optional ones
/// hold their empty value rather than being absent.
#[derive(Debug, PartialEq, Eq)]
pub struct Card {
    /// A value that uniquely identifies the card: many cards may share a name.
    pub id: String,
    /// The card's name.
    pub name: String,
    /// Image sources the card may use; empty means an image named after the card.
    pub images: Vec<Image>,
    /// The card's text, excluding cost, stats and typeline.
    pub description: RichString,
    /// The card's blood cost.
    pub cost: MaybeImprecise,
    /// The card's flip cost.
    pub flip_cost: Option<MaybeImprecise>,
    /// The card's health.
    pub health: MaybeImprecise,
    /// The card's overkill protection.
    pub defense: MaybeImprecise,
    /// The card's power.
    pub power: MaybeImprecise,
    /// The card's type line.
    pub card_type: String,
    /// Keywords the card's text has.
    pub keywords: Vec<Keyword>,
    /// The card's kin, if it has one.
    pub kin: Option<Kin>,
    /// Official interpretations of the card's text.
    pub abilities: Vec<String>,
    /// What set the card belongs to.
    pub set: String,
    /// Where the card is legal: format name to status.
    pub legality: Vec<(String, String)>,
    /// Other tags.
    pub other: Vec<String>,
    /// What the card can be used for.
    pub functions: Vec<String>,
    /// The card's flavor text.
    pub flavor_text: String,
}

/// A partial card record: every field is optional, and a missing field
/// means "unrestricted".  Identities describe families of cards.
#[derive(Debug, PartialEq, Eq)]
pub struct CardId {
    pub name: Option<String>,
    pub cost: Option<MaybeImprecise>,
    pub flip_cost: Option<MaybeImprecise>,
    pub description: Option<RichString>,
    pub keywords: Option<Vec<Keyword>>,
    pub card_type: Option<String>,
    pub kin: Option<Kin>,
    pub health: Option<MaybeImprecise>,
    pub defense: Option<MaybeImprecise>,
    pub power: Option<MaybeImprecise>,
    pub abilities: Option<Vec<String>>,
    pub functions: Option<Vec<String>>,
}

/// The data a keyword may carry.
#[derive(Debug, PartialEq, Eq)]
pub enum KeywordData {
    CardId(Box<CardId>),
    String(String),
}

/// A card's keyword.
#[derive(Debug, PartialEq, Eq)]
pub struct Keyword {
    pub name: String,
    pub data: Option<KeywordData>,
}

/// Whether a type line names a command: the carve-out under which the
/// stat slots of such a card read as absent.
pub open spec fn spec_is_command(type_line: Seq<char>) -> bool {
    seq_contains(type_line, "command"@)
}

impl Read for Card {
    open spec fn spec_num(&self, property: Number) -> Option<MaybeImprecise> {
        match property {
            Number::Cost => Some(self.cost),
            Number::Health => if spec_is_command(self.card_type@) {
                None
            } else {
                Some(self.health)
            },
            Number::Defense => if spec_is_command(self.card_type@) {
                None
            } else {
                Some(self.defense)
            },
            Number::Power => if spec_is_command(self.card_type@) {
                None
            } else {
                Some(self.power)
            },
            Number::FlipCost => self.flip_cost,
        }
    }

    open spec fn spec_text(&self, property: Text) -> Option<Seq<char>> {
        match property {
            Text::Id => Some(self.id@),
            Text::Name => Some(self.name@),
            Text::Type => Some(self.card_type@),
            Text::Description => Some(spec_render_string(self.description)),
            Text::FlavorText => Some(self.flavor_text@),
        }
    }

    open spec fn spec_vec(&self, property: Array) -> Option<Seq<Seq<char>>> {
        match property {
            Array::Functions => Some(self.functions.deep_view()),
        }
    }

    open spec fn spec_keywords(&self) -> Option<Seq<Keyword>> {
        Some(self.keywords@)
    }

    open spec fn spec_name(&self) -> Option<Seq<char>> {
        Some(self.name@)
    }

    open spec fn spec_description(&self) -> Option<RichString> {
        Some(self.description)
    }

    open spec fn spec_type(&self) -> Option<Seq<char>> {
        Some(self.card_type@)
    }

    open spec fn spec_kin(&self) -> Option<Kin> {
        self.kin
    }

    open spec fn spec_flavor_text(&self) -> Option<Seq<char>> {
        Some(self.flavor_text@)
    }

    /// A card answers every numeric slot, except that the stat slots of a
    /// command-typed card read as absent.
    fn get_num_property(&self, property: &Number) -> (r: Option<MaybeImprecise>) {
        match property {
            Number::Cost => Some(self.cost),
            Number::Health => if str_contains(self.card_type.as_str(), "command") {
                None
            } else {
                Some(self.health)
            },
            Number::Defense => if str_contains(self.card_type.as_str(), "command") {
                None
            } else {
                Some(self.defense)
            },
            Number::Power => if str_contains(self.card_type.as_str(), "command") {
                None
            } else {
                Some(self.power)
            },
            Number::FlipCost => self.flip_cost,
        }
    }

    /// A card answers every text slot; the description renders to plain text.
    fn get_text_property(&self, property: &Text) -> (r: Option<String>) {
        match property {
            Text::Id => Some(self.id.clone()),
            Text::Name => Some(self.name.clone()),
            Text::Type => Some(self.card_type.clone()),
            Text::Description => Some(self.description.render()),
            Text::FlavorText => Some(self.flavor_text.clone()),
        }
    }

    fn get_vec_property(&self, property: &Array) -> (r: Option<&Vec<String>>) {
        match property {
            Array::Functions => Some(&self.functions),
        }
    }

    fn get_keywords(&self) -> (r: Option<&Vec<Keyword>>) {
        Some(&self.keywords)
    }

    fn get_name(&self) -> (r: Option<&str>) {
        Some(self.name.as_str())
    }

    fn get_description(&self) -> (r: Option<&RichString>) {
        Some(&self.description)
    }

    fn get_type(&self) -> (r: Option<&str>) {
        Some(self.card_type.as_str())
    }

    fn get_kin(&self) -> (r: Option<Kin>) {
        self.kin
    }

    fn get_flavor_text(&self) -> (r: Option<&str>) {
        Some(self.flavor_text.as_str())
    }
}

impl Read for CardId {
    open spec fn spec_num(&self, property: Number) -> Option<MaybeImprecise> {
        match property {
            Number::Cost => self.cost,
            Number::Health => if self.spec_type_is_command() {
                None
            } else {
                self.health
            },
            Number::Defense => if self.spec_type_is_command() {
                None
            } else {
                self.defense
            },
            Number::Power => if self.spec_type_is_command() {
                None
            } else {
                self.power
            },
            Number::FlipCost => self.flip_cost,
        }
    }

    open spec fn spec_text(&self, property: Text) -> Option<Seq<char>> {
        match property {
            Text::Name => match self.name {
                Some(s) => Some(s@),
                None => None,
            },
            Text::Type => match self.card_type {
                Some(s) => Some(s@),
                None => None,
            },
            Text::Description => match self.description {
                Some(d) => Some(spec_render_string(d)),
                None => None,
            },
            Text::FlavorText => None,
            Text::Id => None,
        }
    }

    open spec fn spec_vec(&self, property: Array) -> Option<Seq<Seq<char>>> {
        match property {
            Array::Functions => match self.functions {
                Some(v) => Some(v.deep_view()),
                None => None,
            },
        }
    }

    open spec fn spec_keywords(&self) -> Option<Seq<Keyword>> {
        match self.keywords {
            Some(v) => Some(v@),
            None => None,
        }
    }

    open spec fn spec_name(&self) -> Option<Seq<char>> {
        match self.name {
            Some(s) => Some(s@),
            None => None,
        }
    }

    open spec fn spec_description(&self) -> Option<RichString> {
        self.description
    }

    open spec fn spec_type(&self) -> Option<Seq<char>> {
        match self.card_type {
            Some(s) => Some(s@),
            None => None,
        }
    }

    open spec fn spec_kin(&self) -> Option<Kin> {
        self.kin
    }

    open spec fn spec_flavor_text(&self) -> Option<Seq<char>> {
        None
    }

    /// An identity answers only the slots it specifies, under the same
    /// command carve-out as a card when it does specify a type.
    fn get_num_property(&self, property: &Number) -> (r: Option<MaybeImprecise>) {
        match property {
            Number::Cost => self.cost,
            Number::Health => if self.type_is_command() {
                None
            } else {
                self.health
            },
            Number::Defense => if self.type_is_command() {
                None
            } else {
                self.defense
            },
            Number::Power => if self.type_is_command() {
                None
            } else {
                self.power
            },
            Number::FlipCost => self.flip_cost,
        }
    }

    fn get_text_property(&self, property: &Text) -> (r: Option<String>) {
        match property {
            Text::Name => match &self.name {
                Some(s) => Some(s.clone()),
                None => None,
            },
            Text::Type => match &self.card_type {
                Some(s) => Some(s.clone()),
                None => None,
            },
            Text::Description => match &self.description {
                Some(d) => Some(d.render()),
                None => None,
            },
            Text::FlavorText => None,
            Text::Id => None,
        }
    }

    fn get_vec_property(&self, property: &Array) -> (r: Option<&Vec<String>>) {
        match property {
            Array::Functions => match &self.functions {
                Some(v) => Some(v),
                None => None,
            },
        }
    }

    fn get_keywords(&self) -> (r: Option<&Vec<Keyword>>) {
        match &self.keywords {
            Some(v) => Some(v),
            None => None,
        }
    }

    fn get_name(&self) -> (r: Option<&str>) {
        match &self.name {
            Some(s) => Some(s.as_str()),
            None => None,
        }
    }

    fn get_description(&self) -> (r: Option<&RichString>) {
        match &self.description {
            Some(d) => Some(d),
            None => None,
        }
    }

    fn get_type(&self) -> (r: Option<&str>) {
        match &self.card_type {
            Some(s) => Some(s.as_str()),
            None => None,
        }
    }

    fn get_kin(&self) -> (r: Option<Kin>) {
        self.kin
    }

    fn get_flavor_text(&self) -> (r: Option<&str>) {
        None
    }
}

impl CardId {
    /// The identity specifies a type line and that line names a command.
    pub open spec fn spec_type_is_command(&self) -> bool {
        match self.card_type {
            Some(t) => spec_is_command(t@),
            None => false,
        }
    }

    fn type_is_command(&self) -> (r: bool)
        ensures
            r == self.spec_type_is_command(),
    {
        match &self.card_type {
            Some(t) => str_contains(t.as_str(), "command"),
            None => false,
        }
    }
}

/// Relies on `getrandom::u32`: some number from the system's randomness
/// source, or nothing when that source fails.  Nothing is promised of the
/// value.
#[verifier::external_body]
fn random_u32() -> (r: Option<u32>) {
    getrandom::u32().ok()
}

/// The characters of a name with its spaces dropped.
pub open spec fn drop_spaces(s: Seq<char>) -> Seq<char>
    decreases s.len(),
{
    if s.len() == 0 {
        Seq::empty()
    } else if s[0] == ' ' {
        drop_spaces(s.drop_first())
    } else {
        seq![s[0]] + drop_spaces(s.drop_first())
    }
}

proof fn lemma_drop_spaces_push(s: Seq<char>, c: char)
    ensures
        drop_spaces(s.push(c)) == if c == ' ' {
            drop_spaces(s)
        } else {
            drop_spaces(s).push(c)
        },
    decreases s.len(),
{
    if s.len() == 0 {
        assert(s.push(c)[0] == c);
        assert(s.push(c).drop_first() =~= Seq::<char>::empty());
        if c == ' ' {
            assert(drop_spaces(s.push(c)) == drop_spaces(Seq::<char>::empty()));
        } else {
            assert(drop_spaces(s.push(c)) == seq![c] + drop_spaces(Seq::<char>::empty()));
            assert(seq![c] + Seq::<char>::empty() =~= Seq::<char>::empty().push(c));
            assert(drop_spaces(s) == Seq::<char>::empty());
        }
    } else {
        let t = s.drop_first();
        assert(s.push(c)[0] == s[0]);
        assert(s.push(c).drop_first() =~= t.push(c));
        lemma_drop_spaces_push(t, c);
        if s[0] == ' ' {
            assert(drop_spaces(s.push(c)) == drop_spaces(t.push(c)));
            assert(drop_spaces(s) == drop_spaces(t));
        } else {
            assert(drop_spaces(s.push(c)) == seq![s[0]] + drop_spaces(t.push(c)));
            assert(drop_spaces(s) == seq![s[0]] + drop_spaces(t));
            if c != ' ' {
                assert(seq![s[0]] + drop_spaces(t).push(c) =~= (seq![s[0]] + drop_spaces(
                    t,
                )).push(c));
            }
        }
    }
}

fn remove_spaces(s: &str) -> (r: String)
    ensures
        r@ == drop_spaces(s@),
{
    let cs = chars_vec(s);
    let mut out: Vec<char> = Vec::new();
    let mut i: usize = 0;
    while i < cs.len()
        invariant
            i <= cs@.len(),
            out@ == drop_spaces(cs@.take(i as int)),
        decreases cs@.len() - i,
    {
        let c = cs[i];
        if c != ' ' {
            out.push(c);
        }
        proof {
            assert(cs@.take(i + 1) =~= cs@.take(i as int).push(cs@[i as int]));
            lemma_drop_spaces_push(cs@.take(i as int), cs@[i as int]);
        }
        i = i + 1;
    }
    proof {
        assert(cs@.take(cs@.len() as int) =~= cs@);
    }
    string_from_chars(&out)
}

/// The file one drawn number picks from an image's sources: the draw
/// modulo the file count indexes the files; without files, or without a
/// draw, the path derived from the card's name stands in.
pub open spec fn spec_drawn_path(card: Card, img: Image, draw: Option<u32>) -> Seq<char> {
    match img.sources {
        ImageSource::CardName => card.spec_name_image_path(),
        ImageSource::Files(files) => if files@.len() == 0 {
            card.spec_name_image_path()
        } else {
            match draw {
                Some(n) => files@[(n as int) % (files@.len() as int)]@,
                None => card.spec_name_image_path(),
            }
        },
    }
}

/// What a path answered by the image lookups may be: one of the files of
/// the image that was consulted, or the path derived from the card's name.
pub open spec fn spec_image_path_from(card: Card, image: Option<Image>, r: Seq<char>) -> bool {
    match image {
        None => r == card.spec_name_image_path(),
        Some(img) => match img.sources {
            ImageSource::CardName => r == card.spec_name_image_path(),
            ImageSource::Files(files) => (exists|i: int|
                0 <= i < files@.len() && r == files@[i]@) || r == card.spec_name_image_path(),
        },
    }
}

impl Card {
    /// The image path derived from the card's name: the name without
    /// spaces, cleaned but for its case.
    pub open spec fn spec_name_image_path(&self) -> Seq<char> {
        clean_seq(drop_spaces(self.name@))
    }

    pub fn get_name_image_path(&self) -> (r: String)
        ensures
            r@ == self.spec_name_image_path(),
    {
        let without = remove_spaces(self.name.as_str());
        clean_ascii_keep_case(without.as_str())
    }

    /// A path from the last image's files, chosen at random; the name path
    /// when there is no such file or no randomness to pick one with.
    pub fn get_random_image_path(&self) -> (r: String)
        ensures
            spec_image_path_from(
                *self,
                if self.images@.len() == 0 {
                    None
                } else {
                    Some(self.images@.last())
                },
                r@,
            ),
    {
        if self.images.len() == 0 {
            return self.get_name_image_path();
        }
        let img = &self.images[self.images.len() - 1];
        self.path_from_image(img)
    }

    /// A path from the indexed image's files, chosen at random; the name
    /// path when the index or the file pick runs out.
    pub fn get_image_path(&self, index: usize) -> (r: String)
        ensures
            spec_image_path_from(
                *self,
                if index < self.images@.len() {
                    Some(self.images@[index as int])
                } else {
                    None
                },
                r@,
            ),
    {
        if index >= self.images.len() {
            return self.get_name_image_path();
        }
        let img = &self.images[index];
        self.path_from_image(img)
    }

    /// The path one drawn number picks from an image: the file at the draw
    /// modulo the file count, or the name path when there is no file to
    /// pick or no draw to pick it with.
    pub fn drawn_image_path(&self, img: &Image, draw: Option<u32>) -> (r: String)
        ensures
            r@ == spec_drawn_path(*self, *img, draw),
    {
        match &img.sources {
            ImageSource::CardName => self.get_name_image_path(),
            ImageSource::Files(files) => {
                if files.len() == 0 {
                    return self.get_name_image_path();
                }
                match draw {
                    Some(n) => {
                        let i = (n as usize) % files.len();
                        files[i].clone()
                    },
                    None => self.get_name_image_path(),
                }
            },
        }
    }

    fn path_from_image(&self, img: &Image) -> (r: String)
        ensures
            spec_image_path_from(*self, Some(*img), r@),
    {
        let draw = random_u32();
        let r = self.drawn_image_path(img, draw);
        proof {
            let src = img.sources;
            if let ImageSource::Files(fs) = src {
                if fs@.len() > 0 && draw is Some {
                    let i = (draw->0 as int) % (fs@.len() as int);
                    assert(0 <= i < fs@.len());
                    assert(r@ == fs@[i]@);
                }
            }
        }
        r
    }

    /// All artists credited across the card's images, in order.
    pub fn get_artists(&self) -> (r: Vec<String>)
        ensures
            r@ == spec_artists(self.images@),
    {
        let mut out: Vec<String> = Vec::new();
        let mut i: usize = 0;
        while i < self.images.len()
            invariant
                i <= self.images@.len(),
                out@ == spec_artists(self.images@.take(i as int)),
            decreases self.images@.len() - i,
        {
            let img = &self.images[i];
            let mut j: usize = 0;
            while j < img.authors.len()
                invariant
                    j <= img.authors@.len(),
                    img == &self.images[i as int],
                    i < self.images@.len(),
                    out@ == spec_artists(self.images@.take(i as int)) + img.authors@.take(
                        j as int,
                    ),
                decreases img.authors@.len() - j,
            {
                out.push(img.authors[j].clone());
                proof {
                    assert(img.authors@.take(j + 1) =~= img.authors@.take(j as int).push(
                        img.authors@[j as int],
                    ));
                    assert(out@ =~= spec_artists(self.images@.take(i as int))
                        + img.authors@.take(j + 1));
                }
                j = j + 1;
            }
            proof {
                assert(img.authors@.take(img.authors@.len() as int) =~= img.authors@);
                assert(self.images@.take(i + 1) =~= self.images@.take(i as int).push(
                    self.images@[i as int],
                ));
                lemma_artists_push(self.images@.take(i as int), self.images@[i as int]);
            }
            i = i + 1;
        }
        proof {
            assert(self.images@.take(self.images@.len() as int) =~= self.images@);
        }
        out
    }
}

/// The concatenation of the author lists of a sequence of images.
pub open spec fn spec_artists(images: Seq<Image>) -> Seq<String>
    decreases images.len(),
{
    if images.len() == 0 {
        Seq::empty()
    } else {
        spec_artists(images.drop_last()) + images.last().authors@
    }
}

proof fn lemma_artists_push(images: Seq<Image>, img: Image)
    ensures
        spec_artists(images.push(img)) == spec_artists(images) + img.authors@,
{
    assert(images.push(img).drop_last() =~= images);
    assert(images.push(img).last() == img);
}

} // verus!
