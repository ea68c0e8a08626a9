//! The hierarchical kin tag carried by cards, with its curated name table.
use vstd::prelude::*;
use crate::text::{str_eq, str_contains, seq_contains, regex_valid, regex_is_match, regex_match, chars_vec, chars_contain};
use crate::{lower_seq, lower_ascii};

verus! {

/// A kin.  Some top-level kins admit children: the `None` variant of their
/// payload stands for the parent kin itself.
#[derive(Debug, Clone, Copy, PartialEq, Eq, Structural)]
pub enum Kin {
    Assassin,
    Undead,
    Reptile,
    CultOfNa,
    Sorcery,
    Their,
    Insect(Option<InsectKin>),
    Piezan(Option<PiezanKin>),
    Machine(Option<MachineKin>),
}

#[derive(Debug, Clone, Copy, PartialEq, Eq, Structural)]
pub enum InsectKin {
    Ant,
    Bee,
}

#[derive(Debug, Clone, Copy, PartialEq, Eq, Structural)]
pub enum PiezanKin {
    RedKingdom,
    BlueKingdom,
    BlackKingdom,
    GreenKingdom,
}

#[derive(Debug, Clone, Copy, PartialEq, Eq, Structural)]
pub enum MachineKin {
    Blight,
}

impl InsectKin {
    pub open spec fn spec_name(self) -> Seq<char> {
        match self {
            InsectKin::Ant => "ant"@,
            InsectKin::Bee => "bee"@,
        }
    }

    pub fn get_name(self) -> (r: &'static str)
        ensures
            r@ == self.spec_name(),
    {
        match self {
            InsectKin::Ant => "ant",
            InsectKin::Bee => "bee",
        }
    }
}

impl PiezanKin {
    pub open spec fn spec_name(self) -> Seq<char> {
        match self {
            PiezanKin::RedKingdom => "red kingdom"@,
            PiezanKin::BlueKingdom => "blue kingdom"@,
            PiezanKin::BlackKingdom => "black kingdom"@,
            PiezanKin::GreenKingdom => "green kingdom"@,
        }
    }

    pub fn get_name(self) -> (r: &'static str)
        ensures
            r@ == self.spec_name(),
    {
        match self {
            PiezanKin::RedKingdom => "red kingdom",
            PiezanKin::BlueKingdom => "blue kingdom",
            PiezanKin::BlackKingdom => "black kingdom",
            PiezanKin::GreenKingdom => "green kingdom",
        }
    }
}

impl MachineKin {
    pub open spec fn spec_name(self) -> Seq<char> {
        match self {
            MachineKin::Blight => "blight"@,
        }
    }

    pub fn get_name(self) -> (r: &'static str)
        ensures
            r@ == self.spec_name(),
    {
        match self {
            MachineKin::Blight => "blight",
        }
    }
}

impl Kin {
    pub open spec fn spec_name(self) -> Seq<char> {
        match self {
            Kin::Assassin => "assassin"@,
            Kin::CultOfNa => "cult of na"@,
            Kin::Reptile => "reptile"@,
            Kin::Sorcery => "sorcery"@,
            Kin::Undead => "undead"@,
            Kin::Insect(k) => match k {
                Some(k) => k.spec_name(),
                None => "insect"@,
            },
            Kin::Piezan(k) => match k {
                Some(k) => k.spec_name(),
                None => "piezan"@,
            },
            Kin::Machine(k) => match k {
                Some(k) => k.spec_name(),
                None => "machine"@,
            },
            Kin::Their => "THEIR"@,
        }
    }

    /// The curated lower-case name of this kin.
    pub fn get_name(self) -> (r: &'static str)
        ensures
            r@ == self.spec_name(),
    {
        match self {
            Kin::Assassin => "assassin",
            Kin::CultOfNa => "cult of na",
            Kin::Reptile => "reptile",
            Kin::Sorcery => "sorcery",
            Kin::Undead => "undead",
            Kin::Insect(k) => match k {
                Some(k) => k.get_name(),
                None => "insect",
            },
            Kin::Piezan(k) => match k {
                Some(k) => k.get_name(),
                None => "piezan",
            },
            Kin::Machine(k) => match k {
                Some(k) => k.get_name(),
                None => "machine",
            },
            Kin::Their => "THEIR",
        }
    }

    /// `other` names `self`'s family: it is the same kin, or the parent kin
    /// of which `self` is a child.  The relation is asymmetric.
    pub open spec fn spec_same_or_child(self, other: Kin) -> bool {
        match (self, other) {
            (Kin::Undead, Kin::Undead) => true,
            (Kin::Assassin, Kin::Assassin) => true,
            (Kin::Reptile, Kin::Reptile) => true,
            (Kin::CultOfNa, Kin::CultOfNa) => true,
            (Kin::Sorcery, Kin::Sorcery) => true,
            (Kin::Their, Kin::Their) => true,
            (Kin::Insect(_), Kin::Insect(None)) => true,
            (Kin::Insect(Some(a)), Kin::Insect(Some(b))) => a == b,
            (Kin::Piezan(_), Kin::Piezan(None)) => true,
            (Kin::Piezan(Some(a)), Kin::Piezan(Some(b))) => a == b,
            (Kin::Machine(_), Kin::Machine(None)) => true,
            (Kin::Machine(Some(a)), Kin::Machine(Some(b))) => a == b,
            _ => false,
        }
    }

    /// Returns true if `other` is the same kin as `self` or one of `self`'s
    /// parents; in other words, if `other`'s family covers `self`.
    pub fn is_same_or_child(self, other: Self) -> (r: bool)
        ensures
            r == self.spec_same_or_child(other),
    {
        match (self, other) {
            (Kin::Undead, Kin::Undead) => true,
            (Kin::Assassin, Kin::Assassin) => true,
            (Kin::Reptile, Kin::Reptile) => true,
            (Kin::CultOfNa, Kin::CultOfNa) => true,
            (Kin::Sorcery, Kin::Sorcery) => true,
            (Kin::Their, Kin::Their) => true,
            (Kin::Insect(_), Kin::Insect(None)) => true,
            (Kin::Insect(Some(a)), Kin::Insect(Some(b))) => a == b,
            (Kin::Piezan(_), Kin::Piezan(None)) => true,
            (Kin::Piezan(Some(a)), Kin::Piezan(Some(b))) => a == b,
            (Kin::Machine(_), Kin::Machine(None)) => true,
            (Kin::Machine(Some(a)), Kin::Machine(Some(b))) => a == b,
            _ => false,
        }
    }

    /// The value the curated table assigns to a lower-case kin name.
    pub open spec fn spec_from_string(s: Seq<char>) -> Option<Kin> {
        if s == "THEIR"@ || s == "their"@ || s == "THEY"@ || s == "they"@ {
            Some(Kin::Their)
        } else if s == "sorcery"@ {
            Some(Kin::Sorcery)
        } else if s == "assassin"@ {
            Some(Kin::Assassin)
        } else if s == "reptile"@ {
            Some(Kin::Reptile)
        } else if s == "cult of na"@ || s == "cult of n\u{e4}"@ {
            Some(Kin::CultOfNa)
        } else if s == "undead"@ {
            Some(Kin::Undead)
        } else if s == "insect"@ {
            Some(Kin::Insect(None))
        } else if s == "piezan"@ {
            Some(Kin::Piezan(None))
        } else if s == "machine"@ {
            Some(Kin::Machine(None))
        } else if s == "ant"@ {
            Some(Kin::Insect(Some(InsectKin::Ant)))
        } else if s == "bee"@ {
            Some(Kin::Insect(Some(InsectKin::Bee)))
        } else if s == "blight"@ {
            Some(Kin::Machine(Some(MachineKin::Blight)))
        } else if s == "red kingdom"@ {
            Some(Kin::Piezan(Some(PiezanKin::RedKingdom)))
        } else if s == "blue kingdom"@ {
            Some(Kin::Piezan(Some(PiezanKin::BlueKingdom)))
        } else if s == "green kingdom"@ {
            Some(Kin::Piezan(Some(PiezanKin::GreenKingdom)))
        } else if s == "black kingdom"@ {
            Some(Kin::Piezan(Some(PiezanKin::BlackKingdom)))
        } else {
            None
        }
    }

    /// Looks a name up in the curated table.
    pub fn from_string(string: &str) -> (r: Option<Self>)
        ensures
            r == Kin::spec_from_string(string@),
    {
        if str_eq(string, "THEIR") || str_eq(string, "their") || str_eq(string, "THEY") || str_eq(
            string,
            "they",
        ) {
            Some(Kin::Their)
        } else if str_eq(string, "sorcery") {
            Some(Kin::Sorcery)
        } else if str_eq(string, "assassin") {
            Some(Kin::Assassin)
        } else if str_eq(string, "reptile") {
            Some(Kin::Reptile)
        } else if str_eq(string, "cult of na") || str_eq(string, "cult of n\u{e4}") {
            Some(Kin::CultOfNa)
        } else if str_eq(string, "undead") {
            Some(Kin::Undead)
        } else if str_eq(string, "insect") {
            Some(Kin::Insect(None))
        } else if str_eq(string, "piezan") {
            Some(Kin::Piezan(None))
        } else if str_eq(string, "machine") {
            Some(Kin::Machine(None))
        } else if str_eq(string, "ant") {
            Some(Kin::Insect(Some(InsectKin::Ant)))
        } else if str_eq(string, "bee") {
            Some(Kin::Insect(Some(InsectKin::Bee)))
        } else if str_eq(string, "blight") {
            Some(Kin::Machine(Some(MachineKin::Blight)))
        } else if str_eq(string, "red kingdom") {
            Some(Kin::Piezan(Some(PiezanKin::RedKingdom)))
        } else if str_eq(string, "blue kingdom") {
            Some(Kin::Piezan(Some(PiezanKin::BlueKingdom)))
        } else if str_eq(string, "green kingdom") {
            Some(Kin::Piezan(Some(PiezanKin::GreenKingdom)))
        } else if str_eq(string, "black kingdom") {
            Some(Kin::Piezan(Some(PiezanKin::BlackKingdom)))
        } else {
            None
        }
    }
}

/// Every curated kin name resolves back to the kin it names.
pub proof fn lemma_kin_name_round_trip(k: Kin)
    ensures
        Kin::spec_from_string(k.spec_name()) == Some(k),
{
    reveal_strlit("THEIR");
    reveal_strlit("their");
    reveal_strlit("THEY");
    reveal_strlit("they");
    reveal_strlit("sorcery");
    reveal_strlit("assassin");
    reveal_strlit("reptile");
    reveal_strlit("cult of na");
    reveal_strlit("cult of n\u{e4}");
    reveal_strlit("undead");
    reveal_strlit("insect");
    reveal_strlit("piezan");
    reveal_strlit("machine");
    reveal_strlit("ant");
    reveal_strlit("bee");
    reveal_strlit("blight");
    reveal_strlit("red kingdom");
    reveal_strlit("blue kingdom");
    reveal_strlit("green kingdom");
    reveal_strlit("black kingdom");
    assert("THEIR"@.len() == 5);
    assert("their"@.len() == 5);
    assert("THEY"@.len() == 4);
    assert("they"@.len() == 4);
    assert("sorcery"@.len() == 7);
    assert("assassin"@.len() == 8);
    assert("reptile"@.len() == 7);
    assert("cult of na"@.len() == 10);
    assert("cult of n\u{e4}"@.len() == 10);
    assert("undead"@.len() == 6);
    assert("insect"@.len() == 6);
    assert("piezan"@.len() == 6);
    assert("machine"@.len() == 7);
    assert("ant"@.len() == 3);
    assert("bee"@.len() == 3);
    assert("blight"@.len() == 6);
    assert("red kingdom"@.len() == 11);
    assert("blue kingdom"@.len() == 12);
    assert("green kingdom"@.len() == 13);
    assert("black kingdom"@.len() == 13);
    assert("THEIR"@[0] == 'T');
    assert("their"@[0] == 't');
    assert("THEY"@[0] == 'T');
    assert("they"@[0] == 't');
    assert("ant"@[0] == 'a');
    assert("bee"@[0] == 'b');
    assert("sorcery"@[0] == 's');
    assert("assassin"@[0] == 'a');
    assert("reptile"@[0] == 'r');
    assert("machine"@[0] == 'm');
    assert("cult of na"@[9] == 'a');
    assert("cult of n\u{e4}"@[9] == '\u{e4}');
    assert("undead"@[0] == 'u');
    assert("insect"@[0] == 'i');
    assert("piezan"@[0] == 'p');
    assert("blight"@[0] == 'b');
    assert("green kingdom"@[0] == 'g');
    assert("black kingdom"@[0] == 'b');
    match k {
        Kin::Assassin => assert(Kin::spec_from_string(k.spec_name()) == Some(k)),
        Kin::Undead => assert(Kin::spec_from_string(k.spec_name()) == Some(k)),
        Kin::Reptile => assert(Kin::spec_from_string(k.spec_name()) == Some(k)),
        Kin::CultOfNa => assert(Kin::spec_from_string(k.spec_name()) == Some(k)),
        Kin::Sorcery => assert(Kin::spec_from_string(k.spec_name()) == Some(k)),
        Kin::Their => assert(Kin::spec_from_string(k.spec_name()) == Some(k)),
        Kin::Insect(ik) => match ik {
            None => assert(Kin::spec_from_string(k.spec_name()) == Some(k)),
            Some(InsectKin::Ant) => assert(Kin::spec_from_string(k.spec_name()) == Some(k)),
            Some(InsectKin::Bee) => assert(Kin::spec_from_string(k.spec_name()) == Some(k)),
        },
        Kin::Piezan(pk) => match pk {
            None => assert(Kin::spec_from_string(k.spec_name()) == Some(k)),
            Some(PiezanKin::RedKingdom) => assert(Kin::spec_from_string(k.spec_name()) == Some(
                k,
            )),
            Some(PiezanKin::BlueKingdom) => assert(Kin::spec_from_string(k.spec_name()) == Some(
                k,
            )),
            Some(PiezanKin::BlackKingdom) => assert(Kin::spec_from_string(k.spec_name())
                == Some(k)),
            Some(PiezanKin::GreenKingdom) => assert(Kin::spec_from_string(k.spec_name())
                == Some(k)),
        },
        Kin::Machine(mk) => match mk {
            None => assert(Kin::spec_from_string(k.spec_name()) == Some(k)),
            Some(MachineKin::Blight) => assert(Kin::spec_from_string(k.spec_name()) == Some(k)),
        },
    }
}

/// The mathematical form of a kin comparison: its texts as character
/// sequences.
pub enum KinComparisonV {
    Equal(Kin),
    Similar(Kin),
    TextContains(Seq<char>),
    TextEqual(Seq<char>),
    RegexMatch(Seq<char>),
}

impl View for KinComparison {
    type V = KinComparisonV;

    open spec fn view(&self) -> KinComparisonV {
        match self {
            KinComparison::Equal(k) => KinComparisonV::Equal(*k),
            KinComparison::Similar(k) => KinComparisonV::Similar(*k),
            KinComparison::TextContains(s) => KinComparisonV::TextContains(s@),
            KinComparison::TextEqual(s) => KinComparisonV::TextEqual(s@),
            KinComparison::RegexMatch(s) => KinComparisonV::RegexMatch(s@),
        }
    }
}

impl Clone for KinComparison {
    fn clone(&self) -> (r: Self)
        ensures
            r@ == self@,
    {
        match self {
            KinComparison::Equal(k) => KinComparison::Equal(*k),
            KinComparison::Similar(k) => KinComparison::Similar(*k),
            KinComparison::TextContains(s) => KinComparison::TextContains(s.clone()),
            KinComparison::TextEqual(s) => KinComparison::TextEqual(s.clone()),
            KinComparison::RegexMatch(s) => KinComparison::RegexMatch(s.clone()),
        }
    }
}

/// Whether two kin comparisons say the same thing.
pub fn kin_comparison_eq(a: &KinComparison, b: &KinComparison) -> (r: bool)
    ensures
        r == (a@ == b@),
{
    match (a, b) {
        (KinComparison::Equal(x), KinComparison::Equal(y)) => x == y,
        (KinComparison::Similar(x), KinComparison::Similar(y)) => x == y,
        (KinComparison::TextContains(x), KinComparison::TextContains(y)) => str_eq(
            x.as_str(),
            y.as_str(),
        ),
        (KinComparison::TextEqual(x), KinComparison::TextEqual(y)) => str_eq(
            x.as_str(),
            y.as_str(),
        ),
        (KinComparison::RegexMatch(x), KinComparison::RegexMatch(y)) => str_eq(
            x.as_str(),
            y.as_str(),
        ),
        _ => false,
    }
}

/// A comparison a query can hold against a card's kin.
#[derive(Debug)]
pub enum KinComparison {
    /// Matches exactly the same kin.
    Equal(Kin),
    /// Matches the same kin and its children.
    Similar(Kin),
    /// Matches when the kin's name contains the text.
    TextContains(String),
    /// Matches when the kin's name equals the text, case aside.
    TextEqual(String),
    /// Matches when the regex pattern matches the kin's name.
    RegexMatch(String),
}

impl KinComparisonV {
    /// What this comparison says of a kin.
    pub open spec fn spec_matches(self, other: Kin) -> bool {
        match self {
            KinComparisonV::Equal(this) => other == this,
            KinComparisonV::Similar(this) => other.spec_same_or_child(this),
            KinComparisonV::TextContains(this) => seq_contains(other.spec_name(), this),
            KinComparisonV::TextEqual(this) => lower_seq(other.spec_name()) == lower_seq(this),
            KinComparisonV::RegexMatch(pattern) => regex_valid(pattern) && regex_is_match(
                pattern,
                other.spec_name(),
            ),
        }
    }
}

impl KinComparison {
    /// `Equal` matches only exactly the same kin; `Similar` also matches its
    /// children; the text forms hold the kin's curated name against a text
    /// or a regex pattern.
    pub fn is_match(&self, other: Kin) -> (r: bool)
        ensures
            r == self@.spec_matches(other),
    {
        match self {
            KinComparison::Equal(this) => other == *this,
            KinComparison::Similar(this) => other.is_same_or_child(*this),
            KinComparison::TextContains(this) => str_contains(other.get_name(), this.as_str()),
            KinComparison::TextEqual(this) => {
                let a = lower_ascii(other.get_name());
                let b = lower_ascii(this.as_str());
                a == b
            },
            KinComparison::RegexMatch(pattern) => regex_match(pattern.as_str(), other.get_name()),
        }
    }
}

} // verus!
