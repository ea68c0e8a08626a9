//! Structured card types and the patterns that match against them.
use vstd::prelude::*;
use crate::text::str_eq;

verus! {

#[derive(Debug, Clone, Copy, PartialEq, Eq, Structural)]
pub enum Command {
    Simple,
    Extended { saga: bool },
}

impl Command {
    pub open spec fn spec_name(self) -> Seq<char> {
        match self {
            Command::Simple => "command"@,
            Command::Extended { saga: false } => "extended command"@,
            Command::Extended { saga: true } => "extended command saga"@,
        }
    }

    pub fn get_name(self) -> (r: &'static str)
        ensures
            r@ == self.spec_name(),
    {
        match self {
            Command::Simple => "command",
            Command::Extended { saga: false } => "extended command",
            Command::Extended { saga: true } => "extended command saga",
        }
    }
}

/// A basic card type.
#[derive(Debug, Clone, Copy, PartialEq, Eq, Structural)]
pub enum BaseType {
    Creature { saga: bool },
    Command(Command),
}

impl BaseType {
    pub open spec fn spec_name(self) -> Seq<char> {
        match self {
            BaseType::Creature { saga: false } => "creature"@,
            BaseType::Creature { saga: true } => "creature saga"@,
            BaseType::Command(command) => command.spec_name(),
        }
    }

    pub fn get_name(&self) -> (r: &'static str)
        ensures
            r@ == self.spec_name(),
    {
        match self {
            BaseType::Creature { saga: false } => "creature",
            BaseType::Creature { saga: true } => "creature saga",
            BaseType::Command(command) => command.get_name(),
        }
    }
}

/// A full card type: a basic type, possibly as a vestige.
#[derive(Debug, Clone, Copy, PartialEq, Eq, Structural)]
pub struct Type {
    pub base: BaseType,
    pub vestige: bool,
}

impl Type {
    pub open spec fn spec_name(self) -> Seq<char> {
        match (self.base, self.vestige) {
            (BaseType::Creature { saga: true }, true) => "creature saga vestige"@,
            (BaseType::Creature { saga: true }, false) => "creature saga"@,
            (BaseType::Creature { saga: false }, true) => "creature vestige"@,
            (BaseType::Creature { saga: false }, false) => "creature"@,
            (BaseType::Command(Command::Simple), true) => "command vestige"@,
            (BaseType::Command(Command::Extended { saga: false }), true) => "extended command vestige"@,
            (BaseType::Command(Command::Extended { saga: true }), true) => "extended command saga vestige"@,
            (BaseType::Command(Command::Simple), false) => "command"@,
            (BaseType::Command(Command::Extended { saga: false }), false) => "extended command"@,
            (BaseType::Command(Command::Extended { saga: true }), false) => "extended command saga"@,
        }
    }

    pub fn get_name(&self) -> (r: &'static str)
        ensures
            r@ == self.spec_name(),
    {
        match (self.base, self.vestige) {
            (BaseType::Creature { saga: true }, true) => "creature saga vestige",
            (BaseType::Creature { saga: true }, false) => "creature saga",
            (BaseType::Creature { saga: false }, true) => "creature vestige",
            (BaseType::Creature { saga: false }, false) => "creature",
            (BaseType::Command(Command::Simple), true) => "command vestige",
            (BaseType::Command(Command::Extended { saga: false }), true) => "extended command vestige",
            (BaseType::Command(Command::Extended { saga: true }), true) => "extended command saga vestige",
            (BaseType::Command(Command::Simple), false) => "command",
            (BaseType::Command(Command::Extended { saga: false }), false) => "extended command",
            (BaseType::Command(Command::Extended { saga: true }), false) => "extended command saga",
        }
    }

    pub open spec fn spec_from_string(s: Seq<char>) -> Option<Type> {
        if s == "creature saga vestige"@ {
            Some(Type { base: BaseType::Creature { saga: true }, vestige: true })
        } else if s == "creature saga"@ {
            Some(Type { base: BaseType::Creature { saga: true }, vestige: false })
        } else if s == "creature vestige"@ {
            Some(Type { base: BaseType::Creature { saga: false }, vestige: true })
        } else if s == "creature"@ {
            Some(Type { base: BaseType::Creature { saga: false }, vestige: false })
        } else if s == "command vestige"@ {
            Some(Type { base: BaseType::Command(Command::Simple), vestige: true })
        } else if s == "extended command vestige"@ {
            Some(
                Type {
                    base: BaseType::Command(Command::Extended { saga: false }),
                    vestige: true,
                },
            )
        } else if s == "extended command saga vestige"@ {
            Some(
                Type { base: BaseType::Command(Command::Extended { saga: true }), vestige: true },
            )
        } else if s == "command"@ {
            Some(Type { base: BaseType::Command(Command::Simple), vestige: false })
        } else if s == "extended command"@ {
            Some(
                Type {
                    base: BaseType::Command(Command::Extended { saga: false }),
                    vestige: false,
                },
            )
        } else if s == "extended command saga"@ {
            Some(
                Type {
                    base: BaseType::Command(Command::Extended { saga: true }),
                    vestige: false,
                },
            )
        } else {
            None
        }
    }

    /// Reads a full type back from its lower-case name.
    pub fn from_string(string: &str) -> (r: Option<Self>)
        ensures
            r == Type::spec_from_string(string@),
    {
        if str_eq(string, "creature saga vestige") {
            Some(Type { base: BaseType::Creature { saga: true }, vestige: true })
        } else if str_eq(string, "creature saga") {
            Some(Type { base: BaseType::Creature { saga: true }, vestige: false })
        } else if str_eq(string, "creature vestige") {
            Some(Type { base: BaseType::Creature { saga: false }, vestige: true })
        } else if str_eq(string, "creature") {
            Some(Type { base: BaseType::Creature { saga: false }, vestige: false })
        } else if str_eq(string, "command vestige") {
            Some(Type { base: BaseType::Command(Command::Simple), vestige: true })
        } else if str_eq(string, "extended command vestige") {
            Some(
                Type {
                    base: BaseType::Command(Command::Extended { saga: false }),
                    vestige: true,
                },
            )
        } else if str_eq(string, "extended command saga vestige") {
            Some(
                Type { base: BaseType::Command(Command::Extended { saga: true }), vestige: true },
            )
        } else if str_eq(string, "command") {
            Some(Type { base: BaseType::Command(Command::Simple), vestige: false })
        } else if str_eq(string, "extended command") {
            Some(
                Type {
                    base: BaseType::Command(Command::Extended { saga: false }),
                    vestige: false,
                },
            )
        } else if str_eq(string, "extended command saga") {
            Some(
                Type {
                    base: BaseType::Command(Command::Extended { saga: true }),
                    vestige: false,
                },
            )
        } else {
            None
        }
    }
}

/// Every full type's name reads back as the type it names.
pub proof fn lemma_type_name_round_trip(t: Type)
    ensures
        Type::spec_from_string(t.spec_name()) == Some(t),
{
    reveal_strlit("creature saga vestige");
    reveal_strlit("creature saga");
    reveal_strlit("creature vestige");
    reveal_strlit("creature");
    reveal_strlit("command vestige");
    reveal_strlit("extended command vestige");
    reveal_strlit("extended command saga vestige");
    reveal_strlit("command");
    reveal_strlit("extended command");
    reveal_strlit("extended command saga");
    assert("creature saga vestige"@.len() == 21);
    assert("creature saga"@.len() == 13);
    assert("creature vestige"@.len() == 16);
    assert("creature"@.len() == 8);
    assert("command vestige"@.len() == 15);
    assert("extended command vestige"@.len() == 24);
    assert("extended command saga vestige"@.len() == 29);
    assert("command"@.len() == 7);
    assert("extended command"@.len() == 16);
    assert("extended command saga"@.len() == 21);
    assert("creature saga vestige"@[0] == 'c');
    assert("creature vestige"@[0] == 'c');
    assert("extended command"@[0] == 'e');
    assert("extended command saga"@[0] == 'e');
    match (t.base, t.vestige) {
        (BaseType::Creature { saga: true }, true) => assert(Type::spec_from_string(t.spec_name())
            == Some(t)),
        (BaseType::Creature { saga: true }, false) => assert(Type::spec_from_string(
            t.spec_name(),
        ) == Some(t)),
        (BaseType::Creature { saga: false }, true) => assert(Type::spec_from_string(
            t.spec_name(),
        ) == Some(t)),
        (BaseType::Creature { saga: false }, false) => assert(Type::spec_from_string(
            t.spec_name(),
        ) == Some(t)),
        (BaseType::Command(Command::Simple), true) => assert(Type::spec_from_string(
            t.spec_name(),
        ) == Some(t)),
        (BaseType::Command(Command::Extended { saga: false }), true) => assert(
            Type::spec_from_string(t.spec_name()) == Some(t)),
        (BaseType::Command(Command::Extended { saga: true }), true) => assert(
            Type::spec_from_string(t.spec_name()) == Some(t)),
        (BaseType::Command(Command::Simple), false) => assert(Type::spec_from_string(
            t.spec_name(),
        ) == Some(t)),
        (BaseType::Command(Command::Extended { saga: false }), false) => assert(
            Type::spec_from_string(t.spec_name()) == Some(t)),
        (BaseType::Command(Command::Extended { saga: true }), false) => assert(
            Type::spec_from_string(t.spec_name()) == Some(t)),
    }
}

/// A boolean pattern with a wildcard.
#[derive(Debug, Clone, Copy, PartialEq, Eq, Structural)]
pub enum BoolPattern {
    True,
    False,
    Maybe,
}

impl BoolPattern {
    pub open spec fn spec_maybe_eq(self, other: bool) -> bool {
        match (self, other) {
            (BoolPattern::True, false) | (BoolPattern::False, true) => false,
            _ => true,
        }
    }

    /// True when the pattern accepts the boolean: an exact match, or a
    /// `Maybe` pattern accepting either value.
    pub fn is_maybe_eq(self, other: bool) -> (r: bool)
        ensures
            r == self.spec_maybe_eq(other),
    {
        match (self, other) {
            (BoolPattern::True, false) | (BoolPattern::False, true) => false,
            (BoolPattern::False | BoolPattern::Maybe, false)
            | (BoolPattern::True | BoolPattern::Maybe, true) => true,
        }
    }
}

#[derive(Debug, Clone, Copy)]
pub enum CommandPattern {
    Simple,
    Extended { saga: BoolPattern },
    MaybeExtended { saga: BoolPattern },
}

impl CommandPattern {
    pub open spec fn spec_matches(self, other: Command) -> bool {
        match (self, other) {
            (CommandPattern::Simple, Command::Extended { .. }) => false,
            (CommandPattern::Extended { .. }, Command::Simple) => false,
            (CommandPattern::Extended { saga: p }, Command::Extended { saga: s }) => p.spec_maybe_eq(
                s,
            ),
            (CommandPattern::MaybeExtended { saga: p }, Command::Extended { saga: s }) => p.spec_maybe_eq(
                s,
            ),
            _ => true,
        }
    }

    pub fn is_match(self, other: Command) -> (r: bool)
        ensures
            r == self.spec_matches(other),
    {
        match (self, other) {
            (CommandPattern::Simple, Command::Extended { .. })
            | (CommandPattern::Extended { .. }, Command::Simple) => false,
            (
                CommandPattern::Extended { saga: self_saga }
                | CommandPattern::MaybeExtended { saga: self_saga },
                Command::Extended { saga: other_saga },
            ) => self_saga.is_maybe_eq(other_saga),
            (CommandPattern::MaybeExtended { .. } | CommandPattern::Simple, Command::Simple) => true,
        }
    }
}

/// Pattern to match against a `BaseType`.
#[derive(Debug, Clone, Copy)]
pub enum BaseTypePattern {
    Creature { saga: BoolPattern },
    Command(CommandPattern),
}

impl BaseTypePattern {
    pub open spec fn spec_matches(self, other: BaseType) -> bool {
        match (self, other) {
            (BaseTypePattern::Creature { saga: p }, BaseType::Creature { saga: s }) => p.spec_maybe_eq(
                s,
            ),
            (BaseTypePattern::Command(p), BaseType::Command(c)) => p.spec_matches(c),
            _ => false,
        }
    }

    pub fn is_match(&self, other: BaseType) -> (r: bool)
        ensures
            r == self.spec_matches(other),
    {
        match (self, other) {
            (BaseTypePattern::Creature { saga: self_saga }, BaseType::Creature {
                saga: other_saga,
            }) => self_saga.is_maybe_eq(other_saga),
            (BaseTypePattern::Creature { .. }, BaseType::Command(_))
            | (BaseTypePattern::Command(_), BaseType::Creature { .. }) => false,
            (BaseTypePattern::Command(command_pat), BaseType::Command(command)) => command_pat.is_match(
                command,
            ),
        }
    }
}

/// Pattern to match against a full `Type`.
#[derive(Debug, Clone, Copy)]
pub struct TypePattern {
    pub base: BaseTypePattern,
    pub vestige: BoolPattern,
}

impl TypePattern {
    pub open spec fn spec_matches(self, other: Type) -> bool {
        self.base.spec_matches(other.base) && self.vestige.spec_maybe_eq(other.vestige)
    }

    pub fn is_match(&self, other: Type) -> (r: bool)
        ensures
            r == self.spec_matches(other),
    {
        self.base.is_match(other.base) && self.vestige.is_maybe_eq(other.vestige)
    }
}

} // verus!
