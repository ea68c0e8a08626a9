//! Structured descriptions of what a card's rules text lets it do.
use vstd::prelude::*;
use crate::numbers::MaybeImprecise;

verus! {

/// A rule: a set of identities it binds, and the actions it performs.
pub struct Rule {
    pub bindings: Vec<Vec<Restriction>>,
    pub actions: Vec<Action>,
}

pub enum Action {
    Nothing,
    Shuffle(Deck),
    Draw(Deck),
    Search(usize),
    Destroy(usize),
    Sacrifice(usize),
    Sequence(Vec<Action>),
    Or(Vec<Action>),
    Payment { cost: Box<Action>, reward: Box<Action> },
    Xor(Vec<Action>),
    LoseBlood,
    Repeat(Box<Action>, usize),
    Must(Box<Action>),
    CreateVestige { vestige: usize, zone: Zone },
}

pub enum Zone {
    Deck(Deck),
    Hand,
    Board,
}

pub enum Deck {
    Blood,
    Main,
}

pub enum Type {
    Creature,
    Command,
    Vestige(Box<Type>),
}

pub enum Restriction {
    Type(Type),
    Cost(MaybeImprecise),
    Name(String),
}

} // verus!
