use hemolymph::cards::functions::{Action, Deck, Restriction, Rule, Zone};

#[test]
fn function() {
    // Green Queen
    Rule {
        bindings: vec![],
        actions: vec![Action::Or(vec![Action::Payment {
            cost: Box::new(Action::Repeat(Box::new(Action::LoseBlood), 2)),
            reward: Box::new(Action::Repeat(Box::new(Action::Draw(Deck::Main)), 2)),
        }])],
    };

    // Deranged Researcher
    Rule {
        bindings: vec![vec![Restriction::Name("Grand Design".to_string())]],
        actions: vec![Action::Sequence(vec![
            Action::CreateVestige {
                vestige: 0,
                zone: Zone::Deck(Deck::Main),
            },
            Action::Shuffle(Deck::Main),
        ])],
    };
}
