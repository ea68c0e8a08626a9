use hemolymph::cards::rich_text::RichString;
use hemolymph::cards::{Card, CardId, Keyword, KeywordData};
use hemolymph::numbers::{MaybeImprecise, MaybeVar, Comparison};
use hemolymph::search::query_parser::parse_query;
use hemolymph::search::{search, Cache, matches_query, Ternary};

fn empty_rich() -> RichString {
    RichString { elements: vec![] }
}

fn mk_card(name: &str, card_type: &str, cost: MaybeImprecise) -> Card {
    Card {
        id: format!("id-{name}"),
        name: name.to_string(),
        images: vec![],
        description: empty_rich(),
        cost,
        flip_cost: None,
        health: MaybeImprecise::Precise(MaybeVar::Const(1)),
        defense: MaybeImprecise::Precise(MaybeVar::Const(1)),
        power: MaybeImprecise::Precise(MaybeVar::Const(1)),
        card_type: card_type.to_string(),
        keywords: vec![],
        kin: None,
        abilities: vec![],
        set: String::new(),
        legality: vec![],
        other: vec![],
        functions: vec![],
        flavor_text: String::new(),
    }
}

fn devours_keyword(target_name: &str) -> Keyword {
    Keyword {
        name: "devours".to_string(),
        data: Some(KeywordData::CardId(Box::new(CardId {
            name: Some(target_name.to_string()),
            cost: None,
            flip_cost: None,
            description: None,
            keywords: None,
            card_type: None,
            kin: None,
            health: None,
            defense: None,
            power: None,
            abilities: None,
            functions: None,
        }))),
    }
}

fn names(results: &[&Card]) -> Vec<String> {
    results.iter().map(|c| c.name.clone()).collect()
}

fn fixture_pair() -> Vec<Card> {
    let a = mk_card(
        "Infected Fly",
        "creature",
        MaybeImprecise::Precise(MaybeVar::Const(2)),
    );
    let mut b = mk_card(
        "Infected Host",
        "creature",
        MaybeImprecise::Precise(MaybeVar::Const(3)),
    );
    b.keywords.push(devours_keyword("Infected Fly"));
    vec![a, b]
}

#[test]
fn devoured_by_scenario() {
    let cards = fixture_pair();
    let q = parse_query("dby:(n:\"infected fly\")").expect("query should parse");
    let keys = vec![0u64; cards.len()];
    let r = search(&q, &cards, &keys);
    assert_eq!(names(&r), vec!["Infected Host".to_string()]);
}

#[test]
fn cost_above_three_scenario() {
    let cards = vec![
        mk_card("a", "creature", MaybeImprecise::Precise(MaybeVar::Const(2))),
        mk_card("b", "creature", MaybeImprecise::Precise(MaybeVar::Const(3))),
        mk_card("c", "creature", MaybeImprecise::Precise(MaybeVar::Const(4))),
        mk_card(
            "d",
            "creature",
            MaybeImprecise::Imprecise(Comparison::GreaterThan(2)),
        ),
        mk_card(
            "e",
            "creature",
            MaybeImprecise::Imprecise(Comparison::NotEqual(4)),
        ),
    ];
    let q = parse_query("c>3").expect("query should parse");
    let keys = vec![0u64; cards.len()];
    let r = search(&q, &cards, &keys);
    assert_eq!(
        names(&r),
        vec!["c".to_string(), "d".to_string(), "e".to_string()]
    );
}

#[test]
fn name_or_scenario() {
    let cards = fixture_pair();
    let q = parse_query("n:fly OR n:host").expect("query should parse");
    let keys = vec![0u64; cards.len()];
    let r = search(&q, &cards, &keys);
    assert_eq!(
        names(&r),
        vec!["Infected Fly".to_string(), "Infected Host".to_string()]
    );
}

#[test]
fn exclude_commands_scenario() {
    let cards = vec![
        mk_card(
            "order",
            "command",
            MaybeImprecise::Precise(MaybeVar::Const(5)),
        ),
        mk_card(
            "soldier",
            "creature",
            MaybeImprecise::Precise(MaybeVar::Const(5)),
        ),
        mk_card(
            "scout",
            "creature",
            MaybeImprecise::Precise(MaybeVar::Const(3)),
        ),
    ];
    let q = parse_query("-t:command c=5").expect("query should parse");
    let keys = vec![0u64; cards.len()];
    let r = search(&q, &cards, &keys);
    assert_eq!(names(&r), vec!["soldier".to_string()]);
}

#[test]
fn regex_on_lowercased_name_scenario() {
    let cards = vec![
        mk_card(
            "Dr. Who",
            "creature",
            MaybeImprecise::Precise(MaybeVar::Const(1)),
        ),
        mk_card(
            "Driver",
            "creature",
            MaybeImprecise::Precise(MaybeVar::Const(1)),
        ),
    ];
    let q = parse_query("name:/^dr\\. /").expect("query should parse");
    let keys = vec![0u64; cards.len()];
    let r = search(&q, &cards, &keys);
    assert_eq!(names(&r), vec!["Dr. Who".to_string()]);
}

#[test]
fn sort_cost_descending_scenario() {
    let cards = vec![
        mk_card("x", "creature", MaybeImprecise::Precise(MaybeVar::Const(1))),
        mk_card("y", "creature", MaybeImprecise::Precise(MaybeVar::Const(3))),
        mk_card("z", "creature", MaybeImprecise::Precise(MaybeVar::Const(2))),
    ];
    let q = parse_query("SORT cost descending").expect("query should parse");
    let keys = vec![0u64; cards.len()];
    let r = search(&q, &cards, &keys);
    assert_eq!(
        names(&r),
        vec!["y".to_string(), "z".to_string(), "x".to_string()]
    );
}

#[test]
fn sort_is_stable_for_equal_keys() {
    let cards = vec![
        mk_card("m1", "creature", MaybeImprecise::Precise(MaybeVar::Const(2))),
        mk_card("m2", "creature", MaybeImprecise::Precise(MaybeVar::Const(2))),
        mk_card("m3", "creature", MaybeImprecise::Precise(MaybeVar::Const(1))),
    ];
    let q = parse_query("SORT cost ascending").expect("query should parse");
    let keys = vec![0u64; cards.len()];
    let r = search(&q, &cards, &keys);
    assert_eq!(
        names(&r),
        vec!["m3".to_string(), "m1".to_string(), "m2".to_string()]
    );
}

#[test]
fn devours_subquery_matches_keyword_carrier() {
    let cards = fixture_pair();
    let q = parse_query("dev:(n:fly)").expect("query should parse");
    let keys = vec![0u64; cards.len()];
    let r = search(&q, &cards, &keys);
    assert_eq!(names(&r), vec!["Infected Host".to_string()]);
}

#[test]
fn cache_is_transparent_between_searches() {
    let cards = fixture_pair();
    let shared = "dby:(n:\"infected fly\")";
    let q1 = parse_query(shared).expect("query should parse");
    let q2 = parse_query(&format!("{shared} t:creature")).expect("query should parse");
    let keys = vec![0u64; cards.len()];
    let r1 = search(&q1, &cards, &keys);
    let r2 = search(&q2, &cards, &keys);
    assert_eq!(names(&r1), names(&r2));
}

#[test]
fn matches_query_directly_answers_ternary() {
    let cards = fixture_pair();
    let q = parse_query("t:creature").expect("query should parse");
    let mut cache = Cache::new();
    let r = matches_query(&cards[0], &q, &cards, &mut cache);
    assert!(r.is_true());
    assert_eq!(r, Ternary::True);
}

#[test]
fn fuzzy_searches_name_and_description() {
    let cards = fixture_pair();
    assert!(hemolymph::search::fuzzy(&cards[0], "infected"));
    assert!(!hemolymph::search::fuzzy(&cards[0], "host"));
}
