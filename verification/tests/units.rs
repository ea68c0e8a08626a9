use hemolymph::cards::kins::{InsectKin, Kin, KinComparison, PiezanKin};
use hemolymph::cards::types::{BaseType, BoolPattern, Command, Type};
use hemolymph::clean_ascii;
use hemolymph::clean_ascii_keep_case;
use hemolymph::numbers::compare::Ternary;
use hemolymph::numbers::{
    maybe_imprecise_from_scalar, maybe_imprecise_to_scalar, str_as_maybe_var, u64_as_maybe_var,
    Compare, Comparison, ImpreciseOrd, MaybeImprecise, MaybeVar, NumericScalar,
};
use hemolymph::search::query_parser::{parse_query, text_comparison_parser};
use hemolymph::search::Errors;
use hemolymph::cards::rich_text::{rich_element_from_parts, RichElement, RichString};
use hemolymph::cards::{Card, Image, ImageSource};

#[test]
fn ternary_tables() {
    assert_eq!(Ternary::True.and(Ternary::Void), Ternary::Void);
    assert_eq!(Ternary::True.and(Ternary::False), Ternary::False);
    assert_eq!(Ternary::True.or(Ternary::Void), Ternary::True);
    assert_eq!(Ternary::False.or(Ternary::Void), Ternary::False);
    assert_eq!(Ternary::Void.xor(Ternary::Void), Ternary::Void);
    assert_eq!(Ternary::True.xor(Ternary::True), Ternary::False);
    assert_eq!(Ternary::True.xor(Ternary::Void), Ternary::True);
    assert_eq!(Ternary::False.xor(Ternary::Void), Ternary::False);
    assert_eq!(Ternary::Void.not(), Ternary::Void);
    assert_eq!(Ternary::True.not(), Ternary::False);
    assert!(Ternary::True.is_true());
    assert!(Ternary::False.is_false());
    assert!(Ternary::Void.is_void());
}

#[test]
fn interval_comparisons() {
    // a slot known only as "> 2"
    let slot = MaybeImprecise::Imprecise(Comparison::GreaterThan(2));
    assert_eq!(slot.gt(100), Ternary::True);
    assert_eq!(Compare::eq(&slot, 2), Ternary::False);
    assert_eq!(Compare::eq(&slot, 3), Ternary::True);
    // a variable counts as zero
    let var = MaybeImprecise::Precise(MaybeVar::Var('x'));
    assert_eq!(Compare::eq(&var, 0), Ternary::True);
    assert_eq!(var.gt(0), Ternary::False);
    // absent slots answer void
    let absent: Option<MaybeImprecise> = None;
    assert_eq!(absent.gt(1), Ternary::Void);
    // comparator dispatch
    assert_eq!(Comparison::LowerThan(5).compare(&4usize), Ternary::True);
    assert_eq!(Comparison::NotEqual(4).compare(&4usize), Ternary::False);
}

#[test]
fn imprecise_ordering_sorts_absent_first() {
    let none: Option<MaybeImprecise> = None;
    let some = Some(MaybeImprecise::Precise(MaybeVar::Const(0)));
    assert_eq!(none.imprecise_cmp(&some), core::cmp::Ordering::Less);
    assert_eq!(some.imprecise_cmp(&none), core::cmp::Ordering::Greater);
    let a = MaybeImprecise::Precise(MaybeVar::Const(2));
    let b = MaybeImprecise::Imprecise(Comparison::GreaterThan(3));
    assert_eq!(a.imprecise_cmp(&b), core::cmp::Ordering::Less);
}

#[test]
fn cleaning_folds_diacritics_and_case() {
    assert_eq!(clean_ascii("\u{c4}b.C,d'\u{fc}"), "abcdu");
    assert_eq!(clean_ascii_keep_case("N\u{e4}h."), "Nah");
}

#[test]
fn kin_table_round_trip() {
    let kins = [
        Kin::Assassin,
        Kin::Undead,
        Kin::Reptile,
        Kin::CultOfNa,
        Kin::Sorcery,
        Kin::Their,
        Kin::Insect(None),
        Kin::Insect(Some(InsectKin::Ant)),
        Kin::Piezan(Some(PiezanKin::RedKingdom)),
    ];
    for k in kins {
        assert_eq!(Kin::from_string(k.get_name()), Some(k));
    }
    assert_eq!(Kin::from_string("nonsense"), None);
    assert!(Kin::Insect(Some(InsectKin::Ant)).is_same_or_child(Kin::Insect(None)));
    assert!(!Kin::Insect(None).is_same_or_child(Kin::Insect(Some(InsectKin::Ant))));
    assert!(KinComparison::TextContains("ant".to_string())
        .is_match(Kin::Insect(Some(InsectKin::Ant))));
}

#[test]
fn type_table_round_trip() {
    let t = Type {
        base: BaseType::Command(Command::Extended { saga: true }),
        vestige: false,
    };
    assert_eq!(Type::from_string(t.get_name()), Some(t));
    assert_eq!(Type::from_string("gibberish"), None);
    assert!(BoolPattern::Maybe.is_maybe_eq(true));
    assert!(!BoolPattern::True.is_maybe_eq(false));
}

#[test]
fn comparison_mini_grammar() {
    assert!(matches!(
        text_comparison_parser("3"),
        Ok(Comparison::Equal(3))
    ));
    assert!(matches!(
        text_comparison_parser(">=10"),
        Ok(Comparison::GreaterThanOrEqual(10))
    ));
    assert!(matches!(
        text_comparison_parser("!=4"),
        Ok(Comparison::NotEqual(4))
    ));
    assert!(matches!(
        text_comparison_parser("x"),
        Err(Errors::InvalidComparisonString)
    ));
}

#[test]
fn numeric_scalar_round_trip() {
    let slots = [
        MaybeImprecise::Precise(MaybeVar::Const(7)),
        MaybeImprecise::Precise(MaybeVar::Var('x')),
        MaybeImprecise::Imprecise(Comparison::GreaterThan(3)),
        MaybeImprecise::Imprecise(Comparison::LowerThanOrEqual(12)),
        MaybeImprecise::Imprecise(Comparison::NotEqual(5)),
    ];
    for m in slots {
        let back = maybe_imprecise_from_scalar(&maybe_imprecise_to_scalar(&m));
        assert_eq!(back.ok(), Some(m));
    }
    // an equality comparator reads back as the constant it is equivalent to
    let eq = MaybeImprecise::Imprecise(Comparison::Equal(4));
    assert_eq!(
        maybe_imprecise_from_scalar(&maybe_imprecise_to_scalar(&eq)).ok(),
        Some(MaybeImprecise::Precise(MaybeVar::Const(4)))
    );
    assert!(matches!(
        str_as_maybe_var("x"),
        Some(MaybeVar::Var('x'))
    ));
    assert!(str_as_maybe_var("3").is_none());
    assert!(matches!(u64_as_maybe_var(9), Ok(MaybeVar::Const(9))));
    assert!(matches!(
        maybe_imprecise_from_scalar(&NumericScalar::Text("??".to_string())),
        Err(_)
    ));
}

#[test]
fn parser_error_cases() {
    assert!(matches!(
        parse_query("---x"),
        Err(Errors::InvalidPolarity)
    ));
    assert!(matches!(
        parse_query("c>x"),
        Err(Errors::InvalidComparisonString)
    ));
    assert!(matches!(
        parse_query("(abc"),
        Err(Errors::UnclosedSubquery)
    ));
    assert!(matches!(
        parse_query("n:\"abc"),
        Err(Errors::UnclosedString)
    ));
    assert!(matches!(parse_query("n:/abc"), Err(Errors::UnclosedRegex)));
    assert!(matches!(parse_query("n:/(/"), Err(Errors::RegexErr(_))));
    assert!(matches!(
        parse_query("zzz:3"),
        Err(Errors::UnknownStringParam(_))
    ));
    assert!(matches!(parse_query("OR x"), Err(Errors::InvalidOr)));
    assert!(matches!(parse_query("x OR"), Err(Errors::InvalidOr)));
    assert!(matches!(
        parse_query("dby:(n:x) SORT cost sideways"),
        Err(Errors::InvalidOrdering(_))
    ));
    assert!(matches!(
        parse_query("sort:keyword"),
        Err(Errors::NotSortable)
    ));
    assert!(matches!(
        parse_query("k:/ant/"),
        Err(Errors::NonRegexable(_))
    ));
    assert!(matches!(
        parse_query(":x"),
        Err(Errors::AttemptedEmptyParamName)
    ));
}

#[test]
fn rich_text_renders_plain() {
    let rs = RichString {
        elements: vec![
            RichElement::String("Hello".to_string()),
            RichElement::LineBreak,
            RichElement::SpecificCard {
                display: "there".to_string(),
                id: "card-1".to_string(),
            },
            RichElement::Saga(vec![RichString {
                elements: vec![RichElement::String("stage one".to_string())],
            }]),
        ],
    };
    assert_eq!(rs.render(), "Hello\nthere" .to_string() + "stage one\n");
}

#[test]
fn rich_element_parts_rule() {
    let ok = rich_element_from_parts(
        Some("show".to_string()),
        None,
        Some("card-9".to_string()),
        None,
    );
    assert!(matches!(ok, Ok(RichElement::SpecificCard { .. })));
    assert!(rich_element_from_parts(None, None, Some("x".to_string()), None).is_err());
    assert!(rich_element_from_parts(Some("d".to_string()), None, None, None).is_err());
}

#[test]
fn image_paths_come_from_name_or_files() {
    let card = Card {
        id: "i".to_string(),
        name: "Dr. Ant Man".to_string(),
        images: vec![Image {
            sources: ImageSource::Files(vec!["one.png".to_string(), "two.png".to_string()]),
            authors: vec!["painter".to_string()],
        }],
        description: RichString { elements: vec![] },
        cost: MaybeImprecise::Precise(MaybeVar::Const(0)),
        flip_cost: None,
        health: MaybeImprecise::Precise(MaybeVar::Const(0)),
        defense: MaybeImprecise::Precise(MaybeVar::Const(0)),
        power: MaybeImprecise::Precise(MaybeVar::Const(0)),
        card_type: "creature".to_string(),
        keywords: vec![],
        kin: None,
        abilities: vec![],
        set: String::new(),
        legality: vec![],
        other: vec![],
        functions: vec![],
        flavor_text: String::new(),
    };
    assert_eq!(card.get_name_image_path(), "DrAntMan");
    let p = card.get_random_image_path();
    assert!(p == "one.png" || p == "two.png" || p == "DrAntMan");
    assert_eq!(card.get_image_path(5), "DrAntMan");
    assert_eq!(card.get_artists(), vec!["painter".to_string()]);
}
