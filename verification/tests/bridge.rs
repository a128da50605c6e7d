use site_sass::value::{map_value, number_is_representable};
use site_sass::{Brackets, BridgedValue, ConfigurationValue, ListSeparator, QuoteKind};

fn number(x: f64) -> ConfigurationValue {
    ConfigurationValue::Number(x.to_bits())
}

fn text(s: &str) -> ConfigurationValue {
    ConfigurationValue::Text(s.to_string())
}

fn quoted(s: &str) -> BridgedValue {
    BridgedValue::Text(s.to_string(), QuoteKind::Quoted)
}

fn holds_null(value: &BridgedValue) -> bool {
    match value {
        BridgedValue::Null => true,
        BridgedValue::List(items, _, _) => items.iter().any(holds_null),
        BridgedValue::Mapping(entries) => {
            entries.iter().any(|(key, item)| holds_null(key) || holds_null(item))
        }
        _ => false,
    }
}

#[test]
fn text_becomes_a_quoted_string() {
    assert_eq!(map_value(&text("Hi")), quoted("Hi"));
    assert_eq!(map_value(&text("")), quoted(""));
}

#[test]
fn bool_stays_a_bool() {
    assert_eq!(map_value(&ConfigurationValue::Bool(true)), BridgedValue::Bool(true));
    assert_eq!(map_value(&ConfigurationValue::Bool(false)), BridgedValue::Bool(false));
}

#[test]
fn number_becomes_a_unitless_number() {
    assert_eq!(map_value(&number(3.0)), BridgedValue::Number(3.0f64.to_bits()));
    assert_eq!(map_value(&number(-0.5)), BridgedValue::Number((-0.5f64).to_bits()));
    assert_eq!(map_value(&number(0.0)), BridgedValue::Number(0));
    assert_eq!(map_value(&number(f64::MAX)), BridgedValue::Number(f64::MAX.to_bits()));
}

#[test]
fn integer_and_float_inputs_bridge_alike() {
    let from_integer = (3u64 as f64).to_bits();
    let from_float = 3.0f64.to_bits();
    assert_eq!(
        map_value(&ConfigurationValue::Number(from_integer)),
        map_value(&ConfigurationValue::Number(from_float))
    );
}

#[test]
fn unrepresentable_numbers_become_null() {
    assert_eq!(map_value(&number(f64::NAN)), BridgedValue::Null);
    assert_eq!(map_value(&number(f64::INFINITY)), BridgedValue::Null);
    assert_eq!(map_value(&number(f64::NEG_INFINITY)), BridgedValue::Null);
    assert_eq!(map_value(&ConfigurationValue::Number(0x7ff0_0000_0000_0001)), BridgedValue::Null);
    assert_eq!(map_value(&ConfigurationValue::Number(0xffff_ffff_ffff_ffff)), BridgedValue::Null);
}

#[test]
fn representable_is_finite() {
    assert!(number_is_representable(0));
    assert!(number_is_representable(1.5f64.to_bits()));
    assert!(number_is_representable(f64::MIN_POSITIVE.to_bits()));
    assert!(number_is_representable(f64::MAX.to_bits()));
    assert!(number_is_representable(f64::MIN.to_bits()));
    assert!(number_is_representable(0x7fef_ffff_ffff_ffff));
    assert!(!number_is_representable(0x7ff0_0000_0000_0000));
    assert!(!number_is_representable(0xfff0_0000_0000_0000));
    assert!(!number_is_representable(f64::NAN.to_bits()));
    for x in [0.0f64, -1.0, 1e300, 1e-300, f64::NAN, f64::INFINITY, f64::NEG_INFINITY] {
        assert_eq!(number_is_representable(x.to_bits()), x.is_finite());
    }
}

#[test]
fn null_becomes_null() {
    assert_eq!(map_value(&ConfigurationValue::Null), BridgedValue::Null);
}

#[test]
fn array_becomes_a_bracketed_comma_list_in_order() {
    let array = ConfigurationValue::Array(vec![text("a"), number(2.0), ConfigurationValue::Bool(true)]);
    assert_eq!(
        map_value(&array),
        BridgedValue::List(
            vec![quoted("a"), BridgedValue::Number(2.0f64.to_bits()), BridgedValue::Bool(true)],
            ListSeparator::Comma,
            Brackets::Bracketed,
        )
    );
    assert_eq!(
        map_value(&ConfigurationValue::Array(vec![])),
        BridgedValue::List(vec![], ListSeparator::Comma, Brackets::Bracketed)
    );
}

#[test]
fn object_becomes_a_map_with_quoted_keys() {
    let object = ConfigurationValue::Object(vec![
        ("title".to_string(), text("Hi")),
        ("count".to_string(), number(3.0)),
    ]);
    assert_eq!(
        map_value(&object),
        BridgedValue::Mapping(vec![
            (quoted("title"), quoted("Hi")),
            (quoted("count"), BridgedValue::Number(3.0f64.to_bits())),
        ])
    );
    assert_eq!(map_value(&ConfigurationValue::Object(vec![])), BridgedValue::Mapping(vec![]));
}

#[test]
fn object_keeps_the_order_of_its_entries() {
    let object = ConfigurationValue::Object(vec![
        ("z".to_string(), number(1.0)),
        ("a".to_string(), number(2.0)),
        ("m".to_string(), number(3.0)),
    ]);
    match map_value(&object) {
        BridgedValue::Mapping(entries) => {
            let keys: Vec<BridgedValue> = entries.into_iter().map(|(key, _)| key).collect();
            assert_eq!(keys, vec![quoted("z"), quoted("a"), quoted("m")]);
        }
        other => panic!("not a map: {:?}", other),
    }
}

#[test]
fn nested_trees_are_bridged_at_every_level() {
    let tree = ConfigurationValue::Object(vec![
        (
            "extra".to_string(),
            ConfigurationValue::Object(vec![(
                "colors".to_string(),
                ConfigurationValue::Array(vec![
                    text("red"),
                    ConfigurationValue::Array(vec![number(1.0), ConfigurationValue::Null]),
                ]),
            )]),
        ),
        ("draft".to_string(), ConfigurationValue::Bool(false)),
    ]);
    let expected = BridgedValue::Mapping(vec![
        (
            quoted("extra"),
            BridgedValue::Mapping(vec![(
                quoted("colors"),
                BridgedValue::List(
                    vec![
                        quoted("red"),
                        BridgedValue::List(
                            vec![BridgedValue::Number(1.0f64.to_bits()), BridgedValue::Null],
                            ListSeparator::Comma,
                            Brackets::Bracketed,
                        ),
                    ],
                    ListSeparator::Comma,
                    Brackets::Bracketed,
                ),
            )]),
        ),
        (quoted("draft"), BridgedValue::Bool(false)),
    ]);
    assert_eq!(map_value(&tree), expected);
}

#[test]
fn a_tree_without_null_gains_none() {
    let tree = ConfigurationValue::Object(vec![
        ("title".to_string(), text("Hi")),
        ("count".to_string(), number(3.0)),
        (
            "tags".to_string(),
            ConfigurationValue::Array(vec![text("a"), ConfigurationValue::Bool(true), number(-7.25)]),
        ),
        ("empty".to_string(), ConfigurationValue::Object(vec![])),
    ]);
    assert!(!holds_null(&map_value(&tree)));
}

#[test]
fn a_null_or_an_unrepresentable_number_shows_as_null() {
    let with_null = ConfigurationValue::Array(vec![text("a"), ConfigurationValue::Null]);
    assert!(holds_null(&map_value(&with_null)));
    let with_nan = ConfigurationValue::Object(vec![(
        "ratio".to_string(),
        ConfigurationValue::Array(vec![number(f64::NAN)]),
    )]);
    assert!(holds_null(&map_value(&with_nan)));
}

#[test]
fn cloning_a_tree_keeps_it() {
    let tree = ConfigurationValue::Object(vec![
        ("title".to_string(), text("Hi")),
        ("list".to_string(), ConfigurationValue::Array(vec![number(1.0), ConfigurationValue::Null])),
    ]);
    assert_eq!(tree.clone(), tree);
    assert_eq!(map_value(&tree.clone()), map_value(&tree));
}

#[test]
fn different_trees_bridge_to_different_values() {
    let trees = vec![
        ConfigurationValue::Null,
        ConfigurationValue::Bool(true),
        ConfigurationValue::Bool(false),
        number(1.0),
        number(1.5),
        text("1"),
        text("true"),
        text(""),
        ConfigurationValue::Array(vec![]),
        ConfigurationValue::Array(vec![number(1.0)]),
        ConfigurationValue::Array(vec![number(1.0), number(1.0)]),
        ConfigurationValue::Array(vec![ConfigurationValue::Array(vec![])]),
        ConfigurationValue::Object(vec![]),
        ConfigurationValue::Object(vec![("a".to_string(), number(1.0))]),
        ConfigurationValue::Object(vec![("b".to_string(), number(1.0))]),
        ConfigurationValue::Object(vec![("a".to_string(), text("1"))]),
    ];
    for (i, a) in trees.iter().enumerate() {
        for (j, b) in trees.iter().enumerate() {
            assert_eq!(map_value(a) == map_value(b), i == j, "{:?} and {:?}", a, b);
        }
    }
}
