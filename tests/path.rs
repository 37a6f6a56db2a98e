use monch::path::{DataPath, Selector};
use monch::record::Record;

fn text(s: &str) -> Record {
    Record::Text(s.to_string())
}

fn nested() -> Record {
    Record::Dict(vec![(
        text("outer"),
        Record::Dict(vec![(
            text("med"),
            Record::Dict(vec![(
                text("inner"),
                Record::Array(vec![text("zero"), text("one"), text("two")]),
            )]),
        )]),
    )])
}

#[test]
fn parse_basic_path() {
    let raw = ".outer.inner..200";
    let parsed = DataPath::parse(raw);

    let expected = vec![
        Selector::Key("outer".into()),
        Selector::Key("inner".into()),
        Selector::Index(200),
    ];

    assert_eq!(parsed.0, expected);
}

#[test]
fn parse_empty_path() {
    assert!(DataPath::parse(".....").0.is_empty());
}

#[test]
fn get_tag() {
    let value = Record::Tag(1234, Box::new(text("working")));

    assert_eq!(DataPath(vec![]).get_from(value), text("working"));

    let value = Record::Tag(1234, Box::new(text("working")));
    assert_eq!(DataPath::parse(".some.deep.nest").get_from(value), Record::Null);
}

#[test]
fn get_nested() {
    assert_eq!(
        DataPath::parse("outer.med.inner.1").get_from(nested()),
        text("one")
    );

    assert!(matches!(
        DataPath::parse("..outer.....").get_from(nested()),
        Record::Dict(_)
    ));

    assert!(matches!(
        DataPath::parse(".outer.med").get_from(nested()),
        Record::Dict(_)
    ));

    assert!(matches!(
        DataPath::parse("outer.med.inner").get_from(nested()),
        Record::Array(_)
    ));

    assert_eq!(
        DataPath::parse("outer.med.inner.1000.10").get_from(nested()),
        Record::Null
    );

    assert_eq!(
        DataPath::parse("outer.med.nope.not found.hahahah try again").get_from(nested()),
        Record::Null
    );
}

#[test]
fn parse_numeric_segments() {
    let parsed = DataPath::parse("+5.-3.007.18446744073709551615.18446744073709551616.1a");
    assert_eq!(
        parsed.0,
        vec![
            Selector::Index(5),
            Selector::Key("-3".into()),
            Selector::Index(7),
            Selector::Index(u64::MAX),
            Selector::Key("18446744073709551616".into()),
            Selector::Key("1a".into()),
        ]
    );
    assert_eq!(DataPath::parse("+").0, vec![Selector::Key("+".into())]);
}

#[test]
fn empty_path_is_identity_on_untagged() {
    assert_eq!(DataPath::parse("").get_from(text("x")), text("x"));
    assert_eq!(DataPath::parse("").get_from(Record::Integer(-4)), Record::Integer(-4));
    // tags are unwrapped even by the empty path
    assert_eq!(
        DataPath::parse("").get_from(Record::Tag(1, Box::new(text("x")))),
        text("x")
    );
}

#[test]
fn null_absorbs_every_path() {
    assert_eq!(DataPath::parse("a.b.3.c").get_from(Record::Null), Record::Null);
    assert_eq!(DataPath::parse(".0").get_from(Record::Null), Record::Null);
}

#[test]
fn tag_is_transparent() {
    let inner = || Record::Array(vec![text("a"), text("b")]);
    let tagged = Record::Tag(7, Box::new(Record::Tag(8, Box::new(inner()))));
    assert_eq!(DataPath::parse("1").get_from(tagged), DataPath::parse("1").get_from(inner()));
}

#[test]
fn integer_keys_and_first_match() {
    let dict = || {
        Record::Dict(vec![
            (Record::Integer(3), text("three")),
            (text("k"), text("first")),
            (text("k"), text("second")),
        ])
    };
    assert_eq!(DataPath::parse("3").get_from(dict()), text("three"));
    assert_eq!(DataPath::parse("k").get_from(dict()), text("first"));
    assert_eq!(DataPath::parse("4").get_from(dict()), Record::Null);
    // a text key never indexes an array, and scalars give null
    assert_eq!(
        DataPath::parse("x").get_from(Record::Array(vec![text("a")])),
        Record::Null
    );
    assert_eq!(DataPath::parse("0").get_from(Record::Bool(true)), Record::Null);
    assert_eq!(DataPath::parse("0").get_from(Record::Bytes(vec![1, 2])), Record::Null);
}
