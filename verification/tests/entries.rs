use ndjsonlogger::entryiter::{find_punct, string_literal_text, EntryIter, EntryLine};
use ndjsonlogger::error::LogError;
use ndjsonlogger::token::{group, ident, joint, literal, punct, Delimiter, Spacing, Token};

fn text(tokens: &[Token]) -> String {
    let mut out = String::new();
    let mut glue = true;
    for t in tokens {
        if !glue {
            out.push(' ');
        }
        glue = false;
        match t {
            Token::Ident(name) => out.push_str(name),
            Token::Literal(lit) => out.push_str(lit),
            Token::Punct(c, spacing) => {
                out.push(*c);
                glue = *spacing == Spacing::Joint;
            }
            Token::Group(delimiter, inner) => {
                let (open, close) = match delimiter {
                    Delimiter::Parenthesis => ("(", ")"),
                    Delimiter::Brace => ("{", "}"),
                    Delimiter::Bracket => ("[", "]"),
                    Delimiter::Invisible => ("", ""),
                };
                out.push_str(open);
                out.push_str(&text(inner));
                out.push_str(close);
            }
        }
    }
    out
}

fn only_entry(unit: Vec<Token>) -> Result<EntryLine, LogError> {
    let mut it = EntryIter::new(&unit);
    assert_eq!(it.entries.len(), 1);
    let first = it.next().expect("one part");
    assert!(it.next().is_none());
    first
}

fn scalar_args(unit: Vec<Token>) -> String {
    match only_entry(unit) {
        Ok(EntryLine::Entry(e)) => text(&e.into_entry_args()),
        Ok(EntryLine::EntryArray(_)) => panic!("expected a scalar entry"),
        Err(e) => panic!("rejected: {:?}", e),
    }
}

fn array_args(unit: Vec<Token>) -> String {
    match only_entry(unit) {
        Ok(EntryLine::EntryArray(ea)) => text(&ea.into_entry_args()),
        Ok(EntryLine::Entry(_)) => panic!("expected an array entry"),
        Err(e) => panic!("rejected: {:?}", e),
    }
}

fn rejection(unit: Vec<Token>) -> LogError {
    match only_entry(unit) {
        Ok(_) => panic!("expected a rejection"),
        Err(e) => e,
    }
}

#[test]
fn empty_list_is_one_empty_part_and_is_rejected() {
    let mut it = EntryIter::new(&[]);
    assert_eq!(it.entries, vec![Vec::<Token>::new()]);
    assert_eq!(it.next().map(|r| r.map(|_| ())), Some(Err(LogError::ExpectedSeparator)));
    assert!(it.next().is_none());
    assert!(it.next().is_none());
}

#[test]
fn list_is_split_on_top_level_commas_only() {
    let list = vec![
        ident("a"),
        punct(','),
        group(Delimiter::Bracket, vec![ident("k"), punct('='), ident("x"), punct(','), ident("y")]),
        punct(','),
        ident("f"),
        group(Delimiter::Parenthesis, vec![ident("p"), punct(','), ident("q")]),
    ];
    let it = EntryIter::new(&list);
    assert_eq!(it.entries.len(), 3);
    assert_eq!(it.entries[0], vec![ident("a")]);
    assert_eq!(it.entries[1], vec![list[2].clone()]);
    assert_eq!(it.entries[2], vec![list[4].clone(), list[5].clone()]);
}

#[test]
fn joint_comma_splits_too() {
    let list = vec![ident("a"), joint(','), ident("b")];
    let it = EntryIter::new(&list);
    assert_eq!(it.entries, vec![vec![ident("a")], vec![ident("b")]]);
}

#[test]
fn trailing_comma_leaves_an_empty_last_part() {
    let list = vec![ident("a"), punct(',')];
    let mut it = EntryIter::new(&list);
    assert_eq!(it.entries, vec![vec![ident("a")], vec![]]);
    assert!(matches!(it.next(), Some(Ok(EntryLine::Entry(_)))));
    assert!(matches!(it.next(), Some(Err(LogError::ExpectedSeparator))));
    assert!(it.next().is_none());
}

#[test]
fn consecutive_commas_leave_empty_parts() {
    let list = vec![punct(','), punct(',')];
    let it = EntryIter::new(&list);
    assert_eq!(it.entries, vec![Vec::<Token>::new(), vec![], vec![]]);
}

#[test]
fn find_punct_gives_first_position_or_length() {
    let run = vec![ident("u8"), punct('='), ident("x"), punct('=')];
    assert_eq!(find_punct(&run, '='), 1);
    assert_eq!(find_punct(&run, ','), 4);
    assert_eq!(find_punct(&[], ','), 0);
    let nested = vec![group(Delimiter::Brace, vec![punct('=')]), joint('=')];
    assert_eq!(find_punct(&nested, '='), 1);
}

#[test]
fn string_literal_is_told_by_its_opening() {
    assert!(string_literal_text("\"m\""));
    assert!(string_literal_text("\"\""));
    assert!(string_literal_text("r\"raw\""));
    assert!(string_literal_text("r#\"raw\"#"));
    assert!(!string_literal_text(""));
    assert!(!string_literal_text("5"));
    assert!(!string_literal_text("'c'"));
    assert!(!string_literal_text("b\"bytes\""));
    assert!(!string_literal_text("r"));
    assert!(!string_literal_text("1.5"));
}

#[test]
fn shorthand_uses_the_identifier_as_key_and_value() {
    assert_eq!(
        scalar_args(vec![ident("reason")]),
        "key : \"reason\" , value : ndjsonloggercore :: Value :: Atom (ndjsonloggercore :: Atom :: String (reason))"
    );
}

#[test]
fn shorthand_equals_the_entry_written_out() {
    let short = scalar_args(vec![ident("reason")]);
    let quoted = scalar_args(vec![literal("\"reason\""), punct('='), ident("reason")]);
    let named = scalar_args(vec![ident("reason"), punct('='), ident("reason")]);
    assert_eq!(short, quoted);
    assert_eq!(short, named);
}

#[test]
fn omitted_type_equals_str_annotation() {
    let bare = scalar_args(vec![ident("key"), punct('='), literal("\"literal\"")]);
    let annotated = scalar_args(vec![
        ident("key"),
        punct(':'),
        punct('&'),
        ident("str"),
        punct('='),
        literal("\"literal\""),
    ]);
    assert_eq!(bare, annotated);
    assert_eq!(
        bare,
        "key : \"key\" , value : ndjsonloggercore :: Value :: Atom (ndjsonloggercore :: Atom :: String (\"literal\"))"
    );
}

#[test]
fn omitted_type_equals_str_annotation_in_arrays() {
    let elements = group(Delimiter::Bracket, vec![literal("\"key1\""), punct(','), literal("\"key2\"")]);
    let bare = array_args(vec![group(
        Delimiter::Bracket,
        vec![ident("keys"), punct('='), elements.clone()],
    )]);
    let annotated = array_args(vec![group(
        Delimiter::Bracket,
        vec![ident("keys"), punct(':'), punct('&'), ident("str"), punct('='), elements],
    )]);
    assert_eq!(bare, annotated);
}

#[test]
fn literal_key_is_used_verbatim() {
    assert_eq!(
        scalar_args(vec![
            literal("\"http.status_code\""),
            punct(':'),
            ident("u16"),
            punct('='),
            ident("status_code"),
        ]),
        "key : \"http.status_code\" , value : ndjsonloggercore :: Value :: Atom (ndjsonloggercore :: Atom :: Uint (status_code as u64))"
    );
}

#[test]
fn annotated_i8_entry_builds_a_widened_int() {
    assert_eq!(
        scalar_args(vec![
            ident("delta"),
            punct(':'),
            ident("i8"),
            punct('='),
            punct('-'),
            literal("5"),
        ]),
        "key : \"delta\" , value : ndjsonloggercore :: Value :: Atom (ndjsonloggercore :: Atom :: Int (- 5 as i64))"
    );
}

#[test]
fn optional_entry_builds_an_optatom() {
    assert_eq!(
        scalar_args(vec![
            ident("needed_id"),
            punct(':'),
            ident("Option"),
            punct('<'),
            punct('&'),
            ident("str"),
            punct('>'),
            punct('='),
            ident("needed_id"),
        ]),
        "key : \"needed_id\" , value : ndjsonloggercore :: Value :: Optatom (needed_id . map (| s | ndjsonloggercore :: Atom :: String (s)))"
    );
}

#[test]
fn value_may_hold_assign_tokens() {
    assert_eq!(
        scalar_args(vec![
            ident("same"),
            punct(':'),
            ident("bool"),
            punct('='),
            ident("a"),
            joint('='),
            punct('='),
            ident("b"),
        ]),
        "key : \"same\" , value : ndjsonloggercore :: Value :: Atom (ndjsonloggercore :: Atom :: Bool (a == b))"
    );
}

#[test]
fn u32_array_entry_keeps_element_order() {
    let unit = vec![group(
        Delimiter::Bracket,
        vec![
            literal("\"k\""),
            punct(':'),
            ident("u32"),
            punct('='),
            group(Delimiter::Bracket, vec![literal("21"), punct(','), literal("56")]),
        ],
    )];
    assert_eq!(
        array_args(unit),
        "key : \"k\" , value : ndjsonloggercore :: Value :: Array (& mut [21 , 56] . iter () . map (| p | ndjsonloggercore :: Atom :: Uint (* p as u64)))"
    );
}

#[test]
fn optional_array_entry_is_rejected() {
    let unit = vec![group(
        Delimiter::Bracket,
        vec![
            ident("xs"),
            punct(':'),
            ident("Option"),
            punct('<'),
            ident("u32"),
            punct('>'),
            punct('='),
            ident("xs"),
        ],
    )];
    assert_eq!(rejection(unit), LogError::OptionalArray);
}

#[test]
fn lone_identifier_in_brackets_is_an_array_shorthand() {
    let short = array_args(vec![group(Delimiter::Bracket, vec![ident("xs")])]);
    assert_eq!(
        short,
        "key : \"xs\" , value : ndjsonloggercore :: Value :: Array (& mut xs . iter () . map (| s | ndjsonloggercore :: Atom :: String (s)))"
    );
    let long = array_args(vec![group(
        Delimiter::Bracket,
        vec![literal("\"xs\""), punct('='), ident("xs")],
    )]);
    assert_eq!(short, long);
}

#[test]
fn empty_brackets_are_rejected() {
    let empty = vec![group(Delimiter::Bracket, vec![])];
    assert_eq!(rejection(empty), LogError::ExpectedSeparator);
}

#[test]
fn brackets_in_brackets_change_nothing() {
    let inner = vec![ident("k"), punct(':'), ident("u8"), punct('='), ident("v")];
    let once = array_args(vec![group(Delimiter::Bracket, inner.clone())]);
    let twice = array_args(vec![group(
        Delimiter::Bracket,
        vec![group(Delimiter::Bracket, inner)],
    )]);
    assert_eq!(once, twice);
    assert_eq!(
        once,
        "key : \"k\" , value : ndjsonloggercore :: Value :: Array (& mut v . iter () . map (| p | ndjsonloggercore :: Atom :: Uint (* p as u64)))"
    );
}

#[test]
fn lone_token_that_is_no_identifier_is_rejected() {
    assert_eq!(rejection(vec![literal("\"k\"")]), LogError::ExpectedSeparator);
    assert_eq!(rejection(vec![punct('=')]), LogError::ExpectedSeparator);
    assert_eq!(
        rejection(vec![group(Delimiter::Brace, vec![ident("a")])]),
        LogError::ExpectedSeparator
    );
    assert_eq!(
        rejection(vec![group(Delimiter::Parenthesis, vec![ident("a"), punct('='), ident("b")])]),
        LogError::ExpectedSeparator
    );
}

#[test]
fn key_must_be_identifier_or_string_literal() {
    assert_eq!(rejection(vec![punct('&'), punct('='), ident("v")]), LogError::InvalidKey);
    assert_eq!(rejection(vec![literal("5"), punct('='), ident("v")]), LogError::InvalidKey);
    assert_eq!(rejection(vec![literal("'k'"), punct('='), ident("v")]), LogError::InvalidKey);
    assert_eq!(
        rejection(vec![group(Delimiter::Brace, vec![]), punct('='), ident("v")]),
        LogError::InvalidKey
    );
}

#[test]
fn key_is_checked_before_the_separator() {
    assert_eq!(rejection(vec![punct('&'), ident("v")]), LogError::InvalidKey);
}

#[test]
fn separator_must_be_colon_or_assign() {
    assert_eq!(rejection(vec![ident("k"), ident("v")]), LogError::ExpectedSeparator);
    assert_eq!(rejection(vec![ident("k"), punct(';'), ident("v")]), LogError::ExpectedSeparator);
    assert_eq!(
        rejection(vec![ident("k"), literal("\"v\""), ident("w")]),
        LogError::ExpectedSeparator
    );
}

#[test]
fn annotation_must_be_closed_by_assign() {
    assert_eq!(rejection(vec![ident("k"), punct(':'), ident("u8")]), LogError::ExpectedAssign);
    assert_eq!(rejection(vec![ident("k"), punct(':')]), LogError::ExpectedAssign);
    assert_eq!(
        rejection(vec![
            ident("k"),
            punct(':'),
            ident("u8"),
            group(Delimiter::Parenthesis, vec![punct('=')]),
        ]),
        LogError::ExpectedAssign
    );
}

#[test]
fn unrecognised_annotation_is_rejected() {
    assert_eq!(
        rejection(vec![ident("k"), punct(':'), ident("Widget"), punct('='), ident("v")]),
        LogError::UnrecognisedType
    );
    assert_eq!(
        rejection(vec![ident("k"), punct(':'), punct('='), ident("v")]),
        LogError::UnrecognisedType
    );
    assert_eq!(
        rejection(vec![group(
            Delimiter::Bracket,
            vec![ident("k"), punct(':'), ident("f32"), punct('='), ident("v")],
        )]),
        LogError::UnrecognisedType
    );
}

#[test]
fn unrecognised_type_is_reported_before_a_missing_value() {
    assert_eq!(
        rejection(vec![ident("k"), punct(':'), ident("Widget"), punct('=')]),
        LogError::UnrecognisedType
    );
}

#[test]
fn value_must_not_be_empty() {
    assert_eq!(rejection(vec![ident("k"), punct('=')]), LogError::MissingValue);
    assert_eq!(
        rejection(vec![ident("k"), punct(':'), ident("u8"), punct('=')]),
        LogError::MissingValue
    );
    assert_eq!(
        rejection(vec![group(Delimiter::Bracket, vec![ident("k"), punct('=')])]),
        LogError::MissingValue
    );
}

#[test]
fn missing_value_is_reported_before_an_optional_array() {
    assert_eq!(
        rejection(vec![group(
            Delimiter::Bracket,
            vec![
                ident("k"),
                punct(':'),
                ident("Option"),
                punct('<'),
                ident("u8"),
                punct('>'),
                punct('='),
            ],
        )]),
        LogError::MissingValue
    );
}

#[test]
fn next_takes_parts_from_the_front() {
    let list = vec![ident("a"), punct(','), ident("b"), punct(','), ident("c")];
    let mut it = EntryIter::new(&list);
    let mut keys = Vec::new();
    while let Some(line) = it.next() {
        match line {
            Ok(EntryLine::Entry(e)) => keys.push(e.key),
            _ => panic!("expected scalar entries"),
        }
    }
    assert_eq!(keys, vec!["\"a\"", "\"b\"", "\"c\""]);
    assert!(it.entries.is_empty());
}
