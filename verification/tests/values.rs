use ndjsonlogger::entryvaluebuilder::{build_entry_value, build_entry_value_array};
use ndjsonlogger::error::LogError;
use ndjsonlogger::token::{
    clone_tokens, extend_tokens, group, ident, joint, literal, punct, push_token, Delimiter,
    Spacing, Token,
};
use ndjsonlogger::typefns::{AtomType, EntryType};

fn show(tokens: &[Token]) -> String {
    let mut out = String::new();
    let mut glue = true;
    for t in tokens {
        if !glue {
            out.push(' ');
        }
        glue = false;
        match t {
            Token::Ident(name) => out.push_str(name),
            Token::Literal(text) => out.push_str(text),
            Token::Punct(c, spacing) => {
                out.push(*c);
                glue = *spacing == Spacing::Joint;
            }
            Token::Group(delimiter, inner) => {
                let (open, close) = match delimiter {
                    Delimiter::Parenthesis => ("(", ")"),
                    Delimiter::Brace => ("{", "}"),
                    Delimiter::Bracket => ("[", "]"),
                    Delimiter::Invisible => ("", ""),
                };
                out.push_str(open);
                out.push_str(&show(inner));
                out.push_str(close);
            }
        }
    }
    out
}

fn plain(atom_type: AtomType) -> EntryType {
    EntryType { atom_type, opt: false }
}

fn optional(atom_type: AtomType) -> EntryType {
    EntryType { atom_type, opt: true }
}

#[test]
fn show_marks_joint_punctuation() {
    let tokens = vec![ident("a"), joint(':'), punct(':'), ident("b")];
    assert_eq!(show(&tokens), "a :: b");
}

#[test]
fn string_value_builds_a_string_atom() {
    let value = vec![literal("\"hello world\"")];
    let out = build_entry_value(EntryType::new(), &value);
    assert_eq!(
        show(&out),
        "ndjsonloggercore :: Value :: Atom (ndjsonloggercore :: Atom :: String (\"hello world\"))"
    );
}

#[test]
fn i8_value_builds_a_widened_int_atom() {
    let value = vec![punct('-'), literal("5")];
    let out = build_entry_value(plain(AtomType::I8), &value);
    assert_eq!(
        show(&out),
        "ndjsonloggercore :: Value :: Atom (ndjsonloggercore :: Atom :: Int (- 5 as i64))"
    );
}

#[test]
fn atom_has_the_exact_token_shape() {
    let value = vec![ident("status_code")];
    let out = build_entry_value(plain(AtomType::U16), &value);
    let expected = vec![
        ident("ndjsonloggercore"),
        joint(':'),
        punct(':'),
        ident("Value"),
        joint(':'),
        punct(':'),
        ident("Atom"),
        group(
            Delimiter::Parenthesis,
            vec![
                ident("ndjsonloggercore"),
                joint(':'),
                punct(':'),
                ident("Atom"),
                joint(':'),
                punct(':'),
                ident("Uint"),
                group(
                    Delimiter::Parenthesis,
                    vec![ident("status_code"), ident("as"), ident("u64")],
                ),
            ],
        ),
    ];
    assert_eq!(out, expected);
}

#[test]
fn every_scalar_type_builds_its_atom() {
    let cases = [
        (AtomType::String, "String (v)"),
        (AtomType::U64, "Uint (v)"),
        (AtomType::I64, "Int (v)"),
        (AtomType::U32, "Uint (v as u64)"),
        (AtomType::I32, "Int (v as i64)"),
        (AtomType::U16, "Uint (v as u64)"),
        (AtomType::I16, "Int (v as i64)"),
        (AtomType::U8, "Uint (v as u64)"),
        (AtomType::I8, "Int (v as i64)"),
        (AtomType::Usize, "Uint (v as u64)"),
        (AtomType::Bool, "Bool (v)"),
    ];
    for (atom_type, inner) in cases {
        let out = build_entry_value(plain(atom_type), &[ident("v")]);
        let expected = format!(
            "ndjsonloggercore :: Value :: Atom (ndjsonloggercore :: Atom :: {})",
            inner
        );
        assert_eq!(show(&out), expected);
    }
}

#[test]
fn optional_string_builds_an_optatom() {
    let out = build_entry_value(optional(AtomType::String), &[ident("needed_id")]);
    assert_eq!(
        show(&out),
        "ndjsonloggercore :: Value :: Optatom (needed_id . map (| s | ndjsonloggercore :: Atom :: String (s)))"
    );
}

#[test]
fn optional_u32_builds_a_widening_optatom() {
    let out = build_entry_value(optional(AtomType::U32), &[ident("int")]);
    assert_eq!(
        show(&out),
        "ndjsonloggercore :: Value :: Optatom (int . map (| p | ndjsonloggercore :: Atom :: Uint (* p as u64)))"
    );
}

#[test]
fn optional_value_present_or_absent_builds_the_same_wrapper() {
    let present = vec![ident("Some"), group(Delimiter::Parenthesis, vec![literal("7")])];
    let absent = vec![ident("None")];
    let with = build_entry_value(optional(AtomType::I64), &present);
    let without = build_entry_value(optional(AtomType::I64), &absent);
    assert_eq!(
        show(&with),
        "ndjsonloggercore :: Value :: Optatom (Some (7) . map (| p | ndjsonloggercore :: Atom :: Int (* p)))"
    );
    assert_eq!(
        show(&without),
        "ndjsonloggercore :: Value :: Optatom (None . map (| p | ndjsonloggercore :: Atom :: Int (* p)))"
    );
}

#[test]
fn optional_bool_is_not_cast() {
    let out = build_entry_value(optional(AtomType::Bool), &[ident("flag")]);
    assert_eq!(
        show(&out),
        "ndjsonloggercore :: Value :: Optatom (flag . map (| p | ndjsonloggercore :: Atom :: Bool (* p)))"
    );
}

#[test]
fn u32_array_keeps_its_elements_in_order() {
    let value = vec![group(
        Delimiter::Bracket,
        vec![literal("21"), punct(','), literal("56")],
    )];
    let out = build_entry_value_array(plain(AtomType::U32), &value).unwrap();
    assert_eq!(
        show(&out),
        "ndjsonloggercore :: Value :: Array (& mut [21 , 56] . iter () . map (| p | ndjsonloggercore :: Atom :: Uint (* p as u64)))"
    );
}

#[test]
fn string_array_maps_each_element_to_a_string_atom() {
    let value = vec![group(
        Delimiter::Bracket,
        vec![literal("\"key1\""), punct(','), literal("\"key2\"")],
    )];
    let out = build_entry_value_array(EntryType::new(), &value).unwrap();
    assert_eq!(
        show(&out),
        "ndjsonloggercore :: Value :: Array (& mut [\"key1\" , \"key2\"] . iter () . map (| s | ndjsonloggercore :: Atom :: String (s)))"
    );
}

#[test]
fn array_value_stands_unchanged_behind_mut() {
    let value = vec![ident("top_right")];
    let out = build_entry_value_array(plain(AtomType::I16), &value).unwrap();
    assert_eq!(out.len(), 8);
    match &out[7] {
        Token::Group(Delimiter::Parenthesis, inner) => {
            assert_eq!(inner[0], punct('&'));
            assert_eq!(inner[1], ident("mut"));
            assert_eq!(inner[2], ident("top_right"));
        }
        other => panic!("expected a group, got {:?}", other),
    }
}

#[test]
fn optional_array_is_rejected() {
    let value = vec![ident("xs")];
    assert_eq!(
        build_entry_value_array(optional(AtomType::U32), &value),
        Err(LogError::OptionalArray)
    );
    assert_eq!(
        build_entry_value_array(optional(AtomType::String), &value),
        Err(LogError::OptionalArray)
    );
}

#[test]
fn builder_copies_and_leaves_the_value_alone() {
    let value = vec![ident("a"), punct('.'), ident("b")];
    let before = clone_tokens(&value);
    let out = build_entry_value(plain(AtomType::U64), &value);
    assert_eq!(value, before);
    assert_eq!(
        show(&out),
        "ndjsonloggercore :: Value :: Atom (ndjsonloggercore :: Atom :: Uint (a . b))"
    );
}

#[test]
fn clone_is_deep() {
    let nested = group(
        Delimiter::Brace,
        vec![ident("x"), group(Delimiter::Bracket, vec![literal("1"), joint('.'), punct('.')])],
    );
    let copy = nested.clone();
    assert_eq!(copy, nested);
    assert_eq!(clone_tokens(&[nested.clone(), punct('!')]), vec![nested, punct('!')]);
}

#[test]
fn token_predicates_look_at_kind_and_content() {
    assert!(punct(',').is_punct(','));
    assert!(joint(',').is_punct(','));
    assert!(!punct(';').is_punct(','));
    assert!(!ident(",").is_punct(','));
    assert!(ident("str").is_ident("str"));
    assert!(!ident("str").is_ident("st"));
    assert!(!literal("str").is_ident("str"));
    assert!(!group(Delimiter::Brace, vec![]).is_ident(""));
}

#[test]
fn token_constructors_build_what_they_name() {
    assert_eq!(ident("key"), Token::Ident("key".to_string()));
    assert_eq!(punct(':'), Token::Punct(':', Spacing::Alone));
    assert_eq!(joint(':'), Token::Punct(':', Spacing::Joint));
    assert_eq!(literal("\"m\""), Token::Literal("\"m\"".to_string()));
    assert_eq!(
        group(Delimiter::Bracket, vec![ident("a")]),
        Token::Group(Delimiter::Bracket, vec![Token::Ident("a".to_string())])
    );
}

#[test]
fn push_and_extend_append_in_order() {
    let mut stream = vec![ident("a")];
    push_token(&mut stream, punct('+'));
    extend_tokens(&mut stream, &[ident("b"), punct('-'), ident("c")]);
    assert_eq!(show(&stream), "a + b - c");
}
