//! From the tokens of an entry list to its entries: the list is split on its
//! commas, and each part is parsed into a key, a type and a value.

use vstd::prelude::*;
use vstd::string::StringExecFns;
use vstd::string::StrSliceExecFns;
use crate::entryvaluebuilder::{
    build_entry_value, build_entry_value_array, scalar_tree, ValueTree,
};
use crate::error::LogError;
use crate::token::{
    clone_tokens, extend_tokens, ident, lemma_group_view, lemma_trees_subrange, literal, punct,
    push_token, stream_trees, trees, Delimiter, Spacing, Token, TokenTree,
};
use crate::typefns::{lemma_resolved_has_no_assign, resolve, AtomType, EntryType};

verus! {

/// How many tokens stand before the first punctuation character `c`; the
/// length of the run where it holds none.
pub open spec fn punct_position(tokens: Seq<TokenTree>, c: char) -> int
    decreases tokens.len(),
{
    if tokens.len() == 0 || tokens[0].is_punct(c) {
        0
    } else {
        1 + punct_position(tokens.drop_first(), c)
    }
}

/// The position of the first `c` is the one index that has no `c` before it
/// and either holds a `c` or is the end of the run.
pub proof fn lemma_punct_position(tokens: Seq<TokenTree>, c: char, p: int)
    requires
        0 <= p <= tokens.len(),
        forall|j: int| 0 <= j < p ==> !(#[trigger] tokens[j]).is_punct(c),
        p < tokens.len() ==> tokens[p].is_punct(c),
    ensures
        punct_position(tokens, c) == p,
    decreases tokens.len(),
{
    if tokens.len() > 0 && !tokens[0].is_punct(c) {
        let rest = tokens.drop_first();
        assert forall|j: int| 0 <= j < p - 1 implies !(#[trigger] rest[j]).is_punct(c) by {
            assert(rest[j] == tokens[j + 1]);
        }
        lemma_punct_position(rest, c, p - 1);
    }
}

/// The first `c` lies within the run or at its end, and nothing before it is a `c`.
pub proof fn lemma_punct_position_bounds(tokens: Seq<TokenTree>, c: char)
    ensures
        0 <= punct_position(tokens, c) <= tokens.len(),
        forall|j: int| 0 <= j < punct_position(tokens, c) ==> !(#[trigger] tokens[j]).is_punct(c),
        punct_position(tokens, c) < tokens.len() ==> tokens[punct_position(tokens, c)].is_punct(c),
    decreases tokens.len(),
{
    if tokens.len() > 0 && !tokens[0].is_punct(c) {
        let rest = tokens.drop_first();
        lemma_punct_position_bounds(rest, c);
        let p = punct_position(tokens, c);
        assert forall|j: int| 0 <= j < p implies !(#[trigger] tokens[j]).is_punct(c) by {
            if j > 0 {
                assert(tokens[j] == rest[j - 1]);
            }
        }
    }
}

/// Finds the first punctuation character `c` in a run of tokens.
pub fn find_punct(tts: &[Token], c: char) -> (res: usize)
    ensures
        res == punct_position(trees(tts@), c),
{
    let mut n: usize = 0;
    while n < tts.len() && !tts[n].is_punct(c)
        invariant
            n <= tts.len(),
            forall|j: int| 0 <= j < n ==> !(#[trigger] trees(tts@)[j]).is_punct(c),
        decreases tts.len() - n,
    {
        n += 1;
    }
    proof {
        lemma_punct_position(trees(tts@), c, n as int);
    }
    n
}

/// The parts of an entry list: what stands between its commas, in order. A
/// group is one token, so a comma inside a group separates nothing here.
/// A list without a comma is one part, also where it is empty.
pub open spec fn split_units(tokens: Seq<TokenTree>) -> Seq<Seq<TokenTree>>
    decreases tokens.len(),
{
    let p = punct_position(tokens, ',');
    if 0 <= p < tokens.len() {
        seq![tokens.take(p)] + split_units(tokens.skip(p + 1))
    } else {
        seq![tokens]
    }
}

/// Splitting yields at least one part, no part holds a top-level comma, and
/// the first part is what stands before the first comma.
pub proof fn lemma_split_units(tokens: Seq<TokenTree>)
    ensures
        split_units(tokens).len() >= 1,
        forall|i: int, j: int|
            0 <= i < split_units(tokens).len() && 0 <= j < split_units(tokens)[i].len()
                ==> !(#[trigger] split_units(tokens)[i][j]).is_punct(','),
        split_units(tokens).first() == tokens.take(punct_position(tokens, ',')),
    decreases tokens.len(),
{
    let p = punct_position(tokens, ',');
    lemma_punct_position_bounds(tokens, ',');
    if p < tokens.len() {
        let rest = tokens.skip(p + 1);
        lemma_split_units(rest);
        let units = split_units(tokens);
        assert forall|i: int, j: int| 0 <= i < units.len() && 0 <= j < units[i].len() implies !(
        #[trigger] units[i][j]).is_punct(',') by {
            if i > 0 {
                assert(units[i] == split_units(rest)[i - 1]);
            }
        }
    } else {
        assert(tokens.take(p) =~= tokens);
    }
}

/// An entry list without tokens is one part without tokens, and that part
/// is rejected.
pub proof fn lemma_empty_list()
    ensures
        split_units(Seq::empty()) == seq![Seq::<TokenTree>::empty()],
        parse_unit(Seq::empty()) == Err::<ParsedEntry, LogError>(LogError::ExpectedSeparator),
{
}

/// Whether the source text of a literal is that of a string literal: it
/// opens with a quote, or with the `r` of a raw string and then a quote or `#`.
pub open spec fn is_string_literal(text: Seq<char>) -> bool {
    &&& text.len() > 0
    &&& (text[0] == '"' || (text[0] == 'r' && text.len() > 1 && (text[1] == '"' || text[1]
        == '#')))
}

/// The string literal that spells `name`: the name between quotes.
pub open spec fn quoted(name: Seq<char>) -> Seq<char> {
    "\""@ + name + "\""@
}

/// The key that a token stands for: a string literal as it is, an
/// identifier as the string literal of its name, and nothing else.
pub open spec fn entry_key(token: TokenTree) -> Option<Seq<char>> {
    match token {
        TokenTree::Literal(text) => if is_string_literal(text) {
            Some(text)
        } else {
            None
        },
        TokenTree::Ident(name) => Some(quoted(name)),
        _ => None,
    }
}

/// The type that opens a run of tokens and is closed by its first `=`, with
/// the number of tokens up to and including that `=`.
pub open spec fn annotation(tokens: Seq<TokenTree>) -> Result<(EntryType, int), LogError> {
    let p = punct_position(tokens, '=');
    if 0 <= p < tokens.len() {
        match resolve(tokens.take(p)) {
            Some(entry_type) => Ok((entry_type, p + 1)),
            None => Err(LogError::UnrecognisedType),
        }
    } else {
        Err(LogError::ExpectedAssign)
    }
}

/// The key and the type of an entry that is written out in full, with the
/// index at which its value starts. The key comes first; `=` after it leaves
/// the type to be a string, `:` announces a type that `=` closes.
pub open spec fn entry_fields(tokens: Seq<TokenTree>) -> Result<
    (Seq<char>, EntryType, int),
    LogError,
> {
    if tokens.len() < 2 {
        Err(LogError::ExpectedSeparator)
    } else {
        match entry_key(tokens[0]) {
            None => Err(LogError::InvalidKey),
            Some(key) => if tokens[1].is_punct('=') {
                Ok((key, EntryType { atom_type: AtomType::String, opt: false }, 2))
            } else if tokens[1].is_punct(':') {
                match annotation(tokens.skip(2)) {
                    Ok((entry_type, n)) => Ok((key, entry_type, n + 2)),
                    Err(e) => Err(e),
                }
            } else {
                Err(LogError::ExpectedSeparator)
            },
        }
    }
}

/// One entry as it was written: its key as a string literal, its type, the
/// tokens of its value, and whether it is an array.
pub struct ParsedEntry {
    /// The source text of the string literal that is the key.
    pub key: Seq<char>,
    /// The type that the annotation resolved to; a plain string without one.
    pub entry_type: EntryType,
    /// The tokens of the value, as they were written.
    pub value: Seq<TokenTree>,
    /// Whether the entry stood in brackets.
    pub is_array: bool,
}

/// One entry as it is handed on: its key, the tokens of the expression that
/// builds its value tree, and whether it is an array.
pub struct BuiltEntry {
    /// The source text of the string literal that is the key.
    pub key: Seq<char>,
    /// The tokens of the expression that builds the value tree.
    pub value: Seq<TokenTree>,
    /// Whether the entry stood in brackets.
    pub is_array: bool,
}

impl ParsedEntry {
    /// What every parsed entry has: a string literal for its key, a value
    /// that is not empty, and no optional type on an array.
    pub open spec fn wf(self) -> bool {
        &&& is_string_literal(self.key)
        &&& self.value.len() > 0
        &&& !(self.is_array && self.entry_type.opt)
    }

    /// The value tree of the entry.
    pub open spec fn value_tree(self) -> ValueTree {
        if self.is_array {
            ValueTree::Array(self.entry_type.atom_type, self.value)
        } else {
            scalar_tree(self.entry_type, self.value)
        }
    }

    /// The entry with its value tree built.
    pub open spec fn built(self) -> BuiltEntry {
        BuiltEntry { key: self.key, value: self.value_tree().tokens(), is_array: self.is_array }
    }

    /// The fields of the entry as they are written in the record.
    pub open spec fn fields(self) -> Seq<TokenTree> {
        entry_args(self.key, self.value_tree().tokens())
    }
}

/// An entry that is written out in full: key, separator, type where there is
/// one, and value. It is rejected where the value is missing, and where it
/// is an array of an optional type.
pub open spec fn parse_general(tokens: Seq<TokenTree>, is_array: bool) -> Result<
    ParsedEntry,
    LogError,
> {
    match entry_fields(tokens) {
        Err(e) => Err(e),
        Ok((key, entry_type, from)) => {
            let value = tokens.skip(from);
            if value.len() == 0 {
                Err(LogError::MissingValue)
            } else if is_array && entry_type.opt {
                Err(LogError::OptionalArray)
            } else {
                Ok(ParsedEntry { key, entry_type, value, is_array })
            }
        },
    }
}

/// An entry, parsed. A lone identifier is the entry of that name with the
/// identifier as its value; a lone bracket group is an array entry, which
/// is the entry that stands inside the brackets; anything else is an entry
/// written out in full. `is_array` says whether brackets have been taken off.
pub open spec fn parse_unit_as(tokens: Seq<TokenTree>, is_array: bool) -> Result<
    ParsedEntry,
    LogError,
>
    decreases tokens,
{
    if tokens.len() == 1 && tokens[0] is Ident {
        Ok(
            ParsedEntry {
                key: quoted(tokens[0]->Ident_0),
                entry_type: EntryType { atom_type: AtomType::String, opt: false },
                value: tokens,
                is_array,
            },
        )
    } else if tokens.len() == 1 && tokens[0] matches TokenTree::Group(Delimiter::Bracket, inner) {
        parse_unit_as(tokens[0]->Group_1, true)
    } else {
        parse_general(tokens, is_array)
    }
}

/// One part of an entry list, parsed: a scalar entry unless it stands in
/// brackets.
pub open spec fn parse_unit(tokens: Seq<TokenTree>) -> Result<ParsedEntry, LogError> {
    parse_unit_as(tokens, false)
}

/// The fields of a built entry, as they are written in the record:
/// `key: <key>, value: <value>`.
pub open spec fn entry_args(key: Seq<char>, value: Seq<TokenTree>) -> Seq<TokenTree> {
    seq![
        TokenTree::Ident("key"@),
        TokenTree::Punct(':', Spacing::Alone),
        TokenTree::Literal(key),
        TokenTree::Punct(',', Spacing::Alone),
        TokenTree::Ident("value"@),
        TokenTree::Punct(':', Spacing::Alone),
    ] + value
}

/// Every entry that is parsed has a string literal for its key and a value
/// that is not empty, and is no array of an optional type. It is an array
/// where it stood in brackets, and only there.
pub proof fn lemma_parsed_entry_wf(tokens: Seq<TokenTree>, is_array: bool)
    ensures
        parse_unit_as(tokens, is_array) matches Ok(p) ==> p.wf() && (p.is_array <==> is_array || (
        tokens.len() == 1 && tokens[0] matches TokenTree::Group(Delimiter::Bracket, _))),
    decreases tokens,
{
    reveal_strlit("\"");
    if tokens.len() == 1 && tokens[0] matches TokenTree::Group(Delimiter::Bracket, _) {
        lemma_parsed_entry_wf(tokens[0]->Group_1, true);
    }
}

/// Brackets around an entry make it an array entry, and brackets around
/// an array entry change nothing.
pub proof fn lemma_brackets(inner: Seq<TokenTree>, is_array: bool)
    ensures
        parse_unit_as(seq![TokenTree::Group(Delimiter::Bracket, inner)], is_array)
            == parse_unit_as(inner, true),
        parse_unit(
            seq![
                TokenTree::Group(
                    Delimiter::Bracket,
                    seq![TokenTree::Group(Delimiter::Bracket, inner)],
                ),
            ],
        ) == parse_unit(seq![TokenTree::Group(Delimiter::Bracket, inner)]),
{
    let once = seq![TokenTree::Group(Delimiter::Bracket, inner)];
    assert(parse_unit_as(once, false) == parse_unit_as(inner, true));
}

/// An entry written as key, `:`, a recognised annotation, `=` and a value is
/// parsed into just these parts, with the type that the annotation resolves
/// to; as an array it is rejected where that type is optional.
pub proof fn lemma_annotated_entry(
    key: TokenTree,
    colon: Spacing,
    annotation: Seq<TokenTree>,
    assign: Spacing,
    value: Seq<TokenTree>,
    is_array: bool,
)
    requires
        entry_key(key) is Some,
        resolve(annotation) is Some,
        value.len() > 0,
    ensures
        parse_general(
            seq![key, TokenTree::Punct(':', colon)] + annotation + seq![
                TokenTree::Punct('=', assign),
            ] + value,
            is_array,
        ) == if is_array && resolve(annotation)->0.opt {
            Err::<ParsedEntry, LogError>(LogError::OptionalArray)
        } else {
            Ok(
                ParsedEntry {
                    key: entry_key(key)->0,
                    entry_type: resolve(annotation)->0,
                    value,
                    is_array,
                },
            )
        },
        parse_unit_as(
            seq![key, TokenTree::Punct(':', colon)] + annotation + seq![
                TokenTree::Punct('=', assign),
            ] + value,
            is_array,
        ) == parse_general(
            seq![key, TokenTree::Punct(':', colon)] + annotation + seq![
                TokenTree::Punct('=', assign),
            ] + value,
            is_array,
        ),
{
    let tokens = seq![key, TokenTree::Punct(':', colon)] + annotation + seq![
        TokenTree::Punct('=', assign),
    ] + value;
    let rest = tokens.skip(2);
    let p: int = annotation.len() as int;
    lemma_resolved_has_no_assign(annotation);
    assert forall|j: int| 0 <= j < p implies !(#[trigger] rest[j]).is_punct('=') by {
        assert(rest[j] == annotation[j]);
    }
    lemma_punct_position(rest, '=', p);
    assert(rest.take(p) =~= annotation);
    assert(tokens.skip(p + 3) =~= value);
}

/// An annotation that is not recognised has its entry rejected: no type is
/// assumed in its place.
pub proof fn lemma_unrecognised_annotation_fails(
    key: TokenTree,
    colon: Spacing,
    annotation: Seq<TokenTree>,
    assign: Spacing,
    value: Seq<TokenTree>,
    is_array: bool,
)
    requires
        entry_key(key) is Some,
        resolve(annotation) is None,
        forall|j: int| 0 <= j < annotation.len() ==> !(#[trigger] annotation[j]).is_punct('='),
    ensures
        parse_general(
            seq![key, TokenTree::Punct(':', colon)] + annotation + seq![
                TokenTree::Punct('=', assign),
            ] + value,
            is_array,
        ) == Err::<ParsedEntry, LogError>(LogError::UnrecognisedType),
        parse_unit_as(
            seq![key, TokenTree::Punct(':', colon)] + annotation + seq![
                TokenTree::Punct('=', assign),
            ] + value,
            is_array,
        ) == Err::<ParsedEntry, LogError>(LogError::UnrecognisedType),
{
    let tokens = seq![key, TokenTree::Punct(':', colon)] + annotation + seq![
        TokenTree::Punct('=', assign),
    ] + value;
    let rest = tokens.skip(2);
    let p: int = annotation.len() as int;
    assert forall|j: int| 0 <= j < p implies !(#[trigger] rest[j]).is_punct('=') by {
        assert(rest[j] == annotation[j]);
    }
    lemma_punct_position(rest, '=', p);
    assert(rest.take(p) =~= annotation);
}

/// An entry that does not start with a key, or whose key is not followed by
/// `:` or `=`, is rejected, and so is a `:` that no `=` follows. Only a lone
/// identifier and a lone bracket group are not held to this form.
pub proof fn lemma_malformed_entry_fails(tokens: Seq<TokenTree>, is_array: bool)
    ensures
        tokens.len() != 1 || !(tokens[0] is Ident || tokens[0] matches TokenTree::Group(
            Delimiter::Bracket,
            _,
        )) ==> parse_unit_as(tokens, is_array) == parse_general(tokens, is_array),
        tokens.len() < 2 ==> parse_general(tokens, is_array) == Err::<ParsedEntry, LogError>(
            LogError::ExpectedSeparator,
        ),
        tokens.len() >= 2 && entry_key(tokens[0]) is None ==> parse_general(tokens, is_array)
            == Err::<ParsedEntry, LogError>(LogError::InvalidKey),
        tokens.len() >= 2 && entry_key(tokens[0]) is Some && !tokens[1].is_punct('=')
            && !tokens[1].is_punct(':') ==> parse_general(tokens, is_array) == Err::<
            ParsedEntry,
            LogError,
        >(LogError::ExpectedSeparator),
        tokens.len() >= 2 && entry_key(tokens[0]) is Some && tokens[1].is_punct(':') && (forall|
            j: int,
        |
            2 <= j < tokens.len() ==> !(#[trigger] tokens[j]).is_punct('=')) ==> parse_general(
            tokens,
            is_array,
        ) == Err::<ParsedEntry, LogError>(LogError::ExpectedAssign),
{
    if tokens.len() >= 2 && tokens[1].is_punct(':') && (forall|j: int|
        2 <= j < tokens.len() ==> !(#[trigger] tokens[j]).is_punct('=')) {
        let rest = tokens.skip(2);
        assert forall|j: int| 0 <= j < rest.len() implies !(#[trigger] rest[j]).is_punct('=') by {
            assert(rest[j] == tokens[j + 2]);
        }
        lemma_punct_position(rest, '=', rest.len() as int);
    }
}

/// A lone identifier is short for the entry whose key is the name of the
/// identifier as a string literal and whose value is the identifier, as a
/// scalar and in brackets alike.
pub proof fn lemma_shorthand(name: Seq<char>, assign: Spacing, is_array: bool)
    ensures
        parse_unit_as(seq![TokenTree::Ident(name)], is_array) == parse_unit_as(
            seq![
                TokenTree::Literal(quoted(name)),
                TokenTree::Punct('=', assign),
                TokenTree::Ident(name),
            ],
            is_array,
        ),
        parse_unit_as(seq![TokenTree::Ident(name)], is_array) == parse_unit_as(
            seq![TokenTree::Ident(name), TokenTree::Punct('=', assign), TokenTree::Ident(name)],
            is_array,
        ),
        parse_unit_as(seq![TokenTree::Ident(name)], is_array) == Ok::<ParsedEntry, LogError>(
            ParsedEntry {
                key: quoted(name),
                entry_type: EntryType { atom_type: AtomType::String, opt: false },
                value: seq![TokenTree::Ident(name)],
                is_array,
            },
        ),
{
    reveal_strlit("\"");
    let short = seq![TokenTree::Ident(name)];
    let long = seq![
        TokenTree::Literal(quoted(name)),
        TokenTree::Punct('=', assign),
        TokenTree::Ident(name),
    ];
    assert(long.skip(2) =~= short);
    let named = seq![
        TokenTree::Ident(name),
        TokenTree::Punct('=', assign),
        TokenTree::Ident(name),
    ];
    assert(named.skip(2) =~= short);
}

/// An entry without annotation is the entry annotated with `&str`: the same
/// key and value give the same entry, or are rejected for the same reason.
pub proof fn lemma_default_type_is_str(
    key: TokenTree,
    value: Seq<TokenTree>,
    is_array: bool,
    assign: Spacing,
    colon: Spacing,
    ampersand: Spacing,
    close: Spacing,
)
    ensures
        parse_general(seq![key, TokenTree::Punct('=', assign)] + value, is_array) == parse_general(
            seq![
                key,
                TokenTree::Punct(':', colon),
                TokenTree::Punct('&', ampersand),
                TokenTree::Ident("str"@),
                TokenTree::Punct('=', close),
            ] + value,
            is_array,
        ),
        parse_unit(seq![key, TokenTree::Punct('=', assign)] + value) == parse_unit(
            seq![
                key,
                TokenTree::Punct(':', colon),
                TokenTree::Punct('&', ampersand),
                TokenTree::Ident("str"@),
                TokenTree::Punct('=', close),
            ] + value,
        ),
        parse_unit(
            seq![
                TokenTree::Group(
                    Delimiter::Bracket,
                    seq![key, TokenTree::Punct('=', assign)] + value,
                ),
            ],
        ) == parse_unit(
            seq![
                TokenTree::Group(
                    Delimiter::Bracket,
                    seq![
                        key,
                        TokenTree::Punct(':', colon),
                        TokenTree::Punct('&', ampersand),
                        TokenTree::Ident("str"@),
                        TokenTree::Punct('=', close),
                    ] + value,
                ),
            ],
        ),
{
    let bare = seq![key, TokenTree::Punct('=', assign)] + value;
    let annotated = seq![
        key,
        TokenTree::Punct(':', colon),
        TokenTree::Punct('&', ampersand),
        TokenTree::Ident("str"@),
        TokenTree::Punct('=', close),
    ] + value;
    let rest = annotated.skip(2);
    lemma_punct_position(rest, '=', 2);
    assert(bare.skip(2) =~= value);
    assert(annotated.skip(5) =~= value);
    lemma_brackets(bare, false);
    lemma_brackets(annotated, false);
}

/// Whether the source text of a literal is that of a string literal.
pub fn string_literal_text(text: &str) -> (res: bool)
    ensures
        res == is_string_literal(text@),
{
    let n: usize = text.unicode_len();
    if n == 0 {
        return false;
    }
    let first = text.get_char(0);
    if first == '"' {
        true
    } else if first == 'r' && n > 1 {
        let second = text.get_char(1);
        second == '"' || second == '#'
    } else {
        false
    }
}

/// The key that a token stands for, if it can be a key.
fn parse_key(tt: &Token) -> (res: Option<String>)
    ensures
        match res {
            Some(key) => entry_key(tt@) == Some(key@),
            None => entry_key(tt@) is None,
        },
{
    match tt {
        Token::Literal(lit) => if string_literal_text(lit.as_str()) {
            Some(lit.clone())
        } else {
            None
        },
        Token::Ident(name) => Some(String::from_str("\"").concat(name.as_str()).concat("\"")),
        _ => None,
    }
}

/// Resolves the type annotation that opens `tts`, and counts the tokens up
/// to and including the `=` that closes it.
fn parse_type(tts: &[Token]) -> (res: Result<(EntryType, usize), LogError>)
    ensures
        match res {
            Ok((entry_type, num_tts)) => annotation(trees(tts@)) == Ok::<
                (EntryType, int),
                LogError,
            >((entry_type, num_tts as int)),
            Err(e) => annotation(trees(tts@)) == Err::<(EntryType, int), LogError>(e),
        },
{
    let n: usize = find_punct(tts, '=');
    if n >= tts.len() {
        return Err(LogError::ExpectedAssign);
    }
    proof {
        lemma_trees_subrange(tts@, 0, n as int);
    }
    match EntryType::from_type(&tts[0..n]) {
        Ok(entry_type) => Ok((entry_type, n + 1)),
        Err(e) => Err(e),
    }
}

/// The key and the type of an entry that is written out in full, and the
/// index at which its value starts.
fn parse_fields(tts: &[Token]) -> (res: Result<(String, EntryType, usize), LogError>)
    ensures
        match res {
            Ok((key, entry_type, from)) => entry_fields(trees(tts@)) == Ok::<
                (Seq<char>, EntryType, int),
                LogError,
            >((key@, entry_type, from as int)) && 2 <= from <= tts.len(),
            Err(e) => entry_fields(trees(tts@)) == Err::<(Seq<char>, EntryType, int), LogError>(e),
        },
{
    if tts.len() < 2 {
        return Err(LogError::ExpectedSeparator);
    }
    // The first tt is the key - may be either an ident or a string literal
    let key = match parse_key(&tts[0]) {
        Some(key) => key,
        None => {
            return Err(LogError::InvalidKey);
        },
    };
    // Second tt may be either an = or a :
    if tts[1].is_punct('=') {
        // The value is all tt after the =
        Ok((key, EntryType::new(), 2))
    } else if tts[1].is_punct(':') {
        proof {
            lemma_trees_subrange(tts@, 2, tts.len() as int);
        }
        match parse_type(&tts[2..tts.len()]) {
            Ok((entry_type, num_tts)) => Ok((key, entry_type, num_tts + 2)),
            Err(e) => Err(e),
        }
    } else {
        Err(LogError::ExpectedSeparator)
    }
}

/// A scalar entry: its key and the expression that builds its value.
pub struct Entry {
    /// The source text of the string literal that is the key.
    pub key: String,
    /// The expression that builds the value tree.
    pub value_group: Vec<Token>,
}

/// An array entry: its key and the expression that builds its value.
pub struct EntryArray {
    /// The source text of the string literal that is the key.
    pub key: String,
    /// The expression that builds the value tree.
    pub value_group: Vec<Token>,
}

/// One parsed entry of either kind.
pub enum EntryLine {
    /// An entry with one value.
    Entry(Entry),
    /// An entry with a sequence of values.
    EntryArray(EntryArray),
}

impl View for Entry {
    type V = BuiltEntry;

    open spec fn view(&self) -> BuiltEntry {
        BuiltEntry { key: self.key@, value: trees(self.value_group@), is_array: false }
    }
}

impl View for EntryArray {
    type V = BuiltEntry;

    open spec fn view(&self) -> BuiltEntry {
        BuiltEntry { key: self.key@, value: trees(self.value_group@), is_array: true }
    }
}

impl View for EntryLine {
    type V = BuiltEntry;

    open spec fn view(&self) -> BuiltEntry {
        match self {
            EntryLine::Entry(e) => e@,
            EntryLine::EntryArray(ea) => ea@,
        }
    }
}

impl Entry {
    fn new(key: String, entry_type: EntryType, value_tts: &[Token]) -> (res: Self)
        ensures
            res@ == (ParsedEntry {
                key: key@,
                entry_type,
                value: trees(value_tts@),
                is_array: false,
            }).built(),
    {
        Self { key, value_group: build_entry_value(entry_type, value_tts) }
    }

    /// The fields of this entry as they are written in the record.
    pub fn into_entry_args(self) -> (res: Vec<Token>)
        ensures
            trees(res@) == entry_args(self@.key, self@.value),
    {
        new_entry_args(self.key.as_str(), self.value_group)
    }
}

impl EntryArray {
    fn new(key: String, entry_type: EntryType, value_tts: &[Token]) -> (res: Result<
        Self,
        LogError,
    >)
        ensures
            match res {
                Ok(ea) => !entry_type.opt && ea@ == (ParsedEntry {
                    key: key@,
                    entry_type,
                    value: trees(value_tts@),
                    is_array: true,
                }).built(),
                Err(e) => entry_type.opt && e == LogError::OptionalArray,
            },
    {
        match build_entry_value_array(entry_type, value_tts) {
            Ok(value_group) => Ok(Self { key, value_group }),
            Err(e) => Err(e),
        }
    }

    /// The fields of this entry as they are written in the record.
    pub fn into_entry_args(self) -> (res: Vec<Token>)
        ensures
            trees(res@) == entry_args(self@.key, self@.value),
    {
        new_entry_args(self.key.as_str(), self.value_group)
    }
}

fn new_entry_args(key: &str, value: Vec<Token>) -> (res: Vec<Token>)
    ensures
        trees(res@) == entry_args(key@, trees(value@)),
{
    let mut entry_args: Vec<Token> = Vec::new();
    push_token(&mut entry_args, ident("key"));
    push_token(&mut entry_args, punct(':'));
    push_token(&mut entry_args, literal(key));
    push_token(&mut entry_args, punct(','));
    push_token(&mut entry_args, ident("value"));
    push_token(&mut entry_args, punct(':'));
    extend_tokens(&mut entry_args, value.as_slice());
    entry_args
}

/// The entry that a lone identifier stands for: a scalar, or an array where
/// the identifier stood in brackets.
fn ident_entry(name: &String, is_array: bool) -> (res: Result<EntryLine, LogError>)
    ensures
        res matches Ok(line) && line@ == (ParsedEntry {
            key: quoted(name@),
            entry_type: EntryType { atom_type: AtomType::String, opt: false },
            value: seq![TokenTree::Ident(name@)],
            is_array,
        }).built(),
{
    let mut value: Vec<Token> = Vec::new();
    push_token(&mut value, Token::Ident(name.clone()));
    assert(trees(value@) =~= seq![TokenTree::Ident(name@)]);
    let key = String::from_str("\"").concat(name.as_str()).concat("\"");
    if is_array {
        match EntryArray::new(key, EntryType::new(), value.as_slice()) {
            Ok(ea) => Ok(EntryLine::EntryArray(ea)),
            Err(e) => Err(e),
        }
    } else {
        Ok(EntryLine::Entry(Entry::new(key, EntryType::new(), value.as_slice())))
    }
}

/// Parses an array entry that is written out in full.
fn parse_array(stream: &[Token]) -> (res: Result<EntryLine, LogError>)
    ensures
        match res {
            Ok(line) => parse_general(trees(stream@), true) matches Ok(p) && line@ == p.built(),
            Err(e) => parse_general(trees(stream@), true) matches Err(pe) && pe == e,
        },
{
    let (key, entry_type, from) = match parse_fields(stream) {
        Ok(fields) => fields,
        Err(e) => {
            return Err(e);
        },
    };
    if from >= stream.len() {
        return Err(LogError::MissingValue);
    }
    proof {
        lemma_trees_subrange(stream@, from as int, stream.len() as int);
    }
    match EntryArray::new(key, entry_type, &stream[from..stream.len()]) {
        Ok(ea) => Ok(EntryLine::EntryArray(ea)),
        Err(e) => Err(e),
    }
}

/// Parses an entry; `is_array` says whether it stood in brackets.
fn parse_entry(tts: &[Token], is_array: bool) -> (res: Result<EntryLine, LogError>)
    ensures
        match res {
            Ok(line) => parse_unit_as(trees(tts@), is_array) matches Ok(p) && line@ == p.built(),
            Err(e) => parse_unit_as(trees(tts@), is_array) matches Err(pe) && pe == e,
        },
    decreases trees(tts@),
{
    if tts.len() == 1 {
        match &tts[0] {
            Token::Ident(name) => {
                proof {
                    assert(trees(tts@) =~= seq![TokenTree::Ident(name@)]);
                }
                return ident_entry(name, is_array);
            },
            Token::Group(delimiter, inner) => {
                if *delimiter == Delimiter::Bracket {
                    proof {
                        lemma_group_view(*delimiter, *inner);
                    }
                    return parse_entry(inner.as_slice(), true);
                }
            },
            _ => {},
        }
    }
    if is_array {
        return parse_array(tts);
    }
    let (key, entry_type, from) = match parse_fields(tts) {
        Ok(fields) => fields,
        Err(e) => {
            return Err(e);
        },
    };
    if from >= tts.len() {
        return Err(LogError::MissingValue);
    }
    proof {
        lemma_trees_subrange(tts@, from as int, tts.len() as int);
    }
    Ok(EntryLine::Entry(Entry::new(key, entry_type, &tts[from..tts.len()])))
}

/// The parts of an entry list that are still to be parsed.
pub struct EntryIter {
    /// The parts that have not been taken yet, the next one first.
    pub entries: Vec<Vec<Token>>,
}

impl View for EntryIter {
    type V = Seq<Seq<TokenTree>>;

    open spec fn view(&self) -> Seq<Seq<TokenTree>> {
        stream_trees(self.entries@)
    }
}

impl EntryIter {
    /// Splits an entry list on its commas.
    pub fn new(it: &[Token]) -> (res: Self)
        ensures
            res@ == split_units(trees(it@)),
    {
        let mut entries: Vec<Vec<Token>> = Vec::new();
        let len: usize = it.len();
        let ghost all = trees(it@);
        let mut start: usize = 0;
        let mut p: usize = find_punct(it, ',');
        assert(all.skip(0) =~= all);
        while p < len - start
            invariant
                len == it.len(),
                all == trees(it@),
                start <= len,
                p == punct_position(all.skip(start as int), ','),
                split_units(all) == stream_trees(entries@) + split_units(all.skip(start as int)),
            decreases len - start,
        {
            let ghost rest = all.skip(start as int);
            proof {
                lemma_trees_subrange(it@, start as int, start + p);
                assert(all.subrange(start as int, start + p) =~= rest.take(p as int));
                assert(rest.skip(p + 1) =~= all.skip(start + p + 1));
            }
            let e = clone_tokens(&it[start..(start + p)]);
            entries.push(e);
            start = start + p + 1;
            proof {
                lemma_trees_subrange(it@, start as int, len as int);
            }
            p = find_punct(&it[start..len], ',');
        }
        proof {
            lemma_trees_subrange(it@, start as int, len as int);
            lemma_punct_position_bounds(all.skip(start as int), ',');
        }
        let e = clone_tokens(&it[start..len]);
        entries.push(e);
        Self { entries }
    }

    /// Takes the first part that is left and parses it; `None` once every
    /// part has been taken.
    pub fn next(&mut self) -> (res: Option<Result<EntryLine, LogError>>)
        ensures
            match res {
                None => old(self)@.len() == 0 && final(self)@ == old(self)@,
                Some(parsed) => {
                    &&& old(self)@.len() > 0
                    &&& final(self)@ == old(self)@.drop_first()
                    &&& match parsed {
                        Ok(line) => parse_unit(old(self)@[0]) matches Ok(p) && line@ == p.built(),
                        Err(e) => parse_unit(old(self)@[0]) matches Err(pe) && pe == e,
                    }
                },
            },
    {
        if self.entries.is_empty() {
            return None;
        }
        let unit = self.entries.remove(0);
        let entry = parse_entry(unit.as_slice(), false);
        Some(entry)
    }
}

} // verus!
