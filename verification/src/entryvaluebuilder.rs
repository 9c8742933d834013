//! From a resolved type and the tokens of a value to the tokens of the
//! expression that builds the value tree of an entry.

use vstd::prelude::*;
use crate::error::LogError;
use crate::token::{
    extend_tokens, group, ident, joint, punct, push_token, trees, Delimiter, Spacing, Token,
    TokenTree,
};
use crate::typefns::{atom_of, option_inner, resolve, AtomType, EntryType};

verus! {

/// `ndjsonloggercore::<item>::<variant>`
pub open spec fn core_path(item: Seq<char>, variant: Seq<char>) -> Seq<TokenTree> {
    seq![
        TokenTree::Ident("ndjsonloggercore"@),
        TokenTree::Punct(':', Spacing::Joint),
        TokenTree::Punct(':', Spacing::Alone),
        TokenTree::Ident(item),
        TokenTree::Punct(':', Spacing::Joint),
        TokenTree::Punct(':', Spacing::Alone),
        TokenTree::Ident(variant),
    ]
}

/// `ndjsonloggercore::<item>::<variant>(<arguments>)`
pub open spec fn core_call(item: Seq<char>, variant: Seq<char>, arguments: Seq<TokenTree>) -> Seq<
    TokenTree,
> {
    core_path(item, variant).push(TokenTree::Group(Delimiter::Parenthesis, arguments))
}

/// `<expr> as <cast>` where there is a cast, `<expr>` where there is none.
pub open spec fn widened(expr: Seq<TokenTree>, cast: Option<Seq<char>>) -> Seq<TokenTree> {
    match cast {
        Some(target) => expr + seq![TokenTree::Ident("as"@), TokenTree::Ident(target)],
        None => expr,
    }
}

/// `.<name>(<arguments>)`
pub open spec fn method_call(name: Seq<char>, arguments: Seq<TokenTree>) -> Seq<TokenTree> {
    seq![
        TokenTree::Punct('.', Spacing::Alone),
        TokenTree::Ident(name),
        TokenTree::Group(Delimiter::Parenthesis, arguments),
    ]
}

/// `|<parameter>| <body>`
pub open spec fn closure(parameter: Seq<char>, body: Seq<TokenTree>) -> Seq<TokenTree> {
    seq![
        TokenTree::Punct('|', Spacing::Alone),
        TokenTree::Ident(parameter),
        TokenTree::Punct('|', Spacing::Alone),
    ] + body
}

/// `|s| ndjsonloggercore::Atom::String(s)`: a string is passed on as it is.
pub open spec fn string_closure() -> Seq<TokenTree> {
    closure("s"@, core_call("Atom"@, "String"@, seq![TokenTree::Ident("s"@)]))
}

/// `|p| ndjsonloggercore::Atom::<variant>(*p as <cast>)`: any other value is
/// read through the reference and widened.
pub open spec fn primitive_closure(variant: Seq<char>, cast: Option<Seq<char>>) -> Seq<TokenTree> {
    closure(
        "p"@,
        core_call(
            "Atom"@,
            variant,
            widened(seq![TokenTree::Punct('*', Spacing::Alone), TokenTree::Ident("p"@)], cast),
        ),
    )
}

/// The closure that wraps one element of the given type in its atom.
pub open spec fn atom_closure(atom_type: AtomType) -> Seq<TokenTree> {
    if atom_type == AtomType::String {
        string_closure()
    } else {
        primitive_closure(atom_type.wire_variant(), atom_type.widening_cast())
    }
}

/// `<value>.map(<mapper>)`
pub open spec fn mapped_option(value: Seq<TokenTree>, mapper: Seq<TokenTree>) -> Seq<TokenTree> {
    value + method_call("map"@, mapper)
}

/// `&mut <value>.iter().map(<mapper>)`: the elements are visited in their
/// order, one at a time, as the result is consumed.
pub open spec fn mapped_elements(value: Seq<TokenTree>, mapper: Seq<TokenTree>) -> Seq<TokenTree> {
    seq![TokenTree::Punct('&', Spacing::Alone), TokenTree::Ident("mut"@)] + value + method_call(
        "iter"@,
        Seq::empty(),
    ) + method_call("map"@, mapper)
}

/// The text of a cast, if there is one.
pub open spec fn cast_text(cast: Option<&str>) -> Option<Seq<char>> {
    match cast {
        Some(target) => Some(target@),
        None => None,
    }
}

/// The value tree of one entry: which kind of value it is, the primitive
/// type of what it holds, and the tokens of the expression that is logged.
pub enum ValueTree {
    /// One value that is always there.
    Atom(AtomType, Seq<TokenTree>),
    /// One value that may be absent.
    Optatom(AtomType, Seq<TokenTree>),
    /// A sequence of values of one type.
    Array(AtomType, Seq<TokenTree>),
}

impl ValueTree {
    /// The tokens of the expression that builds this value tree.
    pub open spec fn tokens(self) -> Seq<TokenTree> {
        match self {
            ValueTree::Atom(atom_type, value) => core_call(
                "Value"@,
                "Atom"@,
                core_call(
                    "Atom"@,
                    atom_type.wire_variant(),
                    widened(value, atom_type.widening_cast()),
                ),
            ),
            ValueTree::Optatom(atom_type, value) => core_call(
                "Value"@,
                "Optatom"@,
                mapped_option(value, atom_closure(atom_type)),
            ),
            ValueTree::Array(atom_type, value) => core_call(
                "Value"@,
                "Array"@,
                mapped_elements(value, atom_closure(atom_type)),
            ),
        }
    }
}

/// The value tree of a scalar entry.
pub open spec fn scalar_tree(entry_type: EntryType, value: Seq<TokenTree>) -> ValueTree {
    if entry_type.opt {
        ValueTree::Optatom(entry_type.atom_type, value)
    } else {
        ValueTree::Atom(entry_type.atom_type, value)
    }
}

/// The value tree of an array entry. There is none for an optional type.
pub open spec fn array_tree(entry_type: EntryType, value: Seq<TokenTree>) -> Option<ValueTree> {
    if entry_type.opt {
        None
    } else {
        Some(ValueTree::Array(entry_type.atom_type, value))
    }
}

/// An annotation that resolves to a type that is not optional builds an
/// atom: the value, widened where its type is narrower than 64 bits, inside
/// the atom variant of its type, inside `Value::Atom`.
pub proof fn lemma_scalar_builds_atom(
    annotation: Seq<TokenTree>,
    entry_type: EntryType,
    value: Seq<TokenTree>,
)
    requires
        resolve(annotation) == Some(entry_type),
        !entry_type.opt,
    ensures
        scalar_tree(entry_type, value) == ValueTree::Atom(entry_type.atom_type, value),
        scalar_tree(entry_type, value).tokens() == core_call(
            "Value"@,
            "Atom"@,
            core_call(
                "Atom"@,
                entry_type.atom_type.wire_variant(),
                widened(value, entry_type.atom_type.widening_cast()),
            ),
        ),
        atom_of(annotation) == Some(entry_type.atom_type),
{
}

/// An annotation that resolves to an optional type builds an optional atom
/// from a scalar value, by one expression that serves a value that is there
/// and one that is not: the value mapped through the closure that wraps
/// what is there. For an array there is no value tree at all.
pub proof fn lemma_optional_builds_optatom(
    annotation: Seq<TokenTree>,
    entry_type: EntryType,
    value: Seq<TokenTree>,
)
    requires
        resolve(annotation) == Some(entry_type),
        entry_type.opt,
    ensures
        scalar_tree(entry_type, value) == ValueTree::Optatom(entry_type.atom_type, value),
        scalar_tree(entry_type, value).tokens() == core_call(
            "Value"@,
            "Optatom"@,
            value + method_call("map"@, atom_closure(entry_type.atom_type)),
        ),
        array_tree(entry_type, value) is None,
        option_inner(annotation) matches Some(inner) && atom_of(inner) == Some(
            entry_type.atom_type,
        ),
{
}

/// The tokens of a value go into the expression as they are and in their
/// order, whatever the kind of tree: an atom holds them at the start of its
/// innermost call, an optional atom at the start of the argument of
/// `Value::Optatom`, an array behind `&mut` in the argument of `Value::Array`.
pub proof fn lemma_value_kept(tree: ValueTree)
    ensures
        tree.tokens().len() == 8,
        tree.tokens()[7] is Group,
        match tree {
            ValueTree::Atom(_, value) => {
                let atom = tree.tokens()[7]->Group_1;
                atom.len() == 8 && atom[7] is Group && atom[7]->Group_1.subrange(
                    0,
                    value.len() as int,
                ) == value
            },
            ValueTree::Optatom(_, value) => tree.tokens()[7]->Group_1.subrange(
                0,
                value.len() as int,
            ) == value,
            ValueTree::Array(_, value) => tree.tokens()[7]->Group_1.subrange(
                2,
                value.len() as int + 2,
            ) == value,
        },
{
    match tree {
        ValueTree::Atom(atom_type, value) => {
            let atom = tree.tokens()[7]->Group_1;
            assert(atom[7]->Group_1 == widened(value, atom_type.widening_cast()));
            assert(atom[7]->Group_1.subrange(0, value.len() as int) =~= value);
        },
        ValueTree::Optatom(_, value) => {
            assert(tree.tokens()[7]->Group_1.subrange(0, value.len() as int) =~= value);
        },
        ValueTree::Array(_, value) => {
            assert(tree.tokens()[7]->Group_1.subrange(2, value.len() as int + 2) =~= value);
        },
    }
}

/// Appends `ndjsonloggercore::<item>::<variant>` to a stream.
pub fn push_core_path(stream: &mut Vec<Token>, item: &str, variant: &str)
    ensures
        trees(final(stream)@) == trees(old(stream)@) + core_path(item@, variant@),
{
    push_token(stream, ident("ndjsonloggercore"));
    push_token(stream, joint(':'));
    push_token(stream, punct(':'));
    push_token(stream, ident(item));
    push_token(stream, joint(':'));
    push_token(stream, punct(':'));
    push_token(stream, ident(variant));
}

/// The tokens of `ndjsonloggercore::<item>::<variant>(<arguments>)`.
fn new_core_call(item: &str, variant: &str, arguments: Vec<Token>) -> (res: Vec<Token>)
    ensures
        trees(res@) == core_call(item@, variant@, trees(arguments@)),
{
    let mut stream: Vec<Token> = Vec::new();
    push_core_path(&mut stream, item, variant);
    push_token(&mut stream, group(Delimiter::Parenthesis, arguments));
    stream
}

/// Appends ` as <cast>` to an expression, where there is a cast.
fn push_cast(expr: &mut Vec<Token>, cast: Option<&str>)
    ensures
        trees(final(expr)@) == widened(trees(old(expr)@), cast_text(cast)),
{
    if let Some(target) = cast {
        push_token(expr, ident("as"));
        push_token(expr, ident(target));
    }
}

/// Appends `.<name>(<arguments>)` to an expression.
fn push_method_call(expr: &mut Vec<Token>, name: &str, arguments: Vec<Token>)
    ensures
        trees(final(expr)@) == trees(old(expr)@) + method_call(name@, trees(arguments@)),
{
    push_token(expr, punct('.'));
    push_token(expr, ident(name));
    push_token(expr, group(Delimiter::Parenthesis, arguments));
}

/// The tokens of `|<parameter>| <body>`.
fn new_closure(parameter: &str, body: Vec<Token>) -> (res: Vec<Token>)
    ensures
        trees(res@) == closure(parameter@, trees(body@)),
{
    let mut stream: Vec<Token> = Vec::new();
    push_token(&mut stream, punct('|'));
    push_token(&mut stream, ident(parameter));
    push_token(&mut stream, punct('|'));
    extend_tokens(&mut stream, body.as_slice());
    stream
}

/// The tokens of the closure that wraps a string in its atom.
fn new_string_closure() -> (res: Vec<Token>)
    ensures
        trees(res@) == string_closure(),
{
    let mut s_ident: Vec<Token> = Vec::new();
    push_token(&mut s_ident, ident("s"));
    assert(trees(s_ident@) =~= seq![TokenTree::Ident("s"@)]);
    new_closure("s", new_core_call("Atom", "String", s_ident))
}

/// The tokens of the closure that reads a primitive value through its
/// reference, widens it and wraps it in its atom.
fn new_primitive_closure(atom_type: &str, primative_cast: Option<&str>) -> (res: Vec<Token>)
    ensures
        trees(res@) == primitive_closure(atom_type@, cast_text(primative_cast)),
{
    let mut p_ident: Vec<Token> = Vec::new();
    push_token(&mut p_ident, punct('*'));
    push_token(&mut p_ident, ident("p"));
    assert(trees(p_ident@) =~= seq![
        TokenTree::Punct('*', Spacing::Alone),
        TokenTree::Ident("p"@),
    ]);
    push_cast(&mut p_ident, primative_cast);
    new_closure("p", new_core_call("Atom", atom_type, p_ident))
}

/// The tokens of `<value>.map(<mapper>)`.
fn new_mapped_option(value_tts: &[Token], map_fn: Vec<Token>) -> (res: Vec<Token>)
    ensures
        trees(res@) == mapped_option(trees(value_tts@), trees(map_fn@)),
{
    let mut option: Vec<Token> = Vec::new();
    extend_tokens(&mut option, value_tts);
    push_method_call(&mut option, "map", map_fn);
    option
}

/// The tokens of `&mut <value>.iter().map(<mapper>)`.
fn new_mapped_elements(value_tts: &[Token], map_fn: Vec<Token>) -> (res: Vec<Token>)
    ensures
        trees(res@) == mapped_elements(trees(value_tts@), trees(map_fn@)),
{
    let mut iter: Vec<Token> = Vec::new();
    push_token(&mut iter, punct('&'));
    push_token(&mut iter, ident("mut"));
    extend_tokens(&mut iter, value_tts);
    let no_arguments: Vec<Token> = Vec::new();
    assert(trees(no_arguments@) =~= Seq::empty());
    push_method_call(&mut iter, "iter", no_arguments);
    push_method_call(&mut iter, "map", map_fn);
    iter
}

fn entry_opt_str(value_tts: &[Token]) -> (res: Vec<Token>)
    ensures
        trees(res@) == ValueTree::Optatom(AtomType::String, trees(value_tts@)).tokens(),
{
    let map_fn = new_string_closure();
    let str_option = new_mapped_option(value_tts, map_fn);
    new_core_call("Value", "Optatom", str_option)
}

fn entry_opt_primative(atom_type: &str, primative_cast: Option<&str>, value_tts: &[Token]) -> (res:
    Vec<Token>)
    ensures
        trees(res@) == core_call(
            "Value"@,
            "Optatom"@,
            mapped_option(
                trees(value_tts@),
                primitive_closure(atom_type@, cast_text(primative_cast)),
            ),
        ),
{
    let map_fn = new_primitive_closure(atom_type, primative_cast);
    let option = new_mapped_option(value_tts, map_fn);
    new_core_call("Value", "Optatom", option)
}

fn entry_str(value_tts: &[Token]) -> (res: Vec<Token>)
    ensures
        trees(res@) == ValueTree::Atom(AtomType::String, trees(value_tts@)).tokens(),
{
    let mut s_ident: Vec<Token> = Vec::new();
    extend_tokens(&mut s_ident, value_tts);
    let atom_str = new_core_call("Atom", "String", s_ident);
    new_core_call("Value", "Atom", atom_str)
}

fn entry_primative(atom_type: &str, primative_cast: Option<&str>, value_tts: &[Token]) -> (res:
    Vec<Token>)
    ensures
        trees(res@) == core_call(
            "Value"@,
            "Atom"@,
            core_call("Atom"@, atom_type@, widened(trees(value_tts@), cast_text(primative_cast))),
        ),
{
    let mut p_ident: Vec<Token> = Vec::new();
    extend_tokens(&mut p_ident, value_tts);
    push_cast(&mut p_ident, primative_cast);
    let atom_str = new_core_call("Atom", atom_type, p_ident);
    new_core_call("Value", "Atom", atom_str)
}

fn entry_str_array(value_tts: &[Token]) -> (res: Vec<Token>)
    ensures
        trees(res@) == ValueTree::Array(AtomType::String, trees(value_tts@)).tokens(),
{
    let map_fn = new_string_closure();
    let iter = new_mapped_elements(value_tts, map_fn);
    new_core_call("Value", "Array", iter)
}

fn entry_primative_array(
    atom_type: &str,
    primative_cast: Option<&str>,
    value_tts: &[Token],
) -> (res: Vec<Token>)
    ensures
        trees(res@) == core_call(
            "Value"@,
            "Array"@,
            mapped_elements(
                trees(value_tts@),
                primitive_closure(atom_type@, cast_text(primative_cast)),
            ),
        ),
{
    let map_fn = new_primitive_closure(atom_type, primative_cast);
    let iter = new_mapped_elements(value_tts, map_fn);
    new_core_call("Value", "Array", iter)
}

/// Builds the expression for the value of a scalar entry: an atom, or an
/// optional atom where the type is optional.
pub fn build_entry_value(entry_type: EntryType, value_tts: &[Token]) -> (res: Vec<Token>)
    ensures
        trees(res@) == scalar_tree(entry_type, trees(value_tts@)).tokens(),
{
    match (entry_type.is_opt(), entry_type.is_str()) {
        (true, true) => entry_opt_str(value_tts),
        (true, false) => {
            let (atom_type, primative_cast) = entry_type.atom_type();
            entry_opt_primative(atom_type, primative_cast, value_tts)
        },
        (false, true) => entry_str(value_tts),
        (false, false) => {
            let (atom_type, primative_cast) = entry_type.atom_type();
            entry_primative(atom_type, primative_cast, value_tts)
        },
    }
}

/// Builds the expression for the value of an array entry. An optional type
/// is rejected: the elements of an array are always there.
pub fn build_entry_value_array(entry_type: EntryType, value_tts: &[Token]) -> (res: Result<
    Vec<Token>,
    LogError,
>)
    ensures
        match res {
            Ok(stream) => array_tree(entry_type, trees(value_tts@)) matches Some(tree)
                && trees(stream@) == tree.tokens(),
            Err(e) => array_tree(entry_type, trees(value_tts@)) is None && e
                == LogError::OptionalArray,
        },
{
    match (entry_type.is_opt(), entry_type.is_str()) {
        (true, _) => Err(LogError::OptionalArray),
        (false, true) => Ok(entry_str_array(value_tts)),
        (false, false) => {
            let (atom_type, primative_cast) = entry_type.atom_type();
            Ok(entry_primative_array(atom_type, primative_cast, value_tts))
        },
    }
}

} // verus!
