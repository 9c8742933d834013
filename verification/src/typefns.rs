//! Type annotations: which ones are recognised, and what each one means for
//! the value that is logged.

use vstd::prelude::*;
use crate::error::LogError;
use crate::token::{lemma_trees_subrange, trees, Spacing, Token, TokenTree};

verus! {

/// The kinds of value that a record carries. Every supported type is
/// logged as one of these.
#[derive(Clone, Copy, PartialEq, Eq, Structural, Debug)]
pub enum AtomKind {
    /// Text.
    String,
    /// A signed integer of 64 bits.
    Int,
    /// An unsigned integer of 64 bits.
    Uint,
    /// A truth value.
    Bool,
}

impl AtomKind {
    /// The name of the atom variant that carries a value of this kind.
    pub open spec fn name(self) -> Seq<char> {
        match self {
            AtomKind::String => "String"@,
            AtomKind::Int => "Int"@,
            AtomKind::Uint => "Uint"@,
            AtomKind::Bool => "Bool"@,
        }
    }
}

/// The primitive types that an entry can be annotated with.
#[derive(Clone, Copy, PartialEq, Eq, Structural, Debug)]
pub enum AtomType {
    /// `&str`
    String,
    /// `u64`
    U64,
    /// `i64`
    I64,
    /// `u32`
    U32,
    /// `i32`
    I32,
    /// `u16`
    U16,
    /// `i16`
    I16,
    /// `u8`
    U8,
    /// `i8`
    I8,
    /// `usize`
    Usize,
    /// `bool`
    Bool,
}

impl AtomType {
    /// The kind of value that this type is logged as.
    pub open spec fn kind(self) -> AtomKind {
        match self {
            AtomType::String => AtomKind::String,
            AtomType::U64
            | AtomType::U32
            | AtomType::U16
            | AtomType::U8
            | AtomType::Usize => AtomKind::Uint,
            AtomType::I64 | AtomType::I32 | AtomType::I16 | AtomType::I8 => AtomKind::Int,
            AtomType::Bool => AtomKind::Bool,
        }
    }

    /// The name of the atom variant that carries a value of this type.
    pub open spec fn wire_variant(self) -> Seq<char> {
        self.kind().name()
    }

    /// The 64-bit type that a narrower integer is widened to before it is
    /// wrapped; none for types that are stored as they are.
    pub open spec fn widening_cast(self) -> Option<Seq<char>> {
        match self {
            AtomType::U32 | AtomType::U16 | AtomType::U8 | AtomType::Usize => Some("u64"@),
            AtomType::I32 | AtomType::I16 | AtomType::I8 => Some("i64"@),
            AtomType::String | AtomType::U64 | AtomType::I64 | AtomType::Bool => None,
        }
    }

    /// The atom variant and the widening cast for this type.
    pub fn atom_type(self) -> (res: (&'static str, Option<&'static str>))
        ensures
            res.0@ == self.wire_variant(),
            match res.1 {
                Some(cast) => self.widening_cast() == Some(cast@),
                None => self.widening_cast() is None,
            },
    {
        match self {
            AtomType::String => ("String", None),
            AtomType::U64 => ("Uint", None),
            AtomType::I64 => ("Int", None),
            AtomType::U32 => ("Uint", Some("u64")),
            AtomType::I32 => ("Int", Some("i64")),
            AtomType::U16 => ("Uint", Some("u64")),
            AtomType::I16 => ("Int", Some("i64")),
            AtomType::U8 => ("Uint", Some("u64")),
            AtomType::I8 => ("Int", Some("i64")),
            AtomType::Usize => ("Uint", Some("u64")),
            AtomType::Bool => ("Bool", None),
        }
    }
}

/// Whether the annotation is `&str`.
pub open spec fn is_str_ref(annotation: Seq<TokenTree>) -> bool {
    &&& annotation.len() == 2
    &&& annotation[0].is_punct('&')
    &&& annotation[1].is_ident("str"@)
}

/// Whether the annotation is the one identifier `name`.
pub open spec fn is_single_ident(annotation: Seq<TokenTree>, name: Seq<char>) -> bool {
    &&& annotation.len() == 1
    &&& annotation[0].is_ident(name)
}

/// The primitive type that the annotation spells, if any. The forms are
/// tried in a fixed order and the first that fits wins.
pub open spec fn atom_of(annotation: Seq<TokenTree>) -> Option<AtomType> {
    if is_str_ref(annotation) {
        Some(AtomType::String)
    } else if is_single_ident(annotation, "u64"@) {
        Some(AtomType::U64)
    } else if is_single_ident(annotation, "i64"@) {
        Some(AtomType::I64)
    } else if is_single_ident(annotation, "u32"@) {
        Some(AtomType::U32)
    } else if is_single_ident(annotation, "i32"@) {
        Some(AtomType::I32)
    } else if is_single_ident(annotation, "u16"@) {
        Some(AtomType::U16)
    } else if is_single_ident(annotation, "i16"@) {
        Some(AtomType::I16)
    } else if is_single_ident(annotation, "u8"@) {
        Some(AtomType::U8)
    } else if is_single_ident(annotation, "i8"@) {
        Some(AtomType::I8)
    } else if is_single_ident(annotation, "usize"@) {
        Some(AtomType::Usize)
    } else if is_single_ident(annotation, "bool"@) {
        Some(AtomType::Bool)
    } else {
        None
    }
}

/// What stands between `Option<` and the closing `>`, where the annotation
/// has that shape.
pub open spec fn option_inner(annotation: Seq<TokenTree>) -> Option<Seq<TokenTree>> {
    if annotation.len() >= 4 && annotation[0].is_ident("Option"@) && annotation[1].is_punct('<')
        && annotation[annotation.len() - 1].is_punct('>') {
        Some(annotation.subrange(2, annotation.len() - 1))
    } else {
        None
    }
}

/// The type that an annotation resolves to, if it is recognised: one level
/// of `Option<..>` is taken off, and what is left must spell a primitive type.
pub open spec fn resolve(annotation: Seq<TokenTree>) -> Option<EntryType> {
    match option_inner(annotation) {
        Some(inner) => match atom_of(inner) {
            Some(atom_type) => Some(EntryType { atom_type, opt: true }),
            None => None,
        },
        None => match atom_of(annotation) {
            Some(atom_type) => Some(EntryType { atom_type, opt: false }),
            None => None,
        },
    }
}

/// The four kinds have four different names.
pub proof fn lemma_kind_names_differ(a: AtomKind, b: AtomKind)
    ensures
        a.name() == b.name() <==> a == b,
{
    reveal_strlit("String");
    reveal_strlit("Bool");
    reveal_strlit("Uint");
    reveal_strlit("Int");
    assert("String"@[0] == 'S' && "Bool"@[0] == 'B' && "Uint"@[0] == 'U' && "Int"@[0] == 'I');
}

/// Widening never changes what kind of number a value is: only unsigned
/// types are widened, and then to `u64`; only signed ones, and then to
/// `i64`; and there is no other cast. Strings, booleans and the two 64-bit
/// types are stored as they are.
pub proof fn lemma_widening_keeps_kind(atom_type: AtomType)
    ensures
        atom_type.widening_cast() == Some("u64"@) ==> atom_type.kind() == AtomKind::Uint,
        atom_type.widening_cast() == Some("i64"@) ==> atom_type.kind() == AtomKind::Int,
        atom_type.widening_cast() is None || atom_type.widening_cast() == Some("u64"@)
            || atom_type.widening_cast() == Some("i64"@),
        atom_type.kind() == AtomKind::String || atom_type.kind() == AtomKind::Bool
            ==> atom_type.widening_cast() is None,
        atom_type.widening_cast() is None <==> atom_type == AtomType::String || atom_type
            == AtomType::U64 || atom_type == AtomType::I64 || atom_type == AtomType::Bool,
{
    reveal_strlit("u64");
    reveal_strlit("i64");
    assert("u64"@[0] != "i64"@[0]);
}

/// An annotation `Option<T>` resolves to the optional type of `T` for every
/// primitive type `T`, and to nothing where `T` is not recognised: the
/// wrapper is taken off once and never twice.
pub proof fn lemma_option_annotation(inner: Seq<TokenTree>, open: Spacing, close: Spacing)
    ensures
        resolve(
            seq![TokenTree::Ident("Option"@), TokenTree::Punct('<', open)] + inner
                + seq![TokenTree::Punct('>', close)],
        ) == match atom_of(inner) {
            Some(atom_type) => Some(EntryType { atom_type, opt: true }),
            None => None,
        },
{
    let annotation = seq![TokenTree::Ident("Option"@), TokenTree::Punct('<', open)] + inner
        + seq![TokenTree::Punct('>', close)];
    assert(annotation.len() == inner.len() + 3);
    assert(annotation[0] == TokenTree::Ident("Option"@));
    assert(annotation[1] == TokenTree::Punct('<', open));
    assert(annotation[annotation.len() - 1] == TokenTree::Punct('>', close));
    assert(annotation.subrange(2, annotation.len() - 1) =~= inner);
}

/// A recognised annotation holds no `=`.
pub proof fn lemma_resolved_has_no_assign(annotation: Seq<TokenTree>)
    requires
        resolve(annotation) is Some,
    ensures
        forall|j: int| 0 <= j < annotation.len() ==> !(#[trigger] annotation[j]).is_punct('='),
{
    assert forall|j: int| 0 <= j < annotation.len() implies !(#[trigger] annotation[j]).is_punct(
        '=',
    ) by {
        match option_inner(annotation) {
            Some(inner) => {
                if 2 <= j < annotation.len() - 1 {
                    assert(annotation[j] == inner[j - 2]);
                }
            },
            None => {},
        }
    }
}

fn type_fn_string(tts: &[Token]) -> (res: bool)
    ensures
        res == is_str_ref(trees(tts@)),
{
    tts.len() == 2 && tts[0].is_punct('&') && tts[1].is_ident("str")
}

fn type_fn_single_ident(tts: &[Token], ident_str: &str) -> (res: bool)
    ensures
        res == is_single_ident(trees(tts@), ident_str@),
{
    tts.len() == 1 && tts[0].is_ident(ident_str)
}

fn type_fn_u64(tts: &[Token]) -> (res: bool)
    ensures
        res == is_single_ident(trees(tts@), "u64"@),
{
    type_fn_single_ident(tts, "u64")
}

fn type_fn_i64(tts: &[Token]) -> (res: bool)
    ensures
        res == is_single_ident(trees(tts@), "i64"@),
{
    type_fn_single_ident(tts, "i64")
}

fn type_fn_u32(tts: &[Token]) -> (res: bool)
    ensures
        res == is_single_ident(trees(tts@), "u32"@),
{
    type_fn_single_ident(tts, "u32")
}

fn type_fn_i32(tts: &[Token]) -> (res: bool)
    ensures
        res == is_single_ident(trees(tts@), "i32"@),
{
    type_fn_single_ident(tts, "i32")
}

fn type_fn_u16(tts: &[Token]) -> (res: bool)
    ensures
        res == is_single_ident(trees(tts@), "u16"@),
{
    type_fn_single_ident(tts, "u16")
}

fn type_fn_i16(tts: &[Token]) -> (res: bool)
    ensures
        res == is_single_ident(trees(tts@), "i16"@),
{
    type_fn_single_ident(tts, "i16")
}

fn type_fn_u8(tts: &[Token]) -> (res: bool)
    ensures
        res == is_single_ident(trees(tts@), "u8"@),
{
    type_fn_single_ident(tts, "u8")
}

fn type_fn_i8(tts: &[Token]) -> (res: bool)
    ensures
        res == is_single_ident(trees(tts@), "i8"@),
{
    type_fn_single_ident(tts, "i8")
}

fn type_fn_usize(tts: &[Token]) -> (res: bool)
    ensures
        res == is_single_ident(trees(tts@), "usize"@),
{
    type_fn_single_ident(tts, "usize")
}

fn type_fn_bool(tts: &[Token]) -> (res: bool)
    ensures
        res == is_single_ident(trees(tts@), "bool"@),
{
    type_fn_single_ident(tts, "bool")
}

/// The primitive type that the tokens spell, trying the forms in their
/// fixed order.
fn type_fn_atom(tts: &[Token]) -> (res: Option<AtomType>)
    ensures
        res == atom_of(trees(tts@)),
{
    if type_fn_string(tts) {
        Some(AtomType::String)
    } else if type_fn_u64(tts) {
        Some(AtomType::U64)
    } else if type_fn_i64(tts) {
        Some(AtomType::I64)
    } else if type_fn_u32(tts) {
        Some(AtomType::U32)
    } else if type_fn_i32(tts) {
        Some(AtomType::I32)
    } else if type_fn_u16(tts) {
        Some(AtomType::U16)
    } else if type_fn_i16(tts) {
        Some(AtomType::I16)
    } else if type_fn_u8(tts) {
        Some(AtomType::U8)
    } else if type_fn_i8(tts) {
        Some(AtomType::I8)
    } else if type_fn_usize(tts) {
        Some(AtomType::Usize)
    } else if type_fn_bool(tts) {
        Some(AtomType::Bool)
    } else {
        None
    }
}

/// The tokens inside `Option<` .. `>`, where the annotation has that shape.
fn type_fn_opt(tts: &[Token]) -> (res: Option<&[Token]>)
    ensures
        match res {
            Some(inner) => option_inner(trees(tts@)) == Some(trees(inner@)),
            None => option_inner(trees(tts@)) is None,
        },
{
    if tts.len() < 4 {
        return None;
    }
    if tts[0].is_ident("Option") && tts[1].is_punct('<') && tts[tts.len() - 1].is_punct('>') {
        proof {
            lemma_trees_subrange(tts@, 2, tts.len() - 1);
        }
        Some(&tts[2..(tts.len() - 1)])
    } else {
        None
    }
}

/// The resolved type of an entry: a primitive type, optional or not.
#[derive(Clone, Copy, PartialEq, Eq, Structural, Debug)]
pub struct EntryType {
    /// The primitive type of the value.
    pub atom_type: AtomType,
    /// Whether the value may be absent.
    pub opt: bool,
}

impl EntryType {
    /// The type of an entry without annotation: a string that is always there.
    pub fn new() -> (res: Self)
        ensures
            res == (EntryType { atom_type: AtomType::String, opt: false }),
    {
        Self { atom_type: AtomType::String, opt: false }
    }

    /// Resolves a type annotation. An annotation that spells none of the
    /// supported types is an error: there is no fallback.
    pub fn from_type(tts: &[Token]) -> (res: Result<Self, LogError>)
        ensures
            match res {
                Ok(entry_type) => resolve(trees(tts@)) == Some(entry_type),
                Err(e) => resolve(trees(tts@)) is None && e == LogError::UnrecognisedType,
            },
    {
        match type_fn_opt(tts) {
            Some(inner) => match type_fn_atom(inner) {
                Some(atom_type) => Ok(Self { atom_type, opt: true }),
                None => Err(LogError::UnrecognisedType),
            },
            None => match type_fn_atom(tts) {
                Some(atom_type) => Ok(Self { atom_type, opt: false }),
                None => Err(LogError::UnrecognisedType),
            },
        }
    }

    /// Whether the value may be absent.
    pub fn is_opt(self) -> (res: bool)
        ensures
            res == self.opt,
    {
        self.opt
    }

    /// Whether the value is a string.
    pub fn is_str(self) -> (res: bool)
        ensures
            res == (self.atom_type == AtomType::String),
    {
        self.atom_type == AtomType::String
    }

    /// The atom variant and the widening cast for a value of this type.
    pub fn atom_type(self) -> (res: (&'static str, Option<&'static str>))
        ensures
            res.0@ == self.atom_type.wire_variant(),
            match res.1 {
                Some(cast) => self.atom_type.widening_cast() == Some(cast@),
                None => self.atom_type.widening_cast() is None,
            },
    {
        self.atom_type.atom_type()
    }
}

} // verus!
