//! Lexical tokens, and the mathematical trees that contracts speak of.

use vstd::prelude::*;
use vstd::string::StringExecFns;

verus! {

/// The bracket pair that encloses a group of tokens.
#[derive(Clone, Copy, PartialEq, Eq, Structural, Debug)]
pub enum Delimiter {
    /// `( ... )`
    Parenthesis,
    /// `{ ... }`
    Brace,
    /// `[ ... ]`
    Bracket,
    /// A group without visible brackets.
    Invisible,
}

/// Whether a punctuation character is glued to the one that follows it.
#[derive(Clone, Copy, PartialEq, Eq, Structural, Debug)]
pub enum Spacing {
    /// The character stands by itself.
    Alone,
    /// The character forms one operator with the next one, as the first `:` of `::`.
    Joint,
}

/// One lexical token. A group is a single token, whatever it encloses.
#[derive(Debug, PartialEq, Eq)]
pub enum Token {
    /// An identifier or keyword, by its name.
    Ident(String),
    /// One punctuation character.
    Punct(char, Spacing),
    /// A literal, by its source text (a string literal includes its quotes).
    Literal(String),
    /// A delimited group and the tokens inside it.
    Group(Delimiter, Vec<Token>),
}

/// The mathematical value of a [`Token`]: the same four kinds, with
/// sequences of characters for strings and a sequence of trees for what a
/// group encloses.
pub enum TokenTree {
    /// An identifier or keyword, by its name.
    Ident(Seq<char>),
    /// One punctuation character.
    Punct(char, Spacing),
    /// A literal, by its source text.
    Literal(Seq<char>),
    /// A delimited group and the trees inside it.
    Group(Delimiter, Seq<TokenTree>),
}

impl TokenTree {
    /// Whether this is the punctuation character `c`, with either spacing.
    pub open spec fn is_punct(self, c: char) -> bool {
        self matches TokenTree::Punct(ch, _) && ch == c
    }

    /// Whether this is the identifier spelled `name`.
    pub open spec fn is_ident(self, name: Seq<char>) -> bool {
        self == TokenTree::Ident(name)
    }
}

/// The tree that a token stands for. (Beyond the end of a group there is no
/// token; the placeholder given there is never looked at.)
pub open spec fn tree(token: Token) -> TokenTree
    decreases token,
{
    match token {
        Token::Ident(name) => TokenTree::Ident(name@),
        Token::Punct(c, spacing) => TokenTree::Punct(c, spacing),
        Token::Literal(text) => TokenTree::Literal(text@),
        Token::Group(delimiter, inner) => TokenTree::Group(
            delimiter,
            Seq::new(
                inner.len() as nat,
                |i: int|
                    if 0 <= i < inner.len() {
                        tree(inner[i])
                    } else {
                        TokenTree::Punct(' ', Spacing::Alone)
                    },
            ),
        ),
    }
}

impl View for Token {
    type V = TokenTree;

    open spec fn view(&self) -> TokenTree {
        tree(*self)
    }
}

/// The trees of a sequence of tokens, in order.
pub open spec fn trees(tokens: Seq<Token>) -> Seq<TokenTree> {
    tokens.map_values(|t: Token| t@)
}

/// The trees of each of several token streams, in order.
pub open spec fn stream_trees(streams: Seq<Vec<Token>>) -> Seq<Seq<TokenTree>> {
    streams.map_values(|stream: Vec<Token>| trees(stream@))
}

/// The view of a group is the group of the views of its tokens.
pub proof fn lemma_group_view(delimiter: Delimiter, inner: Vec<Token>)
    ensures
        Token::Group(delimiter, inner)@ == TokenTree::Group(delimiter, trees(inner@)),
{
    reveal_with_fuel(tree, 2);
    let t = Token::Group(delimiter, inner);
    assert(t@->Group_1 =~= trees(inner@));
}

impl Clone for Token {
    /// A deep copy: the same tree, in fresh storage.
    fn clone(&self) -> (res: Self)
        ensures
            res@ == self@,
        decreases self,
    {
        match self {
            Token::Ident(name) => Token::Ident(name.clone()),
            Token::Punct(c, spacing) => Token::Punct(*c, *spacing),
            Token::Literal(text) => Token::Literal(text.clone()),
            Token::Group(delimiter, inner) => {
                let mut copy: Vec<Token> = Vec::new();
                let mut i: usize = 0;
                while i < inner.len()
                    invariant
                        i <= inner.len(),
                        copy.len() == i,
                        forall|j: int| 0 <= j < i ==> copy[j]@ == inner[j]@,
                        *self == Token::Group(*delimiter, *inner),
                    decreases inner.len() - i,
                {
                    assert(decreases_to!(self => self->Group_1));
                    copy.push(inner[i].clone());
                    i += 1;
                }
                proof {
                    assert(trees(copy@) =~= trees(inner@));
                    lemma_group_view(*delimiter, copy);
                    lemma_group_view(*delimiter, *inner);
                }
                Token::Group(*delimiter, copy)
            },
        }
    }
}

impl Token {
    /// Whether this token is the punctuation character `c`, with either spacing.
    pub fn is_punct(&self, c: char) -> (res: bool)
        ensures
            res == self@.is_punct(c),
    {
        match self {
            Token::Punct(ch, _) => *ch == c,
            _ => false,
        }
    }

    /// Whether this token is the identifier spelled `name`.
    pub fn is_ident(&self, name: &str) -> (res: bool)
        ensures
            res == self@.is_ident(name@),
    {
        match self {
            Token::Ident(own) => {
                let wanted = String::from_str(name);
                *own == wanted
            },
            _ => false,
        }
    }
}

/// Appending a token appends its tree.
pub proof fn lemma_trees_push(tokens: Seq<Token>, token: Token)
    ensures
        trees(tokens.push(token)) == trees(tokens).push(token@),
{
}

/// Taking a part of a token run and taking its trees commute.
pub proof fn lemma_trees_subrange(tokens: Seq<Token>, from: int, to: int)
    requires
        0 <= from <= to <= tokens.len(),
    ensures
        trees(tokens.subrange(from, to)) == trees(tokens).subrange(from, to),
{
}

/// The identifier `name`.
pub fn ident(name: &str) -> (res: Token)
    ensures
        res@ == TokenTree::Ident(name@),
{
    Token::Ident(String::from_str(name))
}

/// The punctuation character `c` standing by itself.
pub fn punct(c: char) -> (res: Token)
    ensures
        res@ == TokenTree::Punct(c, Spacing::Alone),
{
    Token::Punct(c, Spacing::Alone)
}

/// The punctuation character `c` glued to the character after it.
pub fn joint(c: char) -> (res: Token)
    ensures
        res@ == TokenTree::Punct(c, Spacing::Joint),
{
    Token::Punct(c, Spacing::Joint)
}

/// The literal with source text `text`.
pub fn literal(text: &str) -> (res: Token)
    ensures
        res@ == TokenTree::Literal(text@),
{
    Token::Literal(String::from_str(text))
}

/// The group that encloses `inner` in the given brackets.
pub fn group(delimiter: Delimiter, inner: Vec<Token>) -> (res: Token)
    ensures
        res@ == TokenTree::Group(delimiter, trees(inner@)),
{
    proof {
        lemma_group_view(delimiter, inner);
    }
    Token::Group(delimiter, inner)
}

/// Appends one token to a stream.
pub fn push_token(stream: &mut Vec<Token>, token: Token)
    ensures
        trees(final(stream)@) == trees(old(stream)@).push(token@),
{
    proof {
        lemma_trees_push(stream@, token);
    }
    stream.push(token);
}

/// Appends copies of `tokens` to a stream, in order.
pub fn extend_tokens(stream: &mut Vec<Token>, tokens: &[Token])
    ensures
        trees(final(stream)@) == trees(old(stream)@) + trees(tokens@),
{
    let mut i: usize = 0;
    while i < tokens.len()
        invariant
            i <= tokens.len(),
            trees(stream@) == trees(old(stream)@) + trees(tokens@).take(i as int),
        decreases tokens.len() - i,
    {
        proof {
            lemma_trees_push(stream@, tokens[i as int]);
            assert(trees(tokens@).take(i + 1) =~= trees(tokens@).take(i as int).push(
                tokens[i as int]@,
            ));
        }
        let copy = tokens[i].clone();
        stream.push(copy);
        i += 1;
    }
}

/// Copies a run of tokens.
pub fn clone_tokens(tokens: &[Token]) -> (res: Vec<Token>)
    ensures
        trees(res@) == trees(tokens@),
{
    let mut res: Vec<Token> = Vec::new();
    let mut i: usize = 0;
    while i < tokens.len()
        invariant
            i <= tokens.len(),
            res.len() == i,
            forall|j: int| 0 <= j < i ==> res[j]@ == tokens[j]@,
        decreases tokens.len() - i,
    {
        res.push(tokens[i].clone());
        i += 1;
    }
    res
}

} // verus!
