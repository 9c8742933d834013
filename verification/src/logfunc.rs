//! The record of one log call, and the call expression that emits it.

use vstd::prelude::*;
use crate::token::{
    clone_tokens, extend_tokens, group, ident, joint, punct, push_token, stream_trees, trees,
    Delimiter, Spacing, Token, TokenTree,
};

verus! {

/// One entry of the record: `ndjsonloggercore::Entry { <fields> }`.
pub open spec fn wrapped_entry(fields: Seq<TokenTree>) -> Seq<TokenTree> {
    seq![
        TokenTree::Ident("ndjsonloggercore"@),
        TokenTree::Punct(':', Spacing::Joint),
        TokenTree::Punct(':', Spacing::Alone),
        TokenTree::Ident("Entry"@),
        TokenTree::Group(Delimiter::Brace, fields),
    ]
}

/// The entries of the record, each wrapped, in their order, with a comma
/// between one and the next.
pub open spec fn joined_entries(entries: Seq<Seq<TokenTree>>) -> Seq<TokenTree>
    decreases entries.len(),
{
    if entries.len() == 0 {
        Seq::empty()
    } else if entries.len() == 1 {
        wrapped_entry(entries[0])
    } else {
        joined_entries(entries.drop_last()) + seq![TokenTree::Punct(',', Spacing::Alone)]
            + wrapped_entry(entries.last())
    }
}

/// The entries stand in the record in the order in which they were given,
/// each one once: with `n` entries the list holds `6 * n - 1` tokens, the
/// five tokens from index `6 * i` on are entry `i`, wrapped, and a comma
/// stands before each entry but the first.
pub proof fn lemma_joined_entries_order(entries: Seq<Seq<TokenTree>>, i: int)
    requires
        0 <= i < entries.len(),
    ensures
        joined_entries(entries).len() == 6 * entries.len() - 1,
        joined_entries(entries).subrange(6 * i, 6 * i + 5) == wrapped_entry(entries[i]),
        i > 0 ==> joined_entries(entries)[6 * i - 1] == TokenTree::Punct(',', Spacing::Alone),
    decreases entries.len(),
{
    let n: int = entries.len() as int;
    if n == 1 {
        assert(joined_entries(entries).subrange(0, 5) =~= wrapped_entry(entries[0]));
    } else {
        let front = entries.drop_last();
        lemma_joined_entries_order(front, 0);
        let all = joined_entries(entries);
        if i < n - 1 {
            lemma_joined_entries_order(front, i);
            assert(all.subrange(6 * i, 6 * i + 5) =~= joined_entries(front).subrange(
                6 * i,
                6 * i + 5,
            ));
            assert(front[i] == entries[i]);
            if i > 0 {
                assert(all[6 * i - 1] == joined_entries(front)[6 * i - 1]);
            }
        } else {
            assert(all.subrange(6 * i, 6 * i + 5) =~= wrapped_entry(entries.last()));
        }
    }
}

/// What one log call records: the message as a string literal, the tokens
/// that name the level, and the fields of each entry in the order in which
/// the entries were written.
pub struct LogRecord {
    /// The source text of the message literal.
    pub message: Seq<char>,
    /// The tokens that name the level.
    pub level: Seq<TokenTree>,
    /// The fields of each entry, in the order of the call.
    pub entries: Seq<Seq<TokenTree>>,
}

impl LogRecord {
    /// The arguments of the call that emits the record:
    /// `<message>, <level>, [<entries>].into_iter()`.
    pub open spec fn arguments(self) -> Seq<TokenTree> {
        seq![TokenTree::Literal(self.message), TokenTree::Punct(',', Spacing::Alone)] + self.level
            + seq![
            TokenTree::Punct(',', Spacing::Alone),
            TokenTree::Group(Delimiter::Bracket, joined_entries(self.entries)),
            TokenTree::Punct('.', Spacing::Alone),
            TokenTree::Ident("into_iter"@),
            TokenTree::Group(Delimiter::Parenthesis, Seq::empty()),
        ]
    }

    /// The call that emits the record: `ndjsonloggercore::stdout_log(<arguments>)`.
    pub open spec fn tokens(self) -> Seq<TokenTree> {
        seq![
            TokenTree::Ident("ndjsonloggercore"@),
            TokenTree::Punct(':', Spacing::Joint),
            TokenTree::Punct(':', Spacing::Alone),
            TokenTree::Ident("stdout_log"@),
            TokenTree::Group(Delimiter::Parenthesis, self.arguments()),
        ]
    }

    /// The record with one more entry after those it has.
    pub open spec fn with_entry(self, fields: Seq<TokenTree>) -> LogRecord {
        LogRecord { entries: self.entries.push(fields), ..self }
    }
}

/// The record of a log call while it is put together.
pub struct LogFunction {
    /// The tokens that name the level.
    pub level: Vec<Token>,
    /// The source text of the message literal.
    pub msg: String,
    /// The fields of each entry added so far, in the order added.
    pub entries: Vec<Vec<Token>>,
}

impl View for LogFunction {
    type V = LogRecord;

    open spec fn view(&self) -> LogRecord {
        LogRecord {
            message: self.msg@,
            level: trees(self.level@),
            entries: stream_trees(self.entries@),
        }
    }
}

impl LogFunction {
    /// A record without entries. `msg` is the source text of the message literal.
    pub fn new(level: Vec<Token>, msg: String) -> (res: Self)
        ensures
            res@ == (LogRecord { message: msg@, level: trees(level@), entries: Seq::empty() }),
    {
        let res = Self { level, msg, entries: Vec::new() };
        assert(stream_trees(res.entries@) =~= Seq::empty());
        res
    }

    /// The call expression that emits the record.
    pub fn into_token_stream(self) -> (res: Vec<Token>)
        ensures
            trees(res@) == self@.tokens(),
    {
        let mut stdout_log_args: Vec<Token> = Vec::new();

        // msg
        push_token(&mut stdout_log_args, Token::Literal(self.msg));
        push_token(&mut stdout_log_args, punct(','));

        // level
        extend_tokens(&mut stdout_log_args, self.level.as_slice());
        push_token(&mut stdout_log_args, punct(','));

        // entries
        let no_arguments: Vec<Token> = Vec::new();
        assert(trees(no_arguments@) =~= Seq::empty());
        push_token(&mut stdout_log_args, group(Delimiter::Bracket, entries_group(self.entries)));
        push_token(&mut stdout_log_args, punct('.'));
        push_token(&mut stdout_log_args, ident("into_iter"));
        push_token(&mut stdout_log_args, group(Delimiter::Parenthesis, no_arguments));
        assert(trees(stdout_log_args@) =~= self@.arguments());

        let mut out: Vec<Token> = Vec::new();
        push_token(&mut out, ident("ndjsonloggercore"));
        push_token(&mut out, joint(':'));
        push_token(&mut out, punct(':'));
        push_token(&mut out, ident("stdout_log"));
        push_token(&mut out, group(Delimiter::Parenthesis, stdout_log_args));
        out
    }

    /// Adds an entry after those that the record has.
    pub fn add_entry(&mut self, ts: Vec<Token>)
        ensures
            final(self)@ == old(self)@.with_entry(trees(ts@)),
    {
        proof {
            assert(stream_trees(self.entries@.push(ts)) =~= stream_trees(self.entries@).push(
                trees(ts@),
            ));
        }
        self.entries.push(ts);
    }
}

fn entries_group(entries: Vec<Vec<Token>>) -> (res: Vec<Token>)
    ensures
        trees(res@) == joined_entries(stream_trees(entries@)),
{
    let mut stream: Vec<Token> = Vec::new();
    let ghost all = stream_trees(entries@);
    let mut n: usize = 0;
    while n < entries.len()
        invariant
            n <= entries.len(),
            all == stream_trees(entries@),
            trees(stream@) == joined_entries(all.take(n as int)),
        decreases entries.len() - n,
    {
        let ghost before = trees(stream@);
        if n != 0 {
            push_token(&mut stream, punct(','));
        }
        push_token(&mut stream, ident("ndjsonloggercore"));
        push_token(&mut stream, joint(':'));
        push_token(&mut stream, punct(':'));
        push_token(&mut stream, ident("Entry"));
        push_token(&mut stream, group(Delimiter::Brace, clone_tokens(entries[n].as_slice())));
        proof {
            let upto = all.take(n + 1);
            assert(upto.drop_last() =~= all.take(n as int));
            assert(upto.last() == trees(entries[n as int]@));
            if n == 0 {
                assert(trees(stream@) =~= wrapped_entry(upto[0]));
            } else {
                assert(trees(stream@) =~= before + seq![TokenTree::Punct(',', Spacing::Alone)]
                    + wrapped_entry(upto.last()));
            }
        }
        n += 1;
    }
    assert(all.take(n as int) =~= all);
    stream
}

} // verus!
