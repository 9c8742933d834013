//! Front end of a structured logger: turns the token list of a log call into
//! the token list of the expression that builds and emits the record.

pub mod entryiter;
pub mod entryvaluebuilder;
pub mod error;
pub mod logfunc;
pub mod token;
pub mod typefns;

use vstd::prelude::*;
use crate::entryiter::{
    is_string_literal, parse_unit, split_units, string_literal_text, EntryIter, EntryLine,
    ParsedEntry,
};
use crate::entryvaluebuilder::{core_path, push_core_path};
use crate::error::LogError;
use crate::logfunc::{lemma_joined_entries_order, wrapped_entry, LogFunction, LogRecord};
use crate::token::{
    lemma_group_view, lemma_trees_subrange, trees, Delimiter, Token, TokenTree,
};

verus! {

/// The fields of every entry of a split entry list, in the order of the
/// list; where an entry is rejected, the error of the first that is.
pub open spec fn parse_entries(units: Seq<Seq<TokenTree>>) -> Result<Seq<Seq<TokenTree>>, LogError>
    decreases units.len(),
{
    if units.len() == 0 {
        Ok(Seq::empty())
    } else {
        match parse_unit(units[0]) {
            Err(e) => Err(e),
            Ok(p) => match parse_entries(units.drop_first()) {
                Err(e) => Err(e),
                Ok(rest) => Ok(seq![p.fields()] + rest),
            },
        }
    }
}

/// The entries come out in the order of the parts they were parsed from,
/// one for each part, equal keys or not: entry `i` holds the fields of part
/// `i`. Where a part is rejected nothing comes out, and the error is that of
/// the first part that is rejected.
pub proof fn lemma_parse_entries_order(units: Seq<Seq<TokenTree>>)
    ensures
        match parse_entries(units) {
            Ok(entries) => {
                &&& entries.len() == units.len()
                &&& forall|i: int|
                    0 <= i < units.len() ==> (#[trigger] parse_unit(units[i])) is Ok && entries[i]
                        == parse_unit(units[i])->Ok_0.fields()
            },
            Err(e) => exists|i: int|
                {
                    &&& 0 <= i < units.len()
                    &&& #[trigger] parse_unit(units[i]) == Err::<ParsedEntry, LogError>(e)
                    &&& forall|j: int| 0 <= j < i ==> (#[trigger] parse_unit(units[j])) is Ok
                },
        },
    decreases units.len(),
{
    if units.len() > 0 {
        let rest = units.drop_first();
        lemma_parse_entries_order(rest);
        match parse_unit(units[0]) {
            Err(e) => {
                assert(parse_unit(units[0]) == Err::<ParsedEntry, LogError>(e));
            },
            Ok(p) => match parse_entries(rest) {
                Err(e) => {
                    let i = choose|i: int|
                        {
                            &&& 0 <= i < rest.len()
                            &&& #[trigger] parse_unit(rest[i]) == Err::<ParsedEntry, LogError>(e)
                            &&& forall|j: int|
                                0 <= j < i ==> (#[trigger] parse_unit(rest[j])) is Ok
                        };
                    assert(rest[i] == units[i + 1]);
                    assert(parse_unit(units[i + 1]) == Err::<ParsedEntry, LogError>(e));
                    assert forall|j: int| 0 <= j < i + 1 implies (#[trigger] parse_unit(
                        units[j],
                    )) is Ok by {
                        if j > 0 {
                            assert(rest[j - 1] == units[j]);
                            assert(parse_unit(rest[j - 1]) is Ok);
                        }
                    }
                },
                Ok(tail) => {
                    let entries = parse_entries(units)->Ok_0;
                    assert forall|i: int| 0 <= i < units.len() implies (#[trigger] parse_unit(
                        units[i],
                    )) is Ok && entries[i] == parse_unit(units[i])->Ok_0.fields() by {
                        if i > 0 {
                            assert(rest[i - 1] == units[i]);
                            assert(parse_unit(rest[i - 1]) is Ok);
                            assert(entries[i] == tail[i - 1]);
                        }
                    }
                },
            },
        }
    }
}

/// A call in which any entry is rejected is rejected: no entry is left out
/// of a record that is emitted.
pub proof fn lemma_rejected_entry_rejects_call(
    tokens: Seq<TokenTree>,
    level: Seq<TokenTree>,
    i: int,
)
    requires
        tokens.len() >= 3,
        tokens[2] matches TokenTree::Group(Delimiter::Brace, _),
        0 <= i < split_units(tokens[2]->Group_1).len(),
        parse_unit(split_units(tokens[2]->Group_1)[i]) is Err,
    ensures
        expand(tokens, level) is Err,
{
    lemma_parse_entries_order(split_units(tokens[2]->Group_1));
}

/// From the call to the record the order of the entries is kept: the list
/// in the emitted call holds, for each part of the entry list and in the
/// same order, the wrapped fields of that part, and nothing else but the
/// commas between them.
pub proof fn lemma_entry_order(tokens: Seq<TokenTree>, level: Seq<TokenTree>, i: int)
    requires
        expand(tokens, level) is Ok,
        tokens.len() >= 3,
        0 <= i < split_units(tokens[2]->Group_1).len(),
    ensures
        ({
            let units = split_units(tokens[2]->Group_1);
            let call = expand(tokens, level)->Ok_0;
            let list = call[4]->Group_1[level.len() as int + 3]->Group_1;
            &&& list.len() == 6 * units.len() - 1
            &&& parse_unit(units[i]) is Ok
            &&& list.subrange(6 * i, 6 * i + 5) == wrapped_entry(
                parse_unit(units[i])->Ok_0.fields(),
            )
        }),
{
    let units = split_units(tokens[2]->Group_1);
    lemma_parse_entries_order(units);
    let entries = parse_entries(units)->Ok_0;
    lemma_joined_entries_order(entries, i);
}

/// The entries that follow the comma after the message: one group in
/// braces, which holds the entry list, and nothing after it.
pub open spec fn entries_after_comma(tokens: Seq<TokenTree>) -> Result<
    Seq<Seq<TokenTree>>,
    LogError,
> {
    if tokens.len() == 0 || !(tokens[0] matches TokenTree::Group(Delimiter::Brace, _)) {
        Err(LogError::MissingEntries)
    } else {
        match parse_entries(split_units(tokens[0]->Group_1)) {
            Err(e) => Err(e),
            Ok(entries) => if tokens.len() > 1 {
                Err(LogError::TrailingTokens)
            } else {
                Ok(entries)
            },
        }
    }
}

/// The expansion of a log call with the given level: the call that emits
/// the record, or the reason for which the call is rejected. The call is a
/// message, which must be a string literal, and then either nothing or a
/// comma and the entries in braces.
pub open spec fn expand(tokens: Seq<TokenTree>, level: Seq<TokenTree>) -> Result<
    Seq<TokenTree>,
    LogError,
> {
    if tokens.len() == 0 || !(tokens[0] matches TokenTree::Literal(text) && is_string_literal(
        text,
    )) {
        Err(LogError::MissingMessage)
    } else {
        let message = tokens[0]->Literal_0;
        let entries = if tokens.len() == 1 {
            Ok(Seq::empty())
        } else if !tokens[1].is_punct(',') {
            Err(LogError::UnexpectedAfterMessage)
        } else {
            entries_after_comma(tokens.skip(2))
        };
        match entries {
            Err(e) => Err(e),
            Ok(entries) => Ok((LogRecord { message, level, entries }).tokens()),
        }
    }
}

/// The tokens that name a level: `ndjsonloggercore::Level::<level>`.
fn build_log_level(level: &str) -> (res: Vec<Token>)
    ensures
        trees(res@) == core_path("Level"@, level@),
{
    let mut path: Vec<Token> = Vec::new();
    push_core_path(&mut path, "Level", level);
    path
}

/// Parses the entries of an entry list one after the other and adds each to
/// the record. The first entry that is rejected ends the work, and the
/// record is given up.
fn add_log_entries_from_group(ts: &[Token], log_function: LogFunction) -> (res: Result<
    LogFunction,
    LogError,
>)
    ensures
        match res {
            Ok(filled) => parse_entries(split_units(trees(ts@))) matches Ok(entries) && filled@
                == (LogRecord { entries: log_function@.entries + entries, ..log_function@ }),
            Err(e) => parse_entries(split_units(trees(ts@))) matches Err(pe) && pe == e,
        },
{
    let ghost start = log_function@;
    let ghost units = split_units(trees(ts@));
    let mut record = log_function;
    let mut it = EntryIter::new(ts);
    let ghost mut done: Seq<Seq<TokenTree>> = Seq::empty();
    loop
        invariant
            units == split_units(trees(ts@)),
            start == log_function@,
            record@ == (LogRecord { entries: start.entries + done, ..start }),
            parse_entries(units) == match parse_entries(it@) {
                Ok(rest) => Ok::<Seq<Seq<TokenTree>>, LogError>(done + rest),
                Err(e) => Err(e),
            },
        decreases it@.len(),
    {
        match it.next() {
            None => {
                return Ok(record);
            },
            Some(Err(e)) => {
                return Err(e);
            },
            Some(Ok(entry_line)) => {
                let args = match entry_line {
                    EntryLine::Entry(e) => e.into_entry_args(),
                    EntryLine::EntryArray(ea) => ea.into_entry_args(),
                };
                record.add_entry(args);
                proof {
                    let fields = trees(args@);
                    match parse_entries(it@) {
                        Ok(rest) => {
                            assert(done.push(fields) + rest =~= done + (seq![fields] + rest));
                        },
                        Err(_) => {},
                    }
                    done = done.push(fields);
                }
            },
        }
    }
}

/// Adds the entries that follow the comma after the message.
fn add_log_entries(it: &[Token], log_function: LogFunction) -> (res: Result<LogFunction, LogError>)
    ensures
        match res {
            Ok(filled) => entries_after_comma(trees(it@)) matches Ok(entries) && filled@
                == (LogRecord { entries: log_function@.entries + entries, ..log_function@ }),
            Err(e) => entries_after_comma(trees(it@)) matches Err(pe) && pe == e,
        },
{
    // We MUST have exactly one tt, a group in braces
    if it.len() == 0 {
        return Err(LogError::MissingEntries);
    }
    let filled = match &it[0] {
        Token::Group(Delimiter::Brace, inner) => {
            proof {
                lemma_group_view(Delimiter::Brace, *inner);
            }
            match add_log_entries_from_group(inner.as_slice(), log_function) {
                Ok(filled) => filled,
                Err(e) => {
                    return Err(e);
                },
            }
        },
        _ => {
            return Err(LogError::MissingEntries);
        },
    };
    if it.len() > 1 {
        return Err(LogError::TrailingTokens);
    }
    Ok(filled)
}

/// Expands a log call with the given level.
fn log(ts: &[Token], level: Vec<Token>) -> (res: Result<Vec<Token>, LogError>)
    ensures
        match res {
            Ok(out) => expand(trees(ts@), trees(level@)) matches Ok(expected) && trees(out@)
                == expected,
            Err(e) => expand(trees(ts@), trees(level@)) matches Err(pe) && pe == e,
        },
{
    // the first tt MUST be a string literal
    if ts.len() == 0 {
        return Err(LogError::MissingMessage);
    }
    let msg = match &ts[0] {
        Token::Literal(lit) => {
            if !string_literal_text(lit.as_str()) {
                return Err(LogError::MissingMessage);
            }
            lit.clone()
        },
        _ => {
            return Err(LogError::MissingMessage);
        },
    };
    let mut log_function = LogFunction::new(level, msg);

    // Following the message we either have the end or a comma
    if ts.len() > 1 {
        if !ts[1].is_punct(',') {
            return Err(LogError::UnexpectedAfterMessage);
        }
        proof {
            lemma_trees_subrange(ts@, 2, ts.len() as int);
        }
        log_function = match add_log_entries(&ts[2..ts.len()], log_function) {
            Ok(filled) => filled,
            Err(e) => {
                return Err(e);
            },
        };
    }
    Ok(log_function.into_token_stream())
}

/// Expands a call that logs at the debug level.
pub fn debug(ts: &[Token]) -> (res: Result<Vec<Token>, LogError>)
    ensures
        match res {
            Ok(out) => expand(trees(ts@), core_path("Level"@, "Debug"@)) matches Ok(expected)
                && trees(out@) == expected,
            Err(e) => expand(trees(ts@), core_path("Level"@, "Debug"@)) matches Err(pe) && pe == e,
        },
{
    log(ts, build_log_level("Debug"))
}

/// Expands a call that logs at the info level.
pub fn info(ts: &[Token]) -> (res: Result<Vec<Token>, LogError>)
    ensures
        match res {
            Ok(out) => expand(trees(ts@), core_path("Level"@, "Info"@)) matches Ok(expected)
                && trees(out@) == expected,
            Err(e) => expand(trees(ts@), core_path("Level"@, "Info"@)) matches Err(pe) && pe == e,
        },
{
    log(ts, build_log_level("Info"))
}

/// Expands a call that logs at the warn level.
pub fn warn(ts: &[Token]) -> (res: Result<Vec<Token>, LogError>)
    ensures
        match res {
            Ok(out) => expand(trees(ts@), core_path("Level"@, "Warn"@)) matches Ok(expected)
                && trees(out@) == expected,
            Err(e) => expand(trees(ts@), core_path("Level"@, "Warn"@)) matches Err(pe) && pe == e,
        },
{
    log(ts, build_log_level("Warn"))
}

/// Expands a call that logs at the error level.
pub fn error(ts: &[Token]) -> (res: Result<Vec<Token>, LogError>)
    ensures
        match res {
            Ok(out) => expand(trees(ts@), core_path("Level"@, "Error"@)) matches Ok(expected)
                && trees(out@) == expected,
            Err(e) => expand(trees(ts@), core_path("Level"@, "Error"@)) matches Err(pe) && pe == e,
        },
{
    log(ts, build_log_level("Error"))
}

} // verus!
