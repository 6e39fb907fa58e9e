//! Word resolution and the definition parser: turns the tokens of a line
//! into a flat run of items, defining words as a side effect.
use vstd::prelude::*;

use crate::item::{ends_with, Exec, Item, Marker};
use crate::text::{literal_value, parse_value, token_views};
use crate::vocab::Vocabulary;
use crate::Error;

verus! {

/// Where the parser stands between two tokens.
#[derive(Debug, Clone, Copy, PartialEq, Eq, Structural)]
pub enum ParseState {
    /// Words are expanded into the output.
    Normal,
    /// The next token names the word being defined.
    NameExpected,
    /// Words are expanded into the body of the word being defined.
    Body,
}

/// The parser's whole state after some tokens: the vocabulary, where it
/// stands, the word being defined, the items put out so far, and the failure
/// that stopped it, if any.
pub struct Parsing {
    pub words: Map<Seq<char>, Seq<Item>>,
    pub state: ParseState,
    pub target: Seq<char>,
    pub out: Seq<Item>,
    pub failed: Option<Error>,
}

/// What a token stands for: a literal if it spells an `i32`, otherwise the
/// current body of the word it names.
pub open spec fn resolve(words: Map<Seq<char>, Seq<Item>>, tok: Seq<char>) -> Result<Seq<Item>, Error> {
    match literal_value(tok) {
        Some(v) => Ok(seq![Item::Exec(Exec::Literal(v))]),
        None => if words.contains_key(tok) {
            Ok(words[tok])
        } else {
            Err(Error::UnknownWord)
        },
    }
}

/// The parser before the first token of a line.
pub open spec fn parse_start(words: Map<Seq<char>, Seq<Item>>) -> Parsing {
    Parsing {
        words,
        state: ParseState::Normal,
        target: Seq::empty(),
        out: Seq::empty(),
        failed: None,
    }
}

/// The parser after one more token.
pub open spec fn parse_step(p: Parsing, tok: Seq<char>) -> Parsing {
    match p.state {
        ParseState::Normal => match resolve(p.words, tok) {
            Err(e) => Parsing { failed: Some(e), ..p },
            Ok(items) => if ends_with(items, Marker::DefinitionStart) {
                Parsing { state: ParseState::NameExpected, ..p }
            } else {
                Parsing { out: p.out + items, ..p }
            },
        },
        ParseState::NameExpected => if literal_value(tok) is Some {
            Parsing { failed: Some(Error::InvalidWord), ..p }
        } else {
            Parsing {
                words: p.words.insert(tok, Seq::empty()),
                state: ParseState::Body,
                target: tok,
                ..p
            }
        },
        ParseState::Body => match resolve(p.words, tok) {
            Err(e) => Parsing { failed: Some(e), ..p },
            Ok(items) => if ends_with(items, Marker::DefinitionEnd) {
                Parsing { state: ParseState::Normal, ..p }
            } else {
                Parsing { words: p.words.insert(p.target, p.words[p.target] + items), ..p }
            },
        },
    }
}

/// The parser after the tokens `toks`, left to right, stopping at the first
/// failure.
pub open spec fn parse_tokens(words: Map<Seq<char>, Seq<Item>>, toks: Seq<Seq<char>>) -> Parsing
    decreases toks.len(),
{
    if toks.len() == 0 {
        parse_start(words)
    } else {
        let p = parse_tokens(words, toks.drop_last());
        if p.failed is Some {
            p
        } else {
            parse_step(p, toks.last())
        }
    }
}

/// A line's tokens parsed: the vocabulary afterwards, and the items to carry
/// out or the failure. A line that ends inside a definition is invalid.
pub open spec fn parse_line(words: Map<Seq<char>, Seq<Item>>, toks: Seq<Seq<char>>) -> (
    Map<Seq<char>, Seq<Item>>,
    Result<Seq<Item>, Error>,
) {
    let p = parse_tokens(words, toks);
    (p.words, match p.failed {
        Some(e) => Err(e),
        None => if p.state == ParseState::Normal {
            Ok(p.out)
        } else {
            Err(Error::InvalidWord)
        },
    })
}

/// The view of a result that holds items.
pub open spec fn items_result(r: Result<Vec<Item>, Error>) -> Result<Seq<Item>, Error> {
    match r {
        Ok(v) => Ok(v@),
        Err(e) => Err(e),
    }
}

/// Once parsing has failed, later tokens change nothing.
proof fn lemma_parse_stops(words: Map<Seq<char>, Seq<Item>>, toks: Seq<Seq<char>>, k: int)
    requires
        0 <= k <= toks.len(),
        parse_tokens(words, toks.take(k)).failed is Some,
    ensures
        parse_tokens(words, toks) == parse_tokens(words, toks.take(k)),
    decreases toks.len() - k,
{
    if k < toks.len() {
        assert(toks.take(k + 1).drop_last() =~= toks.take(k));
        lemma_parse_stops(words, toks, k + 1);
    } else {
        assert(toks.take(k) =~= toks);
    }
}

/// Whether `items` ends in the marker `m`.
fn ends_with_marker(items: &Vec<Item>, m: Marker) -> (r: bool)
    ensures
        r == ends_with(items@, m),
{
    items.len() > 0 && items[items.len() - 1] == Item::Marker(m)
}

/// Resolves one token against `vocab`, as `resolve` describes.
pub fn str_to_item(vocab: &Vocabulary, tok: &Vec<char>) -> (r: Result<Vec<Item>, Error>)
    requires
        vocab.wf(),
    ensures
        items_result(r) == resolve(vocab@, tok@),
{
    match parse_value(tok) {
        Some(v) => {
            let r = vec![Item::Exec(Exec::Literal(v))];
            assert(r@ =~= seq![Item::Exec(Exec::Literal(v))]);
            Ok(r)
        },
        None => match vocab.lookup(tok) {
            Some(b) => Ok(b),
            None => Err(Error::UnknownWord),
        },
    }
}

/// Parses the tokens of a line, as `parse_line` describes, updating `vocab`
/// with the definitions it meets.
pub fn input_parse(vocab: &mut Vocabulary, toks: &Vec<Vec<char>>) -> (r: Result<Vec<Item>, Error>)
    requires
        old(vocab).wf(),
    ensures
        final(vocab).wf(),
        (final(vocab)@, items_result(r)) == parse_line(old(vocab)@, token_views(toks@)),
{
    let ghost words0 = vocab@;
    let ghost tv = token_views(toks@);
    let mut items: Vec<Item> = Vec::new();
    let mut state = ParseState::Normal;
    let mut target: usize = 0;
    let mut i: usize = 0;
    while i < toks.len()
        invariant
            vocab.wf(),
            i <= toks@.len(),
            words0 == old(vocab)@,
            tv == token_views(toks@),
            parse_tokens(words0, tv.take(i as int)).failed is None,
            parse_tokens(words0, tv.take(i as int)).words == vocab@,
            parse_tokens(words0, tv.take(i as int)).state == state,
            parse_tokens(words0, tv.take(i as int)).out == items@,
            state == ParseState::Body ==> target < vocab.len() && vocab@.contains_key(
                vocab.name_at(target as int),
            ) && vocab.name_at(target as int) == parse_tokens(words0, tv.take(i as int)).target,
        decreases toks@.len() - i,
    {
        let tok = &toks[i];
        let ghost p = parse_tokens(words0, tv.take(i as int));
        assert(tv.take(i + 1).drop_last() =~= tv.take(i as int));
        assert(tv.take(i + 1).last() == tok@);
        assert(parse_tokens(words0, tv.take(i + 1)) == parse_step(p, tok@));
        match state {
            ParseState::Normal => {
                match str_to_item(vocab, tok) {
                    Ok(v) => {
                        if ends_with_marker(&v, Marker::DefinitionStart) {
                            state = ParseState::NameExpected;
                        } else {
                            let mut j: usize = 0;
                            while j < v.len()
                                invariant
                                    j <= v@.len(),
                                    items@ == p.out + v@.take(j as int),
                                decreases v@.len() - j,
                            {
                                items.push(v[j]);
                                j += 1;
                                assert(items@ =~= p.out + v@.take(j as int));
                            }
                            assert(v@.take(j as int) =~= v@);
                        }
                    },
                    Err(e) => {
                        proof {
                            lemma_parse_stops(words0, tv, i + 1);
                        }
                        return Err(e);
                    },
                }
            },
            ParseState::NameExpected => {
                if parse_value(tok).is_some() {
                    proof {
                        lemma_parse_stops(words0, tv, i + 1);
                    }
                    return Err(Error::InvalidWord);
                }
                target = vocab.define(tok);
                state = ParseState::Body;
            },
            ParseState::Body => {
                match str_to_item(vocab, tok) {
                    Ok(v) => {
                        if ends_with_marker(&v, Marker::DefinitionEnd) {
                            state = ParseState::Normal;
                        } else {
                            vocab.extend_body(target, &v);
                        }
                    },
                    Err(e) => {
                        proof {
                            lemma_parse_stops(words0, tv, i + 1);
                        }
                        return Err(e);
                    },
                }
            },
        }
        i += 1;
    }
    assert(tv.take(i as int) =~= tv);
    if state == ParseState::Normal {
        Ok(items)
    } else {
        Err(Error::InvalidWord)
    }
}

} // verus!
