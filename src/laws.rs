//! Properties of the interpreter as a whole, stated over the spec functions
//! that the operations' contracts use, and proved.
use vstd::prelude::*;

use crate::interpreter::eval_line;
use crate::item::{ends_with, Exec, Item, Marker};
use crate::machine::{item_step, run_items, stack_need};
use crate::parser::{parse_line, parse_start, parse_step, parse_tokens, resolve, ParseState, Parsing};
use crate::text::{literal_value, tokens};
use crate::Error;

verus! {

/// The item that pushes `v`.
pub open spec fn literal_item(v: i32) -> Item {
    Item::Exec(Exec::Literal(v))
}

/// The values that a run of literal tokens spells.
pub open spec fn literal_values(toks: Seq<Seq<char>>) -> Seq<i32> {
    toks.map_values(|t: Seq<char>| literal_value(t).unwrap())
}

proof fn lemma_parse_literals(words: Map<Seq<char>, Seq<Item>>, toks: Seq<Seq<char>>)
    requires
        forall|i: int| 0 <= i < toks.len() ==> literal_value(#[trigger] toks[i]) is Some,
    ensures
        parse_tokens(words, toks) == (Parsing {
            out: literal_values(toks).map_values(|v: i32| literal_item(v)),
            ..parse_start(words)
        }),
    decreases toks.len(),
{
    if toks.len() > 0 {
        let pre = toks.drop_last();
        assert forall|i: int| 0 <= i < pre.len() implies literal_value(#[trigger] pre[i]) is Some by {
            assert(pre[i] == toks[i]);
        }
        lemma_parse_literals(words, pre);
        assert(literal_value(toks[toks.len() - 1]) is Some);
        assert(literal_values(toks).map_values(|v: i32| literal_item(v)) =~= literal_values(
            pre,
        ).map_values(|v: i32| literal_item(v)) + seq![literal_item(literal_value(toks.last()).unwrap())]);
    } else {
        assert(literal_values(toks).map_values(|v: i32| literal_item(v)) =~= Seq::<Item>::empty());
    }
}

proof fn lemma_run_literals(stack: Seq<i32>, vals: Seq<i32>)
    ensures
        run_items(stack, vals.map_values(|v: i32| literal_item(v))) == (stack + vals, Ok::<(), Error>(())),
    decreases vals.len(),
{
    let items = vals.map_values(|v: i32| literal_item(v));
    if vals.len() > 0 {
        lemma_run_literals(stack, vals.drop_last());
        assert(items.drop_last() =~= vals.drop_last().map_values(|v: i32| literal_item(v)));
        assert(stack + vals =~= (stack + vals.drop_last()).push(vals.last()));
    } else {
        assert(stack + vals =~= stack);
    }
}

/// A line of integer literals alone pushes their values in order, leaves the
/// vocabulary as it was, and succeeds.
pub proof fn law_literals_push(words: Map<Seq<char>, Seq<Item>>, stack: Seq<i32>, line: Seq<char>)
    requires
        forall|i: int| 0 <= i < tokens(line).len() ==> literal_value(#[trigger] tokens(line)[i]) is Some,
    ensures
        eval_line(words, stack, line) == (words, stack + literal_values(tokens(line)), Ok::<(), Error>(())),
{
    lemma_parse_literals(words, tokens(line));
    lemma_run_literals(stack, literal_values(tokens(line)));
}

/// A stack word, or an arithmetic word, on a stack with fewer values than it
/// needs fails with `StackUnderflow`.
pub proof fn law_stack_underflow(stack: Seq<i32>, it: Item)
    requires
        (it matches Item::Exec(Exec::Stack(op)) && stack.len() < stack_need(op)) || (it matches Item::Exec(
            Exec::Arith(_),
        ) && stack.len() < 2),
    ensures
        item_step(stack, it).1 == Err::<(), Error>(Error::StackUnderflow),
{
}

proof fn lemma_step_extends(p: Parsing, tok: Seq<char>)
    ensures
        p.out.is_prefix_of(parse_step(p, tok).out),
{
    let q = parse_step(p, tok);
    assert(q.out.take(p.out.len() as int) =~= p.out);
}

/// Items that words were expanded into stay as they were: later tokens of
/// the line, redefinitions among them, only add items after them.
pub proof fn law_expansions_kept(words: Map<Seq<char>, Seq<Item>>, toks: Seq<Seq<char>>, k: int)
    requires
        0 <= k <= toks.len(),
    ensures
        parse_tokens(words, toks.take(k)).out.is_prefix_of(parse_tokens(words, toks).out),
    decreases toks.len() - k,
{
    if k < toks.len() {
        law_expansions_kept(words, toks, k + 1);
        let p = parse_tokens(words, toks.take(k));
        assert(toks.take(k + 1).drop_last() =~= toks.take(k));
        if p.failed is None {
            lemma_step_extends(p, toks[k]);
        }
        let a = p.out;
        let b = parse_tokens(words, toks.take(k + 1)).out;
        let c = parse_tokens(words, toks).out;
        assert(c.take(a.len() as int) =~= b.take(a.len() as int));
    } else {
        assert(toks.take(k) =~= toks);
    }
}

/// Inside a definition, a word is expanded into its body as it stands at
/// that moment; for the word being defined, that is the part of its body
/// written so far.
pub proof fn law_body_sees_current(p: Parsing, tok: Seq<char>)
    requires
        p.state == ParseState::Body,
        literal_value(tok) is None,
        p.words.contains_key(tok),
        !ends_with(p.words[tok], Marker::DefinitionEnd),
    ensures
        parse_step(p, tok).words == p.words.insert(p.target, p.words[p.target] + p.words[tok]),
        tok == p.target ==> parse_step(p, tok).words[p.target] == p.words[p.target] + p.words[p.target],
{
}

/// A line that ends inside a definition fails with `InvalidWord` and leaves
/// the stack alone; what the definition had gathered stays.
pub proof fn law_unterminated(words: Map<Seq<char>, Seq<Item>>, stack: Seq<i32>, line: Seq<char>)
    requires
        parse_tokens(words, tokens(line)).failed is None,
        parse_tokens(words, tokens(line)).state != ParseState::Normal,
    ensures
        eval_line(words, stack, line) == (
            parse_tokens(words, tokens(line)).words,
            stack,
            Err::<(), Error>(Error::InvalidWord),
        ),
{
}

/// Defining a word, built-in or not, as a literal replaces its meaning:
/// `: name v ;` succeeds, puts out nothing, and from then on `name`
/// resolves to the literal. (The name `;` is left out: once it is being
/// defined, nothing can end the definition.)
pub proof fn law_redefinition(words: Map<Seq<char>, Seq<Item>>, name: Seq<char>, v: Seq<char>)
    requires
        words.contains_key(seq![':']),
        words[seq![':']] == seq![Item::Marker(Marker::DefinitionStart)],
        words.contains_key(seq![';']),
        words[seq![';']] == seq![Item::Marker(Marker::DefinitionEnd)],
        literal_value(name) is None,
        name != seq![';'],
        literal_value(v) is Some,
    ensures
        parse_line(words, seq![seq![':'], name, v, seq![';']]) == (
            words.insert(name, seq![literal_item(literal_value(v).unwrap())]),
            Ok::<Seq<Item>, Error>(Seq::empty()),
        ),
        resolve(words.insert(name, seq![literal_item(literal_value(v).unwrap())]), name) == Ok::<
            Seq<Item>,
            Error,
        >(seq![literal_item(literal_value(v).unwrap())]),
{
    let toks = seq![seq![':'], name, v, seq![';']];
    assert(literal_value(seq![':']) is None);
    assert(literal_value(seq![';']) is None);
    assert(toks.take(0) =~= Seq::<Seq<char>>::empty());
    assert(toks.take(1).drop_last() =~= toks.take(0));
    assert(toks.take(2).drop_last() =~= toks.take(1));
    assert(toks.take(3).drop_last() =~= toks.take(2));
    assert(toks.take(4) =~= toks);
    assert(toks.drop_last() =~= toks.take(3));
    let w1 = words.insert(name, Seq::empty());
    let lit = literal_item(literal_value(v).unwrap());
    let at_start = parse_start(words);
    assert(parse_tokens(words, toks.take(0)) == at_start);
    let after_colon = parse_step(at_start, seq![':']);
    assert(resolve(words, seq![':']) == Ok::<Seq<Item>, Error>(seq![Item::Marker(Marker::DefinitionStart)]));
    assert(after_colon.state == ParseState::NameExpected && after_colon.failed is None && after_colon.words == words);
    assert(toks.take(1).last() == seq![':']);
    assert(parse_tokens(words, toks.take(1)) == after_colon);
    let after_name = parse_step(after_colon, name);
    assert(after_name.words == w1 && after_name.state == ParseState::Body && after_name.target == name && after_name.failed is None);
    assert(parse_tokens(words, toks.take(2)) == after_name);
    let after_value = parse_step(after_name, v);
    assert(resolve(w1, v) == Ok::<Seq<Item>, Error>(seq![lit]));
    assert(!ends_with(seq![lit], Marker::DefinitionEnd));
    assert(after_value.words == w1.insert(name, w1[name] + seq![lit]));
    assert(parse_tokens(words, toks.take(3)) == after_value);
    let after_end = parse_step(after_value, seq![';']);
    assert(after_end.state == ParseState::Normal && after_end.failed is None && after_end.out == Seq::<Item>::empty());
    assert(parse_tokens(words, toks) == after_end);
    assert(w1.insert(name, w1[name] + seq![literal_item(literal_value(v).unwrap())]) =~= words.insert(
        name,
        seq![literal_item(literal_value(v).unwrap())],
    ));
}

} // verus!
