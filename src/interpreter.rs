//! The interpreter: a vocabulary and a stack, and the two operations on
//! them.
use vstd::prelude::*;

use crate::item::{ArithOp, Exec, Item, Marker, StackOp};
use crate::machine::{execute, run_items};
use crate::parser::{input_parse, parse_line};
use crate::text::{join_to_string, join_values, tokenize, tokens, upper_of, uppercase};
use crate::vocab::Vocabulary;
use crate::Error;

verus! {

/// The built-in vocabulary: the stack words, the four arithmetic words and
/// the two definition markers, under their upper-case names.
pub open spec fn builtin_words() -> Map<Seq<char>, Seq<Item>> {
    Map::empty()
        .insert(seq!['D', 'U', 'P'], seq![Item::Exec(Exec::Stack(StackOp::Dup))])
        .insert(seq!['D', 'R', 'O', 'P'], seq![Item::Exec(Exec::Stack(StackOp::Drop))])
        .insert(seq!['S', 'W', 'A', 'P'], seq![Item::Exec(Exec::Stack(StackOp::Swap))])
        .insert(seq!['O', 'V', 'E', 'R'], seq![Item::Exec(Exec::Stack(StackOp::Over))])
        .insert(seq!['+'], seq![Item::Exec(Exec::Arith(ArithOp::Add))])
        .insert(seq!['-'], seq![Item::Exec(Exec::Arith(ArithOp::Sub))])
        .insert(seq!['*'], seq![Item::Exec(Exec::Arith(ArithOp::Mul))])
        .insert(seq!['/'], seq![Item::Exec(Exec::Arith(ArithOp::Div))])
        .insert(seq![':'], seq![Item::Marker(Marker::DefinitionStart)])
        .insert(seq![';'], seq![Item::Marker(Marker::DefinitionEnd)])
}

/// One line evaluated, its text already case-folded: the vocabulary and
/// stack afterwards, and how it ended. The whole line is parsed first; if
/// parsing fails, the stack is untouched, but the definitions made up to
/// that point remain. Otherwise the items run until the first failure.
pub open spec fn eval_line(words: Map<Seq<char>, Seq<Item>>, stack: Seq<i32>, line: Seq<char>) -> (
    Map<Seq<char>, Seq<Item>>,
    Seq<i32>,
    Result<(), Error>,
) {
    let parsed = parse_line(words, tokens(line));
    match parsed.1 {
        Err(e) => (parsed.0, stack, Err(e)),
        Ok(items) => {
            let ran = run_items(stack, items);
            (parsed.0, ran.0, ran.1)
        },
    }
}

/// A Forth interpreter: its vocabulary and its stack.
pub struct Forth {
    vocab: Vocabulary,
    stack: Vec<i32>,
}

/// Gives `name` the one-item body `it`.
fn add_word(vocab: &mut Vocabulary, name: Vec<char>, it: Item)
    requires
        old(vocab).wf(),
    ensures
        final(vocab).wf(),
        final(vocab)@ == old(vocab)@.insert(name@, seq![it]),
{
    let i = vocab.define(&name);
    let body = vec![it];
    vocab.extend_body(i, &body);
    assert(Seq::<Item>::empty() + body@ =~= seq![it]);
}

impl Forth {
    /// The vocabulary is well formed.
    pub closed spec fn wf(&self) -> bool {
        self.vocab.wf()
    }

    /// The words known, by case-folded name.
    pub closed spec fn words(&self) -> Map<Seq<char>, Seq<Item>> {
        self.vocab@
    }

    /// The stack, bottom first.
    pub closed spec fn stack(&self) -> Seq<i32> {
        self.stack@
    }

    /// An interpreter with the built-in vocabulary and an empty stack.
    pub fn new() -> (r: Forth)
        ensures
            r.wf(),
            r.words() == builtin_words(),
            r.stack() == Seq::<i32>::empty(),
    {
        let mut vocab = Vocabulary::empty();
        let name = vec!['D', 'U', 'P'];
        assert(name@ =~= seq!['D', 'U', 'P']);
        add_word(&mut vocab, name, Item::Exec(Exec::Stack(StackOp::Dup)));
        let name = vec!['D', 'R', 'O', 'P'];
        assert(name@ =~= seq!['D', 'R', 'O', 'P']);
        add_word(&mut vocab, name, Item::Exec(Exec::Stack(StackOp::Drop)));
        let name = vec!['S', 'W', 'A', 'P'];
        assert(name@ =~= seq!['S', 'W', 'A', 'P']);
        add_word(&mut vocab, name, Item::Exec(Exec::Stack(StackOp::Swap)));
        let name = vec!['O', 'V', 'E', 'R'];
        assert(name@ =~= seq!['O', 'V', 'E', 'R']);
        add_word(&mut vocab, name, Item::Exec(Exec::Stack(StackOp::Over)));
        let name = vec!['+'];
        assert(name@ =~= seq!['+']);
        add_word(&mut vocab, name, Item::Exec(Exec::Arith(ArithOp::Add)));
        let name = vec!['-'];
        assert(name@ =~= seq!['-']);
        add_word(&mut vocab, name, Item::Exec(Exec::Arith(ArithOp::Sub)));
        let name = vec!['*'];
        assert(name@ =~= seq!['*']);
        add_word(&mut vocab, name, Item::Exec(Exec::Arith(ArithOp::Mul)));
        let name = vec!['/'];
        assert(name@ =~= seq!['/']);
        add_word(&mut vocab, name, Item::Exec(Exec::Arith(ArithOp::Div)));
        let name = vec![':'];
        assert(name@ =~= seq![':']);
        add_word(&mut vocab, name, Item::Marker(Marker::DefinitionStart));
        let name = vec![';'];
        assert(name@ =~= seq![';']);
        add_word(&mut vocab, name, Item::Marker(Marker::DefinitionEnd));
        let r = Forth { vocab, stack: Vec::new() };
        assert(r.words() =~= builtin_words());
        assert(r.stack() =~= Seq::<i32>::empty());
        r
    }

    /// The stack, bottom first, in decimal and separated by single spaces;
    /// empty for an empty stack.
    pub fn format_stack(&self) -> (r: String)
        ensures
            r@ == join_values(self.stack()),
    {
        join_to_string(&self.stack)
    }

    /// Evaluates a line whose text is already case-folded, as `eval_line`
    /// describes.
    pub fn eval_folded(&mut self, line: &str) -> (r: Result<(), Error>)
        requires
            old(self).wf(),
        ensures
            final(self).wf(),
            (final(self).words(), final(self).stack(), r) == eval_line(
                old(self).words(),
                old(self).stack(),
                line@,
            ),
    {
        let toks = tokenize(line);
        match input_parse(&mut self.vocab, &toks) {
            Ok(items) => execute(&mut self.stack, &items),
            Err(e) => Err(e),
        }
    }

    /// Evaluates one line of input: its text is folded to upper case, then
    /// evaluated as `eval_line` describes.
    pub fn eval(&mut self, input: &str) -> (r: Result<(), Error>)
        requires
            old(self).wf(),
        ensures
            final(self).wf(),
            (final(self).words(), final(self).stack(), r) == eval_line(
                old(self).words(),
                old(self).stack(),
                upper_of(input@),
            ),
    {
        let folded = uppercase(input);
        self.eval_folded(folded.as_str())
    }
}

} // verus!
