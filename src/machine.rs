//! The evaluator: carries out resolved items against the stack.
use vstd::prelude::*;

use crate::item::{ArithOp, Exec, Item, StackOp};
use crate::Error;

verus! {

/// Integer quotient rounded toward zero.
pub open spec fn trunc_div(b: int, a: int) -> int {
    let q = (if b < 0 { -b } else { b }) / (if a < 0 { -a } else { a });
    if (b < 0) == (a < 0) { q } else { -q }
}

/// The `i32` quotient of `b` by `a`: rounded toward zero, the one quotient
/// out of range (the least value by -1) wrapping round to the least value.
pub open spec fn quotient(b: i32, a: i32) -> i32 {
    let q = trunc_div(b as int, a as int);
    if q > i32::MAX { i32::MIN } else { q as i32 }
}

/// What an arithmetic word makes of `b` (below) and `a` (on top).
/// Sums, differences and products wrap round on overflow.
pub open spec fn arith(op: ArithOp, b: i32, a: i32) -> Result<i32, Error> {
    match op {
        ArithOp::Add => Ok(b.wrapping_add(a)),
        ArithOp::Sub => Ok(b.wrapping_sub(a)),
        ArithOp::Mul => Ok(b.wrapping_mul(a)),
        ArithOp::Div => if a == 0 {
            Err(Error::DivisionByZero)
        } else {
            Ok(quotient(b, a))
        },
    }
}

/// The least number of values that `op` needs on the stack.
pub open spec fn stack_need(op: StackOp) -> nat {
    match op {
        StackOp::Dup | StackOp::Drop => 1,
        StackOp::Swap | StackOp::Over => 2,
    }
}

/// A stack word on stack `s`: the stack after it, and how it ended.
/// `Swap` takes its two values off before it looks at them, so on a stack of
/// one value it fails with that value gone.
pub open spec fn stack_step(s: Seq<i32>, op: StackOp) -> (Seq<i32>, Result<(), Error>) {
    let n = s.len();
    if n < stack_need(op) {
        (if op == StackOp::Swap { Seq::empty() } else { s }, Err(Error::StackUnderflow))
    } else {
        match op {
            StackOp::Dup => (s.push(s[n - 1]), Ok(())),
            StackOp::Drop => (s.drop_last(), Ok(())),
            StackOp::Swap => (s.take(n - 2).push(s[n - 1]).push(s[n - 2]), Ok(())),
            StackOp::Over => (s.push(s[n - 2]), Ok(())),
        }
    }
}

/// One item on stack `s`: the stack after it, and how it ended. An
/// arithmetic word takes its two operands off first, so on a short stack it
/// fails with the stack emptied, and a division by zero loses both operands.
/// Markers leave the stack alone.
pub open spec fn item_step(s: Seq<i32>, it: Item) -> (Seq<i32>, Result<(), Error>) {
    match it {
        Item::Marker(_) => (s, Ok(())),
        Item::Exec(Exec::Literal(v)) => (s.push(v), Ok(())),
        Item::Exec(Exec::Stack(op)) => stack_step(s, op),
        Item::Exec(Exec::Arith(op)) => {
            let n = s.len();
            if n < 2 {
                (Seq::empty(), Err(Error::StackUnderflow))
            } else {
                let rest = s.take(n - 2);
                match arith(op, s[n - 2], s[n - 1]) {
                    Ok(v) => (rest.push(v), Ok(())),
                    Err(e) => (rest, Err(e)),
                }
            }
        },
    }
}

/// Items carried out left to right from stack `s`, stopping at the first
/// failure: the stack at that point, and how the run ended.
pub open spec fn run_items(s: Seq<i32>, items: Seq<Item>) -> (Seq<i32>, Result<(), Error>)
    decreases items.len(),
{
    if items.len() == 0 {
        (s, Ok(()))
    } else {
        let r = run_items(s, items.drop_last());
        if r.1 is Err {
            r
        } else {
            item_step(r.0, items.last())
        }
    }
}

/// Applies an arithmetic word to `a`, taken from the top, and `b`, taken
/// from below it.
pub fn eval_oper(a: i32, b: i32, op: ArithOp) -> (r: Result<i32, Error>)
    ensures
        r == arith(op, b, a),
{
    match op {
        ArithOp::Add => Ok(b.wrapping_add(a)),
        ArithOp::Sub => Ok(b.wrapping_sub(a)),
        ArithOp::Mul => Ok(b.wrapping_mul(a)),
        ArithOp::Div => {
            if a == 0 {
                Err(Error::DivisionByZero)
            } else {
                match b.checked_div(a) {
                    Some(q) => Ok(q),
                    None => Ok(i32::MIN),
                }
            }
        },
    }
}

/// Applies a stack word to `stack`.
pub fn eval_command(stack: &mut Vec<i32>, op: StackOp) -> (r: Result<(), Error>)
    ensures
        (final(stack)@, r) == stack_step(old(stack)@, op),
{
    let n = stack.len();
    match op {
        StackOp::Dup => {
            if n < 1 {
                return Err(Error::StackUnderflow);
            }
            let a = stack[n - 1];
            stack.push(a);
        },
        StackOp::Drop => {
            if n < 1 {
                return Err(Error::StackUnderflow);
            }
            stack.pop();
        },
        StackOp::Swap => {
            let a = stack.pop();
            let b = stack.pop();
            match (a, b) {
                (Some(a), Some(b)) => {
                    stack.push(a);
                    stack.push(b);
                },
                _ => {
                    assert(final(stack)@ =~= Seq::<i32>::empty());
                    return Err(Error::StackUnderflow);
                },
            }
        },
        StackOp::Over => {
            if n < 2 {
                return Err(Error::StackUnderflow);
            }
            let a = stack[n - 2];
            stack.push(a);
        },
    }
    assert(stack@ =~= stack_step(old(stack)@, op).0);
    Ok(())
}

/// Carries out one item on `stack`.
pub fn execute_item(stack: &mut Vec<i32>, it: Item) -> (r: Result<(), Error>)
    ensures
        (final(stack)@, r) == item_step(old(stack)@, it),
{
    match it {
        Item::Marker(_) => Ok(()),
        Item::Exec(Exec::Literal(v)) => {
            stack.push(v);
            Ok(())
        },
        Item::Exec(Exec::Stack(op)) => eval_command(stack, op),
        Item::Exec(Exec::Arith(op)) => {
            let a = stack.pop();
            let b = stack.pop();
            match (a, b) {
                (Some(a), Some(b)) => {
                    assert(stack@ =~= old(stack)@.take(old(stack)@.len() - 2));
                    match eval_oper(a, b, op) {
                        Ok(v) => {
                            stack.push(v);
                            Ok(())
                        },
                        Err(e) => Err(e),
                    }
                },
                _ => {
                    assert(stack@ =~= Seq::<i32>::empty());
                    Err(Error::StackUnderflow)
                },
            }
        },
    }
}

/// Carries out `items` in order on `stack`, stopping at the first failure.
pub fn execute(stack: &mut Vec<i32>, items: &Vec<Item>) -> (r: Result<(), Error>)
    ensures
        (final(stack)@, r) == run_items(old(stack)@, items@),
{
    let mut i: usize = 0;
    while i < items.len()
        invariant
            i <= items@.len(),
            run_items(old(stack)@, items@.take(i as int)) == (stack@, Ok::<(), Error>(())),
        decreases items@.len() - i,
    {
        assert(items@.take(i + 1).drop_last() =~= items@.take(i as int));
        let r = execute_item(stack, items[i]);
        if r.is_err() {
            proof {
                lemma_run_stops(old(stack)@, items@, i + 1);
            }
            return r;
        }
        i += 1;
    }
    assert(items@.take(i as int) =~= items@);
    Ok(())
}

/// Once a run has failed, later items change nothing.
proof fn lemma_run_stops(s: Seq<i32>, items: Seq<Item>, k: int)
    requires
        0 <= k <= items.len(),
        run_items(s, items.take(k)).1 is Err,
    ensures
        run_items(s, items) == run_items(s, items.take(k)),
    decreases items.len() - k,
{
    if k < items.len() {
        assert(items.take(k + 1).drop_last() =~= items.take(k));
        lemma_run_stops(s, items, k + 1);
    } else {
        assert(items.take(k) =~= items);
    }
}

} // verus!
