use forth::Forth;
use forth::Error;

fn run(lines: &[&str]) -> (Forth, Result<(), Error>) {
    let mut f = Forth::new();
    let mut last = Ok(());
    for line in lines {
        last = f.eval(line);
        if last.is_err() {
            break;
        }
    }
    (f, last)
}

#[test]
fn fresh_interpreter_formats_empty() {
    let f = Forth::new();
    assert_eq!(f.format_stack(), "");
}

#[test]
fn literals_are_pushed_in_order() {
    let (f, r) = run(&["1 2 3"]);
    assert_eq!(r, Ok(()));
    assert_eq!(f.format_stack(), "1 2 3");
}

#[test]
fn signed_literals() {
    let (f, r) = run(&["-1 +2 0 -0"]);
    assert_eq!(r, Ok(()));
    assert_eq!(f.format_stack(), "-1 2 0 0");
}

#[test]
fn stack_persists_across_lines() {
    let (f, r) = run(&["1 2", "3"]);
    assert_eq!(r, Ok(()));
    assert_eq!(f.format_stack(), "1 2 3");
}

#[test]
fn addition() {
    let (f, r) = run(&["1 2 +"]);
    assert_eq!(r, Ok(()));
    assert_eq!(f.format_stack(), "3");
}

#[test]
fn subtraction_takes_top_from_below() {
    let (f, r) = run(&["9 2 -"]);
    assert_eq!(r, Ok(()));
    assert_eq!(f.format_stack(), "7");
}

#[test]
fn multiplication() {
    let (f, r) = run(&["2 4 *"]);
    assert_eq!(r, Ok(()));
    assert_eq!(f.format_stack(), "8");
}

#[test]
fn division_truncates() {
    let (f, r) = run(&["9 2 /"]);
    assert_eq!(r, Ok(()));
    assert_eq!(f.format_stack(), "4");
}

#[test]
fn division_truncates_toward_zero() {
    let (f, r) = run(&["-7 2 /"]);
    assert_eq!(r, Ok(()));
    assert_eq!(f.format_stack(), "-3");
}

#[test]
fn division_by_zero_consumes_operands() {
    let (f, r) = run(&["4 0 /"]);
    assert_eq!(r, Err(Error::DivisionByZero));
    assert_eq!(f.format_stack(), "");
    let (f, r) = run(&["3 4 0 /"]);
    assert_eq!(r, Err(Error::DivisionByZero));
    assert_eq!(f.format_stack(), "3");
}

#[test]
fn division_by_zero_midway_keeps_earlier_work() {
    let (f, r) = run(&["1 2 0 / 5"]);
    assert_eq!(r, Err(Error::DivisionByZero));
    assert_eq!(f.format_stack(), "1");
}

#[test]
fn sum_wraps_on_overflow() {
    let (f, r) = run(&["2147483647 1 +"]);
    assert_eq!(r, Ok(()));
    assert_eq!(f.format_stack(), "-2147483648");
}

#[test]
fn least_value_by_minus_one_wraps() {
    let (f, r) = run(&["-2147483648 -1 /"]);
    assert_eq!(r, Ok(()));
    assert_eq!(f.format_stack(), "-2147483648");
}

#[test]
fn literal_out_of_range_is_unknown() {
    let (f, r) = run(&["2147483648"]);
    assert_eq!(r, Err(Error::UnknownWord));
    assert_eq!(f.format_stack(), "");
}

#[test]
fn dup_copies_top() {
    let (f, r) = run(&["1 2 dup"]);
    assert_eq!(r, Ok(()));
    assert_eq!(f.format_stack(), "1 2 2");
}

#[test]
fn drop_removes_top() {
    let (f, r) = run(&["1 2 drop"]);
    assert_eq!(r, Ok(()));
    assert_eq!(f.format_stack(), "1");
}

#[test]
fn swap_exchanges_top_two() {
    let (f, r) = run(&["1 2 3 swap"]);
    assert_eq!(r, Ok(()));
    assert_eq!(f.format_stack(), "1 3 2");
}

#[test]
fn over_copies_second() {
    let (f, r) = run(&["1 2 over"]);
    assert_eq!(r, Ok(()));
    assert_eq!(f.format_stack(), "1 2 1");
}

#[test]
fn dup_on_empty_underflows() {
    let (_, r) = run(&["dup"]);
    assert_eq!(r, Err(Error::StackUnderflow));
}

#[test]
fn drop_on_empty_underflows() {
    let (_, r) = run(&["drop"]);
    assert_eq!(r, Err(Error::StackUnderflow));
}

#[test]
fn swap_underflows() {
    let (_, r) = run(&["swap"]);
    assert_eq!(r, Err(Error::StackUnderflow));
    let (f, r) = run(&["1 swap"]);
    assert_eq!(r, Err(Error::StackUnderflow));
    assert_eq!(f.format_stack(), "");
}

#[test]
fn over_underflows() {
    let (_, r) = run(&["over"]);
    assert_eq!(r, Err(Error::StackUnderflow));
    let (f, r) = run(&["1 over"]);
    assert_eq!(r, Err(Error::StackUnderflow));
    assert_eq!(f.format_stack(), "1");
}

#[test]
fn arithmetic_underflows() {
    for op in ["+", "-", "*", "/"] {
        let (_, r) = run(&[op]);
        assert_eq!(r, Err(Error::StackUnderflow));
        let (f, r) = run(&[&format!("1 {}", op)]);
        assert_eq!(r, Err(Error::StackUnderflow));
        assert_eq!(f.format_stack(), "");
    }
}

#[test]
fn unknown_word() {
    let (_, r) = run(&["foo"]);
    assert_eq!(r, Err(Error::UnknownWord));
}

#[test]
fn parse_failure_runs_nothing() {
    let (f, r) = run(&["1 2 + foo"]);
    assert_eq!(r, Err(Error::UnknownWord));
    assert_eq!(f.format_stack(), "");
}

#[test]
fn user_word() {
    let (f, r) = run(&[": dup-twice dup dup ;", "1 dup-twice"]);
    assert_eq!(r, Ok(()));
    assert_eq!(f.format_stack(), "1 1 1");
}

#[test]
fn redefinition_keeps_earlier_expansion() {
    let (f, r) = run(&[": foo 1 ; foo : foo 2 ; foo"]);
    assert_eq!(r, Ok(()));
    assert_eq!(f.format_stack(), "1 2");
}

#[test]
fn definition_captures_current_body_of_other_word() {
    let (f, r) = run(&[": bar 5 ;", ": foo bar ;", ": bar 6 ;", "foo bar"]);
    assert_eq!(r, Ok(()));
    assert_eq!(f.format_stack(), "5 6");
}

#[test]
fn self_reference_sees_partial_body() {
    let (f, r) = run(&[": foo 1 foo ;", "foo"]);
    assert_eq!(r, Ok(()));
    assert_eq!(f.format_stack(), "1 1");
}

#[test]
fn redefinition_sees_its_own_empty_body() {
    let (f, r) = run(&[": foo 5 ;", ": foo foo 1 ;", "foo"]);
    assert_eq!(r, Ok(()));
    assert_eq!(f.format_stack(), "1");
}

#[test]
fn forward_reference_is_unknown() {
    let (_, r) = run(&[": foo bar ;"]);
    assert_eq!(r, Err(Error::UnknownWord));
}

#[test]
fn unterminated_definition_is_invalid() {
    let (f, r) = run(&[": foo 1 2"]);
    assert_eq!(r, Err(Error::InvalidWord));
    assert_eq!(f.format_stack(), "");
}

#[test]
fn colon_alone_is_invalid() {
    let (_, r) = run(&[":"]);
    assert_eq!(r, Err(Error::InvalidWord));
}

#[test]
fn numbers_cannot_be_redefined() {
    let (_, r) = run(&[": 1 2 ;"]);
    assert_eq!(r, Err(Error::InvalidWord));
    let (_, r) = run(&[": -1 2 ;"]);
    assert_eq!(r, Err(Error::InvalidWord));
}

#[test]
fn empty_definition_expands_to_nothing() {
    let (f, r) = run(&[": foo ;", "1 foo"]);
    assert_eq!(r, Ok(()));
    assert_eq!(f.format_stack(), "1");
}

#[test]
fn built_in_words_are_case_insensitive() {
    for line in ["1 dup", "1 DUP", "1 Dup"] {
        let (f, r) = run(&[line]);
        assert_eq!(r, Ok(()));
        assert_eq!(f.format_stack(), "1 1");
    }
}

#[test]
fn user_words_are_case_insensitive() {
    let (f, r) = run(&[": foo dup ;", "1 FOO Foo foo"]);
    assert_eq!(r, Ok(()));
    assert_eq!(f.format_stack(), "1 1 1 1");
}

#[test]
fn redefining_a_built_in() {
    let (mut f, r) = run(&[": + 0 ; 1 2 +"]);
    assert_eq!(r, Ok(()));
    assert_eq!(f.format_stack(), "1 2 0");
    assert_eq!(f.eval("+"), Ok(()));
    assert_eq!(f.format_stack(), "1 2 0 0");
}

#[test]
fn redefining_a_built_in_with_itself() {
    let (f, r) = run(&[": swap dup ;", "1 swap"]);
    assert_eq!(r, Ok(()));
    assert_eq!(f.format_stack(), "1 1");
}

#[test]
fn control_characters_separate_tokens() {
    let (f, r) = run(&["1\u{0}2\t3\n4\u{7f}5"]);
    assert_eq!(r, Ok(()));
    assert_eq!(f.format_stack(), "1 2 3 4 5");
}

#[test]
fn unicode_whitespace_separates_tokens() {
    let (f, r) = run(&["1\u{3000}2\u{a0}3"]);
    assert_eq!(r, Ok(()));
    assert_eq!(f.format_stack(), "1 2 3");
}

#[test]
fn empty_line_does_nothing() {
    let (f, r) = run(&["", "   "]);
    assert_eq!(r, Ok(()));
    assert_eq!(f.format_stack(), "");
}

#[test]
fn folded_text_is_taken_as_it_is() {
    let mut f = Forth::new();
    assert_eq!(f.eval_folded("1 DUP"), Ok(()));
    assert_eq!(f.format_stack(), "1 1");
    assert_eq!(f.eval_folded("dup"), Err(Error::UnknownWord));
}
