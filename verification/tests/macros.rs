use ruxnasm::error::{Error, Warning};
use ruxnasm::macros::expand_macros;
use ruxnasm::scanner::scan;
use ruxnasm::span::{Span, Spanned};
use ruxnasm::token::{Instruction, InstructionKind, Token};

fn sp(from: usize, to: usize, column: usize) -> Span {
    Span { from, to, line: 1, column }
}

fn at(from: usize, to: usize) -> Span {
    sp(from, to, from + 1)
}

fn tokens_of(source: &[u8]) -> Vec<Spanned<Token>> {
    scan(source).unwrap().0
}

fn byte(value: u8, from: usize) -> Spanned<Token> {
    Spanned { node: Token::RawHexByte(value), span: at(from, from + 2) }
}

#[test]
fn tokens_without_macros_stay_as_they_are() {
    let tokens = tokens_of(b"01 [ @a ] ;a");
    assert_eq!(expand_macros(tokens_of(b"01 [ @a ] ;a")), Ok((tokens, vec![])));
}

#[test]
fn invocation_gives_the_body_with_the_spans_of_the_body() {
    let add = Spanned {
        node: Token::Instruction(Instruction {
            instruction_kind: InstructionKind::Add,
            short: false,
            keep: false,
            ret: false,
        }),
        span: at(10, 13),
    };
    assert_eq!(
        expand_macros(tokens_of(b"%one { 01 ADD } 05 one one")),
        Ok((vec![byte(5, 16), byte(1, 7), add.clone(), byte(1, 7), add], vec![]))
    );
}

#[test]
fn macro_may_be_invoked_before_it_is_defined() {
    assert_eq!(
        expand_macros(tokens_of(b"two %two { 02 }")),
        Ok((vec![byte(2, 11)], vec![]))
    );
}

#[test]
fn macros_expand_macros() {
    assert_eq!(
        expand_macros(tokens_of(b"%a { b 01 b } %b { 02 } a")),
        Ok((vec![byte(2, 19), byte(1, 7), byte(2, 19)], vec![]))
    );
}

#[test]
fn macro_reached_on_two_paths_is_no_recursion() {
    assert_eq!(
        expand_macros(tokens_of(b"%d { 0d } %b { d } %c { d } %a { b c } a")),
        Ok((vec![byte(0x0d, 5), byte(0x0d, 5)], vec![]))
    );
}

#[test]
fn definition_without_braces_has_an_empty_body() {
    assert_eq!(expand_macros(tokens_of(b"%nothing 01 nothing")), Ok((vec![byte(1, 9)], vec![])));
    assert_eq!(expand_macros(tokens_of(b"nothing %nothing")), Ok((vec![], vec![])));
}

#[test]
fn unknown_macro() {
    assert_eq!(
        expand_macros(tokens_of(b"01 foo")),
        Err((vec![Error::MacroUndefined { name: b"foo".to_vec(), span: at(3, 6) }], vec![]))
    );
}

#[test]
fn macro_defined_twice() {
    assert_eq!(
        expand_macros(tokens_of(b"%a { 01 } %a { 02 } a")),
        Err((
            vec![Error::MacroDefinedMoreThanOnce {
                name: b"a".to_vec(),
                span: at(10, 12),
                other_span: at(0, 2),
            }],
            vec![]
        ))
    );
}

#[test]
fn unused_macro_is_warned_of() {
    assert_eq!(
        expand_macros(tokens_of(b"%a { 01 } %b { 02 } b")),
        Ok((vec![byte(2, 15)], vec![Warning::MacroUnused { name: b"a".to_vec(), span: at(0, 2) }]))
    );
}

#[test]
fn macro_invoked_only_in_a_body_counts_as_used() {
    assert_eq!(
        expand_macros(tokens_of(b"%a { 01 } %b { a }")).unwrap().1,
        vec![Warning::MacroUnused { name: b"b".to_vec(), span: at(10, 12) }]
    );
}

#[test]
fn brace_that_follows_no_definition() {
    assert_eq!(
        expand_macros(tokens_of(b"01 { 02 } 03")),
        Err((vec![Error::OpeningBraceNotAfterMacroDefinition { span: at(3, 4) }], vec![]))
    );
    assert_eq!(
        expand_macros(tokens_of(b"%a 01 { 02 }")).unwrap_err().0,
        vec![Error::OpeningBraceNotAfterMacroDefinition { span: at(6, 7) }]
    );
}

#[test]
fn closing_brace_without_opening_one() {
    assert_eq!(
        expand_macros(tokens_of(b"01 }")),
        Err((vec![Error::NoMatchingOpeningBrace { span: at(3, 4) }], vec![]))
    );
}

#[test]
fn opening_brace_without_closing_one() {
    assert_eq!(
        expand_macros(tokens_of(b"%a { 01 { 02 }")).unwrap_err().0,
        vec![Error::NoMatchingClosingBrace { span: at(3, 4) }]
    );
}

#[test]
fn macro_that_invokes_itself() {
    assert_eq!(
        expand_macros(tokens_of(b"%a { a } a")),
        Err((
            vec![Error::RecursiveMacro { chain: vec![(b"a".to_vec(), at(5, 6))], span: at(9, 10) }],
            vec![]
        ))
    );
}

#[test]
fn macros_that_invoke_each_other() {
    assert_eq!(
        expand_macros(tokens_of(b"%a { b } %b { c } %c { a } a")),
        Err((
            vec![Error::RecursiveMacro {
                chain: vec![
                    (b"a".to_vec(), at(23, 24)),
                    (b"b".to_vec(), at(5, 6)),
                    (b"c".to_vec(), at(14, 15)),
                ],
                span: at(27, 28),
            }],
            vec![]
        ))
    );
}

#[test]
fn recursion_below_the_first_invocation_starts_at_its_own() {
    assert_eq!(
        expand_macros(tokens_of(b"%x { a } %a { a } x")).unwrap_err().0,
        vec![Error::RecursiveMacro { chain: vec![(b"a".to_vec(), at(14, 15))], span: at(5, 6) }]
    );
}

#[test]
fn error_in_a_body_is_wrapped_with_the_invocation() {
    assert_eq!(
        expand_macros(tokens_of(b"%a { foo } a")).unwrap_err().0,
        vec![Error::MacroError {
            original_error: Box::new(Error::MacroUndefined {
                name: b"foo".to_vec(),
                span: at(5, 8)
            }),
            span: at(11, 12),
        }]
    );
}

#[test]
fn error_two_bodies_deep_is_wrapped_twice() {
    assert_eq!(
        expand_macros(tokens_of(b"%a { b } %b { foo } a")).unwrap_err().0,
        vec![Error::MacroError {
            original_error: Box::new(Error::MacroError {
                original_error: Box::new(Error::MacroUndefined {
                    name: b"foo".to_vec(),
                    span: at(14, 17)
                }),
                span: at(5, 6),
            }),
            span: at(20, 21),
        }]
    );
}

#[test]
fn definition_inside_a_body_is_an_error_when_the_body_is_expanded() {
    assert_eq!(
        expand_macros(tokens_of(b"%a { %b { 01 } } %b { 02 } a")).unwrap_err().0,
        vec![Error::MacroError {
            original_error: Box::new(Error::MacroDefinedMoreThanOnce {
                name: b"b".to_vec(),
                span: at(5, 7),
                other_span: at(17, 19),
            }),
            span: at(27, 28),
        }]
    );
}

#[test]
fn body_with_a_definition_is_no_error_while_nothing_invokes_it() {
    assert_eq!(
        expand_macros(tokens_of(b"%a { %b { 01 } } 03")),
        Ok((vec![byte(3, 17)], vec![Warning::MacroUnused { name: b"a".to_vec(), span: at(0, 2) }]))
    );
}

#[test]
fn errors_of_the_first_pass_come_before_those_of_the_expansion() {
    assert_eq!(
        expand_macros(tokens_of(b"foo }")).unwrap_err().0,
        vec![
            Error::NoMatchingOpeningBrace { span: at(4, 5) },
            Error::MacroUndefined { name: b"foo".to_vec(), span: at(0, 3) },
        ]
    );
}
