use ruxnasm::bytes::{append_bytes, bytes_eq, clone_bytes, find_byte, slice_bytes};
use ruxnasm::diagnostic::{quote, quote_pair, text_bytes};
use ruxnasm::emitter::encode_instruction;
use ruxnasm::error::{clone_chain, Error, Warning};
use ruxnasm::lexeme::{
    hex_digit, parse_hex, parse_identifier, parse_instruction, parse_mnemonic, tokenize, HexNumber,
};
use ruxnasm::scanner::whitespace;
use ruxnasm::span::{Span, Spanned};
use ruxnasm::token::{
    capital_letter, clone_token, Instruction, InstructionKind, ScopedIdentifier, Statement, Token,
};
use ruxnasm::views::{append_view, push_view};

fn at(from: usize, to: usize) -> Span {
    Span { from, to, line: 3, column: 7 }
}

#[test]
fn byte_strings_are_copied_compared_and_joined() {
    let a = b"label".to_vec();
    assert_eq!(clone_bytes(&a), a);
    assert_eq!(clone_bytes(&vec![]), Vec::<u8>::new());
    assert!(bytes_eq(&a, &b"label".to_vec()));
    assert!(!bytes_eq(&a, &b"labe".to_vec()));
    assert!(!bytes_eq(&a, &b"labek".to_vec()));
    assert!(bytes_eq(&vec![], &vec![]));
    let mut joined = b"ab".to_vec();
    append_bytes(&mut joined, &b"cd".to_vec());
    append_bytes(&mut joined, &vec![]);
    assert_eq!(joined, b"abcd".to_vec());
}

#[test]
fn byte_strings_are_cut_and_searched() {
    let text = b"a/b/c".to_vec();
    assert_eq!(slice_bytes(&text, 0, 5), text);
    assert_eq!(slice_bytes(&text, 2, 3), b"b".to_vec());
    assert_eq!(slice_bytes(&text, 5, 5), Vec::<u8>::new());
    assert_eq!(find_byte(&text, b'/'), Some(1));
    assert_eq!(find_byte(&text, b'c'), Some(4));
    assert_eq!(find_byte(&text, b'd'), None);
    assert_eq!(find_byte(&vec![], b'/'), None);
}

#[test]
fn vectors_grow_at_the_end() {
    let mut tokens = vec![Token::RawHexByte(1)];
    push_view(&mut tokens, Token::RawHexByte(2));
    append_view(&mut tokens, vec![Token::RawHexByte(3), Token::RawHexByte(4)]);
    append_view(&mut tokens, vec![]);
    assert_eq!(
        tokens,
        vec![
            Token::RawHexByte(1),
            Token::RawHexByte(2),
            Token::RawHexByte(3),
            Token::RawHexByte(4)
        ]
    );
}

#[test]
fn part_of_a_span_stays_on_its_line() {
    let span = Span { from: 10, to: 20, line: 2, column: 5 };
    assert_eq!(span.part(0, 1), Span { from: 10, to: 11, line: 2, column: 5 });
    assert_eq!(span.part(3, 2), Span { from: 13, to: 15, line: 2, column: 8 });
    assert_eq!(span.part(9, 1), Span { from: 19, to: 20, line: 2, column: 14 });
}

#[test]
fn classes_of_bytes() {
    for b in 0..=255u8 {
        assert_eq!(whitespace(b), b == b' ' || b == b'\t' || b == b'\n' || b == b'\r');
        assert_eq!(hex_digit(b), b.is_ascii_digit() || (b'a'..=b'f').contains(&b));
        assert_eq!(capital_letter(b), b.is_ascii_uppercase());
    }
}

#[test]
fn hexadecimal_numbers_are_read() {
    assert_eq!(parse_hex(&b"00".to_vec(), at(0, 2)), Ok(HexNumber::Byte(0)));
    assert_eq!(parse_hex(&b"9f".to_vec(), at(0, 2)), Ok(HexNumber::Byte(0x9f)));
    assert_eq!(parse_hex(&b"0100".to_vec(), at(0, 4)), Ok(HexNumber::Short(0x0100)));
    assert_eq!(parse_hex(&b"fedc".to_vec(), at(0, 4)), Ok(HexNumber::Short(0xfedc)));
    assert_eq!(parse_hex(&vec![], at(0, 1)), Err(Error::HexNumberExpected { span: at(0, 1) }));
    assert_eq!(
        parse_hex(&b"0x".to_vec(), at(0, 2)),
        Err(Error::HexDigitInvalid { digit: b'x', number: b"0x".to_vec(), span: at(0, 2) })
    );
    assert_eq!(
        parse_hex(&b"abcde".to_vec(), at(0, 5)),
        Err(Error::HexNumberUnevenLength { length: 5, number: b"abcde".to_vec(), span: at(0, 5) })
    );
    assert_eq!(
        parse_hex(&b"00000000".to_vec(), at(0, 8)),
        Err(Error::HexNumberTooLong { length: 8, number: b"00000000".to_vec(), span: at(0, 8) })
    );
}

#[test]
fn every_byte_and_its_two_digits() {
    let digits = b"0123456789abcdef";
    for value in 0..=255u8 {
        let text = vec![digits[(value >> 4) as usize], digits[(value & 15) as usize]];
        assert_eq!(parse_hex(&text, at(0, 2)), Ok(HexNumber::Byte(value)));
    }
}

#[test]
fn identifiers_are_read() {
    assert_eq!(
        parse_identifier(&b"main".to_vec(), at(0, 5)),
        Ok(ScopedIdentifier::Label(b"main".to_vec()))
    );
    assert_eq!(
        parse_identifier(&b"main/loop".to_vec(), at(0, 10)),
        Ok(ScopedIdentifier::Sublabel(b"main".to_vec(), b"loop".to_vec()))
    );
    assert_eq!(
        parse_identifier(&b"&loop".to_vec(), at(0, 6)),
        Ok(ScopedIdentifier::Relative(b"loop".to_vec()))
    );
    assert_eq!(
        parse_identifier(&b"&&".to_vec(), at(0, 3)),
        Err(Error::AmpersandAtTheStartOfLabel { span: at(0, 3) })
    );
    assert_eq!(
        parse_identifier(&vec![], at(0, 1)),
        Err(Error::IdentifierExpected { span: at(0, 1) })
    );
}

#[test]
fn mnemonics_are_read_in_small_and_capital_letters() {
    assert_eq!(parse_mnemonic(&b"DEO".to_vec()), Some(InstructionKind::Deo));
    assert_eq!(parse_mnemonic(&b"deo".to_vec()), Some(InstructionKind::Deo));
    assert_eq!(parse_mnemonic(&b"DeO2k".to_vec()), Some(InstructionKind::Deo));
    assert_eq!(parse_mnemonic(&b"DEOXYRIBOSE".to_vec()), Some(InstructionKind::Deo));
    assert_eq!(parse_mnemonic(&b"DE".to_vec()), None);
    assert_eq!(parse_mnemonic(&b"NOP".to_vec()), None);
    assert_eq!(parse_mnemonic(&vec![]), None);
}

#[test]
fn instruction_that_is_none_gives_no_warning() {
    let mut warnings = vec![Warning::TokenTrimmed { span: at(0, 1) }];
    assert_eq!(parse_instruction(&b"ADDkkx".to_vec(), at(0, 6), &mut warnings), None);
    assert_eq!(parse_instruction(&b"XYZkk".to_vec(), at(0, 5), &mut warnings), None);
    assert_eq!(warnings, vec![Warning::TokenTrimmed { span: at(0, 1) }]);
}

#[test]
fn instruction_adds_its_warnings_at_the_end() {
    let mut warnings = vec![Warning::TokenTrimmed { span: at(0, 1) }];
    let span = Span { from: 4, to: 10, line: 2, column: 3 };
    assert_eq!(
        parse_instruction(&b"STH2r2".to_vec(), span, &mut warnings),
        Some(Instruction {
            instruction_kind: InstructionKind::Sth,
            short: true,
            keep: false,
            ret: true
        })
    );
    assert_eq!(
        warnings,
        vec![
            Warning::TokenTrimmed { span: at(0, 1) },
            Warning::InstructionModeDefinedMoreThanOnce {
                instruction_mode: b'2',
                instruction: b"STH".to_vec(),
                other_span: Span { from: 7, to: 8, line: 2, column: 6 },
                span: Span { from: 9, to: 10, line: 2, column: 8 },
            },
        ]
    );
}

#[test]
fn lexeme_with_a_parenthesis_is_a_parenthesis() {
    let mut warnings = vec![];
    assert_eq!(
        tokenize(&b"(".to_vec(), at(0, 1), &mut warnings),
        Ok(Token::OpeningParenthesis)
    );
    assert_eq!(
        tokenize(&b")x".to_vec(), at(0, 2), &mut warnings),
        Ok(Token::ClosingParenthesis)
    );
    assert_eq!(warnings, vec![]);
}

#[test]
fn copies_are_equal() {
    let token = Spanned {
        node: Token::LiteralAbsoluteAddress(ScopedIdentifier::Sublabel(
            b"a".to_vec(),
            b"b".to_vec(),
        )),
        span: at(1, 5),
    };
    assert_eq!(clone_token(&token), token);
    assert_eq!(token.node.duplicate(), token.node);
    let error = Error::MacroError {
        original_error: Box::new(Error::RecursiveMacro {
            chain: vec![(b"a".to_vec(), at(1, 2)), (b"b".to_vec(), at(3, 4))],
            span: at(5, 6),
        }),
        span: at(7, 8),
    };
    assert_eq!(error.duplicate(), error);
    assert_eq!(error.clone(), error);
    let warning = Warning::MacroUnused { name: b"m".to_vec(), span: at(0, 2) };
    assert_eq!(warning.duplicate(), warning);
    let chain = vec![(b"a".to_vec(), at(1, 2)), (b"b".to_vec(), at(3, 4))];
    assert_eq!(clone_chain(&chain), chain);
    let id = ScopedIdentifier::Relative(b"x".to_vec());
    assert_eq!(id.duplicate(), id);
}

#[test]
fn statement_names_what_it_refers_to() {
    let id = ScopedIdentifier::Label(b"a".to_vec());
    assert_eq!(Statement::RawAddress(id.clone()).reference(), Some(&id));
    assert_eq!(Statement::LiteralZeroPageAddress(id.clone()).reference(), Some(&id));
    assert_eq!(Statement::LiteralRelativeAddress(id.clone()).reference(), Some(&id));
    assert_eq!(Statement::LiteralAbsoluteAddress(id.clone()).reference(), Some(&id));
    assert_eq!(Statement::RawHexByte(1).reference(), None);
    assert_eq!(Statement::PadAbsolute(0x0100).reference(), None);
    assert_eq!(Statement::RawWord(b"a".to_vec()).reference(), None);
}

#[test]
fn instruction_byte_sets_one_bit_for_each_mode() {
    let byte = |short, keep, ret| {
        encode_instruction(&Instruction {
            instruction_kind: InstructionKind::Jsr,
            short,
            keep,
            ret,
        })
    };
    assert_eq!(byte(false, false, false), 0x0e);
    assert_eq!(byte(true, false, false), 0x0e | 0x20);
    assert_eq!(byte(false, false, true), 0x0e | 0x40);
    assert_eq!(byte(false, true, false), 0x0e | 0x80);
    assert_eq!(byte(true, true, true), 0x0e | 0x20 | 0x40 | 0x80);
}

#[test]
fn texts_are_joined_around_names() {
    assert_eq!(text_bytes("caf\u{e9}"), "caf\u{e9}".as_bytes().to_vec());
    assert_eq!(text_bytes(""), Vec::<u8>::new());
    assert_eq!(quote("<", &b"name".to_vec(), ">"), b"<name>".to_vec());
    assert_eq!(quote("", &vec![], ""), Vec::<u8>::new());
    assert_eq!(
        quote_pair("a ", &b"b".to_vec(), " c ", &b"d".to_vec(), " e"),
        b"a b c d e".to_vec()
    );
}
