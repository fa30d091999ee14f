use ruxnasm::error::{Error, Warning};
use ruxnasm::scanner::scan;
use ruxnasm::span::{Span, Spanned};
use ruxnasm::token::{Instruction, InstructionKind, ScopedIdentifier, Token};

fn sp(from: usize, to: usize, line: usize, column: usize) -> Span {
    Span { from, to, line, column }
}

fn one_token(source: &[u8]) -> Token {
    match scan(source) {
        Ok((mut tokens, _)) => {
            assert_eq!(tokens.len(), 1);
            tokens.remove(0).node
        }
        Err((errors, _)) => panic!("scan failed: {:?}", errors),
    }
}

fn one_error(source: &[u8]) -> Error {
    match scan(source) {
        Ok((tokens, _)) => panic!("scan gave {:?}", tokens),
        Err((mut errors, _)) => {
            assert_eq!(errors.len(), 1);
            errors.remove(0)
        }
    }
}

fn whole(source: &[u8]) -> Span {
    sp(0, source.len(), 1, 1)
}

#[test]
fn empty_source_has_no_tokens() {
    assert_eq!(scan(b""), Ok((vec![], vec![])));
    assert_eq!(scan(b" \t\r\n "), Ok((vec![], vec![])));
}

#[test]
fn whitespace_parts_lexemes_and_spans_count_lines() {
    let tokens = scan(b"01\t02\n03\r04 ").unwrap().0;
    assert_eq!(
        tokens,
        vec![
            Spanned { node: Token::RawHexByte(1), span: sp(0, 2, 1, 1) },
            Spanned { node: Token::RawHexByte(2), span: sp(3, 5, 1, 4) },
            Spanned { node: Token::RawHexByte(3), span: sp(6, 8, 2, 1) },
            Spanned { node: Token::RawHexByte(4), span: sp(9, 11, 2, 4) },
        ]
    );
}

#[test]
fn comments_are_left_out() {
    let tokens = scan(b"( a comment ) 01").unwrap().0;
    assert_eq!(tokens, vec![Spanned { node: Token::RawHexByte(1), span: sp(14, 16, 1, 15) }]);
}

#[test]
fn comments_nest() {
    let tokens = scan(b"( a ( b ) #zz ) 02").unwrap().0;
    assert_eq!(tokens, vec![Spanned { node: Token::RawHexByte(2), span: sp(16, 18, 1, 17) }]);
}

#[test]
fn lexeme_that_begins_with_a_parenthesis_opens_a_comment() {
    let tokens = scan(b"(note 01 ) 02").unwrap().0;
    assert_eq!(tokens, vec![Spanned { node: Token::RawHexByte(2), span: sp(11, 13, 1, 12) }]);
}

#[test]
fn closing_parenthesis_without_opening_one() {
    assert_eq!(
        scan(b") 01"),
        Err((vec![Error::NoMatchingOpeningParenthesis { span: sp(0, 1, 1, 1) }], vec![]))
    );
}

#[test]
fn opening_parentheses_without_closing_ones() {
    assert_eq!(
        scan(b"01 ( x\n( y"),
        Err((
            vec![
                Error::NoMatchingClosingParenthesis { span: sp(3, 4, 1, 4) },
                Error::NoMatchingClosingParenthesis { span: sp(7, 8, 2, 1) },
            ],
            vec![]
        ))
    );
}

#[test]
fn brackets_and_braces() {
    assert_eq!(one_token(b"["), Token::OpeningBracket);
    assert_eq!(one_token(b"]"), Token::ClosingBracket);
    assert_eq!(one_token(b"{"), Token::OpeningBrace);
    assert_eq!(one_token(b"}"), Token::ClosingBrace);
}

#[test]
fn raw_hex_numbers() {
    assert_eq!(one_token(b"00"), Token::RawHexByte(0x00));
    assert_eq!(one_token(b"a9"), Token::RawHexByte(0xa9));
    assert_eq!(one_token(b"ff"), Token::RawHexByte(0xff));
    assert_eq!(one_token(b"0000"), Token::RawHexShort(0x0000));
    assert_eq!(one_token(b"12ef"), Token::RawHexShort(0x12ef));
    assert_eq!(one_token(b"ffff"), Token::RawHexShort(0xffff));
}

#[test]
fn literal_hex_numbers() {
    assert_eq!(one_token(b"#7f"), Token::LiteralHexByte(0x7f));
    assert_eq!(one_token(b"#abcd"), Token::LiteralHexShort(0xabcd));
}

#[test]
fn pads() {
    assert_eq!(one_token(b"|0100"), Token::PadAbsolute(0x0100));
    assert_eq!(one_token(b"|20"), Token::PadAbsolute(0x0020));
}

#[test]
fn relative_pads() {
    assert_eq!(one_token(b"$02"), Token::PadRelative(0x0002));
    assert_eq!(one_token(b"$0100"), Token::PadRelative(0x0100));
    assert_eq!(
        one_error(b"$2"),
        Error::HexNumberUnevenLength { length: 1, number: b"2".to_vec(), span: whole(b"$2") }
    );
}

#[test]
fn hex_number_errors() {
    assert_eq!(one_error(b"#"), Error::HexNumberExpected { span: whole(b"#") });
    assert_eq!(one_error(b"|"), Error::HexNumberExpected { span: whole(b"|") });
    assert_eq!(
        one_error(b"#f"),
        Error::HexNumberUnevenLength { length: 1, number: b"f".to_vec(), span: whole(b"#f") }
    );
    assert_eq!(
        one_error(b"#12345"),
        Error::HexNumberUnevenLength {
            length: 5,
            number: b"12345".to_vec(),
            span: whole(b"#12345")
        }
    );
    assert_eq!(
        one_error(b"#123456"),
        Error::HexNumberTooLong { length: 6, number: b"123456".to_vec(), span: whole(b"#123456") }
    );
    assert_eq!(
        one_error(b"#1g2h"),
        Error::HexDigitInvalid { digit: b'g', number: b"1g2h".to_vec(), span: whole(b"#1g2h") }
    );
    assert_eq!(
        one_error(b"#FF"),
        Error::HexDigitInvalid { digit: b'F', number: b"FF".to_vec(), span: whole(b"#FF") }
    );
}

#[test]
fn lexeme_of_hex_digits_that_is_no_byte_or_short_invokes_a_macro() {
    assert_eq!(one_token(b"a"), Token::MacroInvoke(b"a".to_vec()));
    assert_eq!(one_token(b"abc"), Token::MacroInvoke(b"abc".to_vec()));
    assert_eq!(one_token(b"123456"), Token::MacroInvoke(b"123456".to_vec()));
    assert_eq!(one_token(b"emit"), Token::MacroInvoke(b"emit".to_vec()));
}

#[test]
fn raw_characters() {
    assert_eq!(one_token(b"'a"), Token::RawChar(b'a'));
    assert_eq!(one_token(b"'("), Token::RawChar(b'('));
    assert_eq!(one_error(b"'"), Error::CharacterExpected { span: whole(b"'") });
    assert_eq!(
        one_error(b"'ab"),
        Error::MoreThanOneByteFound { bytes: b"ab".to_vec(), span: whole(b"'ab") }
    );
}

#[test]
fn raw_words() {
    assert_eq!(one_token(b"\"hello"), Token::RawWord(b"hello".to_vec()));
    assert_eq!(one_token(b"\""), Token::RawWord(vec![]));
    assert_eq!(one_token(b"\"\xc3\xa9"), Token::RawWord(vec![0xc3, 0xa9]));
}

#[test]
fn label_definitions() {
    assert_eq!(one_token(b"@main"), Token::LabelDefine(b"main".to_vec()));
    assert_eq!(one_token(b"&loop"), Token::SublabelDefine(b"loop".to_vec()));
    assert_eq!(one_error(b"@"), Error::LabelExpected { span: whole(b"@") });
    assert_eq!(one_error(b"&"), Error::SublabelExpected { span: whole(b"&") });
    assert_eq!(one_error(b"@&x"), Error::AmpersandAtTheStartOfLabel { span: whole(b"@&x") });
    assert_eq!(one_error(b"@a/b"), Error::SlashInLabelOrSublabel { span: whole(b"@a/b") });
    assert_eq!(one_error(b"&a/b"), Error::SlashInLabelOrSublabel { span: whole(b"&a/b") });
}

#[test]
fn references_by_rune() {
    let id = || ScopedIdentifier::Label(b"x".to_vec());
    assert_eq!(one_token(b".x"), Token::LiteralZeroPageAddress(id()));
    assert_eq!(one_token(b",x"), Token::LiteralRelativeAddress(id()));
    assert_eq!(one_token(b";x"), Token::LiteralAbsoluteAddress(id()));
    assert_eq!(one_token(b":x"), Token::RawAddress(id()));
}

#[test]
fn scoped_identifiers() {
    assert_eq!(
        one_token(b";draw/loop"),
        Token::LiteralAbsoluteAddress(ScopedIdentifier::Sublabel(
            b"draw".to_vec(),
            b"loop".to_vec()
        ))
    );
    assert_eq!(
        one_token(b",&loop"),
        Token::LiteralRelativeAddress(ScopedIdentifier::Relative(b"loop".to_vec()))
    );
    assert_eq!(one_error(b"."), Error::IdentifierExpected { span: whole(b".") });
    assert_eq!(one_error(b".a/b/c"), Error::MoreThanOneSlashInIdentifier { span: whole(b".a/b/c") });
    assert_eq!(one_error(b".//"), Error::MoreThanOneSlashInIdentifier { span: whole(b".//") });
    assert_eq!(one_error(b"./b"), Error::SlashInLabelOrSublabel { span: whole(b"./b") });
    assert_eq!(one_error(b".a/"), Error::SublabelExpected { span: whole(b".a/") });
    assert_eq!(one_error(b".&"), Error::SublabelExpected { span: whole(b".&") });
    assert_eq!(one_error(b".&a/b"), Error::SlashInLabelOrSublabel { span: whole(b".&a/b") });
    assert_eq!(one_error(b".a/&b"), Error::AmpersandAtTheStartOfLabel { span: whole(b".a/&b") });
}

#[test]
fn macro_definitions() {
    assert_eq!(one_token(b"%print"), Token::MacroDefine(b"print".to_vec()));
    assert_eq!(one_token(b"%abc"), Token::MacroDefine(b"abc".to_vec()));
    assert_eq!(one_error(b"%"), Error::MacroNameExpected { span: whole(b"%") });
    assert_eq!(
        one_error(b"%ab"),
        Error::MacroCannotBeAHexNumber { number: b"ab".to_vec(), span: whole(b"%ab") }
    );
    assert_eq!(
        one_error(b"%dead"),
        Error::MacroCannotBeAHexNumber { number: b"dead".to_vec(), span: whole(b"%dead") }
    );
    assert_eq!(
        one_error(b"%ADD"),
        Error::MacroCannotBeAnInstruction { instruction: b"ADD".to_vec(), span: whole(b"%ADD") }
    );
    assert_eq!(
        one_error(b"%SUBTRACT"),
        Error::MacroCannotBeAnInstruction {
            instruction: b"SUBTRACT".to_vec(),
            span: whole(b"%SUBTRACT")
        }
    );
}

fn instruction(kind: InstructionKind, short: bool, keep: bool, ret: bool) -> Token {
    Token::Instruction(Instruction { instruction_kind: kind, short, keep, ret })
}

#[test]
fn instructions_and_their_modes() {
    assert_eq!(one_token(b"BRK"), instruction(InstructionKind::Brk, false, false, false));
    assert_eq!(one_token(b"ADD"), instruction(InstructionKind::Add, false, false, false));
    assert_eq!(one_token(b"ADD2"), instruction(InstructionKind::Add, true, false, false));
    assert_eq!(one_token(b"ADDk"), instruction(InstructionKind::Add, false, true, false));
    assert_eq!(one_token(b"ADDr"), instruction(InstructionKind::Add, false, false, true));
    assert_eq!(one_token(b"SFTrk2"), instruction(InstructionKind::Sft, true, true, true));
    assert_eq!(one_token(b"jmp2"), instruction(InstructionKind::Jmp, true, false, false));
}

#[test]
fn lit_is_in_keep_mode() {
    assert_eq!(one_token(b"LIT"), instruction(InstructionKind::Lit, false, true, false));
    assert_eq!(one_token(b"LIT2"), instruction(InstructionKind::Lit, true, true, false));
}

#[test]
fn every_mnemonic_is_known() {
    let table: [(&[u8], InstructionKind); 33] = [
        (b"BRK", InstructionKind::Brk),
        (b"LIT", InstructionKind::Lit),
        (b"INC", InstructionKind::Inc),
        (b"POP", InstructionKind::Pop),
        (b"DUP", InstructionKind::Dup),
        (b"NIP", InstructionKind::Nip),
        (b"SWP", InstructionKind::Swp),
        (b"OVR", InstructionKind::Ovr),
        (b"ROT", InstructionKind::Rot),
        (b"EQU", InstructionKind::Equ),
        (b"NEQ", InstructionKind::Neq),
        (b"GTH", InstructionKind::Gth),
        (b"LTH", InstructionKind::Lth),
        (b"JMP", InstructionKind::Jmp),
        (b"JCN", InstructionKind::Jcn),
        (b"JSR", InstructionKind::Jsr),
        (b"STH", InstructionKind::Sth),
        (b"LDZ", InstructionKind::Ldz),
        (b"STZ", InstructionKind::Stz),
        (b"LDR", InstructionKind::Ldr),
        (b"STR", InstructionKind::Str),
        (b"LDA", InstructionKind::Lda),
        (b"STA", InstructionKind::Sta),
        (b"DEI", InstructionKind::Dei),
        (b"DEO", InstructionKind::Deo),
        (b"ADD", InstructionKind::Add),
        (b"SUB", InstructionKind::Sub),
        (b"MUL", InstructionKind::Mul),
        (b"DIV", InstructionKind::Div),
        (b"AND", InstructionKind::And),
        (b"ORA", InstructionKind::Ora),
        (b"EOR", InstructionKind::Eor),
        (b"SFT", InstructionKind::Sft),
    ];
    for (text, kind) in table {
        match one_token(text) {
            Token::Instruction(i) => assert_eq!(i.instruction_kind, kind),
            other => panic!("{:?} read as {:?}", text, other),
        }
    }
}

#[test]
fn mnemonic_with_anything_but_modes_invokes_a_macro() {
    assert_eq!(one_token(b"ADDx"), Token::MacroInvoke(b"ADDx".to_vec()));
    assert_eq!(one_token(b"ADD3"), Token::MacroInvoke(b"ADD3".to_vec()));
    assert_eq!(one_token(b"AD"), Token::MacroInvoke(b"AD".to_vec()));
    assert_eq!(one_token(b"print"), Token::MacroInvoke(b"print".to_vec()));
    assert_eq!(one_token(b"-"), Token::MacroInvoke(b"-".to_vec()));
}

#[test]
fn mode_given_twice_is_warned_of_and_set_once() {
    assert_eq!(
        scan(b"  ADDk2k"),
        Ok((
            vec![Spanned {
                node: instruction(InstructionKind::Add, true, true, false),
                span: sp(2, 8, 1, 3)
            }],
            vec![Warning::InstructionModeDefinedMoreThanOnce {
                instruction_mode: b'k',
                instruction: b"ADD".to_vec(),
                other_span: sp(5, 6, 1, 6),
                span: sp(7, 8, 1, 8),
            }]
        ))
    );
}

#[test]
fn mode_given_three_times_is_warned_of_twice() {
    let warnings = scan(b"addrrr").unwrap().1;
    assert_eq!(
        warnings,
        vec![
            Warning::InstructionModeDefinedMoreThanOnce {
                instruction_mode: b'r',
                instruction: b"ADD".to_vec(),
                other_span: sp(3, 4, 1, 4),
                span: sp(4, 5, 1, 5),
            },
            Warning::InstructionModeDefinedMoreThanOnce {
                instruction_mode: b'r',
                instruction: b"ADD".to_vec(),
                other_span: sp(3, 4, 1, 4),
                span: sp(5, 6, 1, 6),
            },
        ]
    );
}

#[test]
fn long_lexeme_is_cut_at_sixty_four_bytes() {
    let mut source = vec![b'"'];
    source.extend(std::iter::repeat(b'x').take(70));
    let expected: Vec<u8> = std::iter::repeat(b'x').take(63).collect();
    assert_eq!(
        scan(&source),
        Ok((
            vec![Spanned { node: Token::RawWord(expected), span: sp(0, 71, 1, 1) }],
            vec![Warning::TokenTrimmed { span: sp(0, 71, 1, 1) }]
        ))
    );
}

#[test]
fn lexeme_of_sixty_four_bytes_is_not_cut() {
    let mut source = vec![b'"'];
    source.extend(std::iter::repeat(b'y').take(63));
    let expected: Vec<u8> = std::iter::repeat(b'y').take(63).collect();
    assert_eq!(
        scan(&source),
        Ok((vec![Spanned { node: Token::RawWord(expected), span: sp(0, 64, 1, 1) }], vec![]))
    );
}

#[test]
fn errors_come_in_the_order_of_the_lexemes() {
    assert_eq!(
        scan(b"#1 01 @ )"),
        Err((
            vec![
                Error::HexNumberUnevenLength {
                    length: 1,
                    number: b"1".to_vec(),
                    span: sp(0, 2, 1, 1)
                },
                Error::LabelExpected { span: sp(6, 7, 1, 7) },
                Error::NoMatchingOpeningParenthesis { span: sp(8, 9, 1, 9) },
            ],
            vec![]
        ))
    );
}
