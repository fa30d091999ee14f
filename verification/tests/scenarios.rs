use ruxnasm::assemble;
use ruxnasm::error::{Error, Warning};
use ruxnasm::span::Span;

fn span(from: usize, to: usize, line: usize, column: usize) -> Span {
    Span { from, to, line, column }
}

fn at(from: usize, to: usize) -> Span {
    span(from, to, 1, from + 1)
}

#[test]
fn empty_program_gives_no_bytes() {
    assert_eq!(assemble(b""), Ok((vec![], vec![])));
}

#[test]
fn literal_byte_has_its_prefix() {
    assert_eq!(assemble(b"|0100 #ff"), Ok((vec![0x80, 0xff], vec![])));
}

#[test]
fn raw_byte_stands_alone() {
    assert_eq!(assemble(b"|0100 ff"), Ok((vec![0xff], vec![])));
}

#[test]
fn absolute_reference_holds_the_address() {
    assert_eq!(
        assemble(b"|0100 ;foo BRK @foo #01"),
        Ok((vec![0x20, 0x01, 0x04, 0x00, 0x80, 0x01], vec![]))
    );
}

#[test]
fn macro_that_invokes_itself_is_recursive() {
    assert_eq!(
        assemble(b"%a { a } |0100 a"),
        Err((
            vec![Error::RecursiveMacro {
                chain: vec![(b"a".to_vec(), at(5, 6))],
                span: at(15, 16),
            }],
            vec![]
        ))
    );
}

#[test]
fn zero_page_reference_to_a_far_label_fails() {
    assert_eq!(
        assemble(b"|0100 .foo BRK |0200 @foo"),
        Err((
            vec![Error::AddressNotZeroPage {
                address: 0x0200,
                identifier: b"foo".to_vec(),
                span: at(6, 10),
            }],
            vec![]
        ))
    );
}

#[test]
fn unused_label_is_warned_of() {
    assert_eq!(
        assemble(b"|0100 @foo BRK"),
        Ok((vec![0x00], vec![Warning::LabelUnused { name: b"foo".to_vec(), span: at(6, 10) }]))
    );
}

#[test]
fn unused_capital_label_is_not_warned_of() {
    assert_eq!(assemble(b"|0100 @Foo BRK"), Ok((vec![0x00], vec![])));
}

#[test]
fn small_program() {
    let source = b"( counts down from ten )
%dec { #01 SUB }
|0100 @Main
    #0a
    &loop
        dec DUP ,&loop JCN
    POP BRK
";
    assert_eq!(
        assemble(source),
        Ok((
            vec![0x80, 0x0a, 0x80, 0x01, 0x19, 0x03, 0x80, 0xf9, 0x0d, 0x02, 0x00],
            vec![]
        ))
    );
}

#[test]
fn forward_and_backward_references() {
    assert_eq!(
        assemble(b";end ,end :end @end ,end ;end"),
        Ok((
            vec![0x20, 0x01, 0x07, 0x80, 0x01, 0x01, 0x07, 0x80, 0xfd, 0x20, 0x01, 0x07],
            vec![]
        ))
    );
}

#[test]
fn words_characters_and_brackets() {
    assert_eq!(
        assemble(b"[ \"hello 'w 20 ] 0a0d"),
        Ok((vec![0x68, 0x65, 0x6c, 0x6c, 0x6f, 0x77, 0x20, 0x0a, 0x0d], vec![]))
    );
}

#[test]
fn errors_of_the_scanner_end_the_run() {
    assert_eq!(
        assemble(b"#1 nope ;nowhere"),
        Err((
            vec![Error::HexNumberUnevenLength {
                length: 1,
                number: b"1".to_vec(),
                span: at(0, 2)
            }],
            vec![]
        ))
    );
}

#[test]
fn errors_of_the_macro_processor_end_the_run() {
    assert_eq!(
        assemble(b"nope ;nowhere @a @a"),
        Err((vec![Error::MacroUndefined { name: b"nope".to_vec(), span: at(0, 4) }], vec![]))
    );
}

#[test]
fn errors_of_the_walker_end_the_run() {
    assert_eq!(
        assemble(b";nowhere @a @a"),
        Err((
            vec![Error::LabelDefinedMoreThanOnce {
                name: b"a".to_vec(),
                span: at(12, 14),
                other_span: at(9, 11),
            }],
            vec![]
        ))
    );
}

#[test]
fn errors_of_the_emitter_come_last() {
    assert_eq!(
        assemble(b";nowhere @a"),
        Err((
            vec![Error::LabelUndefined { name: b"nowhere".to_vec(), span: at(0, 8) }],
            vec![Warning::LabelUnused { name: b"a".to_vec(), span: at(9, 11) }]
        ))
    );
}

#[test]
fn warnings_come_in_the_order_of_the_stages() {
    assert_eq!(
        assemble(b"@a %m { 01 } ADD22"),
        Ok((
            vec![0x38],
            vec![
                Warning::InstructionModeDefinedMoreThanOnce {
                    instruction_mode: b'2',
                    instruction: b"ADD".to_vec(),
                    span: at(17, 18),
                    other_span: at(16, 17),
                },
                Warning::MacroUnused { name: b"m".to_vec(), span: at(3, 5) },
                Warning::LabelUnused { name: b"a".to_vec(), span: at(0, 2) },
            ]
        ))
    );
}

#[test]
fn warnings_go_with_the_errors_of_a_later_stage() {
    assert_eq!(
        assemble(b"ADDkk %m ]"),
        Err((
            vec![Error::NoMatchingOpeningBracket { span: at(9, 10) }],
            vec![
                Warning::InstructionModeDefinedMoreThanOnce {
                    instruction_mode: b'k',
                    instruction: b"ADD".to_vec(),
                    span: at(4, 5),
                    other_span: at(3, 4),
                },
                Warning::MacroUnused { name: b"m".to_vec(), span: at(6, 8) },
            ]
        ))
    );
}

#[test]
fn label_cannot_stand_in_the_zeroth_page() {
    assert_eq!(
        assemble(b"|0000 @zero |0100 .zero"),
        Err((
            vec![Error::PaddedBackwards {
                previous_pointer: 0x0100,
                desired_pointer: 0x0000,
                span: at(0, 5)
            }],
            vec![]
        ))
    );
}

#[test]
fn two_runs_give_the_same() {
    let sources: [&[u8]; 5] = [
        b"",
        b"|0100 ;foo BRK @foo #01",
        b"%a { a } |0100 a",
        b"@x @y @z ADDkk %m { } ;nowhere .x",
        b"( ( ]",
    ];
    for source in sources {
        assert_eq!(assemble(source), assemble(source));
    }
}

#[test]
fn program_is_never_longer_than_the_image() {
    let (bytes, _) = assemble(b"|fffe ff").unwrap();
    assert_eq!(bytes.len(), 0xfeff);
    assert!(bytes.len() <= 65280);
    assert_eq!(bytes[0xfefe], 0xff);
    assert!(assemble(b"|fffe ff ff").is_err());
}

#[test]
fn label_address_is_where_the_next_byte_goes() {
    let (bytes, _) = assemble(b"01 02 |0110 @here aa :here").unwrap();
    assert_eq!(bytes[0x10], 0xaa);
    assert_eq!(bytes[0x11..], [0x01, 0x10]);
}

#[test]
fn expansion_keeps_the_spans_of_the_body() {
    assert_eq!(
        assemble(b"%jump { ;nowhere } jump"),
        Err((
            vec![Error::LabelUndefined { name: b"nowhere".to_vec(), span: at(8, 16) }],
            vec![]
        ))
    );
}

#[test]
fn sublabel_in_a_body_goes_under_the_label_of_the_invocation() {
    assert_eq!(
        assemble(b"%here { &x } @a here @b here :a/x :b/x"),
        Ok((vec![0x01, 0x00, 0x01, 0x00], vec![
            Warning::LabelUnused { name: b"a".to_vec(), span: at(13, 15) },
            Warning::LabelUnused { name: b"b".to_vec(), span: at(21, 23) },
        ]))
    );
}

#[test]
fn program_that_prints_a_text() {
    let source = b"( prints a text to the console )
%EMIT { #18 DEO }

|0100 @Main
    ;text
    &loop
        LDAk EMIT
        INC2 LDAk ,&loop JCN
    POP2 BRK

@text [ \"Hello 20 \"World 0a 00 ]
";
    assert_eq!(
        assemble(source),
        Ok((
            vec![
                0x20, 0x01, 0x0e, 0x94, 0x80, 0x18, 0x17, 0x21, 0x94, 0x80, 0xf7, 0x0d, 0x22,
                0x00, 0x48, 0x65, 0x6c, 0x6c, 0x6f, 0x20, 0x57, 0x6f, 0x72, 0x6c, 0x64, 0x0a,
                0x00,
            ],
            vec![]
        ))
    );
}

#[test]
fn source_that_is_no_text_is_taken_as_bytes() {
    assert_eq!(assemble(b"\"\xff\xfe '\x80"), Ok((vec![0xff, 0xfe, 0x80], vec![])));
}
