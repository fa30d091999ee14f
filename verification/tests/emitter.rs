use ruxnasm::definitions::Definitions;
use ruxnasm::emitter::{emit, find_address, Binary};
use ruxnasm::error::{Error, Warning};
use ruxnasm::span::{Span, Spanned};
use ruxnasm::token::{Instruction, InstructionKind, ScopedIdentifier, Statement};

fn at(from: usize, to: usize) -> Span {
    Span { from, to, line: 1, column: from + 1 }
}

fn label(name: &[u8]) -> ScopedIdentifier {
    ScopedIdentifier::Label(name.to_vec())
}

fn numbered(statements: Vec<Statement>) -> Vec<Spanned<Statement>> {
    statements
        .into_iter()
        .enumerate()
        .map(|(i, node)| Spanned { node, span: at(10 * i, 10 * i + 5) })
        .collect()
}

fn table(entries: &[(&[u8], u16)]) -> Definitions {
    let mut definitions = Definitions::new();
    for (i, (name, address)) in entries.iter().enumerate() {
        let inserted = definitions.insert(label(name), *address, at(1000 + i, 1001 + i));
        assert_eq!(inserted, Ok(()));
    }
    definitions
}

fn bytes_of(statements: Vec<Statement>, entries: &[(&[u8], u16)]) -> Vec<u8> {
    emit(numbered(statements), table(entries)).unwrap().0
}

fn errors_of(statements: Vec<Statement>, entries: &[(&[u8], u16)]) -> Vec<Error> {
    emit(numbered(statements), table(entries)).unwrap_err().0
}

fn instruction(kind: InstructionKind, short: bool, keep: bool, ret: bool) -> Statement {
    Statement::Instruction(Instruction { instruction_kind: kind, short, keep, ret })
}

#[test]
fn binary_starts_empty_at_the_origin() {
    let binary = Binary::new();
    assert_eq!(binary.get_pointer(), 0x0100);
    assert_eq!(binary.into_bytes(), Vec::<u8>::new());
}

#[test]
fn binary_push_byte_writes_and_moves_the_pointer() {
    let mut binary = Binary::new();
    binary.push_byte(0xab);
    assert_eq!(binary.get_pointer(), 0x0101);
    binary.push_byte(0xcd);
    assert_eq!(binary.get_pointer(), 0x0102);
    assert_eq!(binary.into_bytes(), vec![0xab, 0xcd]);
}

#[test]
fn binary_push_short_writes_the_high_byte_first() {
    let mut binary = Binary::new();
    binary.push_short(0x1234);
    assert_eq!(binary.get_pointer(), 0x0102);
    assert_eq!(binary.into_bytes(), vec![0x12, 0x34]);
}

#[test]
fn binary_set_pointer_leaves_a_gap_of_zeros() {
    let mut binary = Binary::new();
    binary.push_byte(0x01);
    binary.set_pointer(0x0104);
    assert_eq!(binary.get_pointer(), 0x0104);
    binary.push_byte(0x02);
    assert_eq!(binary.into_bytes(), vec![0x01, 0x00, 0x00, 0x00, 0x02]);
}

#[test]
fn binary_increment_pointer_writes_nothing() {
    let mut binary = Binary::new();
    binary.push_byte(0x01);
    binary.increment_pointer(0x10);
    assert_eq!(binary.get_pointer(), 0x0111);
    assert_eq!(binary.into_bytes(), vec![0x01]);
}

#[test]
fn binary_takes_a_byte_at_the_last_but_one_address() {
    let mut binary = Binary::new();
    binary.set_pointer(0xfffe);
    binary.push_byte(0x77);
    assert_eq!(binary.get_pointer(), 0xffff);
    let bytes = binary.into_bytes();
    assert_eq!(bytes.len(), 0xfeff);
    assert_eq!(bytes[0xfefe], 0x77);
    assert_eq!(bytes[0], 0x00);
}

#[test]
fn binary_converts_into_its_bytes() {
    let mut binary = Binary::new();
    binary.push_short(0xbeef);
    let bytes: Vec<u8> = binary.into();
    assert_eq!(bytes, vec![0xbe, 0xef]);
}

#[test]
fn find_address_of_a_known_label() {
    let definitions = table(&[(b"a", 0x0123), (b"b", 0x0456)]);
    assert_eq!(find_address(&label(b"b"), &definitions, &at(0, 2)), Ok((0x0456, at(1001, 1002))));
    assert_eq!(find_address(&label(b"a"), &definitions, &at(0, 2)), Ok((0x0123, at(1000, 1001))));
}

#[test]
fn find_address_of_an_unknown_label() {
    let definitions = table(&[(b"a", 0x0123)]);
    assert_eq!(
        find_address(&label(b"c"), &definitions, &at(7, 9)),
        Err(Error::LabelUndefined { name: b"c".to_vec(), span: at(7, 9) })
    );
    assert_eq!(
        find_address(
            &ScopedIdentifier::Sublabel(b"a".to_vec(), b"x".to_vec()),
            &definitions,
            &at(7, 9)
        ),
        Err(Error::LabelUndefined { name: b"a/x".to_vec(), span: at(7, 9) })
    );
}

#[test]
fn no_statements_give_no_bytes() {
    assert_eq!(emit(vec![], Definitions::new()), Ok((vec![], vec![])));
}

#[test]
fn instruction_byte_is_the_index_with_the_mode_bits() {
    assert_eq!(bytes_of(vec![instruction(InstructionKind::Inc, false, false, false)], &[]), [0x01]);
    assert_eq!(bytes_of(vec![instruction(InstructionKind::Add, false, false, false)], &[]), [0x18]);
    assert_eq!(bytes_of(vec![instruction(InstructionKind::Add, true, false, false)], &[]), [0x38]);
    assert_eq!(bytes_of(vec![instruction(InstructionKind::Add, false, false, true)], &[]), [0x58]);
    assert_eq!(bytes_of(vec![instruction(InstructionKind::Add, false, true, false)], &[]), [0x98]);
    assert_eq!(bytes_of(vec![instruction(InstructionKind::Add, true, true, true)], &[]), [0xf8]);
    assert_eq!(bytes_of(vec![instruction(InstructionKind::Sft, true, true, true)], &[]), [0xff]);
    assert_eq!(bytes_of(vec![instruction(InstructionKind::Lit, false, true, false)], &[]), [0x80]);
}

#[test]
fn every_instruction_has_its_index() {
    let kinds = [
        (InstructionKind::Brk, 0x00),
        (InstructionKind::Lit, 0x00),
        (InstructionKind::Inc, 0x01),
        (InstructionKind::Pop, 0x02),
        (InstructionKind::Dup, 0x03),
        (InstructionKind::Nip, 0x04),
        (InstructionKind::Swp, 0x05),
        (InstructionKind::Ovr, 0x06),
        (InstructionKind::Rot, 0x07),
        (InstructionKind::Equ, 0x08),
        (InstructionKind::Neq, 0x09),
        (InstructionKind::Gth, 0x0a),
        (InstructionKind::Lth, 0x0b),
        (InstructionKind::Jmp, 0x0c),
        (InstructionKind::Jcn, 0x0d),
        (InstructionKind::Jsr, 0x0e),
        (InstructionKind::Sth, 0x0f),
        (InstructionKind::Ldz, 0x10),
        (InstructionKind::Stz, 0x11),
        (InstructionKind::Ldr, 0x12),
        (InstructionKind::Str, 0x13),
        (InstructionKind::Lda, 0x14),
        (InstructionKind::Sta, 0x15),
        (InstructionKind::Dei, 0x16),
        (InstructionKind::Deo, 0x17),
        (InstructionKind::Add, 0x18),
        (InstructionKind::Sub, 0x19),
        (InstructionKind::Mul, 0x1a),
        (InstructionKind::Div, 0x1b),
        (InstructionKind::And, 0x1c),
        (InstructionKind::Ora, 0x1d),
        (InstructionKind::Eor, 0x1e),
        (InstructionKind::Sft, 0x1f),
    ];
    for (kind, index) in kinds {
        assert_eq!(bytes_of(vec![instruction(kind, false, false, false)], &[]), [index]);
    }
}

#[test]
fn values_and_their_prefixes() {
    assert_eq!(bytes_of(vec![Statement::LiteralHexByte(0x12)], &[]), [0x80, 0x12]);
    assert_eq!(bytes_of(vec![Statement::LiteralHexShort(0x1234)], &[]), [0x20, 0x12, 0x34]);
    assert_eq!(bytes_of(vec![Statement::RawHexByte(0x12)], &[]), [0x12]);
    assert_eq!(bytes_of(vec![Statement::RawHexShort(0x1234)], &[]), [0x12, 0x34]);
    assert_eq!(bytes_of(vec![Statement::RawChar(b'a')], &[]), [0x61]);
    assert_eq!(bytes_of(vec![Statement::RawWord(b"hi!".to_vec())], &[]), [0x68, 0x69, 0x21]);
}

#[test]
fn references_that_are_found() {
    let entries: &[(&[u8], u16)] = &[(b"z", 0x0012), (b"far", 0xabcd)];
    assert_eq!(
        bytes_of(vec![Statement::LiteralZeroPageAddress(label(b"z"))], entries),
        [0x80, 0x12]
    );
    assert_eq!(
        bytes_of(vec![Statement::LiteralAbsoluteAddress(label(b"far"))], entries),
        [0x20, 0xab, 0xcd]
    );
    assert_eq!(bytes_of(vec![Statement::RawAddress(label(b"far"))], entries), [0xab, 0xcd]);
    assert_eq!(bytes_of(vec![Statement::RawAddress(label(b"z"))], entries), [0x00, 0x12]);
}

#[test]
fn zero_page_reference_takes_addresses_up_to_ff() {
    assert_eq!(
        bytes_of(vec![Statement::LiteralZeroPageAddress(label(b"z"))], &[(b"z", 0x00ff)]),
        [0x80, 0xff]
    );
    assert_eq!(
        errors_of(vec![Statement::LiteralZeroPageAddress(label(b"z"))], &[(b"z", 0x0100)]),
        vec![Error::AddressNotZeroPage {
            address: 0x0100,
            identifier: b"z".to_vec(),
            span: at(0, 5)
        }]
    );
}

#[test]
fn relative_reference_counts_from_three_bytes_on() {
    let relative = || Statement::LiteralRelativeAddress(label(b"t"));
    assert_eq!(bytes_of(vec![relative()], &[(b"t", 0x0103)]), [0x80, 0x00]);
    assert_eq!(bytes_of(vec![relative()], &[(b"t", 0x0104)]), [0x80, 0x01]);
    assert_eq!(bytes_of(vec![relative()], &[(b"t", 0x0100)]), [0x80, 0xfd]);
    assert_eq!(
        bytes_of(vec![Statement::PadAbsolute(0x0200), relative()], &[(b"t", 0x0210)])[0x100..],
        [0x80, 0x0d]
    );
}

#[test]
fn relative_reference_reaches_one_hundred_and_twenty_six_bytes() {
    let relative = || Statement::LiteralRelativeAddress(label(b"t"));
    let from = |pointer: u16| vec![Statement::PadAbsolute(pointer), relative()];
    assert_eq!(bytes_of(from(0x0200), &[(b"t", 0x0281)])[0x100..], [0x80, 0x7e]);
    assert_eq!(bytes_of(from(0x0200), &[(b"t", 0x0185)])[0x100..], [0x80, 0x82]);
    assert_eq!(
        errors_of(from(0x0200), &[(b"t", 0x0282)]),
        vec![Error::AddressTooFar {
            distance: 127,
            identifier: b"t".to_vec(),
            span: at(10, 15),
            other_span: at(1000, 1001),
        }]
    );
    assert_eq!(
        errors_of(from(0x0200), &[(b"t", 0x0184)]),
        vec![Error::AddressTooFar {
            distance: 127,
            identifier: b"t".to_vec(),
            span: at(10, 15),
            other_span: at(1000, 1001),
        }]
    );
    assert_eq!(
        errors_of(from(0xfff0), &[(b"t", 0x0000)]),
        vec![Error::AddressTooFar {
            distance: 0xfff3,
            identifier: b"t".to_vec(),
            span: at(10, 15),
            other_span: at(1000, 1001),
        }]
    );
}

#[test]
fn unknown_label_is_an_error_for_each_kind_of_reference() {
    let kinds: [fn(ScopedIdentifier) -> Statement; 4] = [
        Statement::LiteralZeroPageAddress,
        Statement::LiteralRelativeAddress,
        Statement::LiteralAbsoluteAddress,
        Statement::RawAddress,
    ];
    for kind in kinds {
        assert_eq!(
            errors_of(vec![kind(ScopedIdentifier::Sublabel(b"a".to_vec(), b"b".to_vec()))], &[]),
            vec![Error::LabelUndefined { name: b"a/b".to_vec(), span: at(0, 5) }]
        );
    }
}

#[test]
fn errors_come_in_the_order_of_the_statements() {
    assert_eq!(
        errors_of(
            vec![
                Statement::RawAddress(label(b"x")),
                Statement::RawHexByte(1),
                Statement::LiteralZeroPageAddress(label(b"a")),
                Statement::LiteralAbsoluteAddress(label(b"y")),
            ],
            &[(b"a", 0x0300)]
        ),
        vec![
            Error::LabelUndefined { name: b"x".to_vec(), span: at(0, 5) },
            Error::AddressNotZeroPage {
                address: 0x0300,
                identifier: b"a".to_vec(),
                span: at(20, 25)
            },
            Error::LabelUndefined { name: b"y".to_vec(), span: at(30, 35) },
        ]
    );
}

#[test]
fn reference_that_fails_keeps_its_room() {
    let after = |failing: Statement, width: u16| {
        let statements = vec![failing, Statement::LiteralRelativeAddress(label(b"t"))];
        let target = 0x0100 + width + 3 + 0x7e;
        let fits = emit(numbered(statements.clone()), table(&[(b"t", target)])).unwrap_err().0;
        assert_eq!(fits, vec![Error::LabelUndefined { name: b"x".to_vec(), span: at(0, 5) }]);
        let far = emit(numbered(statements), table(&[(b"t", target + 1)])).unwrap_err().0;
        assert_eq!(far.len(), 2);
    };
    after(Statement::LiteralZeroPageAddress(label(b"x")), 2);
    after(Statement::LiteralRelativeAddress(label(b"x")), 2);
    after(Statement::LiteralAbsoluteAddress(label(b"x")), 3);
    after(Statement::RawAddress(label(b"x")), 2);
}

#[test]
fn pads_leave_zeros_between_bytes_and_none_at_the_end() {
    assert_eq!(
        bytes_of(
            vec![
                Statement::RawHexByte(1),
                Statement::PadAbsolute(0x0104),
                Statement::RawHexByte(2),
                Statement::PadRelative(2),
                Statement::RawHexByte(3),
                Statement::PadRelative(0x100),
                Statement::PadAbsolute(0x4000),
            ],
            &[]
        ),
        [1, 0, 0, 0, 2, 0, 0, 3]
    );
}

#[test]
fn pad_puts_the_next_byte_at_its_address() {
    let bytes = bytes_of(vec![Statement::PadAbsolute(0x0345), Statement::RawHexByte(0x99)], &[]);
    assert_eq!(bytes.len(), 0x0246);
    assert_eq!(bytes[0x0345 - 0x0100], 0x99);
    assert!(bytes[..0x0245].iter().all(|b| *b == 0));
}

#[test]
fn empty_word_writes_nothing() {
    assert_eq!(
        bytes_of(
            vec![
                Statement::RawHexByte(1),
                Statement::PadRelative(3),
                Statement::RawWord(vec![]),
            ],
            &[]
        ),
        [1]
    );
}

#[test]
fn program_can_fill_the_image_up_to_the_last_but_one_address() {
    let bytes = bytes_of(vec![Statement::PadAbsolute(0xfffd), Statement::RawHexShort(0xa1b2)], &[]);
    assert_eq!(bytes.len(), 0xfeff);
    assert!(bytes.len() <= 65280);
    assert_eq!(bytes[0xfefd..], [0xa1, 0xb2]);
}

#[test]
fn labels_that_nothing_refers_to_are_warned_of_in_their_order() {
    let mut definitions = Definitions::new();
    definitions.insert(label(b"used"), 0x0100, at(1, 2)).unwrap();
    definitions.insert(label(b"idle"), 0x0101, at(3, 4)).unwrap();
    definitions.insert(label(b"Idle"), 0x0102, at(5, 6)).unwrap();
    definitions
        .insert(ScopedIdentifier::Sublabel(b"idle".to_vec(), b"x".to_vec()), 0x0103, at(7, 8))
        .unwrap();
    definitions
        .insert(ScopedIdentifier::Sublabel(b"Idle".to_vec(), b"x".to_vec()), 0x0104, at(9, 10))
        .unwrap();
    definitions.insert(label(b"zed"), 0x0105, at(11, 12)).unwrap();
    assert_eq!(
        emit(numbered(vec![Statement::RawAddress(label(b"used"))]), definitions),
        Ok((
            vec![0x01, 0x00],
            vec![
                Warning::LabelUnused { name: b"idle".to_vec(), span: at(3, 4) },
                Warning::LabelUnused { name: b"idle/x".to_vec(), span: at(7, 8) },
                Warning::LabelUnused { name: b"zed".to_vec(), span: at(11, 12) },
            ]
        ))
    );
}

#[test]
fn label_referred_to_by_a_failing_reference_counts_as_used() {
    assert_eq!(
        emit(
            numbered(vec![Statement::LiteralZeroPageAddress(label(b"a"))]),
            table(&[(b"a", 0x0200), (b"b", 0x0201)])
        ),
        Err((
            vec![Error::AddressNotZeroPage {
                address: 0x0200,
                identifier: b"a".to_vec(),
                span: at(0, 5)
            }],
            vec![Warning::LabelUnused { name: b"b".to_vec(), span: at(1001, 1002) }]
        ))
    );
}
