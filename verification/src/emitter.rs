//! The emitter: from statements and labels to the bytes of the program.

use crate::definitions::{defines, lookup, unique, Definitions, LabelDefinitionView};
use crate::error::{Error, ErrorView, Warning, WarningView};
use crate::span::{Span, Spanned};
use crate::token::{
    Instruction, InstructionKind, ScopedIdentifier, ScopedIdentifierView, Statement, StatementView,
};
use crate::views::{push_view, views};
use vstd::prelude::*;

verus! {

/// The byte that makes the machine push the next byte.
pub const LIT: u8 = 0x80;

/// The byte that makes the machine push the next two bytes.
pub const LIT2: u8 = 0x20;

/// The first address that can hold a byte of the program.
pub const ORIGIN: u16 = 0x0100;

/// The number of addresses from `ORIGIN` up.
pub const IMAGE_SIZE: usize = 65280;

/// The five low bits of an instruction's byte.
pub open spec fn opcode_index(kind: InstructionKind) -> u8 {
    match kind {
        InstructionKind::Brk => 0x00,
        InstructionKind::Lit => 0x00,
        InstructionKind::Inc => 0x01,
        InstructionKind::Pop => 0x02,
        InstructionKind::Dup => 0x03,
        InstructionKind::Nip => 0x04,
        InstructionKind::Swp => 0x05,
        InstructionKind::Ovr => 0x06,
        InstructionKind::Rot => 0x07,
        InstructionKind::Equ => 0x08,
        InstructionKind::Neq => 0x09,
        InstructionKind::Gth => 0x0a,
        InstructionKind::Lth => 0x0b,
        InstructionKind::Jmp => 0x0c,
        InstructionKind::Jcn => 0x0d,
        InstructionKind::Jsr => 0x0e,
        InstructionKind::Sth => 0x0f,
        InstructionKind::Ldz => 0x10,
        InstructionKind::Stz => 0x11,
        InstructionKind::Ldr => 0x12,
        InstructionKind::Str => 0x13,
        InstructionKind::Lda => 0x14,
        InstructionKind::Sta => 0x15,
        InstructionKind::Dei => 0x16,
        InstructionKind::Deo => 0x17,
        InstructionKind::Add => 0x18,
        InstructionKind::Sub => 0x19,
        InstructionKind::Mul => 0x1a,
        InstructionKind::Div => 0x1b,
        InstructionKind::And => 0x1c,
        InstructionKind::Ora => 0x1d,
        InstructionKind::Eor => 0x1e,
        InstructionKind::Sft => 0x1f,
    }
}

/// The byte of an instruction: its index, with bit 5 for short mode, bit 6
/// for return mode and bit 7 for keep mode. The index stays under 32, so
/// that adding the bits is setting them.
pub open spec fn opcode(instruction: Instruction) -> u8 {
    (opcode_index(instruction.instruction_kind) + (if instruction.short {
        0x20int
    } else {
        0
    }) + (if instruction.ret {
        0x40int
    } else {
        0
    }) + (if instruction.keep {
        0x80int
    } else {
        0
    })) as u8
}

/// The high byte of a short.
pub open spec fn high(short: u16) -> u8 {
    (short / 256) as u8
}

/// The low byte of a short.
pub open spec fn low(short: u16) -> u8 {
    (short % 256) as u8
}

/// The byte that stands for a distance between -128 and 127 in two's
/// complement.
pub open spec fn signed_byte(offset: int) -> u8 {
    if offset >= 0 {
        offset as u8
    } else {
        (offset + 256) as u8
    }
}

/// The number of bytes that a statement takes in the image, whether or not
/// the label it names is found. A pad takes none: it moves the pointer.
pub open spec fn width(statement: StatementView) -> int {
    match statement {
        StatementView::Instruction(_) => 1,
        StatementView::PadAbsolute(_) => 0,
        StatementView::PadRelative(_) => 0,
        StatementView::LiteralZeroPageAddress(_) => 2,
        StatementView::LiteralRelativeAddress(_) => 2,
        StatementView::LiteralAbsoluteAddress(_) => 3,
        StatementView::RawAddress(_) => 2,
        StatementView::LiteralHexByte(_) => 2,
        StatementView::LiteralHexShort(_) => 3,
        StatementView::RawHexByte(_) => 1,
        StatementView::RawHexShort(_) => 2,
        StatementView::RawChar(_) => 1,
        StatementView::RawWord(word) => word.len() as int,
    }
}

/// Where the write pointer stands after a statement that found it at
/// `pointer`.
pub open spec fn pointer_next(statement: StatementView, pointer: int) -> int {
    match statement {
        StatementView::PadAbsolute(to) => to as int,
        StatementView::PadRelative(by) => pointer + by,
        _ => pointer + width(statement),
    }
}

/// Where the write pointer stands after the first `n` statements.
pub open spec fn pointer_after(statements: Seq<Spanned<StatementView>>, n: int) -> int
    decreases n,
{
    if n <= 0 {
        ORIGIN as int
    } else {
        pointer_next(statements[n - 1].node, pointer_after(statements, n - 1))
    }
}

/// The statements can be laid out: none moves the write pointer back, and
/// none moves it past the last address.
pub open spec fn fits(statements: Seq<Spanned<StatementView>>) -> bool {
    forall|n: int|
        0 <= n < statements.len() ==> {
            let before = #[trigger] pointer_after(statements, n);
            before <= pointer_next(statements[n].node, before) <= 0xffff
        }
}

/// The identifier that a statement refers to, if it refers to one.
pub open spec fn reference_of(statement: StatementView) -> Option<ScopedIdentifierView> {
    match statement {
        StatementView::LiteralZeroPageAddress(id) => Some(id),
        StatementView::LiteralRelativeAddress(id) => Some(id),
        StatementView::LiteralAbsoluteAddress(id) => Some(id),
        StatementView::RawAddress(id) => Some(id),
        _ => None,
    }
}

/// The bytes that a statement at address `at` writes; `None` where it
/// writes nothing: a pad, or a reference that cannot be encoded, which only
/// keeps its place free.
pub open spec fn encoding(statement: StatementView, at: int, labels: Seq<LabelDefinitionView>)
    -> Option<Seq<u8>> {
    match statement {
        StatementView::Instruction(instruction) => Some(seq![opcode(instruction)]),
        StatementView::PadAbsolute(_) => None,
        StatementView::PadRelative(_) => None,
        StatementView::LiteralZeroPageAddress(id) => match lookup(labels, id) {
            Some(d) => if d.address <= 0xff {
                Some(seq![LIT, low(d.address)])
            } else {
                None
            },
            None => None,
        },
        StatementView::LiteralRelativeAddress(id) => match lookup(labels, id) {
            Some(d) => if -126 <= d.address - at - 3 <= 126 {
                Some(seq![LIT, signed_byte(d.address - at - 3)])
            } else {
                None
            },
            None => None,
        },
        StatementView::LiteralAbsoluteAddress(id) => match lookup(labels, id) {
            Some(d) => Some(seq![LIT2, high(d.address), low(d.address)]),
            None => None,
        },
        StatementView::RawAddress(id) => match lookup(labels, id) {
            Some(d) => Some(seq![high(d.address), low(d.address)]),
            None => None,
        },
        StatementView::LiteralHexByte(byte) => Some(seq![LIT, byte]),
        StatementView::LiteralHexShort(short) => Some(seq![LIT2, high(short), low(short)]),
        StatementView::RawHexByte(byte) => Some(seq![byte]),
        StatementView::RawHexShort(short) => Some(seq![high(short), low(short)]),
        StatementView::RawChar(byte) => Some(seq![byte]),
        StatementView::RawWord(word) => Some(word),
    }
}

/// The absolute value of a distance.
pub open spec fn distance(offset: int) -> int {
    if offset >= 0 {
        offset
    } else {
        -offset
    }
}

/// The error that a statement at address `at` gives, if it gives one.
pub open spec fn error_of(
    statement: Spanned<StatementView>,
    at: int,
    labels: Seq<LabelDefinitionView>,
) -> Option<ErrorView> {
    match reference_of(statement.node) {
        None => None,
        Some(id) => match lookup(labels, id) {
            None => Some(ErrorView::LabelUndefined { name: id.name(), span: statement.span }),
            Some(d) => match statement.node {
                StatementView::LiteralZeroPageAddress(_) => if d.address <= 0xff {
                    None
                } else {
                    Some(
                        ErrorView::AddressNotZeroPage {
                            address: d.address,
                            identifier: id.name(),
                            span: statement.span,
                        },
                    )
                },
                StatementView::LiteralRelativeAddress(_) => if -126 <= d.address - at - 3 <= 126 {
                    None
                } else {
                    Some(
                        ErrorView::AddressTooFar {
                            distance: distance(d.address - at - 3) as usize,
                            identifier: id.name(),
                            span: statement.span,
                            other_span: d.span,
                        },
                    )
                },
                _ => None,
            },
        },
    }
}

/// The image with `bytes` written over it from index `at` on.
pub open spec fn written(image: Seq<u8>, at: int, bytes: Seq<u8>) -> Seq<u8> {
    Seq::new(
        image.len(),
        |i: int|
            if at <= i < at + bytes.len() {
                bytes[i - at]
            } else {
                image[i]
            },
    )
}

/// What is known of the image while it is written.
pub struct EmitState {
    /// The bytes from `ORIGIN` up.
    pub data: Seq<u8>,
    /// The address at which the next byte will stand.
    pub pointer: int,
    /// The address after the last byte written.
    pub length: int,
    /// The errors so far.
    pub errors: Seq<ErrorView>,
}

/// An image of zeros, before the first statement.
pub open spec fn emit_start() -> EmitState {
    EmitState {
        data: Seq::new(IMAGE_SIZE as nat, |i: int| 0u8),
        pointer: ORIGIN as int,
        length: ORIGIN as int,
        errors: Seq::empty(),
    }
}

/// The state after one more statement: its bytes stand at the pointer, or
/// its error is added; the pointer moves by its width either way.
pub open spec fn emit_step(
    st: EmitState,
    statement: Spanned<StatementView>,
    labels: Seq<LabelDefinitionView>,
) -> EmitState {
    let bytes = encoding(statement.node, st.pointer, labels);
    let next = pointer_next(statement.node, st.pointer);
    EmitState {
        data: match bytes {
            Some(bytes) => written(st.data, st.pointer - ORIGIN, bytes),
            None => st.data,
        },
        pointer: next,
        length: match bytes {
            Some(bytes) => if bytes.len() > 0 {
                next
            } else {
                st.length
            },
            None => st.length,
        },
        errors: match error_of(statement, st.pointer, labels) {
            Some(e) => st.errors.push(e),
            None => st.errors,
        },
    }
}

/// The state after the first `n` statements.
pub open spec fn emit_state(
    statements: Seq<Spanned<StatementView>>,
    labels: Seq<LabelDefinitionView>,
    n: int,
) -> EmitState
    decreases n,
{
    if n <= 0 {
        emit_start()
    } else {
        emit_step(emit_state(statements, labels, n - 1), statements[n - 1], labels)
    }
}

/// The pointer of the state after `n` statements is where the statements
/// alone put it: it does not depend on the labels.
pub proof fn lemma_emit_pointer(
    statements: Seq<Spanned<StatementView>>,
    labels: Seq<LabelDefinitionView>,
    n: int,
)
    ensures
        emit_state(statements, labels, n).pointer == pointer_after(statements, n),
    decreases n,
{
    if n > 0 {
        lemma_emit_pointer(statements, labels, n - 1);
    }
}

/// Whether one of the first `n` statements refers to `key`.
pub open spec fn referenced(
    statements: Seq<Spanned<StatementView>>,
    n: int,
    key: ScopedIdentifierView,
) -> bool
    decreases n,
{
    n > 0 && (reference_of(statements[n - 1].node) == Some(key) || referenced(
        statements,
        n - 1,
        key,
    ))
}

/// The warnings for the first `m` labels: one for each that no statement
/// refers to and that does not begin with a capital letter, in the order of
/// the definitions.
pub open spec fn unused_after(
    statements: Seq<Spanned<StatementView>>,
    labels: Seq<LabelDefinitionView>,
    m: int,
) -> Seq<WarningView>
    decreases m,
{
    if m <= 0 {
        Seq::empty()
    } else {
        let before = unused_after(statements, labels, m - 1);
        let d = labels[m - 1];
        if !d.identifier.is_capital() && !referenced(
            statements,
            statements.len() as int,
            d.identifier,
        ) {
            before.push(WarningView::LabelUnused { name: d.identifier.name(), span: d.span })
        } else {
            before
        }
    }
}

/// The bytes of the program: the image from `ORIGIN` up to the last byte
/// written.
pub open spec fn emitted_bytes(
    statements: Seq<Spanned<StatementView>>,
    labels: Seq<LabelDefinitionView>,
) -> Seq<u8> {
    let end = emit_state(statements, labels, statements.len() as int);
    end.data.subrange(0, end.length - ORIGIN)
}

/// What emitting and assembling give: the bytes with the warnings, or the
/// errors with the warnings.
pub type Outcome = Result<(Vec<u8>, Vec<Warning>), (Vec<Error>, Vec<Warning>)>;

/// An outcome as plain values.
pub type OutcomeView = Result<(Seq<u8>, Seq<WarningView>), (Seq<ErrorView>, Seq<WarningView>)>;

/// An outcome as plain values.
pub open spec fn outcome_view(outcome: Outcome) -> OutcomeView {
    match outcome {
        Ok((bytes, warnings)) => Ok((bytes@, views(warnings@))),
        Err((errors, warnings)) => Err((views(errors@), views(warnings@))),
    }
}

/// What emitting gives: the bytes where no statement gave an error, else
/// the errors; the warnings either way.
pub open spec fn emitted(
    statements: Seq<Spanned<StatementView>>,
    labels: Seq<LabelDefinitionView>,
) -> OutcomeView {
    let errors = emit_state(statements, labels, statements.len() as int).errors;
    let warnings = unused_after(statements, labels, labels.len() as int);
    if errors.len() == 0 {
        Ok((emitted_bytes(statements, labels), warnings))
    } else {
        Err((errors, warnings))
    }
}

/// Whether a statement is a literal: one that writes `LIT` or `LIT2` before
/// its value.
pub open spec fn is_literal(statement: StatementView) -> bool {
    statement is LiteralHexByte || statement is LiteralHexShort || statement
        is LiteralZeroPageAddress || statement is LiteralRelativeAddress || statement
        is LiteralAbsoluteAddress
}

/// The bytes that a statement writes are as many as its width.
pub proof fn lemma_encoding_width(
    statement: StatementView,
    at: int,
    labels: Seq<LabelDefinitionView>,
)
    ensures
        encoding(statement, at, labels) matches Some(bytes) ==> bytes.len() == width(statement),
{
}

/// A statement that refers to a label moves the pointer by its width,
/// whether or not the label is found: whatever the labels are.
pub proof fn lemma_reference_takes_its_width(
    st: EmitState,
    statement: Spanned<StatementView>,
    labels: Seq<LabelDefinitionView>,
    others: Seq<LabelDefinitionView>,
)
    requires
        reference_of(statement.node) is Some,
    ensures
        emit_step(st, statement, labels).pointer == st.pointer + width(statement.node),
        emit_step(st, statement, others).pointer == st.pointer + width(statement.node),
        2 <= width(statement.node) <= 3,
{
}

/// Among statements that can be laid out, the pointer never moves back, and
/// it stays between `ORIGIN` and the last address.
pub proof fn lemma_pointer_grows(statements: Seq<Spanned<StatementView>>, a: int, b: int)
    requires
        fits(statements),
        0 <= a <= b <= statements.len(),
    ensures
        ORIGIN <= pointer_after(statements, a) <= pointer_after(statements, b) <= 0xffff,
    decreases b,
{
    if b > 0 {
        let before = pointer_after(statements, b - 1);
        assert(before <= pointer_next(statements[b - 1].node, before) <= 0xffff);
        if a < b {
            lemma_pointer_grows(statements, a, b - 1);
        } else {
            lemma_pointer_grows(statements, b - 1, b - 1);
        }
    }
}

/// After any number of statements that can be laid out, the image has its
/// full size, and the last byte written stands before the pointer.
pub proof fn lemma_emit_state_bounds(
    statements: Seq<Spanned<StatementView>>,
    labels: Seq<LabelDefinitionView>,
    n: int,
)
    requires
        fits(statements),
        0 <= n <= statements.len(),
    ensures
        emit_state(statements, labels, n).data.len() == IMAGE_SIZE,
        emit_state(statements, labels, n).pointer == pointer_after(statements, n),
        ORIGIN <= emit_state(statements, labels, n).length <= pointer_after(statements, n)
            <= 0xffff,
    decreases n,
{
    lemma_pointer_grows(statements, n, n);
    if n > 0 {
        lemma_emit_state_bounds(statements, labels, n - 1);
        lemma_pointer_grows(statements, n - 1, n);
    }
}

/// The program is no longer than the image: it has no byte below `ORIGIN`
/// and none past the last address, and every statement begins at or after
/// `ORIGIN`.
pub proof fn lemma_output_within_image(
    statements: Seq<Spanned<StatementView>>,
    labels: Seq<LabelDefinitionView>,
)
    requires
        fits(statements),
    ensures
        emitted_bytes(statements, labels).len() <= IMAGE_SIZE,
        ORIGIN + emitted_bytes(statements, labels).len() <= 0xffff,
        forall|n: int|
            0 <= n <= statements.len() ==> ORIGIN <= #[trigger] pointer_after(statements, n),
{
    lemma_emit_state_bounds(statements, labels, statements.len() as int);
    assert forall|n: int| 0 <= n <= statements.len() implies ORIGIN <= #[trigger] pointer_after(
        statements,
        n,
    ) by {
        lemma_pointer_grows(statements, n, n);
    }
}

/// The bytes that statement `n` writes stand at its address after any
/// number `m` of further statements: no later statement writes over them.
pub proof fn lemma_bytes_stay(
    statements: Seq<Spanned<StatementView>>,
    labels: Seq<LabelDefinitionView>,
    n: int,
    m: int,
    k: int,
)
    requires
        fits(statements),
        0 <= n < m <= statements.len(),
        encoding(statements[n].node, pointer_after(statements, n), labels) is Some,
        0 <= k < encoding(statements[n].node, pointer_after(statements, n), labels).unwrap().len(),
    ensures
        ({
            let at = pointer_after(statements, n);
            let bytes = encoding(statements[n].node, at, labels).unwrap();
            let st = emit_state(statements, labels, m);
            &&& at + bytes.len() <= st.length
            &&& st.data[at - ORIGIN + k] == bytes[k]
        }),
    decreases m,
{
    let at = pointer_after(statements, n);
    let bytes = encoding(statements[n].node, at, labels).unwrap();
    let before = emit_state(statements, labels, m - 1);
    let last = statements[m - 1];
    let st = emit_state(statements, labels, m);
    assert(st == emit_step(before, last, labels));
    lemma_emit_state_bounds(statements, labels, m - 1);
    lemma_pointer_grows(statements, n, m - 1);
    lemma_pointer_grows(statements, m - 1, m);
    lemma_encoding_width(last.node, before.pointer, labels);
    let i = at - ORIGIN + k;
    if m == n + 1 {
        assert(st.data == written(before.data, at - ORIGIN, bytes));
        assert(st.length == pointer_after(statements, m));
        assert(0 <= i < before.data.len());
        assert(st.data[i] == bytes[k]);
    } else {
        lemma_bytes_stay(statements, labels, n, m - 1, k);
        assert(before.data[i] == bytes[k]);
        assert(at + bytes.len() <= before.length <= before.pointer);
        assert(0 <= i < before.pointer - ORIGIN);
        assert(st.data[i] == before.data[i]);
        assert(before.length <= st.length);
    }
}

/// The bytes that a statement writes stand in the program at the
/// statement's address, all of them and in their order.
pub proof fn lemma_statement_in_output(
    statements: Seq<Spanned<StatementView>>,
    labels: Seq<LabelDefinitionView>,
    n: int,
)
    requires
        fits(statements),
        0 <= n < statements.len(),
        encoding(statements[n].node, pointer_after(statements, n), labels) is Some,
    ensures
        ({
            let at = pointer_after(statements, n);
            let bytes = encoding(statements[n].node, at, labels).unwrap();
            let out = emitted_bytes(statements, labels);
            &&& ORIGIN <= at
            &&& bytes.len() > 0 ==> at - ORIGIN + bytes.len() <= out.len()
            &&& bytes.len() > 0 ==> out.subrange(at - ORIGIN, at - ORIGIN + bytes.len()) == bytes
        }),
{
    let at = pointer_after(statements, n);
    let bytes = encoding(statements[n].node, at, labels).unwrap();
    let out = emitted_bytes(statements, labels);
    lemma_pointer_grows(statements, n, n);
    lemma_emit_state_bounds(statements, labels, statements.len() as int);
    if bytes.len() > 0 {
        lemma_bytes_stay(statements, labels, n, statements.len() as int, 0);
        assert forall|k: int| 0 <= k < bytes.len() implies out[at - ORIGIN + k] == bytes[k] by {
            lemma_bytes_stay(statements, labels, n, statements.len() as int, k);
        }
        assert(out.subrange(at - ORIGIN, at - ORIGIN + bytes.len()) =~= bytes);
    }
}

/// Whether statement `n` writes the byte at `address`.
pub open spec fn writes_at(
    statements: Seq<Spanned<StatementView>>,
    labels: Seq<LabelDefinitionView>,
    n: int,
    address: int,
) -> bool {
    let at = pointer_after(statements, n);
    match encoding(statements[n].node, at, labels) {
        Some(bytes) => at <= address < at + bytes.len(),
        None => false,
    }
}

/// A byte of the image that none of the first `m` statements writes is
/// zero after them.
pub proof fn lemma_unwritten_stays_zero(
    statements: Seq<Spanned<StatementView>>,
    labels: Seq<LabelDefinitionView>,
    m: int,
    index: int,
)
    requires
        fits(statements),
        0 <= m <= statements.len(),
        0 <= index < IMAGE_SIZE,
        forall|n: int| 0 <= n < m ==> !#[trigger] writes_at(statements, labels, n, ORIGIN + index),
    ensures
        emit_state(statements, labels, m).data[index] == 0,
    decreases m,
{
    if m > 0 {
        lemma_unwritten_stays_zero(statements, labels, m - 1, index);
        lemma_emit_state_bounds(statements, labels, m - 1);
        assert(!writes_at(statements, labels, m - 1, ORIGIN + index));
    }
}

/// The program holds the bytes of its statements and nothing else: a byte
/// of it that no statement writes is zero.
pub proof fn lemma_gaps_are_zero(
    statements: Seq<Spanned<StatementView>>,
    labels: Seq<LabelDefinitionView>,
    index: int,
)
    requires
        fits(statements),
        0 <= index < emitted_bytes(statements, labels).len(),
        forall|n: int|
            0 <= n < statements.len() ==> !#[trigger] writes_at(
                statements,
                labels,
                n,
                ORIGIN + index,
            ),
    ensures
        emitted_bytes(statements, labels)[index] == 0,
{
    lemma_emit_state_bounds(statements, labels, statements.len() as int);
    lemma_unwritten_stays_zero(statements, labels, statements.len() as int, index);
}

/// Every `LIT` or `LIT2` that a literal writes is followed at once by its
/// value: one byte after `LIT`, two after `LIT2`. The prefix and the value
/// stand in the program side by side at the statement's address.
pub proof fn lemma_literal_is_followed_by_its_value(
    statements: Seq<Spanned<StatementView>>,
    labels: Seq<LabelDefinitionView>,
    n: int,
)
    requires
        fits(statements),
        0 <= n < statements.len(),
        is_literal(statements[n].node),
        encoding(statements[n].node, pointer_after(statements, n), labels) is Some,
    ensures
        ({
            let at = pointer_after(statements, n);
            let bytes = encoding(statements[n].node, at, labels).unwrap();
            let out = emitted_bytes(statements, labels);
            &&& (bytes[0] == LIT && bytes.len() == 2) || (bytes[0] == LIT2 && bytes.len() == 3)
            &&& at - ORIGIN + bytes.len() <= out.len()
            &&& out.subrange(at - ORIGIN, at - ORIGIN + bytes.len()) == bytes
        }),
{
    lemma_statement_in_output(statements, labels, n);
}

/// A statement that follows a pad to the address `to` has its first byte
/// at `to`.
pub proof fn lemma_pad_places_next(
    statements: Seq<Spanned<StatementView>>,
    labels: Seq<LabelDefinitionView>,
    n: int,
    to: u16,
)
    requires
        fits(statements),
        0 <= n,
        n + 1 < statements.len(),
        statements[n].node == StatementView::PadAbsolute(to),
        encoding(statements[n + 1].node, to as int, labels) is Some,
        encoding(statements[n + 1].node, to as int, labels).unwrap().len() > 0,
    ensures
        pointer_after(statements, n + 1) == to,
        ORIGIN <= to,
        to - ORIGIN < emitted_bytes(statements, labels).len(),
        emitted_bytes(statements, labels)[to - ORIGIN] == encoding(
            statements[n + 1].node,
            to as int,
            labels,
        ).unwrap()[0],
{
    lemma_statement_in_output(statements, labels, n + 1);
    let bytes = encoding(statements[n + 1].node, to as int, labels).unwrap();
    let out = emitted_bytes(statements, labels);
    assert(out.subrange(to - ORIGIN, to - ORIGIN + bytes.len())[0] == out[to - ORIGIN]);
}

/// The byte of an instruction.
pub fn encode_instruction(instruction: &Instruction) -> (r: u8)
    ensures
        r == opcode(*instruction),
{
    let index: u8 = match instruction.instruction_kind {
        InstructionKind::Brk => 0x00,
        InstructionKind::Lit => 0x00,
        InstructionKind::Inc => 0x01,
        InstructionKind::Pop => 0x02,
        InstructionKind::Dup => 0x03,
        InstructionKind::Nip => 0x04,
        InstructionKind::Swp => 0x05,
        InstructionKind::Ovr => 0x06,
        InstructionKind::Rot => 0x07,
        InstructionKind::Equ => 0x08,
        InstructionKind::Neq => 0x09,
        InstructionKind::Gth => 0x0a,
        InstructionKind::Lth => 0x0b,
        InstructionKind::Jmp => 0x0c,
        InstructionKind::Jcn => 0x0d,
        InstructionKind::Jsr => 0x0e,
        InstructionKind::Sth => 0x0f,
        InstructionKind::Ldz => 0x10,
        InstructionKind::Stz => 0x11,
        InstructionKind::Ldr => 0x12,
        InstructionKind::Str => 0x13,
        InstructionKind::Lda => 0x14,
        InstructionKind::Sta => 0x15,
        InstructionKind::Dei => 0x16,
        InstructionKind::Deo => 0x17,
        InstructionKind::Add => 0x18,
        InstructionKind::Sub => 0x19,
        InstructionKind::Mul => 0x1a,
        InstructionKind::Div => 0x1b,
        InstructionKind::And => 0x1c,
        InstructionKind::Ora => 0x1d,
        InstructionKind::Eor => 0x1e,
        InstructionKind::Sft => 0x1f,
    };
    let short: u8 = if instruction.short {
        0x20
    } else {
        0
    };
    let ret: u8 = if instruction.ret {
        0x40
    } else {
        0
    };
    let keep: u8 = if instruction.keep {
        0x80
    } else {
        0
    };
    index + short + ret + keep
}

/// The image being written: the bytes from `ORIGIN` up, the address of the
/// next byte, and the address after the last byte written.
pub struct Binary {
    data: Vec<u8>,
    pointer: u16,
    length: u16,
}

/// An image as plain values.
pub struct BinaryView {
    pub data: Seq<u8>,
    pub pointer: int,
    pub length: int,
}

impl View for Binary {
    type V = BinaryView;

    closed spec fn view(&self) -> BinaryView {
        BinaryView {
            data: self.data@,
            pointer: self.pointer as int,
            length: self.length as int,
        }
    }
}

impl Binary {
    /// The image has its full size, and nothing was written at or after the
    /// write pointer.
    pub open spec fn wf(&self) -> bool {
        &&& self@.data.len() == IMAGE_SIZE
        &&& ORIGIN <= self@.length <= self@.pointer <= 0xffff
    }

    /// An image of zeros, with the write pointer at `ORIGIN`.
    pub fn new() -> (r: Binary)
        ensures
            r.wf(),
            r@ == (BinaryView {
                data: Seq::new(IMAGE_SIZE as nat, |i: int| 0u8),
                pointer: ORIGIN as int,
                length: ORIGIN as int,
            }),
    {
        let mut data: Vec<u8> = Vec::new();
        let mut i: usize = 0;
        while i < IMAGE_SIZE
            invariant
                i <= IMAGE_SIZE,
                data@.len() == i,
                forall|j: int| 0 <= j < i ==> data@[j] == 0u8,
            decreases IMAGE_SIZE - i,
        {
            data.push(0);
            i += 1;
        }
        assert(data@ =~= Seq::new(IMAGE_SIZE as nat, |i: int| 0u8));
        Binary { data, pointer: ORIGIN, length: ORIGIN }
    }

    /// Writes a byte at the write pointer and moves the pointer past it.
    pub fn push_byte(&mut self, byte: u8)
        requires
            old(self).wf(),
            old(self)@.pointer < 0xffff,
        ensures
            final(self).wf(),
            final(self)@ == (BinaryView {
                data: old(self)@.data.update(old(self)@.pointer - ORIGIN, byte),
                pointer: old(self)@.pointer + 1,
                length: old(self)@.pointer + 1,
            }),
    {
        let at: usize = self.pointer as usize - 256;
        self.data[at] = byte;
        self.increment_pointer(1);
        self.length = self.pointer;
    }

    /// Writes a short at the write pointer, high byte first, and moves the
    /// pointer past it.
    pub fn push_short(&mut self, short: u16)
        requires
            old(self).wf(),
            old(self)@.pointer + 2 <= 0xffff,
        ensures
            final(self).wf(),
            final(self)@ == (BinaryView {
                data: old(self)@.data.update(old(self)@.pointer - ORIGIN, high(short)).update(
                    old(self)@.pointer - ORIGIN + 1,
                    low(short),
                ),
                pointer: old(self)@.pointer + 2,
                length: old(self)@.pointer + 2,
            }),
    {
        self.push_byte((short / 256) as u8);
        self.push_byte((short % 256) as u8);
    }

    /// Moves the write pointer forward to `to`.
    pub fn set_pointer(&mut self, to: u16)
        requires
            old(self).wf(),
            old(self)@.pointer <= to,
        ensures
            final(self).wf(),
            final(self)@ == (BinaryView { pointer: to as int, ..old(self)@ }),
    {
        self.pointer = to;
    }

    /// Moves the write pointer forward by `by`.
    pub fn increment_pointer(&mut self, by: u16)
        requires
            old(self).wf(),
            old(self)@.pointer + by <= 0xffff,
        ensures
            final(self).wf(),
            final(self)@ == (BinaryView { pointer: old(self)@.pointer + by, ..old(self)@ }),
    {
        self.pointer += by;
    }

    /// The address of the next byte.
    pub fn get_pointer(&self) -> (r: u16)
        ensures
            r == self@.pointer,
    {
        self.pointer
    }

    /// The bytes from `ORIGIN` up to the last byte written.
    pub fn into_bytes(self) -> (r: Vec<u8>)
        requires
            self.wf(),
        ensures
            r@ == self@.data.subrange(0, self@.length - ORIGIN),
    {
        self.into_bytes_unchecked()
    }

    /// The bytes from `ORIGIN` up to the last byte written, of an image
    /// that holds that many.
    fn into_bytes_unchecked(self) -> (r: Vec<u8>)
        requires
            ORIGIN <= self@.length <= ORIGIN + self@.data.len(),
        ensures
            r@ == self@.data.subrange(0, self@.length - ORIGIN),
    {
        let n: usize = self.length as usize - 256;
        let mut r: Vec<u8> = Vec::new();
        let mut i: usize = 0;
        while i < n
            invariant
                i <= n <= self.data@.len(),
                r@ == self.data@.subrange(0, i as int),
            decreases n - i,
        {
            r.push(self.data[i]);
            assert(r@ =~= self.data@.subrange(0, i + 1));
            i += 1;
        }
        r
    }
}

impl vstd::std_specs::convert::FromSpecImpl<Binary> for Vec<u8> {
    /// Nothing is said of the vector itself, only of what it holds: see
    /// `from`.
    open spec fn obeys_from_spec() -> bool {
        false
    }

    /// No vector in particular.
    open spec fn from_spec(binary: Binary) -> Vec<u8> {
        arbitrary()
    }
}

impl From<Binary> for Vec<u8> {
    /// The bytes from `ORIGIN` up to the last byte written.
    fn from(binary: Binary) -> (r: Vec<u8>)
        ensures
            binary.wf() ==> r@ == binary@.data.subrange(0, binary@.length - ORIGIN),
    {
        if binary.length >= ORIGIN && binary.length as usize - 256 <= binary.data.len() {
            binary.into_bytes_unchecked()
        } else {
            Vec::new()
        }
    }
}

/// The address and the defining span of the label that `scoped_identifier`
/// names; `LabelUndefined` at `span` where there is none.
pub fn find_address(scoped_identifier: &ScopedIdentifier, definitions: &Definitions, span: &Span)
    -> (r: Result<(u16, Span), Error>)
    requires
        definitions.wf(),
    ensures
        match lookup(definitions@, scoped_identifier@) {
            Some(d) => r == Ok::<(u16, Span), Error>((d.address, d.span)),
            None => r is Err && r->Err_0@ == (ErrorView::LabelUndefined {
                name: scoped_identifier@.name(),
                span: *span,
            }),
        },
{
    match definitions.position(scoped_identifier) {
        Some(i) => Ok((definitions.labels[i].address, definitions.labels[i].span)),
        None => Err(Error::LabelUndefined { name: scoped_identifier.name(), span: *span }),
    }
}

impl Statement {
    /// The identifier that the statement refers to, if it refers to one.
    pub fn reference(&self) -> (r: Option<&ScopedIdentifier>)
        ensures
            match r {
                Some(id) => reference_of(self@) == Some(id@),
                None => reference_of(self@) is None,
            },
    {
        match self {
            Statement::LiteralZeroPageAddress(id) => Some(id),
            Statement::LiteralRelativeAddress(id) => Some(id),
            Statement::LiteralAbsoluteAddress(id) => Some(id),
            Statement::RawAddress(id) => Some(id),
            _ => None,
        }
    }
}

/// Writes the bytes of `word` at the write pointer and moves the pointer
/// past them.
fn push_word(binary: &mut Binary, word: &Vec<u8>)
    requires
        old(binary).wf(),
        old(binary)@.pointer + word@.len() <= 0xffff,
    ensures
        final(binary).wf(),
        final(binary)@.data == written(old(binary)@.data, old(binary)@.pointer - ORIGIN, word@),
        final(binary)@.pointer == old(binary)@.pointer + word@.len(),
        final(binary)@.length == if word@.len() > 0 {
            final(binary)@.pointer
        } else {
            old(binary)@.length
        },
{
    let ghost start = binary@;
    let mut k: usize = 0;
    assert(binary@.data =~= written(start.data, start.pointer - ORIGIN, word@.subrange(0, 0)));
    while k < word.len()
        invariant
            k <= word.len(),
            binary.wf(),
            start.data.len() == IMAGE_SIZE,
            ORIGIN <= start.pointer,
            start.pointer + word@.len() <= 0xffff,
            binary@.pointer == start.pointer + k,
            binary@.data == written(
                start.data,
                start.pointer - ORIGIN,
                word@.subrange(0, k as int),
            ),
            binary@.length == if k > 0 {
                binary@.pointer
            } else {
                start.length
            },
        decreases word.len() - k,
    {
        binary.push_byte(word[k]);
        assert(binary@.data =~= written(
            start.data,
            start.pointer - ORIGIN,
            word@.subrange(0, k + 1),
        ));
        k += 1;
    }
    assert(word@.subrange(0, word@.len() as int) =~= word@);
}

/// A binary with the errors so far as plain values.
pub open spec fn emit_view(binary: Binary, errors: Vec<Error>) -> EmitState {
    EmitState {
        data: binary@.data,
        pointer: binary@.pointer,
        length: binary@.length,
        errors: views(errors@),
    }
}

/// Keeps room for a reference that cannot be written, and notes why.
fn reserve(binary: &mut Binary, errors: &mut Vec<Error>, room: u16, error: Error)
    requires
        old(binary).wf(),
        old(binary)@.pointer + room <= 0xffff,
    ensures
        final(binary).wf(),
        final(binary)@ == (BinaryView { pointer: old(binary)@.pointer + room, ..old(binary)@ }),
        views(final(errors)@) == views(old(errors)@).push(error@),
{
    push_view(errors, error);
    binary.increment_pointer(room);
}

/// Writes a statement that refers to a label.
fn emit_reference(
    binary: &mut Binary,
    errors: &mut Vec<Error>,
    statement: &Spanned<Statement>,
    definitions: &Definitions,
)
    requires
        old(binary).wf(),
        definitions.wf(),
        reference_of(statement@.node) is Some,
        pointer_next(statement@.node, old(binary)@.pointer) <= 0xffff,
    ensures
        final(binary).wf(),
        emit_view(*final(binary), *final(errors)) == emit_step(
            emit_view(*old(binary), *old(errors)),
            statement@,
            definitions@,
        ),
{
    let span = statement.span;
    let ghost at = binary@.pointer;
    let ghost before = binary@.data;
    let identifier = match statement.node.reference() {
        Some(identifier) => identifier,
        None => {
            return ;
        },
    };
    let (address, other_span) = match find_address(identifier, definitions, &span) {
        Ok(found) => found,
        Err(err) => {
            let room: u16 = match &statement.node {
                Statement::LiteralAbsoluteAddress(_) => 3,
                _ => 2,
            };
            reserve(binary, errors, room, err);
            return ;
        },
    };
    match &statement.node {
        Statement::LiteralZeroPageAddress(_) => {
            if address <= 0xff {
                binary.push_byte(LIT);
                binary.push_byte((address % 256) as u8);
                assert(binary@.data =~= written(before, at - ORIGIN, seq![LIT, low(address)]));
            } else {
                reserve(
                    binary,
                    errors,
                    2,
                    Error::AddressNotZeroPage { address, identifier: identifier.name(), span },
                );
            }
        },
        Statement::LiteralRelativeAddress(_) => {
            let offset: i32 = address as i32 - binary.get_pointer() as i32 - 3;
            if offset < -126 || offset > 126 {
                let distance: usize = if offset >= 0 {
                    offset as usize
                } else {
                    (-offset) as usize
                };
                reserve(
                    binary,
                    errors,
                    2,
                    Error::AddressTooFar {
                        distance,
                        identifier: identifier.name(),
                        other_span,
                        span,
                    },
                );
            } else {
                let byte: u8 = if offset >= 0 {
                    offset as u8
                } else {
                    (offset + 256) as u8
                };
                binary.push_byte(LIT);
                binary.push_byte(byte);
                assert(binary@.data =~= written(
                    before,
                    at - ORIGIN,
                    seq![LIT, signed_byte(address - at - 3)],
                ));
            }
        },
        Statement::LiteralAbsoluteAddress(_) => {
            binary.push_byte(LIT2);
            binary.push_short(address);
            assert(binary@.data =~= written(
                before,
                at - ORIGIN,
                seq![LIT2, high(address), low(address)],
            ));
        },
        Statement::RawAddress(_) => {
            binary.push_short(address);
            assert(binary@.data =~= written(
                before,
                at - ORIGIN,
                seq![high(address), low(address)],
            ));
        },
        _ => {},
    }
}

/// Writes a statement that refers to no label.
fn emit_plain(
    binary: &mut Binary,
    errors: &Vec<Error>,
    statement: &Spanned<Statement>,
    definitions: &Definitions,
)
    requires
        old(binary).wf(),
        reference_of(statement@.node) is None,
        old(binary)@.pointer <= pointer_next(statement@.node, old(binary)@.pointer) <= 0xffff,
    ensures
        final(binary).wf(),
        emit_view(*final(binary), *errors) == emit_step(
            emit_view(*old(binary), *errors),
            statement@,
            definitions@,
        ),
{
    let ghost at = binary@.pointer;
    let ghost before = binary@.data;
    match &statement.node {
        Statement::Instruction(instruction) => {
            binary.push_byte(encode_instruction(instruction));
            assert(binary@.data =~= written(before, at - ORIGIN, seq![opcode(*instruction)]));
        },
        Statement::PadAbsolute(value) => {
            binary.set_pointer(*value);
        },
        Statement::PadRelative(value) => {
            binary.increment_pointer(*value);
        },
        Statement::LiteralHexByte(value) => {
            binary.push_byte(LIT);
            binary.push_byte(*value);
            assert(binary@.data =~= written(before, at - ORIGIN, seq![LIT, *value]));
        },
        Statement::LiteralHexShort(value) => {
            binary.push_byte(LIT2);
            binary.push_short(*value);
            assert(binary@.data =~= written(
                before,
                at - ORIGIN,
                seq![LIT2, high(*value), low(*value)],
            ));
        },
        Statement::RawHexByte(value) => {
            binary.push_byte(*value);
            assert(binary@.data =~= written(before, at - ORIGIN, seq![*value]));
        },
        Statement::RawHexShort(value) => {
            binary.push_short(*value);
            assert(binary@.data =~= written(before, at - ORIGIN, seq![high(*value), low(*value)]));
        },
        Statement::RawChar(value) => {
            binary.push_byte(*value);
            assert(binary@.data =~= written(before, at - ORIGIN, seq![*value]));
        },
        Statement::RawWord(word) => {
            push_word(binary, word);
        },
        _ => {},
    }
}

/// Writes the statements into an image of zeros, from `ORIGIN` on, with the
/// labels resolved against `definitions`. Every statement takes its width
/// whether or not its label is found, so that an error moves no later byte.
/// Gives the bytes up to the last one written where no statement gave an
/// error, else the errors in the order of the statements; either way a
/// warning for each label that nothing refers to and that does not begin
/// with a capital letter.
pub fn emit(statements: Vec<Spanned<Statement>>, definitions: Definitions) -> (r: Outcome)
    requires
        definitions.wf(),
        fits(views(statements@)),
    ensures
        outcome_view(r) == emitted(views(statements@), definitions@),
        r matches Ok((bytes, _)) ==> bytes@.len() <= IMAGE_SIZE,
{
    let ghost stmts = views(statements@);
    let ghost labels = definitions@;
    let mut errors: Vec<Error> = Vec::new();
    let mut warnings: Vec<Warning> = Vec::new();
    let mut used: Vec<bool> = Vec::new();
    let mut j: usize = 0;
    while j < definitions.labels.len()
        invariant
            j <= definitions.labels.len(),
            used@.len() == j,
            forall|k: int| 0 <= k < j ==> !used@[k],
        decreases definitions.labels.len() - j,
    {
        used.push(false);
        j += 1;
    }
    let mut binary = Binary::new();
    assert(views(errors@) =~= Seq::empty());
    let mut i: usize = 0;
    while i < statements.len()
        invariant
            i <= statements.len(),
            stmts == views(statements@),
            labels == definitions@,
            definitions.wf(),
            fits(stmts),
            binary.wf(),
            emit_view(binary, errors) == emit_state(stmts, labels, i as int),
            used@.len() == labels.len(),
            forall|k: int|
                0 <= k < labels.len() ==> used@[k] == referenced(
                    stmts,
                    i as int,
                    (#[trigger] labels[k]).identifier,
                ),
        decreases statements.len() - i,
    {
        let statement = &statements[i];
        assert(stmts[i as int] == statement@);
        proof {
            lemma_emit_pointer(stmts, labels, i as int);
            let at = pointer_after(stmts, i as int);
            assert(at <= pointer_next(stmts[i as int].node, at) <= 0xffff);
        }
        match statement.node.reference() {
            Some(identifier) => {
                let target = definitions.position(identifier);
                mark(&mut used, target, Ghost(stmts), Ghost(labels), Ghost(i as int));
                emit_reference(&mut binary, &mut errors, statement, &definitions);
            },
            None => {
                assert forall|k: int| 0 <= k < labels.len() implies used@[k] == referenced(
                    stmts,
                    i + 1,
                    (#[trigger] labels[k]).identifier,
                ) by {}
                emit_plain(&mut binary, &errors, statement, &definitions);
            },
        }
        i += 1;
    }
    let mut m: usize = 0;
    assert(views(warnings@) =~= Seq::empty());
    while m < definitions.labels.len()
        invariant
            m <= definitions.labels.len(),
            labels == definitions@,
            used@.len() == labels.len(),
            forall|k: int|
                0 <= k < labels.len() ==> used@[k] == referenced(
                    stmts,
                    stmts.len() as int,
                    (#[trigger] labels[k]).identifier,
                ),
            views(warnings@) == unused_after(stmts, labels, m as int),
        decreases definitions.labels.len() - m,
    {
        let definition = &definitions.labels[m];
        assert(labels[m as int] == definition@);
        if !used[m] && !definition.identifier.is_capital() {
            push_view(
                &mut warnings,
                Warning::LabelUnused { name: definition.identifier.name(), span: definition.span },
            );
        }
        m += 1;
    }
    proof {
        lemma_output_within_image(stmts, labels);
    }
    if errors.len() == 0 {
        Ok((binary.into_bytes(), warnings))
    } else {
        Err((errors, warnings))
    }
}

/// Notes that the label at `target` is referred to by statement `i`.
fn mark(
    used: &mut Vec<bool>,
    target: Option<usize>,
    Ghost(statements): Ghost<Seq<Spanned<StatementView>>>,
    Ghost(labels): Ghost<Seq<LabelDefinitionView>>,
    Ghost(i): Ghost<int>,
)
    requires
        0 <= i < statements.len(),
        unique(labels),
        reference_of(statements[i].node) is Some,
        match target {
            Some(at) => at < labels.len() && labels[at as int].identifier == reference_of(
                statements[i].node,
            ).unwrap(),
            None => !defines(labels, reference_of(statements[i].node).unwrap()),
        },
        old(used)@.len() == labels.len(),
        forall|k: int|
            0 <= k < labels.len() ==> old(used)@[k] == referenced(
                statements,
                i,
                (#[trigger] labels[k]).identifier,
            ),
    ensures
        final(used)@.len() == labels.len(),
        forall|k: int|
            0 <= k < labels.len() ==> final(used)@[k] == referenced(
                statements,
                i + 1,
                (#[trigger] labels[k]).identifier,
            ),
{
    match target {
        Some(at) => {
            used[at] = true;
            assert forall|k: int| 0 <= k < labels.len() implies used@[k] == referenced(
                statements,
                i + 1,
                (#[trigger] labels[k]).identifier,
            ) by {
                if k != at {
                    assert(labels[k].identifier != labels[at as int].identifier);
                }
            }
        },
        None => {
            assert forall|k: int| 0 <= k < labels.len() implies used@[k] == referenced(
                statements,
                i + 1,
                (#[trigger] labels[k]).identifier,
            ) by {
                assert(labels[k].identifier != reference_of(statements[i].node).unwrap());
            }
        },
    }
}

} // verus!
