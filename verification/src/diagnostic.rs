//! Errors and warnings in words: the message of each, and the spans it
//! points at.

use crate::bytes::{append_bytes, clone_bytes};
use crate::error::{chain_view, error_span, Error, ErrorView, Warning, WarningView};
use crate::span::Span;
use crate::views::{push_view, views};
use vstd::prelude::*;
use vstd::string::*;

verus! {

/// How grave a diagnostic is.
#[derive(Clone, Copy, Debug, PartialEq, Eq, Structural)]
pub enum Severity {
    Error,
    Warning,
}

/// Whether a label marks the place of the diagnostic or a place that helps
/// to understand it.
#[derive(Clone, Copy, Debug, PartialEq, Eq, Structural)]
pub enum LabelStyle {
    Primary,
    Secondary,
}

/// A span of the source with a remark, which may be empty.
#[derive(Clone, Debug, PartialEq, Eq)]
pub struct Label {
    pub style: LabelStyle,
    pub span: Span,
    pub message: Vec<u8>,
}

/// A label as plain values.
pub struct LabelView {
    pub style: LabelStyle,
    pub span: Span,
    pub message: Seq<u8>,
}

impl View for Label {
    type V = LabelView;

    open spec fn view(&self) -> LabelView {
        LabelView { style: self.style, span: self.span, message: self.message@ }
    }
}

/// An error or a warning in words.
#[derive(Clone, Debug, PartialEq, Eq)]
pub struct FileDiagnostic {
    pub severity: Severity,
    pub message: Vec<u8>,
    pub labels: Vec<Label>,
    pub notes: Vec<Vec<u8>>,
    pub help: Vec<Vec<u8>>,
}

/// A diagnostic as plain values.
pub struct FileDiagnosticView {
    pub severity: Severity,
    pub message: Seq<u8>,
    pub labels: Seq<LabelView>,
    pub notes: Seq<Seq<u8>>,
    pub help: Seq<Seq<u8>>,
}

impl View for FileDiagnostic {
    type V = FileDiagnosticView;

    open spec fn view(&self) -> FileDiagnosticView {
        FileDiagnosticView {
            severity: self.severity,
            message: self.message@,
            labels: views(self.labels@),
            notes: views(self.notes@),
            help: views(self.help@),
        }
    }
}

/// The bytes of a text.
pub open spec fn bytes_of(text: &str) -> Seq<u8> {
    text.spec_bytes()
}

/// The bytes of a text.
pub fn text_bytes(text: &str) -> (r: Vec<u8>)
    ensures
        r@ == bytes_of(text),
{
    text.as_bytes_vec()
}

/// A name between two texts.
pub open spec fn quoted(before: &str, name: Seq<u8>, after: &str) -> Seq<u8> {
    bytes_of(before) + name + bytes_of(after)
}

/// A name between two texts.
pub fn quote(before: &str, name: &Vec<u8>, after: &str) -> (r: Vec<u8>)
    ensures
        r@ == quoted(before, name@, after),
{
    let mut r = text_bytes(before);
    append_bytes(&mut r, name);
    append_bytes(&mut r, &text_bytes(after));
    r
}

/// Two names between three texts.
pub open spec fn quoted_pair(
    before: &str,
    first: Seq<u8>,
    between: &str,
    second: Seq<u8>,
    after: &str,
) -> Seq<u8> {
    bytes_of(before) + first + bytes_of(between) + second + bytes_of(after)
}

/// Two names between three texts.
pub fn quote_pair(before: &str, first: &Vec<u8>, between: &str, second: &Vec<u8>, after: &str)
    -> (r: Vec<u8>)
    ensures
        r@ == quoted_pair(before, first@, between, second@, after),
{
    let mut r = text_bytes(before);
    append_bytes(&mut r, first);
    append_bytes(&mut r, &text_bytes(between));
    append_bytes(&mut r, second);
    append_bytes(&mut r, &text_bytes(after));
    r
}

/// A number in decimal digits, without leading zeros.
pub open spec fn decimal(n: nat) -> Seq<u8>
    decreases n,
{
    if n < 10 {
        seq![('0' as u8 + n) as u8]
    } else {
        decimal(n / 10).push(('0' as u8 + n % 10) as u8)
    }
}

/// A number in decimal digits, without leading zeros.
pub fn decimal_digits(n: usize) -> (r: Vec<u8>)
    ensures
        r@ == decimal(n as nat),
    decreases n,
{
    if n < 10 {
        let mut r: Vec<u8> = Vec::new();
        r.push('0' as u8 + n as u8);
        assert(r@ =~= seq![('0' as u8 + n) as u8]);
        r
    } else {
        let mut r = decimal_digits(n / 10);
        r.push('0' as u8 + (n % 10) as u8);
        r
    }
}

/// The hexadecimal digit for a value under 16, in small letters.
pub open spec fn hex_digit(value: int) -> u8 {
    if value < 10 {
        ('0' as u8 + value) as u8
    } else {
        ('a' as u8 + value - 10) as u8
    }
}

/// The hexadecimal digit for a value under 16, in small letters.
fn to_hex_digit(value: u8) -> (r: u8)
    requires
        value < 16,
    ensures
        r == hex_digit(value as int),
{
    if value < 10 {
        '0' as u8 + value
    } else {
        'a' as u8 + value - 10
    }
}

/// An address as `0x` and four hexadecimal digits.
pub open spec fn hex_address(address: u16) -> Seq<u8> {
    seq![
        '0' as u8,
        'x' as u8,
        hex_digit(address as int / 4096),
        hex_digit(address as int / 256 % 16),
        hex_digit(address as int / 16 % 16),
        hex_digit(address as int % 16),
    ]
}

/// An address as `0x` and four hexadecimal digits.
pub fn hex_address_digits(address: u16) -> (r: Vec<u8>)
    ensures
        r@ == hex_address(address),
{
    let mut r: Vec<u8> = Vec::new();
    r.push('0' as u8);
    r.push('x' as u8);
    r.push(to_hex_digit((address / 4096) as u8));
    r.push(to_hex_digit((address / 256 % 16) as u8));
    r.push(to_hex_digit((address / 16 % 16) as u8));
    r.push(to_hex_digit((address % 16) as u8));
    assert(r@ =~= hex_address(address));
    r
}

/// A byte in hexadecimal, in one digit where one is enough.
pub open spec fn hex_byte(byte: u8) -> Seq<u8> {
    if byte < 16 {
        seq![hex_digit(byte as int)]
    } else {
        seq![hex_digit(byte as int / 16), hex_digit(byte as int % 16)]
    }
}

/// The first `n` of some bytes in hexadecimal, with a comma and a space
/// between one and the next.
pub open spec fn hex_list(bytes: Seq<u8>, n: int) -> Seq<u8>
    decreases n,
{
    if n <= 0 {
        Seq::empty()
    } else if n == 1 {
        hex_byte(bytes[0])
    } else {
        hex_list(bytes, n - 1) + seq![',' as u8, ' ' as u8] + hex_byte(bytes[n - 1])
    }
}

/// Bytes in hexadecimal between square brackets.
pub open spec fn hex_bytes(bytes: Seq<u8>) -> Seq<u8> {
    seq!['[' as u8] + hex_list(bytes, bytes.len() as int) + seq![']' as u8]
}

/// Bytes in hexadecimal between square brackets.
pub fn hex_bytes_digits(bytes: &Vec<u8>) -> (r: Vec<u8>)
    ensures
        r@ == hex_bytes(bytes@),
{
    let mut r: Vec<u8> = Vec::new();
    r.push('[' as u8);
    let mut i: usize = 0;
    assert(r@ =~= seq!['[' as u8] + hex_list(bytes@, 0));
    while i < bytes.len()
        invariant
            i <= bytes.len(),
            r@ == seq!['[' as u8] + hex_list(bytes@, i as int),
        decreases bytes.len() - i,
    {
        let ghost before = r@;
        if i > 0 {
            r.push(',' as u8);
            r.push(' ' as u8);
        }
        let byte = bytes[i];
        if byte >= 16 {
            r.push(to_hex_digit(byte / 16));
        }
        r.push(to_hex_digit(byte % 16));
        assert(r@ =~= seq!['[' as u8] + hex_list(bytes@, i + 1));
        i += 1;
    }
    r.push(']' as u8);
    r
}

/// A label without a remark at the place of the diagnostic.
pub open spec fn primary(span: Span) -> LabelView {
    LabelView { style: LabelStyle::Primary, span, message: Seq::empty() }
}

/// The macro that a chain begins with; no name where the chain is empty.
pub open spec fn first_name(chain: Seq<(Seq<u8>, Span)>) -> Seq<u8> {
    if chain.len() > 0 {
        chain[0].0
    } else {
        Seq::empty()
    }
}

/// The labels of a chain of two macros or more, up to index `n`: at the
/// span of each macro's invocation, the remark that the macro before it
/// invokes it; the first is invoked by the last.
pub open spec fn chain_labels(chain: Seq<(Seq<u8>, Span)>, n: int) -> Seq<LabelView>
    decreases n,
{
    if n <= 0 {
        Seq::empty()
    } else {
        let invoked = if n == chain.len() {
            chain[0]
        } else {
            chain[n]
        };
        chain_labels(chain, n - 1).push(
            LabelView {
                style: LabelStyle::Primary,
                span: invoked.1,
                message: quoted_pair("`", chain[n - 1].0, "` invokes `", invoked.0, "` here"),
            },
        )
    }
}

/// The labels of a recursion among macros: where each macro of the chain is
/// invoked, and last where the first one was invoked to begin with.
pub open spec fn recursion_labels(chain: Seq<(Seq<u8>, Span)>, span: Span) -> Seq<LabelView> {
    let initial = LabelView {
        style: LabelStyle::Secondary,
        span,
        message: quoted("initial invocation of macro `", first_name(chain), "` here"),
    };
    if chain.len() == 0 {
        seq![initial]
    } else if chain.len() == 1 {
        seq![
            LabelView {
                style: LabelStyle::Primary,
                span: chain[0].1,
                message: quoted("`", chain[0].0, "` invokes itself here"),
            },
            initial,
        ]
    } else {
        chain_labels(chain, chain.len() as int).push(initial)
    }
}

/// The message of an error.
pub open spec fn error_message(error: ErrorView) -> Seq<u8>
    decreases error,
{
    match error {
        ErrorView::NoMatchingClosingParenthesis { .. } => bytes_of(
            "no matching closing parenthesis found for an opening parenthesis",
        ),
        ErrorView::NoMatchingOpeningParenthesis { .. } => bytes_of(
            "no matching opening parenthesis found for a closing parenthesis",
        ),
        ErrorView::MacroNameExpected { .. } => bytes_of("expected a macro name"),
        ErrorView::LabelExpected { .. } => bytes_of("expected an label name"),
        ErrorView::SublabelExpected { .. } => bytes_of("expected an sublabel name"),
        ErrorView::SlashInLabelOrSublabel { .. } => bytes_of(
            "label and sublabel names can't include the '/' character",
        ),
        ErrorView::MoreThanOneSlashInIdentifier { .. } => bytes_of(
            "identifiers can't have more than one '/' character",
        ),
        ErrorView::MoreThanOneByteFound { .. } => bytes_of(
            "found more than one byte after a raw character rune",
        ),
        ErrorView::AmpersandAtTheStartOfLabel { .. } => bytes_of(
            "label names can't have '&' as their first character",
        ),
        ErrorView::IdentifierExpected { .. } => bytes_of("expected an identifier"),
        ErrorView::HexNumberExpected { .. } => bytes_of("expected a hexadecimal number"),
        ErrorView::HexNumberOrCharacterExpected { .. } => bytes_of(
            "expected a hexadecimal number or a character",
        ),
        ErrorView::CharacterExpected { .. } => bytes_of("expected a character"),
        ErrorView::HexDigitInvalid { digit, number, .. } => quoted_pair(
            "invalid digit `",
            seq![digit],
            "` in a hexadecimal number `",
            number,
            "`",
        ),
        ErrorView::HexNumberUnevenLength { length, number, .. } => quoted_pair(
            "hexadecimal number `",
            number,
            "` has an uneven length of ",
            decimal(length as nat),
            "",
        ),
        ErrorView::HexNumberTooLong { length, number, .. } => quoted_pair(
            "hexadecimal number `",
            number,
            "` of length ",
            decimal(length as nat),
            " is too long",
        ),
        ErrorView::MacroCannotBeAHexNumber { number, .. } => quoted(
            "`",
            number,
            "` cannot be used as a macro name, as it is a valid hexadecimal number",
        ),
        ErrorView::MacroCannotBeAnInstruction { instruction, .. } => quoted(
            "`",
            instruction,
            "` cannot be used as a macro name, as it is a valid instruction",
        ),
        ErrorView::MacroUndefined { name, .. } => quoted("macro `", name, "` is not defined"),
        ErrorView::MacroDefinedMoreThanOnce { name, .. } => quoted(
            "macro `",
            name,
            "` is defined multiple times",
        ),
        ErrorView::LabelDefinedMoreThanOnce { name, .. } => quoted(
            "label `",
            name,
            "` is defined multiple times",
        ),
        ErrorView::OpeningBraceNotAfterMacroDefinition { .. } => bytes_of(
            "found an opening brace that is not a part of a macro definition",
        ),
        ErrorView::NoMatchingOpeningBrace { .. } => bytes_of(
            "no matching opening brace found for a closing brace",
        ),
        ErrorView::NoMatchingClosingBrace { .. } => bytes_of(
            "no matching closing brace found for an opening brace",
        ),
        ErrorView::SublabelDefinedWithoutScope { name, .. } => quoted(
            "sublabel `",
            name,
            "` was defined without a previously defined label",
        ),
        ErrorView::NoMatchingOpeningBracket { .. } => bytes_of(
            "no matching opening bracket found for a closing bracket",
        ),
        ErrorView::NoMatchingClosingBracket { .. } => bytes_of(
            "no matching closing bracket found for an opening bracket",
        ),
        ErrorView::MacroError { original_error, .. } => error_message(*original_error),
        ErrorView::SublabelReferencedWithoutScope { name, .. } => quoted(
            "sublabel `",
            name,
            "` was referenced without a previously defined label",
        ),
        ErrorView::LabelUndefined { name, .. } => quoted("label `", name, "` is not defined"),
        ErrorView::AddressNotZeroPage { address, identifier, .. } => quoted_pair(
            "address ",
            hex_address(address),
            " of label `",
            identifier,
            "` is not zero-page",
        ),
        ErrorView::AddressTooFar { distance, identifier, .. } => quoted_pair(
            "address of label `",
            identifier,
            "` is too far to be a relative address (distance ",
            decimal(distance as nat),
            ")",
        ),
        ErrorView::BytesInZerothPage { .. } => bytes_of("found bytes on the zeroth page"),
        ErrorView::PaddedBackwards { .. } => bytes_of("the binary can only be padded forwards"),
        ErrorView::ProgramTooLong { .. } => bytes_of("program size exceeded 65536 bytes"),
        ErrorView::RecursiveMacro { chain, .. } => if chain.len() <= 1 {
            bytes_of("found a recursive macro")
        } else {
            bytes_of("found a recursive macro chain")
        },
    }
}

/// The labels of an error: one at its span, with a remark for some; for
/// some a second one at the other span they speak of; for an error in a
/// macro's body one more at each invocation that led to it.
pub open spec fn error_labels(error: ErrorView) -> Seq<LabelView>
    decreases error,
{
    match error {
        ErrorView::MoreThanOneByteFound { bytes, span } => seq![
            LabelView {
                style: LabelStyle::Primary,
                span,
                message: bytes_of("found bytes: ") + hex_bytes(bytes),
            },
        ],
        ErrorView::MacroDefinedMoreThanOnce { name, other_span, span } => seq![
            LabelView {
                style: LabelStyle::Primary,
                span,
                message: quoted("macro `", name, "` redefined here"),
            },
            LabelView {
                style: LabelStyle::Secondary,
                span: other_span,
                message: quoted("previous definition of macro `", name, "` here"),
            },
        ],
        ErrorView::LabelDefinedMoreThanOnce { name, other_span, span } => seq![
            LabelView {
                style: LabelStyle::Primary,
                span,
                message: quoted("label `", name, "` redefined here"),
            },
            LabelView {
                style: LabelStyle::Secondary,
                span: other_span,
                message: quoted("previous definition of label `", name, "` here"),
            },
        ],
        ErrorView::MacroError { original_error, span } => error_labels(*original_error).push(
            LabelView {
                style: LabelStyle::Secondary,
                span,
                message: bytes_of("in this macro invocation"),
            },
        ),
        ErrorView::AddressTooFar { other_span, span, .. } => seq![
            primary(span),
            LabelView {
                style: LabelStyle::Secondary,
                span: other_span,
                message: bytes_of("label definition"),
            },
        ],
        ErrorView::PaddedBackwards { previous_pointer, desired_pointer, span } => seq![
            LabelView {
                style: LabelStyle::Primary,
                span,
                message: quoted_pair(
                    "tried to pad from address ",
                    decimal(previous_pointer as nat),
                    " to address ",
                    decimal(desired_pointer as nat),
                    "",
                ),
            },
        ],
        ErrorView::RecursiveMacro { chain, span } => recursion_labels(chain, span),
        _ => seq![primary(error_span(error))],
    }
}

/// The notes of an error: one for a recursion among macros.
pub open spec fn error_notes(error: ErrorView) -> Seq<Seq<u8>>
    decreases error,
{
    match error {
        ErrorView::MacroError { original_error, .. } => error_notes(*original_error),
        ErrorView::RecursiveMacro { chain, .. } => seq![
            quoted(
                "cannot invoke macro `",
                first_name(chain),
                "`, because it would have infinite size if it were to be expanded",
            ),
        ],
        _ => Seq::empty(),
    }
}

/// The advice that goes with an error.
pub open spec fn error_help(error: ErrorView) -> Seq<Seq<u8>>
    decreases error,
{
    match error {
        ErrorView::MacroError { original_error, .. } => error_help(*original_error),
        ErrorView::HexNumberUnevenLength { .. } => seq![bytes_of("pad the number with zeros")],
        _ => Seq::empty(),
    }
}

/// An error in words.
pub open spec fn error_diagnosis(error: ErrorView) -> FileDiagnosticView {
    FileDiagnosticView {
        severity: Severity::Error,
        message: error_message(error),
        labels: error_labels(error),
        notes: error_notes(error),
        help: error_help(error),
    }
}

/// A warning in words.
pub open spec fn warning_diagnosis(warning: WarningView) -> FileDiagnosticView {
    let none = Seq::<Seq<u8>>::empty();
    let w = Severity::Warning;
    match warning {
        WarningView::TokenTrimmed { span } => FileDiagnosticView {
            severity: w,
            message: bytes_of("token has been cut off, as it's longer than 64 characters"),
            labels: seq![primary(span)],
            notes: none,
            help: none,
        },
        WarningView::InstructionModeDefinedMoreThanOnce {
            instruction_mode,
            instruction,
            other_span,
            span,
        } => FileDiagnosticView {
            severity: w,
            message: quoted_pair(
                "instruction mode `",
                seq![instruction_mode],
                "` is defined multiple times for instruction `",
                instruction,
                "`",
            ),
            labels: seq![
                LabelView {
                    style: LabelStyle::Primary,
                    span,
                    message: quoted("mode `", seq![instruction_mode], "` redefined here"),
                },
                LabelView {
                    style: LabelStyle::Secondary,
                    span: other_span,
                    message: quoted(
                        "previous definition of mode `",
                        seq![instruction_mode],
                        "` here",
                    ),
                },
            ],
            notes: none,
            help: none,
        },
        WarningView::MacroUnused { name, span } => FileDiagnosticView {
            severity: w,
            message: quoted("macro `", name, "` is never used"),
            labels: seq![primary(span)],
            notes: none,
            help: none,
        },
        WarningView::LabelUnused { name, span } => FileDiagnosticView {
            severity: w,
            message: quoted("label `", name, "` is never used"),
            labels: seq![primary(span)],
            notes: none,
            help: seq![bytes_of("if this is intentional, prefix it with a capital letter")],
        },
    }
}

/// No texts.
fn no_texts() -> (r: Vec<Vec<u8>>)
    ensures
        views(r@) == Seq::<Seq<u8>>::empty(),
{
    let r: Vec<Vec<u8>> = Vec::new();
    assert(views(r@) =~= Seq::<Seq<u8>>::empty());
    r
}

/// One text.
fn one_text(text: Vec<u8>) -> (r: Vec<Vec<u8>>)
    ensures
        views(r@) == seq![text@],
{
    let mut r: Vec<Vec<u8>> = Vec::new();
    r.push(text);
    assert(views(r@) =~= seq![text@]);
    r
}

/// One label.
fn one_label(label: Label) -> (r: Vec<Label>)
    ensures
        views(r@) == seq![label@],
{
    let mut r: Vec<Label> = Vec::new();
    r.push(label);
    assert(views(r@) =~= seq![label@]);
    r
}

/// Two labels.
fn two_labels(first: Label, second: Label) -> (r: Vec<Label>)
    ensures
        views(r@) == seq![first@, second@],
{
    let mut r: Vec<Label> = Vec::new();
    r.push(first);
    r.push(second);
    assert(views(r@) =~= seq![first@, second@]);
    r
}

/// A label at the place of the diagnostic.
fn primary_label(span: Span, message: Vec<u8>) -> (r: Label)
    ensures
        r@ == (LabelView { style: LabelStyle::Primary, span, message: message@ }),
{
    Label { style: LabelStyle::Primary, span, message }
}

/// A label at a place that helps to understand the diagnostic.
fn secondary_label(span: Span, message: Vec<u8>) -> (r: Label)
    ensures
        r@ == (LabelView { style: LabelStyle::Secondary, span, message: message@ }),
{
    Label { style: LabelStyle::Secondary, span, message }
}

/// One byte as a text.
fn one_byte(byte: u8) -> (r: Vec<u8>)
    ensures
        r@ == seq![byte],
{
    let mut r: Vec<u8> = Vec::new();
    r.push(byte);
    assert(r@ =~= seq![byte]);
    r
}

/// The message of an error.
pub fn message_of(error: &Error) -> (r: Vec<u8>)
    ensures
        r@ == error_message(error@),
    decreases error,
{
    match error {
        Error::NoMatchingClosingParenthesis { .. } => text_bytes(
            "no matching closing parenthesis found for an opening parenthesis",
        ),
        Error::NoMatchingOpeningParenthesis { .. } => text_bytes(
            "no matching opening parenthesis found for a closing parenthesis",
        ),
        Error::MacroNameExpected { .. } => text_bytes("expected a macro name"),
        Error::LabelExpected { .. } => text_bytes("expected an label name"),
        Error::SublabelExpected { .. } => text_bytes("expected an sublabel name"),
        Error::SlashInLabelOrSublabel { .. } => text_bytes(
            "label and sublabel names can't include the '/' character",
        ),
        Error::MoreThanOneSlashInIdentifier { .. } => text_bytes(
            "identifiers can't have more than one '/' character",
        ),
        Error::MoreThanOneByteFound { .. } => text_bytes(
            "found more than one byte after a raw character rune",
        ),
        Error::AmpersandAtTheStartOfLabel { .. } => text_bytes(
            "label names can't have '&' as their first character",
        ),
        Error::IdentifierExpected { .. } => text_bytes("expected an identifier"),
        Error::HexNumberExpected { .. } => text_bytes("expected a hexadecimal number"),
        Error::HexNumberOrCharacterExpected { .. } => text_bytes(
            "expected a hexadecimal number or a character",
        ),
        Error::CharacterExpected { .. } => text_bytes("expected a character"),
        Error::HexDigitInvalid { digit, number, .. } => quote_pair(
            "invalid digit `",
            &one_byte(*digit),
            "` in a hexadecimal number `",
            number,
            "`",
        ),
        Error::HexNumberUnevenLength { length, number, .. } => quote_pair(
            "hexadecimal number `",
            number,
            "` has an uneven length of ",
            &decimal_digits(*length),
            "",
        ),
        Error::HexNumberTooLong { length, number, .. } => quote_pair(
            "hexadecimal number `",
            number,
            "` of length ",
            &decimal_digits(*length),
            " is too long",
        ),
        Error::MacroCannotBeAHexNumber { number, .. } => quote(
            "`",
            number,
            "` cannot be used as a macro name, as it is a valid hexadecimal number",
        ),
        Error::MacroCannotBeAnInstruction { instruction, .. } => quote(
            "`",
            instruction,
            "` cannot be used as a macro name, as it is a valid instruction",
        ),
        Error::MacroUndefined { name, .. } => quote("macro `", name, "` is not defined"),
        Error::MacroDefinedMoreThanOnce { name, .. } => quote(
            "macro `",
            name,
            "` is defined multiple times",
        ),
        Error::LabelDefinedMoreThanOnce { name, .. } => quote(
            "label `",
            name,
            "` is defined multiple times",
        ),
        Error::OpeningBraceNotAfterMacroDefinition { .. } => text_bytes(
            "found an opening brace that is not a part of a macro definition",
        ),
        Error::NoMatchingOpeningBrace { .. } => text_bytes(
            "no matching opening brace found for a closing brace",
        ),
        Error::NoMatchingClosingBrace { .. } => text_bytes(
            "no matching closing brace found for an opening brace",
        ),
        Error::SublabelDefinedWithoutScope { name, .. } => quote(
            "sublabel `",
            name,
            "` was defined without a previously defined label",
        ),
        Error::NoMatchingOpeningBracket { .. } => text_bytes(
            "no matching opening bracket found for a closing bracket",
        ),
        Error::NoMatchingClosingBracket { .. } => text_bytes(
            "no matching closing bracket found for an opening bracket",
        ),
        Error::MacroError { original_error, .. } => message_of(original_error),
        Error::SublabelReferencedWithoutScope { name, .. } => quote(
            "sublabel `",
            name,
            "` was referenced without a previously defined label",
        ),
        Error::LabelUndefined { name, .. } => quote("label `", name, "` is not defined"),
        Error::AddressNotZeroPage { address, identifier, .. } => quote_pair(
            "address ",
            &hex_address_digits(*address),
            " of label `",
            identifier,
            "` is not zero-page",
        ),
        Error::AddressTooFar { distance, identifier, .. } => quote_pair(
            "address of label `",
            identifier,
            "` is too far to be a relative address (distance ",
            &decimal_digits(*distance),
            ")",
        ),
        Error::BytesInZerothPage { .. } => text_bytes("found bytes on the zeroth page"),
        Error::PaddedBackwards { .. } => text_bytes("the binary can only be padded forwards"),
        Error::ProgramTooLong { .. } => text_bytes("program size exceeded 65536 bytes"),
        Error::RecursiveMacro { chain, .. } => if chain.len() <= 1 {
            text_bytes("found a recursive macro")
        } else {
            text_bytes("found a recursive macro chain")
        },
    }
}

/// The labels of a recursion among macros.
fn recursion_labels_of(chain: &Vec<(Vec<u8>, Span)>, span: Span) -> (r: Vec<Label>)
    ensures
        views(r@) == recursion_labels(chain_view(chain@), span),
{
    let ghost names = chain_view(chain@);
    let first: Vec<u8> = if chain.len() > 0 {
        clone_bytes(&chain[0].0)
    } else {
        Vec::new()
    };
    assert(first@ =~= first_name(names));
    let initial = secondary_label(span, quote("initial invocation of macro `", &first, "` here"));
    if chain.len() == 0 {
        one_label(initial)
    } else if chain.len() == 1 {
        two_labels(
            primary_label(chain[0].1, quote("`", &chain[0].0, "` invokes itself here")),
            initial,
        )
    } else {
        let mut labels: Vec<Label> = Vec::new();
        assert(views(labels@) =~= chain_labels(names, 0));
        let mut i: usize = 0;
        while i < chain.len()
            invariant
                i <= chain.len(),
                names == chain_view(chain@),
                views(labels@) == chain_labels(names, i as int),
            decreases chain.len() - i,
        {
            let invoked = if i + 1 == chain.len() {
                &chain[0]
            } else {
                &chain[i + 1]
            };
            push_view(
                &mut labels,
                primary_label(
                    invoked.1,
                    quote_pair("`", &chain[i].0, "` invokes `", &invoked.0, "` here"),
                ),
            );
            i += 1;
        }
        push_view(&mut labels, initial);
        labels
    }
}

/// The labels of an error.
pub fn labels_of(error: &Error) -> (r: Vec<Label>)
    ensures
        views(r@) == error_labels(error@),
    decreases error,
{
    match error {
        Error::MoreThanOneByteFound { bytes, span } => {
            let mut message = text_bytes("found bytes: ");
            append_bytes(&mut message, &hex_bytes_digits(bytes));
            one_label(primary_label(*span, message))
        },
        Error::MacroDefinedMoreThanOnce { name, other_span, span } => two_labels(
            primary_label(*span, quote("macro `", name, "` redefined here")),
            secondary_label(*other_span, quote("previous definition of macro `", name, "` here")),
        ),
        Error::LabelDefinedMoreThanOnce { name, other_span, span } => two_labels(
            primary_label(*span, quote("label `", name, "` redefined here")),
            secondary_label(*other_span, quote("previous definition of label `", name, "` here")),
        ),
        Error::MacroError { original_error, span } => {
            let mut labels = labels_of(original_error);
            push_view(
                &mut labels,
                secondary_label(*span, text_bytes("in this macro invocation")),
            );
            labels
        },
        Error::AddressTooFar { other_span, span, .. } => two_labels(
            primary_label(*span, Vec::new()),
            secondary_label(*other_span, text_bytes("label definition")),
        ),
        Error::PaddedBackwards { previous_pointer, desired_pointer, span } => one_label(
            primary_label(
                *span,
                quote_pair(
                    "tried to pad from address ",
                    &decimal_digits(*previous_pointer),
                    " to address ",
                    &decimal_digits(*desired_pointer),
                    "",
                ),
            ),
        ),
        Error::RecursiveMacro { chain, span } => recursion_labels_of(chain, *span),
        _ => one_label(primary_label(error.span(), Vec::new())),
    }
}

/// The notes of an error.
pub fn notes_of(error: &Error) -> (r: Vec<Vec<u8>>)
    ensures
        views(r@) == error_notes(error@),
    decreases error,
{
    match error {
        Error::MacroError { original_error, .. } => notes_of(original_error),
        Error::RecursiveMacro { chain, .. } => {
            let first: Vec<u8> = if chain.len() > 0 {
                clone_bytes(&chain[0].0)
            } else {
                Vec::new()
            };
            assert(first@ =~= first_name(chain_view(chain@)));
            one_text(
                quote(
                    "cannot invoke macro `",
                    &first,
                    "`, because it would have infinite size if it were to be expanded",
                ),
            )
        },
        _ => no_texts(),
    }
}

/// The advice that goes with an error.
pub fn help_of(error: &Error) -> (r: Vec<Vec<u8>>)
    ensures
        views(r@) == error_help(error@),
    decreases error,
{
    match error {
        Error::MacroError { original_error, .. } => help_of(original_error),
        Error::HexNumberUnevenLength { .. } => one_text(text_bytes("pad the number with zeros")),
        _ => no_texts(),
    }
}

/// Puts an error in words: its message, a label at its span and at every
/// other span it speaks of, and the notes and the advice that go with it.
pub fn diagnose_error(error: &Error) -> (r: FileDiagnostic)
    ensures
        r@ == error_diagnosis(error@),
{
    FileDiagnostic {
        severity: Severity::Error,
        message: message_of(error),
        labels: labels_of(error),
        notes: notes_of(error),
        help: help_of(error),
    }
}

/// Puts a warning in words.
pub fn diagnose_warning(warning: &Warning) -> (r: FileDiagnostic)
    ensures
        r@ == warning_diagnosis(warning@),
{
    let w = Severity::Warning;
    match warning {
        Warning::TokenTrimmed { span } => FileDiagnostic {
            severity: w,
            message: text_bytes("token has been cut off, as it's longer than 64 characters"),
            labels: one_label(primary_label(*span, Vec::new())),
            notes: no_texts(),
            help: no_texts(),
        },
        Warning::InstructionModeDefinedMoreThanOnce {
            instruction_mode,
            instruction,
            other_span,
            span,
        } => {
            let mode = one_byte(*instruction_mode);
            FileDiagnostic {
                severity: w,
                message: quote_pair(
                    "instruction mode `",
                    &mode,
                    "` is defined multiple times for instruction `",
                    instruction,
                    "`",
                ),
                labels: two_labels(
                    primary_label(*span, quote("mode `", &mode, "` redefined here")),
                    secondary_label(
                        *other_span,
                        quote("previous definition of mode `", &mode, "` here"),
                    ),
                ),
                notes: no_texts(),
                help: no_texts(),
            }
        },
        Warning::MacroUnused { name, span } => FileDiagnostic {
            severity: w,
            message: quote("macro `", name, "` is never used"),
            labels: one_label(primary_label(*span, Vec::new())),
            notes: no_texts(),
            help: no_texts(),
        },
        Warning::LabelUnused { name, span } => FileDiagnostic {
            severity: w,
            message: quote("label `", name, "` is never used"),
            labels: one_label(primary_label(*span, Vec::new())),
            notes: no_texts(),
            help: one_text(text_bytes("if this is intentional, prefix it with a capital letter")),
        },
    }
}

} // verus!
