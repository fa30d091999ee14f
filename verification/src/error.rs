//! The errors and the warnings of the assembler.

use crate::bytes::clone_bytes;
use crate::span::Span;
use vstd::prelude::*;

verus! {

/// The chain of a recursive macro as plain values: each macro of the cycle
/// with the span at which it is invoked.
pub open spec fn chain_view(chain: Seq<(Vec<u8>, Span)>) -> Seq<(Seq<u8>, Span)> {
    Seq::new(chain.len(), |i: int| (chain[i].0@, chain[i].1))
}

/// A copy of a chain.
pub fn clone_chain(chain: &Vec<(Vec<u8>, Span)>) -> (r: Vec<(Vec<u8>, Span)>)
    ensures
        chain_view(r@) == chain_view(chain@),
{
    let mut r: Vec<(Vec<u8>, Span)> = Vec::new();
    let mut i: usize = 0;
    while i < chain.len()
        invariant
            i <= chain.len(),
            r.len() == i,
            forall|j: int| 0 <= j < i ==> r@[j].0@ == chain@[j].0@ && r@[j].1 == chain@[j].1,
        decreases chain.len() - i,
    {
        r.push((clone_bytes(&chain[i].0), chain[i].1));
        i += 1;
    }
    assert(chain_view(r@) =~= chain_view(chain@));
    r
}

/// What can be wrong with a program. Every error carries the span of the
/// source text it is about.
#[derive(Debug, PartialEq, Eq)]
pub enum Error {
    /// A comment that was opened at `span` and never closed.
    NoMatchingClosingParenthesis { span: Span },
    /// A closing parenthesis outside every comment.
    NoMatchingOpeningParenthesis { span: Span },
    /// A `%` without a name.
    MacroNameExpected { span: Span },
    /// An `@` without a name.
    LabelExpected { span: Span },
    /// An `&` without a name, or a reference without a sublabel after its `/`.
    SublabelExpected { span: Span },
    /// A `/` in the name of a label or sublabel, or at the start of a reference.
    SlashInLabelOrSublabel { span: Span },
    /// A reference with two `/` or more.
    MoreThanOneSlashInIdentifier { span: Span },
    /// A `'` followed by more than one byte.
    MoreThanOneByteFound { bytes: Vec<u8>, span: Span },
    /// A name that begins with `&`.
    AmpersandAtTheStartOfLabel { span: Span },
    /// A reference rune without an identifier.
    IdentifierExpected { span: Span },
    /// A `#`, `|` or `$` without a number.
    HexNumberExpected { span: Span },
    /// A place for a number or a character that holds neither.
    HexNumberOrCharacterExpected { span: Span },
    /// A `'` without a byte.
    CharacterExpected { span: Span },
    /// A number with a byte that is no hexadecimal digit; `digit` is the
    /// first such byte.
    HexDigitInvalid { digit: u8, number: Vec<u8>, span: Span },
    /// A number with an odd count of digits.
    HexNumberUnevenLength { length: usize, number: Vec<u8>, span: Span },
    /// A number with an even count of digits other than two or four.
    HexNumberTooLong { length: usize, number: Vec<u8>, span: Span },
    /// A macro name that reads as a byte or a short.
    MacroCannotBeAHexNumber { number: Vec<u8>, span: Span },
    /// A macro name that begins with a mnemonic.
    MacroCannotBeAnInstruction { instruction: Vec<u8>, span: Span },
    /// An invocation of a macro that is defined nowhere.
    MacroUndefined { name: Vec<u8>, span: Span },
    /// A definition of a macro that is defined at `other_span` already; or
    /// a definition met while a body is expanded.
    MacroDefinedMoreThanOnce { name: Vec<u8>, other_span: Span, span: Span },
    /// A definition of a label that is defined at `other_span` already.
    LabelDefinedMoreThanOnce { name: Vec<u8>, other_span: Span, span: Span },
    /// An opening brace that does not follow a macro definition.
    OpeningBraceNotAfterMacroDefinition { span: Span },
    /// A closing brace outside every brace group.
    NoMatchingOpeningBrace { span: Span },
    /// A brace group that was opened at `span` and never closed.
    NoMatchingClosingBrace { span: Span },
    /// A sublabel defined before any label.
    SublabelDefinedWithoutScope { name: Vec<u8>, span: Span },
    /// A closing bracket without an open one.
    NoMatchingOpeningBracket { span: Span },
    /// A bracket that was opened at `span` and never closed.
    NoMatchingClosingBracket { span: Span },
    /// An error in the body of a macro, for the invocation at `span`.
    MacroError { original_error: Box<Error>, span: Span },
    /// A reference to `&sublabel` before any label.
    SublabelReferencedWithoutScope { name: Vec<u8>, span: Span },
    /// A reference to a label that is defined nowhere.
    LabelUndefined { name: Vec<u8>, span: Span },
    /// A zero-page reference to a label above address `0xff`.
    AddressNotZeroPage { address: u16, identifier: Vec<u8>, span: Span },
    /// A relative reference to a label more than 126 bytes away; the
    /// label is defined at `other_span`.
    AddressTooFar { distance: usize, identifier: Vec<u8>, other_span: Span, span: Span },
    /// A statement that would write below address `0x0100`.
    BytesInZerothPage { span: Span },
    /// A pad to an address behind the write pointer.
    PaddedBackwards { previous_pointer: usize, desired_pointer: usize, span: Span },
    /// A statement or a pad that reaches past the last address.
    ProgramTooLong { span: Span },
    /// An invocation of a macro that is being expanded. The chain holds
    /// the macros of the cycle, each with the span at which it is invoked:
    /// the first by the last. `span` is where the first was invoked to
    /// begin with.
    RecursiveMacro { chain: Vec<(Vec<u8>, Span)>, span: Span },
}

/// An error as plain values.
pub enum ErrorView {
    NoMatchingClosingParenthesis { span: Span },
    NoMatchingOpeningParenthesis { span: Span },
    MacroNameExpected { span: Span },
    LabelExpected { span: Span },
    SublabelExpected { span: Span },
    SlashInLabelOrSublabel { span: Span },
    MoreThanOneSlashInIdentifier { span: Span },
    MoreThanOneByteFound { bytes: Seq<u8>, span: Span },
    AmpersandAtTheStartOfLabel { span: Span },
    IdentifierExpected { span: Span },
    HexNumberExpected { span: Span },
    HexNumberOrCharacterExpected { span: Span },
    CharacterExpected { span: Span },
    HexDigitInvalid { digit: u8, number: Seq<u8>, span: Span },
    HexNumberUnevenLength { length: usize, number: Seq<u8>, span: Span },
    HexNumberTooLong { length: usize, number: Seq<u8>, span: Span },
    MacroCannotBeAHexNumber { number: Seq<u8>, span: Span },
    MacroCannotBeAnInstruction { instruction: Seq<u8>, span: Span },
    MacroUndefined { name: Seq<u8>, span: Span },
    MacroDefinedMoreThanOnce { name: Seq<u8>, other_span: Span, span: Span },
    LabelDefinedMoreThanOnce { name: Seq<u8>, other_span: Span, span: Span },
    OpeningBraceNotAfterMacroDefinition { span: Span },
    NoMatchingOpeningBrace { span: Span },
    NoMatchingClosingBrace { span: Span },
    SublabelDefinedWithoutScope { name: Seq<u8>, span: Span },
    NoMatchingOpeningBracket { span: Span },
    NoMatchingClosingBracket { span: Span },
    MacroError { original_error: Box<ErrorView>, span: Span },
    SublabelReferencedWithoutScope { name: Seq<u8>, span: Span },
    LabelUndefined { name: Seq<u8>, span: Span },
    AddressNotZeroPage { address: u16, identifier: Seq<u8>, span: Span },
    AddressTooFar { distance: usize, identifier: Seq<u8>, other_span: Span, span: Span },
    BytesInZerothPage { span: Span },
    PaddedBackwards { previous_pointer: usize, desired_pointer: usize, span: Span },
    ProgramTooLong { span: Span },
    RecursiveMacro { chain: Seq<(Seq<u8>, Span)>, span: Span },
}

/// An error as plain values.
pub open spec fn error_view(e: Error) -> ErrorView
    decreases e,
{
    match e {
        Error::NoMatchingClosingParenthesis { span } => ErrorView::NoMatchingClosingParenthesis {
            span,
        },
        Error::NoMatchingOpeningParenthesis { span } => ErrorView::NoMatchingOpeningParenthesis {
            span,
        },
        Error::MacroNameExpected { span } => ErrorView::MacroNameExpected { span },
        Error::LabelExpected { span } => ErrorView::LabelExpected { span },
        Error::SublabelExpected { span } => ErrorView::SublabelExpected { span },
        Error::SlashInLabelOrSublabel { span } => ErrorView::SlashInLabelOrSublabel { span },
        Error::MoreThanOneSlashInIdentifier { span } => ErrorView::MoreThanOneSlashInIdentifier {
            span,
        },
        Error::MoreThanOneByteFound { bytes, span } => ErrorView::MoreThanOneByteFound {
            bytes: bytes@,
            span,
        },
        Error::AmpersandAtTheStartOfLabel { span } => ErrorView::AmpersandAtTheStartOfLabel {
            span,
        },
        Error::IdentifierExpected { span } => ErrorView::IdentifierExpected { span },
        Error::HexNumberExpected { span } => ErrorView::HexNumberExpected { span },
        Error::HexNumberOrCharacterExpected { span } => ErrorView::HexNumberOrCharacterExpected {
            span,
        },
        Error::CharacterExpected { span } => ErrorView::CharacterExpected { span },
        Error::HexDigitInvalid { digit, number, span } => ErrorView::HexDigitInvalid {
            digit,
            number: number@,
            span,
        },
        Error::HexNumberUnevenLength { length, number, span } => ErrorView::HexNumberUnevenLength {
            length,
            number: number@,
            span,
        },
        Error::HexNumberTooLong { length, number, span } => ErrorView::HexNumberTooLong {
            length,
            number: number@,
            span,
        },
        Error::MacroCannotBeAHexNumber { number, span } => ErrorView::MacroCannotBeAHexNumber {
            number: number@,
            span,
        },
        Error::MacroCannotBeAnInstruction {
            instruction,
            span,
        } => ErrorView::MacroCannotBeAnInstruction {
            instruction: instruction@,
            span,
        },
        Error::MacroUndefined { name, span } => ErrorView::MacroUndefined { name: name@, span },
        Error::MacroDefinedMoreThanOnce {
            name,
            other_span,
            span,
        } => ErrorView::MacroDefinedMoreThanOnce {
            name: name@,
            other_span,
            span,
        },
        Error::LabelDefinedMoreThanOnce {
            name,
            other_span,
            span,
        } => ErrorView::LabelDefinedMoreThanOnce {
            name: name@,
            other_span,
            span,
        },
        Error::OpeningBraceNotAfterMacroDefinition {
            span,
        } => ErrorView::OpeningBraceNotAfterMacroDefinition {
            span,
        },
        Error::NoMatchingOpeningBrace { span } => ErrorView::NoMatchingOpeningBrace { span },
        Error::NoMatchingClosingBrace { span } => ErrorView::NoMatchingClosingBrace { span },
        Error::SublabelDefinedWithoutScope {
            name,
            span,
        } => ErrorView::SublabelDefinedWithoutScope {
            name: name@,
            span,
        },
        Error::NoMatchingOpeningBracket { span } => ErrorView::NoMatchingOpeningBracket { span },
        Error::NoMatchingClosingBracket { span } => ErrorView::NoMatchingClosingBracket { span },
        Error::MacroError { original_error, span } => ErrorView::MacroError {
            original_error: Box::new(error_view(*original_error)),
            span,
        },
        Error::SublabelReferencedWithoutScope {
            name,
            span,
        } => ErrorView::SublabelReferencedWithoutScope {
            name: name@,
            span,
        },
        Error::LabelUndefined { name, span } => ErrorView::LabelUndefined { name: name@, span },
        Error::AddressNotZeroPage { address, identifier, span } => ErrorView::AddressNotZeroPage {
            address,
            identifier: identifier@,
            span,
        },
        Error::AddressTooFar {
            distance,
            identifier,
            other_span,
            span,
        } => ErrorView::AddressTooFar {
            distance,
            identifier: identifier@,
            other_span,
            span,
        },
        Error::BytesInZerothPage { span } => ErrorView::BytesInZerothPage { span },
        Error::PaddedBackwards {
            previous_pointer,
            desired_pointer,
            span,
        } => ErrorView::PaddedBackwards {
            previous_pointer,
            desired_pointer,
            span,
        },
        Error::ProgramTooLong { span } => ErrorView::ProgramTooLong { span },
        Error::RecursiveMacro { chain, span } => ErrorView::RecursiveMacro {
            chain: chain_view(chain@),
            span,
        },
    }
}

impl View for Error {
    type V = ErrorView;

    open spec fn view(&self) -> ErrorView {
        error_view(*self)
    }
}

/// The span that an error is about.
pub open spec fn error_span(e: ErrorView) -> Span {
    match e {
        ErrorView::NoMatchingClosingParenthesis { span, .. } => span,
        ErrorView::NoMatchingOpeningParenthesis { span, .. } => span,
        ErrorView::MacroNameExpected { span, .. } => span,
        ErrorView::LabelExpected { span, .. } => span,
        ErrorView::SublabelExpected { span, .. } => span,
        ErrorView::SlashInLabelOrSublabel { span, .. } => span,
        ErrorView::MoreThanOneSlashInIdentifier { span, .. } => span,
        ErrorView::MoreThanOneByteFound { span, .. } => span,
        ErrorView::AmpersandAtTheStartOfLabel { span, .. } => span,
        ErrorView::IdentifierExpected { span, .. } => span,
        ErrorView::HexNumberExpected { span, .. } => span,
        ErrorView::HexNumberOrCharacterExpected { span, .. } => span,
        ErrorView::CharacterExpected { span, .. } => span,
        ErrorView::HexDigitInvalid { span, .. } => span,
        ErrorView::HexNumberUnevenLength { span, .. } => span,
        ErrorView::HexNumberTooLong { span, .. } => span,
        ErrorView::MacroCannotBeAHexNumber { span, .. } => span,
        ErrorView::MacroCannotBeAnInstruction { span, .. } => span,
        ErrorView::MacroUndefined { span, .. } => span,
        ErrorView::MacroDefinedMoreThanOnce { span, .. } => span,
        ErrorView::LabelDefinedMoreThanOnce { span, .. } => span,
        ErrorView::OpeningBraceNotAfterMacroDefinition { span, .. } => span,
        ErrorView::NoMatchingOpeningBrace { span, .. } => span,
        ErrorView::NoMatchingClosingBrace { span, .. } => span,
        ErrorView::SublabelDefinedWithoutScope { span, .. } => span,
        ErrorView::NoMatchingOpeningBracket { span, .. } => span,
        ErrorView::NoMatchingClosingBracket { span, .. } => span,
        ErrorView::MacroError { span, .. } => span,
        ErrorView::SublabelReferencedWithoutScope { span, .. } => span,
        ErrorView::LabelUndefined { span, .. } => span,
        ErrorView::AddressNotZeroPage { span, .. } => span,
        ErrorView::AddressTooFar { span, .. } => span,
        ErrorView::BytesInZerothPage { span, .. } => span,
        ErrorView::PaddedBackwards { span, .. } => span,
        ErrorView::ProgramTooLong { span, .. } => span,
        ErrorView::RecursiveMacro { span, .. } => span,
    }
}

impl Error {
    /// A copy of the error.
    pub fn duplicate(&self) -> (r: Error)
        ensures
            r@ == self@,
        decreases self,
    {
        match self {
            Error::NoMatchingClosingParenthesis { span } => Error::NoMatchingClosingParenthesis {
                span: *span,
            },
            Error::NoMatchingOpeningParenthesis { span } => Error::NoMatchingOpeningParenthesis {
                span: *span,
            },
            Error::MacroNameExpected { span } => Error::MacroNameExpected { span: *span },
            Error::LabelExpected { span } => Error::LabelExpected { span: *span },
            Error::SublabelExpected { span } => Error::SublabelExpected { span: *span },
            Error::SlashInLabelOrSublabel { span } => Error::SlashInLabelOrSublabel { span: *span },
            Error::MoreThanOneSlashInIdentifier { span } => Error::MoreThanOneSlashInIdentifier {
                span: *span,
            },
            Error::MoreThanOneByteFound { bytes, span } => Error::MoreThanOneByteFound {
                bytes: clone_bytes(bytes),
                span: *span,
            },
            Error::AmpersandAtTheStartOfLabel { span } => Error::AmpersandAtTheStartOfLabel {
                span: *span,
            },
            Error::IdentifierExpected { span } => Error::IdentifierExpected { span: *span },
            Error::HexNumberExpected { span } => Error::HexNumberExpected { span: *span },
            Error::HexNumberOrCharacterExpected { span } => Error::HexNumberOrCharacterExpected {
                span: *span,
            },
            Error::CharacterExpected { span } => Error::CharacterExpected { span: *span },
            Error::HexDigitInvalid { digit, number, span } => Error::HexDigitInvalid {
                digit: *digit,
                number: clone_bytes(number),
                span: *span,
            },
            Error::HexNumberUnevenLength { length, number, span } => Error::HexNumberUnevenLength {
                length: *length,
                number: clone_bytes(number),
                span: *span,
            },
            Error::HexNumberTooLong { length, number, span } => Error::HexNumberTooLong {
                length: *length,
                number: clone_bytes(number),
                span: *span,
            },
            Error::MacroCannotBeAHexNumber { number, span } => Error::MacroCannotBeAHexNumber {
                number: clone_bytes(number),
                span: *span,
            },
            Error::MacroCannotBeAnInstruction {
                instruction,
                span,
            } => Error::MacroCannotBeAnInstruction {
                instruction: clone_bytes(instruction),
                span: *span,
            },
            Error::MacroUndefined { name, span } => Error::MacroUndefined {
                name: clone_bytes(name),
                span: *span,
            },
            Error::MacroDefinedMoreThanOnce {
                name,
                other_span,
                span,
            } => Error::MacroDefinedMoreThanOnce {
                name: clone_bytes(name),
                other_span: *other_span,
                span: *span,
            },
            Error::LabelDefinedMoreThanOnce {
                name,
                other_span,
                span,
            } => Error::LabelDefinedMoreThanOnce {
                name: clone_bytes(name),
                other_span: *other_span,
                span: *span,
            },
            Error::OpeningBraceNotAfterMacroDefinition {
                span,
            } => Error::OpeningBraceNotAfterMacroDefinition {
                span: *span,
            },
            Error::NoMatchingOpeningBrace { span } => Error::NoMatchingOpeningBrace { span: *span },
            Error::NoMatchingClosingBrace { span } => Error::NoMatchingClosingBrace { span: *span },
            Error::SublabelDefinedWithoutScope {
                name,
                span,
            } => Error::SublabelDefinedWithoutScope {
                name: clone_bytes(name),
                span: *span,
            },
            Error::NoMatchingOpeningBracket { span } => Error::NoMatchingOpeningBracket {
                span: *span,
            },
            Error::NoMatchingClosingBracket { span } => Error::NoMatchingClosingBracket {
                span: *span,
            },
            Error::MacroError { original_error, span } => Error::MacroError {
                original_error: Box::new(original_error.duplicate()),
                span: *span,
            },
            Error::SublabelReferencedWithoutScope {
                name,
                span,
            } => Error::SublabelReferencedWithoutScope {
                name: clone_bytes(name),
                span: *span,
            },
            Error::LabelUndefined { name, span } => Error::LabelUndefined {
                name: clone_bytes(name),
                span: *span,
            },
            Error::AddressNotZeroPage { address, identifier, span } => Error::AddressNotZeroPage {
                address: *address,
                identifier: clone_bytes(identifier),
                span: *span,
            },
            Error::AddressTooFar {
                distance,
                identifier,
                other_span,
                span,
            } => Error::AddressTooFar {
                distance: *distance,
                identifier: clone_bytes(identifier),
                other_span: *other_span,
                span: *span,
            },
            Error::BytesInZerothPage { span } => Error::BytesInZerothPage { span: *span },
            Error::PaddedBackwards {
                previous_pointer,
                desired_pointer,
                span,
            } => Error::PaddedBackwards {
                previous_pointer: *previous_pointer,
                desired_pointer: *desired_pointer,
                span: *span,
            },
            Error::ProgramTooLong { span } => Error::ProgramTooLong { span: *span },
            Error::RecursiveMacro { chain, span } => Error::RecursiveMacro {
                chain: clone_chain(chain),
                span: *span,
            },
        }
    }

    /// The span that the error is about.
    pub fn span(&self) -> (r: Span)
        ensures
            r == error_span(self@),
    {
        match self {
            Error::NoMatchingClosingParenthesis { span, .. } => *span,
            Error::NoMatchingOpeningParenthesis { span, .. } => *span,
            Error::MacroNameExpected { span, .. } => *span,
            Error::LabelExpected { span, .. } => *span,
            Error::SublabelExpected { span, .. } => *span,
            Error::SlashInLabelOrSublabel { span, .. } => *span,
            Error::MoreThanOneSlashInIdentifier { span, .. } => *span,
            Error::MoreThanOneByteFound { span, .. } => *span,
            Error::AmpersandAtTheStartOfLabel { span, .. } => *span,
            Error::IdentifierExpected { span, .. } => *span,
            Error::HexNumberExpected { span, .. } => *span,
            Error::HexNumberOrCharacterExpected { span, .. } => *span,
            Error::CharacterExpected { span, .. } => *span,
            Error::HexDigitInvalid { span, .. } => *span,
            Error::HexNumberUnevenLength { span, .. } => *span,
            Error::HexNumberTooLong { span, .. } => *span,
            Error::MacroCannotBeAHexNumber { span, .. } => *span,
            Error::MacroCannotBeAnInstruction { span, .. } => *span,
            Error::MacroUndefined { span, .. } => *span,
            Error::MacroDefinedMoreThanOnce { span, .. } => *span,
            Error::LabelDefinedMoreThanOnce { span, .. } => *span,
            Error::OpeningBraceNotAfterMacroDefinition { span, .. } => *span,
            Error::NoMatchingOpeningBrace { span, .. } => *span,
            Error::NoMatchingClosingBrace { span, .. } => *span,
            Error::SublabelDefinedWithoutScope { span, .. } => *span,
            Error::NoMatchingOpeningBracket { span, .. } => *span,
            Error::NoMatchingClosingBracket { span, .. } => *span,
            Error::MacroError { span, .. } => *span,
            Error::SublabelReferencedWithoutScope { span, .. } => *span,
            Error::LabelUndefined { span, .. } => *span,
            Error::AddressNotZeroPage { span, .. } => *span,
            Error::AddressTooFar { span, .. } => *span,
            Error::BytesInZerothPage { span, .. } => *span,
            Error::PaddedBackwards { span, .. } => *span,
            Error::ProgramTooLong { span, .. } => *span,
            Error::RecursiveMacro { span, .. } => *span,
        }
    }
}

impl Clone for Error {
    /// A copy of the error.
    fn clone(&self) -> (r: Error)
        ensures
            r@ == self@,
    {
        self.duplicate()
    }
}

/// What is suspicious in a program without being wrong.
#[derive(Clone, Debug, PartialEq, Eq)]
pub enum Warning {
    /// A lexeme of more than 64 bytes, of which the first 64 were read.
    TokenTrimmed { span: Span },
    /// A mode flag at `span` that stands at `other_span` already.
    InstructionModeDefinedMoreThanOnce {
        instruction_mode: u8,
        instruction: Vec<u8>,
        other_span: Span,
        span: Span,
    },
    /// A macro that nothing invokes.
    MacroUnused { name: Vec<u8>, span: Span },
    /// A label that nothing refers to and that does not begin with a
    /// capital letter.
    LabelUnused { name: Vec<u8>, span: Span },
}

/// A warning as plain values.
pub enum WarningView {
    TokenTrimmed { span: Span },
    InstructionModeDefinedMoreThanOnce {
        instruction_mode: u8,
        instruction: Seq<u8>,
        other_span: Span,
        span: Span,
    },
    MacroUnused { name: Seq<u8>, span: Span },
    LabelUnused { name: Seq<u8>, span: Span },
}

impl View for Warning {
    type V = WarningView;

    open spec fn view(&self) -> WarningView {
        match *self {
            Warning::TokenTrimmed { span } => WarningView::TokenTrimmed { span },
            Warning::InstructionModeDefinedMoreThanOnce {
                instruction_mode,
                instruction,
                other_span,
                span,
            } => WarningView::InstructionModeDefinedMoreThanOnce {
                instruction_mode,
                instruction: instruction@,
                other_span,
                span,
            },
            Warning::MacroUnused { name, span } => WarningView::MacroUnused { name: name@, span },
            Warning::LabelUnused { name, span } => WarningView::LabelUnused { name: name@, span },
        }
    }
}

impl Warning {
    /// A copy of the warning.
    pub fn duplicate(&self) -> (r: Warning)
        ensures
            r@ == self@,
    {
        match self {
            Warning::TokenTrimmed { span } => Warning::TokenTrimmed { span: *span },
            Warning::InstructionModeDefinedMoreThanOnce {
                instruction_mode,
                instruction,
                other_span,
                span,
            } => Warning::InstructionModeDefinedMoreThanOnce {
                instruction_mode: *instruction_mode,
                instruction: clone_bytes(instruction),
                other_span: *other_span,
                span: *span,
            },
            Warning::MacroUnused { name, span } => Warning::MacroUnused {
                name: clone_bytes(name),
                span: *span,
            },
            Warning::LabelUnused { name, span } => Warning::LabelUnused {
                name: clone_bytes(name),
                span: *span,
            },
        }
    }
}

} // verus!
