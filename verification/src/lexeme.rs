//! What a lexeme stands for: its token, or what is wrong with it.

use crate::error::{Error, ErrorView, Warning, WarningView};
use crate::span::Span;
use crate::token::{
    Instruction, InstructionKind, ScopedIdentifier, ScopedIdentifierView, Token, TokenView,
};
use crate::views::{push_view, views};
use crate::bytes::{clone_bytes, find_byte, first_of, slice_bytes};
use vstd::prelude::*;

verus! {

/// The longest lexeme that is read in full.
pub const LEXEME_LIMIT: usize = 64;

/// Whether a byte is a hexadecimal digit: `0` to `9` or `a` to `f`.
pub open spec fn is_hex_digit(b: u8) -> bool {
    ('0' as u8) <= b <= '9' as u8 || ('a' as u8) <= b <= 'f' as u8
}

/// The value of a hexadecimal digit.
pub open spec fn hex_value(b: u8) -> int {
    if b <= '9' as u8 {
        b - '0' as u8
    } else {
        b - 'a' as u8 + 10
    }
}

/// The number that hexadecimal digits stand for.
pub open spec fn hex_number(digits: Seq<u8>) -> int
    decreases digits.len(),
{
    if digits.len() == 0 {
        0
    } else {
        hex_number(digits.drop_last()) * 16 + hex_value(digits.last())
    }
}

/// The index of the first of the first `n` bytes that is no hexadecimal
/// digit, if there is one.
pub open spec fn bad_digit(s: Seq<u8>, n: int) -> Option<int>
    decreases n,
{
    if n <= 0 {
        None
    } else {
        match bad_digit(s, n - 1) {
            Some(i) => Some(i),
            None => if is_hex_digit(s[n - 1]) {
                None
            } else {
                Some(n - 1)
            },
        }
    }
}

/// A hexadecimal number of one byte or of two.
#[derive(Clone, Copy, Debug, PartialEq, Eq, Structural)]
pub enum HexNumber {
    Byte(u8),
    Short(u16),
}

/// What the text of a hexadecimal number stands for: a byte where it has
/// two digits, a short where it has four, else an error at `span`.
pub open spec fn hex_of(s: Seq<u8>, span: Span) -> Result<HexNumber, ErrorView> {
    if s.len() == 0 {
        Err(ErrorView::HexNumberExpected { span })
    } else {
        match bad_digit(s, s.len() as int) {
            Some(i) => Err(ErrorView::HexDigitInvalid { digit: s[i], number: s, span }),
            None => if s.len() % 2 == 1 {
                Err(ErrorView::HexNumberUnevenLength { length: s.len() as usize, number: s, span })
            } else if s.len() == 2 {
                Ok(HexNumber::Byte(hex_number(s) as u8))
            } else if s.len() == 4 {
                Ok(HexNumber::Short(hex_number(s) as u16))
            } else {
                Err(ErrorView::HexNumberTooLong { length: s.len() as usize, number: s, span })
            },
        }
    }
}

/// The capital of a small ASCII letter; any other byte itself.
pub open spec fn upper(b: u8) -> u8 {
    if ('a' as u8) <= b <= 'z' as u8 {
        (b - 32) as u8
    } else {
        b
    }
}

/// The operation that three capital letters name.
pub open spec fn kind_of(a: u8, b: u8, c: u8) -> Option<InstructionKind> {
    match (a as char, b as char, c as char) {
        ('B', 'R', 'K') => Some(InstructionKind::Brk),
        ('L', 'I', 'T') => Some(InstructionKind::Lit),
        ('I', 'N', 'C') => Some(InstructionKind::Inc),
        ('P', 'O', 'P') => Some(InstructionKind::Pop),
        ('D', 'U', 'P') => Some(InstructionKind::Dup),
        ('N', 'I', 'P') => Some(InstructionKind::Nip),
        ('S', 'W', 'P') => Some(InstructionKind::Swp),
        ('O', 'V', 'R') => Some(InstructionKind::Ovr),
        ('R', 'O', 'T') => Some(InstructionKind::Rot),
        ('E', 'Q', 'U') => Some(InstructionKind::Equ),
        ('N', 'E', 'Q') => Some(InstructionKind::Neq),
        ('G', 'T', 'H') => Some(InstructionKind::Gth),
        ('L', 'T', 'H') => Some(InstructionKind::Lth),
        ('J', 'M', 'P') => Some(InstructionKind::Jmp),
        ('J', 'C', 'N') => Some(InstructionKind::Jcn),
        ('J', 'S', 'R') => Some(InstructionKind::Jsr),
        ('S', 'T', 'H') => Some(InstructionKind::Sth),
        ('L', 'D', 'Z') => Some(InstructionKind::Ldz),
        ('S', 'T', 'Z') => Some(InstructionKind::Stz),
        ('L', 'D', 'R') => Some(InstructionKind::Ldr),
        ('S', 'T', 'R') => Some(InstructionKind::Str),
        ('L', 'D', 'A') => Some(InstructionKind::Lda),
        ('S', 'T', 'A') => Some(InstructionKind::Sta),
        ('D', 'E', 'I') => Some(InstructionKind::Dei),
        ('D', 'E', 'O') => Some(InstructionKind::Deo),
        ('A', 'D', 'D') => Some(InstructionKind::Add),
        ('S', 'U', 'B') => Some(InstructionKind::Sub),
        ('M', 'U', 'L') => Some(InstructionKind::Mul),
        ('D', 'I', 'V') => Some(InstructionKind::Div),
        ('A', 'N', 'D') => Some(InstructionKind::And),
        ('O', 'R', 'A') => Some(InstructionKind::Ora),
        ('E', 'O', 'R') => Some(InstructionKind::Eor),
        ('S', 'F', 'T') => Some(InstructionKind::Sft),
        _ => None,
    }
}

/// The operation that the first three bytes of a text name once they are
/// made capitals.
pub open spec fn mnemonic(text: Seq<u8>) -> Option<InstructionKind> {
    if text.len() >= 3 {
        kind_of(upper(text[0]), upper(text[1]), upper(text[2]))
    } else {
        None
    }
}

/// Whether a byte is a mode flag: `2`, `k` or `r`.
pub open spec fn is_mode(b: u8) -> bool {
    b == '2' as u8 || b == 'k' as u8 || b == 'r' as u8
}

/// Whether the bytes from index 3 up to `n` are all mode flags.
pub open spec fn modes_valid(text: Seq<u8>, n: int) -> bool
    decreases n,
{
    n <= 3 || (is_mode(text[n - 1]) && modes_valid(text, n - 1))
}

/// The index of the first mode flag `mode` from index 3 up to `n`, if
/// there is one.
pub open spec fn mode_at(text: Seq<u8>, mode: u8, n: int) -> Option<int>
    decreases n,
{
    if n <= 3 {
        None
    } else {
        match mode_at(text, mode, n - 1) {
            Some(i) => Some(i),
            None => if text[n - 1] == mode {
                Some(n - 1)
            } else {
                None
            },
        }
    }
}

/// The instruction that a text spells, if it spells one: a mnemonic in
/// small or capital letters, and then nothing but mode flags. `LIT` is
/// `BRK` in keep mode, so it has its keep flag set whatever follows.
pub open spec fn instruction_of(text: Seq<u8>) -> Option<Instruction> {
    match mnemonic(text) {
        Some(kind) => if modes_valid(text, text.len() as int) {
            Some(
                Instruction {
                    instruction_kind: kind,
                    short: mode_at(text, '2' as u8, text.len() as int) is Some,
                    keep: kind == InstructionKind::Lit || mode_at(
                        text,
                        'k' as u8,
                        text.len() as int,
                    ) is Some,
                    ret: mode_at(text, 'r' as u8, text.len() as int) is Some,
                },
            )
        } else {
            None
        },
        None => None,
    }
}

/// The three letters of a text's mnemonic as capitals.
pub open spec fn capitals(text: Seq<u8>) -> Seq<u8> {
    seq![upper(text[0]), upper(text[1]), upper(text[2])]
}

/// The warnings for the mode flags of an instruction up to index `n`: one
/// for each flag that stands there a second time or more, at the span of
/// that byte, with the span of the flag's first place.
pub open spec fn mode_warnings(text: Seq<u8>, span: Span, n: int) -> Seq<WarningView>
    decreases n,
{
    if n <= 3 {
        Seq::empty()
    } else {
        let before = mode_warnings(text, span, n - 1);
        match mode_at(text, text[n - 1], n - 1) {
            Some(first) => before.push(
                WarningView::InstructionModeDefinedMoreThanOnce {
                    instruction_mode: text[n - 1],
                    instruction: capitals(text),
                    other_span: span.spec_part(first, 1),
                    span: span.spec_part(n - 1, 1),
                },
            ),
            None => before,
        }
    }
}

/// What is wrong with the name of a label or sublabel, if anything:
/// `missing` where it is empty, else an error where it begins with `&` or
/// holds a `/`.
pub open spec fn name_error(name: Seq<u8>, span: Span, missing: ErrorView) -> Option<ErrorView> {
    if name.len() == 0 {
        Some(missing)
    } else if name[0] == '&' as u8 {
        Some(ErrorView::AmpersandAtTheStartOfLabel { span })
    } else if first_of(name, '/' as u8, name.len() as int) is Some {
        Some(ErrorView::SlashInLabelOrSublabel { span })
    } else {
        None
    }
}

/// The identifier that a text spells: `label`, `label/sublabel` or
/// `&sublabel`, else an error at `span`.
pub open spec fn identifier_of(s: Seq<u8>, span: Span) -> Result<ScopedIdentifierView, ErrorView> {
    if s.len() == 0 {
        Err(ErrorView::IdentifierExpected { span })
    } else if s[0] == '&' as u8 {
        let sublabel = s.subrange(1, s.len() as int);
        match name_error(sublabel, span, ErrorView::SublabelExpected { span }) {
            Some(e) => Err(e),
            None => Ok(ScopedIdentifierView::Relative(sublabel)),
        }
    } else {
        match first_of(s, '/' as u8, s.len() as int) {
            None => Ok(ScopedIdentifierView::Label(s)),
            Some(slash) => {
                let label = s.subrange(0, slash);
                let sublabel = s.subrange(slash + 1, s.len() as int);
                if first_of(sublabel, '/' as u8, sublabel.len() as int) is Some {
                    Err(ErrorView::MoreThanOneSlashInIdentifier { span })
                } else if label.len() == 0 {
                    Err(ErrorView::SlashInLabelOrSublabel { span })
                } else {
                    match name_error(sublabel, span, ErrorView::SublabelExpected { span }) {
                        Some(e) => Err(e),
                        None => Ok(ScopedIdentifierView::Sublabel(label, sublabel)),
                    }
                }
            },
        }
    }
}

/// What is wrong with the name of a macro, if anything: it is empty, it
/// reads as a byte or a short in hexadecimal, or it begins with a
/// mnemonic.
pub open spec fn macro_name_error(name: Seq<u8>, span: Span) -> Option<ErrorView> {
    if name.len() == 0 {
        Some(ErrorView::MacroNameExpected { span })
    } else if hex_of(name, span) is Ok {
        Some(ErrorView::MacroCannotBeAHexNumber { number: name, span })
    } else if mnemonic(name) is Some {
        Some(ErrorView::MacroCannotBeAnInstruction { instruction: name, span })
    } else {
        None
    }
}

/// The token that a lexeme stands for, or what is wrong with it. The first
/// byte decides where it is a rune. A lexeme without a rune is a raw byte
/// or short where it reads as one in hexadecimal, else an instruction where
/// it spells one, else the invocation of a macro. The text is not empty.
pub open spec fn token_of(text: Seq<u8>, span: Span) -> Result<TokenView, ErrorView> {
    let rest = text.subrange(1, text.len() as int);
    match text[0] as char {
        '(' => Ok(TokenView::OpeningParenthesis),
        ')' => Ok(TokenView::ClosingParenthesis),
        '[' => Ok(TokenView::OpeningBracket),
        ']' => Ok(TokenView::ClosingBracket),
        '{' => Ok(TokenView::OpeningBrace),
        '}' => Ok(TokenView::ClosingBrace),
        '%' => match macro_name_error(rest, span) {
            Some(e) => Err(e),
            None => Ok(TokenView::MacroDefine(rest)),
        },
        '@' => match name_error(rest, span, ErrorView::LabelExpected { span }) {
            Some(e) => Err(e),
            None => Ok(TokenView::LabelDefine(rest)),
        },
        '&' => match name_error(rest, span, ErrorView::SublabelExpected { span }) {
            Some(e) => Err(e),
            None => Ok(TokenView::SublabelDefine(rest)),
        },
        '|' => match hex_of(rest, span) {
            Ok(HexNumber::Byte(b)) => Ok(TokenView::PadAbsolute(b as u16)),
            Ok(HexNumber::Short(s)) => Ok(TokenView::PadAbsolute(s)),
            Err(e) => Err(e),
        },
        '$' => match hex_of(rest, span) {
            Ok(HexNumber::Byte(b)) => Ok(TokenView::PadRelative(b as u16)),
            Ok(HexNumber::Short(s)) => Ok(TokenView::PadRelative(s)),
            Err(e) => Err(e),
        },
        '#' => match hex_of(rest, span) {
            Ok(HexNumber::Byte(b)) => Ok(TokenView::LiteralHexByte(b)),
            Ok(HexNumber::Short(s)) => Ok(TokenView::LiteralHexShort(s)),
            Err(e) => Err(e),
        },
        '.' => match identifier_of(rest, span) {
            Ok(id) => Ok(TokenView::LiteralZeroPageAddress(id)),
            Err(e) => Err(e),
        },
        ',' => match identifier_of(rest, span) {
            Ok(id) => Ok(TokenView::LiteralRelativeAddress(id)),
            Err(e) => Err(e),
        },
        ';' => match identifier_of(rest, span) {
            Ok(id) => Ok(TokenView::LiteralAbsoluteAddress(id)),
            Err(e) => Err(e),
        },
        ':' => match identifier_of(rest, span) {
            Ok(id) => Ok(TokenView::RawAddress(id)),
            Err(e) => Err(e),
        },
        '\'' => if rest.len() == 0 {
            Err(ErrorView::CharacterExpected { span })
        } else if rest.len() == 1 {
            Ok(TokenView::RawChar(rest[0]))
        } else {
            Err(ErrorView::MoreThanOneByteFound { bytes: rest, span })
        },
        '"' => Ok(TokenView::RawWord(rest)),
        _ => match hex_of(text, span) {
            Ok(HexNumber::Byte(b)) => Ok(TokenView::RawHexByte(b)),
            Ok(HexNumber::Short(s)) => Ok(TokenView::RawHexShort(s)),
            Err(_) => match instruction_of(text) {
                Some(instruction) => Ok(TokenView::Instruction(instruction)),
                None => Ok(TokenView::MacroInvoke(text)),
            },
        },
    }
}

/// The warnings that a lexeme gives besides its token: those for the mode
/// flags of an instruction.
pub open spec fn warnings_of(text: Seq<u8>, span: Span) -> Seq<WarningView> {
    if token_of(text, span) matches Ok(TokenView::Instruction(_)) {
        mode_warnings(text, span, text.len() as int)
    } else {
        Seq::empty()
    }
}

/// The first of the first `n` bytes that is no digit is the first of any
/// more.
pub proof fn lemma_bad_digit_stays(s: Seq<u8>, n: int, more: int)
    requires
        n <= more,
        bad_digit(s, n) is Some,
    ensures
        bad_digit(s, more) == bad_digit(s, n),
    decreases more - n,
{
    if n < more {
        lemma_bad_digit_stays(s, n, more - 1);
    }
}

/// Whether a byte is a hexadecimal digit.
pub fn hex_digit(b: u8) -> (r: bool)
    ensures
        r == is_hex_digit(b),
{
    ('0' as u8 <= b && b <= '9' as u8) || ('a' as u8 <= b && b <= 'f' as u8)
}

/// The value of a hexadecimal digit.
fn digit_value(b: u8) -> (r: u16)
    requires
        is_hex_digit(b),
    ensures
        r == hex_value(b),
        r < 16,
{
    if b <= '9' as u8 {
        (b - '0' as u8) as u16
    } else {
        (b - 'a' as u8 + 10) as u16
    }
}

/// What the text of a hexadecimal number stands for.
pub fn parse_hex(s: &Vec<u8>, span: Span) -> (r: Result<HexNumber, Error>)
    ensures
        match hex_of(s@, span) {
            Ok(number) => r == Ok::<HexNumber, Error>(number),
            Err(e) => r is Err && r->Err_0@ == e,
        },
{
    if s.len() == 0 {
        return Err(Error::HexNumberExpected { span });
    }
    let mut i: usize = 0;
    while i < s.len()
        invariant
            i <= s.len(),
            bad_digit(s@, i as int) is None,
        decreases s.len() - i,
    {
        let b = s[i];
        if !hex_digit(b) {
            proof {
                assert(bad_digit(s@, i + 1) == Some(i as int));
                lemma_bad_digit_stays(s@, i + 1, s.len() as int);
            }
            return Err(Error::HexDigitInvalid { digit: b, number: clone_bytes(s), span });
        }
        i += 1;
    }
    if s.len() % 2 == 1 {
        Err(Error::HexNumberUnevenLength { length: s.len(), number: clone_bytes(s), span })
    } else if s.len() == 2 {
        proof {
            lemma_digits(s@, 2);
            lemma_hex_number_two(s@);
        }
        Ok(HexNumber::Byte((digit_value(s[0]) * 16 + digit_value(s[1])) as u8))
    } else if s.len() == 4 {
        proof {
            lemma_digits(s@, 4);
            lemma_hex_number_four(s@);
        }
        Ok(
            HexNumber::Short(
                ((digit_value(s[0]) * 16 + digit_value(s[1])) * 16 + digit_value(s[2])) * 16
                    + digit_value(s[3]),
            ),
        )
    } else {
        Err(Error::HexNumberTooLong { length: s.len(), number: clone_bytes(s), span })
    }
}

/// Where none of the first `n` bytes is a bad digit, each of them is a
/// digit.
pub proof fn lemma_digits(s: Seq<u8>, n: int)
    requires
        bad_digit(s, n) is None,
    ensures
        forall|i: int| 0 <= i < n ==> is_hex_digit(#[trigger] s[i]),
    decreases n,
{
    if n > 0 {
        lemma_digits(s, n - 1);
    }
}

/// The number that two digits stand for.
pub proof fn lemma_hex_number_two(s: Seq<u8>)
    requires
        s.len() == 2,
    ensures
        hex_number(s) == hex_value(s[0]) * 16 + hex_value(s[1]),
{
    reveal_with_fuel(hex_number, 3);
    assert(s.drop_last().last() == s[0]);
}

/// The number that four digits stand for.
pub proof fn lemma_hex_number_four(s: Seq<u8>)
    requires
        s.len() == 4,
    ensures
        hex_number(s) == ((hex_value(s[0]) * 16 + hex_value(s[1])) * 16 + hex_value(s[2])) * 16
            + hex_value(s[3]),
{
    reveal_with_fuel(hex_number, 5);
    let a = s.drop_last();
    let b = a.drop_last();
    let c = b.drop_last();
    assert(a.last() == s[2]);
    assert(b.last() == s[1]);
    assert(c.last() == s[0]);
}

/// The capital of a small ASCII letter; any other byte itself.
fn to_upper(b: u8) -> (r: u8)
    ensures
        r == upper(b),
{
    if ('a' as u8) <= b && b <= 'z' as u8 {
        b - 32
    } else {
        b
    }
}

/// The operation that three capital letters name.
fn kind(a: u8, b: u8, c: u8) -> (r: Option<InstructionKind>)
    ensures
        r == kind_of(a, b, c),
{
    match (a as char, b as char, c as char) {
        ('B', 'R', 'K') => Some(InstructionKind::Brk),
        ('L', 'I', 'T') => Some(InstructionKind::Lit),
        ('I', 'N', 'C') => Some(InstructionKind::Inc),
        ('P', 'O', 'P') => Some(InstructionKind::Pop),
        ('D', 'U', 'P') => Some(InstructionKind::Dup),
        ('N', 'I', 'P') => Some(InstructionKind::Nip),
        ('S', 'W', 'P') => Some(InstructionKind::Swp),
        ('O', 'V', 'R') => Some(InstructionKind::Ovr),
        ('R', 'O', 'T') => Some(InstructionKind::Rot),
        ('E', 'Q', 'U') => Some(InstructionKind::Equ),
        ('N', 'E', 'Q') => Some(InstructionKind::Neq),
        ('G', 'T', 'H') => Some(InstructionKind::Gth),
        ('L', 'T', 'H') => Some(InstructionKind::Lth),
        ('J', 'M', 'P') => Some(InstructionKind::Jmp),
        ('J', 'C', 'N') => Some(InstructionKind::Jcn),
        ('J', 'S', 'R') => Some(InstructionKind::Jsr),
        ('S', 'T', 'H') => Some(InstructionKind::Sth),
        ('L', 'D', 'Z') => Some(InstructionKind::Ldz),
        ('S', 'T', 'Z') => Some(InstructionKind::Stz),
        ('L', 'D', 'R') => Some(InstructionKind::Ldr),
        ('S', 'T', 'R') => Some(InstructionKind::Str),
        ('L', 'D', 'A') => Some(InstructionKind::Lda),
        ('S', 'T', 'A') => Some(InstructionKind::Sta),
        ('D', 'E', 'I') => Some(InstructionKind::Dei),
        ('D', 'E', 'O') => Some(InstructionKind::Deo),
        ('A', 'D', 'D') => Some(InstructionKind::Add),
        ('S', 'U', 'B') => Some(InstructionKind::Sub),
        ('M', 'U', 'L') => Some(InstructionKind::Mul),
        ('D', 'I', 'V') => Some(InstructionKind::Div),
        ('A', 'N', 'D') => Some(InstructionKind::And),
        ('O', 'R', 'A') => Some(InstructionKind::Ora),
        ('E', 'O', 'R') => Some(InstructionKind::Eor),
        ('S', 'F', 'T') => Some(InstructionKind::Sft),
        _ => None,
    }
}

/// The operation that the first three bytes of a text name once they are
/// made capitals.
pub fn parse_mnemonic(text: &Vec<u8>) -> (r: Option<InstructionKind>)
    ensures
        r == mnemonic(text@),
{
    if text.len() >= 3 {
        kind(to_upper(text[0]), to_upper(text[1]), to_upper(text[2]))
    } else {
        None
    }
}

/// Whether a byte is a mode flag.
fn mode(b: u8) -> (r: bool)
    ensures
        r == is_mode(b),
{
    b == '2' as u8 || b == 'k' as u8 || b == 'r' as u8
}

/// The instruction that a text spells, if it spells one; with a warning
/// added for each mode flag that stands there a second time or more.
pub fn parse_instruction(text: &Vec<u8>, span: Span, warnings: &mut Vec<Warning>) -> (r: Option<
    Instruction,
>)
    requires
        span.wf(),
        span.from + text.len() <= span.to,
    ensures
        r == instruction_of(text@),
        views(final(warnings)@) == views(old(warnings)@) + (if r is Some {
            mode_warnings(text@, span, text.len() as int)
        } else {
            Seq::empty()
        }),
{
    let kind = match parse_mnemonic(text) {
        Some(kind) => kind,
        None => {
            assert(views(warnings@) =~= views(warnings@) + Seq::<WarningView>::empty());
            return None;
        },
    };
    let mut i: usize = 3;
    while i < text.len()
        invariant
            3 <= i <= text.len(),
            modes_valid(text@, i as int),
        decreases text.len() - i,
    {
        let b = text[i];
        if !mode(b) {
            proof {
                lemma_modes_invalid(text@, i + 1, text.len() as int);
                assert(views(warnings@) =~= views(warnings@) + Seq::<WarningView>::empty());
            }
            return None;
        }
        i += 1;
    }
    let mut short: Option<usize> = None;
    let mut keep: Option<usize> = None;
    let mut ret: Option<usize> = None;
    let mut instruction: Vec<u8> = Vec::new();
    instruction.push(to_upper(text[0]));
    instruction.push(to_upper(text[1]));
    instruction.push(to_upper(text[2]));
    assert(instruction@ =~= capitals(text@));
    let mut i: usize = 3;
    assert(views(warnings@) =~= views(old(warnings)@) + mode_warnings(text@, span, 3));
    while i < text.len()
        invariant
            3 <= i <= text.len(),
            span.wf(),
            span.from + text.len() <= span.to,
            instruction@ == capitals(text@),
            modes_valid(text@, text.len() as int),
            place_view(short) == mode_at(text@, '2' as u8, i as int),
            place_view(keep) == mode_at(text@, 'k' as u8, i as int),
            place_view(ret) == mode_at(text@, 'r' as u8, i as int),
            short is Some ==> short.unwrap() < i,
            keep is Some ==> keep.unwrap() < i,
            ret is Some ==> ret.unwrap() < i,
            views(warnings@) == views(old(warnings)@) + mode_warnings(text@, span, i as int),
        decreases text.len() - i,
    {
        let b = text[i];
        proof {
            lemma_modes_valid_at(text@, text.len() as int, i as int);
        }
        let first: Option<usize> = if b == '2' as u8 {
            short
        } else if b == 'k' as u8 {
            keep
        } else {
            ret
        };
        let ghost before = views(warnings@);
        match first {
            Some(at) => {
                push_view(
                    warnings,
                    Warning::InstructionModeDefinedMoreThanOnce {
                        instruction_mode: b,
                        instruction: clone_bytes(&instruction),
                        other_span: span.part(at, 1),
                        span: span.part(i, 1),
                    },
                );
            },
            None => {
                if b == '2' as u8 {
                    short = Some(i);
                } else if b == 'k' as u8 {
                    keep = Some(i);
                } else {
                    ret = Some(i);
                }
            },
        }
        assert(views(warnings@) =~= views(old(warnings)@) + mode_warnings(text@, span, i + 1));
        i += 1;
    }
    Some(
        Instruction {
            instruction_kind: kind,
            short: short.is_some(),
            keep: match kind {
                InstructionKind::Lit => true,
                _ => keep.is_some(),
            },
            ret: ret.is_some(),
        },
    )
}

/// An index as a plain value.
pub open spec fn place_view(place: Option<usize>) -> Option<int> {
    match place {
        Some(i) => Some(i as int),
        None => None,
    }
}

/// Where a byte from index 3 on is no mode flag, the modes are not valid
/// up to any index past it.
pub proof fn lemma_modes_invalid(text: Seq<u8>, n: int, more: int)
    requires
        3 < n <= more,
        !is_mode(text[n - 1]),
    ensures
        !modes_valid(text, more),
    decreases more - n,
{
    if n < more {
        lemma_modes_invalid(text, n, more - 1);
    }
}

/// Where the modes are valid up to `n`, every byte from index 3 up to `n`
/// is a mode flag.
pub proof fn lemma_modes_valid_at(text: Seq<u8>, n: int, i: int)
    requires
        modes_valid(text, n),
        3 <= i < n,
    ensures
        is_mode(text[i]),
    decreases n,
{
    if i < n - 1 {
        lemma_modes_valid_at(text, n - 1, i);
    }
}

/// What is wrong with the name of a label or sublabel, if anything.
fn check_name(name: &Vec<u8>, span: Span, missing: Error) -> (r: Option<Error>)
    ensures
        match name_error(name@, span, missing@) {
            Some(e) => r is Some && r.unwrap()@ == e,
            None => r is None,
        },
{
    if name.len() == 0 {
        Some(missing)
    } else if name[0] == '&' as u8 {
        Some(Error::AmpersandAtTheStartOfLabel { span })
    } else if find_byte(name, '/' as u8).is_some() {
        Some(Error::SlashInLabelOrSublabel { span })
    } else {
        None
    }
}

/// The identifier that a text spells, or what is wrong with it.
pub fn parse_identifier(s: &Vec<u8>, span: Span) -> (r: Result<ScopedIdentifier, Error>)
    ensures
        match identifier_of(s@, span) {
            Ok(id) => r is Ok && r->Ok_0@ == id,
            Err(e) => r is Err && r->Err_0@ == e,
        },
{
    if s.len() == 0 {
        return Err(Error::IdentifierExpected { span });
    }
    if s[0] == '&' as u8 {
        let sublabel = slice_bytes(s, 1, s.len());
        return match check_name(&sublabel, span, Error::SublabelExpected { span }) {
            Some(e) => Err(e),
            None => Ok(ScopedIdentifier::Relative(sublabel)),
        };
    }
    match find_byte(s, '/' as u8) {
        None => Ok(ScopedIdentifier::Label(clone_bytes(s))),
        Some(slash) => {
            let label = slice_bytes(s, 0, slash);
            let sublabel = slice_bytes(s, slash + 1, s.len());
            if find_byte(&sublabel, '/' as u8).is_some() {
                Err(Error::MoreThanOneSlashInIdentifier { span })
            } else if label.len() == 0 {
                Err(Error::SlashInLabelOrSublabel { span })
            } else {
                match check_name(&sublabel, span, Error::SublabelExpected { span }) {
                    Some(e) => Err(e),
                    None => Ok(ScopedIdentifier::Sublabel(label, sublabel)),
                }
            }
        },
    }
}

/// What is wrong with the name of a macro, if anything.
fn check_macro_name(name: &Vec<u8>, span: Span) -> (r: Option<Error>)
    ensures
        match macro_name_error(name@, span) {
            Some(e) => r is Some && r.unwrap()@ == e,
            None => r is None,
        },
{
    if name.len() == 0 {
        Some(Error::MacroNameExpected { span })
    } else if parse_hex(name, span).is_ok() {
        Some(Error::MacroCannotBeAHexNumber { number: clone_bytes(name), span })
    } else if parse_mnemonic(name).is_some() {
        Some(Error::MacroCannotBeAnInstruction { instruction: clone_bytes(name), span })
    } else {
        None
    }
}

/// The token that a lexeme stands for, by its first byte, or what is wrong
/// with it; with the warnings of the lexeme added to `warnings`.
pub fn tokenize(text: &Vec<u8>, span: Span, warnings: &mut Vec<Warning>) -> (r: Result<
    Token,
    Error,
>)
    requires
        text.len() > 0,
        span.wf(),
        span.from + text.len() <= span.to,
    ensures
        match token_of(text@, span) {
            Ok(token) => r is Ok && r->Ok_0@ == token,
            Err(e) => r is Err && r->Err_0@ == e,
        },
        views(final(warnings)@) == views(old(warnings)@) + warnings_of(text@, span),
{
    let ghost start = views(warnings@);
    let rune = text[0] as char;
    let bare = match rune {
        '(' | ')' | '[' | ']' | '{' | '}' | '%' | '@' | '&' | '|' | '$' | '#' | '.' | ',' | ';'
        | ':' | '\'' | '"' => false,
        _ => true,
    };
    if bare {
        return match parse_hex(text, span) {
            Ok(HexNumber::Byte(b)) => {
                assert(start =~= start + Seq::<WarningView>::empty());
                Ok(Token::RawHexByte(b))
            },
            Ok(HexNumber::Short(s)) => {
                assert(start =~= start + Seq::<WarningView>::empty());
                Ok(Token::RawHexShort(s))
            },
            Err(_) => match parse_instruction(text, span, warnings) {
                Some(instruction) => Ok(Token::Instruction(instruction)),
                None => Ok(Token::MacroInvoke(clone_bytes(text))),
            },
        };
    }
    assert(start =~= start + Seq::<WarningView>::empty());
    let rest = slice_bytes(text, 1, text.len());
    match rune {
        '(' => Ok(Token::OpeningParenthesis),
        ')' => Ok(Token::ClosingParenthesis),
        '[' => Ok(Token::OpeningBracket),
        ']' => Ok(Token::ClosingBracket),
        '{' => Ok(Token::OpeningBrace),
        '}' => Ok(Token::ClosingBrace),
        '%' => match check_macro_name(&rest, span) {
            Some(e) => Err(e),
            None => Ok(Token::MacroDefine(rest)),
        },
        '@' => match check_name(&rest, span, Error::LabelExpected { span }) {
            Some(e) => Err(e),
            None => Ok(Token::LabelDefine(rest)),
        },
        '&' => match check_name(&rest, span, Error::SublabelExpected { span }) {
            Some(e) => Err(e),
            None => Ok(Token::SublabelDefine(rest)),
        },
        '|' => match parse_hex(&rest, span) {
            Ok(HexNumber::Byte(b)) => Ok(Token::PadAbsolute(b as u16)),
            Ok(HexNumber::Short(s)) => Ok(Token::PadAbsolute(s)),
            Err(e) => Err(e),
        },
        '$' => match parse_hex(&rest, span) {
            Ok(HexNumber::Byte(b)) => Ok(Token::PadRelative(b as u16)),
            Ok(HexNumber::Short(s)) => Ok(Token::PadRelative(s)),
            Err(e) => Err(e),
        },
        '#' => match parse_hex(&rest, span) {
            Ok(HexNumber::Byte(b)) => Ok(Token::LiteralHexByte(b)),
            Ok(HexNumber::Short(s)) => Ok(Token::LiteralHexShort(s)),
            Err(e) => Err(e),
        },
        '.' => match parse_identifier(&rest, span) {
            Ok(id) => Ok(Token::LiteralZeroPageAddress(id)),
            Err(e) => Err(e),
        },
        ',' => match parse_identifier(&rest, span) {
            Ok(id) => Ok(Token::LiteralRelativeAddress(id)),
            Err(e) => Err(e),
        },
        ';' => match parse_identifier(&rest, span) {
            Ok(id) => Ok(Token::LiteralAbsoluteAddress(id)),
            Err(e) => Err(e),
        },
        ':' => match parse_identifier(&rest, span) {
            Ok(id) => Ok(Token::RawAddress(id)),
            Err(e) => Err(e),
        },
        '\'' => if rest.len() == 0 {
            Err(Error::CharacterExpected { span })
        } else if rest.len() == 1 {
            Ok(Token::RawChar(rest[0]))
        } else {
            Err(Error::MoreThanOneByteFound { bytes: rest, span })
        },
        _ => Ok(Token::RawWord(rest)),
    }
}

} // verus!
