//! The tokens of the scanner and the statements of the walker.

use crate::bytes::{append_bytes, bytes_eq, clone_bytes};
use crate::span::Spanned;
use vstd::prelude::*;

verus! {

/// The operations of the machine, in the order of the mnemonic table.
#[derive(Clone, Copy, Debug, PartialEq, Eq, Structural)]
pub enum InstructionKind {
    Brk,
    Lit,
    Inc,
    Pop,
    Dup,
    Nip,
    Swp,
    Ovr,
    Rot,
    Equ,
    Neq,
    Gth,
    Lth,
    Jmp,
    Jcn,
    Jsr,
    Sth,
    Ldz,
    Stz,
    Ldr,
    Str,
    Lda,
    Sta,
    Dei,
    Deo,
    Add,
    Sub,
    Mul,
    Div,
    And,
    Ora,
    Eor,
    Sft,
}

/// An operation with its three mode flags. The scanner reads `LIT` as `BRK`
/// in keep mode: it sets the keep flag of every `Lit`.
#[derive(Clone, Copy, Debug, PartialEq, Eq, Structural)]
pub struct Instruction {
    pub instruction_kind: InstructionKind,
    pub short: bool,
    pub keep: bool,
    pub ret: bool,
}

/// Whether a byte is an ASCII capital letter.
pub open spec fn is_capital_letter(b: u8) -> bool {
    ('A' as u8) <= b <= 'Z' as u8
}

/// Whether a byte is an ASCII capital letter.
pub fn capital_letter(b: u8) -> (r: bool)
    ensures
        r == is_capital_letter(b),
{
    'A' as u8 <= b && b <= 'Z' as u8
}

/// A reference to a label: `label`, `label/sublabel`, or `&sublabel`, which
/// stands for a sublabel of whichever label was defined last.
#[derive(Clone, Debug, PartialEq, Eq)]
pub enum ScopedIdentifier {
    Label(Vec<u8>),
    Sublabel(Vec<u8>, Vec<u8>),
    Relative(Vec<u8>),
}

/// An identifier as plain values.
pub enum ScopedIdentifierView {
    Label(Seq<u8>),
    Sublabel(Seq<u8>, Seq<u8>),
    Relative(Seq<u8>),
}

impl View for ScopedIdentifier {
    type V = ScopedIdentifierView;

    open spec fn view(&self) -> ScopedIdentifierView {
        match *self {
            ScopedIdentifier::Label(l) => ScopedIdentifierView::Label(l@),
            ScopedIdentifier::Sublabel(l, s) => ScopedIdentifierView::Sublabel(l@, s@),
            ScopedIdentifier::Relative(s) => ScopedIdentifierView::Relative(s@),
        }
    }
}

impl ScopedIdentifierView {
    /// Whether the identifier names its label, so that it can be looked up.
    pub open spec fn is_resolved(self) -> bool {
        !(self is Relative)
    }

    /// Whether the label begins with an ASCII capital letter.
    pub open spec fn is_capital(self) -> bool {
        match self {
            ScopedIdentifierView::Label(l) => l.len() > 0 && is_capital_letter(l[0]),
            ScopedIdentifierView::Sublabel(l, _) => l.len() > 0 && is_capital_letter(l[0]),
            ScopedIdentifierView::Relative(_) => false,
        }
    }

    /// The identifier as it is written: `label`, `label/sublabel` or
    /// `&sublabel`.
    pub open spec fn name(self) -> Seq<u8> {
        match self {
            ScopedIdentifierView::Label(l) => l,
            ScopedIdentifierView::Sublabel(l, s) => l.push('/' as u8) + s,
            ScopedIdentifierView::Relative(s) => seq!['&' as u8] + s,
        }
    }

    /// The identifier with `&sublabel` placed under the label `scope`.
    pub open spec fn scoped(self, scope: Seq<u8>) -> ScopedIdentifierView {
        match self {
            ScopedIdentifierView::Relative(s) => ScopedIdentifierView::Sublabel(scope, s),
            _ => self,
        }
    }
}

impl ScopedIdentifier {
    /// Whether the label begins with an ASCII capital letter.
    pub fn is_capital(&self) -> (r: bool)
        ensures
            r == self@.is_capital(),
    {
        match self {
            ScopedIdentifier::Label(l) => l.len() > 0 && capital_letter(l[0]),
            ScopedIdentifier::Sublabel(l, _) => l.len() > 0 && capital_letter(l[0]),
            ScopedIdentifier::Relative(_) => false,
        }
    }

    /// The identifier as it is written.
    pub fn name(&self) -> (r: Vec<u8>)
        ensures
            r@ == self@.name(),
    {
        match self {
            ScopedIdentifier::Label(l) => clone_bytes(l),
            ScopedIdentifier::Sublabel(l, s) => {
                let mut r = clone_bytes(l);
                r.push('/' as u8);
                append_bytes(&mut r, s);
                r
            },
            ScopedIdentifier::Relative(s) => {
                let mut r: Vec<u8> = Vec::new();
                r.push('&' as u8);
                append_bytes(&mut r, s);
                assert(r@ =~= seq!['&' as u8] + s@);
                r
            },
        }
    }

    /// Whether two identifiers are the same.
    pub fn same(&self, other: &ScopedIdentifier) -> (r: bool)
        ensures
            r == (self@ == other@),
    {
        match (self, other) {
            (ScopedIdentifier::Label(a), ScopedIdentifier::Label(b)) => bytes_eq(a, b),
            (ScopedIdentifier::Sublabel(a, c), ScopedIdentifier::Sublabel(b, d)) => bytes_eq(a, b)
                && bytes_eq(c, d),
            (ScopedIdentifier::Relative(a), ScopedIdentifier::Relative(b)) => bytes_eq(a, b),
            _ => false,
        }
    }

    /// A copy of the identifier.
    pub fn duplicate(&self) -> (r: ScopedIdentifier)
        ensures
            r@ == self@,
    {
        match self {
            ScopedIdentifier::Label(l) => ScopedIdentifier::Label(clone_bytes(l)),
            ScopedIdentifier::Sublabel(l, s) => ScopedIdentifier::Sublabel(
                clone_bytes(l),
                clone_bytes(s),
            ),
            ScopedIdentifier::Relative(s) => ScopedIdentifier::Relative(clone_bytes(s)),
        }
    }
}

/// What the scanner makes of one lexeme.
#[derive(Clone, Debug, PartialEq, Eq)]
pub enum Token {
    /// `[`: a mark that writes nothing; it only has to be closed.
    OpeningBracket,
    /// `]`.
    ClosingBracket,
    /// `{`: the beginning of a macro's body.
    OpeningBrace,
    /// `}`: the end of a macro's body.
    ClosingBrace,
    /// `(`: the beginning of a comment. The scanner leaves comments out,
    /// so that it gives no such token.
    OpeningParenthesis,
    /// `)`: the end of a comment.
    ClosingParenthesis,
    /// A mnemonic with its mode flags.
    Instruction(Instruction),
    /// `%name`: the definition of a macro.
    MacroDefine(Vec<u8>),
    /// A lexeme that is nothing else: the invocation of a macro.
    MacroInvoke(Vec<u8>),
    /// `@name`: the definition of a label.
    LabelDefine(Vec<u8>),
    /// `&name`: the definition of a sublabel of the label defined last.
    SublabelDefine(Vec<u8>),
    /// `|number`: moves the write pointer to an address.
    PadAbsolute(u16),
    /// `$number`: moves the write pointer forward.
    PadRelative(u16),
    /// `.identifier`: `LIT` and the low byte of the label's address.
    LiteralZeroPageAddress(ScopedIdentifier),
    /// `,identifier`: `LIT` and the distance to the label in one byte.
    LiteralRelativeAddress(ScopedIdentifier),
    /// `;identifier`: `LIT2` and the label's address.
    LiteralAbsoluteAddress(ScopedIdentifier),
    /// `:identifier`: the label's address.
    RawAddress(ScopedIdentifier),
    /// `#` and two digits: `LIT` and a byte.
    LiteralHexByte(u8),
    /// `#` and four digits: `LIT2` and a short.
    LiteralHexShort(u16),
    /// Two digits: a byte.
    RawHexByte(u8),
    /// Four digits: a short, high byte first.
    RawHexShort(u16),
    /// `'` and a byte: that byte.
    RawChar(u8),
    /// `"` and bytes: those bytes.
    RawWord(Vec<u8>),
}

/// A token as plain values.
pub enum TokenView {
    OpeningBracket,
    ClosingBracket,
    OpeningBrace,
    ClosingBrace,
    OpeningParenthesis,
    ClosingParenthesis,
    Instruction(Instruction),
    MacroDefine(Seq<u8>),
    MacroInvoke(Seq<u8>),
    LabelDefine(Seq<u8>),
    SublabelDefine(Seq<u8>),
    PadAbsolute(u16),
    PadRelative(u16),
    LiteralZeroPageAddress(ScopedIdentifierView),
    LiteralRelativeAddress(ScopedIdentifierView),
    LiteralAbsoluteAddress(ScopedIdentifierView),
    RawAddress(ScopedIdentifierView),
    LiteralHexByte(u8),
    LiteralHexShort(u16),
    RawHexByte(u8),
    RawHexShort(u16),
    RawChar(u8),
    RawWord(Seq<u8>),
}

impl View for Token {
    type V = TokenView;

    open spec fn view(&self) -> TokenView {
        match *self {
            Token::OpeningBracket => TokenView::OpeningBracket,
            Token::ClosingBracket => TokenView::ClosingBracket,
            Token::OpeningBrace => TokenView::OpeningBrace,
            Token::ClosingBrace => TokenView::ClosingBrace,
            Token::OpeningParenthesis => TokenView::OpeningParenthesis,
            Token::ClosingParenthesis => TokenView::ClosingParenthesis,
            Token::Instruction(i) => TokenView::Instruction(i),
            Token::MacroDefine(n) => TokenView::MacroDefine(n@),
            Token::MacroInvoke(n) => TokenView::MacroInvoke(n@),
            Token::LabelDefine(n) => TokenView::LabelDefine(n@),
            Token::SublabelDefine(n) => TokenView::SublabelDefine(n@),
            Token::PadAbsolute(a) => TokenView::PadAbsolute(a),
            Token::PadRelative(a) => TokenView::PadRelative(a),
            Token::LiteralZeroPageAddress(id) => TokenView::LiteralZeroPageAddress(id@),
            Token::LiteralRelativeAddress(id) => TokenView::LiteralRelativeAddress(id@),
            Token::LiteralAbsoluteAddress(id) => TokenView::LiteralAbsoluteAddress(id@),
            Token::RawAddress(id) => TokenView::RawAddress(id@),
            Token::LiteralHexByte(b) => TokenView::LiteralHexByte(b),
            Token::LiteralHexShort(s) => TokenView::LiteralHexShort(s),
            Token::RawHexByte(b) => TokenView::RawHexByte(b),
            Token::RawHexShort(s) => TokenView::RawHexShort(s),
            Token::RawChar(b) => TokenView::RawChar(b),
            Token::RawWord(w) => TokenView::RawWord(w@),
        }
    }
}

impl Token {
    /// A copy of the token.
    pub fn duplicate(&self) -> (r: Token)
        ensures
            r@ == self@,
    {
        match self {
            Token::OpeningBracket => Token::OpeningBracket,
            Token::ClosingBracket => Token::ClosingBracket,
            Token::OpeningBrace => Token::OpeningBrace,
            Token::ClosingBrace => Token::ClosingBrace,
            Token::OpeningParenthesis => Token::OpeningParenthesis,
            Token::ClosingParenthesis => Token::ClosingParenthesis,
            Token::Instruction(i) => Token::Instruction(*i),
            Token::MacroDefine(n) => Token::MacroDefine(clone_bytes(n)),
            Token::MacroInvoke(n) => Token::MacroInvoke(clone_bytes(n)),
            Token::LabelDefine(n) => Token::LabelDefine(clone_bytes(n)),
            Token::SublabelDefine(n) => Token::SublabelDefine(clone_bytes(n)),
            Token::PadAbsolute(a) => Token::PadAbsolute(*a),
            Token::PadRelative(a) => Token::PadRelative(*a),
            Token::LiteralZeroPageAddress(id) => Token::LiteralZeroPageAddress(id.duplicate()),
            Token::LiteralRelativeAddress(id) => Token::LiteralRelativeAddress(id.duplicate()),
            Token::LiteralAbsoluteAddress(id) => Token::LiteralAbsoluteAddress(id.duplicate()),
            Token::RawAddress(id) => Token::RawAddress(id.duplicate()),
            Token::LiteralHexByte(b) => Token::LiteralHexByte(*b),
            Token::LiteralHexShort(s) => Token::LiteralHexShort(*s),
            Token::RawHexByte(b) => Token::RawHexByte(*b),
            Token::RawHexShort(s) => Token::RawHexShort(*s),
            Token::RawChar(b) => Token::RawChar(*b),
            Token::RawWord(w) => Token::RawWord(clone_bytes(w)),
        }
    }
}

/// What is left of the tokens for the emitter: the ones that write bytes or
/// move the write pointer.
#[derive(Clone, Debug, PartialEq, Eq)]
pub enum Statement {
    /// An instruction: one byte.
    Instruction(Instruction),
    /// Moves the write pointer to an address.
    PadAbsolute(u16),
    /// Moves the write pointer forward.
    PadRelative(u16),
    /// `LIT` and the low byte of the label's address.
    LiteralZeroPageAddress(ScopedIdentifier),
    /// `LIT` and the distance to the label in one byte.
    LiteralRelativeAddress(ScopedIdentifier),
    /// `LIT2` and the label's address.
    LiteralAbsoluteAddress(ScopedIdentifier),
    /// The label's address.
    RawAddress(ScopedIdentifier),
    /// `LIT` and a byte.
    LiteralHexByte(u8),
    /// `LIT2` and a short.
    LiteralHexShort(u16),
    /// A byte.
    RawHexByte(u8),
    /// A short, high byte first.
    RawHexShort(u16),
    /// A byte.
    RawChar(u8),
    /// Bytes.
    RawWord(Vec<u8>),
}

/// A statement as plain values.
pub enum StatementView {
    Instruction(Instruction),
    PadAbsolute(u16),
    PadRelative(u16),
    LiteralZeroPageAddress(ScopedIdentifierView),
    LiteralRelativeAddress(ScopedIdentifierView),
    LiteralAbsoluteAddress(ScopedIdentifierView),
    RawAddress(ScopedIdentifierView),
    LiteralHexByte(u8),
    LiteralHexShort(u16),
    RawHexByte(u8),
    RawHexShort(u16),
    RawChar(u8),
    RawWord(Seq<u8>),
}

impl View for Statement {
    type V = StatementView;

    open spec fn view(&self) -> StatementView {
        match *self {
            Statement::Instruction(i) => StatementView::Instruction(i),
            Statement::PadAbsolute(a) => StatementView::PadAbsolute(a),
            Statement::PadRelative(a) => StatementView::PadRelative(a),
            Statement::LiteralZeroPageAddress(id) => StatementView::LiteralZeroPageAddress(id@),
            Statement::LiteralRelativeAddress(id) => StatementView::LiteralRelativeAddress(id@),
            Statement::LiteralAbsoluteAddress(id) => StatementView::LiteralAbsoluteAddress(id@),
            Statement::RawAddress(id) => StatementView::RawAddress(id@),
            Statement::LiteralHexByte(b) => StatementView::LiteralHexByte(b),
            Statement::LiteralHexShort(s) => StatementView::LiteralHexShort(s),
            Statement::RawHexByte(b) => StatementView::RawHexByte(b),
            Statement::RawHexShort(s) => StatementView::RawHexShort(s),
            Statement::RawChar(b) => StatementView::RawChar(b),
            Statement::RawWord(w) => StatementView::RawWord(w@),
        }
    }
}

/// A copy of a token with its span.
pub fn clone_token(token: &Spanned<Token>) -> (r: Spanned<Token>)
    ensures
        r@ == token@,
{
    Spanned { node: token.node.duplicate(), span: token.span }
}

} // verus!
