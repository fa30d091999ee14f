//! The scanner: from source text to tokens.

use crate::error::{Error, ErrorView, Warning, WarningView};
use crate::lexeme::{token_of, tokenize, warnings_of, LEXEME_LIMIT};
use crate::span::{Span, Spanned};
use crate::token::{Token, TokenView};
use crate::views::{push_view, views};
use vstd::prelude::*;

verus! {

/// Whether a byte parts lexemes: a space, a tab, a line feed or a carriage
/// return.
pub open spec fn is_whitespace(b: u8) -> bool {
    b == ' ' as u8 || b == '\t' as u8 || b == '\n' as u8 || b == '\r' as u8
}

/// Whether a byte parts lexemes.
pub fn whitespace(b: u8) -> (r: bool)
    ensures
        r == is_whitespace(b),
{
    b == ' ' as u8 || b == '\t' as u8 || b == '\n' as u8 || b == '\r' as u8
}

/// The index after the last byte of the lexeme that `from` lies in: the
/// first index from `from` on that holds whitespace, or the length of the
/// source.
pub open spec fn lexeme_end(source: Seq<u8>, from: int) -> int
    decreases source.len() - from,
{
    if from < 0 || from >= source.len() || is_whitespace(source[from]) {
        from
    } else {
        lexeme_end(source, from + 1)
    }
}

/// The line of the byte at `pos`, counted from 1: one more than the number
/// of line feeds before it.
pub open spec fn line_at(source: Seq<u8>, pos: int) -> int
    decreases pos,
{
    if pos <= 0 {
        1
    } else {
        line_at(source, pos - 1) + if source[pos - 1] == '\n' as u8 {
            1int
        } else {
            0int
        }
    }
}

/// The column of the byte at `pos`, counted from 1: one more than the
/// number of bytes between it and the line feed before it.
pub open spec fn column_at(source: Seq<u8>, pos: int) -> int
    decreases pos,
{
    if pos <= 0 || source[pos - 1] == '\n' as u8 {
        1
    } else {
        column_at(source, pos - 1) + 1
    }
}

/// The span of the bytes from `from` up to `to`.
pub open spec fn span_at(source: Seq<u8>, from: int, to: int) -> Span {
    Span {
        from: from as usize,
        to: to as usize,
        line: line_at(source, from) as usize,
        column: column_at(source, from) as usize,
    }
}

/// What the scanner knows after some lexemes.
pub struct ScanState {
    /// The tokens so far.
    pub tokens: Seq<Spanned<TokenView>>,
    /// The errors so far.
    pub errors: Seq<ErrorView>,
    /// The warnings so far.
    pub warnings: Seq<WarningView>,
    /// The spans of the parentheses that are open.
    pub parens: Seq<Span>,
}

/// The state before the first lexeme.
pub open spec fn scan_start() -> ScanState {
    ScanState {
        tokens: Seq::empty(),
        errors: Seq::empty(),
        warnings: Seq::empty(),
        parens: Seq::empty(),
    }
}

/// The state after one more lexeme, of which `text` is the part that is
/// read. A lexeme that begins with `(` opens a comment and one that begins
/// with `)` closes one; what stands inside is left out. Any other lexeme
/// gives its token or its error, and a warning first where it was cut.
pub open spec fn lexed(st: ScanState, text: Seq<u8>, trimmed: bool, span: Span) -> ScanState {
    if text[0] == '(' as u8 {
        ScanState { parens: st.parens.push(span), ..st }
    } else if text[0] == ')' as u8 {
        if st.parens.len() > 0 {
            ScanState { parens: st.parens.drop_last(), ..st }
        } else {
            ScanState {
                errors: st.errors.push(ErrorView::NoMatchingOpeningParenthesis { span }),
                ..st
            }
        }
    } else if st.parens.len() > 0 {
        st
    } else {
        let warnings = (if trimmed {
            st.warnings.push(WarningView::TokenTrimmed { span })
        } else {
            st.warnings
        }) + warnings_of(text, span);
        match token_of(text, span) {
            Ok(token) => ScanState {
                tokens: st.tokens.push(Spanned { node: token, span }),
                warnings,
                ..st
            },
            Err(e) => ScanState { errors: st.errors.push(e), warnings, ..st },
        }
    }
}

/// The end of a lexeme is not before an index in it, and not after the end
/// of the source.
pub proof fn lemma_lexeme_end_bounds(source: Seq<u8>, from: int)
    requires
        0 <= from <= source.len(),
    ensures
        from <= lexeme_end(source, from) <= source.len(),
    decreases source.len() - from,
{
    if from < source.len() && !is_whitespace(source[from]) {
        lemma_lexeme_end_bounds(source, from + 1);
    }
}

/// The index after the part of a lexeme that is read: its end, or
/// `LEXEME_LIMIT` bytes from its beginning where it is longer.
pub open spec fn text_end(from: int, to: int) -> int {
    if to - from > LEXEME_LIMIT {
        from + LEXEME_LIMIT
    } else {
        to
    }
}

/// The state after the source from `pos` on, where `pos` is not inside a
/// lexeme.
pub open spec fn scan_from(source: Seq<u8>, pos: int, st: ScanState) -> ScanState
    decreases source.len() - pos,
{
    if pos < 0 || pos >= source.len() {
        st
    } else if is_whitespace(source[pos]) {
        scan_from(source, pos + 1, st)
    } else {
        let to = lexeme_end(source, pos);
        proof {
            lemma_lexeme_end_bounds(source, pos + 1);
        }
        scan_from(
            source,
            to,
            lexed(
                st,
                source.subrange(pos, text_end(pos, to)),
                to - pos > LEXEME_LIMIT,
                span_at(source, pos, to),
            ),
        )
    }
}

/// An error for each parenthesis that was never closed.
pub open spec fn unclosed_parens(parens: Seq<Span>) -> Seq<ErrorView> {
    Seq::new(parens.len(), |i: int| ErrorView::NoMatchingClosingParenthesis { span: parens[i] })
}

/// What the scanner gives: the tokens with the warnings, or the errors
/// with the warnings.
pub type Scanned = Result<(Vec<Spanned<Token>>, Vec<Warning>), (Vec<Error>, Vec<Warning>)>;

/// What the scanner gives, as plain values.
pub type ScannedView = Result<
    (Seq<Spanned<TokenView>>, Seq<WarningView>),
    (Seq<ErrorView>, Seq<WarningView>),
>;

/// What the scanner gives, as plain values.
pub open spec fn scanned_view(scanned: Scanned) -> ScannedView {
    match scanned {
        Ok((tokens, warnings)) => Ok((views(tokens@), views(warnings@))),
        Err((errors, warnings)) => Err((views(errors@), views(warnings@))),
    }
}

/// What scanning gives: the tokens where nothing is wrong; else the errors
/// of the lexemes in their order, then one for each parenthesis left open;
/// the warnings either way.
pub open spec fn scanned(source: Seq<u8>) -> ScannedView {
    let end = scan_from(source, 0, scan_start());
    let errors = end.errors + unclosed_parens(end.parens);
    if errors.len() == 0 {
        Ok((end.tokens, end.warnings))
    } else {
        Err((errors, end.warnings))
    }
}

/// Whether `token` is the reading of a lexeme of the source: its span
/// covers one whole lexeme, with the line and the column of the lexeme's
/// first byte, and its node is what the lexeme stands for. No token is a
/// parenthesis.
pub open spec fn reads_lexeme(source: Seq<u8>, token: Spanned<TokenView>) -> bool {
    let from = token.span.from as int;
    let to = token.span.to as int;
    &&& 0 <= from < to <= source.len()
    &&& from == 0 || is_whitespace(source[from - 1])
    &&& lexeme_end(source, from) == to
    &&& token.span == span_at(source, from, to)
    &&& token_of(source.subrange(from, text_end(from, to)), token.span) == Ok::<
        TokenView,
        ErrorView,
    >(token.node)
    &&& !(token.node is OpeningParenthesis)
    &&& !(token.node is ClosingParenthesis)
}

/// What holds of the tokens once the source is scanned up to `pos`: each
/// is the reading of a lexeme that ends at or before `pos`, and they stand
/// in the order of their lexemes.
pub open spec fn scan_inv(source: Seq<u8>, pos: int, st: ScanState) -> bool {
    &&& forall|i: int|
        0 <= i < st.tokens.len() ==> reads_lexeme(source, #[trigger] st.tokens[i])
            && st.tokens[i].span.to <= pos
    &&& forall|i: int, j: int|
        0 <= i < j < st.tokens.len() ==> (#[trigger] st.tokens[i]).span.to <= (
        #[trigger] st.tokens[j]).span.from
}

/// What holds of the tokens before a lexeme holds after it.
pub proof fn lemma_lexed_inv(source: Seq<u8>, pos: int, st: ScanState)
    requires
        source.len() <= usize::MAX,
        0 <= pos < source.len(),
        !is_whitespace(source[pos]),
        pos == 0 || is_whitespace(source[pos - 1]),
        scan_inv(source, pos, st),
    ensures
        scan_inv(
            source,
            lexeme_end(source, pos),
            lexed(
                st,
                source.subrange(pos, text_end(pos, lexeme_end(source, pos))),
                lexeme_end(source, pos) - pos > LEXEME_LIMIT,
                span_at(source, pos, lexeme_end(source, pos)),
            ),
        ),
{
    let to = lexeme_end(source, pos);
    lemma_lexeme_end_bounds(source, pos + 1);
    let text = source.subrange(pos, text_end(pos, to));
    let span = span_at(source, pos, to);
    let next = lexed(st, text, to - pos > LEXEME_LIMIT, span);
    assert(text[0] == source[pos]);
    if next.tokens != st.tokens {
        let token = next.tokens.last();
        assert(next.tokens =~= st.tokens.push(token));
        assert(reads_lexeme(source, token));
        assert forall|i: int| 0 <= i < next.tokens.len() implies reads_lexeme(
            source,
            #[trigger] next.tokens[i],
        ) && next.tokens[i].span.to <= to by {
            if i < st.tokens.len() {
                assert(next.tokens[i] == st.tokens[i]);
            }
        }
        assert forall|i: int, j: int| 0 <= i < j < next.tokens.len() implies (
        #[trigger] next.tokens[i]).span.to <= (#[trigger] next.tokens[j]).span.from by {
            assert(next.tokens[i] == st.tokens[i]);
            if j < st.tokens.len() {
                assert(next.tokens[j] == st.tokens[j]);
            }
        }
    }
}

/// What holds of the tokens at a place between lexemes holds at the end of
/// the source.
pub proof fn lemma_scan_from_inv(source: Seq<u8>, pos: int, st: ScanState)
    requires
        source.len() <= usize::MAX,
        0 <= pos <= source.len(),
        pos == 0 || pos == source.len() || is_whitespace(source[pos - 1]) || is_whitespace(
            source[pos],
        ),
        scan_inv(source, pos, st),
    ensures
        scan_inv(source, source.len() as int, scan_from(source, pos, st)),
    decreases source.len() - pos,
{
    if pos < source.len() {
        if is_whitespace(source[pos]) {
            lemma_scan_from_inv(source, pos + 1, st);
        } else {
            let to = lexeme_end(source, pos);
            lemma_lexeme_end_bounds(source, pos + 1);
            lemma_lexeme_end_is_end(source, pos);
            lemma_lexed_inv(source, pos, st);
            lemma_scan_from_inv(
                source,
                to,
                lexed(
                    st,
                    source.subrange(pos, text_end(pos, to)),
                    to - pos > LEXEME_LIMIT,
                    span_at(source, pos, to),
                ),
            );
        }
    }
}

/// A lexeme ends at the end of the source or before whitespace.
pub proof fn lemma_lexeme_end_is_end(source: Seq<u8>, from: int)
    requires
        0 <= from <= source.len(),
    ensures
        lexeme_end(source, from) == source.len() || is_whitespace(
            source[lexeme_end(source, from)],
        ),
    decreases source.len() - from,
{
    if from < source.len() && !is_whitespace(source[from]) {
        lemma_lexeme_end_is_end(source, from + 1);
    }
}

/// Every token that the scanner gives is the reading of one whole lexeme
/// of the source, at the span of that lexeme, and the tokens stand in the
/// order of their lexemes. None of them is a parenthesis.
pub proof fn lemma_tokens_read_the_source(source: Seq<u8>)
    requires
        source.len() <= usize::MAX,
    ensures
        scanned(source) matches Ok((tokens, _)) ==> {
            &&& forall|i: int| 0 <= i < tokens.len() ==> reads_lexeme(source, #[trigger] tokens[i])
            &&& forall|i: int, j: int|
                0 <= i < j < tokens.len() ==> (#[trigger] tokens[i]).span.to <= (
                #[trigger] tokens[j]).span.from
        },
{
    lemma_scan_from_inv(source, 0, scan_start());
}

/// The scanner's state while it runs.
struct Scanner {
    tokens: Vec<Spanned<Token>>,
    errors: Vec<Error>,
    warnings: Vec<Warning>,
    parens: Vec<Span>,
}

impl View for Scanner {
    type V = ScanState;

    closed spec fn view(&self) -> ScanState {
        ScanState {
            tokens: views(self.tokens@),
            errors: views(self.errors@),
            warnings: views(self.warnings@),
            parens: self.parens@,
        }
    }
}

impl Scanner {
    /// The state before the first lexeme.
    fn new() -> (r: Scanner)
        ensures
            r@ == scan_start(),
    {
        let r = Scanner {
            tokens: Vec::new(),
            errors: Vec::new(),
            warnings: Vec::new(),
            parens: Vec::new(),
        };
        assert(r@.tokens =~= Seq::empty());
        assert(r@.errors =~= Seq::empty());
        assert(r@.warnings =~= Seq::empty());
        r
    }

    /// Takes one more lexeme, of which `text` is the part that is read.
    fn lex(&mut self, text: &Vec<u8>, trimmed: bool, span: Span)
        requires
            text.len() > 0,
            span.wf(),
            span.from + text.len() <= span.to,
        ensures
            final(self)@ == lexed(old(self)@, text@, trimmed, span),
    {
        if text[0] == '(' as u8 {
            self.parens.push(span);
        } else if text[0] == ')' as u8 {
            if self.parens.len() > 0 {
                self.parens.pop();
                assert(self.parens@ =~= old(self).parens@.drop_last());
            } else {
                push_view(&mut self.errors, Error::NoMatchingOpeningParenthesis { span });
            }
        } else if self.parens.len() == 0 {
            if trimmed {
                push_view(&mut self.warnings, Warning::TokenTrimmed { span });
            }
            match tokenize(text, span, &mut self.warnings) {
                Ok(token) => {
                    push_view(&mut self.tokens, Spanned { node: token, span });
                },
                Err(e) => {
                    push_view(&mut self.errors, e);
                },
            }
        }
    }
}

/// The line and the column do not change along a lexeme, but for the
/// column, which grows with each byte.
pub proof fn lemma_position_in_lexeme(source: Seq<u8>, pos: int)
    requires
        0 <= pos < source.len(),
        source[pos] != '\n' as u8,
    ensures
        line_at(source, pos + 1) == line_at(source, pos),
        column_at(source, pos + 1) == column_at(source, pos) + 1,
{
}

/// Splits the source into lexemes at whitespace, leaves out the comments,
/// and reads each lexeme that is left as a token. Gives the tokens where
/// nothing is wrong, else the errors; either way the warnings.
pub fn scan(source: &[u8]) -> (r: Scanned)
    ensures
        scanned_view(r) == scanned(source@),
{
    let ghost src = source@;
    let mut scanner = Scanner::new();
    let mut pos: usize = 0;
    let mut line: usize = 0;
    let mut column: usize = 0;
    while pos < source.len()
        invariant
            pos <= source.len(),
            src == source@,
            line + 1 == line_at(src, pos as int),
            column + 1 == column_at(src, pos as int),
            line <= pos,
            column <= pos,
            scan_from(src, pos as int, scanner@) == scan_from(src, 0, scan_start()),
        decreases source.len() - pos,
    {
        let b = source[pos];
        if whitespace(b) {
            if b == '\n' as u8 {
                line += 1;
                column = 0;
            } else {
                column += 1;
            }
            pos += 1;
        } else {
            let from = pos;
            let span_line = line + 1;
            let span_column = column + 1;
            let mut text: Vec<u8> = Vec::new();
            assert(text@ =~= src.subrange(from as int, from as int));
            while pos < source.len() && !whitespace(source[pos])
                invariant
                    from <= pos <= source.len(),
                    src == source@,
                    lexeme_end(src, from as int) == lexeme_end(src, pos as int),
                    line + 1 == line_at(src, pos as int),
                    column + 1 == column_at(src, pos as int),
                    line <= from,
                    column <= pos,
                    text@ == src.subrange(from as int, text_end(from as int, pos as int)),
                decreases source.len() - pos,
            {
                proof {
                    lemma_position_in_lexeme(src, pos as int);
                }
                if text.len() < LEXEME_LIMIT {
                    text.push(source[pos]);
                    assert(text@ =~= src.subrange(from as int, pos + 1));
                }
                column += 1;
                pos += 1;
            }
            let span = Span { from, to: pos, line: span_line, column: span_column };
            assert(span == span_at(src, from as int, pos as int));
            scanner.lex(&text, pos - from > LEXEME_LIMIT, span);
        }
    }
    let ghost end = scanner@;
    let Scanner { tokens, mut errors, warnings, parens } = scanner;
    let mut k: usize = 0;
    assert(views(errors@) =~= end.errors + unclosed_parens(parens@.subrange(0, 0)));
    while k < parens.len()
        invariant
            k <= parens.len(),
            views(errors@) == end.errors + unclosed_parens(parens@.subrange(0, k as int)),
        decreases parens.len() - k,
    {
        push_view(&mut errors, Error::NoMatchingClosingParenthesis { span: parens[k] });
        assert(end.errors + unclosed_parens(parens@.subrange(0, k + 1)) =~= (end.errors
            + unclosed_parens(parens@.subrange(0, k as int))).push(
            ErrorView::NoMatchingClosingParenthesis { span: parens@[k as int] },
        ));
        k += 1;
    }
    assert(parens@.subrange(0, parens@.len() as int) =~= parens@);
    if errors.len() == 0 {
        Ok((tokens, warnings))
    } else {
        Err((errors, warnings))
    }
}

} // verus!
