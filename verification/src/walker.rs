//! The walker: gives every label its address, and keeps the tokens that
//! take room in the image.

use crate::definitions::{lookup, unique, Definitions, LabelDefinitionView};
use crate::emitter::{fits, pointer_after, pointer_next, reference_of, width, ORIGIN};
use crate::error::{Error, ErrorView};
use crate::span::{Span, Spanned};
use crate::token::{
    ScopedIdentifier, ScopedIdentifierView, Statement, StatementView, Token, TokenView,
};
use crate::views::{push_view, views};
use crate::bytes::clone_bytes;
use vstd::prelude::*;

verus! {

/// What the walker knows after some tokens.
pub struct WalkState {
    /// The address at which the next byte will stand.
    pub pointer: int,
    /// The label defined last, under which sublabels go.
    pub scope: Option<Seq<u8>>,
    /// The labels defined so far.
    pub labels: Seq<LabelDefinitionView>,
    /// The statements so far.
    pub statements: Seq<Spanned<StatementView>>,
    /// The errors so far.
    pub errors: Seq<ErrorView>,
    /// The spans of the brackets that are open.
    pub brackets: Seq<Span>,
}

/// The state before the first token.
pub open spec fn walk_start() -> WalkState {
    WalkState {
        pointer: ORIGIN as int,
        scope: None,
        labels: Seq::empty(),
        statements: Seq::empty(),
        errors: Seq::empty(),
        brackets: Seq::empty(),
    }
}

/// An identifier as the walker passes it on: `&sublabel` goes under the
/// label of the scope, and stays as it is where there is no scope.
pub open spec fn placed(id: ScopedIdentifierView, scope: Option<Seq<u8>>) -> ScopedIdentifierView {
    match scope {
        Some(label) => id.scoped(label),
        None => id,
    }
}

/// The statement that a token becomes, for the tokens that take room in the
/// image.
pub open spec fn statement_of(token: TokenView, scope: Option<Seq<u8>>) -> Option<StatementView> {
    match token {
        TokenView::Instruction(i) => Some(StatementView::Instruction(i)),
        TokenView::LiteralZeroPageAddress(id) => Some(
            StatementView::LiteralZeroPageAddress(placed(id, scope)),
        ),
        TokenView::LiteralRelativeAddress(id) => Some(
            StatementView::LiteralRelativeAddress(placed(id, scope)),
        ),
        TokenView::LiteralAbsoluteAddress(id) => Some(
            StatementView::LiteralAbsoluteAddress(placed(id, scope)),
        ),
        TokenView::RawAddress(id) => Some(StatementView::RawAddress(placed(id, scope))),
        TokenView::LiteralHexByte(b) => Some(StatementView::LiteralHexByte(b)),
        TokenView::LiteralHexShort(s) => Some(StatementView::LiteralHexShort(s)),
        TokenView::RawHexByte(b) => Some(StatementView::RawHexByte(b)),
        TokenView::RawHexShort(s) => Some(StatementView::RawHexShort(s)),
        TokenView::RawChar(b) => Some(StatementView::RawChar(b)),
        TokenView::RawWord(w) => Some(StatementView::RawWord(w)),
        _ => None,
    }
}

/// The state after a definition of `key` at `span`: a new label at the
/// pointer, or an error where `key` is defined already.
pub open spec fn defined(st: WalkState, key: ScopedIdentifierView, span: Span) -> WalkState {
    match lookup(st.labels, key) {
        Some(d) => WalkState {
            errors: st.errors.push(
                ErrorView::LabelDefinedMoreThanOnce { name: key.name(), other_span: d.span, span },
            ),
            ..st
        },
        None => WalkState {
            labels: st.labels.push(
                LabelDefinitionView { identifier: key, address: st.pointer as u16, span },
            ),
            ..st
        },
    }
}

/// The state after a statement of some width. It takes its room even where
/// its `&sublabel` has no scope; it takes none where it would stand in the
/// zeroth page or reach past the last address. In a walk from `walk_start`
/// the pointer never stands below `ORIGIN` (see `walk_inv`), so that no
/// statement stands in the zeroth page there.
pub open spec fn stated(st: WalkState, statement: StatementView, span: Span) -> WalkState {
    if st.pointer < ORIGIN {
        WalkState { errors: st.errors.push(ErrorView::BytesInZerothPage { span }), ..st }
    } else if st.pointer + width(statement) > 0xffff {
        WalkState { errors: st.errors.push(ErrorView::ProgramTooLong { span }), ..st }
    } else {
        WalkState {
            pointer: st.pointer + width(statement),
            statements: st.statements.push(Spanned { node: statement, span }),
            errors: match reference_of(statement) {
                Some(ScopedIdentifierView::Relative(name)) => st.errors.push(
                    ErrorView::SublabelReferencedWithoutScope { name, span },
                ),
                _ => st.errors,
            },
            ..st
        }
    }
}

/// The state after one more token.
pub open spec fn walk_step(st: WalkState, token: Spanned<TokenView>) -> WalkState {
    let span = token.span;
    match token.node {
        TokenView::OpeningBracket => WalkState { brackets: st.brackets.push(span), ..st },
        TokenView::ClosingBracket => if st.brackets.len() > 0 {
            WalkState { brackets: st.brackets.drop_last(), ..st }
        } else {
            WalkState { errors: st.errors.push(ErrorView::NoMatchingOpeningBracket { span }), ..st }
        },
        TokenView::LabelDefine(name) => defined(
            WalkState { scope: Some(name), ..st },
            ScopedIdentifierView::Label(name),
            span,
        ),
        TokenView::SublabelDefine(name) => match st.scope {
            Some(label) => defined(st, ScopedIdentifierView::Sublabel(label, name), span),
            None => WalkState {
                errors: st.errors.push(ErrorView::SublabelDefinedWithoutScope { name, span }),
                ..st
            },
        },
        TokenView::PadAbsolute(to) => if to < st.pointer {
            WalkState {
                errors: st.errors.push(
                    ErrorView::PaddedBackwards {
                        previous_pointer: st.pointer as usize,
                        desired_pointer: to as usize,
                        span,
                    },
                ),
                ..st
            }
        } else {
            WalkState {
                pointer: to as int,
                statements: st.statements.push(
                    Spanned { node: StatementView::PadAbsolute(to), span },
                ),
                ..st
            }
        },
        TokenView::PadRelative(by) => if st.pointer + by > 0xffff {
            WalkState { errors: st.errors.push(ErrorView::ProgramTooLong { span }), ..st }
        } else {
            WalkState {
                pointer: st.pointer + by,
                statements: st.statements.push(
                    Spanned { node: StatementView::PadRelative(by), span },
                ),
                ..st
            }
        },
        _ => match statement_of(token.node, st.scope) {
            Some(statement) => stated(st, statement, span),
            None => st,
        },
    }
}

/// The state after the first `n` tokens.
pub open spec fn walk_state(tokens: Seq<Spanned<TokenView>>, n: int) -> WalkState
    decreases n,
{
    if n <= 0 {
        walk_start()
    } else {
        walk_step(walk_state(tokens, n - 1), tokens[n - 1])
    }
}

/// An error for each bracket that was never closed.
pub open spec fn unclosed(brackets: Seq<Span>) -> Seq<ErrorView> {
    Seq::new(brackets.len(), |i: int| ErrorView::NoMatchingClosingBracket { span: brackets[i] })
}

/// The errors of a whole walk: those of the tokens in their order, then one
/// for each bracket left open.
pub open spec fn walk_errors(tokens: Seq<Spanned<TokenView>>) -> Seq<ErrorView> {
    let end = walk_state(tokens, tokens.len() as int);
    end.errors + unclosed(end.brackets)
}

/// What the walker gives: the statements with the labels, or the errors.
pub type Walked = Result<(Vec<Spanned<Statement>>, Definitions), Vec<Error>>;

/// What the walker gives, as plain values.
pub type WalkedView = Result<
    (Seq<Spanned<StatementView>>, Seq<LabelDefinitionView>),
    Seq<ErrorView>,
>;

/// What a walk gives, as plain values.
pub open spec fn walked_view(walked: Walked) -> WalkedView {
    match walked {
        Ok((statements, definitions)) => Ok((views(statements@), definitions@)),
        Err(errors) => Err(views(errors@)),
    }
}

/// What walking gives: the statements and the labels where there is no
/// error, else the errors.
pub open spec fn walked(tokens: Seq<Spanned<TokenView>>) -> WalkedView {
    let end = walk_state(tokens, tokens.len() as int);
    if walk_errors(tokens).len() == 0 {
        Ok((end.statements, end.labels))
    } else {
        Err(walk_errors(tokens))
    }
}

/// Every identifier that a statement refers to names its label.
pub open spec fn resolved(statements: Seq<Spanned<StatementView>>) -> bool {
    forall|i: int|
        0 <= i < statements.len() ==> match reference_of((#[trigger] statements[i]).node) {
            Some(id) => id.is_resolved(),
            None => true,
        }
}

/// What holds of the walker's state after any tokens: the pointer is where
/// the statements so far leave it, between the first and the last address;
/// the statements can be laid out; no label is defined twice; and without
/// an error every reference names its label.
pub open spec fn walk_inv(st: WalkState) -> bool {
    &&& st.pointer == pointer_after(st.statements, st.statements.len() as int)
    &&& ORIGIN <= st.pointer <= 0xffff
    &&& fits(st.statements)
    &&& unique(st.labels)
    &&& st.errors.len() == 0 ==> resolved(st.statements)
}

/// The pointer after `n` statements does not depend on the statements that
/// follow.
pub proof fn lemma_pointer_after_push(
    statements: Seq<Spanned<StatementView>>,
    last: Spanned<StatementView>,
    n: int,
)
    requires
        n <= statements.len(),
    ensures
        pointer_after(statements.push(last), n) == pointer_after(statements, n),
    decreases n,
{
    if n > 0 {
        lemma_pointer_after_push(statements, last, n - 1);
        assert(statements.push(last)[n - 1] == statements[n - 1]);
    }
}

/// Statements that can be laid out still can with one more that moves the
/// pointer forward and not past the last address.
pub proof fn lemma_fits_push(statements: Seq<Spanned<StatementView>>, last: Spanned<StatementView>)
    requires
        fits(statements),
        ({
            let before = pointer_after(statements, statements.len() as int);
            before <= pointer_next(last.node, before) <= 0xffff
        }),
    ensures
        fits(statements.push(last)),
        pointer_after(statements.push(last), statements.len() as int + 1) == pointer_next(
            last.node,
            pointer_after(statements, statements.len() as int),
        ),
{
    let longer = statements.push(last);
    lemma_pointer_after_push(statements, last, statements.len() as int);
    assert forall|n: int| 0 <= n < longer.len() implies ({
        let before = #[trigger] pointer_after(longer, n);
        before <= pointer_next(longer[n].node, before) <= 0xffff
    }) by {
        lemma_pointer_after_push(statements, last, n);
        if n < statements.len() {
            assert(longer[n] == statements[n]);
            let before = pointer_after(statements, n);
            assert(before <= pointer_next(statements[n].node, before) <= 0xffff);
        }
    }
}

/// One more token keeps what holds of the walker's state.
pub proof fn lemma_walk_step_inv(st: WalkState, token: Spanned<TokenView>)
    requires
        walk_inv(st),
    ensures
        walk_inv(walk_step(st, token)),
{
    let next = walk_step(st, token);
    if next.statements != st.statements {
        let last = next.statements.last();
        assert(next.statements =~= st.statements.push(last));
        lemma_fits_push(st.statements, last);
        if next.errors.len() == 0 {
            assert forall|i: int| 0 <= i < next.statements.len() implies match reference_of(
                (#[trigger] next.statements[i]).node,
            ) {
                Some(id) => id.is_resolved(),
                None => true,
            } by {
                if i < st.statements.len() {
                    assert(next.statements[i] == st.statements[i]);
                }
            }
        }
    }
    if next.labels != st.labels {
        let d = next.labels.last();
        assert(next.labels =~= st.labels.push(d));
        assert(lookup(st.labels, d.identifier) is None);
        assert forall|i: int, j: int| 0 <= i < j < next.labels.len() implies (
        #[trigger] next.labels[i]).identifier != (#[trigger] next.labels[j]).identifier by {
            if j == st.labels.len() {
                assert(st.labels[i].identifier != d.identifier);
            } else {
                assert(st.labels[i].identifier != st.labels[j].identifier);
            }
        }
    }
}

/// What holds of the walker's state holds after any number of tokens.
pub proof fn lemma_walk_inv(tokens: Seq<Spanned<TokenView>>, n: int)
    ensures
        walk_inv(walk_state(tokens, n)),
    decreases n,
{
    if n > 0 {
        lemma_walk_inv(tokens, n - 1);
        lemma_walk_step_inv(walk_state(tokens, n - 1), tokens[n - 1]);
    }
}

/// Whether token `i` is the definition that the entry `d` stands for: it is
/// at the entry's span, it names the entry's identifier in the scope it
/// stands in, and the entry's address is where the walker's pointer stood
/// when it came to the token.
pub open spec fn defines_at(tokens: Seq<Spanned<TokenView>>, i: int, d: LabelDefinitionView)
    -> bool {
    let before = walk_state(tokens, i);
    &&& tokens[i].span == d.span
    &&& d.address == before.pointer
    &&& match tokens[i].node {
        TokenView::LabelDefine(name) => d.identifier == ScopedIdentifierView::Label(name),
        TokenView::SublabelDefine(name) => match before.scope {
            Some(label) => d.identifier == ScopedIdentifierView::Sublabel(label, name),
            None => false,
        },
        _ => false,
    }
}

/// Every label in the table has the address at which the walker's pointer
/// stood when it came to the label's definition. That is also where the
/// statements before the definition leave the emitter's pointer.
pub proof fn lemma_label_address(tokens: Seq<Spanned<TokenView>>, n: int, k: int)
    requires
        0 <= n <= tokens.len(),
        0 <= k < walk_state(tokens, n).labels.len(),
    ensures
        exists|i: int|
            0 <= i < n && #[trigger] defines_at(tokens, i, walk_state(tokens, n).labels[k]) && ({
                let before = walk_state(tokens, i);
                before.pointer == pointer_after(before.statements, before.statements.len() as int)
            }),
    decreases n,
{
    if n > 0 {
        let before = walk_state(tokens, n - 1);
        let st = walk_state(tokens, n);
        lemma_walk_inv(tokens, n - 1);
        if k < before.labels.len() {
            lemma_label_address(tokens, n - 1, k);
            assert(st.labels[k] == before.labels[k]);
        } else {
            assert(defines_at(tokens, n - 1, st.labels[k]));
        }
    }
}

/// Whether token `i` is the one that the statement `s` stands for: it is at
/// the statement's span, and it is the pad that the statement is, or it
/// becomes the statement in the scope it stands in.
pub open spec fn states_at(tokens: Seq<Spanned<TokenView>>, i: int, s: Spanned<StatementView>)
    -> bool {
    &&& tokens[i].span == s.span
    &&& match tokens[i].node {
        TokenView::PadAbsolute(to) => s.node == StatementView::PadAbsolute(to),
        TokenView::PadRelative(by) => s.node == StatementView::PadRelative(by),
        node => statement_of(node, walk_state(tokens, i).scope) == Some(s.node),
    }
}

/// Every statement stands for a token, with the span of that token: the
/// walker passes spans on as they are.
pub proof fn lemma_statement_has_its_token(tokens: Seq<Spanned<TokenView>>, n: int, k: int)
    requires
        0 <= n <= tokens.len(),
        0 <= k < walk_state(tokens, n).statements.len(),
    ensures
        exists|i: int|
            0 <= i < n && #[trigger] states_at(tokens, i, walk_state(tokens, n).statements[k]),
    decreases n,
{
    if n > 0 {
        let before = walk_state(tokens, n - 1);
        let st = walk_state(tokens, n);
        if k < before.statements.len() {
            lemma_statement_has_its_token(tokens, n - 1, k);
            assert(st.statements[k] == before.statements[k]);
        } else {
            assert(states_at(tokens, n - 1, st.statements[k]));
        }
    }
}

/// The statements of a walk without errors can be laid out, no label of
/// its table is defined twice, and every reference names its label.
pub proof fn lemma_walked_fits(tokens: Seq<Spanned<TokenView>>)
    ensures
        walked(tokens) matches Ok((statements, labels)) ==> fits(statements) && unique(labels)
            && resolved(statements),
{
    lemma_walk_inv(tokens, tokens.len() as int);
}

/// An identifier as the walker passes it on.
fn place(id: &ScopedIdentifier, scope: &Option<Vec<u8>>) -> (r: ScopedIdentifier)
    ensures
        r@ == placed(id@, scope_view(*scope)),
{
    match (id, scope) {
        (ScopedIdentifier::Relative(name), Some(label)) => ScopedIdentifier::Sublabel(
            clone_bytes(label),
            clone_bytes(name),
        ),
        _ => id.duplicate(),
    }
}

/// A scope as plain values.
pub open spec fn scope_view(scope: Option<Vec<u8>>) -> Option<Seq<u8>> {
    match scope {
        Some(label) => Some(label@),
        None => None,
    }
}

/// The statement that a token becomes, for the tokens that take room in the
/// image.
fn to_statement(token: &Token, scope: &Option<Vec<u8>>) -> (r: Option<Statement>)
    ensures
        match r {
            Some(statement) => statement_of(token@, scope_view(*scope)) == Some(statement@),
            None => statement_of(token@, scope_view(*scope)) is None,
        },
{
    match token {
        Token::Instruction(i) => Some(Statement::Instruction(*i)),
        Token::LiteralZeroPageAddress(id) => Some(
            Statement::LiteralZeroPageAddress(place(id, scope)),
        ),
        Token::LiteralRelativeAddress(id) => Some(
            Statement::LiteralRelativeAddress(place(id, scope)),
        ),
        Token::LiteralAbsoluteAddress(id) => Some(
            Statement::LiteralAbsoluteAddress(place(id, scope)),
        ),
        Token::RawAddress(id) => Some(Statement::RawAddress(place(id, scope))),
        Token::LiteralHexByte(b) => Some(Statement::LiteralHexByte(*b)),
        Token::LiteralHexShort(s) => Some(Statement::LiteralHexShort(*s)),
        Token::RawHexByte(b) => Some(Statement::RawHexByte(*b)),
        Token::RawHexShort(s) => Some(Statement::RawHexShort(*s)),
        Token::RawChar(b) => Some(Statement::RawChar(*b)),
        Token::RawWord(w) => Some(Statement::RawWord(clone_bytes(w))),
        _ => None,
    }
}

/// The number of bytes that a statement takes in the image, where that is
/// less than the size of the address space.
fn statement_width(statement: &Statement) -> (r: Option<u16>)
    ensures
        match r {
            Some(w) => w == width(statement@),
            None => width(statement@) > 0xffff,
        },
{
    match statement {
        Statement::Instruction(_) => Some(1),
        Statement::PadAbsolute(_) => Some(0),
        Statement::PadRelative(_) => Some(0),
        Statement::LiteralZeroPageAddress(_) => Some(2),
        Statement::LiteralRelativeAddress(_) => Some(2),
        Statement::LiteralAbsoluteAddress(_) => Some(3),
        Statement::RawAddress(_) => Some(2),
        Statement::LiteralHexByte(_) => Some(2),
        Statement::LiteralHexShort(_) => Some(3),
        Statement::RawHexByte(_) => Some(1),
        Statement::RawHexShort(_) => Some(2),
        Statement::RawChar(_) => Some(1),
        Statement::RawWord(word) => if word.len() <= 0xffff {
            Some(word.len() as u16)
        } else {
            None
        },
    }
}

/// The walker's state while it runs.
struct Walker {
    pointer: u16,
    scope: Option<Vec<u8>>,
    definitions: Definitions,
    statements: Vec<Spanned<Statement>>,
    errors: Vec<Error>,
    brackets: Vec<Span>,
}

impl View for Walker {
    type V = WalkState;

    closed spec fn view(&self) -> WalkState {
        WalkState {
            pointer: self.pointer as int,
            scope: scope_view(self.scope),
            labels: self.definitions@,
            statements: views(self.statements@),
            errors: views(self.errors@),
            brackets: self.brackets@,
        }
    }
}

impl Walker {
    /// The state before the first token.
    fn new() -> (r: Walker)
        ensures
            r@ == walk_start(),
    {
        let r = Walker {
            pointer: ORIGIN,
            scope: None,
            definitions: Definitions::new(),
            statements: Vec::new(),
            errors: Vec::new(),
            brackets: Vec::new(),
        };
        assert(r@.statements =~= Seq::empty());
        assert(r@.errors =~= Seq::empty());
        assert(r@.brackets =~= Seq::empty());
        r
    }

    /// Defines `key` at the pointer, or adds an error where it is defined
    /// already.
    fn define(&mut self, key: ScopedIdentifier, span: Span)
        requires
            unique(old(self)@.labels),
        ensures
            final(self)@ == defined(old(self)@, key@, span),
    {
        let name = key.name();
        match self.definitions.insert(key, self.pointer, span) {
            Ok(()) => {},
            Err(other_span) => {
                push_view(
                    &mut self.errors,
                    Error::LabelDefinedMoreThanOnce { name, other_span, span },
                );
            },
        }
    }

    /// Takes a statement of some width.
    fn state(&mut self, statement: Statement, span: Span)
        ensures
            final(self)@ == stated(old(self)@, statement@, span),
    {
        if self.pointer < ORIGIN {
            push_view(&mut self.errors, Error::BytesInZerothPage { span });
            return ;
        }
        let room: u16 = 0xffff - self.pointer;
        match statement_width(&statement) {
            Some(w) => {
                if w > room {
                    push_view(&mut self.errors, Error::ProgramTooLong { span });
                } else {
                    match statement.reference() {
                        Some(ScopedIdentifier::Relative(name)) => {
                            let name = clone_bytes(name);
                            push_view(
                                &mut self.errors,
                                Error::SublabelReferencedWithoutScope { name, span },
                            );
                        },
                        _ => {},
                    }
                    self.pointer = self.pointer + w;
                    push_view(&mut self.statements, Spanned { node: statement, span });
                }
            },
            None => {
                push_view(&mut self.errors, Error::ProgramTooLong { span });
            },
        }
    }

    /// Takes one more token.
    fn step(&mut self, token: &Spanned<Token>)
        requires
            unique(old(self)@.labels),
        ensures
            final(self)@ == walk_step(old(self)@, token@),
    {
        let span = token.span;
        match &token.node {
            Token::OpeningBracket => {
                self.brackets.push(span);
            },
            Token::ClosingBracket => {
                if self.brackets.len() > 0 {
                    self.brackets.pop();
                    assert(self.brackets@ =~= old(self).brackets@.drop_last());
                } else {
                    push_view(&mut self.errors, Error::NoMatchingOpeningBracket { span });
                }
            },
            Token::LabelDefine(name) => {
                self.scope = Some(clone_bytes(name));
                self.define(ScopedIdentifier::Label(clone_bytes(name)), span);
            },
            Token::SublabelDefine(name) => {
                let key = match &self.scope {
                    Some(label) => Some(
                        ScopedIdentifier::Sublabel(clone_bytes(label), clone_bytes(name)),
                    ),
                    None => None,
                };
                match key {
                    Some(key) => {
                        self.define(key, span);
                    },
                    None => {
                        push_view(
                            &mut self.errors,
                            Error::SublabelDefinedWithoutScope { name: clone_bytes(name), span },
                        );
                    },
                }
            },
            Token::PadAbsolute(to) => {
                if *to < self.pointer {
                    push_view(
                        &mut self.errors,
                        Error::PaddedBackwards {
                            previous_pointer: self.pointer as usize,
                            desired_pointer: *to as usize,
                            span,
                        },
                    );
                } else {
                    self.pointer = *to;
                    push_view(
                        &mut self.statements,
                        Spanned { node: Statement::PadAbsolute(*to), span },
                    );
                }
            },
            Token::PadRelative(by) => {
                if *by > 0xffff - self.pointer {
                    push_view(&mut self.errors, Error::ProgramTooLong { span });
                } else {
                    self.pointer = self.pointer + *by;
                    push_view(
                        &mut self.statements,
                        Spanned { node: Statement::PadRelative(*by), span },
                    );
                }
            },
            _ => {
                match to_statement(&token.node, &self.scope) {
                    Some(statement) => {
                        self.state(statement, span);
                    },
                    None => {},
                }
            },
        }
    }
}

/// Assigns an address to every label and sublabel, and keeps the tokens
/// that take room in the image or move the write pointer, each `&sublabel`
/// placed under the label defined last. The write pointer starts at
/// `ORIGIN` and moves forward only: a pad to an address behind it is an
/// error. Gives the statements and the labels where nothing is wrong, else
/// the errors in their order. The statements of an `Ok` can be laid out, no
/// label is defined twice, and every reference names its label.
pub fn walk(tokens: Vec<Spanned<Token>>) -> (r: Walked)
    ensures
        walked_view(r) == walked(views(tokens@)),
        match r {
            Ok((statements, definitions)) => fits(views(statements@)) && definitions.wf()
                && resolved(views(statements@)),
            Err(errors) => errors@.len() > 0,
        },
{
    let ghost toks = views(tokens@);
    let mut walker = Walker::new();
    let mut i: usize = 0;
    while i < tokens.len()
        invariant
            i <= tokens.len(),
            toks == views(tokens@),
            walker@ == walk_state(toks, i as int),
        decreases tokens.len() - i,
    {
        proof {
            lemma_walk_inv(toks, i as int);
        }
        assert(toks[i as int] == tokens@[i as int]@);
        walker.step(&tokens[i]);
        i += 1;
    }
    proof {
        lemma_walk_inv(toks, toks.len() as int);
    }
    let ghost end = walker@;
    let Walker { pointer, scope, definitions, statements, mut errors, brackets } = walker;
    let mut k: usize = 0;
    while k < brackets.len()
        invariant
            k <= brackets.len(),
            views(errors@) == end.errors + unclosed(brackets@.subrange(0, k as int)),
        decreases brackets.len() - k,
    {
        push_view(&mut errors, Error::NoMatchingClosingBracket { span: brackets[k] });
        assert(end.errors + unclosed(brackets@.subrange(0, k + 1)) =~= (end.errors + unclosed(
            brackets@.subrange(0, k as int),
        )).push(ErrorView::NoMatchingClosingBracket { span: brackets@[k as int] }));
        k += 1;
    }
    assert(brackets@.subrange(0, brackets@.len() as int) =~= brackets@);
    if errors.len() == 0 {
        assert(end.errors =~= Seq::empty());
        Ok((statements, definitions))
    } else {
        Err(errors)
    }
}

} // verus!
