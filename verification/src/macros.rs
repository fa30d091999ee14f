//! The macro processor: takes the definitions of macros out of the tokens
//! and puts the body of each macro in the place of its invocations.

use crate::error::{chain_view, clone_chain, Error, ErrorView, Warning, WarningView};
use crate::span::{Span, Spanned};
use crate::token::{clone_token, Token, TokenView};
use crate::views::{append_view, push_view, views};
use crate::bytes::{bytes_eq, clone_bytes};
use vstd::prelude::*;

verus! {

/// A macro: its name, the span of the token that defined it, and the tokens
/// between its braces.
#[derive(Debug, PartialEq, Eq)]
pub struct MacroDefinition {
    pub name: Vec<u8>,
    pub span: Span,
    pub body: Vec<Spanned<Token>>,
}

/// A macro as plain values.
pub struct MacroDefinitionView {
    pub name: Seq<u8>,
    pub span: Span,
    pub body: Seq<Spanned<TokenView>>,
}

impl View for MacroDefinition {
    type V = MacroDefinitionView;

    open spec fn view(&self) -> MacroDefinitionView {
        MacroDefinitionView { name: self.name@, span: self.span, body: views(self.body@) }
    }
}

/// The index of the first macro called `name` among the first `n`, if there
/// is one.
pub open spec fn macro_index(macros: Seq<MacroDefinitionView>, name: Seq<u8>, n: int) -> Option<
    int,
>
    decreases n,
{
    if n <= 0 {
        None
    } else {
        match macro_index(macros, name, n - 1) {
            Some(i) => Some(i),
            None => if macros[n - 1].name == name {
                Some(n - 1)
            } else {
                None
            },
        }
    }
}

/// The first macro called `name`, if there is one.
pub open spec fn find_macro(macros: Seq<MacroDefinitionView>, name: Seq<u8>) -> Option<
    MacroDefinitionView,
> {
    match macro_index(macros, name, macros.len() as int) {
        Some(i) => Some(macros[i]),
        None => None,
    }
}

/// A brace group that is being read.
pub struct Opened {
    /// The macro that the group is the body of; `None` for a group that no
    /// macro definition stands before.
    pub target: Option<(Seq<u8>, Span)>,
    /// The span of the opening brace.
    pub brace: Span,
    /// The number of braces open inside the group.
    pub nesting: nat,
    /// The tokens of the group so far.
    pub body: Seq<Spanned<TokenView>>,
}

/// What is known after some tokens of the pass that takes the macro
/// definitions out.
pub struct CollectState {
    /// The tokens outside every brace group, without the definitions.
    pub rest: Seq<Spanned<TokenView>>,
    /// The macros defined so far.
    pub macros: Seq<MacroDefinitionView>,
    /// The errors so far.
    pub errors: Seq<ErrorView>,
    /// A macro definition that was the last token.
    pub pending: Option<(Seq<u8>, Span)>,
    /// The brace group that is open.
    pub opened: Option<Opened>,
}

/// The state before the first token.
pub open spec fn collect_start() -> CollectState {
    CollectState {
        rest: Seq::empty(),
        macros: Seq::empty(),
        errors: Seq::empty(),
        pending: None,
        opened: None,
    }
}

/// The state with one more macro, or with an error where a macro of that
/// name stands already.
pub open spec fn registered(
    st: CollectState,
    name: Seq<u8>,
    span: Span,
    body: Seq<Spanned<TokenView>>,
) -> CollectState {
    match find_macro(st.macros, name) {
        Some(m) => CollectState {
            errors: st.errors.push(
                ErrorView::MacroDefinedMoreThanOnce { name, other_span: m.span, span },
            ),
            ..st
        },
        None => CollectState {
            macros: st.macros.push(MacroDefinitionView { name, span, body }),
            ..st
        },
    }
}

/// The state after a token that stands outside every brace group and not
/// behind a macro definition.
pub open spec fn collect_plain(st: CollectState, token: Spanned<TokenView>) -> CollectState {
    let span = token.span;
    match token.node {
        TokenView::MacroDefine(name) => CollectState { pending: Some((name, span)), ..st },
        TokenView::OpeningBrace => CollectState {
            errors: st.errors.push(ErrorView::OpeningBraceNotAfterMacroDefinition { span }),
            opened: Some(Opened { target: None, brace: span, nesting: 0, body: Seq::empty() }),
            ..st
        },
        TokenView::ClosingBrace => CollectState {
            errors: st.errors.push(ErrorView::NoMatchingOpeningBrace { span }),
            ..st
        },
        _ => CollectState { rest: st.rest.push(token), ..st },
    }
}

/// The state after a token inside the brace group `o`.
pub open spec fn collect_inside(st: CollectState, o: Opened, token: Spanned<TokenView>)
    -> CollectState {
    match token.node {
        TokenView::OpeningBrace => CollectState {
            opened: Some(Opened { nesting: o.nesting + 1, body: o.body.push(token), ..o }),
            ..st
        },
        TokenView::ClosingBrace => if o.nesting == 0 {
            let closed = CollectState { opened: None, ..st };
            match o.target {
                Some((name, span)) => registered(closed, name, span, o.body),
                None => closed,
            }
        } else {
            CollectState {
                opened: Some(
                    Opened { nesting: (o.nesting - 1) as nat, body: o.body.push(token), ..o },
                ),
                ..st
            }
        },
        _ => CollectState { opened: Some(Opened { body: o.body.push(token), ..o }), ..st },
    }
}

/// The state after one more token. A macro definition takes the brace group
/// that follows it at once as its body, and has an empty body where none
/// follows. A group that no definition stands before is an error, and its
/// tokens are left out.
pub open spec fn collect_step(st: CollectState, token: Spanned<TokenView>) -> CollectState {
    match st.opened {
        Some(o) => collect_inside(st, o, token),
        None => match st.pending {
            Some((name, span)) => if token.node is OpeningBrace {
                CollectState {
                    pending: None,
                    opened: Some(
                        Opened {
                            target: Some((name, span)),
                            brace: token.span,
                            nesting: 0,
                            body: Seq::empty(),
                        },
                    ),
                    ..st
                }
            } else {
                collect_plain(
                    registered(CollectState { pending: None, ..st }, name, span, Seq::empty()),
                    token,
                )
            },
            None => collect_plain(st, token),
        },
    }
}

/// The state after the first `n` tokens.
pub open spec fn collect_state(tokens: Seq<Spanned<TokenView>>, n: int) -> CollectState
    decreases n,
{
    if n <= 0 {
        collect_start()
    } else {
        collect_step(collect_state(tokens, n - 1), tokens[n - 1])
    }
}

/// The state after the last token: a definition in last place has an empty
/// body, and a group still open is an error at its opening brace.
pub open spec fn collect_end(st: CollectState) -> CollectState {
    let st = match st.pending {
        Some((name, span)) => registered(
            CollectState { pending: None, ..st },
            name,
            span,
            Seq::empty(),
        ),
        None => st,
    };
    match st.opened {
        Some(o) => CollectState {
            errors: st.errors.push(ErrorView::NoMatchingClosingBrace { span: o.brace }),
            opened: None,
            ..st
        },
        None => st,
    }
}

/// What the first pass gives for all the tokens.
pub open spec fn collected(tokens: Seq<Spanned<TokenView>>) -> CollectState {
    collect_end(collect_state(tokens, tokens.len() as int))
}

/// The index of the innermost invocation of `name` on the stack, if the
/// macro is being expanded.
pub open spec fn depth_of(stack: Seq<(Seq<u8>, Span)>, name: Seq<u8>) -> Option<int>
    decreases stack.len(),
{
    if stack.len() == 0 {
        None
    } else if stack.last().0 == name {
        Some(stack.len() - 1)
    } else {
        depth_of(stack.drop_last(), name)
    }
}

/// The number of macros among the first `n` that are not being expanded.
pub open spec fn idle(macros: Seq<MacroDefinitionView>, stack: Seq<(Seq<u8>, Span)>, n: int)
    -> nat
    decreases n,
{
    if n <= 0 {
        0
    } else {
        idle(macros, stack, n - 1) + if depth_of(stack, macros[n - 1].name) is None {
            1nat
        } else {
            0nat
        }
    }
}

/// A macro is being expanded on a longer stack if its name was pushed or it
/// was being expanded before.
pub proof fn lemma_depth_of_push(stack: Seq<(Seq<u8>, Span)>, top: (Seq<u8>, Span), name: Seq<u8>)
    ensures
        depth_of(stack.push(top), name) is Some <==> (top.0 == name || depth_of(stack, name)
            is Some),
        top.0 != name ==> depth_of(stack.push(top), name) == depth_of(stack, name),
{
    assert(stack.push(top).drop_last() =~= stack);
}

/// Pushing the name of a macro that is not being expanded leaves fewer
/// macros that are not.
pub proof fn lemma_idle_push(
    macros: Seq<MacroDefinitionView>,
    stack: Seq<(Seq<u8>, Span)>,
    top: (Seq<u8>, Span),
    n: int,
)
    ensures
        idle(macros, stack.push(top), n) <= idle(macros, stack, n),
        depth_of(stack, top.0) is None && macro_index(macros, top.0, n) is Some ==> idle(
            macros,
            stack.push(top),
            n,
        ) < idle(macros, stack, n),
    decreases n,
{
    if n > 0 {
        lemma_idle_push(macros, stack, top, n - 1);
        lemma_depth_of_push(stack, top, macros[n - 1].name);
    }
}

/// An error of a macro's body as it is reported for an invocation at
/// `span`. A recursion carries its own chain of invocations and stays as it
/// is.
pub open spec fn wrapped(error: ErrorView, span: Span) -> ErrorView {
    if error is RecursiveMacro {
        error
    } else {
        ErrorView::MacroError { original_error: Box::new(error), span }
    }
}

/// The errors of a macro's body as they are reported for an invocation at
/// `span`.
pub open spec fn all_wrapped(errors: Seq<ErrorView>, span: Span) -> Seq<ErrorView> {
    Seq::new(errors.len(), |i: int| wrapped(errors[i], span))
}

/// The error for an invocation of `name` at `span` while that macro is
/// being expanded at level `level` of the stack: the chain runs from this
/// invocation through the ones above that level.
pub open spec fn recursion(
    stack: Seq<(Seq<u8>, Span)>,
    level: int,
    name: Seq<u8>,
    span: Span,
) -> ErrorView {
    ErrorView::RecursiveMacro {
        chain: seq![(name, span)] + stack.subrange(level + 1, stack.len() as int),
        span: stack[level].1,
    }
}

/// The tokens and the errors that the first `n` of `tokens` expand to,
/// while the macros on the stack are being expanded. An invocation gives
/// the expansion of the macro's body, with the errors of the body wrapped;
/// it gives an error and no token where the macro is unknown or is being
/// expanded already. A definition inside a body is an error, and so is an
/// opening brace that does not follow one.
pub open spec fn expansion(
    tokens: Seq<Spanned<TokenView>>,
    n: int,
    macros: Seq<MacroDefinitionView>,
    stack: Seq<(Seq<u8>, Span)>,
) -> (Seq<Spanned<TokenView>>, Seq<ErrorView>)
    decreases idle(macros, stack, macros.len() as int), n,
{
    if n <= 0 {
        (Seq::empty(), Seq::empty())
    } else {
        let (out, errors) = expansion(tokens, n - 1, macros, stack);
        let token = tokens[n - 1];
        let span = token.span;
        match token.node {
            TokenView::MacroInvoke(name) => match depth_of(stack, name) {
                Some(level) => (out, errors.push(recursion(stack, level, name, span))),
                None => match find_macro(macros, name) {
                    None => (out, errors.push(ErrorView::MacroUndefined { name, span })),
                    Some(m) => {
                        proof {
                            lemma_idle_push(macros, stack, (name, span), macros.len() as int);
                        }
                        let (inner_out, inner_errors) = expansion(
                            m.body,
                            m.body.len() as int,
                            macros,
                            stack.push((name, span)),
                        );
                        (out + inner_out, errors + all_wrapped(inner_errors, span))
                    },
                },
            },
            TokenView::MacroDefine(name) => (
                out,
                errors.push(
                    ErrorView::MacroDefinedMoreThanOnce {
                        name,
                        other_span: match find_macro(macros, name) {
                            Some(m) => m.span,
                            None => span,
                        },
                        span,
                    },
                ),
            ),
            TokenView::OpeningBrace => if n >= 2 && tokens[n - 2].node is MacroDefine {
                (out, errors)
            } else {
                (out, errors.push(ErrorView::OpeningBraceNotAfterMacroDefinition { span }))
            },
            TokenView::ClosingBrace => (out, errors),
            _ => (out.push(token), errors),
        }
    }
}

/// Whether one of the first `n` tokens invokes the macro `name`.
pub open spec fn invoked(tokens: Seq<Spanned<TokenView>>, n: int, name: Seq<u8>) -> bool
    decreases n,
{
    n > 0 && (tokens[n - 1].node == TokenView::MacroInvoke(name) || invoked(tokens, n - 1, name))
}

/// The warnings for the first `m` macros: one for each that no token
/// invokes, in the order of the definitions.
pub open spec fn unused_macros(
    tokens: Seq<Spanned<TokenView>>,
    macros: Seq<MacroDefinitionView>,
    m: int,
) -> Seq<WarningView>
    decreases m,
{
    if m <= 0 {
        Seq::empty()
    } else {
        let before = unused_macros(tokens, macros, m - 1);
        let d = macros[m - 1];
        if invoked(tokens, tokens.len() as int, d.name) {
            before
        } else {
            before.push(WarningView::MacroUnused { name: d.name, span: d.span })
        }
    }
}

/// What the macro processor gives: the tokens with the warnings, or the
/// errors with the warnings.
pub type Expanded = Result<(Vec<Spanned<Token>>, Vec<Warning>), (Vec<Error>, Vec<Warning>)>;

/// What the macro processor gives, as plain values.
pub type ExpandedView = Result<
    (Seq<Spanned<TokenView>>, Seq<WarningView>),
    (Seq<ErrorView>, Seq<WarningView>),
>;

/// What the macro processor gives, as plain values.
pub open spec fn expanded_view(expanded: Expanded) -> ExpandedView {
    match expanded {
        Ok((tokens, warnings)) => Ok((views(tokens@), views(warnings@))),
        Err((errors, warnings)) => Err((views(errors@), views(warnings@))),
    }
}

/// What the macro processor gives: the tokens outside the definitions with
/// every invocation expanded, where nothing is wrong; else the errors of
/// the first pass followed by those of the expansion; either way a warning
/// for each macro that nothing invokes.
pub open spec fn expanded(tokens: Seq<Spanned<TokenView>>) -> ExpandedView {
    let st = collected(tokens);
    let (out, errors) = expansion(st.rest, st.rest.len() as int, st.macros, Seq::empty());
    let warnings = unused_macros(tokens, st.macros, st.macros.len() as int);
    if (st.errors + errors).len() == 0 {
        Ok((out, warnings))
    } else {
        Err((st.errors + errors, warnings))
    }
}

/// Whether a token belongs to the structure of macros: a definition, an
/// invocation or a brace.
pub open spec fn is_structural(node: TokenView) -> bool {
    node is MacroDefine || node is MacroInvoke || node is OpeningBrace || node is ClosingBrace
}

/// Whether a token stands in the body of one of the macros.
pub open spec fn in_bodies(macros: Seq<MacroDefinitionView>, token: Spanned<TokenView>) -> bool {
    exists|m: int| 0 <= m < macros.len() && (#[trigger] macros[m]).body.contains(token)
}

/// The index that is found for a name is the index of a macro of that
/// name.
pub proof fn lemma_macro_index_found(macros: Seq<MacroDefinitionView>, name: Seq<u8>, n: int)
    requires
        n <= macros.len(),
    ensures
        macro_index(macros, name, n) matches Some(i) ==> 0 <= i < n && macros[i].name == name,
    decreases n,
{
    if n > 0 {
        lemma_macro_index_found(macros, name, n - 1);
    }
}

/// Every token that an expansion gives is a token of the source: it stands
/// among the tokens expanded or in the body of a macro, with the span it
/// has there. None of them is a definition, an invocation or a brace.
pub proof fn lemma_expansion_tokens(
    tokens: Seq<Spanned<TokenView>>,
    n: int,
    macros: Seq<MacroDefinitionView>,
    stack: Seq<(Seq<u8>, Span)>,
    k: int,
)
    requires
        0 <= n <= tokens.len(),
        0 <= k < expansion(tokens, n, macros, stack).0.len(),
    ensures
        !is_structural(expansion(tokens, n, macros, stack).0[k].node),
        tokens.contains(expansion(tokens, n, macros, stack).0[k]) || in_bodies(
            macros,
            expansion(tokens, n, macros, stack).0[k],
        ),
    decreases idle(macros, stack, macros.len() as int), n,
{
    if n > 0 {
        let (out, errors) = expansion(tokens, n - 1, macros, stack);
        let token = tokens[n - 1];
        if k < out.len() {
            lemma_expansion_tokens(tokens, n - 1, macros, stack, k);
            assert(expansion(tokens, n, macros, stack).0[k] == out[k]);
        } else {
            match token.node {
                TokenView::MacroInvoke(name) => {
                    let m = find_macro(macros, name).unwrap();
                    let deeper = stack.push((name, token.span));
                    lemma_macro_index_found(macros, name, macros.len() as int);
                    lemma_idle_push(macros, stack, (name, token.span), macros.len() as int);
                    lemma_expansion_tokens(
                        m.body,
                        m.body.len() as int,
                        macros,
                        deeper,
                        k - out.len(),
                    );
                    let inner = expansion(m.body, m.body.len() as int, macros, deeper).0;
                    assert(expansion(tokens, n, macros, stack).0[k] == inner[k - out.len()]);
                    let i = macro_index(macros, name, macros.len() as int).unwrap();
                    assert(macros[i].body.contains(inner[k - out.len()]) || in_bodies(
                        macros,
                        inner[k - out.len()],
                    ));
                },
                _ => {
                    assert(expansion(tokens, n, macros, stack).0[k] == token);
                },
            }
        }
    }
}

/// The errors of a macro's body reach the invocation either wrapped with
/// the span of the invocation or, where they report a recursion, as they
/// are.
pub proof fn lemma_wrapped_errors(errors: Seq<ErrorView>, span: Span, i: int)
    requires
        0 <= i < errors.len(),
    ensures
        all_wrapped(errors, span).len() == errors.len(),
        errors[i] is RecursiveMacro ==> all_wrapped(errors, span)[i] == errors[i],
        !(errors[i] is RecursiveMacro) ==> all_wrapped(errors, span)[i] == (ErrorView::MacroError {
            original_error: Box::new(errors[i]),
            span,
        }),
{
}

/// What holds of the first pass after any tokens: the tokens it has kept,
/// in the rest, in the bodies of the macros and in the open group, are
/// tokens of the source; and the rest holds no definition and no brace.
pub open spec fn collect_inv(tokens: Seq<Spanned<TokenView>>, st: CollectState) -> bool {
    &&& forall|i: int|
        0 <= i < st.rest.len() ==> tokens.contains(#[trigger] st.rest[i]) && !(st.rest[i].node
            is MacroDefine) && !(st.rest[i].node is OpeningBrace) && !(st.rest[i].node
            is ClosingBrace)
    &&& forall|m: int, j: int|
        0 <= m < st.macros.len() && 0 <= j < st.macros[m].body.len() ==> tokens.contains(
            #[trigger] st.macros[m].body[j],
        )
    &&& match st.opened {
        Some(o) => forall|j: int| 0 <= j < o.body.len() ==> tokens.contains(#[trigger] o.body[j]),
        None => true,
    }
}

/// One more macro with a body of tokens of the source keeps what holds of
/// the first pass.
pub proof fn lemma_registered_inv(
    tokens: Seq<Spanned<TokenView>>,
    st: CollectState,
    name: Seq<u8>,
    span: Span,
    body: Seq<Spanned<TokenView>>,
)
    requires
        collect_inv(tokens, st),
        forall|j: int| 0 <= j < body.len() ==> tokens.contains(#[trigger] body[j]),
    ensures
        collect_inv(tokens, registered(st, name, span, body)),
{
    let next = registered(st, name, span, body);
    assert forall|m: int, j: int|
        0 <= m < next.macros.len() && 0 <= j < next.macros[m].body.len() implies tokens.contains(
        #[trigger] next.macros[m].body[j],
    ) by {
        if m < st.macros.len() {
            assert(next.macros[m] == st.macros[m]);
        }
    }
}

/// One more token of the source keeps what holds of the first pass.
pub proof fn lemma_collect_step_inv(
    tokens: Seq<Spanned<TokenView>>,
    st: CollectState,
    token: Spanned<TokenView>,
)
    requires
        collect_inv(tokens, st),
        tokens.contains(token),
    ensures
        collect_inv(tokens, collect_step(st, token)),
{
    let empty = Seq::<Spanned<TokenView>>::empty();
    match st.opened {
        Some(o) => {
            let closed = CollectState { opened: None, ..st };
            if o.target is Some {
                let (name, span) = o.target.unwrap();
                lemma_registered_inv(tokens, closed, name, span, o.body);
            }
            let longer = o.body.push(token);
            assert forall|j: int| 0 <= j < longer.len() implies tokens.contains(
                #[trigger] longer[j],
            ) by {
                if j < o.body.len() {
                    assert(longer[j] == o.body[j]);
                }
            }
        },
        None => {
            let base = match st.pending {
                Some((name, span)) => registered(
                    CollectState { pending: None, ..st },
                    name,
                    span,
                    empty,
                ),
                None => st,
            };
            if st.pending is Some {
                lemma_registered_inv(
                    tokens,
                    CollectState { pending: None, ..st },
                    st.pending.unwrap().0,
                    st.pending.unwrap().1,
                    empty,
                );
            }
            let next = collect_plain(base, token);
            assert forall|i: int| 0 <= i < next.rest.len() implies tokens.contains(
                #[trigger] next.rest[i],
            ) && !(next.rest[i].node is MacroDefine) && !(next.rest[i].node is OpeningBrace) && !(
            next.rest[i].node is ClosingBrace) by {
                if i < base.rest.len() {
                    assert(next.rest[i] == base.rest[i]);
                }
            }
        },
    }
}

/// What holds of the first pass holds after any number of tokens, and at
/// the end.
pub proof fn lemma_collect_inv(tokens: Seq<Spanned<TokenView>>, n: int)
    requires
        0 <= n <= tokens.len(),
    ensures
        collect_inv(tokens, collect_state(tokens, n)),
        n == tokens.len() ==> collect_inv(tokens, collected(tokens)),
    decreases n,
{
    if n > 0 {
        lemma_collect_inv(tokens, n - 1);
        assert(tokens.contains(tokens[n - 1]));
        lemma_collect_step_inv(tokens, collect_state(tokens, n - 1), tokens[n - 1]);
    }
    if n == tokens.len() {
        let st = collect_state(tokens, n);
        if st.pending is Some {
            lemma_registered_inv(
                tokens,
                CollectState { pending: None, ..st },
                st.pending.unwrap().0,
                st.pending.unwrap().1,
                Seq::empty(),
            );
        }
    }
}

/// Every token that the macro processor gives is a token of the source,
/// with the span it has there, and none of them is a definition, an
/// invocation or a brace: expanding copies tokens and makes none.
pub proof fn lemma_expanded_tokens_come_from_source(tokens: Seq<Spanned<TokenView>>, k: int)
    requires
        expanded(tokens) is Ok,
        0 <= k < expanded(tokens)->Ok_0.0.len(),
    ensures
        tokens.contains(expanded(tokens)->Ok_0.0[k]),
        !is_structural(expanded(tokens)->Ok_0.0[k].node),
{
    let st = collected(tokens);
    lemma_collect_inv(tokens, tokens.len() as int);
    lemma_expansion_tokens(st.rest, st.rest.len() as int, st.macros, Seq::empty(), k);
    let token = expanded(tokens)->Ok_0.0[k];
    if st.rest.contains(token) {
        let i = choose|i: int| 0 <= i < st.rest.len() && st.rest[i] == token;
        assert(tokens.contains(st.rest[i]));
    } else {
        let m = choose|m: int|
            0 <= m < st.macros.len() && (#[trigger] st.macros[m]).body.contains(token);
        let j = choose|j: int| 0 <= j < st.macros[m].body.len() && st.macros[m].body[j] == token;
        assert(tokens.contains(st.macros[m].body[j]));
    }
}

/// The first macro called `name` among the first `n` is the first among
/// any more.
pub proof fn lemma_macro_index_stays(
    macros: Seq<MacroDefinitionView>,
    name: Seq<u8>,
    n: int,
    more: int,
)
    requires
        n <= more,
        macro_index(macros, name, n) is Some,
    ensures
        macro_index(macros, name, more) == macro_index(macros, name, n),
    decreases more - n,
{
    if n < more {
        lemma_macro_index_stays(macros, name, n, more - 1);
    }
}

/// The index of the first macro called `name`, if there is one.
fn find(macros: &Vec<MacroDefinition>, name: &Vec<u8>) -> (r: Option<usize>)
    ensures
        match r {
            Some(i) => i < macros.len() && macro_index(
                views(macros@),
                name@,
                macros.len() as int,
            ) == Some(i as int),
            None => macro_index(views(macros@), name@, macros.len() as int) is None,
        },
{
    let mut i: usize = 0;
    while i < macros.len()
        invariant
            i <= macros.len(),
            macro_index(views(macros@), name@, i as int) is None,
        decreases macros.len() - i,
    {
        if bytes_eq(&macros[i].name, name) {
            proof {
                assert(views(macros@)[i as int].name == name@);
                assert(macro_index(views(macros@), name@, i + 1) == Some(i as int));
                lemma_macro_index_stays(views(macros@), name@, i + 1, macros.len() as int);
            }
            return Some(i);
        }
        assert(views(macros@)[i as int].name != name@);
        i += 1;
    }
    None
}

/// A name with a span as plain values.
pub open spec fn named_view(named: Option<(Vec<u8>, Span)>) -> Option<(Seq<u8>, Span)> {
    match named {
        Some((name, span)) => Some((name@, span)),
        None => None,
    }
}

/// The state of the first pass while it runs. The fields from `target` on
/// describe the open brace group, and count only while `open` is set.
struct Collector {
    rest: Vec<Spanned<Token>>,
    macros: Vec<MacroDefinition>,
    errors: Vec<Error>,
    pending: Option<(Vec<u8>, Span)>,
    open: bool,
    target: Option<(Vec<u8>, Span)>,
    brace: Span,
    nesting: usize,
    body: Vec<Spanned<Token>>,
}

impl View for Collector {
    type V = CollectState;

    closed spec fn view(&self) -> CollectState {
        CollectState {
            rest: views(self.rest@),
            macros: views(self.macros@),
            errors: views(self.errors@),
            pending: named_view(self.pending),
            opened: if self.open {
                Some(
                    Opened {
                        target: named_view(self.target),
                        brace: self.brace,
                        nesting: self.nesting as nat,
                        body: views(self.body@),
                    },
                )
            } else {
                None
            },
        }
    }
}

impl Collector {
    /// Inside a group, every brace that is open stands in the body.
    closed spec fn wf(&self) -> bool {
        self.open ==> self.nesting <= self.body@.len()
    }

    /// The state before the first token.
    fn new() -> (r: Collector)
        ensures
            r@ == collect_start(),
            r.wf(),
    {
        let r = Collector {
            rest: Vec::new(),
            macros: Vec::new(),
            errors: Vec::new(),
            pending: None,
            open: false,
            target: None,
            brace: Span { from: 0, to: 0, line: 0, column: 0 },
            nesting: 0,
            body: Vec::new(),
        };
        assert(r@.rest =~= Seq::empty());
        assert(r@.macros =~= Seq::empty());
        assert(r@.errors =~= Seq::empty());
        r
    }

    /// Adds a macro, or an error where a macro of that name stands
    /// already.
    fn register(&mut self, name: Vec<u8>, span: Span, body: Vec<Spanned<Token>>)
        ensures
            final(self)@ == registered(old(self)@, name@, span, views(body@)),
            final(self).open == old(self).open,
            final(self).nesting == old(self).nesting,
            final(self).body == old(self).body,
    {
        match find(&self.macros, &name) {
            Some(i) => {
                let other_span = self.macros[i].span;
                push_view(
                    &mut self.errors,
                    Error::MacroDefinedMoreThanOnce { name, other_span, span },
                );
            },
            None => {
                push_view(&mut self.macros, MacroDefinition { name, span, body });
            },
        }
    }

    /// Takes a token that stands outside every brace group and not behind
    /// a macro definition.
    fn plain(&mut self, token: &Spanned<Token>)
        requires
            !old(self).open,
        ensures
            final(self)@ == collect_plain(old(self)@, token@),
            final(self).wf(),
    {
        let span = token.span;
        match &token.node {
            Token::MacroDefine(name) => {
                self.pending = Some((clone_bytes(name), span));
            },
            Token::OpeningBrace => {
                push_view(&mut self.errors, Error::OpeningBraceNotAfterMacroDefinition { span });
                self.open = true;
                self.target = None;
                self.brace = span;
                self.nesting = 0;
                self.body = Vec::new();
                assert(views(self.body@) =~= Seq::empty());
            },
            Token::ClosingBrace => {
                push_view(&mut self.errors, Error::NoMatchingOpeningBrace { span });
            },
            _ => {
                push_view(&mut self.rest, clone_token(token));
            },
        }
    }

    /// Takes a token inside the open brace group.
    fn inside(&mut self, token: &Spanned<Token>)
        requires
            old(self).open,
            old(self).wf(),
        ensures
            final(self)@ == collect_inside(old(self)@, old(self)@.opened.unwrap(), token@),
            final(self).wf(),
    {
        match &token.node {
            Token::OpeningBrace => {
                push_view(&mut self.body, clone_token(token));
                let filled = self.body.len();
                assert(self.nesting < filled);
                self.nesting = self.nesting + 1;
            },
            Token::ClosingBrace => {
                if self.nesting == 0 {
                    self.open = false;
                    let mut body: Vec<Spanned<Token>> = Vec::new();
                    std::mem::swap(&mut self.body, &mut body);
                    match self.target.take() {
                        Some((name, span)) => {
                            self.register(name, span, body);
                        },
                        None => {},
                    }
                } else {
                    push_view(&mut self.body, clone_token(token));
                    self.nesting = self.nesting - 1;
                }
            },
            _ => {
                push_view(&mut self.body, clone_token(token));
            },
        }
    }

    /// Takes one more token.
    fn step(&mut self, token: &Spanned<Token>)
        requires
            old(self).wf(),
        ensures
            final(self)@ == collect_step(old(self)@, token@),
            final(self).wf(),
    {
        if self.open {
            self.inside(token);
        } else {
            match self.pending.take() {
                Some((name, span)) => {
                    match &token.node {
                        Token::OpeningBrace => {
                            self.open = true;
                            self.target = Some((name, span));
                            self.brace = token.span;
                            self.nesting = 0;
                            self.body = Vec::new();
                            assert(views(self.body@) =~= Seq::empty());
                        },
                        _ => {
                            let body: Vec<Spanned<Token>> = Vec::new();
                            assert(views(body@) =~= Seq::empty());
                            self.register(name, span, body);
                            self.plain(token);
                        },
                    }
                },
                None => {
                    self.plain(token);
                },
            }
        }
    }

    /// Takes the end of the tokens.
    fn end(&mut self)
        ensures
            final(self)@ == collect_end(old(self)@),
    {
        match self.pending.take() {
            Some((name, span)) => {
                let body: Vec<Spanned<Token>> = Vec::new();
                assert(views(body@) =~= Seq::empty());
                self.register(name, span, body);
            },
            None => {},
        }
        if self.open {
            push_view(&mut self.errors, Error::NoMatchingClosingBrace { span: self.brace });
            self.open = false;
        }
    }
}

/// The index of the innermost invocation of `name` on the stack, if the
/// macro is being expanded.
fn level_of(stack: &Vec<(Vec<u8>, Span)>, name: &Vec<u8>) -> (r: Option<usize>)
    ensures
        match r {
            Some(level) => level < stack.len() && depth_of(chain_view(stack@), name@) == Some(
                level as int,
            ),
            None => depth_of(chain_view(stack@), name@) is None,
        },
{
    let ghost chain = chain_view(stack@);
    let mut k: usize = stack.len();
    assert(chain.subrange(0, k as int) =~= chain);
    while k > 0
        invariant
            k <= stack.len(),
            chain == chain_view(stack@),
            depth_of(chain, name@) == depth_of(chain.subrange(0, k as int), name@),
        decreases k,
    {
        assert(chain.subrange(0, k as int).last() == chain[k - 1]);
        assert(chain.subrange(0, k as int).drop_last() =~= chain.subrange(0, k - 1));
        if bytes_eq(&stack[k - 1].0, name) {
            return Some(k - 1);
        }
        k -= 1;
    }
    None
}

/// The error for an invocation of a macro that is being expanded.
fn recursive(stack: &Vec<(Vec<u8>, Span)>, level: usize, name: &Vec<u8>, span: Span) -> (r: Error)
    requires
        level < stack.len(),
    ensures
        r@ == recursion(chain_view(stack@), level as int, name@, span),
{
    let mut chain: Vec<(Vec<u8>, Span)> = Vec::new();
    chain.push((clone_bytes(name), span));
    let mut k: usize = level + 1;
    assert(chain_view(chain@) =~= seq![(name@, span)] + chain_view(stack@).subrange(
        level + 1,
        k as int,
    ));
    while k < stack.len()
        invariant
            level < k <= stack.len(),
            chain_view(chain@) == seq![(name@, span)] + chain_view(stack@).subrange(
                level + 1,
                k as int,
            ),
        decreases stack.len() - k,
    {
        let ghost before = chain_view(chain@);
        chain.push((clone_bytes(&stack[k].0), stack[k].1));
        assert(chain_view(chain@) =~= before.push((stack@[k as int].0@, stack@[k as int].1)));
        assert(chain_view(chain@) =~= seq![(name@, span)] + chain_view(stack@).subrange(
            level + 1,
            k + 1,
        ));
        k += 1;
    }
    Error::RecursiveMacro { chain, span: stack[level].1 }
}

/// An error of a macro's body as it is reported for an invocation at `span`.
fn wrap(error: &Error, span: Span) -> (r: Error)
    ensures
        r@ == wrapped(error@, span),
{
    match error {
        Error::RecursiveMacro { .. } => error.duplicate(),
        _ => Error::MacroError { original_error: Box::new(error.duplicate()), span },
    }
}

/// The tokens and the errors that `tokens` expand to, while the macros on
/// the stack are being expanded.
fn expand(
    tokens: &Vec<Spanned<Token>>,
    macros: &Vec<MacroDefinition>,
    stack: &Vec<(Vec<u8>, Span)>,
) -> (r: (Vec<Spanned<Token>>, Vec<Error>))
    ensures
        (views(r.0@), views(r.1@)) == expansion(
            views(tokens@),
            tokens.len() as int,
            views(macros@),
            chain_view(stack@),
        ),
    decreases idle(views(macros@), chain_view(stack@), macros.len() as int), tokens.len(),
{
    let ghost toks = views(tokens@);
    let ghost defs = views(macros@);
    let ghost chain = chain_view(stack@);
    let mut out: Vec<Spanned<Token>> = Vec::new();
    let mut errors: Vec<Error> = Vec::new();
    assert(views(out@) =~= Seq::empty());
    assert(views(errors@) =~= Seq::empty());
    let mut i: usize = 0;
    while i < tokens.len()
        invariant
            i <= tokens.len(),
            toks == views(tokens@),
            defs == views(macros@),
            chain == chain_view(stack@),
            (views(out@), views(errors@)) == expansion(toks, i as int, defs, chain),
        decreases tokens.len() - i,
    {
        let token = &tokens[i];
        let span = token.span;
        assert(toks[i as int] == token@);
        match &token.node {
            Token::MacroInvoke(name) => {
                match level_of(stack, name) {
                    Some(level) => {
                        push_view(&mut errors, recursive(stack, level, name, span));
                    },
                    None => {
                        match find(macros, name) {
                            None => {
                                push_view(
                                    &mut errors,
                                    Error::MacroUndefined { name: clone_bytes(name), span },
                                );
                            },
                            Some(at) => {
                                let mut deeper = clone_chain(stack);
                                let ghost below = chain_view(deeper@);
                                deeper.push((clone_bytes(name), span));
                                proof {
                                    assert(chain_view(deeper@) =~= chain.push((name@, span)));
                                    lemma_idle_push(defs, chain, (name@, span), defs.len() as int);
                                    assert(defs[at as int].body == views(macros@[at as int].body@));
                                }
                                let (inner_out, inner_errors) = expand(
                                    &macros[at].body,
                                    macros,
                                    &deeper,
                                );
                                append_view(&mut out, inner_out);
                                let ghost base = views(errors@);
                                let mut k: usize = 0;
                                while k < inner_errors.len()
                                    invariant
                                        k <= inner_errors.len(),
                                        views(errors@) == base + all_wrapped(
                                            views(inner_errors@).subrange(0, k as int),
                                            span,
                                        ),
                                    decreases inner_errors.len() - k,
                                {
                                    let ghost so_far = views(errors@);
                                    push_view(&mut errors, wrap(&inner_errors[k], span));
                                    assert(views(errors@) =~= base + all_wrapped(
                                        views(inner_errors@).subrange(0, k + 1),
                                        span,
                                    ));
                                    k += 1;
                                }
                                assert(views(inner_errors@).subrange(0, inner_errors.len() as int)
                                    =~= views(inner_errors@));
                            },
                        }
                    },
                }
            },
            Token::MacroDefine(name) => {
                let other_span = match find(macros, name) {
                    Some(at) => macros[at].span,
                    None => span,
                };
                push_view(
                    &mut errors,
                    Error::MacroDefinedMoreThanOnce { name: clone_bytes(name), other_span, span },
                );
            },
            Token::OpeningBrace => {
                let follows = i >= 1 && match &tokens[i - 1].node {
                    Token::MacroDefine(_) => true,
                    _ => false,
                };
                if !follows {
                    push_view(
                        &mut errors,
                        Error::OpeningBraceNotAfterMacroDefinition { span },
                    );
                }
            },
            Token::ClosingBrace => {},
            _ => {
                push_view(&mut out, clone_token(token));
            },
        }
        i += 1;
    }
    (out, errors)
}

/// Whether a token invokes the macro `name`.
fn is_invoked(tokens: &Vec<Spanned<Token>>, name: &Vec<u8>) -> (r: bool)
    ensures
        r == invoked(views(tokens@), tokens.len() as int, name@),
{
    let mut i: usize = 0;
    while i < tokens.len()
        invariant
            i <= tokens.len(),
            !invoked(views(tokens@), i as int, name@),
        decreases tokens.len() - i,
    {
        assert(views(tokens@)[i as int] == tokens@[i as int]@);
        let found = match &tokens[i].node {
            Token::MacroInvoke(invoked_name) => bytes_eq(invoked_name, name),
            _ => false,
        };
        if found {
            proof {
                lemma_invoked_stays(views(tokens@), i + 1, tokens.len() as int, name@);
            }
            return true;
        }
        i += 1;
    }
    false
}

/// A macro that one of the first `n` tokens invokes is invoked by one of
/// any more.
pub proof fn lemma_invoked_stays(tokens: Seq<Spanned<TokenView>>, n: int, more: int, name: Seq<u8>)
    requires
        n <= more,
        invoked(tokens, n, name),
    ensures
        invoked(tokens, more, name),
    decreases more - n,
{
    if n < more {
        lemma_invoked_stays(tokens, n, more - 1, name);
    }
}

/// Takes the macro definitions out of the tokens and puts the body of each
/// macro in the place of each of its invocations, invocations inside bodies
/// included. A macro may be invoked before it is defined. Gives the tokens
/// that are left where nothing is wrong, else the errors; either way a
/// warning for each macro that nothing invokes.
pub fn expand_macros(tokens: Vec<Spanned<Token>>) -> (r: Expanded)
    ensures
        expanded_view(r) == expanded(views(tokens@)),
{
    let ghost toks = views(tokens@);
    let mut collector = Collector::new();
    let mut i: usize = 0;
    while i < tokens.len()
        invariant
            i <= tokens.len(),
            toks == views(tokens@),
            collector.wf(),
            collector@ == collect_state(toks, i as int),
        decreases tokens.len() - i,
    {
        assert(toks[i as int] == tokens@[i as int]@);
        collector.step(&tokens[i]);
        i += 1;
    }
    collector.end();
    let ghost st = collector@;
    let Collector { rest, macros, mut errors, pending, open, target, brace, nesting, body } =
        collector;
    let stack: Vec<(Vec<u8>, Span)> = Vec::new();
    assert(chain_view(stack@) =~= Seq::empty());
    let (out, expansion_errors) = expand(&rest, &macros, &stack);
    append_view(&mut errors, expansion_errors);
    let mut warnings: Vec<Warning> = Vec::new();
    assert(views(warnings@) =~= Seq::empty());
    let mut m: usize = 0;
    while m < macros.len()
        invariant
            m <= macros.len(),
            toks == views(tokens@),
            views(warnings@) == unused_macros(toks, views(macros@), m as int),
        decreases macros.len() - m,
    {
        assert(views(macros@)[m as int] == macros@[m as int]@);
        if !is_invoked(&tokens, &macros[m].name) {
            push_view(
                &mut warnings,
                Warning::MacroUnused { name: clone_bytes(&macros[m].name), span: macros[m].span },
            );
        }
        m += 1;
    }
    if errors.len() == 0 {
        Ok((out, warnings))
    } else {
        Err((errors, warnings))
    }
}

} // verus!
