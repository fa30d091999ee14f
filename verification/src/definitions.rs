//! The table of the labels of a program.

use crate::span::Span;
use crate::token::{ScopedIdentifier, ScopedIdentifierView};
use vstd::prelude::*;

verus! {

/// Where a label or sublabel stands: its address, and the span of the token
/// that defined it.
#[derive(Debug, PartialEq, Eq)]
pub struct LabelDefinition {
    pub identifier: ScopedIdentifier,
    pub address: u16,
    pub span: Span,
}

/// An entry of the table as plain values.
pub struct LabelDefinitionView {
    pub identifier: ScopedIdentifierView,
    pub address: u16,
    pub span: Span,
}

impl View for LabelDefinition {
    type V = LabelDefinitionView;

    open spec fn view(&self) -> LabelDefinitionView {
        LabelDefinitionView {
            identifier: self.identifier@,
            address: self.address,
            span: self.span,
        }
    }
}

/// Whether some entry of `labels` is for `key`.
pub open spec fn defines(labels: Seq<LabelDefinitionView>, key: ScopedIdentifierView) -> bool {
    exists|i: int| 0 <= i < labels.len() && (#[trigger] labels[i]).identifier == key
}

/// The index of an entry of `labels` for `key`; the only one where no
/// identifier is defined twice.
pub open spec fn index_of(labels: Seq<LabelDefinitionView>, key: ScopedIdentifierView) -> int {
    choose|i: int| 0 <= i < labels.len() && (#[trigger] labels[i]).identifier == key
}

/// The entry for `key`, if there is one.
pub open spec fn lookup(labels: Seq<LabelDefinitionView>, key: ScopedIdentifierView) -> Option<
    LabelDefinitionView,
> {
    if defines(labels, key) {
        Some(labels[index_of(labels, key)])
    } else {
        None
    }
}

/// No identifier is defined twice.
pub open spec fn unique(labels: Seq<LabelDefinitionView>) -> bool {
    forall|i: int, j: int|
        0 <= i < j < labels.len() ==> (#[trigger] labels[i]).identifier != (
        #[trigger] labels[j]).identifier
}

/// Where no identifier is defined twice, the entry at `i` is the one that a
/// lookup of its identifier finds.
pub proof fn lemma_lookup_at(labels: Seq<LabelDefinitionView>, i: int)
    requires
        unique(labels),
        0 <= i < labels.len(),
    ensures
        defines(labels, labels[i].identifier),
        index_of(labels, labels[i].identifier) == i,
        lookup(labels, labels[i].identifier) == Some(labels[i]),
{
    let key = labels[i].identifier;
    let c = index_of(labels, key);
    assert(labels[c].identifier == key);
    if c < i {
        assert(labels[c].identifier != labels[i].identifier);
    } else if i < c {
        assert(labels[i].identifier != labels[c].identifier);
    }
}

/// The labels of a program, in the order of their definitions.
#[derive(Debug, PartialEq, Eq)]
pub struct Definitions {
    pub labels: Vec<LabelDefinition>,
}

impl View for Definitions {
    type V = Seq<LabelDefinitionView>;

    open spec fn view(&self) -> Seq<LabelDefinitionView> {
        Seq::new(self.labels@.len(), |i: int| self.labels@[i]@)
    }
}

impl Definitions {
    /// No identifier is defined twice.
    pub open spec fn wf(&self) -> bool {
        unique(self@)
    }

    /// A table without labels.
    pub fn new() -> (r: Definitions)
        ensures
            r@ == Seq::<LabelDefinitionView>::empty(),
            r.wf(),
    {
        let r = Definitions { labels: Vec::new() };
        assert(r@ =~= Seq::<LabelDefinitionView>::empty());
        r
    }

    /// The index of the first entry for `identifier`, if there is one. In a
    /// table without an identifier defined twice it is the only one, and
    /// the one that `lookup` speaks of.
    pub fn position(&self, identifier: &ScopedIdentifier) -> (r: Option<usize>)
        ensures
            match r {
                Some(i) => {
                    &&& i < self@.len()
                    &&& self@[i as int].identifier == identifier@
                    &&& forall|j: int|
                        0 <= j < i ==> (#[trigger] self@[j]).identifier != identifier@
                    &&& self.wf() ==> i == index_of(self@, identifier@)
                },
                None => !defines(self@, identifier@),
            },
            r is Some <==> defines(self@, identifier@),
    {
        let mut i: usize = 0;
        while i < self.labels.len()
            invariant
                i <= self.labels.len(),
                forall|j: int| 0 <= j < i ==> (#[trigger] self@[j]).identifier != identifier@,
            decreases self.labels.len() - i,
        {
            if self.labels[i].identifier.same(identifier) {
                assert(self@[i as int].identifier == identifier@);
                proof {
                    if self.wf() {
                        lemma_lookup_at(self@, i as int);
                    }
                }
                return Some(i);
            }
            i += 1;
        }
        None
    }

    /// Adds a label at the end, unless its identifier is defined already:
    /// then the table stays as it is, and the span of the definition that
    /// stands comes back.
    pub fn insert(&mut self, identifier: ScopedIdentifier, address: u16, span: Span) -> (r: Result<
        (),
        Span,
    >)
        requires
            old(self).wf(),
        ensures
            final(self).wf(),
            match lookup(old(self)@, identifier@) {
                Some(d) => r == Err::<(), Span>(d.span) && final(self)@ == old(self)@,
                None => r is Ok && final(self)@ == old(self)@.push(
                    LabelDefinitionView { identifier: identifier@, address, span },
                ),
            },
    {
        match self.position(&identifier) {
            Some(i) => Err(self.labels[i].span),
            None => {
                let ghost before = self@;
                self.labels.push(LabelDefinition { identifier, address, span });
                assert(self@ =~= before.push(
                    LabelDefinitionView { identifier: identifier@, address, span },
                ));
                Ok(())
            },
        }
    }
}

} // verus!
