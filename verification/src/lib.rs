//! An assembler for the Uxn virtual machine: source text in, the bytes of
//! the program and the diagnostics out.
//!
//! A program passes four stages. The scanner splits the source into lexemes
//! and reads each as a token. The macro processor takes the definitions of
//! macros out and expands the invocations. The walker gives every label its
//! address. The emitter writes the bytes, from address `0x0100` on. A stage
//! that finds errors ends the run; warnings are kept to the end.
//!
//! Every type that holds byte strings has a view that holds them as
//! sequences, and the contract of every function is stated over the views:
//! `assemble` gives what `assembled` says, `scan` what `scanned` says, and
//! so on. What holds of all programs is proved beside the stage it is
//! about, in proof functions whose names begin with `lemma_`.

use vstd::prelude::*;

pub mod bytes;
pub mod definitions;
pub mod diagnostic;
pub mod emitter;
pub mod error;
pub mod lexeme;
pub mod macros;
pub mod scanner;
pub mod span;
pub mod token;
pub mod views;
pub mod walker;

pub use crate::error::{Error, Warning};
pub use crate::span::{Span, Spanned};

use crate::emitter::{
    emit, emitted, lemma_output_within_image, outcome_view, Outcome, OutcomeView, IMAGE_SIZE,
};
use crate::macros::{expand_macros, expanded};
use crate::scanner::{scan, scanned};
use crate::views::append_view;
use crate::walker::{lemma_walked_fits, walk, walked};

verus! {

/// What assembling gives. The stages run in order: the scanner, the macro
/// processor, the walker, the emitter. The first stage that finds errors
/// ends the run with them; the warnings of the stages that ran come along
/// in the order of the stages.
pub open spec fn assembled(source: Seq<u8>) -> OutcomeView {
    match scanned(source) {
        Err((errors, warnings)) => Err((errors, warnings)),
        Ok((tokens, scan_warnings)) => match expanded(tokens) {
            Err((errors, warnings)) => Err((errors, scan_warnings + warnings)),
            Ok((tokens, macro_warnings)) => match walked(tokens) {
                Err(errors) => Err((errors, scan_warnings + macro_warnings)),
                Ok((statements, labels)) => match emitted(statements, labels) {
                    Err((errors, warnings)) => Err(
                        (errors, scan_warnings + macro_warnings + warnings),
                    ),
                    Ok((bytes, warnings)) => Ok(
                        (bytes, scan_warnings + macro_warnings + warnings),
                    ),
                },
            },
        },
    }
}

/// A program is no longer than the image, whatever the source: it has at
/// most as many bytes as there are addresses from `0x0100` up, and its
/// first byte is the one at `0x0100`.
pub proof fn lemma_assembled_within_image(source: Seq<u8>)
    ensures
        assembled(source) matches Ok((bytes, _)) ==> bytes.len() <= IMAGE_SIZE,
{
    if let Ok((tokens, _)) = scanned(source) {
        if let Ok((tokens, _)) = expanded(tokens) {
            lemma_walked_fits(tokens);
            if let Ok((statements, labels)) = walked(tokens) {
                lemma_output_within_image(statements, labels);
            }
        }
    }
}

/// Assembling is a function of the source: two runs on one source give the
/// same bytes, the same errors and the same warnings, in the same order.
pub proof fn lemma_assemble_is_deterministic(source: Seq<u8>, first: Outcome, second: Outcome)
    requires
        outcome_view(first) == assembled(source),
        outcome_view(second) == assembled(source),
    ensures
        outcome_view(first) == outcome_view(second),
{
}

/// Assembles a program: gives the bytes of the image from address `0x0100`
/// up to the last byte written, or the errors; either way the warnings.
pub fn assemble(source: &[u8]) -> (r: Outcome)
    ensures
        outcome_view(r) == assembled(source@),
        r matches Ok((bytes, _)) ==> bytes@.len() <= IMAGE_SIZE,
{
    let (tokens, mut warnings) = match scan(source) {
        Ok(scanned) => scanned,
        Err(failed) => {
            return Err(failed);
        },
    };
    let tokens = match expand_macros(tokens) {
        Ok((tokens, macro_warnings)) => {
            append_view(&mut warnings, macro_warnings);
            tokens
        },
        Err((errors, macro_warnings)) => {
            append_view(&mut warnings, macro_warnings);
            return Err((errors, warnings));
        },
    };
    let (statements, definitions) = match walk(tokens) {
        Ok(walked) => walked,
        Err(errors) => {
            return Err((errors, warnings));
        },
    };
    match emit(statements, definitions) {
        Ok((bytes, emit_warnings)) => {
            append_view(&mut warnings, emit_warnings);
            Ok((bytes, warnings))
        },
        Err((errors, emit_warnings)) => {
            append_view(&mut warnings, emit_warnings);
            Err((errors, warnings))
        },
    }
}

} // verus!
