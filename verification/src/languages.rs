use vstd::prelude::*;

verus! {

/// The syntaxes a recognizer/emitter pair can be asked for. Any selector
/// other than `Typescript` is answered with an "unsupported language"
/// failure by both the recognizer and the emitter.
#[derive(Debug, Clone, Copy, PartialEq, Eq, Structural)]
pub enum Language {
    Typescript,
    Rust,
}

} // verus!
