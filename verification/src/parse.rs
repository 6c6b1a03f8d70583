pub mod scan;
pub mod typescript;

use vstd::prelude::*;
use crate::ast::base::AST;
use crate::languages::Language;

verus! {

/// Why a unit of source text was not turned into declaration nodes.
#[derive(Debug, PartialEq, Eq, Structural)]
pub enum ParseError {
    /// The selected syntax has no recognizer.
    UnsupportedLanguage,
    /// No rule matched at this character position.
    UnrecognizedInput { position: usize },
}

pub type ParseResult = Result<AST, ParseError>;

/// Recognize one complete unit of source text in the selected syntax.
///
/// For `Language::Typescript` the result is exactly what the recognizer
/// rules produce, scanning left to right with whitespace between nodes
/// skipped; any other selector is refused as unsupported.
pub fn parse(lang: Language, content: &str) -> (r: ParseResult)
    ensures
        lang == Language::Typescript ==> match typescript::parse_all(content@, 0) {
            Ok(nodes) => r matches Ok(ast) && ast@ == nodes,
            Err(p) => r == Err::<AST, ParseError>(
                ParseError::UnrecognizedInput { position: p as usize },
            ),
        },
        lang != Language::Typescript ==> r == Err::<AST, ParseError>(
            ParseError::UnsupportedLanguage,
        ),
{
    match lang {
        Language::Typescript => typescript::parse(content),
        _ => Err(ParseError::UnsupportedLanguage),
    }
}

} // verus!
