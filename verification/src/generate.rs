pub mod typescript;

use vstd::prelude::*;
use vstd::string::*;
use crate::ast::base::{AST, Expression, ExpressionView, render_expression};
use crate::languages::Language;

verus! {

/// Why one node was not rendered: the target syntax has no rule for it.
#[derive(Debug)]
pub enum ExpressionGenerateError {
    UnknownExpression(Expression),
}

impl View for ExpressionGenerateError {
    type V = ExpressionView;

    open spec fn view(&self) -> ExpressionView {
        match self {
            ExpressionGenerateError::UnknownExpression(e) => e@,
        }
    }
}

impl DeepView for ExpressionGenerateError {
    type V = ExpressionView;

    open spec fn deep_view(&self) -> ExpressionView {
        self.view()
    }
}

/// Why a whole generation call failed: no emitter for the selected syntax,
/// or the nodes the emitter could not render, all of them.
#[derive(Debug)]
pub enum GenerateError {
    UnsupportedLanguage,
    CouldNotGenerateCodeForExpressions(Vec<ExpressionGenerateError>),
}

/// Mathematical model of a `GenerateError`: the offending nodes themselves.
pub enum GenerateErrorView {
    UnsupportedLanguage,
    CouldNotGenerateCodeForExpressions(Seq<ExpressionView>),
}

impl View for GenerateError {
    type V = GenerateErrorView;

    open spec fn view(&self) -> GenerateErrorView {
        match self {
            GenerateError::UnsupportedLanguage => GenerateErrorView::UnsupportedLanguage,
            GenerateError::CouldNotGenerateCodeForExpressions(v) =>
                GenerateErrorView::CouldNotGenerateCodeForExpressions(v.deep_view()),
        }
    }
}

pub type GenerateResult = Result<String, GenerateError>;

// ------------------------------------------------------------------
// Joining rendered pieces
// ------------------------------------------------------------------

/// `texts` concatenated with `sep` between consecutive entries.
pub open spec fn join(texts: Seq<Seq<char>>, sep: Seq<char>) -> Seq<char>
    decreases texts.len(),
{
    if texts.len() == 0 {
        Seq::empty()
    } else if texts.len() == 1 {
        texts[0]
    } else {
        join(texts.drop_last(), sep) + sep + texts.last()
    }
}

/// Appending one entry extends the joined text by a separator and the entry.
pub proof fn lemma_join_push(texts: Seq<Seq<char>>, piece: Seq<char>, sep: Seq<char>)
    ensures
        texts.len() == 0 ==> join(texts.push(piece), sep) == piece,
        texts.len() > 0 ==> join(texts.push(piece), sep) == join(texts, sep) + sep + piece,
{
    let l = texts.push(piece);
    assert(l.drop_last() =~= texts);
    assert(l.last() == piece);
}

/// Joining two non-empty lists joins their joins.
pub proof fn lemma_join_concat(a: Seq<Seq<char>>, b: Seq<Seq<char>>, sep: Seq<char>)
    requires
        a.len() > 0,
        b.len() > 0,
    ensures
        join(a + b, sep) == join(a, sep) + sep + join(b, sep),
    decreases b.len(),
{
    if b.len() == 1 {
        assert((a + b).drop_last() =~= a);
        assert((a + b).last() == b[0]);
    } else {
        assert((a + b).drop_last() =~= a + b.drop_last());
        lemma_join_concat(a, b.drop_last(), sep);
        assert(join(a, sep) + sep + join(b.drop_last(), sep) + sep + b.last() =~= join(a, sep)
            + sep + (join(b.drop_last(), sep) + sep + b.last()));
    }
}

// ------------------------------------------------------------------
// Error messages
// ------------------------------------------------------------------

/// The message of one per-node failure.
pub open spec fn expression_error_text(e: ExpressionView) -> Seq<char> {
    "Unknown expression: "@ + render_expression(e)
}

/// The messages of a failure sequence, in order.
pub open spec fn error_texts(nodes: Seq<ExpressionView>) -> Seq<Seq<char>>
    decreases nodes.len(),
{
    if nodes.len() == 0 {
        Seq::empty()
    } else {
        error_texts(nodes.drop_last()).push(expression_error_text(nodes.last()))
    }
}

/// The message of a whole generation failure.
pub open spec fn generate_error_text(g: GenerateErrorView) -> Seq<char> {
    match g {
        GenerateErrorView::UnsupportedLanguage => "Unsupported language"@,
        GenerateErrorView::CouldNotGenerateCodeForExpressions(nodes) =>
            "Could not generate code for expressions: "@ + join(error_texts(nodes), ", "@),
    }
}

impl ExpressionGenerateError {
    /// The failure as readable text.
    pub fn message(&self) -> (r: String)
        ensures
            r@ == expression_error_text(self@),
    {
        match self {
            ExpressionGenerateError::UnknownExpression(e) => {
                let mut s = String::new();
                s.append("Unknown expression: ");
                let rendered = e.render();
                s.append(rendered.as_str());
                proof {
                    assert(s@ =~= expression_error_text(self@));
                }
                s
            },
        }
    }
}

impl GenerateError {
    /// The failure as readable text, naming every node that was not
    /// rendered.
    pub fn message(&self) -> (r: String)
        ensures
            r@ == generate_error_text(self@),
    {
        match self {
            GenerateError::UnsupportedLanguage => {
                let s = String::from_str("Unsupported language");
                s
            },
            GenerateError::CouldNotGenerateCodeForExpressions(errors) => {
                let ghost nodes = errors.deep_view();
                let mut s = String::new();
                s.append("Could not generate code for expressions: ");
                let ghost head = s@;
                let mut i: usize = 0;
                while i < errors.len()
                    invariant
                        i <= errors.len(),
                        nodes == errors.deep_view(),
                        nodes.len() == errors.len(),
                        s@ == head + join(error_texts(nodes.take(i as int)), ", "@),
                    decreases errors.len() - i,
                {
                    proof {
                        assert(nodes.take(i + 1).drop_last() =~= nodes.take(i as int));
                        assert(nodes.take(i + 1).last() == errors[i as int].deep_view());
                        lemma_join_push(
                            error_texts(nodes.take(i as int)),
                            expression_error_text(nodes[i as int]),
                            ", "@,
                        );
                        if i == 0 {
                            assert(error_texts(nodes.take(0)).len() == 0);
                        }
                    }
                    if i > 0 {
                        s.append(", ");
                    }
                    let piece = errors[i].message();
                    s.append(piece.as_str());
                    proof {
                        if i > 0 {
                            assert(error_texts(nodes.take(i as int)).len() > 0);
                        }
                        assert(s@ =~= head + join(error_texts(nodes.take(i + 1)), ", "@));
                    }
                    i = i + 1;
                }
                proof {
                    assert(nodes.take(nodes.len() as int) =~= nodes);
                    assert(s@ =~= generate_error_text(self@));
                }
                s
            },
        }
    }
}

// ------------------------------------------------------------------
// The emitter entry point
// ------------------------------------------------------------------

/// Emit one unit of text for `ast` in the selected syntax.
///
/// For `Language::Typescript` the result is exactly what the emitter rules
/// produce; any other selector is refused as unsupported.
pub fn generate(lang: Language, ast: AST) -> (r: GenerateResult)
    ensures
        lang == Language::Typescript ==> match typescript::generate_all(ast@) {
            Ok(text) => r matches Ok(s) && s@ == text,
            Err(nodes) => r matches Err(e) && e@
                == GenerateErrorView::CouldNotGenerateCodeForExpressions(nodes),
        },
        lang != Language::Typescript ==> (r matches Err(e) && e@
            == GenerateErrorView::UnsupportedLanguage),
{
    match lang {
        Language::Typescript => typescript::generate(ast),
        _ => Err(GenerateError::UnsupportedLanguage),
    }
}

} // verus!
