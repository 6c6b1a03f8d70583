use vstd::prelude::*;
use vstd::string::*;
use crate::ast::import::{
    ImportDeclaration, ImportDeclarationView, render_declaration,
};

verus! {

/// Marker for the node kinds of the declaration model.
pub trait AstNode {}

/// One unit of the declaration model: a comment, an import declaration, or
/// verbatim text that no recognizer rule matched.
#[derive(Debug, PartialEq)]
pub enum Expression {
    Comment(String),
    ImportDeclaration(ImportDeclaration),
    UnknownExpression(String),
}

/// Mathematical model of an `Expression`.
pub enum ExpressionView {
    Comment(Seq<char>),
    ImportDeclaration(ImportDeclarationView),
    UnknownExpression(Seq<char>),
}

impl View for Expression {
    type V = ExpressionView;

    open spec fn view(&self) -> ExpressionView {
        match self {
            Expression::Comment(c) => ExpressionView::Comment(c@),
            Expression::ImportDeclaration(d) => ExpressionView::ImportDeclaration(d@),
            Expression::UnknownExpression(u) => ExpressionView::UnknownExpression(u@),
        }
    }
}

impl DeepView for Expression {
    type V = ExpressionView;

    open spec fn deep_view(&self) -> ExpressionView {
        self.view()
    }
}

/// Diagnostic text of one expression. An import declaration renders through
/// `render_declaration`; the other variants name their kind and quote their
/// text.
pub open spec fn render_expression(e: ExpressionView) -> Seq<char> {
    match e {
        ExpressionView::Comment(c) => "Comment(\""@ + c + "\")"@,
        ExpressionView::ImportDeclaration(d) => render_declaration(d),
        ExpressionView::UnknownExpression(u) => "UnknownExpression(\""@ + u + "\")"@,
    }
}

impl Expression {
    /// Diagnostic rendering of one expression, for messages and tests.
    pub fn render(&self) -> (r: String)
        ensures
            r@ == render_expression(self@),
    {
        match self {
            Expression::Comment(c) => {
                let mut s = String::new();
                s.append("Comment(\"");
                s.append(c.as_str());
                s.append("\")");
                proof {
                    assert(s@ =~= render_expression(self@));
                }
                s
            },
            Expression::ImportDeclaration(d) => d.render(),
            Expression::UnknownExpression(u) => {
                let mut s = String::new();
                s.append("UnknownExpression(\"");
                s.append(u.as_str());
                s.append("\")");
                proof {
                    assert(s@ =~= render_expression(self@));
                }
                s
            },
        }
    }
}

/// A parsed unit of source text: the declaration nodes in the order they
/// appeared, or are to appear, in the text.
#[derive(Debug)]
pub struct AST {
    pub expressions: Vec<Box<Expression>>,
}

impl View for AST {
    type V = Seq<ExpressionView>;

    open spec fn view(&self) -> Seq<ExpressionView> {
        self.expressions.deep_view()
    }
}

} // verus!
