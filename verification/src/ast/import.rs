use vstd::prelude::*;
use vstd::string::*;
use crate::ast::base::AstNode;

verus! {

/// One binding within an import declaration: the whole module under a name,
/// the module's default export under a name, or one named export bound to a
/// local name.
#[derive(Debug, PartialEq, Eq)]
pub enum ImportSpecifier {
    Namespace(String),
    Default(String),
    Item { imported: String, local: String },
}

/// Mathematical model of an `ImportSpecifier`: each name as a `Seq<char>`.
pub enum ImportSpecifierView {
    Namespace(Seq<char>),
    Default(Seq<char>),
    Item { imported: Seq<char>, local: Seq<char> },
}

impl View for ImportSpecifier {
    type V = ImportSpecifierView;

    open spec fn view(&self) -> ImportSpecifierView {
        match self {
            ImportSpecifier::Namespace(n) => ImportSpecifierView::Namespace(n@),
            ImportSpecifier::Default(n) => ImportSpecifierView::Default(n@),
            ImportSpecifier::Item { imported, local } => ImportSpecifierView::Item {
                imported: imported@,
                local: local@,
            },
        }
    }
}

impl DeepView for ImportSpecifier {
    type V = ImportSpecifierView;

    open spec fn deep_view(&self) -> ImportSpecifierView {
        self.view()
    }
}

/// One import declaration: the module-path string as written, and the
/// ordered sequence of specifiers it binds.
#[derive(Debug, PartialEq, Eq)]
pub struct ImportDeclaration {
    pub source: String,
    pub specifiers: Vec<ImportSpecifier>,
}

/// Mathematical model of an `ImportDeclaration`.
pub struct ImportDeclarationView {
    pub source: Seq<char>,
    pub specifiers: Seq<ImportSpecifierView>,
}

impl AstNode for ImportDeclaration {

}

impl View for ImportDeclaration {
    type V = ImportDeclarationView;

    open spec fn view(&self) -> ImportDeclarationView {
        ImportDeclarationView { source: self.source@, specifiers: self.specifiers.deep_view() }
    }
}

impl DeepView for ImportDeclaration {
    type V = ImportDeclarationView;

    open spec fn deep_view(&self) -> ImportDeclarationView {
        self.view()
    }
}

/// Diagnostic text of one specifier.
pub open spec fn render_specifier(s: ImportSpecifierView) -> Seq<char> {
    match s {
        ImportSpecifierView::Namespace(n) => "Namespace(\""@ + n + "\")"@,
        ImportSpecifierView::Default(n) => "Default(\""@ + n + "\")"@,
        ImportSpecifierView::Item { imported, local } => "Item { imported: \""@ + imported
            + "\", local: \""@ + local + "\" }"@,
    }
}

/// Diagnostic text of a specifier sequence: `", "` before each entry.
pub open spec fn render_specifier_list(specs: Seq<ImportSpecifierView>) -> Seq<char>
    decreases specs.len(),
{
    if specs.len() == 0 {
        Seq::empty()
    } else {
        render_specifier_list(specs.drop_last()) + ", "@ + render_specifier(specs.last())
    }
}

/// Diagnostic text of a whole declaration.
pub open spec fn render_declaration(d: ImportDeclarationView) -> Seq<char> {
    "import(source: "@ + d.source + ", specifiers: "@ + render_specifier_list(d.specifiers)
        + ")"@
}

impl ImportSpecifier {
    /// Diagnostic rendering of one specifier, for messages and tests.
    pub fn render(&self) -> (r: String)
        ensures
            r@ == render_specifier(self@),
    {
        let mut s = String::new();
        match self {
            ImportSpecifier::Namespace(n) => {
                s.append("Namespace(\"");
                s.append(n.as_str());
                s.append("\")");
            },
            ImportSpecifier::Default(n) => {
                s.append("Default(\"");
                s.append(n.as_str());
                s.append("\")");
            },
            ImportSpecifier::Item { imported, local } => {
                s.append("Item { imported: \"");
                s.append(imported.as_str());
                s.append("\", local: \"");
                s.append(local.as_str());
                s.append("\" }");
            },
        }
        proof {
            assert(s@ =~= render_specifier(self@));
        }
        s
    }
}

impl ImportDeclaration {
    /// Diagnostic rendering of a declaration, for messages and tests.
    pub fn render(&self) -> (r: String)
        ensures
            r@ == render_declaration(self@),
    {
        let mut s = String::new();
        s.append("import(source: ");
        s.append(self.source.as_str());
        s.append(", specifiers: ");
        let ghost specs = self@.specifiers;
        let ghost head = s@;
        let mut i: usize = 0;
        while i < self.specifiers.len()
            invariant
                i <= self.specifiers.len(),
                specs == self.specifiers.deep_view(),
                specs.len() == self.specifiers.len(),
                s@ == head + render_specifier_list(specs.take(i as int)),
            decreases self.specifiers.len() - i,
        {
            proof {
                assert(specs.take(i + 1).drop_last() =~= specs.take(i as int));
                assert(specs.take(i + 1).last() == self.specifiers[i as int].deep_view());
            }
            s.append(", ");
            let piece = self.specifiers[i].render();
            s.append(piece.as_str());
            i = i + 1;
        }
        proof {
            assert(specs.take(specs.len() as int) =~= specs);
        }
        s.append(")");
        proof {
            assert(s@ =~= render_declaration(self@));
        }
        s
    }
}

} // verus!
