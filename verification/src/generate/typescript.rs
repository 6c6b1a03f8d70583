use vstd::prelude::*;
use vstd::string::*;
use crate::ast::base::{AST, Expression, ExpressionView};
use crate::ast::import::{ImportDeclaration, ImportDeclarationView, ImportSpecifier,
    ImportSpecifierView};
use crate::generate::{
    ExpressionGenerateError, GenerateError, GenerateResult, join, lemma_join_concat,
    lemma_join_push,
};

verus! {

// ------------------------------------------------------------------
// Per-node emission, as spec functions
// ------------------------------------------------------------------

/// One rendered named item: `imported` alone when it is bound under its own
/// name, else `imported as local`.
pub open spec fn render_item(imported: Seq<char>, local: Seq<char>) -> Seq<char> {
    if imported == local {
        imported
    } else {
        imported + " as "@ + local
    }
}

/// The rendered `Item` specifiers, in their own order.
pub open spec fn item_texts(specs: Seq<ImportSpecifierView>) -> Seq<Seq<char>>
    decreases specs.len(),
{
    if specs.len() == 0 {
        Seq::empty()
    } else {
        item_texts(specs.drop_last()) + (match specs.last() {
            ImportSpecifierView::Item { imported, local } => seq![render_item(imported, local)],
            _ => Seq::empty(),
        })
    }
}

/// The rendered `Namespace` specifiers, in their own order.
pub open spec fn namespace_texts(specs: Seq<ImportSpecifierView>) -> Seq<Seq<char>>
    decreases specs.len(),
{
    if specs.len() == 0 {
        Seq::empty()
    } else {
        namespace_texts(specs.drop_last()) + (match specs.last() {
            ImportSpecifierView::Namespace(n) => seq!["* as "@ + n],
            _ => Seq::empty(),
        })
    }
}

/// The rendered `Default` specifiers, in their own order.
pub open spec fn default_texts(specs: Seq<ImportSpecifierView>) -> Seq<Seq<char>>
    decreases specs.len(),
{
    if specs.len() == 0 {
        Seq::empty()
    } else {
        default_texts(specs.drop_last()) + (match specs.last() {
            ImportSpecifierView::Default(n) => seq![n],
            _ => Seq::empty(),
        })
    }
}

/// The emitted text of one import declaration: the named items in braces
/// first, then the namespace specifiers, then the default specifiers, and
/// the double-quoted source last.
pub open spec fn declaration_code(d: ImportDeclarationView) -> Seq<char> {
    let items = join(item_texts(d.specifiers), ", "@);
    let others = join(namespace_texts(d.specifiers) + default_texts(d.specifiers), ", "@);
    if items.len() > 0 && others.len() > 0 {
        "import { "@ + items + " }, "@ + others + " from \""@ + d.source + "\""@
    } else if items.len() > 0 {
        "import { "@ + items + " } from \""@ + d.source + "\""@
    } else {
        "import "@ + others + " from \""@ + d.source + "\""@
    }
}

/// What one node emits: `// ` before a comment's text, an import declaration
/// as `declaration_code` gives it, and an unknown node's text verbatim —
/// unmatched content is passed through, not dropped. `None` is reserved for
/// a node kind with no rendering rule in this syntax; every kind of the
/// current model has one.
pub open spec fn expression_code(e: ExpressionView) -> Option<Seq<char>> {
    match e {
        ExpressionView::Comment(c) => Some("// "@ + c),
        ExpressionView::ImportDeclaration(d) => Some(declaration_code(d)),
        ExpressionView::UnknownExpression(u) => Some(u),
    }
}

/// The nodes this emitter cannot render, in order.
pub open spec fn failing_nodes(es: Seq<ExpressionView>) -> Seq<ExpressionView>
    decreases es.len(),
{
    if es.len() == 0 {
        Seq::empty()
    } else {
        failing_nodes(es.drop_last()) + (if expression_code(es.last()) is None {
            seq![es.last()]
        } else {
            Seq::empty()
        })
    }
}

/// The emitted codes of the nodes this emitter can render, in order.
pub open spec fn rendered_codes(es: Seq<ExpressionView>) -> Seq<Seq<char>>
    decreases es.len(),
{
    if es.len() == 0 {
        Seq::empty()
    } else {
        rendered_codes(es.drop_last()) + (match expression_code(es.last()) {
            Some(t) => seq![t],
            None => Seq::empty(),
        })
    }
}

/// What a whole node sequence emits: every failing node together, or — when
/// every node renders — the per-node codes joined with one line break.
pub open spec fn generate_all(es: Seq<ExpressionView>) -> Result<Seq<char>, Seq<ExpressionView>> {
    if failing_nodes(es).len() > 0 {
        Err(failing_nodes(es))
    } else {
        Ok(join(rendered_codes(es), "\n"@))
    }
}

// ------------------------------------------------------------------
// The emitter, executable
// ------------------------------------------------------------------

/// Emit the text of one import declaration.
fn declaration_to_code(d: ImportDeclaration) -> (r: String)
    ensures
        r@ == declaration_code(d@),
{
    let ghost specsv = d@.specifiers;
    let mut items = String::new();
    let mut namespaces = String::new();
    let mut defaults = String::new();
    let mut has_item = false;
    let mut has_ns = false;
    let mut has_df = false;
    let mut i: usize = 0;
    while i < d.specifiers.len()
        invariant
            i <= d.specifiers.len(),
            specsv == d.specifiers.deep_view(),
            specsv.len() == d.specifiers.len(),
            items@ == join(item_texts(specsv.take(i as int)), ", "@),
            namespaces@ == join(namespace_texts(specsv.take(i as int)), ", "@),
            defaults@ == join(default_texts(specsv.take(i as int)), ", "@),
            has_item == (item_texts(specsv.take(i as int)).len() > 0),
            has_ns == (namespace_texts(specsv.take(i as int)).len() > 0),
            has_df == (default_texts(specsv.take(i as int)).len() > 0),
        decreases d.specifiers.len() - i,
    {
        proof {
            assert(specsv.take(i + 1).drop_last() =~= specsv.take(i as int));
            assert(specsv.take(i + 1).last() == d.specifiers[i as int].deep_view());
        }
        match &d.specifiers[i] {
            ImportSpecifier::Item { imported, local } => {
                proof {
                    assert(item_texts(specsv.take(i + 1)) =~= item_texts(
                        specsv.take(i as int),
                    ).push(render_item(imported@, local@)));
                    lemma_join_push(
                        item_texts(specsv.take(i as int)),
                        render_item(imported@, local@),
                        ", "@,
                    );
                    assert(namespace_texts(specsv.take(i + 1)) =~= namespace_texts(
                        specsv.take(i as int),
                    ));
                    assert(default_texts(specsv.take(i + 1)) =~= default_texts(
                        specsv.take(i as int),
                    ));
                }
                if has_item {
                    items.append(", ");
                }
                let same = imported.eq(local);
                items.append(imported.as_str());
                if !same {
                    items.append(" as ");
                    items.append(local.as_str());
                }
                has_item = true;
                proof {
                    assert(items@ =~= join(item_texts(specsv.take(i + 1)), ", "@));
                }
            },
            ImportSpecifier::Namespace(n) => {
                proof {
                    assert(namespace_texts(specsv.take(i + 1)) =~= namespace_texts(
                        specsv.take(i as int),
                    ).push("* as "@ + n@));
                    lemma_join_push(namespace_texts(specsv.take(i as int)), "* as "@ + n@, ", "@);
                    assert(item_texts(specsv.take(i + 1)) =~= item_texts(specsv.take(i as int)));
                    assert(default_texts(specsv.take(i + 1)) =~= default_texts(
                        specsv.take(i as int),
                    ));
                }
                if has_ns {
                    namespaces.append(", ");
                }
                namespaces.append("* as ");
                namespaces.append(n.as_str());
                has_ns = true;
                proof {
                    assert(namespaces@ =~= join(namespace_texts(specsv.take(i + 1)), ", "@));
                }
            },
            ImportSpecifier::Default(n) => {
                proof {
                    assert(default_texts(specsv.take(i + 1)) =~= default_texts(
                        specsv.take(i as int),
                    ).push(n@));
                    lemma_join_push(default_texts(specsv.take(i as int)), n@, ", "@);
                    assert(item_texts(specsv.take(i + 1)) =~= item_texts(specsv.take(i as int)));
                    assert(namespace_texts(specsv.take(i + 1)) =~= namespace_texts(
                        specsv.take(i as int),
                    ));
                }
                if has_df {
                    defaults.append(", ");
                }
                defaults.append(n.as_str());
                has_df = true;
                proof {
                    assert(defaults@ =~= join(default_texts(specsv.take(i + 1)), ", "@));
                }
            },
        }
        i = i + 1;
    }
    proof {
        assert(specsv.take(specsv.len() as int) =~= specsv);
    }
    // the namespace specifiers come before the default specifiers
    let mut others = namespaces;
    if has_df {
        if has_ns {
            others.append(", ");
            proof {
                lemma_join_concat(namespace_texts(specsv), default_texts(specsv), ", "@);
            }
        }
        others.append(defaults.as_str());
    }
    proof {
        if !has_ns && has_df {
            assert(namespace_texts(specsv) + default_texts(specsv) =~= default_texts(specsv));
            assert(others@ =~= join(namespace_texts(specsv) + default_texts(specsv), ", "@));
        } else if !has_df {
            assert(namespace_texts(specsv) + default_texts(specsv) =~= namespace_texts(specsv));
        } else {
            assert(others@ =~= join(namespace_texts(specsv) + default_texts(specsv), ", "@));
        }
    }
    let items_here = items.unicode_len() > 0;
    let others_here = others.unicode_len() > 0;
    let mut out = String::new();
    if items_here && others_here {
        out.append("import { ");
        out.append(items.as_str());
        out.append(" }, ");
        out.append(others.as_str());
        out.append(" from \"");
        out.append(d.source.as_str());
        out.append("\"");
    } else if items_here {
        out.append("import { ");
        out.append(items.as_str());
        out.append(" } from \"");
        out.append(d.source.as_str());
        out.append("\"");
    } else {
        out.append("import ");
        out.append(others.as_str());
        out.append(" from \"");
        out.append(d.source.as_str());
        out.append("\"");
    }
    proof {
        assert(out@ =~= declaration_code(d@));
    }
    out
}

/// Emit the text of one node. The failure arm hands back a node the emitter
/// has no rule for; every node kind of the current model has one, so the
/// call succeeds on all of them.
pub fn generate_code_for_expression(expr: Expression) -> (r: Result<
    String,
    ExpressionGenerateError,
>)
    ensures
        match expression_code(expr@) {
            Some(t) => r matches Ok(s) && s@ == t,
            None => r matches Err(e) && e@ == expr@,
        },
{
    match expr {
        Expression::Comment(c) => {
            let ghost cv = c@;
            let mut s = String::new();
            s.append("// ");
            s.append(c.as_str());
            proof {
                assert(s@ =~= "// "@ + cv);
            }
            Ok(s)
        },
        Expression::ImportDeclaration(d) => Ok(declaration_to_code(d)),
        Expression::UnknownExpression(u) => Ok(u),
    }
}

/// Emit the text of a whole node sequence: one node per line, joined with a
/// single line break and no trailing break. Were any node unrenderable, the
/// call would fail with all such nodes together, in order, and no text.
pub fn generate(ast: AST) -> (r: GenerateResult)
    ensures
        match generate_all(ast@) {
            Ok(text) => r matches Ok(s) && s@ == text,
            Err(nodes) => r matches Err(e) && e matches
                GenerateError::CouldNotGenerateCodeForExpressions(v) && v.deep_view() == nodes,
        },
{
    let ghost esv = ast@;
    let mut exprs = ast.expressions;
    let mut errors: Vec<ExpressionGenerateError> = Vec::new();
    let mut out = String::new();
    let mut has_code = false;
    let ghost total = esv.len() as int;
    let ghost mut i: int = 0;
    proof {
        assert(esv.take(0) =~= Seq::<ExpressionView>::empty());
    }
    while exprs.len() > 0
        invariant
            0 <= i,
            i + exprs.deep_view().len() == total,
            total == esv.len(),
            exprs.deep_view() =~= esv.subrange(i, total),
            errors.deep_view() == failing_nodes(esv.take(i)),
            out@ == join(rendered_codes(esv.take(i)), "\n"@),
            has_code == (rendered_codes(esv.take(i)).len() > 0),
        decreases exprs.len(),
    {
        let ghost prev = exprs@;
        let ghost pre = exprs.deep_view();
        let e = exprs.remove(0);
        proof {
            assert(pre[0] == e.deep_view());
            assert(e.deep_view() == esv[i]);
            assert forall|k: int| 0 <= k < exprs.deep_view().len() implies exprs.deep_view()[k]
                == esv.subrange(i + 1, total)[k] by {
                assert(exprs@[k] == prev[k + 1]);
                assert(exprs.deep_view()[k] == exprs@[k].deep_view());
                assert(pre[k + 1] == prev[k + 1].deep_view());
                assert(pre[k + 1] == esv.subrange(i, total)[k + 1]);
            }
            assert(exprs.deep_view() =~= esv.subrange(i + 1, total));
            assert(esv.take(i + 1).drop_last() =~= esv.take(i));
            assert(esv.take(i + 1).last() == esv[i]);
        }
        match generate_code_for_expression(*e) {
            Ok(code) => {
                proof {
                    lemma_join_push(
                        rendered_codes(esv.take(i)),
                        expression_code(esv[i])->Some_0,
                        "\n"@,
                    );
                    assert(rendered_codes(esv.take(i + 1)) =~= rendered_codes(
                        esv.take(i),
                    ).push(expression_code(esv[i])->Some_0));
                    assert(failing_nodes(esv.take(i + 1)) =~= failing_nodes(esv.take(i)));
                }
                if has_code {
                    out.append("\n");
                }
                out.append(code.as_str());
                has_code = true;
                proof {
                    assert(out@ =~= join(rendered_codes(esv.take(i + 1)), "\n"@));
                }
            },
            Err(err) => {
                proof {
                    assert(failing_nodes(esv.take(i + 1)) =~= failing_nodes(
                        esv.take(i),
                    ).push(esv[i]));
                    assert(rendered_codes(esv.take(i + 1)) =~= rendered_codes(esv.take(i)));
                }
                let ghost old_err = errors.deep_view();
                errors.push(err);
                proof {
                    assert(errors.deep_view() =~= old_err.push(esv[i]));
                }
            },
        }
        proof {
            i = i + 1;
        }
    }
    proof {
        assert(esv.take(total) =~= esv);
    }
    if errors.len() > 0 {
        proof {
            assert(failing_nodes(esv).len() == errors.deep_view().len());
        }
        Err(GenerateError::CouldNotGenerateCodeForExpressions(errors))
    } else {
        proof {
            assert(failing_nodes(esv).len() == errors.deep_view().len());
        }
        Ok(out)
    }
}

} // verus!
