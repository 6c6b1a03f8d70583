use vstd::prelude::*;
use vstd::string::*;
use crate::ast::base::{AST, Expression, ExpressionView};
use crate::ast::import::{
    ImportDeclaration, ImportDeclarationView, ImportSpecifier, ImportSpecifierView,
};
use crate::parse::{ParseError, ParseResult};
use crate::parse::scan::{
    alnum_run, blank_run, find_char_eq, find_from, find_quote, lemma_alnum_run,
    lemma_blank_run, lemma_find_char_eq, lemma_find_from, lemma_find_quote, lemma_nonl_run,
    lemma_ws_run, match_at, match_at_exec, nonl_run, scan_alnum, scan_blanks, scan_char,
    scan_not_newline, scan_quote, scan_ws, trim_view, trimmed_slice, ws_run, find_from_exec,
};

verus! {

// ------------------------------------------------------------------
// The grammar, as spec functions
//
// Each rule scans `s` from `pos` and, on a match, gives the position
// right after what it consumed together with what it captured.
// ------------------------------------------------------------------

/// `//` followed by at least one character, capturing everything up to (not
/// including) the first line break.
pub open spec fn single_line_comment_match(s: Seq<char>, pos: int) -> Option<(int, Seq<char>)> {
    if match_at(s, "//"@, pos) {
        let p = pos + "//"@.len();
        let r = nonl_run(s, p);
        if r == 0 {
            None
        } else {
            Some((p + r, s.subrange(p, p + r)))
        }
    } else {
        None
    }
}

/// `/*` up to the first `*/`, capturing the text in between verbatim.
pub open spec fn multi_line_comment_match(s: Seq<char>, pos: int) -> Option<(int, Seq<char>)> {
    if match_at(s, "/*"@, pos) {
        let p = pos + "/*"@.len();
        match find_from(s, "*/"@, p) {
            Some(j) => Some((j + "*/"@.len(), s.subrange(p, j))),
            None => None,
        }
    } else {
        None
    }
}

/// A single-line comment, or else a multi-line comment.
pub open spec fn comment_match(s: Seq<char>, pos: int) -> Option<(int, Seq<char>)> {
    match single_line_comment_match(s, pos) {
        Some(r) => Some(r),
        None => multi_line_comment_match(s, pos),
    }
}

/// A quoted module source followed directly by `;`: skip to the first quote
/// mark and capture up to the next mark of the same kind, as written — the
/// module path is not normalized.
pub open spec fn source_match(s: Seq<char>, pos: int) -> Option<(int, Seq<char>)> {
    match find_quote(s, pos) {
        None => None,
        Some(i1) => match find_char_eq(s, i1 + 1, s[i1]) {
            None => None,
            Some(i2) => if match_at(s, ";"@, i2 + 1) {
                Some((i2 + 1 + ";"@.len(), s.subrange(i1 + 1, i2)))
            } else {
                None
            },
        },
    }
}

/// A namespace import: `import`, skip to `*`, skip to `as`, capture up to
/// `from` as the bound name (trimmed), then the quoted source and `;`.
pub open spec fn star_import_match(s: Seq<char>, pos: int) -> Option<(int, Seq<char>, Seq<char>)> {
    if !match_at(s, "import"@, pos) {
        None
    } else {
        match find_from(s, "*"@, pos + "import"@.len()) {
            None => None,
            Some(i1) => match find_from(s, "as"@, i1 + "*"@.len()) {
                None => None,
                Some(i2) => {
                    let p = i2 + "as"@.len();
                    match find_from(s, "from"@, p) {
                        None => None,
                        Some(i3) => {
                            let name = trim_view(s.subrange(p, i3));
                            match source_match(s, i3 + "from"@.len()) {
                                None => None,
                                Some((end, src)) => Some((end, name, src)),
                            }
                        },
                    }
                },
            },
        }
    }
}

/// A default import: `import`, blanks, one identifier, blanks, `from`, then
/// the quoted source and `;`.
pub open spec fn default_import_match(s: Seq<char>, pos: int) -> Option<
    (int, Seq<char>, Seq<char>),
> {
    if !match_at(s, "import"@, pos) {
        None
    } else {
        let p1 = pos + "import"@.len() + blank_run(s, pos + "import"@.len());
        let a = alnum_run(s, p1);
        if a == 0 {
            None
        } else {
            let name = s.subrange(p1, p1 + a);
            let p2 = p1 + a + blank_run(s, p1 + a);
            if !match_at(s, "from"@, p2) {
                None
            } else {
                match source_match(s, p2 + "from"@.len()) {
                    None => None,
                    Some((end, src)) => Some((end, name, src)),
                }
            }
        }
    }
}

/// One element of a specifier list: `name as alias`, or a bare `name` (then
/// bound under itself), blanks around each token.
pub open spec fn item_match(t: Seq<char>, pos: int) -> Option<(int, ImportSpecifierView)> {
    let p1 = pos + blank_run(t, pos);
    let a = alnum_run(t, p1);
    if a == 0 {
        None
    } else {
        let imported = t.subrange(p1, p1 + a);
        let p2 = p1 + a + blank_run(t, p1 + a);
        if match_at(t, "as"@, p2) {
            let p3 = p2 + "as"@.len();
            let p4 = p3 + blank_run(t, p3);
            let b = alnum_run(t, p4);
            if b == 0 {
                Some((p2, ImportSpecifierView::Item { imported, local: imported }))
            } else {
                let local = t.subrange(p4, p4 + b);
                Some(
                    (
                        p4 + b + blank_run(t, p4 + b),
                        ImportSpecifierView::Item { imported, local },
                    ),
                )
            }
        } else {
            Some((p2, ImportSpecifierView::Item { imported, local: imported }))
        }
    }
}

/// An element's match consumes at least one character and stays in bounds.
pub proof fn lemma_item_match(t: Seq<char>, pos: int)
    ensures
        match item_match(t, pos) {
            Some((p, item)) => 0 <= pos < p <= t.len() && item is Item,
            None => true,
        },
{
    if 0 <= pos && pos <= t.len() {
        lemma_blank_run(t, pos);
        let p1 = pos + blank_run(t, pos);
        lemma_alnum_run(t, p1);
        let a = alnum_run(t, p1);
        if a > 0 {
            lemma_blank_run(t, p1 + a);
            let p2 = p1 + a + blank_run(t, p1 + a);
            if match_at(t, "as"@, p2) {
                let p3 = p2 + "as"@.len();
                lemma_blank_run(t, p3);
                let p4 = p3 + blank_run(t, p3);
                lemma_alnum_run(t, p4);
                let b = alnum_run(t, p4);
                if b > 0 {
                    lemma_blank_run(t, p4 + b);
                }
            }
        }
    }
}

/// A comma-separated list of elements: after an element, a `,` continues the
/// list while another element follows it; otherwise the list ends where the
/// last element did.
pub open spec fn item_list_match(t: Seq<char>, pos: int) -> Option<
    (int, Seq<ImportSpecifierView>),
>
    decreases t.len() - pos
        via item_list_match_decreases
{
    match item_match(t, pos) {
        None => None,
        Some((p, item)) => if match_at(t, ","@, p) {
            match item_list_match(t, p + ","@.len()) {
                Some((p2, rest)) => Some((p2, seq![item] + rest)),
                None => Some((p, seq![item])),
            }
        } else {
            Some((p, seq![item]))
        },
    }
}

#[via_fn]
proof fn item_list_match_decreases(t: Seq<char>, pos: int) {
    lemma_item_match(t, pos);
}

/// A list match consumes at least one character, stays in bounds, and gives
/// at least one item.
pub proof fn lemma_item_list_match(t: Seq<char>, pos: int)
    ensures
        match item_list_match(t, pos) {
            Some((p, items)) => 0 <= pos < p <= t.len() && items.len() >= 1,
            None => true,
        },
    decreases t.len() - pos,
{
    lemma_item_match(t, pos);
    match item_match(t, pos) {
        None => {},
        Some((p, item)) => {
            if match_at(t, ","@, p) {
                lemma_item_list_match(t, p + ","@.len());
            }
        },
    }
}

/// A named-item import: `import`, skip to `{`, capture up to `}` as the
/// specifier list, skip to `from`, then the quoted source and `;`. The
/// captured list must parse as elements with nothing left over.
pub open spec fn specific_import_match(s: Seq<char>, pos: int) -> Option<
    (int, Seq<ImportSpecifierView>, Seq<char>),
> {
    if !match_at(s, "import"@, pos) {
        None
    } else {
        match find_from(s, "{"@, pos + "import"@.len()) {
            None => None,
            Some(i1) => {
                let p = i1 + "{"@.len();
                match find_from(s, "}"@, p) {
                    None => None,
                    Some(i2) => match find_from(s, "from"@, i2 + "}"@.len()) {
                        None => None,
                        Some(i3) => match source_match(s, i3 + "from"@.len()) {
                            None => None,
                            Some((end, src)) => {
                                let inner = s.subrange(p, i2);
                                match item_list_match(inner, 0) {
                                    None => None,
                                    Some((q, items)) => if q == inner.len() {
                                        Some((end, items, src))
                                    } else {
                                        None
                                    },
                                }
                            },
                        },
                    },
                }
            },
        }
    }
}

/// The import rules in their priority order: namespace, default, named item.
pub open spec fn import_match(s: Seq<char>, pos: int) -> Option<(int, ExpressionView)> {
    match star_import_match(s, pos) {
        Some((end, name, src)) => Some(
            (
                end,
                ExpressionView::ImportDeclaration(
                    ImportDeclarationView {
                        source: src,
                        specifiers: seq![ImportSpecifierView::Namespace(name)],
                    },
                ),
            ),
        ),
        None => match default_import_match(s, pos) {
            Some((end, name, src)) => Some(
                (
                    end,
                    ExpressionView::ImportDeclaration(
                        ImportDeclarationView {
                            source: src,
                            specifiers: seq![ImportSpecifierView::Default(name)],
                        },
                    ),
                ),
            ),
            None => match specific_import_match(s, pos) {
                Some((end, items, src)) => Some(
                    (
                        end,
                        ExpressionView::ImportDeclaration(
                            ImportDeclarationView { source: src, specifiers: items },
                        ),
                    ),
                ),
                None => None,
            },
        },
    }
}

/// All rules in their priority order: the comment rules, then the import
/// rules.
pub open spec fn node_match(s: Seq<char>, pos: int) -> Option<(int, ExpressionView)> {
    match comment_match(s, pos) {
        Some((end, text)) => Some((end, ExpressionView::Comment(text))),
        None => import_match(s, pos),
    }
}

// ------------------------------------------------------------------
// Bounds of the rules
// ------------------------------------------------------------------

/// A source match ends after `pos` and inside the text.
pub proof fn lemma_source_match(s: Seq<char>, pos: int)
    requires
        0 <= pos,
    ensures
        match source_match(s, pos) {
            Some((end, src)) => pos < end <= s.len(),
            None => true,
        },
{
    reveal_strlit(";");
    lemma_find_quote(s, pos);
    match find_quote(s, pos) {
        None => {},
        Some(i1) => {
            lemma_find_char_eq(s, i1 + 1, s[i1]);
        },
    }
}

/// A comment match ends after `pos` and inside the text.
pub proof fn lemma_comment_match(s: Seq<char>, pos: int)
    ensures
        match comment_match(s, pos) {
            Some((end, text)) => 0 <= pos < end <= s.len(),
            None => true,
        },
{
    reveal_strlit("//");
    reveal_strlit("/*");
    reveal_strlit("*/");
    if match_at(s, "//"@, pos) {
        lemma_nonl_run(s, pos + 2);
    }
    if match_at(s, "/*"@, pos) {
        lemma_find_from(s, "*/"@, pos + 2);
    }
}

/// An import match ends after `pos` and inside the text.
pub proof fn lemma_import_match(s: Seq<char>, pos: int)
    ensures
        match import_match(s, pos) {
            Some((end, node)) => 0 <= pos < end <= s.len(),
            None => true,
        },
{
    reveal_strlit("import");
    reveal_strlit("*");
    reveal_strlit("as");
    reveal_strlit("from");
    reveal_strlit("{");
    reveal_strlit("}");
    if match_at(s, "import"@, pos) {
        // namespace rule
        lemma_find_from(s, "*"@, pos + 6);
        match find_from(s, "*"@, pos + 6) {
            None => {},
            Some(i1) => {
                lemma_find_from(s, "as"@, i1 + 1);
                match find_from(s, "as"@, i1 + 1) {
                    None => {},
                    Some(i2) => {
                        lemma_find_from(s, "from"@, i2 + 2);
                        match find_from(s, "from"@, i2 + 2) {
                            None => {},
                            Some(i3) => {
                                lemma_source_match(s, i3 + 4);
                            },
                        }
                    },
                }
            },
        }
        // default rule
        lemma_blank_run(s, pos + 6);
        let p1 = pos + 6 + blank_run(s, pos + 6);
        lemma_alnum_run(s, p1);
        let a = alnum_run(s, p1);
        if a > 0 {
            lemma_blank_run(s, p1 + a);
            let p2 = p1 + a + blank_run(s, p1 + a);
            if match_at(s, "from"@, p2) {
                lemma_source_match(s, p2 + 4);
            }
        }
        // named-item rule
        lemma_find_from(s, "{"@, pos + 6);
        match find_from(s, "{"@, pos + 6) {
            None => {},
            Some(j1) => {
                lemma_find_from(s, "}"@, j1 + 1);
                match find_from(s, "}"@, j1 + 1) {
                    None => {},
                    Some(j2) => {
                        lemma_find_from(s, "from"@, j2 + 1);
                        match find_from(s, "from"@, j2 + 1) {
                            None => {},
                            Some(j3) => {
                                lemma_source_match(s, j3 + 4);
                            },
                        }
                    },
                }
            },
        }
    }
}

/// A node match ends after `pos` and inside the text.
pub proof fn lemma_node_match(s: Seq<char>, pos: int)
    ensures
        match node_match(s, pos) {
            Some((end, node)) => 0 <= pos < end <= s.len(),
            None => true,
        },
{
    lemma_comment_match(s, pos);
    lemma_import_match(s, pos);
}

// ------------------------------------------------------------------
// The whole unit
// ------------------------------------------------------------------

/// Scan a whole unit of text: skip whitespace, recognize one node, repeat.
/// `Ok` carries the nodes in order; `Err` the position where no rule
/// matched.
pub open spec fn parse_all(s: Seq<char>, pos: int) -> Result<Seq<ExpressionView>, int>
    decreases s.len() - pos
        via parse_all_decreases
{
    let p = pos + ws_run(s, pos);
    if p >= s.len() {
        Ok(Seq::empty())
    } else {
        match node_match(s, p) {
            None => Err(p),
            Some((end, node)) => match parse_all(s, end) {
                Ok(rest) => Ok(seq![node] + rest),
                Err(q) => Err(q),
            },
        }
    }
}

#[via_fn]
proof fn parse_all_decreases(s: Seq<char>, pos: int) {
    if 0 <= pos && pos <= s.len() {
        lemma_ws_run(s, pos);
    }
    lemma_node_match(s, pos + ws_run(s, pos));
}

// ------------------------------------------------------------------
// The rules, executable
// ------------------------------------------------------------------

/// Recognize a comment at `pos`.
pub fn scan_comment(input: &str, pos: usize, n: usize) -> (r: Option<(usize, Expression)>)
    requires
        n == input@.len(),
        pos <= n,
    ensures
        match comment_match(input@, pos as int) {
            Some((end, text)) => r matches Some(p) && p.0 as int == end && p.1@
                == ExpressionView::Comment(text),
            None => r is None,
        },
{
    let m_sl = "//".unicode_len();
    if match_at_exec(input, "//", pos, n, m_sl) {
        let p = pos + m_sl;
        let e = scan_not_newline(input, p, n);
        if e > p {
            let text = input.substring_char(p, e).to_owned();
            return Some((e, Expression::Comment(text)));
        }
    }
    let m_ml = "/*".unicode_len();
    if match_at_exec(input, "/*", pos, n, m_ml) {
        let p = pos + m_ml;
        match find_from_exec(input, "*/", p, n) {
            Some(j) => {
                proof {
                    lemma_find_from(input@, "*/"@, p as int);
                }
                let text = input.substring_char(p, j).to_owned();
                let m_cl = "*/".unicode_len();
                return Some((j + m_cl, Expression::Comment(text)));
            },
            None => {
                return None;
            },
        }
    }
    None
}

/// Recognize a quoted module source followed by `;` at or after `pos`.
fn scan_source(input: &str, pos: usize, n: usize) -> (r: Option<(usize, String)>)
    requires
        n == input@.len(),
        pos <= n,
    ensures
        match source_match(input@, pos as int) {
            Some((end, src)) => r matches Some(p) && p.0 as int == end && p.1@ == src,
            None => r is None,
        },
{
    match scan_quote(input, pos, n) {
        None => None,
        Some(i1) => {
            proof {
                lemma_find_quote(input@, pos as int);
            }
            let q = input.get_char(i1);
            match scan_char(input, i1 + 1, n, q) {
                None => None,
                Some(i2) => {
                    proof {
                        lemma_find_char_eq(input@, i1 + 1, q);
                    }
                    let m_semi = ";".unicode_len();
                    if match_at_exec(input, ";", i2 + 1, n, m_semi) {
                        let src = input.substring_char(i1 + 1, i2).to_owned();
                        Some((i2 + 1 + m_semi, src))
                    } else {
                        None
                    }
                },
            }
        },
    }
}

/// Recognize a namespace import at `pos`.
fn scan_star_import(input: &str, pos: usize, n: usize) -> (r: Option<(usize, Expression)>)
    requires
        n == input@.len(),
        pos <= n,
    ensures
        match star_import_match(input@, pos as int) {
            Some((end, name, src)) => r matches Some(p) && p.0 as int == end && p.1@
                == ExpressionView::ImportDeclaration(
                ImportDeclarationView {
                    source: src,
                    specifiers: seq![ImportSpecifierView::Namespace(name)],
                },
            ),
            None => r is None,
        },
{
    let m_imp = "import".unicode_len();
    if !match_at_exec(input, "import", pos, n, m_imp) {
        return None;
    }
    let i1 = match find_from_exec(input, "*", pos + m_imp, n) {
        Some(i) => i,
        None => {
            return None;
        },
    };
    proof {
        lemma_find_from(input@, "*"@, pos + m_imp);
    }
    let m_star = "*".unicode_len();
    let i2 = match find_from_exec(input, "as", i1 + m_star, n) {
        Some(i) => i,
        None => {
            return None;
        },
    };
    proof {
        lemma_find_from(input@, "as"@, i1 + m_star);
    }
    let m_as = "as".unicode_len();
    let p = i2 + m_as;
    let i3 = match find_from_exec(input, "from", p, n) {
        Some(i) => i,
        None => {
            return None;
        },
    };
    proof {
        lemma_find_from(input@, "from"@, p as int);
    }
    let name = trimmed_slice(input, p, i3);
    let ghost namev = name@;
    let m_from = "from".unicode_len();
    match scan_source(input, i3 + m_from, n) {
        None => None,
        Some((end, src)) => {
            let ghost srcv = src@;
            let mut specifiers: Vec<ImportSpecifier> = Vec::new();
            specifiers.push(ImportSpecifier::Namespace(name));
            let decl = ImportDeclaration { source: src, specifiers };
            proof {
                assert(decl@.specifiers =~= seq![ImportSpecifierView::Namespace(namev)]);
            }
            Some((end, Expression::ImportDeclaration(decl)))
        },
    }
}

/// Recognize a default import at `pos`.
fn scan_default_import(input: &str, pos: usize, n: usize) -> (r: Option<(usize, Expression)>)
    requires
        n == input@.len(),
        pos <= n,
    ensures
        match default_import_match(input@, pos as int) {
            Some((end, name, src)) => r matches Some(p) && p.0 as int == end && p.1@
                == ExpressionView::ImportDeclaration(
                ImportDeclarationView {
                    source: src,
                    specifiers: seq![ImportSpecifierView::Default(name)],
                },
            ),
            None => r is None,
        },
{
    let m_imp = "import".unicode_len();
    if !match_at_exec(input, "import", pos, n, m_imp) {
        return None;
    }
    let p1 = scan_blanks(input, pos + m_imp, n);
    let e1 = scan_alnum(input, p1, n);
    if e1 == p1 {
        return None;
    }
    let name = input.substring_char(p1, e1).to_owned();
    let ghost namev = name@;
    let p2 = scan_blanks(input, e1, n);
    let m_from = "from".unicode_len();
    if !match_at_exec(input, "from", p2, n, m_from) {
        return None;
    }
    match scan_source(input, p2 + m_from, n) {
        None => None,
        Some((end, src)) => {
            let ghost srcv = src@;
            let mut specifiers: Vec<ImportSpecifier> = Vec::new();
            specifiers.push(ImportSpecifier::Default(name));
            let decl = ImportDeclaration { source: src, specifiers };
            proof {
                assert(decl@.specifiers =~= seq![ImportSpecifierView::Default(namev)]);
            }
            Some((end, Expression::ImportDeclaration(decl)))
        },
    }
}

/// Recognize one specifier-list element at `pos` of the captured list text.
fn scan_item(t: &str, pos: usize, nt: usize) -> (r: Option<(usize, ImportSpecifier)>)
    requires
        nt == t@.len(),
        pos <= nt,
    ensures
        match item_match(t@, pos as int) {
            Some((p, item)) => r matches Some(rp) && rp.0 as int == p && rp.1@ == item,
            None => r is None,
        },
{
    let p1 = scan_blanks(t, pos, nt);
    let e1 = scan_alnum(t, p1, nt);
    if e1 == p1 {
        return None;
    }
    let imported = t.substring_char(p1, e1).to_owned();
    let p2 = scan_blanks(t, e1, nt);
    let m_as = "as".unicode_len();
    if match_at_exec(t, "as", p2, nt, m_as) {
        let p3 = p2 + m_as;
        let p4 = scan_blanks(t, p3, nt);
        let e2 = scan_alnum(t, p4, nt);
        if e2 > p4 {
            let local = t.substring_char(p4, e2).to_owned();
            let p5 = scan_blanks(t, e2, nt);
            return Some((p5, ImportSpecifier::Item { imported, local }));
        }
        let local = imported.clone();
        return Some((p2, ImportSpecifier::Item { imported, local }));
    }
    let local = imported.clone();
    Some((p2, ImportSpecifier::Item { imported, local }))
}

/// Recognize a whole specifier list from `pos` of the captured list text.
fn scan_items(t: &str, pos: usize, nt: usize) -> (r: Option<(usize, Vec<ImportSpecifier>)>)
    requires
        nt == t@.len(),
        pos <= nt,
    ensures
        match item_list_match(t@, pos as int) {
            Some((p, items)) => r matches Some(rp) && rp.0 as int == p && rp.1.deep_view()
                == items,
            None => r is None,
        },
    decreases nt - pos,
{
    match scan_item(t, pos, nt) {
        None => None,
        Some((p, item)) => {
            proof {
                lemma_item_match(t@, pos as int);
            }
            let ghost itemv = item@;
            let m_comma = ",".unicode_len();
            if match_at_exec(t, ",", p, nt, m_comma) {
                match scan_items(t, p + m_comma, nt) {
                    Some((p2, rest)) => {
                        let ghost restv = rest.deep_view();
                        let mut out = rest;
                        out.insert(0, item);
                        proof {
                            assert(out.deep_view() =~= seq![itemv] + restv);
                        }
                        Some((p2, out))
                    },
                    None => {
                        let mut out: Vec<ImportSpecifier> = Vec::new();
                        out.push(item);
                        proof {
                            assert(out.deep_view() =~= seq![itemv]);
                        }
                        Some((p, out))
                    },
                }
            } else {
                let mut out: Vec<ImportSpecifier> = Vec::new();
                out.push(item);
                proof {
                    assert(out.deep_view() =~= seq![itemv]);
                }
                Some((p, out))
            }
        },
    }
}

/// Recognize a named-item import at `pos`.
fn scan_specific_import(input: &str, pos: usize, n: usize) -> (r: Option<(usize, Expression)>)
    requires
        n == input@.len(),
        pos <= n,
    ensures
        match specific_import_match(input@, pos as int) {
            Some((end, items, src)) => r matches Some(p) && p.0 as int == end && p.1@
                == ExpressionView::ImportDeclaration(
                ImportDeclarationView { source: src, specifiers: items },
            ),
            None => r is None,
        },
{
    let m_imp = "import".unicode_len();
    if !match_at_exec(input, "import", pos, n, m_imp) {
        return None;
    }
    let i1 = match find_from_exec(input, "{", pos + m_imp, n) {
        Some(i) => i,
        None => {
            return None;
        },
    };
    proof {
        lemma_find_from(input@, "{"@, pos + m_imp);
    }
    let m_ob = "{".unicode_len();
    let p = i1 + m_ob;
    let i2 = match find_from_exec(input, "}", p, n) {
        Some(i) => i,
        None => {
            return None;
        },
    };
    proof {
        lemma_find_from(input@, "}"@, p as int);
    }
    let m_cb = "}".unicode_len();
    let i3 = match find_from_exec(input, "from", i2 + m_cb, n) {
        Some(i) => i,
        None => {
            return None;
        },
    };
    proof {
        lemma_find_from(input@, "from"@, i2 + m_cb);
    }
    let m_from = "from".unicode_len();
    match scan_source(input, i3 + m_from, n) {
        None => None,
        Some((end, src)) => {
            let inner = input.substring_char(p, i2);
            let nt = inner.unicode_len();
            match scan_items(inner, 0, nt) {
                None => None,
                Some((q, items)) => {
                    if q == nt {
                        let decl = ImportDeclaration { source: src, specifiers: items };
                        Some((end, Expression::ImportDeclaration(decl)))
                    } else {
                        None
                    }
                },
            }
        },
    }
}

/// Recognize an import declaration at `pos`, trying the rules in their
/// priority order.
pub fn scan_import(input: &str, pos: usize, n: usize) -> (r: Option<(usize, Expression)>)
    requires
        n == input@.len(),
        pos <= n,
    ensures
        match import_match(input@, pos as int) {
            Some((end, node)) => r matches Some(p) && p.0 as int == end && p.1@ == node,
            None => r is None,
        },
{
    match scan_star_import(input, pos, n) {
        Some(r) => Some(r),
        None => match scan_default_import(input, pos, n) {
            Some(r) => Some(r),
            None => scan_specific_import(input, pos, n),
        },
    }
}

// ------------------------------------------------------------------
// Public rules and the entry point
// ------------------------------------------------------------------

/// Rule: a single-line comment at the start of `input`. On success: how many
/// characters were consumed, and the comment node.
pub fn parse_single_line_comment(input: &str) -> (r: Option<(usize, Expression)>)
    ensures
        match single_line_comment_match(input@, 0) {
            Some((end, text)) => r matches Some(p) && p.0 as int == end && p.1@
                == ExpressionView::Comment(text),
            None => r is None,
        },
{
    let n = input.unicode_len();
    let m_sl = "//".unicode_len();
    if match_at_exec(input, "//", 0, n, m_sl) {
        let p = m_sl;
        let e = scan_not_newline(input, p, n);
        if e > p {
            let text = input.substring_char(p, e).to_owned();
            return Some((e, Expression::Comment(text)));
        }
    }
    None
}

/// Rule: a multi-line comment at the start of `input`.
pub fn parse_multi_line_comment(input: &str) -> (r: Option<(usize, Expression)>)
    ensures
        match multi_line_comment_match(input@, 0) {
            Some((end, text)) => r matches Some(p) && p.0 as int == end && p.1@
                == ExpressionView::Comment(text),
            None => r is None,
        },
{
    let n = input.unicode_len();
    let m_ml = "/*".unicode_len();
    if match_at_exec(input, "/*", 0, n, m_ml) {
        let p = m_ml;
        match find_from_exec(input, "*/", p, n) {
            Some(j) => {
                proof {
                    lemma_find_from(input@, "*/"@, p as int);
                }
                let text = input.substring_char(p, j).to_owned();
                let m_cl = "*/".unicode_len();
                return Some((j + m_cl, Expression::Comment(text)));
            },
            None => {
                return None;
            },
        }
    }
    None
}

/// Rule: a comment of either form at the start of `input`.
pub fn parse_comment(input: &str) -> (r: Option<(usize, Expression)>)
    ensures
        match comment_match(input@, 0) {
            Some((end, text)) => r matches Some(p) && p.0 as int == end && p.1@
                == ExpressionView::Comment(text),
            None => r is None,
        },
{
    let n = input.unicode_len();
    scan_comment(input, 0, n)
}

/// Rule: an import declaration of any shape at the start of `input`.
pub fn parse_import(input: &str) -> (r: Option<(usize, Expression)>)
    ensures
        match import_match(input@, 0) {
            Some((end, node)) => r matches Some(p) && p.0 as int == end && p.1@ == node,
            None => r is None,
        },
{
    let n = input.unicode_len();
    scan_import(input, 0, n)
}

/// Recognize one complete unit of source text: nodes in order, whitespace
/// between them skipped; a failure names the position where no rule matched.
pub fn parse(input: &str) -> (r: ParseResult)
    ensures
        match parse_all(input@, 0) {
            Ok(nodes) => r matches Ok(ast) && ast@ == nodes,
            Err(q) => r == Err::<AST, ParseError>(
                ParseError::UnrecognizedInput { position: q as usize },
            ),
        },
{
    let n = input.unicode_len();
    let mut exprs: Vec<Box<Expression>> = Vec::new();
    let mut pos: usize = 0;
    loop
        invariant
            pos <= n,
            n == input@.len(),
            match parse_all(input@, pos as int) {
                Ok(rest) => parse_all(input@, 0) == Ok::<Seq<ExpressionView>, int>(
                    exprs.deep_view() + rest,
                ),
                Err(q) => parse_all(input@, 0) == Err::<Seq<ExpressionView>, int>(q),
            },
        decreases n - pos,
    {
        let p = scan_ws(input, pos, n);
        if p == n {
            proof {
                assert(parse_all(input@, pos as int) == Ok::<Seq<ExpressionView>, int>(
                    Seq::empty(),
                ));
                assert(exprs.deep_view() + Seq::<ExpressionView>::empty() =~= exprs.deep_view());
            }
            return Ok(AST { expressions: exprs });
        }
        let node = match scan_comment(input, p, n) {
            Some(pe) => Some(pe),
            None => scan_import(input, p, n),
        };
        match node {
            None => {
                proof {
                    assert(parse_all(input@, pos as int) == Err::<Seq<ExpressionView>, int>(
                        p as int,
                    ));
                }
                return Err(ParseError::UnrecognizedInput { position: p });
            },
            Some((end, e)) => {
                proof {
                    lemma_node_match(input@, p as int);
                }
                let ghost ev = e@;
                let ghost old_dv = exprs.deep_view();
                exprs.push(Box::new(e));
                proof {
                    assert(exprs.deep_view() =~= old_dv + seq![ev]);
                    match parse_all(input@, end as int) {
                        Ok(rest) => {
                            assert(parse_all(input@, pos as int) == Ok::<
                                Seq<ExpressionView>,
                                int,
                            >(seq![ev] + rest));
                            assert(old_dv + (seq![ev] + rest) =~= (old_dv + seq![ev]) + rest);
                        },
                        Err(q) => {
                            assert(parse_all(input@, pos as int) == Err::<
                                Seq<ExpressionView>,
                                int,
                            >(q));
                        },
                    }
                }
                pos = end;
            },
        }
    }
}

} // verus!
