use vstd::prelude::*;
use crate::ast::base::ExpressionView;
use crate::ast::import::{ImportDeclarationView, ImportSpecifierView};
use crate::generate::{join, lemma_join_concat};
use crate::generate::typescript::{
    declaration_code, default_texts, expression_code, failing_nodes, generate_all, item_texts,
    namespace_texts, render_item, rendered_codes,
};
use crate::parse::scan::{
    is_alnum, is_blank, is_quote, is_ws, lemma_alnum_run_exact, lemma_blank_run_exact,
    lemma_find_char_eq_is, lemma_find_from_is, lemma_find_from_none, lemma_find_quote_is,
    lemma_trim_padded, lemma_ws_run_exact, match_at, trim_view, ws_run,
};
use crate::parse::typescript::{
    comment_match, default_import_match, item_list_match, item_match, node_match,
    parse_all, source_match, specific_import_match, star_import_match,
};

verus! {

// ------------------------------------------------------------------
// Well-formed pieces of an import declaration
// ------------------------------------------------------------------

/// A name as the recognizer accepts it: at least one character, letters and
/// digits only.
pub open spec fn is_identifier(s: Seq<char>) -> bool {
    s.len() >= 1 && forall|k: int| 0 <= k < s.len() ==> is_alnum(s[k])
}

/// `lit` occurs somewhere in `s`.
pub open spec fn has_sub(s: Seq<char>, lit: Seq<char>) -> bool {
    exists|k: int| 0 <= k && match_at(s, lit, k)
}

/// A module source the recognizer carries through unchanged: free of quote
/// marks, which would end the capture early.
pub open spec fn plain_source(s: Seq<char>) -> bool {
    forall|k: int| 0 <= k < s.len() ==> !is_quote(s[k])
}

/// Emission never fails on the current model: every node kind has a
/// rendering rule, so no node reaches the failure list and a whole sequence
/// always emits its joined per-node codes.
pub proof fn lemma_emission_total(es: Seq<ExpressionView>)
    ensures
        failing_nodes(es) == Seq::<ExpressionView>::empty(),
        generate_all(es) == Ok::<Seq<char>, Seq<ExpressionView>>(
            join(rendered_codes(es), "\n"@),
        ),
    decreases es.len(),
{
    if es.len() > 0 {
        lemma_emission_total(es.drop_last());
        assert(expression_code(es.last()) is Some);
        assert(failing_nodes(es) =~= Seq::<ExpressionView>::empty());
    } else {
        assert(failing_nodes(es) =~= Seq::<ExpressionView>::empty());
    }
}

/// Every node the emitter cannot render stands in the failure list. This and
/// the next two lemmas state how `generate_all` aggregates failures for any
/// node kind the emitter might refuse; `lemma_emission_total` shows that the
/// current closed model has no such kind.
pub proof fn lemma_failing_nodes_member(es: Seq<ExpressionView>, k: int)
    requires
        0 <= k < es.len(),
        expression_code(es[k]) is None,
    ensures
        failing_nodes(es).contains(es[k]),
    decreases es.len(),
{
    let f = failing_nodes(es);
    if k == es.len() - 1 {
        assert(f[f.len() - 1] == es[k]);
    } else {
        lemma_failing_nodes_member(es.drop_last(), k);
        assert(es.drop_last()[k] == es[k]);
        let fd = failing_nodes(es.drop_last());
        let t = choose|t: int| 0 <= t < fd.len() && fd[t] == es[k];
        assert(f[t] == es[k]);
    }
}

/// Two distinct nodes the emitter cannot render give at least two failures.
pub proof fn lemma_failing_nodes_two(es: Seq<ExpressionView>, i: int, j: int)
    requires
        0 <= i < j < es.len(),
        expression_code(es[i]) is None,
        expression_code(es[j]) is None,
    ensures
        failing_nodes(es).len() >= 2,
    decreases es.len(),
{
    if j == es.len() - 1 {
        assert(es.drop_last()[i] == es[i]);
        lemma_failing_nodes_member(es.drop_last(), i);
    } else {
        assert(es.drop_last()[i] == es[i]);
        assert(es.drop_last()[j] == es[j]);
        lemma_failing_nodes_two(es.drop_last(), i, j);
    }
}

/// Law of the failure machinery: were a node sequence to hold two nodes the
/// emitter cannot render, it would fail as a whole, and the single failure
/// would carry every such node — in particular both given ones — not only
/// the first. No node of the current model satisfies the hypothesis (see
/// `lemma_emission_total`): the fail-slow shape is kept for node kinds yet
/// to come.
pub proof fn lemma_aggregated_failure(es: Seq<ExpressionView>, i: int, j: int)
    requires
        0 <= i < j < es.len(),
        expression_code(es[i]) is None,
        expression_code(es[j]) is None,
    ensures
        generate_all(es) matches Err(nodes) && nodes == failing_nodes(es) && nodes.len() >= 2
            && nodes.contains(es[i]) && nodes.contains(es[j]),
{
    lemma_failing_nodes_member(es, i);
    lemma_failing_nodes_member(es, j);
    lemma_failing_nodes_two(es, i, j);
}

// ------------------------------------------------------------------
// Round trips: recognizing what was emitted
// ------------------------------------------------------------------

/// A text that reads ` "src";` from `p` on is matched by the source rule,
/// giving back exactly `src`.
proof fn lemma_source_at(t: Seq<char>, p: int, src: Seq<char>)
    requires
        0 <= p,
        t.len() == p + 4 + src.len(),
        t[p] == ' ',
        t[p + 1] == '"',
        forall|k: int| 0 <= k < src.len() ==> t[p + 2 + k] == src[k],
        t[p + 2 + src.len()] == '"',
        t[p + 3 + src.len()] == ';',
        plain_source(src),
    ensures
        source_match(t, p) == Some((t.len() as int, src)),
{
    reveal_strlit(";");
    let m = src.len() as int;
    lemma_find_quote_is(t, p, p + 1);
    assert forall|k: int| p + 2 <= k < p + 2 + m implies t[k] != '"' by {
        assert(t[k] == src[k - p - 2]);
        assert(!is_quote(src[k - p - 2]));
    }
    lemma_find_char_eq_is(t, p + 2, '"', p + 2 + m);
    assert(match_at(t, ";"@, p + 3 + m));
    assert(t.subrange(p + 2, p + 2 + m) =~= src);
}

/// An alphanumeric character is not whitespace, not a quote mark, and none
/// of the marker characters of the grammar.
proof fn lemma_alnum_is_plain(c: char)
    requires
        is_alnum(c),
    ensures
        !is_ws(c),
        !is_blank(c),
        !is_quote(c),
        c != '*' && c != '{' && c != '}' && c != ',' && c != ';' && c != '/',
{
}

/// Law: an emitted namespace import, terminated by `;`, recognizes back to
/// exactly the declaration it was emitted from: one `Namespace` specifier
/// with the same name, and the same source.
#[verifier::rlimit(50)]
pub proof fn lemma_roundtrip_namespace(nm: Seq<char>, src: Seq<char>)
    requires
        is_identifier(nm),
        !has_sub(nm, "from"@),
        plain_source(src),
    ensures
        ({
            let d = ImportDeclarationView {
                source: src,
                specifiers: seq![ImportSpecifierView::Namespace(nm)],
            };
            let text = declaration_code(d) + ";"@;
            parse_all(text, 0) == Ok::<Seq<ExpressionView>, int>(
                seq![ExpressionView::ImportDeclaration(d)],
            )
        }),
{
    reveal_strlit("import ");
    reveal_strlit("* as ");
    reveal_strlit(" from \"");
    reveal_strlit("\"");
    reveal_strlit(";");
    reveal_strlit("import");
    reveal_strlit("*");
    reveal_strlit("as");
    reveal_strlit("from");
    reveal_strlit("//");
    reveal_strlit("/*");
    let l = nm.len() as int;
    let m = src.len() as int;
    let d = ImportDeclarationView {
        source: src,
        specifiers: seq![ImportSpecifierView::Namespace(nm)],
    };
    let specs = d.specifiers;

    // the emitted text, piece by piece
    assert(specs.drop_last() =~= Seq::<ImportSpecifierView>::empty());
    assert(item_texts(Seq::<ImportSpecifierView>::empty()) == Seq::<Seq<char>>::empty());
    assert(default_texts(Seq::<ImportSpecifierView>::empty()) == Seq::<Seq<char>>::empty());
    assert(namespace_texts(Seq::<ImportSpecifierView>::empty()) == Seq::<Seq<char>>::empty());
    assert(item_texts(specs) =~= Seq::<Seq<char>>::empty());
    assert(default_texts(specs) =~= Seq::<Seq<char>>::empty());
    assert(namespace_texts(specs) =~= seq!["* as "@ + nm]);
    assert(namespace_texts(specs) + default_texts(specs) =~= seq!["* as "@ + nm]);
    assert(join(seq!["* as "@ + nm], ", "@) == "* as "@ + nm);
    let others = "* as "@ + nm;
    assert(declaration_code(d) == "import "@ + others + " from \""@ + src + "\""@);
    let text = declaration_code(d) + ";"@;
    let n = text.len() as int;
    assert(n == 21 + l + m);

    // the characters of the text
    assert(text[0] == 'i' && text[1] == 'm' && text[2] == 'p' && text[3] == 'o' && text[4] == 'r'
        && text[5] == 't' && text[6] == ' ');
    assert(text[7] == '*' && text[8] == ' ' && text[9] == 'a' && text[10] == 's' && text[11]
        == ' ');
    assert(forall|k: int| 0 <= k < l ==> text[12 + k] == nm[k]);
    assert(text[12 + l] == ' ' && text[13 + l] == 'f' && text[14 + l] == 'r' && text[15 + l]
        == 'o' && text[16 + l] == 'm' && text[17 + l] == ' ' && text[18 + l] == '"');
    assert(forall|k: int| 0 <= k < m ==> text[19 + l + k] == src[k]);
    assert(text[19 + l + m] == '"' && text[20 + l + m] == ';');

    // the namespace rule matches, step by step
    assert(match_at(text, "import"@, 0));
    assert(!match_at(text, "*"@, 6)) by {
        assert(text[6] != "*"@[0]);
    }
    lemma_find_from_is(text, "*"@, 6, 7);
    assert(!match_at(text, "as"@, 8)) by {
        assert(text[8] != "as"@[0]);
    }
    lemma_find_from_is(text, "as"@, 8, 9);
    assert forall|k: int| 11 <= k < 13 + l implies !match_at(text, "from"@, k) by {
        if match_at(text, "from"@, k) {
            if k == 11 {
                assert(text[11] == "from"@[0]);
            } else if k + 4 <= 12 + l {
                assert(match_at(nm, "from"@, k - 12)) by {
                    assert forall|j: int| 0 <= j < 4 implies nm[k - 12 + j] == #[trigger] (
                    "from"@[j]) by {
                        assert(text[12 + (k - 12 + j)] == nm[k - 12 + j]);
                        assert(text[k + j] == "from"@[j]);
                    }
                }
                assert(has_sub(nm, "from"@));
            } else {
                let off = 12 + l - k;
                assert(text[12 + l] == "from"@[off]);
            }
        }
    }
    lemma_find_from_is(text, "from"@, 11, 13 + l);
    assert(text.subrange(11, 13 + l) =~= " "@ + nm + " "@) by {
        reveal_strlit(" ");
    }
    assert(trim_view(text.subrange(11, 13 + l)) == nm) by {
        reveal_strlit(" ");
        let padded = " "@ + nm + " "@;
        lemma_alnum_is_plain(nm[0]);
        lemma_alnum_is_plain(nm[l - 1]);
        lemma_trim_padded(padded, 1, 1 + l);
        assert(padded.subrange(1, 1 + l) =~= nm);
    }
    lemma_source_at(text, 17 + l, src);
    assert(star_import_match(text, 0) == Some((n, nm, src)));

    // no other rule comes first
    assert(!match_at(text, "//"@, 0)) by {
        assert(text[1] != "//"@[1]);
    }
    assert(!match_at(text, "/*"@, 0)) by {
        assert(text[0] != "/*"@[0]);
    }
    assert(comment_match(text, 0) is None);
    assert(node_match(text, 0) == Some((n, ExpressionView::ImportDeclaration(d))));

    // the whole unit is exactly this one node
    lemma_ws_run_exact(text, 0, 0);
    assert(ws_run(text, n) == 0);
    assert(parse_all(text, n) == Ok::<Seq<ExpressionView>, int>(Seq::empty()));
    assert(seq![ExpressionView::ImportDeclaration(d)] + Seq::<ExpressionView>::empty()
        =~= seq![ExpressionView::ImportDeclaration(d)]);
}

/// Law: an emitted default import, terminated by `;`, recognizes back to
/// exactly the declaration it was emitted from: one `Default` specifier with
/// the same name, and the same source. The source may not hold `*`, which
/// would let the namespace rule try the text first.
#[verifier::rlimit(50)]
pub proof fn lemma_roundtrip_default(nm: Seq<char>, src: Seq<char>)
    requires
        is_identifier(nm),
        plain_source(src),
        forall|k: int| 0 <= k < src.len() ==> src[k] != '*',
    ensures
        ({
            let d = ImportDeclarationView {
                source: src,
                specifiers: seq![ImportSpecifierView::Default(nm)],
            };
            let text = declaration_code(d) + ";"@;
            parse_all(text, 0) == Ok::<Seq<ExpressionView>, int>(
                seq![ExpressionView::ImportDeclaration(d)],
            )
        }),
{
    reveal_strlit("import ");
    reveal_strlit(" from \"");
    reveal_strlit("\"");
    reveal_strlit(";");
    reveal_strlit("import");
    reveal_strlit("*");
    reveal_strlit("from");
    reveal_strlit("//");
    reveal_strlit("/*");
    let l = nm.len() as int;
    let m = src.len() as int;
    let d = ImportDeclarationView {
        source: src,
        specifiers: seq![ImportSpecifierView::Default(nm)],
    };
    let specs = d.specifiers;

    // the emitted text, piece by piece
    assert(specs.drop_last() =~= Seq::<ImportSpecifierView>::empty());
    assert(item_texts(Seq::<ImportSpecifierView>::empty()) == Seq::<Seq<char>>::empty());
    assert(default_texts(Seq::<ImportSpecifierView>::empty()) == Seq::<Seq<char>>::empty());
    assert(namespace_texts(Seq::<ImportSpecifierView>::empty()) == Seq::<Seq<char>>::empty());
    assert(item_texts(specs) =~= Seq::<Seq<char>>::empty());
    assert(namespace_texts(specs) =~= Seq::<Seq<char>>::empty());
    assert(default_texts(specs) =~= seq![nm]);
    assert(namespace_texts(specs) + default_texts(specs) =~= seq![nm]);
    assert(join(seq![nm], ", "@) == nm);
    assert(declaration_code(d) == "import "@ + nm + " from \""@ + src + "\""@);
    let text = declaration_code(d) + ";"@;
    let n = text.len() as int;
    assert(n == 16 + l + m);

    // the characters of the text
    assert(text[0] == 'i' && text[1] == 'm' && text[2] == 'p' && text[3] == 'o' && text[4] == 'r'
        && text[5] == 't' && text[6] == ' ');
    assert(forall|k: int| 0 <= k < l ==> text[7 + k] == nm[k]);
    assert(text[7 + l] == ' ' && text[8 + l] == 'f' && text[9 + l] == 'r' && text[10 + l] == 'o'
        && text[11 + l] == 'm' && text[12 + l] == ' ' && text[13 + l] == '"');
    assert(forall|k: int| 0 <= k < m ==> text[14 + l + k] == src[k]);
    assert(text[14 + l + m] == '"' && text[15 + l + m] == ';');

    // the text holds no `*`, so the namespace rule does not match
    assert forall|k: int| 0 <= k < n implies text[k] != '*' by {
        if 7 <= k < 7 + l {
            lemma_alnum_is_plain(nm[k - 7]);
        }
        if 14 + l <= k < 14 + l + m {
            assert(text[k] == src[k - 14 - l]);
        }
    }
    assert forall|k: int| 6 <= k implies !match_at(text, "*"@, k) by {
        if match_at(text, "*"@, k) {
            assert(text[k] == "*"@[0]);
        }
    }
    lemma_find_from_none(text, "*"@, 6);
    assert(star_import_match(text, 0) is None);

    // the default rule matches, step by step
    assert(match_at(text, "import"@, 0));
    lemma_alnum_is_plain(nm[0]);
    lemma_blank_run_exact(text, 6, 7);
    lemma_alnum_run_exact(text, 7, 7 + l);
    assert(text.subrange(7, 7 + l) =~= nm);
    lemma_blank_run_exact(text, 7 + l, 8 + l);
    assert(match_at(text, "from"@, 8 + l));
    lemma_source_at(text, 12 + l, src);
    assert(default_import_match(text, 0) == Some((n, nm, src)));

    // no other rule comes first
    assert(!match_at(text, "//"@, 0)) by {
        assert(text[1] != "//"@[1]);
    }
    assert(!match_at(text, "/*"@, 0)) by {
        assert(text[0] != "/*"@[0]);
    }
    assert(comment_match(text, 0) is None);
    assert(node_match(text, 0) == Some((n, ExpressionView::ImportDeclaration(d))));

    // the whole unit is exactly this one node
    lemma_ws_run_exact(text, 0, 0);
    assert(ws_run(text, n) == 0);
    assert(parse_all(text, n) == Ok::<Seq<ExpressionView>, int>(Seq::empty()));
    assert(seq![ExpressionView::ImportDeclaration(d)] + Seq::<ExpressionView>::empty()
        =~= seq![ExpressionView::ImportDeclaration(d)]);
}

/// A specifier that binds one named export, both names well-formed.
pub open spec fn is_item_spec(s: ImportSpecifierView) -> bool {
    match s {
        ImportSpecifierView::Item { imported, local } => is_identifier(imported) && is_identifier(
            local,
        ),
        _ => false,
    }
}

/// A specifier sequence of named exports only.
pub open spec fn all_items(specs: Seq<ImportSpecifierView>) -> bool {
    forall|k: int| 0 <= k < specs.len() ==> is_item_spec(#[trigger] specs[k])
}

/// The rendered named items, joined as the emitter writes them.
pub open spec fn items_join(specs: Seq<ImportSpecifierView>) -> Seq<char> {
    join(item_texts(specs), ", "@)
}

/// What one specifier adds to the rendered item list.
pub open spec fn item_text_of(s: ImportSpecifierView) -> Seq<Seq<char>> {
    match s {
        ImportSpecifierView::Item { imported, local } => seq![render_item(imported, local)],
        _ => Seq::<Seq<char>>::empty(),
    }
}

/// The rendered item list taken apart at the front.
proof fn lemma_item_texts_front(specs: Seq<ImportSpecifierView>)
    requires
        specs.len() >= 1,
    ensures
        item_texts(specs) == item_text_of(specs[0]) + item_texts(specs.drop_first()),
    decreases specs.len(),
{
    let head = item_text_of(specs[0]);
    if specs.len() == 1 {
        assert(specs.drop_last() =~= Seq::<ImportSpecifierView>::empty());
        assert(specs.drop_first() =~= Seq::<ImportSpecifierView>::empty());
        assert(item_texts(Seq::<ImportSpecifierView>::empty()) == Seq::<Seq<char>>::empty());
        assert(specs.last() == specs[0]);
        assert(item_texts(specs) =~= head + item_texts(specs.drop_first()));
    } else {
        lemma_item_texts_front(specs.drop_last());
        assert(specs.drop_last()[0] == specs[0]);
        assert(specs.drop_last().drop_first() =~= specs.drop_first().drop_last());
        assert(specs.drop_first().last() == specs.last());
        let mid = item_texts(specs.drop_first().drop_last());
        let tail = item_text_of(specs.last());
        assert(item_texts(specs.drop_first()) == mid + tail);
        assert(item_texts(specs) == (head + mid) + tail);
        assert((head + mid) + tail =~= head + (mid + tail));
    }
}

/// A sequence of named exports renders one piece per specifier.
proof fn lemma_item_texts_len(specs: Seq<ImportSpecifierView>)
    requires
        all_items(specs),
    ensures
        item_texts(specs).len() == specs.len(),
    decreases specs.len(),
{
    if specs.len() > 0 {
        assert(forall|k: int|
            0 <= k < specs.len() - 1 ==> #[trigger] specs.drop_last()[k] == specs[k]);
        lemma_item_texts_len(specs.drop_last());
        assert(is_item_spec(specs.last()));
    }
}

/// A character that may stand in a rendered item list: a letter, a digit, a
/// space or a comma.
pub open spec fn plain_list_char(c: char) -> bool {
    is_alnum(c) || c == ' ' || c == ','
}

/// One rendered item holds only letters, digits and spaces.
proof fn lemma_piece_chars(imported: Seq<char>, local: Seq<char>)
    requires
        is_identifier(imported),
        is_identifier(local),
    ensures
        forall|k: int|
            0 <= k < render_item(imported, local).len() ==> plain_list_char(
                #[trigger] render_item(imported, local)[k],
            ),
{
    reveal_strlit(" as ");
    let p = render_item(imported, local);
    assert forall|k: int| 0 <= k < p.len() implies plain_list_char(p[k]) by {
        if imported == local {
            assert(p[k] == imported[k]);
        } else {
            if k < imported.len() {
                assert(p[k] == imported[k]);
            } else if k < imported.len() + 4 {
                assert(p[k] == " as "@[k - imported.len()]);
            } else {
                assert(p[k] == local[k - imported.len() - 4]);
            }
        }
    }
}

/// A whole rendered item list holds only letters, digits, spaces and
/// commas.
proof fn lemma_items_join_chars(specs: Seq<ImportSpecifierView>)
    requires
        all_items(specs),
        specs.len() >= 1,
    ensures
        forall|k: int|
            0 <= k < items_join(specs).len() ==> plain_list_char(#[trigger] items_join(specs)[k]),
    decreases specs.len(),
{
    reveal_strlit(", ");
    lemma_item_texts_front(specs);
    assert(is_item_spec(specs[0]));
    let j = items_join(specs);
    match specs[0] {
        ImportSpecifierView::Item { imported, local } => {
            let p0 = render_item(imported, local);
            lemma_piece_chars(imported, local);
            if specs.len() == 1 {
                assert(item_texts(specs) =~= seq![p0]);
                assert(j == p0);
            } else {
                let rest = specs.drop_first();
                assert(forall|k: int| 0 <= k < rest.len() ==> #[trigger] rest[k] == specs[k + 1]);
                lemma_item_texts_len(rest);
                assert(item_texts(specs) =~= seq![p0] + item_texts(rest));
                assert(join(seq![p0], ", "@) == p0);
                lemma_join_concat(seq![p0], item_texts(rest), ", "@);
                lemma_items_join_chars(rest);
                assert forall|k: int| 0 <= k < j.len() implies plain_list_char(j[k]) by {
                    if k < p0.len() {
                        assert(j[k] == p0[k]);
                    } else if k < p0.len() + 2 {
                        assert(j[k] == ", "@[k - p0.len()]);
                    } else {
                        assert(j[k] == items_join(rest)[k - p0.len() - 2]);
                    }
                }
            }
        },
        _ => {},
    }
}

/// A text whose suffix from `pos` reads ` item, item ` — the emitted item
/// list with its surrounding blanks — begins with exactly the first item as
/// one element: consumed up to the whole text when it is the only item, else
/// up to the comma after its rendered piece.
#[verifier::rlimit(100)]
proof fn lemma_item_elem_at(t: Seq<char>, pos: int, specs: Seq<ImportSpecifierView>)
    requires
        all_items(specs),
        specs.len() >= 1,
        0 <= pos <= t.len(),
        t.subrange(pos, t.len() as int) == " "@ + items_join(specs) + " "@,
    ensures
        specs.len() == 1 ==> item_match(t, pos) == Some((t.len() as int, specs[0])),
        specs.len() > 1 ==> item_match(t, pos) == Some(
            (pos + 1 + item_text_of(specs[0])[0].len(), specs[0]),
        ),
{
    reveal_strlit(" ");
    reveal_strlit(", ");
    reveal_strlit(" as ");
    reveal_strlit("as");
    let n = t.len() as int;
    let suffix = t.subrange(pos, n);
    let j = items_join(specs);
    let jl = j.len() as int;
    assert(suffix == " "@ + j + " "@);
    assert(n - pos == 2 + jl);
    assert(t[pos] == suffix[0]);
    assert(t[pos] == ' ');
    assert forall|q: int| pos + 1 <= q < pos + 1 + jl implies #[trigger] t[q] == j[q - pos - 1] by {
        let k = q - pos - 1;
        assert(suffix[1 + k] == t[pos + (1 + k)]);
        assert(suffix[1 + k] == j[k]);
    }
    assert(t[pos + 1 + jl] == suffix[1 + jl]);
    assert(t[pos + 1 + jl] == ' ');
    assert(is_item_spec(specs[0]));
    lemma_item_texts_front(specs);
    let rest = specs.drop_first();
    match specs[0] {
        ImportSpecifierView::Item { imported, local } => {
            let p0 = render_item(imported, local);
            let li = imported.len() as int;
            if rest.len() == 0 {
                assert(item_texts(specs) =~= seq![p0]);
                assert(j == p0);
            } else {
                assert(forall|k: int| 0 <= k < rest.len() ==> #[trigger] rest[k] == specs[k + 1]);
                lemma_item_texts_len(rest);
                assert(item_texts(specs) =~= seq![p0] + item_texts(rest));
                assert(join(seq![p0], ", "@) == p0);
                lemma_join_concat(seq![p0], item_texts(rest), ", "@);
                assert(j == p0 + ", "@ + items_join(rest));
            }
            // leading blank, then the imported name
            lemma_alnum_is_plain(imported[0]);
            assert(t[pos + 1] == j[0]);
            assert(j[0] == p0[0]);
            assert(p0[0] == imported[0]);
            lemma_blank_run_exact(t, pos, pos + 1);
            assert forall|q: int|
                pos + 1 <= q < pos + 1 + li implies #[trigger] t[q] == imported[q - pos - 1] by {
                assert(t[q] == j[q - pos - 1]);
                assert(j[q - pos - 1] == p0[q - pos - 1]);
                assert(p0[q - pos - 1] == imported[q - pos - 1]);
            }
            assert forall|q: int| pos + 1 <= q < pos + 1 + li implies is_alnum(#[trigger] t[q]) by {
                assert(t[q] == imported[q - pos - 1]);
            }
            let after = if li < jl { j[li] } else { ' ' };
            assert(t[pos + 1 + li] == after);
            if imported == local {
                if rest.len() == 0 {
                    assert(after == ' ');
                } else {
                    assert(after == ", "@[0]);
                }
            } else {
                assert(after == p0[li]);
                assert(p0[li] == " as "@[0]);
                assert(after == ' ');
            }
            assert(!is_alnum(after)) by {
                if is_alnum(after) {
                    lemma_alnum_is_plain(after);
                }
            }
            lemma_alnum_run_exact(t, pos + 1, pos + 1 + li);
            assert(t.subrange(pos + 1, pos + 1 + li) =~= imported);
            if imported == local {
                // the bare form: the name alone, then a comma or the end
                if rest.len() == 0 {
                    lemma_blank_run_exact(t, pos + 1 + li, pos + 2 + li);
                    assert(!match_at(t, "as"@, pos + 2 + li));
                    assert(item_match(t, pos) == Some(
                        (pos + 2 + li, ImportSpecifierView::Item { imported, local: imported }),
                    ));
                    assert(ImportSpecifierView::Item { imported, local: imported } == specs[0]);
                    assert(pos + 2 + li == n);
                } else {
                    assert(t[pos + 1 + li] == ',');
                    assert(!is_blank(t[pos + 1 + li]));
                    lemma_blank_run_exact(t, pos + 1 + li, pos + 1 + li);
                    assert(!match_at(t, "as"@, pos + 1 + li)) by {
                        assert(t[pos + 1 + li] != "as"@[0]);
                    }
                    assert(item_match(t, pos) == Some(
                        (pos + 1 + li, ImportSpecifierView::Item { imported, local: imported }),
                    ));
                    assert(item_text_of(specs[0])[0].len() == li);
                }
            } else {
                // the renamed form: name, `as`, local name
                let ll = local.len() as int;
                assert(p0.len() == li + 4 + ll);
                assert(forall|k: int| 0 <= k < 4 ==> #[trigger] p0[li + k] == " as "@[k]);
                assert(forall|k: int| 0 <= k < ll ==> #[trigger] p0[li + 4 + k] == local[k]);
                assert(t[pos + 2 + li] == 'a');
                lemma_blank_run_exact(t, pos + 1 + li, pos + 2 + li);
                let p2 = pos + 2 + li;
                assert(match_at(t, "as"@, p2)) by {
                    assert(t[p2] == "as"@[0]);
                    assert(t[p2 + 1] == "as"@[1]);
                }
                lemma_alnum_is_plain(local[0]);
                assert(t[pos + 4 + li] == ' ');
                assert(t[pos + 5 + li] == local[0]);
                lemma_blank_run_exact(t, p2 + 2, pos + 5 + li);
                assert(forall|k: int| 0 <= k < ll ==> #[trigger] t[pos + 5 + li + k] == local[k]);
                let after2 = t[pos + 5 + li + ll];
                if rest.len() == 0 {
                    assert(after2 == ' ');
                } else {
                    assert(after2 == ", "@[0]);
                }
                assert(!is_alnum(after2)) by {
                    if is_alnum(after2) {
                        lemma_alnum_is_plain(after2);
                    }
                }
                lemma_alnum_run_exact(t, pos + 5 + li, pos + 5 + li + ll);
                assert(t.subrange(pos + 5 + li, pos + 5 + li + ll) =~= local);
                if rest.len() == 0 {
                    lemma_blank_run_exact(t, pos + 5 + li + ll, pos + 6 + li + ll);
                    assert(item_match(t, pos) == Some(
                        (pos + 6 + li + ll, ImportSpecifierView::Item { imported, local }),
                    ));
                    assert(pos + 6 + li + ll == n);
                } else {
                    assert(t[pos + 5 + li + ll] == ',');
                    assert(!is_blank(t[pos + 5 + li + ll]));
                    lemma_blank_run_exact(t, pos + 5 + li + ll, pos + 5 + li + ll);
                    assert(item_match(t, pos) == Some(
                        (pos + 5 + li + ll, ImportSpecifierView::Item { imported, local }),
                    ));
                    assert(item_text_of(specs[0])[0].len() == li + 4 + ll);
                }
            }
        },
        _ => {
            assert(false);
        },
    }
}

/// A text whose suffix from `pos` reads ` item, item ` — the emitted item
/// list with its surrounding blanks — parses as exactly those items, with
/// nothing left over.
#[verifier::rlimit(100)]
proof fn lemma_item_list_at(t: Seq<char>, pos: int, specs: Seq<ImportSpecifierView>)
    requires
        all_items(specs),
        specs.len() >= 1,
        0 <= pos <= t.len(),
        t.subrange(pos, t.len() as int) == " "@ + items_join(specs) + " "@,
    ensures
        item_list_match(t, pos) == Some((t.len() as int, specs)),
    decreases specs.len(),
{
    reveal_strlit(" ");
    reveal_strlit(", ");
    reveal_strlit(",");
    let n = t.len() as int;
    let suffix = t.subrange(pos, n);
    let j = items_join(specs);
    let jl = j.len() as int;
    assert(suffix == " "@ + j + " "@);
    assert(n - pos == 2 + jl);
    assert forall|q: int| pos + 1 <= q < pos + 1 + jl implies #[trigger] t[q] == j[q - pos - 1] by {
        let k = q - pos - 1;
        assert(suffix[1 + k] == t[pos + (1 + k)]);
        assert(suffix[1 + k] == j[k]);
    }
    assert(t[pos + 1 + jl] == suffix[1 + jl]);
    assert(t[pos + 1 + jl] == ' ');
    lemma_item_elem_at(t, pos, specs);
    if specs.len() == 1 {
        assert(!match_at(t, ","@, n));
        assert(seq![specs[0]] =~= specs);
    } else {
        assert(is_item_spec(specs[0]));
        lemma_item_texts_front(specs);
        let rest = specs.drop_first();
        assert(forall|k: int| 0 <= k < rest.len() ==> #[trigger] rest[k] == specs[k + 1]);
        let p0 = item_text_of(specs[0])[0];
        lemma_item_texts_len(rest);
        assert(item_texts(specs) =~= seq![p0] + item_texts(rest));
        assert(join(seq![p0], ", "@) == p0);
        lemma_join_concat(seq![p0], item_texts(rest), ", "@);
        assert(j == p0 + ", "@ + items_join(rest));
        let p = pos + 1 + p0.len() as int;
        assert(t[p] == j[p0.len() as int]);
        assert(j[p0.len() as int] == ", "@[0]);
        assert(match_at(t, ","@, p)) by {
            assert(t[p] == ","@[0]);
        }
        assert(t.subrange(p + 1, n) =~= " "@ + items_join(rest) + " "@) by {
            assert(forall|k: int|
                0 <= k < items_join(rest).len() ==> #[trigger] j[p0.len() + 2 + k] == items_join(
                    rest,
                )[k]);
        }
        lemma_item_list_at(t, p + 1, rest);
        assert(seq![specs[0]] + rest =~= specs);
    }
}

/// A sequence of named exports renders no namespace and no default piece.
proof fn lemma_all_items_no_others(specs: Seq<ImportSpecifierView>)
    requires
        all_items(specs),
    ensures
        namespace_texts(specs) == Seq::<Seq<char>>::empty(),
        default_texts(specs) == Seq::<Seq<char>>::empty(),
    decreases specs.len(),
{
    if specs.len() > 0 {
        assert(forall|k: int|
            0 <= k < specs.len() - 1 ==> #[trigger] specs.drop_last()[k] == specs[k]);
        lemma_all_items_no_others(specs.drop_last());
        assert(is_item_spec(specs.last()));
        assert(namespace_texts(specs) =~= Seq::<Seq<char>>::empty());
        assert(default_texts(specs) =~= Seq::<Seq<char>>::empty());
    } else {
        assert(namespace_texts(specs) =~= Seq::<Seq<char>>::empty());
        assert(default_texts(specs) =~= Seq::<Seq<char>>::empty());
    }
}

/// A text shaped `import { items } from "src";`, its braces holding the
/// emitted item list, recognizes as exactly those items with that source.
#[verifier::rlimit(100)]
proof fn lemma_specific_at(t: Seq<char>, specs: Seq<ImportSpecifierView>, src: Seq<char>)
    requires
        all_items(specs),
        specs.len() >= 1,
        plain_source(src),
        forall|k: int| 0 <= k < src.len() ==> src[k] != '*',
        t.len() == 20 + items_join(specs).len() + src.len(),
        0 <= 20 + items_join(specs).len() + src.len(),
        t[0] == 'i' && t[1] == 'm' && t[2] == 'p' && t[3] == 'o' && t[4] == 'r' && t[5] == 't'
            && t[6] == ' ' && t[7] == '{' && t[8] == ' ',
        forall|q: int|
            9 <= q < 9 + items_join(specs).len() ==> #[trigger] t[q] == items_join(specs)[q - 9],
        ({
            let jl = items_join(specs).len() as int;
            t[9 + jl] == ' ' && t[10 + jl] == '}' && t[11 + jl] == ' ' && t[12 + jl] == 'f' && t[13
                + jl] == 'r' && t[14 + jl] == 'o' && t[15 + jl] == 'm' && t[16 + jl] == ' ' && t[17
                + jl] == '"'
        }),
        forall|q: int|
            18 + items_join(specs).len() <= q < 18 + items_join(specs).len() + src.len()
                ==> #[trigger] t[q] == src[q - 18 - items_join(specs).len()],
        t[18 + items_join(specs).len() as int + src.len() as int] == '"',
        t[19 + items_join(specs).len() as int + src.len() as int] == ';',
    ensures
        ({
            let d = ImportDeclarationView { source: src, specifiers: specs };
            parse_all(t, 0) == Ok::<Seq<ExpressionView>, int>(
                seq![ExpressionView::ImportDeclaration(d)],
            )
        }),
{
    reveal_strlit("import");
    reveal_strlit("*");
    reveal_strlit("{");
    reveal_strlit("}");
    reveal_strlit("from");
    reveal_strlit("//");
    reveal_strlit("/*");
    reveal_strlit(" ");
    let d = ImportDeclarationView { source: src, specifiers: specs };
    let j = items_join(specs);
    let jl = j.len() as int;
    let m = src.len() as int;
    let n = t.len() as int;

    // the item list holds only letters, digits, blanks and commas
    lemma_items_join_chars(specs);

    // the text holds no `*`, so the namespace rule does not match
    assert forall|q: int| 0 <= q < n implies t[q] != '*' by {
        if 9 <= q < 9 + jl {
            assert(plain_list_char(j[q - 9]));
            if is_alnum(t[q]) {
                lemma_alnum_is_plain(t[q]);
            }
        }
        if 18 + jl <= q < 18 + jl + m {
            assert(t[q] == src[q - 18 - jl]);
        }
    }
    assert forall|k: int| 6 <= k implies !match_at(t, "*"@, k) by {
        if match_at(t, "*"@, k) {
            assert(t[k] == "*"@[0]);
        }
    }
    lemma_find_from_none(t, "*"@, 6);
    assert(star_import_match(t, 0) is None);

    // the default rule stops at the brace
    assert(match_at(t, "import"@, 0));
    lemma_blank_run_exact(t, 6, 7);
    lemma_alnum_run_exact(t, 7, 7);
    assert(default_import_match(t, 0) is None);

    // the named-item rule matches, step by step
    assert(!match_at(t, "{"@, 6)) by {
        assert(t[6] != "{"@[0]);
    }
    assert(match_at(t, "{"@, 7));
    lemma_find_from_is(t, "{"@, 6, 7);
    assert forall|k: int| 8 <= k < 10 + jl implies !match_at(t, "}"@, k) by {
        if match_at(t, "}"@, k) {
            assert(t[k] == "}"@[0]);
            if 9 <= k < 9 + jl {
                assert(plain_list_char(j[k - 9]));
                if is_alnum(t[k]) {
                    lemma_alnum_is_plain(t[k]);
                }
            }
        }
    }
    assert(match_at(t, "}"@, 10 + jl));
    lemma_find_from_is(t, "}"@, 8, 10 + jl);
    assert(!match_at(t, "from"@, 11 + jl)) by {
        assert(t[11 + jl] != "from"@[0]);
    }
    assert(match_at(t, "from"@, 12 + jl));
    lemma_find_from_is(t, "from"@, 11 + jl, 12 + jl);
    lemma_source_at(t, 16 + jl, src);
    let inner = t.subrange(8, 10 + jl);
    assert(inner =~= " "@ + j + " "@);
    assert(inner.subrange(0, inner.len() as int) =~= inner);
    lemma_item_list_at(inner, 0, specs);
    assert(inner.len() == 2 + jl);
    assert(specific_import_match(t, 0) == Some((n, specs, src)));

    // no other rule comes first
    assert(!match_at(t, "//"@, 0)) by {
        assert(t[1] != "//"@[1]);
    }
    assert(!match_at(t, "/*"@, 0)) by {
        assert(t[0] != "/*"@[0]);
    }
    assert(comment_match(t, 0) is None);
    assert(node_match(t, 0) == Some((n, ExpressionView::ImportDeclaration(d))));

    // the whole unit is exactly this one node
    lemma_ws_run_exact(t, 0, 0);
    assert(ws_run(t, n) == 0);
    assert(parse_all(t, n) == Ok::<Seq<ExpressionView>, int>(Seq::empty()));
    assert(seq![ExpressionView::ImportDeclaration(d)] + Seq::<ExpressionView>::empty()
        =~= seq![ExpressionView::ImportDeclaration(d)]);
}

/// Law: an emitted named-item import, terminated by `;`, recognizes back to
/// exactly the declaration it was emitted from — each item under the same
/// names, renamed or not, in the same order, with the same source. This
/// covers a single item with or without a rename as well as several. The
/// source may not hold `*`, which would let the namespace rule try the text
/// first.
#[verifier::rlimit(100)]
pub proof fn lemma_roundtrip_items(specs: Seq<ImportSpecifierView>, src: Seq<char>)
    requires
        all_items(specs),
        specs.len() >= 1,
        plain_source(src),
        forall|k: int| 0 <= k < src.len() ==> src[k] != '*',
    ensures
        ({
            let d = ImportDeclarationView { source: src, specifiers: specs };
            let text = declaration_code(d) + ";"@;
            parse_all(text, 0) == Ok::<Seq<ExpressionView>, int>(
                seq![ExpressionView::ImportDeclaration(d)],
            )
        }),
{
    reveal_strlit("import { ");
    reveal_strlit(" } from \"");
    reveal_strlit(", ");
    reveal_strlit("\"");
    reveal_strlit(";");
    let m = src.len() as int;
    let d = ImportDeclarationView { source: src, specifiers: specs };
    let j = items_join(specs);
    let jl = j.len() as int;

    // the emitted text, piece by piece
    lemma_item_texts_front(specs);
    assert(is_item_spec(specs[0]));
    match specs[0] {
        ImportSpecifierView::Item { imported, local } => {
            let p0 = render_item(imported, local);
            assert(p0.len() >= 1);
            let rest = specs.drop_first();
            if rest.len() == 0 {
                assert(item_texts(specs) =~= seq![p0]);
                assert(j == p0);
            } else {
                assert(forall|k: int| 0 <= k < rest.len() ==> #[trigger] rest[k] == specs[k + 1]);
                lemma_item_texts_len(rest);
                assert(item_texts(specs) =~= seq![p0] + item_texts(rest));
                assert(join(seq![p0], ", "@) == p0);
                lemma_join_concat(seq![p0], item_texts(rest), ", "@);
                assert(j == p0 + ", "@ + items_join(rest));
            }
            assert(jl >= 1);
        },
        _ => {
            assert(false);
        },
    }
    lemma_all_items_no_others(specs);
    assert(namespace_texts(specs) + default_texts(specs) =~= Seq::<Seq<char>>::empty());
    assert(join(Seq::<Seq<char>>::empty(), ", "@) == Seq::<char>::empty());
    assert(declaration_code(d) == "import { "@ + j + " } from \""@ + src + "\""@);
    let t = declaration_code(d) + ";"@;
    let n = t.len() as int;
    assert(n == 20 + jl + m);

    // the characters of the text
    assert(t[0] == 'i' && t[1] == 'm' && t[2] == 'p' && t[3] == 'o' && t[4] == 'r' && t[5] == 't'
        && t[6] == ' ' && t[7] == '{' && t[8] == ' ');
    assert forall|q: int| 9 <= q < 9 + jl implies #[trigger] t[q] == j[q - 9] by {
        assert(("import { "@ + j)[q] == j[q - 9]);
    }
    assert(t[9 + jl] == ' ' && t[10 + jl] == '}' && t[11 + jl] == ' ' && t[12 + jl] == 'f' && t[13
        + jl] == 'r' && t[14 + jl] == 'o' && t[15 + jl] == 'm' && t[16 + jl] == ' ' && t[17 + jl]
        == '"');
    assert(forall|k: int| 0 <= k < m ==> #[trigger] t[18 + jl + k] == src[k]);
    assert(t[18 + jl + m] == '"' && t[19 + jl + m] == ';');

    lemma_specific_at(t, specs, src);
}

/// A unit of one import declaration emits that declaration's code alone.
proof fn lemma_emit_single(d: ImportDeclarationView)
    ensures
        generate_all(seq![ExpressionView::ImportDeclaration(d)]) == Ok::<
            Seq<char>,
            Seq<ExpressionView>,
        >(declaration_code(d)),
{
    let es = seq![ExpressionView::ImportDeclaration(d)];
    assert(es.drop_last() =~= Seq::<ExpressionView>::empty());
    assert(failing_nodes(Seq::<ExpressionView>::empty()) == Seq::<ExpressionView>::empty());
    assert(rendered_codes(Seq::<ExpressionView>::empty()) == Seq::<Seq<char>>::empty());
    assert(failing_nodes(es) =~= Seq::<ExpressionView>::empty());
    assert(rendered_codes(es) =~= seq![declaration_code(d)]);
    assert(join(seq![declaration_code(d)], "\n"@) == declaration_code(d));
}

/// Law: the round trip at the text level, for a namespace import — its
/// emitted text, terminated by `;`, recognizes to nodes that emit the same
/// text again, up to that terminator.
pub proof fn lemma_roundtrip_text_namespace(nm: Seq<char>, src: Seq<char>)
    requires
        is_identifier(nm),
        !has_sub(nm, "from"@),
        plain_source(src),
    ensures
        ({
            let d = ImportDeclarationView {
                source: src,
                specifiers: seq![ImportSpecifierView::Namespace(nm)],
            };
            let text = declaration_code(d) + ";"@;
            &&& parse_all(text, 0) matches Ok(nodes)
            &&& generate_all(parse_all(text, 0)->Ok_0) == Ok::<Seq<char>, Seq<ExpressionView>>(
                declaration_code(d),
            )
        }),
{
    lemma_roundtrip_namespace(nm, src);
    lemma_emit_single(
        ImportDeclarationView {
            source: src,
            specifiers: seq![ImportSpecifierView::Namespace(nm)],
        },
    );
}

/// Law: the round trip at the text level, for a default import.
pub proof fn lemma_roundtrip_text_default(nm: Seq<char>, src: Seq<char>)
    requires
        is_identifier(nm),
        plain_source(src),
        forall|k: int| 0 <= k < src.len() ==> src[k] != '*',
    ensures
        ({
            let d = ImportDeclarationView {
                source: src,
                specifiers: seq![ImportSpecifierView::Default(nm)],
            };
            let text = declaration_code(d) + ";"@;
            &&& parse_all(text, 0) matches Ok(nodes)
            &&& generate_all(parse_all(text, 0)->Ok_0) == Ok::<Seq<char>, Seq<ExpressionView>>(
                declaration_code(d),
            )
        }),
{
    lemma_roundtrip_default(nm, src);
    lemma_emit_single(
        ImportDeclarationView { source: src, specifiers: seq![ImportSpecifierView::Default(nm)] },
    );
}

/// Law: the round trip at the text level, for a named-item import of one or
/// more items, renamed or not.
pub proof fn lemma_roundtrip_text_items(specs: Seq<ImportSpecifierView>, src: Seq<char>)
    requires
        all_items(specs),
        specs.len() >= 1,
        plain_source(src),
        forall|k: int| 0 <= k < src.len() ==> src[k] != '*',
    ensures
        ({
            let d = ImportDeclarationView { source: src, specifiers: specs };
            let text = declaration_code(d) + ";"@;
            &&& parse_all(text, 0) matches Ok(nodes)
            &&& generate_all(parse_all(text, 0)->Ok_0) == Ok::<Seq<char>, Seq<ExpressionView>>(
                declaration_code(d),
            )
        }),
{
    lemma_roundtrip_items(specs, src);
    lemma_emit_single(ImportDeclarationView { source: src, specifiers: specs });
}

/// Law: emission is a pure function of the node sequence — any two emitted
/// texts for the same nodes are the same text.
pub proof fn lemma_emission_deterministic(es: Seq<ExpressionView>, r1: Seq<char>, r2: Seq<char>)
    requires
        generate_all(es) == Ok::<Seq<char>, Seq<ExpressionView>>(r1),
        generate_all(es) == Ok::<Seq<char>, Seq<ExpressionView>>(r2),
    ensures
        r1 == r2,
{
}

} // verus!
