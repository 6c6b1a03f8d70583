use import_syntax::ast::base::{Expression, AST};
use import_syntax::ast::import::{ImportDeclaration, ImportSpecifier};
use import_syntax::generate::typescript::generate_code_for_expression;
use import_syntax::generate::{generate, typescript, ExpressionGenerateError, GenerateError};
use import_syntax::languages::Language;
use import_syntax::parse::{parse, ParseError};
use import_syntax::parse::typescript::{parse_multi_line_comment, parse_single_line_comment};

fn roundtrip(text: &str) {
    let ast = parse(Language::Typescript, text).unwrap();
    let out = typescript::generate(ast).unwrap();
    let mut with_terminator = out.clone();
    with_terminator.push(';');
    assert_eq!(with_terminator, text);
}

#[test]
fn roundtrip_namespace_import() {
    roundtrip("import * as myLib from \"./lib\";");
}

#[test]
fn roundtrip_default_import() {
    roundtrip("import myLibsDefault from \"./lib\";");
}

#[test]
fn roundtrip_single_item_import() {
    roundtrip("import { foo } from \"./lib\";");
}

#[test]
fn roundtrip_renamed_item_import() {
    roundtrip("import { baz as bar } from \"./lib\";");
}

#[test]
fn roundtrip_multi_item_import() {
    roundtrip("import { foo, baz as bar, katrin } from \"./lib\";");
}

#[test]
fn roundtrip_comment_and_import() {
    let ast = parse(Language::Typescript, "// a\nimport * as x from \"y\";").unwrap();
    assert_eq!(ast.expressions.len(), 2);
    let out = typescript::generate(ast).unwrap();
    // the recognized comment text keeps its leading space, and the emitter
    // writes `// ` before it again
    assert_eq!(out, "//  a\nimport * as x from \"y\"");
}

fn sample_ast() -> AST {
    AST {
        expressions: vec![
            Box::new(Expression::Comment(" note".to_string())),
            Box::new(Expression::ImportDeclaration(ImportDeclaration {
                source: "mod".to_string(),
                specifiers: vec![ImportSpecifier::Namespace("m".to_string())],
            })),
        ],
    }
}

#[test]
fn emission_twice_identical() {
    let first = typescript::generate(sample_ast()).unwrap();
    let second = typescript::generate(sample_ast()).unwrap();
    assert_eq!(first, second);
}

#[test]
fn comment_fidelity_single_line() {
    let (consumed, expr) = parse_single_line_comment("// hello").unwrap();
    assert_eq!(consumed, 8);
    let s = match expr {
        Expression::Comment(s) => s,
        _ => panic!("expected a comment"),
    };
    assert_eq!(s, " hello");
}

#[test]
fn comment_fidelity_multi_line() {
    let (consumed, expr) = parse_multi_line_comment("/*\nHello there\n*/").unwrap();
    assert_eq!(consumed, 17);
    let s = match expr {
        Expression::Comment(s) => s,
        _ => panic!("expected a comment"),
    };
    assert_eq!(s, "\nHello there\n");
}

#[test]
fn empty_single_line_comment_is_no_match() {
    assert!(parse_single_line_comment("//").is_none());
    assert!(parse_single_line_comment("//\nrest").is_none());
}

#[test]
fn empty_multi_line_comment_keeps_empty_text() {
    let (consumed, expr) = parse_multi_line_comment("/**/").unwrap();
    assert_eq!(consumed, 4);
    let s = match expr {
        Expression::Comment(s) => s,
        _ => panic!("expected a comment"),
    };
    assert_eq!(s, "");
}

#[test]
fn rename_detection_kept_name() {
    let code = generate_code_for_expression(Expression::ImportDeclaration(ImportDeclaration {
        source: "developers".to_string(),
        specifiers: vec![ImportSpecifier::Item {
            imported: "thorsten".to_string(),
            local: "thorsten".to_string(),
        }],
    }))
    .unwrap();
    assert_eq!(code, "import { thorsten } from \"developers\"");
}

#[test]
fn rename_detection_renamed() {
    let code = generate_code_for_expression(Expression::ImportDeclaration(ImportDeclaration {
        source: "developers".to_string(),
        specifiers: vec![ImportSpecifier::Item {
            imported: "thorsten".to_string(),
            local: "sabine".to_string(),
        }],
    }))
    .unwrap();
    assert_eq!(code, "import { thorsten as sabine } from \"developers\"");
}

#[test]
fn combined_kind_ordering() {
    let code = generate_code_for_expression(Expression::ImportDeclaration(ImportDeclaration {
        source: "./.gen/all-of-the-above".to_string(),
        specifiers: vec![
            ImportSpecifier::Item {
                imported: "foo".to_string(),
                local: "foo".to_string(),
            },
            ImportSpecifier::Item {
                imported: "baz".to_string(),
                local: "bar".to_string(),
            },
            ImportSpecifier::Namespace("myLib".to_string()),
            ImportSpecifier::Default("myLibsDefault".to_string()),
        ],
    }))
    .unwrap();
    assert_eq!(
        code,
        "import { foo, baz as bar }, * as myLib, myLibsDefault from \"./.gen/all-of-the-above\""
    );
}

#[test]
fn namespace_rendered_before_default() {
    let code = generate_code_for_expression(Expression::ImportDeclaration(ImportDeclaration {
        source: "lib".to_string(),
        specifiers: vec![
            ImportSpecifier::Default("d".to_string()),
            ImportSpecifier::Namespace("n".to_string()),
        ],
    }))
    .unwrap();
    assert_eq!(code, "import * as n, d from \"lib\"");
}

#[test]
fn empty_specifier_list_still_renders() {
    let code = generate_code_for_expression(Expression::ImportDeclaration(ImportDeclaration {
        source: "lib".to_string(),
        specifiers: vec![],
    }))
    .unwrap();
    assert_eq!(code, "import  from \"lib\"");
}

#[test]
fn unknown_nodes_pass_through_verbatim() {
    let result = typescript::generate(AST {
        expressions: vec![
            Box::new(Expression::UnknownExpression("let x = 1;".to_string())),
            Box::new(Expression::Comment("fine".to_string())),
            Box::new(Expression::UnknownExpression("export {};".to_string())),
        ],
    })
    .unwrap();
    assert_eq!(result, "let x = 1;\n// fine\nexport {};");
}

#[test]
fn unknown_node_code_is_its_text_unchanged() {
    let code = generate_code_for_expression(Expression::UnknownExpression(
        "  anything at all  ".to_string(),
    ))
    .unwrap();
    assert_eq!(code, "  anything at all  ");
}

#[test]
fn unsupported_language_on_generate() {
    let result = generate(Language::Rust, AST { expressions: vec![] });
    assert!(matches!(result, Err(GenerateError::UnsupportedLanguage)));
    assert_eq!(
        result.unwrap_err().message(),
        "Unsupported language"
    );
}

#[test]
fn unsupported_language_on_parse() {
    let result = parse(Language::Rust, "import peter from \"developers\";");
    assert!(matches!(result, Err(ParseError::UnsupportedLanguage)));
}

#[test]
fn unrecognized_input_names_the_position() {
    let result = parse(Language::Typescript, "let x = 1;");
    assert_eq!(result.unwrap_err(), ParseError::UnrecognizedInput { position: 0 });

    let result = parse(Language::Typescript, "// c\n???");
    assert_eq!(result.unwrap_err(), ParseError::UnrecognizedInput { position: 5 });
}

#[test]
fn failure_message_names_every_node() {
    let error = GenerateError::CouldNotGenerateCodeForExpressions(vec![
        ExpressionGenerateError::UnknownExpression(Expression::UnknownExpression(
            "a".to_string(),
        )),
        ExpressionGenerateError::UnknownExpression(Expression::UnknownExpression(
            "b".to_string(),
        )),
    ]);
    assert_eq!(
        error.message(),
        "Could not generate code for expressions: Unknown expression: UnknownExpression(\"a\"), Unknown expression: UnknownExpression(\"b\")"
    );
}

#[test]
fn padded_source_is_kept_as_written() {
    let (_, expr) = import_syntax::parse::typescript::parse_import(
        "import * as a from \" d \";",
    )
    .unwrap();
    let actual = match expr {
        Expression::ImportDeclaration(i) => i,
        _ => panic!("expected an import declaration"),
    };
    assert_eq!(actual.source, " d ");
}

#[test]
fn blanks_inside_imports_are_insignificant() {
    let ast = parse(
        Language::Typescript,
        "import   *  as   daniel   from \"developers\";",
    )
    .unwrap();
    assert_eq!(ast.expressions.len(), 1);
    let out = typescript::generate(ast).unwrap();
    assert_eq!(out, "import * as daniel from \"developers\"");
}

#[test]
fn single_quoted_source_is_recognized() {
    let (consumed, expr) = import_syntax::parse::typescript::parse_import(
        "import peter from 'developers';",
    )
    .unwrap();
    assert_eq!(consumed, 31);
    let actual = match expr {
        Expression::ImportDeclaration(i) => i,
        _ => panic!("expected an import declaration"),
    };
    assert_eq!(
        actual,
        ImportDeclaration {
            source: "developers".to_string(),
            specifiers: vec![ImportSpecifier::Default("peter".to_string())],
        }
    );
}

#[test]
fn source_may_hold_the_other_quote_mark() {
    let (_, expr) = import_syntax::parse::typescript::parse_import(
        "import x from \"it's\";",
    )
    .unwrap();
    let actual = match expr {
        Expression::ImportDeclaration(i) => i,
        _ => panic!("expected an import declaration"),
    };
    assert_eq!(actual.source, "it's");
}

#[test]
fn comments_and_imports_mix_across_lines() {
    let ast = parse(
        Language::Typescript,
        "/* head */\nimport { a } from \"m\";\n// tail",
    )
    .unwrap();
    assert_eq!(ast.expressions.len(), 3);
    let out = typescript::generate(ast).unwrap();
    assert_eq!(out, "//  head \nimport { a } from \"m\"\n//  tail");
}
