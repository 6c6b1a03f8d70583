use import_syntax::ast::base::Expression;
use import_syntax::ast::import::{ImportDeclaration, ImportSpecifier};
use import_syntax::languages::Language;
use import_syntax::parse::{parse, ParseError};
use import_syntax::parse::typescript::{parse_comment, parse_import};

type TestResult = Result<(), ParseError>;

#[test]
fn parse_empty_content() -> TestResult {
    let result = parse(Language::Typescript, "")?;
    assert_eq!(result.expressions.len(), 0);

    Ok(())
}

#[test]
fn parse_namespace_import() -> TestResult {
    let expected = ImportDeclaration {
        source: "developers".to_string(),
        specifiers: vec![ImportSpecifier::Namespace("daniel".to_string())],
    };
    let result = parse(
        Language::Typescript,
        "import * as daniel from 'developers';",
    )?;

    assert_eq!(result.expressions.len(), 1);
    assert_eq!(result.expressions[0].render(), expected.render());

    Ok(())
}

#[test]
fn single_line_string() {
    let (_, expr) = parse_comment("// Foo").unwrap();
    println!("E: {}", expr.render());
    let s = match expr {
        Expression::Comment(s) => s,
        _ => panic!("expected a comment"),
    };
    assert_eq!(s, " Foo");
}

#[test]
fn multi_line_string() {
    let (_, expr) = parse_comment(
        "/*
Hello there
*/",
    )
    .unwrap();
    let s = match expr {
        Expression::Comment(s) => s,
        _ => panic!("expected a comment"),
    };
    assert_eq!(s, "\nHello there\n");
}

#[test]
fn typescript_namespace_import() {
    let expected = ImportDeclaration {
        source: "developers".to_string(),
        specifiers: vec![ImportSpecifier::Namespace("daniel".to_string())],
    };
    let (_, expr) = parse_import("import * as daniel from \"developers\";").unwrap();

    let actual = match expr {
        Expression::ImportDeclaration(i) => i,
        _ => panic!("expected an import declaration"),
    };
    assert_eq!(actual, expected);
}

#[test]
fn default_import() {
    let expected = ImportDeclaration {
        source: "developers".to_string(),
        specifiers: vec![ImportSpecifier::Default("peter".to_string())],
    };
    let (_, expr) = parse_import("import peter from \"developers\";").unwrap();

    let actual = match expr {
        Expression::ImportDeclaration(i) => i,
        _ => panic!("expected an import declaration"),
    };
    assert_eq!(actual, expected);
}

#[test]
fn single_specific_import() {
    let expected = ImportDeclaration {
        source: "developers".to_string(),
        specifiers: vec![ImportSpecifier::Item {
            local: "thorsten".to_string(),
            imported: "thorsten".to_string(),
        }],
    };
    let (_, expr) = parse_import("import { thorsten } from \"developers\";").unwrap();

    let actual = match expr {
        Expression::ImportDeclaration(i) => i,
        _ => panic!("expected an import declaration"),
    };
    assert_eq!(actual, expected);
}

#[test]
fn single_renamed_specific_import() {
    let expected = ImportDeclaration {
        source: "developers".to_string(),
        specifiers: vec![ImportSpecifier::Item {
            local: "sabine".to_string(),
            imported: "thorsten".to_string(),
        }],
    };
    let (_, expr) = parse_import("import { thorsten as sabine } from \"developers\";").unwrap();

    let actual = match expr {
        Expression::ImportDeclaration(i) => i,
        _ => panic!("expected an import declaration"),
    };
    assert_eq!(actual, expected);
}

#[test]
fn multiple_renamed_specific_import() {
    let expected = ImportDeclaration {
        source: "developers".to_string(),
        specifiers: vec![
            ImportSpecifier::Item {
                local: "katrin".to_string(),
                imported: "katrin".to_string(),
            },
            ImportSpecifier::Item {
                local: "sabine".to_string(),
                imported: "thorsten".to_string(),
            },
        ],
    };
    let (_, expr) =
        parse_import("import { katrin, thorsten as sabine } from \"developers\";").unwrap();

    let actual = match expr {
        Expression::ImportDeclaration(i) => i,
        _ => panic!("expected an import declaration"),
    };
    assert_eq!(actual, expected);
}
