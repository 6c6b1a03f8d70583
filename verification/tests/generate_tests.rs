use import_syntax::ast::base::{Expression, AST};
use import_syntax::ast::import::{ImportDeclaration, ImportSpecifier};
use import_syntax::generate::{generate, typescript, GenerateError};
use import_syntax::languages::Language;

type TestResult = Result<(), GenerateError>;

#[test]
fn empty_ast() -> TestResult {
    let result = generate(Language::Typescript, AST { expressions: vec![] })?;
    assert_eq!(result, "");

    Ok(())
}

#[test]
fn typescript_empty_content() -> TestResult {
    let result = typescript::generate(AST { expressions: vec![] })?;

    assert_eq!(result, "");

    Ok(())
}

#[test]
fn comment() -> TestResult {
    let result = typescript::generate(AST {
        expressions: vec![Box::new(Expression::Comment("Hello".to_string()))],
    })?;

    assert_eq!(result, "// Hello");

    Ok(())
}

#[test]
fn import_declaration() -> TestResult {
    let result = typescript::generate(AST {
        expressions: vec![
            Box::new(Expression::ImportDeclaration(ImportDeclaration {
                source: "./.gen/item-no-rename".to_string(),
                specifiers: vec![ImportSpecifier::Item {
                    local: "foo".to_string(),
                    imported: "foo".to_string(),
                }],
            })),
            Box::new(Expression::ImportDeclaration(ImportDeclaration {
                source: "./.gen/item-with-rename".to_string(),
                specifiers: vec![ImportSpecifier::Item {
                    local: "bar".to_string(),
                    imported: "baz".to_string(),
                }],
            })),
            Box::new(Expression::ImportDeclaration(ImportDeclaration {
                source: "./.gen/namespace".to_string(),
                specifiers: vec![ImportSpecifier::Namespace("myLib".to_string())],
            })),
            Box::new(Expression::ImportDeclaration(ImportDeclaration {
                source: "./.gen/default".to_string(),
                specifiers: vec![ImportSpecifier::Default("myLibsDefault".to_string())],
            })),
            Box::new(Expression::ImportDeclaration(ImportDeclaration {
                source: "./.gen/all-of-the-above".to_string(),
                specifiers: vec![
                    ImportSpecifier::Item {
                        local: "foo".to_string(),
                        imported: "foo".to_string(),
                    },
                    ImportSpecifier::Item {
                        local: "bar".to_string(),
                        imported: "baz".to_string(),
                    },
                    ImportSpecifier::Namespace("myLib".to_string()),
                    ImportSpecifier::Default("myLibsDefault".to_string()),
                ],
            })),
        ],
    })?;

    let lines = result.lines().collect::<Vec<&str>>();
    assert_eq!(lines.len(), 5);
    assert_eq!(lines[0], "import { foo } from \"./.gen/item-no-rename\"");
    assert_eq!(
        lines[1],
        "import { baz as bar } from \"./.gen/item-with-rename\""
    );
    assert_eq!(lines[2], "import * as myLib from \"./.gen/namespace\"");
    assert_eq!(lines[3], "import myLibsDefault from \"./.gen/default\"");
    assert_eq!(
        lines[4],
        "import { foo, baz as bar }, * as myLib, myLibsDefault from \"./.gen/all-of-the-above\""
    );

    Ok(())
}
