use ingfront::ast::{
    AtomicExpression, Block, Expression, ExpressionEnum, FnCall, Reference, Statement,
    StatementBlock, Type,
};
use ingfront::merger::MergeError;
use ingfront::names::GlobalName;
use ingfront::package::Packager;
use ingfront::retriever::{FileRetriever, RetrieverError};
use ingfront::table::{FrontProgram, NameMap};
use ingfront::types::{insert_types, ResolverError, TypeError};
use ingfront::vfs::MockFileSystem;

#[test]
fn test_minimal_package() {
    // The smallest package: one entry file with an empty main.
    let mut fs = MockFileSystem::new("/".to_string());
    fs.insert_file("/main.ing", "fn main() {}");
    let mut program = Packager::new("pkg", FileRetriever::new(fs).unwrap());
    let table = program.merge_modules().unwrap().private_definitions;
    assert_eq!(table.function_definitions.len(), 1);
    assert_eq!(table.struct_definitions.len(), 0);
    assert_eq!(table.global_var_definitions.len(), 0);
    let gr = GlobalName { module: "/root".to_string(), name: "0_main".to_string() };
    let main_def = table.function_definitions.get(&gr).unwrap();
    assert_eq!(main_def.name.raw, "main".to_string());
    assert_eq!(main_def.body, Some(Block { definitions: vec![], statements: vec![] }));
}

#[test]
fn test_parse_files() {
    let mut mock_file_system = MockFileSystem::new("/".to_string());
    mock_file_system.insert_file("/main.ing", "mod test; fn main() {}");
    mock_file_system.insert_file("/test.ing", "pub mod example;");
    mock_file_system.insert_dir("/test/");
    mock_file_system.insert_file("/test/example.ing", "pub fn a() {};");

    let mut program = Packager::new("pkg", FileRetriever::new(mock_file_system).unwrap());

    let definition_table = program.merge_modules().unwrap().private_definitions;

    assert_eq!(definition_table.function_definitions.len(), 2);
    assert_eq!(definition_table.struct_definitions.len(), 0);
    assert_eq!(definition_table.global_var_definitions.len(), 0);

    let gr = GlobalName { module: "/root".to_string(), name: "0_main".to_string() };

    assert_eq!(
        definition_table.function_definitions.get(&gr),
        Some(&ingfront::ast::FnDef {
            name: Reference {
                raw: "main".to_string(),
                module_resolved: Some("0_main".to_string()),
                global_resolved: Some(GlobalName {
                    module: "/root".to_string(),
                    name: "0_main".to_string(),
                }),
            },
            return_type: Type::Void,
            body: Some(Block { definitions: vec![], statements: vec![] }),
            mods: vec![],
            args: vec![],
        })
    );

    let gr = GlobalName { module: "/root/test/example".to_string(), name: "0_a".to_string() };

    assert_eq!(
        definition_table.function_definitions.get(&gr),
        Some(&ingfront::ast::FnDef {
            name: Reference {
                raw: "a".to_string(),
                module_resolved: Some("0_a".to_string()),
                global_resolved: Some(GlobalName {
                    module: "/root/test/example".to_string(),
                    name: "0_a".to_string(),
                }),
            },
            return_type: Type::Void,
            body: Some(Block { definitions: vec![], statements: vec![] }),
            mods: vec![],
            args: vec![],
        })
    );
}

#[test]
fn test_import_files() {
    let mut mock_file_system = MockFileSystem::new("/".to_string());
    mock_file_system.insert_file(
        "/main.ing",
        "mod test; use root::test::example::a; fn main() { a(); }",
    );
    mock_file_system.insert_file("/test.ing", "pub mod example;");
    mock_file_system.insert_dir("/test/");
    mock_file_system.insert_file("/test/example.ing", "pub fn a() {};");

    let mut program = Packager::new("pkg", FileRetriever::new(mock_file_system).unwrap());

    let definition_table = program.merge_modules().unwrap().private_definitions;

    assert_eq!(definition_table.function_definitions.len(), 2);
    assert_eq!(definition_table.struct_definitions.len(), 0);
    assert_eq!(definition_table.global_var_definitions.len(), 0);

    let gr = GlobalName { module: "/root".to_string(), name: "0_main".to_string() };

    assert_eq!(
        definition_table.function_definitions.get(&gr),
        Some(&ingfront::ast::FnDef {
            name: Reference {
                raw: "main".to_string(),
                module_resolved: Some("0_main".to_string()),
                global_resolved: Some(GlobalName {
                    module: "/root".to_string(),
                    name: "0_main".to_string(),
                }),
            },
            return_type: Type::Void,
            body: Some(Block {
                definitions: vec![],
                statements: vec![StatementBlock::Statement(Statement::Expression(Box::new(
                    Expression {
                        expr: ExpressionEnum::AtomicExpression(AtomicExpression::FnCall(
                            Box::new(FnCall {
                                name: Reference {
                                    raw: "a".to_string(),
                                    module_resolved: Some("0_a".to_string()),
                                    global_resolved: Some(GlobalName {
                                        module: "/root/test/example".to_string(),
                                        name: "0_a".to_string(),
                                    }),
                                },
                                args: vec![],
                            }),
                        )),
                        type_: None,
                    },
                )))],
            }),
            mods: vec![],
            args: vec![],
        })
    );

    let gr = GlobalName { module: "/root/test/example".to_string(), name: "0_a".to_string() };

    assert_eq!(
        definition_table.function_definitions.get(&gr),
        Some(&ingfront::ast::FnDef {
            name: Reference {
                raw: "a".to_string(),
                module_resolved: Some("0_a".to_string()),
                global_resolved: Some(GlobalName {
                    module: "/root/test/example".to_string(),
                    name: "0_a".to_string(),
                }),
            },
            return_type: Type::Void,
            body: Some(Block { definitions: vec![], statements: vec![] }),
            mods: vec![],
            args: vec![],
        })
    );
}

#[test]
fn test_import_cross_package() {
    let mut mock_file_system = MockFileSystem::new("/".to_string());
    mock_file_system
        .insert_file("/main.ing", "mod test; use std::test::example::a; fn main() { a(); }");
    mock_file_system.insert_file("/test.ing", "pub mod example;");
    mock_file_system.insert_dir("/test/");
    mock_file_system.insert_file("/test/example.ing", "pub fn a() {};");

    let mut program = Packager::new("pkg", FileRetriever::new(mock_file_system).unwrap());

    let definition_table = program.merge_modules().unwrap().private_definitions;

    assert_eq!(definition_table.function_definitions.len(), 2);
    assert_eq!(definition_table.struct_definitions.len(), 0);
    assert_eq!(definition_table.global_var_definitions.len(), 0);

    let gr = GlobalName { module: "/root".to_string(), name: "0_main".to_string() };

    let main_def = definition_table.function_definitions.get(&gr).unwrap();
    assert_eq!(
        main_def.body.as_ref().unwrap().statements[0],
        StatementBlock::Statement(Statement::Expression(Box::new(Expression {
            expr: ExpressionEnum::AtomicExpression(AtomicExpression::FnCall(Box::new(FnCall {
                name: Reference {
                    raw: "a".to_string(),
                    module_resolved: Some("0_a".to_string()),
                    global_resolved: Some(GlobalName {
                        module: "std/test/example".to_string(),
                        name: "0_a".to_string(),
                    }),
                },
                args: vec![],
            }))),
            type_: None,
        })))
    );

    let foreign = GlobalName { module: "std/test/example".to_string(), name: "0_a".to_string() };
    assert!(definition_table.function_definitions.get(&foreign).is_none());
}

#[test]
fn test_use_own_package_name_matches_root() {
    // A `use` through the package's own name resolves to the same
    // global name as one through the literal `root`.
    let mut fs = MockFileSystem::new("/".to_string());
    fs.insert_file("/main.ing", "mod test; use pkg::test::example::a; fn main() { a(); }");
    fs.insert_file("/test.ing", "pub mod example;");
    fs.insert_dir("/test/");
    fs.insert_file("/test/example.ing", "pub fn a() {};");

    let mut program = Packager::new("pkg", FileRetriever::new(fs).unwrap());
    let table = program.merge_modules().unwrap().private_definitions;
    let gr = GlobalName { module: "/root".to_string(), name: "0_main".to_string() };
    let main_def = table.function_definitions.get(&gr).unwrap();
    match &main_def.body.as_ref().unwrap().statements[0] {
        StatementBlock::Statement(Statement::Expression(e)) => match &e.expr {
            ExpressionEnum::AtomicExpression(AtomicExpression::FnCall(c)) => {
                assert_eq!(
                    c.name.global_resolved,
                    Some(GlobalName {
                        module: "/root/test/example".to_string(),
                        name: "0_a".to_string(),
                    })
                );
            }
            other => panic!("unexpected expression {:?}", other),
        },
        other => panic!("unexpected statement {:?}", other),
    }
}

#[test]
fn test_missing_module_file() {
    let mut fs = MockFileSystem::new("/".to_string());
    fs.insert_file("/main.ing", "mod test; fn main() {}");
    let r = FileRetriever::new(fs);
    assert_eq!(r.err(), Some(RetrieverError::MissingModuleFile("/test.ing".to_string())));
}

#[test]
fn test_duplicate_module() {
    let mut fs = MockFileSystem::new("/".to_string());
    fs.insert_file("/main.ing", "mod test; mod test; fn main() {}");
    fs.insert_file("/test.ing", "");
    let r = FileRetriever::new(fs);
    assert_eq!(r.err(), Some(RetrieverError::DuplicateModule("test".to_string())));
}

#[test]
fn test_parse_failure() {
    let mut fs = MockFileSystem::new("/".to_string());
    fs.insert_file("/main.ing", "fn main( {}");
    let r = FileRetriever::new(fs);
    match r {
        Err(RetrieverError::ParseFailure(path, _)) => assert_eq!(path, "/main.ing".to_string()),
        other => panic!("expected a parse failure, got {:?}", other),
    }
}

#[test]
fn test_undefined_variable() {
    let mut fs = MockFileSystem::new("/".to_string());
    fs.insert_file("/main.ing", "fn main() { b(); }");
    let mut program = Packager::new("pkg", FileRetriever::new(fs).unwrap());
    assert_eq!(
        program.merge_modules().err(),
        Some(MergeError::UndefinedVariable("b".to_string()))
    );
}

#[test]
fn test_redefinition() {
    let mut fs = MockFileSystem::new("/".to_string());
    fs.insert_file("/main.ing", "fn main() {} fn main() {}");
    let mut program = Packager::new("pkg", FileRetriever::new(fs).unwrap());
    assert_eq!(program.merge_modules().err(), Some(MergeError::Redefinition("main".to_string())));
}

#[test]
fn test_unresolved_import() {
    let mut fs = MockFileSystem::new("/".to_string());
    fs.insert_file("/main.ing", "mod test; use root::test::example::b; fn main() { b(); }");
    fs.insert_file("/test.ing", "pub mod example;");
    fs.insert_dir("/test/");
    fs.insert_file("/test/example.ing", "pub fn a() {};");
    let mut program = Packager::new("pkg", FileRetriever::new(fs).unwrap());
    assert_eq!(
        program.merge_modules().err(),
        Some(MergeError::UnresolvedImport("/root/test/example".to_string(), "b".to_string()))
    );
}

#[test]
fn test_unresolved_struct_reference() {
    let mut fs = MockFileSystem::new("/".to_string());
    fs.insert_file("/main.ing", "fn main() { let x: S = 1; }");
    let mut program = Packager::new("pkg", FileRetriever::new(fs).unwrap());
    assert_eq!(
        program.merge_modules().err(),
        Some(MergeError::UnresolvedReference("S".to_string()))
    );
}

#[test]
fn test_type_mismatch_in_declaration() {
    // `let x: Int = true;` is a type error.
    let mut fs = MockFileSystem::new("/".to_string());
    fs.insert_file("/main.ing", "fn main() { let x: Int = true; }");
    let mut program = Packager::new("pkg", FileRetriever::new(fs).unwrap());
    let merged = program.merge_modules().unwrap();
    let mut front = FrontProgram { definitions: merged.private_definitions };
    let r = insert_types(&mut front, NameMap::new());
    assert_eq!(r, Err(ResolverError::TypeError(TypeError::MultipleTypes)));
}

#[test]
fn test_types_inserted_everywhere() {
    // After type resolution every expression carries a type.
    let mut fs = MockFileSystem::new("/".to_string());
    fs.insert_file("/main.ing", "fn main() { let x: Int = 1; let y: Bool = true; main(); }");
    let mut program = Packager::new("pkg", FileRetriever::new(fs).unwrap());
    let merged = program.merge_modules().unwrap();
    let mut front = FrontProgram { definitions: merged.private_definitions };
    let r = insert_types(&mut front, NameMap::new());
    assert_eq!(r, Ok(()));
    let gr = GlobalName { module: "/root".to_string(), name: "0_main".to_string() };
    let main_def = front.definitions.function_definitions.get(&gr).unwrap();
    let body = main_def.body.as_ref().unwrap();
    assert_eq!(body.statements.len(), 3);
    for s in &body.statements {
        match s {
            StatementBlock::Statement(Statement::VarDecl(d)) => {
                assert!(d.expr.as_ref().unwrap().type_.is_some());
            }
            StatementBlock::Statement(Statement::Expression(e)) => {
                assert_eq!(e.type_, Some(Type::Void));
            }
            other => panic!("unexpected statement {:?}", other),
        }
    }
}

#[test]
fn test_type_resolution_idempotent() {
    // Running type resolution twice gives the same table.
    let mut fs = MockFileSystem::new("/".to_string());
    fs.insert_file("/main.ing", "fn main() { let x: Int = 1; main(); }");
    let mut program = Packager::new("pkg", FileRetriever::new(fs).unwrap());
    let merged = program.merge_modules().unwrap();
    let mut front = FrontProgram { definitions: merged.private_definitions };
    assert_eq!(insert_types(&mut front, NameMap::new()), Ok(()));
    let first = format!("{:?}", front);
    assert_eq!(insert_types(&mut front, NameMap::new()), Ok(()));
    let second = format!("{:?}", front);
    assert_eq!(first, second);
}
