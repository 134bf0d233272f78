use ingfront::ast::{
    AtomicExpression, BinOp, Block, Expression, ExpressionEnum, FnDef, LiteralValue, NamePath,
    Reference, Statement, StatementBlock, StructDef, Type, UnOp, VarDecl, VarDef,
};
use ingfront::names::{itoa, name_format, GlobalName};
use ingfront::scope::{ScopeTable, SymbolKind};
use ingfront::table::{DefinitionTable, FrontProgram, NameMap};
use ingfront::types::{
    binop_type_resolver, get_type_from_name_path, insert_types, literal_types, type_eq,
    unop_type_resolver, ResolverError, TypeError,
};

#[test]
fn test_itoa_renders_decimal() {
    assert_eq!(itoa(0), "0".to_string());
    assert_eq!(itoa(7), "7".to_string());
    assert_eq!(itoa(12), "12".to_string());
    assert_eq!(itoa(90210), "90210".to_string());
}

#[test]
fn test_name_format_shape() {
    assert_eq!(name_format("main", 0), "0_main".to_string());
    assert_eq!(name_format("x", 1), "1_x".to_string());
    assert_eq!(name_format("a_b", 12), "12_a_b".to_string());
}

#[test]
fn test_scope_bind_mints_shadow_indices() {
    let mut st = ScopeTable::new();
    st.scope_enter();
    assert_eq!(st.scope_bind("x", SymbolKind::Var), Ok("0_x".to_string()));
    st.scope_enter();
    assert_eq!(st.scope_bind("x", SymbolKind::Var), Ok("1_x".to_string()));
    assert_eq!(st.scope_lookup("x", SymbolKind::Var), Some("1_x".to_string()));
    st.scope_exit();
    // The outer binding is restored on scope exit.
    assert_eq!(st.scope_lookup("x", SymbolKind::Var), Some("0_x".to_string()));
}

#[test]
fn test_scope_redefinition_in_same_frame() {
    let mut st = ScopeTable::new();
    st.scope_enter();
    assert!(st.scope_bind("x", SymbolKind::Var).is_ok());
    assert!(st.scope_bind("x", SymbolKind::Var).is_err());
    // Another name space of the same frame is independent.
    assert!(st.scope_bind("x", SymbolKind::Fn).is_ok());
}

#[test]
fn test_scope_kinds_share_one_counter() {
    let mut st = ScopeTable::new();
    st.scope_enter();
    assert_eq!(st.scope_bind("x", SymbolKind::Fn), Ok("0_x".to_string()));
    assert_eq!(st.scope_bind("x", SymbolKind::Var), Ok("1_x".to_string()));
    assert_eq!(st.scope_lookup("x", SymbolKind::Fn), Some("0_x".to_string()));
    assert_eq!(st.scope_lookup("x", SymbolKind::Var), Some("1_x".to_string()));
    assert_eq!(st.scope_lookup("x", SymbolKind::Struct), None);
}

#[test]
fn test_literal_types_table() {
    assert_eq!(literal_types(&LiteralValue::Null), Type::Void);
    assert_eq!(literal_types(&LiteralValue::Bool(true)), Type::Bool);
    assert_eq!(literal_types(&LiteralValue::Int(3)), Type::Int);
    assert_eq!(literal_types(&LiteralValue::Decimal("2.5".to_string())), Type::Double);
    assert_eq!(literal_types(&LiteralValue::String("s".to_string())), Type::String);
}

#[test]
fn test_unop_rules() {
    assert_eq!(unop_type_resolver(&UnOp::Neg, Type::Int), Ok(Type::Int));
    assert_eq!(unop_type_resolver(&UnOp::Neg, Type::Double), Ok(Type::Double));
    assert_eq!(unop_type_resolver(&UnOp::Neg, Type::Bool), Err(TypeError::UnaryMismatch));
    assert_eq!(unop_type_resolver(&UnOp::Not, Type::Bool), Ok(Type::Bool));
    assert_eq!(unop_type_resolver(&UnOp::Not, Type::Int), Err(TypeError::UnaryMismatch));
    assert_eq!(unop_type_resolver(&UnOp::Ref, Type::String), Ok(Type::String));
    assert_eq!(unop_type_resolver(&UnOp::Deref, Type::Int), Ok(Type::Int));
    assert_eq!(unop_type_resolver(&UnOp::PostInc, Type::Int), Ok(Type::Int));
    assert_eq!(unop_type_resolver(&UnOp::PreDec, Type::Float), Err(TypeError::UnaryMismatch));
}

#[test]
fn test_binop_rules() {
    assert_eq!(binop_type_resolver(&BinOp::Add, Type::Int, &Type::Int), Ok(Type::Int));
    assert_eq!(binop_type_resolver(&BinOp::Mul, Type::Float, &Type::Float), Ok(Type::Float));
    assert_eq!(
        binop_type_resolver(&BinOp::Add, Type::Int, &Type::Bool),
        Err(TypeError::BinaryMismatch)
    );
    assert_eq!(binop_type_resolver(&BinOp::Mod, Type::Int, &Type::Int), Ok(Type::Int));
    assert_eq!(
        binop_type_resolver(&BinOp::Mod, Type::Float, &Type::Float),
        Err(TypeError::BinaryMismatch)
    );
    assert_eq!(binop_type_resolver(&BinOp::Lt, Type::Double, &Type::Double), Ok(Type::Bool));
    assert_eq!(
        binop_type_resolver(&BinOp::Lt, Type::Bool, &Type::Bool),
        Err(TypeError::BinaryMismatch)
    );
    assert_eq!(binop_type_resolver(&BinOp::Eq, Type::String, &Type::String), Ok(Type::Bool));
    assert_eq!(binop_type_resolver(&BinOp::And, Type::Bool, &Type::Bool), Ok(Type::Bool));
    assert_eq!(
        binop_type_resolver(&BinOp::Or, Type::Int, &Type::Int),
        Err(TypeError::BinaryMismatch)
    );
}

#[test]
fn test_type_eq_is_nominal() {
    let s1 = Type::Struct(Reference {
        raw: "P".to_string(),
        module_resolved: Some("0_P".to_string()),
        global_resolved: Some(GlobalName { module: "/root".to_string(), name: "0_P".to_string() }),
    });
    let s2 = Type::Struct(Reference {
        raw: "Q".to_string(),
        module_resolved: Some("0_Q".to_string()),
        global_resolved: Some(GlobalName { module: "/root".to_string(), name: "0_P".to_string() }),
    });
    let s3 = Type::Struct(Reference {
        raw: "P".to_string(),
        module_resolved: Some("0_P".to_string()),
        global_resolved: Some(GlobalName { module: "/root".to_string(), name: "0_Q".to_string() }),
    });
    assert!(type_eq(&s1, &s2));
    assert!(!type_eq(&s1, &s3));
    assert!(type_eq(&Type::Int, &Type::Int));
    assert!(!type_eq(&Type::Int, &Type::Double));
}

fn point_struct() -> (GlobalName, StructDef) {
    let key = GlobalName { module: "/root".to_string(), name: "0_Point".to_string() };
    let def = StructDef {
        mods: vec![],
        name: Reference {
            raw: "Point".to_string(),
            module_resolved: Some("0_Point".to_string()),
            global_resolved: Some(GlobalName {
                module: "/root".to_string(),
                name: "0_Point".to_string(),
            }),
        },
        fields: vec![("x".to_string(), Type::Int), ("y".to_string(), Type::Double)],
    };
    (key, def)
}

#[test]
fn test_get_type_from_name_path() {
    let (key, def) = point_struct();
    let mut table = DefinitionTable::new();
    table.struct_definitions.insert(key, def);
    let program = FrontProgram { definitions: table };
    let mut var_types: NameMap<Type> = NameMap::new();
    let vg = GlobalName { module: "/root".to_string(), name: "0_p".to_string() };
    var_types.insert(
        vg,
        Type::Struct(Reference {
            raw: "Point".to_string(),
            module_resolved: Some("0_Point".to_string()),
            global_resolved: Some(GlobalName {
                module: "/root".to_string(),
                name: "0_Point".to_string(),
            }),
        }),
    );
    let np = NamePath {
        name: Reference {
            raw: "p".to_string(),
            module_resolved: Some("0_p".to_string()),
            global_resolved: Some(GlobalName {
                module: "/root".to_string(),
                name: "0_p".to_string(),
            }),
        },
        path: vec!["y".to_string()],
    };
    assert_eq!(get_type_from_name_path(&np, &program, &var_types), Ok(Type::Double));

    let bad = NamePath {
        name: Reference {
            raw: "p".to_string(),
            module_resolved: Some("0_p".to_string()),
            global_resolved: Some(GlobalName {
                module: "/root".to_string(),
                name: "0_p".to_string(),
            }),
        },
        path: vec!["z".to_string()],
    };
    assert_eq!(
        get_type_from_name_path(&bad, &program, &var_types),
        Err(ResolverError::TypeError(TypeError::BadFieldAccess))
    );
}

fn fn_with_body(return_type: Type, statements: Vec<StatementBlock>) -> FrontProgram {
    let key = GlobalName { module: "/root".to_string(), name: "0_f".to_string() };
    let def = FnDef {
        return_type,
        mods: vec![],
        name: Reference {
            raw: "f".to_string(),
            module_resolved: Some("0_f".to_string()),
            global_resolved: Some(GlobalName {
                module: "/root".to_string(),
                name: "0_f".to_string(),
            }),
        },
        args: vec![],
        body: Some(Block { definitions: vec![], statements }),
    };
    let mut table = DefinitionTable::new();
    table.function_definitions.insert(key, def);
    FrontProgram { definitions: table }
}

fn int_expr(v: i32) -> Expression {
    Expression {
        expr: ExpressionEnum::AtomicExpression(AtomicExpression::Literal(LiteralValue::Int(v))),
        type_: None,
    }
}

#[test]
fn test_return_mismatch() {
    let mut program = fn_with_body(
        Type::Void,
        vec![StatementBlock::Statement(Statement::Return(Box::new(int_expr(1))))],
    );
    assert_eq!(
        insert_types(&mut program, NameMap::new()),
        Err(ResolverError::TypeError(TypeError::ReturnMismatch))
    );
}

#[test]
fn test_non_bool_condition() {
    let body = Block { definitions: vec![], statements: vec![] };
    let w = ingfront::ast::While { cond: Box::new(int_expr(1)), body: Box::new(body) };
    let mut program = fn_with_body(
        Type::Void,
        vec![StatementBlock::Statement(Statement::While(w))],
    );
    assert_eq!(
        insert_types(&mut program, NameMap::new()),
        Err(ResolverError::TypeError(TypeError::NonBoolCondition))
    );
}

#[test]
fn test_unary_mismatch_in_body() {
    let inner = int_expr(1);
    let neg_bool = Expression {
        expr: ExpressionEnum::Unary(
            UnOp::Not,
            Box::new(inner),
        ),
        type_: None,
    };
    let mut program = fn_with_body(
        Type::Void,
        vec![StatementBlock::Statement(Statement::Expression(Box::new(neg_bool)))],
    );
    assert_eq!(
        insert_types(&mut program, NameMap::new()),
        Err(ResolverError::TypeError(TypeError::UnaryMismatch))
    );
}

#[test]
fn test_binary_annotation() {
    let sum = Expression {
        expr: ExpressionEnum::Binary(Box::new(int_expr(1)), BinOp::Add, Box::new(int_expr(2))),
        type_: None,
    };
    let mut program = fn_with_body(
        Type::Void,
        vec![StatementBlock::Statement(Statement::Expression(Box::new(sum)))],
    );
    assert_eq!(insert_types(&mut program, NameMap::new()), Ok(()));
    let key = GlobalName { module: "/root".to_string(), name: "0_f".to_string() };
    let def = program.definitions.function_definitions.get(&key).unwrap();
    match &def.body.as_ref().unwrap().statements[0] {
        StatementBlock::Statement(Statement::Expression(e)) => {
            assert_eq!(e.type_, Some(Type::Int));
            match &e.expr {
                ExpressionEnum::Binary(l, _, r) => {
                    assert_eq!(l.type_, Some(Type::Int));
                    assert_eq!(r.type_, Some(Type::Int));
                }
                other => panic!("unexpected expression {:?}", other),
            }
        }
        other => panic!("unexpected statement {:?}", other),
    }
}

#[test]
fn test_missing_resolution_is_internal_error() {
    let key = GlobalName { module: "/root".to_string(), name: "0_f".to_string() };
    let def = FnDef {
        return_type: Type::Void,
        mods: vec![],
        name: Reference::new("f".to_string()),
        args: vec![],
        body: None,
    };
    let mut table = DefinitionTable::new();
    table.function_definitions.insert(key, def);
    let mut program = FrontProgram { definitions: table };
    assert_eq!(
        insert_types(&mut program, NameMap::new()),
        Err(ResolverError::MissingResolution)
    );
}

#[test]
fn test_shadowed_declarations_get_distinct_names() {
    // A block `{ let x: Int = 1; { let x: Bool = true; } }` produces
    // two variable definitions whose module-resolved names differ by
    // shadow index.
    let inner_decl = VarDecl {
        var_def: VarDef {
            mods: vec![],
            name: Reference::new("x".to_string()),
            type_: Type::Bool,
        },
        expr: Some(Box::new(Expression {
            expr: ExpressionEnum::AtomicExpression(AtomicExpression::Literal(LiteralValue::Bool(
                true,
            ))),
            type_: None,
        })),
    };
    let outer_decl = VarDecl {
        var_def: VarDef {
            mods: vec![],
            name: Reference::new("x".to_string()),
            type_: Type::Int,
        },
        expr: Some(Box::new(int_expr(1))),
    };
    let inner_block = Block {
        definitions: vec![],
        statements: vec![StatementBlock::Statement(Statement::VarDecl(inner_decl))],
    };
    let module = ingfront::ast::Module {
        mods: vec![],
        uses: vec![],
        public_definitions: vec![],
        block: Block {
            definitions: vec![ingfront::ast::Definition::FnDef(FnDef {
                return_type: Type::Void,
                mods: vec![],
                name: Reference::new("f".to_string()),
                args: vec![],
                body: Some(Block {
                    definitions: vec![],
                    statements: vec![
                        StatementBlock::Statement(Statement::VarDecl(outer_decl)),
                        StatementBlock::Block(inner_block),
                    ],
                }),
            })],
            statements: vec![],
        },
    };
    let resolved = ingfront::resolver::resolve_module(module).unwrap();
    match &resolved.block.definitions[0] {
        ingfront::ast::Definition::FnDef(f) => {
            let body = f.body.as_ref().unwrap();
            let outer = match &body.statements[0] {
                StatementBlock::Statement(Statement::VarDecl(d)) => {
                    d.var_def.name.module_resolved.clone()
                }
                other => panic!("unexpected statement {:?}", other),
            };
            let inner = match &body.statements[1] {
                StatementBlock::Block(b) => match &b.statements[0] {
                    StatementBlock::Statement(Statement::VarDecl(d)) => {
                        d.var_def.name.module_resolved.clone()
                    }
                    other => panic!("unexpected statement {:?}", other),
                },
                other => panic!("unexpected statement {:?}", other),
            };
            assert_eq!(outer, Some("0_x".to_string()));
            assert_eq!(inner, Some("1_x".to_string()));
        }
        other => panic!("unexpected definition {:?}", other),
    }
}
