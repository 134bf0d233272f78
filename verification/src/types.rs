//! The type resolver: a two-pass walk over the merged definition table.
//! Pass one records the declared type of every variable and the return
//! type of every function under their global names; pass two annotates
//! every expression bottom-up and enforces the type rules at
//! declarations, assignments, conditions and returns.

use vstd::prelude::*;
use crate::ast::{
    AtomicExpression, Block, CompoundValue, Expression, ExpressionEnum, FnDef, LiteralValue,
    FnCall, NamePath, Statement, StatementBlock, StructDef, StructInit, Type, UnOp, BinOp, VarDecl,
};
use crate::ast::{
    size_atomic, size_block, size_compound, size_compound_value, size_expr, size_exprs, size_for,
    size_if, size_literal, size_stmt, size_stmt_block, size_stmts,
};
use crate::names::GlobalNameV;
use crate::table::{FrontProgram, NameMap};

verus! {

/// The type errors of the front-end.
#[derive(Debug, PartialEq, Eq, Structural, Clone, Copy)]
pub enum TypeError {
    MultipleTypes,
    UnaryMismatch,
    BinaryMismatch,
    BadFieldAccess,
    ReturnMismatch,
    NonBoolCondition,
}

/// What the type resolver surfaces: a type error of the user's program,
/// or a reference that reached it without a global name — an internal
/// fault of the front-end, never caused by valid input.
#[derive(Debug, PartialEq, Eq, Structural, Clone, Copy)]
pub enum ResolverError {
    TypeError(TypeError),
    MissingResolution,
}

/// Nominal type equality: primitive types by variant, struct types by
/// their global resolved name.
pub open spec fn type_matches(a: Type, b: Type) -> bool {
    match (a, b) {
        (Type::Void, Type::Void) => true,
        (Type::Bool, Type::Bool) => true,
        (Type::Int, Type::Int) => true,
        (Type::Float, Type::Float) => true,
        (Type::Double, Type::Double) => true,
        (Type::String, Type::String) => true,
        (Type::Struct(r1), Type::Struct(r2)) => match (r1.global_resolved, r2.global_resolved) {
            (Some(g1), Some(g2)) => g1@ == g2@,
            _ => false,
        },
        _ => false,
    }
}

pub fn type_eq(a: &Type, b: &Type) -> (r: bool)
    ensures
        r == type_matches(*a, *b),
{
    match (a, b) {
        (Type::Void, Type::Void) => true,
        (Type::Bool, Type::Bool) => true,
        (Type::Int, Type::Int) => true,
        (Type::Float, Type::Float) => true,
        (Type::Double, Type::Double) => true,
        (Type::String, Type::String) => true,
        (Type::Struct(r1), Type::Struct(r2)) => match (&r1.global_resolved, &r2.global_resolved) {
            (Some(g1), Some(g2)) => g1.same(g2),
            _ => false,
        },
        _ => false,
    }
}

pub open spec fn is_numeric(t: Type) -> bool {
    t is Int || t is Float || t is Double
}

/// The type of a literal. A decimal literal is a double; a compound
/// literal is validated against its enclosing struct initialiser and
/// carries no type of its own.
pub open spec fn literal_type_spec(l: LiteralValue) -> Type {
    match l {
        LiteralValue::Null => Type::Void,
        LiteralValue::Bool(_) => Type::Bool,
        LiteralValue::Int(_) => Type::Int,
        LiteralValue::Decimal(_) => Type::Double,
        LiteralValue::String(_) => Type::String,
        LiteralValue::Compound(_) => Type::Void,
    }
}

pub fn literal_types(l: &LiteralValue) -> (r: Type)
    ensures
        r == literal_type_spec(*l),
{
    match l {
        LiteralValue::Null => Type::Void,
        LiteralValue::Bool(_) => Type::Bool,
        LiteralValue::Int(_) => Type::Int,
        LiteralValue::Decimal(_) => Type::Double,
        LiteralValue::String(_) => Type::String,
        LiteralValue::Compound(_) => Type::Void,
    }
}

/// The unary operator rules: negation on numeric types, `!` on `Bool`,
/// reference and dereference as identity, increments and decrements on
/// `Int` only.
pub open spec fn unop_type_spec(op: UnOp, t: Type) -> Result<Type, TypeError> {
    match op {
        UnOp::Neg => if is_numeric(t) {
            Ok(t)
        } else {
            Err(TypeError::UnaryMismatch)
        },
        UnOp::Not => if t is Bool {
            Ok(t)
        } else {
            Err(TypeError::UnaryMismatch)
        },
        UnOp::Deref => Ok(t),
        UnOp::Ref => Ok(t),
        UnOp::PreInc | UnOp::PreDec | UnOp::PostInc | UnOp::PostDec => if t is Int {
            Ok(t)
        } else {
            Err(TypeError::UnaryMismatch)
        },
    }
}

pub fn unop_type_resolver(op: &UnOp, t: Type) -> (r: Result<Type, TypeError>)
    ensures
        r == unop_type_spec(*op, t),
{
    let numeric = match t {
        Type::Int | Type::Float | Type::Double => true,
        _ => false,
    };
    match op {
        UnOp::Neg => if numeric {
            Ok(t)
        } else {
            Err(TypeError::UnaryMismatch)
        },
        UnOp::Not => match t {
            Type::Bool => Ok(t),
            _ => Err(TypeError::UnaryMismatch),
        },
        UnOp::Deref => Ok(t),
        UnOp::Ref => Ok(t),
        UnOp::PreInc | UnOp::PreDec | UnOp::PostInc | UnOp::PostDec => match t {
            Type::Int => Ok(t),
            _ => Err(TypeError::UnaryMismatch),
        },
    }
}

/// The binary operator rules: arithmetic on equal numeric types with
/// `%` on `Int` only, ordering on equal numeric types, equality on any
/// equal types, boolean connectives on `Bool`.
pub open spec fn binop_type_spec(op: BinOp, l: Type, r: Type) -> Result<Type, TypeError> {
    match op {
        BinOp::Add | BinOp::Sub | BinOp::Mul | BinOp::Div => if type_matches(l, r) && is_numeric(
            l,
        ) {
            Ok(l)
        } else {
            Err(TypeError::BinaryMismatch)
        },
        BinOp::Mod => if l is Int && r is Int {
            Ok(l)
        } else {
            Err(TypeError::BinaryMismatch)
        },
        BinOp::Lt | BinOp::Gt | BinOp::Leq | BinOp::Geq => if type_matches(l, r) && is_numeric(l) {
            Ok(Type::Bool)
        } else {
            Err(TypeError::BinaryMismatch)
        },
        BinOp::Eq | BinOp::Neq => if type_matches(l, r) {
            Ok(Type::Bool)
        } else {
            Err(TypeError::BinaryMismatch)
        },
        BinOp::And | BinOp::Or => if l is Bool && r is Bool {
            Ok(Type::Bool)
        } else {
            Err(TypeError::BinaryMismatch)
        },
    }
}

pub fn binop_type_resolver(op: &BinOp, l: Type, r: &Type) -> (res: Result<Type, TypeError>)
    ensures
        res == binop_type_spec(*op, l, *r),
{
    let same = type_eq(&l, r);
    let numeric = match l {
        Type::Int | Type::Float | Type::Double => true,
        _ => false,
    };
    match op {
        BinOp::Add | BinOp::Sub | BinOp::Mul | BinOp::Div => if same && numeric {
            Ok(l)
        } else {
            Err(TypeError::BinaryMismatch)
        },
        BinOp::Mod => {
            let both_int = match (&l, r) {
                (Type::Int, Type::Int) => true,
                _ => false,
            };
            if both_int {
                Ok(l)
            } else {
                Err(TypeError::BinaryMismatch)
            }
        },
        BinOp::Lt | BinOp::Gt | BinOp::Leq | BinOp::Geq => if same && numeric {
            Ok(Type::Bool)
        } else {
            Err(TypeError::BinaryMismatch)
        },
        BinOp::Eq | BinOp::Neq => if same {
            Ok(Type::Bool)
        } else {
            Err(TypeError::BinaryMismatch)
        },
        BinOp::And | BinOp::Or => {
            let both_bool = match (&l, r) {
                (Type::Bool, Type::Bool) => true,
                _ => false,
            };
            if both_bool {
                Ok(Type::Bool)
            } else {
                Err(TypeError::BinaryMismatch)
            }
        },
    }
}

// ---------------------------------------------------------------------
// Field access through dotted name paths.
// ---------------------------------------------------------------------

pub open spec fn field_lookup(fields: Seq<(String, Type)>, name: Seq<char>) -> Option<Type>
    decreases fields.len(),
{
    if fields.len() == 0 {
        None
    } else if fields[0].0@ == name {
        Some(fields[0].1)
    } else {
        field_lookup(fields.drop_first(), name)
    }
}

/// Follows the field path segments from a head type: each intermediate
/// type must be a struct of the table, each segment one of its fields.
pub open spec fn walk_fields_spec(
    t: Type,
    path: Seq<String>,
    structs: Map<GlobalNameV, StructDef>,
) -> Result<Type, TypeError>
    decreases path.len(),
{
    if path.len() == 0 {
        Ok(t)
    } else {
        match t {
            Type::Struct(r) => match r.global_resolved {
                Some(g) => if structs.contains_key(g@) {
                    match field_lookup(structs[g@].fields@, path[0]@) {
                        Some(ft) => walk_fields_spec(ft, path.drop_first(), structs),
                        None => Err(TypeError::BadFieldAccess),
                    }
                } else {
                    Err(TypeError::BadFieldAccess)
                },
                None => Err(TypeError::BadFieldAccess),
            },
            _ => Err(TypeError::BadFieldAccess),
        }
    }
}

fn field_lookup_exec(fields: &Vec<(String, Type)>, name: &String) -> (r: Option<Type>)
    ensures
        r == field_lookup(fields@, name@),
{
    let n = fields.len();
    let mut i: usize = 0;
    assert(fields@.subrange(0, n as int) =~= fields@);
    while i < n
        invariant
            i <= n,
            n == fields@.len(),
            field_lookup(fields@, name@) == field_lookup(
                fields@.subrange(i as int, n as int),
                name@,
            ),
        decreases n - i,
    {
        let ghost tail = fields@.subrange(i as int, n as int);
        assert(tail[0] == fields@[i as int]);
        if crate::names::str_eq(fields[i].0.as_str(), name.as_str()) {
            return Some(crate::merger::copy_type(&fields[i].1));
        }
        proof {
            assert(tail.drop_first() =~= fields@.subrange(i + 1, n as int));
        }
        i += 1;
    }
    proof {
        assert(fields@.subrange(n as int, n as int).len() == 0);
    }
    None
}

/// The type a dotted name path denotes: the head variable's recorded
/// type, advanced through the struct fields its segments name.
pub fn get_type_from_name_path(
    name_path: &NamePath,
    program: &FrontProgram,
    var_types: &NameMap<Type>,
) -> (r: Result<Type, ResolverError>)
    requires
        var_types.wf(),
        program.definitions.struct_definitions.wf(),
    ensures
        match r {
            Ok(t) => match name_path.name.global_resolved {
                Some(g) => var_types@.contains_key(g@) && walk_fields_spec(
                    var_types@[g@],
                    name_path.path@,
                    program.definitions.struct_definitions@,
                ) == Ok::<Type, TypeError>(t),
                None => false,
            },
            Err(ResolverError::TypeError(te)) => match name_path.name.global_resolved {
                Some(g) => var_types@.contains_key(g@) && walk_fields_spec(
                    var_types@[g@],
                    name_path.path@,
                    program.definitions.struct_definitions@,
                ) == Err::<Type, TypeError>(te),
                None => false,
            },
            Err(ResolverError::MissingResolution) => name_path.name.global_resolved is None
                || (match name_path.name.global_resolved {
                Some(g) => !var_types@.contains_key(g@),
                None => true,
            }),
        },
{
    let g = match &name_path.name.global_resolved {
        Some(g) => g,
        None => {
            return Err(ResolverError::MissingResolution);
        },
    };
    let head = match var_types.get(g) {
        Some(t) => crate::merger::copy_type(t),
        None => {
            return Err(ResolverError::MissingResolution);
        },
    };
    let ghost head0 = head;
    let ghost g0 = name_path.name.global_resolved;
    let n = name_path.path.len();
    let mut t = head;
    let mut i: usize = 0;
    assert(name_path.path@.subrange(0, n as int) =~= name_path.path@);
    while i < n
        invariant
            i <= n,
            n == name_path.path@.len(),
            program.definitions.struct_definitions.wf(),
            name_path.name.global_resolved == g0,
            (match g0 {
                Some(g) => var_types@.contains_key(g@) && var_types@[g@] == head0,
                None => false,
            }),
            walk_fields_spec(
                t,
                name_path.path@.subrange(i as int, n as int),
                program.definitions.struct_definitions@,
            ) == walk_fields_spec(
                head0,
                name_path.path@,
                program.definitions.struct_definitions@,
            ),
        decreases n - i,
    {
        let ghost tail = name_path.path@.subrange(i as int, n as int);
        assert(tail[0] == name_path.path@[i as int]);
        let gs = match t {
            Type::Struct(r) => match r.global_resolved {
                Some(gs) => gs,
                None => {
                    return Err(ResolverError::TypeError(TypeError::BadFieldAccess));
                },
            },
            _ => {
                return Err(ResolverError::TypeError(TypeError::BadFieldAccess));
            },
        };
        let sd = match program.definitions.struct_definitions.get(&gs) {
            Some(sd) => sd,
            None => {
                return Err(ResolverError::TypeError(TypeError::BadFieldAccess));
            },
        };
        let ft = match field_lookup_exec(&sd.fields, &name_path.path[i]) {
            Some(ft) => ft,
            None => {
                return Err(ResolverError::TypeError(TypeError::BadFieldAccess));
            },
        };
        proof {
            assert(tail.drop_first() =~= name_path.path@.subrange(i + 1, n as int));
        }
        t = ft;
        i += 1;
    }
    proof {
        assert(name_path.path@.subrange(n as int, n as int).len() == 0);
    }
    Ok(t)
}

// ---------------------------------------------------------------------
// Full typedness: the state after a successful pass two.
// ---------------------------------------------------------------------

pub open spec fn typed_expr(e: Expression) -> bool
    decreases size_expr(e),
{
    e.type_ is Some && match e.expr {
        ExpressionEnum::AtomicExpression(a) => typed_atomic(a),
        ExpressionEnum::Unary(_, b) => typed_expr(*b),
        ExpressionEnum::Binary(b1, _, b2) => typed_expr(*b1) && typed_expr(*b2),
    }
}

pub open spec fn typed_atomic(a: AtomicExpression) -> bool
    decreases size_atomic(a),
{
    match a {
        AtomicExpression::Literal(l) => typed_literal(l),
        AtomicExpression::Variable(_) => true,
        AtomicExpression::FnCall(f) => typed_exprs(f.args@),
        AtomicExpression::StructInit(s) => typed_compound(s.compound@),
    }
}

pub open spec fn typed_literal(l: LiteralValue) -> bool
    decreases size_literal(l),
{
    match l {
        LiteralValue::Compound(c) => typed_compound(c@),
        _ => true,
    }
}

pub open spec fn typed_compound(s: Seq<(String, CompoundValue)>) -> bool
    decreases size_compound(s),
{
    s.len() == 0 || (typed_compound_value(s[0].1) && typed_compound(s.drop_first()))
}

pub open spec fn typed_compound_value(v: CompoundValue) -> bool
    decreases size_compound_value(v),
{
    match v {
        CompoundValue::Expression(e) => typed_expr(*e),
        CompoundValue::Compound(c) => typed_compound(c@),
    }
}

pub open spec fn typed_exprs(s: Seq<Expression>) -> bool
    decreases size_exprs(s),
{
    s.len() == 0 || (typed_expr(s[0]) && typed_exprs(s.drop_first()))
}

pub open spec fn typed_stmt(s: Statement) -> bool
    decreases size_stmt(s),
{
    match s {
        Statement::VarDecl(d) => match d.expr {
            Some(e) => typed_expr(*e),
            None => true,
        },
        Statement::VarAssign(a) => typed_expr(*a.expr),
        Statement::If(i) => typed_if(i),
        Statement::While(w) => typed_expr(*w.cond) && typed_block(*w.body),
        Statement::For(f) => typed_for(f),
        Statement::Return(e) => typed_expr(*e),
        Statement::Break => true,
        Statement::Continue => true,
        Statement::Expression(e) => typed_expr(*e),
    }
}

pub open spec fn typed_if(i: crate::ast::If) -> bool
    decreases size_if(i),
{
    typed_expr(*i.cond) && typed_block(*i.body) && match i.else_ {
        Some(e) => typed_if(*e),
        None => true,
    }
}

pub open spec fn typed_for(f: crate::ast::For) -> bool
    decreases size_for(f),
{
    (match f.init {
        Some(s) => typed_stmt(*s),
        None => true,
    }) && (match f.cond {
        Some(e) => typed_expr(*e),
        None => true,
    }) && (match f.step {
        Some(s) => typed_stmt(*s),
        None => true,
    }) && typed_block(f.body)
}

pub open spec fn typed_stmt_block(s: StatementBlock) -> bool
    decreases size_stmt_block(s),
{
    match s {
        StatementBlock::Statement(st) => typed_stmt(st),
        StatementBlock::Block(b) => typed_block(b),
    }
}

pub open spec fn typed_stmts(s: Seq<StatementBlock>) -> bool
    decreases size_stmts(s),
{
    s.len() == 0 || (typed_stmt_block(s[0]) && typed_stmts(s.drop_first()))
}

pub open spec fn typed_block(b: Block) -> bool
    decreases size_block(b),
{
    typed_stmts(b.statements@)
}

pub open spec fn typed_fn_def(f: FnDef) -> bool {
    match f.body {
        Some(b) => typed_block(b),
        None => true,
    }
}

// ---------------------------------------------------------------------
// The type every expression receives, as a function of the variable
// types and the struct table. The computation never reads an existing
// annotation, only the untyped structure.
// ---------------------------------------------------------------------

pub open spec fn lift_te(r: Result<Type, TypeError>) -> Result<Type, ResolverError> {
    match r {
        Ok(t) => Ok(t),
        Err(e) => Err(ResolverError::TypeError(e)),
    }
}

pub open spec fn namepath_type_spec(
    np: NamePath,
    env: Map<GlobalNameV, Type>,
    structs: Map<GlobalNameV, StructDef>,
) -> Result<Type, ResolverError> {
    match np.name.global_resolved {
        Some(g) => if env.contains_key(g@) {
            lift_te(walk_fields_spec(env[g@], np.path@, structs))
        } else {
            Err(ResolverError::MissingResolution)
        },
        None => Err(ResolverError::MissingResolution),
    }
}

pub open spec fn expr_type_spec(
    e: Expression,
    env: Map<GlobalNameV, Type>,
    structs: Map<GlobalNameV, StructDef>,
) -> Result<Type, ResolverError>
    decreases size_expr(e),
{
    match e.expr {
        ExpressionEnum::AtomicExpression(a) => atomic_type_spec(a, env, structs),
        ExpressionEnum::Unary(op, b) => match expr_type_spec(*b, env, structs) {
            Ok(t) => lift_te(unop_type_spec(op, t)),
            Err(er) => Err(er),
        },
        ExpressionEnum::Binary(b1, op, b2) => match expr_type_spec(*b1, env, structs) {
            Ok(t1) => match expr_type_spec(*b2, env, structs) {
                Ok(t2) => lift_te(binop_type_spec(op, t1, t2)),
                Err(er) => Err(er),
            },
            Err(er) => Err(er),
        },
    }
}

pub open spec fn atomic_type_spec(
    a: AtomicExpression,
    env: Map<GlobalNameV, Type>,
    structs: Map<GlobalNameV, StructDef>,
) -> Result<Type, ResolverError>
    decreases size_atomic(a),
{
    match a {
        AtomicExpression::Literal(l) => match l {
            LiteralValue::Compound(c) => match compound_type_spec(c@, env, structs) {
                Ok(u) => Ok(Type::Void),
                Err(er) => Err(er),
            },
            _ => Ok(literal_type_spec(l)),
        },
        AtomicExpression::Variable(np) => namepath_type_spec(np, env, structs),
        AtomicExpression::FnCall(f) => match f.name.global_resolved {
            Some(g) => if env.contains_key(g@) {
                match exprs_type_spec(f.args@, env, structs) {
                    Ok(u) => Ok(env[g@]),
                    Err(er) => Err(er),
                }
            } else {
                Err(ResolverError::MissingResolution)
            },
            None => Err(ResolverError::MissingResolution),
        },
        AtomicExpression::StructInit(s) => match compound_type_spec(s.compound@, env, structs) {
            Ok(u) => Ok(Type::Struct(s.type_)),
            Err(er) => Err(er),
        },
    }
}

pub open spec fn exprs_type_spec(
    s: Seq<Expression>,
    env: Map<GlobalNameV, Type>,
    structs: Map<GlobalNameV, StructDef>,
) -> Result<(), ResolverError>
    decreases size_exprs(s),
{
    if s.len() == 0 {
        Ok(())
    } else {
        match expr_type_spec(s[0], env, structs) {
            Ok(t) => exprs_type_spec(s.drop_first(), env, structs),
            Err(er) => Err(er),
        }
    }
}

pub open spec fn compound_type_spec(
    s: Seq<(String, CompoundValue)>,
    env: Map<GlobalNameV, Type>,
    structs: Map<GlobalNameV, StructDef>,
) -> Result<(), ResolverError>
    decreases size_compound(s),
{
    if s.len() == 0 {
        Ok(())
    } else {
        match compound_value_type_spec(s[0].1, env, structs) {
            Ok(u) => compound_type_spec(s.drop_first(), env, structs),
            Err(er) => Err(er),
        }
    }
}

pub open spec fn compound_value_type_spec(
    v: CompoundValue,
    env: Map<GlobalNameV, Type>,
    structs: Map<GlobalNameV, StructDef>,
) -> Result<(), ResolverError>
    decreases size_compound_value(v),
{
    match v {
        CompoundValue::Expression(e) => match expr_type_spec(*e, env, structs) {
            Ok(t) => Ok(()),
            Err(er) => Err(er),
        },
        CompoundValue::Compound(c) => compound_type_spec(c@, env, structs),
    }
}

// ---------------------------------------------------------------------
// The statement-level checks of pass two.
// ---------------------------------------------------------------------

pub open spec fn stmt_type_spec(
    s: Statement,
    env: Map<GlobalNameV, Type>,
    structs: Map<GlobalNameV, StructDef>,
    ret: Type,
) -> Result<(), ResolverError>
    decreases size_stmt(s),
{
    match s {
        Statement::VarDecl(d) => match d.expr {
            Some(e) => match expr_type_spec(*e, env, structs) {
                Ok(t) => if type_matches(t, d.var_def.type_) {
                    Ok(())
                } else {
                    Err(ResolverError::TypeError(TypeError::MultipleTypes))
                },
                Err(er) => Err(er),
            },
            None => Ok(()),
        },
        Statement::VarAssign(a) => match namepath_type_spec(a.name_path, env, structs) {
            Ok(tl) => match expr_type_spec(*a.expr, env, structs) {
                Ok(tr) => if type_matches(tl, tr) {
                    Ok(())
                } else {
                    Err(ResolverError::TypeError(TypeError::MultipleTypes))
                },
                Err(er) => Err(er),
            },
            Err(er) => Err(er),
        },
        Statement::If(i) => if_type_spec(i, env, structs, ret),
        Statement::While(w) => match expr_type_spec(*w.cond, env, structs) {
            Ok(t) => if !(t is Bool) {
                Err(ResolverError::TypeError(TypeError::NonBoolCondition))
            } else {
                block_type_spec(*w.body, env, structs, ret)
            },
            Err(er) => Err(er),
        },
        Statement::For(f) => for_type_spec(f, env, structs, ret),
        Statement::Return(e) => match expr_type_spec(*e, env, structs) {
            Ok(t) => if type_matches(t, ret) {
                Ok(())
            } else {
                Err(ResolverError::TypeError(TypeError::ReturnMismatch))
            },
            Err(er) => Err(er),
        },
        Statement::Break => Ok(()),
        Statement::Continue => Ok(()),
        Statement::Expression(e) => match expr_type_spec(*e, env, structs) {
            Ok(t) => Ok(()),
            Err(er) => Err(er),
        },
    }
}

pub open spec fn if_type_spec(
    i: crate::ast::If,
    env: Map<GlobalNameV, Type>,
    structs: Map<GlobalNameV, StructDef>,
    ret: Type,
) -> Result<(), ResolverError>
    decreases size_if(i),
{
    match expr_type_spec(*i.cond, env, structs) {
        Ok(t) => if !(t is Bool) {
            Err(ResolverError::TypeError(TypeError::NonBoolCondition))
        } else {
            match block_type_spec(*i.body, env, structs, ret) {
                Ok(u) => match i.else_ {
                    Some(e) => if_type_spec(*e, env, structs, ret),
                    None => Ok(()),
                },
                Err(er) => Err(er),
            }
        },
        Err(er) => Err(er),
    }
}

pub open spec fn for_type_spec(
    f: crate::ast::For,
    env: Map<GlobalNameV, Type>,
    structs: Map<GlobalNameV, StructDef>,
    ret: Type,
) -> Result<(), ResolverError>
    decreases size_for(f),
{
    match (match f.init {
        Some(s) => stmt_type_spec(*s, env, structs, ret),
        None => Ok(()),
    }) {
        Ok(u) => match (match f.cond {
            Some(e) => match expr_type_spec(*e, env, structs) {
                Ok(t) => if !(t is Bool) {
                    Err(ResolverError::TypeError(TypeError::NonBoolCondition))
                } else {
                    Ok(())
                },
                Err(er) => Err(er),
            },
            None => Ok(()),
        }) {
            Ok(u2) => match (match f.step {
                Some(s) => stmt_type_spec(*s, env, structs, ret),
                None => Ok(()),
            }) {
                Ok(u3) => block_type_spec(f.body, env, structs, ret),
                Err(er) => Err(er),
            },
            Err(er) => Err(er),
        },
        Err(er) => Err(er),
    }
}

pub open spec fn stmt_block_type_spec(
    s: StatementBlock,
    env: Map<GlobalNameV, Type>,
    structs: Map<GlobalNameV, StructDef>,
    ret: Type,
) -> Result<(), ResolverError>
    decreases size_stmt_block(s),
{
    match s {
        StatementBlock::Statement(st) => stmt_type_spec(st, env, structs, ret),
        StatementBlock::Block(b) => block_type_spec(b, env, structs, ret),
    }
}

pub open spec fn stmts_type_spec(
    s: Seq<StatementBlock>,
    env: Map<GlobalNameV, Type>,
    structs: Map<GlobalNameV, StructDef>,
    ret: Type,
) -> Result<(), ResolverError>
    decreases size_stmts(s),
{
    if s.len() == 0 {
        Ok(())
    } else {
        match stmt_block_type_spec(s[0], env, structs, ret) {
            Ok(u) => stmts_type_spec(s.drop_first(), env, structs, ret),
            Err(er) => Err(er),
        }
    }
}

pub open spec fn block_type_spec(
    b: Block,
    env: Map<GlobalNameV, Type>,
    structs: Map<GlobalNameV, StructDef>,
    ret: Type,
) -> Result<(), ResolverError>
    decreases size_block(b),
{
    stmts_type_spec(b.statements@, env, structs, ret)
}

pub open spec fn fn_def_type_spec(
    f: FnDef,
    env: Map<GlobalNameV, Type>,
    structs: Map<GlobalNameV, StructDef>,
) -> Result<(), ResolverError> {
    match f.body {
        Some(b) => block_type_spec(b, env, structs, f.return_type),
        None => Ok(()),
    }
}

// ---------------------------------------------------------------------
// The untyped skeleton of an expression: everything the type
// computation reads. Two expressions with the same skeleton differ at
// most in their annotations.
// ---------------------------------------------------------------------

pub open spec fn same_skel_expr(a: Expression, b: Expression) -> bool
    decreases size_expr(a),
{
    match (a.expr, b.expr) {
        (ExpressionEnum::AtomicExpression(x), ExpressionEnum::AtomicExpression(y)) => same_skel_atomic(
            x,
            y,
        ),
        (ExpressionEnum::Unary(op1, b1), ExpressionEnum::Unary(op2, b2)) => op1 == op2
            && same_skel_expr(*b1, *b2),
        (ExpressionEnum::Binary(l1, op1, r1), ExpressionEnum::Binary(l2, op2, r2)) => op1 == op2
            && same_skel_expr(*l1, *l2) && same_skel_expr(*r1, *r2),
        _ => false,
    }
}

pub open spec fn same_skel_atomic(a: AtomicExpression, b: AtomicExpression) -> bool
    decreases size_atomic(a),
{
    match (a, b) {
        (AtomicExpression::Literal(l1), AtomicExpression::Literal(l2)) => same_skel_literal(
            l1,
            l2,
        ),
        (AtomicExpression::Variable(np1), AtomicExpression::Variable(np2)) => np1 == np2,
        (AtomicExpression::FnCall(f1), AtomicExpression::FnCall(f2)) => f1.name == f2.name
            && same_skel_exprs(f1.args@, f2.args@),
        (AtomicExpression::StructInit(s1), AtomicExpression::StructInit(s2)) => s1.type_
            == s2.type_ && same_skel_compound(s1.compound@, s2.compound@),
        _ => false,
    }
}

pub open spec fn same_skel_literal(a: LiteralValue, b: LiteralValue) -> bool
    decreases size_literal(a),
{
    match (a, b) {
        (LiteralValue::Compound(c1), LiteralValue::Compound(c2)) => same_skel_compound(c1@, c2@),
        _ => a == b && !(a is Compound),
    }
}

pub open spec fn same_skel_exprs(a: Seq<Expression>, b: Seq<Expression>) -> bool
    decreases size_exprs(a),
{
    a.len() == b.len() && (a.len() == 0 || (same_skel_expr(a[0], b[0]) && same_skel_exprs(
        a.drop_first(),
        b.drop_first(),
    )))
}

pub open spec fn same_skel_compound(
    a: Seq<(String, CompoundValue)>,
    b: Seq<(String, CompoundValue)>,
) -> bool
    decreases size_compound(a),
{
    a.len() == b.len() && (a.len() == 0 || (a[0].0 == b[0].0 && same_skel_compound_value(
        a[0].1,
        b[0].1,
    ) && same_skel_compound(a.drop_first(), b.drop_first())))
}

pub open spec fn same_skel_compound_value(a: CompoundValue, b: CompoundValue) -> bool
    decreases size_compound_value(a),
{
    match (a, b) {
        (CompoundValue::Expression(e1), CompoundValue::Expression(e2)) => same_skel_expr(*e1, *e2),
        (CompoundValue::Compound(c1), CompoundValue::Compound(c2)) => same_skel_compound(c1@, c2@),
        _ => false,
    }
}

proof fn lemma_skel_expr_type(
    a: Expression,
    b: Expression,
    env: Map<GlobalNameV, Type>,
    structs: Map<GlobalNameV, StructDef>,
)
    requires
        same_skel_expr(a, b),
    ensures
        expr_type_spec(a, env, structs) == expr_type_spec(b, env, structs),
    decreases size_expr(a),
{
    match (a.expr, b.expr) {
        (ExpressionEnum::AtomicExpression(x), ExpressionEnum::AtomicExpression(y)) => {
            lemma_skel_atomic_type(x, y, env, structs);
        },
        (ExpressionEnum::Unary(op1, b1), ExpressionEnum::Unary(op2, b2)) => {
            lemma_skel_expr_type(*b1, *b2, env, structs);
        },
        (ExpressionEnum::Binary(l1, op1, r1), ExpressionEnum::Binary(l2, op2, r2)) => {
            lemma_skel_expr_type(*l1, *l2, env, structs);
            lemma_skel_expr_type(*r1, *r2, env, structs);
        },
        _ => {},
    }
}

proof fn lemma_skel_atomic_type(
    a: AtomicExpression,
    b: AtomicExpression,
    env: Map<GlobalNameV, Type>,
    structs: Map<GlobalNameV, StructDef>,
)
    requires
        same_skel_atomic(a, b),
    ensures
        atomic_type_spec(a, env, structs) == atomic_type_spec(b, env, structs),
    decreases size_atomic(a),
{
    match (a, b) {
        (AtomicExpression::Literal(l1), AtomicExpression::Literal(l2)) => {
            match (l1, l2) {
                (LiteralValue::Compound(c1), LiteralValue::Compound(c2)) => {
                    lemma_skel_compound_type(c1@, c2@, env, structs);
                },
                _ => {},
            }
        },
        (AtomicExpression::FnCall(f1), AtomicExpression::FnCall(f2)) => {
            lemma_skel_exprs_type(f1.args@, f2.args@, env, structs);
        },
        (AtomicExpression::StructInit(s1), AtomicExpression::StructInit(s2)) => {
            lemma_skel_compound_type(s1.compound@, s2.compound@, env, structs);
        },
        _ => {},
    }
}

proof fn lemma_skel_exprs_type(
    a: Seq<Expression>,
    b: Seq<Expression>,
    env: Map<GlobalNameV, Type>,
    structs: Map<GlobalNameV, StructDef>,
)
    requires
        same_skel_exprs(a, b),
    ensures
        exprs_type_spec(a, env, structs) == exprs_type_spec(b, env, structs),
    decreases size_exprs(a),
{
    if a.len() > 0 {
        lemma_skel_expr_type(a[0], b[0], env, structs);
        lemma_skel_exprs_type(a.drop_first(), b.drop_first(), env, structs);
    }
}

proof fn lemma_skel_compound_type(
    a: Seq<(String, CompoundValue)>,
    b: Seq<(String, CompoundValue)>,
    env: Map<GlobalNameV, Type>,
    structs: Map<GlobalNameV, StructDef>,
)
    requires
        same_skel_compound(a, b),
    ensures
        compound_type_spec(a, env, structs) == compound_type_spec(b, env, structs),
    decreases size_compound(a),
{
    if a.len() > 0 {
        assert(same_skel_compound_value(a[0].1, b[0].1));
        assert(size_compound(a) == 1 + size_compound_value(a[0].1) + size_compound(
            a.drop_first(),
        ));
        match (a[0].1, b[0].1) {
            (CompoundValue::Expression(e1), CompoundValue::Expression(e2)) => {
                assert(a[0].1 == CompoundValue::Expression(e1));
                assert(b[0].1 == CompoundValue::Expression(e2));
                assert(size_compound_value(a[0].1) == 1 + size_expr(*e1));
                lemma_skel_expr_type(*e1, *e2, env, structs);
                assert(compound_value_type_spec(a[0].1, env, structs)
                    == compound_value_type_spec(b[0].1, env, structs));
            },
            (CompoundValue::Compound(c1), CompoundValue::Compound(c2)) => {
                assert(a[0].1 == CompoundValue::Compound(c1));
                assert(b[0].1 == CompoundValue::Compound(c2));
                assert(size_compound_value(a[0].1) == 1 + size_compound(c1@));
                lemma_skel_compound_type(c1@, c2@, env, structs);
                assert(compound_value_type_spec(a[0].1, env, structs)
                    == compound_value_type_spec(b[0].1, env, structs));
            },
            _ => {},
        }
        lemma_skel_compound_type(a.drop_first(), b.drop_first(), env, structs);
    }
}

pub open spec fn same_skel_stmt(a: Statement, b: Statement) -> bool
    decreases size_stmt(a),
{
    match (a, b) {
        (Statement::VarDecl(d1), Statement::VarDecl(d2)) => d1.var_def == d2.var_def && (match (
            d1.expr,
            d2.expr,
        ) {
            (Some(e1), Some(e2)) => same_skel_expr(*e1, *e2),
            (None, None) => true,
            _ => false,
        }),
        (Statement::VarAssign(a1), Statement::VarAssign(a2)) => a1.name_path == a2.name_path
            && same_skel_expr(*a1.expr, *a2.expr),
        (Statement::If(i1), Statement::If(i2)) => same_skel_if(i1, i2),
        (Statement::While(w1), Statement::While(w2)) => same_skel_expr(*w1.cond, *w2.cond)
            && same_skel_block(*w1.body, *w2.body),
        (Statement::For(f1), Statement::For(f2)) => same_skel_for(f1, f2),
        (Statement::Return(e1), Statement::Return(e2)) => same_skel_expr(*e1, *e2),
        (Statement::Break, Statement::Break) => true,
        (Statement::Continue, Statement::Continue) => true,
        (Statement::Expression(e1), Statement::Expression(e2)) => same_skel_expr(*e1, *e2),
        _ => false,
    }
}

pub open spec fn same_skel_if(a: crate::ast::If, b: crate::ast::If) -> bool
    decreases size_if(a),
{
    same_skel_expr(*a.cond, *b.cond) && same_skel_block(*a.body, *b.body) && (match (
        a.else_,
        b.else_,
    ) {
        (Some(e1), Some(e2)) => same_skel_if(*e1, *e2),
        (None, None) => true,
        _ => false,
    })
}

pub open spec fn same_skel_for(a: crate::ast::For, b: crate::ast::For) -> bool
    decreases size_for(a),
{
    (match (a.init, b.init) {
        (Some(s1), Some(s2)) => same_skel_stmt(*s1, *s2),
        (None, None) => true,
        _ => false,
    }) && (match (a.cond, b.cond) {
        (Some(e1), Some(e2)) => same_skel_expr(*e1, *e2),
        (None, None) => true,
        _ => false,
    }) && (match (a.step, b.step) {
        (Some(s1), Some(s2)) => same_skel_stmt(*s1, *s2),
        (None, None) => true,
        _ => false,
    }) && same_skel_block(a.body, b.body)
}

pub open spec fn same_skel_stmt_block(a: StatementBlock, b: StatementBlock) -> bool
    decreases size_stmt_block(a),
{
    match (a, b) {
        (StatementBlock::Statement(s1), StatementBlock::Statement(s2)) => same_skel_stmt(s1, s2),
        (StatementBlock::Block(b1), StatementBlock::Block(b2)) => same_skel_block(b1, b2),
        _ => false,
    }
}

pub open spec fn same_skel_stmts(a: Seq<StatementBlock>, b: Seq<StatementBlock>) -> bool
    decreases size_stmts(a),
{
    a.len() == b.len() && (a.len() == 0 || (same_skel_stmt_block(a[0], b[0]) && same_skel_stmts(
        a.drop_first(),
        b.drop_first(),
    )))
}

pub open spec fn same_skel_block(a: Block, b: Block) -> bool
    decreases size_block(a),
{
    a.definitions == b.definitions && same_skel_stmts(a.statements@, b.statements@)
}

proof fn lemma_skel_stmt_type(
    a: Statement,
    b: Statement,
    env: Map<GlobalNameV, Type>,
    structs: Map<GlobalNameV, StructDef>,
    ret: Type,
)
    requires
        same_skel_stmt(a, b),
    ensures
        stmt_type_spec(a, env, structs, ret) == stmt_type_spec(b, env, structs, ret),
    decreases size_stmt(a),
{
    match (a, b) {
        (Statement::VarDecl(d1), Statement::VarDecl(d2)) => {
            match (d1.expr, d2.expr) {
                (Some(e1), Some(e2)) => {
                    lemma_skel_expr_type(*e1, *e2, env, structs);
                },
                _ => {},
            }
        },
        (Statement::VarAssign(a1), Statement::VarAssign(a2)) => {
            lemma_skel_expr_type(*a1.expr, *a2.expr, env, structs);
        },
        (Statement::If(i1), Statement::If(i2)) => {
            lemma_skel_if_type(i1, i2, env, structs, ret);
        },
        (Statement::While(w1), Statement::While(w2)) => {
            lemma_skel_expr_type(*w1.cond, *w2.cond, env, structs);
            lemma_skel_block_type(*w1.body, *w2.body, env, structs, ret);
        },
        (Statement::For(f1), Statement::For(f2)) => {
            match (f1.init, f2.init) {
                (Some(s1), Some(s2)) => {
                    lemma_skel_stmt_type(*s1, *s2, env, structs, ret);
                },
                _ => {},
            }
            match (f1.cond, f2.cond) {
                (Some(e1), Some(e2)) => {
                    lemma_skel_expr_type(*e1, *e2, env, structs);
                },
                _ => {},
            }
            match (f1.step, f2.step) {
                (Some(s1), Some(s2)) => {
                    lemma_skel_stmt_type(*s1, *s2, env, structs, ret);
                },
                _ => {},
            }
            lemma_skel_block_type(f1.body, f2.body, env, structs, ret);
        },
        (Statement::Return(e1), Statement::Return(e2)) => {
            lemma_skel_expr_type(*e1, *e2, env, structs);
        },
        (Statement::Expression(e1), Statement::Expression(e2)) => {
            lemma_skel_expr_type(*e1, *e2, env, structs);
        },
        _ => {},
    }
}

proof fn lemma_skel_if_type(
    a: crate::ast::If,
    b: crate::ast::If,
    env: Map<GlobalNameV, Type>,
    structs: Map<GlobalNameV, StructDef>,
    ret: Type,
)
    requires
        same_skel_if(a, b),
    ensures
        if_type_spec(a, env, structs, ret) == if_type_spec(b, env, structs, ret),
    decreases size_if(a),
{
    lemma_skel_expr_type(*a.cond, *b.cond, env, structs);
    lemma_skel_block_type(*a.body, *b.body, env, structs, ret);
    match (a.else_, b.else_) {
        (Some(e1), Some(e2)) => {
            lemma_skel_if_type(*e1, *e2, env, structs, ret);
        },
        _ => {},
    }
}

proof fn lemma_skel_stmts_type(
    a: Seq<StatementBlock>,
    b: Seq<StatementBlock>,
    env: Map<GlobalNameV, Type>,
    structs: Map<GlobalNameV, StructDef>,
    ret: Type,
)
    requires
        same_skel_stmts(a, b),
    ensures
        stmts_type_spec(a, env, structs, ret) == stmts_type_spec(b, env, structs, ret),
    decreases size_stmts(a),
{
    if a.len() > 0 {
        assert(same_skel_stmt_block(a[0], b[0]));
        match (a[0], b[0]) {
            (StatementBlock::Statement(s1), StatementBlock::Statement(s2)) => {
                assert(a[0] == StatementBlock::Statement(s1));
                assert(b[0] == StatementBlock::Statement(s2));
                assert(size_stmt_block(a[0]) == 1 + size_stmt(s1));
                lemma_skel_stmt_type(s1, s2, env, structs, ret);
                assert(stmt_block_type_spec(a[0], env, structs, ret) == stmt_block_type_spec(
                    b[0],
                    env,
                    structs,
                    ret,
                ));
            },
            (StatementBlock::Block(b1), StatementBlock::Block(b2)) => {
                assert(a[0] == StatementBlock::Block(b1));
                assert(b[0] == StatementBlock::Block(b2));
                assert(size_stmt_block(a[0]) == 1 + size_block(b1));
                lemma_skel_block_type(b1, b2, env, structs, ret);
                assert(stmt_block_type_spec(a[0], env, structs, ret) == stmt_block_type_spec(
                    b[0],
                    env,
                    structs,
                    ret,
                ));
            },
            _ => {},
        }
        lemma_skel_stmts_type(a.drop_first(), b.drop_first(), env, structs, ret);
    }
}

proof fn lemma_skel_block_type(
    a: Block,
    b: Block,
    env: Map<GlobalNameV, Type>,
    structs: Map<GlobalNameV, StructDef>,
    ret: Type,
)
    requires
        same_skel_block(a, b),
    ensures
        block_type_spec(a, env, structs, ret) == block_type_spec(b, env, structs, ret),
    decreases size_block(a),
{
    lemma_skel_stmts_type(a.statements@, b.statements@, env, structs, ret);
}

/// Law: type resolution is idempotent over whole function bodies. The
/// checks of pass two are a function of the untyped skeleton alone, and
/// annotation preserves that skeleton; so a second resolution accepts
/// an annotated body again and re-derives the same outcome.
pub proof fn lemma_type_check_idempotent_block(
    b: Block,
    b2: Block,
    env: Map<GlobalNameV, Type>,
    structs: Map<GlobalNameV, StructDef>,
    ret: Type,
)
    requires
        same_skel_block(b2, b),
        block_type_spec(b, env, structs, ret) == Ok::<(), ResolverError>(()),
    ensures
        block_type_spec(b2, env, structs, ret) == Ok::<(), ResolverError>(()),
{
    lemma_skel_block_type(b2, b, env, structs, ret);
}

/// Law: type resolution is idempotent. The type assigned to an
/// expression is a function of its untyped skeleton alone, and
/// annotation preserves that skeleton; so a second resolution computes
/// the same type for every expression and rewrites every annotation
/// with the value it already holds.
pub proof fn lemma_type_annotation_idempotent(
    e: Expression,
    e2: Expression,
    t: Type,
    env: Map<GlobalNameV, Type>,
    structs: Map<GlobalNameV, StructDef>,
)
    requires
        same_skel_expr(e2, e),
        expr_type_spec(e, env, structs) == Ok::<Type, ResolverError>(t),
    ensures
        expr_type_spec(e2, env, structs) == Ok::<Type, ResolverError>(t),
{
    lemma_skel_expr_type(e2, e, env, structs);
}

// ---------------------------------------------------------------------
// Exact annotation: every expression of the tree carries precisely the
// type the rules compute for it. Together with skeleton preservation
// this pins the annotated values: any two conforming runs agree.
// ---------------------------------------------------------------------

pub open spec fn exact_expr(
    e: Expression,
    env: Map<GlobalNameV, Type>,
    structs: Map<GlobalNameV, StructDef>,
) -> bool
    decreases size_expr(e),
{
    &&& (match e.type_ {
        Some(t) => expr_type_spec(e, env, structs) == Ok::<Type, ResolverError>(t),
        None => false,
    })
    &&& (match e.expr {
        ExpressionEnum::AtomicExpression(a) => exact_atomic(a, env, structs),
        ExpressionEnum::Unary(op, b) => exact_expr(*b, env, structs),
        ExpressionEnum::Binary(b1, op, b2) => exact_expr(*b1, env, structs) && exact_expr(
            *b2,
            env,
            structs,
        ),
    })
}

pub open spec fn exact_atomic(
    a: AtomicExpression,
    env: Map<GlobalNameV, Type>,
    structs: Map<GlobalNameV, StructDef>,
) -> bool
    decreases size_atomic(a),
{
    match a {
        AtomicExpression::Literal(l) => match l {
            LiteralValue::Compound(c) => exact_compound(c@, env, structs),
            _ => true,
        },
        AtomicExpression::Variable(np) => true,
        AtomicExpression::FnCall(f) => exact_exprs(f.args@, env, structs),
        AtomicExpression::StructInit(s) => exact_compound(s.compound@, env, structs),
    }
}

pub open spec fn exact_exprs(
    s: Seq<Expression>,
    env: Map<GlobalNameV, Type>,
    structs: Map<GlobalNameV, StructDef>,
) -> bool
    decreases size_exprs(s),
{
    exprs_type_spec(s, env, structs) == Ok::<(), ResolverError>(()) && (s.len() == 0 || (
    exact_expr(s[0], env, structs) && exact_exprs(s.drop_first(), env, structs)))
}

pub open spec fn exact_compound(
    s: Seq<(String, CompoundValue)>,
    env: Map<GlobalNameV, Type>,
    structs: Map<GlobalNameV, StructDef>,
) -> bool
    decreases size_compound(s),
{
    compound_type_spec(s, env, structs) == Ok::<(), ResolverError>(()) && (s.len() == 0 || (
    exact_compound_value(s[0].1, env, structs) && exact_compound(s.drop_first(), env, structs)))
}

pub open spec fn exact_compound_value(
    v: CompoundValue,
    env: Map<GlobalNameV, Type>,
    structs: Map<GlobalNameV, StructDef>,
) -> bool
    decreases size_compound_value(v),
{
    match v {
        CompoundValue::Expression(e) => exact_expr(*e, env, structs),
        CompoundValue::Compound(c) => exact_compound(c@, env, structs),
    }
}

pub open spec fn exact_stmt(
    s: Statement,
    env: Map<GlobalNameV, Type>,
    structs: Map<GlobalNameV, StructDef>,
) -> bool
    decreases size_stmt(s),
{
    match s {
        Statement::VarDecl(d) => match d.expr {
            Some(e) => exact_expr(*e, env, structs),
            None => true,
        },
        Statement::VarAssign(a) => exact_expr(*a.expr, env, structs),
        Statement::If(i) => exact_if(i, env, structs),
        Statement::While(w) => exact_expr(*w.cond, env, structs) && exact_block(
            *w.body,
            env,
            structs,
        ),
        Statement::For(f) => exact_for(f, env, structs),
        Statement::Return(e) => exact_expr(*e, env, structs),
        Statement::Break => true,
        Statement::Continue => true,
        Statement::Expression(e) => exact_expr(*e, env, structs),
    }
}

pub open spec fn exact_if(
    i: crate::ast::If,
    env: Map<GlobalNameV, Type>,
    structs: Map<GlobalNameV, StructDef>,
) -> bool
    decreases size_if(i),
{
    exact_expr(*i.cond, env, structs) && exact_block(*i.body, env, structs) && match i.else_ {
        Some(e) => exact_if(*e, env, structs),
        None => true,
    }
}

pub open spec fn exact_for(
    f: crate::ast::For,
    env: Map<GlobalNameV, Type>,
    structs: Map<GlobalNameV, StructDef>,
) -> bool
    decreases size_for(f),
{
    (match f.init {
        Some(s) => exact_stmt(*s, env, structs),
        None => true,
    }) && (match f.cond {
        Some(e) => exact_expr(*e, env, structs),
        None => true,
    }) && (match f.step {
        Some(s) => exact_stmt(*s, env, structs),
        None => true,
    }) && exact_block(f.body, env, structs)
}

pub open spec fn exact_stmt_block(
    s: StatementBlock,
    env: Map<GlobalNameV, Type>,
    structs: Map<GlobalNameV, StructDef>,
) -> bool
    decreases size_stmt_block(s),
{
    match s {
        StatementBlock::Statement(st) => exact_stmt(st, env, structs),
        StatementBlock::Block(b) => exact_block(b, env, structs),
    }
}

pub open spec fn exact_stmts(
    s: Seq<StatementBlock>,
    env: Map<GlobalNameV, Type>,
    structs: Map<GlobalNameV, StructDef>,
) -> bool
    decreases size_stmts(s),
{
    s.len() == 0 || (exact_stmt_block(s[0], env, structs) && exact_stmts(
        s.drop_first(),
        env,
        structs,
    ))
}

pub open spec fn exact_block(
    b: Block,
    env: Map<GlobalNameV, Type>,
    structs: Map<GlobalNameV, StructDef>,
) -> bool
    decreases size_block(b),
{
    exact_stmts(b.statements@, env, structs)
}

pub open spec fn exact_fn_def(
    f: FnDef,
    env: Map<GlobalNameV, Type>,
    structs: Map<GlobalNameV, StructDef>,
) -> bool {
    match f.body {
        Some(b) => exact_block(b, env, structs),
        None => true,
    }
}

/// Law: type annotation is deterministic. Any two annotated expressions
/// with the skeleton of one input, each carrying exactly the type the
/// rules compute, carry the same type.
pub proof fn lemma_annotation_deterministic(
    e: Expression,
    d1: Expression,
    d2: Expression,
    env: Map<GlobalNameV, Type>,
    structs: Map<GlobalNameV, StructDef>,
)
    requires
        same_skel_expr(d1, e),
        same_skel_expr(d2, e),
        exact_expr(d1, env, structs),
        exact_expr(d2, env, structs),
    ensures
        d1.type_ == d2.type_,
{
    lemma_skel_expr_type(d1, e, env, structs);
    lemma_skel_expr_type(d2, e, env, structs);
}

// ---------------------------------------------------------------------
// Pass two, executable: annotate and check.
// ---------------------------------------------------------------------

/// The type of a dotted name path, read from the variable types and the
/// struct table.
fn namepath_type(np: &NamePath, env: &NameMap<Type>, structs: &NameMap<StructDef>) -> (r: Result<
    Type,
    ResolverError,
>)
    requires
        env.wf(),
        structs.wf(),
    ensures
        r == namepath_type_spec(*np, env@, structs@),
{
    let g = match &np.name.global_resolved {
        Some(g) => g,
        None => {
            return Err(ResolverError::MissingResolution);
        },
    };
    let head = match env.get(g) {
        Some(t) => crate::merger::copy_type(t),
        None => {
            return Err(ResolverError::MissingResolution);
        },
    };
    let ghost head0 = head;
    let n = np.path.len();
    let mut t = head;
    let mut i: usize = 0;
    assert(np.path@.subrange(0, n as int) =~= np.path@);
    while i < n
        invariant
            i <= n,
            n == np.path@.len(),
            structs.wf(),
            (match np.name.global_resolved {
                Some(g) => env@.contains_key(g@) && env@[g@] == head0,
                None => false,
            }),
            walk_fields_spec(t, np.path@.subrange(i as int, n as int), structs@)
                == walk_fields_spec(head0, np.path@, structs@),
        decreases n - i,
    {
        let ghost tail = np.path@.subrange(i as int, n as int);
        assert(tail[0] == np.path@[i as int]);
        let gs = match t {
            Type::Struct(r) => match r.global_resolved {
                Some(gs) => gs,
                None => {
                    return Err(ResolverError::TypeError(TypeError::BadFieldAccess));
                },
            },
            _ => {
                return Err(ResolverError::TypeError(TypeError::BadFieldAccess));
            },
        };
        let sd = match structs.get(&gs) {
            Some(sd) => sd,
            None => {
                return Err(ResolverError::TypeError(TypeError::BadFieldAccess));
            },
        };
        let ft = match field_lookup_exec(&sd.fields, &np.path[i]) {
            Some(ft) => ft,
            None => {
                return Err(ResolverError::TypeError(TypeError::BadFieldAccess));
            },
        };
        proof {
            assert(tail.drop_first() =~= np.path@.subrange(i + 1, n as int));
        }
        t = ft;
        i += 1;
    }
    proof {
        assert(np.path@.subrange(n as int, n as int).len() == 0);
    }
    Ok(t)
}

fn annotate_expr(e: Expression, env: &NameMap<Type>, structs: &NameMap<StructDef>) -> (r: Result<
    (Expression, Type),
    ResolverError,
>)
    requires
        env.wf(),
        structs.wf(),
    ensures
        match r {
            Ok((e2, t)) => typed_expr(e2) && e2.type_ == Some(t) && same_skel_expr(e2, e)
                && exact_expr(e2, env@, structs@) && expr_type_spec(e, env@, structs@) == Ok::<
                Type,
                ResolverError,
            >(t),
            Err(er) => expr_type_spec(e, env@, structs@) == Err::<Type, ResolverError>(er),
        },
    decreases size_expr(e),
{
    let ghost e0 = e;
    let Expression { expr, type_: _ } = e;
    match expr {
        ExpressionEnum::AtomicExpression(a) => {
            let (a2, t) = annotate_atomic(a, env, structs)?;
            let tc = crate::merger::copy_type(&t);
            Ok((Expression { expr: ExpressionEnum::AtomicExpression(a2), type_: Some(tc) }, t))
        },
        ExpressionEnum::Unary(op, b) => {
            let (b2, tb) = annotate_expr(*b, env, structs)?;
            let t = match unop_type_resolver(&op, tb) {
                Ok(t) => t,
                Err(te) => {
                    return Err(ResolverError::TypeError(te));
                },
            };
            let tc = crate::merger::copy_type(&t);
            Ok((Expression { expr: ExpressionEnum::Unary(op, Box::new(b2)), type_: Some(tc) }, t))
        },
        ExpressionEnum::Binary(b1, op, b2) => {
            let (c1, t1) = annotate_expr(*b1, env, structs)?;
            let (c2, t2) = annotate_expr(*b2, env, structs)?;
            let t = match binop_type_resolver(&op, t1, &t2) {
                Ok(t) => t,
                Err(te) => {
                    return Err(ResolverError::TypeError(te));
                },
            };
            let tc = crate::merger::copy_type(&t);
            Ok(
                (
                    Expression {
                        expr: ExpressionEnum::Binary(Box::new(c1), op, Box::new(c2)),
                        type_: Some(tc),
                    },
                    t,
                ),
            )
        },
    }
}

fn annotate_atomic(a: AtomicExpression, env: &NameMap<Type>, structs: &NameMap<StructDef>) -> (r:
    Result<(AtomicExpression, Type), ResolverError>)
    requires
        env.wf(),
        structs.wf(),
    ensures
        match r {
            Ok((a2, t)) => typed_atomic(a2) && same_skel_atomic(a2, a) && exact_atomic(
                a2,
                env@,
                structs@,
            ) && atomic_type_spec(a, env@, structs@) == Ok::<Type, ResolverError>(t)
                && atomic_type_spec(a2, env@, structs@) == Ok::<Type, ResolverError>(t),
            Err(er) => atomic_type_spec(a, env@, structs@) == Err::<Type, ResolverError>(er),
        },
    decreases size_atomic(a),
{
    let ghost a0 = a;
    match a {
        AtomicExpression::Literal(l) => {
            match l {
                LiteralValue::Compound(c) => {
                    let c2 = annotate_compound(c, env, structs)?;
                    Ok((AtomicExpression::Literal(LiteralValue::Compound(c2)), Type::Void))
                },
                _ => {
                    let t = literal_types(&l);
                    Ok((AtomicExpression::Literal(l), t))
                },
            }
        },
        AtomicExpression::Variable(np) => {
            let t = namepath_type(&np, env, structs)?;
            Ok((AtomicExpression::Variable(np), t))
        },
        AtomicExpression::FnCall(f) => {
            let FnCall { name, args } = *f;
            let g = match &name.global_resolved {
                Some(g) => g,
                None => {
                    return Err(ResolverError::MissingResolution);
                },
            };
            let t = match env.get(g) {
                Some(t) => crate::merger::copy_type(t),
                None => {
                    return Err(ResolverError::MissingResolution);
                },
            };
            let args2 = annotate_exprs(args, env, structs)?;
            Ok((AtomicExpression::FnCall(Box::new(FnCall { name, args: args2 })), t))
        },
        AtomicExpression::StructInit(s) => {
            let StructInit { type_, compound } = *s;
            let c2 = annotate_compound(compound, env, structs)?;
            let t = Type::Struct(crate::merger::copy_reference(&type_));
            Ok((AtomicExpression::StructInit(Box::new(StructInit { type_, compound: c2 })), t))
        },
    }
}

fn annotate_exprs(v: Vec<Expression>, env: &NameMap<Type>, structs: &NameMap<StructDef>) -> (r:
    Result<Vec<Expression>, ResolverError>)
    requires
        env.wf(),
        structs.wf(),
    ensures
        match r {
            Ok(v2) => typed_exprs(v2@) && same_skel_exprs(v2@, v@) && exact_exprs(
                v2@,
                env@,
                structs@,
            ) && exprs_type_spec(v@, env@, structs@) == Ok::<(), ResolverError>(()),
            Err(er) => exprs_type_spec(v@, env@, structs@) == Err::<(), ResolverError>(er),
        },
    decreases size_exprs(v@),
{
    let ghost v0 = v@;
    let mut v = v;
    if v.len() == 0 {
        let r: Vec<Expression> = Vec::new();
        return Ok(r);
    }
    let e = v.remove(0);
    assert(e == v0[0] && v@ == v0.drop_first());
    let (e2, _t) = annotate_expr(e, env, structs)?;
    let rest = annotate_exprs(v, env, structs)?;
    let ghost rest0 = rest@;
    let mut out = rest;
    out.insert(0, e2);
    assert(out@[0] == e2);
    assert(out@.drop_first() =~= rest0);
    Ok(out)
}

fn annotate_compound(
    v: Vec<(String, CompoundValue)>,
    env: &NameMap<Type>,
    structs: &NameMap<StructDef>,
) -> (r: Result<Vec<(String, CompoundValue)>, ResolverError>)
    requires
        env.wf(),
        structs.wf(),
    ensures
        match r {
            Ok(v2) => typed_compound(v2@) && same_skel_compound(v2@, v@) && exact_compound(
                v2@,
                env@,
                structs@,
            ) && compound_type_spec(v@, env@, structs@) == Ok::<(), ResolverError>(()),
            Err(er) => compound_type_spec(v@, env@, structs@) == Err::<(), ResolverError>(er),
        },
    decreases size_compound(v@),
{
    let ghost v0 = v@;
    let mut v = v;
    if v.len() == 0 {
        let r: Vec<(String, CompoundValue)> = Vec::new();
        return Ok(r);
    }
    let (k, val) = v.remove(0);
    assert(val == v0[0].1 && v@ == v0.drop_first());
    let ghost val0 = val;
    let val2 = match val {
        CompoundValue::Expression(e) => {
            proof {
                assert(val0 == CompoundValue::Expression(e));
                assert(size_compound_value(val0) == 1 + size_expr(*e));
            }
            let (e2, _t) = annotate_expr(*e, env, structs)?;
            CompoundValue::Expression(Box::new(e2))
        },
        CompoundValue::Compound(c) => {
            proof {
                assert(val0 == CompoundValue::Compound(c));
                assert(size_compound_value(val0) == 1 + size_compound(c@));
            }
            let c2 = annotate_compound(*c, env, structs)?;
            CompoundValue::Compound(Box::new(c2))
        },
    };
    assert(typed_compound_value(val2));
    assert(same_skel_compound_value(val2, v0[0].1));
    assert(compound_value_type_spec(v0[0].1, env@, structs@) == Ok::<(), ResolverError>(()));
    let rest = annotate_compound(v, env, structs)?;
    let ghost rest0 = rest@;
    let mut out = rest;
    out.insert(0, (k, val2));
    assert(out@[0].1 == val2);
    assert(out@[0].0 == v0[0].0);
    assert(out@.drop_first() =~= rest0);
    assert(typed_compound(out@));
    assert(same_skel_compound(out@, v0));
    proof {
        lemma_skel_compound_type(out@, v0, env@, structs@);
        assert(exact_compound_value(out@[0].1, env@, structs@));
    }
    assert(exact_compound(out@, env@, structs@));
    Ok(out)
}

fn annotate_stmt(
    s: Statement,
    env: &NameMap<Type>,
    structs: &NameMap<StructDef>,
    ret: &Type,
) -> (r: Result<Statement, ResolverError>)
    requires
        env.wf(),
        structs.wf(),
    ensures
        match r {
            Ok(s2) => typed_stmt(s2) && same_skel_stmt(s2, s) && exact_stmt(s2, env@, structs@)
                && stmt_type_spec(s, env@, structs@, *ret) == Ok::<(), ResolverError>(()),
            Err(er) => stmt_type_spec(s, env@, structs@, *ret) == Err::<(), ResolverError>(er),
        },
    decreases size_stmt(s),
{
    let ghost s0 = s;
    match s {
        Statement::VarDecl(d) => {
            let VarDecl { var_def, expr } = d;
            let expr2 = match expr {
                Some(e) => {
                    let (e2, t) = annotate_expr(*e, env, structs)?;
                    if !type_eq(&t, &var_def.type_) {
                        return Err(ResolverError::TypeError(TypeError::MultipleTypes));
                    }
                    Some(Box::new(e2))
                },
                None => None,
            };
            Ok(Statement::VarDecl(VarDecl { var_def, expr: expr2 }))
        },
        Statement::VarAssign(a) => {
            let crate::ast::VarAssign { name_path, expr } = a;
            let tl = namepath_type(&name_path, env, structs)?;
            let (e2, tr) = annotate_expr(*expr, env, structs)?;
            if !type_eq(&tl, &tr) {
                return Err(ResolverError::TypeError(TypeError::MultipleTypes));
            }
            Ok(Statement::VarAssign(crate::ast::VarAssign { name_path, expr: Box::new(e2) }))
        },
        Statement::If(i) => Ok(Statement::If(annotate_if(i, env, structs, ret)?)),
        Statement::While(w) => {
            let crate::ast::While { cond, body } = w;
            let (c2, t) = annotate_expr(*cond, env, structs)?;
            let is_bool = match t {
                Type::Bool => true,
                _ => false,
            };
            if !is_bool {
                return Err(ResolverError::TypeError(TypeError::NonBoolCondition));
            }
            let b2 = annotate_block(*body, env, structs, ret)?;
            Ok(Statement::While(crate::ast::While { cond: Box::new(c2), body: Box::new(b2) }))
        },
        Statement::For(f) => {
            proof {
                assert(size_stmt(s0) == 1 + size_for(f));
            }
            let crate::ast::For { init, cond, step, body } = f;
            let init2 = match init {
                Some(i) => Some(Box::new(annotate_stmt(*i, env, structs, ret)?)),
                None => None,
            };
            let cond2 = match cond {
                Some(c) => {
                    let (c2, t) = annotate_expr(*c, env, structs)?;
                    let is_bool = match t {
                        Type::Bool => true,
                        _ => false,
                    };
                    if !is_bool {
                        return Err(ResolverError::TypeError(TypeError::NonBoolCondition));
                    }
                    Some(Box::new(c2))
                },
                None => None,
            };
            let step2 = match step {
                Some(p) => Some(Box::new(annotate_stmt(*p, env, structs, ret)?)),
                None => None,
            };
            let body2 = annotate_block(body, env, structs, ret)?;
            Ok(Statement::For(crate::ast::For { init: init2, cond: cond2, step: step2, body: body2 }))
        },
        Statement::Return(e) => {
            let (e2, t) = annotate_expr(*e, env, structs)?;
            if !type_eq(&t, ret) {
                return Err(ResolverError::TypeError(TypeError::ReturnMismatch));
            }
            Ok(Statement::Return(Box::new(e2)))
        },
        Statement::Break => Ok(Statement::Break),
        Statement::Continue => Ok(Statement::Continue),
        Statement::Expression(e) => {
            let (e2, _t) = annotate_expr(*e, env, structs)?;
            Ok(Statement::Expression(Box::new(e2)))
        },
    }
}

fn annotate_if(
    i: crate::ast::If,
    env: &NameMap<Type>,
    structs: &NameMap<StructDef>,
    ret: &Type,
) -> (r: Result<crate::ast::If, ResolverError>)
    requires
        env.wf(),
        structs.wf(),
    ensures
        match r {
            Ok(i2) => typed_if(i2) && same_skel_if(i2, i) && exact_if(i2, env@, structs@)
                && if_type_spec(i, env@, structs@, *ret) == Ok::<(), ResolverError>(()),
            Err(er) => if_type_spec(i, env@, structs@, *ret) == Err::<(), ResolverError>(er),
        },
    decreases size_if(i),
{
    let crate::ast::If { cond, body, else_ } = i;
    let (c2, t) = annotate_expr(*cond, env, structs)?;
    let is_bool = match t {
        Type::Bool => true,
        _ => false,
    };
    if !is_bool {
        return Err(ResolverError::TypeError(TypeError::NonBoolCondition));
    }
    let b2 = annotate_block(*body, env, structs, ret)?;
    let else2 = match else_ {
        Some(e) => Some(Box::new(annotate_if(*e, env, structs, ret)?)),
        None => None,
    };
    Ok(crate::ast::If { cond: Box::new(c2), body: Box::new(b2), else_: else2 })
}

fn annotate_stmts(
    v: Vec<StatementBlock>,
    env: &NameMap<Type>,
    structs: &NameMap<StructDef>,
    ret: &Type,
) -> (r: Result<Vec<StatementBlock>, ResolverError>)
    requires
        env.wf(),
        structs.wf(),
    ensures
        match r {
            Ok(v2) => typed_stmts(v2@) && same_skel_stmts(v2@, v@) && exact_stmts(
                v2@,
                env@,
                structs@,
            ) && stmts_type_spec(v@, env@, structs@, *ret) == Ok::<(), ResolverError>(()),
            Err(er) => stmts_type_spec(v@, env@, structs@, *ret) == Err::<(), ResolverError>(er),
        },
    decreases size_stmts(v@),
{
    let ghost v0 = v@;
    let mut v = v;
    if v.len() == 0 {
        let r: Vec<StatementBlock> = Vec::new();
        return Ok(r);
    }
    let s = v.remove(0);
    assert(s == v0[0] && v@ == v0.drop_first());
    let s2 = match s {
        StatementBlock::Statement(st) => {
            proof {
                assert(v0[0] == StatementBlock::Statement(st));
                assert(size_stmt_block(v0[0]) == 1 + size_stmt(st));
            }
            StatementBlock::Statement(annotate_stmt(st, env, structs, ret)?)
        },
        StatementBlock::Block(b) => {
            proof {
                assert(v0[0] == StatementBlock::Block(b));
                assert(size_stmt_block(v0[0]) == 1 + size_block(b));
            }
            StatementBlock::Block(annotate_block(b, env, structs, ret)?)
        },
    };
    assert(typed_stmt_block(s2));
    assert(same_skel_stmt_block(s2, v0[0]));
    assert(stmt_block_type_spec(v0[0], env@, structs@, *ret) == Ok::<(), ResolverError>(()));
    let rest = annotate_stmts(v, env, structs, ret)?;
    let ghost rest0 = rest@;
    let mut out = rest;
    out.insert(0, s2);
    assert(out@[0] == s2);
    assert(out@.drop_first() =~= rest0);
    assert(typed_stmts(out@));
    assert(same_skel_stmts(out@, v0));
    assert(exact_stmt_block(out@[0], env@, structs@));
    assert(exact_stmts(out@, env@, structs@));
    Ok(out)
}

fn annotate_block(
    b: Block,
    env: &NameMap<Type>,
    structs: &NameMap<StructDef>,
    ret: &Type,
) -> (r: Result<Block, ResolverError>)
    requires
        env.wf(),
        structs.wf(),
    ensures
        match r {
            Ok(b2) => typed_block(b2) && same_skel_block(b2, b) && exact_block(b2, env@, structs@)
                && block_type_spec(b, env@, structs@, *ret) == Ok::<(), ResolverError>(()),
            Err(er) => block_type_spec(b, env@, structs@, *ret) == Err::<(), ResolverError>(er),
        },
    decreases size_block(b),
{
    let Block { definitions, statements } = b;
    let stmts2 = annotate_stmts(statements, env, structs, ret)?;
    Ok(Block { definitions, statements: stmts2 })
}

/// A function definition after annotation: identical but for the type
/// annotations inside its body.
pub open spec fn same_skel_fn(a: FnDef, b: FnDef) -> bool {
    &&& a.name == b.name
    &&& a.return_type == b.return_type
    &&& a.mods == b.mods
    &&& a.args == b.args
    &&& match (a.body, b.body) {
        (Some(b1), Some(b2)) => same_skel_block(b1, b2),
        (None, None) => true,
        _ => false,
    }
}

fn annotate_fn_def(f: FnDef, env: &NameMap<Type>, structs: &NameMap<StructDef>) -> (r: Result<
    FnDef,
    ResolverError,
>)
    requires
        env.wf(),
        structs.wf(),
    ensures
        match r {
            Ok(f2) => typed_fn_def(f2) && same_skel_fn(f2, f) && exact_fn_def(f2, env@, structs@)
                && fn_def_type_spec(f, env@, structs@) == Ok::<(), ResolverError>(()),
            Err(er) => fn_def_type_spec(f, env@, structs@) == Err::<(), ResolverError>(er),
        },
{
    let FnDef { return_type, mods, name, args, body } = f;
    let body2 = match body {
        Some(b) => Some(annotate_block(b, env, structs, &return_type)?),
        None => None,
    };
    Ok(FnDef { return_type, mods, name, args, body: body2 })
}

// ---------------------------------------------------------------------
// Pass one: collect the declared type of every variable and the return
// type of every function under their global names.
// ---------------------------------------------------------------------

// What pass one computes, as a function of the input: the variable
// types recorded walking names in order, the first binding of a key
// winning, and a name without a global resolution failing the pass.

pub open spec fn record_var_spec(
    name: crate::ast::Reference,
    t: Type,
    env: Map<GlobalNameV, Type>,
) -> Result<Map<GlobalNameV, Type>, ResolverError> {
    match name.global_resolved {
        Some(g) => Ok(
            if env.contains_key(g@) {
                env
            } else {
                env.insert(g@, t)
            },
        ),
        None => Err(ResolverError::MissingResolution),
    }
}

pub open spec fn collect_stmt_spec(s: Statement, env: Map<GlobalNameV, Type>) -> Result<
    Map<GlobalNameV, Type>,
    ResolverError,
>
    decreases size_stmt(s),
{
    match s {
        Statement::VarDecl(d) => record_var_spec(d.var_def.name, d.var_def.type_, env),
        Statement::If(i) => collect_if_spec(i, env),
        Statement::While(w) => collect_block_spec(*w.body, env),
        Statement::For(f) => match (match f.init {
            Some(s1) => collect_stmt_spec(*s1, env),
            None => Ok(env),
        }) {
            Ok(e1) => match (match f.step {
                Some(s2) => collect_stmt_spec(*s2, e1),
                None => Ok(e1),
            }) {
                Ok(e2) => collect_block_spec(f.body, e2),
                Err(er) => Err(er),
            },
            Err(er) => Err(er),
        },
        _ => Ok(env),
    }
}

pub open spec fn collect_if_spec(i: crate::ast::If, env: Map<GlobalNameV, Type>) -> Result<
    Map<GlobalNameV, Type>,
    ResolverError,
>
    decreases size_if(i),
{
    match collect_block_spec(*i.body, env) {
        Ok(e1) => match i.else_ {
            Some(e) => collect_if_spec(*e, e1),
            None => Ok(e1),
        },
        Err(er) => Err(er),
    }
}

pub open spec fn collect_stmt_block_spec(s: StatementBlock, env: Map<GlobalNameV, Type>) -> Result<
    Map<GlobalNameV, Type>,
    ResolverError,
>
    decreases size_stmt_block(s),
{
    match s {
        StatementBlock::Statement(st) => collect_stmt_spec(st, env),
        StatementBlock::Block(b) => collect_block_spec(b, env),
    }
}

pub open spec fn collect_stmts_spec(s: Seq<StatementBlock>, env: Map<GlobalNameV, Type>) -> Result<
    Map<GlobalNameV, Type>,
    ResolverError,
>
    decreases size_stmts(s),
{
    if s.len() == 0 {
        Ok(env)
    } else {
        match collect_stmt_block_spec(s[0], env) {
            Ok(e1) => collect_stmts_spec(s.drop_first(), e1),
            Err(er) => Err(er),
        }
    }
}

pub open spec fn collect_block_spec(b: Block, env: Map<GlobalNameV, Type>) -> Result<
    Map<GlobalNameV, Type>,
    ResolverError,
>
    decreases size_block(b),
{
    collect_stmts_spec(b.statements@, env)
}

pub open spec fn collect_args_spec(
    args: Seq<crate::ast::VarDef>,
    env: Map<GlobalNameV, Type>,
) -> Result<Map<GlobalNameV, Type>, ResolverError>
    decreases args.len(),
{
    if args.len() == 0 {
        Ok(env)
    } else {
        match record_var_spec(args[0].name, args[0].type_, env) {
            Ok(e1) => collect_args_spec(args.drop_first(), e1),
            Err(er) => Err(er),
        }
    }
}

/// Pass one over one function: its name carries its return type, each
/// argument and each declared variable its own.
pub open spec fn collect_fn_spec(f: FnDef, env: Map<GlobalNameV, Type>) -> Result<
    Map<GlobalNameV, Type>,
    ResolverError,
> {
    match record_var_spec(f.name, f.return_type, env) {
        Ok(e1) => match collect_args_spec(f.args@, e1) {
            Ok(e2) => match f.body {
                Some(b) => collect_block_spec(b, e2),
                None => Ok(e2),
            },
            Err(er) => Err(er),
        },
        Err(er) => Err(er),
    }
}

pub open spec fn collect_entries_spec(
    entries: Seq<(crate::names::GlobalName, FnDef)>,
    env: Map<GlobalNameV, Type>,
) -> Result<Map<GlobalNameV, Type>, ResolverError>
    decreases entries.len(),
{
    if entries.len() == 0 {
        Ok(env)
    } else {
        match collect_fn_spec(entries[0].1, env) {
            Ok(e1) => collect_entries_spec(entries.drop_first(), e1),
            Err(er) => Err(er),
        }
    }
}

/// Pass two over the table: the first function, in entry order, whose
/// body breaks a type rule decides the error.
pub open spec fn pass2_spec(
    entries: Seq<(crate::names::GlobalName, FnDef)>,
    env: Map<GlobalNameV, Type>,
    structs: Map<GlobalNameV, StructDef>,
) -> Result<(), ResolverError>
    decreases entries.len(),
{
    if entries.len() == 0 {
        Ok(())
    } else {
        match fn_def_type_spec(entries[0].1, env, structs) {
            Ok(u) => pass2_spec(entries.drop_first(), env, structs),
            Err(er) => Err(er),
        }
    }
}

/// The outcome of type resolution as a function of its input: pass one
/// either fails on a name without a global resolution or yields the
/// variable types; pass two then checks every function against them.
pub open spec fn insert_types_spec(
    entries: Seq<(crate::names::GlobalName, FnDef)>,
    base: Map<GlobalNameV, Type>,
    structs: Map<GlobalNameV, StructDef>,
) -> Result<(), ResolverError> {
    match collect_entries_spec(entries, base) {
        Ok(env) => pass2_spec(entries, env, structs),
        Err(er) => Err(er),
    }
}

fn record_var(
    name: &crate::ast::Reference,
    t: &Type,
    env: &mut NameMap<Type>,
) -> (r: Result<(), ResolverError>)
    requires
        old(env).wf(),
    ensures
        final(env).wf(),
        match record_var_spec(*name, *t, old(env)@) {
            Ok(m) => r is Ok && final(env)@ == m,
            Err(er) => r == Err::<(), ResolverError>(er) && final(env)@ == old(env)@,
        },
{
    match &name.global_resolved {
        Some(g) => {
            env.put(g.duplicate(), crate::merger::copy_type(t));
            Ok(())
        },
        None => Err(ResolverError::MissingResolution),
    }
}

fn collect_stmt(s: &Statement, env: &mut NameMap<Type>) -> (r: Result<(), ResolverError>)
    requires
        old(env).wf(),
    ensures
        final(env).wf(),
        match collect_stmt_spec(*s, old(env)@) {
            Ok(m) => r is Ok && final(env)@ == m,
            Err(er) => r == Err::<(), ResolverError>(er),
        },
    decreases size_stmt(*s),
{
    match s {
        Statement::VarDecl(d) => record_var(&d.var_def.name, &d.var_def.type_, env),
        Statement::If(i) => collect_if(i, env),
        Statement::While(w) => collect_block(&w.body, env),
        Statement::For(f) => {
            match &f.init {
                Some(i) => {
                    collect_stmt(i, env)?;
                },
                None => {},
            }
            match &f.step {
                Some(p) => {
                    collect_stmt(p, env)?;
                },
                None => {},
            }
            collect_block(&f.body, env)
        },
        _ => Ok(()),
    }
}

fn collect_if(i: &crate::ast::If, env: &mut NameMap<Type>) -> (r: Result<(), ResolverError>)
    requires
        old(env).wf(),
    ensures
        final(env).wf(),
        match collect_if_spec(*i, old(env)@) {
            Ok(m) => r is Ok && final(env)@ == m,
            Err(er) => r == Err::<(), ResolverError>(er),
        },
    decreases size_if(*i),
{
    collect_block(&i.body, env)?;
    match &i.else_ {
        Some(e) => collect_if(e, env),
        None => Ok(()),
    }
}

fn collect_stmts(v: &Vec<StatementBlock>, i: usize, env: &mut NameMap<Type>) -> (r: Result<
    (),
    ResolverError,
>)
    requires
        old(env).wf(),
        i <= v@.len(),
    ensures
        final(env).wf(),
        match collect_stmts_spec(v@.subrange(i as int, v@.len() as int), old(env)@) {
            Ok(m) => r is Ok && final(env)@ == m,
            Err(er) => r == Err::<(), ResolverError>(er),
        },
    decreases size_stmts(v@.subrange(i as int, v@.len() as int)),
{
    let ghost tail = v@.subrange(i as int, v@.len() as int);
    if i == v.len() {
        return Ok(());
    }
    assert(tail[0] == v@[i as int]);
    proof {
        assert(tail.drop_first() =~= v@.subrange(i + 1, v@.len() as int));
    }
    match &v[i] {
        StatementBlock::Statement(st) => {
            proof {
                assert(tail[0] == StatementBlock::Statement(*st));
                assert(size_stmt_block(tail[0]) == 1 + size_stmt(*st));
            }
            match collect_stmt(st, env) {
                Ok(u) => {
                    assert(collect_stmt_block_spec(tail[0], old(env)@) == Ok::<
                        Map<GlobalNameV, Type>,
                        ResolverError,
                    >(env@));
                },
                Err(e) => {
                    assert(collect_stmt_block_spec(tail[0], old(env)@) == Err::<
                        Map<GlobalNameV, Type>,
                        ResolverError,
                    >(e));
                    return Err(e);
                },
            }
        },
        StatementBlock::Block(b) => {
            proof {
                assert(tail[0] == StatementBlock::Block(*b));
                assert(size_stmt_block(tail[0]) == 1 + size_block(*b));
            }
            match collect_block(b, env) {
                Ok(u) => {
                    assert(collect_stmt_block_spec(tail[0], old(env)@) == Ok::<
                        Map<GlobalNameV, Type>,
                        ResolverError,
                    >(env@));
                },
                Err(e) => {
                    assert(collect_stmt_block_spec(tail[0], old(env)@) == Err::<
                        Map<GlobalNameV, Type>,
                        ResolverError,
                    >(e));
                    return Err(e);
                },
            }
        },
    }
    collect_stmts(v, i + 1, env)
}

fn collect_block(b: &Block, env: &mut NameMap<Type>) -> (r: Result<(), ResolverError>)
    requires
        old(env).wf(),
    ensures
        final(env).wf(),
        match collect_block_spec(*b, old(env)@) {
            Ok(m) => r is Ok && final(env)@ == m,
            Err(er) => r == Err::<(), ResolverError>(er),
        },
    decreases size_block(*b),
{
    assert(b.statements@.subrange(0, b.statements@.len() as int) =~= b.statements@);
    collect_stmts(&b.statements, 0, env)
}

/// Records what pass one learns of a function: its name carries its
/// return type, each argument and each declared variable its own.
fn collect_fn(f: &FnDef, env: &mut NameMap<Type>) -> (r: Result<(), ResolverError>)
    requires
        old(env).wf(),
    ensures
        final(env).wf(),
        match collect_fn_spec(*f, old(env)@) {
            Ok(m) => r is Ok && final(env)@ == m,
            Err(er) => r == Err::<(), ResolverError>(er),
        },
{
    record_var(&f.name, &f.return_type, env)?;
    let ghost env1 = env@;
    let n = f.args.len();
    let mut i: usize = 0;
    assert(f.args@.subrange(0, n as int) =~= f.args@);
    while i < n
        invariant
            i <= n,
            n == f.args@.len(),
            env.wf(),
            record_var_spec(f.name, f.return_type, old(env)@) == Ok::<
                Map<GlobalNameV, Type>,
                ResolverError,
            >(env1),
            collect_args_spec(f.args@.subrange(i as int, n as int), env@) == collect_args_spec(
                f.args@,
                env1,
            ),
        decreases n - i,
    {
        let ghost tail = f.args@.subrange(i as int, n as int);
        assert(tail[0] == f.args@[i as int]);
        proof {
            assert(tail.drop_first() =~= f.args@.subrange(i + 1, n as int));
        }
        match record_var(&f.args[i].name, &f.args[i].type_, env) {
            Ok(u) => {},
            Err(e) => {
                return Err(e);
            },
        }
        i += 1;
    }
    proof {
        assert(f.args@.subrange(n as int, n as int).len() == 0);
    }
    match &f.body {
        Some(b) => collect_block(b, env),
        None => Ok(()),
    }
}

// ---------------------------------------------------------------------
// The driver of both passes.
// ---------------------------------------------------------------------

/// The variable-type table pass one builds and pass two reads.
#[derive(Debug, PartialEq)]
pub struct ResolvedVarDefTable {
    pub var_types: NameMap<Type>,
}

fn annotate_entries(
    entries: Vec<(crate::names::GlobalName, FnDef)>,
    env: &NameMap<Type>,
    structs: &NameMap<StructDef>,
) -> (r: Result<Vec<(crate::names::GlobalName, FnDef)>, ResolverError>)
    requires
        env.wf(),
        structs.wf(),
    ensures
        match r {
            Ok(out) => out@.len() == entries@.len() && pass2_spec(entries@, env@, structs@)
                == Ok::<(), ResolverError>(()) && forall|j: int|
                0 <= j < out@.len() ==> (#[trigger] out@[j]).0 == entries@[j].0 && typed_fn_def(
                    out@[j].1,
                ) && same_skel_fn(out@[j].1, entries@[j].1) && exact_fn_def(
                    out@[j].1,
                    env@,
                    structs@,
                ),
            Err(er) => pass2_spec(entries@, env@, structs@) == Err::<(), ResolverError>(er),
        },
    decreases entries@.len(),
{
    let ghost v0 = entries@;
    let mut entries = entries;
    if entries.len() == 0 {
        let r: Vec<(crate::names::GlobalName, FnDef)> = Vec::new();
        return Ok(r);
    }
    let (k, f) = entries.remove(0);
    assert(k == v0[0].0 && f == v0[0].1 && entries@ == v0.drop_first());
    let f2 = annotate_fn_def(f, env, structs)?;
    let rest = annotate_entries(entries, env, structs)?;
    let ghost rest0 = rest@;
    let mut out = rest;
    out.insert(0, (k, f2));
    assert(out@[0].0 == v0[0].0 && out@[0].1 == f2);
    assert(out@.drop_first() =~= rest0);
    assert forall|j: int|
        0 <= j < out@.len() implies (#[trigger] out@[j]).0 == v0[j].0 && typed_fn_def(out@[j].1)
        && same_skel_fn(out@[j].1, v0[j].1) && exact_fn_def(out@[j].1, env@, structs@) by {
        if j > 0 {
            assert(out@[j] == rest0[j - 1]);
            assert(v0.drop_first()[j - 1] == v0[j]);
            assert(exact_fn_def(rest0[j - 1].1, env@, structs@));
        } else {
            assert(out@[0].1 == f2);
            assert(exact_fn_def(f2, env@, structs@));
        }
    }
    Ok(out)
}

/// Runs both passes of type resolution over the merged program. Pass
/// one extends `var_types` with the declared type of every variable and
/// the return type of every function; pass two rebuilds every function
/// body with every expression annotated, enforcing the type rules. The
/// outcome is exactly `insert_types_spec` of the input: success when
/// and only when every name is globally resolved and every body obeys
/// the type rules under the collected variable types, and otherwise the
/// first error in entry order. On success every function keeps its key
/// and its untyped skeleton and every expression carries a type; on
/// failure the program is abandoned with its function map left empty,
/// the front-end attempting no recovery.
pub fn insert_types(program: &mut FrontProgram, var_types: NameMap<Type>) -> (r: Result<
    (),
    ResolverError,
>)
    requires
        old(program).definitions.function_definitions.wf(),
        old(program).definitions.struct_definitions.wf(),
        var_types.wf(),
    ensures
        final(program).definitions.struct_definitions == old(
            program,
        ).definitions.struct_definitions,
        final(program).definitions.global_var_definitions == old(
            program,
        ).definitions.global_var_definitions,
        r == insert_types_spec(
            old(program).definitions.function_definitions.entries@,
            var_types@,
            old(program).definitions.struct_definitions@,
        ),
        r is Ok ==> {
            &&& final(program).definitions.function_definitions.wf()
            &&& final(program).definitions.function_definitions@.dom() == old(
                program,
            ).definitions.function_definitions@.dom()
            &&& (match collect_entries_spec(
                old(program).definitions.function_definitions.entries@,
                var_types@,
            ) {
                Ok(env) => forall|k: GlobalNameV|
                    final(program).definitions.function_definitions@.contains_key(k)
                        ==> typed_fn_def(
                        #[trigger] final(program).definitions.function_definitions@[k],
                    ) && same_skel_fn(
                        final(program).definitions.function_definitions@[k],
                        old(program).definitions.function_definitions@[k],
                    ) && exact_fn_def(
                        final(program).definitions.function_definitions@[k],
                        env,
                        old(program).definitions.struct_definitions@,
                    ),
                Err(er) => false,
            })
        },
        r is Err ==> final(program).definitions.function_definitions@ == Map::<
            GlobalNameV,
            FnDef,
        >::empty(),
{
    let mut fns: NameMap<FnDef> = NameMap::new();
    core::mem::swap(&mut fns, &mut program.definitions.function_definitions);
    let ghost fns0 = fns;
    let ghost base = var_types@;
    let mut env = var_types;
    let n = fns.entries.len();
    let mut i: usize = 0;
    assert(fns.entries@.subrange(0, n as int) =~= fns.entries@);
    while i < n
        invariant
            i <= n,
            n == fns.entries@.len(),
            env.wf(),
            fns == fns0,
            fns0 == old(program).definitions.function_definitions,
            base == var_types@,
            collect_entries_spec(fns0.entries@, base) == collect_entries_spec(
                fns0.entries@.subrange(i as int, n as int),
                env@,
            ),
            program.definitions.function_definitions@ == Map::<GlobalNameV, FnDef>::empty(),
            program.definitions.struct_definitions == old(
                program,
            ).definitions.struct_definitions,
            program.definitions.global_var_definitions == old(
                program,
            ).definitions.global_var_definitions,
            program.definitions.struct_definitions.wf(),
        decreases n - i,
    {
        let ghost tail = fns0.entries@.subrange(i as int, n as int);
        assert(tail[0] == fns0.entries@[i as int]);
        proof {
            assert(tail.drop_first() =~= fns0.entries@.subrange(i + 1, n as int));
        }
        let ghost env_pre = env@;
        match collect_fn(&fns.entries[i].1, &mut env) {
            Ok(u) => {},
            Err(e) => {
                proof {
                    assert(collect_entries_spec(tail, env_pre) == Err::<
                        Map<GlobalNameV, Type>,
                        ResolverError,
                    >(e));
                    assert(collect_entries_spec(fns0.entries@, base) == Err::<
                        Map<GlobalNameV, Type>,
                        ResolverError,
                    >(e));
                    assert(fns0.entries@ == old(
                        program,
                    ).definitions.function_definitions.entries@);
                }
                return Err(e);
            },
        }
        i += 1;
    }
    proof {
        assert(fns0.entries@.subrange(n as int, n as int).len() == 0);
        assert(collect_entries_spec(fns0.entries@, base) == Ok::<
            Map<GlobalNameV, Type>,
            ResolverError,
        >(env@));
    }
    let table = ResolvedVarDefTable { var_types: env };
    let entries = fns.entries;
    let out_entries = match annotate_entries(
        entries,
        &table.var_types,
        &program.definitions.struct_definitions,
    ) {
        Ok(out) => out,
        Err(e) => {
            return Err(e);
        },
    };
    proof {
        assert forall|a: int, b: int| 0 <= a < b < out_entries@.len() implies (
        #[trigger] out_entries@[a]).0@ != (#[trigger] out_entries@[b]).0@ by {
            assert(out_entries@[a].0 == fns0.entries@[a].0);
            assert(out_entries@[b].0 == fns0.entries@[b].0);
        }
    }
    let new_map = NameMap { entries: out_entries };
    proof {
        assert forall|k: GlobalNameV| new_map@.contains_key(k) == fns0@.contains_key(k) by {
            crate::table::lemma_map_of_contains(new_map.entries@, k);
            crate::table::lemma_map_of_contains(fns0.entries@, k);
            if new_map@.contains_key(k) {
                let j = choose|j: int|
                    0 <= j < new_map.entries@.len() && (#[trigger] new_map.entries@[j]).0@ == k;
                assert(fns0.entries@[j].0@ == k);
            }
            if fns0@.contains_key(k) {
                let j = choose|j: int|
                    0 <= j < fns0.entries@.len() && (#[trigger] fns0.entries@[j]).0@ == k;
                assert(new_map.entries@[j].0@ == k);
            }
        }
        assert(new_map@.dom() =~= fns0@.dom());
        assert forall|k: GlobalNameV| new_map@.contains_key(k) implies typed_fn_def(
            #[trigger] new_map@[k],
        ) && same_skel_fn(new_map@[k], fns0@[k]) && exact_fn_def(
            new_map@[k],
            env@,
            old(program).definitions.struct_definitions@,
        ) by {
            crate::table::lemma_map_of_contains(new_map.entries@, k);
            let j = choose|j: int|
                0 <= j < new_map.entries@.len() && (#[trigger] new_map.entries@[j]).0@ == k;
            crate::table::lemma_map_of_get(new_map.entries@, j);
            crate::table::lemma_map_of_get(fns0.entries@, j);
        }
        assert(fns0.entries@ == old(program).definitions.function_definitions.entries@);
        assert(insert_types_spec(
            fns0.entries@,
            base,
            old(program).definitions.struct_definitions@,
        ) == Ok::<(), ResolverError>(()));
    }
    program.definitions.function_definitions = new_map;
    Ok(())
}

} // verus!
