//! Per-module name resolution: assigns a module-resolved name to every
//! reference of one module, using the lexical scope table.
//!
//! Definitions bind their names; references look them up. Variable and
//! function references with no binding in scope are errors; a struct
//! type reference with no binding falls back to shadow index zero, the
//! form under which a definition of another module appears after
//! merging. Field path segments are not scope-resolved: they are looked
//! up against struct definitions by the type resolver.

use vstd::prelude::*;
use crate::ast::{
    AtomicExpression, Block, CompoundValue, Definition, Expression, ExpressionEnum, FnCall, FnDef,
    For, If, LiteralValue, Module, NamePath, Reference, Statement, StatementBlock, StructDef,
    StructInit, Type, Use, UseElement, VarAssign, VarDecl, VarDef, While,
};
use crate::ast::{
    refs_atomic, refs_block, refs_compound, refs_compound_value, refs_def, refs_defs, refs_expr,
    refs_exprs, refs_fn_def, refs_if, refs_module, ref_ok, mode_module, refs_stmt,
    refs_stmt_block, refs_stmts, refs_struct_def, refs_struct_fields, refs_type, refs_var_decl,
    refs_var_def, refs_args,
};
use crate::ast::{
    size_atomic, size_block, size_compound, size_compound_value, size_def, size_defs, size_expr,
    size_exprs, size_for, size_if, size_literal, size_stmt, size_stmt_block, size_stmts,
    size_var_decl,
};
use crate::names::name_parts;
use crate::scope::{ScopeTable, SymbolKind};

verus! {

/// What a statement-level resolution step may do to the scope table's
/// frames: the stack keeps its depth, every frame below the top is
/// untouched, and the top frame is only appended to — bindings already
/// visible stay visible, in place.
pub open spec fn frames_extended(pre: ScopeTable, post: ScopeTable) -> bool {
    &&& post.frames@.len() == pre.frames@.len()
    &&& post.frames@.drop_last() == pre.frames@.drop_last()
    &&& post.frames@.last()@.len() >= pre.frames@.last()@.len()
    &&& forall|p: int|
        0 <= p < pre.frames@.last()@.len() ==> #[trigger] post.frames@.last()@[p]
            == pre.frames@.last()@[p]
}

/// Errors of name resolution.
#[derive(Debug, PartialEq)]
pub enum ResolverError {
    /// A reference whose raw name is bound nowhere in scope.
    UndefinedVariable(String),
    /// A raw name bound twice in the same scope frame.
    Redefinition(String),
}

/// Resolves the struct reference of a type, if any. An unbound struct
/// name falls back to shadow index zero.
fn resolve_type(t: Type, st: &ScopeTable) -> (r: Type)
    ensures
        refs_type(r, mode_module()),
        match t {
            Type::Struct(n) => match r {
                Type::Struct(n2) => {
                    &&& n2.raw == n.raw
                    &&& n2.global_resolved == n.global_resolved
                    &&& (match st.lookup_spec(n.raw@, SymbolKind::Struct) {
                        Some(m) => n2.module_resolved == Some(m),
                        None => match n2.module_resolved {
                            Some(m2) => m2@ == name_parts(0, n.raw@),
                            None => false,
                        },
                    })
                },
                _ => false,
            },
            _ => r == t,
        },
{
    match t {
        Type::Struct(n) => {
            let Reference { raw, module_resolved: _, global_resolved } = n;
            let resolved = match st.scope_lookup(raw.as_str(), SymbolKind::Struct) {
                Some(m) => m,
                None => crate::names::name_format(raw.as_str(), 0),
            };
            Type::Struct(Reference { raw, module_resolved: Some(resolved), global_resolved })
        },
        _ => t,
    }
}

/// Resolves the head of a name path in the variable name space. The
/// field path segments stay as written.
fn resolve_name_path(np: NamePath, st: &ScopeTable) -> (r: Result<NamePath, ResolverError>)
    ensures
        (r is Ok) == (st.lookup_spec(np.name.raw@, SymbolKind::Var) is Some),
        match r {
            Ok(np2) => {
                &&& np2.name.raw == np.name.raw
                &&& np2.name.global_resolved == np.name.global_resolved
                &&& np2.path == np.path
                &&& np2.name.module_resolved == st.lookup_spec(np.name.raw@, SymbolKind::Var)
                &&& ref_ok(np2.name, mode_module())
            },
            Err(e) => match e {
                ResolverError::UndefinedVariable(s) => s == np.name.raw,
                _ => false,
            },
        },
{
    let NamePath { name, path } = np;
    let Reference { raw, module_resolved: _, global_resolved } = name;
    match st.scope_lookup(raw.as_str(), SymbolKind::Var) {
        Some(m) => Ok(
            NamePath {
                name: Reference { raw, module_resolved: Some(m), global_resolved },
                path,
            },
        ),
        None => Err(ResolverError::UndefinedVariable(raw)),
    }
}

// What makes an expression fail to resolve: the raw name of the first
// variable or function reference, in walk order, that no binding in
// scope answers. Expressions bind nothing, so this is a pure function
// of the expression and the scope table.

pub open spec fn expr_failure(e: Expression, st: ScopeTable) -> Option<Seq<char>>
    decreases size_expr(e),
{
    match e.expr {
        ExpressionEnum::AtomicExpression(a) => atomic_failure(a, st),
        ExpressionEnum::Unary(op, b) => expr_failure(*b, st),
        ExpressionEnum::Binary(b1, op, b2) => match expr_failure(*b1, st) {
            Some(raw) => Some(raw),
            None => expr_failure(*b2, st),
        },
    }
}

pub open spec fn atomic_failure(a: AtomicExpression, st: ScopeTable) -> Option<Seq<char>>
    decreases size_atomic(a),
{
    match a {
        AtomicExpression::Literal(l) => match l {
            LiteralValue::Compound(c) => compound_failure(c@, st),
            _ => None,
        },
        AtomicExpression::Variable(np) => match st.lookup_spec(np.name.raw@, SymbolKind::Var) {
            Some(n) => None,
            None => Some(np.name.raw@),
        },
        AtomicExpression::FnCall(f) => match st.lookup_spec(f.name.raw@, SymbolKind::Fn) {
            Some(n) => exprs_failure(f.args@, st),
            None => Some(f.name.raw@),
        },
        AtomicExpression::StructInit(s) => compound_failure(s.compound@, st),
    }
}

pub open spec fn exprs_failure(s: Seq<Expression>, st: ScopeTable) -> Option<Seq<char>>
    decreases size_exprs(s),
{
    if s.len() == 0 {
        None
    } else {
        match expr_failure(s[0], st) {
            Some(raw) => Some(raw),
            None => exprs_failure(s.drop_first(), st),
        }
    }
}

pub open spec fn compound_failure(s: Seq<(String, CompoundValue)>, st: ScopeTable) -> Option<
    Seq<char>,
>
    decreases size_compound(s),
{
    if s.len() == 0 {
        None
    } else {
        match compound_value_failure(s[0].1, st) {
            Some(raw) => Some(raw),
            None => compound_failure(s.drop_first(), st),
        }
    }
}

pub open spec fn compound_value_failure(v: CompoundValue, st: ScopeTable) -> Option<Seq<char>>
    decreases size_compound_value(v),
{
    match v {
        CompoundValue::Expression(e) => expr_failure(*e, st),
        CompoundValue::Compound(c) => compound_failure(c@, st),
    }
}

// ---------------------------------------------------------------------
// What resolution may change: nothing but the `module_resolved` field
// of references. The `shape_*` relations say the output is the input
// with at most those fields filled.
// ---------------------------------------------------------------------

pub open spec fn shape_ref(a: Reference, b: Reference) -> bool {
    a.raw == b.raw && a.global_resolved == b.global_resolved
}

pub open spec fn shape_type(a: Type, b: Type) -> bool {
    match (a, b) {
        (Type::Struct(r1), Type::Struct(r2)) => shape_ref(r1, r2),
        _ => a == b,
    }
}

pub open spec fn shape_var_def(a: VarDef, b: VarDef) -> bool {
    shape_ref(a.name, b.name) && shape_type(a.type_, b.type_) && a.mods == b.mods
}

pub open spec fn shape_expr(a: Expression, b: Expression) -> bool
    decreases size_expr(a),
{
    a.type_ == b.type_ && match (a.expr, b.expr) {
        (ExpressionEnum::AtomicExpression(x), ExpressionEnum::AtomicExpression(y)) => shape_atomic(
            x,
            y,
        ),
        (ExpressionEnum::Unary(op1, b1), ExpressionEnum::Unary(op2, b2)) => op1 == op2
            && shape_expr(*b1, *b2),
        (ExpressionEnum::Binary(l1, op1, r1), ExpressionEnum::Binary(l2, op2, r2)) => op1 == op2
            && shape_expr(*l1, *l2) && shape_expr(*r1, *r2),
        _ => false,
    }
}

pub open spec fn shape_atomic(a: AtomicExpression, b: AtomicExpression) -> bool
    decreases size_atomic(a),
{
    match (a, b) {
        (AtomicExpression::Literal(l1), AtomicExpression::Literal(l2)) => shape_literal(l1, l2),
        (AtomicExpression::Variable(np1), AtomicExpression::Variable(np2)) => shape_ref(
            np1.name,
            np2.name,
        ) && np1.path == np2.path,
        (AtomicExpression::FnCall(f1), AtomicExpression::FnCall(f2)) => shape_ref(f1.name, f2.name)
            && shape_exprs(f1.args@, f2.args@),
        (AtomicExpression::StructInit(s1), AtomicExpression::StructInit(s2)) => shape_ref(
            s1.type_,
            s2.type_,
        ) && shape_compound(s1.compound@, s2.compound@),
        _ => false,
    }
}

pub open spec fn shape_literal(a: LiteralValue, b: LiteralValue) -> bool
    decreases size_literal(a),
{
    match (a, b) {
        (LiteralValue::Compound(c1), LiteralValue::Compound(c2)) => shape_compound(c1@, c2@),
        _ => a == b && !(a is Compound),
    }
}

pub open spec fn shape_exprs(a: Seq<Expression>, b: Seq<Expression>) -> bool
    decreases size_exprs(a),
{
    a.len() == b.len() && (a.len() == 0 || (shape_expr(a[0], b[0]) && shape_exprs(
        a.drop_first(),
        b.drop_first(),
    )))
}

pub open spec fn shape_compound(
    a: Seq<(String, CompoundValue)>,
    b: Seq<(String, CompoundValue)>,
) -> bool
    decreases size_compound(a),
{
    a.len() == b.len() && (a.len() == 0 || (a[0].0 == b[0].0 && shape_compound_value(
        a[0].1,
        b[0].1,
    ) && shape_compound(a.drop_first(), b.drop_first())))
}

pub open spec fn shape_compound_value(a: CompoundValue, b: CompoundValue) -> bool
    decreases size_compound_value(a),
{
    match (a, b) {
        (CompoundValue::Expression(e1), CompoundValue::Expression(e2)) => shape_expr(*e1, *e2),
        (CompoundValue::Compound(c1), CompoundValue::Compound(c2)) => shape_compound(c1@, c2@),
        _ => false,
    }
}

pub open spec fn shape_stmt(a: Statement, b: Statement) -> bool
    decreases size_stmt(a),
{
    match (a, b) {
        (Statement::VarDecl(d1), Statement::VarDecl(d2)) => shape_var_decl(d1, d2),
        (Statement::VarAssign(a1), Statement::VarAssign(a2)) => shape_ref(
            a1.name_path.name,
            a2.name_path.name,
        ) && a1.name_path.path == a2.name_path.path && shape_expr(*a1.expr, *a2.expr),
        (Statement::If(i1), Statement::If(i2)) => shape_if(i1, i2),
        (Statement::While(w1), Statement::While(w2)) => shape_expr(*w1.cond, *w2.cond)
            && shape_block(*w1.body, *w2.body),
        (Statement::For(f1), Statement::For(f2)) => shape_for(f1, f2),
        (Statement::Return(e1), Statement::Return(e2)) => shape_expr(*e1, *e2),
        (Statement::Break, Statement::Break) => true,
        (Statement::Continue, Statement::Continue) => true,
        (Statement::Expression(e1), Statement::Expression(e2)) => shape_expr(*e1, *e2),
        _ => false,
    }
}

pub open spec fn shape_var_decl(a: VarDecl, b: VarDecl) -> bool
    decreases size_var_decl(a),
{
    shape_var_def(a.var_def, b.var_def) && match (a.expr, b.expr) {
        (Some(e1), Some(e2)) => shape_expr(*e1, *e2),
        (None, None) => true,
        _ => false,
    }
}

pub open spec fn shape_if(a: If, b: If) -> bool
    decreases size_if(a),
{
    shape_expr(*a.cond, *b.cond) && shape_block(*a.body, *b.body) && match (a.else_, b.else_) {
        (Some(e1), Some(e2)) => shape_if(*e1, *e2),
        (None, None) => true,
        _ => false,
    }
}

pub open spec fn shape_for(a: For, b: For) -> bool
    decreases size_for(a),
{
    (match (a.init, b.init) {
        (Some(s1), Some(s2)) => shape_stmt(*s1, *s2),
        (None, None) => true,
        _ => false,
    }) && (match (a.cond, b.cond) {
        (Some(e1), Some(e2)) => shape_expr(*e1, *e2),
        (None, None) => true,
        _ => false,
    }) && (match (a.step, b.step) {
        (Some(s1), Some(s2)) => shape_stmt(*s1, *s2),
        (None, None) => true,
        _ => false,
    }) && shape_block(a.body, b.body)
}

pub open spec fn shape_stmt_block(a: StatementBlock, b: StatementBlock) -> bool
    decreases size_stmt_block(a),
{
    match (a, b) {
        (StatementBlock::Statement(s1), StatementBlock::Statement(s2)) => shape_stmt(s1, s2),
        (StatementBlock::Block(b1), StatementBlock::Block(b2)) => shape_block(b1, b2),
        _ => false,
    }
}

pub open spec fn shape_stmts(a: Seq<StatementBlock>, b: Seq<StatementBlock>) -> bool
    decreases size_stmts(a),
{
    a.len() == b.len() && (a.len() == 0 || (shape_stmt_block(a[0], b[0]) && shape_stmts(
        a.drop_first(),
        b.drop_first(),
    )))
}

pub open spec fn shape_fields(a: Seq<(String, Type)>, b: Seq<(String, Type)>) -> bool {
    a.len() == b.len() && forall|i: int|
        0 <= i < a.len() ==> (#[trigger] a[i]).0 == b[i].0 && shape_type(a[i].1, b[i].1)
}

pub open spec fn shape_args(a: Seq<VarDef>, b: Seq<VarDef>) -> bool {
    a.len() == b.len() && forall|i: int| 0 <= i < a.len() ==> shape_var_def(#[trigger] a[i], b[i])
}

pub open spec fn shape_def(a: Definition, b: Definition) -> bool
    decreases size_def(a),
{
    match (a, b) {
        (Definition::VarDecl(d1), Definition::VarDecl(d2)) => shape_var_decl(d1, d2),
        (Definition::StructDef(s1), Definition::StructDef(s2)) => shape_ref(s1.name, s2.name)
            && s1.mods == s2.mods && shape_fields(s1.fields@, s2.fields@),
        (Definition::FnDef(f1), Definition::FnDef(f2)) => shape_ref(f1.name, f2.name)
            && shape_type(f1.return_type, f2.return_type) && f1.mods == f2.mods && shape_args(
            f1.args@,
            f2.args@,
        ) && (match (f1.body, f2.body) {
            (Some(b1), Some(b2)) => shape_block(b1, b2),
            (None, None) => true,
            _ => false,
        }),
        _ => false,
    }
}

pub open spec fn shape_defs(a: Seq<Definition>, b: Seq<Definition>) -> bool
    decreases size_defs(a),
{
    a.len() == b.len() && (a.len() == 0 || (shape_def(a[0], b[0]) && shape_defs(
        a.drop_first(),
        b.drop_first(),
    )))
}

pub open spec fn shape_block(a: Block, b: Block) -> bool
    decreases size_block(a),
{
    shape_defs(a.definitions@, b.definitions@) && shape_stmts(a.statements@, b.statements@)
}

pub open spec fn shape_uses(a: Seq<Use>, b: Seq<Use>) -> bool {
    a.len() == b.len() && forall|i: int, j: int|
        0 <= i < a.len() && 0 <= j < (#[trigger] a[i]).elements@.len() ==> a[i].path == b[i].path
            && a[i].elements@.len() == b[i].elements@.len() && (#[trigger] a[i].elements@[j]).origin_name
            == b[i].elements@[j].origin_name && shape_ref(
            a[i].elements@[j].imported_name,
            b[i].elements@[j].imported_name,
        )
}

/// A resolved module is its input with at most the `module_resolved`
/// fields of references filled in.
pub open spec fn shape_module(a: Module, b: Module) -> bool {
    &&& a.mods == b.mods
    &&& shape_uses(a.uses@, b.uses@)
    &&& shape_defs(a.public_definitions@, b.public_definitions@)
    &&& shape_block(a.block, b.block)
}

// The shape relations are reflexive: a node kept as it is trivially has
// its own shape.

pub proof fn lemma_shape_expr_refl(e: Expression)
    ensures
        shape_expr(e, e),
    decreases size_expr(e),
{
    match e.expr {
        ExpressionEnum::AtomicExpression(a) => lemma_shape_atomic_refl(a),
        ExpressionEnum::Unary(op, b) => lemma_shape_expr_refl(*b),
        ExpressionEnum::Binary(b1, op, b2) => {
            lemma_shape_expr_refl(*b1);
            lemma_shape_expr_refl(*b2);
        },
    }
}

pub proof fn lemma_shape_atomic_refl(a: AtomicExpression)
    ensures
        shape_atomic(a, a),
    decreases size_atomic(a),
{
    match a {
        AtomicExpression::Literal(l) => match l {
            LiteralValue::Compound(c) => lemma_shape_compound_refl(c@),
            _ => {},
        },
        AtomicExpression::FnCall(f) => lemma_shape_exprs_refl(f.args@),
        AtomicExpression::StructInit(s) => lemma_shape_compound_refl(s.compound@),
        _ => {},
    }
}

pub proof fn lemma_shape_exprs_refl(s: Seq<Expression>)
    ensures
        shape_exprs(s, s),
    decreases size_exprs(s),
{
    if s.len() > 0 {
        lemma_shape_expr_refl(s[0]);
        lemma_shape_exprs_refl(s.drop_first());
    }
}

pub proof fn lemma_shape_compound_refl(s: Seq<(String, CompoundValue)>)
    ensures
        shape_compound(s, s),
    decreases size_compound(s),
{
    if s.len() > 0 {
        match s[0].1 {
            CompoundValue::Expression(e) => {
                assert(s[0].1 == CompoundValue::Expression(e));
                assert(size_compound_value(s[0].1) == 1 + size_expr(*e));
                lemma_shape_expr_refl(*e);
            },
            CompoundValue::Compound(c) => {
                assert(s[0].1 == CompoundValue::Compound(c));
                assert(size_compound_value(s[0].1) == 1 + size_compound(c@));
                lemma_shape_compound_refl(c@);
            },
        }
        assert(shape_compound_value(s[0].1, s[0].1));
        lemma_shape_compound_refl(s.drop_first());
    }
}

pub proof fn lemma_shape_stmt_refl(s: Statement)
    ensures
        shape_stmt(s, s),
    decreases size_stmt(s),
{
    match s {
        Statement::VarDecl(d) => match d.expr {
            Some(e) => lemma_shape_expr_refl(*e),
            None => {},
        },
        Statement::VarAssign(a) => lemma_shape_expr_refl(*a.expr),
        Statement::If(i) => lemma_shape_if_refl(i),
        Statement::While(w) => {
            lemma_shape_expr_refl(*w.cond);
            lemma_shape_block_refl(*w.body);
        },
        Statement::For(f) => {
            match f.init {
                Some(s1) => lemma_shape_stmt_refl(*s1),
                None => {},
            }
            match f.cond {
                Some(e) => lemma_shape_expr_refl(*e),
                None => {},
            }
            match f.step {
                Some(s2) => lemma_shape_stmt_refl(*s2),
                None => {},
            }
            lemma_shape_block_refl(f.body);
        },
        Statement::Return(e) => lemma_shape_expr_refl(*e),
        Statement::Expression(e) => lemma_shape_expr_refl(*e),
        _ => {},
    }
}

pub proof fn lemma_shape_if_refl(i: If)
    ensures
        shape_if(i, i),
    decreases size_if(i),
{
    lemma_shape_expr_refl(*i.cond);
    lemma_shape_block_refl(*i.body);
    match i.else_ {
        Some(e) => lemma_shape_if_refl(*e),
        None => {},
    }
}

pub proof fn lemma_shape_stmts_refl(s: Seq<StatementBlock>)
    ensures
        shape_stmts(s, s),
    decreases size_stmts(s),
{
    if s.len() > 0 {
        match s[0] {
            StatementBlock::Statement(st) => {
                assert(s[0] == StatementBlock::Statement(st));
                assert(size_stmt_block(s[0]) == 1 + size_stmt(st));
                lemma_shape_stmt_refl(st);
            },
            StatementBlock::Block(b) => {
                assert(s[0] == StatementBlock::Block(b));
                assert(size_stmt_block(s[0]) == 1 + size_block(b));
                lemma_shape_block_refl(b);
            },
        }
        assert(shape_stmt_block(s[0], s[0]));
        lemma_shape_stmts_refl(s.drop_first());
    }
}

pub proof fn lemma_shape_def_refl(d: Definition)
    ensures
        shape_def(d, d),
    decreases size_def(d),
{
    match d {
        Definition::VarDecl(v) => match v.expr {
            Some(e) => lemma_shape_expr_refl(*e),
            None => {},
        },
        Definition::StructDef(sd) => {},
        Definition::FnDef(f) => match f.body {
            Some(b) => {
                assert(size_def(d) == 2 + size_block(b));
                lemma_shape_block_refl(b);
            },
            None => {},
        },
    }
}

pub proof fn lemma_shape_defs_refl(s: Seq<Definition>)
    ensures
        shape_defs(s, s),
    decreases size_defs(s),
{
    if s.len() > 0 {
        lemma_shape_def_refl(s[0]);
        lemma_shape_defs_refl(s.drop_first());
    }
}

pub proof fn lemma_shape_block_refl(b: Block)
    ensures
        shape_block(b, b),
    decreases size_block(b),
{
    lemma_shape_defs_refl(b.definitions@);
    lemma_shape_stmts_refl(b.statements@);
}

// The shape relations compose: two resolution steps in sequence still
// change nothing but the module-resolved fields.

pub proof fn lemma_shape_expr_trans(a: Expression, b: Expression, c: Expression)
    requires
        shape_expr(a, b),
        shape_expr(b, c),
    ensures
        shape_expr(a, c),
    decreases size_expr(a),
{
    match (a.expr, b.expr, c.expr) {
        (
            ExpressionEnum::AtomicExpression(x),
            ExpressionEnum::AtomicExpression(y),
            ExpressionEnum::AtomicExpression(z),
        ) => lemma_shape_atomic_trans(x, y, z),
        (
            ExpressionEnum::Unary(o1, b1),
            ExpressionEnum::Unary(o2, b2),
            ExpressionEnum::Unary(o3, b3),
        ) => lemma_shape_expr_trans(*b1, *b2, *b3),
        (
            ExpressionEnum::Binary(l1, o1, r1),
            ExpressionEnum::Binary(l2, o2, r2),
            ExpressionEnum::Binary(l3, o3, r3),
        ) => {
            lemma_shape_expr_trans(*l1, *l2, *l3);
            lemma_shape_expr_trans(*r1, *r2, *r3);
        },
        _ => {},
    }
}

pub proof fn lemma_shape_atomic_trans(a: AtomicExpression, b: AtomicExpression, c: AtomicExpression)
    requires
        shape_atomic(a, b),
        shape_atomic(b, c),
    ensures
        shape_atomic(a, c),
    decreases size_atomic(a),
{
    match (a, b, c) {
        (
            AtomicExpression::Literal(l1),
            AtomicExpression::Literal(l2),
            AtomicExpression::Literal(l3),
        ) => match (l1, l2, l3) {
            (
                LiteralValue::Compound(c1),
                LiteralValue::Compound(c2),
                LiteralValue::Compound(c3),
            ) => lemma_shape_compound_trans(c1@, c2@, c3@),
            _ => {},
        },
        (AtomicExpression::FnCall(f1), AtomicExpression::FnCall(f2), AtomicExpression::FnCall(f3)) => {
            lemma_shape_exprs_trans(f1.args@, f2.args@, f3.args@);
        },
        (
            AtomicExpression::StructInit(s1),
            AtomicExpression::StructInit(s2),
            AtomicExpression::StructInit(s3),
        ) => {
            lemma_shape_compound_trans(s1.compound@, s2.compound@, s3.compound@);
        },
        _ => {},
    }
}

pub proof fn lemma_shape_exprs_trans(a: Seq<Expression>, b: Seq<Expression>, c: Seq<Expression>)
    requires
        shape_exprs(a, b),
        shape_exprs(b, c),
    ensures
        shape_exprs(a, c),
    decreases size_exprs(a),
{
    if a.len() > 0 {
        lemma_shape_expr_trans(a[0], b[0], c[0]);
        lemma_shape_exprs_trans(a.drop_first(), b.drop_first(), c.drop_first());
    }
}

pub proof fn lemma_shape_compound_trans(
    a: Seq<(String, CompoundValue)>,
    b: Seq<(String, CompoundValue)>,
    c: Seq<(String, CompoundValue)>,
)
    requires
        shape_compound(a, b),
        shape_compound(b, c),
    ensures
        shape_compound(a, c),
    decreases size_compound(a),
{
    if a.len() > 0 {
        match (a[0].1, b[0].1, c[0].1) {
            (
                CompoundValue::Expression(e1),
                CompoundValue::Expression(e2),
                CompoundValue::Expression(e3),
            ) => {
                assert(a[0].1 == CompoundValue::Expression(e1));
                assert(b[0].1 == CompoundValue::Expression(e2));
                assert(c[0].1 == CompoundValue::Expression(e3));
                assert(size_compound_value(a[0].1) == 1 + size_expr(*e1));
                assert(shape_compound_value(a[0].1, b[0].1));
                assert(shape_compound_value(b[0].1, c[0].1));
                assert(shape_expr(*e1, *e2));
                assert(shape_expr(*e2, *e3));
                lemma_shape_expr_trans(*e1, *e2, *e3);
            },
            (
                CompoundValue::Compound(c1),
                CompoundValue::Compound(c2),
                CompoundValue::Compound(c3),
            ) => {
                assert(a[0].1 == CompoundValue::Compound(c1));
                assert(b[0].1 == CompoundValue::Compound(c2));
                assert(c[0].1 == CompoundValue::Compound(c3));
                assert(size_compound_value(a[0].1) == 1 + size_compound(c1@));
                assert(shape_compound_value(a[0].1, b[0].1));
                assert(shape_compound_value(b[0].1, c[0].1));
                assert(shape_compound(c1@, c2@));
                assert(shape_compound(c2@, c3@));
                lemma_shape_compound_trans(c1@, c2@, c3@);
            },
            _ => {
                assert(shape_compound_value(a[0].1, b[0].1));
                assert(shape_compound_value(b[0].1, c[0].1));
            },
        }
        assert(shape_compound_value(a[0].1, c[0].1));
        lemma_shape_compound_trans(a.drop_first(), b.drop_first(), c.drop_first());
    }
}

pub proof fn lemma_shape_stmt_trans(a: Statement, b: Statement, c: Statement)
    requires
        shape_stmt(a, b),
        shape_stmt(b, c),
    ensures
        shape_stmt(a, c),
    decreases size_stmt(a),
{
    match (a, b, c) {
        (Statement::VarDecl(d1), Statement::VarDecl(d2), Statement::VarDecl(d3)) => {
            match (d1.expr, d2.expr, d3.expr) {
                (Some(e1), Some(e2), Some(e3)) => lemma_shape_expr_trans(*e1, *e2, *e3),
                _ => {},
            }
        },
        (Statement::VarAssign(a1), Statement::VarAssign(a2), Statement::VarAssign(a3)) => {
            lemma_shape_expr_trans(*a1.expr, *a2.expr, *a3.expr);
        },
        (Statement::If(i1), Statement::If(i2), Statement::If(i3)) => {
            lemma_shape_if_trans(i1, i2, i3);
        },
        (Statement::While(w1), Statement::While(w2), Statement::While(w3)) => {
            lemma_shape_expr_trans(*w1.cond, *w2.cond, *w3.cond);
            lemma_shape_block_trans(*w1.body, *w2.body, *w3.body);
        },
        (Statement::For(f1), Statement::For(f2), Statement::For(f3)) => {
            match (f1.init, f2.init, f3.init) {
                (Some(s1), Some(s2), Some(s3)) => lemma_shape_stmt_trans(*s1, *s2, *s3),
                _ => {},
            }
            match (f1.cond, f2.cond, f3.cond) {
                (Some(e1), Some(e2), Some(e3)) => lemma_shape_expr_trans(*e1, *e2, *e3),
                _ => {},
            }
            match (f1.step, f2.step, f3.step) {
                (Some(s1), Some(s2), Some(s3)) => lemma_shape_stmt_trans(*s1, *s2, *s3),
                _ => {},
            }
            lemma_shape_block_trans(f1.body, f2.body, f3.body);
        },
        (Statement::Return(e1), Statement::Return(e2), Statement::Return(e3)) => {
            lemma_shape_expr_trans(*e1, *e2, *e3);
        },
        (Statement::Expression(e1), Statement::Expression(e2), Statement::Expression(e3)) => {
            lemma_shape_expr_trans(*e1, *e2, *e3);
        },
        _ => {},
    }
}

pub proof fn lemma_shape_if_trans(a: If, b: If, c: If)
    requires
        shape_if(a, b),
        shape_if(b, c),
    ensures
        shape_if(a, c),
    decreases size_if(a),
{
    lemma_shape_expr_trans(*a.cond, *b.cond, *c.cond);
    lemma_shape_block_trans(*a.body, *b.body, *c.body);
    match (a.else_, b.else_, c.else_) {
        (Some(e1), Some(e2), Some(e3)) => lemma_shape_if_trans(*e1, *e2, *e3),
        _ => {},
    }
}

pub proof fn lemma_shape_stmts_trans(
    a: Seq<StatementBlock>,
    b: Seq<StatementBlock>,
    c: Seq<StatementBlock>,
)
    requires
        shape_stmts(a, b),
        shape_stmts(b, c),
    ensures
        shape_stmts(a, c),
    decreases size_stmts(a),
{
    if a.len() > 0 {
        match (a[0], b[0], c[0]) {
            (
                StatementBlock::Statement(s1),
                StatementBlock::Statement(s2),
                StatementBlock::Statement(s3),
            ) => {
                assert(a[0] == StatementBlock::Statement(s1));
                assert(b[0] == StatementBlock::Statement(s2));
                assert(c[0] == StatementBlock::Statement(s3));
                assert(size_stmt_block(a[0]) == 1 + size_stmt(s1));
                assert(shape_stmt_block(a[0], b[0]));
                assert(shape_stmt_block(b[0], c[0]));
                assert(shape_stmt(s1, s2));
                assert(shape_stmt(s2, s3));
                lemma_shape_stmt_trans(s1, s2, s3);
            },
            (StatementBlock::Block(b1), StatementBlock::Block(b2), StatementBlock::Block(b3)) => {
                assert(a[0] == StatementBlock::Block(b1));
                assert(b[0] == StatementBlock::Block(b2));
                assert(c[0] == StatementBlock::Block(b3));
                assert(size_stmt_block(a[0]) == 1 + size_block(b1));
                assert(shape_stmt_block(a[0], b[0]));
                assert(shape_stmt_block(b[0], c[0]));
                assert(shape_block(b1, b2));
                assert(shape_block(b2, b3));
                lemma_shape_block_trans(b1, b2, b3);
            },
            _ => {
                assert(shape_stmt_block(a[0], b[0]));
                assert(shape_stmt_block(b[0], c[0]));
            },
        }
        assert(shape_stmt_block(a[0], c[0]));
        lemma_shape_stmts_trans(a.drop_first(), b.drop_first(), c.drop_first());
    }
}

pub proof fn lemma_shape_def_trans(a: Definition, b: Definition, c: Definition)
    requires
        shape_def(a, b),
        shape_def(b, c),
    ensures
        shape_def(a, c),
    decreases size_def(a),
{
    match (a, b, c) {
        (Definition::VarDecl(d1), Definition::VarDecl(d2), Definition::VarDecl(d3)) => {
            match (d1.expr, d2.expr, d3.expr) {
                (Some(e1), Some(e2), Some(e3)) => lemma_shape_expr_trans(*e1, *e2, *e3),
                _ => {},
            }
        },
        (Definition::FnDef(f1), Definition::FnDef(f2), Definition::FnDef(f3)) => {
            match (f1.body, f2.body, f3.body) {
                (Some(b1), Some(b2), Some(b3)) => {
                    assert(size_def(a) == 2 + size_block(b1));
                    lemma_shape_block_trans(b1, b2, b3);
                },
                _ => {},
            }
        },
        _ => {},
    }
}

pub proof fn lemma_shape_defs_trans(a: Seq<Definition>, b: Seq<Definition>, c: Seq<Definition>)
    requires
        shape_defs(a, b),
        shape_defs(b, c),
    ensures
        shape_defs(a, c),
    decreases size_defs(a),
{
    if a.len() > 0 {
        lemma_shape_def_trans(a[0], b[0], c[0]);
        lemma_shape_defs_trans(a.drop_first(), b.drop_first(), c.drop_first());
    }
}

pub proof fn lemma_shape_block_trans(a: Block, b: Block, c: Block)
    requires
        shape_block(a, b),
        shape_block(b, c),
    ensures
        shape_block(a, c),
    decreases size_block(a),
{
    lemma_shape_defs_trans(a.definitions@, b.definitions@, c.definitions@);
    lemma_shape_stmts_trans(a.statements@, b.statements@, c.statements@);
}

/// A registered definition has its input's shape: registration touches
/// only the name field.
pub proof fn lemma_same_def_shape(d2: Definition, d: Definition)
    requires
        same_def_but_name(d2, d),
    ensures
        shape_def(d2, d),
{
    match (d2, d) {
        (Definition::VarDecl(b), Definition::VarDecl(a)) => {
            match (b.expr, a.expr) {
                (Some(e1), Some(e2)) => {
                    lemma_shape_expr_refl(*e1);
                },
                _ => {},
            }
        },
        (Definition::StructDef(b), Definition::StructDef(a)) => {},
        (Definition::FnDef(b), Definition::FnDef(a)) => {
            match (b.body, a.body) {
                (Some(b1), Some(b2)) => {
                    lemma_shape_block_refl(b1);
                },
                _ => {},
            }
        },
        _ => {},
    }
}

/// What a resolution error of the expression walk carries: the raw
/// name the scope table could not answer.
pub open spec fn names_failure(r: ResolverError, raw: Option<Seq<char>>) -> bool {
    match r {
        ResolverError::UndefinedVariable(s) => raw == Some(s@),
        _ => false,
    }
}

fn resolve_expr(e: Expression, st: &ScopeTable) -> (r: Result<Expression, ResolverError>)
    ensures
        match r {
            Ok(e2) => refs_expr(e2, mode_module()) && shape_expr(e2, e) && expr_failure(
                e,
                *st,
            ) is None,
            Err(er) => names_failure(er, expr_failure(e, *st)),
        },
    decreases size_expr(e),
{
    let ghost e0 = e;
    let Expression { expr, type_ } = e;
    match expr {
        ExpressionEnum::AtomicExpression(a) => {
            let a2 = resolve_atomic(a, st)?;
            Ok(Expression { expr: ExpressionEnum::AtomicExpression(a2), type_ })
        },
        ExpressionEnum::Unary(op, b) => {
            let b2 = resolve_expr(*b, st)?;
            Ok(Expression { expr: ExpressionEnum::Unary(op, Box::new(b2)), type_ })
        },
        ExpressionEnum::Binary(b1, op, b2) => {
            let c1 = resolve_expr(*b1, st)?;
            let c2 = resolve_expr(*b2, st)?;
            Ok(Expression { expr: ExpressionEnum::Binary(Box::new(c1), op, Box::new(c2)), type_ })
        },
    }
}

fn resolve_atomic(a: AtomicExpression, st: &ScopeTable) -> (r: Result<
    AtomicExpression,
    ResolverError,
>)
    ensures
        match r {
            Ok(a2) => refs_atomic(a2, mode_module()) && shape_atomic(a2, a) && atomic_failure(
                a,
                *st,
            ) is None,
            Err(er) => names_failure(er, atomic_failure(a, *st)),
        },
    decreases size_atomic(a),
{
    let ghost a0 = a;
    match a {
        AtomicExpression::Literal(l) => {
            match l {
                LiteralValue::Compound(c) => {
                    let c2 = resolve_compound(c, st)?;
                    Ok(AtomicExpression::Literal(LiteralValue::Compound(c2)))
                },
                _ => Ok(AtomicExpression::Literal(l)),
            }
        },
        AtomicExpression::Variable(np) => {
            let np2 = resolve_name_path(np, st)?;
            Ok(AtomicExpression::Variable(np2))
        },
        AtomicExpression::FnCall(f) => {
            let f2 = resolve_fn_call(*f, st)?;
            Ok(AtomicExpression::FnCall(Box::new(f2)))
        },
        AtomicExpression::StructInit(s) => {
            let StructInit { type_, compound } = *s;
            let Reference { raw, module_resolved: _, global_resolved } = type_;
            let resolved = match st.scope_lookup(raw.as_str(), SymbolKind::Struct) {
                Some(m) => m,
                None => crate::names::name_format(raw.as_str(), 0),
            };
            let c2 = resolve_compound(compound, st)?;
            Ok(
                AtomicExpression::StructInit(
                    Box::new(
                        StructInit {
                            type_: Reference {
                                raw,
                                module_resolved: Some(resolved),
                                global_resolved,
                            },
                            compound: c2,
                        },
                    ),
                ),
            )
        },
    }
}

/// Resolves a call: the callee in the function name space, then the
/// arguments.
fn resolve_fn_call(f: FnCall, st: &ScopeTable) -> (r: Result<FnCall, ResolverError>)
    ensures
        match r {
            Ok(f2) => ref_ok(f2.name, mode_module()) && refs_exprs(f2.args@, mode_module())
                && f2.name.module_resolved == st.lookup_spec(f.name.raw@, SymbolKind::Fn)
                && f2.name.raw == f.name.raw && shape_ref(f2.name, f.name) && shape_exprs(
                f2.args@,
                f.args@,
            ) && atomic_failure(AtomicExpression::FnCall(Box::new(f)), *st) is None,
            Err(er) => names_failure(er, atomic_failure(AtomicExpression::FnCall(Box::new(f)), *st)),
        },
    decreases 1 + size_exprs(f.args@),
{
    let ghost f0 = f;
    let FnCall { name, args } = f;
    let Reference { raw, module_resolved: _, global_resolved } = name;
    match st.scope_lookup(raw.as_str(), SymbolKind::Fn) {
        Some(m) => {
            let args2 = resolve_exprs(args, st)?;
            Ok(
                FnCall {
                    name: Reference { raw, module_resolved: Some(m), global_resolved },
                    args: args2,
                },
            )
        },
        None => Err(ResolverError::UndefinedVariable(raw)),
    }
}

fn resolve_exprs(v: Vec<Expression>, st: &ScopeTable) -> (r: Result<Vec<Expression>, ResolverError>)
    ensures
        match r {
            Ok(v2) => refs_exprs(v2@, mode_module()) && shape_exprs(v2@, v@) && exprs_failure(
                v@,
                *st,
            ) is None,
            Err(er) => names_failure(er, exprs_failure(v@, *st)),
        },
    decreases size_exprs(v@),
{
    let ghost v0 = v@;
    let mut v = v;
    if v.len() == 0 {
        let r: Vec<Expression> = Vec::new();
        return Ok(r);
    }
    let e = v.remove(0);
    assert(e == v0[0] && v@ == v0.drop_first());
    let e2 = resolve_expr(e, st)?;
    let rest = resolve_exprs(v, st)?;
    let ghost rest0 = rest@;
    let mut out = rest;
    out.insert(0, e2);
    assert(out@[0] == e2);
    assert(out@.drop_first() =~= rest0);
    Ok(out)
}

fn resolve_compound(c: Vec<(String, CompoundValue)>, st: &ScopeTable) -> (r: Result<
    Vec<(String, CompoundValue)>,
    ResolverError,
>)
    ensures
        match r {
            Ok(c2) => refs_compound(c2@, mode_module()) && shape_compound(c2@, c@)
                && compound_failure(c@, *st) is None,
            Err(er) => names_failure(er, compound_failure(c@, *st)),
        },
    decreases size_compound(c@),
{
    let ghost c0 = c@;
    let mut c = c;
    if c.len() == 0 {
        let r: Vec<(String, CompoundValue)> = Vec::new();
        return Ok(r);
    }
    let (k, val) = c.remove(0);
    assert(val == c0[0].1 && c@ == c0.drop_first());
    let ghost val0 = val;
    let val2 = match val {
        CompoundValue::Expression(e) => {
            proof {
                assert(val0 == CompoundValue::Expression(e));
                assert(size_compound_value(val0) == 1 + size_expr(*e));
            }
            match resolve_expr(*e, st) {
                Ok(e2) => CompoundValue::Expression(Box::new(e2)),
                Err(er) => {
                    assert(compound_value_failure(c0[0].1, *st) == expr_failure(*e, *st));
                    return Err(er);
                },
            }
        },
        CompoundValue::Compound(cc) => {
            proof {
                assert(val0 == CompoundValue::Compound(cc));
                assert(size_compound_value(val0) == 1 + size_compound(cc@));
            }
            match resolve_compound(*cc, st) {
                Ok(cc2) => CompoundValue::Compound(Box::new(cc2)),
                Err(er) => {
                    assert(compound_value_failure(c0[0].1, *st) == compound_failure(cc@, *st));
                    return Err(er);
                },
            }
        },
    };
    assert(refs_compound_value(val2, mode_module()));
    assert(shape_compound_value(val2, c0[0].1));
    assert(compound_value_failure(c0[0].1, *st) is None);
    let rest = resolve_compound(c, st)?;
    let ghost rest0 = rest@;
    let mut out = rest;
    out.insert(0, (k, val2));
    assert(out@[0].1 == val2);
    assert(out@[0].0 == c0[0].0);
    assert(out@.drop_first() =~= rest0);
    assert(refs_compound(out@, mode_module()));
    assert(shape_compound(out@, c0));
    Ok(out)
}

/// The definition's own name carries a module-resolved form, as the
/// registration pass leaves it.
pub open spec fn def_name_resolved(d: Definition) -> bool {
    match d {
        Definition::VarDecl(v) => v.var_def.name.module_resolved is Some,
        Definition::StructDef(s) => s.name.module_resolved is Some,
        Definition::FnDef(f) => f.name.module_resolved is Some,
    }
}

/// The raw name a definition was written with.
pub open spec fn def_raw(d: Definition) -> Seq<char> {
    match d {
        Definition::VarDecl(v) => v.var_def.name.raw@,
        Definition::StructDef(s) => s.name.raw@,
        Definition::FnDef(f) => f.name.raw@,
    }
}

/// The module-resolved name stamped on a definition.
pub open spec fn def_mr(d: Definition) -> Option<String> {
    match d {
        Definition::VarDecl(v) => v.var_def.name.module_resolved,
        Definition::StructDef(s) => s.name.module_resolved,
        Definition::FnDef(f) => f.name.module_resolved,
    }
}

/// Registration touches nothing but the definition's own
/// `module_resolved` field: raw name, fields, arguments and body are
/// the input's.
pub open spec fn same_def_but_name(d2: Definition, d: Definition) -> bool {
    match (d2, d) {
        (Definition::VarDecl(b), Definition::VarDecl(a)) => b.var_def.mods == a.var_def.mods
            && b.var_def.type_ == a.var_def.type_ && b.expr == a.expr && b.var_def.name.raw
            == a.var_def.name.raw && b.var_def.name.global_resolved
            == a.var_def.name.global_resolved,
        (Definition::StructDef(b), Definition::StructDef(a)) => b.mods == a.mods && b.fields
            == a.fields && b.name.raw == a.name.raw && b.name.global_resolved
            == a.name.global_resolved,
        (Definition::FnDef(b), Definition::FnDef(a)) => b.return_type == a.return_type && b.mods
            == a.mods && b.args == a.args && b.body == a.body && b.name.raw == a.name.raw
            && b.name.global_resolved == a.name.global_resolved,
        _ => false,
    }
}

/// Resolves the type of a variable definition and binds its name in the
/// variable name space of the top frame: the definition receives the
/// freshly minted name `"<count>_<raw>"`, where `count` is the number
/// of earlier bindings of the raw name anywhere in the table.
fn resolve_var_def_bind(d: VarDef, st: &mut ScopeTable) -> (r: Result<VarDef, ResolverError>)
    requires
        old(st).wf(),
        old(st).frames@.len() > 0,
    ensures
        final(st).wf(),
        frames_extended(*old(st), *final(st)),
        match r {
            Ok(d2) => {
                &&& refs_var_def(d2, mode_module())
                &&& shape_var_def(d2, d)
                &&& d2.name.raw == d.name.raw
                &&& d2.name.global_resolved == d.name.global_resolved
                &&& d2.mods == d.mods
                &&& (match d2.name.module_resolved {
                    Some(m) => m@ == name_parts(old(st).count_of(d.name.raw@), d.name.raw@),
                    None => false,
                })
                &&& final(st).count_of(d.name.raw@) == old(st).count_of(d.name.raw@) + 1
            },
            Err(_) => true,
        },
{
    let VarDef { mods, name, type_ } = d;
    let type2 = resolve_type(type_, st);
    let Reference { raw, module_resolved: _, global_resolved } = name;
    let minted = st.scope_bind(raw.as_str(), SymbolKind::Var)?;
    Ok(
        VarDef {
            mods,
            name: Reference { raw, module_resolved: Some(minted), global_resolved },
            type_: type2,
        },
    )
}

/// Resolves a `let` declaration: the initialiser first, in the scope
/// before the new binding, then the definition itself. The declared
/// variable receives the freshly minted name `"<count>_<raw>"` for the
/// current shadow count of its raw name, which then increments — a
/// re-declaration of the same raw name can never mint the same name
/// again.
fn resolve_var_decl_stmt(d: VarDecl, st: &mut ScopeTable) -> (r: Result<VarDecl, ResolverError>)
    requires
        old(st).wf(),
        old(st).frames@.len() > 0,
    ensures
        final(st).wf(),
        frames_extended(*old(st), *final(st)),
        match r {
            Ok(d2) => {
                &&& refs_var_decl(d2, mode_module())
                &&& shape_var_decl(d2, d)
                &&& d2.var_def.name.raw == d.var_def.name.raw
                &&& (match d2.var_def.name.module_resolved {
                    Some(m) => m@ == name_parts(
                        old(st).count_of(d.var_def.name.raw@),
                        d.var_def.name.raw@,
                    ),
                    None => false,
                })
                &&& final(st).count_of(d.var_def.name.raw@) == old(st).count_of(
                    d.var_def.name.raw@,
                ) + 1
            },
            Err(_) => true,
        },
    decreases size_var_decl(d),
{
    let VarDecl { var_def, expr } = d;
    let expr2 = match expr {
        Some(e) => Some(Box::new(resolve_expr(*e, st)?)),
        None => None,
    };
    let def2 = resolve_var_def_bind(var_def, st)?;
    Ok(VarDecl { var_def: def2, expr: expr2 })
}

/// Resolves a global or block-level definition whose name the
/// registration pass has already bound.
fn resolve_def(d: Definition, st: &mut ScopeTable) -> (r: Result<Definition, ResolverError>)
    requires
        old(st).wf(),
        old(st).frames@.len() > 0,
        def_name_resolved(d),
    ensures
        final(st).wf(),
        final(st).frames@ == old(st).frames@,
        match r {
            Ok(d2) => refs_def(d2, mode_module()) && shape_def(d2, d) && def_mr(d2) == def_mr(d)
                && def_raw(d2) == def_raw(d),
            Err(_) => true,
        },
    decreases size_def(d),
{
    let ghost d0 = d;
    match d {
        Definition::VarDecl(v) => {
            proof {
                assert(size_def(d0) == 1 + size_var_decl(v));
            }
            let VarDecl { var_def, expr } = v;
            let expr2 = match expr {
                Some(e) => Some(Box::new(resolve_expr(*e, st)?)),
                None => None,
            };
            let VarDef { mods, name, type_ } = var_def;
            let type2 = resolve_type(type_, st);
            Ok(
                Definition::VarDecl(
                    VarDecl {
                        var_def: VarDef { mods, name, type_: type2 },
                        expr: expr2,
                    },
                ),
            )
        },
        Definition::StructDef(s) => {
            let StructDef { mods, name, fields } = s;
            let fields2 = resolve_fields(fields, st);
            Ok(Definition::StructDef(StructDef { mods, name, fields: fields2 }))
        },
        Definition::FnDef(f) => {
            proof {
                assert(size_def(d0) == 1 + (match f.body {
                    Some(b) => 1 + size_block(b),
                    None => 0,
                }));
            }
            let FnDef { return_type, mods, name, args, body } = f;
            let rt2 = resolve_type(return_type, st);
            st.scope_enter();
            let args2 = match resolve_args(args, st) {
                Ok(a) => a,
                Err(e) => {
                    st.scope_exit();
                    return Err(e);
                },
            };
            let body2 = match body {
                Some(b) => match resolve_block(b, st) {
                    Ok(b2) => Some(b2),
                    Err(e) => {
                        st.scope_exit();
                        return Err(e);
                    },
                },
                None => None,
            };
            st.scope_exit();
            Ok(Definition::FnDef(FnDef { return_type: rt2, mods, name, args: args2, body: body2 }))
        },
    }
}

/// Binds the arguments of a function in its own scope frame.
fn resolve_args(v: Vec<VarDef>, st: &mut ScopeTable) -> (r: Result<Vec<VarDef>, ResolverError>)
    requires
        old(st).wf(),
        old(st).frames@.len() > 0,
    ensures
        final(st).wf(),
        frames_extended(*old(st), *final(st)),
        match r {
            Ok(v2) => refs_args(v2@, mode_module()) && shape_args(v2@, v@),
            Err(_) => true,
        },
    decreases v@.len(),
{
    let mut v = v;
    if v.len() == 0 {
        let r: Vec<VarDef> = Vec::new();
        return Ok(r);
    }
    let d = v.remove(0);
    let d2 = resolve_var_def_bind(d, st)?;
    let rest = resolve_args(v, st)?;
    let ghost rest0 = rest@;
    let mut out = rest;
    out.insert(0, d2);
    assert(out@[0] == d2);
    assert(out@.drop_first() =~= rest0);
    assert forall|i: int| 0 <= i < out@.len() implies refs_var_def(#[trigger] out@[i], mode_module()) by {
        if i > 0 {
            assert(out@[i] == rest0[i - 1]);
        }
    }
    Ok(out)
}

fn resolve_fields(v: Vec<(String, Type)>, st: &ScopeTable) -> (r: Vec<(String, Type)>)
    ensures
        refs_struct_fields(r@, mode_module()),
        shape_fields(r@, v@),
    decreases v@.len(),
{
    let mut v = v;
    if v.len() == 0 {
        let r: Vec<(String, Type)> = Vec::new();
        return r;
    }
    let (k, t) = v.remove(0);
    let t2 = resolve_type(t, st);
    let rest = resolve_fields(v, st);
    let ghost rest0 = rest@;
    let mut out = rest;
    out.insert(0, (k, t2));
    assert(out@[0].1 == t2);
    assert(out@.drop_first() =~= rest0);
    assert forall|i: int| 0 <= i < out@.len() implies refs_type(#[trigger] out@[i].1, mode_module()) by {
        if i > 0 {
            assert(out@[i] == rest0[i - 1]);
        }
    }
    out
}

fn resolve_if(i: If, st: &mut ScopeTable) -> (r: Result<If, ResolverError>)
    requires
        old(st).wf(),
        old(st).frames@.len() > 0,
    ensures
        final(st).wf(),
        frames_extended(*old(st), *final(st)),
        match r {
            Ok(i2) => refs_if(i2, mode_module()) && shape_if(i2, i),
            Err(_) => true,
        },
    decreases size_if(i),
{
    let If { cond, body, else_ } = i;
    let cond2 = resolve_expr(*cond, st)?;
    let body2 = resolve_block(*body, st)?;
    let else2 = match else_ {
        Some(e) => Some(Box::new(resolve_if(*e, st)?)),
        None => None,
    };
    Ok(If { cond: Box::new(cond2), body: Box::new(body2), else_: else2 })
}

fn resolve_stmt(s: Statement, st: &mut ScopeTable) -> (r: Result<Statement, ResolverError>)
    requires
        old(st).wf(),
        old(st).frames@.len() > 0,
    ensures
        final(st).wf(),
        frames_extended(*old(st), *final(st)),
        match r {
            Ok(s2) => refs_stmt(s2, mode_module()) && shape_stmt(s2, s),
            Err(_) => true,
        },
    decreases size_stmt(s),
{
    let ghost s0 = s;
    match s {
        Statement::VarDecl(d) => {
            let d2 = resolve_var_decl_stmt(d, st)?;
            Ok(Statement::VarDecl(d2))
        },
        Statement::VarAssign(a) => {
            let VarAssign { name_path, expr } = a;
            let np2 = resolve_name_path(name_path, st)?;
            let e2 = resolve_expr(*expr, st)?;
            Ok(Statement::VarAssign(VarAssign { name_path: np2, expr: Box::new(e2) }))
        },
        Statement::If(i) => {
            let i2 = resolve_if(i, st)?;
            Ok(Statement::If(i2))
        },
        Statement::While(w) => {
            let While { cond, body } = w;
            let cond2 = resolve_expr(*cond, st)?;
            let body2 = resolve_block(*body, st)?;
            Ok(Statement::While(While { cond: Box::new(cond2), body: Box::new(body2) }))
        },
        Statement::For(f) => {
            proof {
                assert(size_stmt(s0) == 1 + size_for(f));
            }
            let For { init, cond, step, body } = f;
            let init2 = match init {
                Some(i) => Some(Box::new(resolve_stmt(*i, st)?)),
                None => None,
            };
            let cond2 = match cond {
                Some(c) => Some(Box::new(resolve_expr(*c, st)?)),
                None => None,
            };
            let step2 = match step {
                Some(p) => Some(Box::new(resolve_stmt(*p, st)?)),
                None => None,
            };
            let body2 = resolve_block(body, st)?;
            Ok(Statement::For(For { init: init2, cond: cond2, step: step2, body: body2 }))
        },
        Statement::Return(e) => {
            let e2 = resolve_expr(*e, st)?;
            Ok(Statement::Return(Box::new(e2)))
        },
        Statement::Break => Ok(Statement::Break),
        Statement::Continue => Ok(Statement::Continue),
        Statement::Expression(e) => {
            let e2 = resolve_expr(*e, st)?;
            Ok(Statement::Expression(Box::new(e2)))
        },
    }
}

fn resolve_stmts(v: Vec<StatementBlock>, st: &mut ScopeTable) -> (r: Result<
    Vec<StatementBlock>,
    ResolverError,
>)
    requires
        old(st).wf(),
        old(st).frames@.len() > 0,
    ensures
        final(st).wf(),
        frames_extended(*old(st), *final(st)),
        v@.len() == 0 ==> r is Ok,
        match r {
            Ok(v2) => refs_stmts(v2@, mode_module()) && shape_stmts(v2@, v@),
            Err(_) => true,
        },
    decreases size_stmts(v@),
{
    let ghost v0 = v@;
    let mut v = v;
    if v.len() == 0 {
        let r: Vec<StatementBlock> = Vec::new();
        return Ok(r);
    }
    let s = v.remove(0);
    assert(s == v0[0] && v@ == v0.drop_first());
    let s2 = match s {
        StatementBlock::Statement(s1) => {
            proof {
                assert(v0[0] == StatementBlock::Statement(s1));
                assert(size_stmt_block(v0[0]) == 1 + size_stmt(s1));
            }
            StatementBlock::Statement(resolve_stmt(s1, st)?)
        },
        StatementBlock::Block(b) => {
            proof {
                assert(v0[0] == StatementBlock::Block(b));
                assert(size_stmt_block(v0[0]) == 1 + size_block(b));
            }
            StatementBlock::Block(resolve_block(b, st)?)
        },
    };
    assert(refs_stmt_block(s2, mode_module()));
    assert(shape_stmt_block(s2, v0[0]));
    let rest = resolve_stmts(v, st)?;
    let ghost rest0 = rest@;
    let mut out = rest;
    out.insert(0, s2);
    assert(out@[0] == s2);
    assert(out@.drop_first() =~= rest0);
    assert(refs_stmts(out@, mode_module()));
    assert(shape_stmts(out@, v0));
    Ok(out)
}

/// Registers the definitions of a scope: each definition's name is
/// bound in its name space, becoming the next binding of the top
/// frame, and the freshly minted name is stamped into the definition;
/// nothing else of a definition changes. Distinctness of the stamped
/// names follows from the table's bindings being collision-free.
fn register_defs(v: Vec<Definition>, st: &mut ScopeTable) -> (r: Result<
    Vec<Definition>,
    ResolverError,
>)
    requires
        old(st).wf(),
        old(st).frames@.len() > 0,
    ensures
        final(st).wf(),
        frames_extended(*old(st), *final(st)),
        v@.len() == 0 ==> r is Ok,
        match r {
            Ok(v2) => {
                &&& v2@.len() == v@.len()
                &&& final(st).frames@.drop_last() == old(st).frames@.drop_last()
                &&& final(st).frames@.last()@.len() == old(st).frames@.last()@.len() + v@.len()
                &&& forall|p: int|
                    0 <= p < old(st).frames@.last()@.len() ==> final(st).frames@.last()@[p] == old(
                        st,
                    ).frames@.last()@[p]
                &&& forall|i: int|
                    0 <= i < v2@.len() ==> def_name_resolved(#[trigger] v2@[i]) && size_def(
                        v2@[i],
                    ) == size_def(v@[i]) && same_def_but_name(v2@[i], v@[i]) && def_mr(v2@[i])
                        == Some(
                        final(st).frames@.last()@[old(st).frames@.last()@.len() + i].resolved,
                    )
                &&& forall|i: int, j: int|
                    0 <= i < j < v2@.len() ==> (match (def_mr(#[trigger] v2@[i]), def_mr(
                        #[trigger] v2@[j],
                    )) {
                        (Some(m1), Some(m2)) => m1@ != m2@,
                        _ => false,
                    })
            },
            Err(_) => true,
        },
    decreases v@.len(),
{
    let ghost v0 = v@;
    let mut v = v;
    if v.len() == 0 {
        let r: Vec<Definition> = Vec::new();
        return Ok(r);
    }
    let d = v.remove(0);
    assert(d == v0[0] && v@ == v0.drop_first());
    let d2 = match d {
        Definition::VarDecl(decl) => {
            let VarDecl { var_def, expr } = decl;
            let VarDef { mods, name, type_ } = var_def;
            let Reference { raw, module_resolved: _, global_resolved } = name;
            let minted = st.scope_bind(raw.as_str(), SymbolKind::Var)?;
            Definition::VarDecl(
                VarDecl {
                    var_def: VarDef {
                        mods,
                        name: Reference { raw, module_resolved: Some(minted), global_resolved },
                        type_,
                    },
                    expr,
                },
            )
        },
        Definition::StructDef(sd) => {
            let StructDef { mods, name, fields } = sd;
            let Reference { raw, module_resolved: _, global_resolved } = name;
            let minted = st.scope_bind(raw.as_str(), SymbolKind::Struct)?;
            Definition::StructDef(
                StructDef {
                    mods,
                    name: Reference { raw, module_resolved: Some(minted), global_resolved },
                    fields,
                },
            )
        },
        Definition::FnDef(fd) => {
            let FnDef { return_type, mods, name, args, body } = fd;
            let Reference { raw, module_resolved: _, global_resolved } = name;
            let minted = st.scope_bind(raw.as_str(), SymbolKind::Fn)?;
            Definition::FnDef(
                FnDef {
                    return_type,
                    mods,
                    name: Reference { raw, module_resolved: Some(minted), global_resolved },
                    args,
                    body,
                },
            )
        },
    };
    assert(size_def(d2) == size_def(v0[0]));
    assert(same_def_but_name(d2, v0[0]));
    let ghost mid = *st;
    assert(def_mr(d2) == Some(mid.frames@.last()@[old(st).frames@.last()@.len() as int].resolved));
    let rest = register_defs(v, st)?;
    let ghost rest0 = rest@;
    let mut out = rest;
    out.insert(0, d2);
    assert(out@[0] == d2);
    assert(out@.drop_first() =~= rest0);
    let ghost base = old(st).frames@.last()@.len() as int;
    assert forall|i: int|
        0 <= i < out@.len() implies def_name_resolved(#[trigger] out@[i]) && size_def(out@[i])
        == size_def(v0[i]) && same_def_but_name(out@[i], v0[i]) && def_mr(out@[i]) == Some(
        final(st).frames@.last()@[base + i].resolved,
    ) by {
        if i > 0 {
            assert(out@[i] == rest0[i - 1]);
            assert(v0.drop_first()[i - 1] == v0[i]);
            assert(def_mr(rest0[i - 1]) == Some(
                final(st).frames@.last()@[mid.frames@.last()@.len() + (i - 1)].resolved,
            ));
        } else {
            assert(final(st).frames@.last()@[base] == mid.frames@.last()@[base]);
        }
    }
    assert forall|i: int, j: int|
        0 <= i < j < out@.len() implies (match (def_mr(#[trigger] out@[i]), def_mr(
        #[trigger] out@[j],
    )) {
        (Some(m1), Some(m2)) => m1@ != m2@,
        _ => false,
    }) by {
        let lastf = final(st).frames@.len() - 1;
        crate::scope::lemma_minted_names_collision_free(*st, lastf, base + i, lastf, base + j);
    }
    Ok(out)
}

fn resolve_defs(v: Vec<Definition>, st: &mut ScopeTable) -> (r: Result<
    Vec<Definition>,
    ResolverError,
>)
    requires
        old(st).wf(),
        old(st).frames@.len() > 0,
        forall|i: int| 0 <= i < v@.len() ==> def_name_resolved(#[trigger] v@[i]),
    ensures
        final(st).wf(),
        final(st).frames@ == old(st).frames@,
        v@.len() == 0 ==> r is Ok,
        match r {
            Ok(v2) => refs_defs(v2@, mode_module()) && shape_defs(v2@, v@) && forall|i: int|
                0 <= i < v2@.len() ==> def_mr(#[trigger] v2@[i]) == def_mr(v@[i]) && def_raw(
                    v2@[i],
                ) == def_raw(v@[i]),
            Err(_) => true,
        },
    decreases size_defs(v@),
{
    let ghost v0 = v@;
    let mut v = v;
    if v.len() == 0 {
        let r: Vec<Definition> = Vec::new();
        return Ok(r);
    }
    let d = v.remove(0);
    assert(d == v0[0] && v@ == v0.drop_first());
    let d2 = resolve_def(d, st)?;
    let rest = resolve_defs(v, st)?;
    let ghost rest0 = rest@;
    let mut out = rest;
    out.insert(0, d2);
    assert(out@[0] == d2);
    assert(out@.drop_first() =~= rest0);
    Ok(out)
}

/// Resolves a block: a fresh frame, the block's own definitions
/// registered and resolved, then its statements in order.
fn resolve_block(b: Block, st: &mut ScopeTable) -> (r: Result<Block, ResolverError>)
    requires
        old(st).wf(),
        old(st).frames@.len() > 0,
    ensures
        final(st).wf(),
        final(st).frames@ == old(st).frames@,
        match r {
            Ok(b2) => refs_block(b2, mode_module()) && shape_block(b2, b),
            Err(_) => true,
        },
    decreases size_block(b),
{
    let Block { definitions, statements } = b;
    st.scope_enter();
    let defs1 = match register_defs(definitions, st) {
        Ok(d) => d,
        Err(e) => {
            st.scope_exit();
            return Err(e);
        },
    };
    assert(size_defs(defs1@) == size_defs(b.definitions@)) by {
        lemma_size_defs_congruent(defs1@, b.definitions@);
    }
    proof {
        lemma_registered_defs_shape(defs1@, b.definitions@);
    }
    let ghost defs1v = defs1@;
    let defs2 = match resolve_defs(defs1, st) {
        Ok(d) => d,
        Err(e) => {
            st.scope_exit();
            return Err(e);
        },
    };
    let stmts2 = match resolve_stmts(statements, st) {
        Ok(s) => s,
        Err(e) => {
            st.scope_exit();
            return Err(e);
        },
    };
    st.scope_exit();
    proof {
        lemma_shape_defs_trans(defs2@, defs1v, b.definitions@);
    }
    Ok(Block { definitions: defs2, statements: stmts2 })
}

/// The output of registration, element by element, has the input's
/// shape.
proof fn lemma_registered_defs_shape(a: Seq<Definition>, b: Seq<Definition>)
    requires
        a.len() == b.len(),
        forall|i: int| 0 <= i < a.len() ==> same_def_but_name(#[trigger] a[i], b[i]),
    ensures
        shape_defs(a, b),
    decreases a.len(),
{
    if a.len() > 0 {
        lemma_same_def_shape(a[0], b[0]);
        assert forall|i: int| 0 <= i < a.drop_first().len() implies same_def_but_name(
            #[trigger] a.drop_first()[i],
            b.drop_first()[i],
        ) by {
            assert(a.drop_first()[i] == a[i + 1] && b.drop_first()[i] == b[i + 1]);
        }
        lemma_registered_defs_shape(a.drop_first(), b.drop_first());
    }
}

proof fn lemma_size_defs_congruent(a: Seq<Definition>, b: Seq<Definition>)
    requires
        a.len() == b.len(),
        forall|i: int| 0 <= i < a.len() ==> size_def(#[trigger] a[i]) == size_def(b[i]),
    ensures
        size_defs(a) == size_defs(b),
    decreases a.len(),
{
    if a.len() > 0 {
        assert forall|i: int| 0 <= i < a.drop_first().len() implies size_def(
            #[trigger] a.drop_first()[i],
        ) == size_def(b.drop_first()[i]) by {
            assert(a.drop_first()[i] == a[i + 1] && b.drop_first()[i] == b[i + 1]);
        }
        lemma_size_defs_congruent(a.drop_first(), b.drop_first());
    }
}

/// Binds the names a `use` declaration imports; each minted name
/// answers lookups of every kind.
fn resolve_uses(v: Vec<Use>, st: &mut ScopeTable) -> (r: Result<Vec<Use>, ResolverError>)
    requires
        old(st).wf(),
        old(st).frames@.len() > 0,
    ensures
        final(st).wf(),
        frames_extended(*old(st), *final(st)),
        v@.len() == 0 ==> r is Ok,
        match r {
            Ok(v2) => v2@.len() == v@.len() && shape_uses(v2@, v@) && (forall|i: int|
                0 <= i < v2@.len() ==> (#[trigger] v2@[i]).path == v@[i].path
                    && v2@[i].elements@.len() == v@[i].elements@.len()) && forall|i: int, j: int|
                0 <= i < v2@.len() && 0 <= j < (#[trigger] v2@[i]).elements@.len() ==> ref_ok(
                    (#[trigger] v2@[i].elements@[j]).imported_name,
                    mode_module(),
                ),
            Err(_) => true,
        },
    decreases v@.len(),
{
    let mut v = v;
    if v.len() == 0 {
        let r: Vec<Use> = Vec::new();
        return Ok(r);
    }
    let u = v.remove(0);
    let Use { path, elements } = u;
    let elements2 = resolve_use_elements(elements, st)?;
    let rest = resolve_uses(v, st)?;
    let ghost rest0 = rest@;
    let u2 = Use { path, elements: elements2 };
    let mut out = rest;
    out.insert(0, u2);
    assert(out@[0] == u2);
    assert(out@.drop_first() =~= rest0);
    assert forall|i: int, j: int|
        0 <= i < out@.len() && 0 <= j < (#[trigger] out@[i]).elements@.len() implies ref_ok(
        (#[trigger] out@[i].elements@[j]).imported_name,
        mode_module(),
    ) by {
        if i > 0 {
            assert(out@[i] == rest0[i - 1]);
        }
    }
    Ok(out)
}

fn resolve_use_elements(v: Vec<UseElement>, st: &mut ScopeTable) -> (r: Result<
    Vec<UseElement>,
    ResolverError,
>)
    requires
        old(st).wf(),
        old(st).frames@.len() > 0,
    ensures
        final(st).wf(),
        frames_extended(*old(st), *final(st)),
        match r {
            Ok(v2) => v2@.len() == v@.len() && forall|j: int|
                0 <= j < v2@.len() ==> ref_ok((#[trigger] v2@[j]).imported_name, mode_module())
                    && v2@[j].origin_name == v@[j].origin_name && shape_ref(
                    v2@[j].imported_name,
                    v@[j].imported_name,
                ),
            Err(_) => true,
        },
    decreases v@.len(),
{
    let mut v = v;
    if v.len() == 0 {
        let r: Vec<UseElement> = Vec::new();
        return Ok(r);
    }
    let e = v.remove(0);
    let UseElement { origin_name, imported_name } = e;
    let Reference { raw, module_resolved: _, global_resolved } = imported_name;
    let minted = st.bind_import(raw.as_str())?;
    let e2 = UseElement {
        origin_name,
        imported_name: Reference { raw, module_resolved: Some(minted), global_resolved },
    };
    let rest = resolve_use_elements(v, st)?;
    let ghost rest0 = rest@;
    let mut out = rest;
    out.insert(0, e2);
    assert(out@[0] == e2);
    assert(out@.drop_first() =~= rest0);
    assert forall|j: int| 0 <= j < out@.len() implies ref_ok(
        (#[trigger] out@[j]).imported_name,
        mode_module(),
    ) by {
        if j > 0 {
            assert(out@[j] == rest0[j - 1]);
        }
    }
    Ok(out)
}

/// Resolves one module: binds its imports, registers its public and
/// top-level definitions in the module scope, then resolves every
/// definition body and statement. On success every reference of the
/// module carries a module-resolved name.
/// The stamped names of two definition lists are collision-free: no
/// two definitions, within a list or across the two, share one
/// module-resolved name.
pub open spec fn defs_distinct(a: Seq<Definition>, b: Seq<Definition>) -> bool {
    &&& forall|i: int, j: int|
        0 <= i < j < a.len() ==> (match (def_mr(#[trigger] a[i]), def_mr(#[trigger] a[j])) {
            (Some(m1), Some(m2)) => m1@ != m2@,
            _ => false,
        })
    &&& forall|i: int, j: int|
        0 <= i < j < b.len() ==> (match (def_mr(#[trigger] b[i]), def_mr(#[trigger] b[j])) {
            (Some(m1), Some(m2)) => m1@ != m2@,
            _ => false,
        })
    &&& forall|i: int, j: int|
        0 <= i < a.len() && 0 <= j < b.len() ==> (match (def_mr(#[trigger] a[i]), def_mr(
            #[trigger] b[j],
        )) {
            (Some(m1), Some(m2)) => m1@ != m2@,
            _ => false,
        })
}

/// What per-module resolution guarantees of its output, relative to
/// its input: every reference module-resolved, the module's shape
/// preserved, and the stamped names of the top-level definitions
/// collision-free.
pub open spec fn resolved_from(m2: Module, m: Module) -> bool {
    &&& refs_module(m2, mode_module())
    &&& shape_module(m2, m)
    &&& defs_distinct(m2.public_definitions@, m2.block.definitions@)
}

pub fn resolve_module(m: Module) -> (r: Result<Module, ResolverError>)
    ensures
        match r {
            Ok(m2) => resolved_from(m2, m),
            Err(_) => true,
        },
        (m.uses@.len() == 0 && m.public_definitions@.len() == 0 && m.block.definitions@.len() == 0
            && m.block.statements@.len() == 0) ==> r is Ok,
{
    let Module { mods, uses, public_definitions, block } = m;
    let mut st = ScopeTable::new();
    st.scope_enter();
    let uses2 = resolve_uses(uses, &mut st)?;
    let ghost st_u = st;
    let pub1 = register_defs(public_definitions, &mut st)?;
    let ghost st_p = st;
    let Block { definitions, statements } = block;
    let defs1 = register_defs(definitions, &mut st)?;
    let ghost st_d = st;
    proof {
        let base_p = st_u.frames@.last()@.len() as int;
        let base_d = st_p.frames@.last()@.len() as int;
        let lastf = st_d.frames@.len() - 1;
        assert forall|i: int, j: int|
            0 <= i < pub1@.len() && 0 <= j < defs1@.len() implies (match (def_mr(
            #[trigger] pub1@[i]), def_mr(#[trigger] defs1@[j])) {
            (Some(m1), Some(m2)) => m1@ != m2@,
            _ => false,
        }) by {
            assert(st_d.frames@.last()@[base_p + i] == st_p.frames@.last()@[base_p + i]);
            crate::scope::lemma_minted_names_collision_free(
                st_d,
                lastf,
                base_p + i,
                lastf,
                base_d + j,
            );
        }
        assert forall|i: int, j: int|
            0 <= i < j < pub1@.len() implies (match (def_mr(#[trigger] pub1@[i]), def_mr(
            #[trigger] pub1@[j])) {
            (Some(m1), Some(m2)) => m1@ != m2@,
            _ => false,
        }) by {
            assert(st_d.frames@.last()@[base_p + i] == st_p.frames@.last()@[base_p + i]);
            assert(st_d.frames@.last()@[base_p + j] == st_p.frames@.last()@[base_p + j]);
            crate::scope::lemma_minted_names_collision_free(
                st_d,
                lastf,
                base_p + i,
                lastf,
                base_p + j,
            );
        }
        assert(defs_distinct(pub1@, defs1@));
    }
    proof {
        lemma_registered_defs_shape(pub1@, m.public_definitions@);
        lemma_registered_defs_shape(defs1@, m.block.definitions@);
    }
    let ghost pub1v = pub1@;
    let ghost defs1v = defs1@;
    let pub2 = resolve_defs(pub1, &mut st)?;
    let defs2 = resolve_defs(defs1, &mut st)?;
    let stmts2 = resolve_stmts(statements, &mut st)?;
    st.scope_exit();
    proof {
        lemma_shape_defs_trans(pub2@, pub1v, m.public_definitions@);
        lemma_shape_defs_trans(defs2@, defs1v, m.block.definitions@);
    }
    assert(defs_distinct(pub2@, defs2@));
    Ok(
        Module {
            mods,
            uses: uses2,
            public_definitions: pub2,
            block: Block { definitions: defs2, statements: stmts2 },
        },
    )
}

} // verus!
