//! The shared AST consumed by every pass of the front-end.
//!
//! A `Reference` starts with only its raw identifier filled; the
//! per-module resolver fills `module_resolved` and the merger fills
//! `global_resolved`. The `refs_*` predicates state how far that filling
//! has progressed, and the `size_*` functions give the structural
//! measure that the recursive walks of the passes decrease.

use vstd::prelude::*;
use crate::names::GlobalName;

verus! {

/// An identifier at some stage of resolution.
#[derive(Debug, PartialEq)]
pub struct Reference {
    pub raw: String,
    pub module_resolved: Option<String>,
    pub global_resolved: Option<GlobalName>,
}

impl Reference {
    pub fn new(raw: String) -> (r: Reference)
        ensures
            r.raw == raw,
            r.module_resolved is None,
            r.global_resolved is None,
    {
        Reference { raw, module_resolved: None, global_resolved: None }
    }
}

#[derive(Debug, PartialEq)]
pub enum Type {
    Void,
    Bool,
    Int,
    Float,
    Double,
    String,
    Struct(Reference),
}

#[derive(Debug, PartialEq, Eq, Structural, Clone, Copy)]
pub enum UnOp {
    Neg,
    Not,
    Deref,
    Ref,
    PreInc,
    PreDec,
    PostInc,
    PostDec,
}

#[derive(Debug, PartialEq, Eq, Structural, Clone, Copy)]
pub enum BinOp {
    Add,
    Sub,
    Mul,
    Div,
    Mod,
    Eq,
    Neq,
    Lt,
    Gt,
    Leq,
    Geq,
    And,
    Or,
}

/// A variable head followed by zero or more struct field accesses.
#[derive(Debug, PartialEq)]
pub struct NamePath {
    pub name: Reference,
    pub path: Vec<String>,
}

#[derive(Debug, PartialEq, Eq, Structural, Clone, Copy)]
pub enum VarMod {
    Const,
}

#[derive(Debug, PartialEq, Eq, Structural, Clone, Copy)]
pub enum FnMod {
    Rec,
    Inline,
}

#[derive(Debug, PartialEq, Eq, Structural, Clone, Copy)]
pub enum StructMod {
    Packed,
}

#[derive(Debug, PartialEq)]
pub struct VarDef {
    pub mods: Vec<VarMod>,
    pub name: Reference,
    pub type_: Type,
}

#[derive(Debug, PartialEq)]
pub struct VarDecl {
    pub var_def: VarDef,
    pub expr: Option<Box<Expression>>,
}

#[derive(Debug, PartialEq)]
pub struct VarAssign {
    pub name_path: NamePath,
    pub expr: Box<Expression>,
}

/// Field values of a struct literal, keyed by field name.
pub type Compound = Vec<(String, CompoundValue)>;

#[derive(Debug, PartialEq)]
pub enum CompoundValue {
    Expression(Box<Expression>),
    Compound(Box<Compound>),
}

#[derive(Debug, PartialEq)]
pub struct StructDef {
    pub mods: Vec<StructMod>,
    pub name: Reference,
    pub fields: Vec<(String, Type)>,
}

#[derive(Debug, PartialEq)]
pub struct FnDef {
    pub return_type: Type,
    pub mods: Vec<FnMod>,
    pub name: Reference,
    pub args: Vec<VarDef>,
    pub body: Option<Block>,
}

#[derive(Debug, PartialEq)]
pub struct FnCall {
    pub name: Reference,
    pub args: Vec<Expression>,
}

/// Literal values. A decimal literal keeps its source text; its meaning
/// as a floating-point number belongs to later passes.
#[derive(Debug, PartialEq)]
pub enum LiteralValue {
    Null,
    Bool(bool),
    Int(i32),
    Decimal(String),
    String(String),
    Compound(Compound),
}

#[derive(Debug, PartialEq)]
pub struct StructInit {
    pub type_: Reference,
    pub compound: Compound,
}

#[derive(Debug, PartialEq)]
pub enum AtomicExpression {
    Literal(LiteralValue),
    Variable(NamePath),
    FnCall(Box<FnCall>),
    StructInit(Box<StructInit>),
}

#[derive(Debug, PartialEq)]
pub enum ExpressionEnum {
    AtomicExpression(AtomicExpression),
    Unary(UnOp, Box<Expression>),
    Binary(Box<Expression>, BinOp, Box<Expression>),
}

/// An expression together with the type the type resolver assigns it.
#[derive(Debug, PartialEq)]
pub struct Expression {
    pub expr: ExpressionEnum,
    pub type_: Option<Type>,
}

#[derive(Debug, PartialEq)]
pub struct If {
    pub cond: Box<Expression>,
    pub body: Box<Block>,
    pub else_: Option<Box<If>>,
}

#[derive(Debug, PartialEq)]
pub struct While {
    pub cond: Box<Expression>,
    pub body: Box<Block>,
}

#[derive(Debug, PartialEq)]
pub struct For {
    pub init: Option<Box<Statement>>,
    pub cond: Option<Box<Expression>>,
    pub step: Option<Box<Statement>>,
    pub body: Block,
}

#[derive(Debug, PartialEq)]
pub enum Statement {
    VarDecl(VarDecl),
    VarAssign(VarAssign),
    If(If),
    While(While),
    For(For),
    Return(Box<Expression>),
    Break,
    Continue,
    Expression(Box<Expression>),
}

#[derive(Debug, PartialEq)]
pub enum StatementBlock {
    Statement(Statement),
    Block(Block),
}

#[derive(Debug, PartialEq)]
pub enum Definition {
    VarDecl(VarDecl),
    StructDef(StructDef),
    FnDef(FnDef),
}

#[derive(Debug, PartialEq)]
pub struct Block {
    pub definitions: Vec<Definition>,
    pub statements: Vec<StatementBlock>,
}

/// A `mod` declaration of a module, with its visibility.
#[derive(Debug, PartialEq)]
pub struct ModuleImport {
    pub public: bool,
    pub name: String,
}

/// One name brought in by a `use` declaration.
#[derive(Debug, PartialEq)]
pub struct UseElement {
    pub origin_name: String,
    pub imported_name: Reference,
}

/// A `use path::...::{elements}` declaration.
#[derive(Debug, PartialEq)]
pub struct Use {
    pub path: Vec<String>,
    pub elements: Vec<UseElement>,
}

/// The contents of one source file.
#[derive(Debug, PartialEq)]
pub struct Module {
    pub mods: Vec<ModuleImport>,
    pub uses: Vec<Use>,
    pub public_definitions: Vec<Definition>,
    pub block: Block,
}

// ---------------------------------------------------------------------
// Structural size, the termination measure of every recursive walk.
// Each node counts at least one, so a child is always strictly smaller
// than the node or sequence that holds it.
// ---------------------------------------------------------------------

pub open spec fn size_expr(e: Expression) -> nat
    decreases e,
{
    1 + match e.expr {
        ExpressionEnum::AtomicExpression(a) => size_atomic(a),
        ExpressionEnum::Unary(_, b) => size_expr(*b),
        ExpressionEnum::Binary(b1, _, b2) => size_expr(*b1) + size_expr(*b2),
    }
}

pub open spec fn size_atomic(a: AtomicExpression) -> nat
    decreases a,
{
    1 + match a {
        AtomicExpression::Literal(l) => size_literal(l),
        AtomicExpression::Variable(_) => 0,
        AtomicExpression::FnCall(f) => 1 + size_exprs(f.args@),
        AtomicExpression::StructInit(s) => size_compound(s.compound@),
    }
}

pub open spec fn size_literal(l: LiteralValue) -> nat
    decreases l,
{
    1 + match l {
        LiteralValue::Compound(c) => size_compound(c@),
        _ => 0,
    }
}

pub open spec fn size_compound(s: Seq<(String, CompoundValue)>) -> nat
    decreases s,
{
    if s.len() == 0 {
        1
    } else {
        1 + size_compound_value(s[0].1) + size_compound(s.drop_first())
    }
}

pub open spec fn size_compound_value(v: CompoundValue) -> nat
    decreases v,
{
    1 + match v {
        CompoundValue::Expression(e) => size_expr(*e),
        CompoundValue::Compound(c) => size_compound(c@),
    }
}

pub open spec fn size_exprs(s: Seq<Expression>) -> nat
    decreases s,
{
    if s.len() == 0 {
        1
    } else {
        1 + size_expr(s[0]) + size_exprs(s.drop_first())
    }
}

pub open spec fn size_stmt(s: Statement) -> nat
    decreases s,
{
    1 + match s {
        Statement::VarDecl(d) => size_var_decl(d),
        Statement::VarAssign(a) => size_expr(*a.expr),
        Statement::If(i) => size_if(i),
        Statement::While(w) => size_expr(*w.cond) + size_block(*w.body),
        Statement::For(f) => size_for(f),
        Statement::Return(e) => size_expr(*e),
        Statement::Break => 0,
        Statement::Continue => 0,
        Statement::Expression(e) => size_expr(*e),
    }
}

pub open spec fn size_var_decl(d: VarDecl) -> nat
    decreases d,
{
    1 + match d.expr {
        Some(e) => size_expr(*e),
        None => 0,
    }
}

pub open spec fn size_if(i: If) -> nat
    decreases i,
{
    1 + size_expr(*i.cond) + size_block(*i.body) + match i.else_ {
        Some(e) => size_if(*e),
        None => 0,
    }
}

pub open spec fn size_for(f: For) -> nat
    decreases f,
{
    1 + (match f.init {
        Some(s) => size_stmt(*s),
        None => 0,
    }) + (match f.cond {
        Some(e) => size_expr(*e),
        None => 0,
    }) + (match f.step {
        Some(s) => size_stmt(*s),
        None => 0,
    }) + size_block(f.body)
}

pub open spec fn size_stmt_block(s: StatementBlock) -> nat
    decreases s,
{
    1 + match s {
        StatementBlock::Statement(st) => size_stmt(st),
        StatementBlock::Block(b) => size_block(b),
    }
}

pub open spec fn size_stmts(s: Seq<StatementBlock>) -> nat
    decreases s,
{
    if s.len() == 0 {
        1
    } else {
        1 + size_stmt_block(s[0]) + size_stmts(s.drop_first())
    }
}

pub open spec fn size_def(d: Definition) -> nat
    decreases d,
{
    1 + match d {
        Definition::VarDecl(v) => size_var_decl(v),
        Definition::StructDef(_) => 0,
        Definition::FnDef(f) => match f.body {
            Some(b) => 1 + size_block(b),
            None => 0,
        },
    }
}

pub open spec fn size_defs(s: Seq<Definition>) -> nat
    decreases s,
{
    if s.len() == 0 {
        1
    } else {
        1 + size_def(s[0]) + size_defs(s.drop_first())
    }
}

pub open spec fn size_block(b: Block) -> nat
    decreases b,
{
    1 + size_defs(b.definitions@) + size_stmts(b.statements@)
}

// ---------------------------------------------------------------------
// Resolvedness: how far the name fields of every reference have been
// filled. With `g` false the predicates ask only for module-resolved
// names (the state after the per-module resolver); with `g` true they
// ask for global names as well (the state after the merger).
// ---------------------------------------------------------------------

/// Context of the resolvedness predicates: whether global names are
/// required yet, and, once they are, which global names the merged
/// table defines for functions and structs.
pub struct ResMode {
    pub g: bool,
    pub fn_keys: Set<crate::names::GlobalNameV>,
    pub struct_keys: Set<crate::names::GlobalNameV>,
}

/// The state after the per-module resolver: module-resolved names only.
pub open spec fn mode_module() -> ResMode {
    ResMode { g: false, fn_keys: Set::empty(), struct_keys: Set::empty() }
}

/// The state after the merger: global names filled, and every local
/// function or struct reference keyed in the merged table.
pub open spec fn mode_global(
    fk: Set<crate::names::GlobalNameV>,
    sk: Set<crate::names::GlobalNameV>,
) -> ResMode {
    ResMode { g: true, fn_keys: fk, struct_keys: sk }
}

/// A module path of the package itself starts with a slash; a foreign
/// path starts with the foreign package's name.
pub open spec fn is_local_module(s: Seq<char>) -> bool {
    s.len() > 0 && s[0] == '/'
}

pub open spec fn ref_ok(r: Reference, m: ResMode) -> bool {
    r.module_resolved is Some && (m.g ==> r.global_resolved is Some)
}

/// A reference standing where a definition of the merged table must
/// answer it: resolved, and, in the global state, either foreign or
/// keyed among `keys`.
pub open spec fn target_ok(r: Reference, keys: Set<crate::names::GlobalNameV>, m: ResMode) -> bool {
    ref_ok(r, m) && (m.g ==> match r.global_resolved {
        Some(gn) => is_local_module(gn.module@) ==> keys.contains(gn@),
        None => false,
    })
}

pub open spec fn refs_type(t: Type, m: ResMode) -> bool {
    match t {
        Type::Struct(r) => target_ok(r, m.struct_keys, m),
        _ => true,
    }
}

pub open spec fn refs_var_def(d: VarDef, m: ResMode) -> bool {
    ref_ok(d.name, m) && refs_type(d.type_, m)
}

pub open spec fn refs_expr(e: Expression, m: ResMode) -> bool
    decreases size_expr(e),
{
    match e.expr {
        ExpressionEnum::AtomicExpression(a) => refs_atomic(a, m),
        ExpressionEnum::Unary(_, b) => refs_expr(*b, m),
        ExpressionEnum::Binary(b1, _, b2) => refs_expr(*b1, m) && refs_expr(*b2, m),
    }
}

pub open spec fn refs_atomic(a: AtomicExpression, m: ResMode) -> bool
    decreases size_atomic(a),
{
    match a {
        AtomicExpression::Literal(l) => refs_literal(l, m),
        AtomicExpression::Variable(np) => ref_ok(np.name, m),
        AtomicExpression::FnCall(f) => target_ok(f.name, m.fn_keys, m) && refs_exprs(f.args@, m),
        AtomicExpression::StructInit(s) => target_ok(s.type_, m.struct_keys, m) && refs_compound(s.compound@, m),
    }
}

pub open spec fn refs_literal(l: LiteralValue, m: ResMode) -> bool
    decreases size_literal(l),
{
    match l {
        LiteralValue::Compound(c) => refs_compound(c@, m),
        _ => true,
    }
}

pub open spec fn refs_compound(s: Seq<(String, CompoundValue)>, m: ResMode) -> bool
    decreases size_compound(s),
{
    s.len() == 0 || (refs_compound_value(s[0].1, m) && refs_compound(s.drop_first(), m))
}

pub open spec fn refs_compound_value(v: CompoundValue, m: ResMode) -> bool
    decreases size_compound_value(v),
{
    match v {
        CompoundValue::Expression(e) => refs_expr(*e, m),
        CompoundValue::Compound(c) => refs_compound(c@, m),
    }
}

pub open spec fn refs_exprs(s: Seq<Expression>, m: ResMode) -> bool
    decreases size_exprs(s),
{
    s.len() == 0 || (refs_expr(s[0], m) && refs_exprs(s.drop_first(), m))
}

pub open spec fn refs_stmt(s: Statement, m: ResMode) -> bool
    decreases size_stmt(s),
{
    match s {
        Statement::VarDecl(d) => refs_var_decl(d, m),
        Statement::VarAssign(a) => ref_ok(a.name_path.name, m) && refs_expr(*a.expr, m),
        Statement::If(i) => refs_if(i, m),
        Statement::While(w) => refs_expr(*w.cond, m) && refs_block(*w.body, m),
        Statement::For(f) => refs_for(f, m),
        Statement::Return(e) => refs_expr(*e, m),
        Statement::Break => true,
        Statement::Continue => true,
        Statement::Expression(e) => refs_expr(*e, m),
    }
}

pub open spec fn refs_var_decl(d: VarDecl, m: ResMode) -> bool
    decreases size_var_decl(d),
{
    refs_var_def(d.var_def, m) && match d.expr {
        Some(e) => refs_expr(*e, m),
        None => true,
    }
}

pub open spec fn refs_if(i: If, m: ResMode) -> bool
    decreases size_if(i),
{
    refs_expr(*i.cond, m) && refs_block(*i.body, m) && match i.else_ {
        Some(e) => refs_if(*e, m),
        None => true,
    }
}

pub open spec fn refs_for(f: For, m: ResMode) -> bool
    decreases size_for(f),
{
    (match f.init {
        Some(s) => refs_stmt(*s, m),
        None => true,
    }) && (match f.cond {
        Some(e) => refs_expr(*e, m),
        None => true,
    }) && (match f.step {
        Some(s) => refs_stmt(*s, m),
        None => true,
    }) && refs_block(f.body, m)
}

pub open spec fn refs_stmt_block(s: StatementBlock, m: ResMode) -> bool
    decreases size_stmt_block(s),
{
    match s {
        StatementBlock::Statement(st) => refs_stmt(st, m),
        StatementBlock::Block(b) => refs_block(b, m),
    }
}

pub open spec fn refs_stmts(s: Seq<StatementBlock>, m: ResMode) -> bool
    decreases size_stmts(s),
{
    s.len() == 0 || (refs_stmt_block(s[0], m) && refs_stmts(s.drop_first(), m))
}

pub open spec fn refs_struct_fields(s: Seq<(String, Type)>, m: ResMode) -> bool {
    forall|i: int| 0 <= i < s.len() ==> refs_type(#[trigger] s[i].1, m)
}

pub open spec fn refs_struct_def(d: StructDef, m: ResMode) -> bool {
    ref_ok(d.name, m) && refs_struct_fields(d.fields@, m)
}

pub open spec fn refs_args(s: Seq<VarDef>, m: ResMode) -> bool {
    forall|i: int| 0 <= i < s.len() ==> refs_var_def(#[trigger] s[i], m)
}

pub open spec fn refs_fn_def(f: FnDef, m: ResMode) -> bool
    decreases (match f.body {
        Some(b) => 1 + size_block(b),
        None => 0,
    }),
{
    ref_ok(f.name, m) && refs_type(f.return_type, m) && refs_args(f.args@, m) && match f.body {
        Some(b) => refs_block(b, m),
        None => true,
    }
}

pub open spec fn refs_def(d: Definition, m: ResMode) -> bool
    decreases size_def(d),
{
    match d {
        Definition::VarDecl(v) => refs_var_decl(v, m),
        Definition::StructDef(s) => refs_struct_def(s, m),
        Definition::FnDef(f) => refs_fn_def(f, m),
    }
}

pub open spec fn refs_defs(s: Seq<Definition>, m: ResMode) -> bool
    decreases size_defs(s),
{
    s.len() == 0 || (refs_def(s[0], m) && refs_defs(s.drop_first(), m))
}

pub open spec fn refs_block(b: Block, m: ResMode) -> bool
    decreases size_block(b),
{
    refs_defs(b.definitions@, m) && refs_stmts(b.statements@, m)
}

/// A module after per-module resolution: every reference in it carries
/// a module-resolved name, and every use element is bound.
pub open spec fn refs_module(mo: Module, m: ResMode) -> bool {
    refs_defs(mo.public_definitions@, m) && refs_block(mo.block, m) && forall|i: int, j: int|
        0 <= i < mo.uses@.len() && 0 <= j < mo.uses@[i].elements@.len() ==> ref_ok(
            #[trigger] mo.uses@[i].elements@[j].imported_name,
            mode_module(),
        )
}

} // verus!
