//! The parser of `.ing` source text: module and use declarations,
//! function definitions, and the statements of their bodies. It builds
//! raw ASTs — every reference carries only the identifier as written —
//! which the resolver and merger then fill in.

use vstd::prelude::*;
use vstd::string::StrSliceExecFns;
use vstd::string::StringExecFns;
use crate::ast::{
    AtomicExpression, Block, Definition, Expression, ExpressionEnum, FnCall, FnDef, LiteralValue,
    Module, ModuleImport, NamePath, Reference, Statement, StatementBlock, Type, Use, UseElement,
    VarDecl, VarDef,
};
use crate::names::str_eq;
use crate::ast::{
    size_atomic, size_block, size_compound, size_compound_value, size_expr, size_exprs, size_for,
    size_if, size_literal, size_stmt, size_stmt_block, size_stmts, size_def, size_defs,
    size_var_decl,
};
use crate::ast::{Compound, CompoundValue, If, For, While, StructDef, VarAssign};

verus! {

// ---------------------------------------------------------------------
// The parser's contract: every reference in its output carries only the
// identifier as written — both resolved fields are empty, for the
// resolver and the merger to fill.
// ---------------------------------------------------------------------

pub open spec fn raw_ref(r: Reference) -> bool {
    r.module_resolved is None && r.global_resolved is None
}

pub open spec fn raw_type(t: Type) -> bool {
    match t {
        Type::Struct(r) => raw_ref(r),
        _ => true,
    }
}

pub open spec fn raw_expr(e: Expression) -> bool
    decreases size_expr(e),
{
    e.type_ is None && match e.expr {
        ExpressionEnum::AtomicExpression(a) => raw_atomic(a),
        ExpressionEnum::Unary(op, b) => raw_expr(*b),
        ExpressionEnum::Binary(b1, op, b2) => raw_expr(*b1) && raw_expr(*b2),
    }
}

pub open spec fn raw_atomic(a: AtomicExpression) -> bool
    decreases size_atomic(a),
{
    match a {
        AtomicExpression::Literal(l) => raw_literal(l),
        AtomicExpression::Variable(np) => raw_ref(np.name),
        AtomicExpression::FnCall(f) => raw_ref(f.name) && raw_exprs(f.args@),
        AtomicExpression::StructInit(s) => raw_ref(s.type_) && raw_compound(s.compound@),
    }
}

pub open spec fn raw_literal(l: LiteralValue) -> bool
    decreases size_literal(l),
{
    match l {
        LiteralValue::Compound(c) => raw_compound(c@),
        _ => true,
    }
}

pub open spec fn raw_exprs(s: Seq<Expression>) -> bool
    decreases size_exprs(s),
{
    s.len() == 0 || (raw_expr(s[0]) && raw_exprs(s.drop_first()))
}

pub open spec fn raw_compound(s: Seq<(String, CompoundValue)>) -> bool
    decreases size_compound(s),
{
    s.len() == 0 || (raw_compound_value(s[0].1) && raw_compound(s.drop_first()))
}

pub open spec fn raw_compound_value(v: CompoundValue) -> bool
    decreases size_compound_value(v),
{
    match v {
        CompoundValue::Expression(e) => raw_expr(*e),
        CompoundValue::Compound(c) => raw_compound(c@),
    }
}

pub open spec fn raw_stmt(s: Statement) -> bool
    decreases size_stmt(s),
{
    match s {
        Statement::VarDecl(d) => raw_var_decl(d),
        Statement::VarAssign(a) => raw_ref(a.name_path.name) && raw_expr(*a.expr),
        Statement::If(i) => raw_if(i),
        Statement::While(w) => raw_expr(*w.cond) && raw_block(*w.body),
        Statement::For(f) => raw_for(f),
        Statement::Return(e) => raw_expr(*e),
        Statement::Break => true,
        Statement::Continue => true,
        Statement::Expression(e) => raw_expr(*e),
    }
}

pub open spec fn raw_var_decl(d: VarDecl) -> bool
    decreases size_var_decl(d),
{
    raw_ref(d.var_def.name) && raw_type(d.var_def.type_) && match d.expr {
        Some(e) => raw_expr(*e),
        None => true,
    }
}

pub open spec fn raw_if(i: If) -> bool
    decreases size_if(i),
{
    raw_expr(*i.cond) && raw_block(*i.body) && match i.else_ {
        Some(e) => raw_if(*e),
        None => true,
    }
}

pub open spec fn raw_for(f: For) -> bool
    decreases size_for(f),
{
    (match f.init {
        Some(s) => raw_stmt(*s),
        None => true,
    }) && (match f.cond {
        Some(e) => raw_expr(*e),
        None => true,
    }) && (match f.step {
        Some(s) => raw_stmt(*s),
        None => true,
    }) && raw_block(f.body)
}

pub open spec fn raw_stmt_block(s: StatementBlock) -> bool
    decreases size_stmt_block(s),
{
    match s {
        StatementBlock::Statement(st) => raw_stmt(st),
        StatementBlock::Block(b) => raw_block(b),
    }
}

pub open spec fn raw_stmts(s: Seq<StatementBlock>) -> bool
    decreases size_stmts(s),
{
    s.len() == 0 || (raw_stmt_block(s[0]) && raw_stmts(s.drop_first()))
}

pub open spec fn raw_def(d: Definition) -> bool
    decreases size_def(d),
{
    match d {
        Definition::VarDecl(v) => raw_var_decl(v),
        Definition::StructDef(sd) => raw_ref(sd.name) && forall|i: int|
            0 <= i < sd.fields@.len() ==> raw_type((#[trigger] sd.fields@[i]).1),
        Definition::FnDef(f) => raw_ref(f.name) && raw_type(f.return_type) && (forall|i: int|
            0 <= i < f.args@.len() ==> raw_ref((#[trigger] f.args@[i]).name) && raw_type(
                f.args@[i].type_,
            )) && (match f.body {
            Some(b) => raw_block(b),
            None => true,
        }),
    }
}

pub open spec fn raw_defs(s: Seq<Definition>) -> bool
    decreases size_defs(s),
{
    s.len() == 0 || (raw_def(s[0]) && raw_defs(s.drop_first()))
}

pub open spec fn raw_block(b: Block) -> bool
    decreases size_block(b),
{
    raw_defs(b.definitions@) && raw_stmts(b.statements@)
}

proof fn lemma_raw_stmts_push(s: Seq<StatementBlock>, x: StatementBlock)
    requires
        raw_stmts(s),
        raw_stmt_block(x),
    ensures
        raw_stmts(s.push(x)),
    decreases s.len(),
{
    let t = s.push(x);
    assert(t[s.len() as int] == x);
    if s.len() == 0 {
        assert(t[0] == x);
        assert(t.drop_first() =~= Seq::<StatementBlock>::empty());
        assert(raw_stmts(t.drop_first()));
    } else {
        assert(t[0] == s[0]);
        assert(t.drop_first() =~= s.drop_first().push(x));
        lemma_raw_stmts_push(s.drop_first(), x);
    }
}

proof fn lemma_raw_defs_push(s: Seq<Definition>, x: Definition)
    requires
        raw_defs(s),
        raw_def(x),
    ensures
        raw_defs(s.push(x)),
    decreases s.len(),
{
    let t = s.push(x);
    assert(t[s.len() as int] == x);
    if s.len() == 0 {
        assert(t[0] == x);
        assert(t.drop_first() =~= Seq::<Definition>::empty());
        assert(raw_defs(t.drop_first()));
    } else {
        assert(t[0] == s[0]);
        assert(t.drop_first() =~= s.drop_first().push(x));
        lemma_raw_defs_push(s.drop_first(), x);
    }
}

/// A module fresh from the parser: every reference raw, both resolved
/// fields empty.
pub open spec fn raw_module(m: Module) -> bool {
    &&& raw_defs(m.public_definitions@)
    &&& raw_block(m.block)
    &&& forall|i: int, j: int|
        0 <= i < m.uses@.len() && 0 <= j < m.uses@[i].elements@.len() ==> raw_ref(
            (#[trigger] m.uses@[i].elements@[j]).imported_name,
        )
}

#[derive(Debug, PartialEq)]
pub enum Token {
    Ident(String),
    LitInt(i32),
    KwMod,
    KwUse,
    KwFn,
    KwPub,
    KwLet,
    KwTrue,
    KwFalse,
    LBrace,
    RBrace,
    LParen,
    RParen,
    Semi,
    Colon,
    PathSep,
    Comma,
    Assign,
}

fn is_ident_start(c: char) -> bool {
    let u = c as u32;
    (97 <= u && u <= 122) || (65 <= u && u <= 90) || u == 95
}

fn is_ident_char(c: char) -> bool {
    let u = c as u32;
    (97 <= u && u <= 122) || (65 <= u && u <= 90) || u == 95 || (48 <= u && u <= 57)
}

fn is_digit(c: char) -> (r: bool)
    ensures
        r == (48 <= c as u32 <= 57),
{
    let u = c as u32;
    48 <= u && u <= 57
}

fn is_space(c: char) -> bool {
    let u = c as u32;
    u == 32 || u == 9 || u == 10 || u == 13
}

fn keyword_or_ident(s: String) -> (t: Token) {
    if str_eq(s.as_str(), "mod") {
        Token::KwMod
    } else if str_eq(s.as_str(), "use") {
        Token::KwUse
    } else if str_eq(s.as_str(), "fn") {
        Token::KwFn
    } else if str_eq(s.as_str(), "pub") {
        Token::KwPub
    } else if str_eq(s.as_str(), "let") {
        Token::KwLet
    } else if str_eq(s.as_str(), "true") {
        Token::KwTrue
    } else if str_eq(s.as_str(), "false") {
        Token::KwFalse
    } else {
        Token::Ident(s)
    }
}

/// Splits source text into tokens; an unexpected character is a parse
/// failure.
fn tokenize(src: &str) -> (r: Result<Vec<Token>, String>) {
    let n = src.unicode_len();
    let mut toks: Vec<Token> = Vec::new();
    let mut i: usize = 0;
    while i < n
        invariant
            i <= n,
            n == src@.len(),
        decreases n - i,
    {
        let c = src.get_char(i);
        if is_space(c) {
            i += 1;
        } else if is_ident_start(c) {
            let start = i;
            i += 1;
            while i < n && is_ident_char(src.get_char(i))
                invariant
                    start < i <= n,
                    n == src@.len(),
                decreases n - i,
            {
                i += 1;
            }
            let word = src.substring_char(start, i).to_owned();
            toks.push(keyword_or_ident(word));
        } else if is_digit(c) {
            let start = i;
            let mut value: i32 = (c as u32 - 48) as i32;
            i += 1;
            while i < n && is_digit(src.get_char(i))
                invariant
                    start < i <= n,
                    n == src@.len(),
                    0 <= value,
                decreases n - i,
            {
                let d = (src.get_char(i) as u32) - 48;
                if value > 214748363 {
                    return Err("integer literal too large".to_owned());
                }
                value = value * 10 + (d as i32);
                i += 1;
            }
            toks.push(Token::LitInt(value));
        } else {
            let u = c as u32;
            if u == 123 {
                toks.push(Token::LBrace);
                i += 1;
            } else if u == 125 {
                toks.push(Token::RBrace);
                i += 1;
            } else if u == 40 {
                toks.push(Token::LParen);
                i += 1;
            } else if u == 41 {
                toks.push(Token::RParen);
                i += 1;
            } else if u == 59 {
                toks.push(Token::Semi);
                i += 1;
            } else if u == 44 {
                toks.push(Token::Comma);
                i += 1;
            } else if u == 61 {
                toks.push(Token::Assign);
                i += 1;
            } else if u == 58 {
                if i + 1 < n && (src.get_char(i + 1) as u32) == 58 {
                    toks.push(Token::PathSep);
                    i += 2;
                } else {
                    toks.push(Token::Colon);
                    i += 1;
                }
            } else {
                return Err("unexpected character".to_owned());
            }
        }
    }
    Ok(toks)
}

fn expect_ident(toks: &Vec<Token>, i: usize) -> (r: Result<(String, usize), String>)
    requires
        i <= toks@.len(),
    ensures
        r matches Ok(p) ==> i < p.1 <= toks@.len(),
{
    if i < toks.len() {
        match &toks[i] {
            Token::Ident(s) => Ok((s.clone(), i + 1)),
            _ => Err("expected an identifier".to_owned()),
        }
    } else {
        Err("expected an identifier".to_owned())
    }
}

fn type_of_name(name: String) -> (t: Type)
    ensures
        raw_type(t),
{
    if str_eq(name.as_str(), "Void") {
        Type::Void
    } else if str_eq(name.as_str(), "Bool") {
        Type::Bool
    } else if str_eq(name.as_str(), "Int") {
        Type::Int
    } else if str_eq(name.as_str(), "Float") {
        Type::Float
    } else if str_eq(name.as_str(), "Double") {
        Type::Double
    } else if str_eq(name.as_str(), "String") {
        Type::String
    } else {
        Type::Struct(Reference::new(name))
    }
}

fn atom_expr(a: AtomicExpression) -> (e: Expression)
    ensures
        e == (Expression { expr: ExpressionEnum::AtomicExpression(a), type_: None }),
{
    Expression { expr: ExpressionEnum::AtomicExpression(a), type_: None }
}

/// Parses one expression: a literal, a call of a function without
/// arguments, or a plain variable.
fn parse_expr(toks: &Vec<Token>, i: usize) -> (r: Result<(Expression, usize), String>)
    requires
        i <= toks@.len(),
    ensures
        r matches Ok(p) ==> i < p.1 <= toks@.len() && raw_expr(p.0),
{
    if i >= toks.len() {
        return Err("expected an expression".to_owned());
    }
    match &toks[i] {
        Token::LitInt(v) => {
            let e = atom_expr(AtomicExpression::Literal(LiteralValue::Int(*v)));
            assert(raw_literal(LiteralValue::Int(*v)));
            assert(raw_atomic(AtomicExpression::Literal(LiteralValue::Int(*v))));
            assert(raw_expr(e));
            Ok((e, i + 1))
        },
        Token::KwTrue => {
            let e = atom_expr(AtomicExpression::Literal(LiteralValue::Bool(true)));
            assert(raw_literal(LiteralValue::Bool(true)));
            assert(raw_atomic(AtomicExpression::Literal(LiteralValue::Bool(true))));
            assert(raw_expr(e));
            Ok((e, i + 1))
        },
        Token::KwFalse => {
            let e = atom_expr(AtomicExpression::Literal(LiteralValue::Bool(false)));
            assert(raw_literal(LiteralValue::Bool(false)));
            assert(raw_atomic(AtomicExpression::Literal(LiteralValue::Bool(false))));
            assert(raw_expr(e));
            Ok((e, i + 1))
        },
        Token::Ident(s) => {
            if toks.len() - i > 2 && matches!(&toks[i + 1], Token::LParen) && matches!(
                &toks[i + 2],
                Token::RParen,
            ) {
                let call = FnCall { name: Reference::new(s.clone()), args: Vec::new() };
                assert(raw_ref(call.name));
                assert(raw_exprs(call.args@));
                let e = atom_expr(AtomicExpression::FnCall(Box::new(call)));
                assert(raw_atomic(e.expr->AtomicExpression_0));
                assert(raw_expr(e));
                Ok((e, i + 3))
            } else {
                let np = NamePath { name: Reference::new(s.clone()), path: Vec::new() };
                assert(raw_ref(np.name));
                let e = atom_expr(AtomicExpression::Variable(np));
                assert(raw_atomic(e.expr->AtomicExpression_0));
                assert(raw_expr(e));
                Ok((e, i + 1))
            }
        },
        _ => Err("expected an expression".to_owned()),
    }
}

/// Parses the statements of a function body up to its closing brace.
fn parse_body(toks: &Vec<Token>, i: usize) -> (r: Result<(Vec<StatementBlock>, usize), String>)
    requires
        i <= toks@.len(),
    ensures
        r matches Ok(p) ==> i < p.1 <= toks@.len() && raw_stmts(p.0@),
    decreases toks@.len() - i,
{
    let mut stmts: Vec<StatementBlock> = Vec::new();
    let mut pos = i;
    let n = toks.len();
    while pos < n
        invariant
            pos <= n,
            i <= pos,
            n == toks@.len(),
            raw_stmts(stmts@),
        decreases n - pos,
    {
        match &toks[pos] {
            Token::RBrace => {
                return Ok((stmts, pos + 1));
            },
            Token::Semi => {
                pos += 1;
            },
            Token::KwLet => {
                let (name, j) = expect_ident(toks, pos + 1)?;
                if j >= n || !matches!(&toks[j], Token::Colon) {
                    return Err("expected a colon after a let name".to_owned());
                }
                let (tname, j2) = expect_ident(toks, j + 1)?;
                if j2 >= n || !matches!(&toks[j2], Token::Assign) {
                    return Err("expected an initialiser".to_owned());
                }
                let (e, j3) = parse_expr(toks, j2 + 1)?;
                if j3 >= n || !matches!(&toks[j3], Token::Semi) {
                    return Err("expected a semicolon".to_owned());
                }
                let decl = VarDecl {
                    var_def: VarDef {
                        mods: Vec::new(),
                        name: Reference::new(name),
                        type_: type_of_name(tname),
                    },
                    expr: Some(Box::new(e)),
                };
                let sb = StatementBlock::Statement(Statement::VarDecl(decl));
                assert(raw_stmt_block(sb));
                proof {
                    lemma_raw_stmts_push(stmts@, sb);
                }
                stmts.push(sb);
                pos = j3 + 1;
            },
            _ => {
                let (e, j) = parse_expr(toks, pos)?;
                if j >= n || !matches!(&toks[j], Token::Semi) {
                    return Err("expected a semicolon".to_owned());
                }
                let sb = StatementBlock::Statement(Statement::Expression(Box::new(e)));
                assert(raw_stmt_block(sb));
                proof {
                    lemma_raw_stmts_push(stmts@, sb);
                }
                stmts.push(sb);
                pos = j + 1;
            },
        }
    }
    Err("a body is missing its closing brace".to_owned())
}

/// Parses the contents of one source file. Every reference of the
/// result carries only the identifier as written: both resolved fields
/// are empty, for the resolver and the merger to fill.
pub fn parse_module_source(src: &str) -> (r: Result<Module, String>)
    ensures
        r matches Ok(m) ==> raw_module(m),
{
    let toks = tokenize(src)?;
    let n = toks.len();
    let mut mods: Vec<ModuleImport> = Vec::new();
    let mut uses: Vec<Use> = Vec::new();
    let mut public_definitions: Vec<Definition> = Vec::new();
    let mut definitions: Vec<Definition> = Vec::new();
    let mut i: usize = 0;
    while i < n
        invariant
            i <= n,
            n == toks@.len(),
            raw_defs(public_definitions@),
            raw_defs(definitions@),
            forall|a: int, b: int|
                0 <= a < uses@.len() && 0 <= b < uses@[a].elements@.len() ==> raw_ref(
                    (#[trigger] uses@[a].elements@[b]).imported_name,
                ),
        decreases n - i,
    {
        let mut public = false;
        let mut j = i;
        if matches!(&toks[j], Token::KwPub) {
            public = true;
            j += 1;
            if j >= n {
                return Err("a declaration is missing after pub".to_owned());
            }
        }
        match &toks[j] {
            Token::Semi => {
                i = j + 1;
            },
            Token::KwMod => {
                let (name, j2) = expect_ident(&toks, j + 1)?;
                if j2 >= n || !matches!(&toks[j2], Token::Semi) {
                    return Err("expected a semicolon after a mod declaration".to_owned());
                }
                mods.push(ModuleImport { public, name });
                i = j2 + 1;
            },
            Token::KwUse => {
                let (first, j2) = expect_ident(&toks, j + 1)?;
                let mut segs: Vec<String> = Vec::new();
                segs.push(first);
                let mut j3 = j2;
                while j3 < n && matches!(&toks[j3], Token::PathSep)
                    invariant
                        j3 <= n,
                        j2 <= j3,
                        i < j2,
                        n == toks@.len(),
                        segs@.len() > 0,
                    decreases n - j3,
                {
                    let (seg, j4) = expect_ident(&toks, j3 + 1)?;
                    segs.push(seg);
                    j3 = j4;
                }
                if j3 >= n || !matches!(&toks[j3], Token::Semi) {
                    return Err("expected a semicolon after a use declaration".to_owned());
                }
                if segs.len() < 2 {
                    return Err("a use path needs a module and a name".to_owned());
                }
                let last = match segs.pop() {
                    Some(s) => s,
                    None => {
                        return Err("a use path needs a name".to_owned());
                    },
                };
                let element = UseElement {
                    origin_name: last.clone(),
                    imported_name: Reference::new(last),
                };
                let mut elements: Vec<UseElement> = Vec::new();
                elements.push(element);
                let ghost uses0 = uses@;
                uses.push(Use { path: segs, elements });
                proof {
                    assert forall|a: int, b: int|
                        0 <= a < uses@.len() && 0 <= b < uses@[a].elements@.len() implies raw_ref(
                        (#[trigger] uses@[a].elements@[b]).imported_name,
                    ) by {
                        if a < uses0.len() {
                            assert(uses@[a] == uses0[a]);
                        } else {
                            assert(uses@[a] == uses@.last());
                        }
                    }
                }
                i = j3 + 1;
            },
            Token::KwFn => {
                let (name, j2) = expect_ident(&toks, j + 1)?;
                if !(j2 < n && matches!(&toks[j2], Token::LParen)) {
                    return Err("expected an argument list".to_owned());
                }
                let jr = j2 + 1;
                if !(jr < n && matches!(&toks[jr], Token::RParen)) {
                    return Err("expected an empty argument list".to_owned());
                }
                let jb = jr + 1;
                if !(jb < n && matches!(&toks[jb], Token::LBrace)) {
                    return Err("expected a function body".to_owned());
                }
                let (stmts, j3) = parse_body(&toks, jb + 1)?;
                let def = Definition::FnDef(
                    FnDef {
                        return_type: Type::Void,
                        mods: Vec::new(),
                        name: Reference::new(name),
                        args: Vec::new(),
                        body: Some(Block { definitions: Vec::new(), statements: stmts }),
                    },
                );
                assert(raw_def(def));
                if public {
                    proof {
                        lemma_raw_defs_push(public_definitions@, def);
                    }
                    public_definitions.push(def);
                } else {
                    proof {
                        lemma_raw_defs_push(definitions@, def);
                    }
                    definitions.push(def);
                }
                i = j3;
            },
            _ => {
                return Err("expected a declaration".to_owned());
            },
        }
    }
    Ok(
        Module {
            mods,
            uses,
            public_definitions,
            block: Block { definitions, statements: Vec::new() },
        },
    )
}

} // verus!
