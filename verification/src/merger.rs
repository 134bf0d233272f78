//! The module merger: combines the resolved modules of one package into
//! a single pair of definition tables keyed by global names, and wires
//! up `use` imports, including cross-package references.
//!
//! The merge runs in two phases. Hoisting walks every module, pulls
//! every definition — module-level or nested in a block — out of its
//! AST and installs it in the private table under the global name
//! `(module path, module-resolved name)`; a `pub` definition is also
//! installed in the public table, a function without its body. Linking
//! then rewrites every reference inside the stored definitions: a name
//! introduced by a `use` receives the import's target, any other name
//! the pair of its own module path and module-resolved name. Local
//! function and struct targets must be keys of the table; foreign
//! targets are recorded without a check, for a later linking stage.

use vstd::prelude::*;
use vstd::string::StringExecFns;
use vstd::string::StrSliceExecFns;
use crate::ast::{
    AtomicExpression, Block, CompoundValue, Definition, Expression, ExpressionEnum, FnCall, FnDef,
    For, If, LiteralValue, Module, NamePath, Reference, Statement, StatementBlock, StructDef,
    StructInit, Type, Use, VarAssign, VarDecl, VarDef, While,
};
use crate::ast::{is_local_module};
use crate::ast::{
    size_block, size_def, size_defs, size_for, size_if, size_stmt, size_stmt_block, size_stmts,
};
use crate::names::{name_format, name_parts, str_eq, GlobalName, GlobalNameV};
use crate::resolver::{resolve_module, ResolverError};
use crate::table::{DefinitionTable, MergedModule, NameMap};

verus! {

/// Errors of resolution and merging. The last two arise only from
/// inputs that break the front-end's own invariants, never from valid
/// user programs.
#[derive(Debug, PartialEq)]
pub enum MergeError {
    UndefinedVariable(String),
    Redefinition(String),
    /// A `use` whose target module has no such public definition; the
    /// payload is the rewritten module path and the imported name.
    UnresolvedImport(String, String),
    /// An in-module function or struct reference that no definition of
    /// the module answers.
    UnresolvedReference(String),
    InternalMergeConflict,
    /// A reference without a module-resolved name reached the merger.
    MissingResolution,
}

fn lift_resolver_error(e: ResolverError) -> (r: MergeError)
    ensures
        match e {
            ResolverError::UndefinedVariable(s) => r == MergeError::UndefinedVariable(s),
            ResolverError::Redefinition(s) => r == MergeError::Redefinition(s),
        },
{
    match e {
        ResolverError::UndefinedVariable(s) => MergeError::UndefinedVariable(s),
        ResolverError::Redefinition(s) => MergeError::Redefinition(s),
    }
}

// ---------------------------------------------------------------------
// Use paths.
// ---------------------------------------------------------------------

pub open spec fn root_seg() -> Seq<char> {
    seq!['r', 'o', 'o', 't']
}

pub open spec fn root_path() -> Seq<char> {
    seq!['/', 'r', 'o', 'o', 't']
}

/// The trailing segments of a slash-joined path: one `/` before each.
pub open spec fn path_tail(segs: Seq<Seq<char>>) -> Seq<char>
    decreases segs.len(),
{
    if segs.len() == 0 {
        Seq::empty()
    } else {
        seq!['/'] + segs[0] + path_tail(segs.drop_first())
    }
}

pub open spec fn seg_views(v: Seq<String>) -> Seq<Seq<char>> {
    v.map_values(|s: String| s@)
}

/// Where a `use` path points: a first segment naming the package itself
/// or the literal `root` is rewritten to the local prefix `/root`; any
/// other first segment is a foreign package name and stays verbatim.
pub open spec fn rewrite_path_spec(segs: Seq<Seq<char>>, pkg: Seq<char>) -> Seq<char>
    recommends
        segs.len() > 0,
{
    if segs[0] == root_seg() || segs[0] == pkg {
        root_path() + path_tail(segs.drop_first())
    } else {
        segs[0] + path_tail(segs.drop_first())
    }
}

/// Law: a `use` path that starts with the literal `root` and one that
/// starts with the owning package's own name resolve to the same module
/// path, whatever follows.
pub proof fn lemma_root_and_package_paths_agree(rest: Seq<Seq<char>>, pkg: Seq<char>)
    ensures
        rewrite_path_spec(seq![root_seg()] + rest, pkg) == rewrite_path_spec(
            seq![pkg] + rest,
            pkg,
        ),
{
    let p1 = seq![root_seg()] + rest;
    let p2 = seq![pkg] + rest;
    assert(p1[0] == root_seg());
    assert(p2[0] == pkg);
    assert(p1.drop_first() =~= rest);
    assert(p2.drop_first() =~= rest);
}

proof fn lemma_path_tail_push(s: Seq<Seq<char>>, x: Seq<char>)
    ensures
        path_tail(s.push(x)) == path_tail(s) + seq!['/'] + x,
    decreases s.len(),
{
    let t = s.push(x);
    if s.len() == 0 {
        assert(t[0] == x);
        assert(t.drop_first() =~= Seq::<Seq<char>>::empty());
        assert(t.drop_first().len() == 0);
        assert(path_tail(t.drop_first()) == Seq::<char>::empty());
        assert(path_tail(t) == seq!['/'] + x + Seq::<char>::empty());
        assert(path_tail(s).len() == 0);
        assert(path_tail(t) =~= path_tail(s) + seq!['/'] + x);
    } else {
        assert(t[0] == s[0]);
        assert(t.drop_first() =~= s.drop_first().push(x));
        lemma_path_tail_push(s.drop_first(), x);
        assert(path_tail(t) == seq!['/'] + s[0] + (path_tail(s.drop_first()) + seq!['/'] + x));
        assert(path_tail(t) =~= path_tail(s) + seq!['/'] + x);
    }
}

/// Joins a `use` path into the module path of its target.
fn rewrite_use_path(path: &Vec<String>, pkg: &str) -> (r: String)
    requires
        path@.len() > 0,
    ensures
        r@ == rewrite_path_spec(seg_views(path@), pkg@),
{
    proof {
        reveal_strlit("root");
        reveal_strlit("/root");
        reveal_strlit("/");
    }
    let ghost segs = seg_views(path@);
    let first = &path[0];
    assert(segs[0] == first@);
    let mut out: String;
    if str_eq(first.as_str(), "root") || str_eq(first.as_str(), pkg) {
        out = "/root".to_owned();
        assert(out@ =~= root_path());
        assert(segs[0] == root_seg() || segs[0] == pkg@) by {
            assert("root"@ =~= root_seg());
        }
    } else {
        out = first.clone();
        assert(segs[0] != root_seg() && segs[0] != pkg@) by {
            assert("root"@ =~= root_seg());
        }
    }
    let ghost base = out@;
    let n = path.len();
    let mut i: usize = 1;
    while i < n
        invariant
            1 <= i <= n,
            n == path@.len(),
            segs == seg_views(path@),
            segs.len() == n,
            out@ == base + path_tail(segs.subrange(1, i as int)),
        decreases n - i,
    {
        proof {
            reveal_strlit("/");
        }
        out.append("/");
        out.append(path[i].as_str());
        proof {
            assert(segs[i as int] == path@[i as int]@);
            assert(segs.subrange(1, i + 1) =~= segs.subrange(1, i as int).push(segs[i as int]));
            lemma_path_tail_push(segs.subrange(1, i as int), segs[i as int]);
            assert(out@ =~= base + path_tail(segs.subrange(1, i + 1)));
        }
        i += 1;
    }
    proof {
        assert(segs.subrange(1, n as int) =~= segs.drop_first());
        assert(path_tail(segs.subrange(1, 1)) =~= Seq::<char>::empty()) by {
            assert(segs.subrange(1, 1).len() == 0);
        }
        if n == 1 {
            assert(out@ =~= base + path_tail(segs.drop_first()));
        }
        assert(out@ == base + path_tail(segs.drop_first()));
        assert(out@ =~= rewrite_path_spec(segs, pkg@));
    }
    out
}

// ---------------------------------------------------------------------
// Use entries.
// ---------------------------------------------------------------------

/// One name a module imports: the module-resolved name the import is
/// known by locally, and the global name it stands for.
pub struct UseEntry {
    pub local: String,
    pub target: GlobalName,
}

/// The imports of one module, keyed by module path.
pub struct UseMap {
    pub module: String,
    pub entries: Vec<UseEntry>,
}

/// One use entry built from element `j` of use `i`: known locally by
/// the module-resolved name the resolver minted for the import, and
/// standing for the rewritten path paired with the origin name at
/// shadow index zero — the form a module-level public definition
/// carries.
pub open spec fn use_entry_built(entry: UseEntry, uses: Seq<Use>, pkg: Seq<char>) -> bool {
    exists|i: int, j: int|
        0 <= i < uses.len() && 0 <= j < uses[i].elements@.len() && uses[i].path@.len() > 0 && (
        #[trigger] uses[i].elements@[j]).imported_name.module_resolved == Some(entry.local)
            && entry.target@ == (crate::names::GlobalNameV {
            module: rewrite_path_spec(seg_views(uses[i].path@), pkg),
            name: name_parts(0, uses[i].elements@[j].origin_name@),
        })
}

/// Collects the use entries of one resolved module.
fn build_use_entries(uses: &Vec<Use>, pkg: &str) -> (r: Result<Vec<UseEntry>, MergeError>)
    ensures
        r matches Ok(out) ==> forall|k: int|
            0 <= k < out@.len() ==> use_entry_built(#[trigger] out@[k], uses@, pkg@),
{
    let mut out: Vec<UseEntry> = Vec::new();
    let n = uses.len();
    let mut i: usize = 0;
    while i < n
        invariant
            i <= n,
            n == uses@.len(),
            forall|k: int| 0 <= k < out@.len() ==> use_entry_built(#[trigger] out@[k], uses@, pkg@),
        decreases n - i,
    {
        let u = &uses[i];
        if u.path.len() == 0 {
            return Err(MergeError::MissingResolution);
        }
        let target_module = rewrite_use_path(&u.path, pkg);
        let m = u.elements.len();
        let mut j: usize = 0;
        while j < m
            invariant
                i < n,
                j <= m,
                n == uses@.len(),
                m == u.elements@.len(),
                u == &uses[i as int],
                uses@[i as int].path@.len() > 0,
                target_module@ == rewrite_path_spec(seg_views(uses@[i as int].path@), pkg@),
                forall|k: int|
                    0 <= k < out@.len() ==> use_entry_built(#[trigger] out@[k], uses@, pkg@),
            decreases m - j,
        {
            let e = &u.elements[j];
            let local = match &e.imported_name.module_resolved {
                Some(s) => s.clone(),
                None => {
                    return Err(MergeError::MissingResolution);
                },
            };
            let target = GlobalName {
                module: target_module.clone(),
                name: name_format(e.origin_name.as_str(), 0),
            };
            let entry = UseEntry { local, target };
            proof {
                assert(uses@[i as int].elements@[j as int].imported_name.module_resolved == Some(
                    entry.local,
                ));
                assert(entry.target@ == (crate::names::GlobalNameV {
                    module: rewrite_path_spec(seg_views(uses@[i as int].path@), pkg@),
                    name: name_parts(0, uses@[i as int].elements@[j as int].origin_name@),
                }));
                assert(use_entry_built(entry, uses@, pkg@));
            }
            out.push(entry);
            j += 1;
        }
        i += 1;
    }
    Ok(out)
}

/// The first use entry whose local name is `mr`.
pub open spec fn find_use_spec(s: Seq<UseEntry>, mr: Seq<char>) -> Option<UseEntry>
    decreases s.len(),
{
    if s.len() == 0 {
        None
    } else if s[0].local@ == mr {
        Some(s[0])
    } else {
        find_use_spec(s.drop_first(), mr)
    }
}

/// Finds the import a module-resolved name came from, if any.
fn find_use(entries: &Vec<UseEntry>, mr: &String) -> (r: Option<GlobalName>)
    ensures
        match find_use_spec(entries@, mr@) {
            Some(e) => r == Some(e.target),
            None => r is None,
        },
{
    let n = entries.len();
    let mut i: usize = 0;
    assert(entries@.subrange(0, n as int) =~= entries@);
    while i < n
        invariant
            i <= n,
            n == entries@.len(),
            find_use_spec(entries@, mr@) == find_use_spec(
                entries@.subrange(i as int, n as int),
                mr@,
            ),
        decreases n - i,
    {
        let ghost tail = entries@.subrange(i as int, n as int);
        assert(tail[0] == entries@[i as int]);
        proof {
            assert(tail.drop_first() =~= entries@.subrange(i + 1, n as int));
        }
        if str_eq(entries[i].local.as_str(), mr.as_str()) {
            return Some(entries[i].target.duplicate());
        }
        i += 1;
    }
    None
}

fn find_module_uses<'a>(maps: &'a Vec<UseMap>, mp: &String) -> (r: Option<&'a Vec<UseEntry>>)
{
    let n = maps.len();
    let mut i: usize = 0;
    while i < n
        invariant
            i <= n,
            n == maps@.len(),
        decreases n - i,
    {
        if str_eq(maps[i].module.as_str(), mp.as_str()) {
            return Some(&maps[i].entries);
        }
        i += 1;
    }
    None
}

// ---------------------------------------------------------------------
// Copies.
// ---------------------------------------------------------------------

pub fn copy_reference(r: &Reference) -> (c: Reference)
    ensures
        c == *r,
{
    Reference {
        raw: r.raw.clone(),
        module_resolved: match &r.module_resolved {
            Some(s) => Some(s.clone()),
            None => None,
        },
        global_resolved: match &r.global_resolved {
            Some(g) => Some(g.duplicate()),
            None => None,
        },
    }
}

pub fn copy_type(t: &Type) -> (c: Type)
    ensures
        c == *t,
{
    match t {
        Type::Void => Type::Void,
        Type::Bool => Type::Bool,
        Type::Int => Type::Int,
        Type::Float => Type::Float,
        Type::Double => Type::Double,
        Type::String => Type::String,
        Type::Struct(r) => Type::Struct(copy_reference(r)),
    }
}

fn copy_var_mods(v: &Vec<crate::ast::VarMod>) -> (c: Vec<crate::ast::VarMod>)
    ensures
        c@ == v@,
{
    let mut out: Vec<crate::ast::VarMod> = Vec::new();
    let n = v.len();
    let mut i: usize = 0;
    while i < n
        invariant
            i <= n,
            n == v@.len(),
            out@ == v@.take(i as int),
        decreases n - i,
    {
        out.push(v[i]);
        assert(out@ =~= v@.take(i + 1));
        i += 1;
    }
    assert(v@.take(n as int) =~= v@);
    out
}

/// Copies a signature's argument list, field for field.
fn copy_args(v: &Vec<VarDef>) -> (c: Vec<VarDef>)
    ensures
        c@.len() == v@.len(),
        forall|i: int|
            0 <= i < v@.len() ==> (#[trigger] c@[i]).name == v@[i].name && c@[i].type_ == v@[i].type_
                && c@[i].mods@ == v@[i].mods@,
{
    let mut out: Vec<VarDef> = Vec::new();
    let n = v.len();
    let mut i: usize = 0;
    while i < n
        invariant
            i <= n,
            n == v@.len(),
            out@.len() == i,
            forall|j: int|
                0 <= j < i ==> (#[trigger] out@[j]).name == v@[j].name && out@[j].type_
                    == v@[j].type_ && out@[j].mods@ == v@[j].mods@,
        decreases n - i,
    {
        let a = &v[i];
        let c = VarDef {
            mods: copy_var_mods(&a.mods),
            name: copy_reference(&a.name),
            type_: copy_type(&a.type_),
        };
        out.push(c);
        i += 1;
    }
    out
}

// ---------------------------------------------------------------------
// Hoisting: every definition leaves its AST and moves into the tables.
// ---------------------------------------------------------------------

/// The definition is keyed, in the map of its kind, under its module's
/// path paired with its module-resolved name; the stored entry keeps
/// the definition's raw name, and a function or global variable keeps
/// its body or initialiser — it is `Some` in the table exactly when the
/// definition had one.
pub open spec fn def_installed(d: Definition, mp: Seq<char>, t: DefinitionTable) -> bool {
    match d {
        Definition::FnDef(f) => match f.name.module_resolved {
            Some(mr) => {
                let k = GlobalNameV { module: mp, name: mr@ };
                &&& t.function_definitions@.contains_key(k)
                &&& t.function_definitions@[k].name.raw@ == f.name.raw@
                &&& (t.function_definitions@[k].body is Some <==> f.body is Some)
            },
            None => false,
        },
        Definition::StructDef(s) => match s.name.module_resolved {
            Some(mr) => {
                let k = GlobalNameV { module: mp, name: mr@ };
                &&& t.struct_definitions@.contains_key(k)
                &&& t.struct_definitions@[k].name.raw@ == s.name.raw@
            },
            None => false,
        },
        Definition::VarDecl(v) => match v.var_def.name.module_resolved {
            Some(mr) => {
                let k = GlobalNameV { module: mp, name: mr@ };
                &&& t.global_var_definitions@.contains_key(k)
                &&& t.global_var_definitions@[k].var_def.name.raw@ == v.var_def.name.raw@
                &&& (t.global_var_definitions@[k].expr is Some <==> v.expr is Some)
            },
            None => false,
        },
    }
}

/// The table only ever grows during hoisting: every entry stays, under
/// its key and with its value, and new ones may join.
pub open spec fn doms_grow(t0: DefinitionTable, t1: DefinitionTable) -> bool {
    &&& forall|k: GlobalNameV|
        #[trigger] t0.function_definitions@.contains_key(k)
            ==> t1.function_definitions@.contains_key(k) && t1.function_definitions@[k]
            == t0.function_definitions@[k]
    &&& forall|k: GlobalNameV|
        #[trigger] t0.struct_definitions@.contains_key(k) ==> t1.struct_definitions@.contains_key(
            k,
        ) && t1.struct_definitions@[k] == t0.struct_definitions@[k]
    &&& forall|k: GlobalNameV|
        #[trigger] t0.global_var_definitions@.contains_key(k)
            ==> t1.global_var_definitions@.contains_key(k) && t1.global_var_definitions@[k]
            == t0.global_var_definitions@[k]
}

fn extract_def(d: Definition, acc: &mut Vec<Definition>) -> (r: Definition)
    ensures
        crate::resolver::def_mr(r) == crate::resolver::def_mr(d),
        crate::resolver::def_raw(r) == crate::resolver::def_raw(d),
        (match (r, d) {
            (Definition::FnDef(f2), Definition::FnDef(f1)) => f2.body is Some <==> f1.body is Some,
            (Definition::StructDef(s2), Definition::StructDef(s1)) => true,
            (Definition::VarDecl(v2), Definition::VarDecl(v1)) => v2.expr == v1.expr,
            _ => false,
        }),
    decreases size_def(d),
{
    match d {
        Definition::VarDecl(v) => Definition::VarDecl(v),
        Definition::StructDef(s) => Definition::StructDef(s),
        Definition::FnDef(f) => {
            let ghost f0 = f;
            let FnDef { return_type, mods, name, args, body } = f;
            let body2 = match body {
                Some(b) => {
                    proof {
                        assert(size_def(Definition::FnDef(f0)) == 2 + size_block(b));
                    }
                    Some(extract_block(b, acc))
                },
                None => None,
            };
            Definition::FnDef(FnDef { return_type, mods, name, args, body: body2 })
        },
    }
}

fn extract_defs(v: Vec<Definition>, acc: &mut Vec<Definition>)
    decreases size_defs(v@),
{
    let ghost v0 = v@;
    let mut v = v;
    if v.len() == 0 {
        return ;
    }
    let d = v.remove(0);
    assert(d == v0[0] && v@ == v0.drop_first());
    let d2 = extract_def(d, acc);
    acc.push(d2);
    extract_defs(v, acc);
}

fn extract_stmt(s: Statement, acc: &mut Vec<Definition>) -> (r: Statement)
    decreases size_stmt(s),
{
    let ghost s0 = s;
    match s {
        Statement::If(i) => Statement::If(extract_if(i, acc)),
        Statement::While(w) => {
            let While { cond, body } = w;
            let b2 = extract_block(*body, acc);
            Statement::While(While { cond, body: Box::new(b2) })
        },
        Statement::For(f) => {
            proof {
                assert(size_stmt(s0) == 1 + size_for(f));
            }
            let For { init, cond, step, body } = f;
            let init2 = match init {
                Some(i) => Some(Box::new(extract_stmt(*i, acc))),
                None => None,
            };
            let step2 = match step {
                Some(p) => Some(Box::new(extract_stmt(*p, acc))),
                None => None,
            };
            let body2 = extract_block(body, acc);
            Statement::For(For { init: init2, cond, step: step2, body: body2 })
        },
        other => other,
    }
}

fn extract_if(i: If, acc: &mut Vec<Definition>) -> (r: If)
    decreases size_if(i),
{
    let If { cond, body, else_ } = i;
    let b2 = extract_block(*body, acc);
    let e2 = match else_ {
        Some(e) => Some(Box::new(extract_if(*e, acc))),
        None => None,
    };
    If { cond, body: Box::new(b2), else_: e2 }
}

fn extract_stmts(v: Vec<StatementBlock>, acc: &mut Vec<Definition>) -> (r: Vec<StatementBlock>)
    decreases size_stmts(v@),
{
    let ghost v0 = v@;
    let mut v = v;
    if v.len() == 0 {
        return v;
    }
    let s = v.remove(0);
    assert(s == v0[0] && v@ == v0.drop_first());
    let s2 = match s {
        StatementBlock::Statement(st) => {
            proof {
                assert(v0[0] == StatementBlock::Statement(st));
                assert(size_stmt_block(v0[0]) == 1 + size_stmt(st));
            }
            StatementBlock::Statement(extract_stmt(st, acc))
        },
        StatementBlock::Block(b) => {
            proof {
                assert(v0[0] == StatementBlock::Block(b));
                assert(size_stmt_block(v0[0]) == 1 + size_block(b));
            }
            StatementBlock::Block(extract_block(b, acc))
        },
    };
    let rest = extract_stmts(v, acc);
    let mut out = rest;
    out.insert(0, s2);
    out
}

/// Strips a block of its definitions, recursively: the definitions move
/// into the accumulator, themselves stripped.
fn extract_block(b: Block, acc: &mut Vec<Definition>) -> (r: Block)
    decreases size_block(b),
{
    let Block { definitions, statements } = b;
    extract_defs(definitions, acc);
    let stmts2 = extract_stmts(statements, acc);
    Block { definitions: Vec::new(), statements: stmts2 }
}

// ---------------------------------------------------------------------
// Installing definitions under their global names.
// ---------------------------------------------------------------------

pub open spec fn fn_stamped(m: Map<GlobalNameV, FnDef>) -> bool {
    forall|k: GlobalNameV|
        m.contains_key(k) ==> match (#[trigger] m[k]).name.global_resolved {
            Some(g) => g@ == k,
            None => false,
        }
}

pub open spec fn struct_stamped(m: Map<GlobalNameV, StructDef>) -> bool {
    forall|k: GlobalNameV|
        m.contains_key(k) ==> match (#[trigger] m[k]).name.global_resolved {
            Some(g) => g@ == k,
            None => false,
        }
}

pub open spec fn var_stamped(m: Map<GlobalNameV, VarDecl>) -> bool {
    forall|k: GlobalNameV|
        m.contains_key(k) ==> match (#[trigger] m[k]).var_def.name.global_resolved {
            Some(g) => g@ == k,
            None => false,
        }
}

/// The running invariant of the merge: both tables well-formed, the
/// public keys a subset of the private ones, and every stored
/// definition stamped with the global name it is keyed by.
pub open spec fn tables_inv(mm: MergedModule) -> bool {
    &&& mm.private_definitions.wf()
    &&& mm.public_definitions.wf()
    &&& mm.public_definitions.function_definitions@.dom() <= mm.private_definitions.function_definitions@.dom()
    &&& mm.public_definitions.struct_definitions@.dom() <= mm.private_definitions.struct_definitions@.dom()
    &&& mm.public_definitions.global_var_definitions@.dom() <= mm.private_definitions.global_var_definitions@.dom()
    &&& fn_stamped(mm.private_definitions.function_definitions@)
    &&& struct_stamped(mm.private_definitions.struct_definitions@)
    &&& var_stamped(mm.private_definitions.global_var_definitions@)
    &&& fn_stamped(mm.public_definitions.function_definitions@)
    &&& struct_stamped(mm.public_definitions.struct_definitions@)
    &&& var_stamped(mm.public_definitions.global_var_definitions@)
}

/// True when no map of the private table keys `k`.
spec fn key_fresh(mm: MergedModule, k: GlobalNameV) -> bool {
    &&& !mm.private_definitions.function_definitions@.contains_key(k)
    &&& !mm.private_definitions.struct_definitions@.contains_key(k)
    &&& !mm.private_definitions.global_var_definitions@.contains_key(k)
}

/// Installs one definition under `(module path, module-resolved name)`.
/// A public definition also enters the public table, a function without
/// its body, a global variable without its initialiser. A key already
/// present in any map is an internal conflict.
fn install_def(d: Definition, mp: &String, is_public: bool, mm: &mut MergedModule) -> (r: Result<
    (),
    MergeError,
>)
    requires
        tables_inv(*old(mm)),
    ensures
        tables_inv(*final(mm)),
        doms_grow(old(mm).private_definitions, final(mm).private_definitions),
        r is Ok ==> def_installed(d, mp@, final(mm).private_definitions),
{
    match d {
        Definition::FnDef(f) => {
            let FnDef { return_type, mods, name, args, body } = f;
            let Reference { raw, module_resolved, global_resolved: _ } = name;
            let mr = match module_resolved {
                Some(m) => m,
                None => {
                    return Err(MergeError::MissingResolution);
                },
            };
            let key = GlobalName { module: mp.clone(), name: mr.clone() };
            if mm.private_definitions.function_definitions.contains(&key)
                || mm.private_definitions.struct_definitions.contains(&key)
                || mm.private_definitions.global_var_definitions.contains(&key) {
                return Err(MergeError::InternalMergeConflict);
            }
            let stamped = Reference {
                raw,
                module_resolved: Some(mr),
                global_resolved: Some(key.duplicate()),
            };
            if is_public {
                let pub_def = FnDef {
                    return_type: copy_type(&return_type),
                    mods: Vec::new(),
                    name: copy_reference(&stamped),
                    args: copy_args(&args),
                    body: None,
                };
                assert(!mm.public_definitions.function_definitions@.contains_key(key@));
                assert(!mm.public_definitions.struct_definitions@.contains_key(key@));
                assert(!mm.public_definitions.global_var_definitions@.contains_key(key@));
                mm.public_definitions.function_definitions.insert(key.duplicate(), pub_def);
            }
            mm.private_definitions.function_definitions.insert(
                key,
                FnDef { return_type, mods, name: stamped, args, body },
            );
            Ok(())
        },
        Definition::StructDef(s) => {
            let StructDef { mods, name, fields } = s;
            let Reference { raw, module_resolved, global_resolved: _ } = name;
            let mr = match module_resolved {
                Some(m) => m,
                None => {
                    return Err(MergeError::MissingResolution);
                },
            };
            let key = GlobalName { module: mp.clone(), name: mr.clone() };
            if mm.private_definitions.function_definitions.contains(&key)
                || mm.private_definitions.struct_definitions.contains(&key)
                || mm.private_definitions.global_var_definitions.contains(&key) {
                return Err(MergeError::InternalMergeConflict);
            }
            let stamped = Reference {
                raw,
                module_resolved: Some(mr),
                global_resolved: Some(key.duplicate()),
            };
            if is_public {
                let pub_def = StructDef {
                    mods: Vec::new(),
                    name: copy_reference(&stamped),
                    fields: copy_fields(&fields),
                };
                assert(!mm.public_definitions.function_definitions@.contains_key(key@));
                assert(!mm.public_definitions.struct_definitions@.contains_key(key@));
                assert(!mm.public_definitions.global_var_definitions@.contains_key(key@));
                mm.public_definitions.struct_definitions.insert(key.duplicate(), pub_def);
            }
            mm.private_definitions.struct_definitions.insert(
                key,
                StructDef { mods, name: stamped, fields },
            );
            Ok(())
        },
        Definition::VarDecl(v) => {
            let VarDecl { var_def, expr } = v;
            let VarDef { mods, name, type_ } = var_def;
            let Reference { raw, module_resolved, global_resolved: _ } = name;
            let mr = match module_resolved {
                Some(m) => m,
                None => {
                    return Err(MergeError::MissingResolution);
                },
            };
            let key = GlobalName { module: mp.clone(), name: mr.clone() };
            if mm.private_definitions.function_definitions.contains(&key)
                || mm.private_definitions.struct_definitions.contains(&key)
                || mm.private_definitions.global_var_definitions.contains(&key) {
                return Err(MergeError::InternalMergeConflict);
            }
            let stamped = Reference {
                raw,
                module_resolved: Some(mr),
                global_resolved: Some(key.duplicate()),
            };
            if is_public {
                let pub_def = VarDecl {
                    var_def: VarDef {
                        mods: copy_var_mods(&mods),
                        name: copy_reference(&stamped),
                        type_: copy_type(&type_),
                    },
                    expr: None,
                };
                assert(!mm.public_definitions.function_definitions@.contains_key(key@));
                assert(!mm.public_definitions.struct_definitions@.contains_key(key@));
                assert(!mm.public_definitions.global_var_definitions@.contains_key(key@));
                mm.public_definitions.global_var_definitions.insert(key.duplicate(), pub_def);
            }
            mm.private_definitions.global_var_definitions.insert(
                key,
                VarDecl { var_def: VarDef { mods, name: stamped, type_ }, expr },
            );
            Ok(())
        },
    }
}

fn copy_fields(v: &Vec<(String, Type)>) -> (c: Vec<(String, Type)>)
    ensures
        c@.len() == v@.len(),
        forall|i: int|
            0 <= i < v@.len() ==> (#[trigger] c@[i]).0 == v@[i].0 && c@[i].1 == v@[i].1,
{
    let mut out: Vec<(String, Type)> = Vec::new();
    let n = v.len();
    let mut i: usize = 0;
    while i < n
        invariant
            i <= n,
            n == v@.len(),
            out@.len() == i,
            forall|j: int| 0 <= j < i ==> (#[trigger] out@[j]).0 == v@[j].0 && out@[j].1 == v@[j].1,
        decreases n - i,
    {
        out.push((v[i].0.clone(), copy_type(&v[i].1)));
        i += 1;
    }
    out
}

fn install_defs(v: Vec<Definition>, mp: &String, is_public: bool, mm: &mut MergedModule) -> (r:
    Result<(), MergeError>)
    requires
        tables_inv(*old(mm)),
    ensures
        tables_inv(*final(mm)),
        doms_grow(old(mm).private_definitions, final(mm).private_definitions),
        r is Ok ==> forall|i: int|
            0 <= i < v@.len() ==> def_installed(
                #[trigger] v@[i],
                mp@,
                final(mm).private_definitions,
            ),
    decreases v@.len(),
{
    let ghost v0 = v@;
    let mut v = v;
    if v.len() == 0 {
        return Ok(());
    }
    let d = v.remove(0);
    assert(d == v0[0] && v@ == v0.drop_first());
    install_def(d, mp, is_public, mm)?;
    let ghost mid = *mm;
    let r = install_defs(v, mp, is_public, mm);
    proof {
        if r is Ok {
            assert forall|i: int| 0 <= i < v0.len() implies def_installed(
                #[trigger] v0[i],
                mp@,
                final(mm).private_definitions,
            ) by {
                if i > 0 {
                    assert(v0.drop_first()[i - 1] == v0[i]);
                } else {
                    assert(def_installed(v0[0], mp@, mid.private_definitions));
                    lemma_installed_grows(
                        v0[0],
                        mp@,
                        mid.private_definitions,
                        final(mm).private_definitions,
                    );
                }
            }
        }
    }
    r
}

/// Hoists one module: all of its definitions, nested ones included,
/// move into the tables; its statements are dismantled.
/// Every top-level definition of the module — public or of its block —
/// is keyed in the table under the module's path and its own
/// module-resolved name.
pub open spec fn module_installed(m: Module, mp: Seq<char>, t: DefinitionTable) -> bool {
    &&& forall|i: int|
        0 <= i < m.public_definitions@.len() ==> def_installed(
            #[trigger] m.public_definitions@[i],
            mp,
            t,
        )
    &&& forall|i: int|
        0 <= i < m.block.definitions@.len() ==> def_installed(
            #[trigger] m.block.definitions@[i],
            mp,
            t,
        )
}

proof fn lemma_installed_grows(d: Definition, mp: Seq<char>, t0: DefinitionTable, t1: DefinitionTable)
    requires
        def_installed(d, mp, t0),
        doms_grow(t0, t1),
    ensures
        def_installed(d, mp, t1),
{
    match d {
        Definition::FnDef(f) => match f.name.module_resolved {
            Some(mr) => {
                let k = GlobalNameV { module: mp, name: mr@ };
                assert(t1.function_definitions@[k] == t0.function_definitions@[k]);
            },
            None => {},
        },
        Definition::StructDef(sd) => match sd.name.module_resolved {
            Some(mr) => {
                let k = GlobalNameV { module: mp, name: mr@ };
                assert(t1.struct_definitions@[k] == t0.struct_definitions@[k]);
            },
            None => {},
        },
        Definition::VarDecl(v) => match v.var_def.name.module_resolved {
            Some(mr) => {
                let k = GlobalNameV { module: mp, name: mr@ };
                assert(t1.global_var_definitions@[k] == t0.global_var_definitions@[k]);
            },
            None => {},
        },
    }
}

/// Linking keeps every definition installed: keys are unchanged, and
/// the relinked entries keep their names and their bodies' presence.
proof fn lemma_installed_linked(
    d: Definition,
    mp: Seq<char>,
    t0: DefinitionTable,
    t1: DefinitionTable,
)
    requires
        def_installed(d, mp, t0),
        t1.function_definitions@.dom() == t0.function_definitions@.dom(),
        t1.struct_definitions@.dom() == t0.struct_definitions@.dom(),
        t1.global_var_definitions@.dom() == t0.global_var_definitions@.dom(),
        forall|k: GlobalNameV|
            t1.function_definitions@.contains_key(k) ==> (
            #[trigger] t1.function_definitions@[k]).name == t0.function_definitions@[k].name && (
            t1.function_definitions@[k].body is Some <==> t0.function_definitions@[k].body is Some),
        forall|k: GlobalNameV|
            t1.struct_definitions@.contains_key(k) ==> (#[trigger] t1.struct_definitions@[k]).name
                == t0.struct_definitions@[k].name,
        forall|k: GlobalNameV|
            t1.global_var_definitions@.contains_key(k) ==> (
            #[trigger] t1.global_var_definitions@[k]).var_def.name
                == t0.global_var_definitions@[k].var_def.name && (
            t1.global_var_definitions@[k].expr is Some
                <==> t0.global_var_definitions@[k].expr is Some),
    ensures
        def_installed(d, mp, t1),
{
    match d {
        Definition::FnDef(f) => match f.name.module_resolved {
            Some(mr) => {
                let k = GlobalNameV { module: mp, name: mr@ };
                assert(t1.function_definitions@.contains_key(k));
            },
            None => {},
        },
        Definition::StructDef(sd) => match sd.name.module_resolved {
            Some(mr) => {
                let k = GlobalNameV { module: mp, name: mr@ };
                assert(t1.struct_definitions@.contains_key(k));
            },
            None => {},
        },
        Definition::VarDecl(v) => match v.var_def.name.module_resolved {
            Some(mr) => {
                let k = GlobalNameV { module: mp, name: mr@ };
                assert(t1.global_var_definitions@.contains_key(k));
            },
            None => {},
        },
    }
}

fn hoist_module(m: Module, mp: &String, mm: &mut MergedModule) -> (r: Result<(), MergeError>)
    requires
        tables_inv(*old(mm)),
    ensures
        tables_inv(*final(mm)),
        doms_grow(old(mm).private_definitions, final(mm).private_definitions),
        r is Ok ==> module_installed(m, mp@, final(mm).private_definitions),
{
    let Module { mods: _, uses: _, public_definitions, block } = m;
    let ghost pubs0 = public_definitions@;
    let mut acc: Vec<Definition> = Vec::new();
    let mut pub_out: Vec<Definition> = Vec::new();
    let mut pubs = public_definitions;
    while pubs.len() > 0
        invariant
            pub_out@.len() + pubs@.len() == pubs0.len(),
            pubs@ == pubs0.subrange(pub_out@.len() as int, pubs0.len() as int),
            forall|i: int|
                0 <= i < pub_out@.len() ==> crate::resolver::def_mr(#[trigger] pub_out@[i])
                    == crate::resolver::def_mr(pubs0[i]) && crate::resolver::def_raw(pub_out@[i])
                    == crate::resolver::def_raw(pubs0[i]) && (match (pub_out@[i], pubs0[i]) {
                    (Definition::FnDef(f2), Definition::FnDef(f1)) => f2.body is Some
                        <==> f1.body is Some,
                    (Definition::StructDef(s2), Definition::StructDef(s1)) => true,
                    (Definition::VarDecl(v2), Definition::VarDecl(v1)) => v2.expr == v1.expr,
                    _ => false,
                }),
        decreases pubs@.len(),
    {
        let ghost k = pub_out@.len() as int;
        let d = pubs.remove(0);
        assert(d == pubs0[k]);
        let d2 = extract_def(d, &mut acc);
        pub_out.push(d2);
        proof {
            assert(pubs@ =~= pubs0.subrange(k + 1, pubs0.len() as int));
        }
    }
    install_defs(pub_out, mp, true, mm)?;
    let ghost mm_p = *mm;
    let Block { definitions, statements } = block;
    let ghost defs0 = definitions@;
    let mut priv_out: Vec<Definition> = Vec::new();
    let mut defs = definitions;
    while defs.len() > 0
        invariant
            priv_out@.len() + defs@.len() == defs0.len(),
            defs@ == defs0.subrange(priv_out@.len() as int, defs0.len() as int),
            forall|i: int|
                0 <= i < priv_out@.len() ==> crate::resolver::def_mr(#[trigger] priv_out@[i])
                    == crate::resolver::def_mr(defs0[i]) && crate::resolver::def_raw(priv_out@[i])
                    == crate::resolver::def_raw(defs0[i]) && (match (priv_out@[i], defs0[i]) {
                    (Definition::FnDef(f2), Definition::FnDef(f1)) => f2.body is Some
                        <==> f1.body is Some,
                    (Definition::StructDef(s2), Definition::StructDef(s1)) => true,
                    (Definition::VarDecl(v2), Definition::VarDecl(v1)) => v2.expr == v1.expr,
                    _ => false,
                }),
            *mm == mm_p,
        decreases defs@.len(),
    {
        let ghost k = priv_out@.len() as int;
        let d = defs.remove(0);
        assert(d == defs0[k]);
        let d2 = extract_def(d, &mut acc);
        priv_out.push(d2);
        proof {
            assert(defs@ =~= defs0.subrange(k + 1, defs0.len() as int));
        }
    }
    install_defs(priv_out, mp, false, mm)?;
    let ghost mm_d = *mm;
    let _ = extract_stmts(statements, &mut acc);
    let r = install_defs(acc, mp, false, mm);
    proof {
        if r is Ok {
            assert forall|i: int| 0 <= i < pubs0.len() implies def_installed(
                #[trigger] pubs0[i],
                mp@,
                final(mm).private_definitions,
            ) by {
                assert(def_installed(pub_out@[i], mp@, mm_p.private_definitions));
                assert(def_installed(pubs0[i], mp@, mm_p.private_definitions));
                lemma_installed_grows(
                    pubs0[i],
                    mp@,
                    mm_p.private_definitions,
                    mm_d.private_definitions,
                );
                lemma_installed_grows(
                    pubs0[i],
                    mp@,
                    mm_d.private_definitions,
                    final(mm).private_definitions,
                );
            }
            assert forall|i: int| 0 <= i < defs0.len() implies def_installed(
                #[trigger] defs0[i],
                mp@,
                final(mm).private_definitions,
            ) by {
                assert(def_installed(priv_out@[i], mp@, mm_d.private_definitions));
                assert(def_installed(defs0[i], mp@, mm_d.private_definitions));
                lemma_installed_grows(
                    defs0[i],
                    mp@,
                    mm_d.private_definitions,
                    final(mm).private_definitions,
                );
            }
        }
    }
    r
}

// ---------------------------------------------------------------------
// Linking: every reference inside the stored definitions receives its
// global name.
// ---------------------------------------------------------------------

/// The resolvedness mode of a fully merged table: every local function
/// or struct reference is keyed in it.
pub open spec fn mg_of(privs: DefinitionTable) -> crate::ast::ResMode {
    crate::ast::mode_global(
        privs.function_definitions@.dom(),
        privs.struct_definitions@.dom(),
    )
}

fn module_is_local(s: &String) -> (b: bool)
    ensures
        b == is_local_module(s@),
{
    if s.as_str().unicode_len() == 0 {
        false
    } else {
        s.as_str().get_char(0) == '/'
    }
}

/// How linking fills a reference: the raw name is kept; a name the
/// module imports receives the import's target; any other name receives
/// the pair of the module's own path and the module-resolved name.
pub open spec fn linked_name_of(
    r2: crate::ast::Reference,
    r: crate::ast::Reference,
    mp: Seq<char>,
    uses: Seq<UseEntry>,
) -> bool {
    &&& r2.raw == r.raw
    &&& r2.module_resolved == r.module_resolved
    &&& match r.module_resolved {
        Some(mr) => match r2.global_resolved {
            Some(g) => g@ == (match find_use_spec(uses, mr@) {
                Some(e) => e.target@,
                None => crate::names::GlobalNameV { module: mp, name: mr@ },
            }),
            None => false,
        },
        None => false,
    }
}

/// Links a function-call reference: a name brought in by `use` receives
/// the import's target, checked against the public table when local;
/// any other name receives `(module path, module-resolved name)`,
/// checked against the private table.
fn link_call_name(
    r: &Reference,
    mp: &String,
    uses: &Vec<UseEntry>,
    pubs: &DefinitionTable,
    privs: &DefinitionTable,
) -> (res: Result<Reference, MergeError>)
    requires
        pubs.wf(),
        privs.wf(),
        pubs.function_definitions@.dom() <= privs.function_definitions@.dom(),
    ensures
        match res {
            Ok(r2) => crate::ast::target_ok(
                r2,
                privs.function_definitions@.dom(),
                mg_of(*privs),
            ) && linked_name_of(r2, *r, mp@, uses@),
            Err(_) => true,
        },
{
    let mr = match &r.module_resolved {
        Some(m) => m,
        None => {
            return Err(MergeError::MissingResolution);
        },
    };
    match find_use(uses, mr) {
        Some(target) => {
            if module_is_local(&target.module) {
                if !pubs.function_definitions.contains(&target) {
                    return Err(MergeError::UnresolvedImport(target.module, r.raw.clone()));
                }
            }
            Ok(
                Reference {
                    raw: r.raw.clone(),
                    module_resolved: Some(mr.clone()),
                    global_resolved: Some(target),
                },
            )
        },
        None => {
            let cand = GlobalName { module: mp.clone(), name: mr.clone() };
            if module_is_local(&cand.module) {
                if !privs.function_definitions.contains(&cand) {
                    return Err(MergeError::UnresolvedReference(r.raw.clone()));
                }
            }
            Ok(
                Reference {
                    raw: r.raw.clone(),
                    module_resolved: Some(mr.clone()),
                    global_resolved: Some(cand),
                },
            )
        },
    }
}

/// Links a struct-type reference, checked against the struct maps.
fn link_struct_name(
    r: &Reference,
    mp: &String,
    uses: &Vec<UseEntry>,
    pubs: &DefinitionTable,
    privs: &DefinitionTable,
) -> (res: Result<Reference, MergeError>)
    requires
        pubs.wf(),
        privs.wf(),
        pubs.struct_definitions@.dom() <= privs.struct_definitions@.dom(),
    ensures
        match res {
            Ok(r2) => crate::ast::target_ok(r2, privs.struct_definitions@.dom(), mg_of(*privs))
                && linked_name_of(r2, *r, mp@, uses@),
            Err(_) => true,
        },
{
    let mr = match &r.module_resolved {
        Some(m) => m,
        None => {
            return Err(MergeError::MissingResolution);
        },
    };
    match find_use(uses, mr) {
        Some(target) => {
            if module_is_local(&target.module) {
                if !pubs.struct_definitions.contains(&target) {
                    return Err(MergeError::UnresolvedImport(target.module, r.raw.clone()));
                }
            }
            Ok(
                Reference {
                    raw: r.raw.clone(),
                    module_resolved: Some(mr.clone()),
                    global_resolved: Some(target),
                },
            )
        },
        None => {
            let cand = GlobalName { module: mp.clone(), name: mr.clone() };
            if module_is_local(&cand.module) {
                if !privs.struct_definitions.contains(&cand) {
                    return Err(MergeError::UnresolvedReference(r.raw.clone()));
                }
            }
            Ok(
                Reference {
                    raw: r.raw.clone(),
                    module_resolved: Some(mr.clone()),
                    global_resolved: Some(cand),
                },
            )
        },
    }
}

/// Links a variable reference. A variable may be a local of a function
/// body, so no table holds it and nothing is checked here.
fn link_var_name(r: &Reference, mp: &String, uses: &Vec<UseEntry>) -> (res: Result<
    Reference,
    MergeError,
>)
    ensures
        match res {
            Ok(r2) => crate::ast::ref_ok(r2, crate::ast::mode_global(Set::empty(), Set::empty()))
                && linked_name_of(r2, *r, mp@, uses@),
            Err(_) => true,
        },
{
    let mr = match &r.module_resolved {
        Some(m) => m,
        None => {
            return Err(MergeError::MissingResolution);
        },
    };
    let target = match find_use(uses, mr) {
        Some(t) => t,
        None => GlobalName { module: mp.clone(), name: mr.clone() },
    };
    Ok(
        Reference {
            raw: r.raw.clone(),
            module_resolved: Some(mr.clone()),
            global_resolved: Some(target),
        },
    )
}

fn link_type(
    t: &Type,
    mp: &String,
    uses: &Vec<UseEntry>,
    pubs: &DefinitionTable,
    privs: &DefinitionTable,
) -> (res: Result<Type, MergeError>)
    requires
        pubs.wf(),
        privs.wf(),
        pubs.struct_definitions@.dom() <= privs.struct_definitions@.dom(),
    ensures
        match res {
            Ok(t2) => crate::ast::refs_type(t2, mg_of(*privs)),
            Err(_) => true,
        },
{
    match t {
        Type::Struct(r) => Ok(Type::Struct(link_struct_name(r, mp, uses, pubs, privs)?)),
        _ => Ok(copy_type(t)),
    }
}

/// The preconditions every linking walk carries: both tables
/// well-formed, public keys among the private ones.
pub open spec fn lreq(pubs: DefinitionTable, privs: DefinitionTable) -> bool {
    &&& pubs.wf()
    &&& privs.wf()
    &&& pubs.function_definitions@.dom() <= privs.function_definitions@.dom()
    &&& pubs.struct_definitions@.dom() <= privs.struct_definitions@.dom()
}

fn link_expr(
    e: &Expression,
    mp: &String,
    uses: &Vec<UseEntry>,
    pubs: &DefinitionTable,
    privs: &DefinitionTable,
) -> (res: Result<Expression, MergeError>)
    requires
        lreq(*pubs, *privs),
    ensures
        res matches Ok(e2) ==> crate::ast::refs_expr(e2, mg_of(*privs)),
    decreases crate::ast::size_expr(*e),
{
    let type2 = match &e.type_ {
        Some(t) => Some(copy_type(t)),
        None => None,
    };
    match &e.expr {
        ExpressionEnum::AtomicExpression(a) => {
            let a2 = link_atomic(a, mp, uses, pubs, privs)?;
            Ok(Expression { expr: ExpressionEnum::AtomicExpression(a2), type_: type2 })
        },
        ExpressionEnum::Unary(op, b) => {
            let b2 = link_expr(b, mp, uses, pubs, privs)?;
            Ok(Expression { expr: ExpressionEnum::Unary(*op, Box::new(b2)), type_: type2 })
        },
        ExpressionEnum::Binary(b1, op, b2) => {
            let c1 = link_expr(b1, mp, uses, pubs, privs)?;
            let c2 = link_expr(b2, mp, uses, pubs, privs)?;
            Ok(
                Expression {
                    expr: ExpressionEnum::Binary(Box::new(c1), *op, Box::new(c2)),
                    type_: type2,
                },
            )
        },
    }
}

fn link_atomic(
    a: &AtomicExpression,
    mp: &String,
    uses: &Vec<UseEntry>,
    pubs: &DefinitionTable,
    privs: &DefinitionTable,
) -> (res: Result<AtomicExpression, MergeError>)
    requires
        lreq(*pubs, *privs),
    ensures
        res matches Ok(a2) ==> crate::ast::refs_atomic(a2, mg_of(*privs)),
    decreases crate::ast::size_atomic(*a),
{
    match a {
        AtomicExpression::Literal(l) => Ok(
            AtomicExpression::Literal(link_literal(l, mp, uses, pubs, privs)?),
        ),
        AtomicExpression::Variable(np) => {
            let name2 = link_var_name(&np.name, mp, uses)?;
            Ok(AtomicExpression::Variable(NamePath { name: name2, path: np.path.clone() }))
        },
        AtomicExpression::FnCall(f) => {
            let f2 = link_fn_call(f, mp, uses, pubs, privs)?;
            Ok(AtomicExpression::FnCall(Box::new(f2)))
        },
        AtomicExpression::StructInit(s) => {
            let t2 = link_struct_name(&s.type_, mp, uses, pubs, privs)?;
            assert(s.compound@.subrange(0, s.compound@.len() as int) =~= s.compound@);
            let c2 = link_compound(&s.compound, 0, mp, uses, pubs, privs)?;
            Ok(AtomicExpression::StructInit(Box::new(StructInit { type_: t2, compound: c2 })))
        },
    }
}

fn link_literal(
    l: &LiteralValue,
    mp: &String,
    uses: &Vec<UseEntry>,
    pubs: &DefinitionTable,
    privs: &DefinitionTable,
) -> (res: Result<LiteralValue, MergeError>)
    requires
        lreq(*pubs, *privs),
    ensures
        res matches Ok(l2) ==> crate::ast::refs_literal(l2, mg_of(*privs)),
    decreases crate::ast::size_literal(*l),
{
    match l {
        LiteralValue::Null => Ok(LiteralValue::Null),
        LiteralValue::Bool(b) => Ok(LiteralValue::Bool(*b)),
        LiteralValue::Int(i) => Ok(LiteralValue::Int(*i)),
        LiteralValue::Decimal(s) => Ok(LiteralValue::Decimal(s.clone())),
        LiteralValue::String(s) => Ok(LiteralValue::String(s.clone())),
        LiteralValue::Compound(c) => {
            assert(c@.subrange(0, c@.len() as int) =~= c@);
            Ok(LiteralValue::Compound(link_compound(c, 0, mp, uses, pubs, privs)?))
        },
    }
}

fn link_compound(
    v: &Vec<(String, CompoundValue)>,
    i: usize,
    mp: &String,
    uses: &Vec<UseEntry>,
    pubs: &DefinitionTable,
    privs: &DefinitionTable,
) -> (res: Result<Vec<(String, CompoundValue)>, MergeError>)
    requires
        lreq(*pubs, *privs),
        i <= v@.len(),
    ensures
        res matches Ok(out) ==> crate::ast::refs_compound(out@, mg_of(*privs)),
    decreases crate::ast::size_compound(v@.subrange(i as int, v@.len() as int)),
{
    let ghost tail = v@.subrange(i as int, v@.len() as int);
    if i == v.len() {
        let out: Vec<(String, CompoundValue)> = Vec::new();
        return Ok(out);
    }
    assert(tail[0] == v@[i as int]);
    let k = v[i].0.clone();
    let val2 = match &v[i].1 {
        CompoundValue::Expression(e) => {
            proof {
                assert(crate::ast::size_compound_value(tail[0].1) == 1 + crate::ast::size_expr(
                    **e,
                ));
            }
            CompoundValue::Expression(Box::new(link_expr(e, mp, uses, pubs, privs)?))
        },
        CompoundValue::Compound(c) => {
            proof {
                assert(crate::ast::size_compound_value(tail[0].1) == 1
                    + crate::ast::size_compound(c@));
                assert(c@.subrange(0, c@.len() as int) =~= c@);
            }
            CompoundValue::Compound(Box::new(link_compound(c, 0, mp, uses, pubs, privs)?))
        },
    };
    assert(crate::ast::refs_compound_value(val2, mg_of(*privs)));
    proof {
        assert(tail.drop_first() =~= v@.subrange(i + 1, v@.len() as int));
    }
    let rest = link_compound(v, i + 1, mp, uses, pubs, privs)?;
    let ghost rest0 = rest@;
    let mut out = rest;
    out.insert(0, (k, val2));
    assert(out@[0].1 == val2);
    assert(out@.drop_first() =~= rest0);
    assert(crate::ast::refs_compound(out@, mg_of(*privs)));
    Ok(out)
}

fn link_exprs(
    v: &Vec<Expression>,
    i: usize,
    mp: &String,
    uses: &Vec<UseEntry>,
    pubs: &DefinitionTable,
    privs: &DefinitionTable,
) -> (res: Result<Vec<Expression>, MergeError>)
    requires
        lreq(*pubs, *privs),
        i <= v@.len(),
    ensures
        res matches Ok(out) ==> crate::ast::refs_exprs(out@, mg_of(*privs)),
    decreases crate::ast::size_exprs(v@.subrange(i as int, v@.len() as int)),
{
    let ghost tail = v@.subrange(i as int, v@.len() as int);
    if i == v.len() {
        let out: Vec<Expression> = Vec::new();
        return Ok(out);
    }
    assert(tail[0] == v@[i as int]);
    let e2 = link_expr(&v[i], mp, uses, pubs, privs)?;
    proof {
        assert(tail.drop_first() =~= v@.subrange(i + 1, v@.len() as int));
    }
    let rest = link_exprs(v, i + 1, mp, uses, pubs, privs)?;
    let ghost rest0 = rest@;
    let mut out = rest;
    out.insert(0, e2);
    assert(out@[0] == e2);
    assert(out@.drop_first() =~= rest0);
    Ok(out)
}

fn link_fn_call(
    f: &FnCall,
    mp: &String,
    uses: &Vec<UseEntry>,
    pubs: &DefinitionTable,
    privs: &DefinitionTable,
) -> (res: Result<FnCall, MergeError>)
    requires
        lreq(*pubs, *privs),
    ensures
        res matches Ok(f2) ==> crate::ast::target_ok(
            f2.name,
            privs.function_definitions@.dom(),
            mg_of(*privs),
        ) && crate::ast::refs_exprs(f2.args@, mg_of(*privs)),
    decreases 1 + crate::ast::size_exprs(f.args@),
{
    let name2 = link_call_name(&f.name, mp, uses, pubs, privs)?;
    assert(f.args@.subrange(0, f.args@.len() as int) =~= f.args@);
    let args2 = link_exprs(&f.args, 0, mp, uses, pubs, privs)?;
    Ok(FnCall { name: name2, args: args2 })
}

fn link_var_def(
    d: &VarDef,
    mp: &String,
    uses: &Vec<UseEntry>,
    pubs: &DefinitionTable,
    privs: &DefinitionTable,
) -> (res: Result<VarDef, MergeError>)
    requires
        lreq(*pubs, *privs),
    ensures
        res matches Ok(d2) ==> crate::ast::refs_var_def(d2, mg_of(*privs)),
{
    let name2 = link_var_name(&d.name, mp, uses)?;
    let t2 = link_type(&d.type_, mp, uses, pubs, privs)?;
    Ok(VarDef { mods: copy_var_mods(&d.mods), name: name2, type_: t2 })
}

fn link_var_decl(
    d: &VarDecl,
    mp: &String,
    uses: &Vec<UseEntry>,
    pubs: &DefinitionTable,
    privs: &DefinitionTable,
) -> (res: Result<VarDecl, MergeError>)
    requires
        lreq(*pubs, *privs),
    ensures
        res matches Ok(d2) ==> crate::ast::refs_var_decl(d2, mg_of(*privs)),
    decreases crate::ast::size_var_decl(*d),
{
    let def2 = link_var_def(&d.var_def, mp, uses, pubs, privs)?;
    let expr2 = match &d.expr {
        Some(e) => Some(Box::new(link_expr(e, mp, uses, pubs, privs)?)),
        None => None,
    };
    Ok(VarDecl { var_def: def2, expr: expr2 })
}

fn link_if(
    i: &If,
    mp: &String,
    uses: &Vec<UseEntry>,
    pubs: &DefinitionTable,
    privs: &DefinitionTable,
) -> (res: Result<If, MergeError>)
    requires
        lreq(*pubs, *privs),
    ensures
        res matches Ok(i2) ==> crate::ast::refs_if(i2, mg_of(*privs)),
    decreases crate::ast::size_if(*i),
{
    let cond2 = link_expr(&i.cond, mp, uses, pubs, privs)?;
    let body2 = link_block(&i.body, mp, uses, pubs, privs)?;
    let else2 = match &i.else_ {
        Some(e) => Some(Box::new(link_if(e, mp, uses, pubs, privs)?)),
        None => None,
    };
    Ok(If { cond: Box::new(cond2), body: Box::new(body2), else_: else2 })
}

fn link_stmt(
    s: &Statement,
    mp: &String,
    uses: &Vec<UseEntry>,
    pubs: &DefinitionTable,
    privs: &DefinitionTable,
) -> (res: Result<Statement, MergeError>)
    requires
        lreq(*pubs, *privs),
    ensures
        res matches Ok(s2) ==> crate::ast::refs_stmt(s2, mg_of(*privs)),
    decreases crate::ast::size_stmt(*s),
{
    match s {
        Statement::VarDecl(d) => Ok(Statement::VarDecl(link_var_decl(d, mp, uses, pubs, privs)?)),
        Statement::VarAssign(a) => {
            let name2 = link_var_name(&a.name_path.name, mp, uses)?;
            let e2 = link_expr(&a.expr, mp, uses, pubs, privs)?;
            Ok(
                Statement::VarAssign(
                    VarAssign {
                        name_path: NamePath { name: name2, path: a.name_path.path.clone() },
                        expr: Box::new(e2),
                    },
                ),
            )
        },
        Statement::If(i) => Ok(Statement::If(link_if(i, mp, uses, pubs, privs)?)),
        Statement::While(w) => {
            let cond2 = link_expr(&w.cond, mp, uses, pubs, privs)?;
            let body2 = link_block(&w.body, mp, uses, pubs, privs)?;
            Ok(Statement::While(While { cond: Box::new(cond2), body: Box::new(body2) }))
        },
        Statement::For(f) => {
            let init2 = match &f.init {
                Some(i) => Some(Box::new(link_stmt(i, mp, uses, pubs, privs)?)),
                None => None,
            };
            let cond2 = match &f.cond {
                Some(c) => Some(Box::new(link_expr(c, mp, uses, pubs, privs)?)),
                None => None,
            };
            let step2 = match &f.step {
                Some(p) => Some(Box::new(link_stmt(p, mp, uses, pubs, privs)?)),
                None => None,
            };
            let body2 = link_block(&f.body, mp, uses, pubs, privs)?;
            Ok(Statement::For(For { init: init2, cond: cond2, step: step2, body: body2 }))
        },
        Statement::Return(e) => Ok(
            Statement::Return(Box::new(link_expr(e, mp, uses, pubs, privs)?)),
        ),
        Statement::Break => Ok(Statement::Break),
        Statement::Continue => Ok(Statement::Continue),
        Statement::Expression(e) => Ok(
            Statement::Expression(Box::new(link_expr(e, mp, uses, pubs, privs)?)),
        ),
    }
}

fn link_stmts(
    v: &Vec<StatementBlock>,
    i: usize,
    mp: &String,
    uses: &Vec<UseEntry>,
    pubs: &DefinitionTable,
    privs: &DefinitionTable,
) -> (res: Result<Vec<StatementBlock>, MergeError>)
    requires
        lreq(*pubs, *privs),
        i <= v@.len(),
    ensures
        res matches Ok(out) ==> crate::ast::refs_stmts(out@, mg_of(*privs)),
    decreases crate::ast::size_stmts(v@.subrange(i as int, v@.len() as int)),
{
    let ghost tail = v@.subrange(i as int, v@.len() as int);
    if i == v.len() {
        let out: Vec<StatementBlock> = Vec::new();
        return Ok(out);
    }
    assert(tail[0] == v@[i as int]);
    let s2 = match &v[i] {
        StatementBlock::Statement(st) => {
            proof {
                assert(crate::ast::size_stmt_block(tail[0]) == 1 + crate::ast::size_stmt(*st));
            }
            StatementBlock::Statement(link_stmt(st, mp, uses, pubs, privs)?)
        },
        StatementBlock::Block(b) => {
            proof {
                assert(crate::ast::size_stmt_block(tail[0]) == 1 + crate::ast::size_block(*b));
            }
            StatementBlock::Block(link_block(b, mp, uses, pubs, privs)?)
        },
    };
    assert(crate::ast::refs_stmt_block(s2, mg_of(*privs)));
    proof {
        assert(tail.drop_first() =~= v@.subrange(i + 1, v@.len() as int));
    }
    let rest = link_stmts(v, i + 1, mp, uses, pubs, privs)?;
    let ghost rest0 = rest@;
    let mut out = rest;
    out.insert(0, s2);
    assert(out@[0] == s2);
    assert(out@.drop_first() =~= rest0);
    assert(crate::ast::refs_stmts(out@, mg_of(*privs)));
    Ok(out)
}

/// Links a block. Hoisting has emptied every block's definition list,
/// so only statements remain to walk.
fn link_block(
    b: &Block,
    mp: &String,
    uses: &Vec<UseEntry>,
    pubs: &DefinitionTable,
    privs: &DefinitionTable,
) -> (res: Result<Block, MergeError>)
    requires
        lreq(*pubs, *privs),
    ensures
        res matches Ok(b2) ==> crate::ast::refs_block(b2, mg_of(*privs)),
    decreases crate::ast::size_block(*b),
{
    if b.definitions.len() != 0 {
        return Err(MergeError::InternalMergeConflict);
    }
    assert(b.statements@.subrange(0, b.statements@.len() as int) =~= b.statements@);
    let stmts2 = link_stmts(&b.statements, 0, mp, uses, pubs, privs)?;
    let out = Block { definitions: Vec::new(), statements: stmts2 };
    assert(crate::ast::refs_defs(out.definitions@, mg_of(*privs)));
    Ok(out)
}

fn link_args(
    v: &Vec<VarDef>,
    i: usize,
    mp: &String,
    uses: &Vec<UseEntry>,
    pubs: &DefinitionTable,
    privs: &DefinitionTable,
) -> (res: Result<Vec<VarDef>, MergeError>)
    requires
        lreq(*pubs, *privs),
        i <= v@.len(),
    ensures
        res matches Ok(out) ==> crate::ast::refs_args(out@, mg_of(*privs)),
    decreases v@.len() - i,
{
    if i == v.len() {
        let out: Vec<VarDef> = Vec::new();
        return Ok(out);
    }
    let d2 = link_var_def(&v[i], mp, uses, pubs, privs)?;
    let rest = link_args(v, i + 1, mp, uses, pubs, privs)?;
    let ghost rest0 = rest@;
    let mut out = rest;
    out.insert(0, d2);
    assert(out@[0] == d2);
    assert(out@.drop_first() =~= rest0);
    assert forall|j: int| 0 <= j < out@.len() implies crate::ast::refs_var_def(
        #[trigger] out@[j],
        mg_of(*privs),
    ) by {
        if j > 0 {
            assert(out@[j] == rest0[j - 1]);
        }
    }
    Ok(out)
}

fn link_fields(
    v: &Vec<(String, Type)>,
    i: usize,
    mp: &String,
    uses: &Vec<UseEntry>,
    pubs: &DefinitionTable,
    privs: &DefinitionTable,
) -> (res: Result<Vec<(String, Type)>, MergeError>)
    requires
        lreq(*pubs, *privs),
        i <= v@.len(),
    ensures
        res matches Ok(out) ==> crate::ast::refs_struct_fields(out@, mg_of(*privs)),
    decreases v@.len() - i,
{
    if i == v.len() {
        let out: Vec<(String, Type)> = Vec::new();
        return Ok(out);
    }
    let t2 = link_type(&v[i].1, mp, uses, pubs, privs)?;
    let k = v[i].0.clone();
    let rest = link_fields(v, i + 1, mp, uses, pubs, privs)?;
    let ghost rest0 = rest@;
    let mut out = rest;
    out.insert(0, (k, t2));
    assert(out@[0].1 == t2);
    assert(out@.drop_first() =~= rest0);
    assert forall|j: int| 0 <= j < out@.len() implies crate::ast::refs_type(
        (#[trigger] out@[j]).1,
        mg_of(*privs),
    ) by {
        if j > 0 {
            assert(out@[j] == rest0[j - 1]);
        }
    }
    Ok(out)
}

fn link_fn_def(
    f: &FnDef,
    mp: &String,
    uses: &Vec<UseEntry>,
    pubs: &DefinitionTable,
    privs: &DefinitionTable,
) -> (res: Result<FnDef, MergeError>)
    requires
        lreq(*pubs, *privs),
    ensures
        res matches Ok(f2) ==> crate::ast::refs_fn_def(f2, mg_of(*privs)) && f2.name == f.name && (
        f2.body is Some <==> f.body is Some),
{
    let named = match (&f.name.module_resolved, &f.name.global_resolved) {
        (Some(_), Some(_)) => true,
        _ => false,
    };
    if !named {
        return Err(MergeError::MissingResolution);
    }
    let name2 = copy_reference(&f.name);
    let rt2 = link_type(&f.return_type, mp, uses, pubs, privs)?;
    assert(f.args@.subrange(0, f.args@.len() as int) =~= f.args@);
    let args2 = link_args(&f.args, 0, mp, uses, pubs, privs)?;
    let body2 = match &f.body {
        Some(b) => Some(link_block(b, mp, uses, pubs, privs)?),
        None => None,
    };
    Ok(FnDef { return_type: rt2, mods: Vec::new(), name: name2, args: args2, body: body2 })
}

fn link_struct_def(
    s: &StructDef,
    mp: &String,
    uses: &Vec<UseEntry>,
    pubs: &DefinitionTable,
    privs: &DefinitionTable,
) -> (res: Result<StructDef, MergeError>)
    requires
        lreq(*pubs, *privs),
    ensures
        res matches Ok(s2) ==> crate::ast::refs_struct_def(s2, mg_of(*privs)) && s2.name == s.name,
{
    let named = match (&s.name.module_resolved, &s.name.global_resolved) {
        (Some(_), Some(_)) => true,
        _ => false,
    };
    if !named {
        return Err(MergeError::MissingResolution);
    }
    let name2 = copy_reference(&s.name);
    assert(s.fields@.subrange(0, s.fields@.len() as int) =~= s.fields@);
    let fields2 = link_fields(&s.fields, 0, mp, uses, pubs, privs)?;
    Ok(StructDef { mods: Vec::new(), name: name2, fields: fields2 })
}

fn link_global_var(
    d: &VarDecl,
    mp: &String,
    uses: &Vec<UseEntry>,
    pubs: &DefinitionTable,
    privs: &DefinitionTable,
) -> (res: Result<VarDecl, MergeError>)
    requires
        lreq(*pubs, *privs),
    ensures
        res matches Ok(d2) ==> crate::ast::refs_var_decl(d2, mg_of(*privs)) && d2.var_def.name
            == d.var_def.name && (d2.expr is Some <==> d.expr is Some),
{
    let named = match (&d.var_def.name.module_resolved, &d.var_def.name.global_resolved) {
        (Some(_), Some(_)) => true,
        _ => false,
    };
    if !named {
        return Err(MergeError::MissingResolution);
    }
    let name2 = copy_reference(&d.var_def.name);
    let t2 = link_type(&d.var_def.type_, mp, uses, pubs, privs)?;
    let expr2 = match &d.expr {
        Some(e) => Some(Box::new(link_expr(e, mp, uses, pubs, privs)?)),
        None => None,
    };
    Ok(
        VarDecl {
            var_def: VarDef { mods: copy_var_mods(&d.var_def.mods), name: name2, type_: t2 },
            expr: expr2,
        },
    )
}

// ---------------------------------------------------------------------
// Linking the tables, entry by entry.
// ---------------------------------------------------------------------

fn link_fn_map(
    src: &NameMap<FnDef>,
    maps: &Vec<UseMap>,
    pubs: &DefinitionTable,
    privs: &DefinitionTable,
) -> (res: Result<NameMap<FnDef>, MergeError>)
    requires
        lreq(*pubs, *privs),
        src.wf(),
    ensures
        src.entries@.len() == 0 ==> res is Ok,
        res matches Ok(out) ==> {
            &&& out.wf()
            &&& out@.dom() == src@.dom()
            &&& forall|k: GlobalNameV|
                out@.contains_key(k) ==> crate::ast::refs_fn_def(
                    #[trigger] out@[k],
                    mg_of(*privs),
                ) && out@[k].name == src@[k].name && (out@[k].body is Some <==> src@[k].body is Some)
        },
{
    let empty_uses: Vec<UseEntry> = Vec::new();
    let mut out: NameMap<FnDef> = NameMap::new();
    let n = src.entries.len();
    let mut i: usize = 0;
    while i < n
        invariant
            lreq(*pubs, *privs),
            src.wf(),
            i <= n,
            n == src.entries@.len(),
            out.wf(),
            out.entries@.len() == i,
            forall|j: int|
                0 <= j < i ==> (#[trigger] out.entries@[j]).0@ == src.entries@[j].0@
                    && crate::ast::refs_fn_def(out.entries@[j].1, mg_of(*privs))
                    && out.entries@[j].1.name == src.entries@[j].1.name && (out.entries@[j].1.body is Some
                    <==> src.entries@[j].1.body is Some),
        decreases n - i,
    {
        let key = &src.entries[i].0;
        let uses = match find_module_uses(maps, &key.module) {
            Some(u) => u,
            None => &empty_uses,
        };
        let linked = link_fn_def(&src.entries[i].1, &key.module, uses, pubs, privs)?;
        proof {
            crate::table::lemma_map_of_contains(out.entries@, key@);
            if out@.contains_key(key@) {
                let j = choose|j: int|
                    0 <= j < out.entries@.len() && (#[trigger] out.entries@[j]).0@ == key@;
                assert(src.entries@[j].0@ == src.entries@[i as int].0@);
                assert(false);
            }
        }
        out.insert(key.duplicate(), linked);
        i += 1;
    }
    proof {
        assert forall|k: GlobalNameV| out@.contains_key(k) == src@.contains_key(k) by {
            crate::table::lemma_map_of_contains(out.entries@, k);
            crate::table::lemma_map_of_contains(src.entries@, k);
            if out@.contains_key(k) {
                let j = choose|j: int|
                    0 <= j < out.entries@.len() && (#[trigger] out.entries@[j]).0@ == k;
                assert(src.entries@[j].0@ == k);
            }
            if src@.contains_key(k) {
                let j = choose|j: int|
                    0 <= j < src.entries@.len() && (#[trigger] src.entries@[j]).0@ == k;
                assert(out.entries@[j].0@ == k);
            }
        }
        assert(out@.dom() =~= src@.dom());
        assert forall|k: GlobalNameV| out@.contains_key(k) implies crate::ast::refs_fn_def(
            #[trigger] out@[k],
            mg_of(*privs),
        ) && out@[k].name == src@[k].name && (out@[k].body is Some <==> src@[k].body is Some) by {
            crate::table::lemma_map_of_contains(out.entries@, k);
            let j = choose|j: int|
                0 <= j < out.entries@.len() && (#[trigger] out.entries@[j]).0@ == k;
            crate::table::lemma_map_of_get(out.entries@, j);
            crate::table::lemma_map_of_get(src.entries@, j);
        }
    }
    Ok(out)
}

fn link_struct_map(
    src: &NameMap<StructDef>,
    maps: &Vec<UseMap>,
    pubs: &DefinitionTable,
    privs: &DefinitionTable,
) -> (res: Result<NameMap<StructDef>, MergeError>)
    requires
        lreq(*pubs, *privs),
        src.wf(),
    ensures
        src.entries@.len() == 0 ==> res is Ok,
        res matches Ok(out) ==> {
            &&& out.wf()
            &&& out@.dom() == src@.dom()
            &&& forall|k: GlobalNameV|
                out@.contains_key(k) ==> crate::ast::refs_struct_def(
                    #[trigger] out@[k],
                    mg_of(*privs),
                ) && out@[k].name == src@[k].name
        },
{
    let empty_uses: Vec<UseEntry> = Vec::new();
    let mut out: NameMap<StructDef> = NameMap::new();
    let n = src.entries.len();
    let mut i: usize = 0;
    while i < n
        invariant
            lreq(*pubs, *privs),
            src.wf(),
            i <= n,
            n == src.entries@.len(),
            out.wf(),
            out.entries@.len() == i,
            forall|j: int|
                0 <= j < i ==> (#[trigger] out.entries@[j]).0@ == src.entries@[j].0@
                    && crate::ast::refs_struct_def(out.entries@[j].1, mg_of(*privs))
                    && out.entries@[j].1.name == src.entries@[j].1.name,
        decreases n - i,
    {
        let key = &src.entries[i].0;
        let uses = match find_module_uses(maps, &key.module) {
            Some(u) => u,
            None => &empty_uses,
        };
        let linked = link_struct_def(&src.entries[i].1, &key.module, uses, pubs, privs)?;
        proof {
            crate::table::lemma_map_of_contains(out.entries@, key@);
            if out@.contains_key(key@) {
                let j = choose|j: int|
                    0 <= j < out.entries@.len() && (#[trigger] out.entries@[j]).0@ == key@;
                assert(src.entries@[j].0@ == src.entries@[i as int].0@);
                assert(false);
            }
        }
        out.insert(key.duplicate(), linked);
        i += 1;
    }
    proof {
        assert forall|k: GlobalNameV| out@.contains_key(k) == src@.contains_key(k) by {
            crate::table::lemma_map_of_contains(out.entries@, k);
            crate::table::lemma_map_of_contains(src.entries@, k);
            if out@.contains_key(k) {
                let j = choose|j: int|
                    0 <= j < out.entries@.len() && (#[trigger] out.entries@[j]).0@ == k;
                assert(src.entries@[j].0@ == k);
            }
            if src@.contains_key(k) {
                let j = choose|j: int|
                    0 <= j < src.entries@.len() && (#[trigger] src.entries@[j]).0@ == k;
                assert(out.entries@[j].0@ == k);
            }
        }
        assert(out@.dom() =~= src@.dom());
        assert forall|k: GlobalNameV| out@.contains_key(k) implies crate::ast::refs_struct_def(
            #[trigger] out@[k],
            mg_of(*privs),
        ) && out@[k].name == src@[k].name by {
            crate::table::lemma_map_of_contains(out.entries@, k);
            let j = choose|j: int|
                0 <= j < out.entries@.len() && (#[trigger] out.entries@[j]).0@ == k;
            crate::table::lemma_map_of_get(out.entries@, j);
            crate::table::lemma_map_of_get(src.entries@, j);
        }
    }
    Ok(out)
}

fn link_var_map(
    src: &NameMap<VarDecl>,
    maps: &Vec<UseMap>,
    pubs: &DefinitionTable,
    privs: &DefinitionTable,
) -> (res: Result<NameMap<VarDecl>, MergeError>)
    requires
        lreq(*pubs, *privs),
        src.wf(),
    ensures
        src.entries@.len() == 0 ==> res is Ok,
        res matches Ok(out) ==> {
            &&& out.wf()
            &&& out@.dom() == src@.dom()
            &&& forall|k: GlobalNameV|
                out@.contains_key(k) ==> crate::ast::refs_var_decl(
                    #[trigger] out@[k],
                    mg_of(*privs),
                ) && out@[k].var_def.name == src@[k].var_def.name && (out@[k].expr is Some
                    <==> src@[k].expr is Some)
        },
{
    let empty_uses: Vec<UseEntry> = Vec::new();
    let mut out: NameMap<VarDecl> = NameMap::new();
    let n = src.entries.len();
    let mut i: usize = 0;
    while i < n
        invariant
            lreq(*pubs, *privs),
            src.wf(),
            i <= n,
            n == src.entries@.len(),
            out.wf(),
            out.entries@.len() == i,
            forall|j: int|
                0 <= j < i ==> (#[trigger] out.entries@[j]).0@ == src.entries@[j].0@
                    && crate::ast::refs_var_decl(out.entries@[j].1, mg_of(*privs))
                    && out.entries@[j].1.var_def.name == src.entries@[j].1.var_def.name && (
                    out.entries@[j].1.expr is Some <==> src.entries@[j].1.expr is Some),
        decreases n - i,
    {
        let key = &src.entries[i].0;
        let uses = match find_module_uses(maps, &key.module) {
            Some(u) => u,
            None => &empty_uses,
        };
        let linked = link_global_var(&src.entries[i].1, &key.module, uses, pubs, privs)?;
        proof {
            crate::table::lemma_map_of_contains(out.entries@, key@);
            if out@.contains_key(key@) {
                let j = choose|j: int|
                    0 <= j < out.entries@.len() && (#[trigger] out.entries@[j]).0@ == key@;
                assert(src.entries@[j].0@ == src.entries@[i as int].0@);
                assert(false);
            }
        }
        out.insert(key.duplicate(), linked);
        i += 1;
    }
    proof {
        assert forall|k: GlobalNameV| out@.contains_key(k) == src@.contains_key(k) by {
            crate::table::lemma_map_of_contains(out.entries@, k);
            crate::table::lemma_map_of_contains(src.entries@, k);
            if out@.contains_key(k) {
                let j = choose|j: int|
                    0 <= j < out.entries@.len() && (#[trigger] out.entries@[j]).0@ == k;
                assert(src.entries@[j].0@ == k);
            }
            if src@.contains_key(k) {
                let j = choose|j: int|
                    0 <= j < src.entries@.len() && (#[trigger] src.entries@[j]).0@ == k;
                assert(out.entries@[j].0@ == k);
            }
        }
        assert(out@.dom() =~= src@.dom());
        assert forall|k: GlobalNameV| out@.contains_key(k) implies crate::ast::refs_var_decl(
            #[trigger] out@[k],
            mg_of(*privs),
        ) && out@[k].var_def.name == src@[k].var_def.name && (out@[k].expr is Some <==> src@[k].expr is Some) by {
            crate::table::lemma_map_of_contains(out.entries@, k);
            let j = choose|j: int|
                0 <= j < out.entries@.len() && (#[trigger] out.entries@[j]).0@ == k;
            crate::table::lemma_map_of_get(out.entries@, j);
            crate::table::lemma_map_of_get(src.entries@, j);
        }
    }
    Ok(out)
}

// ---------------------------------------------------------------------
// The merger itself.
// ---------------------------------------------------------------------

/// A definition table as the merger hands it on: well-formed, every
/// definition stamped with the global name it is keyed by, and every
/// reference inside it globally resolved — local function and struct
/// targets are keys of the table, foreign targets merely recorded.
pub open spec fn globally_linked(t: DefinitionTable) -> bool {
    &&& t.wf()
    &&& fn_stamped(t.function_definitions@)
    &&& struct_stamped(t.struct_definitions@)
    &&& var_stamped(t.global_var_definitions@)
    &&& forall|k: GlobalNameV|
        t.function_definitions@.contains_key(k) ==> crate::ast::refs_fn_def(
            #[trigger] t.function_definitions@[k],
            mg_of(t),
        )
    &&& forall|k: GlobalNameV|
        t.struct_definitions@.contains_key(k) ==> crate::ast::refs_struct_def(
            #[trigger] t.struct_definitions@[k],
            mg_of(t),
        )
    &&& forall|k: GlobalNameV|
        t.global_var_definitions@.contains_key(k) ==> crate::ast::refs_var_decl(
            #[trigger] t.global_var_definitions@[k],
            mg_of(t),
        )
}

/// Law: a global name identifies at most one definition of a merged
/// table — the one stamped with it, and the three maps never share a
/// key. Together with `globally_linked`, a local function-call
/// reference's global name is a key of the function map and of no
/// other: the name round-trips to exactly one definition.
pub proof fn lemma_global_name_identifies_definition(t: DefinitionTable, k: GlobalNameV)
    requires
        globally_linked(t),
        t.function_definitions@.contains_key(k),
    ensures
        !t.struct_definitions@.contains_key(k),
        !t.global_var_definitions@.contains_key(k),
        match t.function_definitions@[k].name.global_resolved {
            Some(g) => g@ == k,
            None => false,
        },
{
}

/// Every input module has a resolution — shape-preserving, with
/// collision-free top-level names — whose every top-level definition is
/// keyed in the table under the module's path.
pub open spec fn module_resolved_installed(p: (String, Module), t: DefinitionTable) -> bool {
    exists|m2: Module|
        #[trigger] crate::resolver::resolved_from(m2, p.1) && module_installed(m2, p.0@, t)
}

pub open spec fn inputs_installed(mods: Seq<(String, Module)>, t: DefinitionTable) -> bool {
    forall|idx: int|
        0 <= idx < mods.len() ==> module_resolved_installed(#[trigger] mods[idx], t)
}

/// Everything a successful merge guarantees of its output: the private
/// table holds the package globally linked; the public view is
/// well-formed, stamped, globally linked against the private keys, and
/// a subset of the private table.
pub open spec fn merged_ok(mm: MergedModule) -> bool {
    &&& globally_linked(mm.private_definitions)
    &&& mm.public_definitions.wf()
    &&& mm.public_definitions.function_definitions@.dom()
        <= mm.private_definitions.function_definitions@.dom()
    &&& mm.public_definitions.struct_definitions@.dom()
        <= mm.private_definitions.struct_definitions@.dom()
    &&& mm.public_definitions.global_var_definitions@.dom()
        <= mm.private_definitions.global_var_definitions@.dom()
    &&& fn_stamped(mm.public_definitions.function_definitions@)
    &&& struct_stamped(mm.public_definitions.struct_definitions@)
    &&& var_stamped(mm.public_definitions.global_var_definitions@)
    &&& forall|k: GlobalNameV|
        mm.public_definitions.function_definitions@.contains_key(k) ==> crate::ast::refs_fn_def(
            #[trigger] mm.public_definitions.function_definitions@[k],
            mg_of(mm.private_definitions),
        )
    &&& forall|k: GlobalNameV|
        mm.public_definitions.struct_definitions@.contains_key(k) ==> crate::ast::refs_struct_def(
            #[trigger] mm.public_definitions.struct_definitions@[k],
            mg_of(mm.private_definitions),
        )
    &&& forall|k: GlobalNameV|
        mm.public_definitions.global_var_definitions@.contains_key(k)
            ==> crate::ast::refs_var_decl(
            #[trigger] mm.public_definitions.global_var_definitions@[k],
            mg_of(mm.private_definitions),
        )
}

/// Combines all resolved modules into one package-wide definition
/// table.
#[derive(Debug)]
pub struct ModuleMerger {
    pub package_name: String,
}

impl ModuleMerger {
    pub fn new(package_name: &str) -> (r: ModuleMerger)
        ensures
            r.package_name@ == package_name@,
    {
        ModuleMerger { package_name: package_name.to_owned() }
    }

    /// Resolves every module, hoists every definition into the tables
    /// under its global name, and links every reference. On success the
    /// private table holds the whole package, globally linked, and the
    /// public keys are a subset of the private ones.
    pub fn merge_modules(&self, modules: Vec<(String, Module)>) -> (r: Result<
        MergedModule,
        MergeError,
    >)
        ensures
            match r {
                Ok(mm) => merged_ok(mm) && inputs_installed(modules@, mm.private_definitions),
                Err(_) => true,
            },
            modules@.len() == 0 ==> r is Ok,
    {
        let ghost mods0 = modules@;
        let ghost mut witnesses: Seq<Module> = Seq::empty();
        let mut mm = MergedModule::new();
        let ghost mm_init = mm;
        let mut usemaps: Vec<UseMap> = Vec::new();
        let mut mods = modules;
        while mods.len() > 0
            invariant
                tables_inv(mm),
                mods0 == modules@,
                mods@.len() == mods0.len() ==> mm == mm_init,
                mods@.len() <= mods0.len(),
                mods@ == mods0.subrange(
                    mods0.len() - mods@.len(),
                    mods0.len() as int,
                ),
                witnesses.len() == mods0.len() - mods@.len(),
                forall|idx: int|
                    0 <= idx < witnesses.len() ==> crate::resolver::resolved_from(
                        #[trigger] witnesses[idx],
                        mods0[idx].1,
                    ) && module_installed(witnesses[idx], mods0[idx].0@, mm.private_definitions),
            decreases mods@.len(),
        {
            let ghost k = mods0.len() - mods@.len();
            let (mp, m) = mods.remove(0);
            assert((mp, m) == mods0[k as int]);
            proof {
                assert(mods@ =~= mods0.subrange(k as int + 1, mods0.len() as int));
            }
            let ghost mm_before = mm;
            let m2 = match resolve_module(m) {
                Ok(x) => x,
                Err(e) => {
                    return Err(lift_resolver_error(e));
                },
            };
            let ghost m2v = m2;
            let entries = build_use_entries(&m2.uses, self.package_name.as_str())?;
            usemaps.push(UseMap { module: mp.clone(), entries });
            hoist_module(m2, &mp, &mut mm)?;
            proof {
                assert(crate::resolver::resolved_from(m2v, mods0[k as int].1));
                assert(module_installed(m2v, mods0[k as int].0@, mm.private_definitions));
                assert forall|idx: int| 0 <= idx < witnesses.len() implies crate::resolver::resolved_from(
                    #[trigger] witnesses[idx],
                    mods0[idx].1,
                ) && module_installed(witnesses[idx], mods0[idx].0@, mm.private_definitions) by {
                    let w = witnesses[idx];
                    assert(module_installed(w, mods0[idx].0@, mm_before.private_definitions));
                    assert forall|i: int| 0 <= i < w.public_definitions@.len() implies def_installed(
                        #[trigger] w.public_definitions@[i],
                        mods0[idx].0@,
                        mm.private_definitions,
                    ) by {
                        lemma_installed_grows(
                            w.public_definitions@[i],
                            mods0[idx].0@,
                            mm_before.private_definitions,
                            mm.private_definitions,
                        );
                    }
                    assert forall|i: int| 0 <= i < w.block.definitions@.len() implies def_installed(
                        #[trigger] w.block.definitions@[i],
                        mods0[idx].0@,
                        mm.private_definitions,
                    ) by {
                        lemma_installed_grows(
                            w.block.definitions@[i],
                            mods0[idx].0@,
                            mm_before.private_definitions,
                            mm.private_definitions,
                        );
                    }
                    assert(module_installed(w, mods0[idx].0@, mm.private_definitions));
                }
                witnesses = witnesses.push(m2v);
                assert forall|idx: int| 0 <= idx < witnesses.len() implies crate::resolver::resolved_from(
                    #[trigger] witnesses[idx],
                    mods0[idx].1,
                ) && module_installed(witnesses[idx], mods0[idx].0@, mm.private_definitions) by {
                    if idx < witnesses.len() - 1 {
                        assert(witnesses[idx] == witnesses.drop_last()[idx]);
                    } else {
                        assert(witnesses[idx] == m2v);
                    }
                }
            }
        }
        let ghost mm_hoisted = mm;
        proof {
            if mods0.len() == 0 {
                crate::table::lemma_map_of_len(mm.private_definitions.function_definitions.entries@);
                crate::table::lemma_map_of_len(mm.private_definitions.struct_definitions.entries@);
                crate::table::lemma_map_of_len(
                    mm.private_definitions.global_var_definitions.entries@,
                );
                crate::table::lemma_map_of_len(mm.public_definitions.function_definitions.entries@);
                crate::table::lemma_map_of_len(mm.public_definitions.struct_definitions.entries@);
                crate::table::lemma_map_of_len(
                    mm.public_definitions.global_var_definitions.entries@,
                );
            }
        }
        let MergedModule { public_definitions, private_definitions } = mm;
        let linked_fns = link_fn_map(
            &private_definitions.function_definitions,
            &usemaps,
            &public_definitions,
            &private_definitions,
        )?;
        let linked_structs = link_struct_map(
            &private_definitions.struct_definitions,
            &usemaps,
            &public_definitions,
            &private_definitions,
        )?;
        let linked_vars = link_var_map(
            &private_definitions.global_var_definitions,
            &usemaps,
            &public_definitions,
            &private_definitions,
        )?;
        let pub_fns = link_fn_map(
            &public_definitions.function_definitions,
            &usemaps,
            &public_definitions,
            &private_definitions,
        )?;
        let pub_structs = link_struct_map(
            &public_definitions.struct_definitions,
            &usemaps,
            &public_definitions,
            &private_definitions,
        )?;
        let pub_vars = link_var_map(
            &public_definitions.global_var_definitions,
            &usemaps,
            &public_definitions,
            &private_definitions,
        )?;
        let new_priv = DefinitionTable {
            function_definitions: linked_fns,
            struct_definitions: linked_structs,
            global_var_definitions: linked_vars,
        };
        let new_pub = DefinitionTable {
            function_definitions: pub_fns,
            struct_definitions: pub_structs,
            global_var_definitions: pub_vars,
        };
        proof {
            assert(mg_of(new_priv) == mg_of(private_definitions));
            assert forall|k: GlobalNameV|
                new_priv.function_definitions@.contains_key(k) implies match (
            #[trigger] new_priv.function_definitions@[k]).name.global_resolved {
                Some(g) => g@ == k,
                None => false,
            } by {
                assert(new_priv.function_definitions@[k].name
                    == private_definitions.function_definitions@[k].name);
            }
            assert forall|k: GlobalNameV|
                new_priv.struct_definitions@.contains_key(k) implies match (
            #[trigger] new_priv.struct_definitions@[k]).name.global_resolved {
                Some(g) => g@ == k,
                None => false,
            } by {
                assert(new_priv.struct_definitions@[k].name
                    == private_definitions.struct_definitions@[k].name);
            }
            assert forall|k: GlobalNameV|
                new_priv.global_var_definitions@.contains_key(k) implies match (
            #[trigger] new_priv.global_var_definitions@[k]).var_def.name.global_resolved {
                Some(g) => g@ == k,
                None => false,
            } by {
                assert(new_priv.global_var_definitions@[k].var_def.name
                    == private_definitions.global_var_definitions@[k].var_def.name);
            }
            assert forall|k: GlobalNameV|
                new_pub.function_definitions@.contains_key(k) implies match (
            #[trigger] new_pub.function_definitions@[k]).name.global_resolved {
                Some(g) => g@ == k,
                None => false,
            } by {
                assert(new_pub.function_definitions@[k].name
                    == public_definitions.function_definitions@[k].name);
            }
            assert forall|k: GlobalNameV|
                new_pub.struct_definitions@.contains_key(k) implies match (
            #[trigger] new_pub.struct_definitions@[k]).name.global_resolved {
                Some(g) => g@ == k,
                None => false,
            } by {
                assert(new_pub.struct_definitions@[k].name
                    == public_definitions.struct_definitions@[k].name);
            }
            assert forall|k: GlobalNameV|
                new_pub.global_var_definitions@.contains_key(k) implies match (
            #[trigger] new_pub.global_var_definitions@[k]).var_def.name.global_resolved {
                Some(g) => g@ == k,
                None => false,
            } by {
                assert(new_pub.global_var_definitions@[k].var_def.name
                    == public_definitions.global_var_definitions@[k].var_def.name);
            }
        }
        let result = MergedModule { public_definitions: new_pub, private_definitions: new_priv };
        proof {
            assert(merged_ok(result));
            assert forall|idx: int| 0 <= idx < modules@.len() implies module_resolved_installed(
                #[trigger] modules@[idx],
                result.private_definitions,
            ) by {
                    let w = witnesses[idx];
                    assert(mods0[idx] == modules@[idx]);
                    assert(crate::resolver::resolved_from(w, modules@[idx].1));
                    assert(module_installed(w, modules@[idx].0@, mm_hoisted.private_definitions));
                    assert forall|i: int| 0 <= i < w.public_definitions@.len() implies def_installed(
                        #[trigger] w.public_definitions@[i],
                        modules@[idx].0@,
                        result.private_definitions,
                    ) by {
                        lemma_installed_linked(
                            w.public_definitions@[i],
                            modules@[idx].0@,
                            mm_hoisted.private_definitions,
                            result.private_definitions,
                        );
                    }
                    assert forall|i: int| 0 <= i < w.block.definitions@.len() implies def_installed(
                        #[trigger] w.block.definitions@[i],
                        modules@[idx].0@,
                        result.private_definitions,
                    ) by {
                        lemma_installed_linked(
                            w.block.definitions@[i],
                            modules@[idx].0@,
                            mm_hoisted.private_definitions,
                            result.private_definitions,
                        );
                    }
                    assert(module_installed(w, modules@[idx].0@, result.private_definitions));
                    assert(crate::resolver::resolved_from(w, modules@[idx].1)
                        && module_installed(w, modules@[idx].0@, result.private_definitions));
            }
        }
        Ok(result)
    }
}

} // verus!
