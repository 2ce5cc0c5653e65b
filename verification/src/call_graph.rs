use rustc_hash::{FxHashMap, FxHashSet};
use vstd::prelude::*;

use crate::ast::{Block, Body, Expr, FieldInit, FnDecl, Ident, InterpPart, MatchArm};
use crate::fx::{by_name, get_name, insert_id, list_ids, put_name};
use crate::scc::{are_sccs, in_component, CallGraph, DeclId};

verus! {

/// An expression mentions a name: somewhere in it the name stands as an
/// identifier of its own. A field of a record without a value stands for the
/// identifier of its name.
pub open spec fn mentions(e: Expr, name: Seq<char>) -> bool
    decreases e,
{
    match e {
        Expr::Ident(id) => id.text@ == name,
        Expr::Call { callee, args, span } => mentions(*callee, name) || any_mentions(args@, name),
        Expr::Lambda { params, body, span } => mentions(*body, name),
        Expr::Block(block) => any_mentions(block.stmts@, name),
        Expr::Try { block, span } => any_mentions(block.stmts@, name),
        Expr::Let { pat, value, span } => mentions(*value, name),
        Expr::Var { name: bound, value, span } => mentions(*value, name),
        Expr::Return { value, span } => mentions(*value, name),
        Expr::Assign { target, value, span } => mentions(*target, name) || mentions(*value, name),
        Expr::If { cond, then_branch, else_branch, span } => mentions(*cond, name) || mentions(
            *then_branch,
            name,
        ) || (else_branch matches Some(x) && mentions(*x, name)),
        Expr::Match { scrutinee, arms, span } => mentions(*scrutinee, name) || arms_mention(
            arms@,
            name,
        ),
        Expr::Binary { op, lhs, rhs, span } => mentions(*lhs, name) || mentions(*rhs, name),
        Expr::Pipe { lhs, rhs, span } => mentions(*lhs, name) || mentions(*rhs, name),
        Expr::Unary { op, expr, span } => mentions(*expr, name),
        Expr::Tuple { elems, span } => any_mentions(elems@, name),
        Expr::List { elems, span } => any_mentions(elems@, name),
        Expr::Paren { inner, span } => mentions(*inner, name),
        Expr::Propagate { inner, span } => mentions(*inner, name),
        Expr::InnerFn { decl, span } => match decl.body {
            Body::Expr(x) => mentions(x, name),
            Body::Ffi => false,
        },
        Expr::Guard { cond, else_branch, span } => mentions(*cond, name) || any_mentions(
            else_branch.stmts@,
            name,
        ),
        Expr::FieldAccess { base, field, span } => mentions(*base, name),
        Expr::Record { constructor, fields, span } => inits_mention(fields@, name),
        Expr::RecordLit { fields, span } => inits_mention(fields@, name),
        Expr::With { base, fields, span } => mentions(*base, name) || inits_mention(fields@, name),
        Expr::Interp { parts, span } => parts_mention(parts@, name),
        Expr::Send { target, message, args, span } => mentions(*target, name) || any_mentions(
            args@,
            name,
        ),
        Expr::Ask { target, message, args, span } => mentions(*target, name) || any_mentions(
            args@,
            name,
        ),
        Expr::Spawn { actor, args, span } => any_mentions(args@, name),
        Expr::Literal(_) => false,
        Expr::Unit(_) => false,
        Expr::Qualified(_) => false,
        Expr::FieldAccessorFn { field, span } => false,
    }
}

pub open spec fn inits_mention(fs: Seq<FieldInit>, name: Seq<char>) -> bool
    decreases fs,
{
    exists|i: int|
        0 <= i < fs.len() && match (#[trigger] fs[i]).value {
            Some(x) => mentions(x, name),
            None => fs[i].name.text@ == name,
        }
}

pub open spec fn parts_mention(parts: Seq<InterpPart>, name: Seq<char>) -> bool
    decreases parts,
{
    exists|i: int|
        0 <= i < parts.len() && match #[trigger] parts[i] {
            InterpPart::Expr { expr, span } => mentions(*expr, name),
            InterpPart::Text { raw, span } => false,
        }
}

/// The values of the fields of a record, a field without one by its name.
pub open spec fn init_values(fs: Seq<FieldInit>) -> Seq<Expr> {
    Seq::new(
        fs.len(),
        |i: int|
            match fs[i].value {
                Some(x) => x,
                None => Expr::Ident(fs[i].name),
            },
    )
}

/// The parts of an interpolated text as expressions; text as it is mentions
/// nothing.
pub open spec fn part_values(parts: Seq<InterpPart>) -> Seq<Expr> {
    Seq::new(
        parts.len(),
        |i: int|
            match parts[i] {
                InterpPart::Expr { expr, span } => *expr,
                InterpPart::Text { raw, span } => Expr::Unit(span),
            },
    )
}

proof fn inits_mention_values(fs: Seq<FieldInit>)
    ensures
        forall|name: Seq<char>| #[trigger]
            inits_mention(fs, name) == any_mentions(init_values(fs), name),
{
    assert forall|name: Seq<char>| #[trigger] inits_mention(fs, name) == any_mentions(
        init_values(fs),
        name,
    ) by {
        let vs = init_values(fs);
        if inits_mention(fs, name) {
            let i = choose|i: int|
                0 <= i < fs.len() && match (#[trigger] fs[i]).value {
                    Some(x) => mentions(x, name),
                    None => fs[i].name.text@ == name,
                };
            assert(mentions(vs[i], name));
        }
        if any_mentions(vs, name) {
            let i = choose|i: int| 0 <= i < vs.len() && mentions(#[trigger] vs[i], name);
            assert(match fs[i].value {
                Some(x) => mentions(x, name),
                None => fs[i].name.text@ == name,
            });
        }
    }
}

proof fn parts_mention_values(parts: Seq<InterpPart>)
    ensures
        forall|name: Seq<char>| #[trigger]
            parts_mention(parts, name) == any_mentions(part_values(parts), name),
{
    assert forall|name: Seq<char>| #[trigger] parts_mention(parts, name) == any_mentions(
        part_values(parts),
        name,
    ) by {
        let vs = part_values(parts);
        if parts_mention(parts, name) {
            let i = choose|i: int|
                0 <= i < parts.len() && match #[trigger] parts[i] {
                    InterpPart::Expr { expr, span } => mentions(*expr, name),
                    InterpPart::Text { raw, span } => false,
                };
            assert(mentions(vs[i], name));
        }
        if any_mentions(vs, name) {
            let i = choose|i: int| 0 <= i < vs.len() && mentions(#[trigger] vs[i], name);
            assert(match parts[i] {
                InterpPart::Expr { expr, span } => mentions(*expr, name),
                InterpPart::Text { raw, span } => false,
            });
        }
    }
}

pub open spec fn any_mentions(es: Seq<Expr>, name: Seq<char>) -> bool
    decreases es,
{
    exists|i: int| 0 <= i < es.len() && mentions(#[trigger] es[i], name)
}

pub open spec fn arms_mention(arms: Seq<MatchArm>, name: Seq<char>) -> bool
    decreases arms,
{
    exists|i: int|
        0 <= i < arms.len() && (mentions((#[trigger] arms[i]).body, name) || (
        arms[i].guard matches Some(g) && mentions(g, name)))
}

/// The declaration that a name refers to: the last one of that name.
pub open spec fn decl_named(decls: Seq<FnDecl>, name: Seq<char>) -> Option<nat>
    decreases decls.len(),
{
    if decls.len() == 0 {
        None
    } else if decls.last().name.text@ == name {
        Some((decls.len() - 1) as nat)
    } else {
        decl_named(decls.drop_last(), name)
    }
}

proof fn decl_named_bounds(decls: Seq<FnDecl>, name: Seq<char>)
    ensures
        decl_named(decls, name) matches Some(j) ==> j < decls.len() && decls[j as int].name.text@
            == name,
    decreases decls.len(),
{
    if decls.len() > 0 {
        decl_named_bounds(decls.drop_last(), name);
    }
}

/// The names table: what each name of a declaration refers to.
pub open spec fn names_decls(m: Map<Seq<char>, DeclId>, decls: Seq<FnDecl>) -> bool {
    forall|name: Seq<char>| #[trigger]
        decl_named(decls, name) == if m.dom().contains(name) {
            Some(m[name].0 as nat)
        } else {
            None
        }
}

/// Declaration `j` is mentioned in an expression.
pub open spec fn mentions_decl(decls: Seq<FnDecl>, e: Expr, j: int) -> bool {
    exists|name: Seq<char>| #[trigger] mentions(e, name) && decl_named(decls, name) == Some(j as nat)
}

pub open spec fn any_mention_decl(decls: Seq<FnDecl>, es: Seq<Expr>, j: int) -> bool {
    exists|i: int| 0 <= i < es.len() && mentions_decl(decls, #[trigger] es[i], j)
}

/// The body of a declaration mentions declaration `j`.
pub open spec fn body_calls(decls: Seq<FnDecl>, d: FnDecl, j: int) -> bool {
    d.body matches Body::Expr(e) && mentions_decl(decls, e, j)
}

/// Declaration `i` mentions declaration `j`.
pub open spec fn calls(decls: Seq<FnDecl>, i: int, j: int) -> bool {
    body_calls(decls, decls[i], j)
}

/// What a walk adds to a set of declarations.
pub open spec fn adds(was: Set<u32>, now: Set<u32>, decls: Seq<FnDecl>, e: Expr) -> bool {
    forall|j: u32| #[trigger] now.contains(j) <==> was.contains(j) || mentions_decl(decls, e, j as int)
}

proof fn mentions_split(decls: Seq<FnDecl>, e: Expr, parts: Seq<Expr>)
    requires
        forall|name: Seq<char>| #[trigger] mentions(e, name) == any_mentions(parts, name),
    ensures
        forall|j: int| #[trigger]
            mentions_decl(decls, e, j) <==> any_mention_decl(decls, parts, j),
{
    assert forall|j: int| #[trigger] mentions_decl(decls, e, j) <==> any_mention_decl(
        decls,
        parts,
        j,
    ) by {
        if mentions_decl(decls, e, j) {
            let name = choose|name: Seq<char>| #[trigger]
                mentions(e, name) && decl_named(decls, name) == Some(j as nat);
            assert(any_mentions(parts, name));
            let i = choose|i: int| 0 <= i < parts.len() && mentions(#[trigger] parts[i], name);
            assert(mentions(parts[i], name));
            assert(mentions_decl(decls, parts[i], j));
        }
        if any_mention_decl(decls, parts, j) {
            let i = choose|i: int| 0 <= i < parts.len() && mentions_decl(decls, #[trigger] parts[i], j);
            let name = choose|name: Seq<char>| #[trigger]
                mentions(parts[i], name) && decl_named(decls, name) == Some(j as nat);
            assert(any_mentions(parts, name));
            assert(mentions(e, name));
        }
    }
}

/// Adds the declaration with a name, where there is one.
fn collect_name(
    id: &Ident,
    names: &FxHashMap<String, DeclId>,
    out: &mut FxHashSet<u32>,
    Ghost(decls): Ghost<Seq<FnDecl>>,
)
    requires
        names_decls(by_name(names@), decls),
        decls.len() <= u32::MAX,
    ensures
        adds(old(out)@, final(out)@, decls, Expr::Ident(*id)),
{
    let ghost name = id.text@;
    let ghost e = Expr::Ident(*id);
    proof {
        decl_named_bounds(decls, name);
    }
    match get_name(names, id.text.as_str()) {
        Some(did) => {
            assert(decl_named(decls, name) == Some(did.0 as nat));
            insert_id(out, did.0 as u32);
            assert forall|j: u32| #[trigger]
                out@.contains(j) <==> old(out)@.contains(j) || mentions_decl(decls, e, j as int) by {
                if j == did.0 {
                    assert(mentions(e, name));
                }
            }
        },
        None => {
            assert(decl_named(decls, name) is None);
        },
    }
}

/// Adds the declarations that an expression mentions.
#[verifier::rlimit(40)]
fn collect_called_names(
    e: &Expr,
    names: &FxHashMap<String, DeclId>,
    out: &mut FxHashSet<u32>,
    Ghost(decls): Ghost<Seq<FnDecl>>,
)
    requires
        names_decls(by_name(names@), decls),
        decls.len() <= u32::MAX,
    ensures
        adds(old(out)@, final(out)@, decls, *e),
    decreases e,
{
    match e {
        Expr::Ident(id) => collect_name(id, names, out, Ghost(decls)),
        Expr::Call { callee, args, span: _ } => {
            collect_called_names(callee, names, out, Ghost(decls));
            let ghost mid = out@;
            collect_called_all(args, names, out, Ghost(decls));
            proof {
                split_head(decls, *e, **callee, args@, old(out)@, mid, out@);
            }
        },
        Expr::Lambda { params: _, body, span: _ } => {
            collect_called_names(body, names, out, Ghost(decls));
            proof {
                same_mentions(decls, *e, **body);
            }
        },
        Expr::Block(block) => {
            collect_called_all(&block.stmts, names, out, Ghost(decls));
            proof {
                mentions_split(decls, *e, block.stmts@);
            }
        },
        Expr::Try { block, span: _ } => {
            collect_called_all(&block.stmts, names, out, Ghost(decls));
            proof {
                mentions_split(decls, *e, block.stmts@);
            }
        },
        Expr::Let { pat: _, value, span: _ } => {
            collect_called_names(value, names, out, Ghost(decls));
            proof {
                same_mentions(decls, *e, **value);
            }
        },
        Expr::Var { name: _, value, span: _ } => {
            collect_called_names(value, names, out, Ghost(decls));
            proof {
                same_mentions(decls, *e, **value);
            }
        },
        Expr::Return { value, span: _ } => {
            collect_called_names(value, names, out, Ghost(decls));
            proof {
                same_mentions(decls, *e, **value);
            }
        },
        Expr::Assign { target, value, span: _ } => {
            collect_called_names(target, names, out, Ghost(decls));
            let ghost mid = out@;
            collect_called_names(value, names, out, Ghost(decls));
            proof {
                split_pair(decls, *e, **target, **value);
            }
        },
        Expr::If { cond, then_branch, else_branch, span: _ } => {
            collect_called_names(cond, names, out, Ghost(decls));
            collect_called_names(then_branch, names, out, Ghost(decls));
            let ghost parts = match else_branch {
                Some(x) => seq![**cond, **then_branch, **x],
                None => seq![**cond, **then_branch],
            };
            if let Some(x) = else_branch {
                collect_called_names(x, names, out, Ghost(decls));
            }
            proof {
                assert forall|name: Seq<char>| #[trigger] mentions(*e, name) == any_mentions(
                    parts,
                    name,
                ) by {
                    assert(parts[0] == **cond);
                    assert(parts[1] == **then_branch);
                    if let Some(x) = else_branch {
                        assert(parts[2] == **x);
                    }
                }
                mentions_split(decls, *e, parts);
                assert forall|j: u32| #[trigger]
                    out@.contains(j) <==> old(out)@.contains(j) || mentions_decl(
                        decls,
                        *e,
                        j as int,
                    ) by {
                    assert(mentions_decl(decls, *e, j as int) <==> any_mention_decl(
                        decls,
                        parts,
                        j as int,
                    ));
                    assert(parts[0] == **cond);
                    assert(parts[1] == **then_branch);
                    if let Some(x) = else_branch {
                        assert(parts[2] == **x);
                    }
                }
            }
        },
        Expr::Match { scrutinee, arms, span: _ } => {
            collect_called_names(scrutinee, names, out, Ghost(decls));
            let ghost mid = out@;
            collect_called_arms(arms, names, out, Ghost(decls));
            proof {
                assert forall|j: u32| #[trigger]
                    out@.contains(j) <==> old(out)@.contains(j) || mentions_decl(
                        decls,
                        *e,
                        j as int,
                    ) by {
                    match_mentions(decls, *e, j as int);
                    assert(mid.contains(j) <==> old(out)@.contains(j) || mentions_decl(
                        decls,
                        **scrutinee,
                        j as int,
                    ));
                }
            }
        },
        Expr::Binary { op: _, lhs, rhs, span: _ } => {
            collect_called_names(lhs, names, out, Ghost(decls));
            collect_called_names(rhs, names, out, Ghost(decls));
            proof {
                split_pair(decls, *e, **lhs, **rhs);
            }
        },
        Expr::Pipe { lhs, rhs, span: _ } => {
            collect_called_names(lhs, names, out, Ghost(decls));
            collect_called_names(rhs, names, out, Ghost(decls));
            proof {
                split_pair(decls, *e, **lhs, **rhs);
            }
        },
        Expr::Unary { op: _, expr, span: _ } => {
            collect_called_names(expr, names, out, Ghost(decls));
            proof {
                same_mentions(decls, *e, **expr);
            }
        },
        Expr::Tuple { elems, span: _ } => {
            collect_called_all(elems, names, out, Ghost(decls));
            proof {
                mentions_split(decls, *e, elems@);
            }
        },
        Expr::List { elems, span: _ } => {
            collect_called_all(elems, names, out, Ghost(decls));
            proof {
                mentions_split(decls, *e, elems@);
            }
        },
        Expr::Paren { inner, span: _ } => {
            collect_called_names(inner, names, out, Ghost(decls));
            proof {
                same_mentions(decls, *e, **inner);
            }
        },
        Expr::Propagate { inner, span: _ } => {
            collect_called_names(inner, names, out, Ghost(decls));
            proof {
                same_mentions(decls, *e, **inner);
            }
        },
        Expr::InnerFn { decl, span: _ } => {
            match &decl.body {
                Body::Expr(x) => {
                    collect_called_names(x, names, out, Ghost(decls));
                    proof {
                        same_mentions(decls, *e, *x);
                    }
                },
                Body::Ffi => {
                    assert forall|j: int| !mentions_decl(decls, *e, j) by {}
                },
            }
        },
        Expr::Guard { cond, else_branch, span: _ } => {
            collect_called_names(cond, names, out, Ghost(decls));
            let ghost mid = out@;
            collect_called_all(&else_branch.stmts, names, out, Ghost(decls));
            proof {
                split_head(decls, *e, **cond, else_branch.stmts@, old(out)@, mid, out@);
            }
        },
        Expr::FieldAccess { base, field: _, span: _ } => {
            collect_called_names(base, names, out, Ghost(decls));
            proof {
                same_mentions(decls, *e, **base);
            }
        },
        Expr::Record { constructor: _, fields, span: _ } => {
            collect_called_inits(fields, names, out, Ghost(decls));
            proof {
                inits_mention_values(fields@);
                assert forall|name: Seq<char>| #[trigger] mentions(*e, name) == any_mentions(
                    init_values(fields@),
                    name,
                ) by {
                    assert(mentions(*e, name) == inits_mention(fields@, name));
                }
                mentions_split(decls, *e, init_values(fields@));
            }
        },
        Expr::RecordLit { fields, span: _ } => {
            collect_called_inits(fields, names, out, Ghost(decls));
            proof {
                inits_mention_values(fields@);
                assert forall|name: Seq<char>| #[trigger] mentions(*e, name) == any_mentions(
                    init_values(fields@),
                    name,
                ) by {
                    assert(mentions(*e, name) == inits_mention(fields@, name));
                }
                mentions_split(decls, *e, init_values(fields@));
            }
        },
        Expr::With { base, fields, span: _ } => {
            collect_called_names(base, names, out, Ghost(decls));
            let ghost mid = out@;
            collect_called_inits(fields, names, out, Ghost(decls));
            proof {
                inits_mention_values(fields@);
                assert forall|name: Seq<char>| #[trigger] mentions(*e, name) == (mentions(
                    **base,
                    name,
                ) || any_mentions(init_values(fields@), name)) by {
                    assert(inits_mention(fields@, name) == any_mentions(
                        init_values(fields@),
                        name,
                    ));
                }
                split_head(decls, *e, **base, init_values(fields@), old(out)@, mid, out@);
            }
        },
        Expr::Interp { parts, span: _ } => {
            collect_called_parts(parts, names, out, Ghost(decls));
            proof {
                parts_mention_values(parts@);
                assert forall|name: Seq<char>| #[trigger] mentions(*e, name) == any_mentions(
                    part_values(parts@),
                    name,
                ) by {
                    assert(mentions(*e, name) == parts_mention(parts@, name));
                }
                mentions_split(decls, *e, part_values(parts@));
            }
        },
        Expr::Send { target, message: _, args, span: _ } => {
            collect_called_names(target, names, out, Ghost(decls));
            let ghost mid = out@;
            collect_called_all(args, names, out, Ghost(decls));
            proof {
                split_head(decls, *e, **target, args@, old(out)@, mid, out@);
            }
        },
        Expr::Ask { target, message: _, args, span: _ } => {
            collect_called_names(target, names, out, Ghost(decls));
            let ghost mid = out@;
            collect_called_all(args, names, out, Ghost(decls));
            proof {
                split_head(decls, *e, **target, args@, old(out)@, mid, out@);
            }
        },
        Expr::Spawn { actor: _, args, span: _ } => {
            collect_called_all(args, names, out, Ghost(decls));
            proof {
                mentions_split(decls, *e, args@);
            }
        },
        Expr::Literal(_) | Expr::Unit(_) | Expr::Qualified(_) | Expr::FieldAccessorFn { .. } => {
            assert forall|j: int| !mentions_decl(decls, *e, j) by {}
        },
    }
}

/// Adds the declarations that the fields of a record mention.
fn collect_called_inits(
    fs: &Vec<FieldInit>,
    names: &FxHashMap<String, DeclId>,
    out: &mut FxHashSet<u32>,
    Ghost(decls): Ghost<Seq<FnDecl>>,
)
    requires
        names_decls(by_name(names@), decls),
        decls.len() <= u32::MAX,
    ensures
        forall|j: u32| #[trigger]
            final(out)@.contains(j) <==> old(out)@.contains(j) || any_mention_decl(
                decls,
                init_values(fs@),
                j as int,
            ),
    decreases fs,
{
    let ghost vs = init_values(fs@);
    let mut i: usize = 0;
    while i < fs.len()
        invariant
            i <= fs@.len(),
            vs == init_values(fs@),
            names_decls(by_name(names@), decls),
            decls.len() <= u32::MAX,
            forall|j: u32| #[trigger]
                out@.contains(j) <==> old(out)@.contains(j) || exists|k: int|
                    0 <= k < i && mentions_decl(decls, #[trigger] vs[k], j as int),
        decreases fs@.len() - i,
    {
        let ghost was = out@;
        let fi = &fs[i];
        match &fi.value {
            Some(x) => collect_called_names(x, names, out, Ghost(decls)),
            None => collect_name(&fi.name, names, out, Ghost(decls)),
        }
        assert(adds(was, out@, decls, vs[i as int]));
        i = i + 1;
    }
}

/// Adds the declarations that the parts of an interpolated text mention.
fn collect_called_parts(
    parts: &Vec<InterpPart>,
    names: &FxHashMap<String, DeclId>,
    out: &mut FxHashSet<u32>,
    Ghost(decls): Ghost<Seq<FnDecl>>,
)
    requires
        names_decls(by_name(names@), decls),
        decls.len() <= u32::MAX,
    ensures
        forall|j: u32| #[trigger]
            final(out)@.contains(j) <==> old(out)@.contains(j) || any_mention_decl(
                decls,
                part_values(parts@),
                j as int,
            ),
    decreases parts,
{
    let ghost vs = part_values(parts@);
    let mut i: usize = 0;
    while i < parts.len()
        invariant
            i <= parts@.len(),
            vs == part_values(parts@),
            names_decls(by_name(names@), decls),
            decls.len() <= u32::MAX,
            forall|j: u32| #[trigger]
                out@.contains(j) <==> old(out)@.contains(j) || exists|k: int|
                    0 <= k < i && mentions_decl(decls, #[trigger] vs[k], j as int),
        decreases parts@.len() - i,
    {
        let ghost was = out@;
        match &parts[i] {
            InterpPart::Expr { expr, span: _ } => {
                collect_called_names(expr, names, out, Ghost(decls))
            },
            InterpPart::Text { raw: _, span } => {
                assert(vs[i as int] == Expr::Unit(*span));
                assert forall|j: int| !mentions_decl(decls, vs[i as int], j) by {}
            },
        }
        assert(adds(was, out@, decls, vs[i as int]));
        i = i + 1;
    }
}

/// An expression that mentions what one part of it mentions.
proof fn same_mentions(decls: Seq<FnDecl>, e: Expr, part: Expr)
    requires
        forall|name: Seq<char>| #[trigger] mentions(e, name) == mentions(part, name),
    ensures
        forall|j: int| #[trigger] mentions_decl(decls, e, j) == mentions_decl(decls, part, j),
{
    assert forall|j: int| #[trigger] mentions_decl(decls, e, j) == mentions_decl(decls, part, j) by {
        if mentions_decl(decls, part, j) {
            let name = choose|name: Seq<char>| #[trigger]
                mentions(part, name) && decl_named(decls, name) == Some(j as nat);
            assert(mentions(e, name));
        }
    }
}

/// An expression that mentions what two parts of it mention.
proof fn split_pair(decls: Seq<FnDecl>, e: Expr, a: Expr, b: Expr)
    requires
        forall|name: Seq<char>| #[trigger] mentions(e, name) == (mentions(a, name) || mentions(b, name)),
    ensures
        forall|j: int| #[trigger]
            mentions_decl(decls, e, j) == (mentions_decl(decls, a, j) || mentions_decl(decls, b, j)),
{
    assert forall|j: int| #[trigger]
        mentions_decl(decls, e, j) == (mentions_decl(decls, a, j) || mentions_decl(decls, b, j)) by {
        if mentions_decl(decls, a, j) {
            let name = choose|name: Seq<char>| #[trigger]
                mentions(a, name) && decl_named(decls, name) == Some(j as nat);
            assert(mentions(e, name));
        }
        if mentions_decl(decls, b, j) {
            let name = choose|name: Seq<char>| #[trigger]
                mentions(b, name) && decl_named(decls, name) == Some(j as nat);
            assert(mentions(e, name));
        }
    }
}

/// An expression that mentions what a part and a list of parts of it mention.
proof fn split_head(
    decls: Seq<FnDecl>,
    e: Expr,
    head: Expr,
    rest: Seq<Expr>,
    s0: Set<u32>,
    s1: Set<u32>,
    s2: Set<u32>,
)
    requires
        forall|name: Seq<char>| #[trigger]
            mentions(e, name) == (mentions(head, name) || any_mentions(rest, name)),
        adds(s0, s1, decls, head),
        forall|j: u32| #[trigger] s2.contains(j) <==> s1.contains(j) || any_mention_decl(decls, rest, j as int),
    ensures
        adds(s0, s2, decls, e),
{
    let parts = seq![head] + rest;
    assert forall|name: Seq<char>| #[trigger] mentions(e, name) == any_mentions(parts, name) by {
        if mentions(head, name) {
            assert(parts[0] == head);
        }
        if any_mentions(rest, name) {
            let i = choose|i: int| 0 <= i < rest.len() && mentions(#[trigger] rest[i], name);
            assert(parts[i + 1] == rest[i]);
        }
        if any_mentions(parts, name) {
            let i = choose|i: int| 0 <= i < parts.len() && mentions(#[trigger] parts[i], name);
            if i > 0 {
                assert(rest[i - 1] == parts[i]);
            }
        }
    }
    mentions_split(decls, e, parts);
    assert forall|j: u32| #[trigger] s2.contains(j) <==> s0.contains(j) || mentions_decl(decls, e, j as int) by {
        assert(mentions_decl(decls, e, j as int) <==> any_mention_decl(decls, parts, j as int));
        assert(s1.contains(j) <==> s0.contains(j) || mentions_decl(decls, head, j as int));
        if mentions_decl(decls, head, j as int) {
            assert(parts[0] == head);
        }
        if any_mention_decl(decls, rest, j as int) {
            let i = choose|i: int| 0 <= i < rest.len() && mentions_decl(decls, #[trigger] rest[i], j as int);
            assert(parts[i + 1] == rest[i]);
        }
        if any_mention_decl(decls, parts, j as int) {
            let i = choose|i: int| 0 <= i < parts.len() && mentions_decl(decls, #[trigger] parts[i], j as int);
            if i > 0 {
                assert(rest[i - 1] == parts[i]);
            }
        }
    }
}

fn collect_called_all(
    es: &Vec<Expr>,
    names: &FxHashMap<String, DeclId>,
    out: &mut FxHashSet<u32>,
    Ghost(decls): Ghost<Seq<FnDecl>>,
)
    requires
        names_decls(by_name(names@), decls),
        decls.len() <= u32::MAX,
    ensures
        forall|j: u32| #[trigger]
            final(out)@.contains(j) <==> old(out)@.contains(j) || any_mention_decl(
                decls,
                es@,
                j as int,
            ),
    decreases es,
{
    let mut i: usize = 0;
    while i < es.len()
        invariant
            i <= es@.len(),
            names_decls(by_name(names@), decls),
            decls.len() <= u32::MAX,
            forall|j: u32| #[trigger]
                out@.contains(j) <==> old(out)@.contains(j) || exists|k: int|
                    0 <= k < i && mentions_decl(decls, #[trigger] es@[k], j as int),
        decreases es@.len() - i,
    {
        let ghost was = out@;
        collect_called_names(&es[i], names, out, Ghost(decls));
        i = i + 1;
    }
}

/// Declaration `j` is mentioned in an arm of a match.
pub open spec fn arm_mentions_decl(decls: Seq<FnDecl>, arm: MatchArm, j: int) -> bool {
    mentions_decl(decls, arm.body, j) || (arm.guard matches Some(g) && mentions_decl(decls, g, j))
}

proof fn match_mentions(decls: Seq<FnDecl>, e: Expr, j: int)
    requires
        e is Match,
    ensures
        mentions_decl(decls, e, j) <==> mentions_decl(decls, *e->Match_scrutinee, j) || exists|
            k: int,
        |
            0 <= k < e->Match_arms@.len() && arm_mentions_decl(decls, #[trigger] e->Match_arms@[k], j),
{
    let arms = e->Match_arms@;
    let s = *e->Match_scrutinee;
    if mentions_decl(decls, e, j) {
        let name = choose|name: Seq<char>| #[trigger]
            mentions(e, name) && decl_named(decls, name) == Some(j as nat);
        if !mentions(s, name) {
            assert(arms_mention(arms, name));
            let k = choose|k: int|
                0 <= k < arms.len() && (mentions((#[trigger] arms[k]).body, name) || (
                arms[k].guard matches Some(g) && mentions(g, name)));
            if mentions(arms[k].body, name) {
                assert(mentions_decl(decls, arms[k].body, j));
            } else {
                assert(mentions_decl(decls, arms[k].guard->0, j));
            }
            assert(arm_mentions_decl(decls, arms[k], j));
        }
    }
    if mentions_decl(decls, s, j) {
        let name = choose|name: Seq<char>| #[trigger]
            mentions(s, name) && decl_named(decls, name) == Some(j as nat);
        assert(mentions(e, name));
    }
    if exists|k: int| 0 <= k < arms.len() && arm_mentions_decl(decls, #[trigger] arms[k], j) {
        let k = choose|k: int| 0 <= k < arms.len() && arm_mentions_decl(decls, #[trigger] arms[k], j);
        let x = if mentions_decl(decls, arms[k].body, j) {
            arms[k].body
        } else {
            arms[k].guard->0
        };
        let name = choose|name: Seq<char>| #[trigger]
            mentions(x, name) && decl_named(decls, name) == Some(j as nat);
        assert(arms_mention(arms, name)) by {
            assert(mentions(arms[k].body, name) || (arms[k].guard matches Some(g) && mentions(g, name)));
        }
        assert(mentions(e, name));
    }
}

fn collect_called_arms(
    arms: &Vec<MatchArm>,
    names: &FxHashMap<String, DeclId>,
    out: &mut FxHashSet<u32>,
    Ghost(decls): Ghost<Seq<FnDecl>>,
)
    requires
        names_decls(by_name(names@), decls),
        decls.len() <= u32::MAX,
    ensures
        forall|j: u32| #[trigger]
            final(out)@.contains(j) <==> old(out)@.contains(j) || exists|k: int|
                0 <= k < arms@.len() && arm_mentions_decl(decls, #[trigger] arms@[k], j as int),
    decreases arms,
{
    let mut i: usize = 0;
    while i < arms.len()
        invariant
            i <= arms@.len(),
            names_decls(by_name(names@), decls),
            decls.len() <= u32::MAX,
            forall|j: u32| #[trigger]
                out@.contains(j) <==> old(out)@.contains(j) || exists|k: int|
                    0 <= k < i && arm_mentions_decl(decls, #[trigger] arms@[k], j as int),
        decreases arms@.len() - i,
    {
        let arm = &arms[i];
        let ghost was = out@;
        collect_called_names(&arm.body, names, out, Ghost(decls));
        let ghost mid = out@;
        if let Some(g) = &arm.guard {
            collect_called_names(g, names, out, Ghost(decls));
        }
        assert forall|j: u32| #[trigger]
            out@.contains(j) <==> was.contains(j) || arm_mentions_decl(decls, *arm, j as int) by {
            assert(mid.contains(j) <==> was.contains(j) || mentions_decl(
                decls,
                arm.body,
                j as int,
            ));
        }
        i = i + 1;
    }
}

/// The table of the names of declarations.
fn name_table(decls: &Vec<FnDecl>) -> (m: FxHashMap<String, DeclId>)
    ensures
        names_decls(by_name(m@), decls@),
{
    let mut m: FxHashMap<String, DeclId> = FxHashMap::default();
    let mut i: usize = 0;
    assert(by_name(m@) =~= Map::<Seq<char>, DeclId>::empty());
    assert(decls@.take(0) =~= Seq::empty());
    while i < decls.len()
        invariant
            i <= decls@.len(),
            names_decls(by_name(m@), decls@.take(i as int)),
        decreases decls@.len() - i,
    {
        let ghost was = by_name(m@);
        put_name(&mut m, decls[i].name.text.clone(), DeclId(i));
        assert(names_decls(by_name(m@), decls@.take(i + 1))) by {
            let now = decls@.take(i + 1);
            assert(now.drop_last() =~= decls@.take(i as int));
            assert(now.last() == decls@[i as int]);
            assert forall|name: Seq<char>| #[trigger]
                decl_named(now, name) == if by_name(m@).dom().contains(name) {
                    Some(by_name(m@)[name].0 as nat)
                } else {
                    None
                } by {
                assert(decl_named(decls@.take(i as int), name) == if was.dom().contains(name) {
                    Some(was[name].0 as nat)
                } else {
                    None
                });
            }
        }
        i = i + 1;
    }
    assert(decls@.take(i as int) =~= decls@);
    m
}

/// `g` has a node for each declaration, and from each an edge to every
/// declaration that its body mentions, once.
pub open spec fn is_call_graph(g: CallGraph, decls: Seq<FnDecl>) -> bool {
    &&& g.n == decls.len()
    &&& g.adj@.len() == decls.len()
    &&& forall|i: int| 0 <= i < decls.len() ==> (#[trigger] g.adj@[i])@.no_duplicates()
    &&& forall|i: int, j: int| 0 <= i < decls.len() ==> (#[trigger] g.edge(i, j) <==> 0 <= j && calls(decls, i, j))
}

fn callees(
    decl: &FnDecl,
    names: &FxHashMap<String, DeclId>,
    Ghost(decls): Ghost<Seq<FnDecl>>,
) -> (r: Vec<DeclId>)
    requires
        names_decls(by_name(names@), decls),
        decls.len() <= u32::MAX,
    ensures
        r@.no_duplicates(),
        forall|j: usize| #[trigger]
            r@.contains(DeclId(j)) <==> body_calls(decls, *decl, j as int),
{
    let mut called: FxHashSet<u32> = FxHashSet::default();
    if let Body::Expr(e) = &decl.body {
        collect_called_names(e, names, &mut called, Ghost(decls));
    }
    let ids = list_ids(&called);
    let mut out: Vec<DeclId> = Vec::new();
    let mut i: usize = 0;
    while i < ids.len()
        invariant
            i <= ids@.len(),
            out@.len() == i,
            forall|k: int| 0 <= k < i ==> #[trigger] out@[k] == DeclId(ids@[k] as usize),
        decreases ids@.len() - i,
    {
        out.push(DeclId(ids[i] as usize));
        i = i + 1;
    }
    assert forall|a: int, b: int| 0 <= a < out@.len() && 0 <= b < out@.len() && a != b implies out@[a]
        != out@[b] by {
        assert(ids@[a] != ids@[b]);
    }
    assert forall|j: usize| #[trigger]
        out@.contains(DeclId(j)) <==> body_calls(decls, *decl, j as int) by {
        if out@.contains(DeclId(j)) {
            let k = choose|k: int| 0 <= k < out@.len() && out@[k] == DeclId(j);
            assert(ids@[k] as usize == j);
            assert(ids@.contains(ids@[k]));
            assert(called@.contains(j as u32));
        }
        if let Body::Expr(e) = decl.body {
            if mentions_decl(decls, e, j as int) {
                let name = choose|name: Seq<char>| #[trigger]
                    mentions(e, name) && decl_named(decls, name) == Some(j as nat);
                decl_named_bounds(decls, name);
                assert(called@.contains(j as u32));
                assert(ids@.contains(j as u32));
                let k = choose|k: int| 0 <= k < ids@.len() && ids@[k] == j as u32;
                assert(out@[k] == DeclId(j));
            }
        }
    }
    out
}

/// Builds the call graph of some declarations. In what order the calls of one
/// declaration are listed is left open.
#[must_use]
pub fn build_call_graph(decls: &Vec<FnDecl>) -> (g: CallGraph)
    requires
        decls@.len() <= u32::MAX,
    ensures
        g.wf(),
        is_call_graph(g, decls@),
{
    let names = name_table(decls);
    let n: usize = decls.len();
    let mut adj: Vec<Vec<DeclId>> = Vec::new();
    let mut i: usize = 0;
    while i < n
        invariant
            i <= n,
            n == decls@.len(),
            n <= u32::MAX,
            adj@.len() == i,
            names_decls(by_name(names@), decls@),
            forall|k: int| 0 <= k < i ==> (#[trigger] adj@[k])@.no_duplicates(),
            forall|k: int, j: usize|
                0 <= k < i ==> (#[trigger] adj@[k]@.contains(DeclId(j)) <==> calls(
                    decls@,
                    k,
                    j as int,
                )),
        decreases n - i,
    {
        adj.push(callees(&decls[i], &names, Ghost(decls@)));
        i = i + 1;
    }
    let g = CallGraph { n, adj };
    proof {
        assert forall|x: int, j: int| 0 <= x < decls@.len() implies (#[trigger] g.edge(x, j) <==> 0
            <= j && calls(decls@, x, j)) by {
            if g.edge(x, j) {
                let k = choose|k: int| 0 <= k < g.adj@[x]@.len() && (#[trigger] g.adj@[x]@[k]).0 == j;
                assert(g.adj@[x]@.contains(DeclId(j as usize)));
            }
            if 0 <= j && calls(decls@, x, j) {
                let e = decls@[x].body->Expr_0;
                let name = choose|name: Seq<char>| #[trigger]
                    mentions(e, name) && decl_named(decls@, name) == Some(j as nat);
                decl_named_bounds(decls@, name);
                assert(g.adj@[x]@.contains(DeclId(j as usize)));
                let k = choose|k: int| 0 <= k < g.adj@[x]@.len() && g.adj@[x]@[k] == DeclId(j as usize);
                assert(g.adj@[x]@[k].0 == j);
            }
        }
        assert forall|x: int, k: int| 0 <= x < g.n && 0 <= k < g.adj@[x]@.len() implies (
        #[trigger] g.adj@[x]@[k]).0 < g.n by {
            let j = g.adj@[x]@[k].0;
            assert(g.adj@[x]@.contains(DeclId(j)));
            let e = decls@[x].body->Expr_0;
            let name = choose|name: Seq<char>| #[trigger]
                mentions(e, name) && decl_named(decls@, name) == Some(j as nat);
            decl_named_bounds(decls@, name);
        }
    }
    g
}

/// What a declaration mentions stands in its own component or in an earlier
/// one, so that it is checked no later.
pub proof fn callees_are_checked_first(
    decls: Seq<FnDecl>,
    g: CallGraph,
    sccs: Seq<Seq<DeclId>>,
    at: int,
    i: int,
    j: int,
)
    requires
        is_call_graph(g, decls),
        are_sccs(g, sccs),
        in_component(sccs, at, i),
        0 <= i < decls.len(),
        0 <= j,
        calls(decls, i, j),
    ensures
        exists|k: int| k <= at && #[trigger] in_component(sccs, k, j),
{
    assert(g.edge(i, j));
}

} // verus!
