use rustc_hash::FxHashMap;
use std::sync::Arc;
use vstd::prelude::*;

use crate::ast::{ActorDecl, Expr, Item, Module, Pattern};
use crate::class_seeds::converts;
use crate::classes::{ClassTable, InstanceEnv};
use crate::ctx::{node_view, node_views, InferCtx};
use crate::decls::{
    check_decls, decls_checked, in_hand, module_cost, orderly, registries, reliable,
};
use crate::dicts::Registries;
use crate::error::TypeError;
use crate::fx::{by_name, put_name};
use crate::heads::TypeExpr;
use crate::module_check::{
    actor_caps, actor_of, all_caps_checked, bind_consts, caps_of, check_caps_of, consts_bound,
    consts_cost, find_actor, fns_cost, items_cost, items_walked, reliable_caps, reliable_patterns,
    typecheck_actor_bodies,
};
use crate::plans::{DictPlan, DictResolution};
use crate::qexpr::QuoteInfo;
use crate::setup::{
    bind_imported_schemes, merge_imported_tycons, methods_seeded, seed_all_methods, seed_room,
    type_names, with_imported, with_schemes,
};
use crate::stdlib_env::{
    only_bound, seed_stdlib_env, with_imports, with_prelude, ImportResolution, Stdlib,
};
use crate::suggest::{narrow_suggestions, narrowed};
use crate::table::{resolve, Table};
use crate::types::{
    preds, views, ActorSchema, BuiltinTyCons, CapabilitySet, ClassId, Constraint, Scheme, Span, Ty,
    TyConDecl, TyConId, TyVid, Type,
};

verus! {

broadcast use {crate::types::group_views, crate::diag::diags_push};

/// A module, by its slot in the workspace.
#[derive(Clone, Copy, Debug, PartialEq, Eq, Structural)]
pub struct ModuleId(pub u32);

/// A value that no arm of a match takes.
#[derive(Debug)]
pub struct MatchWitness {
    pub text: String,
}

/// A module after type checking.
pub struct TypedModule {
    pub id: ModuleId,
    pub ast: Arc<Module>,
    /// The types of the expressions, by their ids.
    pub node_types: Vec<Option<Type>>,
    /// The schemes of the top-level functions, by the ids of their bodies.
    pub schemes: FxHashMap<u32, Scheme>,
    /// The capabilities of the functions, by the ids of their bodies and by
    /// where they start.
    pub inferred_caps: FxHashMap<u32, CapabilitySet>,
    /// What the matches leave out, by their ids.
    pub match_witnesses: FxHashMap<u32, Vec<MatchWitness>>,
    /// How the constraints were solved.
    pub dict_resolution: DictResolution,
    /// The lambdas that are quotes, by the two ends of their place.
    pub quoted_lambdas: FxHashMap<(u32, u32), QuoteInfo>,
}

/// What type checking a module gives.
pub struct ModuleTypecheckResult {
    pub typed: TypedModule,
    pub errors: Vec<TypeError>,
    /// The constructors of the record types without a name, by their shapes.
    pub anon_records: Vec<(String, TyConId)>,
    /// The schemes of the top-level functions and constants, by their names.
    pub name_schemes: FxHashMap<String, Scheme>,
}

/// What type checking a single edited module gives, with the constructors that
/// its types refer to.
pub struct ModuleTypecheckIncremental {
    pub result: ModuleTypecheckResult,
    pub tycons: Vec<TyConDecl>,
}

/// A workspace after type checking.
pub struct TypedWorkspace<D> {
    /// The modules, each in the slot of its id.
    pub modules: Vec<TypedModule>,
    pub tycons: Vec<TyConDecl>,
    pub builtins: BuiltinTyCons,
    /// The constructors of the record types without a name, by their shapes.
    pub anon_records: FxHashMap<String, TyConId>,
    pub class_table: ClassTable,
    pub instance_env: InstanceEnv,
    /// The instances that come of `deriving` clauses.
    pub derived_instances: Vec<D>,
    /// The types that the standard library declares in source, by their names.
    pub stdlib_tycons: FxHashMap<String, TyConId>,
}

/// What type checking a workspace gives.
pub struct TypecheckResult<D> {
    pub typed: TypedWorkspace<D>,
    /// The diagnostics, each with the module that it is about.
    pub errors: Vec<(ModuleId, TypeError)>,
}

/// A module of which nothing is known but its slot.
pub open spec fn is_empty_module(m: TypedModule, id: ModuleId) -> bool {
    &&& m.id == id
    &&& m.ast.consts@.len() == 0
    &&& m.ast.fns@.len() == 0
    &&& m.ast.items@.len() == 0
    &&& m.ast.span == (Span { start: 0, end: 0 })
    &&& m.node_types@.len() == 0
    &&& m.schemes@ == Map::<u32, Scheme>::empty()
    &&& m.inferred_caps@ == Map::<u32, CapabilitySet>::empty()
    &&& m.match_witnesses@ == Map::<u32, Vec<MatchWitness>>::empty()
    &&& m.dict_resolution@ == Map::<(u32, u32), DictPlan>::empty()
    &&& m.quoted_lambdas@ == Map::<(u32, u32), QuoteInfo>::empty()
}

fn empty_module(id: ModuleId) -> (r: TypedModule)
    ensures
        is_empty_module(r, id),
{
    let ast = Module {
        consts: Vec::new(),
        fns: Vec::new(),
        items: Vec::new(),
        span: Span::new(0, 0),
    };
    TypedModule {
        id,
        ast: Arc::new(ast),
        node_types: Vec::new(),
        schemes: FxHashMap::default(),
        inferred_caps: FxHashMap::default(),
        match_witnesses: FxHashMap::default(),
        dict_resolution: FxHashMap::default(),
        quoted_lambdas: FxHashMap::default(),
    }
}

/// A result without anything in it.
pub open spec fn is_empty_result(r: ModuleTypecheckResult, id: ModuleId) -> bool {
    &&& is_empty_module(r.typed, id)
    &&& r.errors@.len() == 0
    &&& r.anon_records@.len() == 0
    &&& by_name(r.name_schemes@) == Map::<Seq<char>, Scheme>::empty()
}

/// The result for a module that is not there.
pub fn empty_module_result(module_id: ModuleId) -> (r: ModuleTypecheckResult)
    ensures
        is_empty_result(r, module_id),
{
    let name_schemes: FxHashMap<String, Scheme> = FxHashMap::default();
    assert(by_name(name_schemes@) =~= Map::<Seq<char>, Scheme>::empty());
    ModuleTypecheckResult {
        typed: empty_module(module_id),
        errors: Vec::new(),
        anon_records: Vec::new(),
        name_schemes,
    }
}

/// The type of an expression with everything known filled in.
pub open spec fn settled_node(tb: Table, t: Option<Ty>) -> Option<Ty> {
    match t {
        Some(x) => Some(resolve(tb, x)),
        None => None,
    }
}

/// The types of the expressions with everything known filled in.
pub open spec fn settled_nodes(tb: Table, ts: Seq<Option<Ty>>) -> Seq<Option<Ty>> {
    ts.map_values(|t: Option<Ty>| settled_node(tb, t))
}

fn settle_nodes(ctx: &InferCtx) -> (r: Vec<Option<Type>>)
    ensures
        node_views(r@) == settled_nodes(ctx.table(), node_views(ctx.node_types@)),
{
    let mut out: Vec<Option<Type>> = Vec::new();
    let mut i: usize = 0;
    while i < ctx.node_types.len()
        invariant
            i <= ctx.node_types@.len(),
            out@.len() == i,
            forall|k: int|
                0 <= k < i ==> node_view(#[trigger] out@[k]) == settled_node(
                    ctx.table(),
                    node_view(ctx.node_types@[k]),
                ),
        decreases ctx.node_types@.len() - i,
    {
        let t = match &ctx.node_types[i] {
            Some(t) => Some(ctx.deep_resolve(t)),
            None => None,
        };
        out.push(t);
        i = i + 1;
    }
    assert(node_views(out@) =~= settled_nodes(ctx.table(), node_views(ctx.node_types@)));
    out
}

/// `r` is what a context holds of a module.
pub open spec fn finished<S: Fn(&String, &Vec<String>) -> Vec<String>>(
    suggest: S,
    ctx: InferCtx,
    id: ModuleId,
    ast: Arc<Module>,
    caps: FxHashMap<u32, CapabilitySet>,
    anon_records: Vec<(String, TyConId)>,
    r: ModuleTypecheckResult,
) -> bool {
    &&& r.typed.id == id
    &&& r.typed.ast == ast
    &&& node_views(r.typed.node_types@) == settled_nodes(ctx.table(), node_views(ctx.node_types@))
    &&& r.typed.schemes == ctx.schemes_accum
    &&& r.typed.inferred_caps == caps
    &&& r.typed.match_witnesses@ == Map::<u32, Vec<MatchWitness>>::empty()
    &&& r.typed.dict_resolution == ctx.dict_resolution_accum
    &&& r.typed.quoted_lambdas == ctx.quoted_lambdas
    &&& r.errors@.len() == ctx.errors@.len()
    &&& forall|i: int|
        0 <= i < r.errors@.len() ==> narrowed(suggest, ctx.errors@[i], #[trigger] r.errors@[i])
    &&& r.anon_records == anon_records
    &&& r.name_schemes == ctx.name_schemes_accum
}

fn finish_module<S: Fn(&String, &Vec<String>) -> Vec<String>>(
    ctx: InferCtx,
    id: ModuleId,
    ast: Arc<Module>,
    caps: FxHashMap<u32, CapabilitySet>,
    anon_records: Vec<(String, TyConId)>,
    suggest: &S,
) -> (r: ModuleTypecheckResult)
    requires
        forall|name: &String, names: &Vec<String>| #[trigger]
            call_requires(*suggest, (name, names)),
    ensures
        finished(*suggest, ctx, id, ast, caps, anon_records, r),
{
    let node_types = settle_nodes(&ctx);
    let errors = narrow_suggestions(ctx.errors, suggest);
    ModuleTypecheckResult {
        typed: TypedModule {
            id,
            ast,
            node_types,
            schemes: ctx.schemes_accum,
            inferred_caps: caps,
            match_witnesses: FxHashMap::default(),
            dict_resolution: ctx.dict_resolution_accum,
            quoted_lambdas: ctx.quoted_lambdas,
        },
        errors,
        anon_records,
        name_schemes: ctx.name_schemes_accum,
    }
}

/// `d` is `c` after an item was held against the rules for actors. The
/// capabilities of an actor are those of any of its handlers.
pub open spec fn actor_ruled<
    M: Fn(&ActorDecl) -> Vec<TypeError>,
    N: Fn(&ActorDecl, CapabilitySet, &ActorSchema) -> Vec<TypeError>,
>(
    mailbox: M,
    encapsulation: N,
    c: InferCtx,
    d: InferCtx,
    tycons: Seq<TyConDecl>,
    item: Item,
) -> bool {
    match item {
        Item::Actor(decl) => exists|a: Vec<TypeError>| #[trigger]
            call_ensures(mailbox, (&decl,), a) && d == (InferCtx { errors: d.errors, ..c })
                && match actor_of(c, tycons, decl.name.text@) {
                Some(schema) => exists|z: Vec<TypeError>| #[trigger]
                    call_ensures(
                        encapsulation,
                        (&decl, caps_of(schema.handlers@, schema.handlers@.len()), &schema),
                        z,
                    ) && d.errors@ == c.errors@ + a@ + z@,
                None => d.errors@ == c.errors@ + a@,
            },
        _ => d == c,
    }
}

/// `d` is `c` after the first `k` items were held against the rules for actors,
/// in order.
pub open spec fn actors_ruled<
    M: Fn(&ActorDecl) -> Vec<TypeError>,
    N: Fn(&ActorDecl, CapabilitySet, &ActorSchema) -> Vec<TypeError>,
>(
    mailbox: M,
    encapsulation: N,
    c: InferCtx,
    d: InferCtx,
    tycons: Seq<TyConDecl>,
    items: Seq<Item>,
    k: nat,
) -> bool
    decreases k,
{
    if k == 0 || k > items.len() {
        d == c
    } else {
        let item = items[k - 1];
        exists|m: InferCtx| #[trigger]
            actor_ruled(mailbox, encapsulation, m, d, tycons, item) && actors_ruled(
                mailbox,
                encapsulation,
                c,
                m,
                tycons,
                items,
                (k - 1) as nat,
            )
    }
}

proof fn one_more_ruled<
    M: Fn(&ActorDecl) -> Vec<TypeError>,
    N: Fn(&ActorDecl, CapabilitySet, &ActorSchema) -> Vec<TypeError>,
>(
    mailbox: M,
    encapsulation: N,
    c: InferCtx,
    m: InferCtx,
    d: InferCtx,
    tycons: Seq<TyConDecl>,
    items: Seq<Item>,
    k: nat,
)
    requires
        k < items.len(),
        actors_ruled(mailbox, encapsulation, c, m, tycons, items, k),
        actor_ruled(mailbox, encapsulation, m, d, tycons, items[k as int]),
    ensures
        actors_ruled(mailbox, encapsulation, c, d, tycons, items, (k + 1) as nat),
{
    assert(actors_ruled(mailbox, encapsulation, c, m, tycons, items, (k + 1 - 1) as nat));
}

/// The rules for actors can be asked of any actor.
pub open spec fn ready_rules<
    M: Fn(&ActorDecl) -> Vec<TypeError>,
    N: Fn(&ActorDecl, CapabilitySet, &ActorSchema) -> Vec<TypeError>,
>(mailbox: M, encapsulation: N) -> bool {
    &&& forall|d: &ActorDecl| #[trigger] call_requires(mailbox, (d,))
    &&& forall|d: &ActorDecl, caps: CapabilitySet, s: &ActorSchema| #[trigger]
        call_requires(encapsulation, (d, caps, s))
}

fn check_actors<
    M: Fn(&ActorDecl) -> Vec<TypeError>,
    N: Fn(&ActorDecl, CapabilitySet, &ActorSchema) -> Vec<TypeError>,
>(
    ctx: InferCtx,
    items: &Vec<Item>,
    tycons: &Vec<TyConDecl>,
    mailbox: &M,
    encapsulation: &N,
) -> (r: InferCtx)
    requires
        ready_rules(*mailbox, *encapsulation),
    ensures
        actors_ruled(*mailbox, *encapsulation, ctx, r, tycons@, items@, items@.len()),
{
    let ghost c0 = ctx;
    let mut ctx = ctx;
    let mut i: usize = 0;
    while i < items.len()
        invariant
            i <= items@.len(),
            ready_rules(*mailbox, *encapsulation),
            actors_ruled(*mailbox, *encapsulation, c0, ctx, tycons@, items@, i as nat),
        decreases items@.len() - i,
    {
        let ghost m = ctx;
        if let Item::Actor(decl) = &items[i] {
            let mut a = mailbox(decl);
            let ghost first = a;
            ctx.errors.append(&mut a);
            let found = find_actor(&ctx, tycons, decl.name.text.as_str());
            assert(actor_of(ctx, tycons@, decl.name.text@) == actor_of(
                m,
                tycons@,
                decl.name.text@,
            ));
            if let Some(schema) = found {
                let mut z = encapsulation(decl, actor_caps(schema), schema);
                let ghost second = z;
                assert(call_ensures(
                    *encapsulation,
                    (
                        decl,
                        caps_of(schema.handlers@, schema.handlers@.len()),
                        schema,
                    ),
                    second,
                ));
                ctx.errors.append(&mut z);
            }
            assert(call_ensures(*mailbox, (decl,), first));
        }
        assert(actor_ruled(*mailbox, *encapsulation, m, ctx, tycons@, items@[i as int]));
        proof {
            one_more_ruled(*mailbox, *encapsulation, c0, m, ctx, tycons@, items@, i as nat);
        }
        i = i + 1;
    }
    ctx
}

/// The passes that look at expressions, patterns, capabilities, actors and
/// written types.
pub struct Passes<F, P, K, M, N, S, V> {
    /// Infers the type of an expression.
    pub infer: F,
    /// Binds the names of a pattern.
    pub bind: P,
    /// Checks the capabilities of a function.
    pub caps: K,
    /// Checks the mailbox of an actor.
    pub mailbox: M,
    /// Checks that an actor needs no more than its handlers.
    pub encapsulation: N,
    /// Picks the names that are close to one that is not known.
    pub suggest: S,
    /// Reads a written type, by the names of types and of variables.
    pub convert: V,
}

/// What type checking a module needs from around it.
pub struct ModuleInputs<'a> {
    /// The classes and the instances of the workspace. There are none of either
    /// where a module is checked without them.
    pub class_table: &'a ClassTable,
    pub instances: &'a InstanceEnv,
    /// The classes of the prelude codecs, where there are classes.
    pub codecs: Option<(ClassId, ClassId)>,
    pub imports: &'a Vec<ImportResolution>,
    pub stdlib: &'a Stdlib,
    /// The types that the standard library declares in source.
    pub stdlib_names: &'a FxHashMap<String, TyConId>,
    /// The types of the workspace.
    pub global_names: &'a FxHashMap<String, TyConId>,
    /// What the imported modules export.
    pub imported_schemes: &'a Vec<(String, Scheme)>,
}

/// A module whose declarations were collected: its source, and a context that
/// knows its names and constructors.
pub struct Prepared {
    pub ctx: InferCtx,
    pub ast: Arc<Module>,
    /// The constructors, the same as those of the context.
    pub tycons: Vec<TyConDecl>,
    /// The constructors of the record types without a name, by their shapes.
    pub anon_records: Vec<(String, TyConId)>,
    pub imports: Vec<ImportResolution>,
}

/// What a module imports from modules that were checked before.
pub struct Imported {
    /// Types, by their names.
    pub tycons: Vec<(String, TyConId)>,
    pub schemes: Vec<(String, Scheme)>,
}

/// What the modules of a workspace share.
pub struct Shared {
    pub builtins: BuiltinTyCons,
    pub class_table: ClassTable,
    pub instance_env: InstanceEnv,
    /// The classes of the prelude codecs.
    pub encode: ClassId,
    pub decode: ClassId,
    pub stdlib: Stdlib,
    /// The types that the standard library declares in source, by their names.
    pub stdlib_tycons: FxHashMap<String, TyConId>,
}

/// The contexts between the steps of type checking a module.
pub struct Trace {
    pub seeded: InferCtx,
    pub named: InferCtx,
    pub imported: InferCtx,
    pub consts: InferCtx,
    pub fns: InferCtx,
    pub caps: InferCtx,
    pub actors: InferCtx,
    pub ruled: InferCtx,
    pub inferred: FxHashMap<u32, CapabilitySet>,
}

/// The steps of type checking a module, in order.
pub open spec fn follows<
    F: Fn(InferCtx, &Expr) -> (InferCtx, Type),
    P: Fn(InferCtx, &Pattern, &Type, Span) -> InferCtx,
    K: Fn(InferCtx, &String, Option<CapabilitySet>, &Expr, Span) -> (InferCtx, CapabilitySet),
    M: Fn(&ActorDecl) -> Vec<TypeError>,
    N: Fn(&ActorDecl, CapabilitySet, &ActorSchema) -> Vec<TypeError>,
    S: Fn(&String, &Vec<String>) -> Vec<String>,
    V: Fn(InferCtx, &TypeExpr, &FxHashMap<String, TyConId>, &FxHashMap<String, TyVid>) -> (
        InferCtx,
        Type,
    ),
>(
    passes: Passes<F, P, K, M, N, S, V>,
    b: BuiltinTyCons,
    inputs: ModuleInputs,
    c: InferCtx,
    ast: Module,
    t: Trace,
) -> bool {
    &&& match inputs.codecs {
        Some((encode, decode)) => methods_seeded(
            passes.convert,
            c,
            t.seeded,
            b,
            inputs.class_table.classes@,
            encode,
            decode,
            type_names(c, *inputs.stdlib_names, *inputs.global_names),
        ),
        None => t.seeded == c,
    }
    &&& t.named.env@ == with_imports(
        with_prelude(t.seeded.env@, b),
        *inputs.stdlib,
        inputs.imports@,
        inputs.imports@.len(),
    )
    &&& only_bound(t.seeded, t.named)
    &&& t.imported.env@ == with_schemes(
        t.named.env@,
        inputs.imported_schemes@,
        inputs.imported_schemes@.len(),
    )
    &&& only_bound(t.named, t.imported)
    &&& consts_bound(passes.infer, t.imported, t.consts, ast.consts@, ast.consts@.len())
    &&& if ast.fns@.len() == 0 {
        t.fns == t.consts
    } else {
        decls_checked(
            passes.infer,
            registries(&b, inputs.class_table, inputs.instances),
            t.consts,
            t.fns,
            ast.fns@,
        )
    }
    &&& all_caps_checked(passes.caps, t.fns, t.caps, t.inferred@, ast.fns@, ast.fns@.len())
    &&& items_walked(
        passes.infer,
        passes.bind,
        t.caps,
        t.actors,
        c.tycon_decls@,
        ast.items@,
        ast.items@.len(),
    )
    &&& actors_ruled(
        passes.mailbox,
        passes.encapsulation,
        t.actors,
        t.ruled,
        c.tycon_decls@,
        ast.items@,
        ast.items@.len(),
    )
}

/// A context as the module with id `id` is looked at in it.
pub open spec fn within(c: InferCtx, id: ModuleId) -> InferCtx {
    InferCtx { current_module_raw: Some(id.0), ..c }
}

/// `r` is what type checking a module from a context gives.
pub open spec fn module_typechecked<
    F: Fn(InferCtx, &Expr) -> (InferCtx, Type),
    P: Fn(InferCtx, &Pattern, &Type, Span) -> InferCtx,
    K: Fn(InferCtx, &String, Option<CapabilitySet>, &Expr, Span) -> (InferCtx, CapabilitySet),
    M: Fn(&ActorDecl) -> Vec<TypeError>,
    N: Fn(&ActorDecl, CapabilitySet, &ActorSchema) -> Vec<TypeError>,
    S: Fn(&String, &Vec<String>) -> Vec<String>,
    V: Fn(InferCtx, &TypeExpr, &FxHashMap<String, TyConId>, &FxHashMap<String, TyVid>) -> (
        InferCtx,
        Type,
    ),
>(
    passes: Passes<F, P, K, M, N, S, V>,
    b: BuiltinTyCons,
    inputs: ModuleInputs,
    c: InferCtx,
    id: ModuleId,
    ast: Arc<Module>,
    anon_records: Vec<(String, TyConId)>,
    r: ModuleTypecheckResult,
) -> bool {
    exists|t: Trace| #[trigger]
        follows(passes, b, inputs, within(c, id), *ast, t) && finished(
            passes.suggest,
            t.ruled,
            id,
            ast,
            t.inferred,
            anon_records,
            r,
        )
}

/// The passes can be relied on, where an expression may need as many variables
/// as `cost` says, a pattern as many as `pats` says, a check of capabilities as
/// many as `caps` says, and a written type as many as `types` says.
pub open spec fn ready_passes<
    F: Fn(InferCtx, &Expr) -> (InferCtx, Type),
    P: Fn(InferCtx, &Pattern, &Type, Span) -> InferCtx,
    K: Fn(InferCtx, &String, Option<CapabilitySet>, &Expr, Span) -> (InferCtx, CapabilitySet),
    M: Fn(&ActorDecl) -> Vec<TypeError>,
    N: Fn(&ActorDecl, CapabilitySet, &ActorSchema) -> Vec<TypeError>,
    S: Fn(&String, &Vec<String>) -> Vec<String>,
    V: Fn(InferCtx, &TypeExpr, &FxHashMap<String, TyConId>, &FxHashMap<String, TyVid>) -> (
        InferCtx,
        Type,
    ),
>(
    passes: Passes<F, P, K, M, N, S, V>,
    k: Registries,
    cost: spec_fn(Expr) -> nat,
    pats: spec_fn(Pattern) -> nat,
    caps: spec_fn(Expr) -> nat,
    types: spec_fn(TypeExpr) -> nat,
) -> bool {
    &&& reliable(passes.infer, cost)
    &&& orderly(passes.infer, k, cost)
    &&& reliable_patterns(passes.bind, pats)
    &&& reliable_caps(passes.caps, caps)
    &&& converts(passes.convert, types)
    &&& ready_rules(passes.mailbox, passes.encapsulation)
    &&& forall|name: &String, names: &Vec<String>| #[trigger]
        call_requires(passes.suggest, (name, names))
}

/// How many variables a module may need.
pub open spec fn module_room(
    k: Registries,
    codecs: Option<(ClassId, ClassId)>,
    ast: Module,
    cost: spec_fn(Expr) -> nat,
    pats: spec_fn(Pattern) -> nat,
    caps: spec_fn(Expr) -> nat,
    types: spec_fn(TypeExpr) -> nat,
) -> int {
    consts_cost(ast.consts@, cost, ast.consts@.len()) + module_cost(ast.fns@, cost) + fns_cost(
        ast.fns@,
        caps,
        ast.fns@.len(),
    ) + items_cost(ast.items@, cost, pats, ast.items@.len()) + match codecs {
        Some(_) => seed_room(k.classes.classes@, types) as int,
        None => 0,
    }
}

/// The passes can be relied on for a module, and there is room for what it needs.
pub open spec fn can_check<
    F: Fn(InferCtx, &Expr) -> (InferCtx, Type),
    P: Fn(InferCtx, &Pattern, &Type, Span) -> InferCtx,
    K: Fn(InferCtx, &String, Option<CapabilitySet>, &Expr, Span) -> (InferCtx, CapabilitySet),
    M: Fn(&ActorDecl) -> Vec<TypeError>,
    N: Fn(&ActorDecl, CapabilitySet, &ActorSchema) -> Vec<TypeError>,
    S: Fn(&String, &Vec<String>) -> Vec<String>,
    V: Fn(InferCtx, &TypeExpr, &FxHashMap<String, TyConId>, &FxHashMap<String, TyVid>) -> (
        InferCtx,
        Type,
    ),
>(
    passes: Passes<F, P, K, M, N, S, V>,
    k: Registries,
    codecs: Option<(ClassId, ClassId)>,
    c: InferCtx,
    ast: Module,
) -> bool {
    exists|
        cost: spec_fn(Expr) -> nat,
        pats: spec_fn(Pattern) -> nat,
        caps: spec_fn(Expr) -> nat,
        types: spec_fn(TypeExpr) -> nat,
    | #[trigger]
        ready_passes(passes, k, cost, pats, caps, types) && in_hand(
            k,
            c,
            module_room(k, codecs, ast, cost, pats, caps, types),
        )
}

/// Type checks a module. The context has the names and the constructors of its
/// declarations, and a scope with its own constructors.
pub fn typecheck_module_inner<
    F: Fn(InferCtx, &Expr) -> (InferCtx, Type),
    P: Fn(InferCtx, &Pattern, &Type, Span) -> InferCtx,
    K: Fn(InferCtx, &String, Option<CapabilitySet>, &Expr, Span) -> (InferCtx, CapabilitySet),
    M: Fn(&ActorDecl) -> Vec<TypeError>,
    N: Fn(&ActorDecl, CapabilitySet, &ActorSchema) -> Vec<TypeError>,
    S: Fn(&String, &Vec<String>) -> Vec<String>,
    V: Fn(InferCtx, &TypeExpr, &FxHashMap<String, TyConId>, &FxHashMap<String, TyVid>) -> (
        InferCtx,
        Type,
    ),
>(
    ctx: InferCtx,
    b: &BuiltinTyCons,
    inputs: &ModuleInputs,
    id: ModuleId,
    ast: Arc<Module>,
    tycons: &Vec<TyConDecl>,
    anon_records: Vec<(String, TyConId)>,
    passes: &Passes<F, P, K, M, N, S, V>,
) -> (r: ModuleTypecheckResult)
    requires
        ctx.wf(),
        ctx.env@.len() > 0,
        ctx.tycon_decls@ == tycons@,
        inputs.instances.fn_arities.wf(),
        ast.fns@.len() <= u32::MAX,
        can_check(
            *passes,
            registries(b, inputs.class_table, inputs.instances),
            inputs.codecs,
            ctx,
            *ast,
        ),
    ensures
        module_typechecked(*passes, *b, *inputs, ctx, id, ast, anon_records, r),
{
    let ghost c = ctx;
    let ghost k = registries(b, inputs.class_table, inputs.instances);
    let ghost (cost, pats, effects, types) = choose|
        cost: spec_fn(Expr) -> nat,
        pats: spec_fn(Pattern) -> nat,
        caps: spec_fn(Expr) -> nat,
        types: spec_fn(TypeExpr) -> nat,
    | #[trigger]
        ready_passes(*passes, k, cost, pats, caps, types) && in_hand(
            k,
            c,
            module_room(k, inputs.codecs, *ast, cost, pats, caps, types),
        );
    let ghost last = items_cost(ast.items@, cost, pats, ast.items@.len()) as int;
    let ghost later = fns_cost(ast.fns@, effects, ast.fns@.len()) + last;
    let ghost n = module_cost(ast.fns@, cost) + later;
    let mut ctx = ctx;
    ctx.current_module_raw = Some(id.0);
    let ghost c = within(c, id);
    assert(ctx == c);
    if let Some((encode, decode)) = inputs.codecs {
        ctx =
        seed_all_methods(
            ctx,
            b,
            inputs.class_table,
            encode,
            decode,
            inputs.stdlib_names,
            inputs.global_names,
            &passes.convert,
            Ghost(types),
        );
    }
    let ghost seeded = ctx;
    assert(seeded.env@.len() == c.env@.len());
    assert(in_hand(k, seeded, n + consts_cost(ast.consts@, cost, ast.consts@.len())));
    seed_stdlib_env(&mut ctx, b, inputs.imports, inputs.stdlib);
    let ghost named = ctx;
    bind_imported_schemes(&mut ctx, inputs.imported_schemes);
    let ghost imported = ctx;
    let ctx = bind_consts(ctx, &ast.consts, &passes.infer, Ghost(k), Ghost(cost), Ghost(n));
    let ghost consts = ctx;
    let ctx = check_decls(
        ctx,
        b,
        &ast.fns,
        inputs.class_table,
        inputs.instances,
        &passes.infer,
        Ghost(cost),
        Ghost(later),
    );
    let ghost fns = ctx;
    let (ctx, inferred) = check_caps_of(ctx, &ast.fns, &passes.caps, Ghost(effects));
    let ghost caps = ctx;
    assert(ctx.has_room(last));
    let ctx = typecheck_actor_bodies(ctx, &ast.items, tycons, &passes.infer, &passes.bind);
    let ghost actors = ctx;
    let ctx = check_actors(
        ctx,
        &ast.items,
        tycons,
        &passes.mailbox,
        &passes.encapsulation,
    );
    let ghost t = Trace {
        seeded,
        named,
        imported,
        consts,
        fns,
        caps,
        actors,
        ruled: ctx,
        inferred,
    };
    assert(follows(*passes, *b, *inputs, c, *ast, t));
    finish_module(ctx, id, ast, inferred, anon_records, &passes.suggest)
}

/// The constraints, the parameters and the result of a function of the standard
/// library that is declared in source. There is nothing where its scheme is not
/// known or is none of a function.
#[must_use]
pub fn reconciled_fn_dict_sig(scheme: Option<Scheme>) -> (r: Option<
    (Vec<Constraint>, Vec<Type>, Type),
>)
    ensures
        r is Some <==> (scheme is Some && scheme->0.ty@ is Fn),
        r matches Some((cs, ps, ret)) ==> {
            &&& preds(cs@) == scheme->0@.constraints
            &&& views(ps@) == scheme->0@.ty->Fn_params
            &&& ret@ == *scheme->0@.ty->Fn_ret
        },
{
    match scheme {
        Some(s) => match s.ty {
            Type::Fn { params, ret, caps } => {
                assert(s.ty@ == Ty::Fn { params: views(params@), ret: Box::new(ret@), caps });
                Some((s.constraints, params, *ret))
            },
            _ => None,
        },
        None => None,
    }
}

/// How far type checking a workspace has come.
pub struct WorkspaceProgress {
    /// The modules that were checked, each in its slot.
    pub slots: Vec<Option<TypedModule>>,
    /// What each module exports.
    pub exported: Vec<FxHashMap<String, Scheme>>,
    pub errors: Vec<(ModuleId, TypeError)>,
    pub anon_records: FxHashMap<String, TyConId>,
    pub tycons: Vec<TyConDecl>,
}

/// Diagnostics, each with the module that it is about.
pub open spec fn tagged(id: ModuleId, errors: Seq<TypeError>) -> Seq<(ModuleId, TypeError)> {
    errors.map_values(|e: TypeError| (id, e))
}

/// A table with the first `k` of a list of entries. A later entry wins.
pub open spec fn with_entries(
    m: Map<Seq<char>, TyConId>,
    entries: Seq<(String, TyConId)>,
    k: nat,
) -> Map<Seq<char>, TyConId>
    decreases k,
{
    if k == 0 || k > entries.len() {
        m
    } else {
        with_entries(m, entries, (k - 1) as nat).insert(entries[k - 1].0@, entries[k - 1].1)
    }
}

fn add_entries(m: &mut FxHashMap<String, TyConId>, entries: &Vec<(String, TyConId)>)
    ensures
        by_name(final(m)@) == with_entries(by_name(old(m)@), entries@, entries@.len()),
{
    let ghost first = by_name(m@);
    let mut i: usize = 0;
    while i < entries.len()
        invariant
            i <= entries@.len(),
            first == by_name(old(m)@),
            by_name(m@) == with_entries(first, entries@, i as nat),
        decreases entries@.len() - i,
    {
        put_name(m, entries[i].0.clone(), entries[i].1);
        i = i + 1;
    }
}

fn turned<T>(v: Vec<T>) -> (r: Vec<T>)
    ensures
        r@ == v@.reverse(),
{
    let ghost all = v@;
    let mut v = v;
    let mut out: Vec<T> = Vec::new();
    while v.len() > 0
        invariant
            v@.len() + out@.len() == all.len(),
            v@ == all.take(v@.len() as int),
            forall|i: int| 0 <= i < out@.len() ==> #[trigger] out@[i] == all[all.len() - 1 - i],
        decreases v@.len(),
    {
        if let Some(x) = v.pop() {
            assert(x == all[v@.len() as int]);
            out.push(x);
            assert(v@ =~= all.take(v@.len() as int));
        }
    }
    assert(out@ =~= all.reverse());
    out
}

fn tag_errors(id: ModuleId, errors: Vec<TypeError>) -> (r: Vec<(ModuleId, TypeError)>)
    ensures
        r@ == tagged(id, errors@),
{
    let ghost all = errors@;
    let mut rest = turned(errors);
    let mut out: Vec<(ModuleId, TypeError)> = Vec::new();
    while rest.len() > 0
        invariant
            rest@.len() + out@.len() == all.len(),
            rest@ == all.reverse().take(rest@.len() as int),
            forall|i: int| 0 <= i < out@.len() ==> #[trigger] out@[i] == (id, all[i]),
        decreases rest@.len(),
    {
        if let Some(e) = rest.pop() {
            assert(e == all.reverse()[rest@.len() as int]);
            out.push((id, e));
            assert(rest@ =~= all.reverse().take(rest@.len() as int));
        }
    }
    assert(out@ =~= tagged(id, all));
    out
}

/// What type checking a module of a workspace needs from around it.
pub open spec fn inputs_of<'a>(
    shared: &'a Shared,
    names: &'a FxHashMap<String, TyConId>,
    imports: &'a Vec<ImportResolution>,
    schemes: &'a Vec<(String, Scheme)>,
) -> ModuleInputs<'a> {
    ModuleInputs {
        class_table: &shared.class_table,
        instances: &shared.instance_env,
        codecs: Some((shared.encode, shared.decode)),
        imports,
        stdlib: &shared.stdlib,
        stdlib_names: &shared.stdlib_tycons,
        global_names: names,
        imported_schemes: schemes,
    }
}

/// A module that was collected can be checked: its context is in order, and the
/// passes can be relied on for it.
pub open spec fn can_go<
    F: Fn(InferCtx, &Expr) -> (InferCtx, Type),
    P: Fn(InferCtx, &Pattern, &Type, Span) -> InferCtx,
    K: Fn(InferCtx, &String, Option<CapabilitySet>, &Expr, Span) -> (InferCtx, CapabilitySet),
    M: Fn(&ActorDecl) -> Vec<TypeError>,
    N: Fn(&ActorDecl, CapabilitySet, &ActorSchema) -> Vec<TypeError>,
    S: Fn(&String, &Vec<String>) -> Vec<String>,
    V: Fn(InferCtx, &TypeExpr, &FxHashMap<String, TyConId>, &FxHashMap<String, TyVid>) -> (
        InferCtx,
        Type,
    ),
>(
    passes: Passes<F, P, K, M, N, S, V>,
    shared: Shared,
    pm: Prepared,
) -> bool {
    &&& pm.ctx.wf()
    &&& pm.ctx.env@.len() > 0
    &&& pm.ctx.tycon_decls@ == pm.tycons@
    &&& pm.ast.fns@.len() <= u32::MAX
    &&& can_check(
        passes,
        registries(&shared.builtins, &shared.class_table, &shared.instance_env),
        Some((shared.encode, shared.decode)),
        pm.ctx,
        *pm.ast,
    )
}

/// A context with the names of imported types beside its own.
pub open spec fn with_types(c: InferCtx, d: InferCtx, imported: Seq<(String, TyConId)>) -> bool {
    &&& by_name(d.user_tycon_names@) == with_imported(
        by_name(c.user_tycon_names@),
        imported,
        imported.len(),
    )
    &&& d == (InferCtx { user_tycon_names: d.user_tycon_names, ..c })
}

/// `r` is what type checking a module that was collected gives.
pub open spec fn prepared_checked<
    F: Fn(InferCtx, &Expr) -> (InferCtx, Type),
    P: Fn(InferCtx, &Pattern, &Type, Span) -> InferCtx,
    K: Fn(InferCtx, &String, Option<CapabilitySet>, &Expr, Span) -> (InferCtx, CapabilitySet),
    M: Fn(&ActorDecl) -> Vec<TypeError>,
    N: Fn(&ActorDecl, CapabilitySet, &ActorSchema) -> Vec<TypeError>,
    S: Fn(&String, &Vec<String>) -> Vec<String>,
    V: Fn(InferCtx, &TypeExpr, &FxHashMap<String, TyConId>, &FxHashMap<String, TyVid>) -> (
        InferCtx,
        Type,
    ),
>(
    passes: Passes<F, P, K, M, N, S, V>,
    shared: Shared,
    names: FxHashMap<String, TyConId>,
    id: ModuleId,
    pm: Prepared,
    im: Imported,
    r: ModuleTypecheckResult,
) -> bool {
    exists|c: InferCtx| #[trigger]
        with_types(pm.ctx, c, im.tycons@) && module_typechecked(
            passes,
            shared.builtins,
            inputs_of(&shared, &names, &pm.imports, &im.schemes),
            c,
            id,
            pm.ast,
            pm.anon_records,
            r,
        )
}

fn check_prepared<
    F: Fn(InferCtx, &Expr) -> (InferCtx, Type),
    P: Fn(InferCtx, &Pattern, &Type, Span) -> InferCtx,
    K: Fn(InferCtx, &String, Option<CapabilitySet>, &Expr, Span) -> (InferCtx, CapabilitySet),
    M: Fn(&ActorDecl) -> Vec<TypeError>,
    N: Fn(&ActorDecl, CapabilitySet, &ActorSchema) -> Vec<TypeError>,
    S: Fn(&String, &Vec<String>) -> Vec<String>,
    V: Fn(InferCtx, &TypeExpr, &FxHashMap<String, TyConId>, &FxHashMap<String, TyVid>) -> (
        InferCtx,
        Type,
    ),
>(
    passes: &Passes<F, P, K, M, N, S, V>,
    shared: &Shared,
    names: &FxHashMap<String, TyConId>,
    id: ModuleId,
    pm: Prepared,
    im: Imported,
) -> (r: (ModuleTypecheckResult, Vec<TyConDecl>))
    requires
        shared.instance_env.fn_arities.wf(),
        can_go(*passes, *shared, pm),
    ensures
        prepared_checked(*passes, *shared, *names, id, pm, im, r.0),
        r.0.typed.id == id,
        r.1 == pm.tycons,
{
    let ghost given = pm;
    let Prepared { ctx, ast, tycons, anon_records, imports } = pm;
    let mut ctx = ctx;
    merge_imported_tycons(&mut ctx.user_tycon_names, &im.tycons);
    let ghost c = ctx;
    assert(with_types(given.ctx, c, im.tycons@));
    let inputs = ModuleInputs {
        class_table: &shared.class_table,
        instances: &shared.instance_env,
        codecs: Some((shared.encode, shared.decode)),
        imports: &imports,
        stdlib: &shared.stdlib,
        stdlib_names: &shared.stdlib_tycons,
        global_names: names,
        imported_schemes: &im.schemes,
    };
    assert(inputs == inputs_of(shared, names, &given.imports, &im.schemes));
    let r = typecheck_module_inner(
        ctx,
        &shared.builtins,
        &inputs,
        id,
        ast,
        &tycons,
        anon_records,
        passes,
    );
    (r, tycons)
}

/// Collecting the declarations of modules can be relied on: it can be asked of
/// any module, keeps the constructors so far where they are, adds none where
/// there is no source, and gives modules that can be checked.
pub open spec fn collects<
    E: Fn(ModuleId, Vec<TyConDecl>, &Vec<FxHashMap<String, Scheme>>) -> Result<
        (Prepared, Imported),
        Vec<TyConDecl>,
    >,
    F: Fn(InferCtx, &Expr) -> (InferCtx, Type),
    P: Fn(InferCtx, &Pattern, &Type, Span) -> InferCtx,
    K: Fn(InferCtx, &String, Option<CapabilitySet>, &Expr, Span) -> (InferCtx, CapabilitySet),
    M: Fn(&ActorDecl) -> Vec<TypeError>,
    N: Fn(&ActorDecl, CapabilitySet, &ActorSchema) -> Vec<TypeError>,
    S: Fn(&String, &Vec<String>) -> Vec<String>,
    V: Fn(InferCtx, &TypeExpr, &FxHashMap<String, TyConId>, &FxHashMap<String, TyVid>) -> (
        InferCtx,
        Type,
    ),
>(
    prepare: E,
    passes: Passes<F, P, K, M, N, S, V>,
    shared: Shared,
) -> bool {
    &&& forall|id: ModuleId, ts: Vec<TyConDecl>, ex: &Vec<FxHashMap<String, Scheme>>| #[trigger]
        call_requires(prepare, (id, ts, ex))
    &&& forall|
        id: ModuleId,
        ts: Vec<TyConDecl>,
        ex: &Vec<FxHashMap<String, Scheme>>,
        out: Result<(Prepared, Imported), Vec<TyConDecl>>,
    | #[trigger]
        call_ensures(prepare, (id, ts, ex), out) ==> match out {
            Ok((pm, im)) => ts@.is_prefix_of(pm.tycons@) && can_go(passes, shared, pm),
            Err(rest) => rest@ == ts@,
        }
}

/// `q` is `p` after the module in a slot was checked. A module that there is no
/// source of is left empty.
pub open spec fn module_done<
    E: Fn(ModuleId, Vec<TyConDecl>, &Vec<FxHashMap<String, Scheme>>) -> Result<
        (Prepared, Imported),
        Vec<TyConDecl>,
    >,
    F: Fn(InferCtx, &Expr) -> (InferCtx, Type),
    P: Fn(InferCtx, &Pattern, &Type, Span) -> InferCtx,
    K: Fn(InferCtx, &String, Option<CapabilitySet>, &Expr, Span) -> (InferCtx, CapabilitySet),
    M: Fn(&ActorDecl) -> Vec<TypeError>,
    N: Fn(&ActorDecl, CapabilitySet, &ActorSchema) -> Vec<TypeError>,
    S: Fn(&String, &Vec<String>) -> Vec<String>,
    V: Fn(InferCtx, &TypeExpr, &FxHashMap<String, TyConId>, &FxHashMap<String, TyVid>) -> (
        InferCtx,
        Type,
    ),
>(
    prepare: E,
    passes: Passes<F, P, K, M, N, S, V>,
    shared: Shared,
    names: FxHashMap<String, TyConId>,
    p: WorkspaceProgress,
    q: WorkspaceProgress,
    id: ModuleId,
) -> bool {
    exists|out: Result<(Prepared, Imported), Vec<TyConDecl>>| #[trigger]
        call_ensures(prepare, (id, p.tycons, &p.exported), out) && match out {
            Err(rest) => {
                &&& q.tycons == rest
                &&& q.slots@.len() == p.slots@.len()
                &&& q.slots@[id.0 as int] is Some
                &&& is_empty_module(q.slots@[id.0 as int]->0, id)
                &&& forall|i: int|
                    0 <= i < q.slots@.len() && i != id.0 ==> #[trigger] q.slots@[i] == p.slots@[i]
                &&& q.exported == p.exported
                &&& q.errors == p.errors
                &&& q.anon_records == p.anon_records
            },
            Ok((pm, im)) => exists|res: ModuleTypecheckResult| #[trigger]
                prepared_checked(passes, shared, names, id, pm, im, res) && {
                    &&& q.tycons == pm.tycons
                    &&& q.slots@ == p.slots@.update(id.0 as int, Some(res.typed))
                    &&& q.exported@ == p.exported@.update(id.0 as int, res.name_schemes)
                    &&& q.errors@ == p.errors@ + tagged(id, res.errors@)
                    &&& by_name(q.anon_records@) == with_entries(
                        by_name(p.anon_records@),
                        res.anon_records@,
                        res.anon_records@.len(),
                    )
                },
        }
}

/// `q` is `p` after the first `k` modules of an order were checked. What is no
/// module of the workspace is passed over.
pub open spec fn modules_done<
    E: Fn(ModuleId, Vec<TyConDecl>, &Vec<FxHashMap<String, Scheme>>) -> Result<
        (Prepared, Imported),
        Vec<TyConDecl>,
    >,
    F: Fn(InferCtx, &Expr) -> (InferCtx, Type),
    P: Fn(InferCtx, &Pattern, &Type, Span) -> InferCtx,
    K: Fn(InferCtx, &String, Option<CapabilitySet>, &Expr, Span) -> (InferCtx, CapabilitySet),
    M: Fn(&ActorDecl) -> Vec<TypeError>,
    N: Fn(&ActorDecl, CapabilitySet, &ActorSchema) -> Vec<TypeError>,
    S: Fn(&String, &Vec<String>) -> Vec<String>,
    V: Fn(InferCtx, &TypeExpr, &FxHashMap<String, TyConId>, &FxHashMap<String, TyVid>) -> (
        InferCtx,
        Type,
    ),
>(
    prepare: E,
    passes: Passes<F, P, K, M, N, S, V>,
    shared: Shared,
    names: FxHashMap<String, TyConId>,
    p: WorkspaceProgress,
    q: WorkspaceProgress,
    present: Seq<ModuleId>,
    order: Seq<ModuleId>,
    k: nat,
) -> bool
    decreases k,
{
    if k == 0 || k > order.len() {
        q == p
    } else {
        let id = order[k - 1];
        if present.contains(id) {
            exists|m: WorkspaceProgress| #[trigger]
                module_done(prepare, passes, shared, names, m, q, id) && modules_done(
                    prepare,
                    passes,
                    shared,
                    names,
                    p,
                    m,
                    present,
                    order,
                    (k - 1) as nat,
                )
        } else {
            modules_done(prepare, passes, shared, names, p, q, present, order, (k - 1) as nat)
        }
    }
}

proof fn one_more_module<
    E: Fn(ModuleId, Vec<TyConDecl>, &Vec<FxHashMap<String, Scheme>>) -> Result<
        (Prepared, Imported),
        Vec<TyConDecl>,
    >,
    F: Fn(InferCtx, &Expr) -> (InferCtx, Type),
    P: Fn(InferCtx, &Pattern, &Type, Span) -> InferCtx,
    K: Fn(InferCtx, &String, Option<CapabilitySet>, &Expr, Span) -> (InferCtx, CapabilitySet),
    M: Fn(&ActorDecl) -> Vec<TypeError>,
    N: Fn(&ActorDecl, CapabilitySet, &ActorSchema) -> Vec<TypeError>,
    S: Fn(&String, &Vec<String>) -> Vec<String>,
    V: Fn(InferCtx, &TypeExpr, &FxHashMap<String, TyConId>, &FxHashMap<String, TyVid>) -> (
        InferCtx,
        Type,
    ),
>(
    prepare: E,
    passes: Passes<F, P, K, M, N, S, V>,
    shared: Shared,
    names: FxHashMap<String, TyConId>,
    p: WorkspaceProgress,
    m: WorkspaceProgress,
    q: WorkspaceProgress,
    present: Seq<ModuleId>,
    order: Seq<ModuleId>,
    k: nat,
)
    requires
        k < order.len(),
        modules_done(prepare, passes, shared, names, p, m, present, order, k),
        if present.contains(order[k as int]) {
            module_done(prepare, passes, shared, names, m, q, order[k as int])
        } else {
            q == m
        },
    ensures
        modules_done(prepare, passes, shared, names, p, q, present, order, (k + 1) as nat),
{
    assert(modules_done(
        prepare,
        passes,
        shared,
        names,
        p,
        m,
        present,
        order,
        (k + 1 - 1) as nat,
    ));
}

fn is_present(present: &Vec<ModuleId>, id: ModuleId) -> (r: bool)
    ensures
        r == present@.contains(id),
{
    let mut i: usize = 0;
    while i < present.len()
        invariant
            i <= present@.len(),
            forall|k: int| 0 <= k < i ==> #[trigger] present@[k] != id,
        decreases present@.len() - i,
    {
        if present[i].0 == id.0 {
            assert(present@[i as int] == id);
            return true;
        }
        i = i + 1;
    }
    false
}

/// Every slot that is filled holds the module with the id of the slot.
pub open spec fn in_slots(slots: Seq<Option<TypedModule>>) -> bool {
    forall|i: int|
        0 <= i < slots.len() ==> (#[trigger] slots[i] matches Some(m) ==> m.id == ModuleId(
            i as u32,
        ))
}

fn check_slot<
    E: Fn(ModuleId, Vec<TyConDecl>, &Vec<FxHashMap<String, Scheme>>) -> Result<
        (Prepared, Imported),
        Vec<TyConDecl>,
    >,
    F: Fn(InferCtx, &Expr) -> (InferCtx, Type),
    P: Fn(InferCtx, &Pattern, &Type, Span) -> InferCtx,
    K: Fn(InferCtx, &String, Option<CapabilitySet>, &Expr, Span) -> (InferCtx, CapabilitySet),
    M: Fn(&ActorDecl) -> Vec<TypeError>,
    N: Fn(&ActorDecl, CapabilitySet, &ActorSchema) -> Vec<TypeError>,
    S: Fn(&String, &Vec<String>) -> Vec<String>,
    V: Fn(InferCtx, &TypeExpr, &FxHashMap<String, TyConId>, &FxHashMap<String, TyVid>) -> (
        InferCtx,
        Type,
    ),
>(
    p: WorkspaceProgress,
    id: ModuleId,
    prepare: &E,
    passes: &Passes<F, P, K, M, N, S, V>,
    shared: &Shared,
    names: &FxHashMap<String, TyConId>,
) -> (q: WorkspaceProgress)
    requires
        id.0 < p.slots@.len(),
        p.exported@.len() == p.slots@.len(),
        in_slots(p.slots@),
        shared.instance_env.fn_arities.wf(),
        collects(*prepare, *passes, *shared),
    ensures
        module_done(*prepare, *passes, *shared, *names, p, q, id),
        q.slots@.len() == p.slots@.len(),
        q.exported@.len() == p.exported@.len(),
        in_slots(q.slots@),
        p.tycons@.is_prefix_of(q.tycons@),
{
    let at: usize = id.0 as usize;
    let WorkspaceProgress { slots, exported, errors, anon_records, tycons } = p;
    let found = prepare(id, tycons, &exported);
    let ghost out = found;
    assert(call_ensures(*prepare, (id, p.tycons, &p.exported), out));
    let mut slots = slots;
    let mut exported = exported;
    let mut errors = errors;
    let mut anon_records = anon_records;
    match found {
        Ok((pm, im)) => {
            let (res, tycons) = check_prepared(passes, shared, names, id, pm, im);
            assert(prepared_checked(*passes, *shared, *names, id, pm, im, res));
            let ModuleTypecheckResult { typed, errors: found_errors, anon_records: anon, name_schemes } = res;
            slots.set(at, Some(typed));
            exported.set(at, name_schemes);
            let mut more = tag_errors(id, found_errors);
            errors.append(&mut more);
            add_entries(&mut anon_records, &anon);
            WorkspaceProgress { slots, exported, errors, anon_records, tycons }
        },
        Err(tycons) => {
            slots.set(at, Some(empty_module(id)));
            WorkspaceProgress { slots, exported, errors, anon_records, tycons }
        },
    }
}

/// The modules of a workspace, where an empty one stands in each slot that was
/// not checked.
pub open spec fn filled(slots: Seq<Option<TypedModule>>, modules: Seq<TypedModule>) -> bool {
    &&& modules.len() == slots.len()
    &&& forall|i: int|
        0 <= i < slots.len() ==> match slots[i] {
            Some(m) => #[trigger] modules[i] == m,
            None => is_empty_module(modules[i], ModuleId(i as u32)),
        }
}

fn fill_slots(slots: Vec<Option<TypedModule>>) -> (r: Vec<TypedModule>)
    requires
        slots@.len() <= u32::MAX,
    ensures
        filled(slots@, r@),
{
    let ghost all = slots@;
    let mut rest = turned(slots);
    let mut out: Vec<TypedModule> = Vec::new();
    while rest.len() > 0
        invariant
            all.len() <= u32::MAX,
            rest@.len() + out@.len() == all.len(),
            rest@ == all.reverse().take(rest@.len() as int),
            filled(all.take(out@.len() as int), out@),
        decreases rest@.len(),
    {
        let at: usize = out.len();
        let ghost before = out@;
        if let Some(slot) = rest.pop() {
            assert(slot == all.reverse()[rest@.len() as int]);
            assert(slot == all[at as int]);
            match slot {
                Some(m) => {
                    out.push(m);
                },
                None => {
                    out.push(empty_module(ModuleId(at as u32)));
                },
            }
            assert(rest@ =~= all.reverse().take(rest@.len() as int));
            assert(filled(all.take(out@.len() as int), out@)) by {
                assert forall|i: int| 0 <= i < out@.len() implies match all.take(
                    out@.len() as int,
                )[i] {
                    Some(m) => #[trigger] out@[i] == m,
                    None => is_empty_module(out@[i], ModuleId(i as u32)),
                } by {
                    if i < before.len() {
                        assert(out@[i] == before[i]);
                        assert(all.take(at as int)[i] == all[i]);
                    }
                }
            }
        }
    }
    assert(all.take(all.len() as int) =~= all);
    out
}

/// What a workspace has before any module is checked.
pub open spec fn fresh_progress(
    p: WorkspaceProgress,
    n: nat,
    tycons: Vec<TyConDecl>,
    errors: Seq<TypeError>,
) -> bool {
    &&& p.slots@.len() == n
    &&& forall|i: int| 0 <= i < n ==> #[trigger] p.slots@[i] is None
    &&& p.exported@.len() == n
    &&& forall|i: int|
        0 <= i < n ==> by_name((#[trigger] p.exported@[i])@) == Map::<Seq<char>, Scheme>::empty()
    &&& p.errors@ == tagged(ModuleId(0), errors)
    &&& by_name(p.anon_records@) == Map::<Seq<char>, TyConId>::empty()
    &&& p.tycons == tycons
}

fn start_progress(n: usize, tycons: Vec<TyConDecl>, errors: Vec<TypeError>) -> (p: WorkspaceProgress)
    ensures
        fresh_progress(p, n as nat, tycons, errors@),
{
    let mut slots: Vec<Option<TypedModule>> = Vec::new();
    let mut exported: Vec<FxHashMap<String, Scheme>> = Vec::new();
    let mut i: usize = 0;
    while i < n
        invariant
            i <= n,
            slots@.len() == i,
            exported@.len() == i,
            forall|k: int| 0 <= k < i ==> #[trigger] slots@[k] is None,
            forall|k: int|
                0 <= k < i ==> by_name((#[trigger] exported@[k])@) == Map::<
                    Seq<char>,
                    Scheme,
                >::empty(),
        decreases n - i,
    {
        slots.push(None);
        let none: FxHashMap<String, Scheme> = FxHashMap::default();
        assert(by_name(none@) =~= Map::<Seq<char>, Scheme>::empty());
        exported.push(none);
        i = i + 1;
    }
    let anon_records: FxHashMap<String, TyConId> = FxHashMap::default();
    assert(by_name(anon_records@) =~= Map::<Seq<char>, TyConId>::empty());
    WorkspaceProgress {
        slots,
        exported,
        errors: tag_errors(ModuleId(0), errors),
        anon_records,
        tycons,
    }
}

/// `r` is what checking the modules of a workspace in an order gives.
pub open spec fn workspace_typechecked<
    D,
    E: Fn(ModuleId, Vec<TyConDecl>, &Vec<FxHashMap<String, Scheme>>) -> Result<
        (Prepared, Imported),
        Vec<TyConDecl>,
    >,
    F: Fn(InferCtx, &Expr) -> (InferCtx, Type),
    P: Fn(InferCtx, &Pattern, &Type, Span) -> InferCtx,
    K: Fn(InferCtx, &String, Option<CapabilitySet>, &Expr, Span) -> (InferCtx, CapabilitySet),
    M: Fn(&ActorDecl) -> Vec<TypeError>,
    N: Fn(&ActorDecl, CapabilitySet, &ActorSchema) -> Vec<TypeError>,
    S: Fn(&String, &Vec<String>) -> Vec<String>,
    V: Fn(InferCtx, &TypeExpr, &FxHashMap<String, TyConId>, &FxHashMap<String, TyVid>) -> (
        InferCtx,
        Type,
    ),
>(
    prepare: E,
    passes: Passes<F, P, K, M, N, S, V>,
    shared: Shared,
    names: FxHashMap<String, TyConId>,
    present: Seq<ModuleId>,
    order: Seq<ModuleId>,
    tycons: Vec<TyConDecl>,
    collect_errors: Seq<TypeError>,
    r: TypecheckResult<D>,
) -> bool {
    exists|p: WorkspaceProgress, q: WorkspaceProgress|
        #![trigger modules_done(prepare, passes, shared, names, p, q, present, order, order.len())]
        {
            &&& fresh_progress(p, present.len(), tycons, collect_errors)
            &&& modules_done(prepare, passes, shared, names, p, q, present, order, order.len())
            &&& filled(q.slots@, r.typed.modules@)
            &&& r.typed.tycons == q.tycons
            &&& r.typed.anon_records == q.anon_records
            &&& r.errors == q.errors
        }
}

/// Type checks the modules of a workspace in an order in which producers come
/// before consumers. Every diagnostic comes with its module, and those of the
/// classes and instances come first. `prepare` collects the declarations of one
/// module, given the constructors so far and what the modules so far export;
/// `names` are the types of the workspace.
#[must_use]
pub fn typecheck_workspace<
    D,
    E: Fn(ModuleId, Vec<TyConDecl>, &Vec<FxHashMap<String, Scheme>>) -> Result<
        (Prepared, Imported),
        Vec<TyConDecl>,
    >,
    F: Fn(InferCtx, &Expr) -> (InferCtx, Type),
    P: Fn(InferCtx, &Pattern, &Type, Span) -> InferCtx,
    K: Fn(InferCtx, &String, Option<CapabilitySet>, &Expr, Span) -> (InferCtx, CapabilitySet),
    M: Fn(&ActorDecl) -> Vec<TypeError>,
    N: Fn(&ActorDecl, CapabilitySet, &ActorSchema) -> Vec<TypeError>,
    S: Fn(&String, &Vec<String>) -> Vec<String>,
    V: Fn(InferCtx, &TypeExpr, &FxHashMap<String, TyConId>, &FxHashMap<String, TyVid>) -> (
        InferCtx,
        Type,
    ),
>(
    present: &Vec<ModuleId>,
    order: &Vec<ModuleId>,
    tycons: Vec<TyConDecl>,
    shared: Shared,
    names: &FxHashMap<String, TyConId>,
    derived_instances: Vec<D>,
    collect_errors: Vec<TypeError>,
    prepare: E,
    passes: &Passes<F, P, K, M, N, S, V>,
) -> (r: TypecheckResult<D>)
    requires
        present@.len() <= u32::MAX,
        forall|i: int| 0 <= i < present@.len() ==> (#[trigger] present@[i]).0 < present@.len(),
        shared.instance_env.fn_arities.wf(),
        collects(prepare, *passes, shared),
    ensures
        workspace_typechecked(
            prepare,
            *passes,
            shared,
            *names,
            present@,
            order@,
            tycons,
            collect_errors@,
            r,
        ),
        r.typed.modules@.len() == present@.len(),
        forall|k: int|
            0 <= k < r.typed.modules@.len() ==> (#[trigger] r.typed.modules@[k]).id == ModuleId(
                k as u32,
            ),
        tycons@.is_prefix_of(r.typed.tycons@),
        r.typed.builtins == shared.builtins,
        r.typed.class_table == shared.class_table,
        r.typed.instance_env == shared.instance_env,
        r.typed.derived_instances == derived_instances,
        r.typed.stdlib_tycons == shared.stdlib_tycons,
{
    let ghost first = tycons@;
    let mut p = start_progress(present.len(), tycons, collect_errors);
    let ghost p0 = p;
    let mut i: usize = 0;
    while i < order.len()
        invariant
            i <= order@.len(),
            present@.len() <= u32::MAX,
            forall|i: int| 0 <= i < present@.len() ==> (#[trigger] present@[i]).0 < present@.len(),
            shared.instance_env.fn_arities.wf(),
            collects(prepare, *passes, shared),
            p.slots@.len() == present@.len(),
            p.exported@.len() == present@.len(),
            in_slots(p.slots@),
            first.is_prefix_of(p.tycons@),
            modules_done(prepare, *passes, shared, *names, p0, p, present@, order@, i as nat),
        decreases order@.len() - i,
    {
        let ghost m = p;
        let id = order[i];
        if is_present(present, id) {
            p = check_slot(p, id, &prepare, passes, &shared, names);
            assert(first =~= p.tycons@.take(first.len() as int));
        }
        proof {
            one_more_module(
                prepare,
                *passes,
                shared,
                *names,
                p0,
                m,
                p,
                present@,
                order@,
                i as nat,
            );
        }
        i = i + 1;
    }
    let ghost q = p;
    let WorkspaceProgress { slots, exported: _, errors, anon_records, tycons } = p;
    let modules = fill_slots(slots);
    let ghost whole = shared;
    let Shared { builtins, class_table, instance_env, encode: _, decode: _, stdlib: _, stdlib_tycons } =
        shared;
    let r = TypecheckResult {
        typed: TypedWorkspace {
            modules,
            tycons,
            builtins,
            anon_records,
            class_table,
            instance_env,
            derived_instances,
            stdlib_tycons,
        },
        errors,
    };
    assert(modules_done(prepare, *passes, whole, *names, p0, q, present@, order@, order@.len()));
    assert forall|k: int| 0 <= k < r.typed.modules@.len() implies (
    #[trigger] r.typed.modules@[k]).id == ModuleId(k as u32) by {
        assert(q.slots@[k] is Some || q.slots@[k] is None);
    }
    r
}

/// The first `k` constructors by their names. A later one wins.
pub open spec fn names_of(tycons: Seq<TyConDecl>, k: nat) -> Map<Seq<char>, TyConId>
    decreases k,
{
    if k == 0 || k > tycons.len() {
        Map::empty()
    } else {
        names_of(tycons, (k - 1) as nat).insert(tycons[k - 1].name@, tycons[k - 1].id)
    }
}

/// The constructors of a workspace by their names.
pub fn global_names(tycons: &Vec<TyConDecl>) -> (r: FxHashMap<String, TyConId>)
    ensures
        by_name(r@) == names_of(tycons@, tycons@.len()),
{
    let mut out: FxHashMap<String, TyConId> = FxHashMap::default();
    assert(by_name(out@) =~= Map::<Seq<char>, TyConId>::empty());
    let mut i: usize = 0;
    while i < tycons.len()
        invariant
            i <= tycons@.len(),
            by_name(out@) == names_of(tycons@, i as nat),
        decreases tycons@.len() - i,
    {
        put_name(&mut out, tycons[i].name.clone(), tycons[i].id);
        i = i + 1;
    }
    out
}

/// Collecting the declarations of an edited module can be relied on: it keeps the
/// constructors of the workspace where they are, and gives a module that can be
/// checked.
pub open spec fn collects_again<
    R: Fn(Vec<TyConDecl>) -> Prepared,
    F: Fn(InferCtx, &Expr) -> (InferCtx, Type),
    P: Fn(InferCtx, &Pattern, &Type, Span) -> InferCtx,
    K: Fn(InferCtx, &String, Option<CapabilitySet>, &Expr, Span) -> (InferCtx, CapabilitySet),
    M: Fn(&ActorDecl) -> Vec<TypeError>,
    N: Fn(&ActorDecl, CapabilitySet, &ActorSchema) -> Vec<TypeError>,
    S: Fn(&String, &Vec<String>) -> Vec<String>,
    V: Fn(InferCtx, &TypeExpr, &FxHashMap<String, TyConId>, &FxHashMap<String, TyVid>) -> (
        InferCtx,
        Type,
    ),
>(prepare: R, passes: Passes<F, P, K, M, N, S, V>, shared: Shared) -> bool {
    &&& forall|ts: Vec<TyConDecl>| #[trigger] call_requires(prepare, (ts,))
    &&& forall|ts: Vec<TyConDecl>, pm: Prepared| #[trigger]
        call_ensures(prepare, (ts,), pm) ==> ts@.is_prefix_of(pm.tycons@) && can_go(
            passes,
            shared,
            pm,
        )
}

/// `r` is what checking one edited module against a workspace gives: nothing
/// new where the module or its source is not there. The module is checked by
/// itself, with nothing that other modules export.
pub open spec fn module_rechecked<
    R: Fn(Vec<TyConDecl>) -> Prepared,
    F: Fn(InferCtx, &Expr) -> (InferCtx, Type),
    P: Fn(InferCtx, &Pattern, &Type, Span) -> InferCtx,
    K: Fn(InferCtx, &String, Option<CapabilitySet>, &Expr, Span) -> (InferCtx, CapabilitySet),
    M: Fn(&ActorDecl) -> Vec<TypeError>,
    N: Fn(&ActorDecl, CapabilitySet, &ActorSchema) -> Vec<TypeError>,
    S: Fn(&String, &Vec<String>) -> Vec<String>,
    V: Fn(InferCtx, &TypeExpr, &FxHashMap<String, TyConId>, &FxHashMap<String, TyVid>) -> (
        InferCtx,
        Type,
    ),
>(
    prepare: R,
    passes: Passes<F, P, K, M, N, S, V>,
    shared: Shared,
    id: ModuleId,
    present: Seq<ModuleId>,
    sources: nat,
    tycons: Vec<TyConDecl>,
    r: ModuleTypecheckIncremental,
) -> bool {
    if present.contains(id) && id.0 < sources {
        exists|pm: Prepared, names: FxHashMap<String, TyConId>, im: Imported|
            #![trigger call_ensures(prepare, (tycons,), pm), prepared_checked(passes, shared, names, id, pm, im, r.result)]
            {
                &&& call_ensures(prepare, (tycons,), pm)
                &&& by_name(names@) == names_of(tycons@, tycons@.len())
                &&& im.tycons@.len() == 0
                &&& im.schemes@.len() == 0
                &&& prepared_checked(passes, shared, names, id, pm, im, r.result)
                &&& r.tycons == pm.tycons
            }
    } else {
        is_empty_result(r.result, id) && r.tycons == tycons
    }
}

/// Type checks one edited module against a workspace that was type checked
/// before. `sources` is the number of modules that there is a source of;
/// `prepare` collects the declarations of the module, given the constructors of
/// the workspace, to which it adds its own. The constructors so far keep their
/// places.
#[must_use]
#[verifier::rlimit(60)]
pub fn typecheck_module_incremental<
    R: Fn(Vec<TyConDecl>) -> Prepared,
    F: Fn(InferCtx, &Expr) -> (InferCtx, Type),
    P: Fn(InferCtx, &Pattern, &Type, Span) -> InferCtx,
    K: Fn(InferCtx, &String, Option<CapabilitySet>, &Expr, Span) -> (InferCtx, CapabilitySet),
    M: Fn(&ActorDecl) -> Vec<TypeError>,
    N: Fn(&ActorDecl, CapabilitySet, &ActorSchema) -> Vec<TypeError>,
    S: Fn(&String, &Vec<String>) -> Vec<String>,
    V: Fn(InferCtx, &TypeExpr, &FxHashMap<String, TyConId>, &FxHashMap<String, TyVid>) -> (
        InferCtx,
        Type,
    ),
>(
    module_id: ModuleId,
    present: &Vec<ModuleId>,
    sources: usize,
    tycons: Vec<TyConDecl>,
    shared: &Shared,
    prepare: R,
    passes: &Passes<F, P, K, M, N, S, V>,
) -> (r: ModuleTypecheckIncremental)
    requires
        shared.instance_env.fn_arities.wf(),
        collects_again(prepare, *passes, *shared),
    ensures
        module_rechecked(
            prepare,
            *passes,
            *shared,
            module_id,
            present@,
            sources as nat,
            tycons,
            r,
        ),
        r.result.typed.id == module_id,
        tycons@.is_prefix_of(r.tycons@),
{
    if !is_present(present, module_id) || module_id.0 as usize >= sources {
        return ModuleTypecheckIncremental { result: empty_module_result(module_id), tycons };
    }
    let names = global_names(&tycons);
    let ghost given = tycons;
    let pm = prepare(tycons);
    assert(call_ensures(prepare, (given,), pm));
    let im = Imported { tycons: Vec::new(), schemes: Vec::new() };
    let (result, tycons) = check_prepared(passes, shared, &names, module_id, pm, im);
    let r = ModuleTypecheckIncremental { result, tycons };
    proof {
        assert(call_ensures(prepare, (given,), pm));
        assert(by_name(names@) == names_of(given@, given@.len()));
        assert(im.tycons@.len() == 0);
        assert(im.schemes@.len() == 0);
        assert(r.tycons == pm.tycons);
        assert(prepared_checked(*passes, *shared, names, module_id, pm, im, r.result));
        assert(module_rechecked(
            prepare,
            *passes,
            *shared,
            module_id,
            present@,
            sources as nat,
            given,
            r,
        ));
    }
    r
}

/// Checking modules takes no diagnostic back: those of the classes and
/// instances, and those of the modules so far, stay in front.
pub proof fn diagnostics_pile_up<
    E: Fn(ModuleId, Vec<TyConDecl>, &Vec<FxHashMap<String, Scheme>>) -> Result<
        (Prepared, Imported),
        Vec<TyConDecl>,
    >,
    F: Fn(InferCtx, &Expr) -> (InferCtx, Type),
    P: Fn(InferCtx, &Pattern, &Type, Span) -> InferCtx,
    K: Fn(InferCtx, &String, Option<CapabilitySet>, &Expr, Span) -> (InferCtx, CapabilitySet),
    M: Fn(&ActorDecl) -> Vec<TypeError>,
    N: Fn(&ActorDecl, CapabilitySet, &ActorSchema) -> Vec<TypeError>,
    S: Fn(&String, &Vec<String>) -> Vec<String>,
    V: Fn(InferCtx, &TypeExpr, &FxHashMap<String, TyConId>, &FxHashMap<String, TyVid>) -> (
        InferCtx,
        Type,
    ),
>(
    prepare: E,
    passes: Passes<F, P, K, M, N, S, V>,
    shared: Shared,
    names: FxHashMap<String, TyConId>,
    p: WorkspaceProgress,
    q: WorkspaceProgress,
    present: Seq<ModuleId>,
    order: Seq<ModuleId>,
    k: nat,
)
    requires
        modules_done(prepare, passes, shared, names, p, q, present, order, k),
    ensures
        p.errors@.is_prefix_of(q.errors@),
    decreases k,
{
    if k == 0 || k > order.len() {
    } else {
        let id = order[k - 1];
        let j = (k - 1) as nat;
        if present.contains(id) {
            let m = choose|m: WorkspaceProgress| #[trigger]
                module_done(prepare, passes, shared, names, m, q, id) && modules_done(
                    prepare,
                    passes,
                    shared,
                    names,
                    p,
                    m,
                    present,
                    order,
                    j,
                );
            diagnostics_pile_up(prepare, passes, shared, names, p, m, present, order, j);
            assert(m.errors@.is_prefix_of(q.errors@));
            assert(p.errors@ =~= q.errors@.take(p.errors@.len() as int));
        } else {
            diagnostics_pile_up(prepare, passes, shared, names, p, q, present, order, j);
        }
    }
}

} // verus!
