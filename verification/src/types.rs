use vstd::prelude::*;

use crate::text::same_text;

verus! {

/// A type variable, by its slot in the substitution table.
#[derive(Clone, Copy, Debug, PartialEq, Eq, Hash, PartialOrd, Ord, Structural)]
pub struct TyVid(pub u32);

/// A capability-row variable.
#[derive(Clone, Copy, Debug, PartialEq, Eq, Hash, PartialOrd, Ord, Structural)]
pub struct CapVid(pub u32);

/// A record-row variable.
#[derive(Clone, Copy, Debug, PartialEq, Eq, Hash, PartialOrd, Ord, Structural)]
pub struct RowVid(pub u32);

/// A signature variable that inference may not refine.
#[derive(Clone, Copy, Debug, PartialEq, Eq, Hash, PartialOrd, Ord, Structural)]
pub struct RigidId(pub u32);

/// A type constructor, by its slot in the constructor table.
#[derive(Clone, Copy, Debug, PartialEq, Eq, Hash, PartialOrd, Ord, Structural)]
pub struct TyConId(pub u32);

/// A type class.
#[derive(Clone, Copy, Debug, PartialEq, Eq, Hash, PartialOrd, Ord, Structural)]
pub struct ClassId(pub u32);

/// A set of capabilities, one bit per capability.
#[derive(Clone, Copy, Debug, PartialEq, Eq, Hash, Structural)]
pub struct CapabilitySet(pub u32);

/// The capabilities that calling a function needs.
#[derive(Clone, Copy, Debug, PartialEq, Eq, Hash, Structural)]
pub enum CapRow {
    Concrete(CapabilitySet),
    Var(CapVid),
}

/// Whether a record type may have fields beyond those listed.
#[derive(Clone, Copy, Debug, PartialEq, Eq, Hash, Structural)]
pub enum RowTail {
    Closed,
    Open(RowVid),
}

/// A type of the source language.
#[derive(Debug)]
#[allow(inconsistent_fields)]
pub enum Type {
    Var(TyVid),
    Con(TyConId, Vec<Type>),
    Fn { params: Vec<Type>, ret: Box<Type>, caps: CapRow },
    Tuple(Vec<Type>),
    Record { fields: Vec<(String, Type)>, tail: RowTail },
    Alias { name: TyConId, body: Box<Type> },
    Rigid { id: RigidId, name: String },
    Error,
}

/// The mathematical reading of a [`Type`].
#[verifier::ext_equal]
#[allow(inconsistent_fields)]
pub enum Ty {
    Var(TyVid),
    Con(TyConId, Seq<Ty>),
    Fn { params: Seq<Ty>, ret: Box<Ty>, caps: CapRow },
    Tuple(Seq<Ty>),
    Record { fields: Seq<(Seq<char>, Ty)>, tail: RowTail },
    Alias { name: TyConId, body: Box<Ty> },
    Rigid { id: RigidId, name: Seq<char> },
    Error,
}

impl Type {
    /// What this type denotes.
    pub open spec fn view(&self) -> Ty
        decreases self,
    {
        match self {
            Type::Var(v) => Ty::Var(*v),
            Type::Con(id, args) => Ty::Con(*id, views(args@)),
            Type::Fn { params, ret, caps } => Ty::Fn {
                params: views(params@),
                ret: Box::new(ret.view()),
                caps: *caps,
            },
            Type::Tuple(elems) => Ty::Tuple(views(elems@)),
            Type::Record { fields, tail } => Ty::Record { fields: field_views(fields@), tail: *tail },
            Type::Alias { name, body } => Ty::Alias { name: *name, body: Box::new(body.view()) },
            Type::Rigid { id, name } => Ty::Rigid { id: *id, name: name@ },
            Type::Error => Ty::Error,
        }
    }
}

/// What each type of a list denotes.
pub open spec fn views(ts: Seq<Type>) -> Seq<Ty>
    decreases ts,
{
    Seq::new(
        ts.len(),
        |i: int|
            if 0 <= i < ts.len() {
                ts[i].view()
            } else {
                Ty::Error
            },
    )
}

/// What each labelled type of a list denotes.
pub open spec fn field_views(fs: Seq<(String, Type)>) -> Seq<(Seq<char>, Ty)>
    decreases fs,
{
    Seq::new(
        fs.len(),
        |i: int|
            if 0 <= i < fs.len() {
                (fs[i].0@, fs[i].1.view())
            } else {
                (Seq::empty(), Ty::Error)
            },
    )
}

pub broadcast proof fn views_len(ts: Seq<Type>)
    ensures
        #[trigger] views(ts).len() == ts.len(),
{
}

pub broadcast proof fn views_index(ts: Seq<Type>, i: int)
    requires
        0 <= i < ts.len(),
    ensures
        #[trigger] views(ts)[i] == ts[i]@,
{
}

pub broadcast proof fn field_views_len(fs: Seq<(String, Type)>)
    ensures
        #[trigger] field_views(fs).len() == fs.len(),
{
}

pub broadcast proof fn field_views_index(fs: Seq<(String, Type)>, i: int)
    requires
        0 <= i < fs.len(),
    ensures
        #[trigger] field_views(fs)[i] == (fs[i].0@, fs[i].1@),
{
}

pub broadcast group group_views {
    views_len,
    views_index,
    field_views_len,
    field_views_index,
}

pub fn clone_types(ts: &Vec<Type>) -> (r: Vec<Type>)
    ensures
        views(r@) == views(ts@),
    decreases ts,
{
    let mut out: Vec<Type> = Vec::new();
    let mut i: usize = 0;
    while i < ts.len()
        invariant
            i <= ts@.len(),
            out@.len() == i,
            forall|k: int| 0 <= k < i ==> (#[trigger] out@[k]).view() == ts@[k].view(),
        decreases ts@.len() - i,
    {
        out.push(ts[i].clone());
        i = i + 1;
    }
    assert(views(out@) =~= views(ts@));
    out
}

pub fn clone_fields(fs: &Vec<(String, Type)>) -> (r: Vec<(String, Type)>)
    ensures
        field_views(r@) == field_views(fs@),
    decreases fs,
{
    let mut out: Vec<(String, Type)> = Vec::new();
    let mut i: usize = 0;
    while i < fs.len()
        invariant
            i <= fs@.len(),
            out@.len() == i,
            forall|k: int|
                0 <= k < i ==> (#[trigger] out@[k]).0@ == fs@[k].0@ && out@[k].1@ == fs@[k].1@,
        decreases fs@.len() - i,
    {
        let f = &fs[i];
        out.push((f.0.clone(), f.1.clone()));
        i = i + 1;
    }
    assert(field_views(out@) =~= field_views(fs@));
    out
}

impl Clone for Type {
    fn clone(&self) -> (r: Self)
        ensures
            r@ == self@,
        decreases self,
    {
        match self {
            Type::Var(v) => Type::Var(*v),
            Type::Con(id, args) => {
                let r = Type::Con(*id, clone_types(args));
                r
            },
            Type::Fn { params, ret, caps } => Type::Fn {
                params: clone_types(params),
                ret: Box::new((**ret).clone()),
                caps: *caps,
            },
            Type::Tuple(elems) => Type::Tuple(clone_types(elems)),
            Type::Record { fields, tail } => Type::Record {
                fields: clone_fields(fields),
                tail: *tail,
            },
            Type::Alias { name, body } => Type::Alias {
                name: *name,
                body: Box::new((**body).clone()),
            },
            Type::Rigid { id, name } => Type::Rigid { id: *id, name: name.clone() },
            Type::Error => Type::Error,
        }
    }
}

/// A class constraint over one or more type variables.
#[derive(Debug)]
pub struct Constraint {
    pub class: ClassId,
    pub tys: Vec<TyVid>,
}

/// What a [`Constraint`] denotes.
#[verifier::ext_equal]
pub struct Pred {
    pub class: ClassId,
    pub tys: Seq<TyVid>,
}

impl Constraint {
    pub open spec fn view(&self) -> Pred {
        Pred { class: self.class, tys: self.tys@ }
    }

    /// A constraint over one variable.
    pub fn single(class: ClassId, ty: TyVid) -> (r: Constraint)
        ensures
            r@ == single(class, ty),
    {
        let mut tys: Vec<TyVid> = Vec::new();
        tys.push(ty);
        Constraint { class, tys }
    }

    /// A constraint over the given variables.
    pub fn new(class: ClassId, tys: Vec<TyVid>) -> (r: Constraint)
        ensures
            r@ == (Pred { class, tys: tys@ }),
    {
        Constraint { class, tys }
    }

    /// The only variable of a single-parameter constraint.
    pub fn sole_ty(&self) -> (r: TyVid)
        requires
            self@.tys.len() >= 1,
        ensures
            r == self@.tys[0],
    {
        self.tys[0]
    }

    /// Whether two constraints are the same.
    pub fn same(&self, other: &Constraint) -> (r: bool)
        ensures
            r == (self@ == other@),
    {
        if self.class.0 != other.class.0 || self.tys.len() != other.tys.len() {
            return false;
        }
        let mut i: usize = 0;
        while i < self.tys.len()
            invariant
                i <= self.tys@.len(),
                self.class == other.class,
                self.tys@.len() == other.tys@.len(),
                forall|k: int| 0 <= k < i ==> self.tys@[k] == other.tys@[k],
            decreases self.tys@.len() - i,
        {
            if self.tys[i].0 != other.tys[i].0 {
                return false;
            }
            i = i + 1;
        }
        assert(self.tys@ =~= other.tys@);
        true
    }
}

/// What [`Constraint::single`] builds.
pub open spec fn single(class: ClassId, ty: TyVid) -> Pred {
    Pred { class, tys: seq![ty] }
}

impl Clone for Constraint {
    fn clone(&self) -> (r: Self)
        ensures
            r@ == self@,
    {
        let tys = self.tys.clone();
        assert(tys@ =~= self.tys@);
        Constraint { class: self.class, tys }
    }
}

/// What each constraint of a list denotes.
pub open spec fn preds(cs: Seq<Constraint>) -> Seq<Pred> {
    cs.map_values(|c: Constraint| c.view())
}

pub fn clone_constraints(cs: &Vec<Constraint>) -> (r: Vec<Constraint>)
    ensures
        preds(r@) == preds(cs@),
{
    let mut out: Vec<Constraint> = Vec::new();
    let mut i: usize = 0;
    while i < cs.len()
        invariant
            i <= cs@.len(),
            out@.len() == i,
            forall|k: int| 0 <= k < i ==> (#[trigger] out@[k])@ == cs@[k]@,
        decreases cs@.len() - i,
    {
        out.push(cs[i].clone());
        i = i + 1;
    }
    assert(preds(out@) =~= preds(cs@));
    out
}

/// A type, quantified over some of its variables and constrained.
#[derive(Debug)]
pub struct Scheme {
    pub vars: Vec<TyVid>,
    pub cap_vars: Vec<CapVid>,
    pub ty: Type,
    pub constraints: Vec<Constraint>,
}

/// What a [`Scheme`] denotes.
#[verifier::ext_equal]
pub struct Poly {
    pub vars: Seq<TyVid>,
    pub cap_vars: Seq<CapVid>,
    pub ty: Ty,
    pub constraints: Seq<Pred>,
}

/// The scheme that quantifies over nothing.
pub open spec fn mono(ty: Ty) -> Poly {
    Poly { vars: Seq::empty(), cap_vars: Seq::empty(), ty, constraints: Seq::empty() }
}

impl Scheme {
    pub open spec fn view(&self) -> Poly {
        Poly {
            vars: self.vars@,
            cap_vars: self.cap_vars@,
            ty: self.ty@,
            constraints: preds(self.constraints@),
        }
    }

    /// The scheme that quantifies over nothing.
    pub fn mono(ty: Type) -> (r: Scheme)
        ensures
            r@ == mono(ty@),
    {
        let r = Scheme { vars: Vec::new(), cap_vars: Vec::new(), ty, constraints: Vec::new() };
        assert(preds(r.constraints@) =~= Seq::empty());
        r
    }
}

impl Clone for Scheme {
    fn clone(&self) -> (r: Self)
        ensures
            r@ == self@,
    {
        let vars = self.vars.clone();
        let cap_vars = self.cap_vars.clone();
        assert(vars@ =~= self.vars@);
        assert(cap_vars@ =~= self.cap_vars@);
        Scheme {
            vars,
            cap_vars,
            ty: self.ty.clone(),
            constraints: clone_constraints(&self.constraints),
        }
    }
}

/// One field of a record declaration.
#[derive(Debug)]
pub struct RecordField {
    pub name: String,
    pub ty: Type,
}

/// The declared shape of a record type.
#[derive(Debug)]
pub struct RecordSchema {
    pub params: Vec<TyVid>,
    pub fields: Vec<RecordField>,
}

/// What a union variant carries.
#[derive(Debug)]
pub enum VariantPayload {
    Nullary,
    Positional(Vec<Type>),
}

/// One variant of a union declaration.
#[derive(Debug)]
pub struct UnionVariant {
    pub name: String,
    pub kind: VariantPayload,
}

/// The declared shape of a union type.
#[derive(Debug)]
pub struct UnionSchema {
    pub params: Vec<TyVid>,
    pub variants: Vec<UnionVariant>,
}

/// One handler of an actor declaration.
#[derive(Debug)]
pub struct HandlerSig {
    pub name: String,
    pub params: Vec<Type>,
    pub caps: CapabilitySet,
}

/// The declared shape of an actor type.
#[derive(Debug)]
pub struct ActorSchema {
    pub state_fields: Vec<RecordField>,
    pub handlers: Vec<HandlerSig>,
}

/// What a type constructor stands for.
#[derive(Debug)]
pub enum TyConKind {
    Primitive,
    Record(RecordSchema),
    Union(UnionSchema),
    Actor(ActorSchema),
}

/// One entry of the constructor table.
#[derive(Debug)]
pub struct TyConDecl {
    pub id: TyConId,
    pub name: String,
    pub arity: u32,
    pub kind: TyConKind,
    /// The module that declares the type, unless it is built in.
    pub def_module_raw: Option<u32>,
    /// Its fields are out of reach outside the declaring module.
    pub opaque: bool,
    /// It stands for a record type that was written without a name.
    pub is_anon: bool,
}

/// The constructors that the language itself defines.
#[derive(Clone, Copy, Debug)]
pub struct BuiltinTyCons {
    pub int: TyConId,
    pub float: TyConId,
    pub bool: TyConId,
    pub text: TyConId,
    pub unit: TyConId,
    pub timestamp: TyConId,
    pub decimal: TyConId,
    pub uuid: TyConId,
    pub bytes: TyConId,
    pub date: TyConId,
    pub time: TyConId,
    pub list: TyConId,
    pub map: TyConId,
    pub set: TyConId,
    pub option: TyConId,
    pub result: TyConId,
    pub handle: TyConId,
    pub error: TyConId,
    pub duration: TyConId,
    pub proc_output: TyConId,
    pub json_value: TyConId,
    pub sql_value: TyConId,
    pub quote: TyConId,
    pub ret: TyConId,
    pub rows: TyConId,
    pub q_expr: TyConId,
}

/// A half-open range of source offsets.
#[derive(Clone, Copy, Debug, PartialEq, Eq, Hash, Structural)]
pub struct Span {
    pub start: u32,
    pub end: u32,
}

impl Span {
    pub fn new(start: u32, end: u32) -> (r: Span)
        ensures
            r == (Span { start, end }),
    {
        Span { start, end }
    }

    /// The empty range at `at`.
    pub fn point(at: u32) -> (r: Span)
        ensures
            r == (Span { start: at, end: at }),
    {
        Span { start: at, end: at }
    }
}

impl CapabilitySet {
    /// The empty set.
    pub fn pure() -> (r: CapabilitySet)
        ensures
            r == CapabilitySet(0),
    {
        CapabilitySet(0)
    }

    /// The capabilities of either set.
    pub fn union(&self, other: &CapabilitySet) -> (r: CapabilitySet)
        ensures
            r == CapabilitySet(self.0 | other.0),
    {
        CapabilitySet(self.0 | other.0)
    }
}

/// Whether two types are the same.
pub(crate) fn same_type(a: &Type, b: &Type) -> (r: bool)
    ensures
        r == (a@ == b@),
    decreases a,
{
    match (a, b) {
        (Type::Var(v), Type::Var(w)) => v.0 == w.0,
        (Type::Con(i, xs), Type::Con(j, ys)) => {
            assert(a@ == Ty::Con(*i, views(xs@)));
            assert(b@ == Ty::Con(*j, views(ys@)));
            i.0 == j.0 && same_types(xs, ys)
        },
        (
            Type::Fn { params: xs, ret: p, caps: k },
            Type::Fn { params: ys, ret: q, caps: l },
        ) => {
            assert(a@ == Ty::Fn { params: views(xs@), ret: Box::new(p@), caps: *k });
            assert(b@ == Ty::Fn { params: views(ys@), ret: Box::new(q@), caps: *l });
            *k == *l && same_types(xs, ys) && same_type(p, q)
        },
        (Type::Tuple(xs), Type::Tuple(ys)) => {
            assert(a@ == Ty::Tuple(views(xs@)));
            assert(b@ == Ty::Tuple(views(ys@)));
            same_types(xs, ys)
        },
        (Type::Record { fields: xs, tail: k }, Type::Record { fields: ys, tail: l }) => {
            assert(a@ == Ty::Record { fields: field_views(xs@), tail: *k });
            assert(b@ == Ty::Record { fields: field_views(ys@), tail: *l });
            *k == *l && same_fields(xs, ys)
        },
        (Type::Alias { name: i, body: x }, Type::Alias { name: j, body: y }) => i.0 == j.0
            && same_type(x, y),
        (Type::Rigid { id: i, name: m }, Type::Rigid { id: j, name: n }) => i.0 == j.0
            && same_text(m.as_str(), n.as_str()),
        (Type::Error, Type::Error) => true,
        _ => false,
    }
}

fn same_types(xs: &Vec<Type>, ys: &Vec<Type>) -> (r: bool)
    ensures
        r == (views(xs@) == views(ys@)),
    decreases xs,
{
    if xs.len() != ys.len() {
        assert(views(xs@).len() != views(ys@).len());
        return false;
    }
    let mut i: usize = 0;
    while i < xs.len()
        invariant
            i <= xs@.len(),
            xs@.len() == ys@.len(),
            forall|k: int| 0 <= k < i ==> (#[trigger] xs@[k])@ == ys@[k]@,
        decreases xs@.len() - i,
    {
        assert(views(xs@)[i as int] == xs@[i as int]@);
        assert(views(ys@)[i as int] == ys@[i as int]@);
        if !same_type(&xs[i], &ys[i]) {
            return false;
        }
        i = i + 1;
    }
    assert(views(xs@) =~= views(ys@));
    true
}

fn same_fields(xs: &Vec<(String, Type)>, ys: &Vec<(String, Type)>) -> (r: bool)
    ensures
        r == (field_views(xs@) == field_views(ys@)),
    decreases xs,
{
    if xs.len() != ys.len() {
        assert(field_views(xs@).len() != field_views(ys@).len());
        return false;
    }
    let mut i: usize = 0;
    while i < xs.len()
        invariant
            i <= xs@.len(),
            xs@.len() == ys@.len(),
            forall|k: int|
                0 <= k < i ==> (#[trigger] xs@[k]).0@ == ys@[k].0@ && xs@[k].1@ == ys@[k].1@,
        decreases xs@.len() - i,
    {
        assert(field_views(xs@)[i as int] == (xs@[i as int].0@, xs@[i as int].1@));
        assert(field_views(ys@)[i as int] == (ys@[i as int].0@, ys@[i as int].1@));
        if !same_text(xs[i].0.as_str(), ys[i].0.as_str()) || !same_type(&xs[i].1, &ys[i].1) {
            return false;
        }
        i = i + 1;
    }
    assert(field_views(xs@) =~= field_views(ys@));
    true
}

} // verus!
