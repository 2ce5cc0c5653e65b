use vstd::prelude::*;

use crate::heads::TypeExpr;
use crate::text::same_text;
use crate::types::{clone_constraints, preds, ClassId, Constraint, Pred, TyConId, TyVid, Type};

verus! {

/// One functional dependency of a class: the positions that determine, and the
/// positions that they determine.
#[derive(Debug)]
pub struct FunDep {
    pub from: Vec<usize>,
    pub to: Vec<usize>,
}

/// The signature of a class method, as it is written. A method of the prelude
/// comes without types.
#[derive(Debug)]
pub struct MethodSig {
    pub name: String,
    /// The names of the variables of the class.
    pub class_ty_vars: Vec<String>,
    pub ast_param_types: Vec<TypeExpr>,
    pub ast_ret_type: Option<TypeExpr>,
}

/// A type class.
#[derive(Debug)]
pub struct ClassInfo {
    pub id: ClassId,
    pub name: String,
    pub superclasses: Vec<ClassId>,
    pub fundeps: Vec<FunDep>,
    pub method_sigs: Vec<MethodSig>,
}

/// The classes of a workspace.
#[derive(Debug)]
pub struct ClassTable {
    pub classes: Vec<ClassInfo>,
}

/// What solving needs to know of an instance.
#[derive(Debug)]
pub struct InstanceInfo {
    /// Tells instances apart.
    pub id: u32,
    /// The constraints of the instance's own context.
    pub ctx_constraints: Vec<Constraint>,
    /// For each of those, the position of its type in the instance's head.
    pub head_var_positions: Vec<usize>,
}

/// One instance, by its class and the constructors of its head.
#[derive(Debug)]
pub struct InstanceEntry {
    pub class: ClassId,
    pub key: Vec<TyConId>,
    pub info: InstanceInfo,
    /// The variables of the head.
    pub head_vars: Vec<TyVid>,
    /// The types of the head, as far as they are written down.
    pub head: Vec<Type>,
}

/// The instances of a workspace.
#[derive(Debug)]
pub struct InstanceEnv {
    pub entries: Vec<InstanceEntry>,
    /// What function types are keyed by.
    pub fn_arities: FnArities,
}

/// The constructors that stand for function types, one for each arity below
/// `count`, from `base` on.
#[derive(Clone, Copy, Debug)]
pub struct FnArities {
    pub base: u32,
    pub count: u32,
}

/// What an [`InstanceInfo`] denotes.
#[verifier::ext_equal]
pub struct Inst {
    pub id: u32,
    pub ctx: Seq<Pred>,
    pub positions: Seq<usize>,
}

impl InstanceInfo {
    pub open spec fn view(&self) -> Inst {
        Inst {
            id: self.id,
            ctx: preds(self.ctx_constraints@),
            positions: self.head_var_positions@,
        }
    }
}

impl Clone for InstanceInfo {
    fn clone(&self) -> (r: Self)
        ensures
            r@ == self@,
    {
        let positions = self.head_var_positions.clone();
        assert(positions@ =~= self.head_var_positions@);
        InstanceInfo {
            id: self.id,
            ctx_constraints: clone_constraints(&self.ctx_constraints),
            head_var_positions: positions,
        }
    }
}

impl FnArities {
    /// There is room for every arity.
    pub open spec fn wf(&self) -> bool {
        self.count >= 1 && self.base + self.count <= u32::MAX
    }

    /// The constructor of the functions of arity `n`.
    pub open spec fn con(&self, n: nat) -> Option<TyConId> {
        if n < self.count {
            Some(TyConId((self.base + n) as u32))
        } else {
            None
        }
    }

    /// The constructor that stands for the functions of an arity.
    pub fn tycon(&self, n: usize) -> (r: Option<TyConId>)
        requires
            self.wf(),
        ensures
            r == self.con(n as nat),
    {
        if n < self.count as usize {
            Some(TyConId(self.base + n as u32))
        } else {
            None
        }
    }
}

/// The class with a given id.
pub open spec fn find_class(cs: Seq<ClassInfo>, id: ClassId) -> Option<ClassInfo>
    decreases cs.len(),
{
    if cs.len() == 0 {
        None
    } else if cs[0].id == id {
        Some(cs[0])
    } else {
        find_class(cs.skip(1), id)
    }
}

/// The name of a class, or `?`.
pub open spec fn class_name(cs: Seq<ClassInfo>, id: ClassId) -> Seq<char> {
    match find_class(cs, id) {
        Some(c) => c.name@,
        None => "?"@,
    }
}

/// The id of the first class with a name.
pub open spec fn class_named(cs: Seq<ClassInfo>, name: Seq<char>) -> Option<ClassId>
    decreases cs.len(),
{
    if cs.len() == 0 {
        None
    } else if cs[0].name@ == name {
        Some(cs[0].id)
    } else {
        class_named(cs.skip(1), name)
    }
}

/// The functional dependencies of a class.
pub open spec fn fundeps_of(cs: Seq<ClassInfo>, id: ClassId) -> Seq<FunDep> {
    match find_class(cs, id) {
        Some(c) => c.fundeps@,
        None => Seq::empty(),
    }
}

/// The superclasses of a class.
pub open spec fn superclasses_of(cs: Seq<ClassInfo>, id: ClassId) -> Seq<ClassId> {
    match find_class(cs, id) {
        Some(c) => c.superclasses@,
        None => Seq::empty(),
    }
}

/// The instance of a class for a head.
pub open spec fn find_instance(
    es: Seq<InstanceEntry>,
    class: ClassId,
    key: Seq<TyConId>,
) -> Option<InstanceEntry>
    decreases es.len(),
{
    if es.len() == 0 {
        None
    } else if es[0].class == class && es[0].key@ == key {
        Some(es[0])
    } else {
        find_instance(es.skip(1), class, key)
    }
}

impl ClassTable {
    /// The class with a given id.
    pub fn get(&self, id: ClassId) -> (r: Option<&ClassInfo>)
        ensures
            r is Some <==> find_class(self.classes@, id) is Some,
            r matches Some(c) ==> find_class(self.classes@, id) == Some(*c),
    {
        let mut i: usize = 0;
        assert(self.classes@.skip(0) =~= self.classes@);
        while i < self.classes.len()
            invariant
                i <= self.classes@.len(),
                find_class(self.classes@, id) == find_class(self.classes@.skip(i as int), id),
            decreases self.classes@.len() - i,
        {
            let ghost rest = self.classes@.skip(i as int);
            assert(rest[0] == self.classes@[i as int]);
            assert(rest.skip(1) =~= self.classes@.skip(i + 1));
            if self.classes[i].id.0 == id.0 {
                return Some(&self.classes[i]);
            }
            i = i + 1;
        }
        None
    }

    /// The id of the class with a name.
    pub fn id_by_name(&self, name: &str) -> (r: Option<ClassId>)
        ensures
            r == class_named(self.classes@, name@),
    {
        let mut i: usize = 0;
        assert(self.classes@.skip(0) =~= self.classes@);
        while i < self.classes.len()
            invariant
                i <= self.classes@.len(),
                class_named(self.classes@, name@) == class_named(
                    self.classes@.skip(i as int),
                    name@,
                ),
            decreases self.classes@.len() - i,
        {
            let ghost rest = self.classes@.skip(i as int);
            assert(rest[0] == self.classes@[i as int]);
            assert(rest.skip(1) =~= self.classes@.skip(i + 1));
            if same_text(self.classes[i].name.as_str(), name) {
                return Some(self.classes[i].id);
            }
            i = i + 1;
        }
        None
    }

    /// The name of a class, or `?`.
    pub fn name_of(&self, id: ClassId) -> (r: String)
        ensures
            r@ == class_name(self.classes@, id),
    {
        match self.get(id) {
            Some(c) => c.name.clone(),
            None => "?".to_owned(),
        }
    }
}

fn same_key(a: &Vec<TyConId>, b: &Vec<TyConId>) -> (r: bool)
    ensures
        r == (a@ == b@),
{
    if a.len() != b.len() {
        return false;
    }
    let mut i: usize = 0;
    while i < a.len()
        invariant
            i <= a@.len(),
            a@.len() == b@.len(),
            forall|k: int| 0 <= k < i ==> a@[k] == b@[k],
        decreases a@.len() - i,
    {
        if a[i].0 != b[i].0 {
            return false;
        }
        i = i + 1;
    }
    assert(a@ =~= b@);
    true
}

impl InstanceEnv {
    /// The instance of a class for a head of one or more constructors.
    pub fn get_multi(&self, class: ClassId, key: &Vec<TyConId>) -> (r: Option<&InstanceEntry>)
        ensures
            r is Some <==> find_instance(self.entries@, class, key@) is Some,
            r matches Some(e) ==> find_instance(self.entries@, class, key@) == Some(*e),
    {
        let mut i: usize = 0;
        assert(self.entries@.skip(0) =~= self.entries@);
        while i < self.entries.len()
            invariant
                i <= self.entries@.len(),
                find_instance(self.entries@, class, key@) == find_instance(
                    self.entries@.skip(i as int),
                    class,
                    key@,
                ),
            decreases self.entries@.len() - i,
        {
            let ghost rest = self.entries@.skip(i as int);
            assert(rest[0] == self.entries@[i as int]);
            assert(rest.skip(1) =~= self.entries@.skip(i + 1));
            if self.entries[i].class.0 == class.0 && same_key(&self.entries[i].key, key) {
                return Some(&self.entries[i]);
            }
            i = i + 1;
        }
        None
    }

    /// The instance of a single-parameter class for a constructor.
    pub fn get(&self, class: ClassId, tycon: TyConId) -> (r: Option<&InstanceEntry>)
        ensures
            r is Some <==> find_instance(self.entries@, class, seq![tycon]) is Some,
            r matches Some(e) ==> find_instance(self.entries@, class, seq![tycon]) == Some(*e),
    {
        let mut key: Vec<TyConId> = Vec::new();
        key.push(tycon);
        assert(key@ =~= seq![tycon]);
        self.get_multi(class, &key)
    }
}

} // verus!
