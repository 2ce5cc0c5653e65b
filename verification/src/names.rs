use vstd::prelude::*;

use crate::text::{decimal, digits, lemma_digits_injective, push_char, same_text, texts};

verus! {

/// The letter of a variable whose index is `k` modulo 26.
pub open spec fn letter(k: nat) -> char {
    (97 + k) as char
}

/// The name of a variable by its index: `a` to `z`, then `a1`, `b1` and so on.
pub open spec fn var_name(v: nat) -> Seq<char> {
    if v < 26 {
        seq![letter(v)]
    } else {
        seq![letter(v % 26)] + digits(v / 26)
    }
}

/// The name of a variable by its index: `a` to `z`, then `a1`, `b1` and so on.
pub fn render_var(v: u128) -> (r: String)
    ensures
        r@ == var_name(v as nat),
{
    let mut out = String::new();
    let k: u8 = (v % 26) as u8;
    push_char(&mut out, (97u8 + k) as char);
    if v >= 26 {
        let rest = decimal(v / 26);
        out.append(rest.as_str());
    }
    assert(out@ =~= var_name(v as nat));
    out
}

/// Two variables with different indices have different names.
pub proof fn var_names_differ(a: nat, b: nat)
    requires
        var_name(a) == var_name(b),
    ensures
        a == b,
{
    assert(var_name(a)[0] == letter(a % 26));
    assert(var_name(b)[0] == letter(b % 26));
    assert(a % 26 == b % 26);
    assert(digits(a / 26).len() >= 1 && digits(b / 26).len() >= 1);
    if a >= 26 && b >= 26 {
        assert(var_name(a).skip(1) =~= digits(a / 26));
        assert(var_name(b).skip(1) =~= digits(b / 26));
        lemma_digits_injective(a / 26, b / 26);
    } else if a < 26 && b >= 26 {
        assert(var_name(a).len() == 1);
    } else if b < 26 && a >= 26 {
        assert(var_name(b).len() == 1);
    }
}

/// What a [`VarNamer`] has handed out.
#[verifier::ext_equal]
pub struct Names {
    /// Each variable that has a letter, with the index of that letter.
    pub seen: Seq<(u32, nat)>,
    /// The first index that has not been handed out or stepped over.
    pub next: nat,
    /// The author's own names that have been printed.
    pub rigids: Seq<Seq<char>>,
    /// The names that no letter may take.
    pub reserved: Seq<Seq<char>>,
}

/// Nothing handed out, with the names in `reserved` kept free.
pub open spec fn no_names(reserved: Seq<Seq<char>>) -> Names {
    Names { seen: Seq::empty(), next: 0, rigids: Seq::empty(), reserved }
}

/// The index of the letter that `v` has.
pub open spec fn index_of(seen: Seq<(u32, nat)>, v: u32) -> Option<nat>
    decreases seen.len(),
{
    if seen.len() == 0 {
        None
    } else if seen[0].0 == v {
        Some(seen[0].1)
    } else {
        index_of(seen.skip(1), v)
    }
}

/// `j` is the first index from `i` on whose name is not reserved.
pub open spec fn is_first_free(reserved: Seq<Seq<char>>, i: nat, j: nat) -> bool {
    &&& i <= j
    &&& !reserved.contains(var_name(j))
    &&& forall|k: nat| i <= k < j ==> reserved.contains(#[trigger] var_name(k))
}

/// The first index from `i` on whose name is not reserved.
pub open spec fn first_free(reserved: Seq<Seq<char>>, i: nat) -> nat {
    choose|j: nat| is_first_free(reserved, i, j)
}

/// The name of variable `v`, and the names after handing it out.
pub open spec fn name_of(n: Names, v: u32) -> (Seq<char>, Names) {
    match index_of(n.seen, v) {
        Some(i) => (var_name(i), n),
        None => {
            let i = first_free(n.reserved, n.next);
            (var_name(i), Names { seen: n.seen.push((v, i)), next: i + 1, ..n })
        },
    }
}

/// The names after printing the author's own name `name`.
pub open spec fn note_rigid(n: Names, name: Seq<char>) -> Names {
    if n.rigids.contains(name) {
        n
    } else {
        Names { rigids: n.rigids.push(name), ..n }
    }
}

/// Every letter that is out belongs to one variable, was met before `next`
/// and is no reserved name.
pub open spec fn names_ok(n: Names) -> bool {
    &&& forall|a: int, b: int|
        0 <= a < b < n.seen.len() ==> (#[trigger] n.seen[a]).0 != (#[trigger] n.seen[b]).0
            && n.seen[a].1 != n.seen[b].1
    &&& forall|a: int|
        0 <= a < n.seen.len() ==> (#[trigger] n.seen[a]).1 < n.next && !n.reserved.contains(
            var_name(n.seen[a].1),
        )
}

proof fn index_of_found(seen: Seq<(u32, nat)>, v: u32, k: int)
    requires
        0 <= k < seen.len(),
        seen[k].0 == v,
        forall|a: int| 0 <= a < k ==> (#[trigger] seen[a]).0 != v,
    ensures
        index_of(seen, v) == Some(seen[k].1),
    decreases k,
{
    if k > 0 {
        assert(seen[0].0 != v);
        assert forall|a: int| 0 <= a < k - 1 implies (#[trigger] seen.skip(1)[a]).0 != v by {
            assert(seen.skip(1)[a] == seen[a + 1]);
        }
        assert(seen.skip(1)[k - 1] == seen[k]);
        index_of_found(seen.skip(1), v, k - 1);
    }
}

proof fn index_of_absent(seen: Seq<(u32, nat)>, v: u32)
    requires
        forall|a: int| 0 <= a < seen.len() ==> (#[trigger] seen[a]).0 != v,
    ensures
        index_of(seen, v) is None,
    decreases seen.len(),
{
    if seen.len() > 0 {
        assert(seen[0].0 != v);
        assert forall|a: int| 0 <= a < seen.skip(1).len() implies (#[trigger] seen.skip(1)[a]).0
            != v by {
            assert(seen.skip(1)[a] == seen[a + 1]);
        }
        index_of_absent(seen.skip(1), v);
    }
}

proof fn first_free_unique(reserved: Seq<Seq<char>>, i: nat, j: nat)
    requires
        is_first_free(reserved, i, j),
    ensures
        first_free(reserved, i) == j,
{
    let c = first_free(reserved, i);
    assert(is_first_free(reserved, i, c));
    if c < j {
        assert(reserved.contains(var_name(c)));
    } else if j < c {
        assert(reserved.contains(var_name(j)));
    }
}

/// A run of reserved indices is no longer than the list of reserved names.
proof fn run_is_short(reserved: Seq<Seq<char>>, i: nat, j: nat)
    requires
        i <= j,
        forall|k: nat| i <= k < j ==> reserved.contains(#[trigger] var_name(k)),
    ensures
        j - i <= reserved.len(),
{
    let run = Seq::new((j - i) as nat, |k: int| var_name((i + k) as nat));
    assert forall|a: int, b: int| 0 <= a < run.len() && 0 <= b < run.len() && a != b implies run[a]
        != run[b] by {
        if run[a] == run[b] {
            var_names_differ((i + a) as nat, (i + b) as nat);
        }
    }
    assert(run.no_duplicates());
    run.unique_seq_to_set();
    assert forall|x: Seq<char>| #[trigger] run.to_set().contains(x) implies reserved.to_set().contains(
        x,
    ) by {
        let k = choose|k: int| 0 <= k < run.len() && run[k] == x;
        assert(reserved.contains(var_name((i + k) as nat)));
    }
    assert(run.to_set().subset_of(reserved.to_set()));
    vstd::set_lib::lemma_len_subset(run.to_set(), reserved.to_set());
    reserved.lemma_cardinality_of_set();
}

proof fn some_free(reserved: Seq<Seq<char>>, i: nat, j: nat)
    requires
        i <= j <= i + reserved.len() + 1,
        forall|k: nat| i <= k < j ==> reserved.contains(#[trigger] var_name(k)),
    ensures
        exists|m: nat| is_first_free(reserved, i, m),
    decreases i + reserved.len() + 1 - j,
{
    if reserved.contains(var_name(j)) {
        run_is_short(reserved, i, j + 1);
        some_free(reserved, i, j + 1);
    } else {
        assert(is_first_free(reserved, i, j));
    }
}

/// A variable never gets a reserved name, and handing out a name keeps the
/// names that are out consistent.
pub proof fn letters_avoid_reserved(n: Names, v: u32)
    requires
        names_ok(n),
    ensures
        !n.reserved.contains(name_of(n, v).0),
        names_ok(name_of(n, v).1),
        index_of(name_of(n, v).1.seen, v) is Some,
        name_of(name_of(n, v).1, v).0 == name_of(n, v).0,
{
    match index_of(n.seen, v) {
        Some(i) => {
            index_is_listed(n.seen, v);
        },
        None => {
            some_free(n.reserved, n.next, n.next);
            let i = first_free(n.reserved, n.next);
            assert(is_first_free(n.reserved, n.next, i));
            let seen = n.seen.push((v, i));
            assert forall|a: int| 0 <= a < n.seen.len() implies (#[trigger] n.seen[a]).0 != v by {
                if n.seen[a].0 == v {
                    listed_has_index(n.seen, v, a);
                }
            }
            assert forall|a: int, b: int| 0 <= a < b < seen.len() implies (#[trigger] seen[a]).0 != (
            #[trigger] seen[b]).0 && seen[a].1 != seen[b].1 by {
                assert(seen[a] == n.seen[a]);
                if b < n.seen.len() {
                    assert(seen[b] == n.seen[b]);
                }
            }
            assert forall|a: int| 0 <= a < seen.len() implies (#[trigger] seen[a]).1 < i + 1
                && !n.reserved.contains(var_name(seen[a].1)) by {
                if a < n.seen.len() {
                    assert(seen[a] == n.seen[a]);
                }
            }
            index_of_found(seen, v, n.seen.len() as int);
        },
    }
}

proof fn index_is_listed(seen: Seq<(u32, nat)>, v: u32)
    ensures
        index_of(seen, v) matches Some(i) ==> exists|a: int|
            0 <= a < seen.len() && #[trigger] seen[a] == (v, i),
    decreases seen.len(),
{
    if seen.len() > 0 {
        if seen[0].0 == v {
            assert(seen[0] == (v, seen[0].1));
        } else {
            index_is_listed(seen.skip(1), v);
            match index_of(seen, v) {
                Some(i) => {
                    let a = choose|a: int| 0 <= a < seen.skip(1).len() && seen.skip(1)[a] == (v, i);
                    assert(seen[a + 1] == (v, i));
                },
                None => {},
            }
        }
    }
}

proof fn listed_has_index(seen: Seq<(u32, nat)>, v: u32, a: int)
    requires
        0 <= a < seen.len(),
        seen[a].0 == v,
    ensures
        index_of(seen, v) is Some,
    decreases seen.len(),
{
    if seen[0].0 != v {
        assert(seen.skip(1)[a - 1] == seen[a]);
        listed_has_index(seen.skip(1), v, a - 1);
    }
}

/// Two variables get two names.
pub proof fn letters_tell_apart(n: Names, v: u32, w: u32)
    requires
        names_ok(n),
        v != w,
    ensures
        name_of(n, v).0 != name_of(name_of(n, v).1, w).0,
{
    letters_avoid_reserved(n, v);
    let m = name_of(n, v).1;
    letters_avoid_reserved(m, w);
    let o = name_of(m, w).1;
    letter_stays(m, w, v);
    index_is_listed(o.seen, v);
    index_is_listed(o.seen, w);
    let i = index_of(o.seen, v)->0;
    let j = index_of(o.seen, w)->0;
    let a = choose|a: int| 0 <= a < o.seen.len() && o.seen[a] == (v, i);
    let b = choose|b: int| 0 <= b < o.seen.len() && o.seen[b] == (w, j);
    if var_name(i) == var_name(j) {
        var_names_differ(i, j);
        if a < b {
            assert(o.seen[a].1 != o.seen[b].1);
        } else {
            assert(o.seen[b].1 != o.seen[a].1);
        }
    }
}

/// A name that is out stays with its variable.
pub proof fn letter_stays(n: Names, w: u32, v: u32)
    requires
        index_of(n.seen, v) is Some,
    ensures
        index_of(name_of(n, w).1.seen, v) == index_of(n.seen, v),
{
    if index_of(n.seen, w) is None {
        index_of_push(n.seen, v, (w, first_free(n.reserved, n.next)));
    }
}

proof fn index_of_push(seen: Seq<(u32, nat)>, v: u32, x: (u32, nat))
    requires
        index_of(seen, v) is Some,
    ensures
        index_of(seen.push(x), v) == index_of(seen, v),
    decreases seen.len(),
{
    if seen[0].0 != v {
        index_of_push(seen.skip(1), v, x);
        assert(seen.push(x).skip(1) =~= seen.skip(1).push(x));
    }
}

/// A list of variables without repetition fits in the range of their ids.
proof fn distinct_ids(seen: Seq<(u32, nat)>)
    requires
        forall|a: int, b: int|
            0 <= a < b < seen.len() ==> (#[trigger] seen[a]).0 != (#[trigger] seen[b]).0,
    ensures
        seen.len() <= 0x1_0000_0000,
{
    let ids = Seq::new(seen.len(), |k: int| seen[k].0 as int);
    assert forall|a: int, b: int| 0 <= a < ids.len() && 0 <= b < ids.len() && a != b implies ids[a]
        != ids[b] by {
        if a < b {
            assert(seen[a].0 != seen[b].0);
        } else {
            assert(seen[b].0 != seen[a].0);
        }
    }
    assert(ids.no_duplicates());
    ids.unique_seq_to_set();
    let all = vstd::set_lib::set_int_range(0, 0x1_0000_0000);
    vstd::set_lib::lemma_int_range(0, 0x1_0000_0000);
    assert(ids.to_set().subset_of(all));
    vstd::set_lib::lemma_len_subset(ids.to_set(), all);
}

/// Hands out letters to type variables in the order of their first appearance.
///
/// One namer is shared by everything that one message prints, so that one
/// variable reads as one letter and two variables as two.
pub struct VarNamer {
    seen: Vec<(u32, u128)>,
    next: u128,
    rigids: Vec<String>,
    reserved: Vec<String>,
}

impl VarNamer {
    pub closed spec fn view(&self) -> Names {
        Names {
            seen: Seq::new(self.seen@.len(), |k: int| (self.seen@[k].0, self.seen@[k].1 as nat)),
            next: self.next as nat,
            rigids: texts(self.rigids@),
            reserved: texts(self.reserved@),
        }
    }

    /// The letters that are out are consistent, and the counter has room.
    pub closed spec fn wf(&self) -> bool {
        &&& names_ok(self@)
        &&& self.next <= self.seen@.len() * (self.reserved@.len() + 1)
    }

    /// The names of a namer in order are in order.
    pub proof fn names_in_order(&self)
        requires
            self.wf(),
        ensures
            names_ok(self@),
    {
    }

    /// A namer that has handed out nothing.
    pub fn new() -> (r: VarNamer)
        ensures
            r.wf(),
            r@ == no_names(Seq::empty()),
    {
        let r = VarNamer {
            seen: Vec::new(),
            next: 0,
            rigids: Vec::new(),
            reserved: Vec::new(),
        };
        assert(r@ =~= no_names(Seq::empty()));
        r
    }

    /// A namer whose letters step over the names in `reserved`.
    pub fn reserving(reserved: Vec<String>) -> (r: VarNamer)
        ensures
            r.wf(),
            r@ == no_names(texts(reserved@)),
    {
        let r = VarNamer { seen: Vec::new(), next: 0, rigids: Vec::new(), reserved };
        assert(r@ =~= no_names(texts(reserved@)));
        r
    }

    /// The letter of variable `v`, handing out the next free one if it has none.
    pub fn name(&mut self, v: u32) -> (r: String)
        requires
            old(self).wf(),
        ensures
            final(self).wf(),
            (r@, final(self)@) == name_of(old(self)@, v),
    {
        let ghost n = self@;
        let mut k: usize = 0;
        while k < self.seen.len()
            invariant
                self.wf(),
                self@ == n,
                n == old(self)@,
                k <= self.seen@.len(),
                forall|a: int| 0 <= a < k ==> (#[trigger] self.seen@[a]).0 != v,
            decreases self.seen@.len() - k,
        {
            if self.seen[k].0 == v {
                let i: u128 = self.seen[k].1;
                proof {
                    assert(n.seen[k as int] == (v, i as nat));
                    assert forall|a: int| 0 <= a < k implies (#[trigger] n.seen[a]).0 != v by {
                        assert(self.seen@[a].0 != v);
                    }
                    index_of_found(n.seen, v, k as int);
                }
                return render_var(i);
            }
            k = k + 1;
        }
        proof {
            assert forall|a: int| 0 <= a < n.seen.len() implies (#[trigger] n.seen[a]).0 != v by {
                assert(self.seen@[a].0 != v);
            }
            index_of_absent(n.seen, v);
            distinct_ids(n.seen.push((v, 0)));
            let s: int = self.seen@.len() as int;
            let m: int = self.reserved@.len() as int;
            assert(self.reserved.len() == m);
            assert(s * (m + 1) <= 0x1_0000_0000 * 0x1_0000_0000_0000_0000) by (nonlinear_arith)
                requires
                    0 <= s <= 0x1_0000_0000,
                    0 <= m < 0x1_0000_0000_0000_0000,
            ;
        }
        let start: u128 = self.next;
        let mut i: u128 = self.next;
        let mut taken: bool = self.is_reserved(i);
        while taken
            invariant
                self.wf(),
                self@ == n,
                start == n.next,
                start <= i,
                start <= 0x1_0000_0000 * 0x1_0000_0000_0000_0000,
                taken == n.reserved.contains(var_name(i as nat)),
                n.reserved.len() == self.reserved@.len(),
                forall|k: nat| start <= k < i ==> n.reserved.contains(#[trigger] var_name(k)),
            decreases self.reserved@.len() - (i - start),
        {
            proof {
                assert(self.reserved.len() == self.reserved@.len());
                run_is_short(n.reserved, start as nat, (i + 1) as nat);
            }
            i = i + 1;
            taken = self.is_reserved(i);
        }
        proof {
            first_free_unique(n.reserved, n.next, i as nat);
            run_is_short(n.reserved, start as nat, i as nat);
            assert(self.reserved.len() == self.reserved@.len());
        }
        self.next = i + 1;
        self.seen.push((v, i));
        proof {
            let after = name_of(n, v).1;
            assert(self@.seen =~= after.seen);
            assert(self@ =~= after);
            let s: int = n.seen.len() as int;
            let m: int = n.reserved.len() as int;
            assert((s + 1) * (m + 1) == s * (m + 1) + m + 1) by (nonlinear_arith);
            assert(names_ok(after)) by {
                assert forall|a: int|
                    0 <= a < after.seen.len() implies (#[trigger] after.seen[a]).1 < after.next
                    && !after.reserved.contains(var_name(after.seen[a].1)) by {
                    if a < n.seen.len() {
                        assert(after.seen[a] == n.seen[a]);
                    }
                }
                assert forall|a: int, b: int|
                    0 <= a < b < after.seen.len() implies (#[trigger] after.seen[a]).0 != (
                #[trigger] after.seen[b]).0 && after.seen[a].1 != after.seen[b].1 by {
                    assert(after.seen[a] == n.seen[a]);
                    if b < n.seen.len() {
                        assert(after.seen[b] == n.seen[b]);
                    }
                }
            }
        }
        render_var(i)
    }

    fn is_reserved(&self, i: u128) -> (r: bool)
        ensures
            r == self@.reserved.contains(var_name(i as nat)),
    {
        let name = render_var(i);
        let mut k: usize = 0;
        while k < self.reserved.len()
            invariant
                k <= self.reserved@.len(),
                name@ == var_name(i as nat),
                forall|a: int| 0 <= a < k ==> (#[trigger] self.reserved@[a])@ != name@,
            decreases self.reserved@.len() - k,
        {
            if same_text(self.reserved[k].as_str(), name.as_str()) {
                assert(self@.reserved[k as int] == var_name(i as nat));
                return true;
            }
            k = k + 1;
        }
        assert forall|a: int| 0 <= a < self@.reserved.len() implies self@.reserved[a] != name@ by {
            assert(self.reserved@[a]@ != name@);
        }
        false
    }

    /// The author's own name for a signature variable, noted as printed.
    pub fn rigid(&mut self, name: &str) -> (r: String)
        requires
            old(self).wf(),
        ensures
            final(self).wf(),
            r@ == name@,
            final(self)@ == note_rigid(old(self)@, name@),
    {
        let mut k: usize = 0;
        let mut known: bool = false;
        while k < self.rigids.len()
            invariant
                *self == *old(self),
                k <= self.rigids@.len(),
                known == exists|a: int| 0 <= a < k && (#[trigger] self.rigids@[a])@ == name@,
            decreases self.rigids@.len() - k,
        {
            if same_text(self.rigids[k].as_str(), name) {
                known = true;
            }
            k = k + 1;
        }
        assert(known == self@.rigids.contains(name@)) by {
            if known {
                let a = choose|a: int|
                    0 <= a < self.rigids@.len() && (#[trigger] self.rigids@[a])@ == name@;
                assert(self@.rigids[a] == name@);
            }
            if self@.rigids.contains(name@) {
                let a = choose|a: int| 0 <= a < self@.rigids.len() && self@.rigids[a] == name@;
                assert(self.rigids@[a]@ == name@);
            }
        }
        if !known {
            self.rigids.push(name.to_owned());
        }
        proof {
            let want = note_rigid(old(self)@, name@);
            assert(self@.rigids =~= want.rigids);
            assert(self@ =~= want);
        }
        name.to_owned()
    }

    /// Whether no name of the author's has been printed.
    pub fn met_no_rigid(&self) -> (r: bool)
        ensures
            r == (self@.rigids.len() == 0),
    {
        self.rigids.len() == 0
    }

    /// The author's own names that have been printed.
    pub fn into_rigids(self) -> (r: Vec<String>)
        ensures
            texts(r@) == self@.rigids,
    {
        self.rigids
    }
}

} // verus!
