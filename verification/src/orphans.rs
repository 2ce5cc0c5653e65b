use vstd::prelude::*;

use crate::error::{alternatives, code_text, desc_text, message, TypeError};
use crate::names::Names;
use crate::text::texts;
use crate::types::TyConDecl;

verus! {

/// A text occurs in another, from position `i` on.
pub open spec fn occurs_at(s: Seq<char>, p: Seq<char>, i: int) -> bool {
    0 <= i && i + p.len() <= s.len() && forall|k: int|
        0 <= k < p.len() ==> #[trigger] p[k] == s[i + k]
}

/// A text occurs in another.
pub open spec fn occurs(s: Seq<char>, p: Seq<char>) -> bool {
    exists|i: int| #[trigger] occurs_at(s, p, i)
}

/// No two neighbours among the first `k` characters are `c` and `d`.
spec fn lacks(s: Seq<char>, c: char, d: char, k: nat) -> bool
    decreases k,
{
    k <= 1 || (!(s[k - 2] == c && s[k - 1] == d) && lacks(s, c, d, (k - 1) as nat))
}

proof fn lacked(s: Seq<char>, c: char, d: char, k: nat, i: int)
    requires
        lacks(s, c, d, k),
        k <= s.len(),
        0 <= i < k - 1,
    ensures
        !(s[i] == c && s[i + 1] == d),
    decreases k,
{
    if i < k - 2 {
        lacked(s, c, d, (k - 1) as nat, i);
    }
}

/// A text that starts with `c` and `d` does not occur where these are no
/// neighbours.
proof fn not_within(s: Seq<char>, p: Seq<char>)
    requires
        p.len() >= 2,
        lacks(s, p[0], p[1], s.len()),
    ensures
        !occurs(s, p),
{
    assert forall|i: int| !(#[trigger] occurs_at(s, p, i)) by {
        if occurs_at(s, p, i) {
            assert(p[0] == s[i + 0]);
            assert(p[1] == s[i + 1]);
            lacked(s, p[0], p[1], s.len(), i);
        }
    }
}

/// A text without backticks does not reach over one.
proof fn fenced(a: Seq<char>, b: Seq<char>, p: Seq<char>)
    requires
        forall|k: int| 0 <= k < p.len() ==> #[trigger] p[k] != '`',
        a.len() > 0 && a.last() == '`' || b.len() > 0 && b[0] == '`',
        !occurs(a, p),
        !occurs(b, p),
    ensures
        !occurs(a + b, p),
{
    let s = a + b;
    assert forall|i: int| !(#[trigger] occurs_at(s, p, i)) by {
        if occurs_at(s, p, i) {
            let n = a.len() as int;
            if i + p.len() <= n {
                assert(occurs_at(a, p, i));
            } else if i >= n {
                assert forall|k: int| 0 <= k < p.len() implies #[trigger] p[k] == b[i - n + k] by {
                    assert(p[k] == s[i + k]);
                }
                assert(occurs_at(b, p, i - n));
            } else {
                assert(p[n - 1 - i] == s[i + (n - 1 - i)]);
                assert(p[n - i] == s[i + (n - i)]);
            }
        }
    }
}

/// What occurs in a part of a text occurs in the text.
proof fn within(a: Seq<char>, b: Seq<char>, c: Seq<char>, p: Seq<char>)
    requires
        !occurs(a + b + c, p),
    ensures
        !occurs(b, p),
{
    assert forall|i: int| !(#[trigger] occurs_at(b, p, i)) by {
        if occurs_at(b, p, i) {
            let s = a + b + c;
            let n = a.len() as int;
            assert forall|k: int| 0 <= k < p.len() implies #[trigger] p[k] == s[n + i + k] by {
                assert(p[k] == b[i + k]);
            }
            assert(occurs_at(s, p, n + i));
        }
    }
}

/// What opens the message of an orphan instance.
spec fn orphan_head() -> Seq<char> {
    code_text(31) + ": "@ + "orphan instance\n  `instance "@
}

proof fn head_is_clear(s: Seq<char>, p: Seq<char>)
    requires
        p == "must be defined in "@,
        !occurs(s, p),
    ensures
        !occurs(orphan_head() + s, p),
{
    reveal_strlit("must be defined in ");
    reveal_strlit(": ");
    reveal_strlit("orphan instance\n  `instance ");
    let h = orphan_head();
    assert(h.len() == 34);
    assert(lacks(h, 'm', 'u', h.len())) by {
        reveal_with_fuel(lacks, 35);
    }
    assert forall|i: int| !(#[trigger] occurs_at(h + s, p, i)) by {
        if occurs_at(h + s, p, i) {
            let n = h.len() as int;
            if i >= n {
                assert forall|k: int| 0 <= k < p.len() implies #[trigger] p[k] == s[i - n + k] by {
                    assert(p[k] == (h + s)[i + k]);
                }
                assert(occurs_at(s, p, i - n));
            } else {
                assert(p[0] == (h + s)[i + 0]);
                assert(p[1] == (h + s)[i + 1]);
                if i < n - 1 {
                    lacked(h, 'm', 'u', h.len(), i);
                } else {
                    assert(h[33] == ' ');
                }
            }
        }
    }
}

proof fn phrases_are_clear(p: Seq<char>)
    requires
        p == "must be defined in "@,
    ensures
        !occurs("` cannot be written here: `"@, p),
        !occurs("` and `"@, p),
        !occurs(
            "` are both built in, so no module in this workspace declares either of them\n  hint: wrap `"@,
            p,
        ),
        !occurs("` in a type of your own and write the instance for the wrapper"@, p),
{
    reveal_strlit("must be defined in ");
    reveal_strlit("` cannot be written here: `");
    reveal_strlit("` and `");
    reveal_strlit(
        "` are both built in, so no module in this workspace declares either of them\n  hint: wrap `",
    );
    reveal_strlit("` in a type of your own and write the instance for the wrapper");
    reveal_with_fuel(lacks, 100);
    not_within("` cannot be written here: `"@, p);
    not_within("` and `"@, p);
    not_within(
        "` are both built in, so no module in this workspace declares either of them\n  hint: wrap `"@,
        p,
    );
    not_within("` in a type of your own and write the instance for the wrapper"@, p);
}

/// What the message of an orphan instance says after its opening where no module
/// may define the instance.
spec fn homeless(class: Seq<char>, ty: Seq<char>) -> Seq<char> {
    class + " "@ + ty + "` cannot be written here: `"@ + class + "` and `"@ + ty
        + "` are both built in, so no module in this workspace declares either of them\n  hint: wrap `"@
        + ty + "` in a type of your own and write the instance for the wrapper"@
}

proof fn homeless_is_clear(class: Seq<char>, ty: Seq<char>, p: Seq<char>)
    requires
        p == "must be defined in "@,
        !occurs(class + " "@ + ty, p),
    ensures
        !occurs(homeless(class, ty), p),
{
    let a = "` cannot be written here: `"@;
    let b = "` and `"@;
    let c =
        "` are both built in, so no module in this workspace declares either of them\n  hint: wrap `"@;
    let d = "` in a type of your own and write the instance for the wrapper"@;
    phrases_are_clear(p);
    assert(forall|k: int| 0 <= k < p.len() ==> #[trigger] p[k] != '`') by {
        reveal_strlit("must be defined in ");
    }
    reveal_strlit("` cannot be written here: `");
    reveal_strlit("` and `");
    reveal_strlit(
        "` are both built in, so no module in this workspace declares either of them\n  hint: wrap `",
    );
    reveal_strlit("` in a type of your own and write the instance for the wrapper");
    let s = class + " "@ + ty;
    assert(Seq::<char>::empty() + class + (" "@ + ty) =~= s);
    within(Seq::empty(), class, " "@ + ty, p);
    assert((class + " "@) + ty + Seq::<char>::empty() =~= s);
    within(class + " "@, ty, Seq::empty(), p);
    fenced(s, a, p);
    fenced(s + a, class, p);
    fenced(s + a + class, b, p);
    fenced(s + a + class + b, ty, p);
    fenced(s + a + class + b + ty, c, p);
    fenced(s + a + class + b + ty + c, ty, p);
    fenced(s + a + class + b + ty + c + ty, d, p);
}

/// The message of an orphan instance says where the instance must be defined if
/// some module may define it. If none may, it says no such thing, unless the
/// class and the type themselves are called so.
pub proof fn only_homes_are_named(e: TypeError, tycons: Seq<TyConDecl>, n: Names)
    requires
        e is OrphanInstance,
    ensures
        ({
            let ty = desc_text(e->OrphanInstance_ty, tycons, n).0;
            let phrase = "must be defined in "@;
            occurs(message(e, tycons, n).0, phrase) <==> e->legal_modules@.len() > 0 || occurs(
                e->OrphanInstance_class@ + " "@ + ty,
                phrase,
            )
        }),
{
    let ty = desc_text(e->OrphanInstance_ty, tycons, n).0;
    let class = e->OrphanInstance_class@;
    let p = "must be defined in "@;
    let m = message(e, tycons, n).0;
    if e->legal_modules@.len() > 0 {
        let before = orphan_head() + class + " "@ + ty;
        reveal_strlit("must be defined in ");
        reveal_strlit("` must be defined in ");
        let i: int = before.len() as int + 2;
        let rest = alternatives(texts(e->legal_modules@)) + "; found in `"@
            + e->instance_module@ + "`\n  hint: move the instance to one of those modules"@;
        assert(m =~= before + "` must be defined in "@ + rest);
        assert(occurs_at(m, p, i));
    } else {
        assert(m =~= orphan_head() + homeless(class, ty));
        if !occurs(class + " "@ + ty, p) {
            homeless_is_clear(class, ty, p);
            head_is_clear(homeless(class, ty), p);
        } else if !occurs(m, p) {
            let s = class + " "@ + ty;
            let rest = homeless(class, ty).skip(s.len() as int);
            assert(m =~= orphan_head() + s + rest);
            within(orphan_head(), s, rest, p);
        }
    }
}

} // verus!
