use vstd::prelude::*;
use vstd::string::*;

use crate::scan::{
    arrow_end, blank_end, eat, eaten, eats, skip_arrow, skip_blanks, skip_word, word_end,
};
use crate::shapes::{shape_fields, shapes, Rendered, Shape};
use crate::text::same_text;

verus! {

broadcast use {
    crate::shapes::group_shapes, crate::scan::blank_forward, crate::scan::word_forward};

/// The type that starts at `i`, and where it ends. There is none where reading
/// would never end: inside braces, at something that is no field.
pub open spec fn type_at(s: Seq<char>, i: nat) -> Option<(nat, Shape)>
    decreases s.len() - i, 1nat,
{
    let j = blank_end(s, i);
    if !(i <= j) || j >= s.len() {
        Some((j, Shape::Hole))
    } else if s[j as int] == '_' {
        Some((j + 1, Shape::Hole))
    } else if s[j as int] == '(' {
        match types_at(s, j + 1) {
            Some((p, ts)) => Some(
                (
                    eaten(s, p, ')'),
                    if ts.len() == 1 {
                        ts[0]
                    } else {
                        Shape::Tuple(ts)
                    },
                ),
            ),
            None => None,
        }
    } else if s[j as int] == '{' {
        match fields_at(s, j + 1) {
            Some((p, fs)) => Some((p, Shape::Record(fs))),
            None => None,
        }
    } else {
        let e = word_end(s, j);
        let name = s.subrange(j as int, e as int);
        if name == "fn"@ && eats(s, e, '(') {
            let q = eaten(s, e, '(');
            let params = if eats(s, q, ')') {
                Some((eaten(s, q, ')'), Seq::<Shape>::empty()))
            } else if i < q <= s.len() {
                match types_at(s, q) {
                    Some((p, ts)) => Some((eaten(s, p, ')'), ts)),
                    None => None,
                }
            } else {
                None
            };
            match params {
                Some((p, ts)) => {
                    let r = arrow_end(s, p);
                    if i < r <= s.len() {
                        match type_at(s, r) {
                            Some((z, ret)) => Some((z, Shape::Fn { params: ts, ret: Box::new(ret) })),
                            None => None,
                        }
                    } else {
                        None
                    }
                },
                None => None,
            }
        } else if eats(s, e, '<') {
            let q = eaten(s, e, '<');
            if i < q <= s.len() {
                match types_at(s, q) {
                    Some((p, ts)) => Some((eaten(s, p, '>'), Shape::Named { name, args: ts })),
                    None => None,
                }
            } else {
                None
            }
        } else {
            Some((blank_end(s, e), Shape::Named { name, args: Seq::empty() }))
        }
    }
}

/// The types from `i` on, with commas between them, and where they end.
pub open spec fn types_at(s: Seq<char>, i: nat) -> Option<(nat, Seq<Shape>)>
    decreases s.len() - i, 2nat,
{
    match type_at(s, i) {
        Some((p, t)) => if eats(s, p, ',') {
            let q = eaten(s, p, ',');
            if i < q <= s.len() {
                match types_at(s, q) {
                    Some((z, ts)) => Some((z, seq![t] + ts)),
                    None => None,
                }
            } else {
                None
            }
        } else {
            Some((blank_end(s, p), seq![t]))
        },
        None => None,
    }
}

/// The fields from `i` on, up to the closing brace, and where they end. What
/// stands behind a bar is left out.
pub open spec fn fields_at(s: Seq<char>, i: nat) -> Option<(nat, Seq<(Seq<char>, Shape)>)>
    decreases s.len() - i, 3nat,
{
    let q = blank_end(s, i);
    if eats(s, i, '}') {
        Some((eaten(s, i, '}'), Seq::empty()))
    } else if eats(s, i, '|') {
        let w = word_end(s, blank_end(s, eaten(s, i, '|')));
        Some((eaten(s, w, '}'), Seq::empty()))
    } else {
        let w = word_end(s, q);
        let name = s.subrange(q as int, w as int);
        let f = eaten(s, w, ':');
        if i <= f <= s.len() {
            match type_at(s, f) {
                Some((p, t)) => {
                    let g = eaten(s, p, ',');
                    if i < g <= s.len() {
                        match fields_at(s, g) {
                            Some((z, fs)) => Some((z, seq![(name, t)] + fs)),
                            None => None,
                        }
                    } else {
                        None
                    }
                },
                None => None,
            }
        } else {
            None
        }
    }
}

proof fn type_forward(s: Seq<char>, i: nat)
    requires
        i <= s.len(),
    ensures
        type_at(s, i) matches Some((p, _)) ==> i <= p <= s.len(),
    decreases s.len() - i, 1nat,
{
    let j = blank_end(s, i);
    if j < s.len() {
        let e = word_end(s, j);
        if s[j as int] == '(' {
            types_forward(s, j + 1);
        } else if s[j as int] == '{' {
            fields_forward(s, j + 1);
        } else if s[j as int] != '_' {
            let name = s.subrange(j as int, e as int);
            if name == "fn"@ && eats(s, e, '(') {
                let q = eaten(s, e, '(');
                types_forward(s, q);
                match type_at(s, i) {
                    Some(_) => {
                        let p = if eats(s, q, ')') {
                            eaten(s, q, ')')
                        } else {
                            eaten(s, (types_at(s, q)->0).0, ')')
                        };
                        type_forward(s, arrow_end(s, p));
                    },
                    None => {},
                }
            } else if eats(s, e, '<') {
                types_forward(s, eaten(s, e, '<'));
            }
        }
    }
}

proof fn types_forward(s: Seq<char>, i: nat)
    requires
        i <= s.len(),
    ensures
        types_at(s, i) matches Some((p, ts)) ==> i <= p <= s.len() && ts.len() > 0,
    decreases s.len() - i, 2nat,
{
    type_forward(s, i);
    match type_at(s, i) {
        Some((p, t)) => {
            if eats(s, p, ',') && i < eaten(s, p, ',') {
                types_forward(s, eaten(s, p, ','));
            }
        },
        None => {},
    }
}

proof fn fields_forward(s: Seq<char>, i: nat)
    requires
        i <= s.len(),
    ensures
        fields_at(s, i) matches Some((p, _)) ==> i <= p <= s.len(),
    decreases s.len() - i, 3nat,
{
    let q = blank_end(s, i);
    if !eats(s, i, '}') && !eats(s, i, '|') {
        let f = eaten(s, word_end(s, q), ':');
        type_forward(s, f);
        match type_at(s, f) {
            Some((p, t)) => {
                let g = eaten(s, p, ',');
                if i < g {
                    fields_forward(s, g);
                }
            },
            None => {},
        }
    }
}

pub open spec fn reads(r: Option<(usize, Rendered)>, want: Option<(nat, Shape)>) -> bool {
    match want {
        Some((p, t)) => r matches Some(x) && x.0 == p && x.1@ == t,
        None => r is None,
    }
}

pub open spec fn reads_list(
    r: Option<(usize, Vec<Rendered>)>,
    want: Option<(nat, Seq<Shape>)>,
) -> bool {
    match want {
        Some((p, ts)) => r matches Some(x) && x.0 == p && shapes(x.1@) == ts,
        None => r is None,
    }
}

pub open spec fn reads_fields(
    r: Option<(usize, Vec<(String, Rendered)>)>,
    want: Option<(nat, Seq<(Seq<char>, Shape)>)>,
) -> bool {
    match want {
        Some((p, fs)) => r matches Some(x) && x.0 == p && shape_fields(x.1@) == fs,
        None => r is None,
    }
}

fn only<T>(ts: Vec<T>) -> (r: Option<T>)
    requires
        ts@.len() == 1,
    ensures
        r == Some(ts@[0]),
{
    let mut ts = ts;
    ts.pop()
}

fn read_fn(s: &str, n: usize, from: usize, q: usize) -> (r: Option<(usize, Rendered)>)
    requires
        n == s@.len(),
        from < q <= n,
        ({
            let j = blank_end(s@, from as nat);
            let e = word_end(s@, j);
            &&& j < s@.len()
            &&& s@.subrange(j as int, e as int) == "fn"@
            &&& e > j
            &&& s@[j as int] != '_'
            &&& s@[j as int] != '('
            &&& s@[j as int] != '{'
            &&& eats(s@, e, '(')
            &&& q == eaten(s@, e, '(')
        }),
    ensures
        reads(r, type_at(s@, from as nat)),
    decreases n - from, 0nat,
{
    let (empty, p) = eat(s, n, q, ')');
    let (p, params) = if empty {
        let none: Vec<Rendered> = Vec::new();
        assert(shapes(none@) =~= Seq::<Shape>::empty());
        (p, none)
    } else {
        proof {
            types_forward(s@, q as nat);
        }
        match read_types(s, n, q) {
            Some((z, ts)) => {
                let (_, z) = eat(s, n, z, ')');
                (z, ts)
            },
            None => {
                return None;
            },
        }
    };
    let at = skip_arrow(s, n, p);
    match read_type(s, n, at) {
        Some((z, ret)) => {
            let t = Rendered::Fn { params, ret: Box::new(ret) };
            Some((z, t))
        },
        None => None,
    }
}

fn read_type(s: &str, n: usize, from: usize) -> (r: Option<(usize, Rendered)>)
    requires
        n == s@.len(),
        from <= n,
    ensures
        reads(r, type_at(s@, from as nat)),
    decreases n - from, 1nat,
{
    let j = skip_blanks(s, n, from);
    if j >= n {
        return Some((j, Rendered::Hole));
    }
    let c = s.get_char(j);
    if c == '_' {
        return Some((j + 1, Rendered::Hole));
    }
    if c == '(' {
        proof {
            types_forward(s@, (j + 1) as nat);
        }
        return match read_types(s, n, j + 1) {
            Some((p, ts)) => {
                let (_, p) = eat(s, n, p, ')');
                if ts.len() == 1 {
                    assert(shapes(ts@)[0] == ts@[0]@);
                    match only(ts) {
                        Some(t) => Some((p, t)),
                        None => None,
                    }
                } else {
                    Some((p, Rendered::Tuple(ts)))
                }
            },
            None => None,
        };
    }
    if c == '{' {
        return match read_fields(s, n, j + 1) {
            Some((p, fs)) => Some((p, Rendered::Record(fs))),
            None => None,
        };
    }
    let e = skip_word(s, n, j);
    let name = s.substring_char(j, e);
    let (open, q) = eat(s, n, e, '(');
    if open && same_text(name, "fn") {
        proof {
            reveal_strlit("fn");
            assert(name@.len() == 2);
        }
        return read_fn(s, n, from, q);
    }
    let (open, q) = eat(s, n, e, '<');
    if open {
        proof {
            types_forward(s@, q as nat);
        }
        return match read_types(s, n, q) {
            Some((p, args)) => {
                let (_, p) = eat(s, n, p, '>');
                let t = Rendered::Named { name: name.to_owned(), args };
                Some((p, t))
            },
            None => None,
        };
    }
    let args: Vec<Rendered> = Vec::new();
    assert(shapes(args@) =~= Seq::<Shape>::empty());
    let t = Rendered::Named { name: name.to_owned(), args };
    Some((q, t))
}

fn read_types(s: &str, n: usize, from: usize) -> (r: Option<(usize, Vec<Rendered>)>)
    requires
        n == s@.len(),
        from <= n,
    ensures
        reads_list(r, types_at(s@, from as nat)),
    decreases n - from, 2nat,
{
    let mut out: Vec<Rendered> = Vec::new();
    let mut i: usize = from;
    let ghost done = Seq::<Shape>::empty();
    assert(match types_at(s@, i as nat) {
        Some((z, ts)) => done + ts == ts,
        None => true,
    });
    loop
        invariant
            n == s@.len(),
            from <= i <= n,
            done == shapes(out@),
            types_at(s@, from as nat) == match types_at(s@, i as nat) {
                Some((z, ts)) => Some((z, done + ts)),
                None => None,
            },
        decreases n - i,
    {
        let ghost was = done;
        proof {
            type_forward(s@, i as nat);
        }
        match read_type(s, n, i) {
            Some((p, t)) => {
                let ghost shape = t@;
                out.push(t);
                assert(shapes(out@) =~= was.push(shape));
                let (more, q) = eat(s, n, p, ',');
                if !more {
                    assert(was + seq![shape] =~= was.push(shape));
                    return Some((q, out));
                }
                proof {
                    match types_at(s@, q as nat) {
                        Some((z, ts)) => {
                            assert(was + (seq![shape] + ts) =~= was.push(shape) + ts);
                        },
                        None => {},
                    }
                    done = was.push(shape);
                }
                i = q;
            },
            None => {
                return None;
            },
        }
    }
}

fn read_fields(s: &str, n: usize, from: usize) -> (r: Option<(usize, Vec<(String, Rendered)>)>)
    requires
        n == s@.len(),
        from <= n,
    ensures
        reads_fields(r, fields_at(s@, from as nat)),
    decreases n - from, 3nat,
{
    let mut out: Vec<(String, Rendered)> = Vec::new();
    let mut i: usize = from;
    let ghost done = Seq::<(Seq<char>, Shape)>::empty();
    assert(match fields_at(s@, i as nat) {
        Some((z, fs)) => done + fs == fs,
        None => true,
    });
    loop
        invariant
            n == s@.len(),
            from <= i <= n,
            done == shape_fields(out@),
            fields_at(s@, from as nat) == match fields_at(s@, i as nat) {
                Some((z, fs)) => Some((z, done + fs)),
                None => None,
            },
        decreases n - i,
    {
        let ghost was = done;
        let (closed, q) = eat(s, n, i, '}');
        if closed {
            assert(was + Seq::<(Seq<char>, Shape)>::empty() =~= was);
            return Some((q, out));
        }
        let (bar, q) = eat(s, n, i, '|');
        if bar {
            let w = skip_word(s, n, skip_blanks(s, n, q));
            let (_, z) = eat(s, n, w, '}');
            assert(was + Seq::<(Seq<char>, Shape)>::empty() =~= was);
            return Some((z, out));
        }
        let w = skip_word(s, n, q);
        let name = s.substring_char(q, w);
        let (_, f) = eat(s, n, w, ':');
        proof {
            type_forward(s@, f as nat);
        }
        match read_type(s, n, f) {
            Some((p, t)) => {
                let ghost field = (name@, t@);
                out.push((name.to_owned(), t));
                assert(shape_fields(out@) =~= was.push(field));
                let (_, g) = eat(s, n, p, ',');
                if g == i {
                    return None;
                }
                proof {
                    match fields_at(s@, g as nat) {
                        Some((z, fs)) => {
                            assert(was + (seq![field] + fs) =~= was.push(field) + fs);
                        },
                        None => {},
                    }
                    done = was.push(field);
                }
                i = g;
            },
            None => {
                return None;
            },
        }
    }
}

/// What a text of the history says: the type at its beginning. A text that says
/// nothing is a type that is not known.
pub open spec fn read_shape(s: Seq<char>) -> Shape {
    match type_at(s, 0) {
        Some((_, t)) => t,
        None => Shape::Hole,
    }
}

/// Reads a type as the history writes it down. What cannot be read counts as not
/// known.
#[must_use]
pub fn read_rendered(s: &str) -> (r: Rendered)
    ensures
        r@ == read_shape(s@),
{
    let n: usize = s.unicode_len();
    match read_type(s, n, 0) {
        Some((_, t)) => t,
        None => Rendered::Hole,
    }
}

} // verus!
