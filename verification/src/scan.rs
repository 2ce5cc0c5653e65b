use vstd::prelude::*;
use vstd::string::*;

verus! {

/// Where the blanks from `i` on end.
pub open spec fn blank_end(s: Seq<char>, i: nat) -> nat
    decreases s.len() - i,
{
    if i < s.len() && s[i as int] == ' ' {
        blank_end(s, i + 1)
    } else {
        i
    }
}

/// The next character but for blanks is `c`.
pub open spec fn eats(s: Seq<char>, i: nat, c: char) -> bool {
    let j = blank_end(s, i);
    j < s.len() && s[j as int] == c
}

/// Where reading goes on after `c`, or after the blanks where `c` is not next.
pub open spec fn eaten(s: Seq<char>, i: nat, c: char) -> nat {
    if eats(s, i, c) {
        blank_end(s, i) + 1
    } else {
        blank_end(s, i)
    }
}

/// Where reading goes on after an arrow, or after the blanks where none is
/// next.
pub open spec fn arrow_end(s: Seq<char>, i: nat) -> nat {
    let j = blank_end(s, i);
    if j + 1 < s.len() && s[j as int] == '-' && s[(j + 1) as int] == '>' {
        j + 2
    } else {
        j
    }
}

/// A character of a name, which may be dotted.
pub open spec fn is_word(c: char) -> bool {
    let n = c as u32;
    ||| 48 <= n <= 57
    ||| 65 <= n <= 90
    ||| 97 <= n <= 122
    ||| c == '_'
    ||| c == '.'
}

/// Where the name from `i` on ends.
pub open spec fn word_end(s: Seq<char>, i: nat) -> nat
    decreases s.len() - i,
{
    if i < s.len() && is_word(s[i as int]) {
        word_end(s, i + 1)
    } else {
        i
    }
}

pub broadcast proof fn blank_forward(s: Seq<char>, i: nat)
    ensures
        i <= #[trigger] blank_end(s, i),
        i <= s.len() ==> blank_end(s, i) <= s.len(),
        blank_end(s, blank_end(s, i)) == blank_end(s, i),
    decreases s.len() - i,
{
    if i < s.len() && s[i as int] == ' ' {
        blank_forward(s, i + 1);
    }
}

pub broadcast proof fn word_forward(s: Seq<char>, i: nat)
    ensures
        i <= #[trigger] word_end(s, i),
        i <= s.len() ==> word_end(s, i) <= s.len(),
    decreases s.len() - i,
{
    if i < s.len() && is_word(s[i as int]) {
        word_forward(s, i + 1);
    }
}

pub(crate) fn skip_blanks(s: &str, n: usize, from: usize) -> (r: usize)
    requires
        n == s@.len(),
        from <= n,
    ensures
        r == blank_end(s@, from as nat),
        from <= r <= n,
{
    let mut i: usize = from;
    while i < n && s.get_char(i) == ' '
        invariant
            n == s@.len(),
            from <= i <= n,
            blank_end(s@, from as nat) == blank_end(s@, i as nat),
        decreases n - i,
    {
        i = i + 1;
    }
    i
}

pub(crate) fn eat(s: &str, n: usize, from: usize, c: char) -> (r: (bool, usize))
    requires
        n == s@.len(),
        from <= n,
    ensures
        r.0 == eats(s@, from as nat, c),
        r.1 == eaten(s@, from as nat, c),
        from <= r.1 <= n,
        r.0 ==> from < r.1,
{
    let i = skip_blanks(s, n, from);
    if i < n && s.get_char(i) == c {
        (true, i + 1)
    } else {
        (false, i)
    }
}

pub(crate) fn skip_arrow(s: &str, n: usize, from: usize) -> (r: usize)
    requires
        n == s@.len(),
        from <= n,
    ensures
        r == arrow_end(s@, from as nat),
        from <= r <= n,
{
    let i = skip_blanks(s, n, from);
    if i < n && n - i > 1 && s.get_char(i) == '-' && s.get_char(i + 1) == '>' {
        i + 2
    } else {
        i
    }
}

fn word_char(c: char) -> (r: bool)
    ensures
        r == is_word(c),
{
    let n: u32 = c as u32;
    (48 <= n && n <= 57) || (65 <= n && n <= 90) || (97 <= n && n <= 122) || c == '_' || c == '.'
}

pub(crate) fn skip_word(s: &str, n: usize, from: usize) -> (r: usize)
    requires
        n == s@.len(),
        from <= n,
    ensures
        r == word_end(s@, from as nat),
        from <= r <= n,
{
    let mut i: usize = from;
    while i < n && word_char(s.get_char(i))
        invariant
            n == s@.len(),
            from <= i <= n,
            word_end(s@, from as nat) == word_end(s@, i as nat),
        decreases n - i,
    {
        i = i + 1;
    }
    i
}

} // verus!
