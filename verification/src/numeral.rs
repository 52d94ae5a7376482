//! The grammar of real-number literals that ingestion accepts for a feature
//! field, as `f64::from_str` defines it: an optional sign, then either one
//! of the words `inf`, `infinity` or `nan` (any capitalisation), or a
//! decimal number `Digit+ ('.' Digit*)? | '.' Digit+`, optionally followed
//! by an exponent `('e'|'E') Sign? Digit+`. The harness converts a field to
//! its numeric value only after this check accepts it.
use vstd::prelude::*;
use vstd::string::StrSliceExecFns;

verus! {

/// An ASCII decimal digit.
pub open spec fn is_digit(c: char) -> bool {
    48 <= c as int && c as int <= 57
}

/// First position at or after `from` that does not hold a digit.
pub open spec fn digit_run_end(s: Seq<char>, from: int) -> int
    decreases s.len() - from,
{
    if from < s.len() && is_digit(s[from]) {
        digit_run_end(s, from + 1)
    } else {
        from
    }
}

/// Position after an optional leading `+` or `-` at `from`.
pub open spec fn sign_skip(s: Seq<char>, from: int) -> int {
    if from < s.len() && (s[from] == '+' || s[from] == '-') {
        from + 1
    } else {
        from
    }
}

/// `('e' | 'E') Sign? Digit+` occupies `s[from ..]`.
pub open spec fn is_exponent(s: Seq<char>, from: int) -> bool {
    &&& from < s.len()
    &&& (s[from] == 'e' || s[from] == 'E')
    &&& {
        let d = sign_skip(s, from + 1);
        d < s.len() && digit_run_end(s, d) == s.len()
    }
}

/// `Digit+ ('.' Digit*)? | '.' Digit+`, then an optional exponent,
/// occupies `s[from ..]`.
pub open spec fn is_number(s: Seq<char>, from: int) -> bool {
    let m = digit_run_end(s, from);
    if m == s.len() {
        m > from
    } else if s[m] == '.' {
        let f = digit_run_end(s, m + 1);
        (m > from || f > m + 1) && (f == s.len() || is_exponent(s, f))
    } else {
        m > from && is_exponent(s, m)
    }
}

/// `a` equals the lower-case letter `lower`, up to ASCII capitalisation.
pub open spec fn char_eq_ci(a: char, lower: char) -> bool {
    a == lower || (97 <= lower as int && lower as int <= 122 && a as int + 32 == lower as int)
}

/// `s` spells `lower` up to ASCII capitalisation.
pub open spec fn chars_eq_ci(s: Seq<char>, lower: Seq<char>) -> bool {
    s.len() == lower.len() && forall|i: int|
        0 <= i < s.len() ==> char_eq_ci(s[i], #[trigger] lower[i])
}

/// `s[from ..]` spells `inf`, `infinity` or `nan`, in any capitalisation.
pub open spec fn is_special(s: Seq<char>, from: int) -> bool {
    ||| chars_eq_ci(s.skip(from), seq!['i', 'n', 'f'])
    ||| chars_eq_ci(s.skip(from), seq!['i', 'n', 'f', 'i', 'n', 'i', 't', 'y'])
    ||| chars_eq_ci(s.skip(from), seq!['n', 'a', 'n'])
}

/// The whole of `s` is a real-number literal as `f64::from_str` accepts it.
pub open spec fn is_float_literal(s: Seq<char>) -> bool {
    let b = sign_skip(s, 0);
    is_special(s, b) || is_number(s, b)
}

fn is_digit_x(c: char) -> (r: bool)
    ensures
        r == is_digit(c),
{
    let u = c as u32;
    48 <= u && u <= 57
}

fn char_eq_ci_x(a: char, lower: char) -> (r: bool)
    ensures
        r == char_eq_ci(a, lower),
{
    a == lower || (97 <= lower as u32 && lower as u32 <= 122 && a as u32 + 32 == lower as u32)
}

fn digit_run_end_x(v: &Vec<char>, from: usize) -> (r: usize)
    requires
        from <= v@.len(),
    ensures
        from <= r <= v@.len(),
        r as int == digit_run_end(v@, from as int),
{
    let n = v.len();
    let mut i = from;
    while i < n && is_digit_x(v[i])
        invariant
            from <= i <= n,
            n == v@.len(),
            digit_run_end(v@, from as int) == digit_run_end(v@, i as int),
        decreases n - i,
    {
        proof {
            assert(digit_run_end(v@, i as int) == digit_run_end(v@, i as int + 1));
        }
        i = i + 1;
    }
    i
}

fn is_exponent_x(v: &Vec<char>, from: usize) -> (r: bool)
    requires
        from <= v@.len(),
    ensures
        r == is_exponent(v@, from as int),
{
    let n = v.len();
    if from >= n {
        return false;
    }
    let c = v[from];
    if !(c == 'e' || c == 'E') {
        return false;
    }
    let mut d = from + 1;
    if d < n {
        let c2 = v[d];
        if c2 == '+' || c2 == '-' {
            d = d + 1;
        }
    }
    proof {
        assert(d as int == sign_skip(v@, from as int + 1));
    }
    if d >= n {
        return false;
    }
    let e = digit_run_end_x(v, d);
    e == n
}

fn is_number_x(v: &Vec<char>, from: usize) -> (r: bool)
    requires
        from <= v@.len(),
    ensures
        r == is_number(v@, from as int),
{
    let n = v.len();
    let m = digit_run_end_x(v, from);
    if m == n {
        return m > from;
    }
    let c = v[m];
    if c == '.' {
        let f = digit_run_end_x(v, m + 1);
        if !(m > from || f > m + 1) {
            return false;
        }
        if f == n {
            return true;
        }
        return is_exponent_x(v, f);
    }
    if m > from {
        is_exponent_x(v, m)
    } else {
        false
    }
}

proof fn lemma_ci_pointwise(t: Seq<char>, w: Seq<char>)
    requires
        t.len() == w.len(),
        forall|i: int| 0 <= i < t.len() ==> char_eq_ci(t[i], #[trigger] w[i]),
    ensures
        chars_eq_ci(t, w),
{
}

fn is_special_x(v: &Vec<char>, from: usize) -> (r: bool)
    requires
        from <= v@.len(),
    ensures
        r == is_special(v@, from as int),
{
    let ghost t = v@.skip(from as int);
    let n = v.len();
    let m = n - from;
    if m == 3 {
        let inf = char_eq_ci_x(v[from], 'i') && char_eq_ci_x(v[from + 1], 'n') && char_eq_ci_x(
            v[from + 2],
            'f',
        );
        let nan = char_eq_ci_x(v[from], 'n') && char_eq_ci_x(v[from + 1], 'a') && char_eq_ci_x(
            v[from + 2],
            'n',
        );
        proof {
            let w1 = seq!['i', 'n', 'f'];
            let w3 = seq!['n', 'a', 'n'];
            if inf {
                assert forall|i: int| 0 <= i < t.len() implies char_eq_ci(t[i], #[trigger] w1[i]) by {
                    if i == 0 {
                    } else if i == 1 {
                    } else {
                        assert(i == 2);
                    }
                }
                lemma_ci_pointwise(t, w1);
            }
            if nan {
                assert forall|i: int| 0 <= i < t.len() implies char_eq_ci(t[i], #[trigger] w3[i]) by {
                    if i == 0 {
                    } else if i == 1 {
                    } else {
                        assert(i == 2);
                    }
                }
                lemma_ci_pointwise(t, w3);
            }
            if !inf && !nan {
                assert(!chars_eq_ci(t, w1));
                assert(!chars_eq_ci(t, w3));
            }
        }
        inf || nan
    } else if m == 8 {
        let r = char_eq_ci_x(v[from], 'i') && char_eq_ci_x(v[from + 1], 'n') && char_eq_ci_x(
            v[from + 2],
            'f',
        ) && char_eq_ci_x(v[from + 3], 'i') && char_eq_ci_x(v[from + 4], 'n') && char_eq_ci_x(
            v[from + 5],
            'i',
        ) && char_eq_ci_x(v[from + 6], 't') && char_eq_ci_x(v[from + 7], 'y');
        proof {
            let w2 = seq!['i', 'n', 'f', 'i', 'n', 'i', 't', 'y'];
            if r {
                assert forall|i: int| 0 <= i < t.len() implies char_eq_ci(t[i], #[trigger] w2[i]) by {
                    if i == 0 {
                    } else if i == 1 {
                    } else if i == 2 {
                    } else if i == 3 {
                    } else if i == 4 {
                    } else if i == 5 {
                    } else if i == 6 {
                    } else {
                        assert(i == 7);
                    }
                }
                lemma_ci_pointwise(t, w2);
            } else {
                assert(!chars_eq_ci(t, w2));
            }
        }
        r
    } else {
        false
    }
}

/// Accept `s` exactly when the whole of it is a real-number literal.
pub fn check_float_literal(s: &str) -> (r: bool)
    ensures
        r == is_float_literal(s@),
{
    let n = s.unicode_len();
    let mut v: Vec<char> = Vec::new();
    let mut i: usize = 0;
    while i < n
        invariant
            i <= n,
            n == s@.len(),
            v@.len() == i,
            forall|j: int| 0 <= j < i ==> v@[j] == s@[j],
        decreases n - i,
    {
        v.push(s.get_char(i));
        i = i + 1;
    }
    proof {
        assert(v@ =~= s@);
    }
    let b: usize = if n > 0 {
        let c = v[0];
        if c == '+' || c == '-' {
            1
        } else {
            0
        }
    } else {
        0
    };
    proof {
        assert(b as int == sign_skip(s@, 0));
    }
    if is_special_x(&v, b) {
        return true;
    }
    is_number_x(&v, b)
}

} // verus!
