//! Character-level text model: every string is viewed as a `Seq<char>` and every
//! scanner works on `Vec<char>`, so positions count characters, not bytes.
use vstd::prelude::*;
use vstd::std_specs::iter::IteratorSpec;

verus! {

/// Whitespace as Unicode's `White_Space` property defines it.
pub open spec fn is_space(c: char) -> bool {
    let u = c as u32;
    (0x9 <= u && u <= 0xd) || u == 0x20 || u == 0x85 || u == 0xa0 || u == 0x1680 || (0x2000 <= u
        && u <= 0x200a) || u == 0x2028 || u == 0x2029 || u == 0x202f || u == 0x205f || u == 0x3000
}

/// Identifier characters: ASCII letters, digits and the underscore.
pub open spec fn is_word(c: char) -> bool {
    let u = c as u32;
    (0x30 <= u && u <= 0x39) || (0x41 <= u && u <= 0x5a) || (0x61 <= u && u <= 0x7a) || u == 0x5f
}

pub open spec fn is_digit(c: char) -> bool {
    0x30 <= (c as u32) && (c as u32) <= 0x39
}

/// `a` equals the lower-case pattern character `b`, or is its ASCII upper-case form.
pub open spec fn folds_to(a: char, b: char) -> bool {
    a == b || (0x41 <= (a as u32) && (a as u32) <= 0x5a && (a as u32) + 32 == (b as u32))
}

pub fn space(c: char) -> (r: bool)
    ensures
        r == is_space(c),
{
    let u = c as u32;
    (0x9 <= u && u <= 0xd) || u == 0x20 || u == 0x85 || u == 0xa0 || u == 0x1680 || (0x2000 <= u
        && u <= 0x200a) || u == 0x2028 || u == 0x2029 || u == 0x202f || u == 0x205f || u == 0x3000
}

pub fn word(c: char) -> (r: bool)
    ensures
        r == is_word(c),
{
    let u = c as u32;
    (0x30 <= u && u <= 0x39) || (0x41 <= u && u <= 0x5a) || (0x61 <= u && u <= 0x7a) || u == 0x5f
}

/// `p` occurs in `t` starting at position `i`.
pub open spec fn at(t: Seq<char>, i: int, p: Seq<char>) -> bool {
    0 <= i && i + p.len() <= t.len() && t.subrange(i, i + p.len()) == p
}

/// The lower-case pattern `p` occurs in `t` at `i`, where an ASCII upper-case letter
/// of `t` matches its lower-case form.
pub open spec fn at_nocase(t: Seq<char>, i: int, p: Seq<char>) -> bool {
    0 <= i && i + p.len() <= t.len() && forall|k: int|
        0 <= k < p.len() ==> #[trigger] folds_to(t[i + k], p[k])
}

/// The first position at or after `i` where `p` occurs in `t`, or -1.
pub open spec fn first_at(t: Seq<char>, p: Seq<char>, i: int) -> int
    decreases t.len() + 1 - i,
{
    if i < 0 || i > t.len() || i + p.len() > t.len() {
        -1
    } else if at(t, i, p) {
        i
    } else {
        first_at(t, p, i + 1)
    }
}

/// `t` holds `p` somewhere.
pub open spec fn holds(t: Seq<char>, p: Seq<char>) -> bool {
    first_at(t, p, 0) >= 0
}

/// The first position at or after `i` that holds `c`, or `t.len()`.
pub open spec fn next_char(t: Seq<char>, c: char, i: int) -> int
    decreases t.len() - i,
{
    if i < 0 || i >= t.len() {
        t.len() as int
    } else if t[i] == c {
        i
    } else {
        next_char(t, c, i + 1)
    }
}

/// Where the line that holds position `i` ends: the next newline, or `t.len()`.
pub open spec fn line_end(t: Seq<char>, i: int) -> int {
    next_char(t, '\n', i)
}

/// The end of the run of characters from `i` that satisfy `f`.
pub open spec fn run_end(t: Seq<char>, i: int, f: spec_fn(char) -> bool) -> int
    decreases t.len() - i,
{
    if 0 <= i < t.len() && f(t[i]) {
        run_end(t, i + 1, f)
    } else {
        i
    }
}

pub open spec fn space_end(t: Seq<char>, i: int) -> int {
    run_end(t, i, |c: char| is_space(c))
}

pub open spec fn word_end(t: Seq<char>, i: int) -> int {
    run_end(t, i, |c: char| is_word(c))
}

/// Every non-overlapping occurrence of `p` in `t` from `i` on, left to right,
/// replaced by `r`.
pub open spec fn swap_from(t: Seq<char>, p: Seq<char>, r: Seq<char>, i: int) -> Seq<char>
    decreases t.len() - i,
{
    if i < 0 || i >= t.len() {
        seq![]
    } else if p.len() > 0 && at(t, i, p) {
        r + swap_from(t, p, r, i + p.len())
    } else {
        seq![t[i]] + swap_from(t, p, r, i + 1)
    }
}

/// `t` with every occurrence of `p` replaced by `r`, as `str::replace` does.
pub open spec fn replaced(t: Seq<char>, p: Seq<char>, r: Seq<char>) -> Seq<char> {
    swap_from(t, p, r, 0)
}

/// First position from `i` that is not whitespace.
pub open spec fn lead(t: Seq<char>, i: int) -> int
    decreases t.len() - i,
{
    if 0 <= i < t.len() && is_space(t[i]) {
        lead(t, i + 1)
    } else {
        i
    }
}

/// The end of `t[lo..j]` once trailing whitespace is dropped.
pub open spec fn trail(t: Seq<char>, lo: int, j: int) -> int
    decreases j - lo,
{
    if lo < j && j <= t.len() && is_space(t[j - 1]) {
        trail(t, lo, j - 1)
    } else {
        j
    }
}

/// `t` without leading and trailing whitespace, as `str::trim` gives it.
pub open spec fn trimmed(t: Seq<char>) -> Seq<char> {
    let a = lead(t, 0);
    t.subrange(a, trail(t, a, t.len() as int))
}

/// `t` has the lower-case pattern `p` somewhere, ASCII case ignored.
pub open spec fn holds_nocase(t: Seq<char>, p: Seq<char>) -> bool {
    exists|k: int| at_nocase(t, k, p)
}

/// `t` from `i` on with each run of whitespace replaced by one space.
pub open spec fn collapse_from(t: Seq<char>, i: int) -> Seq<char>
    decreases t.len() - i,
{
    if i < 0 || i >= t.len() {
        seq![]
    } else if is_space(t[i]) {
        let j = space_end(t, i);
        if i < j <= t.len() {
            seq![' '] + collapse_from(t, j)
        } else {
            seq![]
        }
    } else {
        seq![t[i]] + collapse_from(t, i + 1)
    }
}

/// `t` with each run of whitespace replaced by one space.
pub open spec fn collapsed(t: Seq<char>) -> Seq<char> {
    collapse_from(t, 0)
}

pub proof fn lemma_assoc(a: Seq<char>, b: Seq<char>, c: Seq<char>)
    ensures
        (a + b) + c == a + (b + c),
{
    assert((a + b) + c =~= a + (b + c));
}

/// Relies on `String::push`: appends one character.
#[verifier::external_body]
fn push_char(s: &mut String, c: char)
    ensures
        final(s)@ == old(s)@.push(c),
{
    s.push(c)
}

/// The characters of `s`, in order.
pub fn chars_of(s: &str) -> (r: Vec<char>)
    ensures
        r@ == s@,
{
    broadcast use vstd::string::group_string_axioms;

    let mut it = s.chars();
    let mut v: Vec<char> = Vec::new();
    loop
        invariant
            v@ + it.remaining() == s@,
            it.obeys_prophetic_iter_laws(),
            it.decrease() is Some,
        decreases it.decrease()->0,
    {
        match it.next() {
            Some(c) => {
                let ghost before = v@;
                v.push(c);
                assert(v@ + it.remaining() =~= before + (seq![c] + it.remaining()));
            },
            None => {
                assert(v@ + it.remaining() =~= v@);
                return v;
            },
        }
    }
}

/// The string made of the characters `v`.
pub fn text_of(v: &Vec<char>) -> (r: String)
    ensures
        r@ == v@,
{
    let mut s = String::new();
    let mut i: usize = 0;
    while i < v.len()
        invariant
            i <= v.len(),
            s@ == v@.subrange(0, i as int),
        decreases v.len() - i,
    {
        push_char(&mut s, v[i]);
        i = i + 1;
        assert(s@ =~= v@.subrange(0, i as int));
    }
    assert(s@ =~= v@);
    s
}

/// Appends all of `r` to `out`.
pub fn push_all(out: &mut Vec<char>, r: &Vec<char>)
    ensures
        final(out)@ == old(out)@ + r@,
{
    let ghost start = out@;
    let mut i: usize = 0;
    while i < r.len()
        invariant
            i <= r.len(),
            out@ == start + r@.subrange(0, i as int),
        decreases r.len() - i,
    {
        out.push(r[i]);
        i = i + 1;
        assert(out@ =~= start + r@.subrange(0, i as int));
    }
    assert(r@.subrange(0, r@.len() as int) =~= r@);
}

/// The characters of `t` from `lo` up to `hi`.
pub fn slice(t: &Vec<char>, lo: usize, hi: usize) -> (r: Vec<char>)
    requires
        lo <= hi <= t.len(),
    ensures
        r@ == t@.subrange(lo as int, hi as int),
{
    let mut v: Vec<char> = Vec::new();
    let mut i: usize = lo;
    while i < hi
        invariant
            lo <= i <= hi <= t.len(),
            v@ == t@.subrange(lo as int, i as int),
        decreases hi - i,
    {
        v.push(t[i]);
        i = i + 1;
        assert(v@ =~= t@.subrange(lo as int, i as int));
    }
    v
}

/// Whether `p` occurs in `t` at position `i`.
pub fn is_at(t: &Vec<char>, i: usize, p: &Vec<char>) -> (r: bool)
    ensures
        r == at(t@, i as int, p@),
{
    if i > t.len() || p.len() > t.len() - i {
        return false;
    }
    let mut k: usize = 0;
    while k < p.len()
        invariant
            i + p.len() <= t.len(),
            k <= p.len(),
            forall|m: int| 0 <= m < k ==> t@[i + m] == p@[m],
        decreases p.len() - k,
    {
        if t[i + k] != p[k] {
            assert(t@.subrange(i as int, i + p.len())[k as int] != p@[k as int]);
            return false;
        }
        k = k + 1;
    }
    assert(t@.subrange(i as int, i + p.len()) =~= p@);
    true
}

/// Whether `p` occurs in `t` at position `i`, with ASCII case ignored.
pub fn is_at_nocase(t: &Vec<char>, i: usize, p: &Vec<char>) -> (r: bool)
    ensures
        r == at_nocase(t@, i as int, p@),
{
    if i > t.len() || p.len() > t.len() - i {
        return false;
    }
    let mut k: usize = 0;
    while k < p.len()
        invariant
            i + p.len() <= t.len(),
            k <= p.len(),
            forall|m: int| 0 <= m < k ==> #[trigger] folds_to(t@[i + m], p@[m]),
        decreases p.len() - k,
    {
        if !char_folds_to(t[i + k], p[k]) {
            return false;
        }
        k = k + 1;
    }
    true
}

pub fn char_folds_to(a: char, b: char) -> (r: bool)
    ensures
        r == folds_to(a, b),
{
    a == b || (0x41 <= (a as u32) && (a as u32) <= 0x5a && (a as u32) + 32 == (b as u32))
}

/// The first position at or after `i` where `p` occurs in `t`.
pub fn find_from(t: &Vec<char>, p: &Vec<char>, i: usize) -> (r: Option<usize>)
    ensures
        match r {
            Some(k) => first_at(t@, p@, i as int) == k && i <= k && at(t@, k as int, p@),
            None => first_at(t@, p@, i as int) == -1,
        },
{
    if i > t.len() || p.len() > t.len() - i {
        return None;
    }
    if p.len() == 0 {
        assert(t@.subrange(i as int, i as int) =~= p@);
        return Some(i);
    }
    let mut k: usize = i;
    while k < t.len() && p.len() <= t.len() - k
        invariant
            i <= k <= t.len(),
            first_at(t@, p@, i as int) == first_at(t@, p@, k as int),
        decreases t.len() - k,
    {
        if is_at(t, k, p) {
            return Some(k);
        }
        k = k + 1;
    }
    None
}

/// Whether `p` occurs anywhere in `t`.
pub fn contains(t: &Vec<char>, p: &Vec<char>) -> (r: bool)
    ensures
        r == holds(t@, p@),
{
    find_from(t, p, 0).is_some()
}

/// The first position at or after `i` that holds `c`, or `t.len()`.
pub fn find_char(t: &Vec<char>, c: char, i: usize) -> (r: usize)
    ensures
        r == next_char(t@, c, i as int),
        i <= t.len() ==> i <= r <= t.len(),
        i < t.len() && t@[i as int] != c ==> r > i,
        i > t.len() ==> r == t.len(),
{
    if i >= t.len() {
        return t.len();
    }
    let mut k: usize = i;
    while k < t.len() && t[k] != c
        invariant
            i <= k <= t.len(),
            next_char(t@, c, i as int) == next_char(t@, c, k as int),
        decreases t.len() - k,
    {
        k = k + 1;
    }
    k
}

/// The end of the whitespace run that starts at `i`.
pub fn skip_space(t: &Vec<char>, i: usize) -> (r: usize)
    requires
        i <= t.len(),
    ensures
        r == space_end(t@, i as int),
        i <= r <= t.len(),
        i < t.len() && is_space(t@[i as int]) ==> r > i,
        forall|k: int| i <= k < r ==> is_space(t@[k]),
{
    let mut k: usize = i;
    while k < t.len() && space(t[k])
        invariant
            i <= k <= t.len(),
            space_end(t@, i as int) == space_end(t@, k as int),
            forall|m: int| i <= m < k ==> is_space(t@[m]),
        decreases t.len() - k,
    {
        k = k + 1;
    }
    k
}

/// The end of the identifier run that starts at `i`.
pub fn skip_word(t: &Vec<char>, i: usize) -> (r: usize)
    requires
        i <= t.len(),
    ensures
        r == word_end(t@, i as int),
        i <= r <= t.len(),
        i < t.len() && is_word(t@[i as int]) ==> r > i,
        forall|k: int| i <= k < r ==> is_word(t@[k]),
{
    let mut k: usize = i;
    while k < t.len() && word(t[k])
        invariant
            i <= k <= t.len(),
            word_end(t@, i as int) == word_end(t@, k as int),
            forall|m: int| i <= m < k ==> is_word(t@[m]),
        decreases t.len() - k,
    {
        k = k + 1;
    }
    k
}

/// `t` with every occurrence of `p` replaced by `r`.
pub fn replace_all(t: &Vec<char>, p: &Vec<char>, r: &Vec<char>) -> (out: Vec<char>)
    ensures
        out@ == replaced(t@, p@, r@),
{
    let mut out: Vec<char> = Vec::new();
    let mut i: usize = 0;
    while i < t.len()
        invariant
            i <= t.len(),
            replaced(t@, p@, r@) == out@ + swap_from(t@, p@, r@, i as int),
        decreases t.len() - i,
    {
        if p.len() > 0 && is_at(t, i, p) {
            proof {
                lemma_assoc(out@, r@, swap_from(t@, p@, r@, i + p.len()));
            }
            push_all(&mut out, r);
            i = i + p.len();
        } else {
            proof {
                lemma_assoc(out@, seq![t@[i as int]], swap_from(t@, p@, r@, i + 1));
            }
            out.push(t[i]);
            i = i + 1;
        }
    }
    assert(out@ + seq![] =~= out@);
    out
}

/// `t` without leading and trailing whitespace.
pub fn trim(t: &Vec<char>) -> (r: Vec<char>)
    ensures
        r@ == trimmed(t@),
{
    let mut a: usize = 0;
    while a < t.len() && space(t[a])
        invariant
            a <= t.len(),
            lead(t@, 0) == lead(t@, a as int),
        decreases t.len() - a,
    {
        a = a + 1;
    }
    let mut b: usize = t.len();
    while b > a && space(t[b - 1])
        invariant
            a <= b <= t.len(),
            lead(t@, 0) == a,
            trail(t@, a as int, t.len() as int) == trail(t@, a as int, b as int),
        decreases b,
    {
        b = b - 1;
    }
    slice(t, a, b)
}

/// Whether the lower-case pattern `p` occurs in `t`, ASCII case ignored.
pub fn contains_nocase(t: &Vec<char>, p: &Vec<char>) -> (r: bool)
    ensures
        r == holds_nocase(t@, p@),
{
    let mut k: usize = 0;
    while k < t.len()
        invariant
            k <= t.len(),
            forall|m: int| 0 <= m < k ==> !at_nocase(t@, m, p@),
        decreases t.len() - k,
    {
        if is_at_nocase(t, k, p) {
            return true;
        }
        k = k + 1;
    }
    let r = is_at_nocase(t, k, p);
    assert(!r ==> forall|m: int| !at_nocase(t@, m, p@));
    r
}

/// `t` with each run of whitespace replaced by one space.
pub fn collapse(t: &Vec<char>) -> (r: Vec<char>)
    ensures
        r@ == collapsed(t@),
{
    let mut out: Vec<char> = Vec::new();
    let mut i: usize = 0;
    while i < t.len()
        invariant
            i <= t.len(),
            collapsed(t@) == out@ + collapse_from(t@, i as int),
        decreases t.len() - i,
    {
        if space(t[i]) {
            let j = skip_space(t, i);
            proof {
                lemma_assoc(out@, seq![' '], collapse_from(t@, j as int));
            }
            out.push(' ');
            i = j;
        } else {
            proof {
                lemma_assoc(out@, seq![t@[i as int]], collapse_from(t@, i + 1));
            }
            out.push(t[i]);
            i = i + 1;
        }
    }
    assert(out@ + seq![] =~= out@);
    out
}

/// Whether `t` and `u` hold the same characters.
pub fn same(t: &Vec<char>, u: &Vec<char>) -> (r: bool)
    ensures
        r == (t@ == u@),
{
    if t.len() != u.len() {
        return false;
    }
    let r = is_at(t, 0, u);
    proof {
        if r {
            assert(t@ =~= t@.subrange(0, u@.len() as int));
        } else {
            if t@ == u@ {
                assert(t@.subrange(0, u@.len() as int) =~= u@);
            }
        }
    }
    r
}

pub open spec fn digit_value(c: char) -> int {
    (c as u32) as int - 0x30
}

/// The value of a run of decimal digits.
pub open spec fn digits_value(s: Seq<char>) -> int
    decreases s.len(),
{
    if s.len() == 0 {
        0
    } else {
        digits_value(s.drop_last()) * 10 + digit_value(s.last())
    }
}

pub open spec fn all_digits(s: Seq<char>) -> bool {
    forall|k: int| 0 <= k < s.len() ==> is_digit(#[trigger] s[k])
}

/// What `str::parse::<i32>` gives: an optional sign, at least one digit, and a value
/// in the range of `i32`.
/// The digits after an optional sign.
pub open spec fn unsigned_part(s: Seq<char>) -> Seq<char> {
    if s.len() > 0 && (s[0] == '-' || s[0] == '+') {
        s.drop_first()
    } else {
        s
    }
}

pub open spec fn int_of(s: Seq<char>) -> Option<int> {
    let body = unsigned_part(s);
    let v = if s.len() > 0 && s[0] == '-' {
        -digits_value(body)
    } else {
        digits_value(body)
    };
    if body.len() > 0 && all_digits(body) && -0x8000_0000 <= v <= 0x7fff_ffff {
        Some(v)
    } else {
        None
    }
}

proof fn lemma_digits_grow(s: Seq<char>, k: int, j: int)
    requires
        all_digits(s),
        0 <= k <= j <= s.len(),
    ensures
        0 <= digits_value(s.subrange(0, k)) <= digits_value(s.subrange(0, j)),
    decreases j,
{
    if j > 0 {
        assert(s.subrange(0, j).drop_last() =~= s.subrange(0, j - 1));
        if k < j {
            lemma_digits_grow(s, k, j - 1);
        } else {
            lemma_digits_grow(s, j - 1, j - 1);
        }
    } else {
        assert(s.subrange(0, 0).len() == 0);
    }
}

/// The integer that `s` spells, as `str::parse::<i32>` reads it.
pub fn parse_i32(s: &Vec<char>) -> (r: Option<i32>)
    ensures
        match int_of(s@) {
            Some(v) => r == Some(v as i32),
            None => r is None,
        },
{
    let signed = s.len() > 0 && (s[0] == '-' || s[0] == '+');
    let neg = s.len() > 0 && s[0] == '-';
    let body = if signed {
        slice(s, 1, s.len())
    } else {
        slice(s, 0, s.len())
    };
    assert(body@ =~= unsigned_part(s@));
    if body.len() == 0 {
        return None;
    }
    let mut acc: u64 = 0;
    let mut k: usize = 0;
    while k < body.len()
        invariant
            k <= body.len(),
            acc == digits_value(body@.subrange(0, k as int)),
            acc <= 0x8000_0000,
            body@ == unsigned_part(s@),
            neg == (s@.len() > 0 && s@[0] == '-'),
            forall|m: int| 0 <= m < k ==> is_digit(#[trigger] body@[m]),
        decreases body.len() - k,
    {
        let c = body[k];
        if !(0x30 <= (c as u32) && (c as u32) <= 0x39) {
            assert(!is_digit(body@[k as int]));
            return None;
        }
        assert(body@.subrange(0, k + 1).drop_last() =~= body@.subrange(0, k as int));
        assert(body@.subrange(0, k + 1).last() == c);
        acc = acc * 10 + ((c as u32) - 0x30) as u64;
        assert(acc == digits_value(body@.subrange(0, k + 1)));
        k = k + 1;
        if acc > 0x8000_0000 {
            proof {
                if all_digits(body@) {
                    lemma_digits_grow(body@, k as int, body@.len() as int);
                    assert(body@.subrange(0, body@.len() as int) =~= body@);
                }
            }
            return None;
        }
    }
    assert(body@.subrange(0, body@.len() as int) =~= body@);
    if neg {
        let v = 0 - (acc as i64);
        Some(v as i32)
    } else if acc <= 0x7fff_ffff {
        Some(acc as i32)
    } else {
        None
    }
}

} // verus!
