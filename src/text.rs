//! Character-sequence primitives shared by the protocol and tool layers:
//! conversion between strings and character vectors, substring search and
//! left-to-right replacement.

use vstd::prelude::*;

verus! {

/// True when `pat` occurs in `s` starting at index `i`.
pub open spec fn occurs_at(s: Seq<char>, pat: Seq<char>, i: int) -> bool {
    0 <= i && i + pat.len() <= s.len() && s.subrange(i, i + pat.len()) == pat
}

/// True when `pat` occurs somewhere in `s` (the empty pattern occurs everywhere).
pub open spec fn contains(s: Seq<char>, pat: Seq<char>) -> bool {
    exists|i: int| occurs_at(s, pat, i)
}

/// `s` with its leftmost occurrence of `old` replaced by `new`; `s` itself
/// when `old` does not occur.
pub open spec fn replace_first(s: Seq<char>, old: Seq<char>, new: Seq<char>) -> Seq<char>
    decreases s.len(),
{
    if s.len() < old.len() {
        s
    } else if s.subrange(0, old.len() as int) == old {
        new + s.subrange(old.len() as int, s.len() as int)
    } else if s.len() == 0 {
        s
    } else {
        seq![s[0]] + replace_first(s.drop_first(), old, new)
    }
}

/// `new` inserted before every character of `s` and once at its end: what
/// replacing the empty pattern everywhere gives.
pub open spec fn interleave(s: Seq<char>, new: Seq<char>) -> Seq<char>
    decreases s.len(),
{
    if s.len() == 0 {
        new
    } else {
        new + seq![s[0]] + interleave(s.drop_first(), new)
    }
}

/// `s` with every non-overlapping occurrence of `old`, scanned from the
/// left, replaced by `new`.
pub open spec fn replace_all(s: Seq<char>, old: Seq<char>, new: Seq<char>) -> Seq<char>
    decreases s.len(),
{
    if old.len() == 0 {
        interleave(s, new)
    } else if s.len() < old.len() {
        s
    } else if s.subrange(0, old.len() as int) == old {
        new + replace_all(s.subrange(old.len() as int, s.len() as int), old, new)
    } else {
        seq![s[0]] + replace_all(s.drop_first(), old, new)
    }
}

/// Relies on `str::chars` and `Iterator::collect`: the characters of `s`, in order.
#[verifier::external_body]
pub fn chars_of(s: &str) -> (r: Vec<char>)
    ensures
        r@ == s@,
{
    s.chars().collect()
}

/// Relies on `Iterator::collect` into a `String`: the string made of `v`'s characters.
#[verifier::external_body]
pub fn string_of(v: &Vec<char>) -> (r: String)
    ensures
        r@ == v@,
{
    v.iter().collect()
}

/// Appends all of `src` to `dst`.
pub fn append_chars(dst: &mut Vec<char>, src: &Vec<char>)
    ensures
        final(dst)@ == old(dst)@ + src@,
{
    let mut i: usize = 0;
    while i < src.len()
        invariant
            i <= src@.len(),
            dst@ == old(dst)@ + src@.subrange(0, i as int),
        decreases src@.len() - i,
    {
        dst.push(src[i]);
        i += 1;
    }
    assert(src@.subrange(0, src@.len() as int) =~= src@);
}

/// Appends the characters of `src` to `dst`.
pub fn append_str(dst: &mut Vec<char>, src: &str)
    ensures
        final(dst)@ == old(dst)@ + src@,
{
    let cs = chars_of(src);
    append_chars(dst, &cs);
}

/// Whether `pat` occurs in `s` at index `i`.
pub fn matches_at(s: &Vec<char>, pat: &Vec<char>, i: usize) -> (r: bool)
    ensures
        r == occurs_at(s@, pat@, i as int),
{
    if i > s.len() || pat.len() > s.len() - i {
        return false;
    }
    let ghost slen = s@.len();
    let mut k: usize = 0;
    while k < pat.len()
        invariant
            slen == s@.len(),
            slen <= usize::MAX,
            i + pat@.len() <= s@.len(),
            k <= pat@.len(),
            forall|j: int| 0 <= j < k ==> s@[i + j] == pat@[j],
        decreases pat@.len() - k,
    {
        if s[i + k] != pat[k] {
            assert(s@.subrange(i as int, i + pat@.len())[k as int] != pat@[k as int]);
            return false;
        }
        k += 1;
    }
    assert(s@.subrange(i as int, i + pat@.len()) =~= pat@);
    true
}

/// Whether `s` equals `t`, character by character.
pub fn chars_eq(s: &Vec<char>, t: &Vec<char>) -> (r: bool)
    ensures
        r == (s@ == t@),
{
    if s.len() != t.len() {
        return false;
    }
    let r = matches_at(s, t, 0);
    assert(s@.subrange(0, t@.len() as int) =~= s@);
    r
}

/// Whether the string `s` equals the string `t`.
pub fn str_eq(s: &str, t: &str) -> (r: bool)
    ensures
        r == (s@ == t@),
{
    let a = chars_of(s);
    let b = chars_of(t);
    chars_eq(&a, &b)
}

/// Whether `s` starts with `prefix`.
pub fn starts_with(s: &Vec<char>, prefix: &Vec<char>) -> (r: bool)
    ensures
        r == occurs_at(s@, prefix@, 0),
{
    matches_at(s, prefix, 0)
}

/// The characters of `s` from `from` up to (excluding) `to`.
pub fn slice(s: &Vec<char>, from: usize, to: usize) -> (r: Vec<char>)
    requires
        from <= to <= s@.len(),
    ensures
        r@ == s@.subrange(from as int, to as int),
{
    let mut r: Vec<char> = Vec::new();
    let mut i: usize = from;
    while i < to
        invariant
            from <= i <= to <= s@.len(),
            r@ == s@.subrange(from as int, i as int),
        decreases to - i,
    {
        r.push(s[i]);
        i += 1;
        assert(r@ =~= s@.subrange(from as int, i as int));
    }
    r
}

/// Index of the leftmost occurrence of `pat` in `s`, if any.
pub fn find(s: &Vec<char>, pat: &Vec<char>) -> (r: Option<usize>)
    ensures
        r is None <==> !contains(s@, pat@),
        r matches Some(i) ==> occurs_at(s@, pat@, i as int) && forall|j: int|
            0 <= j < i ==> !occurs_at(s@, pat@, j),
{
    if pat.len() > s.len() {
        return None;
    }
    let last = s.len() - pat.len();
    let mut i: usize = 0;
    loop
        invariant
            last == s@.len() - pat@.len(),
            i <= last,
            forall|j: int| 0 <= j < i ==> !occurs_at(s@, pat@, j),
        decreases last - i,
    {
        if matches_at(s, pat, i) {
            return Some(i);
        }
        if i == last {
            return None;
        }
        i += 1;
    }
}

/// `s` with its leftmost occurrence of `old` replaced by `new`.
pub fn replace_first_chars(s: &Vec<char>, old: &Vec<char>, new: &Vec<char>) -> (r: Vec<char>)
    ensures
        r@ == replace_first(s@, old@, new@),
{
    let n = s.len();
    let mut out: Vec<char> = Vec::new();
    let mut i: usize = 0;
    assert(s@.subrange(0, n as int) =~= s@);
    assert(out@ + s@ =~= s@);
    while i < n
        invariant
            n == s@.len(),
            i <= n,
            out@ == s@.subrange(0, i as int),
            replace_first(s@, old@, new@) == out@ + replace_first(
                s@.subrange(i as int, n as int),
                old@,
                new@,
            ),
        decreases n - i,
    {
        let ghost rest = s@.subrange(i as int, n as int);
        if matches_at(s, old, i) {
            assert(rest.subrange(0, old@.len() as int) =~= old@);
            append_chars(&mut out, new);
            let tail = slice(s, i + old.len(), n);
            assert(rest.subrange(old@.len() as int, rest.len() as int) =~= tail@);
            append_chars(&mut out, &tail);
            assert(replace_first(s@, old@, new@) =~= out@);
            return out;
        }
        if old.len() <= n - i {
            assert(rest.subrange(0, old@.len() as int) != old@) by {
                assert(rest.subrange(0, old@.len() as int) =~= s@.subrange(
                    i as int,
                    i + old@.len(),
                ));
            }
            assert(rest.drop_first() =~= s@.subrange(i + 1, n as int));
            out.push(s[i]);
            i += 1;
            assert(out@ =~= s@.subrange(0, i as int));
        } else {
            assert(replace_first(rest, old@, new@) == rest);
            let tail = slice(s, i, n);
            append_chars(&mut out, &tail);
            assert(out@ =~= s@);
            assert(s@.subrange(i as int, n as int) =~= tail@);
            return out;
        }
    }
    assert(s@.subrange(n as int, n as int) =~= Seq::<char>::empty());
    assert(replace_first(Seq::<char>::empty(), old@, new@) == if old@.len() == 0 {
        new@ + Seq::<char>::empty()
    } else {
        Seq::<char>::empty()
    }) by {
        if old@.len() == 0 {
            assert(Seq::<char>::empty().subrange(0, 0) =~= old@);
        }
    }
    if old.len() == 0 {
        append_chars(&mut out, new);
        assert(new@ + Seq::<char>::empty() =~= new@);
    }
    assert(out@ =~= s@.subrange(0, n as int) + replace_first(
        s@.subrange(n as int, n as int),
        old@,
        new@,
    ));
    assert(s@.subrange(0, n as int) =~= s@);
    out
}

/// `s` with every non-overlapping occurrence of `old` replaced by `new`.
pub fn replace_all_chars(s: &Vec<char>, old: &Vec<char>, new: &Vec<char>) -> (r: Vec<char>)
    ensures
        r@ == replace_all(s@, old@, new@),
{
    let n = s.len();
    let mut out: Vec<char> = Vec::new();
    let mut i: usize = 0;
    assert(s@.subrange(0, n as int) =~= s@);
    assert(out@ + s@ =~= s@);
    if old.len() == 0 {
        assert(out@ + interleave(s@, new@) =~= interleave(s@, new@));
        while i < n
            invariant
                n == s@.len(),
                i <= n,
                old@.len() == 0,
                replace_all(s@, old@, new@) == out@ + interleave(
                    s@.subrange(i as int, n as int),
                    new@,
                ),
            decreases n - i,
        {
            let ghost rest = s@.subrange(i as int, n as int);
            let ghost before = out@;
            assert(rest.drop_first() =~= s@.subrange(i + 1, n as int));
            append_chars(&mut out, new);
            out.push(s[i]);
            i += 1;
            assert(out@ =~= before + new@ + seq![rest[0]]);
            assert(before + interleave(rest, new@) =~= out@ + interleave(
                s@.subrange(i as int, n as int),
                new@,
            ));
        }
        assert(s@.subrange(n as int, n as int) =~= Seq::<char>::empty());
        append_chars(&mut out, new);
        return out;
    }
    while i < n
        invariant
            n == s@.len(),
            i <= n,
            old@.len() > 0,
            replace_all(s@, old@, new@) == out@ + replace_all(
                s@.subrange(i as int, n as int),
                old@,
                new@,
            ),
        decreases n - i,
    {
        let ghost rest = s@.subrange(i as int, n as int);
        let ghost before = out@;
        if matches_at(s, old, i) {
            assert(rest.subrange(0, old@.len() as int) =~= old@);
            assert(rest.subrange(old@.len() as int, rest.len() as int) =~= s@.subrange(
                i + old@.len(),
                n as int,
            ));
            append_chars(&mut out, new);
            i += old.len();
            assert(before + (new@ + replace_all(s@.subrange(i as int, n as int), old@, new@))
                =~= out@ + replace_all(s@.subrange(i as int, n as int), old@, new@));
        } else if old.len() <= n - i {
            assert(rest.subrange(0, old@.len() as int) != old@) by {
                assert(rest.subrange(0, old@.len() as int) =~= s@.subrange(
                    i as int,
                    i + old@.len(),
                ));
            }
            assert(rest.drop_first() =~= s@.subrange(i + 1, n as int));
            out.push(s[i]);
            i += 1;
            assert(before + (seq![rest[0]] + replace_all(s@.subrange(i as int, n as int), old@, new@))
                =~= out@ + replace_all(s@.subrange(i as int, n as int), old@, new@));
        } else {
            let tail = slice(s, i, n);
            append_chars(&mut out, &tail);
            return out;
        }
    }
    assert(s@.subrange(n as int, n as int) =~= Seq::<char>::empty());
    assert(out@ + Seq::<char>::empty() =~= out@);
    out
}

/// The decimal digits of `n`, as characters.
pub open spec fn dec(n: nat) -> Seq<char>
    decreases n,
{
    if n < 10 {
        seq![digit_char(n)]
    } else {
        dec(n / 10) + seq![digit_char(n % 10)]
    }
}

pub open spec fn digit_char(d: nat) -> char {
    if d == 0 { '0' } else if d == 1 { '1' } else if d == 2 { '2' } else if d == 3 { '3' }
    else if d == 4 { '4' } else if d == 5 { '5' } else if d == 6 { '6' } else if d == 7 { '7' }
    else if d == 8 { '8' } else { '9' }
}

fn digit(d: u64) -> (c: char)
    requires
        d < 10,
    ensures
        c == digit_char(d as nat),
{
    if d == 0 { '0' } else if d == 1 { '1' } else if d == 2 { '2' } else if d == 3 { '3' }
    else if d == 4 { '4' } else if d == 5 { '5' } else if d == 6 { '6' } else if d == 7 { '7' }
    else if d == 8 { '8' } else { '9' }
}

/// The decimal digits of `n`.
pub fn decimal_chars(n: u64) -> (r: Vec<char>)
    ensures
        r@ == dec(n as nat),
    decreases n,
{
    if n < 10 {
        let r = vec![digit(n)];
        assert(r@ =~= dec(n as nat));
        r
    } else {
        let mut r = decimal_chars(n / 10);
        r.push(digit(n % 10));
        assert(r@ =~= dec(n as nat));
        r
    }
}

/// The characters of `a` followed by those of `b`, as a string.
pub fn concat2(a: &str, b: &str) -> (r: String)
    ensures
        r@ == a@ + b@,
{
    let mut v = chars_of(a);
    append_str(&mut v, b);
    string_of(&v)
}

} // verus!
