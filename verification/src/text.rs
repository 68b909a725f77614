//! Character-level helpers over `&str` and `String`: conversion to and from
//! character vectors, decimal rendering of integers, searching.
use vstd::prelude::*;
use vstd::string::*;

verus! {

broadcast use vstd::string::group_string_axioms;

/// The characters of `s`, in order.
pub fn chars_of(s: &str) -> (v: Vec<char>)
    ensures
        v@ == s@,
{
    let mut v: Vec<char> = Vec::new();
    for c in it: s.chars()
        invariant
            v@ == it.seq().take(it.index() as int),
            it.seq() == s@,
    {
        v.push(c);
    }
    v
}

/// Appends one character: a call of std's `String::push`, which Verus has no
/// specification for.  Trusted: the string's characters afterwards are those
/// it held before, followed by `c`.
#[verifier::external_body]
pub(crate) fn push_char(s: &mut String, c: char)
    ensures
        final(s)@ == old(s)@.push(c),
{
    s.push(c)
}

/// Appends the characters `v[from..to]` to `out`.
pub fn push_chars(out: &mut String, v: &Vec<char>, from: usize, to: usize)
    requires
        from <= to <= v.len(),
    ensures
        final(out)@ == old(out)@ + v@.subrange(from as int, to as int),
{
    let mut i = from;
    while i < to
        invariant
            from <= i <= to <= v.len(),
            out@ == old(out)@ + v@.subrange(from as int, i as int),
        decreases to - i,
    {
        push_char(out, v[i]);
        i = i + 1;
        assert(v@.subrange(from as int, i as int) =~= v@.subrange(from as int, (i - 1) as int).push(v@[i - 1]));
    }
}

/// A new string holding `v[from..to]`.
pub fn string_of(v: &Vec<char>, from: usize, to: usize) -> (s: String)
    requires
        from <= to <= v.len(),
    ensures
        s@ == v@.subrange(from as int, to as int),
{
    let mut s = String::new();
    push_chars(&mut s, v, from, to);
    s
}

/// Appends `t` to `out`.
pub fn push_str(out: &mut String, t: &str)
    ensures
        final(out)@ == old(out)@ + t@,
{
    out.append(t);
}

/// The decimal digit character for `d < 10`.
pub open spec fn digit_char(d: nat) -> char {
    ((48 + d) as u8) as char
}

/// Decimal rendering of a natural number, without leading zeros.
pub open spec fn decimal(n: nat) -> Seq<char>
    decreases n,
{
    if n < 10 {
        seq![digit_char(n)]
    } else {
        decimal(n / 10).push(digit_char(n % 10))
    }
}

/// Appends the decimal rendering of `n`.
pub fn push_decimal(out: &mut String, n: u128)
    ensures
        final(out)@ == old(out)@ + decimal(n as nat),
    decreases n,
{
    if n >= 10 {
        push_decimal(out, n / 10);
    }
    let d: u8 = (n % 10) as u8;
    push_char(out, (48u8 + d) as char);
    assert(old(out)@ + decimal(n as nat) =~= (if n >= 10 { old(out)@ + decimal((n / 10) as nat) } else { old(out)@ }).push(digit_char((n % 10) as nat)));
}

/// `n` zero-padded on the left to `width` digits (no padding when longer).
pub open spec fn padded(n: nat, width: nat) -> Seq<char> {
    let d = decimal(n);
    if d.len() >= width {
        d
    } else {
        Seq::new((width - d.len()) as nat, |i: int| '0') + d
    }
}

/// Appends `n` zero-padded to `width` digits.
pub fn push_padded(out: &mut String, n: u64, width: usize)
    ensures
        final(out)@ == old(out)@ + padded(n as nat, width as nat),
{
    let mut digits = String::new();
    push_decimal(&mut digits, n as u128);
    let dv = chars_of(digits.as_str());
    assert(dv@ =~= decimal(n as nat));
    if dv.len() < width {
        let pad = width - dv.len();
        let mut i: usize = 0;
        while i < pad
            invariant
                i <= pad,
                out@ == old(out)@ + Seq::new(i as nat, |j: int| '0'),
            decreases pad - i,
        {
            push_char(out, '0');
            i = i + 1;
            assert(Seq::new(i as nat, |j: int| '0') =~= Seq::new((i - 1) as nat, |j: int| '0').push('0'));
        }
    }
    push_chars(out, &dv, 0, dv.len());
    assert(dv@.subrange(0, dv@.len() as int) =~= dv@);
    assert(old(out)@ + padded(n as nat, width as nat) =~= if dv.len() < width {
        old(out)@ + Seq::new((width - dv.len()) as nat, |j: int| '0') + dv@
    } else {
        old(out)@ + dv@
    });
}

/// `w` occurs in `s` starting at position `i`.
pub open spec fn occurs_at(s: Seq<char>, w: Seq<char>, i: int) -> bool {
    0 <= i && i + w.len() <= s.len() && s.subrange(i, i + w.len()) == w
}

/// `w` occurs somewhere in `s`.
pub open spec fn contains_seq(s: Seq<char>, w: Seq<char>) -> bool {
    exists|i: int| #[trigger] occurs_at(s, w, i)
}

fn matches_at(s: &Vec<char>, w: &Vec<char>, i: usize) -> (b: bool)
    requires
        i + w.len() <= s.len(),
    ensures
        b == occurs_at(s@, w@, i as int),
{
    let mut j: usize = 0;
    while j < w.len()
        invariant
            i + w.len() <= s.len(),
            j <= w.len(),
            forall|k: int| 0 <= k < j ==> s@[i + k] == w@[k],
        decreases w.len() - j,
    {
        if s[i + j] != w[j] {
            assert(s@.subrange(i as int, i + w.len())[j as int] != w@[j as int]);
            return false;
        }
        j = j + 1;
    }
    assert(s@.subrange(i as int, i + w.len()) =~= w@);
    true
}

/// Whether `w` occurs in `s` (substring search).
pub fn contains_chars(s: &Vec<char>, w: &Vec<char>) -> (b: bool)
    ensures
        b == contains_seq(s@, w@),
{
    if w.len() > s.len() {
        assert forall|i: int| !occurs_at(s@, w@, i) by {}
        return false;
    }
    let last = s.len() - w.len();
    let mut i: usize = 0;
    loop
        invariant
            last == s.len() - w.len(),
            w.len() <= s.len(),
            i <= last,
            forall|k: int| 0 <= k < i ==> !occurs_at(s@, w@, k),
        decreases last - i,
    {
        if matches_at(s, w, i) {
            assert(occurs_at(s@, w@, i as int));
            return true;
        }
        if i == last {
            assert forall|k: int| !occurs_at(s@, w@, k) by {
                if 0 <= k <= i {
                }
            }
            return false;
        }
        i = i + 1;
    }
}

/// Index of the first `c` in `s` at or after `from`, if any.
pub open spec fn find_from(s: Seq<char>, c: char, from: int) -> Option<int>
    decreases s.len() - from,
{
    if from < 0 || from >= s.len() {
        None
    } else if s[from] == c {
        Some(from)
    } else {
        find_from(s, c, from + 1)
    }
}

/// A found index lies in `from..s.len()` and holds `c`.
pub proof fn lemma_find_from_bounds(s: Seq<char>, c: char, from: int)
    ensures
        find_from(s, c, from) matches Some(k) ==> 0 <= from <= k < s.len() && s[k] == c,
    decreases s.len() - from,
{
    if 0 <= from < s.len() && s[from] != c {
        lemma_find_from_bounds(s, c, from + 1);
    }
}

/// Index of the first `c` in `v` at or after `from`.
pub fn find_char(v: &Vec<char>, c: char, from: usize) -> (r: Option<usize>)
    ensures
        r matches Some(i) ==> find_from(v@, c, from as int) == Some(i as int),
        r is None ==> find_from(v@, c, from as int) is None,
    decreases v.len() - from,
{
    if from >= v.len() {
        None
    } else if v[from] == c {
        Some(from)
    } else {
        find_char(v, c, from + 1)
    }
}


/// Whether two strings hold the same characters.
pub fn str_eq(a: &str, b: &str) -> (r: bool)
    ensures
        r == (a@ == b@),
{
    let va = chars_of(a);
    let vb = chars_of(b);
    if va.len() != vb.len() {
        return false;
    }
    let mut i: usize = 0;
    while i < va.len()
        invariant
            va@ == a@,
            vb@ == b@,
            va.len() == vb.len(),
            i <= va.len(),
            forall|k: int| 0 <= k < i ==> va@[k] == vb@[k],
        decreases va.len() - i,
    {
        if va[i] != vb[i] {
            assert(va@[i as int] != vb@[i as int]);
            assert(a@ != b@) by {
                if a@ == b@ {
                    assert(va@ == vb@);
                }
            }
            return false;
        }
        i = i + 1;
    }
    assert(va@ =~= vb@);
    true
}


/// Number of bytes of the UTF-8 encoding of `v`.
pub fn utf8_len(v: &Vec<char>) -> (n: u128)
    ensures
        n == vstd::utf8::encode_utf8(v@).len(),
{
    let mut n: u128 = 0;
    let mut i: usize = v.len();
    assert(v@.skip(v.len() as int) =~= Seq::<char>::empty());
    while i > 0
        invariant
            i <= v.len(),
            n == vstd::utf8::encode_utf8(v@.skip(i as int)).len(),
            n <= 4 * (v.len() - i),
        decreases i,
    {
        let c = v[i - 1];
        let u = c as u32;
        let w: u128 = if u < 0x80 {
            1
        } else if u < 0x800 {
            2
        } else if u < 0x10000 {
            3
        } else {
            4
        };
        assert(v@.skip(i - 1).drop_first() =~= v@.skip(i as int));
        assert(v@.skip(i - 1)[0] == c);
        proof {
            vstd::utf8::char_is_scalar(c);
        }
        assert(vstd::utf8::encode_scalar(u).len() == w);
        n = n + w;
        i = i - 1;
    }
    assert(v@.skip(0) =~= v@);
    n
}

} // verus!
