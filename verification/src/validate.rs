//! npm package-name validation.
use vstd::prelude::*;
use vstd::utf8::encode_utf8;

use crate::text::{
    chars_of, contains_chars, contains_seq, find_char, find_from, utf8_len,
};

verus! {

/// Characters allowed in an npm name (or scope): lowercase ASCII letters,
/// digits, `-`, `.` and `_`.
pub open spec fn npm_char_ok(c: char) -> bool {
    ('a' <= c && c <= 'z') || ('0' <= c && c <= '9') || c == '-' || c == '.' || c == '_'
}

pub open spec fn valid_npm_chars(s: Seq<char>) -> bool {
    forall|i: int| 0 <= i < s.len() ==> npm_char_ok(#[trigger] s[i])
}

/// ASCII lowercase of one character; other characters are unchanged.
pub open spec fn ascii_lower(c: char) -> char {
    if 'A' <= c && c <= 'Z' {
        ((c as u32) + 32) as char
    } else {
        c
    }
}

pub open spec fn lowercase(s: Seq<char>) -> Seq<char> {
    s.map_values(|c: char| ascii_lower(c))
}

/// Number of occurrences of `c` in `s`.
pub open spec fn count_char(s: Seq<char>, c: char) -> nat
    decreases s.len(),
{
    if s.len() == 0 {
        0
    } else {
        count_char(s.drop_last(), c) + if s.last() == c {
            1nat
        } else {
            0nat
        }
    }
}

/// Fragments that mark a name as spam.
pub open spec fn spam_words() -> Seq<Seq<char>> {
    seq![
        "discount"@,
        "coupon"@,
        "promo-code"@,
        "buy-"@,
        "cheap-"@,
        "free-download"@,
        "crack-"@,
        "keygen"@,
        "serial-key"@,
        "license-key"@,
        "activation-code"@,
        "watch-online"@,
        "full-movie"@,
        "download-free"@,
        "hack-tool"@,
        "weight-loss"@,
        "diet-pill"@,
        "forex-"@,
        "casino-"@,
        "betting-"@,
        "crypto-earn"@,
        "airdrop-"@,
        "nft-mint"@,
    ]
}

/// A name is spam when, lowercased, it has at least five hyphens and more
/// than 40 bytes, or contains one of the spam fragments.
pub open spec fn is_spam_spec(name: Seq<char>) -> bool {
    let lower = lowercase(name);
    (count_char(lower, '-') >= 5 && encode_utf8(lower).len() > 40) || exists|j: int|
        0 <= j < spam_words().len() && #[trigger] contains_seq(lower, spam_words()[j])
}

/// The verdict on the characters of an unscoped name or of the package part
/// of a scoped one.
pub open spec fn check_part(name: Seq<char>, part: Seq<char>) -> Option<Seq<char>> {
    if !valid_npm_chars(part) {
        Some("invalid characters"@)
    } else if is_spam_spec(name) {
        Some("spam pattern"@)
    } else {
        None
    }
}

/// Why `name` is not a valid npm package name, or `None` when it is one.
pub open spec fn invalid_npm_name_spec(name: Seq<char>) -> Option<Seq<char>> {
    if name.len() == 0 {
        Some("empty name"@)
    } else if encode_utf8(name).len() > 214 {
        Some("name too long"@)
    } else if name[0] == '.' || name[0] == '_' {
        Some("invalid prefix"@)
    } else if name[0] == '@' {
        let rest = name.drop_first();
        match find_from(rest, '/', 0) {
            Some(k) => if k > 0 && k + 1 < rest.len() {
                if !valid_npm_chars(rest.take(k)) {
                    Some("invalid characters in scope"@)
                } else {
                    check_part(name, rest.skip(k + 1))
                }
            } else {
                Some("invalid scoped name"@)
            },
            None => Some("invalid scoped name"@),
        }
    } else {
        check_part(name, name)
    }
}

/// Whether `v[from..to]` holds only characters allowed in npm names.
fn valid_npm_chars_in(v: &Vec<char>, from: usize, to: usize) -> (b: bool)
    requires
        from <= to <= v.len(),
    ensures
        b == valid_npm_chars(v@.subrange(from as int, to as int)),
{
    let mut i = from;
    while i < to
        invariant
            from <= i <= to <= v.len(),
            forall|k: int| from <= k < i ==> npm_char_ok(#[trigger] v@[k]),
        decreases to - i,
    {
        let c = v[i];
        if !(('a' <= c && c <= 'z') || ('0' <= c && c <= '9') || c == '-' || c == '.' || c == '_') {
            assert(v@.subrange(from as int, to as int)[i - from] == c);
            return false;
        }
        i = i + 1;
    }
    assert forall|k: int| 0 <= k < to - from implies npm_char_ok(
        #[trigger] v@.subrange(from as int, to as int)[k],
    ) by {
        assert(v@.subrange(from as int, to as int)[k] == v@[from + k]);
    }
    true
}

/// Whether `s` holds only characters allowed in npm names.
pub fn is_valid_npm_chars(s: &str) -> (b: bool)
    ensures
        b == valid_npm_chars(s@),
{
    let v = chars_of(s);
    let b = valid_npm_chars_in(&v, 0, v.len());
    assert(v@.subrange(0, v@.len() as int) =~= v@);
    b
}

/// The `j`-th spam fragment.
fn spam_word(j: usize) -> (w: &'static str)
    requires
        j < 23,
    ensures
        w@ == spam_words()[j as int],
{
    match j {
        0 => "discount",
        1 => "coupon",
        2 => "promo-code",
        3 => "buy-",
        4 => "cheap-",
        5 => "free-download",
        6 => "crack-",
        7 => "keygen",
        8 => "serial-key",
        9 => "license-key",
        10 => "activation-code",
        11 => "watch-online",
        12 => "full-movie",
        13 => "download-free",
        14 => "hack-tool",
        15 => "weight-loss",
        16 => "diet-pill",
        17 => "forex-",
        18 => "casino-",
        19 => "betting-",
        20 => "crypto-earn",
        21 => "airdrop-",
        _ => "nft-mint",
    }
}

/// Whether `name` looks like spam (see `is_spam_spec`).
pub fn is_spam(name: &str) -> (b: bool)
    ensures
        b == is_spam_spec(name@),
{
    let v = chars_of(name);
    let mut lower_v: Vec<char> = Vec::new();
    let mut hyphens: usize = 0;
    let mut i: usize = 0;
    while i < v.len()
        invariant
            v@ == name@,
            i <= v.len(),
            lower_v@ == lowercase(v@.take(i as int)),
            hyphens == count_char(lower_v@, '-'),
            hyphens <= i,
        decreases v.len() - i,
    {
        let c = v[i];
        let l = if 'A' <= c && c <= 'Z' {
            ((c as u8) + 32) as char
        } else {
            c
        };
        assert(l == ascii_lower(c));
        let ghost before = lower_v@;
        lower_v.push(l);
        if l == '-' {
            hyphens = hyphens + 1;
        }
        assert(lower_v@.drop_last() =~= before);
        assert(lowercase(v@.take(i + 1)) =~= lowercase(v@.take(i as int)).push(ascii_lower(c)));
        i = i + 1;
    }
    assert(v@.take(v.len() as int) =~= v@);
    if hyphens >= 5 && utf8_len(&lower_v) > 40 {
        return true;
    }
    let ghost long = count_char(lowercase(name@), '-') >= 5 && encode_utf8(lowercase(name@)).len() > 40;
    assert(!long);
    let mut j: usize = 0;
    while j < 23
        invariant
            j <= 23,
            lower_v@ == lowercase(name@),
            spam_words().len() == 23,
            !(count_char(lowercase(name@), '-') >= 5 && encode_utf8(lowercase(name@)).len() > 40),
            forall|k: int| 0 <= k < j ==> !contains_seq(lower_v@, #[trigger] spam_words()[k]),
        decreases 23 - j,
    {
        let w = chars_of(spam_word(j));
        if contains_chars(&lower_v, &w) {
            assert(contains_seq(lowercase(name@), spam_words()[j as int]));
            return true;
        }
        j = j + 1;
    }
    assert(!is_spam_spec(name@));
    false
}

/// Why `name` is not a valid npm package name (see `invalid_npm_name_spec`),
/// or `None` when it is one.
pub fn invalid_npm_name(name: &str) -> (r: Option<&'static str>)
    ensures
        match r {
            Some(m) => invalid_npm_name_spec(name@) == Some(m@),
            None => invalid_npm_name_spec(name@) is None,
        },
{
    let v = chars_of(name);
    if v.len() == 0 {
        return Some("empty name");
    }
    if utf8_len(&v) > 214 {
        return Some("name too long");
    }
    if v[0] == '.' || v[0] == '_' {
        return Some("invalid prefix");
    }
    let (from, to) = if v[0] == '@' {
        let ghost rest = v@.drop_first();
        match find_char(&v, '/', 1) {
            Some(k) => {
                proof {
                    lemma_find_shift(v@, '/', 1);
                }
                if k > 1 && k < v.len() - 1 {
                    if !valid_npm_chars_in(&v, 1, k) {
                        assert(v@.subrange(1, k as int) =~= rest.take(k - 1));
                        return Some("invalid characters in scope");
                    }
                    assert(v@.subrange(1, k as int) =~= rest.take(k - 1));
                    assert(v@.subrange(k + 1, v.len() as int) =~= rest.skip(k as int));
                    (k + 1, v.len())
                } else {
                    return Some("invalid scoped name");
                }
            },
            None => {
                proof {
                    lemma_find_shift(v@, '/', 1);
                }
                return Some("invalid scoped name");
            },
        }
    } else {
        assert(v@.subrange(0, v.len() as int) =~= v@);
        (0, v.len())
    };
    if !valid_npm_chars_in(&v, from, to) {
        return Some("invalid characters");
    }
    if is_spam(name) {
        return Some("spam pattern");
    }
    None
}

/// Searching `s` from `from + 1` is searching `s` without its first
/// character from `from`, shifted by one.
proof fn lemma_find_shift(s: Seq<char>, c: char, from: int)
    requires
        s.len() >= 1,
        from >= 1,
    ensures
        find_from(s, c, from) == match find_from(s.drop_first(), c, from - 1) {
            Some(k) => Some(k + 1),
            None => None::<int>,
        },
    decreases s.len() - from,
{
    if from < s.len() {
        assert(s.drop_first()[from - 1] == s[from]);
        lemma_find_shift(s, c, from + 1);
    }
}

} // verus!
