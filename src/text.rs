use vstd::prelude::*;
use vstd::string::StringSliceAdditionalSpecFns;
use vstd::utf8::{encode_utf8, is_char_boundary};

verus! {

/// Whether `p` occurs in `h` at byte `i`.
pub open spec fn occurs_at(h: Seq<u8>, p: Seq<u8>, i: int) -> bool {
    0 <= i && i + p.len() <= h.len() && h.subrange(i, i + p.len()) == p
}

/// The first byte position at or after `from` where `p` occurs in `h`.
pub open spec fn find_from(h: Seq<u8>, p: Seq<u8>, from: int) -> Option<int>
    decreases h.len() - from,
{
    if from < 0 || from + p.len() > h.len() {
        None
    } else if p.len() == 0 || occurs_at(h, p, from) {
        Some(from)
    } else {
        find_from(h, p, from + 1)
    }
}

/// Whether `p` occurs in `h` at byte `i`.
fn matches_at(h: &[u8], p: &[u8], i: usize) -> (r: bool)
    requires
        i + p@.len() <= h@.len(),
    ensures
        r == occurs_at(h@, p@, i as int),
{
    let hl = h.len();
    let mut k: usize = 0;
    while k < p.len()
        invariant
            hl == h@.len(),
            i + p@.len() <= h@.len(),
            k <= p@.len(),
            forall|m: int| 0 <= m < k ==> h@[i + m] == p@[m],
        decreases p@.len() - k,
    {
        if h[i + k] != p[k] {
            proof {
                assert(h@.subrange(i as int, i + p@.len())[k as int] != p@[k as int]);
            }
            return false;
        }
        k += 1;
    }
    proof {
        assert(h@.subrange(i as int, i + p@.len()) =~= p@);
    }
    true
}

/// The first position at or after `from` where `p` occurs in `h`.
pub fn find_bytes(h: &[u8], p: &[u8], from: usize) -> (r: Option<usize>)
    ensures
        r matches Some(i) ==> find_from(h@, p@, from as int) == Some(i as int),
        r is None ==> find_from(h@, p@, from as int) is None,
{
    let mut i: usize = from;
    while i <= h.len()
        invariant
            from <= i,
            find_from(h@, p@, from as int) == find_from(h@, p@, i as int),
        decreases h@.len() + 1 - i,
    {
        if p.len() > h.len() - i {
            return None;
        }
        if p.len() == 0 || matches_at(h, p, i) {
            return Some(i);
        }
        i += 1;
    }
    None
}

/// The text whose UTF-8 bytes are `s`'s bytes `b..e`, when both ends fall
/// on character boundaries.
pub fn cut_bytes(s: &str, b: usize, e: usize) -> (r: Option<String>)
    requires
        b <= e <= s.spec_bytes().len(),
    ensures
        r matches Some(t) ==> encode_utf8(t@) == s.spec_bytes().subrange(b as int, e as int),
        (is_char_boundary(s.spec_bytes(), e as int) && is_char_boundary(
            s.spec_bytes().subrange(0, e as int),
            b as int,
        )) ==> r is Some,
{
    if !s.is_char_boundary(e) {
        return None;
    }
    let (left, _) = s.split_at(e);
    if !left.is_char_boundary(b) {
        return None;
    }
    let (_, mid) = left.split_at(b);
    let t = mid.to_owned();
    proof {
        assert(mid.spec_bytes() =~= s.spec_bytes().subrange(b as int, e as int));
    }
    Some(t)
}

/// The part of a `Set-Cookie` value before its first `;`: the cookie's
/// `name=value` pair.
pub open spec fn cookie_pair_of(v: Seq<char>) -> Seq<char> {
    v.take(first_semicolon(v, 0))
}

/// The position of the first `;` at or after `i`, or the length.
pub open spec fn first_semicolon(v: Seq<char>, i: int) -> int
    decreases v.len() - i,
{
    if i < 0 || i >= v.len() {
        v.len() as int
    } else if v[i] == ';' {
        i
    } else {
        first_semicolon(v, i + 1)
    }
}

/// Cookie pairs joined by `;`.
pub open spec fn join_cookie_pairs(vals: Seq<Seq<char>>) -> Seq<char>
    decreases vals.len(),
{
    if vals.len() == 0 {
        Seq::empty()
    } else if vals.len() == 1 {
        cookie_pair_of(vals[0])
    } else {
        join_cookie_pairs(vals.drop_last()) + seq![';'] + cookie_pair_of(vals.last())
    }
}

proof fn lemma_first_semicolon_bounds(v: Seq<char>, i: int)
    requires
        0 <= i <= v.len(),
    ensures
        i <= first_semicolon(v, i) <= v.len(),
    decreases v.len() - i,
{
    if i < v.len() && v[i] != ';' {
        lemma_first_semicolon_bounds(v, i + 1);
    }
}

/// The cookie's `name=value` pair out of a `Set-Cookie` value.
pub fn cookie_pair(v: &str) -> (r: String)
    ensures
        r@ == cookie_pair_of(v@),
{
    let n = v.unicode_len();
    let mut i: usize = 0;
    while i < n
        invariant
            n == v@.len(),
            i <= n,
            first_semicolon(v@, 0) == first_semicolon(v@, i as int),
        ensures
            i <= n,
            first_semicolon(v@, 0) == first_semicolon(v@, i as int),
            i < n ==> v@[i as int] == ';',
        decreases n - i,
    {
        if v.get_char(i) == ';' {
            break;
        }
        i += 1;
    }
    proof {
        lemma_first_semicolon_bounds(v@, 0);
        assert(first_semicolon(v@, i as int) == i);
        assert(first_semicolon(v@, 0) == i);
    }
    let t = v.substring_char(0, i);
    proof {
        assert(t@ =~= v@.take(i as int));
    }
    let r = t.to_owned();
    proof {
        assert(r@ == t@);
        assert(r@ =~= cookie_pair_of(v@));
    }
    r
}

/// The `Cookie` header value made of the pairs of several `Set-Cookie`
/// values, in order, joined by `;`.
pub fn join_cookies(values: &Vec<String>) -> (r: String)
    ensures
        r@ == join_cookie_pairs(values@.map_values(|s: String| s@)),
{
    let ghost vals = values@.map_values(|s: String| s@);
    let mut out = String::new();
    let mut i: usize = 0;
    proof {
        assert(vals.take(0) =~= Seq::<Seq<char>>::empty());
    }
    while i < values.len()
        invariant
            i <= values@.len(),
            vals == values@.map_values(|s: String| s@),
            out@ == join_cookie_pairs(vals.take(i as int)),
        decreases values@.len() - i,
    {
        let pair = cookie_pair(values[i].as_str());
        if i > 0 {
            let sep = ";";
            proof {
                reveal_strlit(";");
            }
            out.append(sep);
        }
        out.append(pair.as_str());
        proof {
            let next = vals.take(i + 1);
            assert(next.drop_last() =~= vals.take(i as int));
            assert(next.last() == values@[i as int]@);
            if i == 0 {
                assert(next.len() == 1);
                assert(out@ =~= cookie_pair_of(next[0]));
            } else {
                assert(out@ =~= join_cookie_pairs(next));
            }
        }
        i += 1;
    }
    proof {
        assert(vals.take(values@.len() as int) =~= vals);
    }
    out
}

/// The lowercase ASCII letters, in order.
pub open spec fn lower_letters() -> Seq<char> {
    seq!['a', 'b', 'c', 'd', 'e', 'f', 'g', 'h', 'i', 'j', 'k', 'l', 'm', 'n', 'o', 'p', 'q', 'r', 's', 't', 'u', 'v', 'w', 'x', 'y', 'z']
}

/// A character with an ASCII capital turned lowercase.
pub open spec fn ascii_lower(c: char) -> char {
    if 'A' <= c && c <= 'Z' {
        lower_letters()[(c as u32 - 'A' as u32) as int]
    } else {
        c
    }
}

/// A text with its ASCII capitals turned lowercase.
pub open spec fn ascii_lower_seq(s: Seq<char>) -> Seq<char> {
    s.map_values(|c: char| ascii_lower(c))
}

/// `s` with its ASCII capitals turned lowercase; other characters stay.
pub fn to_ascii_lowercase(s: &str) -> (r: String)
    ensures
        r@ == ascii_lower_seq(s@),
{
    let letters = "abcdefghijklmnopqrstuvwxyz";
    proof {
        reveal_strlit("abcdefghijklmnopqrstuvwxyz");
        assert(letters@ =~= lower_letters());
    }
    let n = s.unicode_len();
    let mut out = String::new();
    let mut i: usize = 0;
    while i < n
        invariant
            n == s@.len(),
            i <= n,
            letters@ == lower_letters(),
            out@ == ascii_lower_seq(s@.take(i as int)),
        decreases n - i,
    {
        let c = s.get_char(i);
        if 'A' <= c && c <= 'Z' {
            let k = (c as u32 - 'A' as u32) as usize;
            out.append(letters.substring_char(k, k + 1));
        } else {
            out.append(s.substring_char(i, i + 1));
        }
        proof {
            assert(s@.take(i + 1) =~= s@.take(i as int).push(c));
            assert(ascii_lower_seq(s@.take(i + 1)) =~= ascii_lower_seq(s@.take(i as int)).push(
                ascii_lower(c),
            ));
        }
        i += 1;
    }
    proof {
        assert(s@.take(n as int) =~= s@);
    }
    out
}

/// The decimal digit for `d`.
pub open spec fn digit_char(d: nat) -> char {
    seq!['0', '1', '2', '3', '4', '5', '6', '7', '8', '9'][d as int]
}

/// The decimal numeral of `n`, without leading zeros.
pub open spec fn decimal(n: nat) -> Seq<char>
    decreases n,
{
    if n < 10 {
        seq![digit_char(n)]
    } else {
        decimal(n / 10).push(digit_char(n % 10))
    }
}

/// Appends the decimal numeral of `n` to `out`.
pub fn push_decimal(out: &mut String, n: u64)
    ensures
        final(out)@ == old(out)@ + decimal(n as nat),
    decreases n,
{
    let digits = "0123456789";
    proof {
        reveal_strlit("0123456789");
    }
    if n >= 10 {
        push_decimal(out, n / 10);
    }
    let d = (n % 10) as usize;
    out.append(digits.substring_char(d, d + 1));
    proof {
        let one = digits@.subrange(d as int, d + 1);
        assert(one =~= seq![digit_char(d as nat)]);
        assert(out@ =~= old(out)@ + decimal(n as nat));
    }
}

} // verus!
