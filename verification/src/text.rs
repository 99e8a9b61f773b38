//! Byte-level text utilities: substring containment.
use vstd::prelude::*;

verus! {

use vstd::string::StringSliceAdditionalSpecFns;
use vstd::string::{StrSliceExecFns, StringExecFns};

/// The pattern `pat` occurs in `hay` starting at position `i`.
pub open spec fn matches_at(hay: Seq<u8>, pat: Seq<u8>, i: int) -> bool {
    0 <= i && i + pat.len() <= hay.len() && hay.subrange(i, i + pat.len()) == pat
}

/// `pat` is a contiguous subsequence of `hay`.
pub open spec fn is_substring(hay: Seq<u8>, pat: Seq<u8>) -> bool {
    exists|i: int| matches_at(hay, pat, i)
}

/// Whether `pat` occurs in `hay` at exactly position `i`.
fn bytes_match_at(hay: &[u8], pat: &[u8], i: usize) -> (r: bool)
    requires
        i + pat@.len() <= hay@.len(),
    ensures
        r == matches_at(hay@, pat@, i as int),
{
    let n = pat.len();
    let hlen = hay.len();
    let mut k: usize = 0;
    while k < n
        invariant
            k <= n,
            n == pat@.len(),
            hlen == hay@.len(),
            i + n <= hay@.len(),
            forall|t: int| 0 <= t < k ==> hay@[i + t] == pat@[t],
        decreases n - k,
    {
        if hay[i + k] != pat[k] {
            proof {
                assert(hay@.subrange(i as int, i + n) =~= pat@ ==> hay@.subrange(
                    i as int,
                    i + n,
                )[k as int] == pat@[k as int]);
            }
            return false;
        }
        k += 1;
    }
    proof {
        assert(hay@.subrange(i as int, i + n) =~= pat@);
    }
    true
}

/// Whether the byte string `pat` occurs anywhere in `hay`.
pub fn contains_bytes(hay: &[u8], pat: &[u8]) -> (r: bool)
    ensures
        r == is_substring(hay@, pat@),
{
    let hlen = hay.len();
    let plen = pat.len();
    if plen > hlen {
        proof {
            assert(forall|i: int| matches_at(hay@, pat@, i) ==> i >= 0 && pat@.len() <= hay@.len());
        }
        return false;
    }
    if plen == 0 {
        proof {
            assert(hay@.subrange(0, 0) =~= pat@);
            assert(matches_at(hay@, pat@, 0));
        }
        return true;
    }
    let mut i: usize = 0;
    while i <= hlen - plen
        invariant
            hlen == hay@.len(),
            plen == pat@.len(),
            0 < plen <= hlen,
            i <= hlen - plen + 1,
            forall|j: int| 0 <= j < i ==> !matches_at(hay@, pat@, j),
        decreases hlen - plen - i + 1,
    {
        if bytes_match_at(hay, pat, i) {
            return true;
        }
        i += 1;
    }
    proof {
        assert(forall|j: int| matches_at(hay@, pat@, j) ==> 0 <= j <= hay@.len() - pat@.len());
    }
    false
}

/// Whether the bytes of `pat` occur anywhere in the bytes of `hay`.
pub fn contains_str(hay: &str, pat: &str) -> (r: bool)
    ensures
        r == is_substring(hay.spec_bytes(), pat.spec_bytes()),
{
    contains_bytes(hay.as_bytes(), pat.as_bytes())
}

/// The Unicode whitespace characters, by code point.
pub open spec fn spec_is_ws(c: char) -> bool {
    let u = c as u32;
    u == 9 || u == 10 || u == 11 || u == 12 || u == 13 || u == 32 || u == 0x85 || u == 0xA0 || u
        == 0x1680 || (0x2000 <= u && u <= 0x200A) || u == 0x2028 || u == 0x2029 || u == 0x202F || u
        == 0x205F || u == 0x3000
}

/// Whether `c` has the Unicode white-space property.
pub fn is_ws(c: char) -> (r: bool)
    ensures
        r == spec_is_ws(c),
{
    let u = c as u32;
    u == 9 || u == 10 || u == 11 || u == 12 || u == 13 || u == 32 || u == 0x85 || u == 0xA0 || u
        == 0x1680 || (0x2000 <= u && u <= 0x200A) || u == 0x2028 || u == 0x2029 || u == 0x202F || u
        == 0x205F || u == 0x3000
}

/// `s` with its leading whitespace removed.
pub open spec fn trim_start(s: Seq<char>) -> Seq<char>
    decreases s.len(),
{
    if s.len() > 0 && spec_is_ws(s[0]) {
        trim_start(s.drop_first())
    } else {
        s
    }
}

/// `s` with its trailing whitespace removed.
pub open spec fn trim_end(s: Seq<char>) -> Seq<char>
    decreases s.len(),
{
    if s.len() > 0 && spec_is_ws(s.last()) {
        trim_end(s.drop_last())
    } else {
        s
    }
}

/// `s` with leading and trailing whitespace removed.
pub open spec fn spec_trim(s: Seq<char>) -> Seq<char> {
    trim_end(trim_start(s))
}

proof fn lemma_trim_start_at(s: Seq<char>, a: int)
    requires
        0 <= a <= s.len(),
        forall|i: int| 0 <= i < a ==> spec_is_ws(s[i]),
        a < s.len() ==> !spec_is_ws(s[a]),
    ensures
        trim_start(s) == s.subrange(a, s.len() as int),
    decreases a,
{
    if a == 0 {
        assert(s.subrange(0, s.len() as int) =~= s);
    } else {
        let d = s.drop_first();
        assert(spec_is_ws(s[0]));
        assert(forall|i: int| 0 <= i < a - 1 ==> d[i] == s[i + 1]);
        lemma_trim_start_at(d, a - 1);
        assert(d.subrange(a - 1, d.len() as int) =~= s.subrange(a, s.len() as int));
    }
}

proof fn lemma_trim_end_at(s: Seq<char>, b: int)
    requires
        0 <= b <= s.len(),
        forall|i: int| b <= i < s.len() ==> spec_is_ws(s[i]),
        b > 0 ==> !spec_is_ws(s[b - 1]),
    ensures
        trim_end(s) == s.subrange(0, b),
    decreases s.len() - b,
{
    if b == s.len() {
        assert(s.subrange(0, s.len() as int) =~= s);
    } else {
        let d = s.drop_last();
        assert(spec_is_ws(s.last()));
        assert(forall|i: int| 0 <= i < d.len() ==> d[i] == s[i]);
        lemma_trim_end_at(d, b);
        assert(d.subrange(0, b) =~= s.subrange(0, b));
    }
}

/// `s` without leading or trailing Unicode whitespace.
pub fn trim_str<'a>(s: &'a str) -> (r: &'a str)
    ensures
        r@ == spec_trim(s@),
{
    let len = s.unicode_len();
    let mut a: usize = 0;
    while a < len && is_ws(s.get_char(a))
        invariant
            a <= len,
            len == s@.len(),
            forall|i: int| 0 <= i < a ==> spec_is_ws(s@[i]),
        decreases len - a,
    {
        a += 1;
    }
    let mut b: usize = len;
    while b > a && is_ws(s.get_char(b - 1))
        invariant
            a <= b <= len,
            len == s@.len(),
            forall|i: int| 0 <= i < a ==> spec_is_ws(s@[i]),
            forall|i: int| b <= i < len ==> spec_is_ws(s@[i]),
        decreases b,
    {
        b -= 1;
    }
    proof {
        lemma_trim_start_at(s@, a as int);
        let t = s@.subrange(a as int, len as int);
        if b > a {
            assert(forall|i: int| b - a <= i < t.len() ==> t[i] == s@[i + a]);
            assert(!spec_is_ws(t[b - a - 1]));
            lemma_trim_end_at(t, b - a);
        } else {
            // everything from a on is whitespace, so the trimmed tail is empty
            assert(forall|i: int| 0 <= i < t.len() ==> t[i] == s@[i + a]);
            lemma_trim_end_at(t, 0);
        }
        assert(t.subrange(0, b - a) =~= s@.subrange(a as int, b as int));
    }
    s.substring_char(a, b)
}

/// Whether two string slices hold the same characters.
pub fn str_eq(a: &str, b: &str) -> (r: bool)
    ensures
        r == (a@ == b@),
{
    let alen = a.unicode_len();
    let blen = b.unicode_len();
    if alen != blen {
        return false;
    }
    let mut i: usize = 0;
    while i < alen
        invariant
            i <= alen,
            alen == a@.len(),
            alen == b@.len(),
            forall|t: int| 0 <= t < i ==> a@[t] == b@[t],
        decreases alen - i,
    {
        if a.get_char(i) != b.get_char(i) {
            return false;
        }
        i += 1;
    }
    proof {
        assert(a@ =~= b@);
    }
    true
}

/// Whether `c` is an ASCII decimal digit.
pub open spec fn is_digit_char(c: char) -> bool {
    48 <= c as u32 <= 57
}

/// The numeric value of an ASCII digit.
pub open spec fn digit_val(c: char) -> int {
    c as u32 - 48
}

/// Whether every character of `s` is an ASCII digit.
pub open spec fn all_digits(s: Seq<char>) -> bool {
    forall|i: int| 0 <= i < s.len() ==> is_digit_char(s[i])
}

/// The value of `s` read as a decimal number.
pub open spec fn dec_val(s: Seq<char>) -> int
    decreases s.len(),
{
    if s.len() == 0 {
        0
    } else {
        dec_val(s.drop_last()) * 10 + digit_val(s.last())
    }
}

pub proof fn lemma_dec_val_nonneg(s: Seq<char>)
    requires
        all_digits(s),
    ensures
        dec_val(s) >= 0,
    decreases s.len(),
{
    if s.len() > 0 {
        assert(forall|i: int| 0 <= i < s.drop_last().len() ==> s.drop_last()[i] == s[i]);
        lemma_dec_val_nonneg(s.drop_last());
    }
}

/// Extending a digit string to the right never decreases its value.
pub proof fn lemma_dec_val_prefix(s: Seq<char>, k: int)
    requires
        0 <= k <= s.len(),
        all_digits(s),
    ensures
        dec_val(s) >= dec_val(s.take(k)),
    decreases s.len() - k,
{
    if k == s.len() {
        assert(s.take(k) =~= s);
    } else {
        lemma_dec_val_prefix(s, k + 1);
        assert(s.take(k + 1).drop_last() =~= s.take(k));
        assert(s.take(k + 1).last() == s[k]);
        assert(forall|i: int| 0 <= i < s.take(k).len() ==> s.take(k)[i] == s[i]);
        lemma_dec_val_nonneg(s.take(k));
        assert(dec_val(s.take(k + 1)) == dec_val(s.take(k)) * 10 + digit_val(s[k]));
        assert(dec_val(s.take(k)) * 10 >= dec_val(s.take(k)));
    }
}

/// What a decimal string denotes as an `i64`: an optional sign and at least
/// one digit, refused when empty, malformed or out of range.
pub open spec fn spec_parse_i64(s: Seq<char>) -> Option<i64> {
    let neg = s.len() > 0 && s[0] == '-';
    let ds = if s.len() > 0 && (s[0] == '-' || s[0] == '+') {
        s.drop_first()
    } else {
        s
    };
    if ds.len() == 0 || !all_digits(ds) {
        None
    } else if !neg && dec_val(ds) <= i64::MAX as int {
        Some(dec_val(ds) as i64)
    } else if neg && dec_val(ds) <= (i64::MAX as int) + 1 {
        Some((-dec_val(ds)) as i64)
    } else {
        None
    }
}

/// Parse a signed decimal integer, as the chat identifier syntax demands.
pub fn parse_i64(s: &str) -> (r: Option<i64>)
    ensures
        r == spec_parse_i64(s@),
{
    let len = s.unicode_len();
    let mut idx: usize = 0;
    let mut neg = false;
    if len > 0 {
        let c0 = s.get_char(0);
        if c0 == '-' {
            neg = true;
            idx = 1;
        } else if c0 == '+' {
            idx = 1;
        }
    }
    let ghost ds = if idx == 1 {
        s@.drop_first()
    } else {
        s@
    };
    if idx >= len {
        assert(ds.len() == 0);
        return None;
    }
    let limit: u64 = if neg {
        9223372036854775808
    } else {
        9223372036854775807
    };
    let mut acc: u64 = 0;
    let mut i = idx;
    while i < len
        invariant
            idx <= i <= len,
            idx <= 1,
            len == s@.len(),
            idx < len,
            (idx == 1) == (s@.len() > 0 && (s@[0] == '-' || s@[0] == '+')),
            neg == (s@.len() > 0 && s@[0] == '-'),
            ds == if idx == 1 {
                s@.drop_first()
            } else {
                s@
            },
            ds.len() == len - idx,
            forall|t: int| 0 <= t < ds.len() ==> ds[t] == s@[t + idx],
            limit == if neg {
                9223372036854775808u64
            } else {
                9223372036854775807u64
            },
            all_digits(ds.take(i - idx)),
            acc == dec_val(ds.take(i - idx)),
            acc <= limit,
        decreases len - i,
    {
        let c = s.get_char(i);
        let u = c as u32;
        if u < 48 || u > 57 {
            assert(!is_digit_char(ds[i - idx]));
            return None;
        }
        let d: u64 = (u - 48) as u64;
        if acc > (limit - d) / 10 {
            // the value read so far already exceeds the range; more digits
            // can only grow it
            proof {
                assert(ds.take(i - idx + 1).drop_last() =~= ds.take(i - idx));
                assert(ds.take(i - idx + 1).last() == ds[i - idx]);
                assert(dec_val(ds.take(i - idx + 1)) == acc * 10 + d);
                assert(acc * 10 + d > limit) by (nonlinear_arith)
                    requires
                        acc > (limit - d) / 10,
                        d < 10,
                        0 <= limit,
                        d <= limit,
                ;
                if all_digits(ds) {
                    lemma_dec_val_prefix(ds, i - idx + 1);
                }
            }
            return None;
        }
        proof {
            assert(acc * 10 + d <= limit) by (nonlinear_arith)
                requires
                    acc <= (limit - d) / 10,
                    d < 10,
                    0 <= acc,
                    d <= limit,
            ;
            assert(ds.take(i - idx + 1).drop_last() =~= ds.take(i - idx));
            assert(ds.take(i - idx + 1).last() == ds[i - idx]);
        }
        acc = acc * 10 + d;
        i += 1;
    }
    proof {
        assert(ds.take(len - idx) =~= ds);
    }
    if !neg {
        Some(acc as i64)
    } else {
        if acc == 9223372036854775808 {
            Some(i64::MIN)
        } else {
            Some(-(acc as i64))
        }
    }
}

/// The decimal digits of a nonnegative number, most significant first.
pub open spec fn dec_digits(n: int) -> Seq<char>
    decreases n,
{
    if n < 10 {
        seq![digit_char(n)]
    } else {
        dec_digits(n / 10).push(digit_char(n % 10))
    }
}

/// The character for one decimal digit.
pub open spec fn digit_char(d: int) -> char {
    if d == 0 {
        '0'
    } else if d == 1 {
        '1'
    } else if d == 2 {
        '2'
    } else if d == 3 {
        '3'
    } else if d == 4 {
        '4'
    } else if d == 5 {
        '5'
    } else if d == 6 {
        '6'
    } else if d == 7 {
        '7'
    } else if d == 8 {
        '8'
    } else {
        '9'
    }
}

/// The decimal rendering of an `i64`: a minus sign for negative values,
/// then the digits of the magnitude.
pub open spec fn dec_int(n: int) -> Seq<char> {
    if n < 0 {
        seq!['-'] + dec_digits(-n)
    } else {
        dec_digits(n)
    }
}

fn digit_str(d: u8) -> (r: &'static str)
    requires
        d < 10,
    ensures
        r@ == seq![digit_char(d as int)],
{
    proof {
        reveal_strlit("0");
        reveal_strlit("1");
        reveal_strlit("2");
        reveal_strlit("3");
        reveal_strlit("4");
        reveal_strlit("5");
        reveal_strlit("6");
        reveal_strlit("7");
        reveal_strlit("8");
        reveal_strlit("9");
    }
    let r = match d {
        0 => "0",
        1 => "1",
        2 => "2",
        3 => "3",
        4 => "4",
        5 => "5",
        6 => "6",
        7 => "7",
        8 => "8",
        _ => "9",
    };
    proof {
        assert(r@ =~= seq![digit_char(d as int)]);
    }
    r
}

/// Render `n` in decimal.
pub fn u64_to_string(n: u64) -> (s: String)
    ensures
        s@ == dec_digits(n as int),
{
    let mut rev: Vec<u8> = Vec::new();
    let mut m: u64 = n;
    while m >= 10
        invariant
            forall|k: int| 0 <= k < rev@.len() ==> rev@[k] < 10,
            dec_digits(n as int) =~= dec_digits(m as int) + Seq::new(
                rev@.len(),
                |k: int| digit_char(rev@[rev@.len() - 1 - k] as int),
            ),
        decreases m,
    {
        let d = (m % 10) as u8;
        proof {
            let old_tail = Seq::new(rev@.len(), |k: int| digit_char(rev@[rev@.len() - 1 - k] as int));
            let new_rev = rev@.push(d);
            let new_tail = Seq::new(
                new_rev.len(),
                |k: int| digit_char(new_rev[new_rev.len() - 1 - k] as int),
            );
            assert(new_tail =~= seq![digit_char(d as int)] + old_tail);
            assert(dec_digits(m as int) == dec_digits(m as int / 10).push(
                digit_char(m as int % 10),
            ));
            assert(dec_digits(m as int / 10).push(digit_char(m as int % 10)) + old_tail
                =~= dec_digits(m as int / 10) + new_tail);
        }
        rev.push(d);
        m = m / 10;
    }
    let d0 = m as u8;
    let ghost tail = Seq::new(rev@.len(), |k: int| digit_char(rev@[rev@.len() - 1 - k] as int));
    proof {
        assert(dec_digits(d0 as int) =~= seq![digit_char(d0 as int)]);
    }
    let mut s = String::new();
    s.append(digit_str(d0));
    let mut i = rev.len();
    while i > 0
        invariant
            i <= rev@.len(),
            forall|k: int| 0 <= k < rev@.len() ==> rev@[k] < 10,
            tail == Seq::new(rev@.len(), |k: int| digit_char(rev@[rev@.len() - 1 - k] as int)),
            dec_digits(n as int) == dec_digits(d0 as int) + tail,
            s@ =~= dec_digits(d0 as int) + tail.take(rev@.len() - i),
        decreases i,
    {
        i -= 1;
        s.append(digit_str(*rev.get(i).unwrap()));
        proof {
            assert(tail[rev@.len() - 1 - i] == digit_char(rev@[i as int] as int));
            assert(tail.take(rev@.len() - i) =~= tail.take(rev@.len() - 1 - i).push(
                tail[rev@.len() - 1 - i],
            ));
            assert(s@ =~= dec_digits(d0 as int) + tail.take(rev@.len() - i));
        }
    }
    proof {
        assert(tail.take(rev@.len() as int) =~= tail);
    }
    s
}

/// Render `n` in decimal, with a minus sign when negative.
pub fn i64_to_string(n: i64) -> (s: String)
    ensures
        s@ == dec_int(n as int),
{
    if n >= 0 {
        u64_to_string(n as u64)
    } else {
        let mag: u64 = if n == i64::MIN {
            9223372036854775808u64
        } else {
            (-n) as u64
        };
        proof {
            reveal_strlit("-");
            assert(("-")@ =~= seq!['-']);
        }
        let mut s = String::from_str("-");
        let digits = u64_to_string(mag);
        s.append(digits.as_str());
        proof {
            assert(s@ =~= seq!['-'] + dec_digits(mag as int));
        }
        s
    }
}

/// Index of the first occurrence of `c` in `s`, or -1 when there is none.
pub open spec fn first_idx_of(s: Seq<char>, c: char) -> int
    decreases s.len(),
{
    if s.len() == 0 {
        -1
    } else if s[0] == c {
        0
    } else {
        let r = first_idx_of(s.drop_first(), c);
        if r < 0 {
            -1
        } else {
            r + 1
        }
    }
}

proof fn lemma_first_idx_at(s: Seq<char>, c: char, k: int)
    requires
        0 <= k < s.len(),
        s[k] == c,
        forall|t: int| 0 <= t < k ==> s[t] != c,
    ensures
        first_idx_of(s, c) == k,
    decreases k,
{
    if k > 0 {
        assert(forall|t: int|
            0 <= t < s.drop_first().len() ==> s.drop_first()[t] == s[t + 1]);
        lemma_first_idx_at(s.drop_first(), c, k - 1);
    }
}

proof fn lemma_first_idx_none(s: Seq<char>, c: char)
    requires
        forall|t: int| 0 <= t < s.len() ==> s[t] != c,
    ensures
        first_idx_of(s, c) == -1,
    decreases s.len(),
{
    if s.len() > 0 {
        assert(forall|t: int|
            0 <= t < s.drop_first().len() ==> s.drop_first()[t] == s[t + 1]);
        lemma_first_idx_none(s.drop_first(), c);
    }
}

/// Index of the first occurrence of `c` in `s`, if any.
pub fn find_char(s: &str, c: char) -> (r: Option<usize>)
    ensures
        match r {
            Some(j) => j < s@.len() && first_idx_of(s@, c) == j,
            None => first_idx_of(s@, c) == -1,
        },
{
    let len = s.unicode_len();
    let mut i: usize = 0;
    while i < len
        invariant
            i <= len,
            len == s@.len(),
            forall|t: int| 0 <= t < i ==> s@[t] != c,
        decreases len - i,
    {
        if s.get_char(i) == c {
            proof {
                lemma_first_idx_at(s@, c, i as int);
            }
            return Some(i);
        }
        i += 1;
    }
    proof {
        lemma_first_idx_none(s@, c);
    }
    None
}

} // verus!
