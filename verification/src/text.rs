//! Verified text utilities: decimal formatting and parsing, lexicographic
//! comparison, trimming, and line-gutter indentation.
//!
//! Everything here is ordinary character-level logic; the one trusted item is
//! `push_char`, a thin wrapper over `String::push`.

use vstd::prelude::*;
use vstd::string::*;

verus! {

/// Relies on `String::push`: appends exactly one character to the string.
#[verifier::external_body]
pub fn push_char(s: &mut String, c: char)
    ensures
        final(s)@ == old(s)@.push(c),
{
    s.push(c);
}

/// The decimal digit character for a value below ten.
pub open spec fn digit_char(d: nat) -> char {
    ((48 + d) as u8) as char
}

/// The decimal representation of `n`, most significant digit first.
pub open spec fn dec_str(n: nat) -> Seq<char>
    decreases n,
{
    if n < 10 {
        seq![digit_char(n)]
    } else {
        dec_str(n / 10) + seq![digit_char(n % 10)]
    }
}

fn push_decimal(s: &mut String, n: u64)
    ensures
        final(s)@ == old(s)@ + dec_str(n as nat),
    decreases n,
{
    if n >= 10 {
        push_decimal(s, n / 10);
    }
    let d: u8 = (n % 10) as u8;
    push_char(s, (48 + d) as char);
    assert(final(s)@ =~= old(s)@ + dec_str(n as nat));
}

/// Format `n` in decimal.
pub fn u64_to_string(n: u64) -> (r: String)
    ensures
        r@ == dec_str(n as nat),
{
    let mut s = String::new();
    push_decimal(&mut s, n);
    proof {
        assert(s@ =~= dec_str(n as nat));
    }
    s
}

/// Whether `c` is an ASCII decimal digit.
pub open spec fn is_digit(c: char) -> bool {
    48 <= c as u32 <= 57
}

/// The value of a digit character.
pub open spec fn digit_val(c: char) -> nat {
    (c as u32 - 48) as nat
}

/// Whether every character of `s` is a decimal digit.
pub open spec fn all_digits(s: Seq<char>) -> bool {
    forall|i: int| 0 <= i < s.len() ==> is_digit(#[trigger] s[i])
}

/// The numeric value of a digit sequence, most significant digit first.
pub open spec fn dec_val(s: Seq<char>) -> nat
    decreases s.len(),
{
    if s.len() == 0 {
        0
    } else {
        dec_val(s.drop_last()) * 10 + digit_val(s.last())
    }
}

proof fn lemma_dec_val_prefix_le(s: Seq<char>, i: int)
    requires
        0 <= i <= s.len(),
    ensures
        dec_val(s.subrange(0, i)) <= dec_val(s),
    decreases s.len() - i,
{
    if i < s.len() {
        let t = s.subrange(0, i + 1);
        assert(t.drop_last() =~= s.subrange(0, i));
        assert(dec_val(s.subrange(0, i + 1)) == dec_val(s.subrange(0, i)) * 10 + digit_val(s[i]));
        lemma_dec_val_prefix_le(s, i + 1);
    } else {
        assert(s.subrange(0, i) =~= s);
    }
}

}

verus! {

/// What `parse_i32` accepts: an optional sign followed by at least one
/// digit, whose value fits in an `i32`.
pub open spec fn parse_i32_spec(s: Seq<char>) -> Option<i32> {
    let digits = if s.len() > 0 && (s[0] == '-' || s[0] == '+') {
        s.drop_first()
    } else {
        s
    };
    let negative = s.len() > 0 && s[0] == '-';
    if digits.len() > 0 && all_digits(digits) {
        if negative {
            if dec_val(digits) <= 0x8000_0000 {
                Some((0 - dec_val(digits) as int) as i32)
            } else {
                None
            }
        } else {
            if dec_val(digits) <= 0x7fff_ffff {
                Some(dec_val(digits) as i32)
            } else {
                None
            }
        }
    } else {
        None
    }
}

/// Parse a signed decimal integer, as `str::parse::<i32>` does: an optional
/// `+` or `-` sign, then one or more digits; `None` on anything else or on
/// overflow.
pub fn parse_i32(s: &str) -> (r: Option<i32>)
    ensures
        r == parse_i32_spec(s@),
{
    let len = s.unicode_len();
    let mut start: usize = 0;
    let mut negative = false;
    if len > 0 {
        let c0 = s.get_char(0);
        if c0 == '-' {
            negative = true;
            start = 1;
        } else if c0 == '+' {
            start = 1;
        }
    }
    let ghost digits: Seq<char> = if start == 1 {
        s@.drop_first()
    } else {
        s@
    };
    proof {
        assert(digits =~= s@.subrange(start as int, len as int));
    }
    if start == len {
        return None;
    }
    let bound: u64 = if negative {
        0x8000_0000
    } else {
        0x7fff_ffff
    };
    let mut acc: u64 = 0;
    let mut i: usize = start;
    while i < len
        invariant
            start <= i <= len,
            len == s@.len(),
            digits =~= s@.subrange(start as int, len as int),
            start <= 1,
            negative == (s@.len() > 0 && s@[0] == '-'),
            (start == 1) <==> (s@.len() > 0 && (s@[0] == '-' || s@[0] == '+')),
            bound == if negative { 0x8000_0000u64 } else { 0x7fff_ffffu64 },
            acc <= bound,
            all_digits(s@.subrange(start as int, i as int)),
            acc == dec_val(s@.subrange(start as int, i as int)),
        decreases len - i,
    {
        let c = s.get_char(i);
        let cu = c as u32;
        if !(48 <= cu && cu <= 57) {
            proof {
                assert(!all_digits(digits)) by {
                    assert(digits[i - start] == s@[i as int]);
                    assert(!is_digit(digits[i - start]));
                }
            }
            return None;
        }
        let d: u64 = (cu - 48) as u64;
        proof {
            let pref = s@.subrange(start as int, i as int);
            let pref2 = s@.subrange(start as int, i as int + 1);
            assert(pref2.drop_last() =~= pref);
            assert(pref2.last() == s@[i as int]);
            assert(is_digit(s@[i as int]));
            assert(d == digit_val(s@[i as int]));
            assert(dec_val(pref2) == dec_val(pref) * 10 + digit_val(s@[i as int]));
            assert(forall|j: int|
                0 <= j < pref2.len() ==> is_digit(#[trigger] pref2[j])) by {
                assert(forall|j: int| 0 <= j < pref.len() ==> pref2[j] == pref[j]);
            }
        }
        acc = acc * 10 + d;
        i = i + 1;
        if acc > bound {
            proof {
                let whole = s@.subrange(start as int, len as int);
                let pref = s@.subrange(start as int, i as int);
                assert(acc == dec_val(pref));
                assert(digits.len() > 0);
                if all_digits(whole) {
                    assert(pref =~= whole.subrange(0, i - start));
                    lemma_dec_val_prefix_le(whole, i - start);
                    assert(dec_val(whole) >= dec_val(pref));
                    assert(dec_val(digits) > bound);
                } else {
                    assert(!all_digits(digits));
                }
                let sd = if s@.len() > 0 && (s@[0] == '-' || s@[0] == '+') {
                    s@.drop_first()
                } else {
                    s@
                };
                assert(sd =~= digits);
                assert(parse_i32_spec(s@) is None);
            }
            return None;
        }
    }
    proof {
        assert(s@.subrange(start as int, i as int) =~= digits);
    }
    if negative {
        if acc == 0x8000_0000 {
            Some(i32::MIN)
        } else {
            Some(-((acc) as i32))
        }
    } else {
        Some(acc as i32)
    }
}

/// What `parse_u64` accepts: one or more digits whose value fits in a
/// `u64`.
pub open spec fn parse_u64_spec(s: Seq<char>) -> Option<u64> {
    if s.len() > 0 && all_digits(s) && dec_val(s) <= 0xffff_ffff_ffff_ffff {
        Some(dec_val(s) as u64)
    } else {
        None
    }
}

/// Parse an unsigned decimal integer: one or more digits; `None` on
/// anything else or on overflow.
pub fn parse_u64(s: &str) -> (r: Option<u64>)
    ensures
        r == parse_u64_spec(s@),
{
    let len = s.unicode_len();
    if len == 0 {
        return None;
    }
    let mut acc: u128 = 0;
    let mut i: usize = 0;
    proof {
        assert(s@.subrange(0, 0) =~= Seq::<char>::empty());
    }
    while i < len
        invariant
            0 <= i <= len,
            len == s@.len(),
            acc <= 0xffff_ffff_ffff_ffff,
            all_digits(s@.subrange(0, i as int)),
            acc == dec_val(s@.subrange(0, i as int)),
        decreases len - i,
    {
        let c = s.get_char(i);
        let cu = c as u32;
        if !(48 <= cu && cu <= 57) {
            proof {
                assert(!all_digits(s@)) by {
                    assert(s@[i as int] == c);
                    assert(!is_digit(s@[i as int]));
                }
            }
            return None;
        }
        let d: u128 = (cu - 48) as u128;
        proof {
            let pref = s@.subrange(0, i as int);
            let pref2 = s@.subrange(0, i as int + 1);
            assert(pref2.drop_last() =~= pref);
            assert(pref2.last() == s@[i as int]);
            assert(is_digit(s@[i as int]));
            assert(d == digit_val(s@[i as int]));
            assert(dec_val(pref2) == dec_val(pref) * 10 + digit_val(s@[i as int]));
            assert(forall|j: int|
                0 <= j < pref2.len() ==> is_digit(#[trigger] pref2[j])) by {
                assert(forall|j: int| 0 <= j < pref.len() ==> pref2[j] == pref[j]);
            }
        }
        acc = acc * 10 + d;
        i = i + 1;
        if acc > 0xffff_ffff_ffff_ffffu128 {
            proof {
                let pref = s@.subrange(0, i as int);
                assert(acc == dec_val(pref));
                if all_digits(s@) {
                    lemma_dec_val_prefix_le(s@, i as int);
                    assert(dec_val(s@) >= dec_val(pref));
                }
            }
            return None;
        }
    }
    proof {
        assert(s@.subrange(0, len as int) =~= s@);
    }
    Some(acc as u64)
}

/// Equality of two string slices, character for character.
pub fn str_eq(a: &str, b: &str) -> (r: bool)
    ensures
        r == (a@ == b@),
{
    let alen = a.unicode_len();
    let blen = b.unicode_len();
    if alen != blen {
        return false;
    }
    let mut i: usize = 0;
    while i < alen
        invariant
            0 <= i <= alen,
            alen == a@.len(),
            alen == b@.len(),
            forall|j: int| 0 <= j < i ==> a@[j] == b@[j],
        decreases alen - i,
    {
        if a.get_char(i) != b.get_char(i) {
            return false;
        }
        i = i + 1;
    }
    proof {
        assert(a@ =~= b@);
    }
    true
}

/// Whether `p` is a prefix of `s`.
pub open spec fn has_prefix(s: Seq<char>, p: Seq<char>) -> bool {
    p.len() <= s.len() && s.subrange(0, p.len() as int) == p
}

/// Prefix test, character for character.
pub fn starts_with_str(s: &str, p: &str) -> (r: bool)
    ensures
        r == has_prefix(s@, p@),
{
    let slen = s.unicode_len();
    let plen = p.unicode_len();
    if plen > slen {
        return false;
    }
    let mut i: usize = 0;
    while i < plen
        invariant
            0 <= i <= plen <= slen,
            slen == s@.len(),
            plen == p@.len(),
            forall|j: int| 0 <= j < i ==> s@[j] == p@[j],
        decreases plen - i,
    {
        if s.get_char(i) != p.get_char(i) {
            proof {
                assert(s@.subrange(0, p@.len() as int)[i as int] != p@[i as int]);
            }
            return false;
        }
        i = i + 1;
    }
    proof {
        assert(s@.subrange(0, p@.len() as int) =~= p@);
    }
    true
}

/// Index of the first occurrence of `c` in `s`, if any.
pub fn find_char(s: &str, c: char) -> (r: Option<usize>)
    ensures
        match r {
            Some(i) => i < s@.len() && s@[i as int] == c && forall|j: int|
                0 <= j < i ==> s@[j] != c,
            None => forall|j: int| 0 <= j < s@.len() ==> s@[j] != c,
        },
{
    let len = s.unicode_len();
    let mut i: usize = 0;
    while i < len
        invariant
            0 <= i <= len,
            len == s@.len(),
            forall|j: int| 0 <= j < i ==> s@[j] != c,
        decreases len - i,
    {
        if s.get_char(i) == c {
            return Some(i);
        }
        i = i + 1;
    }
    None
}

/// Lower-case an ASCII letter; leave everything else alone.
pub open spec fn ascii_lower_char(c: char) -> char {
    if 65 <= c as int <= 90 {
        ((c as u8) + 32) as char
    } else {
        c
    }
}

/// The ASCII-lowercased form of `s`.
pub open spec fn ascii_lower(s: Seq<char>) -> Seq<char> {
    s.map_values(|c: char| ascii_lower_char(c))
}

/// Lower-case the ASCII letters of a string.
pub fn to_ascii_lower(s: &str) -> (r: String)
    ensures
        r@ == ascii_lower(s@),
{
    let len = s.unicode_len();
    let mut out = String::new();
    proof {
        assert(out@ =~= ascii_lower(s@.subrange(0, 0)));
    }
    let mut i: usize = 0;
    while i < len
        invariant
            0 <= i <= len,
            len == s@.len(),
            out@ == ascii_lower(s@.subrange(0, i as int)),
        decreases len - i,
    {
        let c = s.get_char(i);
        let cu = c as u32;
        let mapped: char = if 65 <= cu && cu <= 90 {
            ((cu as u8) + 32) as char
        } else {
            c
        };
        push_char(&mut out, mapped);
        i = i + 1;
        proof {
            assert(s@.subrange(0, i as int) =~= s@.subrange(0, i - 1).push(s@[i - 1]));
            assert(out@ =~= ascii_lower(s@.subrange(0, i as int)));
        }
    }
    proof {
        assert(s@.subrange(0, len as int) =~= s@);
    }
    out
}

/// Whether `n` occurs contiguously anywhere in `h`.
pub open spec fn contains_seq(h: Seq<char>, n: Seq<char>) -> bool {
    exists|i: int|
        0 <= i && i + n.len() <= h.len() && (#[trigger] h.subrange(i, i + n.len() as int)) == n
}

/// Substring search, position by position.
pub fn contains_str(h: &str, n: &str) -> (r: bool)
    ensures
        r == contains_seq(h@, n@),
{
    let hlen = h.unicode_len();
    let nlen = n.unicode_len();
    if nlen > hlen {
        return false;
    }
    let limit = hlen - nlen;
    let mut i: usize = 0;
    loop
        invariant
            0 <= i <= limit,
            limit == hlen - nlen,
            hlen == h@.len(),
            nlen == n@.len(),
            nlen <= hlen,
            forall|k: int|
                0 <= k < i ==> (#[trigger] h@.subrange(k, k + n@.len() as int)) != n@,
        decreases limit - i,
    {
        let sub = h.substring_char(i, i + nlen);
        if str_eq(sub, n) {
            proof {
                assert(h@.subrange(i as int, i + n@.len() as int) == n@);
            }
            return true;
        }
        if i == limit {
            proof {
                assert(!contains_seq(h@, n@)) by {
                    if contains_seq(h@, n@) {
                        let k = choose|k: int|
                            0 <= k && k + n@.len() <= h@.len() && (#[trigger] h@.subrange(
                                k,
                                k + n@.len() as int,
                            )) == n@;
                        assert(k <= limit);
                        assert(h@.subrange(k, k + n@.len() as int) != n@);
                    }
                }
            }
            return false;
        }
        i = i + 1;
    }
}

/// Whether `c` is ASCII whitespace.
pub open spec fn is_space(c: char) -> bool {
    c == ' ' || c == '\t' || c == '\n' || c == '\r'
}

/// `s` with leading and trailing ASCII whitespace removed.
pub open spec fn trim_spec(s: Seq<char>) -> Seq<char>
    decreases s.len(),
{
    if s.len() == 0 {
        s
    } else if is_space(s[0]) {
        trim_spec(s.drop_first())
    } else if is_space(s.last()) {
        trim_spec(s.drop_last())
    } else {
        s
    }
}

/// Remove leading and trailing ASCII whitespace.
pub fn trim(s: &str) -> (r: &str)
    ensures
        r@ == trim_spec(s@),
{
    let len = s.unicode_len();
    let mut lo: usize = 0;
    let mut hi: usize = len;
    proof {
        assert(s@.subrange(0, len as int) =~= s@);
    }
    loop
        invariant
            0 <= lo <= hi <= len,
            len == s@.len(),
            trim_spec(s@) == trim_spec(s@.subrange(lo as int, hi as int)),
        ensures
            0 <= lo <= hi <= len,
            trim_spec(s@) == trim_spec(s@.subrange(lo as int, hi as int)),
            lo == hi || (!is_space(s@[lo as int]) && !is_space(s@[hi - 1])),
        decreases hi - lo,
    {
        let ghost sub = s@.subrange(lo as int, hi as int);
        if lo < hi {
            let c = s.get_char(lo);
            if c == ' ' || c == '\t' || c == '\n' || c == '\r' {
                proof {
                    assert(sub.drop_first() =~= s@.subrange(lo as int + 1, hi as int));
                }
                lo = lo + 1;
                continue;
            }
            let d = s.get_char(hi - 1);
            if d == ' ' || d == '\t' || d == '\n' || d == '\r' {
                proof {
                    assert(!is_space(sub[0]));
                    assert(sub.last() == s@[hi - 1]);
                    assert(sub.drop_last() =~= s@.subrange(lo as int, hi as int - 1));
                }
                hi = hi - 1;
                continue;
            }
        }
        break;
    }
    let r = s.substring_char(lo, hi);
    proof {
        let sub = s@.subrange(lo as int, hi as int);
        if lo == hi {
            assert(sub.len() == 0);
        } else {
            assert(sub[0] == s@[lo as int]);
            assert(sub.last() == s@[hi - 1]);
        }
        assert(trim_spec(sub) == sub);
    }
    r
}

/// Each line of `s`, prefixed with a two-space gutter (the first line
/// included); defined by replacing every newline with a newline plus gutter.
pub open spec fn gutter_chars(s: Seq<char>) -> Seq<char>
    decreases s.len(),
{
    if s.len() == 0 {
        Seq::<char>::empty()
    } else {
        let head: Seq<char> = if s[0] == '\n' {
            seq!['\n', ' ', ' ']
        } else {
            seq![s[0]]
        };
        head + gutter_chars(s.drop_first())
    }
}

/// The whole gutter block: a leading gutter, then `s` with every newline
/// followed by a gutter.
pub open spec fn with_gutter(s: Seq<char>) -> Seq<char> {
    seq![' ', ' '] + gutter_chars(s)
}

/// Indent a block of text by a two-space gutter on every line.
pub fn format_with_gutter(text: &str) -> (r: String)
    ensures
        r@ == with_gutter(text@),
{
    let len = text.unicode_len();
    let mut out = String::new();
    push_char(&mut out, ' ');
    push_char(&mut out, ' ');
    let mut i: usize = 0;
    proof {
        assert(text@.subrange(0, len as int) =~= text@);
        assert(out@ =~= seq![' ', ' ']);
    }
    while i < len
        invariant
            0 <= i <= len,
            len == text@.len(),
            with_gutter(text@) == out@ + gutter_chars(text@.subrange(i as int, len as int)),
        decreases len - i,
    {
        let ghost sub = text@.subrange(i as int, len as int);
        proof {
            assert(sub[0] == text@[i as int]);
            assert(sub.drop_first() =~= text@.subrange(i as int + 1, len as int));
        }
        let c = text.get_char(i);
        push_char(&mut out, c);
        if c == '\n' {
            push_char(&mut out, ' ');
            push_char(&mut out, ' ');
        }
        i = i + 1;
        proof {
            assert(with_gutter(text@) =~= out@ + gutter_chars(
                text@.subrange(i as int, len as int),
            ));
        }
    }
    proof {
        assert(text@.subrange(len as int, len as int) =~= Seq::<char>::empty());
        assert(out@ =~= with_gutter(text@));
    }
    out
}

/// The pieces joined with `sep` between consecutive elements.
pub open spec fn join_with(l: Seq<Seq<char>>, sep: Seq<char>) -> Seq<char>
    decreases l.len(),
{
    if l.len() == 0 {
        Seq::<char>::empty()
    } else if l.len() == 1 {
        l[0]
    } else {
        l[0] + sep + join_with(l.drop_first(), sep)
    }
}

/// The lines joined with a newline between consecutive elements.
pub open spec fn join_lines(l: Seq<Seq<char>>) -> Seq<char> {
    join_with(l, seq!['\n'])
}

/// Join the strings with `sep` between consecutive elements.
pub fn join_strings(v: &Vec<String>, sep: &str) -> (r: String)
    ensures
        r@ == join_with(v.deep_view(), sep@),
{
    let mut out = String::new();
    let len = v.len();
    proof {
        assert(v.deep_view().subrange(0, len as int) =~= v.deep_view());
        assert(v.deep_view().len() == len);
    }
    let mut i: usize = 0;
    while i < len
        invariant
            0 <= i <= len,
            len == v.len(),
            v.deep_view().len() == len,
            join_with(v.deep_view(), sep@) == out@ + join_with(
                v.deep_view().subrange(i as int, len as int),
                sep@,
            ),
            forall|j: int| 0 <= j < len ==> v.deep_view()[j] == v@[j]@,
        decreases len - i,
    {
        let ghost sub = v.deep_view().subrange(i as int, len as int);
        proof {
            assert(sub[0] == v.deep_view()[i as int]);
            assert(sub.drop_first() =~= v.deep_view().subrange(i as int + 1, len as int));
        }
        out.append(v[i].as_str());
        if i + 1 < len {
            out.append(sep);
        }
        i = i + 1;
        proof {
            assert(join_with(v.deep_view(), sep@) =~= out@ + join_with(
                v.deep_view().subrange(i as int, len as int),
                sep@,
            ));
        }
    }
    proof {
        assert(out@ =~= join_with(v.deep_view(), sep@));
    }
    out
}

/// Join the strings with newlines.
pub fn join_with_newlines(v: &Vec<String>) -> (r: String)
    ensures
        r@ == join_lines(v.deep_view()),
{
    let r = join_strings(v, "\n");
    proof {
        reveal_strlit("\n");
        assert("\n"@ =~= seq!['\n']);
    }
    r
}

/// Index of the first occurrence of `c` in `s`, or `-1` if there is none.
pub open spec fn first_index_of(s: Seq<char>, c: char) -> int
    decreases s.len(),
{
    if s.len() == 0 {
        -1
    } else if s[0] == c {
        0
    } else {
        let r = first_index_of(s.drop_first(), c);
        if r < 0 {
            -1
        } else {
            r + 1
        }
    }
}

/// `first_index_of` is characterized by the first occurrence.
pub proof fn lemma_first_index_characterize(s: Seq<char>, c: char, i: int)
    requires
        0 <= i < s.len(),
        s[i] == c,
        forall|j: int| 0 <= j < i ==> s[j] != c,
    ensures
        first_index_of(s, c) == i,
    decreases s.len(),
{
    if i > 0 {
        lemma_first_index_characterize(s.drop_first(), c, i - 1);
    }
}

/// When `s` does not contain `c`, `first_index_of` is `-1`.
pub proof fn lemma_first_index_none(s: Seq<char>, c: char)
    requires
        forall|j: int| 0 <= j < s.len() ==> s[j] != c,
    ensures
        first_index_of(s, c) == -1,
    decreases s.len(),
{
    if s.len() > 0 {
        lemma_first_index_none(s.drop_first(), c);
    }
}

/// Index of the first space in `s`, or `-1` if there is none.
pub open spec fn first_space(s: Seq<char>) -> int {
    first_index_of(s, ' ')
}

/// `first_space` is characterized by the first occurrence of a space.
pub proof fn lemma_first_space_characterize(s: Seq<char>, i: int)
    requires
        0 <= i < s.len(),
        s[i] == ' ',
        forall|j: int| 0 <= j < i ==> s[j] != ' ',
    ensures
        first_space(s) == i,
{
    lemma_first_index_characterize(s, ' ', i);
}

/// When `s` has no space, `first_space` is `-1`.
pub proof fn lemma_first_space_none(s: Seq<char>)
    requires
        forall|j: int| 0 <= j < s.len() ==> s[j] != ' ',
    ensures
        first_space(s) == -1,
{
    lemma_first_index_none(s, ' ');
}

/// Strict lexicographic order on character sequences, by code point.
pub open spec fn lex_lt(a: Seq<char>, b: Seq<char>) -> bool
    decreases a.len(),
{
    if b.len() == 0 {
        false
    } else if a.len() == 0 {
        true
    } else if a[0] != b[0] {
        (a[0] as int) < (b[0] as int)
    } else {
        lex_lt(a.drop_first(), b.drop_first())
    }
}

/// Exactly one of `lex_lt(a, b)`, `lex_lt(b, a)`, `a == b` holds.
pub proof fn lemma_lex_connex(a: Seq<char>, b: Seq<char>)
    ensures
        !lex_lt(a, b) && !lex_lt(b, a) ==> a == b,
    decreases a.len(),
{
    if !lex_lt(a, b) && !lex_lt(b, a) {
        if a.len() == 0 || b.len() == 0 {
            assert(a =~= b);
        } else {
            if a[0] != b[0] {
                assert(lex_lt(a, b) == ((a[0] as int) < (b[0] as int)));
                assert(lex_lt(b, a) == ((b[0] as int) < (a[0] as int)));
                assert((a[0] as int) == (b[0] as int));
                assert(a[0] == b[0]);
            }
            lemma_lex_connex(a.drop_first(), b.drop_first());
            assert(a.drop_first() == b.drop_first());
            assert(a =~= b) by {
                assert(forall|i: int|
                    1 <= i < a.len() ==> #[trigger] a[i] == a.drop_first()[i - 1]);
                assert(forall|i: int|
                    1 <= i < b.len() ==> #[trigger] b[i] == b.drop_first()[i - 1]);
            }
        }
    }
}

/// Lexicographic order is transitive.
pub proof fn lemma_lex_trans(a: Seq<char>, b: Seq<char>, c: Seq<char>)
    requires
        lex_lt(a, b),
        lex_lt(b, c),
    ensures
        lex_lt(a, c),
    decreases a.len() + b.len() + c.len(),
{
    if b.len() == 0 {
        // lex_lt(a, b) impossible
    } else if c.len() == 0 {
        // lex_lt(b, c) impossible
    } else if a.len() == 0 {
    } else {
        if a[0] == b[0] && b[0] == c[0] {
            lemma_lex_trans(a.drop_first(), b.drop_first(), c.drop_first());
        }
    }
}

/// Lexicographic order is irreflexive.
pub proof fn lemma_lex_irrefl(a: Seq<char>)
    ensures
        !lex_lt(a, a),
    decreases a.len(),
{
    if a.len() > 0 {
        lemma_lex_irrefl(a.drop_first());
    }
}

/// Lexicographic order is asymmetric.
pub proof fn lemma_lex_asym(a: Seq<char>, b: Seq<char>)
    requires
        lex_lt(a, b),
    ensures
        !lex_lt(b, a),
{
    if lex_lt(b, a) {
        lemma_lex_trans(a, b, a);
        lemma_lex_irrefl(a);
    }
}

/// The reflexive order `!lex_lt(b, a)` ("a at most b") is transitive.
pub proof fn lemma_lex_le_trans(a: Seq<char>, b: Seq<char>, c: Seq<char>)
    requires
        !lex_lt(b, a),
        !lex_lt(c, b),
    ensures
        !lex_lt(c, a),
{
    if lex_lt(c, a) {
        lemma_lex_connex(a, b);
        if !lex_lt(a, b) {
            // a == b, so lex_lt(c, b), contradicting the premise
        } else {
            lemma_lex_trans(c, a, b);
        }
    }
}

/// Lexicographic comparison of two strings, character by character.
pub fn str_lex_lt(a: &str, b: &str) -> (r: bool)
    ensures
        r == lex_lt(a@, b@),
{
    let alen = a.unicode_len();
    let blen = b.unicode_len();
    let mut i: usize = 0;
    proof {
        assert(a@.subrange(0, alen as int) =~= a@);
        assert(b@.subrange(0, blen as int) =~= b@);
    }
    loop
        invariant
            0 <= i <= alen,
            i <= blen,
            alen == a@.len(),
            blen == b@.len(),
            lex_lt(a@, b@) == lex_lt(
                a@.subrange(i as int, alen as int),
                b@.subrange(i as int, blen as int),
            ),
        decreases alen - i,
    {
        let ghost suba = a@.subrange(i as int, alen as int);
        let ghost subb = b@.subrange(i as int, blen as int);
        if i == blen {
            return false;
        }
        if i == alen {
            return true;
        }
        let ca = a.get_char(i);
        let cb = b.get_char(i);
        proof {
            assert(suba[0] == a@[i as int]);
            assert(subb[0] == b@[i as int]);
            assert(suba.drop_first() =~= a@.subrange(i as int + 1, alen as int));
            assert(subb.drop_first() =~= b@.subrange(i as int + 1, blen as int));
        }
        if ca != cb {
            return (ca as u32) < (cb as u32);
        }
        i = i + 1;
    }
}

}
