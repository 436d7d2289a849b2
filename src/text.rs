//! Character-level helpers: decimal numbers as Rust's integer parsing reads
//! them, Unicode whitespace, ASCII lowercase, and string comparison.

use vstd::prelude::*;
use vstd::std_specs::iter::IteratorSpec;
use vstd::string::{StringSliceAdditionalSpecFns, StringExecFns, StrSliceExecFns};

verus! {

/// Whether `c` is an ASCII decimal digit.
pub open spec fn is_digit(c: char) -> bool {
    '0' <= c && c <= '9'
}

/// The value of the ASCII digit `c`.
pub open spec fn digit_value(c: char) -> int {
    (c as int) - ('0' as int)
}

pub open spec fn all_digits(s: Seq<char>) -> bool {
    forall|i: int| 0 <= i < s.len() ==> is_digit(#[trigger] s[i])
}

/// The number written by the digits `s`, most significant first.
pub open spec fn decimal_value(s: Seq<char>) -> int
    decreases s.len(),
{
    if s.len() == 0 {
        0
    } else {
        decimal_value(s.drop_last()) * 10 + digit_value(s.last())
    }
}

/// What Rust's unsigned integer parsing reads from `s`, before the bound of
/// the target type: an optional `+` followed by at least one digit.
pub open spec fn unsigned_text_value(s: Seq<char>) -> Option<int> {
    let d = if s.len() > 0 && s[0] == '+' { s.drop_first() } else { s };
    if d.len() > 0 && all_digits(d) {
        Some(decimal_value(d))
    } else {
        None
    }
}

/// What Rust's signed integer parsing reads from `s`, before the bounds of
/// the target type: an optional `+` or `-` followed by at least one digit.
pub open spec fn signed_text_value(s: Seq<char>) -> Option<int> {
    if s.len() > 0 && s[0] == '-' {
        let d = s.drop_first();
        if d.len() > 0 && all_digits(d) {
            Some(-decimal_value(d))
        } else {
            None
        }
    } else {
        unsigned_text_value(s)
    }
}

/// `v` if it lies within `lo ..= hi`.
pub open spec fn within(v: Option<int>, lo: int, hi: int) -> Option<int> {
    match v {
        Some(n) => if lo <= n <= hi { Some(n) } else { None },
        None => None,
    }
}

/// What `str::parse::<u64>` returns on `s`, as an optional value.
pub open spec fn parse_u64_spec(s: Seq<char>) -> Option<u64> {
    match within(unsigned_text_value(s), 0, u64::MAX as int) {
        Some(n) => Some(n as u64),
        None => None,
    }
}

/// What `str::parse::<u16>` returns on `s`, as an optional value.
pub open spec fn parse_u16_spec(s: Seq<char>) -> Option<u16> {
    match within(unsigned_text_value(s), 0, u16::MAX as int) {
        Some(n) => Some(n as u16),
        None => None,
    }
}

/// What `str::parse::<i32>` returns on `s`, as an optional value.
pub open spec fn parse_i32_spec(s: Seq<char>) -> Option<i32> {
    match within(signed_text_value(s), i32::MIN as int, i32::MAX as int) {
        Some(n) => Some(n as i32),
        None => None,
    }
}

proof fn lemma_decimal_nonneg(s: Seq<char>)
    requires
        all_digits(s),
    ensures
        decimal_value(s) >= 0,
    decreases s.len(),
{
    if s.len() > 0 {
        lemma_decimal_nonneg(s.drop_last());
    }
}

/// Reads the digits `v[lo..hi]`: their value if all are digits, there is at
/// least one, and the value is at most `max`.
fn parse_digits(v: &Vec<char>, lo: usize, hi: usize, max: u64) -> (r: Option<u64>)
    requires
        lo <= hi <= v.len(),
    ensures
        r == (if hi > lo && all_digits(v@.subrange(lo as int, hi as int)) && decimal_value(
            v@.subrange(lo as int, hi as int),
        ) <= max {
            Some(decimal_value(v@.subrange(lo as int, hi as int)) as u64)
        } else {
            None
        }),
{
    let mut acc: u128 = 0;
    let mut ok = hi > lo;
    let mut i = lo;
    let cap: u128 = max as u128 + 1;
    while i < hi
        invariant
            lo <= i <= hi <= v.len(),
            cap == max as int + 1,
            ok == (hi > lo && all_digits(v@.subrange(lo as int, i as int))),
            ok ==> acc == (if decimal_value(v@.subrange(lo as int, i as int)) < cap {
                decimal_value(v@.subrange(lo as int, i as int))
            } else {
                cap as int
            }),
        decreases hi - i,
    {
        let c = v[i];
        let ghost pre = v@.subrange(lo as int, i as int);
        let ghost next = v@.subrange(lo as int, i as int + 1);
        assert(next.drop_last() =~= pre);
        assert(next.last() == c);
        if '0' <= c && c <= '9' {
            if ok {
                let d = (c as u32 - '0' as u32) as u128;
                proof {
                    lemma_decimal_nonneg(pre);
                    let pv = decimal_value(pre);
                    if pv >= cap {
                        assert(pv * 10 + d >= cap) by (nonlinear_arith)
                            requires
                                pv >= cap,
                                cap >= 1,
                                d >= 0,
                        ;
                    }
                }
                let t = acc * 10 + d;
                acc = if t < cap { t } else { cap };
            }
        } else {
            ok = false;
        }
        proof {
            if ok {
                assert forall|j: int| 0 <= j < next.len() implies is_digit(#[trigger] next[j]) by {
                    if j < pre.len() {
                        assert(next[j] == pre[j]);
                    }
                }
            } else if hi > lo && '0' <= c && c <= '9' {
                // an earlier character was no digit
                assert(!all_digits(pre));
                let j = choose|j: int| 0 <= j < pre.len() && !is_digit(#[trigger] pre[j]);
                assert(next[j] == pre[j]);
            } else if hi > lo {
                assert(!is_digit(next[next.len() - 1]));
            }
        }
        i = i + 1;
    }
    if ok && acc < cap {
        Some(acc as u64)
    } else {
        None
    }
}


/// Reads `v[lo..hi]` as an optionally `+`-signed unsigned number of at most `max`.
fn parse_unsigned_range(v: &Vec<char>, lo: usize, hi: usize, max: u64) -> (r: Option<u64>)
    requires
        lo <= hi <= v.len(),
    ensures
        r == (match within(unsigned_text_value(v@.subrange(lo as int, hi as int)), 0, max as int) {
            Some(n) => Some(n as u64),
            None => None,
        }),
{
    let ghost s = v@.subrange(lo as int, hi as int);
    if lo < hi && v[lo] == '+' {
        assert(s.drop_first() =~= v@.subrange(lo + 1, hi as int));
        let r = parse_digits(v, lo + 1, hi, max);
        proof {
            if r is Some {
                lemma_decimal_nonneg(s.drop_first());
            }
        }
        r
    } else {
        let r = parse_digits(v, lo, hi, max);
        proof {
            if r is Some {
                lemma_decimal_nonneg(s);
            }
        }
        r
    }
}

/// `str::parse::<u64>` on the characters `v[lo..hi]`.
pub fn parse_u64_range(v: &Vec<char>, lo: usize, hi: usize) -> (r: Option<u64>)
    requires
        lo <= hi <= v.len(),
    ensures
        r == parse_u64_spec(v@.subrange(lo as int, hi as int)),
{
    parse_unsigned_range(v, lo, hi, u64::MAX)
}

/// `str::parse::<u16>` on the characters `v[lo..hi]`.
pub fn parse_u16_range(v: &Vec<char>, lo: usize, hi: usize) -> (r: Option<u16>)
    requires
        lo <= hi <= v.len(),
    ensures
        r == parse_u16_spec(v@.subrange(lo as int, hi as int)),
{
    match parse_unsigned_range(v, lo, hi, u16::MAX as u64) {
        Some(n) => Some(n as u16),
        None => None,
    }
}

/// `str::parse::<i32>` on the characters `v[lo..hi]`.
pub fn parse_i32_range(v: &Vec<char>, lo: usize, hi: usize) -> (r: Option<i32>)
    requires
        lo <= hi <= v.len(),
    ensures
        r == parse_i32_spec(v@.subrange(lo as int, hi as int)),
{
    let ghost s = v@.subrange(lo as int, hi as int);
    if lo < hi && v[lo] == '-' {
        assert(s.drop_first() =~= v@.subrange(lo + 1, hi as int));
        match parse_digits(v, lo + 1, hi, 2147483648) {
            Some(n) => {
                proof {
                    lemma_decimal_nonneg(s.drop_first());
                    assert(signed_text_value(s) == Some(-(n as int)));
                }
                Some((0 - (n as i64)) as i32)
            },
            None => {
                assert(signed_text_value(s) is None || signed_text_value(s)->0 < i32::MIN);
                None
            },
        }
    } else {
        proof {
            if lo < hi {
                assert(s[0] == v@[lo as int]);
                if s[0] == '+' {
                    if all_digits(s.drop_first()) {
                        lemma_decimal_nonneg(s.drop_first());
                    }
                } else if all_digits(s) {
                    lemma_decimal_nonneg(s);
                }
            }
        }
        match parse_unsigned_range(v, lo, hi, i32::MAX as u64) {
            Some(n) => Some(n as i32),
            None => None,
        }
    }
}

/// The characters of `s`, one element each.
pub fn chars_of(s: &str) -> (r: Vec<char>)
    ensures
        r@ == s@,
{
    let mut r: Vec<char> = Vec::new();
    let mut it = s.chars();
    proof {
        broadcast use vstd::string::axiom_spec_iter, vstd::string::next_postcondition;
    }
    assert(r@ + it.remaining() =~= s@);
    loop
        invariant
            r@ + it.remaining() == s@,
            it.obeys_prophetic_iter_laws(),
            it.decrease() is Some,
        ensures
            r@ == s@,
        decreases it.decrease()->0,
    {
        match it.next() {
            Some(c) => {
                r.push(c);
            },
            None => {
                assert(r@ =~= s@);
                break;
            },
        }
    }
    r
}


/// Whether `a` and `b` hold the same characters.
pub fn str_eq(a: &str, b: &str) -> (r: bool)
    ensures
        r == (a@ == b@),
{
    broadcast use vstd::utf8::encode_utf8_decode_utf8;

    let x = a.as_bytes();
    let y = b.as_bytes();
    if x.len() != y.len() {
        return false;
    }
    let mut i: usize = 0;
    while i < x.len()
        invariant
            x@ == a.spec_bytes(),
            y@ == b.spec_bytes(),
            x@.len() == y@.len(),
            i <= x@.len(),
            forall|j: int| 0 <= j < i ==> x@[j] == y@[j],
        decreases x@.len() - i,
    {
        if x[i] != y[i] {
            return false;
        }
        i = i + 1;
    }
    assert(x@ =~= y@);
    assert(vstd::utf8::decode_utf8(vstd::utf8::encode_utf8(a@)) == a@);
    true
}


/// The index of the first `c` in `s`, or the length of `s` where there is none.
pub open spec fn index_of(s: Seq<char>, c: char) -> int
    decreases s.len(),
{
    if s.len() == 0 {
        0
    } else if s[0] == c {
        0
    } else {
        1 + index_of(s.drop_first(), c)
    }
}

/// What precedes the first `c` in `s` (all of `s` where there is none).
pub open spec fn before(s: Seq<char>, c: char) -> Seq<char> {
    s.subrange(0, index_of(s, c))
}

/// What follows the first `c` in `s` (empty where there is none).
pub open spec fn after(s: Seq<char>, c: char) -> Seq<char> {
    if index_of(s, c) < s.len() {
        s.subrange(index_of(s, c) + 1, s.len() as int)
    } else {
        Seq::empty()
    }
}

pub proof fn lemma_index_of(s: Seq<char>, c: char, k: int)
    requires
        0 <= k <= s.len(),
        forall|j: int| 0 <= j < k ==> s[j] != c,
        k < s.len() ==> s[k] == c,
    ensures
        index_of(s, c) == k,
    decreases s.len(),
{
    if s.len() > 0 && k > 0 {
        lemma_index_of(s.drop_first(), c, k - 1);
    }
}

/// The index of the first `c` in `v[lo..hi]`, counted from the start of `v`;
/// `hi` where there is none.
pub fn find_char(v: &Vec<char>, lo: usize, hi: usize, c: char) -> (r: usize)
    requires
        lo <= hi <= v.len(),
    ensures
        lo <= r <= hi,
        r - lo == index_of(v@.subrange(lo as int, hi as int), c),
{
    let mut i = lo;
    while i < hi
        invariant
            lo <= i <= hi <= v.len(),
            forall|j: int| lo <= j < i ==> v@[j] != c,
        ensures
            lo <= i <= hi,
            forall|j: int| lo <= j < i ==> v@[j] != c,
            i < hi ==> v@[i as int] == c,
        decreases hi - i,
    {
        if v[i] == c {
            break;
        }
        i = i + 1;
    }
    proof {
        lemma_index_of(v@.subrange(lo as int, hi as int), c, i - lo);
    }
    i
}


/// Whether `v[lo..hi]` holds exactly the characters of `w`.
pub fn chars_eq(v: &Vec<char>, lo: usize, hi: usize, w: &Vec<char>) -> (r: bool)
    requires
        lo <= hi <= v.len(),
    ensures
        r == (v@.subrange(lo as int, hi as int) == w@),
{
    if hi - lo != w.len() {
        return false;
    }
    let mut i: usize = 0;
    while i < w.len()
        invariant
            lo <= hi <= v@.len(),
            hi - lo == w@.len(),
            i <= w@.len(),
            forall|j: int| 0 <= j < i ==> v@[lo + j] == w@[j],
        decreases w@.len() - i,
    {
        if v[lo + i] != w[i] {
            assert(v@.subrange(lo as int, hi as int)[i as int] != w@[i as int]);
            return false;
        }
        i = i + 1;
    }
    assert(v@.subrange(lo as int, hi as int) =~= w@);
    true
}

/// The character of the decimal digit `d`.
pub open spec fn digit_char(d: int) -> char {
    (('0' as u32) + d) as char
}

/// The decimal numeral of `n`.
pub open spec fn decimal_text(n: nat) -> Seq<char>
    decreases n,
{
    if n < 10 {
        seq![digit_char(n as int)]
    } else {
        decimal_text(n / 10).push(digit_char((n % 10) as int))
    }
}

fn digit_str(d: u64) -> (r: &'static str)
    requires
        d < 10,
    ensures
        r@ == seq![digit_char(d as int)],
{
    proof {
        reveal_strlit("0");
        reveal_strlit("1");
        reveal_strlit("2");
        reveal_strlit("3");
        reveal_strlit("4");
        reveal_strlit("5");
        reveal_strlit("6");
        reveal_strlit("7");
        reveal_strlit("8");
        reveal_strlit("9");
    }
    let r = if d == 0 {
        "0"
    } else if d == 1 {
        "1"
    } else if d == 2 {
        "2"
    } else if d == 3 {
        "3"
    } else if d == 4 {
        "4"
    } else if d == 5 {
        "5"
    } else if d == 6 {
        "6"
    } else if d == 7 {
        "7"
    } else if d == 8 {
        "8"
    } else {
        "9"
    };
    assert(r@ =~= seq![digit_char(d as int)]);
    r
}

/// Appends the decimal numeral of `n` to `out`.
pub fn push_decimal(out: &mut String, n: u64)
    ensures
        final(out)@ == old(out)@ + decimal_text(n as nat),
    decreases n,
{
    if n >= 10 {
        push_decimal(out, n / 10);
    }
    out.append(digit_str(n % 10));
    proof {
        if n >= 10 {
            assert(decimal_text(n as nat) == decimal_text((n / 10) as nat).push(digit_char((n % 10) as int)));
        }
    }
    assert(final(out)@ =~= old(out)@ + decimal_text(n as nat)) by {
        if n < 10 {
            assert(n % 10 == n);
        }
    }
}


/// The decimal numeral of `n`, padded with leading zeros to `width`
/// characters.
pub open spec fn padded(n: nat, width: int) -> Seq<char> {
    let d = decimal_text(n);
    if d.len() < width {
        Seq::new((width - d.len()) as nat, |_i: int| '0') + d
    } else {
        d
    }
}

/// Appends the decimal numeral of `n`, padded with leading zeros to `width`
/// characters, to `out`.
pub fn push_padded(out: &mut String, n: u64, width: usize)
    ensures
        final(out)@ == old(out)@ + padded(n as nat, width as int),
{
    let mut digits = String::new();
    push_decimal(&mut digits, n);
    let len = digits.as_str().unicode_len();
    let ghost start = out@;
    let mut k = len;
    while k < width
        invariant
            len <= k,
            k <= width || k == len,
            out@ == start + Seq::new((k - len) as nat, |_i: int| '0'),
        decreases width - k,
    {
        proof {
            reveal_strlit("0");
        }
        out.append("0");
        assert(out@ =~= start + Seq::new((k + 1 - len) as nat, |_i: int| '0'));
        k = k + 1;
    }
    out.append(digits.as_str());
    assert(digits@ =~= decimal_text(n as nat));
    assert(out@ =~= start + padded(n as nat, width as int));
}


/// Whether `v[lo..hi]` holds digits only.
pub fn digits_only(v: &Vec<char>, lo: usize, hi: usize) -> (r: bool)
    requires
        lo <= hi <= v.len(),
    ensures
        r == all_digits(v@.subrange(lo as int, hi as int)),
{
    let mut i = lo;
    while i < hi
        invariant
            lo <= i <= hi <= v.len(),
            forall|j: int| lo <= j < i ==> is_digit(v@[j]),
        decreases hi - i,
    {
        if !('0' <= v[i] && v[i] <= '9') {
            assert(!is_digit(v@.subrange(lo as int, hi as int)[i - lo]));
            return false;
        }
        i = i + 1;
    }
    assert forall|j: int| 0 <= j < hi - lo implies is_digit(#[trigger] v@.subrange(lo as int, hi as int)[j]) by {
        assert(v@.subrange(lo as int, hi as int)[j] == v@[lo + j]);
    }
    true
}

} // verus!
