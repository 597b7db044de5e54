//! Verified text utilities: character-level string equality, decimal
//! rendering, and literal substring replacement, each tied to a spec-level
//! sequence function.

use vstd::prelude::*;

verus! {

/// Character-wise string equality.
pub fn str_eq(a: &str, b: &str) -> (r: bool)
    ensures
        r == (a@ == b@),
{
    let na = a.unicode_len();
    let nb = b.unicode_len();
    if na != nb {
        return false;
    }
    let mut i: usize = 0;
    while i < na
        invariant
            na == a@.len(),
            nb == b@.len(),
            na == nb,
            i <= na,
            forall|j: int| 0 <= j < i ==> a@[j] == b@[j],
        decreases na - i,
    {
        if a.get_char(i) != b.get_char(i) {
            return false;
        }
        i = i + 1;
    }
    proof {
        assert(a@ =~= b@);
    }
    true
}

/// The decimal digit character for one digit value.
pub open spec fn digit_char(d: int) -> char {
    if d == 0 {
        '0'
    } else if d == 1 {
        '1'
    } else if d == 2 {
        '2'
    } else if d == 3 {
        '3'
    } else if d == 4 {
        '4'
    } else if d == 5 {
        '5'
    } else if d == 6 {
        '6'
    } else if d == 7 {
        '7'
    } else if d == 8 {
        '8'
    } else {
        '9'
    }
}

/// Decimal rendering of a non-negative integer, most significant digit first.
pub open spec fn dec_str(n: int) -> Seq<char>
    decreases n,
{
    if n < 10 {
        seq![digit_char(n)]
    } else {
        dec_str(n / 10).push(digit_char(n % 10))
    }
}

fn digit_str(d: u64) -> (r: &'static str)
    requires
        d < 10,
    ensures
        r@ == seq![digit_char(d as int)],
{
    proof {
        reveal_strlit("0");
        reveal_strlit("1");
        reveal_strlit("2");
        reveal_strlit("3");
        reveal_strlit("4");
        reveal_strlit("5");
        reveal_strlit("6");
        reveal_strlit("7");
        reveal_strlit("8");
        reveal_strlit("9");
    }
    let r = if d == 0 {
        "0"
    } else if d == 1 {
        "1"
    } else if d == 2 {
        "2"
    } else if d == 3 {
        "3"
    } else if d == 4 {
        "4"
    } else if d == 5 {
        "5"
    } else if d == 6 {
        "6"
    } else if d == 7 {
        "7"
    } else if d == 8 {
        "8"
    } else {
        "9"
    };
    proof {
        assert(r@ =~= seq![digit_char(d as int)]);
    }
    r
}

/// Decimal rendering of a `u64`.
pub fn u64_to_string(n: u64) -> (r: String)
    ensures
        r@ == dec_str(n as int),
    decreases n,
{
    if n < 10 {
        digit_str(n).to_owned()
    } else {
        let mut s = u64_to_string(n / 10);
        s.append(digit_str(n % 10));
        proof {
            assert(s@ =~= dec_str(n as int));
        }
        s
    }
}

/// A decimal digit character.
pub open spec fn is_digit(c: char) -> bool {
    48 <= c as int && c as int <= 57
}

/// The digit's numeric value.
pub open spec fn digit_of(c: char) -> int {
    c as int - 48
}

/// The number a run of digit characters denotes.
pub open spec fn digits_value(s: Seq<char>) -> int
    decreases s.len(),
{
    if s.len() == 0 {
        0
    } else {
        digits_value(s.drop_last()) * 10 + digit_of(s.last())
    }
}

pub open spec fn all_digits(s: Seq<char>) -> bool {
    forall|i: int| 0 <= i < s.len() ==> is_digit(#[trigger] s[i])
}

/// What `str::parse` gives for an unsigned 64-bit integer: an optional plus
/// sign, then at least one digit, the value within range.
pub open spec fn parse_u64_spec(s: Seq<char>) -> Option<u64> {
    let body = if s.len() > 0 && s[0] == '+' {
        s.drop_first()
    } else {
        s
    };
    if body.len() > 0 && all_digits(body) && digits_value(body) <= u64::MAX {
        Some(digits_value(body) as u64)
    } else {
        None
    }
}

/// What `str::parse` gives for a signed 64-bit integer: an optional sign,
/// then at least one digit, the value within range.
pub open spec fn parse_i64_spec(s: Seq<char>) -> Option<i64> {
    if s.len() > 0 && s[0] == '-' {
        let body = s.drop_first();
        if body.len() > 0 && all_digits(body) && -digits_value(body) >= i64::MIN {
            Some((-digits_value(body)) as i64)
        } else {
            None
        }
    } else {
        let body = if s.len() > 0 && s[0] == '+' {
            s.drop_first()
        } else {
            s
        };
        if body.len() > 0 && all_digits(body) && digits_value(body) <= i64::MAX {
            Some(digits_value(body) as i64)
        } else {
            None
        }
    }
}

/// The digits of `s` from position `from` on, as a number no greater than
/// `bound`, or nothing when a character is no digit or the value is too
/// large.
fn parse_digits(s: &str, from: usize, bound: u64) -> (r: Option<u64>)
    requires
        from <= s@.len(),
    ensures
        ({
            let body = s@.subrange(from as int, s@.len() as int);
            match r {
                Some(v) => body.len() > 0 && all_digits(body) && digits_value(body) == v && v
                    <= bound,
                None => body.len() == 0 || !all_digits(body) || digits_value(body) > bound,
            }
        }),
{
    let ghost body = s@.subrange(from as int, s@.len() as int);
    let n = s.unicode_len();
    if from == n {
        return None;
    }
    let mut acc: u64 = 0;
    let mut i = from;
    while i < n
        invariant
            n == s@.len(),
            from < n,
            from <= i <= n,
            body == s@.subrange(from as int, s@.len() as int),
            all_digits(s@.subrange(from as int, i as int)),
            acc == digits_value(s@.subrange(from as int, i as int)),
            acc <= bound,
        decreases n - i,
    {
        let c = s.get_char(i);
        let u = c as u32;
        if u < 48 || u > 57 {
            proof {
                assert(body[i - from] == s@[i as int]);
                assert(!is_digit(s@[i as int]));
            }
            return None;
        }
        let d = (u - 48) as u64;
        let ghost pre = s@.subrange(from as int, i as int);
        let ghost cur = s@.subrange(from as int, i + 1);
        proof {
            assert(cur.drop_last() =~= pre);
            assert(cur.last() == s@[i as int]);
        }
        let next = acc as u128 * 10 + d as u128;
        if next > bound as u128 {
            proof {
                assert(body.subrange(0, i + 1 - from) =~= cur);
                assert(digits_value(cur) == next);
                lemma_digits_overflow(body, i + 1 - from, bound);
            }
            return None;
        }
        acc = next as u64;
        i = i + 1;
    }
    proof {
        assert(s@.subrange(from as int, i as int) =~= body);
    }
    Some(acc)
}

/// Once a digit prefix exceeds the bound, the whole run does.
proof fn lemma_digits_overflow(body: Seq<char>, k: int, bound: u64)
    requires
        0 < k <= body.len(),
        digits_value(body.subrange(0, k)) > bound,
    ensures
        !all_digits(body) || digits_value(body) > bound,
    decreases body.len() - k,
{
    if k < body.len() {
        if all_digits(body) {
            let a = body.subrange(0, k);
            let b = body.subrange(0, k + 1);
            assert(b.drop_last() =~= a);
            assert(b.last() == body[k]);
            assert(is_digit(body[k]));
            lemma_digits_overflow(body, k + 1, bound);
        }
    } else {
        assert(body.subrange(0, k) =~= body);
    }
}

/// `str::parse` for `u64`.
pub fn parse_u64_str(s: &str) -> (r: Option<u64>)
    ensures
        r == parse_u64_spec(s@),
{
    let n = s.unicode_len();
    let from: usize = if n > 0 && s.get_char(0) as u32 == 43 {
        1
    } else {
        0
    };
    proof {
        if n > 0 {
            assert(s@[0] as u32 == 43 <==> s@[0] == '+');
        }
        if from == 1 {
            assert(s@.subrange(1, n as int) =~= s@.drop_first());
        } else {
            assert(s@.subrange(0, n as int) =~= s@);
        }
    }
    parse_digits(s, from, u64::MAX)
}

/// `str::parse` for `i64`.
pub fn parse_i64_str(s: &str) -> (r: Option<i64>)
    ensures
        r == parse_i64_spec(s@),
{
    let n = s.unicode_len();
    if n > 0 && s.get_char(0) as u32 == 45 {
        proof {
            assert(s@[0] as u32 == 45 <==> s@[0] == '-');
            assert(s@.subrange(1, n as int) =~= s@.drop_first());
        }
        match parse_digits(s, 1, 9223372036854775808u64) {
            Some(v) => {
                if v == 9223372036854775808u64 {
                    Some(i64::MIN)
                } else {
                    Some(-(v as i64))
                }
            },
            None => None,
        }
    } else {
        proof {
            if n > 0 {
                assert(s@[0] as u32 == 45 <==> s@[0] == '-');
                assert(s@[0] as u32 == 43 <==> s@[0] == '+');
            }
        }
        let from: usize = if n > 0 && s.get_char(0) as u32 == 43 {
            1
        } else {
            0
        };
        proof {
            if from == 1 {
                assert(s@.subrange(1, n as int) =~= s@.drop_first());
            } else {
                assert(s@.subrange(0, n as int) =~= s@);
            }
        }
        match parse_digits(s, from, 9223372036854775807u64) {
            Some(v) => Some(v as i64),
            None => None,
        }
    }
}

/// The pattern `p` occurs in `s` starting at position `i`.
pub open spec fn match_at(s: Seq<char>, p: Seq<char>, i: int) -> bool {
    0 <= i && i + p.len() <= s.len() && s.subrange(i, i + p.len() as int) == p
}

pub proof fn lemma_match_at_chars(s: Seq<char>, p: Seq<char>, i: int)
    requires
        match_at(s, p, i),
    ensures
        forall|k: int| 0 <= k < p.len() ==> s[i + k] == p[k],
{
    assert forall|k: int| 0 <= k < p.len() implies s[i + k] == p[k] by {
        assert(s.subrange(i, i + p.len() as int)[k] == s[i + k]);
    }
}

/// Whether `p` occurs in `s` at `i`, checked character by character.
pub fn has_match_at(s: &str, p: &str, i: usize) -> (r: bool)
    requires
        i <= s@.len(),
    ensures
        r == match_at(s@, p@, i as int),
{
    let sn = s.unicode_len();
    let pn = p.unicode_len();
    if sn - i < pn {
        return false;
    }
    let mut j: usize = 0;
    while j < pn
        invariant
            sn == s@.len(),
            pn == p@.len(),
            i + pn <= sn,
            j <= pn,
            forall|k: int| 0 <= k < j ==> s@[i + k] == p@[k],
        decreases pn - j,
    {
        if s.get_char(i + j) != p.get_char(j) {
            proof {
                assert(!match_at(s@, p@, i as int)) by {
                    if match_at(s@, p@, i as int) {
                        assert(s@.subrange(i as int, i + p@.len() as int)[j as int] == s@[i + j]);
                    }
                }
            }
            return false;
        }
        j = j + 1;
    }
    proof {
        assert(s@.subrange(i as int, i + p@.len() as int) =~= p@);
    }
    true
}

/// Replacement of every left-to-right non-overlapping occurrence of `p` by
/// `r`, scanning from position `i`.
pub open spec fn replace_from(s: Seq<char>, p: Seq<char>, r: Seq<char>, i: int) -> Seq<char>
    decreases s.len() - i,
{
    if i < 0 || i >= s.len() {
        Seq::empty()
    } else if p.len() > 0 && match_at(s, p, i) {
        r + replace_from(s, p, r, i + p.len())
    } else {
        seq![s[i]] + replace_from(s, p, r, i + 1)
    }
}

/// `str::replace`: every non-overlapping occurrence of `p` replaced by `r`.
pub fn str_replace(s: &str, p: &str, r: &str) -> (out: String)
    requires
        p@.len() > 0,
    ensures
        out@ == replace_from(s@, p@, r@, 0),
{
    let sn = s.unicode_len();
    let pn = p.unicode_len();
    let mut out = String::new();
    let mut i: usize = 0;
    while i < sn
        invariant
            sn == s@.len(),
            pn == p@.len(),
            pn > 0,
            i <= sn,
            replace_from(s@, p@, r@, 0) == out@ + replace_from(s@, p@, r@, i as int),
        decreases sn - i,
    {
        if has_match_at(s, p, i) {
            out.append(r);
            i = i + pn;
        } else {
            out.append(s.substring_char(i, i + 1));
            proof {
                assert(s@.subrange(i as int, i + 1) =~= seq![s@[i as int]]);
            }
            i = i + 1;
        }
    }
    proof {
        assert(out@ =~= out@ + replace_from(s@, p@, r@, sn as int));
    }
    out
}

/// Replacement of only the first occurrence of `p` by `r`, scanning from `i`.
pub open spec fn replace_first_from(s: Seq<char>, p: Seq<char>, r: Seq<char>, i: int) -> Seq<
    char,
>
    decreases s.len() - i,
{
    if i < 0 || i >= s.len() {
        Seq::empty()
    } else if match_at(s, p, i) {
        r + s.subrange(i + p.len(), s.len() as int)
    } else {
        seq![s[i]] + replace_first_from(s, p, r, i + 1)
    }
}

/// `str::replacen` with count one: only the first occurrence replaced.
pub fn str_replace_first(s: &str, p: &str, r: &str) -> (out: String)
    requires
        p@.len() > 0,
    ensures
        out@ == replace_first_from(s@, p@, r@, 0),
{
    let sn = s.unicode_len();
    let pn = p.unicode_len();
    let mut out = String::new();
    let mut i: usize = 0;
    while i < sn
        invariant
            sn == s@.len(),
            pn == p@.len(),
            pn > 0,
            i <= sn,
            replace_first_from(s@, p@, r@, 0) == out@ + replace_first_from(s@, p@, r@, i as int),
        decreases sn - i,
    {
        if has_match_at(s, p, i) {
            out.append(r);
            out.append(s.substring_char(i + pn, sn));
            return out;
        } else {
            out.append(s.substring_char(i, i + 1));
            proof {
                assert(s@.subrange(i as int, i + 1) =~= seq![s@[i as int]]);
            }
            i = i + 1;
        }
    }
    proof {
        assert(out@ =~= out@ + replace_first_from(s@, p@, r@, sn as int));
    }
    out
}

} // verus!
