//! Number tokens: decimal parsing and printing of integers, and the grammar
//! of float literals over the characters a number token may contain.
//!
//! A number token is first read as an integer; a token that is not an
//! in-range integer is accepted as a float literal when it matches the float
//! grammar, and is carried through the pipeline as its own source text.
use vstd::prelude::*;

verus! {

/// `c` is an ASCII decimal digit.
pub open spec fn is_digit(c: char) -> bool {
    48 <= c as u32 <= 57
}

/// `c` is a sign character.
pub open spec fn is_sign(c: char) -> bool {
    c == '+' || c == '-'
}

/// Every character of `s` is a decimal digit.
pub open spec fn all_digits(s: Seq<char>) -> bool {
    forall|i: int| 0 <= i < s.len() ==> is_digit(#[trigger] s[i])
}

/// The value of `s` read as a decimal numeral, most significant digit first.
pub open spec fn dec_val(s: Seq<char>) -> int
    decreases s.len(),
{
    if s.len() == 0 {
        0
    } else {
        10 * dec_val(s.drop_last()) + (s.last() as u32 - 48)
    }
}

/// The digits of `s` are worth at least as much as those of any prefix.
proof fn lemma_dec_val_prefix(s: Seq<char>, k: int)
    requires
        all_digits(s),
        0 <= k <= s.len(),
    ensures
        dec_val(s) >= dec_val(s.take(k)),
        dec_val(s) >= 0,
    decreases s.len(),
{
    if s.len() == 0 {
        assert(s.take(k) =~= s);
    } else {
        assert(all_digits(s.drop_last()));
        lemma_dec_val_prefix(s.drop_last(), if k < s.len() { k } else { k - 1 });
        if k < s.len() {
            assert(s.take(k) =~= s.drop_last().take(k));
        } else {
            assert(s.take(k) =~= s);
        }
    }
}

/// The value of `s` read as an optionally signed decimal integer, when `s`
/// has that form and the value fits in an `i32`.
pub open spec fn int_token_val(s: Seq<char>) -> Option<int> {
    let ds = if s.len() > 0 && is_sign(s[0]) {
        s.skip(1)
    } else {
        s
    };
    if ds.len() == 0 || !all_digits(ds) {
        None
    } else {
        let v = if s.len() > 0 && s[0] == '-' {
            -dec_val(ds)
        } else {
            dec_val(ds)
        };
        if -0x8000_0000 <= v <= 0x7fff_ffff {
            Some(v)
        } else {
            None
        }
    }
}

/// Reads `s` as an optionally signed decimal `i32`, if it is one in range.
pub fn parse_i32(s: &Vec<char>) -> (r: Option<i32>)
    ensures
        int_token_val(s@) matches Some(v) ==> r == Some(v as i32),
        int_token_val(s@) is None ==> r is None,
{
    let ghost whole = s@;
    let mut i: usize = 0;
    let mut neg: bool = false;
    if s.len() > 0 && (s[0] == '+' || s[0] == '-') {
        neg = s[0] == '-';
        i = 1;
    }
    let ghost ds = if whole.len() > 0 && is_sign(whole[0]) {
        whole.skip(1)
    } else {
        whole
    };
    if i == s.len() {
        return None;
    }
    let start: usize = i;
    let mut acc: u64 = 0;
    let mut j: usize = i;
    proof {
        assert(forall|m: int| 0 <= m < ds.len() ==> ds[m] == whole[m + start]);
    }
    while j < s.len()
        invariant
            start <= j <= s.len(),
            start <= 1,
            whole == s@,
            start < whole.len(),
            ds == (if whole.len() > 0 && is_sign(whole[0]) {
                whole.skip(1)
            } else {
                whole
            }),
            (start == 1) == (whole.len() > 0 && is_sign(whole[0])),
            neg == (whole.len() > 0 && whole[0] == '-'),
            ds.len() == whole.len() - start,
            forall|m: int| 0 <= m < ds.len() ==> ds[m] == whole[m + start],
            acc == dec_val(ds.take(j - start)),
            acc <= 0x8000_0000,
            all_digits(ds.take(j - start)),
        decreases s.len() - j,
    {
        let c = s[j];
        let cu = c as u32;
        if !(48 <= cu && cu <= 57) {
            assert(!is_digit(ds[j - start]));
            return None;
        }
        proof {
            let k = (j - start) as int;
            assert(ds.take(k + 1).drop_last() =~= ds.take(k));
            assert(ds.take(k + 1).last() == ds[k]);
        }
        acc = acc * 10 + (cu - 48) as u64;
        j = j + 1;
        if acc > 0x8000_0000 {
            proof {
                if all_digits(ds) {
                    lemma_dec_val_prefix(ds, j - start);
                }
            }
            return None;
        }
    }
    proof {
        assert(ds.take((s@.len() - start) as int) =~= ds);
    }
    if neg {
        assert(whole[0] == '-');
        Some((-(acc as i64)) as i32)
    } else {
        if acc > 0x7fff_ffff {
            None
        } else {
            Some(acc as i32)
        }
    }
}

/// The digit character for the value `d`.
pub open spec fn digit_char(d: int) -> char {
    ((48 + d) as u8) as char
}

/// The decimal numeral of `n`, most significant digit first.
pub open spec fn u_dec(n: int) -> Seq<char>
    decreases n,
{
    if n < 10 {
        seq![digit_char(n)]
    } else {
        u_dec(n / 10).push(digit_char(n % 10))
    }
}

/// The decimal text of `i`, with a leading `-` when `i` is negative.
pub open spec fn i32_dec(i: int) -> Seq<char> {
    if i < 0 {
        seq!['-'] + u_dec(-i)
    } else {
        u_dec(i)
    }
}

/// The decimal digits of `n`, most significant first.
fn u32_dec_chars(n: u32) -> (r: Vec<char>)
    ensures
        r@ == u_dec(n as int),
    decreases n,
{
    if n < 10 {
        let d = ((48 + n) as u8) as char;
        let mut v: Vec<char> = Vec::new();
        v.push(d);
        proof {
            assert(v@ =~= u_dec(n as int));
        }
        v
    } else {
        let mut v = u32_dec_chars(n / 10);
        let d = ((48 + n % 10) as u8) as char;
        v.push(d);
        v
    }
}

/// The decimal text of `x` as characters, with a leading `-` when negative.
pub fn i32_dec_chars(x: i32) -> (r: Vec<char>)
    ensures
        r@ == i32_dec(x as int),
{
    if x >= 0 {
        u32_dec_chars(x as u32)
    } else {
        let mag: u32 = (-(x as i64)) as u32;
        let ds = u32_dec_chars(mag);
        let mut v: Vec<char> = Vec::new();
        v.push('-');
        let mut k: usize = 0;
        while k < ds.len()
            invariant
                0 <= k <= ds.len(),
                ds@ == u_dec(mag as int),
                v@ == seq!['-'] + ds@.take(k as int),
            decreases ds.len() - k,
        {
            v.push(ds[k]);
            proof {
                assert(ds@.take(k + 1) =~= ds@.take(k as int).push(ds@[k as int]));
            }
            k = k + 1;
        }
        proof {
            assert(ds@.take(ds@.len() as int) =~= ds@);
        }
        v
    }
}

/// The decimal text of a natural number is digits only and reads back
/// as the same value.
pub proof fn lemma_dec_round_trip(n: int)
    requires
        0 <= n,
    ensures
        all_digits(u_dec(n)),
        dec_val(u_dec(n)) == n,
        u_dec(n).len() >= 1,
    decreases n,
{
    if n < 10 {
        let s = u_dec(n);
        assert(s == seq![digit_char(n)]);
        assert(is_digit(s[0]));
        assert(s.len() == 1);
        assert(s.last() == digit_char(n));
        assert(s[0] == digit_char(n));
        assert(s.drop_last() =~= Seq::<char>::empty());
        assert(dec_val(s.drop_last()) == 0);
        assert(digit_char(n) as u32 == 48 + n);
        assert(dec_val(s) == n);
    } else {
        lemma_dec_round_trip(n / 10);
        let s = u_dec(n);
        assert(s == u_dec(n / 10).push(digit_char(n % 10)));
        assert(s.drop_last() =~= u_dec(n / 10));
        assert(s.last() == digit_char(n % 10));
        assert(is_digit(s.last()));
        assert(digit_char(n % 10) as u32 == 48 + n % 10);
        assert(forall|i: int| 0 <= i < s.len() ==> is_digit(#[trigger] s[i]));
        assert(dec_val(s) == 10 * (n / 10) + n % 10);
    }
}

/// The first position at or after `i` in `s` that holds no digit.
pub open spec fn digit_run_end(s: Seq<char>, i: int) -> int
    decreases s.len() - i,
{
    if 0 <= i < s.len() && is_digit(s[i]) {
        digit_run_end(s, i + 1)
    } else {
        i
    }
}

/// From position `p`, `s` holds a valid exponent part or nothing.
pub open spec fn exp_ok(s: Seq<char>, p: int) -> bool {
    p == s.len() || (p < s.len() && s[p] == 'e' && {
        let q = if p + 1 < s.len() && is_sign(s[p + 1]) {
            p + 2
        } else {
            p + 1
        };
        let r = digit_run_end(s, q);
        r > q && r == s.len()
    })
}

/// `s` matches the float-literal grammar: an optional sign, then either
/// digits with an optional point and fraction, or a point with digits,
/// then an optional exponent.
pub open spec fn is_float_token(s: Seq<char>) -> bool {
    let n = s.len() as int;
    if n == 0 {
        false
    } else {
        let i1: int = if is_sign(s[0]) {
            1
        } else {
            0
        };
        let j = digit_run_end(s, i1);
        if j > i1 {
            let k = if j < n && s[j] == '.' {
                digit_run_end(s, j + 1)
            } else {
                j
            };
            exp_ok(s, k)
        } else if i1 < n && s[i1] == '.' {
            let m = digit_run_end(s, i1 + 1);
            m > i1 + 1 && exp_ok(s, m)
        } else {
            false
        }
    }
}

/// Computes [`digit_run_end`] over a character vector.
fn digit_run_end_exec(s: &Vec<char>, i: usize) -> (r: usize)
    requires
        i <= s.len(),
    ensures
        r == digit_run_end(s@, i as int),
        i <= r <= s.len(),
    decreases s.len() - i,
{
    if i < s.len() {
        let cu = s[i] as u32;
        if 48 <= cu && cu <= 57 {
            return digit_run_end_exec(s, i + 1);
        }
    }
    i
}

/// Decides whether `s` matches the float-literal grammar.
pub fn is_float_chars(s: &Vec<char>) -> (r: bool)
    ensures
        r == is_float_token(s@),
{
    let n = s.len();
    if n == 0 {
        return false;
    }
    let i1: usize = if s[0] == '+' || s[0] == '-' {
        1
    } else {
        0
    };
    let j = digit_run_end_exec(s, i1);
    if j > i1 {
        let k = if j < n && s[j] == '.' {
            digit_run_end_exec(s, j + 1)
        } else {
            j
        };
        exp_ok_exec(s, k)
    } else if i1 < n && s[i1] == '.' {
        let m = digit_run_end_exec(s, i1 + 1);
        m > i1 + 1 && exp_ok_exec(s, m)
    } else {
        false
    }
}

/// Decides whether `s` holds a valid exponent part or nothing from `p`.
fn exp_ok_exec(s: &Vec<char>, p: usize) -> (r: bool)
    requires
        p <= s.len(),
    ensures
        r == exp_ok(s@, p as int),
{
    if p == s.len() {
        return true;
    }
    if s[p] != 'e' {
        return false;
    }
    let q: usize = if p + 1 < s.len() && (s[p + 1] == '+' || s[p + 1] == '-') {
        p + 2
    } else {
        p + 1
    };
    let r = digit_run_end_exec(s, q);
    r > q && r == s.len()
}

} // verus!
