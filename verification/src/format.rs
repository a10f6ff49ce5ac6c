//! Text shown in the properties panel: file sizes and PDF dates.
use vstd::prelude::*;
use crate::text::{chars_of, decimal, digit_char, is_digit, push_decimal, push_signed_decimal, push_str, signed_decimal, string_of};

verus! {

/// `2^e`.
pub open spec fn pow2n(e: nat) -> nat
    decreases e,
{
    if e == 0 {
        1
    } else {
        2 * pow2n((e - 1) as nat)
    }
}

/// `2^53`: integers below it are exact in an `f64`.
pub const F64_EXACT_LIMIT: u128 = 0x20_0000_0000_0000;

/// How many low bits of `n` an `f64` cannot hold (it keeps 53 significant bits).
pub open spec fn f64_shift(n: nat) -> nat
    decreases n,
{
    if n < F64_EXACT_LIMIT {
        0
    } else {
        1 + f64_shift(n / 2)
    }
}

/// `a / m` rounded to the nearest integer, ties to even.
pub open spec fn round_half_even(a: nat, m: nat) -> nat
    recommends
        m > 0,
{
    let q = a / m;
    let r = a % m;
    if 2 * r > m || (2 * r == m && q % 2 == 1) {
        q + 1
    } else {
        q
    }
}

/// The value of `n as f64`: `n` rounded to 53 significant bits, ties to even.
pub open spec fn f64_value(n: nat) -> nat {
    let m = pow2n(f64_shift(n));
    round_half_even(n, m) * m
}

/// `1 MiB`.
pub const MIB: u64 = 1048576;

/// `1 KiB`.
pub const KIB: u64 = 1024;

/// Human-readable size of a file of `bytes` bytes: megabytes with one
/// decimal from 1 MiB up, whole kilobytes from 1 KiB up, else bytes. The
/// size is taken as an `f64`, divided, and rounded to the shown digits,
/// ties to even.
pub open spec fn size_text(bytes: nat) -> Seq<char> {
    if bytes >= MIB {
        let tenths = round_half_even(10 * f64_value(bytes), MIB as nat);
        decimal(tenths / 10) + seq!['.'] + decimal(tenths % 10) + " MB"@
    } else if bytes >= KIB {
        decimal(round_half_even(bytes, KIB as nat)) + " KB"@
    } else {
        decimal(bytes) + " B"@
    }
}

/// `n as f64` over integers: the rounded value, returned as a multiple of
/// `m` (a power of two) together with `m`.
fn f64_parts(n: u64) -> (r: (u128, u128))
    ensures
        r.1 == pow2n(f64_shift(n as nat)),
        r.0 == round_half_even(n as nat, r.1 as nat),
        r.0 <= F64_EXACT_LIMIT,
        r.1 < 4096,
        r.1 > 0,
{
    let nn: u128 = n as u128;
    let mut m: u128 = 1;
    let ghost mut e: nat = 0;
    assert(pow2n(0) == 1);
    assert(nn / 1 == nn);
    loop
        invariant
            nn == n,
            m == pow2n(e),
            m >= 1,
            m < 4096,
            f64_shift(n as nat) == e + f64_shift((nn / m) as nat),
        ensures
            nn / m < F64_EXACT_LIMIT,
        decreases nn / m,
    {
        let cur = nn / m;
        if cur < F64_EXACT_LIMIT {
            break;
        }
        proof {
            assert(m * F64_EXACT_LIMIT <= nn) by (nonlinear_arith)
                requires
                    cur == nn / m,
                    cur >= F64_EXACT_LIMIT,
                    m >= 1,
            {
                assert(nn >= m * cur);
            }
            assert(m < 2048) by (nonlinear_arith)
                requires
                    m * F64_EXACT_LIMIT <= nn,
                    nn < 0x1_0000_0000_0000_0000u128,
            ;
            vstd::arithmetic::div_mod::lemma_div_denominator(nn as int, m as int, 2);
            assert(f64_shift(cur as nat) == 1 + f64_shift((cur / 2) as nat));
        }
        m = m * 2;
        proof {
            e = e + 1;
            assert(pow2n(e) == 2 * pow2n((e - 1) as nat));
            vstd::arithmetic::div_mod::lemma_div_is_ordered_by_denominator(nn as int, (m / 2) as int, m as int);
            assert(nn / m < nn / (m / 2)) by {
                vstd::arithmetic::div_mod::lemma_div_denominator(nn as int, (m / 2) as int, 2);
            }
        }
    }
    let q = nn / m;
    let r = nn % m;
    assert(f64_shift((nn / m) as nat) == 0);
    let rounded = if 2 * r > m || (2 * r == m && q % 2 == 1) { q + 1 } else { q };
    (rounded, m)
}

/// Human-readable file size (see [`size_text`]).
pub fn fmt_size(bytes: u64) -> (s: String)
    ensures
        s@ == size_text(bytes as nat),
{
    let mut out: Vec<char> = Vec::new();
    if bytes >= MIB {
        let (rounded, m) = f64_parts(bytes);
        proof {
            assert(rounded * m <= 0x2_0000_0000_0000_0000u128) by (nonlinear_arith)
                requires
                    rounded <= F64_EXACT_LIMIT,
                    m < 4096,
            ;
        }
        let value: u128 = rounded * m;
        let scaled: u128 = 10 * value;
        let q = scaled / (MIB as u128);
        let r = scaled % (MIB as u128);
        assert(q < 0x10_0000_0000_0000u128) by (nonlinear_arith)
            requires
                q == scaled / 1048576,
                scaled <= 0x14_0000_0000_0000_0000u128,
        ;
        let tenths: u128 = if 2 * r > MIB as u128 || (2 * r == MIB as u128 && q % 2 == 1) { q + 1 } else { q };
        push_decimal(&mut out, (tenths / 10) as u64);
        out.push('.');
        push_decimal(&mut out, (tenths % 10) as u64);
        out.push(' ');
        out.push('M');
        out.push('B');
        proof {
            reveal_strlit(" MB");
        }
        assert(out@ =~= size_text(bytes as nat));
    } else if bytes >= KIB {
        let q = bytes / KIB;
        let r = bytes % KIB;
        let kb: u64 = if 2 * r > KIB || (2 * r == KIB && q % 2 == 1) { q + 1 } else { q };
        push_decimal(&mut out, kb);
        out.push(' ');
        out.push('K');
        out.push('B');
        proof {
            reveal_strlit(" KB");
        }
        assert(out@ =~= size_text(bytes as nat));
    } else {
        push_decimal(&mut out, bytes);
        out.push(' ');
        out.push('B');
        proof {
            reveal_strlit(" B");
        }
        assert(out@ =~= size_text(bytes as nat));
    }
    string_of(&out)
}


/// `s` without a leading `D:`, if it has one.
pub open spec fn strip_date_prefix(s: Seq<char>) -> Seq<char> {
    if s.len() >= 2 && s[0] == 'D' && s[1] == ':' {
        s.subrange(2, s.len() as int)
    } else {
        s
    }
}

/// Length of the run of ASCII digits that `t` starts with.
pub open spec fn digit_run(t: Seq<char>) -> nat
    decreases t.len(),
{
    if t.len() > 0 && is_digit(t[0]) {
        1 + digit_run(t.drop_first())
    } else {
        0
    }
}

/// A PDF date (`D:YYYYMMDDHHmmSS...`) as `YYYY-MM-DD HH:MM`, or `YYYY-MM-DD`
/// when only the date is there; anything else unchanged.
pub open spec fn date_text(s: Seq<char>) -> Seq<char> {
    let t = strip_date_prefix(s);
    let d = t.take(digit_run(t) as int);
    if d.len() >= 12 {
        d.subrange(0, 4) + seq!['-'] + d.subrange(4, 6) + seq!['-'] + d.subrange(6, 8) + seq![' ']
            + d.subrange(8, 10) + seq![':'] + d.subrange(10, 12)
    } else if d.len() >= 8 {
        d.subrange(0, 4) + seq!['-'] + d.subrange(4, 6) + seq!['-'] + d.subrange(6, 8)
    } else {
        s
    }
}

proof fn lemma_digit_run(t: Seq<char>, k: nat)
    requires
        k <= t.len(),
        forall|i: int| 0 <= i < k ==> is_digit(#[trigger] t[i]),
        k == t.len() || !is_digit(t[k as int]),
    ensures
        digit_run(t) == k,
    decreases k,
{
    if k > 0 {
        let u = t.drop_first();
        assert forall|i: int| 0 <= i < k - 1 implies is_digit(#[trigger] u[i]) by {
            assert(u[i] == t[i + 1]);
        }
        if k < t.len() {
            assert(u[k - 1] == t[k as int]);
        }
        lemma_digit_run(u, (k - 1) as nat);
    } else if t.len() > 0 {
        assert(!is_digit(t[0]));
    }
}

/// Appends `v[from..to]` to `out`.
fn push_range(out: &mut Vec<char>, v: &Vec<char>, from: usize, to: usize)
    requires
        from <= to <= v@.len(),
    ensures
        final(out)@ == old(out)@ + v@.subrange(from as int, to as int),
{
    let mut i = from;
    while i < to
        invariant
            from <= i <= to <= v@.len(),
            out@ == old(out)@ + v@.subrange(from as int, i as int),
        decreases to - i,
    {
        out.push(v[i]);
        i = i + 1;
        assert(v@.subrange(from as int, i as int) =~= v@.subrange(from as int, i - 1).push(v@[i - 1]));
    }
}

/// Reformat a PDF date (see [`date_text`]).
#[verifier::rlimit(40)]
pub fn fmt_pdf_date(s: &str) -> (r: String)
    ensures
        r@ == date_text(s@),
{
    let c = chars_of(s);
    let start: usize = if c.len() >= 2 && c[0] == 'D' && c[1] == ':' { 2 } else { 0 };
    let ghost t = strip_date_prefix(s@);
    assert(t =~= c@.subrange(start as int, c@.len() as int));
    let mut end = start;
    while end < c.len() && '0' <= c[end] && c[end] <= '9'
        invariant
            start <= end <= c@.len(),
            t == c@.subrange(start as int, c@.len() as int),
            forall|i: int| start <= i < end ==> is_digit(#[trigger] c@[i]),
        decreases c@.len() - end,
    {
        end = end + 1;
    }
    let n = end - start;
    proof {
        assert forall|i: int| 0 <= i < n implies is_digit(#[trigger] t[i]) by {
            assert(t[i] == c@[start + i]);
        }
        if n < t.len() {
            assert(t[n as int] == c@[end as int]);
        }
        lemma_digit_run(t, n as nat);
    }
    let ghost d = t.take(n as int);
    let ghost cs = c@;
    proof {
        if n >= 8 {
            assert(d.subrange(0, 4) =~= cs.subrange(start as int, start + 4));
            assert(d.subrange(4, 6) =~= cs.subrange(start + 4, start + 6));
            assert(d.subrange(6, 8) =~= cs.subrange(start + 6, start + 8));
        }
        if n >= 12 {
            assert(d.subrange(8, 10) =~= cs.subrange(start + 8, start + 10));
            assert(d.subrange(10, 12) =~= cs.subrange(start + 10, start + 12));
        }
    }
    let mut out: Vec<char> = Vec::new();
    if n >= 12 {
        push_range(&mut out, &c, start, start + 4);
        out.push('-');
        push_range(&mut out, &c, start + 4, start + 6);
        out.push('-');
        push_range(&mut out, &c, start + 6, start + 8);
        out.push(' ');
        push_range(&mut out, &c, start + 8, start + 10);
        out.push(':');
        push_range(&mut out, &c, start + 10, start + 12);
        assert(out@ =~= date_text(s@));
        string_of(&out)
    } else if n >= 8 {
        push_range(&mut out, &c, start, start + 4);
        out.push('-');
        push_range(&mut out, &c, start + 4, start + 6);
        out.push('-');
        push_range(&mut out, &c, start + 6, start + 8);
        assert(out@ =~= date_text(s@));
        string_of(&out)
    } else {
        String::from_str(s)
    }
}


/// The status line of a document: its name and page count.
pub open spec fn pages_status_text(name: Seq<char>, total: int) -> Seq<char> {
    name + "  —  "@ + signed_decimal(total) + " pages"@
}

/// The status line of a document with `total` pages.
pub fn pages_status(name: &str, total: i32) -> (r: String)
    ensures
        r@ == pages_status_text(name@, total as int),
{
    let mut out: Vec<char> = Vec::new();
    push_str(&mut out, name);
    push_str(&mut out, "  —  ");
    push_signed_decimal(&mut out, total as i64);
    push_str(&mut out, " pages");
    string_of(&out)
}

/// The status line once a document has opened, before its pages load.
pub fn opened_status(name: &str, total: i32) -> (r: String)
    ensures
        r@ == pages_status_text(name@, total as int) + "  (scroll to load)"@,
{
    let mut out: Vec<char> = Vec::new();
    push_str(&mut out, name);
    push_str(&mut out, "  —  ");
    push_signed_decimal(&mut out, total as i64);
    push_str(&mut out, " pages");
    push_str(&mut out, "  (scroll to load)");
    string_of(&out)
}

} // verus!
