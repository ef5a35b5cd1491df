//! Decimal numbers in persisted text: what a digit run means, and the
//! proof that parsing a run undoes the decimal rendering of
//! [`spec_int_digits`].  The persisted formats write numbers canonically
//! (no leading zeros, at most nineteen digits), and the parser accepts
//! exactly those.

use vstd::prelude::*;

use crate::push::spec_digit;
use crate::push::spec_int_digits;
use crate::push::spec_nat_digits;

verus! {

/// Whether `c` is a decimal digit.
pub open spec fn is_digit(c: char) -> bool {
    c == '0' || c == '1' || c == '2' || c == '3' || c == '4' || c == '5' || c == '6' || c == '7'
        || c == '8' || c == '9'
}

/// The value of a digit character; zero on anything else.
pub open spec fn digit_val(c: char) -> int {
    if c == '1' {
        1
    } else if c == '2' {
        2
    } else if c == '3' {
        3
    } else if c == '4' {
        4
    } else if c == '5' {
        5
    } else if c == '6' {
        6
    } else if c == '7' {
        7
    } else if c == '8' {
        8
    } else if c == '9' {
        9
    } else {
        0
    }
}

/// How many digits the text starts with.
pub open spec fn digit_run_len(s: Seq<char>) -> int
    decreases s.len(),
{
    if s.len() == 0 || !is_digit(s[0]) {
        0
    } else {
        1 + digit_run_len(s.drop_first())
    }
}

/// The value of a pure digit sequence, most significant digit first.
pub open spec fn parse_nat(s: Seq<char>) -> int
    decreases s.len(),
{
    if s.len() == 0 {
        0
    } else {
        parse_nat(s.drop_last()) * 10 + digit_val(s.last())
    }
}

/// Ten to the `n`th.
pub open spec fn pow10(n: nat) -> int
    decreases n,
{
    if n == 0 {
        1
    } else {
        10 * pow10((n - 1) as nat)
    }
}

proof fn lemma_pow10_increases(a: nat, b: nat)
    requires
        a <= b,
    ensures
        0 < pow10(a) <= pow10(b),
    decreases b,
{
    if b > 0 {
        if a == b {
            lemma_pow10_increases((a - 1) as nat, (b - 1) as nat);
        } else {
            lemma_pow10_increases(a, (b - 1) as nat);
        }
    }
}

proof fn lemma_digit_char_props(d: int)
    requires
        0 <= d < 10,
    ensures
        spec_digit(d).len() == 1,
        is_digit(spec_digit(d)[0]),
        digit_val(spec_digit(d)[0]) == d,
        d >= 1 ==> spec_digit(d)[0] != '0',
{
    reveal_strlit("0");
    reveal_strlit("1");
    reveal_strlit("2");
    reveal_strlit("3");
    reveal_strlit("4");
    reveal_strlit("5");
    reveal_strlit("6");
    reveal_strlit("7");
    reveal_strlit("8");
    reveal_strlit("9");
}

/// The facts the parser needs of a canonical decimal rendering: it is a
/// non-empty run of digits without a leading zero, its value is the
/// rendered number, and its length bounds that number by powers of ten.
pub proof fn lemma_nat_digits_props(n: int)
    requires
        n >= 0,
    ensures
        spec_nat_digits(n).len() >= 1,
        forall|i: int| 0 <= i < spec_nat_digits(n).len() ==> is_digit(
            #[trigger] spec_nat_digits(n)[i],
        ),
        parse_nat(spec_nat_digits(n)) == n,
        n < pow10(spec_nat_digits(n).len() as nat),
        n >= 1 ==> spec_nat_digits(n)[0] != '0',
        n >= 1 ==> pow10((spec_nat_digits(n).len() - 1) as nat) <= n,
    decreases n,
{
    if n < 10 {
        lemma_digit_char_props(n);
        let ds = spec_nat_digits(n);
        assert(ds =~= spec_digit(n));
        assert(ds.drop_last() =~= Seq::<char>::empty());
        assert(parse_nat(ds) == parse_nat(Seq::<char>::empty()) * 10 + digit_val(ds.last()));
        assert(pow10(1) == 10 * pow10(0));
        assert(pow10(0) == 1);
    } else {
        lemma_nat_digits_props(n / 10);
        lemma_digit_char_props(n % 10);
        let hi = spec_nat_digits(n / 10);
        let ds = spec_nat_digits(n);
        assert(ds =~= hi + spec_digit(n % 10));
        assert(ds.drop_last() =~= hi);
        assert(ds.last() == spec_digit(n % 10)[0]);
        assert(parse_nat(ds) == parse_nat(hi) * 10 + (n % 10));
        assert(parse_nat(ds) == n);
        assert(forall|i: int|
            0 <= i < ds.len() ==> is_digit(#[trigger] ds[i]) && (i < hi.len() ==> ds[i] == hi[i]));
        let l = ds.len();
        assert(l == hi.len() + 1);
        assert(pow10(l as nat) == 10 * pow10(hi.len() as nat));
        assert(n / 10 < pow10(hi.len() as nat));
        assert(n == (n / 10) * 10 + (n % 10));
        assert(n < pow10(l as nat));
        assert(pow10((l - 1) as nat) == pow10(hi.len() as nat));
        assert(n / 10 >= 1);
        assert(pow10((hi.len() - 1) as nat) <= n / 10);
        assert(pow10(hi.len() as nat) == 10 * pow10((hi.len() - 1) as nat));
        assert(pow10(hi.len() as nat) <= (n / 10) * 10);
        assert((n / 10) * 10 <= n);
    }
}

/// A digit run splits off any all-digit prefix.
proof fn lemma_run_len_concat(a: Seq<char>, rest: Seq<char>)
    requires
        forall|i: int| 0 <= i < a.len() ==> is_digit(#[trigger] a[i]),
        rest.len() == 0 || !is_digit(rest[0]),
    ensures
        digit_run_len(a + rest) == a.len(),
    decreases a.len(),
{
    if a.len() == 0 {
        assert(a + rest =~= rest);
    } else {
        lemma_run_len_concat(a.drop_first(), rest);
        assert((a + rest)[0] == a[0]);
        assert((a + rest).drop_first() =~= a.drop_first() + rest);
    }
}

/// What a signed decimal number at the head of the text means: an
/// optional minus sign, then a canonical digit run of at most nineteen
/// digits, with the rest of the text after it.
pub open spec fn spec_parse_int(s: Seq<char>) -> Option<(int, Seq<char>)> {
    let neg = s.len() > 0 && s[0] == '-';
    let body = if neg {
        s.drop_first()
    } else {
        s
    };
    let k = digit_run_len(body);
    if k == 0 || k > 19 {
        None
    } else if k > 1 && body[0] == '0' {
        None
    } else {
        let v = parse_nat(body.take(k));
        Some(
            (
                if neg {
                    -v
                } else {
                    v
                },
                body.skip(k),
            ),
        )
    }
}

/// Parsing a number undoes its decimal rendering: the rendered number and
/// any tail that does not begin with a digit parse back to exactly that
/// number and that tail.
pub proof fn lemma_parse_int_inverts(n: int, rest: Seq<char>)
    requires
        -pow10(19) < n < pow10(19),
        rest.len() == 0 || !is_digit(rest[0]),
    ensures
        spec_parse_int(spec_int_digits(n) + rest) == Some((n, rest)),
{
    reveal_strlit("-");
    let mag = if n < 0 {
        -n
    } else {
        n
    };
    lemma_nat_digits_props(mag);
    let ds = spec_nat_digits(mag);
    let s = spec_int_digits(n) + rest;
    let body = if n < 0 {
        s.drop_first()
    } else {
        s
    };
    assert(body =~= ds + rest);
    lemma_run_len_concat(ds, rest);
    assert(digit_run_len(body) == ds.len());
    let k = ds.len() as int;
    if k > 19 {
        assert(pow10(19) <= pow10((k - 1) as nat)) by {
            lemma_pow10_increases(19, (k - 1) as nat);
        }
        assert(mag >= 1) by {
            if mag == 0 {
                lemma_digit_char_props(0);
                assert(ds =~= spec_digit(0));
            }
        }
        assert(false);
    }
    assert(body.take(k) =~= ds);
    assert(body.skip(k) =~= rest);
    if n < 0 {
        assert(s[0] == '-');
    } else {
        assert(s[0] == ds[0]);
        assert(is_digit(s[0]));
        assert(s[0] != '-');
    }
    if k > 1 {
        assert(mag >= 1) by {
            if mag == 0 {
                assert(ds =~= spec_digit(0));
                lemma_digit_char_props(0);
            }
        }
        assert(body[0] != '0');
    }
}

/// The value of a digit run never reaches ten to its length.
pub proof fn lemma_parse_nat_bound(s: Seq<char>)
    ensures
        0 <= parse_nat(s) < pow10(s.len()),
    decreases s.len(),
{
    if s.len() == 0 {
    } else {
        lemma_parse_nat_bound(s.drop_last());
        assert(0 <= digit_val(s.last()) <= 9);
        assert(pow10(s.len()) == 10 * pow10((s.len() - 1) as nat));
    }
}

/// A number at the head of the text when it fits an `i64`.
pub open spec fn spec_parse_i64(s: Seq<char>) -> Option<(i64, Seq<char>)> {
    match spec_parse_int(s) {
        None => None,
        Some(p) => if i64::MIN <= p.0 <= i64::MAX {
            Some((p.0 as i64, p.1))
        } else {
            None
        },
    }
}

/// A number at the head of the text when it fits an `i32`.
pub open spec fn spec_parse_i32(s: Seq<char>) -> Option<(i32, Seq<char>)> {
    match spec_parse_int(s) {
        None => None,
        Some(p) => if i32::MIN <= p.0 <= i32::MAX {
            Some((p.0 as i32, p.1))
        } else {
            None
        },
    }
}

fn is_digit_char(c: char) -> (b: bool)
    ensures
        b == is_digit(c),
{
    c == '0' || c == '1' || c == '2' || c == '3' || c == '4' || c == '5' || c == '6' || c == '7'
        || c == '8' || c == '9'
}

fn digit_value(c: char) -> (r: u64)
    requires
        is_digit(c),
    ensures
        r == digit_val(c),
        r <= 9,
{
    if c == '1' {
        1
    } else if c == '2' {
        2
    } else if c == '3' {
        3
    } else if c == '4' {
        4
    } else if c == '5' {
        5
    } else if c == '6' {
        6
    } else if c == '7' {
        7
    } else if c == '8' {
        8
    } else if c == '9' {
        9
    } else {
        0
    }
}

proof fn lemma_run_len_nonneg(s: Seq<char>)
    ensures
        digit_run_len(s) >= 0,
    decreases s.len(),
{
    if s.len() > 0 && is_digit(s[0]) {
        lemma_run_len_nonneg(s.drop_first());
    }
}

proof fn lemma_pow10_eighteen()
    ensures
        pow10(18) == 1000000000000000000,
{
    reveal_with_fuel(pow10, 19);
}

/// Ten to the nineteenth, written out: the bound under which every `i64`
/// falls, so its rendering has at most nineteen digits.
pub proof fn lemma_pow10_nineteen()
    ensures
        pow10(19) == 10000000000000000000,
{
    reveal_with_fuel(pow10, 20);
}

/// Parse a signed decimal number starting at position `i`: the value and
/// the position just past its digits.
pub fn parse_i64_at(v: &Vec<char>, i: usize) -> (r: Option<(i64, usize)>)
    requires
        i <= v@.len(),
    ensures
        match spec_parse_i64(v@.skip(i as int)) {
            None => r is None,
            Some(p) => {
                &&& r matches Some(q)
                &&& q.0 == p.0
                &&& i <= q.1 <= v@.len()
                &&& v@.skip(q.1 as int) == p.1
            },
        },
{
    let n = v.len();
    let neg = i < n && v[i] == '-';
    let b0 = if neg {
        i + 1
    } else {
        i
    };
    let ghost body = v@.skip(b0 as int);
    proof {
        if neg {
            assert(v@.skip(i as int).drop_first() =~= body);
        }
        assert(body.skip(0) =~= body);
    }
    let mut c: usize = 0;
    while b0 + c < n && c < 20 && is_digit_char(v[b0 + c])
        invariant
            n == v@.len(),
            b0 <= n,
            b0 + c <= n,
            c <= 20,
            body == v@.skip(b0 as int),
            digit_run_len(body) == c + digit_run_len(body.skip(c as int)),
            forall|t: int| 0 <= t < c ==> is_digit(#[trigger] body[t]),
        decreases n - (b0 + c),
    {
        proof {
            assert(body.skip(c as int)[0] == v@[b0 + c]);
            assert(body.skip(c as int).drop_first() =~= body.skip(c + 1));
        }
        c = c + 1;
    }
    proof {
        if b0 + c == n {
            assert(body.skip(c as int).len() == 0);
        }
        if c < 20 && b0 + c < n {
            assert(body.skip(c as int)[0] == v@[b0 + c]);
        }
    }
    if c == 0 {
        return None;
    }
    if c == 20 {
        proof {
            lemma_run_len_nonneg(body.skip(c as int));
            assert(digit_run_len(body) >= 20);
        }
        return None;
    }
    proof {
        assert(digit_run_len(body) == c);
    }
    if c > 1 && v[b0] == '0' {
        proof {
            assert(body[0] == '0');
        }
        return None;
    }
    let mut acc: u64 = 0;
    let mut t: usize = 0;
    while t < c
        invariant
            n == v@.len(),
            b0 + c <= n,
            t <= c,
            c <= 19,
            body == v@.skip(b0 as int),
            forall|x: int| 0 <= x < c ==> is_digit(#[trigger] body[x]),
            acc == parse_nat(body.take(t as int)),
        decreases c - t,
    {
        proof {
            lemma_parse_nat_bound(body.take(t as int));
            lemma_pow10_increases(t as nat, 18);
            lemma_pow10_eighteen();
        }
        proof {
            assert(body[t as int] == v@[b0 + t]);
        }
        let d = digit_value(v[b0 + t]);
        acc = acc * 10 + d;
        proof {
            assert(body.take(t + 1).drop_last() =~= body.take(t as int));
            assert(body.take(t + 1).last() == body[t as int]);
        }
        t = t + 1;
    }
    proof {
        assert(body.take(c as int).len() == c);
        assert(v@.skip((b0 + c) as int) =~= body.skip(c as int));
    }
    if neg {
        if acc > 9223372036854775808u64 {
            return None;
        }
        let val: i64 = if acc == 9223372036854775808u64 {
            i64::MIN
        } else {
            -(acc as i64)
        };
        Some((val, b0 + c))
    } else {
        if acc > 9223372036854775807u64 {
            return None;
        }
        Some((acc as i64, b0 + c))
    }
}

/// Parse a signed decimal number that must fit an `i32`.
pub fn parse_i32_at(v: &Vec<char>, i: usize) -> (r: Option<(i32, usize)>)
    requires
        i <= v@.len(),
    ensures
        match spec_parse_i32(v@.skip(i as int)) {
            None => r is None,
            Some(p) => {
                &&& r matches Some(q)
                &&& q.0 == p.0
                &&& i <= q.1 <= v@.len()
                &&& v@.skip(q.1 as int) == p.1
            },
        },
{
    match parse_i64_at(v, i) {
        None => None,
        Some((x, j)) => {
            if x >= -2147483648i64 && x <= 2147483647i64 {
                Some((x as i32, j))
            } else {
                None
            }
        },
    }
}

} // verus!
