//! Reading the player's answers at the prompts: trimming white space, and
//! decimal numbers as `str::parse` reads them.
use vstd::prelude::*;

verus! {

/// Unicode `White_Space`, the characters that `str::trim` removes.
pub open spec fn is_white(c: char) -> bool {
    let n = c as u32;
    (0x09 <= n <= 0x0d) || n == 0x20 || n == 0x85 || n == 0xa0 || n == 0x1680 || (0x2000 <= n
        <= 0x200a) || n == 0x2028 || n == 0x2029 || n == 0x202f || n == 0x205f || n == 0x3000
}

/// Whether `c` is Unicode white space.
pub fn white(c: char) -> (r: bool)
    ensures
        r == is_white(c),
{
    let n = c as u32;
    (0x09 <= n && n <= 0x0d) || n == 0x20 || n == 0x85 || n == 0xa0 || n == 0x1680 || (0x2000 <= n
        && n <= 0x200a) || n == 0x2028 || n == 0x2029 || n == 0x202f || n == 0x205f || n == 0x3000
}

/// `s` without its leading white space.
pub open spec fn trim_start(s: Seq<char>) -> Seq<char>
    decreases s.len(),
{
    if s.len() > 0 && is_white(s[0]) {
        trim_start(s.drop_first())
    } else {
        s
    }
}

/// `s` without its trailing white space.
pub open spec fn trim_end(s: Seq<char>) -> Seq<char>
    decreases s.len(),
{
    if s.len() > 0 && is_white(s.last()) {
        trim_end(s.drop_last())
    } else {
        s
    }
}

/// `s` without white space at either end, as `str::trim` gives it.
pub open spec fn trimmed(s: Seq<char>) -> Seq<char> {
    trim_end(trim_start(s))
}

/// `s` without white space at either end.
pub fn trim(s: &Vec<char>) -> (r: Vec<char>)
    ensures
        r@ == trimmed(s@),
{
    let mut a: usize = 0;
    assert(s@.skip(0) =~= s@);
    while a < s.len() && white(s[a])
        invariant
            a <= s.len(),
            trim_start(s@) == trim_start(s@.skip(a as int)),
        decreases s.len() - a,
    {
        assert(s@.skip(a as int).drop_first() =~= s@.skip(a + 1));
        a = a + 1;
    }
    let ghost u = s@.skip(a as int);
    assert(trim_start(u) == u);
    let mut b: usize = s.len();
    assert(u.take((b - a) as int) =~= u);
    while b > a && white(s[b - 1])
        invariant
            a <= b <= s.len(),
            u == s@.skip(a as int),
            trim_end(u) == trim_end(u.take(b - a)),
        decreases b,
    {
        assert(u.take(b - a).drop_last() =~= u.take(b - a - 1));
        assert(u.take(b - a).last() == s@[b - 1]);
        b = b - 1;
    }
    let mut r: Vec<char> = Vec::new();
    let mut k: usize = a;
    while k < b
        invariant
            a <= k <= b,
            b <= s.len(),
            r@ == s@.subrange(a as int, k as int),
        decreases b - k,
    {
        r.push(s[k]);
        k = k + 1;
        assert(r@ =~= s@.subrange(a as int, k as int));
    }
    assert(r@ =~= u.take(b - a));
    r
}

/// A decimal digit.
pub open spec fn is_digit(c: char) -> bool {
    '0' <= c <= '9'
}

/// The value of a string of decimal digits.
pub open spec fn digits_value(s: Seq<char>) -> int
    decreases s.len(),
{
    if s.len() == 0 {
        0
    } else {
        digits_value(s.drop_last()) * 10 + ((s.last() as u32) - ('0' as u32))
    }
}

/// All characters are digits, and there is at least one.
pub open spec fn all_digits(s: Seq<char>) -> bool {
    s.len() > 0 && forall|i: int| 0 <= i < s.len() ==> is_digit(#[trigger] s[i])
}

/// The number that `s` spells as `str::parse` reads an integer: an optional
/// `+` (or `-` when `signed`) and at least one decimal digit, nothing else.
pub open spec fn spelled_number(s: Seq<char>, signed: bool) -> Option<int> {
    if s.len() > 0 && s[0] == '+' && all_digits(s.drop_first()) {
        Some(digits_value(s.drop_first()))
    } else if signed && s.len() > 0 && s[0] == '-' && all_digits(s.drop_first()) {
        Some(-digits_value(s.drop_first()))
    } else if all_digits(s) {
        Some(digits_value(s))
    } else {
        None
    }
}

proof fn lemma_digits_nonneg(s: Seq<char>)
    requires
        forall|i: int| 0 <= i < s.len() ==> is_digit(#[trigger] s[i]),
    ensures
        digits_value(s) >= 0,
    decreases s.len(),
{
    if s.len() > 0 {
        lemma_digits_nonneg(s.drop_last());
    }
}

/// The value of the digits `s[from..]`, when it is at most `limit`.
fn digits_up_to(s: &Vec<char>, from: usize, limit: u64) -> (r: Option<u64>)
    requires
        from <= s.len(),
        limit >= 9,
    ensures
        all_digits(s@.skip(from as int)) && digits_value(s@.skip(from as int)) <= limit ==> r == Some(
            digits_value(s@.skip(from as int)) as u64,
        ),
        !(all_digits(s@.skip(from as int)) && digits_value(s@.skip(from as int)) <= limit) ==> r is None,
        r matches Some(v) ==> v <= limit && digits_value(s@.skip(from as int)) == v,
{
    let ghost t = s@.skip(from as int);
    if from == s.len() {
        return None;
    }
    let mut v: u64 = 0;
    let mut k: usize = from;
    let mut over = false;
    while k < s.len()
        invariant
            from <= k <= s.len(),
            t == s@.skip(from as int),
            forall|i: int| 0 <= i < k - from ==> is_digit(#[trigger] t[i]),
            limit >= 9,
            !over ==> v == digits_value(t.take(k - from)) && v <= limit,
            over ==> digits_value(t.take(k - from)) > limit,
        decreases s.len() - k,
    {
        let c = s[k];
        if !('0' <= c && c <= '9') {
            assert(!is_digit(t[k - from]));
            return None;
        }
        proof {
            assert(t.take(k - from + 1).drop_last() =~= t.take(k - from));
            assert(t.take(k - from + 1).last() == c);
            lemma_digits_nonneg(t.take(k - from));
        }
        let d = (c as u32 - '0' as u32) as u64;
        if !over {
            if v > (limit - d) / 10 {
                over = true;
                assert(v * 10 + d > limit) by (nonlinear_arith)
                    requires
                        v > (limit - d) / 10,
                        d <= 9,
                        d <= limit;
            } else {
                assert(v * 10 + d <= limit) by (nonlinear_arith)
                    requires
                        v <= (limit - d) / 10,
                        d <= limit;
                v = v * 10 + d;
            }
        } else {
            let ghost x = digits_value(t.take(k - from));
            assert(x * 10 + d > limit) by (nonlinear_arith)
                requires
                    x > limit,
                    limit >= 0,
                    d >= 0;
        }
        k = k + 1;
    }
    assert(t.take(s.len() - from) =~= t);
    proof {
        lemma_digits_nonneg(t);
    }
    if over {
        None
    } else {
        Some(v)
    }
}

/// An unsigned number is never negative.
pub proof fn lemma_spelled_nonneg(s: Seq<char>)
    ensures
        spelled_number(s, false) matches Some(n) ==> n >= 0,
{
    if s.len() > 0 && s[0] == '+' && all_digits(s.drop_first()) {
        lemma_digits_nonneg(s.drop_first());
    } else if all_digits(s) {
        lemma_digits_nonneg(s);
    }
}

/// `s` read as an unsigned decimal number no greater than `limit`: `None`
/// when `s` is not one, or is greater.
pub fn parse_unsigned(s: &Vec<char>, limit: u64) -> (r: Option<u64>)
    requires
        limit >= 9,
    ensures
        r == (match spelled_number(s@, false) {
            Some(n) => if n <= limit {
                Some(n as u64)
            } else {
                None
            },
            None => None,
        }),
{
    if s.len() > 0 && s[0] == '+' {
        assert(s@.skip(1) =~= s@.drop_first());
        let r = digits_up_to(s, 1, limit);
        proof {
            if !all_digits(s@.drop_first()) {
                assert(!all_digits(s@)) by {
                    assert(!is_digit(s@[0]));
                }
            }
        }
        r
    } else {
        assert(s@.skip(0) =~= s@);
        digits_up_to(s, 0, limit)
    }
}

/// `s` read as an `i32` the way `str::parse::<i32>` reads it: `None` when
/// it spells no number or one outside `i32`.
pub fn parse_i32(s: &Vec<char>) -> (r: Option<i32>)
    ensures
        r == (match spelled_number(s@, true) {
            Some(n) => if i32::MIN <= n <= i32::MAX {
                Some(n as i32)
            } else {
                None
            },
            None => None,
        }),
{
    if s.len() > 0 && s[0] == '-' {
        assert(s@.skip(1) =~= s@.drop_first());
        assert(!all_digits(s@)) by {
            assert(!is_digit(s@[0]));
        }
        match digits_up_to(s, 1, 0x8000_0000) {
            Some(v) => {
                assert(v <= 0x8000_0000);
                let n: i64 = 0 - (v as i64);
                Some(n as i32)
            },
            None => None,
        }
    } else {
        proof {
            lemma_spelled_nonneg(s@);
        }
        let r = parse_unsigned(s, 0x7fff_ffff);
        match r {
            Some(v) => Some(v as i32),
            None => None,
        }
    }
}

/// The decimal digits of `n`, as `usize::to_string` writes them.
pub open spec fn decimal_digits(n: nat) -> Seq<char>
    decreases n,
{
    if n < 10 {
        seq![digit_char(n)]
    } else {
        decimal_digits(n / 10).push(digit_char(n % 10))
    }
}

/// The digit for `d` below ten.
pub open spec fn digit_char(d: nat) -> char {
    if d == 0 { '0' } else if d == 1 { '1' } else if d == 2 { '2' } else if d == 3 { '3' }
    else if d == 4 { '4' } else if d == 5 { '5' } else if d == 6 { '6' } else if d == 7 { '7' }
    else if d == 8 { '8' } else { '9' }
}

fn digit(d: usize) -> (c: char)
    requires
        d < 10,
    ensures
        c == digit_char(d as nat),
{
    if d == 0 { '0' } else if d == 1 { '1' } else if d == 2 { '2' } else if d == 3 { '3' }
    else if d == 4 { '4' } else if d == 5 { '5' } else if d == 6 { '6' } else if d == 7 { '7' }
    else if d == 8 { '8' } else { '9' }
}

proof fn lemma_digit_char(d: nat)
    requires
        d < 10,
    ensures
        (digit_char(d) as u32) - ('0' as u32) == d,
        is_digit(digit_char(d)),
{
}

proof fn lemma_decimal_digits(n: nat)
    ensures
        all_digits(decimal_digits(n)),
        digits_value(decimal_digits(n)) == n,
        decimal_digits(n)[0] != '+',
    decreases n,
{
    lemma_digit_char(n % 10);
    if n < 10 {
        assert(decimal_digits(n).drop_last() =~= Seq::<char>::empty());
        assert(digits_value(decimal_digits(n)) == digits_value(Seq::<char>::empty()) * 10 + n);
    } else {
        lemma_decimal_digits(n / 10);
        let p = decimal_digits(n / 10);
        assert(decimal_digits(n).drop_last() =~= p);
        assert(decimal_digits(n)[0] == p[0]);
        assert(decimal_digits(n).last() == digit_char(n % 10));
        assert(n == (n / 10) * 10 + n % 10);
        assert(digits_value(decimal_digits(n)) == digits_value(p) * 10 + n % 10);
    }
}

/// Reading back the digits of a number gives the number.
pub proof fn law_digits_read_back(n: nat)
    ensures
        spelled_number(decimal_digits(n), false) == Some(n as int),
        spelled_number(decimal_digits(n), true) == Some(n as int),
{
    lemma_decimal_digits(n);
}

/// The decimal digits of `n`.
pub fn render_usize(n: usize) -> (r: Vec<char>)
    ensures
        r@ == decimal_digits(n as nat),
{
    let mut digits: Vec<char> = Vec::new();
    let mut m: usize = n;
    while m >= 10
        invariant
            decimal_digits(n as nat) == decimal_digits(m as nat) + digits@,
        decreases m,
    {
        let c = digit(m % 10);
        let ghost old_digits = digits@;
        digits.insert(0, c);
        proof {
            assert(decimal_digits(m as nat) == decimal_digits((m / 10) as nat).push(c));
            assert(digits@ =~= seq![c] + old_digits);
            assert(decimal_digits(m as nat) + old_digits =~= decimal_digits((m / 10) as nat) + digits@);
        }
        m = m / 10;
    }
    let c = digit(m);
    digits.insert(0, c);
    digits
}

} // verus!
