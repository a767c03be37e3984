use vstd::prelude::*;

verus! {

/// Most digits (integer and fraction part together) that a price may carry.
pub const MAX_DIGITS: usize = 18;

/// Ten to the power `n`.
pub open spec fn pow10(n: nat) -> int
    decreases n,
{
    if n == 0 {
        1
    } else {
        10 * pow10((n - 1) as nat)
    }
}

pub proof fn lemma_pow10_pos(n: nat)
    ensures
        pow10(n) > 0,
    decreases n,
{
    if n > 0 {
        lemma_pow10_pos((n - 1) as nat);
    }
}

pub proof fn lemma_pow10_add(a: nat, b: nat)
    ensures
        pow10(a + b) == pow10(a) * pow10(b),
    decreases b,
{
    if b > 0 {
        lemma_pow10_add(a, (b - 1) as nat);
        assert(pow10(a + b) == 10 * pow10((a + b - 1) as nat));
        assert(pow10(a) * pow10(b) == pow10(a) * (10 * pow10((b - 1) as nat)));
        assert(pow10(a) * (10 * pow10((b - 1) as nat)) == 10 * (pow10(a) * pow10(
            (b - 1) as nat,
        ))) by (nonlinear_arith);
    }
}

pub proof fn lemma_pow10_mono(a: nat, b: nat)
    requires
        a <= b,
    ensures
        pow10(a) <= pow10(b),
    decreases b,
{
    if a < b {
        lemma_pow10_mono(a, (b - 1) as nat);
        lemma_pow10_pos((b - 1) as nat);
    }
}

pub proof fn lemma_pow10_value_18()
    ensures
        pow10(18) == 1_000_000_000_000_000_000,
{
    reveal_with_fuel(pow10, 19);
}

/// A decimal number: `mantissa / 10^scale`, held exactly.
#[derive(Clone, Copy, Debug, PartialEq, Eq, Structural)]
pub struct Decimal {
    pub mantissa: i128,
    pub scale: u32,
}

impl Decimal {
    pub open spec fn is_positive(self) -> bool {
        self.mantissa > 0
    }

    /// The range a parsed price lies in: at most `MAX_DIGITS` digits.
    pub open spec fn is_bounded(self) -> bool {
        &&& self.scale <= 18
        &&& -1_000_000_000_000_000_000 < self.mantissa < 1_000_000_000_000_000_000
    }

    /// `self` and `o` denote the same rational number.
    pub open spec fn same_value(self, o: Decimal) -> bool {
        self.mantissa * pow10(o.scale as nat) == o.mantissa * pow10(self.scale as nat)
    }

    /// `self` is the arithmetic mean of `a` and `b`:
    /// `2 * self == a + b`, with every side brought over a common denominator.
    pub open spec fn is_mean_of(self, a: Decimal, b: Decimal) -> bool {
        2 * self.mantissa * pow10(a.scale as nat) * pow10(b.scale as nat) == (a.mantissa * pow10(
            b.scale as nat,
        ) + b.mantissa * pow10(a.scale as nat)) * pow10(self.scale as nat)
    }

    pub fn positive(&self) -> (r: bool)
        ensures
            r == self.is_positive(),
    {
        self.mantissa > 0
    }

    /// The arithmetic mean of two prices, exact: the scale grows by one digit.
    pub fn mean(a: Decimal, b: Decimal) -> (r: Decimal)
        requires
            a.is_bounded(),
            b.is_bounded(),
        ensures
            r == mean_spec(a, b),
            r.is_mean_of(a, b),
    {
        let s: u32 = if a.scale >= b.scale {
            a.scale
        } else {
            b.scale
        };
        let fa = pow10_exec(s - a.scale);
        let fb = pow10_exec(s - b.scale);
        proof {
            lemma_pow10_value_18();
            lemma_pow10_mono((s - a.scale) as nat, 18);
            lemma_pow10_mono((s - b.scale) as nat, 18);
            lemma_pow10_pos((s - a.scale) as nat);
            lemma_pow10_pos((s - b.scale) as nat);
            lemma_bounded_product(a.mantissa as int, fa as int);
            lemma_bounded_product(b.mantissa as int, fb as int);
        }
        let ax = a.mantissa * fa;
        let bx = b.mantissa * fb;
        let r = Decimal { mantissa: 5 * (ax + bx), scale: s + 1 };
        proof {
            let pa = pow10(a.scale as nat);
            let pb = pow10(b.scale as nat);
            lemma_pow10_add((s - a.scale) as nat, a.scale as nat);
            lemma_pow10_add((s - b.scale) as nat, b.scale as nat);
            assert(pow10((s + 1) as nat) == 10 * pow10(s as nat));
            let ps = pow10(s as nat);
            assert(ax * pa == a.mantissa * ps) by (nonlinear_arith)
                requires
                    ax == a.mantissa * fa,
                    ps == fa * pa,
            ;
            assert(bx * pb == b.mantissa * ps) by (nonlinear_arith)
                requires
                    bx == b.mantissa * fb,
                    ps == fb * pb,
            ;
            assert(2 * (5 * (ax + bx)) * pa * pb == (a.mantissa * pb + b.mantissa * pa) * (10
                * ps)) by (nonlinear_arith)
                requires
                    ax * pa == a.mantissa * ps,
                    bx * pb == b.mantissa * ps,
            ;
        }
        r
    }
}

/// The mean as `mean` writes it: both sides brought to the finer scale,
/// summed, and halved by one more decimal digit (`x / 2 == 5 * x / 10`).
pub open spec fn mean_spec(a: Decimal, b: Decimal) -> Decimal {
    let s = if a.scale >= b.scale {
        a.scale
    } else {
        b.scale
    };
    Decimal {
        mantissa: (5 * (a.mantissa * pow10((s - a.scale) as nat) + b.mantissa * pow10(
            (s - b.scale) as nat,
        ))) as i128,
        scale: (s + 1) as u32,
    }
}

proof fn lemma_bounded_product(m: int, f: int)
    requires
        -1_000_000_000_000_000_000 < m < 1_000_000_000_000_000_000,
        0 < f <= 1_000_000_000_000_000_000,
    ensures
        -1_000_000_000_000_000_000_000_000_000_000_000_000 < m * f
            < 1_000_000_000_000_000_000_000_000_000_000_000_000,
{
    assert(-1_000_000_000_000_000_000_000_000_000_000_000_000 < m * f
        < 1_000_000_000_000_000_000_000_000_000_000_000_000) by (nonlinear_arith)
        requires
            -1_000_000_000_000_000_000 < m < 1_000_000_000_000_000_000,
            0 < f <= 1_000_000_000_000_000_000,
    ;
}

fn pow10_exec(k: u32) -> (r: i128)
    requires
        k <= 18,
    ensures
        r == pow10(k as nat),
{
    let mut r: i128 = 1;
    let mut i: u32 = 0;
    while i < k
        invariant
            i <= k <= 18,
            r == pow10(i as nat),
        decreases k - i,
    {
        proof {
            lemma_pow10_mono(i as nat, 17);
            reveal_with_fuel(pow10, 18);
        }
        r = r * 10;
        i = i + 1;
    }
    r
}


pub open spec fn is_digit(c: char) -> bool {
    '0' <= c && c <= '9'
}

pub open spec fn digit_value(c: char) -> int {
    (c as u32) as int - ('0' as u32) as int
}

/// What `scan` has read so far.
pub ghost struct Scanned {
    pub value: int,
    pub digits: nat,
    pub frac: nat,
    pub dot: bool,
}

/// Reads a run of digits with at most one inner point, left to right.
/// Gives the digits' value, how many digits, how many after the point,
/// and whether the point was seen; `None` on any other character, on a
/// second point, or on a point before the first digit.
pub open spec fn scan(s: Seq<char>) -> Option<Scanned>
    decreases s.len(),
{
    if s.len() == 0 {
        Some(Scanned { value: 0, digits: 0, frac: 0, dot: false })
    } else {
        match scan(s.drop_last()) {
            None => None,
            Some(st) => {
                let c = s.last();
                if is_digit(c) {
                    Some(
                        Scanned {
                            value: st.value * 10 + digit_value(c),
                            digits: st.digits + 1,
                            frac: if st.dot { st.frac + 1 } else { st.frac },
                            dot: st.dot,
                        },
                    )
                } else if c == '.' && !st.dot && st.digits > 0 {
                    Some(Scanned { dot: true, ..st })
                } else {
                    None
                }
            },
        }
    }
}

/// The number that `s` writes in plain decimal notation (`-12.50`, `7`,
/// `0.125`): an optional minus sign, one to `MAX_DIGITS` digits, and an
/// optional point followed by at least one digit. `None` for anything else.
pub open spec fn parse_spec(s: Seq<char>) -> Option<Decimal> {
    let neg = s.len() > 0 && s[0] == '-';
    let body = if neg {
        s.skip(1)
    } else {
        s
    };
    match scan(body) {
        Some(st) => {
            if 1 <= st.digits <= MAX_DIGITS && (st.dot ==> st.frac >= 1) {
                Some(
                    Decimal {
                        mantissa: (if neg { -st.value } else { st.value }) as i128,
                        scale: st.frac as u32,
                    },
                )
            } else {
                None
            }
        },
        None => None,
    }
}

/// A prefix of a readable run is readable, with no more digits.
proof fn lemma_scan_prefix(s: Seq<char>, i: int)
    requires
        0 <= i <= s.len(),
        scan(s) is Some,
    ensures
        scan(s.take(i)) is Some,
        scan(s.take(i))->0.digits <= scan(s)->0.digits,
    decreases s.len(),
{
    if i == s.len() {
        assert(s.take(i) =~= s);
    } else {
        assert(s.drop_last().take(i) =~= s.take(i));
        lemma_scan_prefix(s.drop_last(), i);
    }
}

/// Reads a price written in plain decimal notation.
pub fn parse_decimal(text: &str) -> (r: Option<Decimal>)
    ensures
        r == parse_spec(text@),
        r matches Some(d) ==> d.is_bounded(),
{
    let len = text.unicode_len();
    let neg = len > 0 && text.get_char(0) == '-';
    let start: usize = if neg {
        1
    } else {
        0
    };
    let ghost body = if neg {
        text@.skip(1)
    } else {
        text@
    };
    let mut i: usize = start;
    let mut v: i128 = 0;
    let mut n: usize = 0;
    let mut f: usize = 0;
    let mut dot = false;
    proof {
        assert(body.take(0) =~= Seq::<char>::empty());
    }
    while i < len
        invariant
            len == text@.len(),
            start <= i <= len,
            start == (if neg { 1usize } else { 0usize }),
            neg == (text@.len() > 0 && text@[0] == '-'),
            body == (if neg { text@.skip(1) } else { text@ }),
            body.len() == len - start,
            scan(body.take(i - start)) == Some(
                Scanned { value: v as int, digits: n as nat, frac: f as nat, dot },
            ),
            n <= MAX_DIGITS,
            0 <= v < pow10(n as nat),
            f <= n,
        decreases len - i,
    {
        let c = text.get_char(i);
        let ghost k = i - start;
        proof {
            assert(body.take(k + 1).drop_last() =~= body.take(k));
            assert(body.take(k + 1).last() == c);
        }
        if '0' <= c && c <= '9' {
            if n == MAX_DIGITS {
                proof {
                    if scan(body) is Some {
                        lemma_scan_prefix(body, k + 1);
                    }
                }
                return None;
            }
            let d: u32 = (c as u32) - ('0' as u32);
            proof {
                lemma_pow10_value_18();
                lemma_pow10_mono(n as nat, 17);
                assert(pow10(n as nat + 1) == 10 * pow10(n as nat));
            }
            v = v * 10 + d as i128;
            n = n + 1;
            if dot {
                f = f + 1;
            }
        } else if c == '.' && !dot && n > 0 {
            dot = true;
        } else {
            proof {
                if scan(body) is Some {
                    lemma_scan_prefix(body, k + 1);
                }
            }
            return None;
        }
        i = i + 1;
    }
    proof {
        assert(body.take(len - start) =~= body);
        lemma_pow10_value_18();
        lemma_pow10_mono(n as nat, 18);
    }
    if n >= 1 && (!dot || f >= 1) {
        Some(Decimal { mantissa: if neg { -v } else { v }, scale: f as u32 })
    } else {
        None
    }
}

} // verus!
