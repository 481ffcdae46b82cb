use vstd::prelude::*;
use vstd::string::StringExecFns;

verus! {

/// An exact decimal amount held as an integer scaled by `10^decimals`.
///
/// All arithmetic is integer arithmetic on `value`, so no precision is ever
/// lost; the decimal point is only reintroduced when the value is displayed.
/// Every amount the ledger produces carries four decimal digits.
#[derive(Clone, Copy, PartialEq, Eq, Structural, Debug)]
pub struct FixedNumber {
    pub value: i64,
    pub decimals: usize,
}

/// True when `v` lies within the range of an `i64`.
pub open spec fn i64_fits(v: int) -> bool {
    i64::MIN <= v <= i64::MAX
}

/// The character for one decimal digit.
pub open spec fn spec_digit_char(d: int) -> char {
    if d == 0 {
        '0'
    } else if d == 1 {
        '1'
    } else if d == 2 {
        '2'
    } else if d == 3 {
        '3'
    } else if d == 4 {
        '4'
    } else if d == 5 {
        '5'
    } else if d == 6 {
        '6'
    } else if d == 7 {
        '7'
    } else if d == 8 {
        '8'
    } else {
        '9'
    }
}

/// The decimal digits of `n`, most significant first, with no leading zeros
/// except for `n == 0` itself.
pub open spec fn spec_dec_digits(n: nat) -> Seq<char>
    decreases n,
{
    if n < 10 {
        seq![spec_digit_char(n as int)]
    } else {
        spec_dec_digits(n / 10).push(spec_digit_char((n % 10) as int))
    }
}

/// The fractional part `f` (with `f < 10000`) written with exactly four
/// digits, zero padded on the left.
pub open spec fn spec_frac_digits(f: nat) -> Seq<char> {
    if f < 10 {
        seq!['0', '0', '0'] + spec_dec_digits(f)
    } else if f < 100 {
        seq!['0', '0'] + spec_dec_digits(f)
    } else if f < 1000 {
        seq!['0'] + spec_dec_digits(f)
    } else {
        spec_dec_digits(f)
    }
}

/// The display form of a value scaled by `10^4`: an optional minus sign, the
/// whole part, a point, and exactly four fractional digits.
pub open spec fn spec_display(v: int) -> Seq<char> {
    let mag = if v < 0 {
        -v
    } else {
        v
    };
    let sign: Seq<char> = if v < 0 {
        seq!['-']
    } else {
        Seq::empty()
    };
    sign + spec_dec_digits((mag / 10000) as nat) + seq!['.'] + spec_frac_digits((mag % 10000) as nat)
}

impl FixedNumber {
    /// True when the amount carries the four decimal digits every amount in
    /// the ledger shares.
    pub open spec fn wf(self) -> bool {
        self.decimals == 4
    }

    /// The zero amount.
    pub fn new() -> (r: FixedNumber)
        ensures
            r.value == 0,
            r.wf(),
    {
        FixedNumber { value: 0, decimals: 4 }
    }

    /// The amount whose scaled integer representation is `value`, that is,
    /// the decimal value `value / 10^4`.
    pub fn from_scaled(value: i64) -> (r: FixedNumber)
        ensures
            r.value == value,
            r.wf(),
    {
        FixedNumber { value, decimals: 4 }
    }

    /// The sum of two amounts of the same scale.
    pub fn add(x: &FixedNumber, y: &FixedNumber) -> (r: FixedNumber)
        requires
            x.decimals == y.decimals,
            i64_fits(x.value + y.value),
        ensures
            r.value == x.value + y.value,
            r.decimals == x.decimals,
    {
        FixedNumber { value: x.value + y.value, decimals: x.decimals }
    }

    /// The difference of two amounts of the same scale.
    pub fn subtract(x: &FixedNumber, y: &FixedNumber) -> (r: FixedNumber)
        requires
            x.decimals == y.decimals,
            i64_fits(x.value - y.value),
        ensures
            r.value == x.value - y.value,
            r.decimals == x.decimals,
    {
        FixedNumber { value: x.value - y.value, decimals: x.decimals }
    }

    /// True when the scaled representation exceeds `value`.
    pub fn gt(&self, value: i64) -> (r: bool)
        ensures
            r == (self.value > value),
    {
        self.value > value
    }

    /// True when `self` is at least `num`.
    pub fn gt_eq(&self, num: &FixedNumber) -> (r: bool)
        ensures
            r == (self.value >= num.value),
    {
        self.value >= num.value
    }

    /// The decimal writing of the amount, with exactly four digits after the
    /// point.
    pub fn get_displayed_value(&self) -> (r: String)
        requires
            self.wf(),
        ensures
            r@ == spec_display(self.value as int),
    {
        let neg: bool = self.value < 0;
        let mag: u64 = if self.value < 0 {
            (-(self.value as i128)) as u64
        } else {
            self.value as u64
        };
        let mut s = String::new();
        if neg {
            s.append("-");
        }
        push_decimal(&mut s, mag / 10000);
        s.append(".");
        let f: u64 = mag % 10000;
        if f < 10 {
            s.append("000");
        } else if f < 100 {
            s.append("00");
        } else if f < 1000 {
            s.append("0");
        }
        push_decimal(&mut s, f);
        proof {
            reveal_strlit("-");
            reveal_strlit(".");
            reveal_strlit("000");
            reveal_strlit("00");
            reveal_strlit("0");
            assert(s@ =~= spec_display(self.value as int));
        }
        s
    }
}

/// Law: displaying reproduces a decimal exactly. A value with at most four
/// fractional digits is a whole part `w` and a fraction `f < 10000`; its
/// scaled representation `w * 10000 + f` displays as the digits of `w`, the
/// point, and `f` padded to four digits, with a minus sign in front when the
/// value is negative.
pub proof fn lemma_display_round_trip(w: nat, f: nat)
    requires
        f < 10000,
    ensures
        spec_display(w * 10000 + f as int) == spec_dec_digits(w) + seq!['.'] + spec_frac_digits(f),
        w * 10000 + f as int > 0 ==> spec_display(-(w * 10000 + f as int)) == seq!['-'] + spec_dec_digits(w)
            + seq!['.'] + spec_frac_digits(f),
{
    vstd::arithmetic::div_mod::lemma_fundamental_div_mod_converse(
        w * 10000 + f as int,
        10000,
        w as int,
        f as int,
    );
    assert(spec_display(w * 10000 + f as int) =~= spec_dec_digits(w) + seq!['.'] + spec_frac_digits(f));
    if w * 10000 + f as int > 0 {
        assert(spec_display(-(w * 10000 + f as int)) =~= seq!['-'] + spec_dec_digits(w) + seq!['.']
            + spec_frac_digits(f));
    }
}

/// A one-character string slice for the digit `d`.
fn digit_str(d: u64) -> (r: &'static str)
    requires
        d < 10,
    ensures
        r@ == seq![spec_digit_char(d as int)],
{
    proof {
        reveal_strlit("0");
        reveal_strlit("1");
        reveal_strlit("2");
        reveal_strlit("3");
        reveal_strlit("4");
        reveal_strlit("5");
        reveal_strlit("6");
        reveal_strlit("7");
        reveal_strlit("8");
        reveal_strlit("9");
    }
    let r: &'static str = match d {
        0 => "0",
        1 => "1",
        2 => "2",
        3 => "3",
        4 => "4",
        5 => "5",
        6 => "6",
        7 => "7",
        8 => "8",
        _ => "9",
    };
    proof {
        assert(r@ =~= seq![spec_digit_char(d as int)]);
    }
    r
}

/// Appends the decimal digits of `n` to `s`, most significant first.
fn push_decimal(s: &mut String, n: u64)
    ensures
        final(s)@ == old(s)@ + spec_dec_digits(n as nat),
    decreases n,
{
    if n >= 10 {
        push_decimal(s, n / 10);
        s.append(digit_str(n % 10));
    } else {
        s.append(digit_str(n));
    }
}

} // verus!
