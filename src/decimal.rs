use vstd::prelude::*;

verus! {

/// Atomic units in one whole unit of a [`Decimal`] (eighteen decimal places).
pub const DECIMAL_FRACTIONAL: u128 = 1_000_000_000_000_000_000;

/// A non-negative fixed-point number with eighteen decimal places, held as its
/// count of atomic units.
#[derive(Clone, Copy, Debug, PartialEq, Eq, Structural)]
pub struct Decimal {
    pub atomics: u128,
}

/// `floor(a * n / d)` when `d` is non-zero and the result fits in 128 bits.
pub open spec fn mul_ratio_spec(a: int, n: int, d: int) -> Option<int> {
    if d == 0 || a * n / d > u128::MAX {
        None
    } else {
        Some(a * n / d)
    }
}

/// The product of two decimals given by their atomics, rounded down, when it fits.
pub open spec fn decimal_mul_spec(a: int, b: int) -> Option<int> {
    mul_ratio_spec(a, b, DECIMAL_FRACTIONAL as int)
}

/// The decimal `n / d`, given by its atomics, when `d` is non-zero and it fits.
pub open spec fn decimal_ratio_spec(n: int, d: int) -> Option<int> {
    mul_ratio_spec(n, DECIMAL_FRACTIONAL as int, d)
}

/// The character of a decimal digit.
pub open spec fn digit_char(d: nat) -> char {
    if d == 0 { '0' }
    else if d == 1 { '1' }
    else if d == 2 { '2' }
    else if d == 3 { '3' }
    else if d == 4 { '4' }
    else if d == 5 { '5' }
    else if d == 6 { '6' }
    else if d == 7 { '7' }
    else if d == 8 { '8' }
    else { '9' }
}

/// The decimal digits of `n`, most significant first, without leading zeros.
pub open spec fn digits(n: nat) -> Seq<char>
    decreases n,
{
    if n < 10 {
        seq![digit_char(n)]
    } else {
        digits(n / 10) + seq![digit_char(n % 10)]
    }
}

/// `s` padded on the left with zeros to at least `width` characters.
pub open spec fn zero_pad(s: Seq<char>, width: nat) -> Seq<char>
    decreases width,
{
    if s.len() >= width {
        s
    } else {
        zero_pad(seq!['0'] + s, (width - 1) as nat)
    }
}

/// `s` without its trailing zeros.
pub open spec fn trim_trailing_zeros(s: Seq<char>) -> Seq<char>
    decreases s.len(),
{
    if s.len() > 0 && s.last() == '0' {
        trim_trailing_zeros(s.drop_last())
    } else {
        s
    }
}

/// The text of a decimal: its whole part, then, if the fraction is not zero,
/// a dot and the eighteen fractional digits without trailing zeros.
pub open spec fn decimal_text(atomics: u128) -> Seq<char> {
    let whole = atomics / DECIMAL_FRACTIONAL;
    let frac = atomics % DECIMAL_FRACTIONAL;
    if frac == 0 {
        digits(whole as nat)
    } else {
        digits(whole as nat) + seq!['.'] + trim_trailing_zeros(zero_pad(digits(frac as nat), 18))
    }
}

/// Relies on `Uint128::checked_multiply_ratio` of cosmwasm-std: `x * n / d`
/// rounded down, an error when `d` is zero or the result exceeds 128 bits.
#[verifier::external_body]
pub(crate) fn uint_multiply_ratio(x: u128, n: u128, d: u128) -> (r: Option<u128>)
    ensures
        r matches Some(v) ==> mul_ratio_spec(x as int, n as int, d as int) == Some(v as int),
        r is None ==> mul_ratio_spec(x as int, n as int, d as int) is None,
{
    cosmwasm_std::Uint128::new(x).checked_multiply_ratio(n, d).ok().map(|v| v.u128())
}

/// Relies on `Decimal::checked_mul` of cosmwasm-std: the product of the
/// atomics divided by `10^18`, rounded down, an error when it exceeds 128 bits.
#[verifier::external_body]
fn checked_mul_atomics(a: u128, b: u128) -> (r: Option<u128>)
    ensures
        r matches Some(v) ==> decimal_mul_spec(a as int, b as int) == Some(v as int),
        r is None ==> decimal_mul_spec(a as int, b as int) is None,
{
    cosmwasm_std::Decimal::raw(a).checked_mul(cosmwasm_std::Decimal::raw(b)).ok().map(
        |v| v.atomics().u128(),
    )
}

/// Relies on `Decimal::checked_from_ratio` of cosmwasm-std: `n * 10^18 / d`
/// atomics rounded down, an error when `d` is zero or the result exceeds 128 bits.
#[verifier::external_body]
fn checked_ratio_atomics(n: u128, d: u128) -> (r: Option<u128>)
    ensures
        r matches Some(v) ==> decimal_ratio_spec(n as int, d as int) == Some(v as int),
        r is None ==> decimal_ratio_spec(n as int, d as int) is None,
{
    cosmwasm_std::Decimal::checked_from_ratio(n, d).ok().map(|v| v.atomics().u128())
}

/// Relies on the `Display` impl of cosmwasm-std's `Decimal`.
#[verifier::external_body]
fn decimal_to_string(a: u128) -> (r: String)
    ensures
        r@ == decimal_text(a),
{
    cosmwasm_std::Decimal::raw(a).to_string()
}

/// The one-character text of a decimal digit.
fn digit_text(d: u64) -> (r: String)
    requires
        d < 10,
    ensures
        r@ == seq![digit_char(d as nat)],
{
    let s: &str = if d == 0 {
        "0"
    } else if d == 1 {
        "1"
    } else if d == 2 {
        "2"
    } else if d == 3 {
        "3"
    } else if d == 4 {
        "4"
    } else if d == 5 {
        "5"
    } else if d == 6 {
        "6"
    } else if d == 7 {
        "7"
    } else if d == 8 {
        "8"
    } else {
        "9"
    };
    proof {
        reveal_strlit("0");
        reveal_strlit("1");
        reveal_strlit("2");
        reveal_strlit("3");
        reveal_strlit("4");
        reveal_strlit("5");
        reveal_strlit("6");
        reveal_strlit("7");
        reveal_strlit("8");
        reveal_strlit("9");
    }
    let r = String::from_str(s);
    assert(r@ =~= seq![digit_char(d as nat)]);
    r
}

/// The decimal digits of `n`.
pub fn u64_to_string(n: u64) -> (r: String)
    ensures
        r@ == digits(n as nat),
    decreases n,
{
    if n < 10 {
        digit_text(n)
    } else {
        let mut s = u64_to_string(n / 10);
        let last = digit_text(n % 10);
        s.append(last.as_str());
        s
    }
}

impl Decimal {
    /// The decimal with the given count of atomic units.
    pub fn raw(atomics: u128) -> (r: Decimal)
        ensures
            r.atomics == atomics,
    {
        Decimal { atomics }
    }

    pub fn zero() -> (r: Decimal)
        ensures
            r.atomics == 0,
    {
        Decimal { atomics: 0 }
    }

    pub fn one() -> (r: Decimal)
        ensures
            r.atomics == DECIMAL_FRACTIONAL,
    {
        Decimal { atomics: DECIMAL_FRACTIONAL }
    }

    pub fn atomics(&self) -> (r: u128)
        ensures
            r == self.atomics,
    {
        self.atomics
    }

    /// `numerator / denominator`, rounded down to eighteen places; `None` when
    /// the denominator is zero or the value does not fit.
    pub fn checked_from_ratio(numerator: u128, denominator: u128) -> (r: Option<Decimal>)
        ensures
            r matches Some(v) ==> decimal_ratio_spec(numerator as int, denominator as int)
                == Some(v.atomics as int),
            r is None ==> decimal_ratio_spec(numerator as int, denominator as int) is None,
    {
        match checked_ratio_atomics(numerator, denominator) {
            Some(a) => Some(Decimal { atomics: a }),
            None => None,
        }
    }

    /// The product rounded down to eighteen places; `None` on overflow.
    pub fn checked_mul(self, other: Decimal) -> (r: Option<Decimal>)
        ensures
            r matches Some(v) ==> decimal_mul_spec(self.atomics as int, other.atomics as int)
                == Some(v.atomics as int),
            r is None ==> decimal_mul_spec(self.atomics as int, other.atomics as int) is None,
    {
        match checked_mul_atomics(self.atomics, other.atomics) {
            Some(a) => Some(Decimal { atomics: a }),
            None => None,
        }
    }

    /// The decimal's text, such as `0.5` or `2`.
    pub fn to_display_string(&self) -> (r: String)
        ensures
            r@ == decimal_text(self.atomics),
    {
        decimal_to_string(self.atomics)
    }
}

} // verus!
