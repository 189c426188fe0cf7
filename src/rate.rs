//! Decimal percentage rates and the fixed split of the facility marker supply.
use vstd::prelude::*;

verus! {

/// The decimal that `rust_decimal` reads from a string, as mantissa and
/// scale (the value is `mantissa / 10^scale`); `None` where it reads none.
pub uninterp spec fn decimal_of(s: Seq<char>) -> Option<(int, int)>;

/// Relies on `rust_decimal::Decimal::from_str`, `Decimal::mantissa` and
/// `Decimal::scale`: the parse depends on the text alone, and every decimal
/// has a mantissa of magnitude below 2^96 and a scale of at most 28.
#[verifier::external_body]
fn parse_decimal(s: &str) -> (r: Option<(i128, u32)>)
    ensures
        match r {
            Some((m, e)) => decimal_of(s@) == Some((m as int, e as int)) && e <= 28 && -0x1_0000_0000_0000_0000_0000_0000 < m < 0x1_0000_0000_0000_0000_0000_0000,
            None => decimal_of(s@) is None,
        },
{
    match <rust_decimal::Decimal as std::str::FromStr>::from_str(s) {
        Ok(d) => Some((d.mantissa(), d.scale())),
        Err(_) => None,
    }
}

pub open spec fn pow10(n: nat) -> int
    decreases n,
{
    if n == 0 {
        1
    } else {
        10 * pow10((n - 1) as nat)
    }
}

pub proof fn lemma_pow10_positive(n: nat)
    ensures
        pow10(n) > 0,
    decreases n,
{
    if n > 0 {
        lemma_pow10_positive((n - 1) as nat);
    }
}

proof fn lemma_pow10_values()
    ensures
        pow10(2) == 100,
        pow10(28) == 10000000000000000000000000000,
        pow10(30) == 1000000000000000000000000000000,
{
    reveal_with_fuel(pow10, 31);
}

pub proof fn lemma_pow10_monotone(a: nat, b: nat)
    requires
        a <= b,
    ensures
        pow10(a) <= pow10(b),
    decreases b,
{
    if a < b {
        lemma_pow10_monotone(a, (b - 1) as nat);
        lemma_pow10_positive((b - 1) as nat);
    }
}

/// A decimal percentage, `mantissa / 10^scale` percent.
#[derive(Clone, Copy, Debug)]
pub struct Rate {
    pub mantissa: i128,
    pub scale: u32,
}

/// An advance rate lies in (0, 100].
pub open spec fn advance_rate_ok(m: int, e: int) -> bool {
    0 < m && e >= 0 && m <= 100 * pow10(e as nat)
}

/// A paydown rate is positive.
pub open spec fn paydown_rate_ok(m: int, e: int) -> bool {
    0 < m
}

/// Whether `s` reads as a valid advance rate.
pub open spec fn valid_advance_rate(s: Seq<char>) -> bool {
    decimal_of(s) matches Some((m, e)) && advance_rate_ok(m, e)
}

/// Whether `s` reads as a valid paydown rate.
pub open spec fn valid_paydown_rate(s: Seq<char>) -> bool {
    decimal_of(s) matches Some((m, e)) && paydown_rate_ok(m, e)
}

/// Reads an advance rate; `None` unless it is a decimal in (0, 100].
pub fn parse_advance_rate(s: &str) -> (r: Option<Rate>)
    ensures
        r is Some <==> valid_advance_rate(s@),
        r matches Some(rate) ==> decimal_of(s@) == Some((rate.mantissa as int, rate.scale as int))
            && rate.scale <= 28,
{
    match parse_decimal(s) {
        Some((m, e)) => {
            let mut bound: i128 = 100;
            let mut k: u32 = 0;
            while k < e
                invariant
                    k <= e <= 28,
                    bound == 100 * pow10(k as nat),
                decreases e - k,
            {
                proof {
                    lemma_pow10_monotone(k as nat + 1, 28);
                    lemma_pow10_values();
                    assert(pow10(k as nat + 1) == 10 * pow10(k as nat));
                    assert(bound * 10 == 100 * pow10(k as nat + 1));
                    assert(bound * 10 <= 1000000000000000000000000000000);
                    lemma_pow10_positive(k as nat);
                }
                bound = bound * 10;
                k = k + 1;
            }
            if 0 < m && m <= bound {
                Some(Rate { mantissa: m, scale: e })
            } else {
                None
            }
        },
        None => None,
    }
}

/// Reads a paydown rate; `None` unless it is a positive decimal.
pub fn parse_paydown_rate(s: &str) -> (r: Option<Rate>)
    ensures
        r is Some <==> valid_paydown_rate(s@),
        r matches Some(rate) ==> decimal_of(s@) == Some((rate.mantissa as int, rate.scale as int)),
{
    match parse_decimal(s) {
        Some((m, e)) => {
            if 0 < m {
                Some(Rate { mantissa: m, scale: e })
            } else {
                None
            }
        },
        None => None,
    }
}

/// The supply of the facility marker for an advance rate of the given scale.
pub open spec fn marker_supply(scale: nat) -> int {
    pow10(scale + 2)
}

/// The warehouse's share: the advance rate, as a fraction of 100, of the
/// supply, rounded down.
pub open spec fn warehouse_share(mantissa: int, scale: nat) -> int {
    (mantissa * marker_supply(scale)) / (100 * pow10(scale))
}

/// How the facility marker supply is divided between the two parties.
#[derive(Clone, Copy, Debug)]
pub struct MarkerSplit {
    pub supply: u128,
    pub to_warehouse: u128,
    pub to_originator: u128,
}

/// Computes the marker supply, `10^(scale + 2)`, and its division: the
/// warehouse takes the advance rate's share, rounded down, and the
/// originator the rest.
pub fn marker_split(rate: Rate) -> (r: MarkerSplit)
    requires
        advance_rate_ok(rate.mantissa as int, rate.scale as int),
        rate.scale <= 28,
    ensures
        r.supply == marker_supply(rate.scale as nat),
        r.to_warehouse == warehouse_share(rate.mantissa as int, rate.scale as nat),
        r.to_warehouse == rate.mantissa,
        r.to_originator == r.supply - r.to_warehouse,
{
    let mut supply: u128 = 100;
    let mut k: u32 = 0;
    proof {
        lemma_pow10_values();
    }
    while k < rate.scale
        invariant
            k <= rate.scale <= 28,
            supply == pow10(k as nat + 2),
        decreases rate.scale - k,
    {
        proof {
            lemma_pow10_monotone(k as nat + 3, 30);
            lemma_pow10_values();
            assert(pow10(k as nat + 3) == 10 * pow10(k as nat + 2));
        }
        supply = supply * 10;
        k = k + 1;
    }
    proof {
        lemma_pow10_values();
        lemma_split_exact(rate.mantissa as int, rate.scale as nat);
    }
    let to_warehouse = rate.mantissa as u128;
    MarkerSplit { supply, to_warehouse, to_originator: supply - to_warehouse }
}

/// The warehouse's share of the supply is exactly the rate's mantissa, and
/// never exceeds the supply.
pub proof fn lemma_split_exact(m: int, e: nat)
    requires
        advance_rate_ok(m, e as int),
    ensures
        warehouse_share(m, e) == m,
        0 < warehouse_share(m, e) <= marker_supply(e),
{
    lemma_pow10_positive(e);
    let p = pow10(e);
    assert(pow10(e + 2) == 100 * p) by {
        assert(pow10(e + 1) == 10 * p);
        assert(pow10(e + 2) == 10 * pow10(e + 1));
    }
    assert(m * (100 * p) == m * (100 * p));
    assert((m * (100 * p)) / (100 * p) == m) by (nonlinear_arith)
        requires
            100 * p > 0,
    ;
}

} // verus!
