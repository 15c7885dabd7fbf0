//! Record and report utilities: the input record type, rendering of
//! fixed-point amounts to four fractional digits, conversion from scaled
//! decimal parts, and the missing-amount diagnostic.

use crate::transaction::TransactionType;
use vstd::arithmetic::div_mod::lemma_fundamental_div_mod;
use vstd::prelude::*;
use vstd::string::StringExecFns;

verus! {

/// One transaction record, as handed to the ledger by the ingestion layer.
///
/// `amount` is the monetary amount in fixed-point units of 1/10000; it is
/// present for deposits and withdrawals and absent for the dispute-family
/// records. `tx` is kept signed so that the ledger itself can reject ids
/// that do not fit its unsigned transaction-id type.
#[derive(Clone, Copy, Debug)]
pub struct InputTransaction {
    pub tx_type: TransactionType,
    pub client: u16,
    pub tx: i64,
    pub amount: Option<i64>,
}

/// `10^e`.
pub open spec fn pow10(e: nat) -> int
    decreases e,
{
    if e == 0 {
        1
    } else {
        10 * pow10((e - 1) as nat)
    }
}

/// The decimal digit `d` as a character, for `0 <= d <= 9`.
pub open spec fn digit_char(d: int) -> char {
    if d == 0 {
        '0'
    } else if d == 1 {
        '1'
    } else if d == 2 {
        '2'
    } else if d == 3 {
        '3'
    } else if d == 4 {
        '4'
    } else if d == 5 {
        '5'
    } else if d == 6 {
        '6'
    } else if d == 7 {
        '7'
    } else if d == 8 {
        '8'
    } else {
        '9'
    }
}

/// The decimal digits of `n`, most significant first, without leading
/// zeroes (a single `'0'` for zero).
pub open spec fn spec_digits(n: nat) -> Seq<char>
    decreases n,
{
    if n < 10 {
        seq![digit_char(n as int)]
    } else {
        spec_digits(n / 10) + seq![digit_char((n % 10) as int)]
    }
}

/// The four fractional digits of an amount, zero-padded: `f` counts units
/// of 1/10000 past the decimal point, `0 <= f < 10000`.
pub open spec fn spec_frac_digits(f: nat) -> Seq<char> {
    seq![
        digit_char(((f / 1000) % 10) as int),
        digit_char(((f / 100) % 10) as int),
        digit_char(((f / 10) % 10) as int),
        digit_char((f % 10) as int),
    ]
}

/// The rendering of the fixed-point amount `v` (in units of 1/10000) with
/// exactly four fractional digits, e.g. `-12345` as `-1.2345`.
pub open spec fn spec_format_decimal(v: int) -> Seq<char> {
    let mag = if v < 0 {
        -v
    } else {
        v
    };
    let sign: Seq<char> = if v < 0 {
        seq!['-']
    } else {
        Seq::empty()
    };
    sign + spec_digits((mag / 10000) as nat) + seq!['.'] + spec_frac_digits((mag % 10000) as nat)
}

/// The character for one decimal digit.
fn digit_str(d: u64) -> (r: &'static str)
    requires
        d < 10,
    ensures
        r@ == seq![digit_char(d as int)],
{
    proof {
        reveal_strlit("0");
        reveal_strlit("1");
        reveal_strlit("2");
        reveal_strlit("3");
        reveal_strlit("4");
        reveal_strlit("5");
        reveal_strlit("6");
        reveal_strlit("7");
        reveal_strlit("8");
        reveal_strlit("9");
    }
    let r = if d == 0 {
        "0"
    } else if d == 1 {
        "1"
    } else if d == 2 {
        "2"
    } else if d == 3 {
        "3"
    } else if d == 4 {
        "4"
    } else if d == 5 {
        "5"
    } else if d == 6 {
        "6"
    } else if d == 7 {
        "7"
    } else if d == 8 {
        "8"
    } else {
        "9"
    };
    proof {
        assert(r@ =~= seq![digit_char(d as int)]);
    }
    r
}

/// Appends the decimal digits of `n` to `out`.
fn push_digits(n: u64, out: &mut String)
    ensures
        final(out)@ == old(out)@ + spec_digits(n as nat),
    decreases n,
{
    if n >= 10 {
        push_digits(n / 10, out);
    }
    let s = digit_str(n % 10);
    out.append(s);
    proof {
        assert(out@ =~= old(out)@ + spec_digits(n as nat));
    }
}

/// Renders the fixed-point amount `value` (in units of 1/10000) with
/// exactly four fractional digits, as it appears in the final report.
pub fn format_decimal(value: i64) -> (r: String)
    ensures
        r@ == spec_format_decimal(value as int),
{
    proof {
        reveal_strlit("-");
        reveal_strlit(".");
    }
    let mut s = String::new();
    let mag: u64;
    if value < 0 {
        s.append("-");
        mag = (-(value as i128)) as u64;
    } else {
        mag = value as u64;
    }
    push_digits(mag / 10000, &mut s);
    s.append(".");
    let f = mag % 10000;
    s.append(digit_str(f / 1000));
    s.append(digit_str((f / 100) % 10));
    s.append(digit_str((f / 10) % 10));
    s.append(digit_str(f % 10));
    proof {
        assert(s@ =~= spec_format_decimal(value as int));
    }
    s
}

/// The fixed-point value of the decimal `mantissa / 10^scale`, in units of
/// 1/10000: the quotient of the magnitude, carried back to the sign of the
/// mantissa, provided the division is exact and the result fits.
pub open spec fn spec_scaled(mantissa: int, scale: nat) -> Option<int> {
    let mag = if mantissa < 0 {
        -mantissa
    } else {
        mantissa
    };
    let num = mag * 10000;
    let p = pow10(scale);
    if num % p == 0 && fits_scaled(mantissa, num / p) {
        Some(
            if mantissa < 0 {
                -(num / p)
            } else {
                num / p
            },
        )
    } else {
        None
    }
}

/// Whether a quotient magnitude `q` fits an `i64` once carried back to the
/// sign of `mantissa`.
pub open spec fn fits_scaled(mantissa: int, q: int) -> bool {
    if mantissa < 0 {
        -q >= i64::MIN
    } else {
        q <= i64::MAX
    }
}

/// `10^e`, executable.
fn pow10_exec(e: u32) -> (r: u128)
    requires
        e <= 28,
    ensures
        r == pow10(e as nat),
{
    proof {
        lemma_pow10_mono(e as nat, 28);
        lemma_pow10_28();
    }
    let mut r: u128 = 1;
    let mut i: u32 = 0;
    while i < e
        invariant
            i <= e,
            e <= 28,
            r == pow10(i as nat),
            pow10(e as nat) <= pow10(28),
            pow10(28) == 10000000000000000000000000000,
        decreases e - i,
    {
        proof {
            lemma_pow10_mono((i + 1) as nat, e as nat);
            lemma_pow10_pos(i as nat);
        }
        r = r * 10;
        i = i + 1;
    }
    r
}

/// The largest power of ten a decimal scale can call for.
proof fn lemma_pow10_28()
    ensures
        pow10(28) == 10000000000000000000000000000,
{
    reveal_with_fuel(pow10, 29);
}

/// `10^e` is positive.
proof fn lemma_pow10_pos(e: nat)
    ensures
        pow10(e) >= 1,
    decreases e,
{
    if e > 0 {
        lemma_pow10_pos((e - 1) as nat);
    }
}

/// `10^e` is monotone in `e`.
proof fn lemma_pow10_mono(a: nat, b: nat)
    requires
        a <= b,
    ensures
        pow10(a) <= pow10(b),
    decreases b,
{
    if a < b {
        lemma_pow10_mono(a, (b - 1) as nat);
        lemma_pow10_pos((b - 1) as nat);
    }
}

/// Converts a decimal given as scaled parts — a mantissa and the power of
/// ten it is divided by — to a fixed-point amount in units of 1/10000.
/// Returns `None` when the value has no exact four-fractional-digit
/// representation in a signed 64-bit count.
///
/// The bounds on the arguments are those of a 96-bit decimal mantissa with
/// a scale of at most 28 digits.
pub fn scaled_from_parts(mantissa: i128, scale: u32) -> (r: Option<i64>)
    requires
        scale <= 28,
        -0x1000000000000000000000000 <= mantissa <= 0x1000000000000000000000000,
    ensures
        r is Some <==> spec_scaled(mantissa as int, scale as nat) is Some,
        r is Some ==> r.unwrap() as int == spec_scaled(mantissa as int, scale as nat).unwrap(),
{
    let p: u128 = pow10_exec(scale);
    proof {
        lemma_pow10_pos(scale as nat);
        lemma_pow10_mono(scale as nat, 28);
        lemma_pow10_28();
    }
    let mag: u128 = if mantissa < 0 {
        (-mantissa) as u128
    } else {
        mantissa as u128
    };
    assert(mag * 10000 <= 0x1000000000000000000000000 * 10000) by (nonlinear_arith)
        requires
            mag <= 0x1000000000000000000000000,
    ;
    let num: u128 = mag * 10000;
    if num % p != 0 {
        return None;
    }
    let q: u128 = num / p;
    if mantissa < 0 {
        if q > 0x8000000000000000 {
            None
        } else if q == 0x8000000000000000 {
            Some(i64::MIN)
        } else {
            Some(-(q as i64))
        }
    } else {
        if q > 0x7fffffffffffffff {
            None
        } else {
            Some(q as i64)
        }
    }
}

/// An amount accepted by [`scaled_from_parts`] is exact: scaled back up by
/// `10^scale` it reproduces the mantissa times the four fractional digits'
/// worth of scaling, with no rounding in either direction.
pub proof fn lemma_scaled_exact(mantissa: int, scale: nat, s: int)
    requires
        spec_scaled(mantissa, scale) == Some(s),
    ensures
        s * pow10(scale) == mantissa * 10000,
{
    let mag = if mantissa < 0 {
        -mantissa
    } else {
        mantissa
    };
    let num = mag * 10000;
    let p = pow10(scale);
    let q = num / p;
    lemma_pow10_pos(scale);
    lemma_fundamental_div_mod(num, p);
    assert(num == p * q);
    if mantissa < 0 {
        assert(s == -q);
        assert((-q) * p == -(p * q)) by (nonlinear_arith);
        assert(s * p == -num);
        assert(num == -mantissa * 10000);
        assert(-(-mantissa * 10000) == mantissa * 10000) by (nonlinear_arith);
    } else {
        assert(s == q);
        assert(q * p == p * q) by (nonlinear_arith);
        assert(s * p == num);
    }
}

/// A diagnostic for a deposit or withdrawal record that arrived without an
/// amount.
#[derive(Debug)]
pub struct MissingAmount {
    tx_type: &'static str,
    tx: u32,
}

impl MissingAmount {
    /// The name of the transaction kind the amount was missing from.
    pub closed spec fn spec_tx_type(self) -> Seq<char> {
        self.tx_type@
    }

    /// The id of the transaction the amount was missing from.
    pub closed spec fn spec_tx(self) -> u32 {
        self.tx
    }

    /// A diagnostic for transaction `tx` of kind `tx_type`.
    pub fn new(tx_type: &'static str, tx: u32) -> (r: MissingAmount)
        ensures
            r.spec_tx_type() == tx_type@,
            r.spec_tx() == tx,
    {
        Self { tx_type, tx }
    }

    /// The diagnostic message.
    pub fn message(&self) -> (r: String)
        ensures
            r@ == "Missing amount for "@ + self.spec_tx_type() + " transaction "@ + spec_digits(
                self.spec_tx() as nat,
            ),
    {
        let mut s = String::new();
        s.append("Missing amount for ");
        s.append(self.tx_type);
        s.append(" transaction ");
        push_digits(self.tx as u64, &mut s);
        s
    }
}

/// A diagnostic for transaction `tx` of kind `tx_type` arriving without an
/// amount.
pub fn missing_amount_error(tx_type: &'static str, tx: u32) -> (r: MissingAmount)
    ensures
        r.spec_tx_type() == tx_type@,
        r.spec_tx() == tx,
{
    MissingAmount::new(tx_type, tx)
}

} // verus!
