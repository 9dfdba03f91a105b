use rust_decimal::Decimal;
use vstd::prelude::*;

verus! {

/// Most fractional digits an amount may carry.
pub const MAX_DP: u32 = 4;

/// Largest magnitude of an amount, in ten-thousandths of a unit.
pub const MAX_UNITS: i128 = 1_000_000_000_000_000_000_000_000;

/// `10^(4 - scale)`: how many ten-thousandths one step of the last digit is worth.
pub open spec fn unit_factor(scale: int) -> int {
    if scale == 0 {
        10000
    } else if scale == 1 {
        1000
    } else if scale == 2 {
        100
    } else if scale == 3 {
        10
    } else {
        1
    }
}

/// A value in ten-thousandths that an `Amount` can hold.
pub open spec fn in_range(units: int) -> bool {
    -MAX_UNITS <= units <= MAX_UNITS
}

/// Whether `mantissa * 10^-scale` is a value an `Amount` can hold.
pub open spec fn parts_valid(mantissa: int, scale: int) -> bool {
    0 <= scale <= MAX_DP && in_range(mantissa * unit_factor(scale))
}

/// The mantissa and scale that `Decimal`'s `+` gives for two decimals,
/// each given by its mantissa and scale.
pub uninterp spec fn decimal_sum(am: int, ascale: int, bm: int, bscale: int) -> (int, int);

/// The text that `Decimal`'s `Display` gives for a mantissa and a scale.
pub uninterp spec fn decimal_text(mantissa: int, scale: int) -> Seq<char>;

/// The mantissa and scale of `a + b`, as `Decimal` computes it.
pub open spec fn sum_parts(a: Amount, b: Amount) -> (int, int) {
    decimal_sum(a.spec_mantissa(), a.spec_scale(), b.spec_mantissa(), b.spec_scale())
}

/// A signed decimal amount: `mantissa * 10^-scale`, with at most four
/// fractional digits. The scale is kept as given, so `1.00` and `1` are
/// the same value written differently.
#[derive(Clone, Copy, Debug)]
pub struct Amount {
    mantissa: i128,
    scale: u32,
}

impl Amount {
    #[verifier::type_invariant]
    spec fn inv(self) -> bool {
        parts_valid(self.mantissa as int, self.scale as int)
    }

    /// The value in ten-thousandths of a unit.
    pub closed spec fn value(self) -> int {
        self.mantissa * unit_factor(self.scale as int)
    }

    pub closed spec fn spec_mantissa(self) -> int {
        self.mantissa as int
    }

    pub closed spec fn spec_scale(self) -> int {
        self.scale as int
    }

    /// `mantissa * 10^-scale`, or `None` where that is not a value an
    /// amount can hold.
    pub fn new(mantissa: i128, scale: u32) -> (r: Option<Amount>)
        ensures
            r is Some <==> parts_valid(mantissa as int, scale as int),
            r matches Some(a) ==> a.spec_mantissa() == mantissa && a.spec_scale() == scale
                && a.value() == mantissa * unit_factor(scale as int),
    {
        if scale > MAX_DP || mantissa < -MAX_UNITS || mantissa > MAX_UNITS {
            return None;
        }
        let units = mantissa * Self::factor(scale);
        if units < -MAX_UNITS || units > MAX_UNITS {
            None
        } else {
            Some(Amount { mantissa, scale })
        }
    }

    /// Zero, with no fractional digits.
    pub fn zero() -> (r: Amount)
        ensures
            r.value() == 0,
            r.spec_mantissa() == 0,
            r.spec_scale() == 0,
    {
        Amount { mantissa: 0, scale: 0 }
    }

    fn factor(scale: u32) -> (r: i128)
        requires
            scale <= MAX_DP,
        ensures
            r == unit_factor(scale as int),
    {
        if scale == 0 {
            10000
        } else if scale == 1 {
            1000
        } else if scale == 2 {
            100
        } else if scale == 3 {
            10
        } else {
            1
        }
    }

    pub fn mantissa(&self) -> (r: i128)
        ensures
            r == self.spec_mantissa(),
    {
        self.mantissa
    }

    pub fn scale(&self) -> (r: u32)
        ensures
            r == self.spec_scale(),
    {
        self.scale
    }

    /// The value in ten-thousandths of a unit.
    pub fn units(&self) -> (r: i128)
        ensures
            r == self.value(),
            in_range(r as int),
    {
        proof {
            use_type_invariant(self);
        }
        self.mantissa * Self::factor(self.scale)
    }

    /// The amount as `Decimal` writes it: `1.00`, `-7.0`, `0`.
    pub open spec fn text(self) -> Seq<char> {
        decimal_text(self.spec_mantissa(), self.spec_scale())
    }

    /// The amount as `Decimal` writes it.
    pub fn to_text(&self) -> (r: String)
        ensures
            r@ == self.text(),
    {
        proof {
            use_type_invariant(self);
        }
        decimal_to_text(self.mantissa, self.scale)
    }

    /// The sum of two amounts, as `Decimal` writes it.
    pub fn plus(self, other: Amount) -> (r: Amount)
        requires
            in_range(self.value() + other.value()),
        ensures
            r.value() == self.value() + other.value(),
            (r.spec_mantissa(), r.spec_scale()) == sum_parts(self, other),
    {
        proof {
            use_type_invariant(self);
            use_type_invariant(other);
        }
        let (m, s) = decimal_add(self.mantissa, self.scale, other.mantissa, other.scale);
        Amount { mantissa: m, scale: s }
    }

    /// The difference of two amounts, as `Decimal` writes it.
    pub fn minus(self, other: Amount) -> (r: Amount)
        requires
            in_range(self.value() - other.value()),
        ensures
            r.value() == self.value() - other.value(),
    {
        proof {
            use_type_invariant(self);
            use_type_invariant(other);
        }
        let (m, s) = decimal_sub(self.mantissa, self.scale, other.mantissa, other.scale);
        Amount { mantissa: m, scale: s }
    }
}

/// Amounts compare by value, as `Decimal`s do: `1.00 == 1`.
impl PartialEq for Amount {
    fn eq(&self, other: &Amount) -> (r: bool) {
        self.units() == other.units()
    }
}

impl vstd::std_specs::cmp::PartialEqSpecImpl for Amount {
    open spec fn obeys_eq_spec() -> bool {
        true
    }

    open spec fn eq_spec(&self, other: &Amount) -> bool {
        self.value() == other.value()
    }
}

/// Relies on `Decimal`'s `+` (rust_decimal): it aligns both operands on the
/// larger scale and adds exactly; it rounds only where the sum leaves 96
/// bits, which a sum of two values within `MAX_UNITS` at scale four cannot.
/// A zero operand hands back the other one as it is.
#[verifier::external_body]
fn decimal_add(am: i128, ascale: u32, bm: i128, bscale: u32) -> (r: (i128, u32))
    requires
        parts_valid(am as int, ascale as int),
        parts_valid(bm as int, bscale as int),
        in_range(am * unit_factor(ascale as int) + bm * unit_factor(bscale as int)),
    ensures
        r.1 <= ascale || r.1 <= bscale,
        (r.0 as int, r.1 as int) == decimal_sum(am as int, ascale as int, bm as int, bscale as int),
        r.0 * unit_factor(r.1 as int) == am * unit_factor(ascale as int) + bm * unit_factor(
            bscale as int,
        ),
{
    let d = Decimal::from_i128_with_scale(am, ascale) + Decimal::from_i128_with_scale(bm, bscale);
    (d.mantissa(), d.scale())
}

/// Relies on `Decimal`'s `Display` (rust_decimal): the text depends on the
/// mantissa and the scale alone.
#[verifier::external_body]
fn decimal_to_text(mantissa: i128, scale: u32) -> (r: String)
    requires
        parts_valid(mantissa as int, scale as int),
    ensures
        r@ == decimal_text(mantissa as int, scale as int),
{
    Decimal::from_i128_with_scale(mantissa, scale).to_string()
}

/// Relies on `Decimal`'s `-` (rust_decimal), which shares the aligned,
/// exact path of `+` above.
#[verifier::external_body]
fn decimal_sub(am: i128, ascale: u32, bm: i128, bscale: u32) -> (r: (i128, u32))
    requires
        parts_valid(am as int, ascale as int),
        parts_valid(bm as int, bscale as int),
        in_range(am * unit_factor(ascale as int) - bm * unit_factor(bscale as int)),
    ensures
        r.1 <= ascale || r.1 <= bscale,
        r.0 * unit_factor(r.1 as int) == am * unit_factor(ascale as int) - bm * unit_factor(
            bscale as int,
        ),
{
    let d = Decimal::from_i128_with_scale(am, ascale) - Decimal::from_i128_with_scale(bm, bscale);
    (d.mantissa(), d.scale())
}

} // verus!
