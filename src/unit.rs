//! Units: simple CSS units with their compatibility classes and conversion
//! factors, and compound units made by multiplication and division.

use vstd::prelude::*;
use crate::number::{Number, same_ratio};

verus! {

/// 180 * 10^20: with `PI_DIGITS` it gives the size of a radian in degrees.
pub const RAD_NUMER: i128 = 18000000000000000000000;

/// Pi to twenty decimal places, times 10^20.
pub const PI_DIGITS: i128 = 314159265358979323846;

#[derive(Clone, Copy, Debug, PartialEq, Eq, Structural)]
pub enum SimpleUnit {
    In,
    Cm,
    Pc,
    Mm,
    Q,
    Pt,
    Px,
    Em,
    Rem,
    Ex,
    Ch,
    Vw,
    Vh,
    Vmin,
    Vmax,
    Percent,
    Deg,
    Grad,
    Rad,
    Turn,
    S,
    Ms,
    Hz,
    Khz,
    Dpi,
    Dpcm,
    Dppx,
}

/// Units convert into each other only inside one class. `Own` units are
/// compatible with themselves alone.
#[derive(Clone, Copy, Debug, PartialEq, Eq, Structural)]
pub enum UnitClass {
    Length,
    Angle,
    Time,
    Frequency,
    Resolution,
    Own,
}

impl SimpleUnit {
    pub open spec fn class_spec(self) -> UnitClass {
        match self {
            SimpleUnit::In => UnitClass::Length,
            SimpleUnit::Cm => UnitClass::Length,
            SimpleUnit::Pc => UnitClass::Length,
            SimpleUnit::Mm => UnitClass::Length,
            SimpleUnit::Q => UnitClass::Length,
            SimpleUnit::Pt => UnitClass::Length,
            SimpleUnit::Px => UnitClass::Length,
            SimpleUnit::Em => UnitClass::Own,
            SimpleUnit::Rem => UnitClass::Own,
            SimpleUnit::Ex => UnitClass::Own,
            SimpleUnit::Ch => UnitClass::Own,
            SimpleUnit::Vw => UnitClass::Own,
            SimpleUnit::Vh => UnitClass::Own,
            SimpleUnit::Vmin => UnitClass::Own,
            SimpleUnit::Vmax => UnitClass::Own,
            SimpleUnit::Percent => UnitClass::Own,
            SimpleUnit::Deg => UnitClass::Angle,
            SimpleUnit::Grad => UnitClass::Angle,
            SimpleUnit::Rad => UnitClass::Angle,
            SimpleUnit::Turn => UnitClass::Angle,
            SimpleUnit::S => UnitClass::Time,
            SimpleUnit::Ms => UnitClass::Time,
            SimpleUnit::Hz => UnitClass::Frequency,
            SimpleUnit::Khz => UnitClass::Frequency,
            SimpleUnit::Dpi => UnitClass::Resolution,
            SimpleUnit::Dpcm => UnitClass::Resolution,
            SimpleUnit::Dppx => UnitClass::Resolution,
        }
    }

    pub fn class(self) -> (r: UnitClass)
        ensures
            r == self.class_spec(),
    {
        match self {
            SimpleUnit::In => UnitClass::Length,
            SimpleUnit::Cm => UnitClass::Length,
            SimpleUnit::Pc => UnitClass::Length,
            SimpleUnit::Mm => UnitClass::Length,
            SimpleUnit::Q => UnitClass::Length,
            SimpleUnit::Pt => UnitClass::Length,
            SimpleUnit::Px => UnitClass::Length,
            SimpleUnit::Em => UnitClass::Own,
            SimpleUnit::Rem => UnitClass::Own,
            SimpleUnit::Ex => UnitClass::Own,
            SimpleUnit::Ch => UnitClass::Own,
            SimpleUnit::Vw => UnitClass::Own,
            SimpleUnit::Vh => UnitClass::Own,
            SimpleUnit::Vmin => UnitClass::Own,
            SimpleUnit::Vmax => UnitClass::Own,
            SimpleUnit::Percent => UnitClass::Own,
            SimpleUnit::Deg => UnitClass::Angle,
            SimpleUnit::Grad => UnitClass::Angle,
            SimpleUnit::Rad => UnitClass::Angle,
            SimpleUnit::Turn => UnitClass::Angle,
            SimpleUnit::S => UnitClass::Time,
            SimpleUnit::Ms => UnitClass::Time,
            SimpleUnit::Hz => UnitClass::Frequency,
            SimpleUnit::Khz => UnitClass::Frequency,
            SimpleUnit::Dpi => UnitClass::Resolution,
            SimpleUnit::Dpcm => UnitClass::Resolution,
            SimpleUnit::Dppx => UnitClass::Resolution,
        }
    }

    /// Numerator of the unit's size in its class's base unit.
    pub open spec fn factor_num(self) -> int {
        match self {
            SimpleUnit::In => 1,
            SimpleUnit::Cm => 50,
            SimpleUnit::Pc => 1,
            SimpleUnit::Mm => 5,
            SimpleUnit::Q => 5,
            SimpleUnit::Pt => 1,
            SimpleUnit::Px => 1,
            SimpleUnit::Em => 1,
            SimpleUnit::Rem => 1,
            SimpleUnit::Ex => 1,
            SimpleUnit::Ch => 1,
            SimpleUnit::Vw => 1,
            SimpleUnit::Vh => 1,
            SimpleUnit::Vmin => 1,
            SimpleUnit::Vmax => 1,
            SimpleUnit::Percent => 1,
            SimpleUnit::Deg => 1,
            SimpleUnit::Grad => 9,
            SimpleUnit::Rad => RAD_NUMER as int,
            SimpleUnit::Turn => 360,
            SimpleUnit::S => 1,
            SimpleUnit::Ms => 1,
            SimpleUnit::Hz => 1,
            SimpleUnit::Khz => 1000,
            SimpleUnit::Dpi => 1,
            SimpleUnit::Dpcm => 127,
            SimpleUnit::Dppx => 96,
        }
    }

    /// Denominator of the unit's size in its class's base unit.
    pub open spec fn factor_den(self) -> int {
        match self {
            SimpleUnit::In => 1,
            SimpleUnit::Cm => 127,
            SimpleUnit::Pc => 6,
            SimpleUnit::Mm => 127,
            SimpleUnit::Q => 508,
            SimpleUnit::Pt => 72,
            SimpleUnit::Px => 96,
            SimpleUnit::Em => 1,
            SimpleUnit::Rem => 1,
            SimpleUnit::Ex => 1,
            SimpleUnit::Ch => 1,
            SimpleUnit::Vw => 1,
            SimpleUnit::Vh => 1,
            SimpleUnit::Vmin => 1,
            SimpleUnit::Vmax => 1,
            SimpleUnit::Percent => 1,
            SimpleUnit::Deg => 1,
            SimpleUnit::Grad => 10,
            SimpleUnit::Rad => PI_DIGITS as int,
            SimpleUnit::Turn => 1,
            SimpleUnit::S => 1,
            SimpleUnit::Ms => 1000,
            SimpleUnit::Hz => 1,
            SimpleUnit::Khz => 1,
            SimpleUnit::Dpi => 1,
            SimpleUnit::Dpcm => 50,
            SimpleUnit::Dppx => 1,
        }
    }

    /// The unit's size in its class's base unit, as a fraction.
    pub fn factor(self) -> (r: (i128, i128))
        ensures
            r.0 == self.factor_num(),
            r.1 == self.factor_den(),
            r.0 > 0,
            r.1 > 0,
    {
        match self {
            SimpleUnit::In => (1, 1),
            SimpleUnit::Cm => (50, 127),
            SimpleUnit::Pc => (1, 6),
            SimpleUnit::Mm => (5, 127),
            SimpleUnit::Q => (5, 508),
            SimpleUnit::Pt => (1, 72),
            SimpleUnit::Px => (1, 96),
            SimpleUnit::Em => (1, 1),
            SimpleUnit::Rem => (1, 1),
            SimpleUnit::Ex => (1, 1),
            SimpleUnit::Ch => (1, 1),
            SimpleUnit::Vw => (1, 1),
            SimpleUnit::Vh => (1, 1),
            SimpleUnit::Vmin => (1, 1),
            SimpleUnit::Vmax => (1, 1),
            SimpleUnit::Percent => (1, 1),
            SimpleUnit::Deg => (1, 1),
            SimpleUnit::Grad => (9, 10),
            SimpleUnit::Rad => (RAD_NUMER, PI_DIGITS),
            SimpleUnit::Turn => (360, 1),
            SimpleUnit::S => (1, 1),
            SimpleUnit::Ms => (1, 1000),
            SimpleUnit::Hz => (1, 1),
            SimpleUnit::Khz => (1000, 1),
            SimpleUnit::Dpi => (1, 1),
            SimpleUnit::Dpcm => (127, 50),
            SimpleUnit::Dppx => (96, 1),
        }
    }

    pub open spec fn name_spec(self) -> Seq<char> {
        match self {
            SimpleUnit::In => "in"@,
            SimpleUnit::Cm => "cm"@,
            SimpleUnit::Pc => "pc"@,
            SimpleUnit::Mm => "mm"@,
            SimpleUnit::Q => "q"@,
            SimpleUnit::Pt => "pt"@,
            SimpleUnit::Px => "px"@,
            SimpleUnit::Em => "em"@,
            SimpleUnit::Rem => "rem"@,
            SimpleUnit::Ex => "ex"@,
            SimpleUnit::Ch => "ch"@,
            SimpleUnit::Vw => "vw"@,
            SimpleUnit::Vh => "vh"@,
            SimpleUnit::Vmin => "vmin"@,
            SimpleUnit::Vmax => "vmax"@,
            SimpleUnit::Percent => "%"@,
            SimpleUnit::Deg => "deg"@,
            SimpleUnit::Grad => "grad"@,
            SimpleUnit::Rad => "rad"@,
            SimpleUnit::Turn => "turn"@,
            SimpleUnit::S => "s"@,
            SimpleUnit::Ms => "ms"@,
            SimpleUnit::Hz => "Hz"@,
            SimpleUnit::Khz => "kHz"@,
            SimpleUnit::Dpi => "dpi"@,
            SimpleUnit::Dpcm => "dpcm"@,
            SimpleUnit::Dppx => "dppx"@,
        }
    }

    pub fn name(self) -> (r: &'static str)
        ensures
            r@ == self.name_spec(),
    {
        match self {
            SimpleUnit::In => "in",
            SimpleUnit::Cm => "cm",
            SimpleUnit::Pc => "pc",
            SimpleUnit::Mm => "mm",
            SimpleUnit::Q => "q",
            SimpleUnit::Pt => "pt",
            SimpleUnit::Px => "px",
            SimpleUnit::Em => "em",
            SimpleUnit::Rem => "rem",
            SimpleUnit::Ex => "ex",
            SimpleUnit::Ch => "ch",
            SimpleUnit::Vw => "vw",
            SimpleUnit::Vh => "vh",
            SimpleUnit::Vmin => "vmin",
            SimpleUnit::Vmax => "vmax",
            SimpleUnit::Percent => "%",
            SimpleUnit::Deg => "deg",
            SimpleUnit::Grad => "grad",
            SimpleUnit::Rad => "rad",
            SimpleUnit::Turn => "turn",
            SimpleUnit::S => "s",
            SimpleUnit::Ms => "ms",
            SimpleUnit::Hz => "Hz",
            SimpleUnit::Khz => "kHz",
            SimpleUnit::Dpi => "dpi",
            SimpleUnit::Dpcm => "dpcm",
            SimpleUnit::Dppx => "dppx",
        }
    }
}

/// A unit: none, one simple unit, a product of simple units, or a quotient
/// of two such products.
#[derive(Debug)]
pub enum Unit {
    Dimensionless,
    Simple(SimpleUnit),
    Mul(Vec<SimpleUnit>),
    Div(Vec<SimpleUnit>, Vec<SimpleUnit>),
}

/// Names joined by `*`.
pub open spec fn product_text(s: Seq<SimpleUnit>) -> Seq<char>
    decreases s.len(),
{
    if s.len() == 0 {
        seq![]
    } else if s.len() == 1 {
        s[0].name_spec()
    } else {
        product_text(s.drop_last()) + seq!['*'] + s.last().name_spec()
    }
}

/// `u` is the unit whose factors are `n` over `d`.
pub open spec fn built_from(u: Unit, n: Seq<SimpleUnit>, d: Seq<SimpleUnit>) -> bool {
    match u {
        Unit::Dimensionless => n.len() == 0 && d.len() == 0,
        Unit::Simple(x) => d.len() == 0 && n == seq![x],
        Unit::Mul(v) => d.len() == 0 && n.len() >= 2 && v@ == n,
        Unit::Div(a, b) => d.len() > 0 && a@ == n && b@ == d,
    }
}

impl Clone for Unit {
    fn clone(&self) -> (r: Self)
        ensures
            r.same(*self),
    {
        match self {
            Unit::Dimensionless => Unit::Dimensionless,
            Unit::Simple(x) => Unit::Simple(*x),
            Unit::Mul(v) => Unit::Mul(v.clone()),
            Unit::Div(a, b) => Unit::Div(a.clone(), b.clone()),
        }
    }
}

impl Unit {
    /// Factors above the fraction bar.
    pub open spec fn numer_factors(self) -> Seq<SimpleUnit> {
        match self {
            Unit::Dimensionless => seq![],
            Unit::Simple(x) => seq![x],
            Unit::Mul(v) => v@,
            Unit::Div(a, _) => a@,
        }
    }

    /// Factors below the fraction bar.
    pub open spec fn denom_factors(self) -> Seq<SimpleUnit> {
        match self {
            Unit::Div(_, b) => b@,
            _ => seq![],
        }
    }

    pub open spec fn is_compound(self) -> bool {
        self is Mul || self is Div
    }

    /// Unit equality: same shape, same factors in the same order.
    pub open spec fn same(self, other: Unit) -> bool {
        match (self, other) {
            (Unit::Dimensionless, Unit::Dimensionless) => true,
            (Unit::Simple(x), Unit::Simple(y)) => x == y,
            (Unit::Mul(v), Unit::Mul(w)) => v@ == w@,
            (Unit::Div(a, b), Unit::Div(c, d)) => a@ == c@ && b@ == d@,
            _ => false,
        }
    }

    /// Values in the two units can be compared or converted.
    pub open spec fn comparable_spec(self, other: Unit) -> bool {
        match (self, other) {
            (Unit::Dimensionless, _) => true,
            (_, Unit::Dimensionless) => true,
            (Unit::Simple(x), Unit::Simple(y)) => x.class_spec() == y.class_spec() && (
            x.class_spec() != UnitClass::Own || x == y),
            _ => self.same(other),
        }
    }

    pub open spec fn text_spec(self) -> Seq<char> {
        match self {
            Unit::Dimensionless => seq![],
            Unit::Simple(x) => x.name_spec(),
            Unit::Mul(v) => product_text(v@),
            Unit::Div(a, b) => product_text(a@) + seq!['/'] + product_text(b@),
        }
    }

    pub fn is_none(&self) -> (r: bool)
        ensures
            r == (*self is Dimensionless),
    {
        match self {
            Unit::Dimensionless => true,
            _ => false,
        }
    }

    pub fn same_as(&self, other: &Unit) -> (r: bool)
        ensures
            r == self.same(*other),
    {
        match (self, other) {
            (Unit::Dimensionless, Unit::Dimensionless) => true,
            (Unit::Simple(x), Unit::Simple(y)) => *x == *y,
            (Unit::Mul(v), Unit::Mul(w)) => same_factors(v, w),
            (Unit::Div(a, b), Unit::Div(c, d)) => same_factors(a, c) && same_factors(b, d),
            _ => false,
        }
    }

    pub fn comparable(&self, other: &Unit) -> (r: bool)
        ensures
            r == self.comparable_spec(*other),
    {
        match (self, other) {
            (Unit::Dimensionless, _) => true,
            (_, Unit::Dimensionless) => true,
            (Unit::Simple(x), Unit::Simple(y)) => {
                let cx = x.class();
                cx == y.class() && (cx != UnitClass::Own || *x == *y)
            },
            _ => self.same_as(other),
        }
    }

    /// The unit's text: `px`, `px*rad`, `px/s`; empty for no unit.
    pub fn to_text(&self) -> (r: String)
        ensures
            r@ == self.text_spec(),
    {
        match self {
            Unit::Dimensionless => String::new(),
            Unit::Simple(x) => {
                let mut s = String::new();
                s.push_str(x.name());
                s
            },
            Unit::Mul(v) => join_product(v),
            Unit::Div(a, b) => {
                let mut s = join_product(a);
                s.push('/');
                let t = join_product(b);
                s.push_str(t.as_str());
                s
            },
        }
    }

    /// The unit of a product: the factors of both, in operand order.
    pub fn mul(&self, other: &Unit) -> (r: Unit)
        ensures
            built_from(r, self.numer_factors() + other.numer_factors(), self.denom_factors()
                + other.denom_factors()),
    {
        let mut n = self.numer_vec();
        let mut m = other.numer_vec();
        let mut d = self.denom_vec();
        let mut e = other.denom_vec();
        n.append(&mut m);
        d.append(&mut e);
        from_factors(n, d)
    }

    /// The unit of a quotient: none when the units are the same, else the
    /// divisor's factors move across the fraction bar.
    pub fn div(&self, other: &Unit) -> (r: Unit)
        ensures
            self.same(*other) ==> r is Dimensionless,
            !self.same(*other) ==> built_from(r, self.numer_factors() + other.denom_factors(),
                self.denom_factors() + other.numer_factors()),
    {
        if self.same_as(other) {
            return Unit::Dimensionless;
        }
        let mut n = self.numer_vec();
        let mut m = other.denom_vec();
        let mut d = self.denom_vec();
        let mut e = other.numer_vec();
        n.append(&mut m);
        d.append(&mut e);
        from_factors(n, d)
    }

    fn numer_vec(&self) -> (r: Vec<SimpleUnit>)
        ensures
            r@ == self.numer_factors(),
    {
        match self {
            Unit::Dimensionless => Vec::new(),
            Unit::Simple(x) => vec![*x],
            Unit::Mul(v) => v.clone(),
            Unit::Div(a, _) => a.clone(),
        }
    }

    fn denom_vec(&self) -> (r: Vec<SimpleUnit>)
        ensures
            r@ == self.denom_factors(),
    {
        match self {
            Unit::Div(_, b) => b.clone(),
            _ => Vec::new(),
        }
    }
}

fn from_factors(n: Vec<SimpleUnit>, d: Vec<SimpleUnit>) -> (r: Unit)
    ensures
        built_from(r, n@, d@),
{
    if d.len() > 0 {
        Unit::Div(n, d)
    } else if n.len() == 0 {
        Unit::Dimensionless
    } else if n.len() == 1 {
        proof {
            assert(n@ =~= seq![n@[0]]);
        }
        Unit::Simple(n[0])
    } else {
        Unit::Mul(n)
    }
}

fn same_factors(a: &Vec<SimpleUnit>, b: &Vec<SimpleUnit>) -> (r: bool)
    ensures
        r == (a@ == b@),
{
    if a.len() != b.len() {
        return false;
    }
    let mut i: usize = 0;
    while i < a.len()
        invariant
            a.len() == b.len(),
            i <= a.len(),
            forall|j: int| 0 <= j < i ==> a@[j] == b@[j],
        decreases a.len() - i,
    {
        if a[i] != b[i] {
            return false;
        }
        i = i + 1;
    }
    proof {
        assert(a@ =~= b@);
    }
    true
}

fn join_product(v: &Vec<SimpleUnit>) -> (r: String)
    ensures
        r@ == product_text(v@),
{
    let mut s = String::new();
    let mut i: usize = 0;
    while i < v.len()
        invariant
            i <= v.len(),
            s@ == product_text(v@.subrange(0, i as int)),
        decreases v.len() - i,
    {
        proof {
            assert(v@.subrange(0, i + 1).drop_last() =~= v@.subrange(0, i as int));
        }
        if i > 0 {
            s.push('*');
        }
        s.push_str(v[i].name());
        i = i + 1;
        proof {
            assert(s@ =~= product_text(v@.subrange(0, i as int)));
        }
    }
    proof {
        assert(v@.subrange(0, v.len() as int) =~= v@);
    }
    s
}

/// Rescales `x`, measured in `from`, to the unit `to` of the same class.
pub fn convert(x: &Number, from: SimpleUnit, to: SimpleUnit) -> (r: Number)
    ensures
        same_ratio(r.num(), r.den(), x.num() * from.factor_num() * to.factor_den(), x.den()
            * from.factor_den() * to.factor_num()),
{
    proof {
        use_type_invariant(x);
    }
    let (fa, fb) = from.factor();
    let (ta, tb) = to.factor();
    let f = Number::ratio(fa, fb);
    let t = Number::ratio(ta, tb);
    proof {
        use_type_invariant(&f);
        use_type_invariant(&t);
    }
    let y = x.mul(&f);
    proof {
        use_type_invariant(&y);
        assert(t.num() != 0) by (nonlinear_arith)
            requires
                t.num() * tb == ta * t.den(),
                ta > 0,
                tb > 0,
                t.den() > 0,
        ;
    }
    let r = y.div(&t);
    proof {
        use_type_invariant(&r);
        lemma_convert_ratio(x.num(), x.den(), f.num(), f.den(), t.num(), t.den(), y.num(),
            y.den(), r.num(), r.den(), fa as int, fb as int, ta as int, tb as int);
    }
    r
}

proof fn lemma_convert_ratio(
    xn: int,
    xd: int,
    fnu: int,
    fd: int,
    tn: int,
    td: int,
    yn: int,
    yd: int,
    rn: int,
    rd: int,
    fa: int,
    fb: int,
    ta: int,
    tb: int,
)
    requires
        xd > 0,
        fd > 0,
        td > 0,
        yd > 0,
        rd > 0,
        fb > 0,
        tb > 0,
        ta > 0,
        fnu * fb == fa * fd,
        tn * tb == ta * td,
        yn * (xd * fd) == (xn * fnu) * yd,
        (rn * tn) * yd == yn * (rd * td),
    ensures
        rn * (xd * fb * ta) == (xn * fa * tb) * rd,
{
    assert(((rn * tn) * yd) * tb == (yn * (rd * td)) * tb);
    assert(((rn * tn) * yd) * tb == (rn * yd) * (tn * tb)) by (nonlinear_arith);
    assert((rn * yd) * (tn * tb) == (rn * yd) * (ta * td));
    assert((rn * yd) * (ta * td) == td * (rn * ta * yd)) by (nonlinear_arith);
    assert((yn * (rd * td)) * tb == td * (yn * rd * tb)) by (nonlinear_arith);
    vstd::arithmetic::mul::lemma_mul_equality_converse(td, rn * ta * yd, yn * rd * tb);
    let p = xd * fd;
    assert((rn * ta * yd) * p == (yn * rd * tb) * p);
    assert((rn * ta * yd) * p == yd * (rn * ta * xd * fd)) by (nonlinear_arith)
        requires
            p == xd * fd,
    ;
    assert((yn * rd * tb) * p == (yn * p) * (rd * tb)) by (nonlinear_arith);
    assert((yn * p) * (rd * tb) == ((xn * fnu) * yd) * (rd * tb));
    assert(((xn * fnu) * yd) * (rd * tb) == yd * (xn * fnu * rd * tb)) by (nonlinear_arith);
    vstd::arithmetic::mul::lemma_mul_equality_converse(yd, rn * ta * xd * fd, xn * fnu * rd * tb);
    assert((rn * ta * xd * fd) * fb == (xn * fnu * rd * tb) * fb);
    assert((rn * ta * xd * fd) * fb == fd * (rn * (xd * fb * ta))) by (nonlinear_arith);
    assert((xn * fnu * rd * tb) * fb == (fnu * fb) * (xn * rd * tb)) by (nonlinear_arith);
    assert((fnu * fb) * (xn * rd * tb) == (fa * fd) * (xn * rd * tb));
    assert((fa * fd) * (xn * rd * tb) == fd * ((xn * fa * tb) * rd)) by (nonlinear_arith);
    vstd::arithmetic::mul::lemma_mul_equality_converse(fd, rn * (xd * fb * ta), (xn * fa * tb) * rd);
}

} // verus!
