//! Decimal numbers by their binary64 encoding.
//!
//! The library carries a decimal as the 64 bits of its IEEE 754 double. What
//! needs no rounding is decided here on those bits: sign, zero, order,
//! negation, and the nearest decimal of a whole number. Sums, products,
//! quotients and text come from the host (see [`crate::sesion::Pedido`]).

use vstd::prelude::*;

verus! {

/// The bit that holds the sign.
pub const BIT_SIGNO: u64 = 0x8000_0000_0000_0000;

/// The encoding of positive infinity; larger magnitudes encode no number.
pub const INFINITO: u64 = 0x7ff0_0000_0000_0000;

/// The weight of the exponent's lowest bit, which is 2 to the 52.
pub const UNIDAD_EXPONENTE: u64 = 0x0010_0000_0000_0000;

/// An IEEE 754 double, held as its bits.
#[derive(Debug, Clone, Copy, PartialEq, Eq, Structural)]
pub struct Decimal {
    pub bits: u64,
}

/// How a decimal is shown as text.
#[derive(Debug, Clone, Copy, PartialEq, Eq, Structural)]
pub enum Estilo {
    /// With one digit after the point.
    UnDigito,
    /// With the fewest digits that tell it apart.
    Corto,
}

/// Two to the power `n`.
pub open spec fn potencia_de_dos(n: nat) -> nat
    decreases n,
{
    if n == 0 {
        1
    } else {
        2 * potencia_de_dos((n - 1) as nat)
    }
}

/// The position of the highest bit of `n`, for `n` above zero.
pub open spec fn bit_mas_alto(n: nat) -> nat
    decreases n,
{
    if n <= 1 {
        0
    } else {
        1 + bit_mas_alto(n / 2)
    }
}

/// `n / p` to the nearest whole number, a tie to the even one.
pub open spec fn cociente_redondeado(n: nat, p: nat) -> nat {
    let q = n / p;
    let resto = n % p;
    if 2 * resto > p || (2 * resto == p && q % 2 == 1) {
        q + 1
    } else {
        q
    }
}

/// The bits of the double nearest to `n`, a tie to the even significand.
pub open spec fn bits_de_natural(n: nat) -> nat {
    if n == 0 {
        0
    } else {
        let e = bit_mas_alto(n);
        let significando = if e <= 52 {
            n * potencia_de_dos((52 - e) as nat)
        } else {
            cociente_redondeado(n, potencia_de_dos((e - 52) as nat))
        };
        (e + 1022) * UNIDAD_EXPONENTE as nat + significando
    }
}

/// The double nearest to the whole number `n`.
pub open spec fn decimal_de_entero(n: int) -> Decimal {
    if n < 0 {
        Decimal { bits: (BIT_SIGNO + bits_de_natural((-n) as nat)) as u64 }
    } else {
        Decimal { bits: bits_de_natural(n as nat) as u64 }
    }
}

impl Decimal {
    /// The encoding without its sign.
    pub open spec fn magnitud(self) -> int {
        if self.bits >= BIT_SIGNO {
            self.bits - BIT_SIGNO
        } else {
            self.bits as int
        }
    }

    /// Whether the encoding is that of "not a number".
    pub open spec fn no_es_numero(self) -> bool {
        self.magnitud() > INFINITO
    }

    /// Whether the encoding is that of a finite number.
    pub open spec fn finito(self) -> bool {
        self.magnitud() < INFINITO
    }

    /// Whether the number is zero, of either sign.
    pub open spec fn cero(self) -> bool {
        self.magnitud() == 0
    }

    /// Where the number stands in the order of numbers. Both zeros stand at 0.
    pub open spec fn rango(self) -> int {
        if self.bits >= BIT_SIGNO {
            -self.magnitud()
        } else {
            self.magnitud()
        }
    }

    /// Whether nothing is left of the number beyond its whole part. Nothing is
    /// left of an infinity.
    pub open spec fn entero(self) -> bool {
        let m = self.magnitud();
        let e = m / (UNIDAD_EXPONENTE as int);
        let fraccion = m % (UNIDAD_EXPONENTE as int);
        if self.no_es_numero() {
            false
        } else if e < 1023 {
            m == 0
        } else {
            e >= 1075 || fraccion % (potencia_de_dos((1075 - e) as nat) as int) == 0
        }
    }

    /// How the number is shown: a whole one with one digit after the point.
    pub open spec fn estilo_spec(self) -> Estilo {
        if self.entero() {
            Estilo::UnDigito
        } else {
            Estilo::Corto
        }
    }

    /// Equality of numbers: what is no number equals nothing.
    pub open spec fn igual_spec(self, otro: Decimal) -> bool {
        !self.no_es_numero() && !otro.no_es_numero() && self.rango() == otro.rango()
    }

    /// Order of numbers: what is no number is below nothing and above nothing.
    pub open spec fn menor_spec(self, otro: Decimal) -> bool {
        !self.no_es_numero() && !otro.no_es_numero() && self.rango() < otro.rango()
    }

    /// The same number with the other sign.
    pub open spec fn negado_spec(self) -> Decimal {
        if self.bits >= BIT_SIGNO {
            Decimal { bits: (self.bits - BIT_SIGNO) as u64 }
        } else {
            Decimal { bits: (self.bits + BIT_SIGNO) as u64 }
        }
    }

    fn sin_signo(&self) -> (r: u64)
        ensures
            r == self.magnitud(),
            r < BIT_SIGNO,
    {
        if self.bits >= BIT_SIGNO {
            self.bits - BIT_SIGNO
        } else {
            self.bits
        }
    }

    /// Whether the number is finite.
    pub fn es_finito(&self) -> (r: bool)
        ensures
            r == self.finito(),
    {
        self.sin_signo() < INFINITO
    }

    /// Whether the number is zero, of either sign.
    pub fn es_cero(&self) -> (r: bool)
        ensures
            r == self.cero(),
    {
        self.sin_signo() == 0
    }

    /// Whether nothing is left of the number beyond its whole part.
    pub fn es_entero(&self) -> (r: bool)
        ensures
            r == self.entero(),
    {
        let m = self.sin_signo();
        let e = m / UNIDAD_EXPONENTE;
        if m > INFINITO {
            return false;
        }
        if e < 1023 {
            return m == 0;
        }
        if e >= 1075 {
            return true;
        }
        let mut w: u64 = 1;
        let mut k: u64 = 1075;
        while k > e
            invariant
                1023 <= e <= k <= 1075,
                w == potencia_de_dos((1075 - k) as nat),
                1 <= w <= UNIDAD_EXPONENTE,
            decreases k,
        {
            proof {
                assert((1075 - (k - 1)) as nat - 1 == (1075 - k) as nat);
                lema_potencia_crece((1075 - (k - 1)) as nat, 52);
                lema_peso_52();
            }
            w = 2 * w;
            k = k - 1;
        }
        (m % UNIDAD_EXPONENTE) % w == 0
    }

    /// How the number is shown.
    pub fn estilo(&self) -> (r: Estilo)
        ensures
            r == self.estilo_spec(),
    {
        if self.es_entero() {
            Estilo::UnDigito
        } else {
            Estilo::Corto
        }
    }

    /// Whether both are numbers and the same one.
    pub fn igual(&self, otro: &Decimal) -> (r: bool)
        ensures
            r == self.igual_spec(*otro),
    {
        let a = self.sin_signo();
        let b = otro.sin_signo();
        if a > INFINITO || b > INFINITO {
            false
        } else {
            a == b && (a == 0 || (self.bits >= BIT_SIGNO) == (otro.bits >= BIT_SIGNO))
        }
    }

    /// Whether both are numbers and this one is the lesser.
    pub fn menor(&self, otro: &Decimal) -> (r: bool)
        ensures
            r == self.menor_spec(*otro),
    {
        let a = self.sin_signo();
        let b = otro.sin_signo();
        if a > INFINITO || b > INFINITO {
            false
        } else if self.bits >= BIT_SIGNO {
            if otro.bits >= BIT_SIGNO {
                b < a
            } else {
                a != 0 || b != 0
            }
        } else {
            otro.bits < BIT_SIGNO && a < b
        }
    }

    /// Whether both are numbers and this one is the lesser or the same.
    pub fn menor_igual(&self, otro: &Decimal) -> (r: bool)
        ensures
            r == (self.menor_spec(*otro) || self.igual_spec(*otro)),
    {
        self.menor(otro) || self.igual(otro)
    }

    /// The same number with the other sign.
    pub fn negado(&self) -> (r: Decimal)
        ensures
            r == self.negado_spec(),
    {
        if self.bits >= BIT_SIGNO {
            Decimal { bits: self.bits - BIT_SIGNO }
        } else {
            Decimal { bits: self.bits + BIT_SIGNO }
        }
    }

    /// The double nearest to a natural number.
    pub fn de_natural(n: u64) -> (r: Decimal)
        ensures
            r.bits == bits_de_natural(n as nat),
            r == decimal_de_entero(n as int),
            r.bits < INFINITO,
    {
        if n == 0 {
            return Decimal { bits: 0 };
        }
        let mut e: u64 = 0;
        let mut t: u64 = n;
        let mut p: u64 = 1;
        while t > 1
            invariant
                1 <= t,
                e < 64,
                e + bit_mas_alto(t as nat) == bit_mas_alto(n as nat),
                p == potencia_de_dos(e as nat),
                p * t <= n,
                n < p * (t + 1),
            decreases t,
        {
            let mitad: u64 = t / 2;
            proof {
                assert(p * t <= n && n < p * (t + 1) && t == 2 * mitad + t % 2 && t % 2 <= 1
                    && mitad >= 1 ==> (2 * p) * mitad <= n && n < (2 * p) * (mitad + 1)
                    && 2 * p <= n) by (nonlinear_arith);
                lema_potencia_acotada((e + 1) as nat);
            }
            p = 2 * p;
            e = e + 1;
            t = mitad;
        }
        proof {
            assert(p * 1 == p && p * 2 == 2 * p) by (nonlinear_arith);
        }
        Self::componer(n, e, p)
    }

    /// Puts the bits together, given the highest bit's position and weight.
    fn componer(n: u64, e: u64, p: u64) -> (r: Decimal)
        requires
            n > 0,
            e < 64,
            e == bit_mas_alto(n as nat),
            p == potencia_de_dos(e as nat),
            p <= n < 2 * p,
        ensures
            r.bits == bits_de_natural(n as nat),
            r.bits < INFINITO,
    {
        let base = (e + 1022) * UNIDAD_EXPONENTE;
        proof {
            lema_peso_52();
        }
        if e <= 52 {
            let mut m: u64 = n;
            let mut k: u64 = e;
            proof {
                assert(n * 1 == n) by (nonlinear_arith);
            }
            while k < 52
                invariant
                    e <= k <= 52,
                    m == n * potencia_de_dos((k - e) as nat),
                    potencia_de_dos(k as nat) <= m < 2 * potencia_de_dos(k as nat),
                    potencia_de_dos(52) == UNIDAD_EXPONENTE,
                decreases 52 - k,
            {
                proof {
                    lema_potencia_crece((k + 1) as nat, 52);
                    let w = potencia_de_dos((k - e) as nat);
                    assert((k + 1 - e) as nat - 1 == (k - e) as nat);
                    assert(n * (2 * w) == 2 * (n * w)) by (nonlinear_arith);
                }
                m = 2 * m;
                k = k + 1;
            }
            Decimal { bits: base + m }
        } else {
            let mut w: u64 = 1;
            let mut k: u64 = 52;
            while k < e
                invariant
                    52 <= k <= e < 64,
                    w == potencia_de_dos((k - 52) as nat),
                    1 <= w <= 4096,
                decreases e - k,
            {
                proof {
                    assert((k + 1 - 52) as nat - 1 == (k - 52) as nat);
                    lema_potencia_crece((k + 1 - 52) as nat, 12);
                    assert(potencia_de_dos(12) == 4096) by {
                        reveal_with_fuel(potencia_de_dos, 13);
                    }
                }
                w = 2 * w;
                k = k + 1;
            }
            let q = n / w;
            let resto = n % w;
            proof {
                lema_producto_de_potencias(52, (e - 52) as nat);
                let u = UNIDAD_EXPONENTE;
                assert(q < 2 * u) by (nonlinear_arith)
                    requires
                        n < 2 * p,
                        p == u * w,
                        q == n / w,
                        w > 0,
                ;
                assert(resto < w);
            }
            let redondeado = if 2 * resto > w || (2 * resto == w && q % 2 == 1) {
                q + 1
            } else {
                q
            };
            Decimal { bits: base + redondeado }
        }
    }

    /// The double nearest to a whole number.
    pub fn de_entero(n: i64) -> (r: Decimal)
        ensures
            r == decimal_de_entero(n as int),
            r.finito(),
    {
        if n >= 0 {
            Self::de_natural(n as u64)
        } else {
            let positivo: u64 = if n == i64::MIN {
                BIT_SIGNO
            } else {
                (-n) as u64
            };
            let d = Self::de_natural(positivo);
            Decimal { bits: BIT_SIGNO + d.bits }
        }
    }
}

pub(crate) proof fn lema_potencia_crece(a: nat, b: nat)
    requires
        a <= b,
    ensures
        potencia_de_dos(a) <= potencia_de_dos(b),
    decreases b,
{
    if a < b {
        lema_potencia_crece(a, (b - 1) as nat);
    }
}

proof fn lema_potencia_acotada(a: nat)
    ensures
        potencia_de_dos(a) > a,
        a >= 64 ==> potencia_de_dos(a) > u64::MAX,
    decreases a,
{
    if a > 0 {
        lema_potencia_acotada((a - 1) as nat);
    }
    if a >= 64 {
        lema_potencia_crece(64, a);
        assert(potencia_de_dos(16) == 0x1_0000) by {
            reveal_with_fuel(potencia_de_dos, 17);
        }
        lema_producto_de_potencias(16, 16);
        lema_producto_de_potencias(32, 32);
        assert(0x1_0000nat * 0x1_0000nat == 0x1_0000_0000nat);
        assert(0x1_0000_0000nat * 0x1_0000_0000nat == 0x1_0000_0000_0000_0000nat);
    }
}

pub(crate) proof fn lema_peso_52()
    ensures
        potencia_de_dos(52) == UNIDAD_EXPONENTE,
{
    assert(potencia_de_dos(13) == 0x2000) by {
        reveal_with_fuel(potencia_de_dos, 14);
    }
    lema_producto_de_potencias(13, 13);
    lema_producto_de_potencias(26, 26);
    assert(0x2000nat * 0x2000nat == 0x400_0000nat);
    assert(0x400_0000nat * 0x400_0000nat == 0x10_0000_0000_0000nat);
}

pub(crate) proof fn lema_producto_de_potencias(a: nat, b: nat)
    ensures
        potencia_de_dos(a + b) == potencia_de_dos(a) * potencia_de_dos(b),
    decreases b,
{
    let pa = potencia_de_dos(a);
    if b == 0 {
        assert(pa * 1 == pa) by (nonlinear_arith);
    } else {
        lema_producto_de_potencias(a, (b - 1) as nat);
        let pb = potencia_de_dos((b - 1) as nat);
        assert(pa * (2 * pb) == 2 * (pa * pb)) by (nonlinear_arith);
        assert((a + b - 1) as nat == a + (b - 1) as nat);
    }
}

/// A natural number stands between the powers of two around its highest bit.
pub(crate) proof fn lema_bit_mas_alto(n: nat)
    requires
        n > 0,
    ensures
        potencia_de_dos(bit_mas_alto(n)) <= n < 2 * potencia_de_dos(bit_mas_alto(n)),
    decreases n,
{
    if n > 1 {
        lema_bit_mas_alto(n / 2);
    }
}

} // verus!
