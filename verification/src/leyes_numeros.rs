//! What the bits of decimals and the digits of whole numbers stand for.

use vstd::arithmetic::power2::pow2;
use vstd::prelude::*;

use crate::decimal::{
    bit_mas_alto, bits_de_natural, cociente_redondeado, decimal_de_entero, lema_bit_mas_alto,
    lema_peso_52, lema_potencia_crece, lema_producto_de_potencias, potencia_de_dos, Decimal,
    Estilo,
};
use crate::leyes::{lema_naturales_en_orden, lema_significando};
use crate::texto::{digitos, texto_de_entero};

verus! {

// ---------------------------------------------------------------------------
// Decimals
// ---------------------------------------------------------------------------

/// The exponent field of a double.
pub open spec fn exponente(d: Decimal) -> int {
    (d.bits as int / 0x10_0000_0000_0000) % 2048
}

/// The fraction field of a double.
pub open spec fn fraccion(d: Decimal) -> int {
    d.bits as int % 0x10_0000_0000_0000
}

/// Whether the sign bit of a double is set.
pub open spec fn con_signo(d: Decimal) -> bool {
    d.bits as int / 0x8000_0000_0000_0000 == 1
}

/// The number that a finite double stands for, in units of the smallest one,
/// which is 2 to the power of -1074. Every finite double is a whole number of
/// those.
pub open spec fn unidades(d: Decimal) -> int {
    let sin_signo = if exponente(d) == 0 {
        fraccion(d)
    } else {
        (0x10_0000_0000_0000 + fraccion(d)) * pow2((exponente(d) - 1) as nat)
    };
    if con_signo(d) {
        -sin_signo
    } else {
        sin_signo
    }
}

proof fn lema_potencias(n: nat)
    ensures
        potencia_de_dos(n) == pow2(n),
        pow2(n) > 0,
    decreases n,
{
    vstd::arithmetic::power2::lemma_pow2_pos(n);
    if n == 0 {
        vstd::arithmetic::power2::lemma2_to64();
    } else {
        vstd::arithmetic::power2::lemma_pow2_unfold(n);
        lema_potencias((n - 1) as nat);
    }
}

proof fn lema_campos(d: Decimal)
    ensures
        exponente(d) == d.magnitud() / 0x10_0000_0000_0000,
        fraccion(d) == d.magnitud() % 0x10_0000_0000_0000,
        con_signo(d) == (d.bits >= 0x8000_0000_0000_0000),
        0 <= fraccion(d) < 0x10_0000_0000_0000,
        0 <= exponente(d) < 2048,
        d.magnitud() == exponente(d) * 0x10_0000_0000_0000 + fraccion(d),
        0 <= d.magnitud() < 0x8000_0000_0000_0000,
{
}

/// A double is finite, an infinity or no number by its exponent and fraction; it
/// is zero where it stands for none of the smallest units.
pub proof fn ley_clases_de_decimal(d: Decimal)
    ensures
        d.finito() == (exponente(d) != 2047),
        d.no_es_numero() == (exponente(d) == 2047 && fraccion(d) != 0),
        d.finito() ==> d.cero() == (unidades(d) == 0),
        !d.finito() ==> !d.cero(),
{
    lema_campos(d);
    let e = exponente(d);
    if e > 0 {
        lema_potencias((e - 1) as nat);
        let p = pow2((e - 1) as nat);
        let f = fraccion(d);
        assert((0x10_0000_0000_0000 + f) * p > 0) by (nonlinear_arith)
            requires
                p > 0,
                f >= 0,
        ;
    }
}

/// What encodings without sign stand for is in their order.
proof fn lema_magnitudes_en_orden(e1: int, f1: int, e2: int, f2: int)
    requires
        0 <= e1 < 2047,
        0 <= e2 < 2047,
        0 <= f1 < 0x10_0000_0000_0000,
        0 <= f2 < 0x10_0000_0000_0000,
        e1 < e2 || (e1 == e2 && f1 < f2),
    ensures
        0 <= (if e1 == 0 {
            f1
        } else {
            (0x10_0000_0000_0000 + f1) * pow2((e1 - 1) as nat)
        }) < (if e2 == 0 {
            f2
        } else {
            (0x10_0000_0000_0000 + f2) * pow2((e2 - 1) as nat)
        }),
{
    if e2 > 0 {
        lema_potencias((e2 - 1) as nat);
        let p2 = pow2((e2 - 1) as nat);
        if e1 == 0 {
            assert(f1 < (0x10_0000_0000_0000 + f2) * p2) by (nonlinear_arith)
                requires
                    f1 < 0x10_0000_0000_0000,
                    f2 >= 0,
                    p2 >= 1,
            ;
        } else {
            lema_potencias((e1 - 1) as nat);
            let p1 = pow2((e1 - 1) as nat);
            if e1 == e2 {
                assert(0 <= (0x10_0000_0000_0000 + f1) * p1 < (0x10_0000_0000_0000 + f2) * p1)
                    by (nonlinear_arith)
                    requires
                        0 <= f1 < f2,
                        p1 >= 1,
                ;
            } else {
                lema_potencia_crece(e1 as nat, (e2 - 1) as nat);
                lema_potencias(e1 as nat);
                assert(potencia_de_dos(e1 as nat) == 2 * potencia_de_dos((e1 - 1) as nat));
                assert(0 <= (0x10_0000_0000_0000 + f1) * p1 < (0x10_0000_0000_0000 + f2) * p2)
                    by (nonlinear_arith)
                    requires
                        0 <= f1 < 0x10_0000_0000_0000,
                        f2 >= 0,
                        p1 >= 1,
                        2 * p1 <= p2,
                ;
            }
        }
    }
}

proof fn lema_sin_signo_no_negativo(d: Decimal)
    requires
        d.finito(),
    ensures
        con_signo(d) ==> unidades(d) <= 0,
        !con_signo(d) ==> unidades(d) >= 0,
        unidades(d) == 0 <==> d.magnitud() == 0,
{
    ley_clases_de_decimal(d);
    lema_campos(d);
    let e = exponente(d);
    if e > 0 {
        lema_potencias((e - 1) as nat);
        let p = pow2((e - 1) as nat);
        let f = fraccion(d);
        assert((0x10_0000_0000_0000 + f) * p > 0) by (nonlinear_arith)
            requires
                p > 0,
                f >= 0,
        ;
    }
}

/// Finite doubles are ordered, and equal, as the numbers they stand for; every
/// finite one is below the positive infinity and above the negative one.
pub proof fn ley_orden_de_los_numeros(a: Decimal, b: Decimal)
    ensures
        a.finito() && b.finito() ==> a.menor_spec(b) == (unidades(a) < unidades(b)),
        a.finito() && b.finito() ==> a.igual_spec(b) == (unidades(a) == unidades(b)),
        a.finito() && !b.finito() && !b.no_es_numero() ==> {
            &&& a.menor_spec(b) == !con_signo(b)
            &&& b.menor_spec(a) == con_signo(b)
            &&& !a.igual_spec(b) && !b.igual_spec(a)
        },
        !a.finito() && !b.finito() && !a.no_es_numero() && !b.no_es_numero() ==> {
            &&& a.igual_spec(b) == (con_signo(a) == con_signo(b))
            &&& a.menor_spec(b) == (con_signo(a) && !con_signo(b))
        },
        a.no_es_numero() ==> !a.menor_spec(b) && !b.menor_spec(a) && !a.igual_spec(b)
            && !b.igual_spec(a),
{
    lema_campos(a);
    lema_campos(b);
    ley_clases_de_decimal(a);
    ley_clases_de_decimal(b);
    if a.finito() && b.finito() {
        lema_sin_signo_no_negativo(a);
        lema_sin_signo_no_negativo(b);
        let (ea, fa) = (exponente(a), fraccion(a));
        let (eb, fb) = (exponente(b), fraccion(b));
        if a.magnitud() < b.magnitud() {
            lema_magnitudes_en_orden(ea, fa, eb, fb);
        } else if b.magnitud() < a.magnitud() {
            lema_magnitudes_en_orden(eb, fb, ea, fa);
        } else {
            assert(ea == eb && fa == fb);
        }
    }
}

/// The number with the other sign is the opposite number; an infinity turns into
/// the other one, and what is no number stays none.
pub proof fn ley_opuesto(d: Decimal)
    ensures
        unidades(d.negado_spec()) == -unidades(d),
        con_signo(d.negado_spec()) == !con_signo(d),
        exponente(d.negado_spec()) == exponente(d),
        fraccion(d.negado_spec()) == fraccion(d),
{
    lema_campos(d);
    lema_campos(d.negado_spec());
}

/// A finite double is whole exactly where it stands for a whole number, which is
/// 2 to the 1074 of the smallest units; it is then shown with one digit after the
/// point, and else as short as possible.
pub proof fn ley_enteros_entre_decimales(d: Decimal)
    ensures
        d.finito() ==> d.entero() == (unidades(d) % (pow2(1074) as int) == 0),
        !d.finito() ==> d.entero() == !d.no_es_numero(),
        d.estilo_spec() == (if d.entero() {
            Estilo::UnDigito
        } else {
            Estilo::Corto
        }),
{
    lema_campos(d);
    ley_clases_de_decimal(d);
    if d.finito() {
        let e = exponente(d);
        let f = fraccion(d);
        let t = pow2(1074) as int;
        lema_potencias(1074);
        let a = if con_signo(d) {
            -unidades(d)
        } else {
            unidades(d)
        };
        lema_sin_signo_no_negativo(d);
        assert((unidades(d) % t == 0) == (a % t == 0)) by {
            if con_signo(d) {
                lema_resto_opuesto(a, t);
            }
        }
        if e < 1023 {
            assert(0 <= a < t) by {
                lema_magnitudes_en_orden(e, f, 1023, 0);
                lema_potencias(1022);
                lema_peso_52();
                lema_producto_de_potencias(52, 1022);
                assert((0x10_0000_0000_0000 + 0) * pow2(1022) == t);
            }
            vstd::arithmetic::div_mod::lemma_small_mod(a as nat, t as nat);
        } else {
            let p = pow2((e - 1) as nat) as int;
            lema_potencias((e - 1) as nat);
            let s = 0x10_0000_0000_0000 + f;
            assert(a == s * p);
            if e >= 1075 {
                lema_producto_de_potencias(1074, (e - 1075) as nat);
                lema_potencias((e - 1075) as nat);
                let q = pow2((e - 1075) as nat) as int;
                assert(s * (t * q) == (s * q) * t) by (nonlinear_arith);
                vstd::arithmetic::div_mod::lemma_mod_multiples_basic(s * q, t);
            } else {
                let k = (1075 - e) as nat;
                let q = potencia_de_dos(k) as int;
                lema_potencias(k);
                lema_producto_de_potencias(k, (e - 1) as nat);
                assert(t == q * p);
                assert(s * p == p * s && q * p == p * q) by (nonlinear_arith);
                vstd::arithmetic::div_mod::lemma_truncate_middle(s, p, q);
                assert(a % t == p * (s % q));
                assert((p * (s % q) == 0) == (s % q == 0)) by (nonlinear_arith)
                    requires
                        p > 0,
                ;
                lema_producto_de_potencias(k, (52 - k) as nat);
                lema_peso_52();
                let r = potencia_de_dos((52 - k) as nat) as int;
                assert(0x10_0000_0000_0000 == q * r);
                assert(q * r == r * q) by (nonlinear_arith);
                vstd::arithmetic::div_mod::lemma_mod_multiples_vanish(r, f, q);
                assert(s % q == f % q);
            }
        }
    }
}

proof fn lema_resto_opuesto(a: int, t: int)
    requires
        t > 0,
        a >= 0,
    ensures
        ((-a) % t == 0) == (a % t == 0),
{
    vstd::arithmetic::div_mod::lemma_fundamental_div_mod(a, t);
    vstd::arithmetic::div_mod::lemma_fundamental_div_mod(-a, t);
    if a % t == 0 {
        let q = a / t;
        assert(-a == (-q) * t) by (nonlinear_arith)
            requires
                a == t * q,
        ;
        vstd::arithmetic::div_mod::lemma_mod_multiples_basic(-q, t);
    }
    if (-a) % t == 0 {
        let q = (-a) / t;
        assert(a == (-q) * t) by (nonlinear_arith)
            requires
                -a == t * q,
        ;
        vstd::arithmetic::div_mod::lemma_mod_multiples_basic(-q, t);
    }
}

/// What the bits of a natural number stand for, by its significand.
proof fn lema_unidades_de_natural(n: nat)
    requires
        0 < n <= 0xffff_ffff_ffff_ffff,
    ensures
        ({
            let e = bit_mas_alto(n);
            let s = bits_de_natural(n) - (e + 1022) * 0x10_0000_0000_0000;
            let d = Decimal { bits: bits_de_natural(n) as u64 };
            &&& d.bits == bits_de_natural(n)
            &&& d.bits < 0x7ff0_0000_0000_0000
            &&& unidades(d) == s * pow2(e + 1022)
        }),
{
    let e = bit_mas_alto(n);
    let u: int = 0x10_0000_0000_0000;
    lema_significando(n);
    lema_naturales_en_orden(0, n);
    let b = bits_de_natural(n) as int;
    let s = b - (e + 1022) * u;
    let d = Decimal { bits: bits_de_natural(n) as u64 };
    lema_campos(d);
    lema_potencias(e + 1022);
    lema_potencias(e + 1023);
    assert(potencia_de_dos(e + 1023) == 2 * potencia_de_dos(e + 1022));
    if s < 2 * u {
        assert(b == (e + 1023) * u + (s - u)) by (nonlinear_arith)
            requires
                s == b - (e + 1022) * u,
        ;
        vstd::arithmetic::div_mod::lemma_fundamental_div_mod_converse(b, u, (e + 1023) as int, s - u);
        assert(exponente(d) == e + 1023 && fraccion(d) == s - u);
    } else {
        assert(b == (e + 1024) * u) by (nonlinear_arith)
            requires
                s == b - (e + 1022) * u,
                s == 2 * u,
        ;
        vstd::arithmetic::div_mod::lemma_fundamental_div_mod_converse(b, u, (e + 1024) as int, 0);
        assert(exponente(d) == e + 1024 && fraccion(d) == 0);
        let p = pow2(e + 1022) as int;
        assert(u * (2 * p) == (2 * u) * p) by (nonlinear_arith);
    }
}

/// The decimal of a natural number is off by no more than half the distance to
/// the next double, and has an even significand where it is off by just that. Up
/// to 2 to the 53 it is exact.
proof fn lema_redondeo_de_natural(n: nat, e: nat)
    requires
        pow2(e) <= n < 2 * pow2(e),
        n <= 0xffff_ffff_ffff_ffff,
    ensures
        ({
            let d = Decimal { bits: bits_de_natural(n) as u64 };
            let t = pow2(1074) as int;
            &&& d.bits < 0x7ff0_0000_0000_0000
            &&& e <= 52 ==> unidades(d) == n * t
            &&& e > 52 ==> {
                let w = pow2((e - 52) as nat) as int;
                &&& -(w * t) <= 2 * (unidades(d) - n * t) <= w * t
                &&& (2 * (unidades(d) - n * t) == w * t || 2 * (unidades(d) - n * t) == -(w * t))
                    ==> d.bits % 2 == 0
            }
        }),
{
    lema_potencias(e);
    lema_bit_mas_alto(n);
    let b = bit_mas_alto(n);
    if b < e {
        lema_potencia_crece(b + 1, e);
    } else if b > e {
        lema_potencia_crece(e + 1, b);
    }
    lema_unidades_de_natural(n);
    let d = Decimal { bits: bits_de_natural(n) as u64 };
    let t = pow2(1074) as int;
    let s = bits_de_natural(n) - (e + 1022) * 0x10_0000_0000_0000;
    let p = pow2(e + 1022) as int;
    lema_potencias(1074);
    lema_potencias(e + 1022);
    if e <= 52 {
        let k = (52 - e) as nat;
        let q = potencia_de_dos(k) as int;
        lema_producto_de_potencias(k, e + 1022);
        assert(t == q * p);
        assert(s == n * q);
        assert((n * q) * p == n * (q * p)) by (nonlinear_arith);
    } else {
        let k = (e - 52) as nat;
        let w = potencia_de_dos(k) as int;
        lema_potencias(k);
        lema_producto_de_potencias(k, 1074);
        assert(p == w * t);
        assert(s == cociente_redondeado(n, w as nat));
        vstd::arithmetic::div_mod::lemma_fundamental_div_mod(n as int, w);
        let c = n as int / w;
        let r = n as int % w;
        assert(0 <= r < w) by (nonlinear_arith)
            requires
                w > 0,
                r == n as int % w,
        ;
        assert(s * p - n * t == (s * w - n) * t) by (nonlinear_arith)
            requires
                p == w * t,
        ;
        let dif = s * w - n;
        assert((c + 1) * w == w * c + w && c * w == w * c) by (nonlinear_arith);
        assert(-w <= 2 * dif <= w);
        assert(-(w * t) <= 2 * (dif * t) <= w * t) by (nonlinear_arith)
            requires
                -w <= 2 * dif <= w,
                t > 0,
        ;
        if 2 * (dif * t) == w * t || 2 * (dif * t) == -(w * t) {
            assert(2 * dif == w || 2 * dif == -w) by (nonlinear_arith)
                requires
                    2 * (dif * t) == w * t || 2 * (dif * t) == -(w * t),
                    t > 0,
            ;
            assert(s % 2 == 0);
            assert((e + 1022) * 0x10_0000_0000_0000 == 2 * ((e + 1022) * 0x8_0000_0000_0000))
                by (nonlinear_arith);
        }
    }
}

/// The decimal of a whole number is the nearest double: exact up to 2 to the 53
/// on both sides of zero, and beyond that off by no more than half the distance
/// between doubles there, with an even significand where it is off by just that.
pub proof fn ley_decimal_de_entero(n: int, e: nat)
    requires
        i64::MIN <= n <= 0xffff_ffff_ffff_ffff,
        n != 0 ==> pow2(e) <= (if n < 0 {
            -n
        } else {
            n
        }) < 2 * pow2(e),
    ensures
        ({
            let d = decimal_de_entero(n);
            let t = pow2(1074) as int;
            &&& d.finito()
            &&& con_signo(d) == (n < 0)
            &&& n == 0 || e <= 52 ==> unidades(d) == n * t
            &&& n != 0 && e > 52 ==> {
                let w = pow2((e - 52) as nat) as int;
                &&& -(w * t) <= 2 * (unidades(d) - n * t) <= w * t
                &&& (2 * (unidades(d) - n * t) == w * t || 2 * (unidades(d) - n * t) == -(w * t))
                    ==> d.bits % 2 == 0
            }
        }),
{
    let t = pow2(1074) as int;
    let d = decimal_de_entero(n);
    if n == 0 {
        assert(d.bits == 0);
        lema_campos(d);
    } else {
        let a = (if n < 0 {
            -n
        } else {
            n
        }) as nat;
        lema_redondeo_de_natural(a, e);
        let p = Decimal { bits: bits_de_natural(a) as u64 };
        lema_unidades_de_natural(a);
        lema_campos(p);
        lema_campos(d);
        if n < 0 {
            assert(d == p.negado_spec());
            ley_opuesto(p);
            assert((-n) * t == -(n * t)) by (nonlinear_arith);
        }
    }
}

// ---------------------------------------------------------------------------
// Digits
// ---------------------------------------------------------------------------

/// The number that decimal digits stand for.
pub open spec fn numero_de(t: Seq<char>) -> int
    decreases t.len(),
{
    if t.len() == 0 {
        0
    } else {
        numero_de(t.drop_last()) * 10 + (t.last() as int - '0' as int)
    }
}

/// A natural number is written in the decimal digits that stand for it, without
/// leading zeros.
pub proof fn ley_digitos(n: nat)
    ensures
        numero_de(digitos(n)) == n,
        digitos(n).len() >= 1,
        digitos(n)[0] == '0' ==> digitos(n).len() == 1,
        forall|i: int| 0 <= i < digitos(n).len() ==> '0' <= #[trigger] digitos(n)[i] <= '9',
    decreases n,
{
    let t = digitos(n);
    reveal_with_fuel(numero_de, 2);
    if n < 10 {
        assert(t.drop_last() =~= Seq::empty());
    } else {
        ley_digitos(n / 10);
        let u = digitos(n / 10);
        assert(t.drop_last() =~= u);
        assert(t.last() as int - '0' as int == n % 10);
        assert(t[0] == u[0]);
        if u.len() == 1 {
            assert(u[0] != '0') by {
                assert(u.drop_last() =~= Seq::empty());
                assert(numero_de(u) == u[0] as int - '0' as int);
            }
        }
        assert forall|i: int| 0 <= i < t.len() implies '0' <= #[trigger] t[i] <= '9' by {
            if i < u.len() {
                assert(t[i] == u[i]);
            }
        }
    }
}

/// A whole number is written as its size, after a minus sign where it is below
/// zero and only there.
pub proof fn ley_texto_de_entero(n: int)
    ensures
        n < 0 ==> texto_de_entero(n).len() >= 2 && texto_de_entero(n)[0] == '-' && numero_de(
            texto_de_entero(n).drop_first(),
        ) == -n,
        n >= 0 ==> texto_de_entero(n)[0] != '-' && numero_de(texto_de_entero(n)) == n,
        texto_de_entero(n) == (if n < 0 {
            seq!['-'] + texto_de_entero(-n)
        } else {
            digitos(n as nat)
        }),
{
    if n < 0 {
        ley_digitos((-n) as nat);
        assert(texto_de_entero(n).drop_first() =~= digitos((-n) as nat));
    } else {
        ley_digitos(n as nat);
        assert('0' <= digitos(n as nat)[0]);
    }
}

} // verus!
