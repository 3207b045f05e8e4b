//! What holds of the language as a whole.

use vstd::prelude::*;

use crate::ast::{Declaracion, Expresion, Operador, OperadorUnario};
use crate::decimal::{
    bit_mas_alto, bits_de_natural, cociente_redondeado, decimal_de_entero, lema_bit_mas_alto,
    lema_peso_52, lema_potencia_crece, lema_producto_de_potencias, potencia_de_dos, Decimal,
    UNIDAD_EXPONENTE,
};
use crate::json::{a_json, arreglo_de_texto, de_json, guardado, Json};
use crate::operaciones::{binaria, cociente, en_orden, indexado, resto, unaria};
use crate::semantica::{declaracion, escrita, expresion, leida, lista};
use crate::sesion::{Entorno, Estado, Interrupcion, Respuesta};
use crate::valor::{del_lenguaje, Valor};

verus! {

// ---------------------------------------------------------------------------
// Values and variables
// ---------------------------------------------------------------------------

/// A value comes back from its JSON value as it went in, unless it is an
/// infinity or no number.
pub proof fn ley_ida_y_vuelta(v: Valor)
    requires
        del_lenguaje(v),
    ensures
        de_json(a_json(v)) == guardado(v),
        a_json(v).escribible(),
{
}

/// A JSON value comes back from the value it is read as, unless it is an array,
/// an object, or a whole number beyond the integers of the language.
pub proof fn ley_vuelta_e_ida(j: Json)
    requires
        j.escribible(),
        j matches Json::Natural(n) ==> n <= i64::MAX,
        j matches Json::Decimal(d) ==> d.finito(),
    ensures
        a_json(de_json(j)) == j,
{
}

/// A variable that was written is read back, by the call that wrote it and by
/// whoever reads the store; no other variable is touched.
pub proof fn ley_lo_escrito_se_lee(nombre: Seq<char>, otra: Seq<char>, v: Valor, st: Estado)
    requires
        del_lenguaje(v),
        nombre != otra,
    ensures
        leida(nombre, escrita(nombre, v, st)).0 == Ok::<Valor, Interrupcion>(v),
        de_json(escrita(nombre, v, st).almacen[nombre]) == guardado(v),
        leida(otra, escrita(nombre, v, st)).0 == leida(otra, st).0,
        escrita(nombre, v, st).almacen.contains_key(otra) == st.almacen.contains_key(otra),
        st.almacen.contains_key(otra) ==> escrita(nombre, v, st).almacen[otra] == st.almacen[otra],
{
    ley_ida_y_vuelta(v);
}

/// An assignment has the value it assigns, and its variable has it from then
/// on.
pub proof fn ley_asignacion(
    variable: String,
    valor: Box<Expresion>,
    n: nat,
    env: Entorno,
    st: Estado,
)
    ensures
        ({
            let (r, s) = expresion(Expresion::Asignacion { variable, valor }, n + 1, env, st);
            &&& r == expresion(*valor, n, env, st).0
            &&& r matches Ok(v) ==> leida(variable@, s).0 == Ok::<Valor, Interrupcion>(v)
            &&& r is Err ==> s == expresion(*valor, n, env, st).1
        }),
{
}

/// Parentheses, and the marks for a success, a present value, a reference and a
/// former value, change nothing of the expression inside.
pub proof fn ley_transparentes(x: Box<Expresion>, n: nat, env: Entorno, st: Estado)
    ensures
        expresion(Expresion::Grupo(x), n + 1, env, st) == expresion(*x, n, env, st),
        expresion(Expresion::Correcto(x), n + 1, env, st) == expresion(*x, n, env, st),
        expresion(Expresion::Algo(x), n + 1, env, st) == expresion(*x, n, env, st),
        expresion(Expresion::Referencia { expr: x }, n + 1, env, st) == expresion(*x, n, env, st),
        expresion(Expresion::Anterior(x), n + 1, env, st) == expresion(*x, n, env, st),
{
}

/// A call leaves its caller's variables as its arguments left them.
pub proof fn ley_llamada_aislada(
    nombre: String,
    argumentos: Vec<Expresion>,
    depuracion: String,
    n: nat,
    env: Entorno,
    st: Estado,
)
    ensures
        expresion(
            Expresion::LlamadaFuncion { nombre, argumentos, depuracion },
            n + 1,
            env,
            st,
        ).1.ambito == lista(argumentos@, 0, Seq::empty(), n, env, st).1.ambito,
{
}

/// Whether a declaration does nothing when the program runs.
pub open spec fn sin_efecto(d: Declaracion) -> bool {
    d is Funcion || d is Clase || d is Importar || d is Enum || d is Rasgo || d is Implementacion
        || d is AccesoMiembro || d is AsignacionMiembro || d is AsignacionIndex
        || d is AsignacionMultiple || d is Repetir
}

/// Types, functions and the like are passed over when the program runs.
pub proof fn ley_sin_efecto(d: Declaracion, n: nat, env: Entorno, st: Estado)
    requires
        sin_efecto(d),
    ensures
        declaracion(d, n + 1, env, st) == (Ok::<Valor, Interrupcion>(Valor::Nulo), st),
{
}

/// An element of an array that was written is read back by its index, where the
/// array has no decimals: then reading the text gives back the elements.
pub proof fn ley_indice_de_arreglo(
    texto: Seq<char>,
    elementos: Seq<Json>,
    i: int,
    respuestas: Seq<Respuesta>,
    usadas: nat,
)
    requires
        arreglo_de_texto(texto) == Some(elementos),
        0 <= i < elementos.len(),
        i <= usize::MAX,
    ensures
        indexado(Valor::Texto(texto), Valor::Entero(i), respuestas, usadas) == (
            Ok::<Valor, Interrupcion>(de_json(elementos[i])),
            usadas,
        ),
{
}

// ---------------------------------------------------------------------------
// Operators
// ---------------------------------------------------------------------------

/// Equality holds both ways or neither way; a value equals itself unless it is
/// a decimal that is no number.
pub proof fn ley_igualdad(a: Valor, b: Valor)
    ensures
        a.igual(b) == b.igual(a),
        a.igual(a) == !(a matches Valor::Decimal(d) && d.no_es_numero()),
{
}

/// "Different" is the opposite of "equal", and "not" is the opposite of the
/// truth of its value.
pub proof fn ley_opuestos(a: Valor, b: Valor, respuestas: Seq<Respuesta>, usadas: nat)
    ensures
        binaria(a, Operador::Diferente, b, respuestas, usadas).0 == unaria(
            OperadorUnario::No,
            binaria(a, Operador::IgualIgual, b, respuestas, usadas).0->Ok_0,
            usadas,
        ).0,
        unaria(OperadorUnario::No, a, usadas).0 == Ok::<Valor, Interrupcion>(
            Valor::Booleano(!a.verdadero()),
        ),
{
}

/// Quotient and remainder make up the dividend; the remainder is smaller than
/// the divisor and has the sign of the dividend.
pub proof fn ley_division(a: int, b: int)
    requires
        b != 0,
    ensures
        a == b * cociente(a, b) + resto(a, b),
        -(if b < 0 {
            -b
        } else {
            b
        }) < resto(a, b) < (if b < 0 {
            -b
        } else {
            b
        }),
        a >= 0 ==> resto(a, b) >= 0,
        a <= 0 ==> resto(a, b) <= 0,
{
    let x = if a < 0 {
        -a
    } else {
        a
    };
    let y = if b < 0 {
        -b
    } else {
        b
    };
    vstd::arithmetic::div_mod::lemma_fundamental_div_mod(x, y);
    let q = x / y;
    assert(y * q == (-y) * (-q)) by (nonlinear_arith);
    assert(-(y * q) == y * (-q)) by (nonlinear_arith);
    assert(-(y * q) == (-y) * q) by (nonlinear_arith);
    assert(0 <= x % y < y) by (nonlinear_arith)
        requires
            y > 0,
    ;
}

// ---------------------------------------------------------------------------
// The order of decimals
// ---------------------------------------------------------------------------

/// Of two numbers, one is below the other or they are equal, and only one of
/// these holds. What is no number stands in no order.
pub proof fn ley_orden_total(a: Decimal, b: Decimal)
    ensures
        !a.no_es_numero() && !b.no_es_numero() ==> {
            &&& a.menor_spec(b) || a.igual_spec(b) || b.menor_spec(a)
            &&& !(a.menor_spec(b) && b.menor_spec(a))
            &&& a.igual_spec(b) ==> !a.menor_spec(b) && !b.menor_spec(a)
            &&& en_orden(Operador::MayorIgual, a, b) == !en_orden(Operador::Menor, a, b)
            &&& en_orden(Operador::MenorIgual, a, b) == !en_orden(Operador::Mayor, a, b)
        },
        a.no_es_numero() || b.no_es_numero() ==> {
            &&& !en_orden(Operador::Menor, a, b)
            &&& !en_orden(Operador::MenorIgual, a, b)
            &&& !en_orden(Operador::Mayor, a, b)
            &&& !en_orden(Operador::MayorIgual, a, b)
        },
        en_orden(Operador::Mayor, a, b) == en_orden(Operador::Menor, b, a),
        en_orden(Operador::MayorIgual, a, b) == en_orden(Operador::MenorIgual, b, a),
{
}

/// The order goes on from one number to the next.
pub proof fn ley_orden_transitivo(a: Decimal, b: Decimal, c: Decimal)
    requires
        a.menor_spec(b),
        b.menor_spec(c),
    ensures
        a.menor_spec(c),
{
}

/// Changing the sign twice changes nothing; changing it once turns the order
/// round.
pub proof fn ley_negacion(a: Decimal, b: Decimal)
    ensures
        a.negado_spec().negado_spec() == a,
        a.menor_spec(b) == b.negado_spec().menor_spec(a.negado_spec()),
        a.negado_spec().finito() == a.finito(),
{
}

/// The decimals of natural numbers are in the order of the numbers.
pub(crate) proof fn lema_naturales_en_orden(a: nat, b: nat)
    requires
        a < b <= 0xffff_ffff_ffff_ffff,
    ensures
        bits_de_natural(a) <= bits_de_natural(b) < 0x7ff0_0000_0000_0000,
        b <= 0x20_0000_0000_0000 ==> bits_de_natural(a) < bits_de_natural(b),
{
    let u = UNIDAD_EXPONENTE as nat;
    lema_significando(b);
    let eb = bit_mas_alto(b);
    let sb = (bits_de_natural(b) - (eb + 1022) * u) as nat;
    assert(bits_de_natural(b) == (eb + 1022) * u + sb);
    assert((eb + 1022) * u <= (63 + 1022) * u) by (nonlinear_arith)
        requires
            eb <= 63,
    ;
    if a == 0 {
        assert((eb + 1022) * u >= 0) by (nonlinear_arith);
    } else {
        lema_significando(a);
        let ea = bit_mas_alto(a);
        let sa = (bits_de_natural(a) - (ea + 1022) * u) as nat;
        lema_bit_mas_alto(a);
        lema_bit_mas_alto(b);
        if ea > eb {
            lema_potencia_crece(eb + 1, ea);
            assert(false);
        } else if ea < eb {
            assert((ea + 1022) * u + 2 * u <= (eb + 1022) * u + u) by (nonlinear_arith)
                requires
                    ea + 1 <= eb,
            ;
            if b <= 0x20_0000_0000_0000 {
                lema_peso_52();
                assert(potencia_de_dos(53) == 2 * potencia_de_dos(52));
                assert(potencia_de_dos(54) == 2 * potencia_de_dos(53));
                if ea > 52 {
                    lema_potencia_crece(54, eb);
                }
            }
        } else {
            lema_mismo_exponente(a, b, ea);
        }
    }
}

/// The significand of a natural number stands between 2 to the 52 and 2 to the
/// 53, and reaches the upper bound only by rounding.
pub(crate) proof fn lema_significando(n: nat)
    requires
        0 < n <= 0xffff_ffff_ffff_ffff,
    ensures
        ({
            let e = bit_mas_alto(n);
            let s = bits_de_natural(n) - (e + 1022) * UNIDAD_EXPONENTE;
            &&& e <= 63
            &&& UNIDAD_EXPONENTE <= s <= 2 * UNIDAD_EXPONENTE
            &&& e <= 52 ==> s < 2 * UNIDAD_EXPONENTE
        }),
{
    let e = bit_mas_alto(n);
    let u = UNIDAD_EXPONENTE as nat;
    lema_bit_mas_alto(n);
    lema_peso_52();
    if e > 63 {
        lema_potencia_crece(64, e);
        lema_producto_de_potencias(32, 32);
        assert(potencia_de_dos(32) == 0x1_0000_0000) by {
            reveal_with_fuel(potencia_de_dos, 33);
        }
        assert(0x1_0000_0000nat * 0x1_0000_0000nat == 0x1_0000_0000_0000_0000nat);
    }
    let p = potencia_de_dos(e);
    if e <= 52 {
        let w = potencia_de_dos((52 - e) as nat);
        lema_potencia_crece(0, (52 - e) as nat);
        lema_producto_de_potencias(e, (52 - e) as nat);
        assert(p * w <= n * w < (2 * p) * w && (2 * p) * w == 2 * (p * w)) by (nonlinear_arith)
            requires
                p <= n < 2 * p,
                w > 0,
        ;
    } else {
        let w = potencia_de_dos((e - 52) as nat);
        lema_potencia_crece(0, (e - 52) as nat);
        lema_producto_de_potencias(52, (e - 52) as nat);
        let q = n / w;
        assert(u <= q < 2 * u) by (nonlinear_arith)
            requires
                p <= n < 2 * p,
                p == u * w,
                w > 0,
                q == n / w,
        ;
        assert(u <= cociente_redondeado(n, w) <= 2 * u);
    }
}

/// Among numbers with the same highest bit the significands are in order.
proof fn lema_mismo_exponente(a: nat, b: nat, e: nat)
    requires
        0 < a < b <= 0xffff_ffff_ffff_ffff,
        e == bit_mas_alto(a),
        e == bit_mas_alto(b),
    ensures
        bits_de_natural(a) <= bits_de_natural(b),
        e <= 52 || b <= 0x20_0000_0000_0000 ==> bits_de_natural(a) < bits_de_natural(b),
{
    if e <= 52 {
        let w = potencia_de_dos((52 - e) as nat);
        lema_potencia_crece(0, (52 - e) as nat);
        assert(a * w < b * w) by (nonlinear_arith)
            requires
                a < b,
                w > 0,
        ;
    } else {
        let w = potencia_de_dos((e - 52) as nat);
        lema_potencia_crece(0, (e - 52) as nat);
        assert(potencia_de_dos(0) == 1);
        lema_redondeo_en_orden(a, b, w);
        if b <= 0x20_0000_0000_0000 {
            lema_bit_mas_alto(a);
            lema_potencia_crece(53, e);
            lema_peso_52();
            assert(potencia_de_dos(53) == 2 * potencia_de_dos(52));
        }
    }
}

/// Rounding keeps the order.
proof fn lema_redondeo_en_orden(a: nat, b: nat, w: nat)
    requires
        a <= b,
        w > 0,
    ensures
        cociente_redondeado(a, w) <= cociente_redondeado(b, w),
{
    let qa = a / w;
    let qb = b / w;
    let ra = a % w;
    let rb = b % w;
    assert(qa <= qb && (qa == qb ==> ra <= rb)) by (nonlinear_arith)
        requires
            a <= b,
            w > 0,
            qa == a / w,
            qb == b / w,
            ra == a % w,
            rb == b % w,
    ;
}

/// Whole numbers are compared through their decimals in the right order, though
/// large ones that differ may count as equal. Up to 2 to the 53 on both sides
/// of zero the comparison is exact.
pub proof fn ley_enteros_en_orden(a: int, b: int)
    requires
        i64::MIN <= a < b <= i64::MAX,
    ensures
        en_orden(Operador::MenorIgual, decimal_de_entero(a), decimal_de_entero(b)),
        !en_orden(Operador::Mayor, decimal_de_entero(a), decimal_de_entero(b)),
        -0x20_0000_0000_0000 <= a && b <= 0x20_0000_0000_0000 ==> en_orden(
            Operador::Menor,
            decimal_de_entero(a),
            decimal_de_entero(b),
        ),
{
    if a >= 0 {
        lema_naturales_en_orden(a as nat, b as nat);
    } else if b < 0 {
        lema_naturales_en_orden((-b) as nat, (-a) as nat);
    } else {
        lema_naturales_en_orden(0, (-a) as nat);
        if b > 0 {
            lema_naturales_en_orden(0, b as nat);
        }
    }
}

} // verus!
