//! What the operators give.

use vstd::prelude::*;

use crate::ast::{Operador, OperadorUnario};
use crate::decimal::{decimal_de_entero, Decimal};
use crate::json::{a_json, arreglo_de_texto, de_json, texto_de_arreglo, texto_de_objeto, Json};
use crate::leyes::ley_division;
use crate::leyes_numeros::{
    con_signo, ley_opuesto, ley_orden_de_los_numeros, ley_texto_de_entero, numero_de, unidades,
};
use crate::operaciones::{
    arreglo_escrito, binaria, hay_decimal, indexado, miembros_de, mostrado, objeto_escrito, unaria,
    valores_de,
};
use crate::sesion::{
    numero_pedido, texto_pedido, Consulta, Interrupcion, OpDecimal, PedidoVista, Respuesta,
};
use crate::texto::digitos;
use crate::valor::Valor;

verus! {

/// A value, with no answer of the host used.
pub open spec fn da(v: Valor, usadas: nat) -> Consulta<Valor> {
    (Ok(v), usadas)
}

/// A failure of the program, with no answer of the host used.
pub open spec fn falla(mensaje: Seq<char>, usadas: nat) -> Consulta<Valor> {
    (Err(Interrupcion::Error(mensaje)), usadas)
}

// ---------------------------------------------------------------------------
// Truth and logic
// ---------------------------------------------------------------------------

/// A value counts as false exactly where it equals "false", zero, the empty text
/// or null.
pub proof fn ley_verdad(v: Valor)
    ensures
        v.verdadero() == !(v.igual(Valor::Booleano(false)) || v.igual(Valor::Entero(0)) || v.igual(
            Valor::Decimal(Decimal { bits: 0 }),
        ) || v.igual(Valor::Texto(Seq::empty())) || v.igual(Valor::Nulo)),
{
    if let Valor::Texto(t) = v {
        if t.len() == 0 {
            assert(t =~= Seq::empty());
        }
    }
}

/// Equal values are of one kind. Texts, integers and booleans are equal where they
/// are the same, finite decimals where they stand for the same number, and null
/// equals null.
pub proof fn ley_igualdad_por_clases(a: Valor, b: Valor)
    ensures
        a.igual(b) ==> (a is Texto == b is Texto) && (a is Entero == b is Entero) && (a is Decimal
            == b is Decimal) && (a is Booleano == b is Booleano) && (a is Nulo == b is Nulo),
        a is Texto && b is Texto ==> a.igual(b) == (a->Texto_0 == b->Texto_0),
        a is Entero && b is Entero ==> a.igual(b) == (a->Entero_0 == b->Entero_0),
        a is Booleano && b is Booleano ==> a.igual(b) == (a->Booleano_0 == b->Booleano_0),
        a is Nulo && b is Nulo ==> a.igual(b),
        a is Decimal && b is Decimal && a->Decimal_0.finito() && b->Decimal_0.finito() ==> a.igual(b)
            == (unidades(a->Decimal_0) == unidades(b->Decimal_0)),
{
    if a is Decimal && b is Decimal {
        ley_orden_de_los_numeros(a->Decimal_0, b->Decimal_0);
    }
}

/// "And" is true exactly where both values count as true, "or" exactly where at
/// least one does. Both are the same with the sides exchanged; a value that counts
/// as false makes every "and" false, one that counts as true every "or" true; and
/// "not" turns the one into the other. "Equal" and "different" are the equality of
/// values and its opposite. None of these asks the host.
pub proof fn ley_logica(a: Valor, b: Valor, rs: Seq<Respuesta>, u: nat)
    ensures
        binaria(a, Operador::Y, b, rs, u) == binaria(b, Operador::Y, a, rs, u),
        binaria(a, Operador::O, b, rs, u) == binaria(b, Operador::O, a, rs, u),
        !a.verdadero() ==> binaria(a, Operador::Y, b, rs, u) == da(Valor::Booleano(false), u),
        a.verdadero() ==> binaria(a, Operador::Y, b, rs, u) == da(
            Valor::Booleano(b.verdadero()),
            u,
        ),
        a.verdadero() ==> binaria(a, Operador::O, b, rs, u) == da(Valor::Booleano(true), u),
        !a.verdadero() ==> binaria(a, Operador::O, b, rs, u) == da(
            Valor::Booleano(b.verdadero()),
            u,
        ),
        unaria(OperadorUnario::No, a, u) == da(Valor::Booleano(!a.verdadero()), u),
        unaria(OperadorUnario::No, binaria(a, Operador::Y, b, rs, u).0->Ok_0, u) == binaria(
            unaria(OperadorUnario::No, a, u).0->Ok_0,
            Operador::O,
            unaria(OperadorUnario::No, b, u).0->Ok_0,
            rs,
            u,
        ),
        binaria(a, Operador::IgualIgual, b, rs, u) == da(Valor::Booleano(a.igual(b)), u),
        binaria(a, Operador::Diferente, b, rs, u) == da(Valor::Booleano(!a.igual(b)), u),
{
}

// ---------------------------------------------------------------------------
// Whole numbers
// ---------------------------------------------------------------------------

/// Whether a whole number has 64 bits.
pub open spec fn cabe(n: int) -> bool {
    i64::MIN <= n <= i64::MAX
}

/// Sums, differences and products of whole numbers are those of arithmetic; where
/// the result has more than 64 bits, the run stops. Adding takes away what
/// subtracting takes, and a product by one more is larger by the factor.
pub proof fn ley_aritmetica_de_enteros(x: int, y: int, rs: Seq<Respuesta>, u: nat)
    requires
        cabe(x),
        cabe(y),
    ensures
        ({
            let s = binaria(Valor::Entero(x), Operador::Suma, Valor::Entero(y), rs, u);
            let r = binaria(Valor::Entero(x), Operador::Resta, Valor::Entero(y), rs, u);
            let p = binaria(Valor::Entero(x), Operador::Multiplicacion, Valor::Entero(y), rs, u);
            &&& s.1 == u && r.1 == u && p.1 == u
            &&& s == binaria(Valor::Entero(y), Operador::Suma, Valor::Entero(x), rs, u)
            &&& p == binaria(Valor::Entero(y), Operador::Multiplicacion, Valor::Entero(x), rs, u)
            &&& s.0 matches Ok(z) ==> binaria(z, Operador::Resta, Valor::Entero(y), rs, u) == da(
                Valor::Entero(x),
                u,
            ) && z is Entero && cabe(z->Entero_0)
            &&& r.0 matches Ok(z) ==> binaria(z, Operador::Suma, Valor::Entero(y), rs, u) == da(
                Valor::Entero(x),
                u,
            ) && z is Entero && cabe(z->Entero_0)
            &&& cabe(x + y) == (s.0 is Ok)
            &&& cabe(x - y) == (r.0 is Ok)
            &&& cabe(x * y) == (p.0 is Ok)
            &&& s.0 is Err ==> s.0->Err_0 is Desborde
            &&& r.0 is Err ==> r.0->Err_0 is Desborde
            &&& p.0 is Err ==> p.0->Err_0 is Desborde
            &&& cabe(x + y) ==> s.0->Ok_0 == Valor::Entero(x + y)
            &&& cabe(x - y) ==> r.0->Ok_0 == Valor::Entero(x - y)
            &&& cabe(x * y) ==> p.0->Ok_0 == Valor::Entero(x * y)
            &&& cabe(y + 1) && cabe(x * y) && cabe(x * (y + 1)) ==> binaria(
                Valor::Entero(x),
                Operador::Multiplicacion,
                Valor::Entero(y + 1),
                rs,
                u,
            ) == binaria(p.0->Ok_0, Operador::Suma, Valor::Entero(x), rs, u)
        }),
{
    assert(x * y == y * x) by (nonlinear_arith);
    assert(x * (y + 1) == x * y + x) by (nonlinear_arith);
}

/// Quotient and remainder make up the dividend, the remainder is smaller than the
/// divisor and has the sign of the dividend. Dividing by zero is null, and taking
/// the remainder by it fails. Only the least integer by -1 has more than 64 bits.
pub proof fn ley_division_de_enteros(x: int, y: int, rs: Seq<Respuesta>, u: nat)
    requires
        cabe(x),
        cabe(y),
    ensures
        ({
            let q = binaria(Valor::Entero(x), Operador::Division, Valor::Entero(y), rs, u);
            let r = binaria(Valor::Entero(x), Operador::Modulo, Valor::Entero(y), rs, u);
            &&& y == 0 ==> q == da(Valor::Nulo, u) && r == falla("División por cero en módulo"@, u)
            &&& x == i64::MIN && y == -1 ==> q.0 is Err && q.0->Err_0 is Desborde && r.0 is Err
                && r.0->Err_0 is Desborde
            &&& y != 0 && !(x == i64::MIN && y == -1) ==> {
                &&& q.0 is Ok && q.0->Ok_0 is Entero && q.1 == u
                &&& r.0 is Ok && r.0->Ok_0 is Entero && r.1 == u
                &&& x == y * q.0->Ok_0->Entero_0 + r.0->Ok_0->Entero_0
                &&& -(if y < 0 {
                    -y
                } else {
                    y
                }) < r.0->Ok_0->Entero_0 < (if y < 0 {
                    -y
                } else {
                    y
                })
                &&& x >= 0 ==> r.0->Ok_0->Entero_0 >= 0
                &&& x <= 0 ==> r.0->Ok_0->Entero_0 <= 0
            }
        }),
{
    if y != 0 {
        ley_division(x, y);
        crate::operaciones::lema_cociente_acotado(x, y);
    }
}

/// Changing the sign of an integer gives what makes zero with it; of a decimal,
/// the opposite number; of anything else it fails. Changing it twice changes
/// nothing.
pub proof fn ley_cambio_de_signo(v: Valor, rs: Seq<Respuesta>, u: nat)
    ensures
        ({
            let r = unaria(OperadorUnario::Negar, v, u);
            &&& r.1 == u
            &&& v matches Valor::Entero(n) ==> (cabe(n) ==> {
                &&& n == i64::MIN ==> r.0 is Err && r.0->Err_0 is Desborde
                &&& n != i64::MIN ==> r.0 is Ok && binaria(
                    v,
                    Operador::Suma,
                    r.0->Ok_0,
                    rs,
                    u,
                ) == da(Valor::Entero(0), u) && unaria(OperadorUnario::Negar, r.0->Ok_0, u) == da(
                    v,
                    u,
                )
            })
            &&& v matches Valor::Decimal(d) ==> r.0 is Ok && r.0->Ok_0 is Decimal && unidades(
                r.0->Ok_0->Decimal_0,
            ) == -unidades(d) && con_signo(r.0->Ok_0->Decimal_0) != con_signo(d) && unaria(
                OperadorUnario::Negar,
                r.0->Ok_0,
                u,
            ) == da(v, u)
            &&& !(v is Entero) && !(v is Decimal) ==> r == falla(
                "No se puede negar un valor no numérico"@,
                u,
            )
        }),
{
    if let Valor::Decimal(d) = v {
        ley_opuesto(d);
    }
}

// ---------------------------------------------------------------------------
// Decimals, and what makes no sense
// ---------------------------------------------------------------------------

/// The next answer of the host is used, and only that one, where it is of the kind
/// that is asked for; where there is none, the run waits with what it asks.
pub proof fn ley_siguiente_respuesta(p: PedidoVista, rs: Seq<Respuesta>, u: nat)
    ensures
        u >= rs.len() ==> numero_pedido(p, rs, u) == (
            Err::<Decimal, Interrupcion>(Interrupcion::Pendiente(p)),
            u,
        ),
        u >= rs.len() ==> texto_pedido(p, rs, u) == (
            Err::<Seq<char>, Interrupcion>(Interrupcion::Pendiente(p)),
            u,
        ),
        u < rs.len() && rs[u as int] is Numero ==> numero_pedido(p, rs, u) == (
            Ok::<Decimal, Interrupcion>(rs[u as int]->Numero_0),
            u + 1,
        ) && texto_pedido(p, rs, u) == (
            Err::<Seq<char>, Interrupcion>(Interrupcion::Pendiente(p)),
            u,
        ),
        u < rs.len() && rs[u as int] is Texto ==> texto_pedido(p, rs, u) == (
            Ok::<Seq<char>, Interrupcion>(rs[u as int]->Texto_0@),
            u + 1,
        ) && numero_pedido(p, rs, u) == (
            Err::<Decimal, Interrupcion>(Interrupcion::Pendiente(p)),
            u,
        ),
{
}

/// The host's operation for an operator.
pub open spec fn op_del_host(op: Operador) -> Option<OpDecimal> {
    match op {
        Operador::Suma => Some(OpDecimal::Suma),
        Operador::Resta => Some(OpDecimal::Resta),
        Operador::Multiplicacion => Some(OpDecimal::Multiplicacion),
        Operador::Division => Some(OpDecimal::Division),
        _ => None,
    }
}

/// The four operations on decimals are the host's: it is asked for that operation
/// on those decimals, in that order, and its answer is the result. Only a division
/// by zero is null without asking. A whole number beside a decimal counts as its
/// decimal.
pub proof fn ley_aritmetica_de_decimales(
    op: Operador,
    a: Decimal,
    b: Decimal,
    n: int,
    rs: Seq<Respuesta>,
    u: nat,
)
    requires
        op_del_host(op) is Some,
        cabe(n),
    ensures
        op is Division && b.cero() ==> binaria(
            Valor::Decimal(a),
            op,
            Valor::Decimal(b),
            rs,
            u,
        ) == da(Valor::Nulo, u),
        !(op is Division && b.cero()) ==> {
            let r = binaria(Valor::Decimal(a), op, Valor::Decimal(b), rs, u);
            &&& u >= rs.len() ==> r == (
                Err::<Valor, Interrupcion>(
                    Interrupcion::Pendiente(
                        PedidoVista::Aritmetica { op: op_del_host(op)->0, a, b },
                    ),
                ),
                u,
            )
            &&& u < rs.len() && rs[u as int] is Numero ==> r == da(
                Valor::Decimal(rs[u as int]->Numero_0),
                u + 1,
            )
        },
        binaria(Valor::Entero(n), op, Valor::Decimal(b), rs, u) == binaria(
            Valor::Decimal(decimal_de_entero(n)),
            op,
            Valor::Decimal(b),
            rs,
            u,
        ),
        binaria(Valor::Decimal(a), op, Valor::Entero(n), rs, u) == binaria(
            Valor::Decimal(a),
            op,
            Valor::Decimal(decimal_de_entero(n)),
            rs,
            u,
        ),
{
}

/// Whether a value is a number.
pub open spec fn es_numero(v: Valor) -> bool {
    v is Entero || v is Decimal
}

/// Differences, products and quotients of anything but two numbers are null, and
/// so is a sum unless one side is a text. A remainder of anything but two integers
/// fails.
pub proof fn ley_sin_sentido(a: Valor, b: Valor, rs: Seq<Respuesta>, u: nat)
    ensures
        !(es_numero(a) && es_numero(b)) ==> {
            &&& binaria(a, Operador::Resta, b, rs, u) == da(Valor::Nulo, u)
            &&& binaria(a, Operador::Multiplicacion, b, rs, u) == da(Valor::Nulo, u)
            &&& binaria(a, Operador::Division, b, rs, u) == da(Valor::Nulo, u)
            &&& !(a is Texto) && !(b is Texto) ==> binaria(a, Operador::Suma, b, rs, u) == da(
                Valor::Nulo,
                u,
            )
        },
        !(a is Entero && b is Entero) ==> binaria(a, Operador::Modulo, b, rs, u) == falla(
            "Módulo sólo soportado para enteros"@,
            u,
        ),
{
}

// ---------------------------------------------------------------------------
// Texts
// ---------------------------------------------------------------------------

/// How values are shown: a text as it is, an integer in its digits, a boolean and
/// null by their words, and a decimal as the host shows it in the style that it
/// has. Only a decimal asks the host.
pub proof fn ley_mostrar(v: Valor, rs: Seq<Respuesta>, u: nat)
    ensures
        ({
            let r = mostrado(v, rs, u);
            &&& !(v is Decimal) ==> r.0 is Ok && r.1 == u
            &&& v is Texto ==> r.0->Ok_0 == v->Texto_0
            &&& v matches Valor::Entero(n) ==> (n >= 0 ==> numero_de(r.0->Ok_0) == n
                && r.0->Ok_0[0] != '-') && (n < 0 ==> r.0->Ok_0[0] == '-' && numero_de(
                r.0->Ok_0.drop_first(),
            ) == -n)
            &&& v == Valor::Booleano(true) ==> r.0->Ok_0 == "verdadero"@
            &&& v == Valor::Booleano(false) ==> r.0->Ok_0 == "falso"@
            &&& v is Nulo ==> r.0->Ok_0 == "nulo"@
            &&& v matches Valor::Decimal(d) ==> {
                &&& u >= rs.len() ==> r == (
                    Err::<Seq<char>, Interrupcion>(
                        Interrupcion::Pendiente(PedidoVista::Mostrar(d, d.estilo_spec())),
                    ),
                    u,
                )
                &&& u < rs.len() && rs[u as int] is Texto ==> r == (
                    Ok::<Seq<char>, Interrupcion>(rs[u as int]->Texto_0@),
                    u + 1,
                )
            }
        }),
{
    if let Valor::Entero(n) = v {
        ley_texto_de_entero(n);
    }
}

/// A sum with a text is the text followed, or preceded, by the other side as it is
/// shown. Sums of texts can be grouped in any way, and the empty text adds nothing.
pub proof fn ley_suma_de_textos(
    a: Seq<char>,
    b: Seq<char>,
    c: Seq<char>,
    v: Valor,
    rs: Seq<Respuesta>,
    u: nat,
)
    ensures
        ({
            let m = mostrado(v, rs, u);
            let der = binaria(Valor::Texto(a), Operador::Suma, v, rs, u);
            let izq = binaria(v, Operador::Suma, Valor::Texto(a), rs, u);
            &&& m.0 matches Ok(t) ==> der == da(Valor::Texto(a + t), m.1) && izq == da(
                Valor::Texto(t + a),
                m.1,
            )
            &&& m.0 matches Err(e) ==> der == (Err::<Valor, Interrupcion>(e), m.1) && izq == (
                Err::<Valor, Interrupcion>(e),
                m.1,
            )
        }),
        binaria(
            binaria(Valor::Texto(a), Operador::Suma, Valor::Texto(b), rs, u).0->Ok_0,
            Operador::Suma,
            Valor::Texto(c),
            rs,
            u,
        ) == binaria(
            Valor::Texto(a),
            Operador::Suma,
            binaria(Valor::Texto(b), Operador::Suma, Valor::Texto(c), rs, u).0->Ok_0,
            rs,
            u,
        ),
        binaria(Valor::Texto(a), Operador::Suma, Valor::Texto(Seq::empty()), rs, u) == da(
            Valor::Texto(a),
            u,
        ),
        binaria(Valor::Texto(Seq::empty()), Operador::Suma, Valor::Texto(a), rs, u) == da(
            Valor::Texto(a),
            u,
        ),
{
    assert((a + b) + c =~= a + (b + c));
    assert(a + Seq::empty() =~= a);
    assert(Seq::<char>::empty() + a =~= a);
}

// ---------------------------------------------------------------------------
// Comparison
// ---------------------------------------------------------------------------

/// Whether an operator compares by order.
pub open spec fn de_orden(op: Operador) -> bool {
    op is Menor || op is MenorIgual || op is Mayor || op is MayorIgual
}

/// Finite decimals are compared as the numbers they stand for.
pub proof fn ley_comparar_decimales(a: Decimal, b: Decimal, rs: Seq<Respuesta>, u: nat)
    requires
        a.finito(),
        b.finito(),
    ensures
        ({
            let (x, y) = (Valor::Decimal(a), Valor::Decimal(b));
            let (p, q) = (unidades(a), unidades(b));
            &&& binaria(x, Operador::Menor, y, rs, u) == da(Valor::Booleano(p < q), u)
            &&& binaria(x, Operador::MenorIgual, y, rs, u) == da(Valor::Booleano(p <= q), u)
            &&& binaria(x, Operador::Mayor, y, rs, u) == da(Valor::Booleano(p > q), u)
            &&& binaria(x, Operador::MayorIgual, y, rs, u) == da(Valor::Booleano(p >= q), u)
        }),
{
    ley_orden_de_los_numeros(a, b);
    ley_orden_de_los_numeros(b, a);
}

/// In a comparison an integer counts as its decimal and a boolean and null as
/// zero, on either side. A text counts as the number that the host reads in it:
/// the host is asked for that, the left side first, and its answer stands for the
/// text. What is no number compares as false.
pub proof fn ley_comparar_como_decimales(
    op: Operador,
    v: Valor,
    n: int,
    b: bool,
    t: Seq<char>,
    d: Decimal,
    rs: Seq<Respuesta>,
    u: nat,
)
    requires
        de_orden(op),
    ensures
        ({
            let dn = Valor::Decimal(decimal_de_entero(n));
            let cero = Valor::Decimal(Decimal { bits: 0 });
            &&& binaria(Valor::Entero(n), op, v, rs, u) == binaria(dn, op, v, rs, u)
            &&& binaria(v, op, Valor::Entero(n), rs, u) == binaria(v, op, dn, rs, u)
            &&& binaria(Valor::Booleano(b), op, v, rs, u) == binaria(cero, op, v, rs, u)
            &&& binaria(v, op, Valor::Booleano(b), rs, u) == binaria(v, op, cero, rs, u)
            &&& binaria(Valor::Nulo, op, v, rs, u) == binaria(cero, op, v, rs, u)
            &&& binaria(v, op, Valor::Nulo, rs, u) == binaria(v, op, cero, rs, u)
            &&& u >= rs.len() ==> binaria(Valor::Texto(t), op, v, rs, u) == (
                Err::<Valor, Interrupcion>(Interrupcion::Pendiente(PedidoVista::Leer(t))),
                u,
            )
            &&& u < rs.len() && rs[u as int] is Numero ==> binaria(Valor::Texto(t), op, v, rs, u)
                == binaria(Valor::Decimal(rs[u as int]->Numero_0), op, v, rs, u + 1)
            &&& !(v is Texto) && u >= rs.len() ==> binaria(v, op, Valor::Texto(t), rs, u) == (
                Err::<Valor, Interrupcion>(Interrupcion::Pendiente(PedidoVista::Leer(t))),
                u,
            )
            &&& !(v is Texto) && u < rs.len() && rs[u as int] is Numero ==> {
                let r = binaria(v, op, Valor::Texto(t), rs, u);
                &&& r.0 == binaria(v, op, Valor::Decimal(rs[u as int]->Numero_0), rs, u).0
                &&& r.1 == u + 1
            }
            &&& d.no_es_numero() && !(v is Texto) ==> binaria(
                Valor::Decimal(d),
                op,
                v,
                rs,
                u,
            ) == da(Valor::Booleano(false), u) && binaria(v, op, Valor::Decimal(d), rs, u) == da(
                Valor::Booleano(false),
                u,
            )
        }),
{
}

// ---------------------------------------------------------------------------
// JSON
// ---------------------------------------------------------------------------

/// What the JSON value of a value holds: an integer its number, as a natural one
/// where it is not negative; a text, a boolean and null themselves; a finite
/// decimal itself, and any other decimal null. Reading takes the same from each;
/// a natural number beyond 64 bits is read as its decimal.
pub proof fn ley_json_por_clases(v: Valor, j: Json)
    ensures
        v matches Valor::Entero(n) ==> (n < 0 ==> a_json(v) == Json::Negativo(n)) && (n >= 0
            ==> a_json(v) == Json::Natural(n as nat)),
        v is Texto ==> a_json(v) == Json::Texto(v->Texto_0),
        v is Booleano ==> a_json(v) == Json::Booleano(v->Booleano_0),
        v is Nulo ==> a_json(v) is Nulo,
        v matches Valor::Decimal(d) ==> (d.finito() ==> a_json(v) == Json::Decimal(d)) && (
        !d.finito() ==> a_json(v) is Nulo),
        j matches Json::Natural(n) ==> de_json(j) == (if cabe(n as int) {
            Valor::Entero(n as int)
        } else {
            Valor::Decimal(decimal_de_entero(n as int))
        }),
        j matches Json::Negativo(n) ==> de_json(j) == Valor::Entero(n),
        j matches Json::Decimal(d) ==> de_json(j) == Valor::Decimal(d),
        j matches Json::Texto(t) ==> de_json(j) == Valor::Texto(t),
        j matches Json::Booleano(b) ==> de_json(j) == Valor::Booleano(b),
        j is Nulo || j is Compuesto ==> de_json(j) is Nulo,
{
}

/// An array without decimals, and an object without decimals among its members,
/// is written without the host. One with a decimal anywhere is the host's to
/// write: it is asked for all of it, and its text is the result.
pub proof fn ley_escritura(
    js: Seq<Json>,
    ps: Seq<(Seq<char>, Json)>,
    rs: Seq<Respuesta>,
    u: nat,
)
    ensures
        (forall|i: int| 0 <= i < js.len() ==> !((#[trigger] js[i]) is Decimal))
            ==> arreglo_escrito(js, rs, u) == da(Valor::Texto(texto_de_arreglo(js)), u),
        (exists|i: int| 0 <= i < js.len() && (#[trigger] js[i]) is Decimal) ==> {
            let r = arreglo_escrito(js, rs, u);
            &&& u >= rs.len() ==> r == (
                Err::<Valor, Interrupcion>(
                    Interrupcion::Pendiente(PedidoVista::EscribirArreglo(js)),
                ),
                u,
            )
            &&& u < rs.len() && rs[u as int] is Texto ==> r == da(
                Valor::Texto(rs[u as int]->Texto_0@),
                u + 1,
            )
        },
        (forall|i: int| 0 <= i < ps.len() ==> !((#[trigger] ps[i]).1 is Decimal))
            ==> objeto_escrito(ps, rs, u) == da(Valor::Texto(texto_de_objeto(miembros_de(ps))), u),
        (exists|i: int| 0 <= i < ps.len() && (#[trigger] ps[i]).1 is Decimal) ==> {
            let r = objeto_escrito(ps, rs, u);
            &&& u >= rs.len() ==> r == (
                Err::<Valor, Interrupcion>(
                    Interrupcion::Pendiente(PedidoVista::EscribirObjeto(ps)),
                ),
                u,
            )
            &&& u < rs.len() && rs[u as int] is Texto ==> r == da(
                Valor::Texto(rs[u as int]->Texto_0@),
                u + 1,
            )
        },
{
    if exists|i: int| 0 <= i < js.len() && (#[trigger] js[i]) is Decimal {
        let i = choose|i: int| 0 <= i < js.len() && (#[trigger] js[i]) is Decimal;
        assert(js[i].es_decimal());
    } else {
        assert(!hay_decimal(js));
    }
    let vs = valores_de(ps);
    if exists|i: int| 0 <= i < ps.len() && (#[trigger] ps[i]).1 is Decimal {
        let i = choose|i: int| 0 <= i < ps.len() && (#[trigger] ps[i]).1 is Decimal;
        assert(vs[i] == ps[i].1);
        assert(vs[i].es_decimal());
    } else {
        assert forall|i: int| 0 <= i < vs.len() implies !(#[trigger] vs[i]).es_decimal() by {
            assert(vs[i] == ps[i].1);
        }
        assert(!hay_decimal(vs));
    }
}

/// An object has a member for each name that was given, and no other; of a name
/// that was given more than once, the last value.
pub proof fn ley_ultimo_miembro(ps: Seq<(Seq<char>, Json)>, i: int, k: Seq<char>)
    ensures
        0 <= i < ps.len() && (forall|j: int| i < j < ps.len() ==> (#[trigger] ps[j]).0 != ps[i].0)
            ==> miembros_de(ps).contains_key(ps[i].0) && miembros_de(ps)[ps[i].0] == ps[i].1,
        miembros_de(ps).contains_key(k) == (exists|j: int|
            0 <= j < ps.len() && (#[trigger] ps[j]).0 == k),
    decreases ps.len(),
{
    if ps.len() > 0 {
        let qs = ps.drop_last();
        ley_ultimo_miembro(qs, i, k);
        assert(ps[ps.len() - 1] == ps.last());
        if exists|j: int| 0 <= j < qs.len() && (#[trigger] qs[j]).0 == k {
            let j = choose|j: int| 0 <= j < qs.len() && (#[trigger] qs[j]).0 == k;
            assert(ps[j].0 == k);
        }
        if 0 <= i < qs.len() {
            assert(ps[i] == qs[i]);
            if forall|j: int| i < j < ps.len() ==> (#[trigger] ps[j]).0 != ps[i].0 {
                assert forall|j: int| i < j < qs.len() implies (#[trigger] qs[j]).0 != qs[i].0 by {
                    assert(ps[j] == qs[j]);
                }
                assert(ps[ps.len() - 1].0 != ps[i].0);
            }
        }
        assert forall|j: int| 0 <= j < ps.len() && (#[trigger] ps[j]).0 == k implies miembros_de(
            ps,
        ).contains_key(k) by {
            if j < qs.len() {
                assert(qs[j] == ps[j]);
            }
        }
    }
}

/// An index takes the element in its place of the array that the object, as it is
/// shown, is the text of. It fails beyond the end of the array, on what is no array
/// and where the index is no integer. One that no array reaches counts as what is
/// left of it in the bits of an index.
pub proof fn ley_elemento(
    objeto: Valor,
    indice: Valor,
    t: Seq<char>,
    w: nat,
    rs: Seq<Respuesta>,
    u: nat,
)
    requires
        mostrado(objeto, rs, u) == (Ok::<Seq<char>, Interrupcion>(t), w),
    ensures
        !(indice is Entero) ==> indexado(objeto, indice, rs, u) == falla(
            "Índice debe ser un entero"@,
            u,
        ),
        indice matches Valor::Entero(k) ==> (0 <= k <= usize::MAX ==> {
            let r = indexado(objeto, indice, rs, u);
            &&& r.1 == w
            &&& arreglo_de_texto(t) is None ==> r == falla(
                "No se puede indexar un valor que no es un array"@,
                w,
            )
            &&& arreglo_de_texto(t) matches Some(js) ==> (k < js.len() ==> r == da(
                de_json(js[k]),
                w,
            )) && (k >= js.len() ==> r == falla(
                "Índice "@ + digitos(k as nat) + " fuera de rango (len="@ + digitos(js.len()) + ")"@,
                w,
            ))
        }),
        indice matches Valor::Entero(k) ==> indexado(objeto, indice, rs, u) == indexado(
            objeto,
            Valor::Entero((k as usize) as int),
            rs,
            u,
        ),
{
}

} // verus!
