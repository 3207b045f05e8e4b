//! The operations on values.

use vstd::prelude::*;

use crate::ast::{Operador, OperadorUnario};
use crate::decimal::{decimal_de_entero, Decimal};
use crate::json::{
    arreglo_de_texto, de_json, escribir_arreglo, escribir_objeto, leer_arreglo, miembros,
    objeto_insertar, objeto_nuevo, sin_miembros, texto_de_arreglo, texto_de_objeto, vistas_json,
    Json, ValorJson,
};
use crate::sesion::{
    numero_pedido, texto_pedido, vista_decimal, vista_resultado, vista_texto, vistas_pares,
    Consulta, Corte, Interrupcion, OpDecimal, Pedido, PedidoVista, Respuesta, Sesion,
};
use crate::texto::{digitos, entero_a_texto, natural_a_texto, texto_de_entero};
use crate::valor::{Valor, ValorGUI};

verus! {

/// A failure of the program with this message.
pub open spec fn fallo<T>(mensaje: Seq<char>, usadas: nat) -> Consulta<T> {
    (Err(Interrupcion::Error(mensaje)), usadas)
}

/// An integer result, if it fits in 64 bits.
pub open spec fn entero_que_cabe(n: int, usadas: nat) -> Consulta<Valor> {
    if i64::MIN <= n <= i64::MAX {
        (Ok(Valor::Entero(n)), usadas)
    } else {
        (Err(Interrupcion::Desborde), usadas)
    }
}

/// The quotient of whole numbers, rounded toward zero.
pub open spec fn cociente(a: int, b: int) -> int
    recommends
        b != 0,
{
    if a >= 0 && b > 0 {
        a / b
    } else if a >= 0 {
        -(a / (-b))
    } else if b > 0 {
        -((-a) / b)
    } else {
        (-a) / (-b)
    }
}

/// What is left of `a` beyond the quotient; it has the sign of `a`.
pub open spec fn resto(a: int, b: int) -> int
    recommends
        b != 0,
{
    let divisor = if b < 0 {
        -b
    } else {
        b
    };
    if a >= 0 {
        a % divisor
    } else {
        -((-a) % divisor)
    }
}

/// The text that shows a value.
pub open spec fn mostrado(v: Valor, respuestas: Seq<Respuesta>, usadas: nat) -> Consulta<Seq<char>> {
    match v {
        Valor::Texto(t) => (Ok(t), usadas),
        Valor::Entero(n) => (Ok(texto_de_entero(n)), usadas),
        Valor::Decimal(d) => texto_pedido(
            PedidoVista::Mostrar(d, d.estilo_spec()),
            respuestas,
            usadas,
        ),
        Valor::Booleano(b) => (
            Ok(
                if b {
                    "verdadero"@
                } else {
                    "falso"@
                },
            ),
            usadas,
        ),
        Valor::Nulo => (Ok("nulo"@), usadas),
    }
}

/// The decimal that a value counts as in a comparison; zero for a boolean and
/// for null.
pub open spec fn como_decimal(v: Valor, respuestas: Seq<Respuesta>, usadas: nat) -> Consulta<
    Decimal,
> {
    match v {
        Valor::Entero(n) => (Ok(decimal_de_entero(n)), usadas),
        Valor::Decimal(d) => (Ok(d), usadas),
        Valor::Texto(t) => numero_pedido(PedidoVista::Leer(t), respuestas, usadas),
        Valor::Booleano(_) => (Ok(Decimal { bits: 0 }), usadas),
        Valor::Nulo => (Ok(Decimal { bits: 0 }), usadas),
    }
}

/// The host's result of an operation on decimals.
pub open spec fn decimal_calculado(
    op: OpDecimal,
    a: Decimal,
    b: Decimal,
    respuestas: Seq<Respuesta>,
    usadas: nat,
) -> Consulta<Valor> {
    match numero_pedido(PedidoVista::Aritmetica { op, a, b }, respuestas, usadas) {
        (Ok(d), u) => (Ok(Valor::Decimal(d)), u),
        (Err(c), u) => (Err(c), u),
    }
}

/// The operands of an operation as decimals, if both are numbers and one of
/// them is a decimal.
pub open spec fn par_decimal(a: Valor, b: Valor) -> Option<(Decimal, Decimal)> {
    match (a, b) {
        (Valor::Decimal(x), Valor::Decimal(y)) => Some((x, y)),
        (Valor::Entero(x), Valor::Decimal(y)) => Some((decimal_de_entero(x), y)),
        (Valor::Decimal(x), Valor::Entero(y)) => Some((x, decimal_de_entero(y))),
        _ => None,
    }
}

/// The sum: of numbers, or of texts, where a value beside a text is shown.
pub open spec fn suma(a: Valor, b: Valor, respuestas: Seq<Respuesta>, usadas: nat) -> Consulta<
    Valor,
> {
    match (a, b) {
        (Valor::Entero(x), Valor::Entero(y)) => entero_que_cabe(x + y, usadas),
        (Valor::Texto(x), _) => match mostrado(b, respuestas, usadas) {
            (Ok(y), u) => (Ok(Valor::Texto(x + y)), u),
            (Err(c), u) => (Err(c), u),
        },
        (_, Valor::Texto(y)) => match mostrado(a, respuestas, usadas) {
            (Ok(x), u) => (Ok(Valor::Texto(x + y)), u),
            (Err(c), u) => (Err(c), u),
        },
        _ => match par_decimal(a, b) {
            Some((x, y)) => decimal_calculado(OpDecimal::Suma, x, y, respuestas, usadas),
            None => (Ok(Valor::Nulo), usadas),
        },
    }
}

/// The difference of numbers; null for anything else.
pub open spec fn resta(a: Valor, b: Valor, respuestas: Seq<Respuesta>, usadas: nat) -> Consulta<
    Valor,
> {
    match (a, b) {
        (Valor::Entero(x), Valor::Entero(y)) => entero_que_cabe(x - y, usadas),
        _ => match par_decimal(a, b) {
            Some((x, y)) => decimal_calculado(OpDecimal::Resta, x, y, respuestas, usadas),
            None => (Ok(Valor::Nulo), usadas),
        },
    }
}

/// The product of numbers; null for anything else.
pub open spec fn producto(a: Valor, b: Valor, respuestas: Seq<Respuesta>, usadas: nat) -> Consulta<
    Valor,
> {
    match (a, b) {
        (Valor::Entero(x), Valor::Entero(y)) => entero_que_cabe(x * y, usadas),
        _ => match par_decimal(a, b) {
            Some((x, y)) => decimal_calculado(OpDecimal::Multiplicacion, x, y, respuestas, usadas),
            None => (Ok(Valor::Nulo), usadas),
        },
    }
}

/// The quotient of numbers; null if the divisor is zero and for anything else.
pub open spec fn division(a: Valor, b: Valor, respuestas: Seq<Respuesta>, usadas: nat) -> Consulta<
    Valor,
> {
    match (a, b) {
        (Valor::Entero(x), Valor::Entero(y)) => if y == 0 {
            (Ok(Valor::Nulo), usadas)
        } else {
            entero_que_cabe(cociente(x, y), usadas)
        },
        _ => match par_decimal(a, b) {
            Some((x, y)) => if y.cero() {
                (Ok(Valor::Nulo), usadas)
            } else {
                decimal_calculado(OpDecimal::Division, x, y, respuestas, usadas)
            },
            None => (Ok(Valor::Nulo), usadas),
        },
    }
}

/// The remainder of whole numbers. It does not fit where the quotient does not.
pub open spec fn modulo(a: Valor, b: Valor, usadas: nat) -> Consulta<Valor> {
    match (a, b) {
        (Valor::Entero(x), Valor::Entero(y)) => if y == 0 {
            fallo("División por cero en módulo"@, usadas)
        } else if cociente(x, y) > i64::MAX {
            (Err(Interrupcion::Desborde), usadas)
        } else {
            (Ok(Valor::Entero(resto(x, y))), usadas)
        },
        _ => fallo("Módulo sólo soportado para enteros"@, usadas),
    }
}

/// Whether two decimals stand in the order that an operator names.
pub open spec fn en_orden(op: Operador, a: Decimal, b: Decimal) -> bool {
    match op {
        Operador::Menor => a.menor_spec(b),
        Operador::MenorIgual => a.menor_spec(b) || a.igual_spec(b),
        Operador::Mayor => b.menor_spec(a),
        Operador::MayorIgual => b.menor_spec(a) || b.igual_spec(a),
        _ => false,
    }
}

/// The comparison of two values as decimals.
pub open spec fn comparacion(
    op: Operador,
    a: Valor,
    b: Valor,
    respuestas: Seq<Respuesta>,
    usadas: nat,
) -> Consulta<Valor> {
    match como_decimal(a, respuestas, usadas) {
        (Err(c), u) => (Err(c), u),
        (Ok(x), u) => match como_decimal(b, respuestas, u) {
            (Err(c), w) => (Err(c), w),
            (Ok(y), w) => (Ok(Valor::Booleano(en_orden(op, x, y))), w),
        },
    }
}

/// The result of an operator on two values. Both sides of "and" and "or" have
/// been evaluated by then.
pub open spec fn binaria(
    izq: Valor,
    op: Operador,
    der: Valor,
    respuestas: Seq<Respuesta>,
    usadas: nat,
) -> Consulta<Valor> {
    match op {
        Operador::Suma => suma(izq, der, respuestas, usadas),
        Operador::Resta => resta(izq, der, respuestas, usadas),
        Operador::Multiplicacion => producto(izq, der, respuestas, usadas),
        Operador::Division => division(izq, der, respuestas, usadas),
        Operador::Modulo => modulo(izq, der, usadas),
        Operador::IgualIgual => (Ok(Valor::Booleano(izq.igual(der))), usadas),
        Operador::Diferente => (Ok(Valor::Booleano(!izq.igual(der))), usadas),
        Operador::Menor => comparacion(op, izq, der, respuestas, usadas),
        Operador::MenorIgual => comparacion(op, izq, der, respuestas, usadas),
        Operador::Mayor => comparacion(op, izq, der, respuestas, usadas),
        Operador::MayorIgual => comparacion(op, izq, der, respuestas, usadas),
        Operador::Y => (Ok(Valor::Booleano(izq.verdadero() && der.verdadero())), usadas),
        Operador::O => (Ok(Valor::Booleano(izq.verdadero() || der.verdadero())), usadas),
    }
}

/// The result of an operator on one value.
pub open spec fn unaria(op: OperadorUnario, v: Valor, usadas: nat) -> Consulta<Valor> {
    match op {
        OperadorUnario::Negar => match v {
            Valor::Entero(n) => entero_que_cabe(-n, usadas),
            Valor::Decimal(d) => (Ok(Valor::Decimal(d.negado_spec())), usadas),
            _ => fallo("No se puede negar un valor no numérico"@, usadas),
        },
        OperadorUnario::No => (Ok(Valor::Booleano(!v.verdadero())), usadas),
    }
}

/// Whether there is a decimal among the elements.
pub open spec fn hay_decimal(elementos: Seq<Json>) -> bool {
    exists|i: int| 0 <= i < elementos.len() && #[trigger] elementos[i].es_decimal()
}

/// The text of an array. The host writes it where there are decimals in it.
pub open spec fn arreglo_escrito(
    elementos: Seq<Json>,
    respuestas: Seq<Respuesta>,
    usadas: nat,
) -> Consulta<Valor> {
    if hay_decimal(elementos) {
        match texto_pedido(PedidoVista::EscribirArreglo(elementos), respuestas, usadas) {
            (Ok(t), u) => (Ok(Valor::Texto(t)), u),
            (Err(c), u) => (Err(c), u),
        }
    } else {
        (Ok(Valor::Texto(texto_de_arreglo(elementos))), usadas)
    }
}

/// The JSON values of named members.
pub open spec fn valores_de(pares: Seq<(Seq<char>, Json)>) -> Seq<Json> {
    Seq::new(pares.len(), |i: int| pares[i].1)
}

/// The members given in order, the last one of a name standing.
pub open spec fn miembros_de(pares: Seq<(Seq<char>, Json)>) -> Map<Seq<char>, Json>
    decreases pares.len(),
{
    if pares.len() == 0 {
        sin_miembros()
    } else {
        miembros_de(pares.drop_last()).insert(pares.last().0, pares.last().1)
    }
}

/// The text of an object. The host writes it where there are decimals in it.
pub open spec fn objeto_escrito(
    pares: Seq<(Seq<char>, Json)>,
    respuestas: Seq<Respuesta>,
    usadas: nat,
) -> Consulta<Valor> {
    if hay_decimal(valores_de(pares)) {
        match texto_pedido(PedidoVista::EscribirObjeto(pares), respuestas, usadas) {
            (Ok(t), u) => (Ok(Valor::Texto(t)), u),
            (Err(c), u) => (Err(c), u),
        }
    } else {
        (Ok(Valor::Texto(texto_de_objeto(miembros_de(pares)))), usadas)
    }
}

/// The element of what a JSON text holds, where it is an array.
pub open spec fn elemento(leido: Option<Seq<Json>>, indice: usize) -> Result<Valor, Interrupcion> {
    match leido {
        Some(arreglo) => if indice < arreglo.len() {
            Ok(de_json(arreglo[indice as int]))
        } else {
            Err(
                Interrupcion::Error(
                    "Índice "@ + digitos(indice as nat) + " fuera de rango (len="@ + digitos(
                        arreglo.len(),
                    ) + ")"@,
                ),
            )
        },
        None => Err(Interrupcion::Error("No se puede indexar un valor que no es un array"@)),
    }
}

/// A value indexed by another: the text that shows it is read as a JSON array.
pub open spec fn indexado(
    objeto: Valor,
    indice: Valor,
    respuestas: Seq<Respuesta>,
    usadas: nat,
) -> Consulta<Valor> {
    match indice {
        Valor::Entero(n) => match mostrado(objeto, respuestas, usadas) {
            (Ok(t), u) => (elemento(arreglo_de_texto(t), n as usize), u),
            (Err(c), u) => (Err(c), u),
        },
        _ => fallo("Índice debe ser un entero"@, usadas),
    }
}

// ---------------------------------------------------------------------------
// The operations
// ---------------------------------------------------------------------------

impl ValorGUI {
    /// The text that shows the value.
    pub fn to_display(&self, sesion: &mut Sesion) -> (r: Result<String, Corte>)
        ensures
            final(sesion).salvo_consultas(*old(sesion)),
            (vista_texto(r), final(sesion).usadas as nat) == mostrado(
                self@,
                old(sesion).respuestas@,
                old(sesion).usadas as nat,
            ),
    {
        match self {
            ValorGUI::Texto(t) => Ok(t.clone()),
            ValorGUI::Entero(n) => Ok(entero_a_texto(*n)),
            ValorGUI::Decimal(d) => sesion.pedir_texto(Pedido::Mostrar(*d, d.estilo())),
            ValorGUI::Booleano(b) => if *b {
                Ok("verdadero".to_string())
            } else {
                Ok("falso".to_string())
            },
            ValorGUI::Nulo => Ok("nulo".to_string()),
        }
    }

    /// The decimal that the value counts as in a comparison.
    pub fn to_decimal(&self, sesion: &mut Sesion) -> (r: Result<Decimal, Corte>)
        ensures
            final(sesion).salvo_consultas(*old(sesion)),
            (vista_decimal(r), final(sesion).usadas as nat) == como_decimal(
                self@,
                old(sesion).respuestas@,
                old(sesion).usadas as nat,
            ),
    {
        match self {
            ValorGUI::Entero(n) => Ok(Decimal::de_entero(*n)),
            ValorGUI::Decimal(d) => Ok(*d),
            ValorGUI::Texto(t) => sesion.pedir_numero(Pedido::Leer(t.clone())),
            _ => Ok(Decimal { bits: 0 }),
        }
    }
}

fn calcular(op: OpDecimal, a: Decimal, b: Decimal, sesion: &mut Sesion) -> (r: Result<
    ValorGUI,
    Corte,
>)
    ensures
        final(sesion).salvo_consultas(*old(sesion)),
        (vista_resultado(r), final(sesion).usadas as nat) == decimal_calculado(
            op,
            a,
            b,
            old(sesion).respuestas@,
            old(sesion).usadas as nat,
        ),
{
    match sesion.pedir_numero(Pedido::Aritmetica { op, a, b }) {
        Ok(d) => Ok(ValorGUI::Decimal(d)),
        Err(c) => Err(c),
    }
}

fn operandos_decimales(a: &ValorGUI, b: &ValorGUI) -> (r: Option<(Decimal, Decimal)>)
    ensures
        r == par_decimal(a@, b@),
{
    match (a, b) {
        (ValorGUI::Decimal(x), ValorGUI::Decimal(y)) => Some((*x, *y)),
        (ValorGUI::Entero(x), ValorGUI::Decimal(y)) => Some((Decimal::de_entero(*x), *y)),
        (ValorGUI::Decimal(x), ValorGUI::Entero(y)) => Some((*x, Decimal::de_entero(*y))),
        _ => None,
    }
}

fn entero_o_desborde(n: Option<i64>) -> (r: Result<ValorGUI, Corte>)
    ensures
        n matches Some(k) ==> vista_resultado(r) == Ok::<Valor, Interrupcion>(
            Valor::Entero(k as int),
        ),
        n is None ==> vista_resultado(r) == Err::<Valor, Interrupcion>(Interrupcion::Desborde),
{
    match n {
        Some(k) => Ok(ValorGUI::Entero(k)),
        None => Err(Corte::Desborde),
    }
}

/// Adds two values.
pub fn sumar(a: ValorGUI, b: ValorGUI, sesion: &mut Sesion) -> (r: Result<ValorGUI, Corte>)
    ensures
        final(sesion).salvo_consultas(*old(sesion)),
        (vista_resultado(r), final(sesion).usadas as nat) == suma(
            a@,
            b@,
            old(sesion).respuestas@,
            old(sesion).usadas as nat,
        ),
{
    match (&a, &b) {
        (ValorGUI::Entero(x), ValorGUI::Entero(y)) => entero_o_desborde((*x).checked_add(*y)),
        (ValorGUI::Texto(x), _) => match b.to_display(sesion) {
            Ok(y) => {
                let mut texto = x.clone();
                texto.append(y.as_str());
                Ok(ValorGUI::Texto(texto))
            },
            Err(c) => Err(c),
        },
        (_, ValorGUI::Texto(y)) => match a.to_display(sesion) {
            Ok(x) => {
                let mut texto = x;
                texto.append(y.as_str());
                Ok(ValorGUI::Texto(texto))
            },
            Err(c) => Err(c),
        },
        _ => match operandos_decimales(&a, &b) {
            Some((x, y)) => calcular(OpDecimal::Suma, x, y, sesion),
            None => Ok(ValorGUI::Nulo),
        },
    }
}

/// Subtracts a value from another.
pub fn restar(a: ValorGUI, b: ValorGUI, sesion: &mut Sesion) -> (r: Result<ValorGUI, Corte>)
    ensures
        final(sesion).salvo_consultas(*old(sesion)),
        (vista_resultado(r), final(sesion).usadas as nat) == resta(
            a@,
            b@,
            old(sesion).respuestas@,
            old(sesion).usadas as nat,
        ),
{
    match (&a, &b) {
        (ValorGUI::Entero(x), ValorGUI::Entero(y)) => entero_o_desborde((*x).checked_sub(*y)),
        _ => match operandos_decimales(&a, &b) {
            Some((x, y)) => calcular(OpDecimal::Resta, x, y, sesion),
            None => Ok(ValorGUI::Nulo),
        },
    }
}

/// Multiplies two values.
pub fn multiplicar(a: ValorGUI, b: ValorGUI, sesion: &mut Sesion) -> (r: Result<ValorGUI, Corte>)
    ensures
        final(sesion).salvo_consultas(*old(sesion)),
        (vista_resultado(r), final(sesion).usadas as nat) == producto(
            a@,
            b@,
            old(sesion).respuestas@,
            old(sesion).usadas as nat,
        ),
{
    match (&a, &b) {
        (ValorGUI::Entero(x), ValorGUI::Entero(y)) => entero_o_desborde((*x).checked_mul(*y)),
        _ => match operandos_decimales(&a, &b) {
            Some((x, y)) => calcular(OpDecimal::Multiplicacion, x, y, sesion),
            None => Ok(ValorGUI::Nulo),
        },
    }
}

/// Divides a value by another.
pub fn dividir(a: ValorGUI, b: ValorGUI, sesion: &mut Sesion) -> (r: Result<ValorGUI, Corte>)
    ensures
        final(sesion).salvo_consultas(*old(sesion)),
        (vista_resultado(r), final(sesion).usadas as nat) == division(
            a@,
            b@,
            old(sesion).respuestas@,
            old(sesion).usadas as nat,
        ),
{
    match (&a, &b) {
        (ValorGUI::Entero(x), ValorGUI::Entero(y)) => if *y == 0 {
            Ok(ValorGUI::Nulo)
        } else {
            proof {
                lema_cociente_acotado(*x as int, *y as int);
            }
            entero_o_desborde((*x).checked_div(*y))
        },
        _ => match operandos_decimales(&a, &b) {
            Some((x, y)) => if y.es_cero() {
                Ok(ValorGUI::Nulo)
            } else {
                calcular(OpDecimal::Division, x, y, sesion)
            },
            None => Ok(ValorGUI::Nulo),
        },
    }
}

pub(crate) proof fn lema_cociente_acotado(a: int, b: int)
    requires
        b != 0,
    ensures
        a >= 0 && b > 0 ==> 0 <= cociente(a, b) <= a,
        a >= 0 && b < 0 ==> -a <= cociente(a, b) <= 0,
        a < 0 && b > 0 ==> a <= cociente(a, b) <= 0,
        a < 0 && b < 0 ==> 0 <= cociente(a, b) <= -a,
        a < 0 && b < -1 ==> cociente(a, b) < -a,
        b == -1 ==> cociente(a, b) == -a,
        a >= 0 ==> 0 <= resto(a, b) <= a,
        a < 0 ==> a <= resto(a, b) <= 0,
{
    if a < 0 && b < -1 {
        let x = -a;
        let y = -b;
        assert(x / y < x) by (nonlinear_arith)
            requires
                x >= 1,
                y >= 2,
        ;
    }
    assert(a / 1 == a && (-a) / 1 == -a);
    let x = if a < 0 {
        -a
    } else {
        a
    };
    let y = if b < 0 {
        -b
    } else {
        b
    };
    assert(0 <= x % y <= x) by (nonlinear_arith)
        requires
            x >= 0,
            y >= 1,
    ;
}

/// Takes the remainder of a value by another.
fn modular(a: ValorGUI, b: ValorGUI) -> (r: Result<ValorGUI, Corte>)
    ensures
        forall|usadas: nat| (vista_resultado(r), usadas) == #[trigger] modulo(a@, b@, usadas),
{
    match (&a, &b) {
        (ValorGUI::Entero(x), ValorGUI::Entero(y)) => if *y == 0 {
            Err(Corte::Error("División por cero en módulo".to_string()))
        } else {
            proof {
                lema_cociente_acotado(*x as int, *y as int);
            }
            entero_o_desborde((*x).checked_rem(*y))
        },
        _ => Err(Corte::Error("Módulo sólo soportado para enteros".to_string())),
    }
}

/// Compares two values as decimals, by one of the operators of order.
fn comparar(op: Operador, a: ValorGUI, b: ValorGUI, sesion: &mut Sesion) -> (r: Result<
    ValorGUI,
    Corte,
>)
    ensures
        final(sesion).salvo_consultas(*old(sesion)),
        (vista_resultado(r), final(sesion).usadas as nat) == comparacion(
            op,
            a@,
            b@,
            old(sesion).respuestas@,
            old(sesion).usadas as nat,
        ),
{
    let x = match a.to_decimal(sesion) {
        Ok(x) => x,
        Err(c) => return Err(c),
    };
    let y = match b.to_decimal(sesion) {
        Ok(y) => y,
        Err(c) => return Err(c),
    };
    let cumple = match op {
        Operador::Menor => x.menor(&y),
        Operador::MenorIgual => x.menor_igual(&y),
        Operador::Mayor => y.menor(&x),
        Operador::MayorIgual => y.menor_igual(&x),
        _ => false,
    };
    Ok(ValorGUI::Booleano(cumple))
}

/// Applies an operator to two values.
pub fn evaluar_binaria(
    izq: ValorGUI,
    operador: &Operador,
    der: ValorGUI,
    sesion: &mut Sesion,
) -> (r: Result<ValorGUI, Corte>)
    ensures
        final(sesion).salvo_consultas(*old(sesion)),
        (vista_resultado(r), final(sesion).usadas as nat) == binaria(
            izq@,
            *operador,
            der@,
            old(sesion).respuestas@,
            old(sesion).usadas as nat,
        ),
{
    match operador {
        Operador::Suma => sumar(izq, der, sesion),
        Operador::Resta => restar(izq, der, sesion),
        Operador::Multiplicacion => multiplicar(izq, der, sesion),
        Operador::Division => dividir(izq, der, sesion),
        Operador::Modulo => modular(izq, der),
        Operador::IgualIgual => Ok(ValorGUI::Booleano(izq.igual(&der))),
        Operador::Diferente => Ok(ValorGUI::Booleano(!izq.igual(&der))),
        Operador::Menor | Operador::MenorIgual | Operador::Mayor | Operador::MayorIgual => comparar(
            *operador,
            izq,
            der,
            sesion,
        ),
        Operador::Y => Ok(ValorGUI::Booleano(izq.es_verdadero() && der.es_verdadero())),
        Operador::O => Ok(ValorGUI::Booleano(izq.es_verdadero() || der.es_verdadero())),
    }
}

/// Applies an operator to one value.
pub fn evaluar_unaria(operador: &OperadorUnario, v: ValorGUI) -> (r: Result<ValorGUI, Corte>)
    ensures
        forall|usadas: nat| (vista_resultado(r), usadas) == #[trigger] unaria(*operador, v@, usadas),
{
    match operador {
        OperadorUnario::Negar => match &v {
            ValorGUI::Entero(n) => entero_o_desborde(0i64.checked_sub(*n)),
            ValorGUI::Decimal(d) => Ok(ValorGUI::Decimal(d.negado())),
            _ => Err(Corte::Error("No se puede negar un valor no numérico".to_string())),
        },
        OperadorUnario::No => Ok(ValorGUI::Booleano(!v.es_verdadero())),
    }
}

/// Whether a value is the text of an array, and reading it gives these elements.
pub open spec fn se_lee_como(r: Result<Valor, Interrupcion>, elementos: Seq<Json>) -> bool {
    r matches Ok(Valor::Texto(t)) && arreglo_de_texto(t) == Some(elementos)
}

/// Writes values as a JSON array. Where there are no decimals among them, the
/// array reads back as those values.
pub fn escribir_valores(elementos: Vec<ValorJson>, sesion: &mut Sesion) -> (r: Result<
    ValorGUI,
    Corte,
>)
    requires
        forall|i: int| 0 <= i < elementos@.len() ==> #[trigger] elementos@[i]@.escribible(),
    ensures
        final(sesion).salvo_consultas(*old(sesion)),
        (vista_resultado(r), final(sesion).usadas as nat) == arreglo_escrito(
            vistas_json(elementos@),
            old(sesion).respuestas@,
            old(sesion).usadas as nat,
        ),
        !hay_decimal(vistas_json(elementos@)) ==> se_lee_como(
            vista_resultado(r),
            vistas_json(elementos@),
        ),
{
    let ghost vistas = vistas_json(elementos@);
    let mut i: usize = 0;
    while i < elementos.len()
        invariant
            i <= elementos@.len(),
            vistas == vistas_json(elementos@),
            *sesion == *old(sesion),
            forall|k: int| 0 <= k < i ==> !(#[trigger] vistas[k]).es_decimal(),
            forall|k: int| 0 <= k < elementos@.len() ==> #[trigger] elementos@[k]@.escribible(),
        decreases elementos@.len() - i,
    {
        if elementos[i].es_decimal() {
            assert(vistas[i as int].es_decimal());
            return match sesion.pedir_texto(Pedido::EscribirArreglo(elementos)) {
                Ok(t) => Ok(ValorGUI::Texto(t)),
                Err(c) => Err(c),
            };
        }
        i = i + 1;
    }
    assert forall|k: int| 0 <= k < elementos@.len() implies #[trigger] elementos@[k]@.simple() by {
        assert(!vistas[k].es_decimal());
    }
    match escribir_arreglo(&elementos) {
        Ok(t) => Ok(ValorGUI::Texto(t)),
        Err(e) => Err(
            Corte::Error(crate::texto::unir("Error serializando array: ", e.as_str(), "")),
        ),
    }
}

/// Writes named values as a JSON object.
pub fn escribir_pares(pares: Vec<(String, ValorJson)>, sesion: &mut Sesion) -> (r: Result<
    ValorGUI,
    Corte,
>)
    requires
        forall|i: int| 0 <= i < pares@.len() ==> #[trigger] pares@[i].1@.escribible(),
    ensures
        final(sesion).salvo_consultas(*old(sesion)),
        (vista_resultado(r), final(sesion).usadas as nat) == objeto_escrito(
            vistas_pares(pares@),
            old(sesion).respuestas@,
            old(sesion).usadas as nat,
        ),
{
    let ghost vistas = vistas_pares(pares@);
    let ghost valores = valores_de(vistas);
    let mut objeto = objeto_nuevo();
    let mut i: usize = 0;
    assert(vistas.take(0) =~= Seq::empty());
    while i < pares.len()
        invariant
            i <= pares@.len(),
            vistas == vistas_pares(pares@),
            valores == valores_de(vistas),
            *sesion == *old(sesion),
            forall|k: int| 0 <= k < i ==> !(#[trigger] valores[k]).es_decimal(),
            forall|k: int| 0 <= k < pares@.len() ==> #[trigger] pares@[k].1@.escribible(),
            miembros(objeto) == miembros_de(vistas.take(i as int)),
            forall|k: Seq<char>|
                miembros(objeto).contains_key(k) ==> #[trigger] miembros(objeto)[k].simple(),
        decreases pares@.len() - i,
    {
        let par = &pares[i];
        assert(valores[i as int] == pares@[i as int].1@);
        if par.1.es_decimal() {
            assert(valores[i as int].es_decimal());
            return match sesion.pedir_texto(Pedido::EscribirObjeto(pares)) {
                Ok(t) => Ok(ValorGUI::Texto(t)),
                Err(c) => Err(c),
            };
        }
        objeto_insertar(&mut objeto, par.0.clone(), &par.1);
        assert(vistas.take(i + 1).drop_last() =~= vistas.take(i as int));
        i = i + 1;
    }
    assert(vistas.take(pares@.len() as int) =~= vistas);
    match escribir_objeto(objeto) {
        Ok(t) => Ok(ValorGUI::Texto(t)),
        Err(e) => Err(
            Corte::Error(crate::texto::unir("Error serializando mapa: ", e.as_str(), "")),
        ),
    }
}

/// The element of a JSON array that was read, if one was.
pub fn tomar_elemento(leido: Option<Vec<ValorJson>>, indice: usize) -> (r: Result<ValorGUI, Corte>)
    ensures
        vista_resultado(r) == elemento(
            match leido {
                Some(v) => Some(vistas_json(v@)),
                None => None,
            },
            indice,
        ),
{
    match leido {
        Some(arreglo) => if indice < arreglo.len() {
            Ok(ValorGUI::from_serde(&arreglo[indice]))
        } else {
            let mut texto = crate::texto::unir(
                "Índice ",
                natural_a_texto(indice as u64).as_str(),
                " fuera de rango (len=",
            );
            texto.append(natural_a_texto(arreglo.len() as u64).as_str());
            texto.append(")");
            Err(Corte::Error(texto))
        },
        None => Err(
            Corte::Error("No se puede indexar un valor que no es un array".to_string()),
        ),
    }
}

/// Indexes a value by another.
pub fn indexar(objeto: ValorGUI, indice: ValorGUI, sesion: &mut Sesion) -> (r: Result<
    ValorGUI,
    Corte,
>)
    ensures
        final(sesion).salvo_consultas(*old(sesion)),
        (vista_resultado(r), final(sesion).usadas as nat) == indexado(
            objeto@,
            indice@,
            old(sesion).respuestas@,
            old(sesion).usadas as nat,
        ),
{
    match indice {
        ValorGUI::Entero(n) => match objeto.to_display(sesion) {
            Ok(t) => tomar_elemento(
                leer_arreglo(t.as_str()),
                #[verifier::truncate]
                (n as usize),
            ),
            Err(c) => Err(c),
        },
        _ => Err(Corte::Error("Índice debe ser un entero".to_string())),
    }
}

} // verus!
