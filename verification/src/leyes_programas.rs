//! How the pieces of a program work together.

use vstd::prelude::*;

use crate::ast::{lugar_de_funcion, Declaracion, Expresion, Operador, OperadorUnario, Parametro};
use crate::json::{a_json, de_json, guardado, Json};
use crate::leyes::ley_ida_y_vuelta;
use crate::operaciones::{
    arreglo_escrito, binaria, indexado, mostrado, objeto_escrito, unaria,
};
use crate::semantica::{
    bloque, ciclo, condicional, declaracion, escrita, expresion, iniciadas, inicio, leida, ligados, lista,
    llamada, pares, todos_a_json, valor_inicial,
};
use crate::sesion::{Entorno, Estado, Interrupcion, Paso};
use crate::valor::{del_lenguaje, Valor};

verus! {

// ---------------------------------------------------------------------------
// Calls
// ---------------------------------------------------------------------------

/// A call made as a statement does, and gives, what the same call made as an
/// expression does.
pub proof fn ley_llamada_como_declaracion(
    nombre: String,
    argumentos: Vec<Expresion>,
    depuracion: String,
    n: nat,
    env: Entorno,
    st: Estado,
)
    ensures
        declaracion(
            Declaracion::LlamadaFuncion { nombre, argumentos, depuracion },
            n,
            env,
            st,
        ) == expresion(Expresion::LlamadaFuncion { nombre, argumentos, depuracion }, n, env, st),
{
}

/// The function that a call finds is the first one of its name.
pub proof fn ley_primera_funcion(ds: Seq<Declaracion>, nombre: Seq<char>)
    ensures
        ({
            let k = lugar_de_funcion(ds, nombre, 0);
            &&& k <= ds.len()
            &&& forall|j: int|
                0 <= j < k ==> !(#[trigger] ds[j] matches Declaracion::Funcion { nombre: f, .. }
                    && f@ == nombre)
            &&& k < ds.len() ==> (ds[k as int] matches Declaracion::Funcion { nombre: f, .. } && f@
                == nombre)
        }),
{
    lema_primera_funcion(ds, nombre, 0);
}

proof fn lema_primera_funcion(ds: Seq<Declaracion>, nombre: Seq<char>, i: nat)
    requires
        i <= ds.len(),
    ensures
        ({
            let k = lugar_de_funcion(ds, nombre, i);
            &&& i <= k <= ds.len()
            &&& forall|j: int|
                i <= j < k ==> !(#[trigger] ds[j] matches Declaracion::Funcion { nombre: f, .. }
                    && f@ == nombre)
            &&& k < ds.len() ==> (ds[k as int] matches Declaracion::Funcion { nombre: f, .. } && f@
                == nombre)
        }),
    decreases ds.len() - i,
{
    if i < ds.len() {
        lema_primera_funcion(ds, nombre, i + 1);
    }
}

/// A call of a function that the program does not have fails with its name and
/// changes nothing; a call of one that it has does not fail that way.
pub proof fn ley_llamada_sin_funcion(
    nombre: Seq<char>,
    args: Seq<Valor>,
    n: nat,
    env: Entorno,
    almacen: Map<Seq<char>, Json>,
    usadas: nat,
)
    requires
        forall|j: int|
            0 <= j < env.declaraciones.len() ==> !(#[trigger] env.declaraciones[j] matches
                Declaracion::Funcion { nombre: f, .. } && f@ == nombre),
    ensures
        llamada(nombre, args, n + 1, env, almacen, usadas) == (
            Err::<Valor, Interrupcion>(
                Interrupcion::Error("Función '"@ + nombre + "' no encontrada"@),
            ),
            almacen,
            usadas,
        ),
{
    ley_primera_funcion(env.declaraciones, nombre);
}

/// In a call, a parameter with an argument in its place has that argument's
/// value; one without has the store's variable of its name, if there is one. The
/// call has no other variables. Of parameters with one name, the last counts.
pub proof fn ley_parametros(
    parametros: Seq<Parametro>,
    args: Seq<Valor>,
    almacen: Map<Seq<char>, Json>,
    i: int,
    k: Seq<char>,
)
    requires
        0 <= i < parametros.len(),
        forall|j: int|
            i < j < parametros.len() ==> (#[trigger] parametros[j]).nombre@
                != parametros[i].nombre@,
    ensures
        ({
            let ambito = ligados(parametros, parametros.len(), args, almacen);
            let nombre = parametros[i].nombre@;
            &&& i < args.len() ==> ambito.contains_key(nombre) && ambito[nombre] == args[i]
            &&& i >= args.len() && almacen.contains_key(nombre) ==> ambito.contains_key(nombre)
                && ambito[nombre] == de_json(almacen[nombre])
            &&& ambito.contains_key(k) ==> exists|j: int|
                0 <= j < parametros.len() && (#[trigger] parametros[j]).nombre@ == k && (j
                    < args.len() || almacen.contains_key(k))
        }),
{
    lema_ligados(parametros, parametros.len(), args, almacen, i, k);
}

proof fn lema_ligados(
    parametros: Seq<Parametro>,
    m: nat,
    args: Seq<Valor>,
    almacen: Map<Seq<char>, Json>,
    i: int,
    k: Seq<char>,
)
    requires
        m <= parametros.len(),
        0 <= i < parametros.len(),
        forall|j: int|
            i < j < parametros.len() ==> (#[trigger] parametros[j]).nombre@
                != parametros[i].nombre@,
    ensures
        ({
            let ambito = ligados(parametros, m, args, almacen);
            let nombre = parametros[i].nombre@;
            &&& i < m && i < args.len() ==> ambito.contains_key(nombre) && ambito[nombre]
                == args[i]
            &&& i < m && i >= args.len() && almacen.contains_key(nombre) ==> ambito.contains_key(
                nombre,
            ) && ambito[nombre] == de_json(almacen[nombre])
            &&& ambito.contains_key(k) ==> exists|j: int|
                0 <= j < m && (#[trigger] parametros[j]).nombre@ == k && (j < args.len()
                    || almacen.contains_key(k))
        }),
    decreases m,
{
    if m > 0 {
        lema_ligados(parametros, (m - 1) as nat, args, almacen, i, k);
        assert(parametros[m - 1].nombre@ == parametros[m - 1].nombre@);
    }
}

/// A call runs the body of its function in variables of its own, and its
/// caller's variables are as its arguments left them.
pub proof fn ley_llamada_ejecuta_el_cuerpo(
    nombre: String,
    argumentos: Vec<Expresion>,
    depuracion: String,
    n: nat,
    env: Entorno,
    st: Estado,
    args: Seq<Valor>,
    s: Estado,
    lugar: int,
    parametros: Vec<Parametro>,
    cuerpo: Vec<Declaracion>,
)
    requires
        lista(argumentos@, 0, Seq::empty(), n + 1, env, st) == (Ok::<Seq<Valor>, Interrupcion>(args), s),
        0 <= lugar < env.declaraciones.len(),
        env.declaraciones[lugar] == (Declaracion::Funcion { nombre, parametros, cuerpo }),
        forall|j: int|
            0 <= j < lugar ==> !(#[trigger] env.declaraciones[j] matches Declaracion::Funcion {
                nombre: f,
                ..
            } && f@ == nombre@),
    ensures
        ({
            let llamado = Estado {
                ambito: ligados(parametros@, parametros@.len(), args, s.almacen),
                almacen: s.almacen,
                usadas: s.usadas,
            };
            let (r, w) = bloque(cuerpo@, 0, n, env, llamado);
            expresion(
                Expresion::LlamadaFuncion { nombre, argumentos, depuracion },
                n + 2,
                env,
                st,
            ) == (r, Estado { ambito: s.ambito, almacen: w.almacen, usadas: w.usadas })
        }),
{
    ley_primera_funcion(env.declaraciones, nombre@);
    let k = lugar_de_funcion(env.declaraciones, nombre@, 0);
    if k < lugar {
        assert(env.declaraciones[k as int] matches Declaracion::Funcion { nombre: f, .. } && f@
            == nombre@);
    } else if k > lugar {
        assert(env.declaraciones[lugar] matches Declaracion::Funcion { nombre: f, .. } && f@
            == nombre@);
    }
    let llamado = Estado {
        ambito: ligados(parametros@, parametros@.len(), args, s.almacen),
        almacen: s.almacen,
        usadas: s.usadas,
    };
    let (r, w) = bloque(cuerpo@, 0, n, env, llamado);
    assert(llamada(nombre@, args, n + 1, env, s.almacen, s.usadas) == (r, w.almacen, w.usadas));
}

/// A function that returns one of its parameters gives back the argument in that
/// place, as an expression and as a statement.
pub proof fn ley_argumento_de_vuelta(
    nombre: String,
    argumentos: Vec<Expresion>,
    depuracion: String,
    n: nat,
    env: Entorno,
    st: Estado,
    args: Seq<Valor>,
    s: Estado,
    lugar: int,
    parametros: Vec<Parametro>,
    cuerpo: Vec<Declaracion>,
    i: int,
)
    requires
        lista(argumentos@, 0, Seq::empty(), n + 3, env, st) == (Ok::<Seq<Valor>, Interrupcion>(args), s),
        0 <= lugar < env.declaraciones.len(),
        env.declaraciones[lugar] == (Declaracion::Funcion { nombre, parametros, cuerpo }),
        forall|j: int|
            0 <= j < lugar ==> !(#[trigger] env.declaraciones[j] matches Declaracion::Funcion {
                nombre: f,
                ..
            } && f@ == nombre@),
        0 <= i < parametros@.len(),
        i < args.len(),
        forall|j: int|
            i < j < parametros@.len() ==> (#[trigger] parametros@[j]).nombre@
                != parametros@[i].nombre@,
        cuerpo@.len() == 1,
        cuerpo@[0] == (Declaracion::Retornar {
            valor: Some(Expresion::Identificador { nombre: parametros@[i].nombre }),
        }),
    ensures
        expresion(
            Expresion::LlamadaFuncion { nombre, argumentos, depuracion },
            n + 4,
            env,
            st,
        ) == (Ok::<Valor, Interrupcion>(args[i]), s),
        declaracion(
            Declaracion::LlamadaFuncion { nombre, argumentos, depuracion },
            n + 4,
            env,
            st,
        ) == (Ok::<Valor, Interrupcion>(args[i]), s),
{
    let ambito = ligados(parametros@, parametros@.len(), args, s.almacen);
    let llamado = Estado { ambito, almacen: s.almacen, usadas: s.usadas };
    let p = parametros@[i].nombre;
    ley_parametros(parametros@, args, s.almacen, i, p@);
    ley_llamada_ejecuta_el_cuerpo(
        nombre,
        argumentos,
        depuracion,
        n + 2,
        env,
        st,
        args,
        s,
        lugar,
        parametros,
        cuerpo,
    );
    ley_llamada_como_declaracion(nombre, argumentos, depuracion, n + 4, env, st);
    let e = Expresion::Identificador { nombre: p };
    assert(expresion(e, n + 1, env, llamado) == (Ok::<Valor, Interrupcion>(args[i]), llamado));
    assert(declaracion(cuerpo@[0], n + 2, env, llamado) == expresion(e, n + 1, env, llamado));
    assert(bloque(cuerpo@, 0, n + 2, env, llamado) == (
        Ok::<Valor, Interrupcion>(args[i]),
        llamado,
    ));
}

// ---------------------------------------------------------------------------
// Variables
// ---------------------------------------------------------------------------

/// A name is read from the call's variables, else from the store; where neither
/// has it, reading it fails with the name. Reading changes nothing.
pub proof fn ley_lectura(nombre: String, n: nat, env: Entorno, st: Estado)
    ensures
        ({
            let (r, s) = expresion(Expresion::Identificador { nombre }, n + 1, env, st);
            &&& s == st
            &&& st.ambito.contains_key(nombre@) ==> r == Ok::<Valor, Interrupcion>(
                st.ambito[nombre@],
            )
            &&& !st.ambito.contains_key(nombre@) && st.almacen.contains_key(nombre@) ==> r
                == Ok::<Valor, Interrupcion>(de_json(st.almacen[nombre@]))
            &&& !st.ambito.contains_key(nombre@) && !st.almacen.contains_key(nombre@) ==> r
                == Err::<Valor, Interrupcion>(
                Interrupcion::Error("Variable '"@ + nombre@ + "' no encontrada"@),
            )
        }),
{
}

/// Declaring a variable, assigning to it, and assigning to it inside an
/// expression all come to the same state: the one after the value, with the
/// variable written. A variable declared without a value is null.
pub proof fn ley_tres_formas_de_escribir(
    nombre: String,
    valor: Box<Expresion>,
    n: nat,
    env: Entorno,
    st: Estado,
)
    ensures
        ({
            let (r, s) = expresion(*valor, n, env, st);
            let d = declaracion(
                Declaracion::Variable { nombre, valor: Some(*valor) },
                n + 1,
                env,
                st,
            );
            let a = declaracion(
                Declaracion::Asignacion { nombre, valor: *valor },
                n + 1,
                env,
                st,
            );
            let e = expresion(
                Expresion::Asignacion { variable: nombre, valor },
                n + 1,
                env,
                st,
            );
            &&& d == a
            &&& e.1 == d.1
            &&& r is Err ==> d.1 == s && e.0 == r && d.0 is Err && d.0->Err_0 == r->Err_0
            &&& r matches Ok(v) ==> {
                &&& e.0 == Ok::<Valor, Interrupcion>(v)
                &&& d.0 == Ok::<Valor, Interrupcion>(Valor::Nulo)
                &&& d.1.ambito == s.ambito.insert(nombre@, v)
                &&& d.1.almacen == s.almacen.insert(nombre@, a_json(v))
                &&& d.1.usadas == s.usadas
            }
        }),
        declaracion(Declaracion::Variable { nombre, valor: None }, n + 2, env, st) == declaracion(
            Declaracion::Variable { nombre, valor: Some(Expresion::LiteralNulo) },
            n + 2,
            env,
            st,
        ),
{
    assert(expresion(Expresion::LiteralNulo, n + 1, env, st) == (
        Ok::<Valor, Interrupcion>(Valor::Nulo),
        st,
    ));
}

// ---------------------------------------------------------------------------
// Expressions
// ---------------------------------------------------------------------------

/// A literal stands for itself and changes nothing.
pub proof fn ley_literales(
    k: i64,
    d: crate::decimal::Decimal,
    t: String,
    b: bool,
    n: nat,
    env: Entorno,
    st: Estado,
)
    ensures
        expresion(Expresion::LiteralNumero(k), n + 1, env, st) == (
            Ok::<Valor, Interrupcion>(Valor::Entero(k as int)),
            st,
        ),
        expresion(Expresion::LiteralDecimal(d), n + 1, env, st) == (
            Ok::<Valor, Interrupcion>(Valor::Decimal(d)),
            st,
        ),
        expresion(Expresion::LiteralTexto(t), n + 1, env, st) == (
            Ok::<Valor, Interrupcion>(Valor::Texto(t@)),
            st,
        ),
        expresion(Expresion::LiteralBooleano(b), n + 1, env, st) == (
            Ok::<Valor, Interrupcion>(Valor::Booleano(b)),
            st,
        ),
        expresion(Expresion::LiteralNulo, n + 1, env, st) == (
            Ok::<Valor, Interrupcion>(Valor::Nulo),
            st,
        ),
        expresion(Expresion::Resultado, n + 1, env, st) == (
            Ok::<Valor, Interrupcion>(Valor::Nulo),
            st,
        ),
{
}

/// Whether a piece that runs after another ends as the first one did where that
/// one failed.
pub open spec fn hereda<T, U>(p: Paso<T>, q: Paso<U>) -> bool {
    p.0 matches Err(c) ==> q.0 is Err && q.0->Err_0 == c && q.1 == p.1
}

/// An operator on two expressions: the left one runs first, then the right one,
/// from the state that the left one left, both whatever the operator is; the
/// result is the operator's on the two values. The first failure ends it.
pub proof fn ley_dos_operandos(
    izquierda: Box<Expresion>,
    operador: Operador,
    derecha: Box<Expresion>,
    n: nat,
    env: Entorno,
    st: Estado,
)
    ensures
        ({
            let e = expresion(
                Expresion::Binaria { izquierda, operador, derecha },
                n + 1,
                env,
                st,
            );
            let p = expresion(*izquierda, n, env, st);
            let q = expresion(*derecha, n, env, p.1);
            &&& hereda(p, e)
            &&& p.0 is Ok ==> hereda(q, e)
            &&& p.0 is Ok && q.0 is Ok ==> {
                let c = binaria(p.0->Ok_0, operador, q.0->Ok_0, env.respuestas, q.1.usadas);
                &&& e.0 == c.0
                &&& e.1.usadas == c.1
                &&& e.1.ambito == q.1.ambito
                &&& e.1.almacen == q.1.almacen
            }
        }),
{
}

/// An operator on one expression applies to its value.
pub proof fn ley_un_operando(
    operador: OperadorUnario,
    expr: Box<Expresion>,
    n: nat,
    env: Entorno,
    st: Estado,
)
    ensures
        ({
            let e = expresion(Expresion::Unaria { operador, expr }, n + 1, env, st);
            let p = expresion(*expr, n, env, st);
            &&& hereda(p, e)
            &&& e.1 == p.1
            &&& p.0 is Ok ==> e.0 == unaria(operador, p.0->Ok_0, p.1.usadas).0
        }),
{
}

/// An index: the object runs first, then the index, from the state that the
/// object left; the result is the element of the one by the other.
pub proof fn ley_indice(
    objeto: Box<Expresion>,
    indice: Box<Expresion>,
    n: nat,
    env: Entorno,
    st: Estado,
)
    ensures
        ({
            let e = expresion(Expresion::Index { objeto, indice }, n + 1, env, st);
            let p = expresion(*objeto, n, env, st);
            let q = expresion(*indice, n, env, p.1);
            &&& hereda(p, e)
            &&& p.0 is Ok ==> hereda(q, e)
            &&& p.0 is Ok && q.0 is Ok ==> {
                let c = indexado(p.0->Ok_0, q.0->Ok_0, env.respuestas, q.1.usadas);
                &&& e.0 == c.0
                &&& e.1.usadas == c.1
                &&& e.1.ambito == q.1.ambito
                &&& e.1.almacen == q.1.almacen
            }
        }),
{
}

/// A member is the store's variable named by the object as it is shown, an
/// underscore and the member; null where there is none. It never reads the
/// call's variables and changes none.
pub proof fn ley_miembro(objeto: Box<Expresion>, miembro: String, n: nat, env: Entorno, st: Estado)
    ensures
        ({
            let e = expresion(Expresion::AccesoMiembro { objeto, miembro }, n + 1, env, st);
            let p = expresion(*objeto, n, env, st);
            &&& hereda(p, e)
            &&& p.0 is Ok ==> {
                let c = mostrado(p.0->Ok_0, env.respuestas, p.1.usadas);
                &&& e.1.ambito == p.1.ambito
                &&& e.1.almacen == p.1.almacen
                &&& e.1.usadas == c.1
                &&& c.0 is Err ==> e.0 is Err && e.0->Err_0 == c.0->Err_0
                &&& c.0 matches Ok(t) ==> e.0 == Ok::<Valor, Interrupcion>(
                    if p.1.almacen.contains_key(t + "_"@ + miembro@) {
                        de_json(p.1.almacen[t + "_"@ + miembro@])
                    } else {
                        Valor::Nulo
                    },
                )
            }
        }),
{
}

/// "Error" always fails, with its value as it is shown; "try" fails where its
/// value is null, and else is its value.
pub proof fn ley_fallos(x: Box<Expresion>, n: nat, env: Entorno, st: Estado)
    ensures
        ({
            let e = expresion(Expresion::Error(x), n + 1, env, st);
            let t = expresion(Expresion::Try(x), n + 1, env, st);
            let p = expresion(*x, n, env, st);
            &&& e.0 is Err
            &&& hereda(p, e)
            &&& hereda(p, t)
            &&& t.1 == p.1
            &&& p.0 matches Ok(v) ==> {
                &&& v is Nulo ==> t.0 == Err::<Valor, Interrupcion>(
                    Interrupcion::Error("Error propagado?"@),
                )
                &&& !(v is Nulo) ==> t.0 == p.0
                &&& e.1.ambito == p.1.ambito
                &&& e.1.almacen == p.1.almacen
                &&& mostrado(v, env.respuestas, p.1.usadas).0 matches Ok(m) ==> e.0 == Err::<
                    Valor,
                    Interrupcion,
                >(Interrupcion::Error("Error: "@ + m))
            }
        }),
{
}

/// Expressions one after the other: first some, then the others from the state
/// those left. There is one value for each, after those gathered before.
pub proof fn ley_lista_por_partes(
    a: Seq<Expresion>,
    b: Seq<Expresion>,
    previos: Seq<Valor>,
    n: nat,
    env: Entorno,
    st: Estado,
)
    ensures
        ({
            let p = lista(a, 0, previos, n, env, st);
            let q = lista(a + b, 0, previos, n, env, st);
            &&& hereda(p, q)
            &&& p.0 matches Ok(vs) ==> {
                &&& q == lista(b, 0, vs, n, env, p.1)
                &&& vs.len() == previos.len() + a.len()
                &&& forall|i: int| 0 <= i < previos.len() ==> #[trigger] vs[i] == previos[i]
            }
        }),
{
    lema_lista_por_partes(a, b, 0, previos, n, env, st);
}

proof fn lema_lista_por_partes(
    a: Seq<Expresion>,
    b: Seq<Expresion>,
    i: nat,
    previos: Seq<Valor>,
    n: nat,
    env: Entorno,
    st: Estado,
)
    requires
        i <= a.len(),
    ensures
        ({
            let p = lista(a, i, previos, n, env, st);
            let q = lista(a + b, i, previos, n, env, st);
            &&& hereda(p, q)
            &&& p.0 matches Ok(vs) ==> {
                &&& q == lista(b, 0, vs, n, env, p.1)
                &&& vs.len() == previos.len() + a.len() - i
                &&& forall|k: int| 0 <= k < previos.len() ==> #[trigger] vs[k] == previos[k]
            }
        }),
    decreases a.len() - i,
{
    if i < a.len() {
        assert((a + b)[i as int] == a[i as int]);
        if let (Ok(v), s) = expresion(a[i as int], n, env, st) {
            let mas = previos.push(v);
            lema_lista_por_partes(a, b, i + 1, mas, n, env, s);
            if let Ok(vs) = lista(a, i + 1, mas, n, env, s).0 {
                assert forall|k: int| 0 <= k < previos.len() implies #[trigger] vs[k]
                    == previos[k] by {
                    assert(vs[k] == mas[k]);
                }
            }
        }
    } else {
        lema_cola_de_lista(a, b, 0, previos, n, env, st);
    }
}

proof fn lema_cola_de_lista(
    a: Seq<Expresion>,
    b: Seq<Expresion>,
    k: nat,
    previos: Seq<Valor>,
    n: nat,
    env: Entorno,
    st: Estado,
)
    requires
        k <= b.len(),
    ensures
        lista(a + b, a.len() + k, previos, n, env, st) == lista(b, k, previos, n, env, st),
    decreases b.len() - k,
{
    if k < b.len() {
        assert((a + b)[(a.len() + k) as int] == b[k as int]);
        if let (Ok(v), s) = expresion(b[k as int], n, env, st) {
            lema_cola_de_lista(a, b, k + 1, previos.push(v), n, env, s);
        }
    }
}

/// A list of one expression has its value; one of none has no value and changes
/// nothing.
pub proof fn ley_lista_de_una(
    x: Expresion,
    previos: Seq<Valor>,
    n: nat,
    env: Entorno,
    st: Estado,
)
    ensures
        ({
            let p = expresion(x, n, env, st);
            let q = lista(seq![x], 0, previos, n, env, st);
            &&& hereda(p, q)
            &&& p.0 matches Ok(v) ==> q == (
                Ok::<Seq<Valor>, Interrupcion>(previos.push(v)),
                p.1,
            )
        }),
        lista(Seq::empty(), 0, previos, n, env, st) == (
            Ok::<Seq<Valor>, Interrupcion>(previos),
            st,
        ),
{
    if let (Ok(v), s) = expresion(x, n, env, st) {
        assert(seq![x][0] == x);
        assert(lista(seq![x], 1, previos.push(v), n, env, s) == (
            Ok::<Seq<Valor>, Interrupcion>(previos.push(v)),
            s,
        ));
    }
}

/// A member of a map: its name runs first, then its value; it is gathered under
/// the name as that is shown, after those gathered before. A map without members
/// has none.
pub proof fn ley_par(
    clave: Expresion,
    valor: Expresion,
    previos: Seq<(Seq<char>, Json)>,
    n: nat,
    env: Entorno,
    st: Estado,
)
    ensures
        ({
            let p = expresion(clave, n, env, st);
            let q = expresion(valor, n, env, p.1);
            let r = pares(seq![(clave, valor)], 0, previos, n, env, st);
            &&& hereda(p, r)
            &&& p.0 is Ok ==> hereda(q, r)
            &&& p.0 is Ok && q.0 is Ok ==> {
                let c = mostrado(p.0->Ok_0, env.respuestas, q.1.usadas);
                &&& r.1.ambito == q.1.ambito
                &&& r.1.almacen == q.1.almacen
                &&& r.1.usadas == c.1
                &&& c.0 is Err ==> r.0 is Err && r.0->Err_0 == c.0->Err_0
                &&& c.0 matches Ok(t) ==> r.0 == Ok::<Seq<(Seq<char>, Json)>, Interrupcion>(
                    previos.push((t, a_json(q.0->Ok_0))),
                )
            }
        }),
        pares(Seq::empty(), 0, previos, n, env, st) == (
            Ok::<Seq<(Seq<char>, Json)>, Interrupcion>(previos),
            st,
        ),
{
    let ps = seq![(clave, valor)];
    assert(ps[0] == (clave, valor));
    if let (Ok(k), s) = expresion(clave, n, env, st) {
        if let (Ok(v), w) = expresion(valor, n, env, s) {
            if let (Ok(t), u) = mostrado(k, env.respuestas, w.usadas) {
                let mas = previos.push((t, a_json(v)));
                let x = Estado { usadas: u, ..w };
                assert(pares(ps, 1, mas, n, env, x) == (
                    Ok::<Seq<(Seq<char>, Json)>, Interrupcion>(mas),
                    x,
                ));
            }
        }
    }
}

/// The members of a map: first some, then the others from the state those left.
pub proof fn ley_pares_por_partes(
    a: Seq<(Expresion, Expresion)>,
    b: Seq<(Expresion, Expresion)>,
    previos: Seq<(Seq<char>, Json)>,
    n: nat,
    env: Entorno,
    st: Estado,
)
    ensures
        ({
            let p = pares(a, 0, previos, n, env, st);
            let q = pares(a + b, 0, previos, n, env, st);
            &&& hereda(p, q)
            &&& p.0 matches Ok(js) ==> q == pares(b, 0, js, n, env, p.1)
        }),
{
    lema_pares_por_partes(a, b, 0, previos, n, env, st);
}

proof fn lema_pares_por_partes(
    a: Seq<(Expresion, Expresion)>,
    b: Seq<(Expresion, Expresion)>,
    i: nat,
    previos: Seq<(Seq<char>, Json)>,
    n: nat,
    env: Entorno,
    st: Estado,
)
    requires
        i <= a.len(),
    ensures
        ({
            let p = pares(a, i, previos, n, env, st);
            let q = pares(a + b, i, previos, n, env, st);
            &&& hereda(p, q)
            &&& p.0 matches Ok(js) ==> q == pares(b, 0, js, n, env, p.1)
        }),
    decreases a.len() - i,
{
    if i < a.len() {
        assert((a + b)[i as int] == a[i as int]);
        if let (Ok(k), s) = expresion(a[i as int].0, n, env, st) {
            if let (Ok(v), w) = expresion(a[i as int].1, n, env, s) {
                if let (Ok(t), u) = mostrado(k, env.respuestas, w.usadas) {
                    let mas = previos.push((t, a_json(v)));
                    lema_pares_por_partes(a, b, i + 1, mas, n, env, Estado { usadas: u, ..w });
                }
            }
        }
    } else {
        lema_cola_de_pares(a, b, 0, previos, n, env, st);
    }
}

proof fn lema_cola_de_pares(
    a: Seq<(Expresion, Expresion)>,
    b: Seq<(Expresion, Expresion)>,
    i: nat,
    previos: Seq<(Seq<char>, Json)>,
    n: nat,
    env: Entorno,
    st: Estado,
)
    requires
        i <= b.len(),
    ensures
        pares(a + b, a.len() + i, previos, n, env, st) == pares(b, i, previos, n, env, st),
    decreases b.len() - i,
{
    if i < b.len() {
        assert((a + b)[(a.len() + i) as int] == b[i as int]);
        if let (Ok(k), s) = expresion(b[i as int].0, n, env, st) {
            if let (Ok(v), w) = expresion(b[i as int].1, n, env, s) {
                if let (Ok(t), u) = mostrado(k, env.respuestas, w.usadas) {
                    let mas = previos.push((t, a_json(v)));
                    lema_cola_de_pares(a, b, i + 1, mas, n, env, Estado { usadas: u, ..w });
                }
            }
        }
    }
}

/// An array is the text of the JSON values of its elements, a map that of its
/// members; nothing else is changed by writing it.
pub proof fn ley_arreglo_y_mapa(
    elementos: Vec<Expresion>,
    miembros: Vec<(Expresion, Expresion)>,
    n: nat,
    env: Entorno,
    st: Estado,
)
    ensures
        ({
            let p = lista(elementos@, 0, Seq::empty(), n, env, st);
            let e = expresion(Expresion::Arreglo(elementos), n + 1, env, st);
            &&& hereda(p, e)
            &&& p.0 matches Ok(vs) ==> {
                let js = Seq::new(vs.len(), |i: int| a_json(vs[i]));
                let c = arreglo_escrito(js, env.respuestas, p.1.usadas);
                &&& e.0 == c.0
                &&& e.1.usadas == c.1
                &&& e.1.ambito == p.1.ambito
                &&& e.1.almacen == p.1.almacen
            }
        }),
        ({
            let p = pares(miembros@, 0, Seq::empty(), n, env, st);
            let e = expresion(Expresion::Mapa(miembros), n + 1, env, st);
            &&& hereda(p, e)
            &&& p.0 matches Ok(js) ==> {
                let c = objeto_escrito(js, env.respuestas, p.1.usadas);
                &&& e.0 == c.0
                &&& e.1.usadas == c.1
                &&& e.1.ambito == p.1.ambito
                &&& e.1.almacen == p.1.almacen
            }
        }),
{
    if let Ok(vs) = lista(elementos@, 0, Seq::empty(), n, env, st).0 {
        assert(todos_a_json(vs) =~= Seq::new(vs.len(), |i: int| a_json(vs[i])));
    }
}

/// What has no limit left to run in stops there and changes nothing.
pub proof fn ley_sin_limite(
    e: Expresion,
    d: Declaracion,
    nombre: Seq<char>,
    args: Seq<Valor>,
    env: Entorno,
    st: Estado,
)
    ensures
        expresion(e, 0, env, st) == (Err::<Valor, Interrupcion>(Interrupcion::Agotado), st),
        declaracion(d, 0, env, st) == (Err::<Valor, Interrupcion>(Interrupcion::Agotado), st),
        llamada(nombre, args, 0, env, st.almacen, st.usadas) == (
            Err::<Valor, Interrupcion>(Interrupcion::Agotado),
            st.almacen,
            st.usadas,
        ),
{
}

// ---------------------------------------------------------------------------
// Blocks, conditionals and loops
// ---------------------------------------------------------------------------

/// Whether there is a "return" at the top of a block.
pub open spec fn retorna(ds: Seq<Declaracion>) -> bool {
    exists|i: int| 0 <= i < ds.len() && (#[trigger] ds[i]) is Retornar
}

/// A block runs its declarations in order: first some, then, unless there was a
/// "return" among those, the others from the state they left.
pub proof fn ley_bloque_por_partes(
    a: Seq<Declaracion>,
    b: Seq<Declaracion>,
    n: nat,
    env: Entorno,
    st: Estado,
)
    ensures
        ({
            let p = bloque(a, 0, n, env, st);
            let q = bloque(a + b, 0, n, env, st);
            &&& hereda(p, q)
            &&& p.0 is Ok && retorna(a) ==> q == p
            &&& p.0 is Ok && !retorna(a) ==> q == bloque(b, 0, n, env, p.1) && p.0->Ok_0 is Nulo
        }),
{
    lema_bloque_por_partes(a, b, 0, n, env, st);
    assert(retorna(a) == (exists|k: int| 0 <= k < a.len() && (#[trigger] a[k]) is Retornar));
}

proof fn lema_bloque_por_partes(
    a: Seq<Declaracion>,
    b: Seq<Declaracion>,
    i: nat,
    n: nat,
    env: Entorno,
    st: Estado,
)
    requires
        i <= a.len(),
    ensures
        ({
            let p = bloque(a, i, n, env, st);
            let q = bloque(a + b, i, n, env, st);
            let r = exists|k: int| i <= k < a.len() && (#[trigger] a[k]) is Retornar;
            &&& hereda(p, q)
            &&& p.0 is Ok && r ==> q == p
            &&& p.0 is Ok && !r ==> q == bloque(b, 0, n, env, p.1) && p.0->Ok_0 is Nulo
        }),
    decreases a.len() - i,
{
    if i < a.len() {
        assert((a + b)[i as int] == a[i as int]);
        if let (Ok(v), s) = declaracion(a[i as int], n, env, st) {
            if !(a[i as int] is Retornar) {
                lema_bloque_por_partes(a, b, i + 1, n, env, s);
            }
        }
    } else {
        lema_cola_de_bloque(a, b, 0, n, env, st);
    }
}

proof fn lema_cola_de_bloque(
    a: Seq<Declaracion>,
    b: Seq<Declaracion>,
    k: nat,
    n: nat,
    env: Entorno,
    st: Estado,
)
    requires
        k <= b.len(),
    ensures
        bloque(a + b, a.len() + k, n, env, st) == bloque(b, k, n, env, st),
    decreases b.len() - k,
{
    if k < b.len() {
        assert((a + b)[(a.len() + k) as int] == b[k as int]);
        if let (Ok(v), s) = declaracion(b[k as int], n, env, st) {
            lema_cola_de_bloque(a, b, k + 1, n, env, s);
        }
    }
}

/// A block of one declaration has the value of a "return" and null of anything
/// else; the state is the declaration's. An empty block does nothing.
pub proof fn ley_bloque_de_una(d: Declaracion, n: nat, env: Entorno, st: Estado)
    ensures
        ({
            let p = declaracion(d, n, env, st);
            let q = bloque(seq![d], 0, n, env, st);
            &&& hereda(p, q)
            &&& q.1 == p.1
            &&& p.0 is Ok && d is Retornar ==> q.0 == p.0
            &&& p.0 is Ok && !(d is Retornar) ==> q.0 == Ok::<Valor, Interrupcion>(Valor::Nulo)
        }),
        bloque(Seq::empty(), 0, n, env, st) == (Ok::<Valor, Interrupcion>(Valor::Nulo), st),
{
    assert(seq![d][0] == d);
    if let (Ok(_), s) = declaracion(d, n, env, st) {
        assert(bloque(seq![d], 1, n, env, s) == (Ok::<Valor, Interrupcion>(Valor::Nulo), s));
    }
}

/// A "return" has the value of its expression, null without one; an expression
/// as a statement does what it does and has no value.
pub proof fn ley_retorno_y_expresion(e: Expresion, n: nat, env: Entorno, st: Estado)
    ensures
        declaracion(Declaracion::Retornar { valor: Some(e) }, n + 1, env, st) == expresion(
            e,
            n,
            env,
            st,
        ),
        declaracion(Declaracion::Retornar { valor: None }, n + 1, env, st) == (
            Ok::<Valor, Interrupcion>(Valor::Nulo),
            st,
        ),
        ({
            let p = expresion(e, n, env, st);
            let q = declaracion(Declaracion::Expresion(e), n + 1, env, st);
            &&& hereda(p, q)
            &&& q.1 == p.1
            &&& p.0 is Ok ==> q.0 == Ok::<Valor, Interrupcion>(Valor::Nulo)
        }),
{
}

/// A conditional runs its first block where the condition counts as true and its
/// second block where it does not, from the state that the condition left. "When"
/// is a conditional without a second block.
pub proof fn ley_condicional(
    condicion: Expresion,
    si: Vec<Declaracion>,
    sino: Vec<Declaracion>,
    n: nat,
    env: Entorno,
    st: Estado,
)
    ensures
        ({
            let p = expresion(condicion, n, env, st);
            let con = declaracion(
                Declaracion::Si { condicion, bloque_verdadero: si, bloque_falso: Some(sino) },
                n + 1,
                env,
                st,
            );
            let sin = declaracion(
                Declaracion::Si { condicion, bloque_verdadero: si, bloque_falso: None },
                n + 1,
                env,
                st,
            );
            &&& hereda(p, con)
            &&& hereda(p, sin)
            &&& p.0 is Ok && p.0->Ok_0.verdadero() ==> con == bloque(si@, 0, n, env, p.1) && sin
                == con
            &&& p.0 is Ok && !p.0->Ok_0.verdadero() ==> con == bloque(sino@, 0, n, env, p.1)
                && sin == (Ok::<Valor, Interrupcion>(Valor::Nulo), p.1)
            &&& sin == declaracion(Declaracion::Cuando { condicion, cuerpo: si }, n + 1, env, st)
        }),
{
    let p = expresion(condicion, n, env, st);
    let con = condicional(condicion, si@, Some(sino@), n, env, st);
    let sin = condicional(condicion, si@, None, n, env, st);
    assert(hereda(p, con) && hereda(p, sin));
    if let Ok(v) = p.0 {
        if v.verdadero() {
            assert(con == bloque(si@, 0, n, env, p.1) && sin == con);
        } else {
            assert(con == bloque(sino@, 0, n, env, p.1));
            assert(sin == (Ok::<Valor, Interrupcion>(Valor::Nulo), p.1));
        }
    }
}

/// "While" is a "for" with neither start nor step. A "for" with a start runs the
/// start and is then a "for" without one. A "for" without a condition has one
/// that always holds.
pub proof fn ley_formas_de_ciclo(
    condicion: Expresion,
    cuerpo: Vec<Declaracion>,
    inicial: Box<Declaracion>,
    cond: Option<Expresion>,
    paso: Option<Box<Declaracion>>,
    n: nat,
    env: Entorno,
    st: Estado,
)
    ensures
        declaracion(Declaracion::Mientras { condicion, bloque: cuerpo }, n, env, st)
            == declaracion(
            Declaracion::Para {
                inicializacion: None,
                condicion: Some(condicion),
                incremento: None,
                bloque: cuerpo,
            },
            n,
            env,
            st,
        ),
        ({
            let p = declaracion(*inicial, n, env, st);
            let q = declaracion(
                Declaracion::Para {
                    inicializacion: Some(inicial),
                    condicion: cond,
                    incremento: paso,
                    bloque: cuerpo,
                },
                n + 1,
                env,
                st,
            );
            &&& hereda(p, q)
            &&& p.0 is Ok ==> q == declaracion(
                Declaracion::Para {
                    inicializacion: None,
                    condicion: cond,
                    incremento: paso,
                    bloque: cuerpo,
                },
                n + 1,
                env,
                p.1,
            )
        }),
        declaracion(
            Declaracion::Para {
                inicializacion: None,
                condicion: None,
                incremento: paso,
                bloque: cuerpo,
            },
            n,
            env,
            st,
        ) == declaracion(
            Declaracion::Para {
                inicializacion: None,
                condicion: Some(Expresion::LiteralBooleano(true)),
                incremento: paso,
                bloque: cuerpo,
            },
            n,
            env,
            st,
        ),
{
    let inc = match paso {
        Some(d) => Some(*d),
        None => None,
    };
    if n > 0 {
        lema_sin_condicion(cuerpo@, inc, (n - 1) as nat, env, st);
    }
}

proof fn lema_sin_condicion(
    ds: Seq<Declaracion>,
    paso: Option<Declaracion>,
    n: nat,
    env: Entorno,
    st: Estado,
)
    ensures
        ciclo(None, ds, paso, n, env, st) == ciclo(
            Some(Expresion::LiteralBooleano(true)),
            ds,
            paso,
            n,
            env,
            st,
        ),
    decreases n,
{
    if n > 0 {
        let m = (n - 1) as nat;
        let e = Expresion::LiteralBooleano(true);
        if m > 0 {
            assert(expresion(e, m, env, st) == (
                Ok::<Valor, Interrupcion>(Valor::Booleano(true)),
                st,
            ));
        } else {
            assert(expresion(e, m, env, st) == (
                Err::<Valor, Interrupcion>(Interrupcion::Agotado),
                st,
            ));
            if ds.len() > 0 {
                assert(declaracion(ds[0], 0, env, st) == (
                    Err::<Valor, Interrupcion>(Interrupcion::Agotado),
                    st,
                ));
            }
            if let Some(d) = paso {
                assert(declaracion(d, 0, env, st) == (
                    Err::<Valor, Interrupcion>(Interrupcion::Agotado),
                    st,
                ));
            }
        }
        if let (Ok(v), w) = bloque(ds, 0, m, env, st) {
            match paso {
                Some(d) => {
                    if let (Ok(_), x) = declaracion(d, m, env, w) {
                        lema_sin_condicion(ds, paso, m, env, x);
                    }
                },
                None => {
                    lema_sin_condicion(ds, paso, m, env, w);
                },
            }
        }
    }
}

/// A loop whose condition does not hold ends, without a value. One whose
/// condition holds runs its block: a value of the block that is not null ends the
/// loop and is its value; after null the step runs, and then it is the same loop
/// again, from the state by then and with one round less to its limit.
pub proof fn ley_una_vuelta(
    condicion: Expresion,
    cuerpo: Vec<Declaracion>,
    paso: Box<Declaracion>,
    n: nat,
    env: Entorno,
    st: Estado,
)
    ensures
        ({
            let para = Declaracion::Para {
                inicializacion: None,
                condicion: Some(condicion),
                incremento: Some(paso),
                bloque: cuerpo,
            };
            let mientras = Declaracion::Mientras { condicion, bloque: cuerpo };
            let c = expresion(condicion, n, env, st);
            let b = bloque(cuerpo@, 0, n, env, c.1);
            let p = declaracion(*paso, n, env, b.1);
            let f = declaracion(para, n + 2, env, st);
            let w = declaracion(mientras, n + 2, env, st);
            &&& hereda(c, f)
            &&& hereda(c, w)
            &&& c.0 is Ok && !c.0->Ok_0.verdadero() ==> {
                &&& f == (Ok::<Valor, Interrupcion>(Valor::Nulo), c.1)
                &&& w == f
            }
            &&& c.0 is Ok && c.0->Ok_0.verdadero() ==> {
                &&& hereda(b, f)
                &&& hereda(b, w)
                &&& b.0 is Ok && !(b.0->Ok_0 is Nulo) ==> f == b && w == b
                &&& b.0 is Ok && b.0->Ok_0 is Nulo ==> {
                    &&& hereda(p, f)
                    &&& p.0 is Ok ==> f == declaracion(para, n + 1, env, p.1)
                    &&& w == declaracion(mientras, n + 1, env, b.1)
                }
            }
        }),
{
    let c = expresion(condicion, n, env, st);
    let b = bloque(cuerpo@, 0, n, env, c.1);
    let p = declaracion(*paso, n, env, b.1);
    let f = ciclo(Some(condicion), cuerpo@, Some(*paso), n + 1, env, st);
    let w = ciclo(Some(condicion), cuerpo@, None, n + 1, env, st);
    assert(hereda(c, f) && hereda(c, w));
    if c.0 is Ok && c.0->Ok_0.verdadero() {
        assert(hereda(b, f) && hereda(b, w));
        if b.0 is Ok && b.0->Ok_0 is Nulo {
            assert(hereda(p, f));
            assert(w == ciclo(Some(condicion), cuerpo@, None, n, env, b.1));
            assert(p.0 is Ok ==> f == ciclo(
                Some(condicion),
                cuerpo@,
                Some(*paso),
                n,
                env,
                p.1,
            ));
        }
    }
}

// ---------------------------------------------------------------------------
// The variables of main
// ---------------------------------------------------------------------------

/// A variable that `main` declares with an expression starts with the value that
/// the expression has at that point, whatever kind of expression it is, and with
/// null where the expression fails or where there is none.
pub proof fn ley_valor_inicial(e: Expresion, n: nat, env: Entorno, st: Estado)
    requires
        n > 0,
    ensures
        ({
            let p = expresion(e, n, env, st);
            let q = valor_inicial(Some(e), n, env, st);
            &&& q.1 == p.1
            &&& p.0 is Ok ==> q.0 == p.0
            &&& p.0 matches Err(Interrupcion::Error(_)) ==> q.0 == Ok::<Valor, Interrupcion>(
                Valor::Nulo,
            )
            &&& p.0 is Err && !(p.0->Err_0 is Error) ==> q.0 == p.0
        }),
        valor_inicial(None, n, env, st) == (Ok::<Valor, Interrupcion>(Valor::Nulo), st),
{
}

/// After such a declaration the store reads back as that value, as null where it
/// is an infinity or no number; the variables to come see it, and no other
/// variable is touched by the declaration itself. Anything that is no variable is
/// passed over.
pub proof fn ley_declaracion_de_main(
    nombre: String,
    e: Expresion,
    n: nat,
    env: Entorno,
    st: Estado,
    d: Declaracion,
)
    requires
        n > 0,
        !(d is Variable),
    ensures
        ({
            let p = expresion(e, n, env, st);
            let q = iniciadas(
                seq![Declaracion::Variable { nombre, valor: Some(e) }],
                0,
                n,
                env,
                st,
            );
            &&& p.0 matches Ok(v) ==> {
                &&& q.0 is Ok
                &&& q.1.almacen.contains_key(nombre@)
                &&& del_lenguaje(v) ==> de_json(q.1.almacen[nombre@]) == guardado(v)
                &&& leida(nombre@, q.1).0 == Ok::<Valor, Interrupcion>(v)
                &&& q.1 == declaracion(
                    Declaracion::Asignacion { nombre, valor: e },
                    n + 1,
                    env,
                    st,
                ).1
            }
            &&& p.0 matches Err(Interrupcion::Error(_)) ==> {
                &&& q.0 is Ok
                &&& q.1.almacen == p.1.almacen.insert(nombre@, Json::Nulo)
                &&& q.1.ambito == p.1.ambito.insert(nombre@, Valor::Nulo)
                &&& q.1.usadas == p.1.usadas
            }
            &&& p.0 is Err && !(p.0->Err_0 is Error) ==> {
                &&& q.0 is Err && q.0->Err_0 == p.0->Err_0
                &&& q.1 == p.1
            }
        }),
        ({
            let q = iniciadas(
                seq![Declaracion::Variable { nombre, valor: None }],
                0,
                n,
                env,
                st,
            );
            &&& q.0 is Ok
            &&& q.1.almacen == st.almacen.insert(nombre@, Json::Nulo)
            &&& q.1.ambito == st.ambito.insert(nombre@, Valor::Nulo)
            &&& q.1.usadas == st.usadas
        }),
        iniciadas(seq![d], 0, n, env, st) == (Ok::<(), Interrupcion>(()), st),
{
    reveal_with_fuel(iniciadas, 2);
    ley_valor_inicial(e, n, env, st);
    let p = expresion(e, n, env, st);
    if let Ok(v) = p.0 {
        if del_lenguaje(v) {
            ley_ida_y_vuelta(v);
        }
    }
    assert(a_json(Valor::Nulo) == Json::Nulo);
    assert(seq![d][0] == d);
}

/// The variables of `main` are set up in order: first some, then the others from
/// the state those left.
pub proof fn ley_inicio_por_partes(
    a: Seq<Declaracion>,
    b: Seq<Declaracion>,
    n: nat,
    env: Entorno,
    st: Estado,
)
    ensures
        ({
            let p = iniciadas(a, 0, n, env, st);
            let q = iniciadas(a + b, 0, n, env, st);
            &&& hereda(p, q)
            &&& p.0 is Ok ==> q == iniciadas(b, 0, n, env, p.1)
        }),
{
    lema_inicio_por_partes(a, b, 0, n, env, st);
}

proof fn lema_inicio_por_partes(
    a: Seq<Declaracion>,
    b: Seq<Declaracion>,
    i: nat,
    n: nat,
    env: Entorno,
    st: Estado,
)
    requires
        i <= a.len(),
    ensures
        ({
            let p = iniciadas(a, i, n, env, st);
            let q = iniciadas(a + b, i, n, env, st);
            &&& hereda(p, q)
            &&& p.0 is Ok ==> q == iniciadas(b, 0, n, env, p.1)
        }),
    decreases a.len() - i,
{
    if i < a.len() {
        assert((a + b)[i as int] == a[i as int]);
        match a[i as int] {
            Declaracion::Variable { nombre, valor } => {
                if let (Ok(v), s) = valor_inicial(valor, n, env, st) {
                    lema_inicio_por_partes(a, b, i + 1, n, env, escrita(nombre@, v, s));
                }
            },
            _ => {
                lema_inicio_por_partes(a, b, i + 1, n, env, st);
            },
        }
    } else {
        lema_cola_de_inicio(a, b, 0, n, env, st);
    }
}

proof fn lema_cola_de_inicio(
    a: Seq<Declaracion>,
    b: Seq<Declaracion>,
    k: nat,
    n: nat,
    env: Entorno,
    st: Estado,
)
    requires
        k <= b.len(),
    ensures
        iniciadas(a + b, a.len() + k, n, env, st) == iniciadas(b, k, n, env, st),
    decreases b.len() - k,
{
    if k < b.len() {
        assert((a + b)[(a.len() + k) as int] == b[k as int]);
        match b[k as int] {
            Declaracion::Variable { nombre, valor } => {
                if let (Ok(v), s) = valor_inicial(valor, n, env, st) {
                    lema_cola_de_inicio(a, b, k + 1, n, env, escrita(nombre@, v, s));
                }
            },
            _ => {
                lema_cola_de_inicio(a, b, k + 1, n, env, st);
            },
        }
    }
}

/// The variables set up for a program are those of its first function `main`,
/// from no variables of a call; without one nothing changes.
pub proof fn ley_inicio_de_main(
    n: nat,
    env: Entorno,
    almacen: Map<Seq<char>, Json>,
    usadas: nat,
    lugar: int,
    nombre: String,
    parametros: Vec<Parametro>,
    cuerpo: Vec<Declaracion>,
)
    requires
        nombre@ == "main"@,
        0 <= lugar <= env.declaraciones.len(),
        lugar < env.declaraciones.len() ==> env.declaraciones[lugar] == (Declaracion::Funcion {
            nombre,
            parametros,
            cuerpo,
        }),
        forall|j: int|
            0 <= j < lugar ==> !(#[trigger] env.declaraciones[j] matches Declaracion::Funcion {
                nombre: f,
                ..
            } && f@ == "main"@),
    ensures
        ({
            let st = Estado { ambito: Map::empty(), almacen, usadas };
            let p = inicio(n, env, almacen, usadas);
            &&& lugar < env.declaraciones.len() ==> p == iniciadas(cuerpo@, 0, n, env, st)
            &&& lugar == env.declaraciones.len() ==> p == (Ok::<(), Interrupcion>(()), st)
        }),
{
    ley_primera_funcion(env.declaraciones, "main"@);
    let k = lugar_de_funcion(env.declaraciones, "main"@, 0);
    if k < lugar {
        assert(env.declaraciones[k as int] matches Declaracion::Funcion { nombre: f, .. } && f@
            == "main"@);
    } else if k > lugar {
        assert(env.declaraciones[lugar] matches Declaracion::Funcion { nombre: f, .. } && f@
            == "main"@);
    }
}

} // verus!
