//! What a program means.
//!
//! Each function here gives the outcome of a piece of a program and the state
//! it leaves, from the state before it. `n` bounds how deep calls and nested
//! pieces go and how often a loop goes round.

use vstd::prelude::*;

use crate::ast::{lugar_de_funcion, Declaracion, Expresion, Parametro};
use crate::json::{a_json, de_json, Json};
use crate::operaciones::{
    arreglo_escrito, binaria, indexado, mostrado, objeto_escrito, unaria,
};
use crate::sesion::{Consulta, Entorno, Estado, Interrupcion, Paso};
use crate::valor::Valor;

verus! {

/// A value, with the state unchanged.
pub open spec fn listo<T>(v: T, st: Estado) -> Paso<T> {
    (Ok(v), st)
}

/// A failure of the program, with the state unchanged.
pub open spec fn error<T>(mensaje: Seq<char>, st: Estado) -> Paso<T> {
    (Err(Interrupcion::Error(mensaje)), st)
}

/// The outcome of a consultation, with the state it leaves.
pub open spec fn tras_consulta<T>(c: Consulta<T>, st: Estado) -> Paso<T> {
    (c.0, Estado { usadas: c.1, ..st })
}

/// The state with a variable written, both in the call and in the store.
pub open spec fn escrita(nombre: Seq<char>, v: Valor, st: Estado) -> Estado {
    Estado {
        ambito: st.ambito.insert(nombre, v),
        almacen: st.almacen.insert(nombre, a_json(v)),
        ..st
    }
}

/// A variable as an expression reads it: that of the call, else that of the
/// store.
pub open spec fn leida(nombre: Seq<char>, st: Estado) -> Paso<Valor> {
    if st.ambito.contains_key(nombre) {
        listo(st.ambito[nombre], st)
    } else if st.almacen.contains_key(nombre) {
        listo(de_json(st.almacen[nombre]), st)
    } else {
        error("Variable '"@ + nombre + "' no encontrada"@, st)
    }
}

/// The store's variable named by an object and its member, null if none.
pub open spec fn miembro_leido(objeto: Valor, miembro: Seq<char>, env: Entorno, st: Estado) -> Paso<
    Valor,
> {
    match mostrado(objeto, env.respuestas, st.usadas) {
        (Err(c), u) => (Err(c), Estado { usadas: u, ..st }),
        (Ok(t), u) => {
            let clave = t + "_"@ + miembro;
            listo(
                if st.almacen.contains_key(clave) {
                    de_json(st.almacen[clave])
                } else {
                    Valor::Nulo
                },
                Estado { usadas: u, ..st },
            )
        },
    }
}

/// The variables of a call after its first `k` parameters: each takes the
/// argument in its place, else the store's variable of its name.
pub open spec fn ligados(
    parametros: Seq<Parametro>,
    k: nat,
    args: Seq<Valor>,
    almacen: Map<Seq<char>, Json>,
) -> Map<Seq<char>, Valor>
    decreases k,
{
    if k == 0 {
        Map::empty()
    } else {
        let previos = ligados(parametros, (k - 1) as nat, args, almacen);
        let nombre = parametros[k - 1].nombre@;
        if k - 1 < args.len() {
            previos.insert(nombre, args[k - 1])
        } else if almacen.contains_key(nombre) {
            previos.insert(nombre, de_json(almacen[nombre]))
        } else {
            previos
        }
    }
}

/// An expression.
pub open spec fn expresion(e: Expresion, n: nat, env: Entorno, st: Estado) -> Paso<Valor>
    decreases n, 0nat,
{
    if n == 0 {
        (Err(Interrupcion::Agotado), st)
    } else {
        let m = (n - 1) as nat;
        match e {
            Expresion::LiteralNumero(k) => listo(Valor::Entero(k as int), st),
            Expresion::LiteralDecimal(d) => listo(Valor::Decimal(d), st),
            Expresion::LiteralTexto(t) => listo(Valor::Texto(t@), st),
            Expresion::LiteralBooleano(b) => listo(Valor::Booleano(b), st),
            Expresion::LiteralNulo => listo(Valor::Nulo, st),
            Expresion::Identificador { nombre } => leida(nombre@, st),
            Expresion::Binaria { izquierda, operador, derecha } => match expresion(
                *izquierda,
                m,
                env,
                st,
            ) {
                (Err(c), s) => (Err(c), s),
                (Ok(a), s) => match expresion(*derecha, m, env, s) {
                    (Err(c), w) => (Err(c), w),
                    (Ok(b), w) => tras_consulta(
                        binaria(a, operador, b, env.respuestas, w.usadas),
                        w,
                    ),
                },
            },
            Expresion::Unaria { operador, expr } => match expresion(*expr, m, env, st) {
                (Err(c), s) => (Err(c), s),
                (Ok(v), s) => tras_consulta(unaria(operador, v, s.usadas), s),
            },
            Expresion::LlamadaFuncion { nombre, argumentos, .. } => match lista(
                argumentos@,
                0,
                Seq::empty(),
                m,
                env,
                st,
            ) {
                (Err(c), s) => (Err(c), s),
                (Ok(args), s) => tras_llamada(
                    llamada(nombre@, args, m, env, s.almacen, s.usadas),
                    s,
                ),
            },
            Expresion::AccesoMiembro { objeto, miembro } => match expresion(*objeto, m, env, st) {
                (Err(c), s) => (Err(c), s),
                (Ok(v), s) => miembro_leido(v, miembro@, env, s),
            },
            Expresion::Grupo(x) => expresion(*x, m, env, st),
            Expresion::Asignacion { variable, valor } => match expresion(*valor, m, env, st) {
                (Err(c), s) => (Err(c), s),
                (Ok(v), s) => (Ok(v), escrita(variable@, v, s)),
            },
            Expresion::Arreglo(elementos) => match lista(elementos@, 0, Seq::empty(), m, env, st) {
                (Err(c), s) => (Err(c), s),
                (Ok(vs), s) => tras_consulta(
                    arreglo_escrito(todos_a_json(vs), env.respuestas, s.usadas),
                    s,
                ),
            },
            Expresion::Mapa(ps) => match pares(ps@, 0, Seq::empty(), m, env, st) {
                (Err(c), s) => (Err(c), s),
                (Ok(js), s) => tras_consulta(objeto_escrito(js, env.respuestas, s.usadas), s),
            },
            Expresion::Correcto(x) => expresion(*x, m, env, st),
            Expresion::Error(x) => match expresion(*x, m, env, st) {
                (Err(c), s) => (Err(c), s),
                (Ok(v), s) => match mostrado(v, env.respuestas, s.usadas) {
                    (Err(c), u) => (Err(c), Estado { usadas: u, ..s }),
                    (Ok(t), u) => error("Error: "@ + t, Estado { usadas: u, ..s }),
                },
            },
            Expresion::Algo(x) => expresion(*x, m, env, st),
            Expresion::Referencia { expr } => expresion(*expr, m, env, st),
            Expresion::Index { objeto, indice } => match expresion(*objeto, m, env, st) {
                (Err(c), s) => (Err(c), s),
                (Ok(a), s) => match expresion(*indice, m, env, s) {
                    (Err(c), w) => (Err(c), w),
                    (Ok(b), w) => tras_consulta(indexado(a, b, env.respuestas, w.usadas), w),
                },
            },
            Expresion::Closure => error("Closures no soportados en WASM GUI"@, st),
            Expresion::Hilo => error("Hilos no soportados en WASM GUI"@, st),
            Expresion::CanalNuevo => error("Canales no soportados en WASM GUI"@, st),
            Expresion::Seleccionar => error("Seleccionar no soportado en WASM GUI"@, st),
            Expresion::Try(x) => match expresion(*x, m, env, st) {
                (Err(c), s) => (Err(c), s),
                (Ok(v), s) => if v == Valor::Nulo {
                    error("Error propagado?"@, s)
                } else {
                    (Ok(v), s)
                },
            },
            Expresion::Resultado => listo(Valor::Nulo, st),
            Expresion::Anterior(x) => expresion(*x, m, env, st),
            Expresion::Instanciacion => error("Instanciación no soportada en WASM GUI"@, st),
            Expresion::LiteralExacto => error("Literal exacto no soportado"@, st),
            Expresion::AsignacionCampo => error("Asignación de campo no soportada"@, st),
            Expresion::ArraySet => error("ArraySet no soportado"@, st),
            Expresion::Coincidir => error("Match no soportado en WASM GUI"@, st),
        }
    }
}

/// The JSON values of values.
pub open spec fn todos_a_json(vs: Seq<Valor>) -> Seq<Json> {
    Seq::new(vs.len(), |i: int| a_json(vs[i]))
}

/// The expressions from `i` on, one after the other, their values after those
/// gathered so far.
pub open spec fn lista(
    es: Seq<Expresion>,
    i: nat,
    previos: Seq<Valor>,
    n: nat,
    env: Entorno,
    st: Estado,
) -> Paso<Seq<Valor>>
    decreases n, 1 + es.len() - i,
{
    if i >= es.len() {
        listo(previos, st)
    } else {
        match expresion(es[i as int], n, env, st) {
            (Err(c), s) => (Err(c), s),
            (Ok(v), s) => lista(es, i + 1, previos.push(v), n, env, s),
        }
    }
}

/// The named members from `i` on, after those gathered so far. Of each, the
/// name comes first, then the value, then the name is shown.
pub open spec fn pares(
    ps: Seq<(Expresion, Expresion)>,
    i: nat,
    previos: Seq<(Seq<char>, Json)>,
    n: nat,
    env: Entorno,
    st: Estado,
) -> Paso<Seq<(Seq<char>, Json)>>
    decreases n, 1 + ps.len() - i,
{
    if i >= ps.len() {
        listo(previos, st)
    } else {
        match expresion(ps[i as int].0, n, env, st) {
            (Err(c), s) => (Err(c), s),
            (Ok(k), s) => match expresion(ps[i as int].1, n, env, s) {
                (Err(c), w) => (Err(c), w),
                (Ok(v), w) => match mostrado(k, env.respuestas, w.usadas) {
                    (Err(c), u) => (Err(c), Estado { usadas: u, ..w }),
                    (Ok(t), u) => pares(
                        ps,
                        i + 1,
                        previos.push((t, a_json(v))),
                        n,
                        env,
                        Estado { usadas: u, ..w },
                    ),
                },
            },
        }
    }
}

/// The outcome of a call, the store it leaves and the answers used by then.
pub type Retorno = (Result<Valor, Interrupcion>, Map<Seq<char>, Json>, nat);

/// A call of the first function of that name. It has variables of its own and
/// sees none of its caller's.
pub open spec fn llamada(
    nombre: Seq<char>,
    args: Seq<Valor>,
    n: nat,
    env: Entorno,
    almacen: Map<Seq<char>, Json>,
    usadas: nat,
) -> Retorno
    decreases n, 0nat,
{
    if n == 0 {
        (Err(Interrupcion::Agotado), almacen, usadas)
    } else {
        let lugar = lugar_de_funcion(env.declaraciones, nombre, 0);
        if lugar >= env.declaraciones.len() {
            (
                Err(Interrupcion::Error("Función '"@ + nombre + "' no encontrada"@)),
                almacen,
                usadas,
            )
        } else {
            match env.declaraciones[lugar as int] {
                Declaracion::Funcion { parametros, cuerpo, .. } => {
                    let ambito = ligados(parametros@, parametros@.len(), args, almacen);
                    let (r, s) = bloque(
                        cuerpo@,
                        0,
                        (n - 1) as nat,
                        env,
                        Estado { ambito, almacen, usadas },
                    );
                    (r, s.almacen, s.usadas)
                },
                _ => (
                    Err(Interrupcion::Error("'"@ + nombre + "' no es una función"@)),
                    almacen,
                    usadas,
                ),
            }
        }
    }
}

/// The state after a call, whose caller's variables are as before.
pub open spec fn tras_llamada(r: Retorno, st: Estado) -> Paso<Valor> {
    (r.0, Estado { ambito: st.ambito, almacen: r.1, usadas: r.2 })
}

/// The declarations from `i` on, up to the first "return" among them, whose
/// value is that of the block; null if there is none.
pub open spec fn bloque(ds: Seq<Declaracion>, i: nat, n: nat, env: Entorno, st: Estado) -> Paso<
    Valor,
>
    decreases n, 1 + ds.len() - i,
{
    if i >= ds.len() {
        listo(Valor::Nulo, st)
    } else {
        match declaracion(ds[i as int], n, env, st) {
            (Err(c), s) => (Err(c), s),
            (Ok(v), s) => if ds[i as int] is Retornar {
                (Ok(v), s)
            } else {
                bloque(ds, i + 1, n, env, s)
            },
        }
    }
}

/// A block that runs if a condition holds, else another one, if there is one.
pub open spec fn condicional(
    condicion: Expresion,
    si: Seq<Declaracion>,
    sino: Option<Seq<Declaracion>>,
    n: nat,
    env: Entorno,
    st: Estado,
) -> Paso<Valor>
    decreases
            n,
            1 + si.len() + (if sino is Some {
                sino->0.len()
            } else {
                0
            }) + 1,
{
    match expresion(condicion, n, env, st) {
        (Err(c), s) => (Err(c), s),
        (Ok(v), s) => if v.verdadero() {
            bloque(si, 0, n, env, s)
        } else {
            match sino {
                Some(ds) => bloque(ds, 0, n, env, s),
                None => listo(Valor::Nulo, s),
            }
        },
    }
}

/// A declaration.
pub open spec fn declaracion(d: Declaracion, n: nat, env: Entorno, st: Estado) -> Paso<Valor>
    decreases n, 0nat,
{
    if n == 0 {
        (Err(Interrupcion::Agotado), st)
    } else {
        let m = (n - 1) as nat;
        match d {
            Declaracion::Retornar { valor } => match valor {
                Some(e) => expresion(e, m, env, st),
                None => listo(Valor::Nulo, st),
            },
            Declaracion::Si { condicion, bloque_verdadero, bloque_falso } => condicional(
                condicion,
                bloque_verdadero@,
                match bloque_falso {
                    Some(ds) => Some(ds@),
                    None => None,
                },
                m,
                env,
                st,
            ),
            Declaracion::Mientras { condicion, bloque: ds } => ciclo(
                Some(condicion),
                ds@,
                None,
                m,
                env,
                st,
            ),
            Declaracion::Variable { nombre, valor } => match valor {
                Some(e) => match expresion(e, m, env, st) {
                    (Err(c), s) => (Err(c), s),
                    (Ok(v), s) => listo(Valor::Nulo, escrita(nombre@, v, s)),
                },
                None => listo(Valor::Nulo, escrita(nombre@, Valor::Nulo, st)),
            },
            Declaracion::Asignacion { nombre, valor } => match expresion(valor, m, env, st) {
                (Err(c), s) => (Err(c), s),
                (Ok(v), s) => listo(Valor::Nulo, escrita(nombre@, v, s)),
            },
            Declaracion::LlamadaFuncion { nombre, argumentos, .. } => match lista(
                argumentos@,
                0,
                Seq::empty(),
                m,
                env,
                st,
            ) {
                (Err(c), s) => (Err(c), s),
                (Ok(args), s) => tras_llamada(
                    llamada(nombre@, args, m, env, s.almacen, s.usadas),
                    s,
                ),
            },
            Declaracion::Expresion(e) => match expresion(e, m, env, st) {
                (Err(c), s) => (Err(c), s),
                (Ok(_), s) => listo(Valor::Nulo, s),
            },
            Declaracion::Para { inicializacion, condicion, incremento, bloque: ds } => {
                let paso = match incremento {
                    Some(inc) => Some(*inc),
                    None => None,
                };
                match inicializacion {
                    Some(inicio) => match declaracion(*inicio, m, env, st) {
                        (Err(c), s) => (Err(c), s),
                        (Ok(_), s) => ciclo(condicion, ds@, paso, m, env, s),
                    },
                    None => ciclo(condicion, ds@, paso, m, env, st),
                }
            },
            Declaracion::Cuando { condicion, cuerpo } => condicional(
                condicion,
                cuerpo@,
                None,
                m,
                env,
                st,
            ),
            _ => listo(Valor::Nulo, st),
        }
    }
}

/// A loop: while the condition holds (always, if there is none), the block and
/// then the step. It ends early with the first value of the block that is not
/// null.
pub open spec fn ciclo(
    condicion: Option<Expresion>,
    ds: Seq<Declaracion>,
    paso: Option<Declaracion>,
    n: nat,
    env: Entorno,
    st: Estado,
) -> Paso<Valor>
    decreases n, 0nat,
{
    if n == 0 {
        (Err(Interrupcion::Agotado), st)
    } else {
        let m = (n - 1) as nat;
        let (sigue, s) = match condicion {
            Some(e) => match expresion(e, m, env, st) {
                (Err(c), s) => (Err(c), s),
                (Ok(v), s) => (Ok(v.verdadero()), s),
            },
            None => (Ok(true), st),
        };
        match sigue {
            Err(c) => (Err(c), s),
            Ok(false) => listo(Valor::Nulo, s),
            Ok(true) => match bloque(ds, 0, m, env, s) {
                (Err(c), w) => (Err(c), w),
                (Ok(v), w) => if v != Valor::Nulo {
                    (Ok(v), w)
                } else {
                    match paso {
                        Some(d) => match declaracion(d, m, env, w) {
                            (Err(c), x) => (Err(c), x),
                            (Ok(_), x) => ciclo(condicion, ds, paso, m, env, x),
                        },
                        None => ciclo(condicion, ds, paso, m, env, w),
                    }
                },
            },
        }
    }
}

/// The value that a declaration at the top of `main` starts its variable with:
/// null where the program fails.
pub open spec fn valor_inicial(valor: Option<Expresion>, n: nat, env: Entorno, st: Estado) -> Paso<
    Valor,
> {
    match valor {
        Some(Expresion::LiteralNumero(k)) => listo(Valor::Entero(k as int), st),
        Some(Expresion::LiteralDecimal(d)) => listo(Valor::Decimal(d), st),
        Some(Expresion::LiteralTexto(t)) => listo(Valor::Texto(t@), st),
        Some(Expresion::LiteralBooleano(b)) => listo(Valor::Booleano(b), st),
        Some(Expresion::LiteralNulo) => listo(Valor::Nulo, st),
        Some(e) => match expresion(e, n, env, st) {
            (Err(Interrupcion::Error(_)), s) => listo(Valor::Nulo, s),
            otro => otro,
        },
        None => listo(Valor::Nulo, st),
    }
}

/// The variables declared from `i` on, each with the value it starts with.
/// Nothing else of `main` runs.
pub open spec fn iniciadas(ds: Seq<Declaracion>, i: nat, n: nat, env: Entorno, st: Estado) -> Paso<
    (),
>
    decreases ds.len() - i,
{
    if i >= ds.len() {
        listo((), st)
    } else {
        match ds[i as int] {
            Declaracion::Variable { nombre, valor } => match valor_inicial(valor, n, env, st) {
                (Err(c), s) => (Err(c), s),
                (Ok(v), s) => iniciadas(ds, i + 1, n, env, escrita(nombre@, v, s)),
            },
            _ => iniciadas(ds, i + 1, n, env, st),
        }
    }
}

/// The variables of the program's `main`, set up in the store.
pub open spec fn inicio(n: nat, env: Entorno, almacen: Map<Seq<char>, Json>, usadas: nat) -> Paso<
    (),
> {
    let st = Estado { ambito: Map::empty(), almacen, usadas };
    let lugar = lugar_de_funcion(env.declaraciones, "main"@, 0);
    if lugar >= env.declaraciones.len() {
        listo((), st)
    } else {
        match env.declaraciones[lugar as int] {
            Declaracion::Funcion { cuerpo, .. } => iniciadas(cuerpo@, 0, n, env, st),
            _ => listo((), st),
        }
    }
}

} // verus!
