//! A run only gains: variables are never lost, answers are used in order, and a
//! run that waits gets past its request once it is answered.

use vstd::prelude::*;

use crate::ast::{lugar_de_funcion, Declaracion, Expresion, Operador};
use crate::constancia::{
    amplia, ley_bloque_constante, ley_declaracion_constante, ley_expresion_constante,
    ley_lista_constante, ley_pares_constantes, prosigue,
};
use crate::json::{a_json, Json};
use crate::operaciones::{
    arreglo_escrito, binaria, como_decimal, indexado, mostrado, objeto_escrito,
};
use crate::semantica::{
    bloque, ciclo, condicional, declaracion, escrita, expresion, iniciadas, inicio, ligados, lista,
    llamada, miembro_leido, pares, todos_a_json, valor_inicial,
};
use crate::sesion::{Consulta, Entorno, Estado, Interrupcion, PedidoVista, Respuesta};
use crate::valor::Valor;

verus! {

/// Whether an answer is of the kind that a request asks for.
pub open spec fn adecuada(p: PedidoVista, r: Respuesta) -> bool {
    match p {
        PedidoVista::Aritmetica { .. } => r is Numero,
        PedidoVista::Leer(_) => r is Numero,
        _ => r is Texto,
    }
}

/// Whether a run that waits does so for want of an answer of the right kind.
pub open spec fn espera<T>(r: Result<T, Interrupcion>, rs: Seq<Respuesta>, usadas: nat) -> bool {
    r matches Err(Interrupcion::Pendiente(p)) ==> usadas == rs.len() || !adecuada(
        p,
        rs[usadas as int],
    )
}

/// Whether no variable is lost from one state to another, and no answer is
/// given back.
pub open spec fn crece(st: Estado, s: Estado) -> bool {
    &&& st.usadas <= s.usadas
    &&& forall|k: Seq<char>| st.almacen.contains_key(k) ==> #[trigger] s.almacen.contains_key(k)
    &&& forall|k: Seq<char>| st.ambito.contains_key(k) ==> #[trigger] s.ambito.contains_key(k)
}

/// Whether a piece of a run only gains, uses no more answers than there are,
/// and waits only for an answer that is not there.
pub open spec fn avanza<T>(p: (Result<T, Interrupcion>, Estado), env: Entorno, st: Estado) -> bool {
    &&& crece(st, p.1)
    &&& p.1.usadas <= env.respuestas.len()
    &&& espera(p.0, env.respuestas, p.1.usadas)
}

/// Whether a run waits after its last answer, and the other run has the answer
/// it waits for.
pub open spec fn contestada<T>(
    r: Result<T, Interrupcion>,
    usadas: nat,
    rs: Seq<Respuesta>,
    otras: Seq<Respuesta>,
) -> bool {
    &&& usadas == rs.len()
    &&& rs.len() < otras.len()
    &&& r matches Err(Interrupcion::Pendiente(p)) && adecuada(p, otras[rs.len() as int])
}

spec fn consulta_avanza<T>(c: Consulta<T>, rs: Seq<Respuesta>, u: nat) -> bool {
    u <= c.1 <= rs.len() && espera(c.0, rs, c.1)
}

proof fn lema_mostrado(v: Valor, rs: Seq<Respuesta>, otras: Seq<Respuesta>, u: nat)
    requires
        prosigue(rs, otras),
        u <= rs.len(),
    ensures
        consulta_avanza(mostrado(v, rs, u), rs, u),
        contestada(mostrado(v, rs, u).0, mostrado(v, rs, u).1, rs, otras) ==> mostrado(v, otras, u).1 > rs.len(),
{
}

proof fn lema_como_decimal(v: Valor, rs: Seq<Respuesta>, otras: Seq<Respuesta>, u: nat)
    requires
        prosigue(rs, otras),
        u <= rs.len(),
    ensures
        consulta_avanza(como_decimal(v, rs, u), rs, u),
        contestada(como_decimal(v, rs, u).0, como_decimal(v, rs, u).1, rs, otras) ==> como_decimal(v, otras, u).1 > rs.len(),
{
}

proof fn lema_binaria(a: Valor, op: Operador, b: Valor, rs: Seq<Respuesta>, otras: Seq<Respuesta>, u: nat)
    requires
        prosigue(rs, otras),
        u <= rs.len(),
    ensures
        consulta_avanza(binaria(a, op, b, rs, u), rs, u),
        contestada(binaria(a, op, b, rs, u).0, binaria(a, op, b, rs, u).1, rs, otras) ==> binaria(a, op, b, otras, u).1 > rs.len(),
{
    lema_mostrado(a, rs, otras, u);
    lema_mostrado(b, rs, otras, u);
    lema_como_decimal(a, rs, otras, u);
    let (x, w) = como_decimal(a, rs, u);
    if x is Ok {
        lema_como_decimal(b, rs, otras, w);
    } else {
        let (y, w2) = como_decimal(a, otras, u);
        lema_como_decimal(a, otras, otras, u);
        lema_como_decimal(b, otras, otras, w2);
    }
}

proof fn lema_arreglo(js: Seq<Json>, rs: Seq<Respuesta>, otras: Seq<Respuesta>, u: nat)
    requires
        prosigue(rs, otras),
        u <= rs.len(),
    ensures
        consulta_avanza(arreglo_escrito(js, rs, u), rs, u),
        contestada(arreglo_escrito(js, rs, u).0, arreglo_escrito(js, rs, u).1, rs, otras) ==> arreglo_escrito(js, otras, u).1 > rs.len(),
{
}

proof fn lema_objeto(js: Seq<(Seq<char>, Json)>, rs: Seq<Respuesta>, otras: Seq<Respuesta>, u: nat)
    requires
        prosigue(rs, otras),
        u <= rs.len(),
    ensures
        consulta_avanza(objeto_escrito(js, rs, u), rs, u),
        contestada(objeto_escrito(js, rs, u).0, objeto_escrito(js, rs, u).1, rs, otras) ==> objeto_escrito(js, otras, u).1 > rs.len(),
{
}

proof fn lema_indexado(a: Valor, b: Valor, rs: Seq<Respuesta>, otras: Seq<Respuesta>, u: nat)
    requires
        prosigue(rs, otras),
        u <= rs.len(),
    ensures
        consulta_avanza(indexado(a, b, rs, u), rs, u),
        contestada(indexado(a, b, rs, u).0, indexado(a, b, rs, u).1, rs, otras) ==> indexado(a, b, otras, u).1 > rs.len(),
{
    lema_mostrado(a, rs, otras, u);
}

proof fn lema_miembro(v: Valor, t: Seq<char>, env: Entorno, otro: Entorno, st: Estado)
    requires
        amplia(env, otro),
        st.usadas <= env.respuestas.len(),
    ensures
        avanza(miembro_leido(v, t, env, st), env, st),
        contestada(
            miembro_leido(v, t, env, st).0,
            miembro_leido(v, t, env, st).1.usadas,
            env.respuestas,
            otro.respuestas,
        ) ==> miembro_leido(v, t, otro, st).1.usadas > env.respuestas.len(),
{
    lema_mostrado(v, env.respuestas, otro.respuestas, st.usadas);
}

// ---------------------------------------------------------------------------
// Nothing is lost
// ---------------------------------------------------------------------------

/// An expression loses no variable and gives back no answer; it waits only for
/// an answer that is not there.
#[verifier::spinoff_prover]
#[verifier::rlimit(60)]
pub proof fn ley_expresion_avanza(e: Expresion, n: nat, env: Entorno, st: Estado)
    requires
        st.usadas <= env.respuestas.len(),
    ensures
        avanza(expresion(e, n, env, st), env, st),
    decreases n, 0nat,
{
    if n > 0 {
        let m = (n - 1) as nat;
        let rs = env.respuestas;
        match e {
            Expresion::Binaria { izquierda, operador, derecha } => {
                ley_expresion_avanza(*izquierda, m, env, st);
                if let (Ok(x), s) = expresion(*izquierda, m, env, st) {
                    ley_expresion_avanza(*derecha, m, env, s);
                    if let (Ok(y), w) = expresion(*derecha, m, env, s) {
                        lema_binaria(x, operador, y, rs, rs, w.usadas);
                    }
                }
            },
            Expresion::Unaria { expr, .. } => {
                ley_expresion_avanza(*expr, m, env, st);
            },
            Expresion::LlamadaFuncion { nombre, argumentos, .. } => {
                ley_lista_avanza(argumentos@, 0, Seq::empty(), m, env, st);
                if let (Ok(args), s) = lista(argumentos@, 0, Seq::empty(), m, env, st) {
                    ley_llamada_avanza(nombre@, args, m, env, s.almacen, s.usadas);
                }
            },
            Expresion::AccesoMiembro { objeto, miembro } => {
                ley_expresion_avanza(*objeto, m, env, st);
                if let (Ok(v), s) = expresion(*objeto, m, env, st) {
                    lema_miembro(v, miembro@, env, env, s);
                }
            },
            Expresion::Grupo(x) => {
                ley_expresion_avanza(*x, m, env, st);
            },
            Expresion::Asignacion { valor, .. } => {
                ley_expresion_avanza(*valor, m, env, st);
            },
            Expresion::Arreglo(elementos) => {
                ley_lista_avanza(elementos@, 0, Seq::empty(), m, env, st);
                if let (Ok(vs), s) = lista(elementos@, 0, Seq::empty(), m, env, st) {
                    lema_arreglo(todos_a_json(vs), rs, rs, s.usadas);
                }
            },
            Expresion::Mapa(ps) => {
                ley_pares_avanzan(ps@, 0, Seq::empty(), m, env, st);
                if let (Ok(js), s) = pares(ps@, 0, Seq::empty(), m, env, st) {
                    lema_objeto(js, rs, rs, s.usadas);
                }
            },
            Expresion::Correcto(x) => {
                ley_expresion_avanza(*x, m, env, st);
            },
            Expresion::Error(x) => {
                ley_expresion_avanza(*x, m, env, st);
                if let (Ok(v), s) = expresion(*x, m, env, st) {
                    lema_mostrado(v, rs, rs, s.usadas);
                }
            },
            Expresion::Algo(x) => {
                ley_expresion_avanza(*x, m, env, st);
            },
            Expresion::Referencia { expr } => {
                ley_expresion_avanza(*expr, m, env, st);
            },
            Expresion::Index { objeto, indice } => {
                ley_expresion_avanza(*objeto, m, env, st);
                if let (Ok(x), s) = expresion(*objeto, m, env, st) {
                    ley_expresion_avanza(*indice, m, env, s);
                    if let (Ok(y), w) = expresion(*indice, m, env, s) {
                        lema_indexado(x, y, rs, rs, w.usadas);
                    }
                }
            },
            Expresion::Try(x) => {
                ley_expresion_avanza(*x, m, env, st);
            },
            Expresion::Anterior(x) => {
                ley_expresion_avanza(*x, m, env, st);
            },
            _ => {},
        }
    }
}

/// Expressions one after the other lose no variable and give back no answer;
/// they wait only for an answer that is not there.
pub proof fn ley_lista_avanza(
    es: Seq<Expresion>,
    i: nat,
    previos: Seq<Valor>,
    n: nat,
    env: Entorno,
    st: Estado,
)
    requires
        st.usadas <= env.respuestas.len(),
    ensures
        avanza(lista(es, i, previos, n, env, st), env, st),
    decreases n, 1 + es.len() - i,
{
    if i < es.len() {
        ley_expresion_avanza(es[i as int], n, env, st);
        if let (Ok(v), s) = expresion(es[i as int], n, env, st) {
            ley_lista_avanza(es, i + 1, previos.push(v), n, env, s);
        }
    }
}

/// The members of a map lose no variable and give back no answer; they wait only
/// for an answer that is not there.
pub proof fn ley_pares_avanzan(
    ps: Seq<(Expresion, Expresion)>,
    i: nat,
    previos: Seq<(Seq<char>, Json)>,
    n: nat,
    env: Entorno,
    st: Estado,
)
    requires
        st.usadas <= env.respuestas.len(),
    ensures
        avanza(pares(ps, i, previos, n, env, st), env, st),
    decreases n, 1 + ps.len() - i,
{
    if i < ps.len() {
        ley_expresion_avanza(ps[i as int].0, n, env, st);
        if let (Ok(k), s) = expresion(ps[i as int].0, n, env, st) {
            ley_expresion_avanza(ps[i as int].1, n, env, s);
            if let (Ok(v), w) = expresion(ps[i as int].1, n, env, s) {
                lema_mostrado(k, env.respuestas, env.respuestas, w.usadas);
                if let (Ok(t), u) = mostrado(k, env.respuestas, w.usadas) {
                    ley_pares_avanzan(
                        ps,
                        i + 1,
                        previos.push((t, a_json(v))),
                        n,
                        env,
                        Estado { usadas: u, ..w },
                    );
                }
            }
        }
    }
}

/// A call loses no variable of the store and gives back no answer; it waits only
/// for an answer that is not there.
pub proof fn ley_llamada_avanza(
    nombre: Seq<char>,
    args: Seq<Valor>,
    n: nat,
    env: Entorno,
    almacen: Map<Seq<char>, Json>,
    usadas: nat,
)
    requires
        usadas <= env.respuestas.len(),
    ensures
        ({
            let (r, a, u) = llamada(nombre, args, n, env, almacen, usadas);
            &&& usadas <= u <= env.respuestas.len()
            &&& forall|k: Seq<char>| almacen.contains_key(k) ==> #[trigger] a.contains_key(k)
            &&& espera(r, env.respuestas, u)
        }),
    decreases n, 0nat,
{
    if n > 0 {
        let lugar = lugar_de_funcion(env.declaraciones, nombre, 0);
        if lugar < env.declaraciones.len() {
            if let Declaracion::Funcion { parametros, cuerpo, .. } = env.declaraciones[lugar as int] {
                let ambito = ligados(parametros@, parametros@.len(), args, almacen);
                ley_bloque_avanza(
                    cuerpo@,
                    0,
                    (n - 1) as nat,
                    env,
                    Estado { ambito, almacen, usadas },
                );
            }
        }
    }
}

/// A block loses no variable and gives back no answer; it waits only for an
/// answer that is not there.
pub proof fn ley_bloque_avanza(ds: Seq<Declaracion>, i: nat, n: nat, env: Entorno, st: Estado)
    requires
        st.usadas <= env.respuestas.len(),
    ensures
        avanza(bloque(ds, i, n, env, st), env, st),
    decreases n, 1 + ds.len() - i,
{
    if i < ds.len() {
        ley_declaracion_avanza(ds[i as int], n, env, st);
        if let (Ok(_), s) = declaracion(ds[i as int], n, env, st) {
            if !(ds[i as int] is Retornar) {
                ley_bloque_avanza(ds, i + 1, n, env, s);
            }
        }
    }
}

proof fn lema_condicional_avanza(
    condicion: Expresion,
    si: Seq<Declaracion>,
    sino: Option<Seq<Declaracion>>,
    n: nat,
    env: Entorno,
    st: Estado,
)
    requires
        st.usadas <= env.respuestas.len(),
    ensures
        avanza(condicional(condicion, si, sino, n, env, st), env, st),
    decreases
            n,
            1 + si.len() + (if sino is Some {
                sino->0.len()
            } else {
                0
            }) + 1,
{
    ley_expresion_avanza(condicion, n, env, st);
    if let (Ok(v), s) = expresion(condicion, n, env, st) {
        if v.verdadero() {
            ley_bloque_avanza(si, 0, n, env, s);
        } else if let Some(ds) = sino {
            ley_bloque_avanza(ds, 0, n, env, s);
        }
    }
}

/// A declaration loses no variable and gives back no answer; it waits only for
/// an answer that is not there.
#[verifier::spinoff_prover]
#[verifier::rlimit(60)]
pub proof fn ley_declaracion_avanza(d: Declaracion, n: nat, env: Entorno, st: Estado)
    requires
        st.usadas <= env.respuestas.len(),
    ensures
        avanza(declaracion(d, n, env, st), env, st),
    decreases n, 0nat,
{
    if n > 0 {
        let m = (n - 1) as nat;
        match d {
            Declaracion::Retornar { valor: Some(e) } => {
                ley_expresion_avanza(e, m, env, st);
            },
            Declaracion::Si { condicion, bloque_verdadero, bloque_falso } => {
                let sino = match bloque_falso {
                    Some(ds) => Some(ds@),
                    None => None,
                };
                lema_condicional_avanza(condicion, bloque_verdadero@, sino, m, env, st);
            },
            Declaracion::Mientras { condicion, bloque: ds } => {
                lema_ciclo_avanza(Some(condicion), ds@, None, m, env, st);
            },
            Declaracion::Variable { valor: Some(e), .. } => {
                ley_expresion_avanza(e, m, env, st);
            },
            Declaracion::Asignacion { valor, .. } => {
                ley_expresion_avanza(valor, m, env, st);
            },
            Declaracion::LlamadaFuncion { nombre, argumentos, .. } => {
                ley_lista_avanza(argumentos@, 0, Seq::empty(), m, env, st);
                if let (Ok(args), s) = lista(argumentos@, 0, Seq::empty(), m, env, st) {
                    ley_llamada_avanza(nombre@, args, m, env, s.almacen, s.usadas);
                }
            },
            Declaracion::Expresion(e) => {
                ley_expresion_avanza(e, m, env, st);
            },
            Declaracion::Para { inicializacion, condicion, incremento, bloque: ds } => {
                let paso = match incremento {
                    Some(inc) => Some(*inc),
                    None => None,
                };
                match inicializacion {
                    Some(inicial) => {
                        ley_declaracion_avanza(*inicial, m, env, st);
                        if let (Ok(_), s) = declaracion(*inicial, m, env, st) {
                            lema_ciclo_avanza(condicion, ds@, paso, m, env, s);
                        }
                    },
                    None => {
                        lema_ciclo_avanza(condicion, ds@, paso, m, env, st);
                    },
                }
            },
            Declaracion::Cuando { condicion, cuerpo } => {
                lema_condicional_avanza(condicion, cuerpo@, None, m, env, st);
            },
            _ => {},
        }
    }
}

#[verifier::spinoff_prover]
proof fn lema_ciclo_avanza(
    condicion: Option<Expresion>,
    ds: Seq<Declaracion>,
    paso: Option<Declaracion>,
    n: nat,
    env: Entorno,
    st: Estado,
)
    requires
        st.usadas <= env.respuestas.len(),
    ensures
        avanza(ciclo(condicion, ds, paso, n, env, st), env, st),
    decreases n, 0nat,
{
    if n > 0 {
        let m = (n - 1) as nat;
        let (sigue, s) = match condicion {
            Some(e) => match expresion(e, m, env, st) {
                (Err(_), s) => (false, s),
                (Ok(v), s) => (v.verdadero(), s),
            },
            None => (true, st),
        };
        if let Some(e) = condicion {
            ley_expresion_avanza(e, m, env, st);
        }
        if sigue {
            ley_bloque_avanza(ds, 0, m, env, s);
            if let (Ok(v), w) = bloque(ds, 0, m, env, s) {
                if v == Valor::Nulo {
                    match paso {
                        Some(d) => {
                            ley_declaracion_avanza(d, m, env, w);
                            if let (Ok(_), x) = declaracion(d, m, env, w) {
                                lema_ciclo_avanza(condicion, ds, paso, m, env, x);
                            }
                        },
                        None => {
                            lema_ciclo_avanza(condicion, ds, paso, m, env, w);
                        },
                    }
                }
            }
        }
    }
}

/// Setting up the variables of `main` loses none and gives back no answer; it
/// waits only for an answer that is not there.
pub proof fn ley_inicio_avanza(n: nat, env: Entorno, almacen: Map<Seq<char>, Json>, usadas: nat)
    requires
        usadas <= env.respuestas.len(),
    ensures
        avanza(
            inicio(n, env, almacen, usadas),
            env,
            Estado { ambito: Map::empty(), almacen, usadas },
        ),
{
    let st = Estado { ambito: Map::empty(), almacen, usadas };
    let lugar = lugar_de_funcion(env.declaraciones, "main"@, 0);
    if lugar < env.declaraciones.len() {
        if let Declaracion::Funcion { cuerpo, .. } = env.declaraciones[lugar as int] {
            lema_iniciadas_avanza(cuerpo@, 0, n, env, st);
        }
    }
}

proof fn lema_iniciadas_avanza(ds: Seq<Declaracion>, i: nat, n: nat, env: Entorno, st: Estado)
    requires
        st.usadas <= env.respuestas.len(),
    ensures
        avanza(iniciadas(ds, i, n, env, st), env, st),
    decreases ds.len() - i,
{
    if i < ds.len() {
        match ds[i as int] {
            Declaracion::Variable { nombre, valor } => {
                if let Some(e) = valor {
                    ley_expresion_avanza(e, n, env, st);
                }
                if let (Ok(v), s) = valor_inicial(valor, n, env, st) {
                    lema_iniciadas_avanza(ds, i + 1, n, env, escrita(nombre@, v, s));
                }
            },
            _ => {
                lema_iniciadas_avanza(ds, i + 1, n, env, st);
            },
        }
    }
}

/// Once the variables of a program are set up, every variable that `main`
/// declares at its top is in the store.
pub proof fn ley_variables_de_main(
    n: nat,
    env: Entorno,
    almacen: Map<Seq<char>, Json>,
    usadas: nat,
    cuerpo: Seq<Declaracion>,
    i: int,
)
    requires
        usadas <= env.respuestas.len(),
        inicio(n, env, almacen, usadas).0 is Ok,
        lugar_de_funcion(env.declaraciones, "main"@, 0) < env.declaraciones.len(),
        env.declaraciones[lugar_de_funcion(env.declaraciones, "main"@, 0) as int] matches
            Declaracion::Funcion { cuerpo: c, .. } && c@ == cuerpo,
        0 <= i < cuerpo.len(),
        cuerpo[i] is Variable,
    ensures
        inicio(n, env, almacen, usadas).1.almacen.contains_key(cuerpo[i]->Variable_nombre@),
{
    let st = Estado { ambito: Map::empty(), almacen, usadas };
    lema_declaradas(cuerpo, 0, n, env, st, i);
}

proof fn lema_declaradas(
    ds: Seq<Declaracion>,
    i: nat,
    n: nat,
    env: Entorno,
    st: Estado,
    k: int,
)
    requires
        st.usadas <= env.respuestas.len(),
        iniciadas(ds, i, n, env, st).0 is Ok,
        i <= k < ds.len(),
        ds[k] is Variable,
    ensures
        iniciadas(ds, i, n, env, st).1.almacen.contains_key(ds[k]->Variable_nombre@),
    decreases ds.len() - i,
{
    match ds[i as int] {
        Declaracion::Variable { nombre, valor } => {
            if let Some(e) = valor {
                ley_expresion_avanza(e, n, env, st);
            }
            if let (Ok(v), s) = valor_inicial(valor, n, env, st) {
                let st2 = escrita(nombre@, v, s);
                lema_iniciadas_avanza(ds, i + 1, n, env, st2);
                if i < k {
                    lema_declaradas(ds, i + 1, n, env, st2, k);
                } else {
                    assert(st2.almacen.contains_key(nombre@));
                }
            }
        },
        _ => {
            lema_declaradas(ds, i + 1, n, env, st, k);
        },
    }
}

// ---------------------------------------------------------------------------
// An answer takes the run further
// ---------------------------------------------------------------------------

/// Whether the second run, which has the answer that the first waits for, gets
/// past it.
pub open spec fn supera<T>(
    p: (Result<T, Interrupcion>, Estado),
    q: (Result<T, Interrupcion>, Estado),
    env: Entorno,
    otro: Entorno,
) -> bool {
    contestada(p.0, p.1.usadas, env.respuestas, otro.respuestas) ==> q.1.usadas
        > env.respuestas.len()
}

/// An expression that waits for an answer gets past it once it is given.
#[verifier::spinoff_prover]
#[verifier::rlimit(80)]
pub proof fn ley_expresion_supera(e: Expresion, n: nat, env: Entorno, otro: Entorno, st: Estado)
    requires
        amplia(env, otro),
        st.usadas <= env.respuestas.len(),
    ensures
        supera(expresion(e, n, env, st), expresion(e, n, otro, st), env, otro),
    decreases n, 0nat,
{
    if n > 0 {
        let m = (n - 1) as nat;
        let rs = env.respuestas;
        let otras = otro.respuestas;
        match e {
            Expresion::Binaria { izquierda, operador, derecha } => {
                lema_tramo(*izquierda, m, env, otro, st);
                if let (Ok(x), s) = expresion(*izquierda, m, otro, st) {
                    ley_expresion_avanza(*derecha, m, otro, s);
                    if let (Ok(y), w) = expresion(*derecha, m, otro, s) {
                        lema_binaria(x, operador, y, otras, otras, w.usadas);
                    }
                }
                if let (Ok(x), s) = expresion(*izquierda, m, env, st) {
                    lema_tramo(*derecha, m, env, otro, s);
                    if let (Ok(y), w) = expresion(*derecha, m, env, s) {
                        lema_binaria(x, operador, y, rs, otras, w.usadas);
                    }
                }
            },
            Expresion::Unaria { expr, .. } => {
                ley_expresion_supera(*expr, m, env, otro, st);
            },
            Expresion::LlamadaFuncion { nombre, argumentos, .. } => {
                lema_tramo_lista(argumentos@, m, env, otro, st);
                if let (Ok(args), s) = lista(argumentos@, 0, Seq::empty(), m, otro, st) {
                    ley_llamada_avanza(nombre@, args, m, otro, s.almacen, s.usadas);
                }
                if let (Ok(args), s) = lista(argumentos@, 0, Seq::empty(), m, env, st) {
                    ley_llamada_supera(nombre@, args, m, env, otro, s.almacen, s.usadas);
                }
            },
            Expresion::AccesoMiembro { objeto, miembro } => {
                lema_tramo(*objeto, m, env, otro, st);
                if let (Ok(v), s) = expresion(*objeto, m, otro, st) {
                    lema_miembro(v, miembro@, otro, otro, s);
                }
                if let (Ok(v), s) = expresion(*objeto, m, env, st) {
                    lema_miembro(v, miembro@, env, otro, s);
                }
            },
            Expresion::Grupo(x) => {
                ley_expresion_supera(*x, m, env, otro, st);
            },
            Expresion::Asignacion { valor, .. } => {
                ley_expresion_supera(*valor, m, env, otro, st);
            },
            Expresion::Arreglo(elementos) => {
                lema_tramo_lista(elementos@, m, env, otro, st);
                if let (Ok(vs), s) = lista(elementos@, 0, Seq::empty(), m, otro, st) {
                    lema_arreglo(todos_a_json(vs), otras, otras, s.usadas);
                }
                if let (Ok(vs), s) = lista(elementos@, 0, Seq::empty(), m, env, st) {
                    lema_arreglo(todos_a_json(vs), rs, otras, s.usadas);
                }
            },
            Expresion::Mapa(ps) => {
                ley_pares_superan(ps@, 0, Seq::empty(), m, env, otro, st);
                ley_pares_constantes(ps@, 0, Seq::empty(), m, m, env, otro, st);
                ley_pares_avanzan(ps@, 0, Seq::empty(), m, env, st);
                ley_pares_avanzan(ps@, 0, Seq::empty(), m, otro, st);
                if let (Ok(js), s) = pares(ps@, 0, Seq::empty(), m, otro, st) {
                    lema_objeto(js, otras, otras, s.usadas);
                }
                if let (Ok(js), s) = pares(ps@, 0, Seq::empty(), m, env, st) {
                    lema_objeto(js, rs, otras, s.usadas);
                }
            },
            Expresion::Correcto(x) => {
                ley_expresion_supera(*x, m, env, otro, st);
            },
            Expresion::Error(x) => {
                lema_tramo(*x, m, env, otro, st);
                if let (Ok(v), s) = expresion(*x, m, otro, st) {
                    lema_mostrado(v, otras, otras, s.usadas);
                }
                if let (Ok(v), s) = expresion(*x, m, env, st) {
                    lema_mostrado(v, rs, otras, s.usadas);
                }
            },
            Expresion::Algo(x) => {
                ley_expresion_supera(*x, m, env, otro, st);
            },
            Expresion::Referencia { expr } => {
                ley_expresion_supera(*expr, m, env, otro, st);
            },
            Expresion::Index { objeto, indice } => {
                lema_tramo(*objeto, m, env, otro, st);
                if let (Ok(x), s) = expresion(*objeto, m, otro, st) {
                    ley_expresion_avanza(*indice, m, otro, s);
                    if let (Ok(y), w) = expresion(*indice, m, otro, s) {
                        lema_indexado(x, y, otras, otras, w.usadas);
                    }
                }
                if let (Ok(x), s) = expresion(*objeto, m, env, st) {
                    lema_tramo(*indice, m, env, otro, s);
                    if let (Ok(y), w) = expresion(*indice, m, env, s) {
                        lema_indexado(x, y, rs, otras, w.usadas);
                    }
                }
            },
            Expresion::Try(x) => {
                ley_expresion_supera(*x, m, env, otro, st);
            },
            Expresion::Anterior(x) => {
                ley_expresion_supera(*x, m, env, otro, st);
            },
            _ => {},
        }
    }
}

/// What an expression in the middle of a run does in both runs.
proof fn lema_tramo(e: Expresion, n: nat, env: Entorno, otro: Entorno, st: Estado)
    requires
        amplia(env, otro),
        st.usadas <= env.respuestas.len(),
    ensures
        supera(expresion(e, n, env, st), expresion(e, n, otro, st), env, otro),
        expresion(e, n, env, st).0 is Ok ==> expresion(e, n, otro, st) == expresion(e, n, env, st),
        avanza(expresion(e, n, env, st), env, st),
        avanza(expresion(e, n, otro, st), otro, st),
    decreases n, 1nat,
{
    ley_expresion_supera(e, n, env, otro, st);
    ley_expresion_constante(e, n, n, env, otro, st);
    ley_expresion_avanza(e, n, env, st);
    ley_expresion_avanza(e, n, otro, st);
}

/// What expressions one after the other do in both runs.
proof fn lema_tramo_lista(
    es: Seq<Expresion>,
    n: nat,
    env: Entorno,
    otro: Entorno,
    st: Estado,
)
    requires
        amplia(env, otro),
        st.usadas <= env.respuestas.len(),
    ensures
        supera(
            lista(es, 0, Seq::empty(), n, env, st),
            lista(es, 0, Seq::empty(), n, otro, st),
            env,
            otro,
        ),
        lista(es, 0, Seq::empty(), n, env, st).0 is Ok ==> lista(es, 0, Seq::empty(), n, otro, st)
            == lista(es, 0, Seq::empty(), n, env, st),
        avanza(lista(es, 0, Seq::empty(), n, env, st), env, st),
        avanza(lista(es, 0, Seq::empty(), n, otro, st), otro, st),
    decreases n, 3 + es.len(),
{
    ley_lista_supera(es, 0, Seq::empty(), n, env, otro, st);
    ley_lista_constante(es, 0, Seq::empty(), n, n, env, otro, st);
    ley_lista_avanza(es, 0, Seq::empty(), n, env, st);
    ley_lista_avanza(es, 0, Seq::empty(), n, otro, st);
}

/// Expressions one after the other that wait for an answer get past it once it
/// is given.
pub proof fn ley_lista_supera(
    es: Seq<Expresion>,
    i: nat,
    previos: Seq<Valor>,
    n: nat,
    env: Entorno,
    otro: Entorno,
    st: Estado,
)
    requires
        amplia(env, otro),
        st.usadas <= env.respuestas.len(),
    ensures
        supera(
            lista(es, i, previos, n, env, st),
            lista(es, i, previos, n, otro, st),
            env,
            otro,
        ),
    decreases n, 2 + es.len() - i,
{
    if i < es.len() {
        lema_tramo(es[i as int], n, env, otro, st);
        if let (Ok(v), s) = expresion(es[i as int], n, otro, st) {
            ley_lista_avanza(es, i + 1, previos.push(v), n, otro, s);
        }
        if let (Ok(v), s) = expresion(es[i as int], n, env, st) {
            ley_lista_supera(es, i + 1, previos.push(v), n, env, otro, s);
        }
    }
}

/// The members of a map that wait for an answer get past it once it is given.
#[verifier::spinoff_prover]
pub proof fn ley_pares_superan(
    ps: Seq<(Expresion, Expresion)>,
    i: nat,
    previos: Seq<(Seq<char>, Json)>,
    n: nat,
    env: Entorno,
    otro: Entorno,
    st: Estado,
)
    requires
        amplia(env, otro),
        st.usadas <= env.respuestas.len(),
    ensures
        supera(
            pares(ps, i, previos, n, env, st),
            pares(ps, i, previos, n, otro, st),
            env,
            otro,
        ),
    decreases n, 2 + ps.len() - i,
{
    if i < ps.len() {
        let clave = ps[i as int].0;
        let valor = ps[i as int].1;
        lema_tramo(clave, n, env, otro, st);
        if let (Ok(k), s) = expresion(clave, n, otro, st) {
            lema_resto_de_pares(ps, i, previos, k, n, otro, s);
        }
        if let (Ok(k), s) = expresion(clave, n, env, st) {
            lema_tramo(valor, n, env, otro, s);
            if let (Ok(v), w) = expresion(valor, n, otro, s) {
                lema_cola_de_pares(ps, i, previos, k, v, n, otro, w);
            }
            if let (Ok(v), w) = expresion(valor, n, env, s) {
                lema_mostrado(k, env.respuestas, otro.respuestas, w.usadas);
                if let (Ok(t), u) = mostrado(k, env.respuestas, w.usadas) {
                    ley_pares_superan(
                        ps,
                        i + 1,
                        previos.push((t, a_json(v))),
                        n,
                        env,
                        otro,
                        Estado { usadas: u, ..w },
                    );
                }
            }
        }
    }
}

/// From the value of a member on, no answer is given back.
proof fn lema_resto_de_pares(
    ps: Seq<(Expresion, Expresion)>,
    i: nat,
    previos: Seq<(Seq<char>, Json)>,
    k: Valor,
    n: nat,
    env: Entorno,
    s: Estado,
)
    requires
        s.usadas <= env.respuestas.len(),
        i < ps.len(),
    ensures
        expresion(ps[i as int].1, n, env, s).1.usadas >= s.usadas,
        expresion(ps[i as int].1, n, env, s) matches (Ok(v), w) ==> (mostrado(
            k,
            env.respuestas,
            w.usadas,
        ) matches (Ok(t), u) ==> pares(
            ps,
            i + 1,
            previos.push((t, a_json(v))),
            n,
            env,
            Estado { usadas: u, ..w },
        ).1.usadas >= s.usadas),
        expresion(ps[i as int].1, n, env, s) matches (Ok(v), w) ==> mostrado(
            k,
            env.respuestas,
            w.usadas,
        ).1 >= s.usadas,
{
    ley_expresion_avanza(ps[i as int].1, n, env, s);
    if let (Ok(v), w) = expresion(ps[i as int].1, n, env, s) {
        lema_cola_de_pares(ps, i, previos, k, v, n, env, w);
    }
}

/// From the name of a member on, no answer is given back.
proof fn lema_cola_de_pares(
    ps: Seq<(Expresion, Expresion)>,
    i: nat,
    previos: Seq<(Seq<char>, Json)>,
    k: Valor,
    v: Valor,
    n: nat,
    env: Entorno,
    w: Estado,
)
    requires
        w.usadas <= env.respuestas.len(),
        i < ps.len(),
    ensures
        mostrado(k, env.respuestas, w.usadas).1 >= w.usadas,
        mostrado(k, env.respuestas, w.usadas) matches (Ok(t), u) ==> pares(
            ps,
            i + 1,
            previos.push((t, a_json(v))),
            n,
            env,
            Estado { usadas: u, ..w },
        ).1.usadas >= u,
{
    lema_mostrado(k, env.respuestas, env.respuestas, w.usadas);
    if let (Ok(t), u) = mostrado(k, env.respuestas, w.usadas) {
        ley_pares_avanzan(
            ps,
            i + 1,
            previos.push((t, a_json(v))),
            n,
            env,
            Estado { usadas: u, ..w },
        );
    }
}

/// A call that waits for an answer gets past it once it is given.
pub proof fn ley_llamada_supera(
    nombre: Seq<char>,
    args: Seq<Valor>,
    n: nat,
    env: Entorno,
    otro: Entorno,
    almacen: Map<Seq<char>, Json>,
    usadas: nat,
)
    requires
        amplia(env, otro),
        usadas <= env.respuestas.len(),
    ensures
        ({
            let (r, _, u) = llamada(nombre, args, n, env, almacen, usadas);
            contestada(r, u, env.respuestas, otro.respuestas) ==> llamada(
                nombre,
                args,
                n,
                otro,
                almacen,
                usadas,
            ).2 > env.respuestas.len()
        }),
    decreases n, 0nat,
{
    if n > 0 {
        let lugar = lugar_de_funcion(env.declaraciones, nombre, 0);
        if lugar < env.declaraciones.len() {
            if let Declaracion::Funcion { parametros, cuerpo, .. } = env.declaraciones[lugar as int] {
                let ambito = ligados(parametros@, parametros@.len(), args, almacen);
                ley_bloque_supera(
                    cuerpo@,
                    0,
                    (n - 1) as nat,
                    env,
                    otro,
                    Estado { ambito, almacen, usadas },
                );
            }
        }
    }
}

/// A block that waits for an answer gets past it once it is given.
pub proof fn ley_bloque_supera(
    ds: Seq<Declaracion>,
    i: nat,
    n: nat,
    env: Entorno,
    otro: Entorno,
    st: Estado,
)
    requires
        amplia(env, otro),
        st.usadas <= env.respuestas.len(),
    ensures
        supera(bloque(ds, i, n, env, st), bloque(ds, i, n, otro, st), env, otro),
    decreases n, 1 + ds.len() - i,
{
    if i < ds.len() {
        let d = ds[i as int];
        ley_declaracion_supera(d, n, env, otro, st);
        ley_declaracion_constante(d, n, n, env, otro, st);
        ley_declaracion_avanza(d, n, env, st);
        ley_declaracion_avanza(d, n, otro, st);
        if let (Ok(_), s) = declaracion(d, n, otro, st) {
            ley_bloque_avanza(ds, i + 1, n, otro, s);
        }
        if let (Ok(_), s) = declaracion(d, n, env, st) {
            if !(d is Retornar) {
                ley_bloque_supera(ds, i + 1, n, env, otro, s);
            }
        }
    }
}

proof fn lema_condicional_supera(
    condicion: Expresion,
    si: Seq<Declaracion>,
    sino: Option<Seq<Declaracion>>,
    n: nat,
    env: Entorno,
    otro: Entorno,
    st: Estado,
)
    requires
        amplia(env, otro),
        st.usadas <= env.respuestas.len(),
    ensures
        supera(
            condicional(condicion, si, sino, n, env, st),
            condicional(condicion, si, sino, n, otro, st),
            env,
            otro,
        ),
    decreases
            n,
            1 + si.len() + (if sino is Some {
                sino->0.len()
            } else {
                0
            }) + 1,
{
    lema_tramo(condicion, n, env, otro, st);
    if let (Ok(v), s) = expresion(condicion, n, otro, st) {
        ley_bloque_avanza(si, 0, n, otro, s);
        if let Some(ds) = sino {
            ley_bloque_avanza(ds, 0, n, otro, s);
        }
    }
    if let (Ok(v), s) = expresion(condicion, n, env, st) {
        if v.verdadero() {
            ley_bloque_supera(si, 0, n, env, otro, s);
        } else if let Some(ds) = sino {
            ley_bloque_supera(ds, 0, n, env, otro, s);
        }
    }
}

/// A declaration that waits for an answer gets past it once it is given.
#[verifier::spinoff_prover]
#[verifier::rlimit(80)]
pub proof fn ley_declaracion_supera(
    d: Declaracion,
    n: nat,
    env: Entorno,
    otro: Entorno,
    st: Estado,
)
    requires
        amplia(env, otro),
        st.usadas <= env.respuestas.len(),
    ensures
        supera(declaracion(d, n, env, st), declaracion(d, n, otro, st), env, otro),
    decreases n, 0nat,
{
    if n > 0 {
        let m = (n - 1) as nat;
        match d {
            Declaracion::Retornar { valor: Some(e) } => {
                ley_expresion_supera(e, m, env, otro, st);
            },
            Declaracion::Si { condicion, bloque_verdadero, bloque_falso } => {
                let sino = match bloque_falso {
                    Some(ds) => Some(ds@),
                    None => None,
                };
                lema_condicional_supera(condicion, bloque_verdadero@, sino, m, env, otro, st);
            },
            Declaracion::Mientras { condicion, bloque: ds } => {
                lema_ciclo_supera(Some(condicion), ds@, None, m, env, otro, st);
            },
            Declaracion::Variable { valor: Some(e), .. } => {
                ley_expresion_supera(e, m, env, otro, st);
            },
            Declaracion::Asignacion { valor, .. } => {
                ley_expresion_supera(valor, m, env, otro, st);
            },
            Declaracion::LlamadaFuncion { nombre, argumentos, .. } => {
                lema_tramo_lista(argumentos@, m, env, otro, st);
                if let (Ok(args), s) = lista(argumentos@, 0, Seq::empty(), m, otro, st) {
                    ley_llamada_avanza(nombre@, args, m, otro, s.almacen, s.usadas);
                }
                if let (Ok(args), s) = lista(argumentos@, 0, Seq::empty(), m, env, st) {
                    ley_llamada_supera(nombre@, args, m, env, otro, s.almacen, s.usadas);
                }
            },
            Declaracion::Expresion(e) => {
                ley_expresion_supera(e, m, env, otro, st);
            },
            Declaracion::Para { inicializacion, condicion, incremento, bloque: ds } => {
                let paso = match incremento {
                    Some(inc) => Some(*inc),
                    None => None,
                };
                match inicializacion {
                    Some(inicial) => {
                        ley_declaracion_supera(*inicial, m, env, otro, st);
                        ley_declaracion_constante(*inicial, m, m, env, otro, st);
                        ley_declaracion_avanza(*inicial, m, env, st);
                        ley_declaracion_avanza(*inicial, m, otro, st);
                        if let (Ok(_), s) = declaracion(*inicial, m, otro, st) {
                            lema_ciclo_avanza(condicion, ds@, paso, m, otro, s);
                        }
                        if let (Ok(_), s) = declaracion(*inicial, m, env, st) {
                            lema_ciclo_supera(condicion, ds@, paso, m, env, otro, s);
                        }
                    },
                    None => {
                        lema_ciclo_supera(condicion, ds@, paso, m, env, otro, st);
                    },
                }
            },
            Declaracion::Cuando { condicion, cuerpo } => {
                lema_condicional_supera(condicion, cuerpo@, None, m, env, otro, st);
            },
            _ => {},
        }
    }
}

/// From the block of a round on, no answer is given back.
proof fn lema_resto_de_ciclo(
    condicion: Option<Expresion>,
    ds: Seq<Declaracion>,
    paso: Option<Declaracion>,
    n: nat,
    env: Entorno,
    s: Estado,
)
    requires
        s.usadas <= env.respuestas.len(),
    ensures
        bloque(ds, 0, n, env, s).1.usadas >= s.usadas,
        bloque(ds, 0, n, env, s) matches (Ok(_), w) ==> sin_devolver(condicion, ds, paso, n, env, w),
{
    ley_bloque_avanza(ds, 0, n, env, s);
    if let (Ok(_), w) = bloque(ds, 0, n, env, s) {
        lema_cola_de_ciclo(condicion, ds, paso, n, env, w);
    }
}

/// From the step of a round on, no answer is given back.
spec fn sin_devolver(
    condicion: Option<Expresion>,
    ds: Seq<Declaracion>,
    paso: Option<Declaracion>,
    n: nat,
    env: Entorno,
    w: Estado,
) -> bool {
    match paso {
        Some(d) => {
            &&& declaracion(d, n, env, w).1.usadas >= w.usadas
            &&& declaracion(d, n, env, w) matches (Ok(_), x) ==> ciclo(
                condicion,
                ds,
                paso,
                n,
                env,
                x,
            ).1.usadas >= w.usadas
        },
        None => ciclo(condicion, ds, paso, n, env, w).1.usadas >= w.usadas,
    }
}

proof fn lema_cola_de_ciclo(
    condicion: Option<Expresion>,
    ds: Seq<Declaracion>,
    paso: Option<Declaracion>,
    n: nat,
    env: Entorno,
    w: Estado,
)
    requires
        w.usadas <= env.respuestas.len(),
    ensures
        sin_devolver(condicion, ds, paso, n, env, w),
{
    match paso {
        Some(d) => {
            ley_declaracion_avanza(d, n, env, w);
            if let (Ok(_), x) = declaracion(d, n, env, w) {
                lema_ciclo_avanza(condicion, ds, paso, n, env, x);
            }
        },
        None => {
            lema_ciclo_avanza(condicion, ds, paso, n, env, w);
        },
    }
}

#[verifier::spinoff_prover]
#[verifier::rlimit(40)]
proof fn lema_ciclo_supera(
    condicion: Option<Expresion>,
    ds: Seq<Declaracion>,
    paso: Option<Declaracion>,
    n: nat,
    env: Entorno,
    otro: Entorno,
    st: Estado,
)
    requires
        amplia(env, otro),
        st.usadas <= env.respuestas.len(),
    ensures
        supera(
            ciclo(condicion, ds, paso, n, env, st),
            ciclo(condicion, ds, paso, n, otro, st),
            env,
            otro,
        ),
    decreases n, 0nat,
{
    if n > 0 {
        let m = (n - 1) as nat;
        let (sigue, s) = match condicion {
            Some(e) => match expresion(e, m, env, st) {
                (Err(_), s) => (false, s),
                (Ok(v), s) => (v.verdadero(), s),
            },
            None => (true, st),
        };
        if let Some(e) = condicion {
            lema_tramo(e, m, env, otro, st);
            if let (Ok(_), z) = expresion(e, m, otro, st) {
                lema_resto_de_ciclo(condicion, ds, paso, m, otro, z);
            }
        }
        if sigue {
            ley_bloque_supera(ds, 0, m, env, otro, s);
            ley_bloque_constante(ds, 0, m, m, env, otro, s);
            ley_bloque_avanza(ds, 0, m, env, s);
            ley_bloque_avanza(ds, 0, m, otro, s);
            if let (Ok(_), z) = bloque(ds, 0, m, otro, s) {
                lema_cola_de_ciclo(condicion, ds, paso, m, otro, z);
            }
            if let (Ok(v), w) = bloque(ds, 0, m, env, s) {
                if v == Valor::Nulo {
                    match paso {
                        Some(d) => {
                            ley_declaracion_supera(d, m, env, otro, w);
                            ley_declaracion_constante(d, m, m, env, otro, w);
                            ley_declaracion_avanza(d, m, env, w);
                            ley_declaracion_avanza(d, m, otro, w);
                            if let (Ok(_), z) = declaracion(d, m, otro, w) {
                                lema_ciclo_avanza(condicion, ds, paso, m, otro, z);
                            }
                            if let (Ok(_), x) = declaracion(d, m, env, w) {
                                lema_ciclo_supera(condicion, ds, paso, m, env, otro, x);
                            }
                        },
                        None => {
                            lema_ciclo_supera(condicion, ds, paso, m, env, otro, w);
                        },
                    }
                }
            }
        }
    }
}

proof fn lema_iniciadas_superan(
    ds: Seq<Declaracion>,
    i: nat,
    n: nat,
    env: Entorno,
    otro: Entorno,
    st: Estado,
)
    requires
        amplia(env, otro),
        st.usadas <= env.respuestas.len(),
    ensures
        supera(iniciadas(ds, i, n, env, st), iniciadas(ds, i, n, otro, st), env, otro),
    decreases ds.len() - i,
{
    if i < ds.len() {
        match ds[i as int] {
            Declaracion::Variable { nombre, valor } => {
                if let Some(e) = valor {
                    lema_tramo(e, n, env, otro, st);
                    ley_expresion_constante(e, n, n, env, otro, st);
                }
                if let (Ok(v), s) = valor_inicial(valor, n, otro, st) {
                    lema_iniciadas_avanza(ds, i + 1, n, otro, escrita(nombre@, v, s));
                }
                if let (Ok(v), s) = valor_inicial(valor, n, env, st) {
                    lema_iniciadas_superan(ds, i + 1, n, env, otro, escrita(nombre@, v, s));
                }
            },
            _ => {
                lema_iniciadas_superan(ds, i + 1, n, env, otro, st);
            },
        }
    }
}

/// Setting up the variables of a program gets past an answer once it is given.
pub proof fn ley_inicio_supera(
    n: nat,
    env: Entorno,
    otro: Entorno,
    almacen: Map<Seq<char>, Json>,
    usadas: nat,
)
    requires
        amplia(env, otro),
        usadas <= env.respuestas.len(),
    ensures
        supera(inicio(n, env, almacen, usadas), inicio(n, otro, almacen, usadas), env, otro),
{
    let st = Estado { ambito: Map::empty(), almacen, usadas };
    let lugar = lugar_de_funcion(env.declaraciones, "main"@, 0);
    if lugar < env.declaraciones.len() {
        if let Declaracion::Funcion { cuerpo, .. } = env.declaraciones[lugar as int] {
            lema_iniciadas_superan(cuerpo@, 0, n, env, otro, st);
        }
    }
}

} // verus!
