//! A run that came to an end comes to the same end with a higher limit and
//! with more answers.

use vstd::prelude::*;

use crate::ast::{lugar_de_funcion, Declaracion, Expresion, Operador};
use crate::json::Json;
use crate::operaciones::{
    arreglo_escrito, binaria, como_decimal, indexado, mostrado, objeto_escrito,
};
use crate::semantica::{
    bloque, ciclo, condicional, declaracion, escrita, expresion, iniciadas, inicio, ligados, lista,
    llamada, miembro_leido, pares, todos_a_json, valor_inicial,
};
use crate::sesion::{Entorno, Estado, Interrupcion, Respuesta};
use crate::valor::Valor;

verus! {

/// Whether answers go on from others.
pub open spec fn prosigue(previas: Seq<Respuesta>, rs: Seq<Respuesta>) -> bool {
    &&& previas.len() <= rs.len()
    &&& forall|i: int| 0 <= i < previas.len() ==> #[trigger] rs[i] == previas[i]
}

/// Whether two runs are of the same program and the second has been given more
/// answers, or as many.
pub open spec fn amplia(env: Entorno, otro: Entorno) -> bool {
    env.declaraciones == otro.declaraciones && prosigue(env.respuestas, otro.respuestas)
}

/// Whether an outcome does not change from the limit `n` to `m` and from the
/// answers of `env` to those of `otro`: running out of the limit can change
/// with a higher one only, waiting for an answer with more answers only.
pub open spec fn firme<T>(
    r: Result<T, Interrupcion>,
    n: nat,
    m: nat,
    env: Entorno,
    otro: Entorno,
) -> bool {
    match r {
        Err(Interrupcion::Agotado) => n == m,
        Err(Interrupcion::Pendiente(_)) => env == otro,
        _ => true,
    }
}

/// Whether an outcome that the host may have a part in does not change.
pub open spec fn asentada<T>(
    r: Result<T, Interrupcion>,
    rs: Seq<Respuesta>,
    otras: Seq<Respuesta>,
) -> bool {
    r matches Err(Interrupcion::Pendiente(_)) ==> rs == otras
}

proof fn lema_mostrado(v: Valor, rs: Seq<Respuesta>, otras: Seq<Respuesta>, u: nat)
    requires
        prosigue(rs, otras),
    ensures
        asentada(mostrado(v, rs, u).0, rs, otras) ==> mostrado(v, otras, u) == mostrado(v, rs, u),
        !(mostrado(v, rs, u).0 matches Err(Interrupcion::Agotado)),
{
}

proof fn lema_como_decimal(v: Valor, rs: Seq<Respuesta>, otras: Seq<Respuesta>, u: nat)
    requires
        prosigue(rs, otras),
    ensures
        asentada(como_decimal(v, rs, u).0, rs, otras) ==> como_decimal(v, otras, u)
            == como_decimal(v, rs, u),
{
}

proof fn lema_binaria(
    a: Valor,
    op: Operador,
    b: Valor,
    rs: Seq<Respuesta>,
    otras: Seq<Respuesta>,
    u: nat,
)
    requires
        prosigue(rs, otras),
    ensures
        asentada(binaria(a, op, b, rs, u).0, rs, otras) ==> binaria(a, op, b, otras, u) == binaria(
            a,
            op,
            b,
            rs,
            u,
        ),
        !(binaria(a, op, b, rs, u).0 matches Err(Interrupcion::Agotado)),
{
    lema_como_decimal(a, rs, otras, u);
    if let (Ok(_), w) = como_decimal(a, rs, u) {
        lema_como_decimal(b, rs, otras, w);
    }
}

proof fn lema_arreglo(js: Seq<Json>, rs: Seq<Respuesta>, otras: Seq<Respuesta>, u: nat)
    requires
        prosigue(rs, otras),
    ensures
        asentada(arreglo_escrito(js, rs, u).0, rs, otras) ==> arreglo_escrito(js, otras, u)
            == arreglo_escrito(js, rs, u),
        !(arreglo_escrito(js, rs, u).0 matches Err(Interrupcion::Agotado)),
{
}

proof fn lema_objeto(
    js: Seq<(Seq<char>, Json)>,
    rs: Seq<Respuesta>,
    otras: Seq<Respuesta>,
    u: nat,
)
    requires
        prosigue(rs, otras),
    ensures
        asentada(objeto_escrito(js, rs, u).0, rs, otras) ==> objeto_escrito(js, otras, u)
            == objeto_escrito(js, rs, u),
        !(objeto_escrito(js, rs, u).0 matches Err(Interrupcion::Agotado)),
{
}

proof fn lema_indexado(a: Valor, b: Valor, rs: Seq<Respuesta>, otras: Seq<Respuesta>, u: nat)
    requires
        prosigue(rs, otras),
    ensures
        asentada(indexado(a, b, rs, u).0, rs, otras) ==> indexado(a, b, otras, u) == indexado(
            a,
            b,
            rs,
            u,
        ),
        !(indexado(a, b, rs, u).0 matches Err(Interrupcion::Agotado)),
{
}

proof fn lema_miembro(v: Valor, t: Seq<char>, env: Entorno, otro: Entorno, st: Estado)
    requires
        amplia(env, otro),
    ensures
        asentada(miembro_leido(v, t, env, st).0, env.respuestas, otro.respuestas)
            ==> miembro_leido(v, t, otro, st) == miembro_leido(v, t, env, st),
        !(miembro_leido(v, t, env, st).0 matches Err(Interrupcion::Agotado)),
{
    lema_mostrado(v, env.respuestas, otro.respuestas, st.usadas);
}

/// An expression comes to the same end with a higher limit and more answers.
#[verifier::spinoff_prover]
#[verifier::rlimit(60)]
pub proof fn ley_expresion_constante(
    e: Expresion,
    n: nat,
    m: nat,
    env: Entorno,
    otro: Entorno,
    st: Estado,
)
    requires
        n <= m,
        amplia(env, otro),
    ensures
        firme(expresion(e, n, env, st).0, n, m, env, otro) ==> expresion(e, m, otro, st)
            == expresion(e, n, env, st),
    decreases n, 0nat,
{
    if n > 0 {
        let a = (n - 1) as nat;
        let b = (m - 1) as nat;
        let rs = env.respuestas;
        let otras = otro.respuestas;
        match e {
            Expresion::Binaria { izquierda, operador, derecha } => {
                ley_expresion_constante(*izquierda, a, b, env, otro, st);
                if let (Ok(x), s) = expresion(*izquierda, a, env, st) {
                    ley_expresion_constante(*derecha, a, b, env, otro, s);
                    if let (Ok(y), w) = expresion(*derecha, a, env, s) {
                        lema_binaria(x, operador, y, rs, otras, w.usadas);
                    }
                }
            },
            Expresion::Unaria { expr, .. } => {
                ley_expresion_constante(*expr, a, b, env, otro, st);
            },
            Expresion::LlamadaFuncion { nombre, argumentos, .. } => {
                ley_lista_constante(argumentos@, 0, Seq::empty(), a, b, env, otro, st);
                if let (Ok(args), s) = lista(argumentos@, 0, Seq::empty(), a, env, st) {
                    ley_llamada_constante(nombre@, args, a, b, env, otro, s.almacen, s.usadas);
                }
            },
            Expresion::AccesoMiembro { objeto, miembro } => {
                ley_expresion_constante(*objeto, a, b, env, otro, st);
                if let (Ok(v), s) = expresion(*objeto, a, env, st) {
                    lema_miembro(v, miembro@, env, otro, s);
                }
            },
            Expresion::Grupo(x) => {
                ley_expresion_constante(*x, a, b, env, otro, st);
            },
            Expresion::Asignacion { valor, .. } => {
                ley_expresion_constante(*valor, a, b, env, otro, st);
            },
            Expresion::Arreglo(elementos) => {
                ley_lista_constante(elementos@, 0, Seq::empty(), a, b, env, otro, st);
                if let (Ok(vs), s) = lista(elementos@, 0, Seq::empty(), a, env, st) {
                    lema_arreglo(todos_a_json(vs), rs, otras, s.usadas);
                }
            },
            Expresion::Mapa(ps) => {
                ley_pares_constantes(ps@, 0, Seq::empty(), a, b, env, otro, st);
                if let (Ok(js), s) = pares(ps@, 0, Seq::empty(), a, env, st) {
                    lema_objeto(js, rs, otras, s.usadas);
                }
            },
            Expresion::Correcto(x) => {
                ley_expresion_constante(*x, a, b, env, otro, st);
            },
            Expresion::Error(x) => {
                ley_expresion_constante(*x, a, b, env, otro, st);
                if let (Ok(v), s) = expresion(*x, a, env, st) {
                    lema_mostrado(v, rs, otras, s.usadas);
                }
            },
            Expresion::Algo(x) => {
                ley_expresion_constante(*x, a, b, env, otro, st);
            },
            Expresion::Referencia { expr } => {
                ley_expresion_constante(*expr, a, b, env, otro, st);
            },
            Expresion::Index { objeto, indice } => {
                ley_expresion_constante(*objeto, a, b, env, otro, st);
                if let (Ok(x), s) = expresion(*objeto, a, env, st) {
                    ley_expresion_constante(*indice, a, b, env, otro, s);
                    if let (Ok(y), w) = expresion(*indice, a, env, s) {
                        lema_indexado(x, y, rs, otras, w.usadas);
                    }
                }
            },
            Expresion::Try(x) => {
                ley_expresion_constante(*x, a, b, env, otro, st);
            },
            Expresion::Anterior(x) => {
                ley_expresion_constante(*x, a, b, env, otro, st);
            },
            _ => {},
        }
    }
}

/// Expressions one after the other come to the same end with a higher limit and
/// more answers.
pub proof fn ley_lista_constante(
    es: Seq<Expresion>,
    i: nat,
    previos: Seq<Valor>,
    n: nat,
    m: nat,
    env: Entorno,
    otro: Entorno,
    st: Estado,
)
    requires
        n <= m,
        amplia(env, otro),
    ensures
        firme(lista(es, i, previos, n, env, st).0, n, m, env, otro) ==> lista(
            es,
            i,
            previos,
            m,
            otro,
            st,
        ) == lista(es, i, previos, n, env, st),
    decreases n, 1 + es.len() - i,
{
    if i < es.len() {
        ley_expresion_constante(es[i as int], n, m, env, otro, st);
        if let (Ok(v), s) = expresion(es[i as int], n, env, st) {
            ley_lista_constante(es, i + 1, previos.push(v), n, m, env, otro, s);
        }
    }
}

/// The members of a map come to the same end with a higher limit and more
/// answers.
pub proof fn ley_pares_constantes(
    ps: Seq<(Expresion, Expresion)>,
    i: nat,
    previos: Seq<(Seq<char>, Json)>,
    n: nat,
    m: nat,
    env: Entorno,
    otro: Entorno,
    st: Estado,
)
    requires
        n <= m,
        amplia(env, otro),
    ensures
        firme(pares(ps, i, previos, n, env, st).0, n, m, env, otro) ==> pares(
            ps,
            i,
            previos,
            m,
            otro,
            st,
        ) == pares(ps, i, previos, n, env, st),
    decreases n, 1 + ps.len() - i,
{
    if i < ps.len() {
        ley_expresion_constante(ps[i as int].0, n, m, env, otro, st);
        if let (Ok(k), s) = expresion(ps[i as int].0, n, env, st) {
            ley_expresion_constante(ps[i as int].1, n, m, env, otro, s);
            if let (Ok(v), w) = expresion(ps[i as int].1, n, env, s) {
                lema_mostrado(k, env.respuestas, otro.respuestas, w.usadas);
                if let (Ok(t), u) = mostrado(k, env.respuestas, w.usadas) {
                    ley_pares_constantes(
                        ps,
                        i + 1,
                        previos.push((t, crate::json::a_json(v))),
                        n,
                        m,
                        env,
                        otro,
                        Estado { usadas: u, ..w },
                    );
                }
            }
        }
    }
}

/// A call comes to the same end with a higher limit and more answers.
pub proof fn ley_llamada_constante(
    nombre: Seq<char>,
    args: Seq<Valor>,
    n: nat,
    m: nat,
    env: Entorno,
    otro: Entorno,
    almacen: Map<Seq<char>, Json>,
    usadas: nat,
)
    requires
        n <= m,
        amplia(env, otro),
    ensures
        firme(llamada(nombre, args, n, env, almacen, usadas).0, n, m, env, otro) ==> llamada(
            nombre,
            args,
            m,
            otro,
            almacen,
            usadas,
        ) == llamada(nombre, args, n, env, almacen, usadas),
    decreases n, 0nat,
{
    if n > 0 {
        let lugar = lugar_de_funcion(env.declaraciones, nombre, 0);
        if lugar < env.declaraciones.len() {
            if let Declaracion::Funcion { parametros, cuerpo, .. } = env.declaraciones[lugar as int] {
                let ambito = ligados(parametros@, parametros@.len(), args, almacen);
                ley_bloque_constante(
                    cuerpo@,
                    0,
                    (n - 1) as nat,
                    (m - 1) as nat,
                    env,
                    otro,
                    Estado { ambito, almacen, usadas },
                );
            }
        }
    }
}

/// A block comes to the same end with a higher limit and more answers.
pub proof fn ley_bloque_constante(
    ds: Seq<Declaracion>,
    i: nat,
    n: nat,
    m: nat,
    env: Entorno,
    otro: Entorno,
    st: Estado,
)
    requires
        n <= m,
        amplia(env, otro),
    ensures
        firme(bloque(ds, i, n, env, st).0, n, m, env, otro) ==> bloque(ds, i, m, otro, st)
            == bloque(ds, i, n, env, st),
    decreases n, 1 + ds.len() - i,
{
    if i < ds.len() {
        ley_declaracion_constante(ds[i as int], n, m, env, otro, st);
        if let (Ok(_), s) = declaracion(ds[i as int], n, env, st) {
            if !(ds[i as int] is Retornar) {
                ley_bloque_constante(ds, i + 1, n, m, env, otro, s);
            }
        }
    }
}

proof fn lema_condicional(
    condicion: Expresion,
    si: Seq<Declaracion>,
    sino: Option<Seq<Declaracion>>,
    n: nat,
    m: nat,
    env: Entorno,
    otro: Entorno,
    st: Estado,
)
    requires
        n <= m,
        amplia(env, otro),
    ensures
        firme(condicional(condicion, si, sino, n, env, st).0, n, m, env, otro) ==> condicional(
            condicion,
            si,
            sino,
            m,
            otro,
            st,
        ) == condicional(condicion, si, sino, n, env, st),
    decreases
            n,
            1 + si.len() + (if sino is Some {
                sino->0.len()
            } else {
                0
            }) + 1,
{
    ley_expresion_constante(condicion, n, m, env, otro, st);
    if let (Ok(v), s) = expresion(condicion, n, env, st) {
        if v.verdadero() {
            ley_bloque_constante(si, 0, n, m, env, otro, s);
        } else if let Some(ds) = sino {
            ley_bloque_constante(ds, 0, n, m, env, otro, s);
        }
    }
}

/// A declaration comes to the same end with a higher limit and more answers.
#[verifier::spinoff_prover]
#[verifier::rlimit(60)]
pub proof fn ley_declaracion_constante(
    d: Declaracion,
    n: nat,
    m: nat,
    env: Entorno,
    otro: Entorno,
    st: Estado,
)
    requires
        n <= m,
        amplia(env, otro),
    ensures
        firme(declaracion(d, n, env, st).0, n, m, env, otro) ==> declaracion(d, m, otro, st)
            == declaracion(d, n, env, st),
    decreases n, 0nat,
{
    if n > 0 {
        let a = (n - 1) as nat;
        let b = (m - 1) as nat;
        match d {
            Declaracion::Retornar { valor: Some(e) } => {
                ley_expresion_constante(e, a, b, env, otro, st);
            },
            Declaracion::Si { condicion, bloque_verdadero, bloque_falso } => {
                let sino = match bloque_falso {
                    Some(ds) => Some(ds@),
                    None => None,
                };
                lema_condicional(condicion, bloque_verdadero@, sino, a, b, env, otro, st);
            },
            Declaracion::Mientras { condicion, bloque: ds } => {
                lema_ciclo(Some(condicion), ds@, None, a, b, env, otro, st);
            },
            Declaracion::Variable { valor: Some(e), .. } => {
                ley_expresion_constante(e, a, b, env, otro, st);
            },
            Declaracion::Asignacion { valor, .. } => {
                ley_expresion_constante(valor, a, b, env, otro, st);
            },
            Declaracion::LlamadaFuncion { nombre, argumentos, .. } => {
                ley_lista_constante(argumentos@, 0, Seq::empty(), a, b, env, otro, st);
                if let (Ok(args), s) = lista(argumentos@, 0, Seq::empty(), a, env, st) {
                    ley_llamada_constante(nombre@, args, a, b, env, otro, s.almacen, s.usadas);
                }
            },
            Declaracion::Expresion(e) => {
                ley_expresion_constante(e, a, b, env, otro, st);
            },
            Declaracion::Para { inicializacion, condicion, incremento, bloque: ds } => {
                let paso = match incremento {
                    Some(inc) => Some(*inc),
                    None => None,
                };
                match inicializacion {
                    Some(inicial) => {
                        ley_declaracion_constante(*inicial, a, b, env, otro, st);
                        if let (Ok(_), s) = declaracion(*inicial, a, env, st) {
                            lema_ciclo(condicion, ds@, paso, a, b, env, otro, s);
                        }
                    },
                    None => {
                        lema_ciclo(condicion, ds@, paso, a, b, env, otro, st);
                    },
                }
            },
            Declaracion::Cuando { condicion, cuerpo } => {
                lema_condicional(condicion, cuerpo@, None, a, b, env, otro, st);
            },
            _ => {},
        }
    }
}

#[verifier::spinoff_prover]
proof fn lema_ciclo(
    condicion: Option<Expresion>,
    ds: Seq<Declaracion>,
    paso: Option<Declaracion>,
    n: nat,
    m: nat,
    env: Entorno,
    otro: Entorno,
    st: Estado,
)
    requires
        n <= m,
        amplia(env, otro),
    ensures
        firme(ciclo(condicion, ds, paso, n, env, st).0, n, m, env, otro) ==> ciclo(
            condicion,
            ds,
            paso,
            m,
            otro,
            st,
        ) == ciclo(condicion, ds, paso, n, env, st),
    decreases n, 0nat,
{
    if n > 0 {
        let a = (n - 1) as nat;
        let b = (m - 1) as nat;
        let (sigue, s) = match condicion {
            Some(e) => match expresion(e, a, env, st) {
                (Err(_), s) => (false, s),
                (Ok(v), s) => (v.verdadero(), s),
            },
            None => (true, st),
        };
        if let Some(e) = condicion {
            ley_expresion_constante(e, a, b, env, otro, st);
        }
        if sigue {
            ley_bloque_constante(ds, 0, a, b, env, otro, s);
            if let (Ok(v), w) = bloque(ds, 0, a, env, s) {
                if v == Valor::Nulo {
                    match paso {
                        Some(d) => {
                            ley_declaracion_constante(d, a, b, env, otro, w);
                            if let (Ok(_), x) = declaracion(d, a, env, w) {
                                lema_ciclo(condicion, ds, paso, a, b, env, otro, x);
                            }
                        },
                        None => {
                            lema_ciclo(condicion, ds, paso, a, b, env, otro, w);
                        },
                    }
                }
            }
        }
    }
}

proof fn lema_valor_inicial(
    valor: Option<Expresion>,
    n: nat,
    m: nat,
    env: Entorno,
    otro: Entorno,
    st: Estado,
)
    requires
        n <= m,
        amplia(env, otro),
    ensures
        firme(valor_inicial(valor, n, env, st).0, n, m, env, otro) ==> valor_inicial(
            valor,
            m,
            otro,
            st,
        ) == valor_inicial(valor, n, env, st),
{
    if let Some(e) = valor {
        ley_expresion_constante(e, n, m, env, otro, st);
    }
}

proof fn lema_iniciadas(
    ds: Seq<Declaracion>,
    i: nat,
    n: nat,
    m: nat,
    env: Entorno,
    otro: Entorno,
    st: Estado,
)
    requires
        n <= m,
        amplia(env, otro),
    ensures
        firme(iniciadas(ds, i, n, env, st).0, n, m, env, otro) ==> iniciadas(ds, i, m, otro, st)
            == iniciadas(ds, i, n, env, st),
    decreases ds.len() - i,
{
    if i < ds.len() {
        match ds[i as int] {
            Declaracion::Variable { nombre, valor } => {
                lema_valor_inicial(valor, n, m, env, otro, st);
                if let (Ok(v), s) = valor_inicial(valor, n, env, st) {
                    lema_iniciadas(ds, i + 1, n, m, env, otro, escrita(nombre@, v, s));
                }
            },
            _ => {
                lema_iniciadas(ds, i + 1, n, m, env, otro, st);
            },
        }
    }
}

/// The variables of a program are set up in the same way with a higher limit
/// and more answers.
pub proof fn ley_inicio_constante(
    n: nat,
    m: nat,
    env: Entorno,
    otro: Entorno,
    almacen: Map<Seq<char>, Json>,
    usadas: nat,
)
    requires
        n <= m,
        amplia(env, otro),
    ensures
        firme(inicio(n, env, almacen, usadas).0, n, m, env, otro) ==> inicio(
            m,
            otro,
            almacen,
            usadas,
        ) == inicio(n, env, almacen, usadas),
{
    let st = Estado { ambito: Map::empty(), almacen, usadas };
    let lugar = lugar_de_funcion(env.declaraciones, "main"@, 0);
    if lugar < env.declaraciones.len() {
        if let Declaracion::Funcion { cuerpo, .. } = env.declaraciones[lugar as int] {
            lema_iniciadas(cuerpo@, 0, n, m, env, otro, st);
        }
    }
}

} // verus!
