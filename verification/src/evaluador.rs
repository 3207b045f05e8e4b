//! The evaluator: runs a program over its syntax tree.

use vstd::prelude::*;

use crate::almacen::Ambito;
use crate::ast::{es_funcion, lugar_de_funcion, Declaracion, Expresion, Parametro};
use crate::json::{a_json, guardado, Json, ValorJson};
use crate::leyes::{ley_ida_y_vuelta, ley_indice_de_arreglo};
use crate::operaciones::{
    arreglo_escrito, escribir_pares, escribir_valores, evaluar_binaria, evaluar_unaria,
    hay_decimal, indexar, se_lee_como,
};
use crate::semantica::{
    bloque, ciclo, condicional, declaracion, escrita, expresion, iniciadas, inicio, leida, ligados,
    lista, llamada, miembro_leido, pares, todos_a_json, valor_inicial,
};
use crate::sesion::{
    vista_resultado, vistas_pares, Corte, Entorno, Estado, Interrupcion, Sesion,
};
use crate::texto::{mismo_texto, unir};
use crate::valor::{del_lenguaje, vistas, Valor, ValorGUI};

verus! {

/// What evaluated expressions, or the reason why there are none, stand for.
pub open spec fn vista_lista(r: Result<Vec<ValorGUI>, Corte>) -> Result<Seq<Valor>, Interrupcion> {
    match r {
        Ok(v) => Ok(vistas(v@)),
        Err(c) => Err(c@),
    }
}

/// What evaluated members, or the reason why there are none, stand for.
pub open spec fn vista_pares(r: Result<Vec<(String, ValorJson)>, Corte>) -> Result<
    Seq<(Seq<char>, Json)>,
    Interrupcion,
> {
    match r {
        Ok(v) => Ok(vistas_pares(v@)),
        Err(c) => Err(c@),
    }
}

/// Whether a declaration is a "return".
pub fn es_retorno(decl: &Declaracion) -> (r: bool)
    ensures
        r == (decl is Retornar),
{
    match decl {
        Declaracion::Retornar { .. } => true,
        _ => false,
    }
}

/// Finds the first function of that name.
pub fn buscar_funcion<'a>(nombre: &str, declaraciones: &'a [Declaracion]) -> (r: Result<
    &'a Declaracion,
    String,
>)
    ensures
        match r {
            Ok(d) => {
                let lugar = lugar_de_funcion(declaraciones@, nombre@, 0);
                lugar < declaraciones@.len() && *d == declaraciones@[lugar as int] && es_funcion(
                    *d,
                    nombre@,
                )
            },
            Err(t) => lugar_de_funcion(declaraciones@, nombre@, 0) == declaraciones@.len() && t@
                == "Función '"@ + nombre@ + "' no encontrada"@,
        },
{
    let mut i: usize = 0;
    while i < declaraciones.len()
        invariant
            i <= declaraciones@.len(),
            lugar_de_funcion(declaraciones@, nombre@, 0) == lugar_de_funcion(
                declaraciones@,
                nombre@,
                i as nat,
            ),
        decreases declaraciones@.len() - i,
    {
        let d = &declaraciones[i];
        if let Declaracion::Funcion { nombre: n, .. } = d {
            if mismo_texto(n.as_str(), nombre) {
                return Ok(d);
            }
        }
        i = i + 1;
    }
    Err(unir("Función '", nombre, "' no encontrada"))
}

/// Gives the parameters of a call their values.
fn ligar(parametros: &Vec<Parametro>, args: &Vec<ValorGUI>, sesion: &Sesion) -> (r: Ambito)
    ensures
        r@ == ligados(parametros@, parametros@.len(), vistas(args@), sesion.store@),
{
    let mut ambito = Ambito::new();
    let mut i: usize = 0;
    while i < parametros.len()
        invariant
            i <= parametros@.len(),
            ambito@ == ligados(parametros@, i as nat, vistas(args@), sesion.store@),
        decreases parametros@.len() - i,
    {
        let nombre = &parametros[i].nombre;
        if i < args.len() {
            ambito.asignar(nombre.clone(), args[i].clone());
        } else {
            match sesion.store.get(nombre.as_str()) {
                Some(j) => {
                    ambito.asignar(nombre.clone(), ValorGUI::from_serde(&j));
                },
                None => {},
            }
        }
        i = i + 1;
    }
    ambito
}

/// Writes a variable, both in the call and in the store.
fn escribir(nombre: &String, v: &ValorGUI, ambito: &mut Ambito, sesion: &mut Sesion)
    ensures
        final(sesion).entorno() == old(sesion).entorno(),
        final(sesion).estado(*final(ambito)) == escrita(
            nombre@,
            v@,
            old(sesion).estado(*old(ambito)),
        ),
{
    ambito.asignar(nombre.clone(), v.clone());
    sesion.store.set(nombre.as_str(), v.to_json_value());
}

/// Reads a variable: that of the call, else that of the store.
fn leer(nombre: &String, ambito: &Ambito, sesion: &Sesion) -> (r: Result<ValorGUI, Corte>)
    ensures
        (vista_resultado(r), sesion.estado(*ambito)) == leida(
            nombre@,
            sesion.estado(*ambito),
        ),
{
    match ambito.obtener(nombre.as_str()) {
        Some(v) => Ok(v.clone()),
        None => match sesion.store.get(nombre.as_str()) {
            Some(j) => Ok(ValorGUI::from_serde(&j)),
            None => Err(Corte::Error(unir("Variable '", nombre.as_str(), "' no encontrada"))),
        },
    }
}

/// Reads the store's variable named by an object and its member.
fn leer_miembro(objeto: &ValorGUI, miembro: &String, ambito: &Ambito, sesion: &mut Sesion) -> (r:
    Result<ValorGUI, Corte>)
    ensures
        final(sesion).entorno() == old(sesion).entorno(),
        (vista_resultado(r), final(sesion).estado(*ambito)) == miembro_leido(
            objeto@,
            miembro@,
            old(sesion).entorno(),
            old(sesion).estado(*ambito),
        ),
{
    let texto = match objeto.to_display(sesion) {
        Ok(t) => t,
        Err(c) => return Err(c),
    };
    let clave = unir(texto.as_str(), "_", miembro.as_str());
    match sesion.store.get(clave.as_str()) {
        Some(j) => Ok(ValorGUI::from_serde(&j)),
        None => Ok(ValorGUI::Nulo),
    }
}

/// Evaluates expressions one after the other.
pub fn evaluar_lista(
    es: &Vec<Expresion>,
    ambito: &mut Ambito,
    sesion: &mut Sesion,
    combustible: u64,
) -> (r: Result<Vec<ValorGUI>, Corte>)
    ensures
        final(sesion).entorno() == old(sesion).entorno(),
        (vista_lista(r), final(sesion).estado(*final(ambito))) == lista(
            es@,
            0,
            Seq::empty(),
            combustible as nat,
            old(sesion).entorno(),
            old(sesion).estado(*old(ambito)),
        ),
    decreases combustible, 1int,
{
    let mut valores: Vec<ValorGUI> = Vec::new();
    let mut i: usize = 0;
    assert(vistas(valores@) =~= Seq::<Valor>::empty());
    while i < es.len()
        invariant
            i <= es@.len(),
            sesion.entorno() == old(sesion).entorno(),
            lista(
                es@,
                0,
                Seq::empty(),
                combustible as nat,
                old(sesion).entorno(),
                old(sesion).estado(*old(ambito)),
            ) == lista(
                es@,
                i as nat,
                vistas(valores@),
                combustible as nat,
                sesion.entorno(),
                sesion.estado(*ambito),
            ),
        decreases es@.len() - i,
    {
        let ghost previos = vistas(valores@);
        let v = match evaluar_expresion(&es[i], ambito, sesion, combustible) {
            Ok(v) => v,
            Err(c) => return Err(c),
        };
        valores.push(v);
        assert(vistas(valores@) =~= previos.push(v@));
        i = i + 1;
    }
    Ok(valores)
}

/// Evaluates the members of a map one after the other.
pub fn evaluar_pares(
    ps: &Vec<(Expresion, Expresion)>,
    ambito: &mut Ambito,
    sesion: &mut Sesion,
    combustible: u64,
) -> (r: Result<Vec<(String, ValorJson)>, Corte>)
    ensures
        final(sesion).entorno() == old(sesion).entorno(),
        (vista_pares(r), final(sesion).estado(*final(ambito))) == pares(
            ps@,
            0,
            Seq::empty(),
            combustible as nat,
            old(sesion).entorno(),
            old(sesion).estado(*old(ambito)),
        ),
        r matches Ok(v) ==> forall|i: int|
            0 <= i < v@.len() ==> #[trigger] v@[i].1@.escribible(),
    decreases combustible, 1int,
{
    let mut miembros: Vec<(String, ValorJson)> = Vec::new();
    let mut i: usize = 0;
    assert(vistas_pares(miembros@) =~= Seq::<(Seq<char>, Json)>::empty());
    while i < ps.len()
        invariant
            i <= ps@.len(),
            sesion.entorno() == old(sesion).entorno(),
            pares(
                ps@,
                0,
                Seq::empty(),
                combustible as nat,
                old(sesion).entorno(),
                old(sesion).estado(*old(ambito)),
            ) == pares(
                ps@,
                i as nat,
                vistas_pares(miembros@),
                combustible as nat,
                sesion.entorno(),
                sesion.estado(*ambito),
            ),
            forall|k: int| 0 <= k < miembros@.len() ==> #[trigger] miembros@[k].1@.escribible(),
        decreases ps@.len() - i,
    {
        let ghost previos = vistas_pares(miembros@);
        let par = &ps[i];
        let k = match evaluar_expresion(&par.0, ambito, sesion, combustible) {
            Ok(v) => v,
            Err(c) => return Err(c),
        };
        let v = match evaluar_expresion(&par.1, ambito, sesion, combustible) {
            Ok(v) => v,
            Err(c) => return Err(c),
        };
        let nombre = match k.to_display(sesion) {
            Ok(t) => t,
            Err(c) => return Err(c),
        };
        let j = v.to_json_value();
        miembros.push((nombre, j));
        assert(vistas_pares(miembros@) =~= previos.push((nombre@, j@)));
        i = i + 1;
    }
    Ok(miembros)
}

/// Writes values as a JSON array.
fn escribir_lista(valores: &Vec<ValorGUI>, sesion: &mut Sesion) -> (r: Result<ValorGUI, Corte>)
    ensures
        final(sesion).salvo_consultas(*old(sesion)),
        (vista_resultado(r), final(sesion).usadas as nat) == arreglo_escrito(
            todos_a_json(vistas(valores@)),
            old(sesion).respuestas@,
            old(sesion).usadas as nat,
        ),
        !hay_decimal(todos_a_json(vistas(valores@))) ==> se_lee_como(
            vista_resultado(r),
            todos_a_json(vistas(valores@)),
        ),
{
    let mut elementos: Vec<ValorJson> = Vec::new();
    let mut i: usize = 0;
    while i < valores.len()
        invariant
            i <= valores@.len(),
            elementos@.len() == i,
            *sesion == *old(sesion),
            forall|k: int|
                0 <= k < i ==> #[trigger] elementos@[k]@ == a_json(valores@[k]@),
        decreases valores@.len() - i,
    {
        elementos.push(valores[i].to_json_value());
        i = i + 1;
    }
    assert(crate::json::vistas_json(elementos@) =~= todos_a_json(vistas(valores@)));
    escribir_valores(elementos, sesion)
}

/// Whether an array that was evaluated reads back as the values of its elements,
/// where there are no decimals among them. Those are values that the language
/// has, and no more than an index reaches.
pub open spec fn arreglo_legible(
    expr: Expresion,
    n: nat,
    env: Entorno,
    st: Estado,
    r: Result<Valor, Interrupcion>,
) -> bool {
    match expr {
        Expresion::Arreglo(elementos) => match lista(
            elementos@,
            0,
            Seq::empty(),
            (n - 1) as nat,
            env,
            st,
        ).0 {
            Ok(vs) => n > 0 ==> {
                &&& !hay_decimal(todos_a_json(vs)) ==> se_lee_como(r, todos_a_json(vs))
                &&& vs.len() <= usize::MAX
                &&& forall|i: int| 0 <= i < vs.len() ==> del_lenguaje(#[trigger] vs[i])
            },
            Err(_) => true,
        },
        _ => true,
    }
}

/// Whether an index into an array gives the element in its place, where there
/// are no decimals in the array.
pub open spec fn indice_legible(
    expr: Expresion,
    n: nat,
    env: Entorno,
    st: Estado,
    r: Result<Valor, Interrupcion>,
) -> bool {
    match expr {
        Expresion::Index { objeto, indice } => match *objeto {
            Expresion::Arreglo(es) => match lista(
                es@,
                0,
                Seq::empty(),
                (n - 2) as nat,
                env,
                st,
            ) {
                (Ok(vs), s) => match expresion(*indice, (n - 1) as nat, env, s).0 {
                    Ok(Valor::Entero(k)) => n >= 2 && !hay_decimal(todos_a_json(vs)) && 0 <= k
                        < vs.len() ==> r == Ok::<Valor, Interrupcion>(guardado(vs[k])),
                    _ => true,
                },
                _ => true,
            },
            _ => true,
        },
        _ => true,
    }
}

/// What an index into an array gives follows from how the array reads back.
proof fn lema_indice_legible(
    objeto: Expresion,
    expr: Expresion,
    n: nat,
    env: Entorno,
    st: Estado,
)
    requires
        n > 0,
        expr matches Expresion::Index { objeto: o, .. } && *o == objeto,
        arreglo_legible(
            objeto,
            (n - 1) as nat,
            env,
            st,
            expresion(objeto, (n - 1) as nat, env, st).0,
        ),
    ensures
        indice_legible(expr, n, env, st, expresion(expr, n, env, st).0),
{
    if let Expresion::Index { indice, .. } = expr {
        if let Expresion::Arreglo(es) = objeto {
            if n >= 2 {
                let m = (n - 1) as nat;
                if let (Ok(vs), s) = lista(es@, 0, Seq::empty(), (n - 2) as nat, env, st) {
                    let js = todos_a_json(vs);
                    if !hay_decimal(js) {
                        let t = expresion(objeto, m, env, st).0->Ok_0->Texto_0;
                        assert(expresion(objeto, m, env, st) == (
                            Ok::<Valor, Interrupcion>(Valor::Texto(t)),
                            s,
                        ));
                        let (i, w) = expresion(*indice, m, env, s);
                        if let Ok(Valor::Entero(k)) = i {
                            if 0 <= k < vs.len() {
                                ley_indice_de_arreglo(t, js, k, env.respuestas, w.usadas);
                                ley_ida_y_vuelta(vs[k]);
                                assert(js[k] == a_json(vs[k]));
                            }
                        }
                    }
                }
            }
        }
    }
}

/// Evaluates an expression.
pub fn evaluar_expresion(
    expr: &Expresion,
    ambito: &mut Ambito,
    sesion: &mut Sesion,
    combustible: u64,
) -> (r: Result<ValorGUI, Corte>)
    ensures
        final(sesion).entorno() == old(sesion).entorno(),
        (vista_resultado(r), final(sesion).estado(*final(ambito))) == expresion(
            *expr,
            combustible as nat,
            old(sesion).entorno(),
            old(sesion).estado(*old(ambito)),
        ),
        arreglo_legible(
            *expr,
            combustible as nat,
            old(sesion).entorno(),
            old(sesion).estado(*old(ambito)),
            vista_resultado(r),
        ),
        indice_legible(
            *expr,
            combustible as nat,
            old(sesion).entorno(),
            old(sesion).estado(*old(ambito)),
            vista_resultado(r),
        ),
    decreases combustible, 0int,
{
    if combustible == 0 {
        return Err(Corte::Agotado);
    }
    let resto = combustible - 1;
    match expr {
        Expresion::LiteralNumero(k) => Ok(ValorGUI::Entero(*k)),
        Expresion::LiteralDecimal(d) => Ok(ValorGUI::Decimal(*d)),
        Expresion::LiteralTexto(t) => Ok(ValorGUI::Texto(t.clone())),
        Expresion::LiteralBooleano(b) => Ok(ValorGUI::Booleano(*b)),
        Expresion::LiteralNulo => Ok(ValorGUI::Nulo),
        Expresion::Identificador { nombre } => leer(nombre, ambito, sesion),
        Expresion::Binaria { izquierda, operador, derecha } => {
            let izq = match evaluar_expresion(izquierda, ambito, sesion, resto) {
                Ok(v) => v,
                Err(c) => return Err(c),
            };
            let der = match evaluar_expresion(derecha, ambito, sesion, resto) {
                Ok(v) => v,
                Err(c) => return Err(c),
            };
            evaluar_binaria(izq, operador, der, sesion)
        },
        Expresion::Unaria { operador, expr: inner } => {
            let v = match evaluar_expresion(inner, ambito, sesion, resto) {
                Ok(v) => v,
                Err(c) => return Err(c),
            };
            evaluar_unaria(operador, v)
        },
        Expresion::LlamadaFuncion { nombre, argumentos, .. } => {
            let args = match evaluar_lista(argumentos, ambito, sesion, resto) {
                Ok(v) => v,
                Err(c) => return Err(c),
            };
            ejecutar_funcion(nombre.as_str(), &args, sesion, resto)
        },
        Expresion::AccesoMiembro { objeto, miembro } => {
            let v = match evaluar_expresion(objeto, ambito, sesion, resto) {
                Ok(v) => v,
                Err(c) => return Err(c),
            };
            leer_miembro(&v, miembro, ambito, sesion)
        },
        Expresion::Grupo(inner) => evaluar_expresion(inner, ambito, sesion, resto),
        Expresion::Asignacion { variable, valor } => {
            let v = match evaluar_expresion(valor, ambito, sesion, resto) {
                Ok(v) => v,
                Err(c) => return Err(c),
            };
            escribir(variable, &v, ambito, sesion);
            Ok(v)
        },
        Expresion::Arreglo(elementos) => {
            let valores = match evaluar_lista(elementos, ambito, sesion, resto) {
                Ok(v) => v,
                Err(c) => return Err(c),
            };
            escribir_lista(&valores, sesion)
        },
        Expresion::Mapa(ps) => {
            let miembros = match evaluar_pares(ps, ambito, sesion, resto) {
                Ok(v) => v,
                Err(c) => return Err(c),
            };
            escribir_pares(miembros, sesion)
        },
        Expresion::Correcto(inner) => evaluar_expresion(inner, ambito, sesion, resto),
        Expresion::Error(inner) => {
            let v = match evaluar_expresion(inner, ambito, sesion, resto) {
                Ok(v) => v,
                Err(c) => return Err(c),
            };
            match v.to_display(sesion) {
                Ok(t) => {
                    let mut texto = "Error: ".to_string();
                    texto.append(t.as_str());
                    Err(Corte::Error(texto))
                },
                Err(c) => Err(c),
            }
        },
        Expresion::Algo(inner) => evaluar_expresion(inner, ambito, sesion, resto),
        Expresion::Referencia { expr: inner } => evaluar_expresion(inner, ambito, sesion, resto),
        Expresion::Index { objeto, indice } => {
            let obj = evaluar_expresion(objeto, ambito, sesion, resto);
            proof {
                lema_indice_legible(
                    **objeto,
                    *expr,
                    combustible as nat,
                    old(sesion).entorno(),
                    old(sesion).estado(*old(ambito)),
                );
            }
            let obj = match obj {
                Ok(v) => v,
                Err(c) => return Err(c),
            };
            let idx = match evaluar_expresion(indice, ambito, sesion, resto) {
                Ok(v) => v,
                Err(c) => return Err(c),
            };
            indexar(obj, idx, sesion)
        },
        Expresion::Closure => Err(
            Corte::Error("Closures no soportados en WASM GUI".to_string()),
        ),
        Expresion::Hilo => Err(Corte::Error("Hilos no soportados en WASM GUI".to_string())),
        Expresion::CanalNuevo => Err(
            Corte::Error("Canales no soportados en WASM GUI".to_string()),
        ),
        Expresion::Seleccionar => Err(
            Corte::Error("Seleccionar no soportado en WASM GUI".to_string()),
        ),
        Expresion::Try(inner) => {
            let v = match evaluar_expresion(inner, ambito, sesion, resto) {
                Ok(v) => v,
                Err(c) => return Err(c),
            };
            if v.es_nulo() {
                Err(Corte::Error("Error propagado?".to_string()))
            } else {
                Ok(v)
            }
        },
        Expresion::Resultado => Ok(ValorGUI::Nulo),
        Expresion::Anterior(inner) => evaluar_expresion(inner, ambito, sesion, resto),
        Expresion::Instanciacion => Err(
            Corte::Error("Instanciación no soportada en WASM GUI".to_string()),
        ),
        Expresion::LiteralExacto => Err(Corte::Error("Literal exacto no soportado".to_string())),
        Expresion::AsignacionCampo => Err(
            Corte::Error("Asignación de campo no soportada".to_string()),
        ),
        Expresion::ArraySet => Err(Corte::Error("ArraySet no soportado".to_string())),
        Expresion::Coincidir => Err(Corte::Error("Match no soportado en WASM GUI".to_string())),
    }
}

/// Calls the first function of that name.
pub fn ejecutar_funcion(
    nombre: &str,
    args: &Vec<ValorGUI>,
    sesion: &mut Sesion,
    combustible: u64,
) -> (r: Result<ValorGUI, Corte>)
    ensures
        final(sesion).entorno() == old(sesion).entorno(),
        (vista_resultado(r), final(sesion).store@, final(sesion).usadas as nat) == llamada(
            nombre@,
            vistas(args@),
            combustible as nat,
            old(sesion).entorno(),
            old(sesion).store@,
            old(sesion).usadas as nat,
        ),
    decreases combustible, 0int,
{
    if combustible == 0 {
        return Err(Corte::Agotado);
    }
    let func = match buscar_funcion(nombre, sesion.declaraciones) {
        Ok(d) => d,
        Err(t) => return Err(Corte::Error(t)),
    };
    match func {
        Declaracion::Funcion { parametros, cuerpo, .. } => {
            let mut propio = ligar(parametros, args, sesion);
            evaluar_bloque(cuerpo, &mut propio, sesion, combustible - 1)
        },
        _ => Err(Corte::Error(unir("'", nombre, "' no es una función"))),
    }
}

/// Evaluates the declarations of a block, up to the first "return" among them.
pub fn evaluar_bloque(
    ds: &Vec<Declaracion>,
    ambito: &mut Ambito,
    sesion: &mut Sesion,
    combustible: u64,
) -> (r: Result<ValorGUI, Corte>)
    ensures
        final(sesion).entorno() == old(sesion).entorno(),
        (vista_resultado(r), final(sesion).estado(*final(ambito))) == bloque(
            ds@,
            0,
            combustible as nat,
            old(sesion).entorno(),
            old(sesion).estado(*old(ambito)),
        ),
    decreases combustible, 1int,
{
    let mut i: usize = 0;
    while i < ds.len()
        invariant
            i <= ds@.len(),
            sesion.entorno() == old(sesion).entorno(),
            bloque(
                ds@,
                0,
                combustible as nat,
                old(sesion).entorno(),
                old(sesion).estado(*old(ambito)),
            ) == bloque(
                ds@,
                i as nat,
                combustible as nat,
                sesion.entorno(),
                sesion.estado(*ambito),
            ),
        decreases ds@.len() - i,
    {
        let v = match evaluar_declaracion(&ds[i], ambito, sesion, combustible) {
            Ok(v) => v,
            Err(c) => return Err(c),
        };
        if es_retorno(&ds[i]) {
            return Ok(v);
        }
        i = i + 1;
    }
    Ok(ValorGUI::Nulo)
}

/// Evaluates a block if a condition holds, else another one, if there is one.
fn evaluar_condicional(
    condicion: &Expresion,
    si: &Vec<Declaracion>,
    sino: Option<&Vec<Declaracion>>,
    ambito: &mut Ambito,
    sesion: &mut Sesion,
    combustible: u64,
) -> (r: Result<ValorGUI, Corte>)
    ensures
        final(sesion).entorno() == old(sesion).entorno(),
        (vista_resultado(r), final(sesion).estado(*final(ambito))) == condicional(
            *condicion,
            si@,
            match sino {
                Some(ds) => Some(ds@),
                None => None,
            },
            combustible as nat,
            old(sesion).entorno(),
            old(sesion).estado(*old(ambito)),
        ),
    decreases combustible, 2int,
{
    let v = match evaluar_expresion(condicion, ambito, sesion, combustible) {
        Ok(v) => v,
        Err(c) => return Err(c),
    };
    if v.es_verdadero() {
        evaluar_bloque(si, ambito, sesion, combustible)
    } else {
        match sino {
            Some(ds) => evaluar_bloque(ds, ambito, sesion, combustible),
            None => Ok(ValorGUI::Nulo),
        }
    }
}

/// Evaluates a declaration.
pub fn evaluar_declaracion(
    decl: &Declaracion,
    ambito: &mut Ambito,
    sesion: &mut Sesion,
    combustible: u64,
) -> (r: Result<ValorGUI, Corte>)
    ensures
        final(sesion).entorno() == old(sesion).entorno(),
        (vista_resultado(r), final(sesion).estado(*final(ambito))) == declaracion(
            *decl,
            combustible as nat,
            old(sesion).entorno(),
            old(sesion).estado(*old(ambito)),
        ),
    decreases combustible, 0int,
{
    if combustible == 0 {
        return Err(Corte::Agotado);
    }
    let resto = combustible - 1;
    match decl {
        Declaracion::Retornar { valor } => match valor {
            Some(e) => evaluar_expresion(e, ambito, sesion, resto),
            None => Ok(ValorGUI::Nulo),
        },
        Declaracion::Si { condicion, bloque_verdadero, bloque_falso } => {
            let sino = match bloque_falso {
                Some(ds) => Some(ds),
                None => None,
            };
            evaluar_condicional(condicion, bloque_verdadero, sino, ambito, sesion, resto)
        },
        Declaracion::Mientras { condicion, bloque: ds } => evaluar_ciclo(
            Some(condicion),
            ds,
            None,
            ambito,
            sesion,
            resto,
        ),
        Declaracion::Variable { nombre, valor } => {
            let v = match valor {
                Some(e) => match evaluar_expresion(e, ambito, sesion, resto) {
                    Ok(v) => v,
                    Err(c) => return Err(c),
                },
                None => ValorGUI::Nulo,
            };
            escribir(nombre, &v, ambito, sesion);
            Ok(ValorGUI::Nulo)
        },
        Declaracion::Asignacion { nombre, valor } => {
            let v = match evaluar_expresion(valor, ambito, sesion, resto) {
                Ok(v) => v,
                Err(c) => return Err(c),
            };
            escribir(nombre, &v, ambito, sesion);
            Ok(ValorGUI::Nulo)
        },
        Declaracion::LlamadaFuncion { nombre, argumentos, .. } => {
            let args = match evaluar_lista(argumentos, ambito, sesion, resto) {
                Ok(v) => v,
                Err(c) => return Err(c),
            };
            ejecutar_funcion(nombre.as_str(), &args, sesion, resto)
        },
        Declaracion::Expresion(e) => match evaluar_expresion(e, ambito, sesion, resto) {
            Ok(_) => Ok(ValorGUI::Nulo),
            Err(c) => Err(c),
        },
        Declaracion::Para { inicializacion, condicion, incremento, bloque: ds } => {
            if let Some(inicio) = inicializacion {
                match evaluar_declaracion(inicio, ambito, sesion, resto) {
                    Ok(_) => {},
                    Err(c) => return Err(c),
                }
            }
            let cond = match condicion {
                Some(e) => Some(e),
                None => None,
            };
            let paso = match incremento {
                Some(inc) => Some(&**inc),
                None => None,
            };
            evaluar_ciclo(cond, ds, paso, ambito, sesion, resto)
        },
        Declaracion::Cuando { condicion, cuerpo } => evaluar_condicional(
            condicion,
            cuerpo,
            None,
            ambito,
            sesion,
            resto,
        ),
        _ => Ok(ValorGUI::Nulo),
    }
}

/// Evaluates a loop.
fn evaluar_ciclo(
    condicion: Option<&Expresion>,
    ds: &Vec<Declaracion>,
    paso: Option<&Declaracion>,
    ambito: &mut Ambito,
    sesion: &mut Sesion,
    combustible: u64,
) -> (r: Result<ValorGUI, Corte>)
    ensures
        final(sesion).entorno() == old(sesion).entorno(),
        (vista_resultado(r), final(sesion).estado(*final(ambito))) == ciclo(
            match condicion {
                Some(e) => Some(*e),
                None => None,
            },
            ds@,
            match paso {
                Some(d) => Some(*d),
                None => None,
            },
            combustible as nat,
            old(sesion).entorno(),
            old(sesion).estado(*old(ambito)),
        ),
    decreases combustible, 0int,
{
    let ghost c0 = match condicion {
        Some(e) => Some(*e),
        None => None,
    };
    let ghost p0 = match paso {
        Some(d) => Some(*d),
        None => None,
    };
    let mut queda: u64 = combustible;
    while queda > 0
        invariant
            queda <= combustible,
            sesion.entorno() == old(sesion).entorno(),
            c0 == (match condicion {
                Some(e) => Some(*e),
                None => None,
            }),
            p0 == (match paso {
                Some(d) => Some(*d),
                None => None,
            }),
            ciclo(
                c0,
                ds@,
                p0,
                combustible as nat,
                old(sesion).entorno(),
                old(sesion).estado(*old(ambito)),
            ) == ciclo(c0, ds@, p0, queda as nat, sesion.entorno(), sesion.estado(*ambito)),
        decreases queda,
    {
        queda = queda - 1;
        if let Some(e) = condicion {
            match evaluar_expresion(e, ambito, sesion, queda) {
                Ok(v) => {
                    if !v.es_verdadero() {
                        return Ok(ValorGUI::Nulo);
                    }
                },
                Err(c) => return Err(c),
            }
        }
        match evaluar_bloque(ds, ambito, sesion, queda) {
            Ok(v) => {
                if !v.es_nulo() {
                    return Ok(v);
                }
            },
            Err(c) => return Err(c),
        }
        if let Some(d) = paso {
            match evaluar_declaracion(d, ambito, sesion, queda) {
                Ok(_) => {},
                Err(c) => return Err(c),
            }
        }
    }
    Err(Corte::Agotado)
}

/// What a run without a value, or the reason why it stopped, stands for.
pub open spec fn vista_fin(r: Result<(), Corte>) -> Result<(), Interrupcion> {
    match r {
        Ok(_) => Ok(()),
        Err(c) => Err(c@),
    }
}

/// The value that a variable of `main` starts with.
fn evaluar_inicial(
    valor: &Option<Expresion>,
    ambito: &mut Ambito,
    sesion: &mut Sesion,
    combustible: u64,
) -> (r: Result<ValorGUI, Corte>)
    ensures
        final(sesion).entorno() == old(sesion).entorno(),
        (vista_resultado(r), final(sesion).estado(*final(ambito))) == valor_inicial(
            *valor,
            combustible as nat,
            old(sesion).entorno(),
            old(sesion).estado(*old(ambito)),
        ),
{
    match valor {
        Some(e) => match e {
            Expresion::LiteralNumero(k) => Ok(ValorGUI::Entero(*k)),
            Expresion::LiteralDecimal(d) => Ok(ValorGUI::Decimal(*d)),
            Expresion::LiteralTexto(t) => Ok(ValorGUI::Texto(t.clone())),
            Expresion::LiteralBooleano(b) => Ok(ValorGUI::Booleano(*b)),
            Expresion::LiteralNulo => Ok(ValorGUI::Nulo),
            _ => match evaluar_expresion(e, ambito, sesion, combustible) {
                Err(Corte::Error(_)) => Ok(ValorGUI::Nulo),
                otro => otro,
            },
        },
        None => Ok(ValorGUI::Nulo),
    }
}

/// Sets up the variables that the program's `main` declares.
pub fn inicializar_estado(sesion: &mut Sesion, combustible: u64) -> (r: Result<(), Corte>)
    ensures
        final(sesion).entorno() == old(sesion).entorno(),
        ({
            let p = inicio(
                combustible as nat,
                old(sesion).entorno(),
                old(sesion).store@,
                old(sesion).usadas as nat,
            );
            vista_fin(r) == p.0 && final(sesion).store@ == p.1.almacen && final(sesion).usadas
                == p.1.usadas
        }),
{
    let cuerpo = match buscar_funcion("main", sesion.declaraciones) {
        Ok(Declaracion::Funcion { cuerpo, .. }) => cuerpo,
        _ => return Ok(()),
    };
    let mut ambito = Ambito::new();
    let mut i: usize = 0;
    while i < cuerpo.len()
        invariant
            i <= cuerpo@.len(),
            sesion.entorno() == old(sesion).entorno(),
            inicio(
                combustible as nat,
                old(sesion).entorno(),
                old(sesion).store@,
                old(sesion).usadas as nat,
            ) == iniciadas(
                cuerpo@,
                i as nat,
                combustible as nat,
                sesion.entorno(),
                sesion.estado(ambito),
            ),
        decreases cuerpo@.len() - i,
    {
        if let Declaracion::Variable { nombre, valor } = &cuerpo[i] {
            let v = match evaluar_inicial(valor, &mut ambito, sesion, combustible) {
                Ok(v) => v,
                Err(c) => return Err(c),
            };
            escribir(nombre, &v, &mut ambito, sesion);
        }
        i = i + 1;
    }
    Ok(())
}

} // verus!
