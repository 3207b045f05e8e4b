//! What a click reaches and does, and what the page is told.

use vstd::prelude::*;

use crate::ast::Declaracion;
use crate::decimal::Decimal;
use crate::json::Json;
use crate::layout::Diseno;
use crate::leyes_gui::{ley_click_encima, ley_click_fuera};
use crate::leyes_numeros::{ley_orden_de_los_numeros, unidades};
use crate::leyes_programas::ley_llamada_sin_funcion;
use crate::semantica::llamada;
use crate::sesion::{Entorno, Interrupcion};
use crate::ventana::{click, efecto, enumerados, tocada, Zona};

verus! {

// ---------------------------------------------------------------------------
// Edges
// ---------------------------------------------------------------------------

/// Whether a point is past one of the four edges of an area.
pub open spec fn pasa_un_borde(z: Zona, x: Decimal, y: Decimal) -> bool {
    ||| x.menor_spec(z.x)
    ||| z.derecha.menor_spec(x)
    ||| y.menor_spec(z.y)
    ||| z.abajo.menor_spec(y)
}

/// Whether the edges of an area are numbers.
pub open spec fn con_bordes(z: Zona) -> bool {
    &&& !z.x.no_es_numero()
    &&& !z.derecha.no_es_numero()
    &&& !z.y.no_es_numero()
    &&& !z.abajo.no_es_numero()
}

/// A point is in an area exactly where it is past none of its four edges; the edges
/// themselves are in it. Nothing is in an area with an edge that is no number, and
/// no area has a point that is none. In plain numbers: `x` is from the left edge to
/// the right one and `y` from the upper edge to the lower one.
pub proof fn ley_bordes(z: Zona, x: Decimal, y: Decimal)
    ensures
        pasa_un_borde(z, x, y) ==> !z.contiene_spec(x, y),
        x.no_es_numero() || y.no_es_numero() || !con_bordes(z) ==> !z.contiene_spec(x, y),
        !x.no_es_numero() && !y.no_es_numero() && con_bordes(z) ==> z.contiene_spec(x, y)
            == !pasa_un_borde(z, x, y),
        x.finito() && y.finito() && z.x.finito() && z.y.finito() && z.derecha.finito()
            && z.abajo.finito() ==> {
            z.contiene_spec(x, y) <==> {
                &&& unidades(z.x) <= unidades(x) <= unidades(z.derecha)
                &&& unidades(z.y) <= unidades(y) <= unidades(z.abajo)
            }
        },
{
    ley_orden_de_los_numeros(z.x, x);
    ley_orden_de_los_numeros(x, z.derecha);
    ley_orden_de_los_numeros(z.y, y);
    ley_orden_de_los_numeros(y, z.abajo);
}

/// A click past an edge of every area leaves the variables as they were and logs
/// nothing.
pub proof fn ley_click_pasa_los_bordes(
    x: Decimal,
    y: Decimal,
    areas: Seq<Zona>,
    n: nat,
    env: Entorno,
    almacen: Map<Seq<char>, Json>,
)
    requires
        forall|i: int| 0 <= i < areas.len() ==> pasa_un_borde(#[trigger] areas[i], x, y),
    ensures
        click(x, y, areas, n, env, almacen) == (
            Ok::<Seq<Seq<char>>, Interrupcion>(Seq::empty()),
            almacen,
        ),
{
    assert forall|i: int| 0 <= i < areas.len() implies !(#[trigger] areas[i]).contiene_spec(
        x,
        y,
    ) by {
        ley_bordes(areas[i], x, y);
    }
    ley_click_fuera(x, y, areas, n, env, almacen);
}

/// A click inside the four edges of an area, and past an edge of each area drawn
/// after it, does what a click on its widget does.
pub proof fn ley_click_entre_los_bordes(
    x: Decimal,
    y: Decimal,
    areas: Seq<Zona>,
    i: int,
    n: nat,
    env: Entorno,
    almacen: Map<Seq<char>, Json>,
)
    requires
        env.declaraciones.len() > 0,
        0 <= i < areas.len(),
        !x.no_es_numero(),
        !y.no_es_numero(),
        con_bordes(areas[i]),
        !pasa_un_borde(areas[i], x, y),
        forall|k: int| i < k < areas.len() ==> pasa_un_borde(#[trigger] areas[k], x, y),
    ensures
        click(x, y, areas, n, env, almacen) == efecto(areas[i].layout, n, env, almacen),
{
    ley_bordes(areas[i], x, y);
    assert forall|k: int| i < k < areas.len() implies !(#[trigger] areas[k]).contiene_spec(
        x,
        y,
    ) by {
        ley_bordes(areas[k], x, y);
    }
    ley_click_encima(x, y, areas, i, n, env, almacen);
}

/// An area drawn later takes the clicks on it from those drawn before, and no
/// others.
pub proof fn ley_una_area_mas(areas: Seq<Zona>, z: Zona, x: Decimal, y: Decimal)
    ensures
        ({
            let mas = areas.push(z);
            tocada(mas, mas.len(), x, y) == (if z.contiene_spec(x, y) {
                Some(z.layout)
            } else {
                tocada(areas, areas.len(), x, y)
            })
        }),
{
    lema_primeras_areas(areas, z, areas.len(), x, y);
    assert(areas.push(z)[areas.len() as int] == z);
}

proof fn lema_primeras_areas(areas: Seq<Zona>, z: Zona, k: nat, x: Decimal, y: Decimal)
    requires
        k <= areas.len(),
    ensures
        tocada(areas.push(z), k, x, y) == tocada(areas, k, x, y),
    decreases k,
{
    if k > 0 {
        assert(areas.push(z)[k - 1] == areas[k - 1]);
        lema_primeras_areas(areas, z, (k - 1) as nat, x, y);
    }
}

// ---------------------------------------------------------------------------
// Effects
// ---------------------------------------------------------------------------

/// A click on a button does to the variables what a call of its function without
/// arguments does, whatever the button's text, also where the call fails. It logs
/// two texts, the second with the outcome.
pub proof fn ley_click_en_boton(
    texto: Seq<char>,
    otro: Seq<char>,
    callback: Seq<char>,
    n: nat,
    env: Entorno,
    almacen: Map<Seq<char>, Json>,
)
    requires
        callback.len() > 0,
    ensures
        ({
            let (r, a) = efecto(Diseno::Button { texto, callback }, n, env, almacen);
            let (v, b, _) = llamada(callback, Seq::empty(), n, env, almacen, 0);
            let sigue = v is Ok || v->Err_0 is Error;
            &&& efecto(Diseno::Button { texto: otro, callback }, n, env, almacen) == (r, a)
            &&& r is Ok == sigue
            &&& sigue ==> a == b && r->Ok_0.len() == 2
            &&& sigue ==> r->Ok_0[0] == "Click en botón, callback: "@ + callback
            &&& v is Ok ==> r->Ok_0[1] == "Callback '"@ + callback + "' ejecutado OK"@
            &&& v is Err && v->Err_0 is Error ==> r->Ok_0[1] == "Error en callback '"@ + callback
                + "': "@ + v->Err_0->Error_0
            &&& !sigue ==> a == almacen && r->Err_0 == v->Err_0
        }),
{
}

/// A click on a button whose function the program does not have changes no variable
/// and logs that there is no such function.
pub proof fn ley_click_sin_declaracion(
    texto: Seq<char>,
    callback: Seq<char>,
    n: nat,
    env: Entorno,
    almacen: Map<Seq<char>, Json>,
)
    requires
        callback.len() > 0,
        n > 0,
        forall|j: int|
            0 <= j < env.declaraciones.len() ==> !(#[trigger] env.declaraciones[j] matches
                Declaracion::Funcion { nombre: f, .. } && f@ == callback),
    ensures
        ({
            let (r, a) = efecto(Diseno::Button { texto, callback }, n, env, almacen);
            &&& a == almacen
            &&& r is Ok && r->Ok_0.len() == 2
            &&& r->Ok_0[1] == "Error en callback '"@ + callback + "': "@ + ("Función '"@ + callback
                + "' no encontrada"@)
        }),
{
    ley_llamada_sin_funcion(callback, Seq::empty(), (n - 1) as nat, env, almacen, 0);
}

/// A click on anything but a button with a function changes no variable and asks
/// nothing of the host. Only one on a text field logs something: the name of its
/// variable.
pub proof fn ley_click_en_otros(
    widget: Diseno,
    n: nat,
    env: Entorno,
    almacen: Map<Seq<char>, Json>,
)
    requires
        widget is Button ==> widget->Button_callback.len() == 0,
    ensures
        ({
            let (r, a) = efecto(widget, n, env, almacen);
            &&& a == almacen
            &&& r is Ok
            &&& widget is TextInput ==> r->Ok_0 == seq![
                "Click en TextInput '"@ + widget->TextInput_variable + "'"@,
            ]
            &&& !(widget is TextInput) ==> r->Ok_0.len() == 0
        }),
{
}

/// A click in a window without a program does nothing, wherever it is.
pub proof fn ley_click_sin_programa(
    x: Decimal,
    y: Decimal,
    areas: Seq<Zona>,
    n: nat,
    env: Entorno,
    almacen: Map<Seq<char>, Json>,
)
    requires
        env.declaraciones.len() == 0,
    ensures
        click(x, y, areas, n, env, almacen) == (
            Ok::<Seq<Seq<char>>, Interrupcion>(Seq::empty()),
            almacen,
        ),
{
}

// ---------------------------------------------------------------------------
// Messages
// ---------------------------------------------------------------------------

/// Texts in a row: none is the empty text, one is itself, and a first text goes
/// before the others with a semicolon and a space between.
pub proof fn ley_textos_en_fila(t: Seq<char>, ts: Seq<Seq<char>>)
    ensures
        enumerados(ts, 0) == Seq::<char>::empty(),
        enumerados(seq![t], 1) == t,
        ts.len() > 0 ==> enumerados(seq![t] + ts, ts.len() + 1) == t + seq![';', ' '] + enumerados(
            ts,
            ts.len(),
        ),
{
    reveal_strlit("");
    if ts.len() > 0 {
        lema_un_texto_antes(t, ts, ts.len());
    }
}

proof fn lema_un_texto_antes(t: Seq<char>, ts: Seq<Seq<char>>, k: nat)
    requires
        0 < k <= ts.len(),
    ensures
        enumerados(seq![t] + ts, k + 1) == t + seq![';', ' '] + enumerados(ts, k),
    decreases k,
{
    reveal_strlit("; ");
    let us = seq![t] + ts;
    assert(us[0] == t);
    assert(us[k as int] == ts[k - 1]);
    assert("; "@ =~= seq![';', ' ']);
    if k > 1 {
        lema_un_texto_antes(t, ts, (k - 1) as nat);
        assert(enumerados(us, k + 1) =~= t + seq![';', ' '] + enumerados(ts, k));
    } else {
        assert(enumerados(us, 1) == t);
        assert(enumerados(us, 2) == enumerados(us, 1) + "; "@ + us[1]);
    }
}

} // verus!
