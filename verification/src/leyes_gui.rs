//! What holds of layouts, drawings and clicks.

use vstd::prelude::*;
use vstd::utf8::is_ascii_chars;

use crate::ast::{Declaracion, Expresion};
use crate::avance::ley_llamada_avanza;
use crate::constancia::{amplia, ley_llamada_constante};
use crate::decimal::Decimal;
use crate::dibujo::{
    boton, campo, columna, contorno, fila, pila, texto_de_valor, texto_de_variable,
    trazado,
};
use crate::json::{guardado, Json};
use crate::layout::{
    clase, diseno_de, diseno_de_programa, disenos_de, primer_diseno, Clase, Diseno,
};
use crate::leyes::ley_ida_y_vuelta;
use crate::lienzo::{largo_de_texto, Formula, Lienzo, TextoVista, Trazo};
use crate::operaciones::mostrado;
use crate::semantica::escrita;
use crate::sesion::{Entorno, Estado, Interrupcion, Respuesta};
use crate::valor::{del_lenguaje, Valor};
use crate::ventana::{click, efecto, fondo, pantalla, tocada, zonas_marcadas, Zona};

verus! {

// ---------------------------------------------------------------------------
// Layouts
// ---------------------------------------------------------------------------

/// Every call stands for a widget, also one of an unknown name. Names of the
/// same kind make the same widget.
pub proof fn ley_toda_llamada_es_widget(
    nombre: String,
    otro: String,
    argumentos: Vec<Expresion>,
    depuracion: String,
)
    ensures
        diseno_de(Expresion::LlamadaFuncion { nombre, argumentos, depuracion }) is Some,
        clase(nombre@) == clase(otro@) && clase(nombre@) != Clase::Desconocida ==> diseno_de(
            Expresion::LlamadaFuncion { nombre, argumentos, depuracion },
        ) == diseno_de(Expresion::LlamadaFuncion { nombre: otro, argumentos, depuracion }),
{
}

/// Whether a declaration is a function `main` with a widget in it.
pub open spec fn da_layout(d: Declaracion) -> bool {
    d matches Declaracion::Funcion { nombre, cuerpo, .. } && nombre@ == "main"@ && primer_diseno(
        cuerpo@,
        0,
    ) is Some
}

/// A program without a function `main`, or with no widget in it, has an empty
/// column for its layout.
pub proof fn ley_sin_layout(ds: Seq<Declaracion>)
    requires
        forall|i: int| 0 <= i < ds.len() ==> !da_layout(#[trigger] ds[i]),
    ensures
        diseno_de_programa(ds, 0) == (Diseno::Column {
            children: Seq::empty(),
            gap: Decimal { bits: 0 },
        }),
{
    lema_sin_layout(ds, 0);
}

proof fn lema_sin_layout(ds: Seq<Declaracion>, i: nat)
    requires
        forall|k: int| 0 <= k < ds.len() ==> !da_layout(#[trigger] ds[k]),
    ensures
        diseno_de_programa(ds, i) == (Diseno::Column {
            children: Seq::empty(),
            gap: Decimal { bits: 0 },
        }),
    decreases ds.len() - i,
{
    if i < ds.len() {
        assert(!da_layout(ds[i as int]));
        lema_sin_layout(ds, i + 1);
    }
}

/// The children of a container are those of its first arguments, then those of
/// the others.
pub proof fn ley_hijos_en_orden(a: Seq<Expresion>, b: Seq<Expresion>)
    ensures
        disenos_de(a + b) == disenos_de(a) + disenos_de(b),
    decreases b.len(),
{
    let ab = a + b;
    if b.len() == 0 {
        assert(ab =~= a);
        assert(disenos_de(a) + disenos_de(b) =~= disenos_de(a));
    } else {
        let b0 = b.subrange(0, b.len() - 1);
        assert(ab.subrange(0, ab.len() - 1) =~= a + b0);
        assert(ab[ab.len() - 1] == b[b.len() - 1]);
        ley_hijos_en_orden(a, b0);
        assert(disenos_de(ab) =~= disenos_de(a) + disenos_de(b));
    }
}

// ---------------------------------------------------------------------------
// Drawings
// ---------------------------------------------------------------------------

/// A label shows its variable as it was last written.
pub proof fn ley_la_etiqueta_muestra(nombre: Seq<char>, v: Valor, st: Estado)
    requires
        del_lenguaje(v),
    ensures
        texto_de_variable(nombre, escrita(nombre, v, st).almacen) == texto_de_valor(guardado(v)),
{
    ley_ida_y_vuelta(v);
}

/// A value is drawn as it is shown, where showing it needs no host.
pub proof fn ley_se_dibuja_como_se_muestra(v: Valor, respuestas: Seq<Respuesta>, usadas: nat)
    requires
        !(v is Decimal),
    ensures
        texto_de_valor(v) == TextoVista::Literal(mostrado(v, respuestas, usadas).0->Ok_0),
        mostrado(v, respuestas, usadas).0 is Ok,
{
}

/// The length of a text that is drawn as it is lies between one and four for each
/// of its characters; it is the number of characters where all are ASCII.
pub proof fn ley_largo_de_texto(t: Seq<char>)
    ensures
        largo_de_texto(TextoVista::Literal(t)) matches Formula::Conteo(n) && t.len() <= n <= 4
            * t.len(),
        is_ascii_chars(t) ==> largo_de_texto(TextoVista::Literal(t)) == Formula::Conteo(t.len()),
    decreases t.len(),
{
    broadcast use vstd::utf8::is_ascii_chars_encode_utf8;

    if t.len() > 0 {
        ley_largo_de_texto(t.drop_first());
    }
}

/// The widgets of a layout that answer to clicks, in the order in which they
/// are drawn.
pub open spec fn interactivos(l: Diseno) -> Seq<Diseno>
    decreases l, 0nat,
{
    match l {
        Diseno::Column { children, .. } => interactivos_desde(children, 0),
        Diseno::Row { children, .. } => interactivos_desde(children, 0),
        Diseno::ZStack(children) => interactivos_desde(children, 0),
        Diseno::Button { .. } => seq![l],
        Diseno::TextInput { .. } => seq![l],
        _ => Seq::empty(),
    }
}

/// Those of the layouts from `i` on.
pub open spec fn interactivos_desde(ls: Seq<Diseno>, i: nat) -> Seq<Diseno>
    decreases ls, 1 + ls.len() - i,
{
    if i >= ls.len() {
        Seq::empty()
    } else {
        interactivos(ls[i as int]) + interactivos_desde(ls, i + 1)
    }
}

/// The widgets whose areas a drawing marks, in order.
pub open spec fn marcados(d: Seq<Trazo>) -> Seq<Diseno>
    decreases d.len(),
{
    if d.len() == 0 {
        Seq::empty()
    } else {
        match d.last() {
            Trazo::Area { layout, .. } => marcados(d.drop_last()).push(layout),
            _ => marcados(d.drop_last()),
        }
    }
}

/// Whether a drawing goes on from an earlier one and marks these widgets more.
pub open spec fn agrega(d: Seq<Trazo>, previo: Seq<Trazo>, widgets: Seq<Diseno>) -> bool {
    &&& previo.len() <= d.len()
    &&& forall|i: int| 0 <= i < previo.len() ==> #[trigger] d[i] == previo[i]
    &&& marcados(d) == marcados(previo) + widgets
}

proof fn lema_una_orden(d: Seq<Trazo>, t: Trazo, previo: Seq<Trazo>, widgets: Seq<Diseno>)
    requires
        agrega(d, previo, widgets),
    ensures
        t matches Trazo::Area { layout, .. } ==> agrega(d.push(t), previo, widgets.push(layout)),
        !(t is Area) ==> agrega(d.push(t), previo, widgets),
{
    assert(d.push(t).drop_last() =~= d);
    if let Trazo::Area { layout, .. } = t {
        assert(marcados(previo) + widgets.push(layout) =~= (marcados(previo) + widgets).push(
            layout,
        ));
    }
}

proof fn lema_nada(previo: Seq<Trazo>)
    ensures
        agrega(previo, previo, Seq::empty()),
{
    assert(marcados(previo) + Seq::<Diseno>::empty() =~= marcados(previo));
}

proof fn lema_en_cadena(
    d: Seq<Trazo>,
    medio: Seq<Trazo>,
    previo: Seq<Trazo>,
    a: Seq<Diseno>,
    b: Seq<Diseno>,
)
    requires
        agrega(medio, previo, a),
        agrega(d, medio, b),
    ensures
        agrega(d, previo, a + b),
{
    assert(marcados(previo) + a + b =~= marcados(previo) + (a + b));
    assert forall|i: int| 0 <= i < previo.len() implies #[trigger] d[i] == previo[i] by {
        assert(medio[i] == previo[i]);
    }
}

/// Three orders that mark nothing.
proof fn lema_tres_ordenes(d: Seq<Trazo>, t: Trazo, u: Trazo, v: Trazo)
    requires
        !(t is Area),
        !(u is Area),
        !(v is Area),
    ensures
        agrega(d.push(t).push(u).push(v), d, Seq::empty()),
{
    lema_nada(d);
    lema_una_orden(d, t, d, Seq::empty());
    lema_una_orden(d.push(t), u, d, Seq::empty());
    lema_una_orden(d.push(t).push(u), v, d, Seq::empty());
}

proof fn lema_contorno(
    previo: Seq<Trazo>,
    x: Formula,
    y: Formula,
    w: Formula,
    h: Formula,
    r: Formula,
)
    ensures
        agrega(contorno(previo, x, y, w, h, r), previo, Seq::empty()),
{
    reveal(contorno);
    let d = contorno(previo, x, y, w, h, r);
    let n = previo.len() as int;
    let nada = Seq::<Diseno>::empty();
    let d3 = previo.push(d[n]).push(d[n + 1]).push(d[n + 2]);
    lema_tres_ordenes(previo, d[n], d[n + 1], d[n + 2]);
    let d6 = d3.push(d[n + 3]).push(d[n + 4]).push(d[n + 5]);
    lema_tres_ordenes(d3, d[n + 3], d[n + 4], d[n + 5]);
    lema_en_cadena(d6, d3, previo, nada, nada);
    let d9 = d6.push(d[n + 6]).push(d[n + 7]).push(d[n + 8]);
    lema_tres_ordenes(d6, d[n + 6], d[n + 7], d[n + 8]);
    lema_en_cadena(d9, d6, previo, nada + nada, nada);
    lema_una_orden(d9, d[n + 9], previo, nada + nada + nada);
    lema_una_orden(d9.push(d[n + 9]), d[n + 10], previo, nada + nada + nada);
    assert(d =~= d9.push(d[n + 9]).push(d[n + 10]));
    assert(nada + nada + nada =~= nada);
}

proof fn lema_boton(
    previo: Seq<Trazo>,
    texto: Seq<char>,
    callback: Seq<char>,
    x: Formula,
    y: Formula,
    disponible: Formula,
)
    ensures
        agrega(
            boton(previo, texto, callback, x, y, disponible).dibujo,
            previo,
            seq![Diseno::Button { texto, callback }],
        ),
{
    let d = boton(previo, texto, callback, x, y, disponible).dibujo;
    let n = d.len() as int;
    let nada = Seq::<Diseno>::empty();
    let w = Diseno::Button { texto, callback };
    let ancho = d[n - 1]->Area_ancho;
    let alto = d[n - 1]->Area_alto;
    let veinte = Formula::Entera(20);
    let dos = Formula::Entera(2);
    let sx = crate::dibujo::mas(x, dos);
    let sy = crate::dibujo::mas(y, dos);
    let p1 = previo.push(Trazo::Relleno("rgba(0,0,0,0.15)"@));
    lema_nada(previo);
    lema_una_orden(previo, Trazo::Relleno("rgba(0,0,0,0.15)"@), previo, nada);
    let c1 = contorno(p1, sx, sy, ancho, alto, veinte);
    lema_contorno(p1, sx, sy, ancho, alto, veinte);
    lema_en_cadena(c1, p1, previo, nada, nada);
    assert(nada + nada =~= nada);
    lema_una_orden(c1, Trazo::Rellenar, previo, nada);
    let sombra = c1.push(Trazo::Rellenar);
    let relleno = Trazo::Relleno(crate::dibujo::COLOR_PRIMARY@);
    lema_una_orden(sombra, relleno, previo, nada);
    let p2 = sombra.push(relleno);
    let c2 = contorno(p2, x, y, ancho, alto, veinte);
    lema_contorno(p2, x, y, ancho, alto, veinte);
    lema_en_cadena(c2, p2, previo, nada, nada);
    lema_una_orden(c2, Trazo::Rellenar, previo, nada);
    let f = c2.push(Trazo::Rellenar);
    let g = f.push(d[n - 4]).push(d[n - 3]).push(d[n - 2]);
    lema_tres_ordenes(f, d[n - 4], d[n - 3], d[n - 2]);
    lema_en_cadena(g, f, previo, nada, nada);
    lema_una_orden(g, d[n - 1], previo, nada);
    assert(d =~= g.push(d[n - 1]));
    assert(nada.push(w) =~= seq![w]);
}

proof fn lema_campo(
    previo: Seq<Trazo>,
    variable: Seq<char>,
    placeholder: Seq<char>,
    x: Formula,
    y: Formula,
    disponible: Formula,
    almacen: Map<Seq<char>, Json>,
)
    ensures
        agrega(
            campo(previo, variable, placeholder, x, y, disponible, almacen).dibujo,
            previo,
            seq![Diseno::TextInput { variable, placeholder }],
        ),
{
    let d = campo(previo, variable, placeholder, x, y, disponible, almacen).dibujo;
    let n = d.len() as int;
    let nada = Seq::<Diseno>::empty();
    let w = Diseno::TextInput { variable, placeholder };
    let ancho = d[n - 1]->Area_ancho;
    let alto = d[n - 1]->Area_alto;
    let cuatro = Formula::Entera(4);
    let relleno = Trazo::Relleno(crate::dibujo::COLOR_SURFACE_VARIANT@);
    let p1 = previo.push(relleno);
    lema_nada(previo);
    lema_una_orden(previo, relleno, previo, nada);
    let c1 = contorno(p1, x, y, ancho, alto, cuatro);
    lema_contorno(p1, x, y, ancho, alto, cuatro);
    lema_en_cadena(c1, p1, previo, nada, nada);
    assert(nada + nada =~= nada);
    lema_una_orden(c1, Trazo::Rellenar, previo, nada);
    let f = c1.push(Trazo::Rellenar);
    let g = f.push(d[n - 10]).push(d[n - 9]).push(d[n - 8]);
    lema_tres_ordenes(f, d[n - 10], d[n - 9], d[n - 8]);
    lema_en_cadena(g, f, previo, nada, nada);
    let h = g.push(d[n - 7]).push(d[n - 6]).push(d[n - 5]);
    lema_tres_ordenes(g, d[n - 7], d[n - 6], d[n - 5]);
    lema_en_cadena(h, g, previo, nada, nada);
    let k = h.push(d[n - 4]).push(d[n - 3]).push(d[n - 2]);
    lema_tres_ordenes(h, d[n - 4], d[n - 3], d[n - 2]);
    lema_en_cadena(k, h, previo, nada, nada);
    lema_una_orden(k, d[n - 1], previo, nada);
    assert(d =~= k.push(d[n - 1]));
    assert(nada.push(w) =~= seq![w]);
}

/// Drawing a layout adds to what is drawn already, and marks an area for each
/// of its buttons and text fields, in order, and for nothing else.
pub proof fn ley_dibujo(
    l: Diseno,
    previo: Seq<Trazo>,
    x: Formula,
    y: Formula,
    disponible: Formula,
    almacen: Map<Seq<char>, Json>,
)
    ensures
        agrega(trazado(l, previo, x, y, disponible, almacen).dibujo, previo, interactivos(l)),
    decreases l, 0nat,
{
    let d = trazado(l, previo, x, y, disponible, almacen).dibujo;
    match l {
        Diseno::Column { children, gap } => {
            let g = Formula::Dato(gap);
            lema_columna(
                children,
                0,
                g,
                previo,
                x,
                crate::dibujo::mas(y, g),
                crate::dibujo::ent(0),
                disponible,
                almacen,
            );
        },
        Diseno::Row { children, gap } => {
            let g = Formula::Dato(gap);
            lema_fila(
                children,
                0,
                g,
                previo,
                crate::dibujo::mas(x, g),
                y,
                crate::dibujo::ent(0),
                disponible,
                almacen,
            );
        },
        Diseno::ZStack(children) => {
            lema_pila(
                children,
                0,
                previo,
                x,
                y,
                crate::dibujo::ent(0),
                crate::dibujo::ent(0),
                disponible,
                almacen,
            );
        },
        Diseno::Button { texto, callback } => {
            lema_boton(previo, texto, callback, x, y, disponible);
        },
        Diseno::TextInput { variable, placeholder } => {
            lema_campo(previo, variable, placeholder, x, y, disponible, almacen);
        },
        Diseno::Spacer(_) => {
            lema_nada(previo);
        },
        _ => {
            let n = previo.len() as int;
            lema_tres_ordenes(previo, d[n], d[n + 1], d[n + 2]);
            assert(d =~= previo.push(d[n]).push(d[n + 1]).push(d[n + 2]));
        },
    }
}

proof fn lema_columna(
    children: Seq<Diseno>,
    i: nat,
    g: Formula,
    previo: Seq<Trazo>,
    x: Formula,
    cy: Formula,
    mayor: Formula,
    disponible: Formula,
    almacen: Map<Seq<char>, Json>,
)
    ensures
        agrega(
            columna(children, i, g, previo, x, cy, mayor, disponible, almacen).dibujo,
            previo,
            interactivos_desde(children, i),
        ),
    decreases children, 1 + children.len() - i,
{
    if i >= children.len() {
        lema_nada(previo);
    } else {
        let dos = crate::dibujo::por(g, crate::dibujo::ent(2));
        let hijo = children[i as int];
        let x2 = crate::dibujo::mas(x, g);
        let hueco = crate::dibujo::menos(disponible, dos);
        ley_dibujo(hijo, previo, x2, cy, hueco, almacen);
        let t = trazado(hijo, previo, x2, cy, hueco, almacen);
        let cy2 = crate::dibujo::mas(cy, crate::dibujo::mas(t.alto, g));
        let mayor2 = crate::dibujo::maximo(mayor, crate::dibujo::mas(t.ancho, dos));
        lema_columna(children, i + 1, g, t.dibujo, x, cy2, mayor2, disponible, almacen);
        lema_en_cadena(
            columna(children, i + 1, g, t.dibujo, x, cy2, mayor2, disponible, almacen).dibujo,
            t.dibujo,
            previo,
            interactivos(hijo),
            interactivos_desde(children, i + 1),
        );
    }
}

proof fn lema_fila(
    children: Seq<Diseno>,
    i: nat,
    g: Formula,
    previo: Seq<Trazo>,
    cx: Formula,
    y: Formula,
    mayor: Formula,
    disponible: Formula,
    almacen: Map<Seq<char>, Json>,
)
    ensures
        agrega(
            fila(children, i, g, previo, cx, y, mayor, disponible, almacen).dibujo,
            previo,
            interactivos_desde(children, i),
        ),
    decreases children, 1 + children.len() - i,
{
    if i >= children.len() {
        lema_nada(previo);
    } else {
        let dos = crate::dibujo::por(g, crate::dibujo::ent(2));
        let hijo = children[i as int];
        let parte = crate::dibujo::entre(disponible, Formula::Conteo(children.len()));
        let ancho = crate::dibujo::ancho_estimado(hijo, parte);
        let y2 = crate::dibujo::mas(y, g);
        ley_dibujo(hijo, previo, cx, y2, ancho, almacen);
        let t = trazado(hijo, previo, cx, y2, ancho, almacen);
        let cx2 = crate::dibujo::mas(cx, crate::dibujo::mas(ancho, g));
        let mayor2 = crate::dibujo::maximo(mayor, crate::dibujo::mas(t.alto, dos));
        lema_fila(children, i + 1, g, t.dibujo, cx2, y, mayor2, disponible, almacen);
        lema_en_cadena(
            fila(children, i + 1, g, t.dibujo, cx2, y, mayor2, disponible, almacen).dibujo,
            t.dibujo,
            previo,
            interactivos(hijo),
            interactivos_desde(children, i + 1),
        );
    }
}

proof fn lema_pila(
    children: Seq<Diseno>,
    i: nat,
    previo: Seq<Trazo>,
    x: Formula,
    y: Formula,
    mayor_ancho: Formula,
    mayor_alto: Formula,
    disponible: Formula,
    almacen: Map<Seq<char>, Json>,
)
    ensures
        agrega(
            pila(children, i, previo, x, y, mayor_ancho, mayor_alto, disponible, almacen).dibujo,
            previo,
            interactivos_desde(children, i),
        ),
    decreases children, 1 + children.len() - i,
{
    if i >= children.len() {
        lema_nada(previo);
    } else {
        let hijo = children[i as int];
        ley_dibujo(hijo, previo, x, y, disponible, almacen);
        let t = trazado(hijo, previo, x, y, disponible, almacen);
        let ancho2 = crate::dibujo::maximo(mayor_ancho, t.ancho);
        let alto2 = crate::dibujo::maximo(mayor_alto, t.alto);
        lema_pila(children, i + 1, t.dibujo, x, y, ancho2, alto2, disponible, almacen);
        lema_en_cadena(
            pila(children, i + 1, t.dibujo, x, y, ancho2, alto2, disponible, almacen).dibujo,
            t.dibujo,
            previo,
            interactivos(hijo),
            interactivos_desde(children, i + 1),
        );
    }
}

/// Whether a layout shows a variable.
pub open spec fn muestra(l: Diseno, variable: Seq<char>) -> bool
    decreases l, 0nat,
{
    match l {
        Diseno::Column { children, .. } => muestra_desde(children, 0, variable),
        Diseno::Row { children, .. } => muestra_desde(children, 0, variable),
        Diseno::ZStack(children) => muestra_desde(children, 0, variable),
        Diseno::VariableLabel { variable: v } => v == variable,
        Diseno::TextInput { variable: v, .. } => v == variable,
        _ => false,
    }
}

/// Whether one of the layouts from `i` on shows a variable.
pub open spec fn muestra_desde(ls: Seq<Diseno>, i: nat, variable: Seq<char>) -> bool
    decreases ls, 1 + ls.len() - i,
{
    i < ls.len() && (muestra(ls[i as int], variable) || muestra_desde(ls, i + 1, variable))
}

/// A variable that a layout does not show has no part in how it is drawn.
pub proof fn ley_solo_lo_que_muestra(
    l: Diseno,
    previo: Seq<Trazo>,
    x: Formula,
    y: Formula,
    disponible: Formula,
    almacen: Map<Seq<char>, Json>,
    variable: Seq<char>,
    valor: Json,
)
    requires
        !muestra(l, variable),
    ensures
        trazado(l, previo, x, y, disponible, almacen.insert(variable, valor)) == trazado(
            l,
            previo,
            x,
            y,
            disponible,
            almacen,
        ),
    decreases l, 0nat,
{
    match l {
        Diseno::Column { children, gap } => {
            let g = Formula::Dato(gap);
            lema_columna_muestra(
                children,
                0,
                g,
                previo,
                x,
                crate::dibujo::mas(y, g),
                crate::dibujo::ent(0),
                disponible,
                almacen,
                variable,
                valor,
            );
        },
        Diseno::Row { children, gap } => {
            let g = Formula::Dato(gap);
            lema_fila_muestra(
                children,
                0,
                g,
                previo,
                crate::dibujo::mas(x, g),
                y,
                crate::dibujo::ent(0),
                disponible,
                almacen,
                variable,
                valor,
            );
        },
        Diseno::ZStack(children) => {
            lema_pila_muestra(
                children,
                0,
                previo,
                x,
                y,
                crate::dibujo::ent(0),
                crate::dibujo::ent(0),
                disponible,
                almacen,
                variable,
                valor,
            );
        },
        _ => {},
    }
}

proof fn lema_columna_muestra(
    children: Seq<Diseno>,
    i: nat,
    g: Formula,
    previo: Seq<Trazo>,
    x: Formula,
    cy: Formula,
    mayor: Formula,
    disponible: Formula,
    almacen: Map<Seq<char>, Json>,
    variable: Seq<char>,
    valor: Json,
)
    requires
        !muestra_desde(children, i, variable),
    ensures
        columna(
            children,
            i,
            g,
            previo,
            x,
            cy,
            mayor,
            disponible,
            almacen.insert(variable, valor),
        ) == columna(children, i, g, previo, x, cy, mayor, disponible, almacen),
    decreases children, 1 + children.len() - i,
{
    if i < children.len() {
        let dos = crate::dibujo::por(g, crate::dibujo::ent(2));
        let hijo = children[i as int];
        let x2 = crate::dibujo::mas(x, g);
        let hueco = crate::dibujo::menos(disponible, dos);
        ley_solo_lo_que_muestra(hijo, previo, x2, cy, hueco, almacen, variable, valor);
        let t = trazado(hijo, previo, x2, cy, hueco, almacen);
        lema_columna_muestra(
            children,
            i + 1,
            g,
            t.dibujo,
            x,
            crate::dibujo::mas(cy, crate::dibujo::mas(t.alto, g)),
            crate::dibujo::maximo(mayor, crate::dibujo::mas(t.ancho, dos)),
            disponible,
            almacen,
            variable,
            valor,
        );
    }
}

proof fn lema_fila_muestra(
    children: Seq<Diseno>,
    i: nat,
    g: Formula,
    previo: Seq<Trazo>,
    cx: Formula,
    y: Formula,
    mayor: Formula,
    disponible: Formula,
    almacen: Map<Seq<char>, Json>,
    variable: Seq<char>,
    valor: Json,
)
    requires
        !muestra_desde(children, i, variable),
    ensures
        fila(
            children,
            i,
            g,
            previo,
            cx,
            y,
            mayor,
            disponible,
            almacen.insert(variable, valor),
        ) == fila(children, i, g, previo, cx, y, mayor, disponible, almacen),
    decreases children, 1 + children.len() - i,
{
    if i < children.len() {
        let dos = crate::dibujo::por(g, crate::dibujo::ent(2));
        let hijo = children[i as int];
        let parte = crate::dibujo::entre(disponible, Formula::Conteo(children.len()));
        let ancho = crate::dibujo::ancho_estimado(hijo, parte);
        let y2 = crate::dibujo::mas(y, g);
        ley_solo_lo_que_muestra(hijo, previo, cx, y2, ancho, almacen, variable, valor);
        let t = trazado(hijo, previo, cx, y2, ancho, almacen);
        lema_fila_muestra(
            children,
            i + 1,
            g,
            t.dibujo,
            crate::dibujo::mas(cx, crate::dibujo::mas(ancho, g)),
            y,
            crate::dibujo::maximo(mayor, crate::dibujo::mas(t.alto, dos)),
            disponible,
            almacen,
            variable,
            valor,
        );
    }
}

proof fn lema_pila_muestra(
    children: Seq<Diseno>,
    i: nat,
    previo: Seq<Trazo>,
    x: Formula,
    y: Formula,
    mayor_ancho: Formula,
    mayor_alto: Formula,
    disponible: Formula,
    almacen: Map<Seq<char>, Json>,
    variable: Seq<char>,
    valor: Json,
)
    requires
        !muestra_desde(children, i, variable),
    ensures
        pila(
            children,
            i,
            previo,
            x,
            y,
            mayor_ancho,
            mayor_alto,
            disponible,
            almacen.insert(variable, valor),
        ) == pila(children, i, previo, x, y, mayor_ancho, mayor_alto, disponible, almacen),
    decreases children, 1 + children.len() - i,
{
    if i < children.len() {
        let hijo = children[i as int];
        ley_solo_lo_que_muestra(hijo, previo, x, y, disponible, almacen, variable, valor);
        let t = trazado(hijo, previo, x, y, disponible, almacen);
        lema_pila_muestra(
            children,
            i + 1,
            t.dibujo,
            x,
            y,
            crate::dibujo::maximo(mayor_ancho, t.ancho),
            crate::dibujo::maximo(mayor_alto, t.alto),
            disponible,
            almacen,
            variable,
            valor,
        );
    }
}

// ---------------------------------------------------------------------------
// Areas
// ---------------------------------------------------------------------------

/// The widgets of areas.
pub open spec fn widgets(areas: Seq<Zona>) -> Seq<Diseno> {
    Seq::new(areas.len(), |i: int| areas[i].layout)
}

/// The areas that the first `k` orders of a drawing mark, where the host
/// computes measures by `val`.
pub open spec fn zonas_del_dibujo(d: Seq<Trazo>, k: nat, val: spec_fn(Formula) -> Decimal) -> Seq<
    Zona,
>
    decreases k,
{
    if k == 0 {
        Seq::empty()
    } else {
        let previas = zonas_del_dibujo(d, (k - 1) as nat, val);
        match d[k - 1] {
            Trazo::Area { x, y, ancho, alto, derecha, abajo, layout } => previas.push(
                Zona {
                    x: val(x),
                    y: val(y),
                    ancho: val(ancho),
                    alto: val(alto),
                    derecha: val(derecha),
                    abajo: val(abajo),
                    layout,
                },
            ),
            _ => previas,
        }
    }
}

/// However the host computes measures, the areas stand where the drawing marks
/// them.
pub proof fn ley_areas_en_su_lugar(
    lienzo: Lienzo,
    valores: Seq<Decimal>,
    val: spec_fn(Formula) -> Decimal,
)
    requires
        lienzo.bien_formado(),
        valores.len() == lienzo.medidas@.len(),
        forall|i: usize| lienzo.hay(i) ==> valores[i as int] == val(#[trigger] lienzo.medida(i)),
    ensures
        zonas_marcadas(lienzo.ordenes@, lienzo.ordenes@.len(), valores) == zonas_del_dibujo(
            lienzo.dibujo(),
            lienzo.dibujo().len(),
            val,
        ),
{
    reveal(Lienzo::dibujo);
    lema_areas_en_su_lugar(lienzo, lienzo.ordenes@.len(), valores, val);
}

proof fn lema_areas_en_su_lugar(
    lienzo: Lienzo,
    k: nat,
    valores: Seq<Decimal>,
    val: spec_fn(Formula) -> Decimal,
)
    requires
        k <= lienzo.ordenes@.len(),
        lienzo.bien_formado(),
        valores.len() == lienzo.medidas@.len(),
        forall|i: usize| lienzo.hay(i) ==> valores[i as int] == val(#[trigger] lienzo.medida(i)),
    ensures
        zonas_marcadas(lienzo.ordenes@, k, valores) == zonas_del_dibujo(lienzo.dibujo(), k, val),
    decreases k,
{
    reveal(Lienzo::dibujo);
    reveal(Lienzo::bien_formado);
    if k > 0 {
        lema_areas_en_su_lugar(lienzo, (k - 1) as nat, valores, val);
        assert(lienzo.ordenes@[k - 1].usa_hasta(lienzo.medidas@.len()));
        assert(lienzo.dibujo()[k - 1] == lienzo.ordenes@[k - 1].trazo(lienzo));
    }
}

/// The areas of a drawing are those of the widgets that it marks.
pub proof fn ley_areas_de_los_marcados(lienzo: Lienzo, valores: Seq<Decimal>)
    ensures
        widgets(zonas_marcadas(lienzo.ordenes@, lienzo.ordenes@.len(), valores)) == marcados(
            lienzo.dibujo(),
        ),
{
    reveal(Lienzo::dibujo);
    lema_areas_de_los_marcados(lienzo, lienzo.ordenes@.len(), valores);
    assert(lienzo.dibujo().take(lienzo.ordenes@.len() as int) =~= lienzo.dibujo());
}

proof fn lema_areas_de_los_marcados(lienzo: Lienzo, k: nat, valores: Seq<Decimal>)
    requires
        k <= lienzo.ordenes@.len(),
    ensures
        widgets(zonas_marcadas(lienzo.ordenes@, k, valores)) == marcados(
            lienzo.dibujo().take(k as int),
        ),
    decreases k,
{
    reveal(Lienzo::dibujo);
    if k > 0 {
        let d = lienzo.dibujo().take(k as int);
        lema_areas_de_los_marcados(lienzo, (k - 1) as nat, valores);
        assert(d.drop_last() =~= lienzo.dibujo().take(k - 1));
        assert(d.last() == lienzo.ordenes@[k - 1].trazo(lienzo));
        assert(widgets(zonas_marcadas(lienzo.ordenes@, k, valores)) =~= marcados(d));
    } else {
        assert(widgets(zonas_marcadas(lienzo.ordenes@, k, valores)) =~= Seq::<Diseno>::empty());
    }
}

/// Once a layout is on the screen, what answers to clicks is each of its buttons
/// and text fields, in the order of drawing, and nothing else.
pub proof fn ley_areas_de_pantalla(
    l: Diseno,
    ancho: int,
    alto: int,
    almacen: Map<Seq<char>, Json>,
    lienzo: Lienzo,
    valores: Seq<Decimal>,
)
    requires
        lienzo.dibujo() == pantalla(Some(l), ancho, alto, almacen),
    ensures
        widgets(zonas_marcadas(lienzo.ordenes@, lienzo.ordenes@.len(), valores)) == interactivos(
            l,
        ),
{
    let f = fondo(ancho, alto);
    let diez = crate::dibujo::ent(10);
    let hueco = crate::dibujo::menos(crate::dibujo::ent(ancho), crate::dibujo::ent(20));
    ley_dibujo(l, f, diez, diez, hueco, almacen);
    ley_areas_de_los_marcados(lienzo, valores);
    lema_tres_ordenes(Seq::empty(), f[0], f[1], f[2]);
    assert(f =~= Seq::<Trazo>::empty().push(f[0]).push(f[1]).push(f[2]));
    assert(marcados(f) =~= Seq::<Diseno>::empty());
    assert(marcados(f) + interactivos(l) =~= interactivos(l));
}

// ---------------------------------------------------------------------------
// Clicks
// ---------------------------------------------------------------------------

/// A click where no area is does nothing.
pub proof fn ley_click_fuera(
    x: Decimal,
    y: Decimal,
    areas: Seq<Zona>,
    n: nat,
    env: Entorno,
    almacen: Map<Seq<char>, Json>,
)
    requires
        forall|i: int| 0 <= i < areas.len() ==> !(#[trigger] areas[i]).contiene_spec(x, y),
    ensures
        click(x, y, areas, n, env, almacen) == (
            Ok::<Seq<Seq<char>>, Interrupcion>(Seq::empty()),
            almacen,
        ),
{
    lema_tocada(areas, areas.len(), x, y, -1);
}

/// A click goes to the area drawn last among those that contain its point.
pub proof fn ley_click_encima(
    x: Decimal,
    y: Decimal,
    areas: Seq<Zona>,
    i: int,
    n: nat,
    env: Entorno,
    almacen: Map<Seq<char>, Json>,
)
    requires
        env.declaraciones.len() > 0,
        0 <= i < areas.len(),
        areas[i].contiene_spec(x, y),
        forall|k: int| i < k < areas.len() ==> !(#[trigger] areas[k]).contiene_spec(x, y),
    ensures
        click(x, y, areas, n, env, almacen) == efecto(areas[i].layout, n, env, almacen),
{
    lema_tocada(areas, areas.len(), x, y, i);
}

proof fn lema_tocada(areas: Seq<Zona>, k: nat, x: Decimal, y: Decimal, i: int)
    requires
        -1 <= i < k <= areas.len() || (i == -1 && k == 0),
        i >= 0 ==> areas[i].contiene_spec(x, y),
        forall|j: int| i < j < k ==> !(#[trigger] areas[j]).contiene_spec(x, y),
    ensures
        i >= 0 ==> tocada(areas, k, x, y) == Some(areas[i].layout),
        i < 0 ==> tocada(areas, k, x, y) is None,
    decreases k,
{
    if k > 0 && i < k - 1 {
        assert(!areas[k - 1].contiene_spec(x, y));
        lema_tocada(areas, (k - 1) as nat, x, y, i);
    }
}

/// A click that cannot be answered to yet changes nothing; one that is answered
/// to loses no variable.
pub proof fn ley_click_no_pierde(
    x: Decimal,
    y: Decimal,
    areas: Seq<Zona>,
    n: nat,
    env: Entorno,
    almacen: Map<Seq<char>, Json>,
)
    ensures
        ({
            let (r, a) = click(x, y, areas, n, env, almacen);
            &&& r is Err ==> a == almacen
            &&& forall|k: Seq<char>| almacen.contains_key(k) ==> #[trigger] a.contains_key(k)
        }),
{
    if let Some(Diseno::Button { callback, .. }) = tocada(areas, areas.len(), x, y) {
        ley_llamada_avanza(callback, Seq::empty(), n, env, almacen, 0);
    }
}

/// Only a click on a button that has a function can change a variable.
pub proof fn ley_click_sin_funcion(
    x: Decimal,
    y: Decimal,
    areas: Seq<Zona>,
    n: nat,
    env: Entorno,
    almacen: Map<Seq<char>, Json>,
)
    requires
        !(tocada(areas, areas.len(), x, y) matches Some(Diseno::Button { callback, .. })
            && callback.len() > 0),
    ensures
        click(x, y, areas, n, env, almacen).0 is Ok,
        click(x, y, areas, n, env, almacen).1 == almacen,
{
}

/// A click that was answered to is answered to in the same way with a higher
/// limit and more answers.
pub proof fn ley_click_constante(
    x: Decimal,
    y: Decimal,
    areas: Seq<Zona>,
    n: nat,
    m: nat,
    env: Entorno,
    otro: Entorno,
    almacen: Map<Seq<char>, Json>,
)
    requires
        n <= m,
        amplia(env, otro),
        click(x, y, areas, n, env, almacen).0 is Ok,
    ensures
        click(x, y, areas, m, otro, almacen) == click(x, y, areas, n, env, almacen),
{
    if let Some(Diseno::Button { callback, .. }) = tocada(areas, areas.len(), x, y) {
        ley_llamada_constante(callback, Seq::empty(), n, m, env, otro, almacen, 0);
    }
}

} // verus!
