//! Where the parts of a drawing stand.

use vstd::prelude::*;

use crate::decimal::{Decimal, Estilo};
use crate::dibujo::{
    ancho_estimado, area, boton, campo, columna, contorno, ent, entre, etiqueta, fila, mas, maximo,
    menos, minimo, pila, por, rotulo, texto_de_valor, texto_de_variable, trazado, Trazado,
    COLOR_BACKGROUND, COLOR_ERROR, COLOR_ON_PRIMARY, COLOR_ON_SURFACE, COLOR_ON_SURFACE_VARIANT,
    COLOR_OUTLINE, COLOR_PRIMARY, COLOR_SURFACE_VARIANT,
};
use crate::json::{de_json, Json};
use crate::layout::Diseno;
use crate::lienzo::{
    formula, largo_de_texto, Angulo, Formula, Lienzo, Medida, OpMedida, Orden, TextoVista, Trazo,
};
use crate::operaciones::mostrado;
use crate::sesion::{Interrupcion, PedidoVista};
use crate::valor::Valor;
use crate::ventana::{altura_de_mensaje, fondo, pantalla, pantalla_de_errores};

verus! {

// ---------------------------------------------------------------------------
// Height does not depend on where a layout stands sideways, nor width on how far
// down
// ---------------------------------------------------------------------------

/// An order without where it stands sideways.
pub open spec fn sin_horizontal(t: Trazo) -> Trazo {
    let cero = Formula::Entera(0);
    match t {
        Trazo::Texto { texto, y, .. } => Trazo::Texto { texto, x: cero, y },
        Trazo::MoverA { y, .. } => Trazo::MoverA { x: cero, y },
        Trazo::LineaA { y, .. } => Trazo::LineaA { x: cero, y },
        Trazo::Arco { y, radio, desde, hasta, .. } => Trazo::Arco {
            x: cero,
            y,
            radio,
            desde,
            hasta,
        },
        Trazo::LimpiarRect { y, ancho, alto, .. } => Trazo::LimpiarRect {
            x: cero,
            y,
            ancho,
            alto,
        },
        Trazo::RellenarRect { y, ancho, alto, .. } => Trazo::RellenarRect {
            x: cero,
            y,
            ancho,
            alto,
        },
        Trazo::Area { y, ancho, alto, abajo, layout, .. } => Trazo::Area {
            x: cero,
            y,
            ancho,
            alto,
            derecha: cero,
            abajo,
            layout,
        },
        _ => t,
    }
}

/// An order without how far down it stands.
pub open spec fn sin_vertical(t: Trazo) -> Trazo {
    let cero = Formula::Entera(0);
    match t {
        Trazo::Texto { texto, x, .. } => Trazo::Texto { texto, x, y: cero },
        Trazo::MoverA { x, .. } => Trazo::MoverA { x, y: cero },
        Trazo::LineaA { x, .. } => Trazo::LineaA { x, y: cero },
        Trazo::Arco { x, radio, desde, hasta, .. } => Trazo::Arco {
            x,
            y: cero,
            radio,
            desde,
            hasta,
        },
        Trazo::LimpiarRect { x, ancho, alto, .. } => Trazo::LimpiarRect {
            x,
            y: cero,
            ancho,
            alto,
        },
        Trazo::RellenarRect { x, ancho, alto, .. } => Trazo::RellenarRect {
            x,
            y: cero,
            ancho,
            alto,
        },
        Trazo::Area { x, ancho, alto, derecha, layout, .. } => Trazo::Area {
            x,
            y: cero,
            ancho,
            alto,
            derecha,
            abajo: cero,
            layout,
        },
        _ => t,
    }
}

/// An order seen from the side (`h`) or from above.
pub open spec fn visto(t: Trazo, h: bool) -> Trazo {
    if h {
        sin_horizontal(t)
    } else {
        sin_vertical(t)
    }
}

/// Whether two drawings look the same from the side (`h`) or from above.
pub open spec fn coinciden(a: Seq<Trazo>, b: Seq<Trazo>, h: bool) -> bool {
    &&& a.len() == b.len()
    &&& forall|i: int| 0 <= i < a.len() ==> visto(#[trigger] a[i], h) == visto(b[i], h)
}

/// Whether the places of two drawings are the same as seen from that direction.
pub open spec fn mismo_lugar(x1: Formula, x2: Formula, y1: Formula, y2: Formula, h: bool) -> bool {
    if h {
        y1 == y2
    } else {
        x1 == x2
    }
}

proof fn lema_una_mas(a: Seq<Trazo>, b: Seq<Trazo>, s: Trazo, t: Trazo, h: bool)
    requires
        coinciden(a, b, h),
        visto(s, h) == visto(t, h),
    ensures
        coinciden(a.push(s), b.push(t), h),
{
    assert forall|i: int| 0 <= i < a.push(s).len() implies visto(#[trigger] a.push(s)[i], h)
        == visto(b.push(t)[i], h) by {
        if i < a.len() {
            assert(a.push(s)[i] == a[i]);
        }
    }
}

proof fn lema_contorno_visto(
    a: Seq<Trazo>,
    b: Seq<Trazo>,
    x1: Formula,
    x2: Formula,
    y1: Formula,
    y2: Formula,
    w: Formula,
    alto: Formula,
    r: Formula,
    h: bool,
)
    requires
        coinciden(a, b, h),
        mismo_lugar(x1, x2, y1, y2, h),
    ensures
        coinciden(contorno(a, x1, y1, w, alto, r), contorno(b, x2, y2, w, alto, r), h),
{
    reveal(contorno);
    let c = contorno(a, x1, y1, w, alto, r);
    let d = contorno(b, x2, y2, w, alto, r);
    let n = a.len() as int;
    assert(c.len() == n + 11 && d.len() == n + 11);
    assert forall|i: int| 0 <= i < c.len() implies visto(#[trigger] c[i], h) == visto(d[i], h) by {
        if i < n {
            assert(c[i] == a[i] && d[i] == b[i]);
            assert(visto(a[i], h) == visto(b[i], h));
        } else {
            let k = i - n;
            assert(k == 0 || k == 1 || k == 2 || k == 3 || k == 4 || k == 5 || k == 6 || k == 7
                || k == 8 || k == 9 || k == 10);
        }
    }
}

proof fn lema_boton_visto(
    a: Seq<Trazo>,
    b: Seq<Trazo>,
    texto: Seq<char>,
    callback: Seq<char>,
    x1: Formula,
    x2: Formula,
    y1: Formula,
    y2: Formula,
    disponible: Formula,
    h: bool,
)
    requires
        coinciden(a, b, h),
        mismo_lugar(x1, x2, y1, y2, h),
    ensures
        coinciden(
            boton(a, texto, callback, x1, y1, disponible).dibujo,
            boton(b, texto, callback, x2, y2, disponible).dibujo,
            h,
        ),
{
    let ancho = minimo(maximo(disponible, ent(80)), ent(300));
    let alto = ent(38);
    let s = Trazo::Relleno("rgba(0,0,0,0.15)"@);
    lema_una_mas(a, b, s, s, h);
    let (a, b) = (a.push(s), b.push(s));
    let (sx1, sx2) = (mas(x1, ent(2)), mas(x2, ent(2)));
    let (sy1, sy2) = (mas(y1, ent(2)), mas(y2, ent(2)));
    lema_contorno_visto(a, b, sx1, sx2, sy1, sy2, ancho, alto, ent(20), h);
    let a = contorno(a, sx1, sy1, ancho, alto, ent(20));
    let b = contorno(b, sx2, sy2, ancho, alto, ent(20));
    lema_una_mas(a, b, Trazo::Rellenar, Trazo::Rellenar, h);
    let (a, b) = (a.push(Trazo::Rellenar), b.push(Trazo::Rellenar));
    let s = Trazo::Relleno(COLOR_PRIMARY@);
    lema_una_mas(a, b, s, s, h);
    let (a, b) = (a.push(s), b.push(s));
    lema_contorno_visto(a, b, x1, x2, y1, y2, ancho, alto, ent(20), h);
    let a = contorno(a, x1, y1, ancho, alto, ent(20));
    let b = contorno(b, x2, y2, ancho, alto, ent(20));
    lema_una_mas(a, b, Trazo::Rellenar, Trazo::Rellenar, h);
    let (a, b) = (a.push(Trazo::Rellenar), b.push(Trazo::Rellenar));
    let (c, d) = (rotulo(a, texto, x1, y1, ancho), rotulo(b, texto, x2, y2, ancho));
    let n = a.len() as int;
    lema_una_mas(a, b, c[n], d[n], h);
    lema_una_mas(a.push(c[n]), b.push(d[n]), c[n + 1], d[n + 1], h);
    lema_una_mas(
        a.push(c[n]).push(c[n + 1]),
        b.push(d[n]).push(d[n + 1]),
        c[n + 2],
        d[n + 2],
        h,
    );
    assert(c =~= a.push(c[n]).push(c[n + 1]).push(c[n + 2]));
    assert(d =~= b.push(d[n]).push(d[n + 1]).push(d[n + 2]));
    let l = Diseno::Button { texto, callback };
    lema_una_mas(
        c,
        d,
        area(x1, y1, ancho, alto, l),
        area(x2, y2, ancho, alto, l),
        h,
    );
}

proof fn lema_campo_visto(
    a: Seq<Trazo>,
    b: Seq<Trazo>,
    variable: Seq<char>,
    placeholder: Seq<char>,
    x1: Formula,
    x2: Formula,
    y1: Formula,
    y2: Formula,
    disponible: Formula,
    almacen: Map<Seq<char>, Json>,
    h: bool,
)
    requires
        coinciden(a, b, h),
        mismo_lugar(x1, x2, y1, y2, h),
    ensures
        coinciden(
            campo(a, variable, placeholder, x1, y1, disponible, almacen).dibujo,
            campo(b, variable, placeholder, x2, y2, disponible, almacen).dibujo,
            h,
        ),
{
    let c = campo(a, variable, placeholder, x1, y1, disponible, almacen).dibujo;
    let d = campo(b, variable, placeholder, x2, y2, disponible, almacen).dibujo;
    let ancho = maximo(disponible, ent(120));
    let alto = ent(38);
    let s = Trazo::Relleno(COLOR_SURFACE_VARIANT@);
    lema_una_mas(a, b, s, s, h);
    let (a, b) = (a.push(s), b.push(s));
    lema_contorno_visto(a, b, x1, x2, y1, y2, ancho, alto, ent(4), h);
    let a = contorno(a, x1, y1, ancho, alto, ent(4));
    let b = contorno(b, x2, y2, ancho, alto, ent(4));
    let n = a.len() as int;
    assert(c.len() == n + 11 && d.len() == n + 11);
    assert forall|i: int| 0 <= i < c.len() implies visto(#[trigger] c[i], h) == visto(d[i], h) by {
        if i < n {
            assert(c[i] == a[i] && d[i] == b[i]);
            assert(visto(a[i], h) == visto(b[i], h));
        } else {
            let k = i - n;
            assert(k == 0 || k == 1 || k == 2 || k == 3 || k == 4 || k == 5 || k == 6 || k == 7
                || k == 8 || k == 9 || k == 10);
        }
    }
}

/// How far down the parts of a layout stand, and how high it is, does not depend
/// on where it stands sideways (`h`); where they stand sideways, and how wide it
/// is, does not depend on how far down it stands.
pub proof fn ley_direcciones(
    l: Diseno,
    a: Seq<Trazo>,
    b: Seq<Trazo>,
    x1: Formula,
    x2: Formula,
    y1: Formula,
    y2: Formula,
    disponible: Formula,
    almacen: Map<Seq<char>, Json>,
    h: bool,
)
    requires
        coinciden(a, b, h),
        mismo_lugar(x1, x2, y1, y2, h),
    ensures
        ({
            let s = trazado(l, a, x1, y1, disponible, almacen);
            let t = trazado(l, b, x2, y2, disponible, almacen);
            &&& coinciden(s.dibujo, t.dibujo, h)
            &&& h ==> s.alto == t.alto
            &&& !h ==> s.ancho == t.ancho
        }),
    decreases l, 0nat,
{
    let c = trazado(l, a, x1, y1, disponible, almacen).dibujo;
    let d = trazado(l, b, x2, y2, disponible, almacen).dibujo;
    match l {
        Diseno::Column { children, gap } => {
            let g = Formula::Dato(gap);
            lema_columna_vista(
                children,
                0,
                g,
                a,
                b,
                x1,
                x2,
                mas(y1, g),
                mas(y2, g),
                ent(0),
                ent(0),
                disponible,
                almacen,
                h,
            );
        },
        Diseno::Row { children, gap } => {
            let g = Formula::Dato(gap);
            lema_fila_vista(
                children,
                0,
                g,
                a,
                b,
                mas(x1, g),
                mas(x2, g),
                y1,
                y2,
                ent(0),
                ent(0),
                disponible,
                almacen,
                h,
            );
        },
        Diseno::ZStack(children) => {
            lema_pila_vista(
                children,
                0,
                a,
                b,
                x1,
                x2,
                y1,
                y2,
                ent(0),
                ent(0),
                ent(0),
                ent(0),
                disponible,
                almacen,
                h,
            );
        },
        Diseno::Button { texto, callback } => {
            lema_boton_visto(a, b, texto, callback, x1, x2, y1, y2, disponible, h);
        },
        Diseno::TextInput { variable, placeholder } => {
            lema_campo_visto(
                a,
                b,
                variable,
                placeholder,
                x1,
                x2,
                y1,
                y2,
                disponible,
                almacen,
                h,
            );
        },
        Diseno::Spacer(_) => {},
        _ => {
            let n = a.len() as int;
            lema_una_mas(a, b, c[n], d[n], h);
            lema_una_mas(a.push(c[n]), b.push(d[n]), c[n + 1], d[n + 1], h);
            lema_una_mas(
                a.push(c[n]).push(c[n + 1]),
                b.push(d[n]).push(d[n + 1]),
                c[n + 2],
                d[n + 2],
                h,
            );
            assert(c =~= a.push(c[n]).push(c[n + 1]).push(c[n + 2]));
            assert(d =~= b.push(d[n]).push(d[n + 1]).push(d[n + 2]));
        },
    }
}

proof fn lema_columna_vista(
    children: Seq<Diseno>,
    i: nat,
    g: Formula,
    a: Seq<Trazo>,
    b: Seq<Trazo>,
    x1: Formula,
    x2: Formula,
    cy1: Formula,
    cy2: Formula,
    m1: Formula,
    m2: Formula,
    disponible: Formula,
    almacen: Map<Seq<char>, Json>,
    h: bool,
)
    requires
        coinciden(a, b, h),
        mismo_lugar(x1, x2, cy1, cy2, h),
        !h ==> m1 == m2,
    ensures
        ({
            let s = columna(children, i, g, a, x1, cy1, m1, disponible, almacen);
            let t = columna(children, i, g, b, x2, cy2, m2, disponible, almacen);
            &&& coinciden(s.dibujo, t.dibujo, h)
            &&& h ==> s.alto == t.alto
            &&& !h ==> s.ancho == t.ancho
        }),
    decreases children, 1 + children.len() - i,
{
    if i < children.len() {
        let hijo = children[i as int];
        let dos = por(g, ent(2));
        let hueco = menos(disponible, dos);
        ley_direcciones(hijo, a, b, mas(x1, g), mas(x2, g), cy1, cy2, hueco, almacen, h);
        let s = trazado(hijo, a, mas(x1, g), cy1, hueco, almacen);
        let t = trazado(hijo, b, mas(x2, g), cy2, hueco, almacen);
        lema_columna_vista(
            children,
            i + 1,
            g,
            s.dibujo,
            t.dibujo,
            x1,
            x2,
            mas(cy1, mas(s.alto, g)),
            mas(cy2, mas(t.alto, g)),
            maximo(m1, mas(s.ancho, dos)),
            maximo(m2, mas(t.ancho, dos)),
            disponible,
            almacen,
            h,
        );
    }
}

proof fn lema_fila_vista(
    children: Seq<Diseno>,
    i: nat,
    g: Formula,
    a: Seq<Trazo>,
    b: Seq<Trazo>,
    cx1: Formula,
    cx2: Formula,
    y1: Formula,
    y2: Formula,
    m1: Formula,
    m2: Formula,
    disponible: Formula,
    almacen: Map<Seq<char>, Json>,
    h: bool,
)
    requires
        coinciden(a, b, h),
        mismo_lugar(cx1, cx2, y1, y2, h),
        h ==> m1 == m2,
    ensures
        ({
            let s = fila(children, i, g, a, cx1, y1, m1, disponible, almacen);
            let t = fila(children, i, g, b, cx2, y2, m2, disponible, almacen);
            &&& coinciden(s.dibujo, t.dibujo, h)
            &&& h ==> s.alto == t.alto
            &&& !h ==> s.ancho == t.ancho
        }),
    decreases children, 1 + children.len() - i,
{
    if i < children.len() {
        let hijo = children[i as int];
        let dos = por(g, ent(2));
        let w = ancho_estimado(hijo, entre(disponible, Formula::Conteo(children.len())));
        ley_direcciones(hijo, a, b, cx1, cx2, mas(y1, g), mas(y2, g), w, almacen, h);
        let s = trazado(hijo, a, cx1, mas(y1, g), w, almacen);
        let t = trazado(hijo, b, cx2, mas(y2, g), w, almacen);
        lema_fila_vista(
            children,
            i + 1,
            g,
            s.dibujo,
            t.dibujo,
            mas(cx1, mas(w, g)),
            mas(cx2, mas(w, g)),
            y1,
            y2,
            maximo(m1, mas(s.alto, dos)),
            maximo(m2, mas(t.alto, dos)),
            disponible,
            almacen,
            h,
        );
    }
}

proof fn lema_pila_vista(
    children: Seq<Diseno>,
    i: nat,
    a: Seq<Trazo>,
    b: Seq<Trazo>,
    x1: Formula,
    x2: Formula,
    y1: Formula,
    y2: Formula,
    w1: Formula,
    w2: Formula,
    m1: Formula,
    m2: Formula,
    disponible: Formula,
    almacen: Map<Seq<char>, Json>,
    h: bool,
)
    requires
        coinciden(a, b, h),
        mismo_lugar(x1, x2, y1, y2, h),
        h ==> m1 == m2,
        !h ==> w1 == w2,
    ensures
        ({
            let s = pila(children, i, a, x1, y1, w1, m1, disponible, almacen);
            let t = pila(children, i, b, x2, y2, w2, m2, disponible, almacen);
            &&& coinciden(s.dibujo, t.dibujo, h)
            &&& h ==> s.alto == t.alto
            &&& !h ==> s.ancho == t.ancho
        }),
    decreases children, 1 + children.len() - i,
{
    if i < children.len() {
        let hijo = children[i as int];
        ley_direcciones(hijo, a, b, x1, x2, y1, y2, disponible, almacen, h);
        let s = trazado(hijo, a, x1, y1, disponible, almacen);
        let t = trazado(hijo, b, x2, y2, disponible, almacen);
        lema_pila_vista(
            children,
            i + 1,
            s.dibujo,
            t.dibujo,
            x1,
            x2,
            y1,
            y2,
            maximo(w1, s.ancho),
            maximo(w2, t.ancho),
            maximo(m1, s.alto),
            maximo(m2, t.alto),
            disponible,
            almacen,
            h,
        );
    }
}

// ---------------------------------------------------------------------------
// Containers
// ---------------------------------------------------------------------------

/// A column with one more child draws what it drew without it, and below that the
/// child: where the column had come to, inside its margin, in the width between
/// its margins. It is then higher by the child and a margin. An empty column draws
/// nothing and starts below its margin.
pub proof fn ley_columna_crece(
    cs: Seq<Diseno>,
    c: Diseno,
    gap: Decimal,
    previo: Seq<Trazo>,
    x: Formula,
    y: Formula,
    disponible: Formula,
    almacen: Map<Seq<char>, Json>,
)
    ensures
        ({
            let g = Formula::Dato(gap);
            let t = trazado(
                Diseno::Column { children: cs, gap },
                previo,
                x,
                y,
                disponible,
                almacen,
            );
            let u = trazado(
                Diseno::Column { children: cs.push(c), gap },
                previo,
                x,
                y,
                disponible,
                almacen,
            );
            let cy = *t.alto->Operacion_a;
            let mayor = *t.ancho->Operacion_a;
            let hijo = trazado(
                c,
                t.dibujo,
                mas(x, g),
                cy,
                menos(disponible, por(g, ent(2))),
                almacen,
            );
            &&& t.alto == menos(cy, y)
            &&& t.ancho == maximo(mayor, disponible)
            &&& u.dibujo == hijo.dibujo
            &&& u.alto == menos(mas(cy, mas(hijo.alto, g)), y)
            &&& u.ancho == maximo(maximo(mayor, mas(hijo.ancho, por(g, ent(2)))), disponible)
            &&& cs.len() == 0 ==> t.dibujo == previo && cy == mas(y, g) && mayor == ent(0)
        }),
{
    let g = Formula::Dato(gap);
    lema_columna_crece(cs, c, 0, g, previo, x, mas(y, g), ent(0), disponible, almacen);
}

proof fn lema_columna_crece(
    cs: Seq<Diseno>,
    c: Diseno,
    i: nat,
    g: Formula,
    previo: Seq<Trazo>,
    x: Formula,
    cy: Formula,
    mayor: Formula,
    disponible: Formula,
    almacen: Map<Seq<char>, Json>,
)
    requires
        i <= cs.len(),
    ensures
        ({
            let t = columna(cs, i, g, previo, x, cy, mayor, disponible, almacen);
            let u = columna(cs.push(c), i, g, previo, x, cy, mayor, disponible, almacen);
            let hijo = trazado(
                c,
                t.dibujo,
                mas(x, g),
                t.alto,
                menos(disponible, por(g, ent(2))),
                almacen,
            );
            &&& u.dibujo == hijo.dibujo
            &&& u.alto == mas(t.alto, mas(hijo.alto, g))
            &&& u.ancho == maximo(t.ancho, mas(hijo.ancho, por(g, ent(2))))
        }),
    decreases cs.len() - i,
{
    let ds = cs.push(c);
    let hueco = menos(disponible, por(g, ent(2)));
    let s = trazado(ds[i as int], previo, mas(x, g), cy, hueco, almacen);
    let cy2 = mas(cy, mas(s.alto, g));
    let mayor2 = maximo(mayor, mas(s.ancho, por(g, ent(2))));
    if i < cs.len() {
        assert(ds[i as int] == cs[i as int]);
        lema_columna_crece(cs, c, i + 1, g, s.dibujo, x, cy2, mayor2, disponible, almacen);
    } else {
        assert(ds[i as int] == c);
        assert(columna(ds, i + 1, g, s.dibujo, x, cy2, mayor2, disponible, almacen) == (Trazado {
            dibujo: s.dibujo,
            ancho: mayor2,
            alto: cy2,
        }));
    }
}

/// A stack with one more child draws the child over what it drew without it, at
/// the place and in the width of the stack; it is as wide and as high as the
/// widest and highest of its children.
pub proof fn ley_pila_crece(
    cs: Seq<Diseno>,
    c: Diseno,
    previo: Seq<Trazo>,
    x: Formula,
    y: Formula,
    disponible: Formula,
    almacen: Map<Seq<char>, Json>,
)
    ensures
        ({
            let t = trazado(Diseno::ZStack(cs), previo, x, y, disponible, almacen);
            let u = trazado(Diseno::ZStack(cs.push(c)), previo, x, y, disponible, almacen);
            let hijo = trazado(c, t.dibujo, x, y, disponible, almacen);
            &&& u.dibujo == hijo.dibujo
            &&& u.ancho == maximo(t.ancho, hijo.ancho)
            &&& u.alto == maximo(t.alto, hijo.alto)
            &&& cs.len() == 0 ==> t.dibujo == previo && t.ancho == ent(0) && t.alto == ent(0)
        }),
{
    lema_pila_crece(cs, c, 0, previo, x, y, ent(0), ent(0), disponible, almacen);
}

proof fn lema_pila_crece(
    cs: Seq<Diseno>,
    c: Diseno,
    i: nat,
    previo: Seq<Trazo>,
    x: Formula,
    y: Formula,
    ancho: Formula,
    alto: Formula,
    disponible: Formula,
    almacen: Map<Seq<char>, Json>,
)
    requires
        i <= cs.len(),
    ensures
        ({
            let t = pila(cs, i, previo, x, y, ancho, alto, disponible, almacen);
            let u = pila(cs.push(c), i, previo, x, y, ancho, alto, disponible, almacen);
            let hijo = trazado(c, t.dibujo, x, y, disponible, almacen);
            &&& u.dibujo == hijo.dibujo
            &&& u.ancho == maximo(t.ancho, hijo.ancho)
            &&& u.alto == maximo(t.alto, hijo.alto)
        }),
    decreases cs.len() - i,
{
    let ds = cs.push(c);
    let s = trazado(ds[i as int], previo, x, y, disponible, almacen);
    let w = maximo(ancho, s.ancho);
    let m = maximo(alto, s.alto);
    if i < cs.len() {
        assert(ds[i as int] == cs[i as int]);
        lema_pila_crece(cs, c, i + 1, s.dibujo, x, y, w, m, disponible, almacen);
    } else {
        assert(ds[i as int] == c);
        assert(pila(ds, i + 1, s.dibujo, x, y, w, m, disponible, almacen) == (Trazado {
            dibujo: s.dibujo,
            ancho: w,
            alto: m,
        }));
    }
}

/// The width of the `k`-th child of a row: an equal part of the row's, unless the
/// child has one of its own.
pub open spec fn ancho_en_fila(cs: Seq<Diseno>, k: int, disponible: Formula) -> Formula {
    ancho_estimado(cs[k], entre(disponible, Formula::Conteo(cs.len())))
}

/// Where the `k`-th child of a row stands: after the margin, and after the width
/// of each child before it and a margin.
pub open spec fn lugar_en_fila(
    cs: Seq<Diseno>,
    k: nat,
    g: Formula,
    x: Formula,
    disponible: Formula,
) -> Formula
    decreases k,
{
    if k == 0 {
        mas(x, g)
    } else {
        mas(
            lugar_en_fila(cs, (k - 1) as nat, g, x, disponible),
            mas(ancho_en_fila(cs, k - 1, disponible), g),
        )
    }
}

/// What a row has drawn after its first `k` children, each at its place and all a
/// margin below the top of the row, and the height of the highest by then.
pub open spec fn hasta_el_hijo(
    cs: Seq<Diseno>,
    k: nat,
    g: Formula,
    previo: Seq<Trazo>,
    x: Formula,
    y: Formula,
    disponible: Formula,
    almacen: Map<Seq<char>, Json>,
) -> (Seq<Trazo>, Formula)
    decreases k,
{
    if k == 0 {
        (previo, ent(0))
    } else {
        let (d, m) = hasta_el_hijo(cs, (k - 1) as nat, g, previo, x, y, disponible, almacen);
        let t = trazado(
            cs[k - 1],
            d,
            lugar_en_fila(cs, (k - 1) as nat, g, x, disponible),
            mas(y, g),
            ancho_en_fila(cs, k - 1, disponible),
            almacen,
        );
        (t.dibujo, maximo(m, mas(t.alto, por(g, ent(2)))))
    }
}

/// A row draws its children side by side, each at its place and a margin below the
/// top; it is as wide as the place after the last one, and as high as the highest
/// child with its margins, but not less than forty.
pub proof fn ley_fila(
    cs: Seq<Diseno>,
    gap: Decimal,
    previo: Seq<Trazo>,
    x: Formula,
    y: Formula,
    disponible: Formula,
    almacen: Map<Seq<char>, Json>,
)
    ensures
        ({
            let g = Formula::Dato(gap);
            let t = trazado(
                Diseno::Row { children: cs, gap },
                previo,
                x,
                y,
                disponible,
                almacen,
            );
            let (d, m) = hasta_el_hijo(cs, cs.len(), g, previo, x, y, disponible, almacen);
            &&& t.dibujo == d
            &&& t.ancho == menos(lugar_en_fila(cs, cs.len(), g, x, disponible), x)
            &&& t.alto == maximo(m, ent(40))
        }),
{
    lema_fila(cs, 0, Formula::Dato(gap), previo, x, y, disponible, almacen);
}

proof fn lema_fila(
    cs: Seq<Diseno>,
    k: nat,
    g: Formula,
    previo: Seq<Trazo>,
    x: Formula,
    y: Formula,
    disponible: Formula,
    almacen: Map<Seq<char>, Json>,
)
    requires
        k <= cs.len(),
    ensures
        ({
            let (d, m) = hasta_el_hijo(cs, k, g, previo, x, y, disponible, almacen);
            let (e, n) = hasta_el_hijo(cs, cs.len(), g, previo, x, y, disponible, almacen);
            fila(
                cs,
                k,
                g,
                d,
                lugar_en_fila(cs, k, g, x, disponible),
                y,
                m,
                disponible,
                almacen,
            ) == (Trazado {
                dibujo: e,
                ancho: lugar_en_fila(cs, cs.len(), g, x, disponible),
                alto: n,
            })
        }),
    decreases cs.len() - k,
{
    if k < cs.len() {
        lema_fila(cs, k + 1, g, previo, x, y, disponible, almacen);
    }
}

/// A row of one child draws what the child draws a margin to the right and a
/// margin below.
pub proof fn ley_fila_de_una(
    c: Diseno,
    gap: Decimal,
    previo: Seq<Trazo>,
    x: Formula,
    y: Formula,
    disponible: Formula,
    almacen: Map<Seq<char>, Json>,
)
    ensures
        ({
            let g = Formula::Dato(gap);
            let w = ancho_estimado(c, entre(disponible, Formula::Conteo(1)));
            let t = trazado(
                Diseno::Row { children: seq![c], gap },
                previo,
                x,
                y,
                disponible,
                almacen,
            );
            let hijo = trazado(c, previo, mas(x, g), mas(y, g), w, almacen);
            &&& t.dibujo == hijo.dibujo
            &&& t.ancho == menos(mas(mas(x, g), mas(w, g)), x)
            &&& t.alto == maximo(maximo(ent(0), mas(hijo.alto, por(g, ent(2)))), ent(40))
        }),
{
    ley_fila(seq![c], gap, previo, x, y, disponible, almacen);
    reveal_with_fuel(lugar_en_fila, 2);
    reveal_with_fuel(hasta_el_hijo, 2);
    assert(seq![c][0] == c);
}

// ---------------------------------------------------------------------------
// Texts
// ---------------------------------------------------------------------------

/// A label of a variable that is not there shows its name between two opening and
/// two closing braces; one of a variable that is there shows its value.
pub proof fn ley_texto_de_variable(
    variable: Seq<char>,
    j: Json,
    almacen: Map<Seq<char>, Json>,
)
    ensures
        !almacen.contains_key(variable) ==> texto_de_variable(variable, almacen)
            == TextoVista::Literal(seq!['{', '{'] + variable + seq!['}', '}']),
        texto_de_variable(variable, almacen.insert(variable, j)) == texto_de_valor(de_json(j)),
{
    reveal_strlit("{{");
    reveal_strlit("}}");
    assert("{{"@ =~= seq!['{', '{']);
    assert("}}"@ =~= seq!['}', '}']);
}

/// A decimal is drawn in the style in which the host is asked to show it, with one
/// digit after the point exactly where it is whole.
pub proof fn ley_texto_de_decimal(d: Decimal, usadas: nat)
    ensures
        texto_de_valor(Valor::Decimal(d)) matches TextoVista::Decimal(e, estilo) && {
            &&& e == d
            &&& mostrado(Valor::Decimal(d), Seq::empty(), usadas).0 == Err::<
                Seq<char>,
                Interrupcion,
            >(Interrupcion::Pendiente(PedidoVista::Mostrar(d, estilo)))
            &&& estilo is UnDigito == d.entero()
        },
{
}

/// The bytes of a character.
pub open spec fn bytes_de(c: char) -> nat {
    if (c as u32) < 0x80 {
        1
    } else if (c as u32) < 0x800 {
        2
    } else if (c as u32) < 0x1_0000 {
        3
    } else {
        4
    }
}

/// The length of a text is the bytes of its characters; that of the text of a
/// decimal is for the host to tell.
pub proof fn ley_largo_en_bytes(c: char, t: Seq<char>, d: Decimal, e: Estilo)
    ensures
        largo_de_texto(TextoVista::Literal(Seq::empty())) == Formula::Conteo(0),
        largo_de_texto(TextoVista::Literal(t)) matches Formula::Conteo(n) && largo_de_texto(
            TextoVista::Literal(seq![c] + t),
        ) == Formula::Conteo(n + bytes_de(c)),
        largo_de_texto(TextoVista::Decimal(d, e)) == Formula::Largo(d, e),
{
    assert((seq![c] + t).drop_first() =~= t);
    assert((seq![c] + t)[0] == c);
}

// ---------------------------------------------------------------------------
// Widgets, in exact numbers
// ---------------------------------------------------------------------------

/// The lesser of two numbers.
pub open spec fn menor_de(a: int, b: int) -> int {
    if a < b {
        a
    } else {
        b
    }
}

/// The greater of two numbers.
pub open spec fn mayor_de(a: int, b: int) -> int {
    if a < b {
        b
    } else {
        a
    }
}

/// What an operation gives in exact whole numbers. Quotients are rounded down.
pub open spec fn resultado(op: OpMedida, p: int, q: int) -> int {
    match op {
        OpMedida::Suma => p + q,
        OpMedida::Resta => p - q,
        OpMedida::Producto => p * q,
        OpMedida::Cociente => p / q,
        OpMedida::Maximo => mayor_de(p, q),
        OpMedida::Minimo => menor_de(p, q),
    }
}

/// What a measure comes to in exact whole numbers, where the decimals in it, and
/// the lengths of their texts, come to what `dato` says.
pub open spec fn cuanto(f: Formula, dato: spec_fn(Formula) -> int) -> int
    decreases f,
{
    match f {
        Formula::Entera(n) => n,
        Formula::Conteo(n) => n as int,
        Formula::Operacion { op, a, b } => resultado(op, cuanto(*a, dato), cuanto(*b, dato)),
        _ => dato(f),
    }
}

proof fn lema_cuanto(a: Formula, b: Formula, n: int, dato: spec_fn(Formula) -> int)
    ensures
        cuanto(mas(a, b), dato) == cuanto(a, dato) + cuanto(b, dato),
        cuanto(menos(a, b), dato) == cuanto(a, dato) - cuanto(b, dato),
        cuanto(por(a, b), dato) == cuanto(a, dato) * cuanto(b, dato),
        cuanto(entre(a, b), dato) == cuanto(a, dato) / cuanto(b, dato),
        cuanto(maximo(a, b), dato) == (if cuanto(a, dato) < cuanto(b, dato) {
            cuanto(b, dato)
        } else {
            cuanto(a, dato)
        }),
        cuanto(minimo(a, b), dato) == (if cuanto(a, dato) < cuanto(b, dato) {
            cuanto(a, dato)
        } else {
            cuanto(b, dato)
        }),
        cuanto(ent(n), dato) == n,
{
}

/// Whether these are the values of the measures, each computed by itself or from
/// the values of earlier ones.
pub open spec fn calculadas(
    medidas: Seq<Medida>,
    valores: Seq<int>,
    dato: spec_fn(Formula) -> int,
) -> bool {
    &&& valores.len() == medidas.len()
    &&& forall|i: int|
        0 <= i < medidas.len() ==> valores[i] == (match #[trigger] medidas[i] {
            Medida::Entera(n) => n as int,
            Medida::Conteo(n) => n as int,
            Medida::Dato(d) => dato(Formula::Dato(d)),
            Medida::Largo(d, e) => dato(Formula::Largo(d, e)),
            Medida::Operacion { op, a, b } => resultado(op, valores[a as int], valores[b as int]),
        })
}

/// Measures that are computed one after the other come to what they are written
/// out as.
pub proof fn ley_medidas_calculadas(
    lienzo: Lienzo,
    valores: Seq<int>,
    i: usize,
    dato: spec_fn(Formula) -> int,
)
    requires
        lienzo.bien_formado(),
        calculadas(lienzo.medidas@, valores, dato),
        lienzo.hay(i),
    ensures
        cuanto(lienzo.medida(i), dato) == valores[i as int],
    decreases i,
{
    reveal(Lienzo::bien_formado);
    reveal_with_fuel(formula, 1);
    if let Medida::Operacion { a, b, .. } = lienzo.medidas@[i as int] {
        ley_medidas_calculadas(lienzo, valores, a, dato);
        ley_medidas_calculadas(lienzo, valores, b, dato);
    }
}

/// Whether an order, with these values for the measures, draws that.
pub open spec fn ordena(
    o: Orden,
    t: Trazo,
    valores: Seq<int>,
    dato: spec_fn(Formula) -> int,
) -> bool {
    match (o, t) {
        (Orden::Fuente(a), Trazo::Fuente(b)) => a@ == b,
        (Orden::Relleno(a), Trazo::Relleno(b)) => a@ == b,
        (Orden::Trazo(a), Trazo::Trazo(b)) => a@ == b,
        (Orden::Grosor(a), Trazo::Grosor(b)) => valores[a as int] == cuanto(b, dato),
        (Orden::Texto { texto, x, y }, Trazo::Texto { texto: u, x: p, y: q }) => {
            &&& texto@ == u
            &&& valores[x as int] == cuanto(p, dato)
            &&& valores[y as int] == cuanto(q, dato)
        },
        (Orden::IniciarTrayecto, Trazo::IniciarTrayecto) => true,
        (Orden::MoverA { x, y }, Trazo::MoverA { x: p, y: q }) => {
            &&& valores[x as int] == cuanto(p, dato)
            &&& valores[y as int] == cuanto(q, dato)
        },
        (Orden::LineaA { x, y }, Trazo::LineaA { x: p, y: q }) => {
            &&& valores[x as int] == cuanto(p, dato)
            &&& valores[y as int] == cuanto(q, dato)
        },
        (
            Orden::Arco { x, y, radio, desde, hasta },
            Trazo::Arco { x: p, y: q, radio: r, desde: d, hasta: h },
        ) => {
            &&& valores[x as int] == cuanto(p, dato)
            &&& valores[y as int] == cuanto(q, dato)
            &&& valores[radio as int] == cuanto(r, dato)
            &&& desde == d
            &&& hasta == h
        },
        (Orden::CerrarTrayecto, Trazo::CerrarTrayecto) => true,
        (Orden::Rellenar, Trazo::Rellenar) => true,
        (Orden::Trazar, Trazo::Trazar) => true,
        (
            Orden::LimpiarRect { x, y, ancho, alto },
            Trazo::LimpiarRect { x: p, y: q, ancho: a, alto: h },
        ) => {
            &&& valores[x as int] == cuanto(p, dato)
            &&& valores[y as int] == cuanto(q, dato)
            &&& valores[ancho as int] == cuanto(a, dato)
            &&& valores[alto as int] == cuanto(h, dato)
        },
        (
            Orden::RellenarRect { x, y, ancho, alto },
            Trazo::RellenarRect { x: p, y: q, ancho: a, alto: h },
        ) => {
            &&& valores[x as int] == cuanto(p, dato)
            &&& valores[y as int] == cuanto(q, dato)
            &&& valores[ancho as int] == cuanto(a, dato)
            &&& valores[alto as int] == cuanto(h, dato)
        },
        (
            Orden::Area { x, y, ancho, alto, derecha, abajo, layout },
            Trazo::Area { x: p, y: q, ancho: a, alto: h, derecha: d, abajo: b, layout: l },
        ) => {
            &&& valores[x as int] == cuanto(p, dato)
            &&& valores[y as int] == cuanto(q, dato)
            &&& valores[ancho as int] == cuanto(a, dato)
            &&& valores[alto as int] == cuanto(h, dato)
            &&& valores[derecha as int] == cuanto(d, dato)
            &&& valores[abajo as int] == cuanto(b, dato)
            &&& layout@ == l
        },
        _ => false,
    }
}

/// The orders given to the canvas draw the drawing, one each, once the measures
/// are computed.
pub proof fn ley_ordenes(
    lienzo: Lienzo,
    valores: Seq<int>,
    i: int,
    dato: spec_fn(Formula) -> int,
)
    requires
        lienzo.bien_formado(),
        calculadas(lienzo.medidas@, valores, dato),
        0 <= i < lienzo.ordenes@.len(),
    ensures
        lienzo.dibujo().len() == lienzo.ordenes@.len(),
        ordena(lienzo.ordenes@[i], lienzo.dibujo()[i], valores, dato),
{
    reveal(Lienzo::dibujo);
    reveal(Lienzo::bien_formado);
    let o = lienzo.ordenes@[i];
    assert(o.usa_hasta(lienzo.medidas@.len()));
    assert forall|k: usize| lienzo.hay(k) implies cuanto(#[trigger] lienzo.medida(k), dato)
        == valores[k as int] by {
        ley_medidas_calculadas(lienzo, valores, k, dato);
    }
}

/// A label is drawn four to the right and twenty below, takes 28 in height, and in
/// width eight for each byte of its text and sixteen more, as far as there is room,
/// but not less than twenty.
pub proof fn ley_medidas_de_etiqueta(
    texto: TextoVista,
    previo: Seq<Trazo>,
    x: Formula,
    y: Formula,
    disponible: Formula,
    dato: spec_fn(Formula) -> int,
)
    ensures
        ({
            let t = etiqueta(previo, texto, x, y, disponible);
            let n = previo.len() as int;
            let o = t.dibujo[n + 2];
            &&& t.dibujo.len() == n + 3
            &&& t.dibujo[n] == Trazo::Fuente("14px sans-serif"@)
            &&& t.dibujo[n + 1] == Trazo::Relleno(COLOR_ON_SURFACE@)
            &&& o is Texto && o->Texto_texto == texto
            &&& cuanto(o->Texto_x, dato) == cuanto(x, dato) + 4
            &&& cuanto(o->Texto_y, dato) == cuanto(y, dato) + 20
            &&& cuanto(t.alto, dato) == 28
            &&& cuanto(t.ancho, dato) == mayor_de(
                menor_de(8 * cuanto(largo_de_texto(texto), dato) + 16, cuanto(disponible, dato)),
                20,
            )
        }),
{
    let largo = largo_de_texto(texto);
    let justo = mas(por(largo, ent(8)), ent(16));
    lema_cuanto(x, ent(4), 4, dato);
    lema_cuanto(y, ent(20), 20, dato);
    lema_cuanto(largo, ent(8), 8, dato);
    lema_cuanto(por(largo, ent(8)), ent(16), 16, dato);
    lema_cuanto(justo, disponible, 0, dato);
    lema_cuanto(minimo(justo, disponible), ent(20), 28, dato);
    let k = cuanto(largo, dato);
    assert(k * 8 == 8 * k) by (nonlinear_arith);
}

/// Labels of a text and of a variable are drawn as labels: the text itself, and
/// the variable's text. A title is drawn larger, four to the right and 24 below; a
/// call that is no widget in the colour of errors after a warning sign; a spacer
/// draws nothing and only takes room.
pub proof fn ley_medidas_de_textos(
    t: Seq<char>,
    tam: Decimal,
    previo: Seq<Trazo>,
    x: Formula,
    y: Formula,
    disponible: Formula,
    almacen: Map<Seq<char>, Json>,
    dato: spec_fn(Formula) -> int,
)
    ensures
        trazado(Diseno::Label { texto: t }, previo, x, y, disponible, almacen) == etiqueta(
            previo,
            TextoVista::Literal(t),
            x,
            y,
            disponible,
        ),
        trazado(Diseno::VariableLabel { variable: t }, previo, x, y, disponible, almacen)
            == etiqueta(previo, texto_de_variable(t, almacen), x, y, disponible),
        ({
            let r = trazado(Diseno::Title(t), previo, x, y, disponible, almacen);
            let n = previo.len() as int;
            let o = r.dibujo[n + 2];
            &&& r.dibujo.len() == n + 3
            &&& r.dibujo[n] == Trazo::Fuente("bold 20px sans-serif"@)
            &&& r.dibujo[n + 1] == Trazo::Relleno(COLOR_ON_SURFACE@)
            &&& o is Texto && o->Texto_texto == TextoVista::Literal(t)
            &&& cuanto(o->Texto_x, dato) == cuanto(x, dato) + 4
            &&& cuanto(o->Texto_y, dato) == cuanto(y, dato) + 24
            &&& cuanto(r.alto, dato) == 32
            &&& cuanto(r.ancho, dato) == mayor_de(cuanto(disponible, dato), 100)
        }),
        ({
            let r = trazado(Diseno::Unimplemented(t), previo, x, y, disponible, almacen);
            let n = previo.len() as int;
            let o = r.dibujo[n + 2];
            &&& r.dibujo.len() == n + 3
            &&& r.dibujo[n] == Trazo::Relleno(COLOR_ERROR@)
            &&& r.dibujo[n + 1] == Trazo::Fuente("12px sans-serif"@)
            &&& o is Texto && o->Texto_texto == TextoVista::Literal("⚠ "@ + t)
            &&& cuanto(o->Texto_x, dato) == cuanto(x, dato) + 4
            &&& cuanto(o->Texto_y, dato) == cuanto(y, dato) + 16
            &&& cuanto(r.alto, dato) == 24
            &&& cuanto(r.ancho, dato) == cuanto(disponible, dato)
        }),
        ({
            let r = trazado(Diseno::Spacer(tam), previo, x, y, disponible, almacen);
            &&& r.dibujo == previo
            &&& r.ancho == disponible
            &&& cuanto(r.alto, dato) == dato(Formula::Dato(tam))
        }),
{
    lema_cuanto(x, ent(4), 4, dato);
    lema_cuanto(y, ent(24), 24, dato);
    lema_cuanto(y, ent(16), 16, dato);
    lema_cuanto(disponible, ent(100), 100, dato);
}

/// Where an arc of a circle is at an angle, from its centre.
pub open spec fn punto_del_arco(angulo: Angulo, radio: int) -> (int, int) {
    match angulo {
        Angulo::MenosMedioPi => (0, -radio),
        Angulo::Cero => (radio, 0),
        Angulo::MedioPi => (0, radio),
        Angulo::Pi => (-radio, 0),
    }
}

/// Whether an order of a path is a move or a line to a point.
pub open spec fn va_a(t: Trazo, px: int, py: int, dato: spec_fn(Formula) -> int) -> bool {
    match t {
        Trazo::MoverA { x, y } => cuanto(x, dato) == px && cuanto(y, dato) == py,
        Trazo::LineaA { x, y } => cuanto(x, dato) == px && cuanto(y, dato) == py,
        _ => false,
    }
}

/// Whether an order is an arc of that radius from one point to another, a quarter
/// turn to the right.
pub open spec fn dobla(
    t: Trazo,
    radio: int,
    px: int,
    py: int,
    qx: int,
    qy: int,
    dato: spec_fn(Formula) -> int,
) -> bool {
    match t {
        Trazo::Arco { x, y, radio: r, desde, hasta } => {
            &&& cuanto(r, dato) == radio
            &&& cuanto(x, dato) + punto_del_arco(desde, radio).0 == px
            &&& cuanto(y, dato) + punto_del_arco(desde, radio).1 == py
            &&& cuanto(x, dato) + punto_del_arco(hasta, radio).0 == qx
            &&& cuanto(y, dato) + punto_del_arco(hasta, radio).1 == qy
            &&& (desde is MenosMedioPi && hasta is Cero) || (desde is Cero && hasta is MedioPi) || (
            desde is MedioPi && hasta is Pi) || (desde is Pi && hasta is MenosMedioPi)
        },
        _ => false,
    }
}

/// The outline of a rectangle goes along its four sides, each arc going on from the
/// line before it to the side after it, and comes back to where it began. The
/// corners are as round as asked, but never more than half a side.
pub proof fn ley_contorno(
    previo: Seq<Trazo>,
    x: Formula,
    y: Formula,
    w: Formula,
    h: Formula,
    r: Formula,
    dato: spec_fn(Formula) -> int,
)
    ensures
        ({
            let d = contorno(previo, x, y, w, h, r);
            let n = previo.len() as int;
            let (px, py) = (cuanto(x, dato), cuanto(y, dato));
            let (pw, ph) = (cuanto(w, dato), cuanto(h, dato));
            let q = menor_de(menor_de(cuanto(r, dato), pw / 2), ph / 2);
            let (der, aba) = (px + pw, py + ph);
            &&& d.len() == n + 11
            &&& d.take(n) == previo
            &&& d[n] is IniciarTrayecto
            &&& d[n + 1] is MoverA && va_a(d[n + 1], px + q, py, dato)
            &&& d[n + 2] is LineaA && va_a(d[n + 2], der - q, py, dato)
            &&& dobla(d[n + 3], q, der - q, py, der, py + q, dato)
            &&& d[n + 4] is LineaA && va_a(d[n + 4], der, aba - q, dato)
            &&& dobla(d[n + 5], q, der, aba - q, der - q, aba, dato)
            &&& d[n + 6] is LineaA && va_a(d[n + 6], px + q, aba, dato)
            &&& dobla(d[n + 7], q, px + q, aba, px, aba - q, dato)
            &&& d[n + 8] is LineaA && va_a(d[n + 8], px, py + q, dato)
            &&& dobla(d[n + 9], q, px, py + q, px + q, py, dato)
            &&& d[n + 10] is CerrarTrayecto
        }),
{
    reveal(contorno);
    let d = contorno(previo, x, y, w, h, r);
    let radio = minimo(minimo(r, entre(w, ent(2))), entre(h, ent(2)));
    lema_cuanto(w, ent(2), 2, dato);
    lema_cuanto(h, ent(2), 2, dato);
    lema_cuanto(r, entre(w, ent(2)), 2, dato);
    lema_cuanto(minimo(r, entre(w, ent(2))), entre(h, ent(2)), 2, dato);
    lema_cuanto(x, radio, 0, dato);
    lema_cuanto(x, w, 0, dato);
    lema_cuanto(mas(x, w), radio, 0, dato);
    lema_cuanto(y, radio, 0, dato);
    lema_cuanto(y, h, 0, dato);
    lema_cuanto(mas(y, h), radio, 0, dato);
    assert(d.take(previo.len() as int) =~= previo);
}

/// Whether an order marks an area at a place, and of which size.
pub open spec fn marca(
    t: Trazo,
    x: int,
    y: int,
    ancho: int,
    alto: int,
    layout: Diseno,
    dato: spec_fn(Formula) -> int,
) -> bool {
    match t {
        Trazo::Area { x: ax, y: ay, ancho: aa, alto: ah, derecha, abajo, layout: l } => {
            &&& cuanto(ax, dato) == x
            &&& cuanto(ay, dato) == y
            &&& cuanto(aa, dato) == ancho
            &&& cuanto(ah, dato) == alto
            &&& cuanto(derecha, dato) == x + ancho
            &&& cuanto(abajo, dato) == y + alto
            &&& l == layout
        },
        _ => false,
    }
}

/// A button is drawn, and answers to clicks, at its place: its background has the
/// outline of its area, and its shadow the same outline two to the right and two
/// below. It is as wide as there is room, from 80 to 300, and 38 high; it takes
/// four more in height. Its text is 25 below the top and as far from the one edge
/// as, by its estimated width, from the other.
pub proof fn ley_medidas_de_boton(
    texto: Seq<char>,
    callback: Seq<char>,
    previo: Seq<Trazo>,
    x: Formula,
    y: Formula,
    disponible: Formula,
    almacen: Map<Seq<char>, Json>,
    dato: spec_fn(Formula) -> int,
)
    ensures
        ({
            let l = Diseno::Button { texto, callback };
            let t = trazado(l, previo, x, y, disponible, almacen);
            let d = t.dibujo;
            let n = previo.len() as int;
            let (px, py) = (cuanto(x, dato), cuanto(y, dato));
            let ancho = menor_de(mayor_de(cuanto(disponible, dato), 80), 300);
            let estimado = menor_de(
                9 * cuanto(largo_de_texto(TextoVista::Literal(texto)), dato),
                ancho - 16,
            );
            let a = d[n + 29];
            let o = d[n + 28];
            &&& d.len() == n + 30
            &&& cuanto(t.ancho, dato) == ancho
            &&& cuanto(t.alto, dato) == 42
            &&& marca(a, px, py, ancho, 38, l, dato)
            &&& d.take(n + 12) == contorno(
                d.take(n + 1),
                mas(a->Area_x, ent(2)),
                mas(a->Area_y, ent(2)),
                a->Area_ancho,
                a->Area_alto,
                ent(20),
            )
            &&& d.take(n + 25) == contorno(
                d.take(n + 14),
                a->Area_x,
                a->Area_y,
                a->Area_ancho,
                a->Area_alto,
                ent(20),
            )
            &&& d.take(n) == previo
            &&& d[n] == Trazo::Relleno("rgba(0,0,0,0.15)"@)
            &&& d[n + 12] is Rellenar
            &&& d[n + 13] == Trazo::Relleno(COLOR_PRIMARY@)
            &&& d[n + 25] is Rellenar
            &&& d[n + 26] == Trazo::Relleno(COLOR_ON_PRIMARY@)
            &&& d[n + 27] == Trazo::Fuente("bold 14px sans-serif"@)
            &&& o is Texto && o->Texto_texto == TextoVista::Literal(texto)
            &&& cuanto(o->Texto_y, dato) == py + 25
            &&& cuanto(o->Texto_x, dato) == px + (ancho - estimado) / 2
        }),
{
    let l = Diseno::Button { texto, callback };
    let t = trazado(l, previo, x, y, disponible, almacen);
    let d = t.dibujo;
    let n = previo.len() as int;
    let ancho = minimo(maximo(disponible, ent(80)), ent(300));
    let alto = ent(38);
    let p1 = previo.push(Trazo::Relleno("rgba(0,0,0,0.15)"@));
    let c1 = contorno(p1, mas(x, ent(2)), mas(y, ent(2)), ancho, alto, ent(20));
    ley_contorno(p1, mas(x, ent(2)), mas(y, ent(2)), ancho, alto, ent(20), dato);
    let p2 = c1.push(Trazo::Rellenar).push(Trazo::Relleno(COLOR_PRIMARY@));
    let c2 = contorno(p2, x, y, ancho, alto, ent(20));
    ley_contorno(p2, x, y, ancho, alto, ent(20), dato);
    assert(d.len() == n + 30);
    assert forall|i: int| 0 <= i < n + 1 implies d[i] == p1[i] by {
        assert(c1.take(n + 1)[i] == c1[i]);
        assert(c2.take(n + 14)[i] == c2[i]);
    }
    assert(d.take(n + 1) =~= p1);
    assert forall|i: int| 0 <= i < n + 12 implies d[i] == c1[i] by {
        assert(c2.take(n + 14)[i] == c2[i]);
    }
    assert(d.take(n + 12) =~= c1);
    assert forall|i: int| 0 <= i < n + 14 implies d[i] == p2[i] by {
        assert(c2.take(n + 14)[i] == c2[i]);
    }
    assert(d.take(n + 14) =~= p2);
    assert(d.take(n + 25) =~= c2);
    assert(d.take(n) =~= previo);
    let largo = largo_de_texto(TextoVista::Literal(texto));
    let estimado = minimo(por(largo, ent(9)), menos(ancho, ent(16)));
    lema_cuanto(disponible, ent(80), 80, dato);
    lema_cuanto(maximo(disponible, ent(80)), ent(300), 300, dato);
    lema_cuanto(largo, ent(9), 9, dato);
    lema_cuanto(ancho, ent(16), 16, dato);
    lema_cuanto(por(largo, ent(9)), menos(ancho, ent(16)), 38, dato);
    lema_cuanto(ancho, estimado, 2, dato);
    lema_cuanto(menos(ancho, estimado), ent(2), 2, dato);
    lema_cuanto(x, entre(menos(ancho, estimado), ent(2)), 25, dato);
    lema_cuanto(y, ent(25), 4, dato);
    lema_cuanto(alto, ent(4), 0, dato);
    lema_cuanto(x, ancho, 0, dato);
    lema_cuanto(y, alto, 0, dato);
    let k = cuanto(largo, dato);
    assert(k * 9 == 9 * k) by (nonlinear_arith);
}

/// A text field is drawn, and answers to clicks, at its place: its background has
/// the outline of its area and the line under it goes along the lower edge of
/// that. It is as wide as there is room, but not less than 120, and 38 high; it
/// takes four more in height. Its text, eight to the right and 25 below, is what a
/// label of its variable shows; the text that stands in for one, in its own colour,
/// where there is no such variable or where it shows nothing.
pub proof fn ley_medidas_de_campo(
    variable: Seq<char>,
    placeholder: Seq<char>,
    previo: Seq<Trazo>,
    x: Formula,
    y: Formula,
    disponible: Formula,
    almacen: Map<Seq<char>, Json>,
    dato: spec_fn(Formula) -> int,
)
    ensures
        ({
            let l = Diseno::TextInput { variable, placeholder };
            let t = trazado(l, previo, x, y, disponible, almacen);
            let d = t.dibujo;
            let n = previo.len() as int;
            let (px, py) = (cuanto(x, dato), cuanto(y, dato));
            let ancho = mayor_de(cuanto(disponible, dato), 120);
            let a = d[n + 22];
            let o = d[n + 21];
            let v = texto_de_variable(variable, almacen);
            let lleno = almacen.contains_key(variable) && !(v is Literal && v->Literal_0.len()
                == 0);
            &&& d.len() == n + 23
            &&& cuanto(t.ancho, dato) == ancho
            &&& cuanto(t.alto, dato) == 42
            &&& marca(a, px, py, ancho, 38, l, dato)
            &&& d.take(n) == previo
            &&& d[n] == Trazo::Relleno(COLOR_SURFACE_VARIANT@)
            &&& d.take(n + 12) == contorno(
                d.take(n + 1),
                a->Area_x,
                a->Area_y,
                a->Area_ancho,
                a->Area_alto,
                ent(4),
            )
            &&& d[n + 12] is Rellenar
            &&& d[n + 13] == Trazo::Trazo(COLOR_OUTLINE@)
            &&& d[n + 14] is Grosor && cuanto(d[n + 14]->Grosor_0, dato) == 1
            &&& d[n + 15] is IniciarTrayecto
            &&& d[n + 16] is MoverA && va_a(d[n + 16], px, py + 38, dato)
            &&& d[n + 17] is LineaA && va_a(d[n + 17], px + ancho, py + 38, dato)
            &&& d[n + 18] is Trazar
            &&& d[n + 19] == Trazo::Relleno(
                if lleno {
                    COLOR_ON_SURFACE@
                } else {
                    COLOR_ON_SURFACE_VARIANT@
                },
            )
            &&& d[n + 20] == Trazo::Fuente("14px sans-serif"@)
            &&& o is Texto && o->Texto_texto == (if lleno {
                v
            } else {
                TextoVista::Literal(placeholder)
            })
            &&& cuanto(o->Texto_x, dato) == px + 8
            &&& cuanto(o->Texto_y, dato) == py + 25
        }),
{
    let l = Diseno::TextInput { variable, placeholder };
    let t = trazado(l, previo, x, y, disponible, almacen);
    let d = t.dibujo;
    let n = previo.len() as int;
    let ancho = maximo(disponible, ent(120));
    let alto = ent(38);
    let p1 = previo.push(Trazo::Relleno(COLOR_SURFACE_VARIANT@));
    let c1 = contorno(p1, x, y, ancho, alto, ent(4));
    ley_contorno(p1, x, y, ancho, alto, ent(4), dato);
    assert(d.len() == n + 23);
    assert forall|i: int| 0 <= i < n + 1 implies d[i] == p1[i] by {
        assert(c1.take(n + 1)[i] == c1[i]);
    }
    assert(d.take(n + 1) =~= p1);
    assert(d.take(n + 12) =~= c1);
    assert(d.take(n) =~= previo);
    reveal_strlit("");
    lema_cuanto(disponible, ent(120), 120, dato);
    lema_cuanto(x, ent(8), 8, dato);
    lema_cuanto(y, ent(25), 25, dato);
    lema_cuanto(alto, ent(4), 4, dato);
    lema_cuanto(x, ancho, 38, dato);
    lema_cuanto(y, alto, 1, dato);
}

/// In a row a label and a title are given eight for each byte and sixteen more, up
/// to 250; a variable 100; a button nine for each byte and 32 more, from 80 to 200;
/// a text field 150; a spacer its size; and anything else its part of the row.
pub proof fn ley_anchos_en_fila(
    t: Seq<char>,
    u: Seq<char>,
    tam: Decimal,
    cs: Seq<Diseno>,
    por_defecto: Formula,
    dato: spec_fn(Formula) -> int,
)
    ensures
        ({
            let largo = cuanto(largo_de_texto(TextoVista::Literal(t)), dato);
            let justo = menor_de(8 * largo + 16, 250);
            &&& cuanto(ancho_estimado(Diseno::Label { texto: t }, por_defecto), dato) == justo
            &&& cuanto(ancho_estimado(Diseno::Title(t), por_defecto), dato) == justo
            &&& cuanto(ancho_estimado(Diseno::VariableLabel { variable: t }, por_defecto), dato)
                == 100
            &&& cuanto(
                ancho_estimado(Diseno::Button { texto: t, callback: u }, por_defecto),
                dato,
            ) == menor_de(mayor_de(9 * largo + 32, 80), 200)
            &&& cuanto(
                ancho_estimado(Diseno::TextInput { variable: t, placeholder: u }, por_defecto),
                dato,
            ) == 150
            &&& ancho_estimado(Diseno::Spacer(tam), por_defecto) == Formula::Dato(tam)
            &&& ancho_estimado(Diseno::Unimplemented(t), por_defecto) == por_defecto
            &&& ancho_estimado(Diseno::Column { children: cs, gap: tam }, por_defecto)
                == por_defecto
            &&& ancho_estimado(Diseno::Row { children: cs, gap: tam }, por_defecto) == por_defecto
            &&& ancho_estimado(Diseno::ZStack(cs), por_defecto) == por_defecto
        }),
{
    let largo = largo_de_texto(TextoVista::Literal(t));
    lema_cuanto(largo, ent(8), 8, dato);
    lema_cuanto(por(largo, ent(8)), ent(16), 16, dato);
    lema_cuanto(mas(por(largo, ent(8)), ent(16)), ent(250), 250, dato);
    lema_cuanto(largo, ent(9), 9, dato);
    lema_cuanto(por(largo, ent(9)), ent(32), 32, dato);
    let j = mas(por(largo, ent(9)), ent(32));
    lema_cuanto(j, ent(80), 80, dato);
    lema_cuanto(maximo(j, ent(80)), ent(200), 200, dato);
    let k = cuanto(largo, dato);
    assert(k * 8 == 8 * k && k * 9 == 9 * k) by (nonlinear_arith);
}

// ---------------------------------------------------------------------------
// The screen
// ---------------------------------------------------------------------------

/// The screen is cleared and filled with the background from corner to corner; a
/// layout is drawn over that, ten from the left and from the top, in what is left
/// of the width ten from the right.
pub proof fn ley_pantalla(l: Diseno, ancho: int, alto: int, almacen: Map<Seq<char>, Json>)
    ensures
        ({
            let f = pantalla(None, ancho, alto, almacen);
            let (cero, w, h) = (ent(0), ent(ancho), ent(alto));
            &&& f.len() == 3
            &&& f[0] == (Trazo::LimpiarRect { x: cero, y: cero, ancho: w, alto: h })
            &&& f[1] == Trazo::Relleno(COLOR_BACKGROUND@)
            &&& f[2] == (Trazo::RellenarRect { x: cero, y: cero, ancho: w, alto: h })
            &&& f == fondo(ancho, alto)
            &&& pantalla(Some(l), ancho, alto, almacen) == trazado(
                l,
                f,
                ent(10),
                ent(10),
                menos(w, ent(20)),
                almacen,
            ).dibujo
        }),
{
}

/// The messages of a program that did not compile stand on the background one below
/// the other, in the colour of errors: each ten to the right, the first one thirty
/// below the top and each of the others twenty below the one before.
pub proof fn ley_pantalla_de_errores(
    errores: Seq<Seq<char>>,
    k: nat,
    i: int,
    ancho: int,
    alto: int,
    dato: spec_fn(Formula) -> int,
)
    requires
        0 <= i < k <= errores.len(),
    ensures
        ({
            let d = pantalla_de_errores(errores, k, ancho, alto);
            let o = d[5 + i];
            &&& d.len() == 5 + k
            &&& d.take(3) == fondo(ancho, alto)
            &&& d[3] == Trazo::Relleno(COLOR_ERROR@)
            &&& d[4] == Trazo::Fuente("14px sans-serif"@)
            &&& o is Texto && o->Texto_texto == TextoVista::Literal(errores[i])
            &&& cuanto(o->Texto_x, dato) == 10
            &&& cuanto(o->Texto_y, dato) == 30 + 20 * i
        }),
    decreases k,
{
    let d = pantalla_de_errores(errores, k, ancho, alto);
    let p = pantalla_de_errores(errores, (k - 1) as nat, ancho, alto);
    lema_inicio_de_errores(errores, (k - 1) as nat, ancho, alto);
    assert(d.take(3) =~= p.take(3));
    if i < k - 1 {
        ley_pantalla_de_errores(errores, (k - 1) as nat, i, ancho, alto, dato);
        assert(d[5 + i] == p[5 + i]);
    } else {
        lema_altura_de_mensaje((k - 1) as nat, dato);
        assert(d[5 + i] == d.last());
    }
}

proof fn lema_inicio_de_errores(errores: Seq<Seq<char>>, k: nat, ancho: int, alto: int)
    ensures
        ({
            let d = pantalla_de_errores(errores, k, ancho, alto);
            &&& d.len() == 5 + k
            &&& d.take(3) == fondo(ancho, alto)
            &&& d[3] == Trazo::Relleno(COLOR_ERROR@)
            &&& d[4] == Trazo::Fuente("14px sans-serif"@)
        }),
    decreases k,
{
    let d = pantalla_de_errores(errores, k, ancho, alto);
    if k > 0 {
        lema_inicio_de_errores(errores, (k - 1) as nat, ancho, alto);
        let p = pantalla_de_errores(errores, (k - 1) as nat, ancho, alto);
        assert(d.take(3) =~= p.take(3));
    } else {
        assert(d.take(3) =~= fondo(ancho, alto));
    }
}

proof fn lema_altura_de_mensaje(i: nat, dato: spec_fn(Formula) -> int)
    ensures
        cuanto(altura_de_mensaje(i), dato) == 30 + 20 * i,
    decreases i,
{
    if i > 0 {
        lema_altura_de_mensaje((i - 1) as nat, dato);
        lema_cuanto(altura_de_mensaje((i - 1) as nat), ent(20), 20, dato);
    } else {
        lema_cuanto(ent(30), ent(30), 30, dato);
    }
}

} // verus!
