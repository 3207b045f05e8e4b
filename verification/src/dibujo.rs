//! How a layout is drawn.

use vstd::prelude::*;

use crate::almacen::VariableStore;
use crate::decimal::Decimal;
use crate::json::{de_json, Json};
use crate::layout::{disenos, Diseno, Layout};
use crate::lienzo::{
    largo_de_texto, operacion, Angulo, Formula, Lienzo, OpMedida, Orden, TextoCanvas, TextoVista,
    Trazo,
};
use crate::texto::{entero_a_texto, texto_de_entero, unir};
use crate::valor::{Valor, ValorGUI};

verus! {

pub const COLOR_PRIMARY: &'static str = "#6750A4";

pub const COLOR_ON_PRIMARY: &'static str = "#FFFFFF";

pub const COLOR_SURFACE_VARIANT: &'static str = "#E7E0EC";

pub const COLOR_ON_SURFACE: &'static str = "#1D1B20";

pub const COLOR_ON_SURFACE_VARIANT: &'static str = "#49454F";

pub const COLOR_OUTLINE: &'static str = "#79747E";

pub const COLOR_BACKGROUND: &'static str = "#FEF7FF";

pub const COLOR_ERROR: &'static str = "#B3261E";

/// A whole number as a measure.
pub open spec fn ent(n: int) -> Formula {
    Formula::Entera(n)
}

/// A sum of measures.
pub open spec fn mas(a: Formula, b: Formula) -> Formula {
    operacion(OpMedida::Suma, a, b)
}

/// A difference of measures.
pub open spec fn menos(a: Formula, b: Formula) -> Formula {
    operacion(OpMedida::Resta, a, b)
}

/// A product of measures.
pub open spec fn por(a: Formula, b: Formula) -> Formula {
    operacion(OpMedida::Producto, a, b)
}

/// A quotient of measures.
pub open spec fn entre(a: Formula, b: Formula) -> Formula {
    operacion(OpMedida::Cociente, a, b)
}

/// The larger of two measures.
pub open spec fn maximo(a: Formula, b: Formula) -> Formula {
    operacion(OpMedida::Maximo, a, b)
}

/// The smaller of two measures.
pub open spec fn minimo(a: Formula, b: Formula) -> Formula {
    operacion(OpMedida::Minimo, a, b)
}

/// A drawing, and the width and height that its last part took.
pub struct Trazado {
    pub dibujo: Seq<Trazo>,
    pub ancho: Formula,
    pub alto: Formula,
}

/// The text that a value is drawn as.
pub open spec fn texto_de_valor(v: Valor) -> TextoVista {
    match v {
        Valor::Texto(t) => TextoVista::Literal(t),
        Valor::Entero(n) => TextoVista::Literal(texto_de_entero(n)),
        Valor::Decimal(d) => TextoVista::Decimal(d, d.estilo_spec()),
        Valor::Booleano(b) => TextoVista::Literal(
            if b {
                "verdadero"@
            } else {
                "falso"@
            },
        ),
        Valor::Nulo => TextoVista::Literal("nulo"@),
    }
}

/// The text of a label that shows a variable: its value, or its name in double
/// braces if there is no such variable.
pub open spec fn texto_de_variable(variable: Seq<char>, almacen: Map<Seq<char>, Json>) -> TextoVista {
    if almacen.contains_key(variable) {
        texto_de_valor(de_json(almacen[variable]))
    } else {
        TextoVista::Literal("{{"@ + variable + "}}"@)
    }
}

/// The outline of a rectangle with rounded corners.
#[verifier::opaque]
pub open spec fn contorno(
    previo: Seq<Trazo>,
    x: Formula,
    y: Formula,
    w: Formula,
    h: Formula,
    r: Formula,
) -> Seq<Trazo> {
    let radio = minimo(minimo(r, entre(w, ent(2))), entre(h, ent(2)));
    let x1 = mas(x, radio);
    let x2 = menos(mas(x, w), radio);
    let y1 = mas(y, radio);
    let y2 = menos(mas(y, h), radio);
    previo.push(Trazo::IniciarTrayecto).push(Trazo::MoverA { x: x1, y }).push(
        Trazo::LineaA { x: x2, y },
    ).push(
        Trazo::Arco { x: x2, y: y1, radio, desde: Angulo::MenosMedioPi, hasta: Angulo::Cero },
    ).push(Trazo::LineaA { x: mas(x, w), y: y2 }).push(
        Trazo::Arco { x: x2, y: y2, radio, desde: Angulo::Cero, hasta: Angulo::MedioPi },
    ).push(Trazo::LineaA { x: x1, y: mas(y, h) }).push(
        Trazo::Arco { x: x1, y: y2, radio, desde: Angulo::MedioPi, hasta: Angulo::Pi },
    ).push(Trazo::LineaA { x, y: y1 }).push(
        Trazo::Arco { x: x1, y: y1, radio, desde: Angulo::Pi, hasta: Angulo::MenosMedioPi },
    ).push(Trazo::CerrarTrayecto)
}

/// A label.
pub open spec fn etiqueta(
    previo: Seq<Trazo>,
    texto: TextoVista,
    x: Formula,
    y: Formula,
    disponible: Formula,
) -> Trazado {
    let estimado = minimo(mas(por(largo_de_texto(texto), ent(8)), ent(16)), disponible);
    Trazado {
        dibujo: previo.push(Trazo::Fuente("14px sans-serif"@)).push(
            Trazo::Relleno(COLOR_ON_SURFACE@),
        ).push(Trazo::Texto { texto, x: mas(x, ent(4)), y: mas(y, ent(20)) }),
        ancho: maximo(estimado, ent(20)),
        alto: ent(28),
    }
}

/// The area that answers to clicks on a widget.
pub open spec fn area(x: Formula, y: Formula, ancho: Formula, alto: Formula, layout: Diseno) -> Trazo {
    Trazo::Area { x, y, ancho, alto, derecha: mas(x, ancho), abajo: mas(y, alto), layout }
}

/// The text of a button, centred by its estimated width.
pub open spec fn rotulo(
    previo: Seq<Trazo>,
    texto: Seq<char>,
    x: Formula,
    y: Formula,
    ancho: Formula,
) -> Seq<Trazo> {
    let estimado = minimo(
        por(largo_de_texto(TextoVista::Literal(texto)), ent(9)),
        menos(ancho, ent(16)),
    );
    previo.push(Trazo::Relleno(COLOR_ON_PRIMARY@)).push(
        Trazo::Fuente("bold 14px sans-serif"@),
    ).push(
        Trazo::Texto {
            texto: TextoVista::Literal(texto),
            x: mas(x, entre(menos(ancho, estimado), ent(2))),
            y: mas(y, ent(25)),
        },
    )
}

/// A button: its shadow, its background and its centred text.
pub open spec fn boton(
    previo: Seq<Trazo>,
    texto: Seq<char>,
    callback: Seq<char>,
    x: Formula,
    y: Formula,
    disponible: Formula,
) -> Trazado {
    let ancho = minimo(maximo(disponible, ent(80)), ent(300));
    let alto = ent(38);
    let sombra = contorno(
        previo.push(Trazo::Relleno("rgba(0,0,0,0.15)"@)),
        mas(x, ent(2)),
        mas(y, ent(2)),
        ancho,
        alto,
        ent(20),
    ).push(Trazo::Rellenar);
    let fondo = contorno(
        sombra.push(Trazo::Relleno(COLOR_PRIMARY@)),
        x,
        y,
        ancho,
        alto,
        ent(20),
    ).push(Trazo::Rellenar);
    Trazado {
        dibujo: rotulo(fondo, texto, x, y, ancho).push(
            area(x, y, ancho, alto, Diseno::Button { texto, callback }),
        ),
        ancho,
        alto: mas(alto, ent(4)),
    }
}

/// Whether a text to draw is empty. A decimal is never shown as nothing.
pub open spec fn texto_vacio(t: TextoVista) -> bool {
    match t {
        TextoVista::Literal(s) => s.len() == 0,
        TextoVista::Decimal(..) => false,
    }
}

/// The text in a field: the value of its variable, nothing if there is none.
pub open spec fn texto_de_campo(variable: Seq<char>, almacen: Map<Seq<char>, Json>) -> TextoVista {
    if almacen.contains_key(variable) {
        texto_de_valor(de_json(almacen[variable]))
    } else {
        TextoVista::Literal(""@)
    }
}

/// A text field: its background, the line under it, and its text, or what
/// stands in for one.
pub open spec fn campo(
    previo: Seq<Trazo>,
    variable: Seq<char>,
    placeholder: Seq<char>,
    x: Formula,
    y: Formula,
    disponible: Formula,
    almacen: Map<Seq<char>, Json>,
) -> Trazado {
    let ancho = maximo(disponible, ent(120));
    let alto = ent(38);
    let base = mas(y, alto);
    let fondo = contorno(
        previo.push(Trazo::Relleno(COLOR_SURFACE_VARIANT@)),
        x,
        y,
        ancho,
        alto,
        ent(4),
    ).push(Trazo::Rellenar);
    let linea = fondo.push(Trazo::Trazo(COLOR_OUTLINE@)).push(Trazo::Grosor(ent(1))).push(
        Trazo::IniciarTrayecto,
    ).push(Trazo::MoverA { x, y: base }).push(Trazo::LineaA { x: mas(x, ancho), y: base }).push(
        Trazo::Trazar,
    );
    let valor = texto_de_campo(variable, almacen);
    let vacio = texto_vacio(valor);
    Trazado {
        dibujo: linea.push(
            Trazo::Relleno(
                if vacio {
                    COLOR_ON_SURFACE_VARIANT@
                } else {
                    COLOR_ON_SURFACE@
                },
            ),
        ).push(Trazo::Fuente("14px sans-serif"@)).push(
            Trazo::Texto {
                texto: if vacio {
                    TextoVista::Literal(placeholder)
                } else {
                    valor
                },
                x: mas(x, ent(8)),
                y: mas(y, ent(25)),
            },
        ).push(area(x, y, ancho, alto, Diseno::TextInput { variable, placeholder })),
        ancho,
        alto: mas(alto, ent(4)),
    }
}

/// The width that a widget is given in a row.
pub open spec fn ancho_estimado(l: Diseno, por_defecto: Formula) -> Formula {
    match l {
        Diseno::Label { texto } => minimo(
            mas(por(largo_de_texto(TextoVista::Literal(texto)), ent(8)), ent(16)),
            ent(250),
        ),
        Diseno::Title(texto) => minimo(
            mas(por(largo_de_texto(TextoVista::Literal(texto)), ent(8)), ent(16)),
            ent(250),
        ),
        Diseno::VariableLabel { .. } => ent(100),
        Diseno::Button { texto, .. } => minimo(
            maximo(
                mas(por(largo_de_texto(TextoVista::Literal(texto)), ent(9)), ent(32)),
                ent(80),
            ),
            ent(200),
        ),
        Diseno::TextInput { .. } => ent(150),
        Diseno::Spacer(tam) => Formula::Dato(tam),
        _ => por_defecto,
    }
}

/// A layout at a place, in a width, after what is drawn already.
pub open spec fn trazado(
    l: Diseno,
    previo: Seq<Trazo>,
    x: Formula,
    y: Formula,
    disponible: Formula,
    almacen: Map<Seq<char>, Json>,
) -> Trazado
    decreases l, 0nat,
{
    match l {
        Diseno::Column { children, gap } => {
            let g = Formula::Dato(gap);
            let t = columna(
                children,
                0,
                g,
                previo,
                x,
                mas(y, g),
                ent(0),
                disponible,
                almacen,
            );
            Trazado {
                dibujo: t.dibujo,
                ancho: maximo(t.ancho, disponible),
                alto: menos(t.alto, y),
            }
        },
        Diseno::Row { children, gap } => {
            let g = Formula::Dato(gap);
            let t = fila(
                children,
                0,
                g,
                previo,
                mas(x, g),
                y,
                ent(0),
                disponible,
                almacen,
            );
            Trazado {
                dibujo: t.dibujo,
                ancho: menos(t.ancho, x),
                alto: maximo(t.alto, ent(40)),
            }
        },
        Diseno::ZStack(children) => pila(
            children,
            0,
            previo,
            x,
            y,
            ent(0),
            ent(0),
            disponible,
            almacen,
        ),
        Diseno::Label { texto } => etiqueta(
            previo,
            TextoVista::Literal(texto),
            x,
            y,
            disponible,
        ),
        Diseno::VariableLabel { variable } => etiqueta(
            previo,
            texto_de_variable(variable, almacen),
            x,
            y,
            disponible,
        ),
        Diseno::Button { texto, callback } => boton(previo, texto, callback, x, y, disponible),
        Diseno::TextInput { variable, placeholder } => campo(
            previo,
            variable,
            placeholder,
            x,
            y,
            disponible,
            almacen,
        ),
        Diseno::Title(texto) => Trazado {
            dibujo: previo.push(Trazo::Fuente("bold 20px sans-serif"@)).push(
                Trazo::Relleno(COLOR_ON_SURFACE@),
            ).push(
                Trazo::Texto {
                    texto: TextoVista::Literal(texto),
                    x: mas(x, ent(4)),
                    y: mas(y, ent(24)),
                },
            ),
            ancho: maximo(disponible, ent(100)),
            alto: ent(32),
        },
        Diseno::Spacer(tam) => Trazado {
            dibujo: previo,
            ancho: disponible,
            alto: Formula::Dato(tam),
        },
        Diseno::Unimplemented(desc) => Trazado {
            dibujo: previo.push(Trazo::Relleno(COLOR_ERROR@)).push(
                Trazo::Fuente("12px sans-serif"@),
            ).push(
                Trazo::Texto {
                    texto: TextoVista::Literal("⚠ "@ + desc),
                    x: mas(x, ent(4)),
                    y: mas(y, ent(16)),
                },
            ),
            ancho: disponible,
            alto: ent(24),
        },
    }
}

/// The children of a column from `i` on, one below the other from `cy` down.
/// The width is the largest so far, the height is where the next would stand.
pub open spec fn columna(
    children: Seq<Diseno>,
    i: nat,
    g: Formula,
    previo: Seq<Trazo>,
    x: Formula,
    cy: Formula,
    mayor: Formula,
    disponible: Formula,
    almacen: Map<Seq<char>, Json>,
) -> Trazado
    decreases children, 1 + children.len() - i,
{
    if i >= children.len() {
        Trazado { dibujo: previo, ancho: mayor, alto: cy }
    } else {
        let t = trazado(
            children[i as int],
            previo,
            mas(x, g),
            cy,
            menos(disponible, por(g, ent(2))),
            almacen,
        );
        columna(
            children,
            i + 1,
            g,
            t.dibujo,
            x,
            mas(cy, mas(t.alto, g)),
            maximo(mayor, mas(t.ancho, por(g, ent(2)))),
            disponible,
            almacen,
        )
    }
}

/// The children of a row from `i` on, one beside the other from `cx` on. The
/// width is where the next would stand, the height is the largest so far.
pub open spec fn fila(
    children: Seq<Diseno>,
    i: nat,
    g: Formula,
    previo: Seq<Trazo>,
    cx: Formula,
    y: Formula,
    mayor: Formula,
    disponible: Formula,
    almacen: Map<Seq<char>, Json>,
) -> Trazado
    decreases children, 1 + children.len() - i,
{
    if i >= children.len() {
        Trazado { dibujo: previo, ancho: cx, alto: mayor }
    } else {
        let ancho = ancho_estimado(
            children[i as int],
            entre(disponible, Formula::Conteo(children.len())),
        );
        let t = trazado(children[i as int], previo, cx, mas(y, g), ancho, almacen);
        fila(
            children,
            i + 1,
            g,
            t.dibujo,
            mas(cx, mas(ancho, g)),
            y,
            maximo(mayor, mas(t.alto, por(g, ent(2)))),
            disponible,
            almacen,
        )
    }
}

/// The children of a stack from `i` on, all at the same place.
pub open spec fn pila(
    children: Seq<Diseno>,
    i: nat,
    previo: Seq<Trazo>,
    x: Formula,
    y: Formula,
    mayor_ancho: Formula,
    mayor_alto: Formula,
    disponible: Formula,
    almacen: Map<Seq<char>, Json>,
) -> Trazado
    decreases children, 1 + children.len() - i,
{
    if i >= children.len() {
        Trazado { dibujo: previo, ancho: mayor_ancho, alto: mayor_alto }
    } else {
        let t = trazado(children[i as int], previo, x, y, disponible, almacen);
        pila(
            children,
            i + 1,
            t.dibujo,
            x,
            y,
            maximo(mayor_ancho, t.ancho),
            maximo(mayor_alto, t.alto),
            disponible,
            almacen,
        )
    }
}

// ---------------------------------------------------------------------------
// Drawing
// ---------------------------------------------------------------------------

/// The text that a value is drawn as.
pub fn texto_a_dibujar(v: ValorGUI) -> (r: TextoCanvas)
    ensures
        r@ == texto_de_valor(v@),
{
    match v {
        ValorGUI::Texto(t) => TextoCanvas::Literal(t),
        ValorGUI::Entero(n) => TextoCanvas::Literal(entero_a_texto(n)),
        ValorGUI::Decimal(d) => TextoCanvas::Decimal(d, d.estilo()),
        ValorGUI::Booleano(b) => if b {
            TextoCanvas::Literal("verdadero".to_string())
        } else {
            TextoCanvas::Literal("falso".to_string())
        },
        ValorGUI::Nulo => TextoCanvas::Literal("nulo".to_string()),
    }
}

fn copiar_texto(t: &TextoCanvas) -> (r: TextoCanvas)
    ensures
        r@ == t@,
{
    match t {
        TextoCanvas::Literal(s) => TextoCanvas::Literal(s.clone()),
        TextoCanvas::Decimal(d, e) => TextoCanvas::Decimal(*d, *e),
    }
}

/// Draws the outline of a rectangle with rounded corners.
pub fn redondear_rect(lienzo: &mut Lienzo, x: usize, y: usize, w: usize, h: usize, r: usize)
    requires
        old(lienzo).bien_formado(),
        old(lienzo).hay(x),
        old(lienzo).hay(y),
        old(lienzo).hay(w),
        old(lienzo).hay(h),
        old(lienzo).hay(r),
    ensures
        final(lienzo).conserva(*old(lienzo)),
        final(lienzo).dibujo() == contorno(
            old(lienzo).dibujo(),
            old(lienzo).medida(x),
            old(lienzo).medida(y),
            old(lienzo).medida(w),
            old(lienzo).medida(h),
            old(lienzo).medida(r),
        ),
{
    let medio_w = lienzo.operar_entera(OpMedida::Cociente, w, 2);
    let medio_h = lienzo.operar_entera(OpMedida::Cociente, h, 2);
    let tope = lienzo.operar(OpMedida::Minimo, r, medio_w);
    let radio = lienzo.operar(OpMedida::Minimo, tope, medio_h);
    let xw = lienzo.operar(OpMedida::Suma, x, w);
    let yh = lienzo.operar(OpMedida::Suma, y, h);
    let x1 = lienzo.operar(OpMedida::Suma, x, radio);
    let x2 = lienzo.operar(OpMedida::Resta, xw, radio);
    let y1 = lienzo.operar(OpMedida::Suma, y, radio);
    let y2 = lienzo.operar(OpMedida::Resta, yh, radio);
    lienzo.ordenar(Orden::IniciarTrayecto);
    lienzo.ordenar(Orden::MoverA { x: x1, y });
    lienzo.ordenar(Orden::LineaA { x: x2, y });
    lienzo.ordenar(
        Orden::Arco { x: x2, y: y1, radio, desde: Angulo::MenosMedioPi, hasta: Angulo::Cero },
    );
    lienzo.ordenar(Orden::LineaA { x: xw, y: y2 });
    lienzo.ordenar(
        Orden::Arco { x: x2, y: y2, radio, desde: Angulo::Cero, hasta: Angulo::MedioPi },
    );
    lienzo.ordenar(Orden::LineaA { x: x1, y: yh });
    lienzo.ordenar(
        Orden::Arco { x: x1, y: y2, radio, desde: Angulo::MedioPi, hasta: Angulo::Pi },
    );
    lienzo.ordenar(Orden::LineaA { x, y: y1 });
    lienzo.ordenar(
        Orden::Arco { x: x1, y: y1, radio, desde: Angulo::Pi, hasta: Angulo::MenosMedioPi },
    );
    lienzo.ordenar(Orden::CerrarTrayecto);
    proof {
        reveal(contorno);
    }
}

/// Fills a rectangle with rounded corners.
fn rellenar_contorno(
    lienzo: &mut Lienzo,
    color: &'static str,
    x: usize,
    y: usize,
    w: usize,
    h: usize,
    r: usize,
)
    requires
        old(lienzo).bien_formado(),
        old(lienzo).hay(x),
        old(lienzo).hay(y),
        old(lienzo).hay(w),
        old(lienzo).hay(h),
        old(lienzo).hay(r),
    ensures
        final(lienzo).conserva(*old(lienzo)),
        final(lienzo).dibujo() == contorno(
            old(lienzo).dibujo().push(Trazo::Relleno(color@)),
            old(lienzo).medida(x),
            old(lienzo).medida(y),
            old(lienzo).medida(w),
            old(lienzo).medida(h),
            old(lienzo).medida(r),
        ).push(Trazo::Rellenar),
{
    lienzo.ordenar(Orden::Relleno(color));
    redondear_rect(lienzo, x, y, w, h, r);
    lienzo.ordenar(Orden::Rellenar);
}

/// Draws a label.
pub fn renderizar_label(
    lienzo: &mut Lienzo,
    texto: TextoCanvas,
    x: usize,
    y: usize,
    disponible: usize,
) -> (r: (usize, usize))
    requires
        old(lienzo).bien_formado(),
        old(lienzo).hay(x),
        old(lienzo).hay(y),
        old(lienzo).hay(disponible),
    ensures
        final(lienzo).conserva(*old(lienzo)),
        final(lienzo).hay(r.0),
        final(lienzo).hay(r.1),
        (Trazado {
            dibujo: final(lienzo).dibujo(),
            ancho: final(lienzo).medida(r.0),
            alto: final(lienzo).medida(r.1),
        }) == etiqueta(
            old(lienzo).dibujo(),
            texto@,
            old(lienzo).medida(x),
            old(lienzo).medida(y),
            old(lienzo).medida(disponible),
        ),
{
    lienzo.ordenar(Orden::Fuente("14px sans-serif"));
    lienzo.ordenar(Orden::Relleno(COLOR_ON_SURFACE));
    let largo = lienzo.largo(copiar_texto(&texto));
    let ocho = lienzo.operar_entera(OpMedida::Producto, largo, 8);
    let justo = lienzo.operar_entera(OpMedida::Suma, ocho, 16);
    let estimado = lienzo.operar(OpMedida::Minimo, justo, disponible);
    let tx = lienzo.operar_entera(OpMedida::Suma, x, 4);
    let ty = lienzo.operar_entera(OpMedida::Suma, y, 20);
    lienzo.ordenar(Orden::Texto { texto, x: tx, y: ty });
    let ancho = lienzo.operar_entera(OpMedida::Maximo, estimado, 20);
    let alto = lienzo.entera(28);
    (ancho, alto)
}

/// Marks the area that answers to clicks on a widget.
fn marcar_area(
    lienzo: &mut Lienzo,
    x: usize,
    y: usize,
    ancho: usize,
    alto: usize,
    layout: Layout,
)
    requires
        old(lienzo).bien_formado(),
        old(lienzo).hay(x),
        old(lienzo).hay(y),
        old(lienzo).hay(ancho),
        old(lienzo).hay(alto),
    ensures
        final(lienzo).conserva(*old(lienzo)),
        final(lienzo).dibujo() == old(lienzo).dibujo().push(
            area(
                old(lienzo).medida(x),
                old(lienzo).medida(y),
                old(lienzo).medida(ancho),
                old(lienzo).medida(alto),
                layout@,
            ),
        ),
{
    let derecha = lienzo.operar(OpMedida::Suma, x, ancho);
    let abajo = lienzo.operar(OpMedida::Suma, y, alto);
    lienzo.ordenar(Orden::Area { x, y, ancho, alto, derecha, abajo, layout });
}

/// Draws the text of a button.
fn rotular(lienzo: &mut Lienzo, texto: &String, x: usize, y: usize, ancho: usize)
    requires
        old(lienzo).bien_formado(),
        old(lienzo).hay(x),
        old(lienzo).hay(y),
        old(lienzo).hay(ancho),
    ensures
        final(lienzo).conserva(*old(lienzo)),
        final(lienzo).dibujo() == rotulo(
            old(lienzo).dibujo(),
            texto@,
            old(lienzo).medida(x),
            old(lienzo).medida(y),
            old(lienzo).medida(ancho),
        ),
{
    lienzo.ordenar(Orden::Relleno(COLOR_ON_PRIMARY));
    lienzo.ordenar(Orden::Fuente("bold 14px sans-serif"));
    let largo = lienzo.largo(TextoCanvas::Literal(texto.clone()));
    let nueve = lienzo.operar_entera(OpMedida::Producto, largo, 9);
    let hueco = lienzo.operar_entera(OpMedida::Resta, ancho, 16);
    let estimado = lienzo.operar(OpMedida::Minimo, nueve, hueco);
    let sobra = lienzo.operar(OpMedida::Resta, ancho, estimado);
    let margen = lienzo.operar_entera(OpMedida::Cociente, sobra, 2);
    let tx = lienzo.operar(OpMedida::Suma, x, margen);
    let ty = lienzo.operar_entera(OpMedida::Suma, y, 25);
    lienzo.ordenar(Orden::Texto { texto: TextoCanvas::Literal(texto.clone()), x: tx, y: ty });
}

/// Draws a button.
pub fn renderizar_boton(
    lienzo: &mut Lienzo,
    texto: &String,
    callback: &String,
    x: usize,
    y: usize,
    disponible: usize,
) -> (r: (usize, usize))
    requires
        old(lienzo).bien_formado(),
        old(lienzo).hay(x),
        old(lienzo).hay(y),
        old(lienzo).hay(disponible),
    ensures
        final(lienzo).conserva(*old(lienzo)),
        final(lienzo).hay(r.0),
        final(lienzo).hay(r.1),
        (Trazado {
            dibujo: final(lienzo).dibujo(),
            ancho: final(lienzo).medida(r.0),
            alto: final(lienzo).medida(r.1),
        }) == boton(
            old(lienzo).dibujo(),
            texto@,
            callback@,
            old(lienzo).medida(x),
            old(lienzo).medida(y),
            old(lienzo).medida(disponible),
        ),
{
    let al_menos = lienzo.operar_entera(OpMedida::Maximo, disponible, 80);
    let ancho = lienzo.operar_entera(OpMedida::Minimo, al_menos, 300);
    let alto = lienzo.entera(38);
    let radio = lienzo.entera(20);
    let sx = lienzo.operar_entera(OpMedida::Suma, x, 2);
    let sy = lienzo.operar_entera(OpMedida::Suma, y, 2);
    rellenar_contorno(lienzo, "rgba(0,0,0,0.15)", sx, sy, ancho, alto, radio);
    rellenar_contorno(lienzo, COLOR_PRIMARY, x, y, ancho, alto, radio);
    rotular(lienzo, texto, x, y, ancho);
    marcar_area(
        lienzo,
        x,
        y,
        ancho,
        alto,
        Layout::Button { texto: texto.clone(), callback: callback.clone() },
    );
    let usado = lienzo.operar_entera(OpMedida::Suma, alto, 4);
    (ancho, usado)
}

fn esta_vacio(t: &TextoCanvas) -> (r: bool)
    ensures
        r == texto_vacio(t@),
{
    match t {
        TextoCanvas::Literal(s) => s.as_str().is_empty(),
        TextoCanvas::Decimal(..) => false,
    }
}

/// Draws a text field.
pub fn renderizar_text_input(
    lienzo: &mut Lienzo,
    variable: &String,
    placeholder: &String,
    x: usize,
    y: usize,
    disponible: usize,
    store: &VariableStore,
) -> (r: (usize, usize))
    requires
        old(lienzo).bien_formado(),
        old(lienzo).hay(x),
        old(lienzo).hay(y),
        old(lienzo).hay(disponible),
    ensures
        final(lienzo).conserva(*old(lienzo)),
        final(lienzo).hay(r.0),
        final(lienzo).hay(r.1),
        (Trazado {
            dibujo: final(lienzo).dibujo(),
            ancho: final(lienzo).medida(r.0),
            alto: final(lienzo).medida(r.1),
        }) == campo(
            old(lienzo).dibujo(),
            variable@,
            placeholder@,
            old(lienzo).medida(x),
            old(lienzo).medida(y),
            old(lienzo).medida(disponible),
            store@,
        ),
{
    let ancho = lienzo.operar_entera(OpMedida::Maximo, disponible, 120);
    let alto = lienzo.entera(38);
    let radio = lienzo.entera(4);
    let valor = match store.get(variable.as_str()) {
        Some(j) => texto_a_dibujar(ValorGUI::from_serde(&j)),
        None => TextoCanvas::Literal("".to_string()),
    };
    rellenar_contorno(lienzo, COLOR_SURFACE_VARIANT, x, y, ancho, alto, radio);
    lienzo.ordenar(Orden::Trazo(COLOR_OUTLINE));
    let uno = lienzo.entera(1);
    lienzo.ordenar(Orden::Grosor(uno));
    lienzo.ordenar(Orden::IniciarTrayecto);
    let base = lienzo.operar(OpMedida::Suma, y, alto);
    lienzo.ordenar(Orden::MoverA { x, y: base });
    let fin = lienzo.operar(OpMedida::Suma, x, ancho);
    lienzo.ordenar(Orden::LineaA { x: fin, y: base });
    lienzo.ordenar(Orden::Trazar);
    let tx = lienzo.operar_entera(OpMedida::Suma, x, 8);
    let ty = lienzo.operar_entera(OpMedida::Suma, y, 25);
    if esta_vacio(&valor) {
        lienzo.ordenar(Orden::Relleno(COLOR_ON_SURFACE_VARIANT));
        lienzo.ordenar(Orden::Fuente("14px sans-serif"));
        lienzo.ordenar(
            Orden::Texto { texto: TextoCanvas::Literal(placeholder.clone()), x: tx, y: ty },
        );
    } else {
        lienzo.ordenar(Orden::Relleno(COLOR_ON_SURFACE));
        lienzo.ordenar(Orden::Fuente("14px sans-serif"));
        lienzo.ordenar(Orden::Texto { texto: valor, x: tx, y: ty });
    }
    marcar_area(
        lienzo,
        x,
        y,
        ancho,
        alto,
        Layout::TextInput { variable: variable.clone(), placeholder: placeholder.clone() },
    );
    let usado = lienzo.operar_entera(OpMedida::Suma, alto, 4);
    (ancho, usado)
}

/// Measures the width that a widget is given in a row.
pub fn estimar_ancho(lienzo: &mut Lienzo, layout: &Layout, por_defecto: usize) -> (r: usize)
    requires
        old(lienzo).bien_formado(),
        old(lienzo).hay(por_defecto),
    ensures
        final(lienzo).conserva(*old(lienzo)),
        final(lienzo).hay(r),
        final(lienzo).medida(r) == ancho_estimado(layout@, old(lienzo).medida(por_defecto)),
        final(lienzo).dibujo() == old(lienzo).dibujo(),
{
    match layout {
        Layout::Label { texto } | Layout::Title(texto) => {
            let largo = lienzo.largo(TextoCanvas::Literal(texto.clone()));
            let ocho = lienzo.operar_entera(OpMedida::Producto, largo, 8);
            let justo = lienzo.operar_entera(OpMedida::Suma, ocho, 16);
            lienzo.operar_entera(OpMedida::Minimo, justo, 250)
        },
        Layout::VariableLabel { .. } => lienzo.entera(100),
        Layout::Button { texto, .. } => {
            let largo = lienzo.largo(TextoCanvas::Literal(texto.clone()));
            let nueve = lienzo.operar_entera(OpMedida::Producto, largo, 9);
            let justo = lienzo.operar_entera(OpMedida::Suma, nueve, 32);
            let al_menos = lienzo.operar_entera(OpMedida::Maximo, justo, 80);
            lienzo.operar_entera(OpMedida::Minimo, al_menos, 200)
        },
        Layout::TextInput { .. } => lienzo.entera(150),
        Layout::Spacer(tam) => lienzo.dato(*tam),
        _ => por_defecto,
    }
}

/// Draws a layout at a place, in a width. Gives the width and height it took.
pub fn renderizar_layout(
    lienzo: &mut Lienzo,
    layout: &Layout,
    x: usize,
    y: usize,
    disponible: usize,
    store: &VariableStore,
) -> (r: (usize, usize))
    requires
        old(lienzo).bien_formado(),
        old(lienzo).hay(x),
        old(lienzo).hay(y),
        old(lienzo).hay(disponible),
    ensures
        final(lienzo).conserva(*old(lienzo)),
        final(lienzo).hay(r.0),
        final(lienzo).hay(r.1),
        (Trazado {
            dibujo: final(lienzo).dibujo(),
            ancho: final(lienzo).medida(r.0),
            alto: final(lienzo).medida(r.1),
        }) == trazado(
            layout@,
            old(lienzo).dibujo(),
            old(lienzo).medida(x),
            old(lienzo).medida(y),
            old(lienzo).medida(disponible),
            store@,
        ),
    decreases *layout, 1nat,
{
    match layout {
        Layout::Column { children, gap } => renderizar_columna(
            lienzo,
            children,
            *gap,
            x,
            y,
            disponible,
            store,
        ),
        Layout::Row { children, gap } => renderizar_fila(
            lienzo,
            children,
            *gap,
            x,
            y,
            disponible,
            store,
        ),
        Layout::ZStack(children) => renderizar_pila(lienzo, children, x, y, disponible, store),
        Layout::Label { texto } => renderizar_label(
            lienzo,
            TextoCanvas::Literal(texto.clone()),
            x,
            y,
            disponible,
        ),
        Layout::VariableLabel { variable } => {
            let texto = match store.get(variable.as_str()) {
                Some(j) => texto_a_dibujar(ValorGUI::from_serde(&j)),
                None => TextoCanvas::Literal(unir("{{", variable.as_str(), "}}")),
            };
            renderizar_label(lienzo, texto, x, y, disponible)
        },
        Layout::Button { texto, callback } => renderizar_boton(
            lienzo,
            texto,
            callback,
            x,
            y,
            disponible,
        ),
        Layout::TextInput { variable, placeholder } => renderizar_text_input(
            lienzo,
            variable,
            placeholder,
            x,
            y,
            disponible,
            store,
        ),
        Layout::Title(texto) => {
            lienzo.ordenar(Orden::Fuente("bold 20px sans-serif"));
            lienzo.ordenar(Orden::Relleno(COLOR_ON_SURFACE));
            let tx = lienzo.operar_entera(OpMedida::Suma, x, 4);
            let ty = lienzo.operar_entera(OpMedida::Suma, y, 24);
            lienzo.ordenar(
                Orden::Texto { texto: TextoCanvas::Literal(texto.clone()), x: tx, y: ty },
            );
            let ancho = lienzo.operar_entera(OpMedida::Maximo, disponible, 100);
            let alto = lienzo.entera(32);
            (ancho, alto)
        },
        Layout::Spacer(tam) => {
            let alto = lienzo.dato(*tam);
            (disponible, alto)
        },
        Layout::Unimplemented(desc) => {
            lienzo.ordenar(Orden::Relleno(COLOR_ERROR));
            lienzo.ordenar(Orden::Fuente("12px sans-serif"));
            let tx = lienzo.operar_entera(OpMedida::Suma, x, 4);
            let ty = lienzo.operar_entera(OpMedida::Suma, y, 16);
            let mut texto = "⚠ ".to_string();
            texto.append(desc.as_str());
            lienzo.ordenar(Orden::Texto { texto: TextoCanvas::Literal(texto), x: tx, y: ty });
            let alto = lienzo.entera(24);
            (disponible, alto)
        },
    }
}

fn renderizar_columna(
    lienzo: &mut Lienzo,
    children: &Vec<Layout>,
    gap: Decimal,
    x: usize,
    y: usize,
    disponible: usize,
    store: &VariableStore,
) -> (r: (usize, usize))
    requires
        old(lienzo).bien_formado(),
        old(lienzo).hay(x),
        old(lienzo).hay(y),
        old(lienzo).hay(disponible),
    ensures
        final(lienzo).conserva(*old(lienzo)),
        final(lienzo).hay(r.0),
        final(lienzo).hay(r.1),
        (Trazado {
            dibujo: final(lienzo).dibujo(),
            ancho: final(lienzo).medida(r.0),
            alto: final(lienzo).medida(r.1),
        }) == trazado(
            Diseno::Column { children: disenos(children@), gap },
            old(lienzo).dibujo(),
            old(lienzo).medida(x),
            old(lienzo).medida(y),
            old(lienzo).medida(disponible),
            store@,
        ),
    decreases children@, 0nat,
{
    let ghost fx = lienzo.medida(x);
    let ghost fy = lienzo.medida(y);
    let ghost fd = lienzo.medida(disponible);
    let ghost fg = Formula::Dato(gap);
    let g = lienzo.dato(gap);
    let mut cy = lienzo.operar(OpMedida::Suma, y, g);
    let mut mayor = lienzo.entera(0);
    let mut i: usize = 0;
    while i < children.len()
        invariant
            i <= children@.len(),
            lienzo.conserva(*old(lienzo)),
            old(lienzo).hay(x),
            old(lienzo).hay(y),
            old(lienzo).hay(disponible),
            fx == old(lienzo).medida(x),
            fy == old(lienzo).medida(y),
            fd == old(lienzo).medida(disponible),
            lienzo.hay(g),
            lienzo.hay(cy),
            lienzo.hay(mayor),
            fg == Formula::Dato(gap),
            lienzo.medida(g) == fg,
            columna(
                disenos(children@),
                0,
                fg,
                old(lienzo).dibujo(),
                fx,
                mas(fy, fg),
                ent(0),
                fd,
                store@,
            ) == columna(
                disenos(children@),
                i as nat,
                fg,
                lienzo.dibujo(),
                fx,
                lienzo.medida(cy),
                lienzo.medida(mayor),
                fd,
                store@,
            ),
        decreases children@.len() - i,
    {
        assert(lienzo.medida(x) == fx && lienzo.medida(disponible) == fd);
        let cx = lienzo.operar(OpMedida::Suma, x, g);
        let doble = lienzo.operar_entera(OpMedida::Producto, g, 2);
        let hueco = lienzo.operar(OpMedida::Resta, disponible, doble);
        let usado = renderizar_layout(lienzo, &children[i], cx, cy, hueco, store);
        let doble2 = lienzo.operar_entera(OpMedida::Producto, g, 2);
        let con_margen = lienzo.operar(OpMedida::Suma, usado.0, doble2);
        mayor = lienzo.operar(OpMedida::Maximo, mayor, con_margen);
        let avance = lienzo.operar(OpMedida::Suma, usado.1, g);
        cy = lienzo.operar(OpMedida::Suma, cy, avance);
        i = i + 1;
    }
    assert(lienzo.medida(y) == fy && lienzo.medida(disponible) == fd);
    let ancho = lienzo.operar(OpMedida::Maximo, mayor, disponible);
    let alto = lienzo.operar(OpMedida::Resta, cy, y);
    (ancho, alto)
}

fn renderizar_fila(
    lienzo: &mut Lienzo,
    children: &Vec<Layout>,
    gap: Decimal,
    x: usize,
    y: usize,
    disponible: usize,
    store: &VariableStore,
) -> (r: (usize, usize))
    requires
        old(lienzo).bien_formado(),
        old(lienzo).hay(x),
        old(lienzo).hay(y),
        old(lienzo).hay(disponible),
    ensures
        final(lienzo).conserva(*old(lienzo)),
        final(lienzo).hay(r.0),
        final(lienzo).hay(r.1),
        (Trazado {
            dibujo: final(lienzo).dibujo(),
            ancho: final(lienzo).medida(r.0),
            alto: final(lienzo).medida(r.1),
        }) == trazado(
            Diseno::Row { children: disenos(children@), gap },
            old(lienzo).dibujo(),
            old(lienzo).medida(x),
            old(lienzo).medida(y),
            old(lienzo).medida(disponible),
            store@,
        ),
    decreases children@, 0nat,
{
    let ghost fx = lienzo.medida(x);
    let ghost fy = lienzo.medida(y);
    let ghost fd = lienzo.medida(disponible);
    let ghost fg = Formula::Dato(gap);
    let g = lienzo.dato(gap);
    let mut cx = lienzo.operar(OpMedida::Suma, x, g);
    let mut mayor = lienzo.entera(0);
    let mut i: usize = 0;
    while i < children.len()
        invariant
            i <= children@.len(),
            lienzo.conserva(*old(lienzo)),
            old(lienzo).hay(x),
            old(lienzo).hay(y),
            old(lienzo).hay(disponible),
            fx == old(lienzo).medida(x),
            fy == old(lienzo).medida(y),
            fd == old(lienzo).medida(disponible),
            lienzo.hay(g),
            lienzo.hay(cx),
            lienzo.hay(mayor),
            fg == Formula::Dato(gap),
            lienzo.medida(g) == fg,
            fila(
                disenos(children@),
                0,
                fg,
                old(lienzo).dibujo(),
                mas(fx, fg),
                fy,
                ent(0),
                fd,
                store@,
            ) == fila(
                disenos(children@),
                i as nat,
                fg,
                lienzo.dibujo(),
                lienzo.medida(cx),
                fy,
                lienzo.medida(mayor),
                fd,
                store@,
            ),
        decreases children@.len() - i,
    {
        assert(lienzo.medida(y) == fy && lienzo.medida(disponible) == fd);
        let cuantos = lienzo.conteo(children.len());
        let parte = lienzo.operar(OpMedida::Cociente, disponible, cuantos);
        let ancho_hijo = estimar_ancho(lienzo, &children[i], parte);
        let cy = lienzo.operar(OpMedida::Suma, y, g);
        let usado = renderizar_layout(lienzo, &children[i], cx, cy, ancho_hijo, store);
        let doble = lienzo.operar_entera(OpMedida::Producto, g, 2);
        let con_margen = lienzo.operar(OpMedida::Suma, usado.1, doble);
        mayor = lienzo.operar(OpMedida::Maximo, mayor, con_margen);
        let avance = lienzo.operar(OpMedida::Suma, ancho_hijo, g);
        cx = lienzo.operar(OpMedida::Suma, cx, avance);
        i = i + 1;
    }
    assert(lienzo.medida(x) == fx);
    let ancho = lienzo.operar(OpMedida::Resta, cx, x);
    let alto = lienzo.operar_entera(OpMedida::Maximo, mayor, 40);
    (ancho, alto)
}

fn renderizar_pila(
    lienzo: &mut Lienzo,
    children: &Vec<Layout>,
    x: usize,
    y: usize,
    disponible: usize,
    store: &VariableStore,
) -> (r: (usize, usize))
    requires
        old(lienzo).bien_formado(),
        old(lienzo).hay(x),
        old(lienzo).hay(y),
        old(lienzo).hay(disponible),
    ensures
        final(lienzo).conserva(*old(lienzo)),
        final(lienzo).hay(r.0),
        final(lienzo).hay(r.1),
        (Trazado {
            dibujo: final(lienzo).dibujo(),
            ancho: final(lienzo).medida(r.0),
            alto: final(lienzo).medida(r.1),
        }) == trazado(
            Diseno::ZStack(disenos(children@)),
            old(lienzo).dibujo(),
            old(lienzo).medida(x),
            old(lienzo).medida(y),
            old(lienzo).medida(disponible),
            store@,
        ),
    decreases children@, 0nat,
{
    let ghost fx = lienzo.medida(x);
    let ghost fy = lienzo.medida(y);
    let ghost fd = lienzo.medida(disponible);
    let mut mayor_ancho = lienzo.entera(0);
    let mut mayor_alto = lienzo.entera(0);
    let mut i: usize = 0;
    while i < children.len()
        invariant
            i <= children@.len(),
            lienzo.conserva(*old(lienzo)),
            old(lienzo).hay(x),
            old(lienzo).hay(y),
            old(lienzo).hay(disponible),
            fx == old(lienzo).medida(x),
            fy == old(lienzo).medida(y),
            fd == old(lienzo).medida(disponible),
            lienzo.hay(mayor_ancho),
            lienzo.hay(mayor_alto),
            pila(
                disenos(children@),
                0,
                old(lienzo).dibujo(),
                fx,
                fy,
                ent(0),
                ent(0),
                fd,
                store@,
            ) == pila(
                disenos(children@),
                i as nat,
                lienzo.dibujo(),
                fx,
                fy,
                lienzo.medida(mayor_ancho),
                lienzo.medida(mayor_alto),
                fd,
                store@,
            ),
        decreases children@.len() - i,
    {
        assert(lienzo.medida(x) == fx && lienzo.medida(y) == fy && lienzo.medida(disponible) == fd);
        let usado = renderizar_layout(lienzo, &children[i], x, y, disponible, store);
        mayor_ancho = lienzo.operar(OpMedida::Maximo, mayor_ancho, usado.0);
        mayor_alto = lienzo.operar(OpMedida::Maximo, mayor_alto, usado.1);
        i = i + 1;
    }
    (mayor_ancho, mayor_alto)
}

} // verus!
