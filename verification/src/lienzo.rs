//! What is drawn on the canvas.
//!
//! A drawing is a list of orders to the canvas. Its coordinates are not
//! numbers but measures: each says how the host is to compute it, in decimals,
//! from whole numbers and from earlier measures. The host computes the
//! measures once, in order, and then carries out the orders.

use vstd::prelude::*;

use crate::decimal::{Decimal, Estilo};
use crate::layout::{Diseno, Layout};

verus! {

/// An operation on two measures.
#[derive(Debug, Clone, Copy, PartialEq, Eq, Structural)]
pub enum OpMedida {
    Suma,
    Resta,
    Producto,
    Cociente,
    Maximo,
    Minimo,
}

/// A text to draw. A decimal is drawn as the host shows it in that style.
#[derive(Debug)]
pub enum TextoCanvas {
    Literal(String),
    Decimal(Decimal, Estilo),
}

/// What a [`TextoCanvas`] stands for.
pub enum TextoVista {
    Literal(Seq<char>),
    Decimal(Decimal, Estilo),
}

impl View for TextoCanvas {
    type V = TextoVista;

    open spec fn view(&self) -> TextoVista {
        match *self {
            TextoCanvas::Literal(t) => TextoVista::Literal(t@),
            TextoCanvas::Decimal(d, e) => TextoVista::Decimal(d, e),
        }
    }
}

/// How a measure is computed. Operands are the places of earlier measures.
#[derive(Debug)]
pub enum Medida {
    Entera(i64),
    Dato(Decimal),
    Conteo(usize),
    /// The length of the text that shows a decimal, in bytes.
    Largo(Decimal, Estilo),
    Operacion { op: OpMedida, a: usize, b: usize },
}

/// A measure, written out.
pub enum Formula {
    Entera(int),
    Dato(Decimal),
    Conteo(nat),
    Largo(Decimal, Estilo),
    Operacion { op: OpMedida, a: Box<Formula>, b: Box<Formula> },
}

/// The measure at a place, written out.
#[verifier::opaque]
pub open spec fn formula(medidas: Seq<Medida>, i: nat) -> Formula
    decreases i,
{
    match medidas[i as int] {
        Medida::Entera(n) => Formula::Entera(n as int),
        Medida::Dato(d) => Formula::Dato(d),
        Medida::Conteo(n) => Formula::Conteo(n as nat),
        Medida::Largo(d, e) => Formula::Largo(d, e),
        Medida::Operacion { op, a, b } => if a < i && b < i {
            Formula::Operacion {
                op,
                a: Box::new(formula(medidas, a as nat)),
                b: Box::new(formula(medidas, b as nat)),
            }
        } else {
            arbitrary()
        },
    }
}

/// The directions between which the arcs are drawn.
#[derive(Debug, Clone, Copy, PartialEq, Eq, Structural)]
pub enum Angulo {
    /// A quarter turn back.
    MenosMedioPi,
    Cero,
    /// A quarter turn.
    MedioPi,
    /// Half a turn.
    Pi,
}

/// An order to the canvas. Coordinates are the places of measures.
#[derive(Debug)]
pub enum Orden {
    Fuente(&'static str),
    Relleno(&'static str),
    Trazo(&'static str),
    Grosor(usize),
    Texto { texto: TextoCanvas, x: usize, y: usize },
    IniciarTrayecto,
    MoverA { x: usize, y: usize },
    LineaA { x: usize, y: usize },
    Arco { x: usize, y: usize, radio: usize, desde: Angulo, hasta: Angulo },
    CerrarTrayecto,
    Rellenar,
    Trazar,
    LimpiarRect { x: usize, y: usize, ancho: usize, alto: usize },
    RellenarRect { x: usize, y: usize, ancho: usize, alto: usize },
    /// Nothing to draw: from here to there the canvas answers to clicks.
    Area {
        x: usize,
        y: usize,
        ancho: usize,
        alto: usize,
        derecha: usize,
        abajo: usize,
        layout: Layout,
    },
}

/// An order, with its measures written out.
pub enum Trazo {
    Fuente(Seq<char>),
    Relleno(Seq<char>),
    Trazo(Seq<char>),
    Grosor(Formula),
    Texto { texto: TextoVista, x: Formula, y: Formula },
    IniciarTrayecto,
    MoverA { x: Formula, y: Formula },
    LineaA { x: Formula, y: Formula },
    Arco { x: Formula, y: Formula, radio: Formula, desde: Angulo, hasta: Angulo },
    CerrarTrayecto,
    Rellenar,
    Trazar,
    LimpiarRect { x: Formula, y: Formula, ancho: Formula, alto: Formula },
    RellenarRect { x: Formula, y: Formula, ancho: Formula, alto: Formula },
    Area {
        x: Formula,
        y: Formula,
        ancho: Formula,
        alto: Formula,
        derecha: Formula,
        abajo: Formula,
        layout: Diseno,
    },
}

impl Orden {
    /// The order with its measures written out.
    pub open spec fn trazo(self, l: Lienzo) -> Trazo {
        match self {
            Orden::Fuente(t) => Trazo::Fuente(t@),
            Orden::Relleno(t) => Trazo::Relleno(t@),
            Orden::Trazo(t) => Trazo::Trazo(t@),
            Orden::Grosor(g) => Trazo::Grosor(l.medida(g)),
            Orden::Texto { texto, x, y } => Trazo::Texto {
                texto: texto@,
                x: l.medida(x),
                y: l.medida(y),
            },
            Orden::IniciarTrayecto => Trazo::IniciarTrayecto,
            Orden::MoverA { x, y } => Trazo::MoverA {
                x: l.medida(x),
                y: l.medida(y),
            },
            Orden::LineaA { x, y } => Trazo::LineaA {
                x: l.medida(x),
                y: l.medida(y),
            },
            Orden::Arco { x, y, radio, desde, hasta } => Trazo::Arco {
                x: l.medida(x),
                y: l.medida(y),
                radio: l.medida(radio),
                desde,
                hasta,
            },
            Orden::CerrarTrayecto => Trazo::CerrarTrayecto,
            Orden::Rellenar => Trazo::Rellenar,
            Orden::Trazar => Trazo::Trazar,
            Orden::LimpiarRect { x, y, ancho, alto } => Trazo::LimpiarRect {
                x: l.medida(x),
                y: l.medida(y),
                ancho: l.medida(ancho),
                alto: l.medida(alto),
            },
            Orden::RellenarRect { x, y, ancho, alto } => Trazo::RellenarRect {
                x: l.medida(x),
                y: l.medida(y),
                ancho: l.medida(ancho),
                alto: l.medida(alto),
            },
            Orden::Area { x, y, ancho, alto, derecha, abajo, layout } => Trazo::Area {
                x: l.medida(x),
                y: l.medida(y),
                ancho: l.medida(ancho),
                alto: l.medida(alto),
                derecha: l.medida(derecha),
                abajo: l.medida(abajo),
                layout: layout@,
            },
        }
    }

    /// Whether the order uses only the first `n` measures.
    pub open spec fn usa_hasta(self, n: nat) -> bool {
        match self {
            Orden::Grosor(g) => g < n,
            Orden::Texto { x, y, .. } => x < n && y < n,
            Orden::MoverA { x, y } => x < n && y < n,
            Orden::LineaA { x, y } => x < n && y < n,
            Orden::Arco { x, y, radio, .. } => x < n && y < n && radio < n,
            Orden::LimpiarRect { x, y, ancho, alto } => x < n && y < n && ancho < n && alto < n,
            Orden::RellenarRect { x, y, ancho, alto } => x < n && y < n && ancho < n && alto < n,
            Orden::Area { x, y, ancho, alto, derecha, abajo, .. } => x < n && y < n && ancho < n
                && alto < n && derecha < n && abajo < n,
            _ => true,
        }
    }
}

/// A drawing in the making.
pub struct Lienzo {
    pub medidas: Vec<Medida>,
    pub ordenes: Vec<Orden>,
}

impl Lienzo {
    /// Whether every measure and every order uses earlier measures only.
    #[verifier::opaque]
    pub open spec fn bien_formado(self) -> bool {
        &&& forall|i: int|
            0 <= i < self.medidas@.len() ==> (#[trigger] self.medidas@[i] matches Medida::Operacion {
                a,
                b,
                ..
            } ==> a < i && b < i)
        &&& forall|i: int|
            0 <= i < self.ordenes@.len() ==> #[trigger] self.ordenes@[i].usa_hasta(
                self.medidas@.len(),
            )
    }

    /// The measure at a place, written out.
    pub open spec fn medida(self, i: usize) -> Formula {
        formula(self.medidas@, i as nat)
    }

    /// Whether there is a measure at a place.
    pub open spec fn hay(self, i: usize) -> bool {
        i < self.medidas@.len()
    }

    /// The drawing.
    #[verifier::opaque]
    pub open spec fn dibujo(self) -> Seq<Trazo> {
        Seq::new(self.ordenes@.len(), |i: int| self.ordenes@[i].trazo(self))
    }

    /// Whether the measures of an earlier moment are still what they were.
    pub open spec fn conserva(self, antes: Lienzo) -> bool {
        &&& self.bien_formado()
        &&& antes.medidas@.len() <= self.medidas@.len()
        &&& forall|i: usize| antes.hay(i) ==> #[trigger] self.medida(i) == antes.medida(i)
    }

    /// An empty drawing.
    pub fn new() -> (r: Lienzo)
        ensures
            r.bien_formado(),
            r.medidas@.len() == 0,
            r.dibujo() == Seq::<Trazo>::empty(),
    {
        let r = Lienzo { medidas: Vec::new(), ordenes: Vec::new() };
        proof {
            reveal(Lienzo::bien_formado);
            reveal(Lienzo::dibujo);
            assert(r.dibujo() =~= Seq::<Trazo>::empty());
        }
        r
    }

    /// Adds a measure.
    fn medir(&mut self, m: Medida) -> (r: usize)
        requires
            old(self).bien_formado(),
            m matches Medida::Operacion { a, b, .. } ==> old(self).hay(a) && old(self).hay(b),
        ensures
            final(self).conserva(*old(self)),
            final(self).hay(r),
            r == old(self).medidas@.len(),
            final(self).medidas@ == old(self).medidas@.push(m),
            final(self).dibujo() == old(self).dibujo(),
    {
        let r = self.medidas.len();
        self.medidas.push(m);
        proof {
            reveal(Lienzo::bien_formado);
            reveal(Lienzo::dibujo);
            let antes = old(self).medidas@;
            assert forall|i: usize| old(self).hay(i) implies #[trigger] self.medida(i) == old(
                self,
            ).medida(i) by {
                lema_formula_estable(antes, self.medidas@, i as nat);
            }
            assert forall|i: int| 0 <= i < self.ordenes@.len() implies #[trigger] self.ordenes@[i].trazo(
                *self,
            ) == self.ordenes@[i].trazo(*old(self)) by {
                assert(old(self).ordenes@[i].usa_hasta(antes.len()));
            }
            assert forall|i: int|
                0 <= i < self.ordenes@.len() implies #[trigger] self.ordenes@[i].usa_hasta(
                self.medidas@.len(),
            ) by {
                assert(old(self).ordenes@[i].usa_hasta(antes.len()));
            }
            assert(self.dibujo() =~= old(self).dibujo());
        }
        r
    }

    /// Adds a whole number as a measure.
    pub fn entera(&mut self, n: i64) -> (r: usize)
        requires
            old(self).bien_formado(),
        ensures
            final(self).conserva(*old(self)),
            final(self).hay(r),
            final(self).medida(r) == Formula::Entera(n as int),
            final(self).dibujo() == old(self).dibujo(),
    {
        proof {
            reveal_with_fuel(formula, 1);
        }
        self.medir(Medida::Entera(n))
    }

    /// Adds a decimal as a measure.
    pub fn dato(&mut self, d: Decimal) -> (r: usize)
        requires
            old(self).bien_formado(),
        ensures
            final(self).conserva(*old(self)),
            final(self).hay(r),
            final(self).medida(r) == Formula::Dato(d),
            final(self).dibujo() == old(self).dibujo(),
    {
        proof {
            reveal_with_fuel(formula, 1);
        }
        self.medir(Medida::Dato(d))
    }

    /// Adds a count as a measure.
    pub fn conteo(&mut self, n: usize) -> (r: usize)
        requires
            old(self).bien_formado(),
        ensures
            final(self).conserva(*old(self)),
            final(self).hay(r),
            final(self).medida(r) == Formula::Conteo(n as nat),
            final(self).dibujo() == old(self).dibujo(),
    {
        proof {
            reveal_with_fuel(formula, 1);
        }
        self.medir(Medida::Conteo(n))
    }

    /// Adds the length of a text, in bytes, as a measure.
    pub fn largo(&mut self, t: TextoCanvas) -> (r: usize)
        requires
            old(self).bien_formado(),
        ensures
            final(self).conserva(*old(self)),
            final(self).hay(r),
            final(self).medida(r) == largo_de_texto(t@),
            final(self).dibujo() == old(self).dibujo(),
    {
        match t {
            TextoCanvas::Literal(s) => self.conteo(s.as_str().as_bytes().len()),
            TextoCanvas::Decimal(d, e) => {
                proof {
                    reveal_with_fuel(formula, 1);
                }
                self.medir(Medida::Largo(d, e))
            },
        }
    }

    /// Adds the result of an operation as a measure.
    pub fn operar(&mut self, op: OpMedida, a: usize, b: usize) -> (r: usize)
        requires
            old(self).bien_formado(),
            old(self).hay(a),
            old(self).hay(b),
        ensures
            final(self).conserva(*old(self)),
            final(self).hay(r),
            final(self).medida(r) == operacion(op, old(self).medida(a), old(self).medida(b)),
            final(self).dibujo() == old(self).dibujo(),
    {
        let r = self.medir(Medida::Operacion { op, a, b });
        proof {
            reveal_with_fuel(formula, 1);
        }
        assert(self.medida(a) == old(self).medida(a));
        assert(self.medida(b) == old(self).medida(b));
        r
    }

    /// Adds the result of an operation with a whole number as a measure.
    pub fn operar_entera(&mut self, op: OpMedida, a: usize, n: i64) -> (r: usize)
        requires
            old(self).bien_formado(),
            old(self).hay(a),
        ensures
            final(self).conserva(*old(self)),
            final(self).hay(r),
            final(self).medida(r) == operacion(
                op,
                old(self).medida(a),
                Formula::Entera(n as int),
            ),
            final(self).dibujo() == old(self).dibujo(),
    {
        let b = self.entera(n);
        self.operar(op, a, b)
    }

    /// Adds an order to the drawing.
    pub fn ordenar(&mut self, o: Orden)
        requires
            old(self).bien_formado(),
            o.usa_hasta(old(self).medidas@.len()),
        ensures
            final(self).conserva(*old(self)),
            final(self).medidas@ == old(self).medidas@,
            final(self).dibujo() == old(self).dibujo().push(o.trazo(*old(self))),
    {
        self.ordenes.push(o);
        proof {
            reveal(Lienzo::bien_formado);
            reveal(Lienzo::dibujo);
            assert forall|p: Orden| #[trigger] p.trazo(*self) == p.trazo(*old(self)) by {};
            assert(self.dibujo() =~= old(self).dibujo().push(o.trazo(*old(self))));
        }
    }
}

/// The result of an operation, written out.
pub open spec fn operacion(op: OpMedida, a: Formula, b: Formula) -> Formula {
    Formula::Operacion { op, a: Box::new(a), b: Box::new(b) }
}

/// The length of a text in bytes, written out. Only that of a decimal is left to
/// the host, which writes its text.
pub open spec fn largo_de_texto(t: TextoVista) -> Formula {
    match t {
        TextoVista::Literal(s) => Formula::Conteo(vstd::utf8::encode_utf8(s).len()),
        TextoVista::Decimal(d, e) => Formula::Largo(d, e),
    }
}

/// Measures keep their formulas when more are added.
proof fn lema_formula_estable(antes: Seq<Medida>, ahora: Seq<Medida>, i: nat)
    requires
        i < antes.len() <= ahora.len(),
        forall|k: int| 0 <= k < antes.len() ==> antes[k] == ahora[k],
        forall|k: int|
            0 <= k < antes.len() ==> (#[trigger] antes[k] matches Medida::Operacion { a, b, .. } ==> a
                < k && b < k),
    ensures
        formula(ahora, i) == formula(antes, i),
    decreases i,
{
    reveal_with_fuel(formula, 1);
    assert(antes[i as int] == ahora[i as int]);
    if let Medida::Operacion { a, b, .. } = antes[i as int] {
        lema_formula_estable(antes, ahora, a as nat);
        lema_formula_estable(antes, ahora, b as nat);
    }
}

} // verus!
