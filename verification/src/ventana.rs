//! The window: its state, what is drawn in it, and what a click does.

use vstd::prelude::*;

use crate::almacen::VariableStore;
use crate::ast::Declaracion;
use crate::decimal::Decimal;
use crate::dibujo::{ent, mas, menos, renderizar_layout, trazado, COLOR_BACKGROUND, COLOR_ERROR};
use crate::evaluador::{ejecutar_funcion, inicializar_estado};
use crate::json::Json;
use crate::layout::{diseno_de_programa, diseno_opcional, extraer_layout, Diseno, Layout};
use crate::lienzo::{Formula, Lienzo, OpMedida, Orden, TextoCanvas, TextoVista, Trazo};
use crate::semantica::{inicio, llamada};
use crate::sesion::{Corte, Entorno, Interrupcion, Respuesta, Sesion};
use crate::texto::{entero_a_texto, mismo_texto, texto_de_entero, unir};
use crate::valor::{vistas, Valor, ValorGUI};

verus! {

// ---------------------------------------------------------------------------
// Messages
// ---------------------------------------------------------------------------

/// What texts stand for.
pub open spec fn vistas_textos(ts: Seq<String>) -> Seq<Seq<char>> {
    Seq::new(ts.len(), |i: int| ts[i]@)
}

/// Why there is nothing to draw on.
#[derive(Debug)]
pub enum FalloCanvas {
    SinVentana,
    SinDocumento,
    /// There is no element of that id.
    NoEncontrado(String),
    NoEsCanvas,
    SinContexto,
    ContextoNo2D,
}

impl FalloCanvas {
    /// The message that tells the page of it.
    pub open spec fn mensaje_spec(self) -> Seq<char> {
        match self {
            FalloCanvas::SinVentana => "Error: no window"@,
            FalloCanvas::SinDocumento => "Error: no document"@,
            FalloCanvas::NoEncontrado(id) => "Error: canvas '"@ + id@ + "' no encontrado"@,
            FalloCanvas::NoEsCanvas => "Error: elemento no es un canvas"@,
            FalloCanvas::SinContexto => "Error: no se pudo obtener contexto 2D"@,
            FalloCanvas::ContextoNo2D => "Error: contexto no es 2D"@,
        }
    }

    /// The message that tells the page of it.
    pub fn mensaje(&self) -> (r: String)
        ensures
            r@ == self.mensaje_spec(),
    {
        match self {
            FalloCanvas::SinVentana => "Error: no window".to_string(),
            FalloCanvas::SinDocumento => "Error: no document".to_string(),
            FalloCanvas::NoEncontrado(id) => unir("Error: canvas '", id.as_str(), "' no encontrado"),
            FalloCanvas::NoEsCanvas => "Error: elemento no es un canvas".to_string(),
            FalloCanvas::SinContexto => "Error: no se pudo obtener contexto 2D".to_string(),
            FalloCanvas::ContextoNo2D => "Error: contexto no es 2D".to_string(),
        }
    }
}

/// The first `k` texts, with semicolons between them.
pub open spec fn enumerados(ts: Seq<Seq<char>>, k: nat) -> Seq<char>
    decreases k,
{
    if k == 0 {
        ""@
    } else if k == 1 {
        ts[0]
    } else {
        enumerados(ts, (k - 1) as nat) + "; "@ + ts[k - 1]
    }
}

/// The message that tells the page why a program did not compile.
pub fn mensaje_de_compilacion(errores: &Vec<String>) -> (r: String)
    ensures
        r@ == "Error compilando: "@ + enumerados(vistas_textos(errores@), errores@.len()),
{
    let ghost ts = vistas_textos(errores@);
    let mut texto = "Error compilando: ".to_string();
    proof {
        reveal_strlit("");
        assert(texto@ =~= "Error compilando: "@ + enumerados(ts, 0));
    }
    let mut i: usize = 0;
    while i < errores.len()
        invariant
            i <= errores@.len(),
            ts == vistas_textos(errores@),
            texto@ == "Error compilando: "@ + enumerados(ts, i as nat),
        decreases errores@.len() - i,
    {
        if i > 0 {
            texto.append("; ");
        }
        texto.append(errores[i].as_str());
        proof {
            reveal_strlit("");
            assert(texto@ =~= "Error compilando: "@ + enumerados(ts, (i + 1) as nat));
        }
        i = i + 1;
    }
    texto
}

/// What is logged of a click at a pixel.
pub fn mensaje_de_click(x: i32, y: i32) -> (r: String)
    ensures
        r@ == "Click en ("@ + texto_de_entero(x as int) + ", "@ + texto_de_entero(y as int) + ")"@,
{
    let mut texto = unir("Click en (", entero_a_texto(x as i64).as_str(), ", ");
    texto.append(entero_a_texto(y as i64).as_str());
    texto.append(")");
    texto
}

// ---------------------------------------------------------------------------
// State
// ---------------------------------------------------------------------------

/// A part of the canvas that answers to clicks, and the widget drawn there.
#[derive(Debug)]
pub struct WidgetHitArea {
    pub x: Decimal,
    pub y: Decimal,
    pub ancho: Decimal,
    pub alto: Decimal,
    /// `x` and `ancho` together.
    pub derecha: Decimal,
    /// `y` and `alto` together.
    pub abajo: Decimal,
    pub layout: Layout,
}

/// The state of the window.
pub struct AppState {
    pub store: VariableStore,
    pub declaraciones: Vec<Declaracion>,
    /// In the order in which they were drawn.
    pub hit_areas: Vec<WidgetHitArea>,
    pub ultimo_layout: Option<Layout>,
    pub canvas_ancho: u32,
    pub canvas_alto: u32,
    /// The canvases that listen to clicks already.
    pub atendidos: Vec<String>,
}

/// The first drawing of a program starts from no variables.
pub open spec fn almacen_vacio() -> Map<Seq<char>, Json> {
    Map::empty()
}

/// Sets up the variables of a program that is to be shown.
pub fn preparar(declaraciones: &Vec<Declaracion>, respuestas: &Vec<Respuesta>, combustible: u64) -> (r:
    Result<VariableStore, Corte>)
    ensures
        ({
            let env = Entorno { declaraciones: declaraciones@, respuestas: respuestas@ };
            let p = inicio(combustible as nat, env, almacen_vacio(), 0);
            match r {
                Ok(store) => p.0 is Ok && store@ == p.1.almacen,
                Err(c) => p.0 == Err::<(), Interrupcion>(c@),
            }
        }),
{
    let mut sesion = Sesion::new(
        declaraciones.as_slice(),
        respuestas.as_slice(),
        VariableStore::new(),
    );
    match inicializar_estado(&mut sesion, combustible) {
        Ok(_) => Ok(sesion.store),
        Err(c) => Err(c),
    }
}

impl AppState {
    /// A window without a program.
    pub fn new() -> (r: Self)
        ensures
            r.store@ == almacen_vacio(),
            r.declaraciones@.len() == 0,
            r.hit_areas@.len() == 0,
            r.ultimo_layout is None,
            r.canvas_ancho == 600,
            r.canvas_alto == 400,
            r.atendidos@.len() == 0,
    {
        AppState {
            store: VariableStore::new(),
            declaraciones: Vec::new(),
            hit_areas: Vec::new(),
            ultimo_layout: None,
            canvas_ancho: 600,
            canvas_alto: 400,
            atendidos: Vec::new(),
        }
    }

    /// Takes a program whose variables are set up, on a canvas of that size.
    pub fn cargar(
        &mut self,
        declaraciones: Vec<Declaracion>,
        store: VariableStore,
        ancho: u32,
        alto: u32,
    )
        ensures
            final(self).store@ == store@,
            final(self).declaraciones@ == declaraciones@,
            final(self).hit_areas@.len() == 0,
            diseno_opcional(final(self).ultimo_layout) == Some(
                diseno_de_programa(declaraciones@, 0),
            ),
            final(self).canvas_ancho == ancho,
            final(self).canvas_alto == alto,
            final(self).atendidos@ == old(self).atendidos@,
    {
        let layout = extraer_layout(declaraciones.as_slice());
        self.store = store;
        self.declaraciones = declaraciones;
        self.hit_areas = Vec::new();
        self.canvas_ancho = ancho;
        self.canvas_alto = alto;
        self.ultimo_layout = Some(layout);
    }

    /// Whether a canvas listens to clicks already.
    pub open spec fn atiende(self, canvas_id: Seq<char>) -> bool {
        vistas_textos(self.atendidos@).contains(canvas_id)
    }

    /// Notes that a canvas listens to clicks. Tells whether it did not before.
    pub fn atender(&mut self, canvas_id: &str) -> (r: bool)
        ensures
            r == !old(self).atiende(canvas_id@),
            vistas_textos(final(self).atendidos@) == if r {
                vistas_textos(old(self).atendidos@).push(canvas_id@)
            } else {
                vistas_textos(old(self).atendidos@)
            },
            final(self).atiende(canvas_id@),
            final(self).store == old(self).store,
            final(self).declaraciones == old(self).declaraciones,
            final(self).hit_areas == old(self).hit_areas,
            final(self).ultimo_layout == old(self).ultimo_layout,
            final(self).canvas_ancho == old(self).canvas_ancho,
            final(self).canvas_alto == old(self).canvas_alto,
    {
        let ghost previos = vistas_textos(self.atendidos@);
        let mut i: usize = 0;
        while i < self.atendidos.len()
            invariant
                i <= self.atendidos@.len(),
                *self == *old(self),
                previos == vistas_textos(self.atendidos@),
                forall|k: int| 0 <= k < i ==> #[trigger] previos[k] != canvas_id@,
            decreases self.atendidos@.len() - i,
        {
            if mismo_texto(self.atendidos[i].as_str(), canvas_id) {
                assert(previos[i as int] == canvas_id@);
                return false;
            }
            i = i + 1;
        }
        self.atendidos.push(canvas_id.to_string());
        assert(vistas_textos(self.atendidos@) =~= previos.push(canvas_id@));
        assert(vistas_textos(self.atendidos@)[previos.len() as int] == canvas_id@);
        true
    }
}

// ---------------------------------------------------------------------------
// Drawing
// ---------------------------------------------------------------------------

/// An empty canvas with its background.
pub open spec fn fondo(ancho: int, alto: int) -> Seq<Trazo> {
    seq![
        Trazo::LimpiarRect { x: ent(0), y: ent(0), ancho: ent(ancho), alto: ent(alto) },
        Trazo::Relleno(COLOR_BACKGROUND@),
        Trazo::RellenarRect { x: ent(0), y: ent(0), ancho: ent(ancho), alto: ent(alto) },
    ]
}

/// A layout on its background, ten pixels from the edges; the background alone
/// if there is none.
pub open spec fn pantalla(
    layout: Option<Diseno>,
    ancho: int,
    alto: int,
    almacen: Map<Seq<char>, Json>,
) -> Seq<Trazo> {
    match layout {
        Some(l) => trazado(
            l,
            fondo(ancho, alto),
            ent(10),
            ent(10),
            menos(ent(ancho), ent(20)),
            almacen,
        ).dibujo,
        None => fondo(ancho, alto),
    }
}

/// Where the `i`-th message stands.
pub open spec fn altura_de_mensaje(i: nat) -> Formula
    decreases i,
{
    if i == 0 {
        ent(30)
    } else {
        mas(altura_de_mensaje((i - 1) as nat), ent(20))
    }
}

/// The first `k` messages on the background, one below the other.
pub open spec fn pantalla_de_errores(
    errores: Seq<Seq<char>>,
    k: nat,
    ancho: int,
    alto: int,
) -> Seq<Trazo>
    decreases k,
{
    if k == 0 {
        fondo(ancho, alto).push(Trazo::Relleno(COLOR_ERROR@)).push(
            Trazo::Fuente("14px sans-serif"@),
        )
    } else {
        pantalla_de_errores(errores, (k - 1) as nat, ancho, alto).push(
            Trazo::Texto {
                texto: TextoVista::Literal(errores[k - 1]),
                x: ent(10),
                y: altura_de_mensaje((k - 1) as nat),
            },
        )
    }
}

/// Draws the background.
fn dibujar_fondo(ancho: u32, alto: u32) -> (r: (Lienzo, usize))
    ensures
        r.0.bien_formado(),
        r.0.hay(r.1),
        r.0.medida(r.1) == ent(ancho as int),
        r.0.dibujo() == fondo(ancho as int, alto as int),
{
    let mut lienzo = Lienzo::new();
    let cero = lienzo.entera(0);
    let a = lienzo.entera(ancho as i64);
    let h = lienzo.entera(alto as i64);
    lienzo.ordenar(Orden::LimpiarRect { x: cero, y: cero, ancho: a, alto: h });
    lienzo.ordenar(Orden::Relleno(COLOR_BACKGROUND));
    lienzo.ordenar(Orden::RellenarRect { x: cero, y: cero, ancho: a, alto: h });
    assert(lienzo.dibujo() =~= fondo(ancho as int, alto as int));
    (lienzo, a)
}

/// Draws the messages of a program that did not compile.
pub fn dibujar_errores(errores: &Vec<String>, ancho: u32, alto: u32) -> (r: Lienzo)
    ensures
        r.bien_formado(),
        r.dibujo() == pantalla_de_errores(
            vistas_textos(errores@),
            errores@.len(),
            ancho as int,
            alto as int,
        ),
{
    let ghost ts = vistas_textos(errores@);
    let (mut lienzo, _) = dibujar_fondo(ancho, alto);
    lienzo.ordenar(Orden::Relleno(COLOR_ERROR));
    lienzo.ordenar(Orden::Fuente("14px sans-serif"));
    let x = lienzo.entera(10);
    let mut y = lienzo.entera(30);
    let mut i: usize = 0;
    while i < errores.len()
        invariant
            i <= errores@.len(),
            ts == vistas_textos(errores@),
            lienzo.bien_formado(),
            lienzo.hay(x),
            lienzo.hay(y),
            lienzo.medida(x) == ent(10),
            lienzo.medida(y) == altura_de_mensaje(i as nat),
            lienzo.dibujo() == pantalla_de_errores(ts, i as nat, ancho as int, alto as int),
        decreases errores@.len() - i,
    {
        lienzo.ordenar(Orden::Texto { texto: TextoCanvas::Literal(errores[i].clone()), x, y });
        y = lienzo.operar_entera(OpMedida::Suma, y, 20);
        i = i + 1;
    }
    lienzo
}

impl AppState {
    /// Draws the layout on a canvas of that size.
    pub fn dibujar(&self, ancho: u32, alto: u32) -> (r: Lienzo)
        ensures
            r.bien_formado(),
            r.dibujo() == pantalla(
                diseno_opcional(self.ultimo_layout),
                ancho as int,
                alto as int,
                self.store@,
            ),
    {
        let (mut lienzo, a) = dibujar_fondo(ancho, alto);
        if let Some(layout) = &self.ultimo_layout {
            let margen = lienzo.entera(10);
            let hueco = lienzo.operar_entera(OpMedida::Resta, a, 20);
            renderizar_layout(&mut lienzo, layout, margen, margen, hueco, &self.store);
        }
        lienzo
    }
}

impl AppState {
    /// Shows what the compiler made of a program: draws it, or the compiler's
    /// messages, and gives the text that the page is told. A program that did
    /// not compile leaves the state as it was. So does one whose variables
    /// cannot be set up yet; it is given back, with the reason.
    pub fn renderizar(
        &mut self,
        compilado: Result<Vec<Declaracion>, Vec<String>>,
        respuestas: &Vec<Respuesta>,
        combustible: u64,
        ancho: u32,
        alto: u32,
    ) -> (r: Result<(Lienzo, String), (Vec<Declaracion>, Corte)>)
        ensures
            final(self).atendidos@ == old(self).atendidos@,
            match compilado {
                Err(errores) => {
                    &&& r matches Ok((lienzo, texto))
                    &&& lienzo.bien_formado()
                    &&& lienzo.dibujo() == pantalla_de_errores(
                        vistas_textos(errores@),
                        errores@.len(),
                        ancho as int,
                        alto as int,
                    )
                    &&& texto@ == "Error compilando: "@ + enumerados(
                        vistas_textos(errores@),
                        errores@.len(),
                    )
                    &&& *final(self) == *old(self)
                },
                Ok(ds) => {
                    let env = Entorno { declaraciones: ds@, respuestas: respuestas@ };
                    let p = inicio(combustible as nat, env, almacen_vacio(), 0);
                    let l = diseno_de_programa(ds@, 0);
                    match p.0 {
                        Ok(_) => {
                            &&& r matches Ok((lienzo, texto))
                            &&& lienzo.bien_formado()
                            &&& lienzo.dibujo() == pantalla(
                                Some(l),
                                ancho as int,
                                alto as int,
                                p.1.almacen,
                            )
                            &&& lienzo.dibujo() == pantalla(
                                diseno_opcional(final(self).ultimo_layout),
                                final(self).canvas_ancho as int,
                                final(self).canvas_alto as int,
                                final(self).store@,
                            )
                            &&& texto@ == "ok"@
                            &&& final(self).store@ == p.1.almacen
                            &&& final(self).declaraciones@ == ds@
                            &&& final(self).hit_areas@.len() == 0
                            &&& diseno_opcional(final(self).ultimo_layout) == Some(l)
                            &&& final(self).canvas_ancho == ancho
                            &&& final(self).canvas_alto == alto
                        },
                        Err(c) => {
                            &&& r matches Err((devueltas, corte))
                            &&& devueltas@ == ds@
                            &&& corte@ == c
                            &&& *final(self) == *old(self)
                        },
                    }
                },
            },
    {
        match compilado {
            Err(errores) => Ok(
                (dibujar_errores(&errores, ancho, alto), mensaje_de_compilacion(&errores)),
            ),
            Ok(ds) => match preparar(&ds, respuestas, combustible) {
                Err(c) => Err((ds, c)),
                Ok(store) => {
                    self.cargar(ds, store, ancho, alto);
                    Ok((self.dibujar(ancho, alto), "ok".to_string()))
                },
            },
        }
    }

    /// Draws the last layout again, and gives the text that the page is told.
    pub fn rerenderizar(&self, ancho: u32, alto: u32) -> (r: (Lienzo, String))
        ensures
            r.0.bien_formado(),
            r.0.dibujo() == pantalla(
                diseno_opcional(self.ultimo_layout),
                ancho as int,
                alto as int,
                self.store@,
            ),
            r.1@ == "ok"@,
    {
        (self.dibujar(ancho, alto), "ok".to_string())
    }
}

// ---------------------------------------------------------------------------
// Areas
// ---------------------------------------------------------------------------

/// What a [`WidgetHitArea`] stands for.
pub struct Zona {
    pub x: Decimal,
    pub y: Decimal,
    pub ancho: Decimal,
    pub alto: Decimal,
    pub derecha: Decimal,
    pub abajo: Decimal,
    pub layout: Diseno,
}

impl View for WidgetHitArea {
    type V = Zona;

    open spec fn view(&self) -> Zona {
        Zona {
            x: self.x,
            y: self.y,
            ancho: self.ancho,
            alto: self.alto,
            derecha: self.derecha,
            abajo: self.abajo,
            layout: self.layout@,
        }
    }
}

/// What areas stand for.
pub open spec fn zonas(areas: Seq<WidgetHitArea>) -> Seq<Zona> {
    Seq::new(areas.len(), |i: int| areas[i]@)
}

/// The areas among the first `k` orders, where the measures have these values.
pub open spec fn zonas_marcadas(ordenes: Seq<Orden>, k: nat, valores: Seq<Decimal>) -> Seq<Zona>
    decreases k,
{
    if k == 0 {
        Seq::empty()
    } else {
        let previas = zonas_marcadas(ordenes, (k - 1) as nat, valores);
        match ordenes[k - 1] {
            Orden::Area { x, y, ancho, alto, derecha, abajo, layout } => previas.push(
                Zona {
                    x: valores[x as int],
                    y: valores[y as int],
                    ancho: valores[ancho as int],
                    alto: valores[alto as int],
                    derecha: valores[derecha as int],
                    abajo: valores[abajo as int],
                    layout: layout@,
                },
            ),
            _ => previas,
        }
    }
}

impl AppState {
    /// Takes the areas of a drawing whose measures the host has computed.
    pub fn fijar_areas(&mut self, lienzo: &Lienzo, valores: &Vec<Decimal>)
        requires
            lienzo.bien_formado(),
            valores@.len() == lienzo.medidas@.len(),
        ensures
            zonas(final(self).hit_areas@) == zonas_marcadas(
                lienzo.ordenes@,
                lienzo.ordenes@.len(),
                valores@,
            ),
            final(self).store == old(self).store,
            final(self).declaraciones == old(self).declaraciones,
            final(self).ultimo_layout == old(self).ultimo_layout,
            final(self).canvas_ancho == old(self).canvas_ancho,
            final(self).canvas_alto == old(self).canvas_alto,
            final(self).atendidos == old(self).atendidos,
    {
        let mut areas: Vec<WidgetHitArea> = Vec::new();
        let mut i: usize = 0;
        assert(zonas(areas@) =~= Seq::<Zona>::empty());
        while i < lienzo.ordenes.len()
            invariant
                i <= lienzo.ordenes@.len(),
                lienzo.bien_formado(),
                valores@.len() == lienzo.medidas@.len(),
                zonas(areas@) == zonas_marcadas(lienzo.ordenes@, i as nat, valores@),
            decreases lienzo.ordenes@.len() - i,
        {
            let ghost previas = zonas(areas@);
            proof {
                reveal(Lienzo::bien_formado);
                assert(lienzo.ordenes@[i as int].usa_hasta(lienzo.medidas@.len()));
            }
            if let Orden::Area { x, y, ancho, alto, derecha, abajo, layout } = &lienzo.ordenes[i] {
                let area = WidgetHitArea {
                    x: valores[*x],
                    y: valores[*y],
                    ancho: valores[*ancho],
                    alto: valores[*alto],
                    derecha: valores[*derecha],
                    abajo: valores[*abajo],
                    layout: layout.clone(),
                };
                areas.push(area);
                assert(zonas(areas@) =~= previas.push(area@));
            }
            i = i + 1;
        }
        self.hit_areas = areas;
    }
}

// ---------------------------------------------------------------------------
// Clicks
// ---------------------------------------------------------------------------

impl Zona {
    /// Whether a point is in the area, its edges included.
    pub open spec fn contiene_spec(self, x: Decimal, y: Decimal) -> bool {
        &&& self.x.menor_spec(x) || self.x.igual_spec(x)
        &&& x.menor_spec(self.derecha) || x.igual_spec(self.derecha)
        &&& self.y.menor_spec(y) || self.y.igual_spec(y)
        &&& y.menor_spec(self.abajo) || y.igual_spec(self.abajo)
    }
}

impl WidgetHitArea {
    /// Whether a point is in the area, its edges included.
    pub fn contiene(&self, x: Decimal, y: Decimal) -> (r: bool)
        ensures
            r == self@.contiene_spec(x, y),
    {
        self.x.menor_igual(&x) && x.menor_igual(&self.derecha) && self.y.menor_igual(&y)
            && y.menor_igual(&self.abajo)
    }
}

/// The last of the first `k` areas that contains the point: the one drawn on
/// top.
pub open spec fn tocada(areas: Seq<Zona>, k: nat, x: Decimal, y: Decimal) -> Option<Diseno>
    decreases k,
{
    if k == 0 {
        None
    } else if areas[k - 1].contiene_spec(x, y) {
        Some(areas[k - 1].layout)
    } else {
        tocada(areas, (k - 1) as nat, x, y)
    }
}

/// What a click on a widget logs and leaves in the store. A button runs its
/// function, if it has one, whether or not the function fails; a text field
/// only tells that it was clicked.
pub open spec fn efecto(
    widget: Diseno,
    n: nat,
    env: Entorno,
    almacen: Map<Seq<char>, Json>,
) -> (Result<Seq<Seq<char>>, Interrupcion>, Map<Seq<char>, Json>) {
    match widget {
        Diseno::Button { callback, .. } => if callback.len() == 0 {
            (Ok(Seq::empty()), almacen)
        } else {
            let aviso = "Click en botón, callback: "@ + callback;
            match llamada(callback, Seq::empty(), n, env, almacen, 0) {
                (Ok(_), a, _) => (
                    Ok(seq![aviso, "Callback '"@ + callback + "' ejecutado OK"@]),
                    a,
                ),
                (Err(Interrupcion::Error(e)), a, _) => (
                    Ok(seq![aviso, "Error en callback '"@ + callback + "': "@ + e]),
                    a,
                ),
                (Err(c), _, _) => (Err(c), almacen),
            }
        },
        Diseno::TextInput { variable, .. } => (
            Ok(seq!["Click en TextInput '"@ + variable + "'"@]),
            almacen,
        ),
        _ => (Ok(Seq::empty()), almacen),
    }
}

/// What a click at a point logs and leaves in the store.
pub open spec fn click(
    x: Decimal,
    y: Decimal,
    areas: Seq<Zona>,
    n: nat,
    env: Entorno,
    almacen: Map<Seq<char>, Json>,
) -> (Result<Seq<Seq<char>>, Interrupcion>, Map<Seq<char>, Json>) {
    if env.declaraciones.len() == 0 {
        (Ok(Seq::empty()), almacen)
    } else {
        match tocada(areas, areas.len(), x, y) {
            Some(widget) => efecto(widget, n, env, almacen),
            None => (Ok(Seq::empty()), almacen),
        }
    }
}

/// What logged texts, or the reason why there are none, stand for.
pub open spec fn vista_avisos(r: Result<Vec<String>, Corte>) -> Result<
    Seq<Seq<char>>,
    Interrupcion,
> {
    match r {
        Ok(v) => Ok(vistas_textos(v@)),
        Err(c) => Err(c@),
    }
}

impl AppState {
    /// Runs the function of a clicked button.
    fn pulsar(&mut self, callback: &String, respuestas: &Vec<Respuesta>, combustible: u64) -> (r:
        Result<Vec<String>, Corte>)
        requires
            callback@.len() != 0,
        ensures
            forall|texto: Seq<char>|
                (vista_avisos(r), final(self).store@) == #[trigger] efecto(
                    Diseno::Button { texto, callback: callback@ },
                    combustible as nat,
                    Entorno { declaraciones: old(self).declaraciones@, respuestas: respuestas@ },
                    old(self).store@,
                ),
            final(self).declaraciones == old(self).declaraciones,
            final(self).hit_areas == old(self).hit_areas,
            final(self).ultimo_layout == old(self).ultimo_layout,
            final(self).canvas_ancho == old(self).canvas_ancho,
            final(self).canvas_alto == old(self).canvas_alto,
            final(self).atendidos == old(self).atendidos,
    {
        let mut aviso = "Click en botón, callback: ".to_string();
        aviso.append(callback.as_str());
        let sin_args: Vec<ValorGUI> = Vec::new();
        assert(vistas(sin_args@) =~= Seq::<Valor>::empty());
        let mut sesion = Sesion::new(
            self.declaraciones.as_slice(),
            respuestas.as_slice(),
            self.store.copia(),
        );
        let fin = match ejecutar_funcion(callback.as_str(), &sin_args, &mut sesion, combustible) {
            Ok(_) => unir("Callback '", callback.as_str(), "' ejecutado OK"),
            Err(Corte::Error(e)) => {
                let mut t = unir("Error en callback '", callback.as_str(), "': ");
                t.append(e.as_str());
                t
            },
            Err(c) => return Err(c),
        };
        self.store = sesion.store;
        let mut avisos: Vec<String> = Vec::new();
        avisos.push(aviso);
        avisos.push(fin);
        assert(vistas_textos(avisos@) =~= seq![aviso@, fin@]);
        Ok(avisos)
    }

    /// Answers to a click at a point: gives what is to be logged. Where the run
    /// has to wait for the host, the state stays as it was.
    pub fn procesar_click(
        &mut self,
        x: Decimal,
        y: Decimal,
        respuestas: &Vec<Respuesta>,
        combustible: u64,
    ) -> (r: Result<Vec<String>, Corte>)
        ensures
            (vista_avisos(r), final(self).store@) == click(
                x,
                y,
                zonas(old(self).hit_areas@),
                combustible as nat,
                Entorno { declaraciones: old(self).declaraciones@, respuestas: respuestas@ },
                old(self).store@,
            ),
            final(self).declaraciones@ == old(self).declaraciones@,
            zonas(final(self).hit_areas@) == zonas(old(self).hit_areas@),
            diseno_opcional(final(self).ultimo_layout) == diseno_opcional(old(self).ultimo_layout),
            final(self).canvas_ancho == old(self).canvas_ancho,
            final(self).canvas_alto == old(self).canvas_alto,
            vistas_textos(final(self).atendidos@) == vistas_textos(old(self).atendidos@),
    {
        let ghost areas = zonas(self.hit_areas@);
        let mut avisos: Vec<String> = Vec::new();
        assert(vistas_textos(avisos@) =~= Seq::<Seq<char>>::empty());
        if self.declaraciones.len() == 0 {
            return Ok(avisos);
        }
        let mut k: usize = self.hit_areas.len();
        while k > 0
            invariant
                k <= self.hit_areas@.len(),
                areas == zonas(self.hit_areas@),
                *self == *old(self),
                avisos@.len() == 0,
                self.declaraciones@.len() > 0,
                tocada(areas, areas.len(), x, y) == tocada(areas, k as nat, x, y),
            decreases k,
        {
            k = k - 1;
            let area = &self.hit_areas[k];
            assert(areas[k as int] == area@);
            if area.contiene(x, y) {
                match &area.layout {
                    Layout::Button { callback, .. } => {
                        if callback.as_str().is_empty() {
                            assert(vistas_textos(avisos@) =~= Seq::<Seq<char>>::empty());
                            return Ok(avisos);
                        }
                        let nombre = callback.clone();
                        return self.pulsar(&nombre, respuestas, combustible);
                    },
                    Layout::TextInput { variable, .. } => {
                        let aviso = unir("Click en TextInput '", variable.as_str(), "'");
                        avisos.push(aviso);
                        assert(vistas_textos(avisos@) =~= seq![aviso@]);
                        return Ok(avisos);
                    },
                    _ => {
                        assert(vistas_textos(avisos@) =~= Seq::<Seq<char>>::empty());
                        return Ok(avisos);
                    },
                }
            }
        }
        assert(vistas_textos(avisos@) =~= Seq::<Seq<char>>::empty());
        Ok(avisos)
    }
}

} // verus!
