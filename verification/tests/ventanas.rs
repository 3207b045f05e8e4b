use forja_wasm_gui::almacen::VariableStore;
use forja_wasm_gui::ast::{Declaracion, Expresion, Operador, Parametro};
use forja_wasm_gui::decimal::{Decimal, Estilo};
use forja_wasm_gui::dibujo::{estimar_ancho, renderizar_layout};
use forja_wasm_gui::json::ValorJson;
use forja_wasm_gui::layout::{
    clasificar, expr_a_layout, extraer_booleano, extraer_callback, extraer_layout, extraer_texto,
    extraer_variable, procesar_args, Clase, Layout,
};
use forja_wasm_gui::lienzo::{Angulo, Lienzo, Medida, OpMedida, Orden, TextoCanvas};
use forja_wasm_gui::sesion::{Corte, Pedido, Respuesta};
use forja_wasm_gui::ventana::{
    dibujar_errores, mensaje_de_click, mensaje_de_compilacion, preparar, AppState, FalloCanvas,
    WidgetHitArea,
};

const LIMITE: u64 = 100;

fn d(x: f64) -> Decimal {
    Decimal { bits: x.to_bits() }
}

fn f(x: Decimal) -> f64 {
    f64::from_bits(x.bits)
}

fn num(n: i64) -> Expresion {
    Expresion::LiteralNumero(n)
}

fn cad(t: &str) -> Expresion {
    Expresion::LiteralTexto(t.to_string())
}

fn id(n: &str) -> Expresion {
    Expresion::Identificador { nombre: n.to_string() }
}

fn ref_a(n: &str) -> Expresion {
    Expresion::Referencia { expr: Box::new(id(n)) }
}

fn llamar(n: &str, argumentos: Vec<Expresion>) -> Expresion {
    Expresion::LlamadaFuncion { nombre: n.to_string(), argumentos, depuracion: "<arg>".to_string() }
}

fn fun(n: &str, cuerpo: Vec<Declaracion>) -> Declaracion {
    let parametros: Vec<Parametro> = Vec::new();
    Declaracion::Funcion { nombre: n.to_string(), parametros, cuerpo }
}

fn ver(l: &Layout) -> String {
    match l {
        Layout::Column { children, gap } => format!("columna{:?}{}", todos(children), f(*gap)),
        Layout::Row { children, gap } => format!("fila{:?}{}", todos(children), f(*gap)),
        Layout::ZStack(children) => format!("pila{:?}", todos(children)),
        Layout::Label { texto } => format!("etiqueta {}", texto),
        Layout::VariableLabel { variable } => format!("variable {}", variable),
        Layout::Button { texto, callback } => format!("boton {} -> {}", texto, callback),
        Layout::TextInput { variable, placeholder } => format!("campo {} ({})", variable, placeholder),
        Layout::Title(t) => format!("titulo {}", t),
        Layout::Spacer(x) => format!("espacio {}", f(*x)),
        Layout::Unimplemented(t) => format!("? {}", t),
    }
}

fn todos(ls: &Vec<Layout>) -> Vec<String> {
    ls.iter().map(ver).collect()
}

fn ver_expr(e: &Expresion) -> String {
    match expr_a_layout(e) {
        Some(l) => ver(&l),
        None => "nada".to_string(),
    }
}

#[test]
fn widgets_por_su_nombre() {
    for n in ["columna", "gui_columna", "Column"] {
        assert_eq!(ver_expr(&llamar(n, vec![cad("a")])), "columna[\"etiqueta a\"]0");
    }
    for n in ["fila", "gui_fila", "Row"] {
        assert_eq!(ver_expr(&llamar(n, vec![])), "fila[]0");
    }
    for n in ["pila", "gui_pila", "zstack", "ZStack"] {
        assert_eq!(ver_expr(&llamar(n, vec![id("v")])), "pila[\"variable v\"]");
    }
    for n in ["escribir", "etiqueta", "label", "text", "Label"] {
        assert_eq!(ver_expr(&llamar(n, vec![id("v")])), "variable v");
        assert_eq!(ver_expr(&llamar(n, vec![cad("t")])), "etiqueta t");
        assert_eq!(ver_expr(&llamar(n, vec![num(5)])), "etiqueta <arg>");
        assert_eq!(ver_expr(&llamar(n, vec![])), "espacio 0");
    }
    for n in ["etiqueta_titulo", "titulo", "title", "Title"] {
        assert_eq!(ver_expr(&llamar(n, vec![cad("T")])), "titulo T");
        assert_eq!(ver_expr(&llamar(n, vec![id("v")])), "titulo ");
        assert_eq!(ver_expr(&llamar(n, vec![])), "titulo ");
    }
    for n in ["etiqueta_dinamica", "varlabel", "VariableLabel"] {
        assert_eq!(ver_expr(&llamar(n, vec![id("v")])), "variable v");
        assert_eq!(ver_expr(&llamar(n, vec![cad("v")])), "variable v");
        assert_eq!(ver_expr(&llamar(n, vec![num(1)])), "variable ");
    }
    for n in ["boton", "button", "btn", "Button", "boton_relleno", "filled_button", "FilledButton"] {
        assert_eq!(ver_expr(&llamar(n, vec![cad("Ok"), ref_a("g")])), "boton Ok -> g");
        assert_eq!(ver_expr(&llamar(n, vec![cad("Ok"), id("g")])), "boton Ok -> g");
        assert_eq!(ver_expr(&llamar(n, vec![id("x"), cad("g")])), "boton  -> ");
        assert_eq!(ver_expr(&llamar(n, vec![])), "boton  -> ");
    }
    for n in ["entrada_texto", "text_input", "input", "TextInput"] {
        assert_eq!(ver_expr(&llamar(n, vec![cad("v"), cad("p")])), "campo v (p)");
        assert_eq!(ver_expr(&llamar(n, vec![id("v"), id("p")])), "campo v ()");
        assert_eq!(ver_expr(&llamar(n, vec![])), "campo  ()");
    }
    for n in ["espacio", "spacer", "Spacer"] {
        assert_eq!(ver_expr(&llamar(n, vec![num(25)])), "espacio 25");
        assert_eq!(ver_expr(&llamar(n, vec![num(-3)])), "espacio -3");
        assert_eq!(ver_expr(&llamar(n, vec![cad("25")])), "espacio 10");
        assert_eq!(ver_expr(&llamar(n, vec![])), "espacio 10");
    }
    assert_eq!(
        ver_expr(&llamar("tabla", vec![cad("a"), num(-5), id("x")])),
        "? tabla(a, -5, ?)"
    );
    assert_eq!(ver_expr(&llamar("tabla", vec![])), "? tabla()");
    assert_eq!(clasificar("COLUMNA"), Clase::Desconocida);
    assert_eq!(clasificar("btn"), Clase::Boton);
}

#[test]
fn expresiones_que_no_son_widgets() {
    assert_eq!(ver_expr(&num(3)), "nada");
    assert_eq!(ver_expr(&Expresion::LiteralNulo), "nada");
    assert_eq!(ver_expr(&id("v")), "variable v");
    assert_eq!(ver_expr(&cad("t")), "etiqueta t");
    let hijos = procesar_args(&vec![num(1), cad("a"), Expresion::LiteralNulo, id("b")]);
    assert_eq!(todos(&hijos), vec!["etiqueta a", "variable b"]);
}

#[test]
fn argumentos_de_un_widget() {
    let args = vec![cad("t"), id("v"), ref_a("g"), Expresion::LiteralBooleano(true)];
    assert_eq!(extraer_texto(&args, 0), "t");
    assert_eq!(extraer_texto(&args, 1), "");
    assert_eq!(extraer_texto(&args, 9), "");
    assert_eq!(extraer_variable(&args, 0), "t");
    assert_eq!(extraer_variable(&args, 1), "v");
    assert_eq!(extraer_variable(&args, 2), "");
    assert_eq!(extraer_callback(&args, 2), "g");
    assert_eq!(extraer_callback(&args, 1), "v");
    assert_eq!(extraer_callback(&args, 0), "");
    assert_eq!(extraer_callback(&vec![Expresion::Referencia { expr: Box::new(num(1)) }], 0), "");
    assert!(extraer_booleano(&args, 3));
    assert!(!extraer_booleano(&args, 0));
    assert!(!extraer_booleano(&vec![Expresion::LiteralBooleano(false)], 0));
    assert!(!extraer_booleano(&args, 4));
}

#[test]
fn layout_de_un_programa() {
    let ds = vec![
        fun("otra", vec![Declaracion::Expresion(cad("no"))]),
        fun("main", vec![Declaracion::Expresion(num(1))]),
        fun(
            "main",
            vec![
                Declaracion::Variable { nombre: "x".to_string(), valor: None },
                Declaracion::Expresion(num(2)),
                Declaracion::LlamadaFuncion {
                    nombre: "columna".to_string(),
                    argumentos: vec![cad("a"), llamar("boton", vec![cad("b"), id("c")])],
                    depuracion: String::new(),
                },
                Declaracion::Expresion(cad("tarde")),
            ],
        ),
    ];
    assert_eq!(ver(&extraer_layout(&ds)), "columna[\"etiqueta a\", \"boton b -> c\"]0");
    let ds = vec![fun("main", vec![Declaracion::Expresion(llamar("fila", vec![]))])];
    assert_eq!(ver(&extraer_layout(&ds)), "fila[]0");
}

#[test]
fn programa_sin_layout() {
    assert_eq!(ver(&extraer_layout(&[])), "columna[]0");
    assert_eq!(ver(&extraer_layout(&[fun("main", vec![])])), "columna[]0");
    assert_eq!(
        ver(&extraer_layout(&[fun("otra", vec![Declaracion::Expresion(cad("a"))])])),
        "columna[]0"
    );
}

#[test]
fn copia_de_un_layout() {
    let l = expr_a_layout(&llamar(
        "columna",
        vec![
            llamar("fila", vec![cad("a"), id("b"), llamar("pila", vec![llamar("titulo", vec![cad("t")])])]),
            llamar("boton", vec![cad("x"), id("y")]),
            llamar("input", vec![cad("v"), cad("p")]),
            llamar("espacio", vec![num(4)]),
            llamar("raro", vec![]),
        ],
    ))
    .unwrap();
    assert_eq!(ver(&l.clone()), ver(&l));
}

// The host's part of a drawing: measures in doubles, orders as text.

fn mostrar(x: Decimal, e: Estilo) -> String {
    match e {
        Estilo::UnDigito => format!("{:.1}", f(x)),
        Estilo::Corto => f(x).to_string(),
    }
}

fn texto(t: &TextoCanvas) -> String {
    match t {
        TextoCanvas::Literal(s) => s.clone(),
        TextoCanvas::Decimal(x, e) => mostrar(*x, *e),
    }
}

fn medidas(l: &Lienzo) -> Vec<f64> {
    let mut vs: Vec<f64> = Vec::new();
    for m in &l.medidas {
        let v = match m {
            Medida::Entera(n) => *n as f64,
            Medida::Dato(x) => f(*x),
            Medida::Conteo(n) => *n as f64,
            Medida::Largo(x, e) => mostrar(*x, *e).len() as f64,
            Medida::Operacion { op, a, b } => match op {
                OpMedida::Suma => vs[*a] + vs[*b],
                OpMedida::Resta => vs[*a] - vs[*b],
                OpMedida::Producto => vs[*a] * vs[*b],
                OpMedida::Cociente => vs[*a] / vs[*b],
                OpMedida::Maximo => vs[*a].max(vs[*b]),
                OpMedida::Minimo => vs[*a].min(vs[*b]),
            },
        };
        vs.push(v);
    }
    vs
}

fn angulo(a: Angulo) -> &'static str {
    match a {
        Angulo::MenosMedioPi => "-90",
        Angulo::Cero => "0",
        Angulo::MedioPi => "90",
        Angulo::Pi => "180",
    }
}

fn ordenes(l: &Lienzo) -> Vec<String> {
    let v = medidas(l);
    l.ordenes
        .iter()
        .map(|o| match o {
            Orden::Fuente(t) => format!("fuente {}", t),
            Orden::Relleno(t) => format!("relleno {}", t),
            Orden::Trazo(t) => format!("trazo {}", t),
            Orden::Grosor(g) => format!("grosor {}", v[*g]),
            Orden::Texto { texto: t, x, y } => format!("texto '{}' {} {}", texto(t), v[*x], v[*y]),
            Orden::IniciarTrayecto => "iniciar".to_string(),
            Orden::MoverA { x, y } => format!("mover {} {}", v[*x], v[*y]),
            Orden::LineaA { x, y } => format!("linea {} {}", v[*x], v[*y]),
            Orden::Arco { x, y, radio, desde, hasta } => {
                format!("arco {} {} {} {} {}", v[*x], v[*y], v[*radio], angulo(*desde), angulo(*hasta))
            }
            Orden::CerrarTrayecto => "cerrar".to_string(),
            Orden::Rellenar => "rellenar".to_string(),
            Orden::Trazar => "trazar".to_string(),
            Orden::LimpiarRect { x, y, ancho, alto } => {
                format!("limpiar {} {} {} {}", v[*x], v[*y], v[*ancho], v[*alto])
            }
            Orden::RellenarRect { x, y, ancho, alto } => {
                format!("rect {} {} {} {}", v[*x], v[*y], v[*ancho], v[*alto])
            }
            Orden::Area { x, y, ancho, alto, derecha, abajo, layout } => format!(
                "area {} {} {} {} {} {} {}",
                v[*x], v[*y], v[*ancho], v[*alto], v[*derecha], v[*abajo], ver(layout)
            ),
        })
        .collect()
}

fn estado(layout: Layout, store: VariableStore) -> AppState {
    let mut e = AppState::new();
    e.ultimo_layout = Some(layout);
    e.store = store;
    e
}

fn dibujado(e: Expresion, store: VariableStore) -> Vec<String> {
    let l = expr_a_layout(&e).unwrap();
    let todas = ordenes(&estado(l, store).dibujar(600, 400));
    assert_eq!(todas[0], "limpiar 0 0 600 400");
    assert_eq!(todas[1], "relleno #FEF7FF");
    assert_eq!(todas[2], "rect 0 0 600 400");
    todas[3..].to_vec()
}

#[test]
fn dibujo_de_una_etiqueta() {
    assert_eq!(
        dibujado(cad("hola"), VariableStore::new()),
        vec!["fuente 14px sans-serif", "relleno #1D1B20", "texto 'hola' 14 30"]
    );
}

#[test]
fn dibujo_de_una_variable() {
    let mut store = VariableStore::new();
    store.set("n", ValorJson::Natural(7));
    store.set("x", ValorJson::Decimal(d(2.5)));
    store.set("y", ValorJson::Decimal(d(3.0)));
    store.set("b", ValorJson::Booleano(true));
    store.set("z", ValorJson::Nulo);
    let ver_variable = |n: &str| dibujado(id(n), store.copia())[2].clone();
    assert_eq!(ver_variable("n"), "texto '7' 14 30");
    assert_eq!(ver_variable("x"), "texto '2.5' 14 30");
    assert_eq!(ver_variable("y"), "texto '3.0' 14 30");
    assert_eq!(ver_variable("b"), "texto 'verdadero' 14 30");
    assert_eq!(ver_variable("z"), "texto 'nulo' 14 30");
    assert_eq!(ver_variable("w"), "texto '{{w}}' 14 30");
}

#[test]
fn dibujo_de_un_titulo_y_de_lo_desconocido() {
    assert_eq!(
        dibujado(llamar("titulo", vec![cad("T")]), VariableStore::new()),
        vec!["fuente bold 20px sans-serif", "relleno #1D1B20", "texto 'T' 14 34"]
    );
    assert_eq!(
        dibujado(llamar("mapa", vec![num(1)]), VariableStore::new()),
        vec!["relleno #B3261E", "fuente 12px sans-serif", "texto '⚠ mapa(1)' 14 26"]
    );
    assert_eq!(dibujado(llamar("espacio", vec![]), VariableStore::new()).len(), 0);
}

#[test]
fn dibujo_de_un_boton() {
    assert_eq!(
        dibujado(llamar("boton", vec![cad("Sumar"), id("g")]), VariableStore::new()),
        vec![
            "relleno rgba(0,0,0,0.15)",
            "iniciar",
            "mover 31 12",
            "linea 293 12",
            "arco 293 31 19 -90 0",
            "linea 312 31",
            "arco 293 31 19 0 90",
            "linea 31 50",
            "arco 31 31 19 90 180",
            "linea 12 31",
            "arco 31 31 19 180 -90",
            "cerrar",
            "rellenar",
            "relleno #6750A4",
            "iniciar",
            "mover 29 10",
            "linea 291 10",
            "arco 291 29 19 -90 0",
            "linea 310 29",
            "arco 291 29 19 0 90",
            "linea 29 48",
            "arco 29 29 19 90 180",
            "linea 10 29",
            "arco 29 29 19 180 -90",
            "cerrar",
            "rellenar",
            "relleno #FFFFFF",
            "fuente bold 14px sans-serif",
            "texto 'Sumar' 137.5 35",
            "area 10 10 300 38 310 48 boton Sumar -> g",
        ]
    );
}

#[test]
fn dibujo_de_un_campo() {
    let campo = || llamar("input", vec![cad("nombre"), cad("Escribe")]);
    let vacio = dibujado(campo(), VariableStore::new());
    assert_eq!(vacio[0], "relleno #E7E0EC");
    assert_eq!(vacio[2], "mover 14 10");
    assert_eq!(vacio[4], "arco 586 14 4 -90 0");
    assert_eq!(
        vacio[13..].to_vec(),
        vec![
            "trazo #79747E",
            "grosor 1",
            "iniciar",
            "mover 10 48",
            "linea 590 48",
            "trazar",
            "relleno #49454F",
            "fuente 14px sans-serif",
            "texto 'Escribe' 18 35",
            "area 10 10 580 38 590 48 campo nombre (Escribe)",
        ]
    );
    let mut store = VariableStore::new();
    store.set("nombre", ValorJson::Texto("Ana".to_string()));
    let lleno = dibujado(campo(), store);
    assert_eq!(lleno[19], "relleno #1D1B20");
    assert_eq!(lleno[21], "texto 'Ana' 18 35");
    let mut store = VariableStore::new();
    store.set("nombre", ValorJson::Texto(String::new()));
    assert_eq!(dibujado(campo(), store)[21], "texto 'Escribe' 18 35");
    let mut store = VariableStore::new();
    store.set("nombre", ValorJson::Decimal(d(0.5)));
    assert_eq!(dibujado(campo(), store)[21], "texto '0.5' 18 35");
}

fn textos_y_areas(ds: &Vec<String>) -> Vec<String> {
    ds.iter().filter(|t| t.starts_with("texto") || t.starts_with("area")).cloned().collect()
}

#[test]
fn dibujo_de_una_columna() {
    let e = llamar("columna", vec![cad("a"), llamar("espacio", vec![num(6)]), cad("b")]);
    assert_eq!(
        textos_y_areas(&dibujado(e, VariableStore::new())),
        vec!["texto 'a' 14 30", "texto 'b' 14 64"]
    );
}

#[test]
fn dibujo_de_una_fila() {
    let e = llamar(
        "fila",
        vec![cad("abc"), llamar("boton", vec![cad("B"), id("g")]), llamar("columna", vec![cad("z")])],
    );
    assert_eq!(
        textos_y_areas(&dibujado(e, VariableStore::new())),
        vec![
            "texto 'abc' 14 30",
            "texto 'B' 85.5 35",
            "area 50 10 80 38 130 48 boton B -> g",
            "texto 'z' 134 30",
        ]
    );
}

#[test]
fn dibujo_de_una_pila() {
    let e = llamar("pila", vec![cad("a"), llamar("titulo", vec![cad("b")])]);
    assert_eq!(
        textos_y_areas(&dibujado(e, VariableStore::new())),
        vec!["texto 'a' 14 30", "texto 'b' 14 34"]
    );
}

fn tamano(l: &Layout, disponible: i64) -> (f64, f64) {
    let mut lienzo = Lienzo::new();
    let cero = lienzo.entera(0);
    let ancho = lienzo.entera(disponible);
    let (a, b) = renderizar_layout(&mut lienzo, l, cero, cero, ancho, &VariableStore::new());
    let v = medidas(&lienzo);
    (v[a], v[b])
}

#[test]
fn tamano_de_los_widgets() {
    let w = |e: Expresion, n: i64| tamano(&expr_a_layout(&e).unwrap(), n);
    assert_eq!(w(cad("hola"), 500), (48.0, 28.0));
    assert_eq!(w(cad("año"), 500), (48.0, 28.0));
    assert_eq!(w(cad("hola"), 30), (30.0, 28.0));
    assert_eq!(w(cad("hola"), 5), (20.0, 28.0));
    assert_eq!(w(llamar("boton", vec![]), 500), (300.0, 42.0));
    assert_eq!(w(llamar("boton", vec![]), 10), (80.0, 42.0));
    assert_eq!(w(llamar("input", vec![]), 10), (120.0, 42.0));
    assert_eq!(w(llamar("titulo", vec![]), 10), (100.0, 32.0));
    assert_eq!(w(llamar("espacio", vec![num(7)]), 10), (10.0, 7.0));
    assert_eq!(w(llamar("raro", vec![]), 10), (10.0, 24.0));
    assert_eq!(w(llamar("columna", vec![cad("a"), cad("b")]), 200), (200.0, 56.0));
    assert_eq!(w(llamar("columna", vec![llamar("boton", vec![])]), 50), (80.0, 42.0));
    assert_eq!(w(llamar("fila", vec![cad("a"), id("b")]), 200), (124.0, 40.0));
    assert_eq!(w(llamar("fila", vec![llamar("boton", vec![])]), 200), (80.0, 42.0));
    assert_eq!(w(llamar("pila", vec![cad("a"), llamar("boton", vec![])]), 90), (90.0, 42.0));
    assert_eq!(w(llamar("pila", vec![]), 90), (0.0, 0.0));
}

#[test]
fn columnas_y_filas_con_margen() {
    let boton = || Layout::Button { texto: "B".to_string(), callback: "g".to_string() };
    let columna = Layout::Column { children: vec![boton(), boton()], gap: d(5.0) };
    assert_eq!(tamano(&columna, 200), (200.0, 99.0));
    let areas = textos_y_areas(&ordenes(&estado(columna, VariableStore::new()).dibujar(100, 100)));
    assert_eq!(areas[1], "area 15 15 80 38 95 53 boton B -> g");
    assert_eq!(areas[3], "area 15 62 80 38 95 100 boton B -> g");
    let fila = Layout::Row { children: vec![boton(), boton()], gap: d(5.0) };
    assert_eq!(tamano(&fila, 200), (175.0, 52.0));
    let areas = textos_y_areas(&ordenes(&estado(fila, VariableStore::new()).dibujar(100, 100)));
    assert_eq!(areas[1], "area 15 15 80 38 95 53 boton B -> g");
    assert_eq!(areas[3], "area 100 15 80 38 180 53 boton B -> g");
}

#[test]
fn anchos_estimados() {
    let ancho = |l: Layout| {
        let mut lienzo = Lienzo::new();
        let por_defecto = lienzo.entera(77);
        let r = estimar_ancho(&mut lienzo, &l, por_defecto);
        medidas(&lienzo)[r]
    };
    let largo = "x".repeat(100);
    assert_eq!(ancho(Layout::Label { texto: "abc".to_string() }), 40.0);
    assert_eq!(ancho(Layout::Label { texto: largo.clone() }), 250.0);
    assert_eq!(ancho(Layout::Title("abc".to_string())), 40.0);
    assert_eq!(ancho(Layout::VariableLabel { variable: largo.clone() }), 100.0);
    let boton = |t: &str| Layout::Button { texto: t.to_string(), callback: String::new() };
    assert_eq!(ancho(boton("abc")), 80.0);
    assert_eq!(ancho(boton("abcdefghij")), 122.0);
    assert_eq!(ancho(boton(&largo)), 200.0);
    let campo = Layout::TextInput { variable: String::new(), placeholder: String::new() };
    assert_eq!(ancho(campo), 150.0);
    assert_eq!(ancho(Layout::Spacer(d(3.5))), 3.5);
    assert_eq!(ancho(Layout::Unimplemented(largo)), 77.0);
    assert_eq!(ancho(Layout::ZStack(vec![])), 77.0);
    assert_eq!(ancho(Layout::Column { children: vec![], gap: d(0.0) }), 77.0);
    assert_eq!(ancho(Layout::Row { children: vec![], gap: d(0.0) }), 77.0);
}

#[test]
fn mensajes_sobre_el_canvas() {
    assert_eq!(FalloCanvas::SinVentana.mensaje(), "Error: no window");
    assert_eq!(FalloCanvas::SinDocumento.mensaje(), "Error: no document");
    assert_eq!(
        FalloCanvas::NoEncontrado("c".to_string()).mensaje(),
        "Error: canvas 'c' no encontrado"
    );
    assert_eq!(FalloCanvas::NoEsCanvas.mensaje(), "Error: elemento no es un canvas");
    assert_eq!(FalloCanvas::SinContexto.mensaje(), "Error: no se pudo obtener contexto 2D");
    assert_eq!(FalloCanvas::ContextoNo2D.mensaje(), "Error: contexto no es 2D");
    assert_eq!(mensaje_de_click(3, -4), "Click en (3, -4)");
    assert_eq!(mensaje_de_compilacion(&vec![]), "Error compilando: ");
    assert_eq!(
        mensaje_de_compilacion(&vec!["a".to_string(), "b".to_string(), "c".to_string()]),
        "Error compilando: a; b; c"
    );
}

#[test]
fn estado_nuevo() {
    let e = AppState::new();
    assert_eq!((e.canvas_ancho, e.canvas_alto), (600, 400));
    assert!(e.declaraciones.is_empty());
    assert!(e.hit_areas.is_empty());
    assert!(e.ultimo_layout.is_none());
    assert!(!e.store.contains("x"));
    assert_eq!(ordenes(&e.dibujar(10, 20)), vec!["limpiar 0 0 10 20", "relleno #FEF7FF", "rect 0 0 10 20"]);
}

#[test]
fn errores_de_compilacion() {
    let mut e = AppState::new();
    let errores = vec!["uno".to_string(), "dos".to_string()];
    let (lienzo, aviso) = e.renderizar(Err(errores.clone()), &vec![], LIMITE, 300, 200).unwrap();
    assert_eq!(aviso, "Error compilando: uno; dos");
    let esperado = vec![
        "limpiar 0 0 300 200",
        "relleno #FEF7FF",
        "rect 0 0 300 200",
        "relleno #B3261E",
        "fuente 14px sans-serif",
        "texto 'uno' 10 30",
        "texto 'dos' 10 50",
    ];
    assert_eq!(ordenes(&lienzo), esperado);
    assert_eq!(ordenes(&dibujar_errores(&errores, 300, 200)), esperado);
    assert!(e.ultimo_layout.is_none());
    assert_eq!(e.canvas_ancho, 600);
}

fn contador() -> Vec<Declaracion> {
    let mas_uno = Expresion::Binaria {
        izquierda: Box::new(id("n")),
        operador: Operador::Suma,
        derecha: Box::new(num(1)),
    };
    let mitad = Expresion::Binaria {
        izquierda: Box::new(id("n")),
        operador: Operador::Division,
        derecha: Box::new(Expresion::LiteralDecimal(d(2.0))),
    };
    vec![
        fun(
            "main",
            vec![
                Declaracion::Variable { nombre: "n".to_string(), valor: Some(num(0)) },
                Declaracion::LlamadaFuncion {
                    nombre: "columna".to_string(),
                    argumentos: vec![
                        id("n"),
                        llamar("boton", vec![cad("+"), id("sumar")]),
                        llamar("boton", vec![cad("/"), id("partir")]),
                        llamar("boton", vec![cad("!"), id("fallar")]),
                        llamar("boton", vec![cad("-")]),
                        llamar("input", vec![cad("campo")]),
                    ],
                    depuracion: String::new(),
                },
            ],
        ),
        fun("sumar", vec![Declaracion::Asignacion { nombre: "n".to_string(), valor: mas_uno }]),
        fun("partir", vec![Declaracion::Asignacion { nombre: "n".to_string(), valor: mitad }]),
        fun(
            "fallar",
            vec![
                Declaracion::Asignacion { nombre: "n".to_string(), valor: num(100) },
                Declaracion::Expresion(Expresion::Hilo),
            ],
        ),
    ]
}

fn mostrado() -> AppState {
    let mut e = AppState::new();
    let (lienzo, aviso) = e.renderizar(Ok(contador()), &vec![], LIMITE, 320, 240).unwrap();
    assert_eq!(aviso, "ok");
    let valores: Vec<Decimal> = medidas(&lienzo).iter().map(|x| d(*x)).collect();
    e.fijar_areas(&lienzo, &valores);
    e
}

fn click(e: &mut AppState, x: f64, y: f64) -> Vec<String> {
    let mut rs: Vec<Respuesta> = Vec::new();
    loop {
        match e.procesar_click(d(x), d(y), &rs, LIMITE) {
            Ok(avisos) => return avisos,
            Err(Corte::Pendiente(Pedido::Aritmetica { a, b, .. })) => {
                rs.push(Respuesta::Numero(d(f(a) / f(b))))
            }
            otro => panic!("{:?}", otro),
        }
    }
}

#[test]
fn programa_en_pantalla() {
    let e = mostrado();
    assert_eq!((e.canvas_ancho, e.canvas_alto), (320, 240));
    assert!(matches!(e.store.get("n"), Some(ValorJson::Natural(0))));
    let vistos: Vec<String> = e.hit_areas.iter().map(|a| ver(&a.layout)).collect();
    assert_eq!(
        vistos,
        vec!["boton + -> sumar", "boton / -> partir", "boton ! -> fallar", "boton - -> ", "campo campo ()"]
    );
    let a = &e.hit_areas[0];
    assert_eq!((f(a.x), f(a.y), f(a.ancho), f(a.alto)), (10.0, 38.0, 300.0, 38.0));
    assert_eq!((f(a.derecha), f(a.abajo)), (310.0, 76.0));
    assert_eq!(f(e.hit_areas[1].y), 80.0);
    let (lienzo, aviso) = e.rerenderizar(320, 240);
    assert_eq!(aviso, "ok");
    assert_eq!(ordenes(&lienzo)[5], "texto '0' 14 30");
}

#[test]
fn un_click_ejecuta_el_callback() {
    let mut e = mostrado();
    assert_eq!(
        click(&mut e, 20.0, 50.0),
        vec!["Click en botón, callback: sumar", "Callback 'sumar' ejecutado OK"]
    );
    assert!(matches!(e.store.get("n"), Some(ValorJson::Natural(1))));
    assert_eq!(ordenes(&e.rerenderizar(320, 240).0)[5], "texto '1' 14 30");
    click(&mut e, 310.0, 76.0);
    assert!(matches!(e.store.get("n"), Some(ValorJson::Natural(2))));
}

#[test]
fn un_click_que_espera_no_cambia_nada() {
    let mut e = mostrado();
    click(&mut e, 20.0, 50.0);
    assert!(matches!(
        e.procesar_click(d(20.0), d(90.0), &vec![], LIMITE),
        Err(Corte::Pendiente(Pedido::Aritmetica { .. }))
    ));
    assert!(matches!(e.store.get("n"), Some(ValorJson::Natural(1))));
    assert_eq!(e.hit_areas.len(), 5);
    click(&mut e, 20.0, 90.0);
    assert!(matches!(e.store.get("n"), Some(ValorJson::Decimal(x)) if x == d(0.5)));
    assert_eq!(ordenes(&e.rerenderizar(320, 240).0)[5], "texto '0.5' 14 30");
}

#[test]
fn un_click_cuyo_callback_falla() {
    let mut e = mostrado();
    assert_eq!(
        click(&mut e, 20.0, 130.0),
        vec![
            "Click en botón, callback: fallar",
            "Error en callback 'fallar': Hilos no soportados en WASM GUI"
        ]
    );
    assert!(matches!(e.store.get("n"), Some(ValorJson::Natural(100))));
}

#[test]
fn clicks_sin_efecto() {
    let mut e = mostrado();
    let nada: Vec<String> = Vec::new();
    assert_eq!(click(&mut e, 20.0, 20.0), nada);
    assert_eq!(click(&mut e, 310.5, 50.0), nada);
    assert_eq!(click(&mut e, f64::NAN, 50.0), nada);
    assert_eq!(click(&mut e, 20.0, 170.0), nada);
    assert_eq!(click(&mut e, 20.0, 210.0), vec!["Click en TextInput 'campo'"]);
    assert!(matches!(e.store.get("n"), Some(ValorJson::Natural(0))));
    assert_eq!(click(&mut AppState::new(), 20.0, 50.0), nada);
}

fn area(x: f64, y: f64, ancho: f64, alto: f64, callback: &str) -> WidgetHitArea {
    WidgetHitArea {
        x: d(x),
        y: d(y),
        ancho: d(ancho),
        alto: d(alto),
        derecha: d(x + ancho),
        abajo: d(y + alto),
        layout: Layout::Button { texto: String::new(), callback: callback.to_string() },
    }
}

#[test]
fn el_click_va_al_widget_de_encima() {
    let mut e = mostrado();
    e.hit_areas = vec![area(0.0, 0.0, 100.0, 100.0, "sumar"), area(50.0, 50.0, 100.0, 100.0, "nadie")];
    assert_eq!(
        click(&mut e, 60.0, 60.0),
        vec![
            "Click en botón, callback: nadie",
            "Error en callback 'nadie': Función 'nadie' no encontrada"
        ]
    );
    assert_eq!(click(&mut e, 40.0, 60.0)[0], "Click en botón, callback: sumar");
    assert!(area(0.0, 0.0, 10.0, 10.0, "").contiene(d(0.0), d(10.0)));
    assert!(!area(0.0, 0.0, 10.0, 10.0, "").contiene(d(-0.5), d(10.0)));
}

#[test]
fn un_programa_sin_declaraciones_no_responde() {
    let mut e = mostrado();
    e.declaraciones = Vec::new();
    let nada: Vec<String> = Vec::new();
    assert_eq!(click(&mut e, 20.0, 50.0), nada);
}

#[test]
fn preparar_un_programa() {
    let suma = Expresion::Binaria {
        izquierda: Box::new(Expresion::LiteralDecimal(d(0.5))),
        operador: Operador::Suma,
        derecha: Box::new(num(1)),
    };
    let ds = vec![fun("main", vec![Declaracion::Variable { nombre: "x".to_string(), valor: Some(suma) }])];
    assert!(matches!(preparar(&ds, &vec![], LIMITE), Err(Corte::Pendiente(_))));
    let mut e = AppState::new();
    let devuelto = match e.renderizar(Ok(ds), &vec![], LIMITE, 10, 10) {
        Err((ds, Corte::Pendiente(Pedido::Aritmetica { .. }))) => ds,
        _ => panic!("se esperaba un pedido"),
    };
    assert!(e.ultimo_layout.is_none());
    let rs = vec![Respuesta::Numero(d(1.5))];
    assert!(e.renderizar(Ok(devuelto), &rs, LIMITE, 10, 10).is_ok());
    assert!(matches!(e.store.get("x"), Some(ValorJson::Decimal(x)) if x == d(1.5)));
    assert_eq!(ver(&e.ultimo_layout.unwrap()), "columna[]0");
}

#[test]
fn cada_canvas_se_atiende_una_vez() {
    let mut e = AppState::new();
    assert!(e.atender("a"));
    assert!(e.atender("b"));
    assert!(!e.atender("a"));
    assert!(!e.atender("b"));
    assert!(e.renderizar(Ok(contador()), &vec![], LIMITE, 10, 10).is_ok());
    assert!(!e.atender("a"));
    assert_eq!(e.atendidos, vec!["a", "b"]);
}

#[test]
fn medidas_de_un_lienzo() {
    let mut lienzo = Lienzo::new();
    let tres = lienzo.entera(3);
    let medio = lienzo.dato(d(0.5));
    let dos = lienzo.conteo(2);
    let largo = lienzo.largo(TextoCanvas::Literal("año".to_string()));
    let suma = lienzo.operar(OpMedida::Suma, tres, medio);
    let mayor = lienzo.operar(OpMedida::Maximo, suma, largo);
    let menor = lienzo.operar_entera(OpMedida::Minimo, mayor, 1);
    let resta = lienzo.operar(OpMedida::Resta, dos, suma);
    let producto = lienzo.operar(OpMedida::Producto, resta, dos);
    let cociente = lienzo.operar(OpMedida::Cociente, tres, dos);
    let v = medidas(&lienzo);
    assert_eq!(v[largo], 4.0);
    assert!(matches!(lienzo.medidas[largo], Medida::Conteo(4)));
    let de_decimal = lienzo.largo(TextoCanvas::Decimal(d(0.25), Estilo::Corto));
    assert_eq!(medidas(&lienzo)[de_decimal], 4.0);
    assert_eq!((v[suma], v[mayor], v[menor]), (3.5, 4.0, 1.0));
    assert_eq!((v[resta], v[producto], v[cociente]), (-1.5, -3.0, 1.5));
    lienzo.ordenar(Orden::Grosor(cociente));
    assert_eq!(ordenes(&lienzo), vec!["grosor 1.5"]);
}

#[test]
fn los_hijos_estan_en_orden() {
    let unos = vec![cad("a"), num(1), id("b")];
    let otros = vec![Expresion::LiteralNulo, llamar("espacio", vec![]), cad("c")];
    let mut por_partes = todos(&procesar_args(&unos));
    por_partes.extend(todos(&procesar_args(&otros)));
    let juntos: Vec<Expresion> = unos.into_iter().chain(otros).collect();
    assert_eq!(todos(&procesar_args(&juntos)), por_partes);
}

#[test]
fn una_variable_que_no_se_muestra_no_cambia_el_dibujo() {
    let e = || llamar("columna", vec![id("a"), llamar("input", vec![id("b")])]);
    let mut store = VariableStore::new();
    store.set("a", ValorJson::Natural(1));
    let antes = dibujado(e(), store.copia());
    store.set("c", ValorJson::Natural(2));
    assert_eq!(dibujado(e(), store.copia()), antes);
    store.set("b", ValorJson::Natural(3));
    assert_ne!(dibujado(e(), store.copia()), antes);
}

#[test]
fn mas_respuestas_no_cambian_un_click() {
    let rs = vec![Respuesta::Texto("de sobra".to_string())];
    let mut e = mostrado();
    let avisos = e.procesar_click(d(20.0), d(50.0), &rs, LIMITE * 2).unwrap();
    assert_eq!(avisos, click(&mut mostrado(), 20.0, 50.0));
    assert!(matches!(e.store.get("n"), Some(ValorJson::Natural(1))));
}

#[test]
fn un_click_que_no_cabe_en_el_limite_no_cambia_nada() {
    let mut e = mostrado();
    assert!(matches!(e.procesar_click(d(20.0), d(50.0), &vec![], 1), Err(Corte::Agotado)));
    assert!(matches!(e.store.get("n"), Some(ValorJson::Natural(0))));
}

#[test]
fn el_largo_de_un_texto_se_cuenta_en_bytes() {
    let mut lienzo = Lienzo::new();
    for (t, n) in [("", 0usize), ("abc", 3), ("año", 4), ("⚠", 3), ("😀", 4)] {
        let r = lienzo.largo(TextoCanvas::Literal(t.to_string()));
        assert!(matches!(lienzo.medidas[r], Medida::Conteo(k) if k == n), "{}", t);
    }
    let r = lienzo.largo(TextoCanvas::Decimal(d(3.0), Estilo::UnDigito));
    assert!(matches!(lienzo.medidas[r], Medida::Largo(x, Estilo::UnDigito) if x == d(3.0)));
}
