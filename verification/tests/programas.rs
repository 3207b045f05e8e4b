use forja_wasm_gui::almacen::{Ambito, VariableStore};
use forja_wasm_gui::ast::{Declaracion, Expresion, Operador, OperadorUnario, Parametro};
use forja_wasm_gui::decimal::{Decimal, Estilo};
use forja_wasm_gui::evaluador::{
    buscar_funcion, ejecutar_funcion, es_retorno, evaluar_bloque, evaluar_declaracion,
    evaluar_expresion, evaluar_lista, evaluar_pares, inicializar_estado,
};
use forja_wasm_gui::json::ValorJson;
use forja_wasm_gui::sesion::{Corte, OpDecimal, Pedido, Respuesta, Sesion};
use forja_wasm_gui::valor::ValorGUI;

const LIMITE: u64 = 100;

fn d(x: f64) -> Decimal {
    Decimal { bits: x.to_bits() }
}

fn f(x: Decimal) -> f64 {
    f64::from_bits(x.bits)
}

fn ent(n: i64) -> ValorGUI {
    ValorGUI::Entero(n)
}

fn dec(x: f64) -> ValorGUI {
    ValorGUI::Decimal(d(x))
}

fn txt(t: &str) -> ValorGUI {
    ValorGUI::Texto(t.to_string())
}

fn num(n: i64) -> Expresion {
    Expresion::LiteralNumero(n)
}

fn lit(x: f64) -> Expresion {
    Expresion::LiteralDecimal(d(x))
}

fn cad(t: &str) -> Expresion {
    Expresion::LiteralTexto(t.to_string())
}

fn id(n: &str) -> Expresion {
    Expresion::Identificador { nombre: n.to_string() }
}

fn bin(a: Expresion, operador: Operador, b: Expresion) -> Expresion {
    Expresion::Binaria { izquierda: Box::new(a), operador, derecha: Box::new(b) }
}

fn llamar(n: &str, argumentos: Vec<Expresion>) -> Expresion {
    Expresion::LlamadaFuncion { nombre: n.to_string(), argumentos, depuracion: String::new() }
}

fn var(n: &str, valor: Option<Expresion>) -> Declaracion {
    Declaracion::Variable { nombre: n.to_string(), valor }
}

fn asig(n: &str, valor: Expresion) -> Declaracion {
    Declaracion::Asignacion { nombre: n.to_string(), valor }
}

fn ret(e: Expresion) -> Declaracion {
    Declaracion::Retornar { valor: Some(e) }
}

fn fun(n: &str, params: Vec<&str>, cuerpo: Vec<Declaracion>) -> Declaracion {
    let mut parametros = Vec::new();
    for p in params {
        parametros.push(Parametro { nombre: p.to_string() });
    }
    Declaracion::Funcion { nombre: n.to_string(), parametros, cuerpo }
}

fn a_serde(j: &ValorJson) -> serde_json::Value {
    match j {
        ValorJson::Nulo => serde_json::Value::Null,
        ValorJson::Booleano(b) => serde_json::Value::from(*b),
        ValorJson::Natural(n) => serde_json::Value::from(*n),
        ValorJson::Negativo(n) => serde_json::Value::from(*n),
        ValorJson::Decimal(x) => serde_json::Value::from(f(*x)),
        ValorJson::Texto(t) => serde_json::Value::from(t.clone()),
        ValorJson::Compuesto(t) => serde_json::from_str(t).unwrap(),
    }
}

fn responder(p: &Pedido) -> Respuesta {
    match p {
        Pedido::Aritmetica { op, a, b } => Respuesta::Numero(d(match op {
            OpDecimal::Suma => f(*a) + f(*b),
            OpDecimal::Resta => f(*a) - f(*b),
            OpDecimal::Multiplicacion => f(*a) * f(*b),
            OpDecimal::Division => f(*a) / f(*b),
        })),
        Pedido::Mostrar(x, Estilo::UnDigito) => Respuesta::Texto(format!("{:.1}", f(*x))),
        Pedido::Mostrar(x, Estilo::Corto) => Respuesta::Texto(f(*x).to_string()),
        Pedido::Leer(t) => Respuesta::Numero(d(t.parse().unwrap_or(0.0))),
        Pedido::EscribirArreglo(v) => {
            let vs: Vec<serde_json::Value> = v.iter().map(a_serde).collect();
            Respuesta::Texto(serde_json::to_string(&vs).unwrap())
        }
        Pedido::EscribirObjeto(v) => {
            let mut m = serde_json::Map::new();
            for (k, j) in v {
                m.insert(k.clone(), a_serde(j));
            }
            Respuesta::Texto(serde_json::to_string(&serde_json::Value::Object(m)).unwrap())
        }
    }
}

fn correr(ds: &Vec<Declaracion>, nombre: &str, args: Vec<ValorGUI>) -> (Result<ValorGUI, Corte>, VariableStore, usize) {
    let mut rs: Vec<Respuesta> = Vec::new();
    loop {
        let mut s = Sesion::new(ds, &rs, VariableStore::new());
        let r = ejecutar_funcion(nombre, &args, &mut s, LIMITE);
        match r {
            Err(Corte::Pendiente(p)) => {
                let nueva = responder(&p);
                rs.push(nueva);
            }
            otro => {
                let usadas = s.usadas;
                return (otro, s.store, usadas);
            }
        }
    }
}

fn valor(e: Expresion) -> Result<ValorGUI, Corte> {
    correr(&vec![fun("f", vec![], vec![ret(e)])], "f", vec![]).0
}

fn mensaje(r: Result<ValorGUI, Corte>) -> String {
    match r {
        Err(Corte::Error(t)) => t,
        otro => panic!("{:?}", otro),
    }
}

#[test]
fn literales() {
    assert_eq!(valor(num(5)).unwrap(), ent(5));
    assert_eq!(valor(lit(2.5)).unwrap(), dec(2.5));
    assert_eq!(valor(cad("x")).unwrap(), txt("x"));
    assert_eq!(valor(Expresion::LiteralBooleano(true)).unwrap(), ValorGUI::Booleano(true));
    assert_eq!(valor(Expresion::LiteralNulo).unwrap(), ValorGUI::Nulo);
    assert_eq!(valor(Expresion::Resultado).unwrap(), ValorGUI::Nulo);
}

#[test]
fn expresiones_transparentes() {
    assert_eq!(valor(Expresion::Grupo(Box::new(num(1)))).unwrap(), ent(1));
    assert_eq!(valor(Expresion::Correcto(Box::new(num(2)))).unwrap(), ent(2));
    assert_eq!(valor(Expresion::Algo(Box::new(num(3)))).unwrap(), ent(3));
    assert_eq!(valor(Expresion::Referencia { expr: Box::new(num(4)) }).unwrap(), ent(4));
    assert_eq!(valor(Expresion::Anterior(Box::new(num(5)))).unwrap(), ent(5));
}

#[test]
fn expresiones_sin_soporte() {
    assert_eq!(mensaje(valor(Expresion::Closure)), "Closures no soportados en WASM GUI");
    assert_eq!(mensaje(valor(Expresion::Hilo)), "Hilos no soportados en WASM GUI");
    assert_eq!(mensaje(valor(Expresion::CanalNuevo)), "Canales no soportados en WASM GUI");
    assert_eq!(mensaje(valor(Expresion::Seleccionar)), "Seleccionar no soportado en WASM GUI");
    assert_eq!(mensaje(valor(Expresion::Instanciacion)), "Instanciación no soportada en WASM GUI");
    assert_eq!(mensaje(valor(Expresion::LiteralExacto)), "Literal exacto no soportado");
    assert_eq!(mensaje(valor(Expresion::AsignacionCampo)), "Asignación de campo no soportada");
    assert_eq!(mensaje(valor(Expresion::ArraySet)), "ArraySet no soportado");
    assert_eq!(mensaje(valor(Expresion::Coincidir)), "Match no soportado en WASM GUI");
}

#[test]
fn errores_de_las_expresiones() {
    assert_eq!(mensaje(valor(id("nada"))), "Variable 'nada' no encontrada");
    assert_eq!(mensaje(valor(llamar("nada", vec![]))), "Función 'nada' no encontrada");
    assert_eq!(mensaje(valor(Expresion::Error(Box::new(cad("mal"))))), "Error: mal");
    assert_eq!(mensaje(valor(Expresion::Error(Box::new(lit(1.0))))), "Error: 1.0");
    assert_eq!(
        mensaje(valor(Expresion::Try(Box::new(Expresion::LiteralNulo)))),
        "Error propagado?"
    );
    assert_eq!(valor(Expresion::Try(Box::new(num(0)))).unwrap(), ent(0));
}

#[test]
fn operadores_en_expresiones() {
    let e = bin(num(2), Operador::Suma, bin(num(3), Operador::Multiplicacion, num(4)));
    assert_eq!(valor(e).unwrap(), ent(14));
    let e = Expresion::Unaria { operador: OperadorUnario::Negar, expr: Box::new(num(3)) };
    assert_eq!(valor(e).unwrap(), ent(-3));
    let e = bin(id("falta"), Operador::O, num(1));
    assert_eq!(mensaje(valor(e)), "Variable 'falta' no encontrada");
    let e = bin(Expresion::LiteralBooleano(true), Operador::O, id("falta"));
    assert_eq!(mensaje(valor(e)), "Variable 'falta' no encontrada");
}

#[test]
fn decimales_con_el_host() {
    let e = bin(bin(num(1), Operador::Division, lit(4.0)), Operador::Suma, lit(0.5));
    assert_eq!(valor(e).unwrap(), dec(0.75));
    let e = bin(cad("v: "), Operador::Suma, bin(lit(1.5), Operador::Multiplicacion, num(2)));
    assert_eq!(valor(e).unwrap(), txt("v: 3.0"));
    let e = bin(cad("v: "), Operador::Suma, lit(0.1));
    assert_eq!(valor(e).unwrap(), txt("v: 0.1"));
    let e = bin(cad("10"), Operador::Mayor, cad("9"));
    assert_eq!(valor(e).unwrap(), ValorGUI::Booleano(true));
    let e = bin(cad("abc"), Operador::Menor, num(1));
    assert_eq!(valor(e).unwrap(), ValorGUI::Booleano(true));
}

#[test]
fn arreglos_y_mapas() {
    let e = Expresion::Arreglo(vec![num(1), cad("a"), Expresion::LiteralNulo]);
    assert_eq!(valor(e).unwrap(), txt("[1,\"a\",null]"));
    let e = Expresion::Arreglo(vec![lit(1.0), num(2)]);
    assert_eq!(valor(e).unwrap(), txt("[1.0,2]"));
    let e = Expresion::Mapa(vec![(cad("z"), num(1)), (num(2), cad("b")), (cad("z"), num(3))]);
    assert_eq!(valor(e).unwrap(), txt("{\"2\":\"b\",\"z\":3}"));
    let e = Expresion::Mapa(vec![(lit(0.5), lit(2.5))]);
    assert_eq!(valor(e).unwrap(), txt("{\"0.5\":2.5}"));
    let e = Expresion::Mapa(vec![(cad("k"), id("falta"))]);
    assert_eq!(mensaje(valor(e)), "Variable 'falta' no encontrada");
}

#[test]
fn indices_en_expresiones() {
    let arreglo = Expresion::Arreglo(vec![num(7), num(8)]);
    let e = Expresion::Index { objeto: Box::new(arreglo), indice: Box::new(num(1)) };
    assert_eq!(valor(e).unwrap(), ent(8));
    let arreglo = Expresion::Arreglo(vec![lit(7.5), num(8)]);
    let e = Expresion::Index { objeto: Box::new(arreglo), indice: Box::new(num(0)) };
    assert_eq!(valor(e).unwrap(), dec(7.5));
    let e = Expresion::Index { objeto: Box::new(lit(7.5)), indice: Box::new(num(0)) };
    assert_eq!(mensaje(valor(e)), "No se puede indexar un valor que no es un array");
}

#[test]
fn cada_indice_de_un_arreglo_da_su_elemento() {
    let elementos = || vec![num(i64::MIN), cad("ñ"), Expresion::LiteralNulo, lit(f64::INFINITY)];
    let esperados = [ent(i64::MIN), txt("ñ"), ValorGUI::Nulo, ValorGUI::Nulo];
    for (i, esperado) in esperados.iter().enumerate() {
        let e = Expresion::Index {
            objeto: Box::new(Expresion::Arreglo(elementos())),
            indice: Box::new(num(i as i64)),
        };
        let mut ambito = Ambito::new();
        let mut s = Sesion::new(&[], &[], VariableStore::new());
        assert_eq!(evaluar_expresion(&e, &mut ambito, &mut s, 3).unwrap(), *esperado);
    }
}

#[test]
fn miembros_por_nombre_compuesto() {
    let ds = vec![fun(
        "f",
        vec![],
        vec![
            var("punto_x", Some(num(9))),
            ret(Expresion::AccesoMiembro {
                objeto: Box::new(cad("punto")),
                miembro: "x".to_string(),
            }),
        ],
    )];
    assert_eq!(correr(&ds, "f", vec![]).0.unwrap(), ent(9));
    let e = Expresion::AccesoMiembro { objeto: Box::new(cad("punto")), miembro: "y".to_string() };
    assert_eq!(valor(e).unwrap(), ValorGUI::Nulo);
    let ds = vec![fun(
        "f",
        vec![],
        vec![
            var("1.0_x", Some(num(9))),
            ret(Expresion::AccesoMiembro { objeto: Box::new(lit(1.0)), miembro: "x".to_string() }),
        ],
    )];
    assert_eq!(correr(&ds, "f", vec![]).0.unwrap(), ent(9));
}

#[test]
fn asignaciones_en_la_llamada_y_en_el_almacen() {
    let ds = vec![fun(
        "f",
        vec![],
        vec![
            var("x", Some(num(1))),
            asig("x", bin(id("x"), Operador::Suma, num(1))),
            var("y", None),
            ret(Expresion::Asignacion {
                variable: "z".to_string(),
                valor: Box::new(bin(id("x"), Operador::Multiplicacion, num(10))),
            }),
        ],
    )];
    let (r, store, _) = correr(&ds, "f", vec![]);
    assert_eq!(r.unwrap(), ent(20));
    assert!(matches!(store.get("x"), Some(ValorJson::Natural(2))));
    assert!(matches!(store.get("y"), Some(ValorJson::Nulo)));
    assert!(matches!(store.get("z"), Some(ValorJson::Natural(20))));
}

#[test]
fn parametros_de_una_llamada() {
    let ds = vec![
        fun("suma", vec!["a", "b"], vec![ret(bin(id("a"), Operador::Suma, id("b")))]),
        fun("f", vec![], vec![ret(llamar("suma", vec![num(3), num(4)]))]),
        fun("g", vec![], vec![var("b", Some(num(100))), ret(llamar("suma", vec![num(3)]))]),
        fun("h", vec![], vec![ret(llamar("suma", vec![num(3)]))]),
        fun("k", vec![], vec![ret(llamar("suma", vec![num(1), num(2), num(50)]))]),
    ];
    assert_eq!(correr(&ds, "f", vec![]).0.unwrap(), ent(7));
    assert_eq!(correr(&ds, "g", vec![]).0.unwrap(), ent(103));
    assert_eq!(mensaje(correr(&ds, "h", vec![]).0), "Variable 'b' no encontrada");
    assert_eq!(correr(&ds, "k", vec![]).0.unwrap(), ent(3));
    assert_eq!(correr(&ds, "suma", vec![txt("a"), txt("b")]).0.unwrap(), txt("ab"));
}

#[test]
fn una_llamada_no_toca_las_variables_de_quien_llama() {
    let ds = vec![
        fun("cambia", vec![], vec![asig("x", num(2))]),
        fun(
            "f",
            vec![],
            vec![
                var("x", Some(num(1))),
                Declaracion::LlamadaFuncion {
                    nombre: "cambia".to_string(),
                    argumentos: vec![],
                    depuracion: String::new(),
                },
                ret(id("x")),
            ],
        ),
    ];
    let (r, store, _) = correr(&ds, "f", vec![]);
    assert_eq!(r.unwrap(), ent(1));
    assert!(matches!(store.get("x"), Some(ValorJson::Natural(2))));
}

#[test]
fn retornos_de_un_bloque() {
    let ds = vec![
        fun("f", vec![], vec![ret(num(1)), ret(num(2))]),
        fun("g", vec![], vec![Declaracion::Retornar { valor: None }, ret(num(2))]),
        fun("h", vec![], vec![Declaracion::Expresion(num(5))]),
        fun(
            "anidado",
            vec![],
            vec![
                Declaracion::Si {
                    condicion: Expresion::LiteralBooleano(true),
                    bloque_verdadero: vec![ret(num(1))],
                    bloque_falso: None,
                },
                ret(num(2)),
            ],
        ),
    ];
    assert_eq!(correr(&ds, "f", vec![]).0.unwrap(), ent(1));
    assert_eq!(correr(&ds, "g", vec![]).0.unwrap(), ValorGUI::Nulo);
    assert_eq!(correr(&ds, "h", vec![]).0.unwrap(), ValorGUI::Nulo);
    assert_eq!(correr(&ds, "anidado", vec![]).0.unwrap(), ent(2));
    assert!(es_retorno(&ret(num(1))));
    assert!(!es_retorno(&asig("x", num(1))));
}

#[test]
fn condicionales() {
    let elegir = |c: Expresion, con_sino: bool| {
        let sino = if con_sino { Some(vec![asig("r", num(2))]) } else { None };
        let ds = vec![fun(
            "f",
            vec![],
            vec![
                var("r", Some(num(0))),
                Declaracion::Si {
                    condicion: c,
                    bloque_verdadero: vec![asig("r", num(1))],
                    bloque_falso: sino,
                },
                ret(id("r")),
            ],
        )];
        correr(&ds, "f", vec![]).0.unwrap()
    };
    assert_eq!(elegir(num(1), true), ent(1));
    assert_eq!(elegir(num(0), true), ent(2));
    assert_eq!(elegir(cad(""), false), ent(0));
    let ds = vec![fun(
        "f",
        vec![],
        vec![
            Declaracion::Cuando {
                condicion: Expresion::LiteralBooleano(true),
                cuerpo: vec![var("r", Some(num(4)))],
            },
            Declaracion::Cuando {
                condicion: Expresion::LiteralBooleano(false),
                cuerpo: vec![asig("r", num(5))],
            },
            ret(id("r")),
        ],
    )];
    assert_eq!(correr(&ds, "f", vec![]).0.unwrap(), ent(4));
}

#[test]
fn ciclo_mientras() {
    let ds = vec![fun(
        "f",
        vec![],
        vec![
            var("i", Some(num(0))),
            var("s", Some(num(0))),
            Declaracion::Mientras {
                condicion: bin(id("i"), Operador::Menor, num(5)),
                bloque: vec![
                    asig("i", bin(id("i"), Operador::Suma, num(1))),
                    asig("s", bin(id("s"), Operador::Suma, id("i"))),
                ],
            },
            ret(id("s")),
        ],
    )];
    assert_eq!(correr(&ds, "f", vec![]).0.unwrap(), ent(15));
}

#[test]
fn ciclo_que_termina_con_un_valor() {
    let cuerpo = Declaracion::Mientras {
        condicion: Expresion::LiteralBooleano(true),
        bloque: vec![
            asig("i", bin(id("i"), Operador::Suma, num(1))),
            ret(bin(id("i"), Operador::Division, num(0))),
        ],
    };
    let ds = vec![fun("f", vec!["i"], vec![cuerpo])];
    let (r, _, _) = correr(&ds, "f", vec![ent(0)]);
    assert!(matches!(r, Err(Corte::Agotado)));
    let cuerpo = Declaracion::Mientras {
        condicion: Expresion::LiteralBooleano(true),
        bloque: vec![ret(num(9))],
    };
    let mut ambito = Ambito::new();
    let mut s = Sesion::new(&[], &[], VariableStore::new());
    assert_eq!(evaluar_declaracion(&cuerpo, &mut ambito, &mut s, LIMITE).unwrap(), ent(9));
}

#[test]
fn ciclo_para() {
    let para = |condicion: Option<Expresion>, inicial: bool| Declaracion::Para {
        inicializacion: if inicial { Some(Box::new(var("i", Some(num(1))))) } else { None },
        condicion,
        incremento: Some(Box::new(asig("i", bin(id("i"), Operador::Suma, num(1))))),
        bloque: vec![asig("p", bin(id("p"), Operador::Multiplicacion, id("i")))],
    };
    let ds = vec![
        fun(
            "f",
            vec![],
            vec![
                var("p", Some(num(1))),
                para(Some(bin(id("i"), Operador::MenorIgual, num(5))), true),
                ret(id("p")),
            ],
        ),
        fun(
            "sin_inicio",
            vec![],
            vec![
                var("p", Some(num(1))),
                para(Some(bin(id("i"), Operador::MenorIgual, num(5))), false),
                ret(id("p")),
            ],
        ),
    ];
    assert_eq!(correr(&ds, "f", vec![]).0.unwrap(), ent(120));
    assert_eq!(
        mensaje(correr(&ds, "sin_inicio", vec![]).0),
        "Variable 'i' no encontrada"
    );
    let sin_fin = Declaracion::Para {
        inicializacion: None,
        condicion: None,
        incremento: None,
        bloque: vec![],
    };
    let mut ambito = Ambito::new();
    let mut s = Sesion::new(&[], &[], VariableStore::new());
    assert!(matches!(
        evaluar_declaracion(&sin_fin, &mut ambito, &mut s, LIMITE),
        Err(Corte::Agotado)
    ));
}

#[test]
fn recursion() {
    let ds = vec![fun(
        "fact",
        vec!["n"],
        vec![
            var("r", Some(num(1))),
            Declaracion::Si {
                condicion: bin(id("n"), Operador::Mayor, num(1)),
                bloque_verdadero: vec![asig(
                    "r",
                    bin(
                        id("n"),
                        Operador::Multiplicacion,
                        llamar("fact", vec![bin(id("n"), Operador::Resta, num(1))]),
                    ),
                )],
                bloque_falso: None,
            },
            ret(id("r")),
        ],
    )];
    assert_eq!(correr(&ds, "fact", vec![ent(5)]).0.unwrap(), ent(120));
    let ds = vec![fun("f", vec![], vec![ret(llamar("f", vec![]))])];
    assert!(matches!(correr(&ds, "f", vec![]).0, Err(Corte::Agotado)));
}

#[test]
fn declaraciones_que_se_ignoran() {
    let ignoradas = vec![
        Declaracion::Clase,
        Declaracion::Importar,
        Declaracion::Enum,
        Declaracion::Rasgo,
        Declaracion::Implementacion,
        Declaracion::AccesoMiembro,
        Declaracion::AsignacionMiembro,
        Declaracion::AsignacionIndex,
        Declaracion::AsignacionMultiple,
        Declaracion::Repetir,
        fun("g", vec![], vec![ret(num(1))]),
    ];
    for x in ignoradas {
        let mut ambito = Ambito::new();
        let mut s = Sesion::new(&[], &[], VariableStore::new());
        assert_eq!(evaluar_declaracion(&x, &mut ambito, &mut s, 1).unwrap(), ValorGUI::Nulo);
    }
}

#[test]
fn busqueda_de_funciones() {
    let ds = vec![
        var("f", None),
        fun("f", vec![], vec![ret(num(1))]),
        fun("f", vec![], vec![ret(num(2))]),
    ];
    assert_eq!(correr(&ds, "f", vec![]).0.unwrap(), ent(1));
    assert!(buscar_funcion("f", &ds).is_ok());
    assert_eq!(buscar_funcion("g", &ds).unwrap_err(), "Función 'g' no encontrada");
}

#[test]
fn limite_de_una_evaluacion() {
    let mut ambito = Ambito::new();
    let mut s = Sesion::new(&[], &[], VariableStore::new());
    assert!(matches!(evaluar_expresion(&num(1), &mut ambito, &mut s, 0), Err(Corte::Agotado)));
    assert_eq!(evaluar_expresion(&num(1), &mut ambito, &mut s, 1).unwrap(), ent(1));
    let grupo = Expresion::Grupo(Box::new(num(1)));
    assert!(matches!(evaluar_expresion(&grupo, &mut ambito, &mut s, 1), Err(Corte::Agotado)));
    assert_eq!(evaluar_expresion(&grupo, &mut ambito, &mut s, 2).unwrap(), ent(1));
}

#[test]
fn un_limite_mayor_no_cambia_el_resultado() {
    let e = bin(num(2), Operador::Suma, Expresion::Grupo(Box::new(num(3))));
    for limite in 3u64..50 {
        let mut ambito = Ambito::new();
        let mut s = Sesion::new(&[], &[], VariableStore::new());
        assert_eq!(evaluar_expresion(&e, &mut ambito, &mut s, limite).unwrap(), ent(5));
    }
}

#[test]
fn las_respuestas_llevan_la_ejecucion_mas_lejos() {
    let ds = vec![fun(
        "f",
        vec![],
        vec![
            var("a", Some(bin(lit(0.5), Operador::Suma, lit(0.25)))),
            var("b", Some(bin(id("a"), Operador::Multiplicacion, num(2)))),
            ret(bin(cad("="), Operador::Suma, id("b"))),
        ],
    )];
    let mut rs: Vec<Respuesta> = Vec::new();
    for paso in 0usize..3 {
        let mut s = Sesion::new(&ds, &rs, VariableStore::new());
        match ejecutar_funcion("f", &vec![], &mut s, LIMITE) {
            Err(Corte::Pendiente(p)) => {
                assert_eq!(s.usadas, paso);
                let nueva = responder(&p);
                rs.push(nueva);
            }
            otro => panic!("{:?}", otro),
        }
    }
    rs.push(Respuesta::Texto("de sobra".to_string()));
    let mut s = Sesion::new(&ds, &rs, VariableStore::new());
    assert_eq!(ejecutar_funcion("f", &vec![], &mut s, LIMITE).unwrap(), txt("=1.5"));
    assert_eq!(s.usadas, 3);
}

#[test]
fn listas_y_pares() {
    let mut ambito = Ambito::new();
    let mut s = Sesion::new(&[], &[], VariableStore::new());
    let es = vec![num(1), Expresion::Asignacion { variable: "x".to_string(), valor: Box::new(num(2)) }, id("x")];
    let vs = evaluar_lista(&es, &mut ambito, &mut s, LIMITE).unwrap();
    assert_eq!(vs, vec![ent(1), ent(2), ent(2)]);
    let ps = vec![(num(1), cad("a")), (Expresion::LiteralNulo, num(-1))];
    let js = evaluar_pares(&ps, &mut ambito, &mut s, LIMITE).unwrap();
    assert_eq!(js[0].0, "1");
    assert!(matches!(&js[0].1, ValorJson::Texto(t) if t == "a"));
    assert_eq!(js[1].0, "nulo");
    assert!(matches!(js[1].1, ValorJson::Negativo(-1)));
    let ds = vec![var("q", Some(num(1))), ret(id("q"))];
    assert_eq!(evaluar_bloque(&ds, &mut ambito, &mut s, LIMITE).unwrap(), ent(1));
}

fn iniciar(ds: &Vec<Declaracion>) -> VariableStore {
    let mut rs: Vec<Respuesta> = Vec::new();
    loop {
        let mut s = Sesion::new(ds, &rs, VariableStore::new());
        match inicializar_estado(&mut s, LIMITE) {
            Err(Corte::Pendiente(p)) => {
                let nueva = responder(&p);
                rs.push(nueva);
            }
            Ok(()) => return s.store,
            otro => panic!("{:?}", otro),
        }
    }
}

#[test]
fn variables_iniciales_de_main() {
    let ds = vec![
        fun("doble", vec!["n"], vec![ret(bin(id("n"), Operador::Multiplicacion, num(2)))]),
        fun(
            "main",
            vec![],
            vec![
                var("a", Some(num(1))),
                var("b", Some(lit(0.5))),
                var("c", Some(cad("hola"))),
                var("e", Some(Expresion::LiteralBooleano(true))),
                var("g", Some(Expresion::LiteralNulo)),
                var("h", None),
                var("i", Some(llamar("doble", vec![id("a")]))),
                var("j", Some(id("no_existe"))),
                var("k", Some(bin(id("b"), Operador::Suma, num(1)))),
                asig("a", num(77)),
                ret(num(3)),
                var("l", Some(num(8))),
            ],
        ),
        fun("main", vec![], vec![var("otra", Some(num(1)))]),
    ];
    let store = iniciar(&ds);
    assert!(matches!(store.get("a"), Some(ValorJson::Natural(1))));
    assert!(matches!(store.get("b"), Some(ValorJson::Decimal(x)) if x == d(0.5)));
    assert!(matches!(store.get("c"), Some(ValorJson::Texto(t)) if t == "hola"));
    assert!(matches!(store.get("e"), Some(ValorJson::Booleano(true))));
    assert!(matches!(store.get("g"), Some(ValorJson::Nulo)));
    assert!(matches!(store.get("h"), Some(ValorJson::Nulo)));
    assert!(matches!(store.get("i"), Some(ValorJson::Natural(2))));
    assert!(matches!(store.get("j"), Some(ValorJson::Nulo)));
    assert!(matches!(store.get("k"), Some(ValorJson::Decimal(x)) if x == d(1.5)));
    assert!(matches!(store.get("l"), Some(ValorJson::Natural(8))));
    assert!(!store.contains("otra"));
}

#[test]
fn sin_main_no_hay_variables() {
    let ds = vec![fun("otra", vec![], vec![var("a", Some(num(1)))]), var("b", Some(num(2)))];
    let store = iniciar(&ds);
    assert!(!store.contains("a"));
    assert!(!store.contains("b"));
}

#[test]
fn un_desborde_detiene_la_ejecucion() {
    let ds = vec![fun(
        "main",
        vec![],
        vec![var("a", Some(bin(num(i64::MAX), Operador::Suma, num(1))))],
    )];
    let mut s = Sesion::new(&ds, &[], VariableStore::new());
    assert!(matches!(inicializar_estado(&mut s, LIMITE), Err(Corte::Desborde)));
}
