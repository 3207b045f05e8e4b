use forja_wasm_gui::almacen::{Ambito, VariableStore};
use forja_wasm_gui::ast::{Operador, OperadorUnario};
use forja_wasm_gui::decimal::{Decimal, Estilo};
use forja_wasm_gui::json::ValorJson;
use forja_wasm_gui::operaciones::{
    dividir, escribir_pares, escribir_valores, evaluar_binaria, evaluar_unaria, indexar,
    multiplicar, restar, sumar, tomar_elemento,
};
use forja_wasm_gui::sesion::{Corte, OpDecimal, Pedido, Respuesta, Sesion};
use forja_wasm_gui::texto::{entero_a_texto, mismo_texto, natural_a_texto, unir};
use forja_wasm_gui::valor::ValorGUI;

fn d(x: f64) -> Decimal {
    Decimal { bits: x.to_bits() }
}

fn dec(x: f64) -> ValorGUI {
    ValorGUI::Decimal(d(x))
}

fn ent(n: i64) -> ValorGUI {
    ValorGUI::Entero(n)
}

fn txt(t: &str) -> ValorGUI {
    ValorGUI::Texto(t.to_string())
}

fn binaria(a: ValorGUI, op: Operador, b: ValorGUI, rs: &[Respuesta]) -> Result<ValorGUI, Corte> {
    let mut s = Sesion::new(&[], rs, VariableStore::new());
    evaluar_binaria(a, &op, b, &mut s)
}

fn sin_host(a: ValorGUI, op: Operador, b: ValorGUI) -> ValorGUI {
    match binaria(a, op, b, &[]) {
        Ok(v) => v,
        Err(c) => panic!("{:?}", c),
    }
}

fn mensaje(r: Result<ValorGUI, Corte>) -> String {
    match r {
        Err(Corte::Error(t)) => t,
        otro => panic!("{:?}", otro),
    }
}

#[test]
fn verdad_de_los_valores() {
    assert!(ValorGUI::Booleano(true).es_verdadero());
    assert!(!ValorGUI::Booleano(false).es_verdadero());
    assert!(ent(-1).es_verdadero());
    assert!(!ent(0).es_verdadero());
    assert!(dec(0.1).es_verdadero());
    assert!(!dec(0.0).es_verdadero());
    assert!(!dec(-0.0).es_verdadero());
    assert!(dec(f64::NAN).es_verdadero());
    assert!(txt("a").es_verdadero());
    assert!(!txt("").es_verdadero());
    assert!(!ValorGUI::Nulo.es_verdadero());
    assert!(ValorGUI::Nulo.es_nulo());
    assert!(!ent(0).es_nulo());
}

#[test]
fn igualdad_de_los_valores() {
    assert_eq!(txt("hola"), txt("hola"));
    assert_ne!(txt("hola"), txt("holá"));
    assert_ne!(ent(1), dec(1.0));
    assert_eq!(dec(0.0), dec(-0.0));
    assert_ne!(dec(f64::NAN), dec(f64::NAN));
    assert_eq!(ValorGUI::Nulo, ValorGUI::Nulo);
    assert_ne!(ValorGUI::Nulo, ValorGUI::Booleano(false));
    assert_eq!(ent(5).clone(), ent(5));
    assert_eq!(txt("x").clone(), txt("x"));
}

#[test]
fn texto_de_los_valores() {
    let mut s = Sesion::new(&[], &[], VariableStore::new());
    assert_eq!(txt("a b").to_display(&mut s).unwrap(), "a b");
    assert_eq!(ent(-42).to_display(&mut s).unwrap(), "-42");
    assert_eq!(ent(i64::MIN).to_display(&mut s).unwrap(), "-9223372036854775808");
    assert_eq!(ValorGUI::Booleano(true).to_display(&mut s).unwrap(), "verdadero");
    assert_eq!(ValorGUI::Booleano(false).to_display(&mut s).unwrap(), "falso");
    assert_eq!(ValorGUI::Nulo.to_display(&mut s).unwrap(), "nulo");
}

#[test]
fn texto_de_un_decimal_lo_da_el_host() {
    let mut s = Sesion::new(&[], &[], VariableStore::new());
    match dec(2.5).to_display(&mut s) {
        Err(Corte::Pendiente(Pedido::Mostrar(x, e))) => {
            assert_eq!(x, d(2.5));
            assert_eq!(e, Estilo::Corto);
        }
        otro => panic!("{:?}", otro),
    }
    match dec(3.0).to_display(&mut s) {
        Err(Corte::Pendiente(Pedido::Mostrar(_, e))) => assert_eq!(e, Estilo::UnDigito),
        otro => panic!("{:?}", otro),
    }
    let rs = vec![Respuesta::Texto("2.5".to_string())];
    let mut s = Sesion::new(&[], &rs, VariableStore::new());
    assert_eq!(dec(2.5).to_display(&mut s).unwrap(), "2.5");
    assert_eq!(s.usadas, 1);
}

#[test]
fn respuesta_de_otra_clase_no_sirve() {
    let rs = vec![Respuesta::Numero(d(2.5))];
    let mut s = Sesion::new(&[], &rs, VariableStore::new());
    assert!(matches!(dec(2.5).to_display(&mut s), Err(Corte::Pendiente(Pedido::Mostrar(..)))));
    assert_eq!(s.usadas, 0);
    let rs = vec![Respuesta::Texto("2.5".to_string())];
    let mut s = Sesion::new(&[], &rs, VariableStore::new());
    assert!(matches!(txt("2.5").to_decimal(&mut s), Err(Corte::Pendiente(Pedido::Leer(_)))));
    assert_eq!(s.usadas, 0);
}

#[test]
fn decimal_de_los_valores() {
    let rs = vec![Respuesta::Numero(d(7.25))];
    let mut s = Sesion::new(&[], &rs, VariableStore::new());
    assert_eq!(ent(3).to_decimal(&mut s).unwrap(), d(3.0));
    assert_eq!(dec(-1.5).to_decimal(&mut s).unwrap(), d(-1.5));
    assert_eq!(ValorGUI::Booleano(true).to_decimal(&mut s).unwrap(), d(0.0));
    assert_eq!(ValorGUI::Nulo.to_decimal(&mut s).unwrap(), d(0.0));
    assert_eq!(txt("7.25").to_decimal(&mut s).unwrap(), d(7.25));
    assert!(matches!(txt("x").to_decimal(&mut s), Err(Corte::Pendiente(Pedido::Leer(t))) if t == "x"));
}

#[test]
fn json_de_los_valores() {
    assert!(matches!(txt("a").to_json_value(), ValorJson::Texto(t) if t == "a"));
    assert!(matches!(ent(3).to_json_value(), ValorJson::Natural(3)));
    assert!(matches!(ent(-3).to_json_value(), ValorJson::Negativo(-3)));
    assert!(matches!(dec(1.5).to_json_value(), ValorJson::Decimal(x) if x == d(1.5)));
    assert!(matches!(dec(f64::INFINITY).to_json_value(), ValorJson::Nulo));
    assert!(matches!(dec(f64::NAN).to_json_value(), ValorJson::Nulo));
    assert!(matches!(ValorGUI::Booleano(true).to_json_value(), ValorJson::Booleano(true)));
    assert!(matches!(ValorGUI::Nulo.to_json_value(), ValorJson::Nulo));
}

#[test]
fn json_de_ida_y_vuelta() {
    let valores = vec![
        txt(""),
        txt("año"),
        ent(0),
        ent(i64::MAX),
        ent(i64::MIN),
        dec(-2.5),
        dec(1.0e300),
        ValorGUI::Booleano(true),
        ValorGUI::Booleano(false),
        ValorGUI::Nulo,
    ];
    for v in valores {
        assert_eq!(ValorGUI::from_serde(&v.to_json_value()), v);
    }
    assert_eq!(ValorGUI::from_serde(&dec(f64::NEG_INFINITY).to_json_value()), ValorGUI::Nulo);
}

#[test]
fn valores_de_json() {
    assert_eq!(ValorGUI::from_serde(&ValorJson::Natural(9223372036854775807)), ent(i64::MAX));
    assert_eq!(
        ValorGUI::from_serde(&ValorJson::Natural(9223372036854775808)),
        dec(9223372036854775808.0)
    );
    assert_eq!(ValorGUI::from_serde(&ValorJson::Natural(u64::MAX)), dec(18446744073709551616.0));
    assert_eq!(ValorGUI::from_serde(&ValorJson::Compuesto("[1]".to_string())), ValorGUI::Nulo);
}

#[test]
fn sumas() {
    assert_eq!(sin_host(ent(2), Operador::Suma, ent(3)), ent(5));
    assert_eq!(sin_host(txt("a"), Operador::Suma, txt("b")), txt("ab"));
    assert_eq!(sin_host(txt("n="), Operador::Suma, ent(-7)), txt("n=-7"));
    assert_eq!(sin_host(ent(7), Operador::Suma, txt("!")), txt("7!"));
    assert_eq!(sin_host(txt("x"), Operador::Suma, ValorGUI::Nulo), txt("xnulo"));
    assert_eq!(sin_host(ValorGUI::Booleano(true), Operador::Suma, txt("y")), txt("verdaderoy"));
    assert_eq!(sin_host(ValorGUI::Nulo, Operador::Suma, ent(1)), ValorGUI::Nulo);
    assert_eq!(sin_host(ValorGUI::Booleano(true), Operador::Suma, ent(1)), ValorGUI::Nulo);
}

#[test]
fn sumas_de_decimales_las_hace_el_host() {
    match binaria(ent(1), Operador::Suma, dec(0.5), &[]) {
        Err(Corte::Pendiente(Pedido::Aritmetica { op, a, b })) => {
            assert_eq!(op, OpDecimal::Suma);
            assert_eq!(a, d(1.0));
            assert_eq!(b, d(0.5));
        }
        otro => panic!("{:?}", otro),
    }
    let rs = vec![Respuesta::Numero(d(1.5))];
    assert_eq!(binaria(ent(1), Operador::Suma, dec(0.5), &rs).unwrap(), dec(1.5));
    let rs = vec![Respuesta::Texto("0.5".to_string())];
    assert_eq!(binaria(txt("v"), Operador::Suma, dec(0.5), &rs).unwrap(), txt("v0.5"));
    assert_eq!(binaria(dec(0.5), Operador::Suma, txt("v"), &rs).unwrap(), txt("0.5v"));
}

#[test]
fn restas_y_productos() {
    assert_eq!(sin_host(ent(2), Operador::Resta, ent(5)), ent(-3));
    assert_eq!(sin_host(ent(-4), Operador::Multiplicacion, ent(6)), ent(-24));
    assert_eq!(sin_host(txt("a"), Operador::Resta, ent(1)), ValorGUI::Nulo);
    assert_eq!(sin_host(txt("a"), Operador::Multiplicacion, ent(3)), ValorGUI::Nulo);
    match binaria(dec(2.0), Operador::Resta, ent(5), &[]) {
        Err(Corte::Pendiente(Pedido::Aritmetica { op, a, b })) => {
            assert_eq!((op, a, b), (OpDecimal::Resta, d(2.0), d(5.0)));
        }
        otro => panic!("{:?}", otro),
    }
    match binaria(dec(2.0), Operador::Multiplicacion, dec(5.0), &[]) {
        Err(Corte::Pendiente(Pedido::Aritmetica { op, a, b })) => {
            assert_eq!((op, a, b), (OpDecimal::Multiplicacion, d(2.0), d(5.0)));
        }
        otro => panic!("{:?}", otro),
    }
}

#[test]
fn divisiones() {
    assert_eq!(sin_host(ent(7), Operador::Division, ent(2)), ent(3));
    assert_eq!(sin_host(ent(-7), Operador::Division, ent(2)), ent(-3));
    assert_eq!(sin_host(ent(7), Operador::Division, ent(-2)), ent(-3));
    assert_eq!(sin_host(ent(-7), Operador::Division, ent(-2)), ent(3));
    assert_eq!(sin_host(ent(7), Operador::Division, ent(0)), ValorGUI::Nulo);
    assert_eq!(sin_host(dec(7.0), Operador::Division, ent(0)), ValorGUI::Nulo);
    assert_eq!(sin_host(ent(7), Operador::Division, dec(-0.0)), ValorGUI::Nulo);
    assert_eq!(sin_host(dec(7.0), Operador::Division, dec(0.0)), ValorGUI::Nulo);
    assert_eq!(sin_host(txt("7"), Operador::Division, ent(1)), ValorGUI::Nulo);
    match binaria(ent(7), Operador::Division, dec(2.0), &[]) {
        Err(Corte::Pendiente(Pedido::Aritmetica { op, a, b })) => {
            assert_eq!((op, a, b), (OpDecimal::Division, d(7.0), d(2.0)));
        }
        otro => panic!("{:?}", otro),
    }
}

#[test]
fn restos() {
    assert_eq!(sin_host(ent(7), Operador::Modulo, ent(3)), ent(1));
    assert_eq!(sin_host(ent(-7), Operador::Modulo, ent(3)), ent(-1));
    assert_eq!(sin_host(ent(7), Operador::Modulo, ent(-3)), ent(1));
    assert_eq!(
        mensaje(binaria(ent(7), Operador::Modulo, ent(0), &[])),
        "División por cero en módulo"
    );
    assert_eq!(
        mensaje(binaria(dec(7.0), Operador::Modulo, ent(2), &[])),
        "Módulo sólo soportado para enteros"
    );
}

#[test]
fn cociente_y_resto_componen_el_dividendo() {
    for a in -12i64..13 {
        for b in -5i64..6 {
            if b != 0 {
                let q = sin_host(ent(a), Operador::Division, ent(b));
                let r = sin_host(ent(a), Operador::Modulo, ent(b));
                let p = sin_host(ent(b), Operador::Multiplicacion, q);
                assert_eq!(sin_host(p, Operador::Suma, r), ent(a));
            }
        }
    }
}

#[test]
fn enteros_que_no_caben() {
    assert!(matches!(binaria(ent(i64::MAX), Operador::Suma, ent(1), &[]), Err(Corte::Desborde)));
    assert!(matches!(binaria(ent(i64::MIN), Operador::Resta, ent(1), &[]), Err(Corte::Desborde)));
    assert!(matches!(
        binaria(ent(i64::MAX), Operador::Multiplicacion, ent(2), &[]),
        Err(Corte::Desborde)
    ));
    assert!(matches!(
        binaria(ent(i64::MIN), Operador::Division, ent(-1), &[]),
        Err(Corte::Desborde)
    ));
    assert!(matches!(binaria(ent(i64::MIN), Operador::Modulo, ent(-1), &[]), Err(Corte::Desborde)));
    assert!(matches!(
        evaluar_unaria(&OperadorUnario::Negar, ent(i64::MIN)),
        Err(Corte::Desborde)
    ));
    assert_eq!(sin_host(ent(i64::MAX), Operador::Suma, ent(0)), ent(i64::MAX));
}

#[test]
fn operaciones_sueltas() {
    let mut s = Sesion::new(&[], &[], VariableStore::new());
    assert_eq!(sumar(ent(1), ent(2), &mut s).unwrap(), ent(3));
    assert_eq!(restar(ent(1), ent(2), &mut s).unwrap(), ent(-1));
    assert_eq!(multiplicar(ent(3), ent(2), &mut s).unwrap(), ent(6));
    assert_eq!(dividir(ent(6), ent(4), &mut s).unwrap(), ent(1));
}

#[test]
fn comparaciones() {
    let si = ValorGUI::Booleano(true);
    let no = ValorGUI::Booleano(false);
    assert_eq!(sin_host(ent(1), Operador::Menor, ent(2)), si);
    assert_eq!(sin_host(ent(2), Operador::Menor, ent(2)), no);
    assert_eq!(sin_host(ent(2), Operador::MenorIgual, ent(2)), si);
    assert_eq!(sin_host(ent(3), Operador::Mayor, dec(2.5)), si);
    assert_eq!(sin_host(ent(2), Operador::MayorIgual, dec(2.5)), no);
    assert_eq!(sin_host(ValorGUI::Nulo, Operador::MayorIgual, ValorGUI::Booleano(true)), si);
    for op in [Operador::Menor, Operador::MenorIgual, Operador::Mayor, Operador::MayorIgual] {
        assert_eq!(sin_host(dec(f64::NAN), op, ent(1)), no);
    }
    assert_eq!(sin_host(ent(1), Operador::IgualIgual, ent(1)), si);
    assert_eq!(sin_host(ent(1), Operador::IgualIgual, dec(1.0)), no);
    assert_eq!(sin_host(ent(1), Operador::Diferente, dec(1.0)), si);
    let rs = vec![Respuesta::Numero(d(10.0)), Respuesta::Numero(d(9.0))];
    assert_eq!(binaria(txt("10"), Operador::Mayor, txt("9"), &rs).unwrap(), si);
}

#[test]
fn enteros_grandes_se_comparan_como_decimales() {
    let si = ValorGUI::Booleano(true);
    let no = ValorGUI::Booleano(false);
    assert_eq!(sin_host(ent(9007199254740991), Operador::Menor, ent(9007199254740992)), si);
    assert_eq!(sin_host(ent(9007199254740992), Operador::Menor, ent(9007199254740993)), no);
    assert_eq!(sin_host(ent(9007199254740992), Operador::MenorIgual, ent(9007199254740993)), si);
    assert_eq!(sin_host(ent(9007199254740992), Operador::IgualIgual, ent(9007199254740993)), no);
}

#[test]
fn logica() {
    let si = ValorGUI::Booleano(true);
    let no = ValorGUI::Booleano(false);
    assert_eq!(sin_host(ent(1), Operador::Y, txt("a")), si);
    assert_eq!(sin_host(ent(1), Operador::Y, txt("")), no);
    assert_eq!(sin_host(ent(0), Operador::O, txt("a")), si);
    assert_eq!(sin_host(ent(0), Operador::O, ValorGUI::Nulo), no);
    assert_eq!(evaluar_unaria(&OperadorUnario::No, ent(0)).unwrap(), si);
    assert_eq!(evaluar_unaria(&OperadorUnario::No, txt("a")).unwrap(), no);
}

#[test]
fn negaciones() {
    assert_eq!(evaluar_unaria(&OperadorUnario::Negar, ent(5)).unwrap(), ent(-5));
    assert_eq!(evaluar_unaria(&OperadorUnario::Negar, dec(2.5)).unwrap(), dec(-2.5));
    assert_eq!(
        mensaje(evaluar_unaria(&OperadorUnario::Negar, txt("a"))),
        "No se puede negar un valor no numérico"
    );
}

#[test]
fn arreglos_de_json() {
    let mut s = Sesion::new(&[], &[], VariableStore::new());
    let vs = vec![
        ValorJson::Natural(1),
        ValorJson::Negativo(-2),
        ValorJson::Texto("a\"b".to_string()),
        ValorJson::Booleano(true),
        ValorJson::Nulo,
    ];
    assert_eq!(escribir_valores(vs, &mut s).unwrap(), txt("[1,-2,\"a\\\"b\",true,null]"));
    assert_eq!(escribir_valores(vec![], &mut s).unwrap(), txt("[]"));
    match escribir_valores(vec![ValorJson::Natural(1), ValorJson::Decimal(d(1.5))], &mut s) {
        Err(Corte::Pendiente(Pedido::EscribirArreglo(v))) => assert_eq!(v.len(), 2),
        otro => panic!("{:?}", otro),
    }
    let rs = vec![Respuesta::Texto("[1,1.5]".to_string())];
    let mut s = Sesion::new(&[], &rs, VariableStore::new());
    assert_eq!(
        escribir_valores(vec![ValorJson::Natural(1), ValorJson::Decimal(d(1.5))], &mut s).unwrap(),
        txt("[1,1.5]")
    );
}

#[test]
fn objetos_de_json() {
    let mut s = Sesion::new(&[], &[], VariableStore::new());
    let ps = vec![
        ("b".to_string(), ValorJson::Natural(1)),
        ("a".to_string(), ValorJson::Texto("x".to_string())),
        ("b".to_string(), ValorJson::Booleano(false)),
        ("c".to_string(), ValorJson::Negativo(-5)),
        ("d".to_string(), ValorJson::Nulo),
    ];
    assert_eq!(
        escribir_pares(ps, &mut s).unwrap(),
        txt("{\"a\":\"x\",\"b\":false,\"c\":-5,\"d\":null}")
    );
    assert_eq!(escribir_pares(vec![], &mut s).unwrap(), txt("{}"));
    match escribir_pares(vec![("k".to_string(), ValorJson::Decimal(d(0.5)))], &mut s) {
        Err(Corte::Pendiente(Pedido::EscribirObjeto(v))) => assert_eq!(v[0].0, "k"),
        otro => panic!("{:?}", otro),
    }
}

fn indice(objeto: ValorGUI, i: ValorGUI) -> Result<ValorGUI, Corte> {
    let mut s = Sesion::new(&[], &[], VariableStore::new());
    indexar(objeto, i, &mut s)
}

#[test]
fn indices() {
    let arreglo = "[10, -3, \"x\", true, null, 2.5, [1, 2], {\"a\": 1}, 18446744073709551615]";
    assert_eq!(indice(txt(arreglo), ent(0)).unwrap(), ent(10));
    assert_eq!(indice(txt(arreglo), ent(1)).unwrap(), ent(-3));
    assert_eq!(indice(txt(arreglo), ent(2)).unwrap(), txt("x"));
    assert_eq!(indice(txt(arreglo), ent(3)).unwrap(), ValorGUI::Booleano(true));
    assert_eq!(indice(txt(arreglo), ent(4)).unwrap(), ValorGUI::Nulo);
    assert_eq!(indice(txt(arreglo), ent(5)).unwrap(), dec(2.5));
    assert_eq!(indice(txt(arreglo), ent(6)).unwrap(), ValorGUI::Nulo);
    assert_eq!(indice(txt(arreglo), ent(7)).unwrap(), ValorGUI::Nulo);
    assert_eq!(indice(txt(arreglo), ent(8)).unwrap(), dec(18446744073709551615.0));
}

#[test]
fn indices_que_fallan() {
    assert_eq!(mensaje(indice(txt("[1,2]"), ent(2))), "Índice 2 fuera de rango (len=2)");
    assert_eq!(
        mensaje(indice(txt("[1,2]"), ent(-1))),
        format!("Índice {} fuera de rango (len=2)", -1i64 as usize)
    );
    assert_eq!(mensaje(indice(txt("[1,2]"), txt("0"))), "Índice debe ser un entero");
    assert_eq!(mensaje(indice(txt("[1,2]"), dec(0.0))), "Índice debe ser un entero");
    let no_es = "No se puede indexar un valor que no es un array";
    assert_eq!(mensaje(indice(txt("hola"), ent(0))), no_es);
    assert_eq!(mensaje(indice(txt("{\"a\":1}"), ent(0))), no_es);
    assert_eq!(mensaje(indice(ent(5), ent(0))), no_es);
    assert_eq!(mensaje(indice(ValorGUI::Nulo, ent(0))), no_es);
}

#[test]
fn elementos_de_lo_leido() {
    assert_eq!(tomar_elemento(Some(vec![ValorJson::Natural(4)]), 0).unwrap(), ent(4));
    assert_eq!(
        mensaje(tomar_elemento(Some(vec![]), 3)),
        "Índice 3 fuera de rango (len=0)"
    );
    assert_eq!(
        mensaje(tomar_elemento(None, 0)),
        "No se puede indexar un valor que no es un array"
    );
}

#[test]
fn lo_escrito_en_un_arreglo_se_lee_por_su_indice() {
    let mut s = Sesion::new(&[], &[], VariableStore::new());
    let valores = vec![ent(5), ent(-6), txt("ñ\n"), ValorGUI::Booleano(false), ValorGUI::Nulo];
    let json: Vec<ValorJson> = valores.iter().map(|v| v.to_json_value()).collect();
    let texto = escribir_valores(json, &mut s).unwrap();
    for i in 0..valores.len() {
        assert_eq!(indexar(texto.clone(), ent(i as i64), &mut s).unwrap(), valores[i]);
    }
}

#[test]
fn almacen_de_variables() {
    let mut a = VariableStore::new();
    assert!(!a.contains("x"));
    assert!(a.get("x").is_none());
    a.set("x", ValorJson::Natural(1));
    a.set("y", ValorJson::Texto("dos".to_string()));
    assert!(a.contains("x"));
    assert!(matches!(a.get("x"), Some(ValorJson::Natural(1))));
    a.set("x", ValorJson::Booleano(true));
    assert!(matches!(a.get("x"), Some(ValorJson::Booleano(true))));
    assert!(matches!(a.get("y"), Some(ValorJson::Texto(t)) if t == "dos"));
    assert!(!a.contains("z"));
    assert!(!VariableStore::default().contains("x"));
}

#[test]
fn copia_del_almacen() {
    let mut a = VariableStore::new();
    a.set("x", ValorJson::Natural(1));
    a.set("y", ValorJson::Negativo(-1));
    let mut b = a.copia();
    b.set("x", ValorJson::Nulo);
    b.set("z", ValorJson::Nulo);
    assert!(matches!(a.get("x"), Some(ValorJson::Natural(1))));
    assert!(!a.contains("z"));
    assert!(matches!(b.get("y"), Some(ValorJson::Negativo(-1))));
}

#[test]
fn ambito_de_una_llamada() {
    let mut a = Ambito::new();
    assert!(a.obtener("n").is_none());
    a.asignar("n".to_string(), ent(1));
    a.asignar("m".to_string(), ent(2));
    a.asignar("n".to_string(), ent(3));
    assert_eq!(a.obtener("n"), Some(&ent(3)));
    assert_eq!(a.obtener("m"), Some(&ent(2)));
}

#[test]
fn textos() {
    assert_eq!(natural_a_texto(0), "0");
    assert_eq!(natural_a_texto(u64::MAX), "18446744073709551615");
    assert_eq!(entero_a_texto(i64::MIN), "-9223372036854775808");
    assert_eq!(entero_a_texto(-10), "-10");
    assert_eq!(entero_a_texto(907), "907");
    assert!(mismo_texto("añil", "añil"));
    assert!(!mismo_texto("añil", "anil"));
    assert!(!mismo_texto("a", "ab"));
    assert!(mismo_texto("", ""));
    assert_eq!(unir("a", "b", "c"), "abc");
}

#[test]
fn version_de_la_biblioteca() {
    assert_eq!(forja_wasm_gui::version(), "forja-wasm-gui v0.1.0");
}
