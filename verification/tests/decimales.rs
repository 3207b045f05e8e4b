use forja_wasm_gui::decimal::{Decimal, Estilo};

fn d(x: f64) -> Decimal {
    Decimal { bits: x.to_bits() }
}

fn muestras() -> Vec<f64> {
    vec![
        0.0,
        -0.0,
        1.0,
        -1.0,
        0.5,
        -2.75,
        1.0e300,
        -1.0e300,
        5.0e-324,
        f64::MAX,
        f64::MIN,
        f64::INFINITY,
        f64::NEG_INFINITY,
        f64::NAN,
        -f64::NAN,
        123456789.125,
    ]
}

#[test]
fn orden_e_igualdad_de_decimales() {
    for a in muestras() {
        for b in muestras() {
            assert_eq!(d(a).menor(&d(b)), a < b, "{} < {}", a, b);
            assert_eq!(d(a).menor_igual(&d(b)), a <= b, "{} <= {}", a, b);
            assert_eq!(d(a).igual(&d(b)), a == b, "{} == {}", a, b);
        }
    }
}

#[test]
fn propiedades_de_un_decimal() {
    for a in muestras() {
        assert_eq!(d(a).es_finito(), a.is_finite(), "{}", a);
        assert_eq!(d(a).es_cero(), a == 0.0, "{}", a);
        assert_eq!(d(a).negado().bits, (-a).to_bits(), "{}", a);
        assert_eq!(d(a).es_entero(), a == a.trunc(), "{}", a);
    }
}

#[test]
fn negar_dos_veces_no_cambia_nada() {
    for a in muestras() {
        assert_eq!(d(a).negado().negado(), d(a));
    }
}

#[test]
fn parte_entera_de_un_decimal() {
    let mut x = 1.0f64;
    for _ in 0..70 {
        assert!(d(x).es_entero());
        assert_eq!(d(x + 0.5).es_entero(), (x + 0.5) == (x + 0.5).trunc());
        assert_eq!(d(x + 0.25).es_entero(), (x + 0.25) == (x + 0.25).trunc());
        assert_eq!(d(1.0 / x).es_entero(), (1.0 / x) == (1.0 / x).trunc());
        x *= 2.0;
    }
    assert_eq!(d(3.0).estilo(), Estilo::UnDigito);
    assert_eq!(d(3.25).estilo(), Estilo::Corto);
    assert_eq!(d(f64::INFINITY).estilo(), Estilo::UnDigito);
    assert_eq!(d(f64::NAN).estilo(), Estilo::Corto);
}

#[test]
fn decimal_mas_cercano_a_un_entero() {
    let casos: Vec<i64> = vec![
        0,
        1,
        -1,
        2,
        3,
        10,
        -10,
        4503599627370496,
        9007199254740991,
        9007199254740992,
        9007199254740993,
        9007199254740994,
        9007199254740995,
        -9007199254740993,
        36028797018963971,
        1152921504606846975,
        i64::MAX,
        i64::MIN,
        i64::MIN + 1,
        i64::MAX - 511,
        i64::MAX - 512,
        i64::MAX - 513,
    ];
    for n in casos {
        assert_eq!(Decimal::de_entero(n).bits, (n as f64).to_bits(), "{}", n);
    }
}

#[test]
fn decimal_mas_cercano_a_un_natural() {
    let casos: Vec<u64> = vec![0, 1, 9223372036854775808, 9223372036854776833, u64::MAX, u64::MAX - 1024];
    for n in casos {
        assert_eq!(Decimal::de_natural(n).bits, (n as f64).to_bits(), "{}", n);
    }
    let mut n: u64 = 1;
    for k in 0..64u64 {
        assert_eq!(Decimal::de_natural(n).bits, (n as f64).to_bits(), "2^{}", k);
        let m = n | (n >> 1) | 1;
        assert_eq!(Decimal::de_natural(m).bits, (m as f64).to_bits(), "{}", m);
        n = n.wrapping_mul(2);
    }
}
