//! JSON values, as the variable store keeps them and as arrays and maps are
//! written and read.

use serde_json::Value;
use vstd::prelude::*;

use crate::decimal::{decimal_de_entero, Decimal};
use crate::valor::{Valor, ValorGUI};

verus! {

/// A JSON value. An array or an object is held as its JSON text.
#[derive(Debug)]
pub enum ValorJson {
    Nulo,
    Booleano(bool),
    /// A whole number that is not negative.
    Natural(u64),
    /// A whole number below zero.
    Negativo(i64),
    Decimal(Decimal),
    Texto(String),
    /// An array or an object, by its text.
    Compuesto(String),
}

/// What a [`ValorJson`] stands for.
pub enum Json {
    Nulo,
    Booleano(bool),
    Natural(nat),
    Negativo(int),
    Decimal(Decimal),
    Texto(Seq<char>),
    Compuesto(Seq<char>),
}

impl View for ValorJson {
    type V = Json;

    open spec fn view(&self) -> Json {
        match *self {
            ValorJson::Nulo => Json::Nulo,
            ValorJson::Booleano(b) => Json::Booleano(b),
            ValorJson::Natural(n) => Json::Natural(n as nat),
            ValorJson::Negativo(n) => Json::Negativo(n as int),
            ValorJson::Decimal(d) => Json::Decimal(d),
            ValorJson::Texto(t) => Json::Texto(t@),
            ValorJson::Compuesto(t) => Json::Compuesto(t@),
        }
    }
}

/// The views of a sequence of JSON values.
pub open spec fn vistas_json(valores: Seq<ValorJson>) -> Seq<Json> {
    Seq::new(valores.len(), |i: int| valores[i]@)
}

impl Json {
    /// Whether the value is a decimal number.
    pub open spec fn es_decimal(self) -> bool {
        self is Decimal
    }

    /// Whether the value is one that a value of the language becomes: no array
    /// and no object, and negative only below zero.
    pub open spec fn escribible(self) -> bool {
        match self {
            Json::Compuesto(_) => false,
            Json::Negativo(n) => n < 0,
            _ => true,
        }
    }

    /// Whether the value is null, a boolean, a whole number or a text.
    pub open spec fn simple(self) -> bool {
        self.escribible() && !self.es_decimal()
    }
}

/// The JSON value of a value. JSON has no number for an infinity or for what
/// is no number: those become null.
pub open spec fn a_json(v: Valor) -> Json {
    match v {
        Valor::Texto(t) => Json::Texto(t),
        Valor::Entero(n) => if n < 0 {
            Json::Negativo(n)
        } else {
            Json::Natural(n as nat)
        },
        Valor::Decimal(d) => if d.finito() {
            Json::Decimal(d)
        } else {
            Json::Nulo
        },
        Valor::Booleano(b) => Json::Booleano(b),
        Valor::Nulo => Json::Nulo,
    }
}

/// The value of a JSON value. A whole number too large for an integer of the
/// language becomes the nearest decimal; arrays and objects become null.
pub open spec fn de_json(j: Json) -> Valor {
    match j {
        Json::Texto(t) => Valor::Texto(t),
        Json::Natural(n) => if n <= i64::MAX {
            Valor::Entero(n as int)
        } else {
            Valor::Decimal(decimal_de_entero(n as int))
        },
        Json::Negativo(n) => Valor::Entero(n),
        Json::Decimal(d) => Valor::Decimal(d),
        Json::Booleano(b) => Valor::Booleano(b),
        Json::Nulo => Valor::Nulo,
        Json::Compuesto(_) => Valor::Nulo,
    }
}

/// What is left of a value that was stored: all of it, but an infinity and what
/// is no number become null.
pub open spec fn guardado(v: Valor) -> Valor {
    match v {
        Valor::Decimal(d) => if d.finito() {
            v
        } else {
            Valor::Nulo
        },
        _ => v,
    }
}

impl ValorGUI {
    /// The JSON value of this value.
    pub fn to_json_value(&self) -> (r: ValorJson)
        ensures
            r@ == a_json(self@),
    {
        match self {
            ValorGUI::Texto(t) => ValorJson::Texto(t.clone()),
            ValorGUI::Entero(n) => if *n < 0 {
                ValorJson::Negativo(*n)
            } else {
                ValorJson::Natural(*n as u64)
            },
            ValorGUI::Decimal(d) => if d.es_finito() {
                ValorJson::Decimal(*d)
            } else {
                ValorJson::Nulo
            },
            ValorGUI::Booleano(b) => ValorJson::Booleano(*b),
            ValorGUI::Nulo => ValorJson::Nulo,
        }
    }

    /// The value of a JSON value.
    pub fn from_serde(val: &ValorJson) -> (r: ValorGUI)
        ensures
            r@ == de_json(val@),
    {
        match val {
            ValorJson::Texto(t) => ValorGUI::Texto(t.clone()),
            ValorJson::Natural(n) => if *n <= 0x7fff_ffff_ffff_ffff {
                ValorGUI::Entero(*n as i64)
            } else {
                ValorGUI::Decimal(Decimal::de_natural(*n))
            },
            ValorJson::Negativo(n) => ValorGUI::Entero(*n),
            ValorJson::Decimal(d) => ValorGUI::Decimal(*d),
            ValorJson::Booleano(b) => ValorGUI::Booleano(*b),
            ValorJson::Nulo => ValorGUI::Nulo,
            ValorJson::Compuesto(_) => ValorGUI::Nulo,
        }
    }
}

impl ValorJson {
    /// Whether the value is a decimal number.
    pub fn es_decimal(&self) -> (r: bool)
        ensures
            r == self@.es_decimal(),
    {
        match self {
            ValorJson::Decimal(_) => true,
            _ => false,
        }
    }
}

impl Clone for ValorJson {
    fn clone(&self) -> (r: Self)
        ensures
            r@ == self@,
    {
        match self {
            ValorJson::Nulo => ValorJson::Nulo,
            ValorJson::Booleano(b) => ValorJson::Booleano(*b),
            ValorJson::Natural(n) => ValorJson::Natural(*n),
            ValorJson::Negativo(n) => ValorJson::Negativo(*n),
            ValorJson::Decimal(d) => ValorJson::Decimal(*d),
            ValorJson::Texto(t) => ValorJson::Texto(t.clone()),
            ValorJson::Compuesto(t) => ValorJson::Compuesto(t.clone()),
        }
    }
}

// ---------------------------------------------------------------------------
// serde_json
// ---------------------------------------------------------------------------

/// The compact JSON text of an array, by its elements.
pub uninterp spec fn texto_de_arreglo(elementos: Seq<Json>) -> Seq<char>;

/// The compact JSON text of an object, by its members.
pub uninterp spec fn texto_de_objeto(miembros: Map<Seq<char>, Json>) -> Seq<char>;

/// The elements of the array that a JSON text holds; none if the text is no
/// JSON or no array.
pub uninterp spec fn arreglo_de_texto(texto: Seq<char>) -> Option<Seq<Json>>;

/// A JSON value of `serde_json`.
#[verifier::external_type_specification]
#[verifier::external_body]
pub struct ExValue(serde_json::Value);

/// A JSON object of `serde_json`: a map that is walked in the order of its keys.
#[verifier::external_type_specification]
#[verifier::external_body]
#[verifier::reject_recursive_types(K)]
#[verifier::reject_recursive_types(V)]
pub struct ExMapa<K, V>(serde_json::Map<K, V>);

/// The members of a `serde_json` object.
pub uninterp spec fn miembros(m: serde_json::Map<String, Value>) -> Map<Seq<char>, Json>;

/// No members.
pub open spec fn sin_miembros() -> Map<Seq<char>, Json> {
    Map::empty()
}

/// `serde_json::to_string` on a vector of values.
///
/// Claims that on null, booleans, whole numbers and texts it does not fail,
/// that the text depends on the elements alone, and that reading the text back
/// gives those elements. No decimal, array or object is handed to it.
#[verifier::external_body]
pub(crate) fn escribir_arreglo(elementos: &Vec<ValorJson>) -> (r: Result<String, String>)
    requires
        forall|i: int| 0 <= i < elementos@.len() ==> #[trigger] elementos@[i]@.simple(),
    ensures
        r is Ok,
        r->Ok_0@ == texto_de_arreglo(vistas_json(elementos@)),
        arreglo_de_texto(r->Ok_0@) == Some(vistas_json(elementos@)),
{
    let valores: Vec<Value> = elementos.iter().map(|e| match e {
        ValorJson::Booleano(b) => Value::Bool(*b),
        ValorJson::Natural(n) => Value::from(*n),
        ValorJson::Negativo(n) => Value::from(*n),
        ValorJson::Texto(t) => Value::String(t.clone()),
        _ => Value::Null,
    }).collect();
    serde_json::to_string(&valores).map_err(|e| e.to_string())
}

/// `serde_json::from_str` into a value, of which the elements are taken if it
/// is an array.
///
/// Claims that the outcome depends on the text alone. Which texts are arrays, and
/// what their elements are, is left to `serde_json`.
#[verifier::external_body]
pub(crate) fn leer_arreglo(texto: &str) -> (r: Option<Vec<ValorJson>>)
    ensures
        r is Some <==> arreglo_de_texto(texto@) is Some,
        r matches Some(v) ==> arreglo_de_texto(texto@) == Some(vistas_json(v@)),
{
    match serde_json::from_str::<Value>(texto) {
        Ok(Value::Array(a)) => Some(a.iter().map(|v| match v {
            Value::Null => ValorJson::Nulo,
            Value::Bool(b) => ValorJson::Booleano(*b),
            Value::String(t) => ValorJson::Texto(t.clone()),
            Value::Number(n) => match (n.as_u64(), n.as_i64(), n.as_f64()) {
                (Some(m), _, _) => ValorJson::Natural(m),
                (_, Some(m), _) => ValorJson::Negativo(m),
                (_, _, d) => ValorJson::Decimal(Decimal { bits: d.unwrap_or_default().to_bits() }),
            },
            otro => ValorJson::Compuesto(otro.to_string()),
        }).collect()),
        _ => None,
    }
}

/// `serde_json::Map::new`. Claims that the object has no members.
#[verifier::external_body]
pub(crate) fn objeto_nuevo() -> (r: serde_json::Map<String, Value>)
    ensures
        miembros(r) == sin_miembros(),
{
    serde_json::Map::new()
}

/// `serde_json::Map::insert`.
///
/// Claims that the object then has that member, in place of one of the same name
/// if there was one, and its other members as before.
#[verifier::external_body]
pub(crate) fn objeto_insertar(
    m: &mut serde_json::Map<String, Value>,
    nombre: String,
    valor: &ValorJson,
)
    requires
        valor@.simple(),
    ensures
        miembros(*final(m)) == miembros(*old(m)).insert(nombre@, valor@),
{
    let v = match valor {
        ValorJson::Booleano(b) => Value::Bool(*b),
        ValorJson::Natural(n) => Value::from(*n),
        ValorJson::Negativo(n) => Value::from(*n),
        ValorJson::Texto(t) => Value::String(t.clone()),
        _ => Value::Null,
    };
    m.insert(nombre, v);
}

/// `serde_json::to_string` on an object.
///
/// Claims that it does not fail on one whose members are null, booleans, whole
/// numbers and texts, and that the text depends on the members alone, not on
/// the order in which they came.
#[verifier::external_body]
pub(crate) fn escribir_objeto(m: serde_json::Map<String, Value>) -> (r: Result<String, String>)
    requires
        forall|k: Seq<char>| miembros(m).contains_key(k) ==> #[trigger] miembros(m)[k].simple(),
    ensures
        r is Ok,
        r->Ok_0@ == texto_de_objeto(miembros(m)),
{
    serde_json::to_string(&Value::Object(m)).map_err(|e| e.to_string())
}

} // verus!
