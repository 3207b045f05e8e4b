//! The syntax tree of a program: what the runtime reads of it.

use vstd::prelude::*;

use crate::decimal::Decimal;

verus! {

/// An operator with two operands.
#[derive(Debug, Clone, Copy, PartialEq, Eq, Structural)]
pub enum Operador {
    Suma,
    Resta,
    Multiplicacion,
    Division,
    Modulo,
    IgualIgual,
    Diferente,
    Menor,
    MenorIgual,
    Mayor,
    MayorIgual,
    Y,
    O,
}

/// An operator with one operand.
#[derive(Debug, Clone, Copy, PartialEq, Eq, Structural)]
pub enum OperadorUnario {
    Negar,
    No,
}

/// A parameter of a function.
#[derive(Debug)]
pub struct Parametro {
    pub nombre: String,
}

/// An expression.
#[allow(inconsistent_fields)]
#[derive(Debug)]
pub enum Expresion {
    LiteralNumero(i64),
    LiteralDecimal(Decimal),
    LiteralTexto(String),
    LiteralBooleano(bool),
    LiteralNulo,
    LiteralExacto,
    Identificador { nombre: String },
    Binaria { izquierda: Box<Expresion>, operador: Operador, derecha: Box<Expresion> },
    Unaria { operador: OperadorUnario, expr: Box<Expresion> },
    /// A call. `depuracion` is how the compiler prints the first argument for
    /// debugging; empty if there is none.
    LlamadaFuncion { nombre: String, argumentos: Vec<Expresion>, depuracion: String },
    AccesoMiembro { objeto: Box<Expresion>, miembro: String },
    Grupo(Box<Expresion>),
    Asignacion { variable: String, valor: Box<Expresion> },
    Arreglo(Vec<Expresion>),
    Mapa(Vec<(Expresion, Expresion)>),
    Correcto(Box<Expresion>),
    Error(Box<Expresion>),
    Algo(Box<Expresion>),
    Referencia { expr: Box<Expresion> },
    Index { objeto: Box<Expresion>, indice: Box<Expresion> },
    Closure,
    Hilo,
    CanalNuevo,
    Seleccionar,
    Try(Box<Expresion>),
    Resultado,
    Anterior(Box<Expresion>),
    Instanciacion,
    AsignacionCampo,
    ArraySet,
    Coincidir,
}

/// A declaration or statement.
#[allow(inconsistent_fields)]
#[derive(Debug)]
pub enum Declaracion {
    Variable { nombre: String, valor: Option<Expresion> },
    Asignacion { nombre: String, valor: Expresion },
    Funcion { nombre: String, parametros: Vec<Parametro>, cuerpo: Vec<Declaracion> },
    Retornar { valor: Option<Expresion> },
    Si {
        condicion: Expresion,
        bloque_verdadero: Vec<Declaracion>,
        bloque_falso: Option<Vec<Declaracion>>,
    },
    Mientras { condicion: Expresion, bloque: Vec<Declaracion> },
    Para {
        inicializacion: Option<Box<Declaracion>>,
        condicion: Option<Expresion>,
        incremento: Option<Box<Declaracion>>,
        bloque: Vec<Declaracion>,
    },
    Cuando { condicion: Expresion, cuerpo: Vec<Declaracion> },
    /// A call, as in [`Expresion::LlamadaFuncion`].
    LlamadaFuncion { nombre: String, argumentos: Vec<Expresion>, depuracion: String },
    Expresion(Expresion),
    Clase,
    Importar,
    Enum,
    Rasgo,
    Implementacion,
    AccesoMiembro,
    AsignacionMiembro,
    AsignacionIndex,
    AsignacionMultiple,
    Repetir,
}

/// Whether a declaration is the function of that name.
pub open spec fn es_funcion(d: Declaracion, nombre: Seq<char>) -> bool {
    d matches Declaracion::Funcion { nombre: n, .. } && n@ == nombre
}

/// Where the first function of that name stands from `i` on; the length of the
/// program if there is none.
pub open spec fn lugar_de_funcion(ds: Seq<Declaracion>, nombre: Seq<char>, i: nat) -> nat
    decreases ds.len() - i,
{
    if i >= ds.len() {
        ds.len()
    } else if es_funcion(ds[i as int], nombre) {
        i
    } else {
        lugar_de_funcion(ds, nombre, i + 1)
    }
}

} // verus!
