//! What a run of a program shares with its host.
//!
//! The library does no decimal arithmetic. Where a program needs some, the run
//! stops with the [`Pedido`] that the host is to answer; the host appends its
//! [`Respuesta`] to those given so far and runs the program again from the
//! start. A run is a function of the program, of the variables it starts with
//! and of the answers, so it comes back to the same place and goes on from
//! there.

use vstd::prelude::*;

use crate::almacen::{Ambito, VariableStore};
use crate::ast::Declaracion;
use crate::decimal::{Decimal, Estilo};
use crate::json::{vistas_json, Json, ValorJson};
use crate::valor::{Valor, ValorGUI};

verus! {

/// An operation on two decimals.
#[derive(Debug, Clone, Copy, PartialEq, Eq, Structural)]
pub enum OpDecimal {
    Suma,
    Resta,
    Multiplicacion,
    Division,
}

/// What a run asks of its host.
#[derive(Debug)]
pub enum Pedido {
    /// The result of an operation. The answer is a number.
    Aritmetica { op: OpDecimal, a: Decimal, b: Decimal },
    /// The text that shows a decimal in that style. The answer is a text.
    Mostrar(Decimal, Estilo),
    /// The decimal that a text stands for, zero if none. The answer is a number.
    Leer(String),
    /// The compact JSON text of an array. The answer is a text.
    EscribirArreglo(Vec<ValorJson>),
    /// The compact JSON text of an object whose members were given in this
    /// order, the last one of a name standing. The answer is a text.
    EscribirObjeto(Vec<(String, ValorJson)>),
}

/// What a [`Pedido`] stands for.
pub enum PedidoVista {
    Aritmetica { op: OpDecimal, a: Decimal, b: Decimal },
    Mostrar(Decimal, Estilo),
    Leer(Seq<char>),
    EscribirArreglo(Seq<Json>),
    EscribirObjeto(Seq<(Seq<char>, Json)>),
}

/// The views of a sequence of named JSON values.
pub open spec fn vistas_pares(pares: Seq<(String, ValorJson)>) -> Seq<(Seq<char>, Json)> {
    Seq::new(pares.len(), |i: int| (pares[i].0@, pares[i].1@))
}

impl View for Pedido {
    type V = PedidoVista;

    open spec fn view(&self) -> PedidoVista {
        match *self {
            Pedido::Aritmetica { op, a, b } => PedidoVista::Aritmetica { op, a, b },
            Pedido::Mostrar(d, e) => PedidoVista::Mostrar(d, e),
            Pedido::Leer(t) => PedidoVista::Leer(t@),
            Pedido::EscribirArreglo(v) => PedidoVista::EscribirArreglo(vistas_json(v@)),
            Pedido::EscribirObjeto(v) => PedidoVista::EscribirObjeto(vistas_pares(v@)),
        }
    }
}

/// What the host answers.
#[derive(Debug)]
pub enum Respuesta {
    Numero(Decimal),
    Texto(String),
}

/// Why a run stopped before its end.
#[derive(Debug)]
pub enum Corte {
    /// The program failed, with this message.
    Error(String),
    /// The host has to answer.
    Pendiente(Pedido),
    /// The program went deeper, or round a loop more often, than the limit.
    Agotado,
    /// An integer result does not fit in 64 bits.
    Desborde,
}

/// What a [`Corte`] stands for.
pub enum Interrupcion {
    Error(Seq<char>),
    Pendiente(PedidoVista),
    Agotado,
    Desborde,
}

impl View for Corte {
    type V = Interrupcion;

    open spec fn view(&self) -> Interrupcion {
        match *self {
            Corte::Error(t) => Interrupcion::Error(t@),
            Corte::Pendiente(p) => Interrupcion::Pendiente(p@),
            Corte::Agotado => Interrupcion::Agotado,
            Corte::Desborde => Interrupcion::Desborde,
        }
    }
}

/// What stays the same through a run: the program and the host's answers.
pub struct Entorno {
    pub declaraciones: Seq<Declaracion>,
    pub respuestas: Seq<Respuesta>,
}

/// What a run changes: the variables of the call and of the store, and how many
/// answers it has used.
pub struct Estado {
    pub ambito: Map<Seq<char>, Valor>,
    pub almacen: Map<Seq<char>, Json>,
    pub usadas: nat,
}

/// An outcome, and the state it leaves.
pub type Paso<T> = (Result<T, Interrupcion>, Estado);

/// A run of a program.
pub struct Sesion<'a> {
    pub declaraciones: &'a [Declaracion],
    pub respuestas: &'a [Respuesta],
    pub usadas: usize,
    pub store: VariableStore,
}

impl<'a> Sesion<'a> {
    /// What stays the same through the run.
    pub open spec fn entorno(self) -> Entorno {
        Entorno { declaraciones: self.declaraciones@, respuestas: self.respuestas@ }
    }

    /// The state of the run, in a call whose variables are `ambito`.
    pub open spec fn estado(self, ambito: Ambito) -> Estado {
        Estado { ambito: ambito@, almacen: self.store@, usadas: self.usadas as nat }
    }

    /// A run of a program on given variables, with the answers given so far.
    pub fn new(
        declaraciones: &'a [Declaracion],
        respuestas: &'a [Respuesta],
        store: VariableStore,
    ) -> (r: Sesion<'a>)
        ensures
            r.declaraciones@ == declaraciones@,
            r.respuestas@ == respuestas@,
            r.usadas == 0,
            r.store@ == store@,
    {
        Sesion { declaraciones, respuestas, usadas: 0, store }
    }
}

/// What a computed value, or the reason why there is none, stands for.
pub open spec fn vista_resultado(r: Result<ValorGUI, Corte>) -> Result<Valor, Interrupcion> {
    match r {
        Ok(v) => Ok(v@),
        Err(c) => Err(c@),
    }
}

/// The same for a text.
pub open spec fn vista_texto(r: Result<String, Corte>) -> Result<Seq<char>, Interrupcion> {
    match r {
        Ok(t) => Ok(t@),
        Err(c) => Err(c@),
    }
}

/// The same for a decimal.
pub open spec fn vista_decimal(r: Result<Decimal, Corte>) -> Result<Decimal, Interrupcion> {
    match r {
        Ok(d) => Ok(d),
        Err(c) => Err(c@),
    }
}

// ---------------------------------------------------------------------------
// Asking the host
// ---------------------------------------------------------------------------

/// An outcome that may come from the host, and how many answers are used then.
pub type Consulta<T> = (Result<T, Interrupcion>, nat);

/// The next answer, if it is a number; else the run waits for one.
pub open spec fn numero_pedido(p: PedidoVista, respuestas: Seq<Respuesta>, usadas: nat) -> Consulta<
    Decimal,
> {
    if usadas < respuestas.len() {
        match respuestas[usadas as int] {
            Respuesta::Numero(d) => (Ok(d), usadas + 1),
            Respuesta::Texto(_) => (Err(Interrupcion::Pendiente(p)), usadas),
        }
    } else {
        (Err(Interrupcion::Pendiente(p)), usadas)
    }
}

/// The next answer, if it is a text; else the run waits for one.
pub open spec fn texto_pedido(p: PedidoVista, respuestas: Seq<Respuesta>, usadas: nat) -> Consulta<
    Seq<char>,
> {
    if usadas < respuestas.len() {
        match respuestas[usadas as int] {
            Respuesta::Texto(t) => (Ok(t@), usadas + 1),
            Respuesta::Numero(_) => (Err(Interrupcion::Pendiente(p)), usadas),
        }
    } else {
        (Err(Interrupcion::Pendiente(p)), usadas)
    }
}

impl<'a> Sesion<'a> {
    /// Whether two moments of a run differ at most in the answers used.
    pub open spec fn salvo_consultas(self, otra: Sesion<'a>) -> bool {
        self.entorno() == otra.entorno() && self.store == otra.store
    }

    /// Takes the next answer, which is to be a number.
    pub fn pedir_numero(&mut self, p: Pedido) -> (r: Result<Decimal, Corte>)
        ensures
            final(self).salvo_consultas(*old(self)),
            (vista_decimal(r), final(self).usadas as nat) == numero_pedido(
                p@,
                old(self).respuestas@,
                old(self).usadas as nat,
            ),
    {
        if self.usadas < self.respuestas.len() {
            match &self.respuestas[self.usadas] {
                Respuesta::Numero(d) => {
                    self.usadas = self.usadas + 1;
                    Ok(*d)
                },
                Respuesta::Texto(_) => Err(Corte::Pendiente(p)),
            }
        } else {
            Err(Corte::Pendiente(p))
        }
    }

    /// Takes the next answer, which is to be a text.
    pub fn pedir_texto(&mut self, p: Pedido) -> (r: Result<String, Corte>)
        ensures
            final(self).salvo_consultas(*old(self)),
            (vista_texto(r), final(self).usadas as nat) == texto_pedido(
                p@,
                old(self).respuestas@,
                old(self).usadas as nat,
            ),
    {
        if self.usadas < self.respuestas.len() {
            match &self.respuestas[self.usadas] {
                Respuesta::Texto(t) => {
                    let texto = t.clone();
                    self.usadas = self.usadas + 1;
                    Ok(texto)
                },
                Respuesta::Numero(_) => Err(Corte::Pendiente(p)),
            }
        } else {
            Err(Corte::Pendiente(p))
        }
    }
}

} // verus!
