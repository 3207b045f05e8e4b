//! The values of the language.

use vstd::prelude::*;

use crate::decimal::Decimal;
use crate::texto::mismo_texto;

verus! {

/// A value of the language.
#[derive(Debug)]
pub enum ValorGUI {
    Texto(String),
    Entero(i64),
    Decimal(Decimal),
    Booleano(bool),
    Nulo,
}

/// What a [`ValorGUI`] stands for.
pub enum Valor {
    Texto(Seq<char>),
    Entero(int),
    Decimal(Decimal),
    Booleano(bool),
    Nulo,
}

impl View for ValorGUI {
    type V = Valor;

    open spec fn view(&self) -> Valor {
        match *self {
            ValorGUI::Texto(t) => Valor::Texto(t@),
            ValorGUI::Entero(n) => Valor::Entero(n as int),
            ValorGUI::Decimal(d) => Valor::Decimal(d),
            ValorGUI::Booleano(b) => Valor::Booleano(b),
            ValorGUI::Nulo => Valor::Nulo,
        }
    }
}

impl Valor {
    /// Whether the value counts as true in a condition: a true boolean, a
    /// number other than zero, a text that is not empty.
    pub open spec fn verdadero(self) -> bool {
        match self {
            Valor::Booleano(b) => b,
            Valor::Entero(n) => n != 0,
            Valor::Decimal(d) => !d.cero(),
            Valor::Texto(t) => t.len() != 0,
            Valor::Nulo => false,
        }
    }

    /// Equality of values. Values of different kinds are never equal, not even
    /// a whole number and the decimal of the same size.
    pub open spec fn igual(self, otro: Valor) -> bool {
        match (self, otro) {
            (Valor::Decimal(a), Valor::Decimal(b)) => a.igual_spec(b),
            _ => self == otro,
        }
    }
}

impl ValorGUI {
    /// Whether the value counts as true in a condition.
    pub fn es_verdadero(&self) -> (r: bool)
        ensures
            r == self@.verdadero(),
    {
        match self {
            ValorGUI::Booleano(b) => *b,
            ValorGUI::Entero(n) => *n != 0,
            ValorGUI::Decimal(d) => !d.es_cero(),
            ValorGUI::Texto(t) => !t.as_str().is_empty(),
            ValorGUI::Nulo => false,
        }
    }

    /// Whether this is the null value.
    pub fn es_nulo(&self) -> (r: bool)
        ensures
            r == (self@ == Valor::Nulo),
    {
        match self {
            ValorGUI::Nulo => true,
            _ => false,
        }
    }

    /// Whether two values are equal in the language.
    pub fn igual(&self, otro: &ValorGUI) -> (r: bool)
        ensures
            r == self@.igual(otro@),
    {
        match (self, otro) {
            (ValorGUI::Texto(a), ValorGUI::Texto(b)) => mismo_texto(a.as_str(), b.as_str()),
            (ValorGUI::Entero(a), ValorGUI::Entero(b)) => *a == *b,
            (ValorGUI::Decimal(a), ValorGUI::Decimal(b)) => a.igual(b),
            (ValorGUI::Booleano(a), ValorGUI::Booleano(b)) => *a == *b,
            (ValorGUI::Nulo, ValorGUI::Nulo) => true,
            _ => false,
        }
    }
}

impl Clone for ValorGUI {
    fn clone(&self) -> (r: Self)
        ensures
            r@ == self@,
    {
        match self {
            ValorGUI::Texto(t) => ValorGUI::Texto(t.clone()),
            ValorGUI::Entero(n) => ValorGUI::Entero(*n),
            ValorGUI::Decimal(d) => ValorGUI::Decimal(*d),
            ValorGUI::Booleano(b) => ValorGUI::Booleano(*b),
            ValorGUI::Nulo => ValorGUI::Nulo,
        }
    }
}

impl PartialEq for ValorGUI {
    fn eq(&self, other: &Self) -> (r: bool) {
        self.igual(other)
    }
}

impl vstd::std_specs::cmp::PartialEqSpecImpl for ValorGUI {
    open spec fn obeys_eq_spec() -> bool {
        true
    }

    open spec fn eq_spec(&self, other: &Self) -> bool {
        self@.igual(other@)
    }
}

/// Whether a value is one that the language has: its integers have 64 bits.
pub open spec fn del_lenguaje(v: Valor) -> bool {
    v matches Valor::Entero(n) ==> i64::MIN <= n <= i64::MAX
}

/// The views of a sequence of values.
pub open spec fn vistas(valores: Seq<ValorGUI>) -> Seq<Valor> {
    Seq::new(valores.len(), |i: int| valores[i]@)
}

} // verus!
