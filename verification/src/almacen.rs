//! The variables of a program: the store that outlives a call, and the scope
//! of one call.

use vstd::hash_map::StringHashMap;
use vstd::prelude::*;

use crate::json::{Json, ValorJson};
use crate::valor::{Valor, ValorGUI};

verus! {

/// Whether a name is in a list of names.
spec fn figura(nombres: Seq<String>, nombre: Seq<char>) -> bool {
    exists|i: int| 0 <= i < nombres.len() && #[trigger] nombres[i]@ == nombre
}

/// The variables that outlive a call, by name, with their JSON values.
pub struct VariableStore {
    nombres: Vec<String>,
    variables: StringHashMap<ValorJson>,
}

impl View for VariableStore {
    type V = Map<Seq<char>, Json>;

    closed spec fn view(&self) -> Map<Seq<char>, Json> {
        self.variables@.map_values(|j: ValorJson| j@)
    }
}

impl VariableStore {
    /// The list of names holds the names of the variables.
    #[verifier::type_invariant]
    closed spec fn nombres_al_dia(self) -> bool {
        &&& forall|k: Seq<char>| #[trigger]
            self.variables@.contains_key(k) ==> figura(self.nombres@, k)
        &&& forall|i: int|
            0 <= i < self.nombres@.len() ==> self.variables@.contains_key(
                #[trigger] self.nombres@[i]@,
            )
    }

    /// A store without variables.
    pub fn new() -> (r: Self)
        ensures
            r@ == Map::<Seq<char>, Json>::empty(),
    {
        let r = VariableStore { nombres: Vec::new(), variables: StringHashMap::new() };
        assert(r@ =~= Map::<Seq<char>, Json>::empty());
        r
    }

    /// The value of a variable, if there is such a variable.
    pub fn get(&self, name: &str) -> (r: Option<ValorJson>)
        ensures
            r is Some <==> self@.contains_key(name@),
            r matches Some(v) ==> v@ == self@[name@],
    {
        match self.variables.get(name) {
            Some(v) => Some(v.clone()),
            None => None,
        }
    }

    /// Gives a variable a value, and makes the variable if there was none.
    pub fn set(&mut self, name: &str, value: ValorJson)
        ensures
            final(self)@ == old(self)@.insert(name@, value@),
    {
        proof {
            use_type_invariant(&*self);
        }
        let mut previo = VariableStore::new();
        std::mem::swap(self, &mut previo);
        let mut nombres = previo.nombres;
        let mut variables = previo.variables;
        let ghost nombres0 = nombres@;
        let ghost variables0 = variables@;
        if !variables.contains_key(name) {
            nombres.push(name.to_string());
        }
        variables.insert(name.to_string(), value);
        proof {
            assert forall|k: Seq<char>| #[trigger] variables@.contains_key(k) implies figura(
                nombres@,
                k,
            ) by {
                if variables0.contains_key(k) {
                    assert(figura(nombres0, k));
                    let i = choose|i: int| 0 <= i < nombres0.len() && #[trigger] nombres0[i]@ == k;
                    assert(nombres@[i]@ == k);
                } else {
                    assert(nombres@[nombres@.len() - 1]@ == k);
                }
            }
            assert forall|i: int| 0 <= i < nombres@.len() implies variables@.contains_key(
                #[trigger] nombres@[i]@,
            ) by {
                if i < nombres0.len() {
                    assert(nombres@[i] == nombres0[i]);
                    assert(variables0.contains_key(nombres0[i]@));
                }
            }
        }
        *self = VariableStore { nombres, variables };
        assert(self@ =~= old(self)@.insert(name@, value@));
    }

    /// Whether there is a variable of that name.
    pub fn contains(&self, name: &str) -> (r: bool)
        ensures
            r == self@.contains_key(name@),
    {
        self.variables.contains_key(name)
    }
}

impl Default for VariableStore {
    fn default() -> (r: Self)
        ensures
            r@ == Map::<Seq<char>, Json>::empty(),
    {
        Self::new()
    }
}

impl VariableStore {
    /// A store of its own with the same variables.
    pub fn copia(&self) -> (r: Self)
        ensures
            r@ == self@,
    {
        proof {
            use_type_invariant(self);
        }
        let mut copia = VariableStore::new();
        let mut i: usize = 0;
        while i < self.nombres.len()
            invariant
                i <= self.nombres@.len(),
                self.nombres_al_dia(),
                forall|k: Seq<char>| #[trigger] copia@.contains_key(k) ==> self@.contains_key(k)
                    && copia@[k] == self@[k],
                forall|j: int| 0 <= j < i ==> copia@.contains_key(#[trigger] self.nombres@[j]@),
            decreases self.nombres@.len() - i,
        {
            let nombre = &self.nombres[i];
            assert(self.nombres@[i as int]@ == nombre@);
            match self.get(nombre.as_str()) {
                Some(v) => {
                    copia.set(nombre.as_str(), v);
                },
                None => {
                    assert(self.variables@.contains_key(nombre@));
                },
            }
            i = i + 1;
        }
        assert forall|k: Seq<char>| #[trigger] self@.contains_key(k) implies copia@.contains_key(
            k,
        ) by {
            assert(self.variables@.contains_key(k));
            assert(figura(self.nombres@, k));
            let j = choose|j: int| 0 <= j < self.nombres@.len() && #[trigger] self.nombres@[j]@ == k;
            assert(copia@.contains_key(self.nombres@[j]@));
        }
        assert(copia@ =~= self@);
        copia
    }
}

/// The variables of one call, by name.
pub struct Ambito {
    variables: StringHashMap<ValorGUI>,
}

impl View for Ambito {
    type V = Map<Seq<char>, Valor>;

    closed spec fn view(&self) -> Map<Seq<char>, Valor> {
        self.variables@.map_values(|v: ValorGUI| v@)
    }
}

impl Ambito {
    /// A scope without variables.
    pub fn new() -> (r: Self)
        ensures
            r@ == Map::<Seq<char>, Valor>::empty(),
    {
        let r = Ambito { variables: StringHashMap::new() };
        assert(r@ =~= Map::<Seq<char>, Valor>::empty());
        r
    }

    /// The value of a variable, if there is such a variable.
    pub fn obtener(&self, nombre: &str) -> (r: Option<&ValorGUI>)
        ensures
            r is Some <==> self@.contains_key(nombre@),
            r matches Some(v) ==> v@ == self@[nombre@],
    {
        self.variables.get(nombre)
    }

    /// Gives a variable a value, and makes the variable if there was none.
    pub fn asignar(&mut self, nombre: String, valor: ValorGUI)
        ensures
            final(self)@ == old(self)@.insert(nombre@, valor@),
    {
        self.variables.insert(nombre, valor);
        assert(self@ =~= old(self)@.insert(nombre@, valor@));
    }
}

} // verus!
