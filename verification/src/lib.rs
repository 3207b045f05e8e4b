use vstd::prelude::*;

pub mod almacen;
pub mod ast;
pub mod avance;
pub mod constancia;
pub mod decimal;
pub mod dibujo;
pub mod evaluador;
pub mod json;
pub mod layout;
pub mod leyes;
pub mod leyes_clicks;
pub mod leyes_dibujo;
pub mod leyes_gui;
pub mod leyes_layout;
pub mod leyes_numeros;
pub mod leyes_operadores;
pub mod leyes_programas;
pub mod lienzo;
pub mod operaciones;
pub mod semantica;
pub mod sesion;
pub mod texto;
pub mod valor;
pub mod ventana;

verus! {

/// The name and version of the runtime.
pub fn version() -> (r: String)
    ensures
        r@ == "forja-wasm-gui v0.1.0"@,
{
    "forja-wasm-gui v0.1.0".to_string()
}

} // verus!
