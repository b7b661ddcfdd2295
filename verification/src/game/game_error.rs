use vstd::prelude::*;

verus! {

/// Errores de la configuración de los juegos.
#[derive(Debug, Clone, PartialEq, Eq)]
pub enum GameError {
    /// El método de entrenamiento indicado no existe. Contiene el texto recibido.
    InvalidCfrMethod(String),
}

} // verus!
