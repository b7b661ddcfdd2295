use vstd::prelude::*;

verus! {

/// Errores de las operaciones del mus.
#[derive(Debug, Clone, Copy, PartialEq, Eq, Structural)]
pub enum MusError {
    /// El carácter no representa ninguna carta.
    CaracterNoValido(char),
    /// El valor no se corresponde con ninguna carta.
    ValorNoValido(u8),
    /// La acción no se puede realizar en el estado actual.
    AccionNoValida,
}

} // verus!
