pub mod colecciones;
pub mod game;
pub mod mus;
pub mod solver;

pub use game::{ActionNode, CfrMethod, GameError, NodeType};
