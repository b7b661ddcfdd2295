//! Juegos en forma extensiva: tipos de nodo, métodos de entrenamiento y árboles de acciones.
mod cfr;
pub use cfr::{NodeType, CfrMethod, minuscula, en_minusculas, metodo_de_texto};

mod game_error;
pub use game_error::GameError;

mod action_tree;
pub use action_tree::{ActionNode, primer_hijo, siguiente, buscar, lema_primer_hijo_prefijo, lema_buscar_concatenado};

mod grafo;
pub use grafo::{topological_order, veces_hijo, aristas_pendientes, total_aristas, es_padre, grafo_con_raiz};
