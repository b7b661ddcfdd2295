use vstd::prelude::*;

use crate::game::NodeType;
use crate::mus::{Accion, Carta, FasePartida, Lance, Mano, juego_spec, pares_spec};

use super::TrainerConfig;

verus! {

/// Juegos para los que se entrena una estrategia.
#[derive(Debug, Clone, Copy, PartialEq, Eq, Structural)]
pub enum GameType {
    LanceGame(Lance),
    LanceGameTwoHands(Lance),
    MusGame,
    MusGameTwoHands,
    MusGameTwoPlayers,
}

impl GameType {
    /// Número de manos que se reparten en las partidas completas. No coincide necesariamente con
    /// el número de jugadores que deciden: `MusGameTwoHands` reparte cuatro manos y las agrupa
    /// por parejas.
    pub fn num_hands(&self) -> (n: usize)
        requires
            !(*self is LanceGame),
            !(*self is LanceGameTwoHands),
        ensures
            n == (if *self == GameType::MusGameTwoPlayers {
                2usize
            } else {
                4usize
            }),
    {
        match self {
            GameType::MusGame | GameType::MusGameTwoHands => 4,
            _ => 2,
        }
    }
}

/// Configuración del juego entrenado.
#[derive(Debug, Clone)]
pub struct GameConfig {
    pub game_type: GameType,
    pub abstract_game: bool,
    pub max_mus_rounds: u8,
}

/// Configuración completa de una estrategia: entrenamiento y juego.
#[derive(Debug, Clone)]
pub struct StrategyConfig {
    pub trainer_config: TrainerConfig,
    pub game_config: GameConfig,
}

/// Configuración de una mano: si tiene pares y si tiene juego.
#[derive(Debug, Clone, Copy, PartialEq, Eq, Structural)]
pub struct HandConfig {
    pub pares: bool,
    pub juego: bool,
}

impl HandConfig {
    /// Configuración de una mano concreta.
    pub fn of(mano: &Mano) -> (c: Self)
        ensures
            c.pares == pares_spec(mano@) is Some,
            c.juego == juego_spec(mano@) is Some,
    {
        HandConfig { pares: mano.pares().is_some(), juego: mano.juego().is_some() }
    }

    /// Indica si la mano tiene los mismos pares y juego que esta configuración.
    pub fn matches(&self, mano: &Mano) -> (r: bool)
        ensures
            r == (self.pares == (pares_spec(mano@) is Some) && self.juego == (juego_spec(
                mano@,
            ) is Some)),
    {
        let c = Self::of(mano);
        self.pares == c.pares && self.juego == c.juego
    }
}

/// Nodo en el que está el cursor de una estrategia: se juega con unas acciones, se descarta o
/// ha terminado la partida.
pub enum CursorNode {
    Play(Vec<Accion>),
    Discard,
    Terminal,
}

/// Descarte en el cursor: un número de cartas o las cartas concretas.
#[derive(Debug, Clone)]
pub enum DiscardAction {
    Count(usize),
    Cards(Vec<Carta>),
}

/// Movimiento del cursor: una acción o un descarte.
#[derive(Debug, Clone)]
pub enum CursorMove {
    Play(Accion),
    Discard(DiscardAction),
}

impl DiscardAction {
    /// Número de cartas descartadas.
    pub fn len(&self) -> (n: usize)
        ensures
            n as int == match self {
                DiscardAction::Count(k) => *k as int,
                DiscardAction::Cards(c) => c@.len() as int,
            },
    {
        match self {
            DiscardAction::Count(num_descartes) => *num_descartes,
            DiscardAction::Cards(cartas) => cartas.len(),
        }
    }

    /// Indica si no se descarta ninguna carta.
    pub fn is_empty(&self) -> (r: bool)
        ensures
            r == (match self {
                DiscardAction::Count(k) => *k == 0,
                DiscardAction::Cards(c) => c@.len() == 0,
            }),
    {
        self.len() == 0
    }
}

/// Estado de la partida en un nodo de la estrategia: fase, tipo de nodo y acciones.
pub struct GameStateResult(pub FasePartida, pub NodeType, pub Vec<Accion>);

} // verus!
