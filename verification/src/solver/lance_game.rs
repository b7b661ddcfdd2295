use std::sync::Arc;

use arrayvec::ArrayVec;
use vstd::prelude::*;

use crate::colecciones::{acciones_de, acciones_get, acciones_len, compartir, push_char};
use crate::game::NodeType;
use crate::mus::{Accion, Apuesta, Baraja, Carta, CuatroJugadores, EstadoLance, FaseEnvites, Lance, Mano, ModeloBaraja, Turno, MAX_TANTOS, mano_ordenada_de, alguna_con_jugada, jugador_de, lema_turno_cuatro_manos, manos_de_partida, tiene_jugada, tantos_mano_spec, turno_inicial_spec, vistas};

use super::{MusInfoSetTables, repartida_de_baraja, acciones_completas, full_actions, no_menores, retener_no_menores};

verus! {

/// Representación de las distintas configuraciones de las manos en un lance de mus.
#[derive(Debug, Clone, Copy, PartialEq, Eq, Structural)]
pub enum HandConfiguration {
    /// Cuatro manos en juego: todos los jugadores participan en el lance. Es la única
    /// configuración posible en grande, chica y punto.
    CuatroManos,
    /// Tres manos en juego y el primero en hablar es el jugador que no tiene pareja.
    TresManos1vs2,
    /// Tres manos en juego y el primero en hablar es el jugador que no tiene pareja, pero está
    /// situado entre los dos jugadores de la pareja rival.
    TresManos1vs2Intermedio,
    /// Tres manos en juego y habla primero la pareja.
    TresManos2vs1,
    /// Dos manos en juego.
    DosManos,
    /// El lance no se juega: solo una pareja tiene jugadas.
    SinLance,
}

/// Texto con que se escribe cada configuración: los jugadores de cada bando separados por
/// guiones.
pub open spec fn texto_configuracion(c: HandConfiguration) -> Seq<char> {
    match c {
        HandConfiguration::CuatroManos => seq!['2', '-', '2'],
        HandConfiguration::TresManos1vs2 => seq!['1', '-', '2'],
        HandConfiguration::TresManos1vs2Intermedio => seq!['1', '-', '1', '-', '1'],
        HandConfiguration::TresManos2vs1 => seq!['2', '-', '1'],
        HandConfiguration::DosManos => seq!['1', '-', '1'],
        HandConfiguration::SinLance => seq!['-'],
    }
}

/// Código de cada configuración en los conjuntos de información.
pub open spec fn codigo_configuracion(c: HandConfiguration) -> u64 {
    match c {
        HandConfiguration::CuatroManos => 0,
        HandConfiguration::TresManos1vs2 => 1,
        HandConfiguration::TresManos1vs2Intermedio => 2,
        HandConfiguration::TresManos2vs1 => 3,
        HandConfiguration::DosManos => 4,
        HandConfiguration::SinLance => 5,
    }
}

/// Jugadores que participan en el lance con cada configuración, numerados desde el mano.
pub open spec fn jugadores_configuracion(c: HandConfiguration) -> Seq<u8> {
    match c {
        HandConfiguration::CuatroManos => seq![0u8, 1u8, 2u8, 3u8],
        HandConfiguration::TresManos1vs2 => seq![0u8, 1u8, 3u8],
        HandConfiguration::TresManos1vs2Intermedio => seq![0u8, 1u8, 2u8],
        HandConfiguration::TresManos2vs1 => seq![0u8, 2u8, 3u8],
        HandConfiguration::DosManos => seq![0u8, 1u8],
        HandConfiguration::SinLance => seq![0u8, 2u8],
    }
}

impl HandConfiguration {
    /// Texto de la configuración: ver [`texto_configuracion`].
    pub fn to_string(&self) -> (s: String)
        ensures
            s@ == texto_configuracion(*self),
    {
        let mut s = String::new();
        match self {
            HandConfiguration::CuatroManos => {
                push_char(&mut s, '2');
                push_char(&mut s, '-');
                push_char(&mut s, '2');
            },
            HandConfiguration::TresManos1vs2 => {
                push_char(&mut s, '1');
                push_char(&mut s, '-');
                push_char(&mut s, '2');
            },
            HandConfiguration::TresManos1vs2Intermedio => {
                push_char(&mut s, '1');
                push_char(&mut s, '-');
                push_char(&mut s, '1');
                push_char(&mut s, '-');
                push_char(&mut s, '1');
            },
            HandConfiguration::TresManos2vs1 => {
                push_char(&mut s, '2');
                push_char(&mut s, '-');
                push_char(&mut s, '1');
            },
            HandConfiguration::DosManos => {
                push_char(&mut s, '1');
                push_char(&mut s, '-');
                push_char(&mut s, '1');
            },
            HandConfiguration::SinLance => {
                push_char(&mut s, '-');
            },
        }
        proof {
            assert(s@ =~= texto_configuracion(*self));
        }
        s
    }
}

/// Código de la configuración de manos en los conjuntos de información.
pub fn hand_config_code(config: HandConfiguration) -> (c: u64)
    ensures
        c == codigo_configuracion(config),
{
    match config {
        HandConfiguration::CuatroManos => 0,
        HandConfiguration::TresManos1vs2 => 1,
        HandConfiguration::TresManos1vs2Intermedio => 2,
        HandConfiguration::TresManos2vs1 => 3,
        HandConfiguration::DosManos => 4,
        HandConfiguration::SinLance => 5,
    }
}

/// Qué manos tienen jugada en el lance. En grande, chica y punto la tienen todas.
pub open spec fn jugadas_de(l: Lance, manos: Seq<Seq<Carta>>) -> Seq<bool> {
    Seq::new(4, |i: int| tiene_jugada(l, manos[i]))
}

/// Índices, en orden, de las manos con jugada de la pareja `p`: la del mano (0 y 2) o la del
/// postre (1 y 3).
pub open spec fn con_jugada_de_pareja(j: Seq<bool>, p: int) -> Seq<usize> {
    let a: Seq<usize> = if j[p] {
        seq![p as usize]
    } else {
        Seq::empty()
    };
    if j[p + 2] {
        a.push((p + 2) as usize)
    } else {
        a
    }
}

/// Las dos parejas con sus manos con jugada, primero la que habla primero: la del mano, salvo
/// que tengan jugada el 1 y el 2 pero no el 3.
pub open spec fn parejas_normalizadas(j: Seq<bool>) -> (Seq<usize>, Seq<usize>) {
    let pm = con_jugada_de_pareja(j, 0);
    let pp = con_jugada_de_pareja(j, 1);
    if j[1] && j[2] && !j[3] {
        (pp, pm)
    } else {
        (pm, pp)
    }
}

/// Configuración que corresponde a las manos con jugada.
pub open spec fn configuracion_de(j: Seq<bool>) -> HandConfiguration {
    let (pm, pp) = parejas_normalizadas(j);
    if pm.len() == 2 && pp.len() == 2 {
        HandConfiguration::CuatroManos
    } else if pm.len() == 1 && pp.len() == 1 {
        HandConfiguration::DosManos
    } else if pm.len() == 2 && pp.len() == 1 {
        HandConfiguration::TresManos2vs1
    } else if pm.len() == 1 && pp.len() == 2 {
        if !j[2] {
            HandConfiguration::TresManos1vs2
        } else {
            HandConfiguration::TresManos1vs2Intermedio
        }
    } else {
        HandConfiguration::SinLance
    }
}

/// Índices de las manos de una pareja: la primera, y la segunda si la hay. Una pareja sin manos
/// en el lance, que solo se da cuando el lance no se juega, queda representada por la mano
/// `propia` sola.
pub open spec fn indices_pareja(p: Seq<usize>, propia: usize) -> (usize, Option<usize>) {
    if p.len() == 0 {
        (propia, None)
    } else {
        (
            p[0],
            if p.len() == 2 {
                Some(p[1])
            } else {
                None
            },
        )
    }
}

/// Manos con las que se puede normalizar un lance: en pares y juego, cada pareja tiene alguna
/// mano con jugada.
pub open spec fn normalizable(l: Lance, manos: Seq<Seq<Carta>>) -> bool {
    (l == Lance::Pares || l == Lance::Juego) ==> alguna_con_jugada(l, manos, Some(0))
        && alguna_con_jugada(l, manos, Some(1))
}

/// Texto de una mano: sus cartas.
pub open spec fn texto_mano(m: Seq<Carta>) -> Seq<char> {
    m.map_values(|c: Carta| c.char_spec())
}

/// Manos de una mesa de mus agrupadas por parejas, con solo las manos relevantes para un lance,
/// y la configuración de manos que forman.
///
/// En los lances grande, chica y punto participan todos los jugadores, lo que se representa con
/// la variante `CuatroManos`. En pares y juego participan quienes tienen jugada. Numerando los
/// jugadores del 0 (mano) al 3 (postre):
///
/// * 0-1-2-3: `CuatroManos`.
/// * 0-1-2 y 1-2-3: `TresManos1vs2Intermedio`.
/// * 0-2-3: `TresManos2vs1`.
/// * 0-1-3: `TresManos1vs2`.
/// * 0-1, 1-2, 2-3, 0-3: `DosManos`.
///
/// En los casos de tres manos, si el jugador que está solo es el primero en hablar es un caso
/// 1vs2; si es el último, 2vs1; y si está en una posición intermedia, 1vs2Intermedio: se supone
/// que el mano pasa y deja la voz al jugador que está solo.
pub struct ManosNormalizadas<'a> {
    hand_configuration: HandConfiguration,
    idx_hands: [(usize, Option<usize>); 2],
    hands: &'a [Mano; 4],
}

impl<'a> ManosNormalizadas<'a> {
    #[verifier::type_invariant]
    spec fn inv(self) -> bool {
        forall|p: int|
            0 <= p < 2 ==> (#[trigger] self.idx_hands[p]).0 < 4 && (self.idx_hands[p].1 matches Some(
                k,
            ) ==> k < 4)
    }

    /// Configuración de las manos.
    pub closed spec fn configuracion(self) -> HandConfiguration {
        self.hand_configuration
    }

    /// Índices de las manos de la pareja `p`: 0 la que habla primero y 1 la otra.
    pub closed spec fn indices(self, p: int) -> (usize, Option<usize>) {
        self.idx_hands[p]
    }

    /// Las cuatro manos de la mesa.
    pub closed spec fn mesa(self) -> Seq<Seq<Carta>> {
        vistas(self.hands@)
    }

    /// Normaliza las manos de una mesa de mus para el lance: agrupa por parejas las manos que
    /// participan, primero la pareja que habla primero, y da la configuración que forman. Si
    /// alguna pareja no tiene jugada el lance no se juega y la configuración es `SinLance`.
    pub fn normalizar_mano(m: &'a [Mano; 4], l: &Lance) -> (r: Self)
        ensures
            r.configuracion() == configuracion_de(jugadas_de(*l, vistas(m@))),
            !normalizable(*l, vistas(m@)) ==> r.configuracion() == HandConfiguration::SinLance,
            r.indices(0) == indices_pareja(parejas_normalizadas(jugadas_de(*l, vistas(m@))).0, 0),
            r.indices(1) == indices_pareja(parejas_normalizadas(jugadas_de(*l, vistas(m@))).1, 1),
            r.mesa() == vistas(m@),
    {
        let ghost j = jugadas_de(*l, vistas(m@));
        let j0 = l.tiene_jugada(&m[0]);
        let j1 = l.tiene_jugada(&m[1]);
        let j2 = l.tiene_jugada(&m[2]);
        let j3 = l.tiene_jugada(&m[3]);
        proof {
            assert(vistas(m@)[0] == m@[0]@);
            assert(vistas(m@)[1] == m@[1]@);
            assert(vistas(m@)[2] == m@[2]@);
            assert(vistas(m@)[3] == m@[3]@);
            assert(j[0] == j0 && j[1] == j1 && j[2] == j2 && j[3] == j3);
        }
        let mut pareja_mano: Vec<usize> = Vec::new();
        let mut pareja_postre: Vec<usize> = Vec::new();
        if j0 {
            pareja_mano.push(0);
        }
        if j2 {
            pareja_mano.push(2);
        }
        if j1 {
            pareja_postre.push(1);
        }
        if j3 {
            pareja_postre.push(3);
        }
        proof {
            assert(pareja_mano@ =~= con_jugada_de_pareja(j, 0));
            assert(pareja_postre@ =~= con_jugada_de_pareja(j, 1));
            if j0 {
                assert(tiene_jugada(*l, vistas(m@)[0]));
            }
            if j2 {
                assert(tiene_jugada(*l, vistas(m@)[2]));
            }
            if j1 {
                assert(tiene_jugada(*l, vistas(m@)[1]));
            }
            if j3 {
                assert(tiene_jugada(*l, vistas(m@)[3]));
            }
        }
        if j1 && j2 && !j3 {
            let tmp = pareja_mano;
            pareja_mano = pareja_postre;
            pareja_postre = tmp;
        }
        let hand_configuration = if pareja_mano.len() == 2 && pareja_postre.len() == 2 {
            HandConfiguration::CuatroManos
        } else if pareja_mano.len() == 1 && pareja_postre.len() == 1 {
            HandConfiguration::DosManos
        } else if pareja_mano.len() == 2 && pareja_postre.len() == 1 {
            HandConfiguration::TresManos2vs1
        } else if pareja_mano.len() == 1 && pareja_postre.len() == 2 {
            if !j2 {
                HandConfiguration::TresManos1vs2
            } else {
                HandConfiguration::TresManos1vs2Intermedio
            }
        } else {
            HandConfiguration::SinLance
        };
        let segunda_mano = if pareja_mano.len() == 2 {
            Some(pareja_mano[1])
        } else {
            None
        };
        let segunda_postre = if pareja_postre.len() == 2 {
            Some(pareja_postre[1])
        } else {
            None
        };
        let primera_mano = if pareja_mano.len() == 0 {
            0
        } else {
            pareja_mano[0]
        };
        let primera_postre = if pareja_postre.len() == 0 {
            1
        } else {
            pareja_postre[0]
        };
        let idx_hands = [(primera_mano, segunda_mano), (primera_postre, segunda_postre)];
        ManosNormalizadas { hand_configuration, idx_hands, hands: m }
    }

    /// Manos de la pareja `p`: 0 la que habla primero y 1 la otra. La segunda mano solo está si
    /// los dos jugadores de la pareja participan.
    pub fn manos(&self, p: usize) -> (r: (&Mano, Option<&Mano>))
        requires
            p < 2,
        ensures
            r.0@ == self.mesa()[self.indices(p as int).0 as int],
            match self.indices(p as int).1 {
                Some(k) => r.1 matches Some(m) && m@ == self.mesa()[k as int],
                None => r.1 is None,
            },
    {
        proof {
            use_type_invariant(self);
            assert(self.idx_hands[p as int] == self.idx_hands@[p as int]);
        }
        let idx_player = self.idx_hands[p];
        proof {
            assert(vistas(self.hands@)[idx_player.0 as int] == self.hands@[idx_player.0 as int]@);
        }
        let segunda = match idx_player.1 {
            Some(idx) => {
                proof {
                    assert(vistas(self.hands@)[idx as int] == self.hands@[idx as int]@);
                }
                Some(&self.hands[idx])
            },
            None => None,
        };
        (&self.hands[idx_player.0], segunda)
    }

    /// Configuración de las manos.
    pub fn hand_configuration(&self) -> (c: HandConfiguration)
        ensures
            c == self.configuracion(),
    {
        self.hand_configuration
    }

    /// Pareja de la primera mano: 0 si es la del mano y 1 si es la del postre.
    pub fn pareja_mano(&self) -> (p: usize)
        ensures
            p == (if self.indices(0).0 % 2 == 0 {
                0usize
            } else {
                1usize
            }),
    {
        if self.idx_hands[0].0 % 2 == 0 {
            0
        } else {
            1
        }
    }

    /// Texto de dos manos separadas por una coma; la segunda puede faltar.
    pub fn par_manos_to_string(mano1: &Mano, mano2: Option<&Mano>) -> (s: String)
        ensures
            s@ == texto_mano(mano1@) + seq![','] + match mano2 {
                Some(m) => texto_mano(m@),
                None => Seq::<char>::empty(),
            },
    {
        let mut s = String::new();
        escribir_mano(&mut s, mano1);
        push_char(&mut s, ',');
        match mano2 {
            Some(m) => escribir_mano(&mut s, m),
            None => {},
        }
        proof {
            assert(s@ =~= texto_mano(mano1@) + seq![','] + match mano2 {
                Some(m) => texto_mano(m@),
                None => Seq::<char>::empty(),
            });
        }
        s
    }

    /// Textos de las manos de las dos parejas: ver [`ManosNormalizadas::par_manos_to_string`].
    pub fn to_string_array(&self) -> (r: [String; 2])
        ensures
            forall|p: int|
                0 <= p < 2 ==> (#[trigger] r@[p])@ == texto_mano(
                    self.mesa()[self.indices(p).0 as int],
                ) + seq![','] + match self.indices(p).1 {
                    Some(k) => texto_mano(self.mesa()[k as int]),
                    None => Seq::<char>::empty(),
                },
    {
        let (a0, b0) = self.manos(0);
        let (a1, b1) = self.manos(1);
        let r = [Self::par_manos_to_string(a0, b0), Self::par_manos_to_string(a1, b1)];
        proof {
            assert forall|p: int| 0 <= p < 2 implies (#[trigger] r@[p])@ == texto_mano(
                self.mesa()[self.indices(p).0 as int],
            ) + seq![','] + match self.indices(p).1 {
                Some(k) => texto_mano(self.mesa()[k as int]),
                None => Seq::<char>::empty(),
            } by {
                if p == 0 {
                    assert(r@[0] == r[0]);
                } else {
                    assert(r@[1] == r[1]);
                }
            }
        }
        r
    }
}

/// Escribe las cartas de la mano al final del texto.
fn escribir_mano(s: &mut String, m: &Mano)
    ensures
        final(s)@ == old(s)@ + texto_mano(m@),
{
    let c = m.cartas();
    let ghost inicio = s@;
    for i in 0..c.len()
        invariant
            c@ == m@,
            s@ == inicio + texto_mano(c@.take(i as int)),
    {
        push_char(s, c[i].to_char());
        proof {
            assert(texto_mano(c@.take(i + 1)) =~= texto_mano(c@.take(i as int)).push(
                c@[i as int].char_spec(),
            ));
        }
    }
    proof {
        assert(c@.take(c@.len() as int) =~= c@);
    }
}

/// Anchura en bits del código de la configuración de manos en la parte pública del conjunto de
/// información.
pub const HAND_CONFIG_WIDTH: u32 = 3;
/// Anchura en bits del código de la acción oculta.
pub const HIDDEN_ACTION_WIDTH: u32 = 3;
/// Anchura de cada acción pública acumulada en el historial de apuestas.
pub const ACTION_WIDTH: u32 = 3;

/// Campos de un juego de lance.
pub struct VistaLanceGame {
    pub lance: Lance,
    pub tantos: [u8; 2],
    pub estado: Option<EstadoLance>,
    pub pareja_mano: usize,
    pub abstract_game: bool,
    pub last_action: Option<Accion>,
    /// Parte privada del conjunto de información: la mano de cada jugador codificada.
    pub private_history: Seq<u64>,
    pub hand_config_code: u64,
    /// Acción del primer miembro de la pareja, pendiente de respuesta del compañero.
    pub hidden_action: u64,
    /// Historial de apuestas: cada acción pública añade [`ACTION_WIDTH`] bits.
    pub history: u64,
}

/// Parte pública del conjunto de información: configuración de manos, acción oculta e
/// historial de apuestas empaquetados en un `u64`.
pub open spec fn info_publica(v: VistaLanceGame) -> u64 {
    v.hand_config_code | (v.hidden_action << HAND_CONFIG_WIDTH) | (v.history << (HAND_CONFIG_WIDTH
        + HIDDEN_ACTION_WIDTH))
}

/// Acciones disponibles: las de la lista completa ante la última apuesta, salvo para el
/// compañero del primero de una pareja, que solo puede igualar o subir su acción.
pub open spec fn acciones_disponibles(v: VistaLanceGame) -> Seq<Accion> {
    match v.estado {
        Some(e) => {
            let l = acciones_completas(e.ultima_apuesta_spec());
            if e.turno_spec() == Some(Turno::Pareja(2)) || e.turno_spec() == Some(Turno::Pareja(3)) {
                no_menores(l, v.last_action.unwrap())
            } else {
                l
            }
        },
        None => Seq::empty(),
    }
}

/// `i` es la primera posición de la acción en la lista.
pub open spec fn es_primera(l: Seq<Accion>, a: Accion, i: int) -> bool {
    &&& 0 <= i < l.len()
    &&& l[i] == a
    &&& forall|k: int| 0 <= k < i ==> l[k] != a
}

/// Primera posición de la acción en la lista.
pub open spec fn posicion(l: Seq<Accion>, a: Accion) -> int {
    choose|i: int| es_primera(l, a, i)
}

/// Solo hay una primera posición.
pub proof fn lema_posicion_unica(l: Seq<Accion>, a: Accion, i: int, j: int)
    requires
        es_primera(l, a, i),
        es_primera(l, a, j),
    ensures
        i == j,
{
}

/// Juego tras actuar con la acción `a`. Su código es uno más que su posición en la lista
/// completa de acciones. La acción del primero de una pareja queda oculta para su compañero;
/// la de cualquier otro jugador cierra la acción de su pareja y pasa al historial público.
pub open spec fn tras_accion(v: VistaLanceGame, a: Accion) -> VistaLanceGame {
    let e = v.estado.unwrap();
    let codigo = (posicion(acciones_completas(e.ultima_apuesta_spec()), a) + 1) as u64;
    let primero = e.turno_spec() == Some(Turno::Pareja(0)) || e.turno_spec() == Some(
        Turno::Pareja(1),
    );
    VistaLanceGame {
        last_action: Some(a),
        hidden_action: if primero {
            codigo
        } else {
            0
        },
        history: if primero {
            v.history
        } else {
            (v.history << ACTION_WIDTH) | codigo
        },
        estado: Some(
            match e.paso(a) {
                Ok((e2, _)) => e2,
                Err(_) => e,
            },
        ),
        ..v
    }
}

/// Parte pública del conjunto de información tras una acción, bit a bit: la configuración de
/// manos en los tres bits bajos; si actúa el primero de una pareja, su código (la posición de la
/// acción en la lista completa más uno) en los tres siguientes y el historial intacto detrás; si
/// no, la acción oculta a cero y el código añadido al final del historial.
pub proof fn lema_bits_tras_accion(v: VistaLanceGame, a: Accion)
    requires
        v.estado matches Some(e) && e.turno_spec() is Some,
    ensures
        ({
            let e = v.estado.unwrap();
            let codigo = (posicion(acciones_completas(e.ultima_apuesta_spec()), a) + 1) as u64;
            if e.turno_spec() == Some(Turno::Pareja(0)) || e.turno_spec() == Some(Turno::Pareja(1)) {
                info_publica(tras_accion(v, a)) == v.hand_config_code | (codigo << 3u32) | (
                v.history << 6u32)
            } else {
                info_publica(tras_accion(v, a)) == v.hand_config_code | (((v.history << 3u32)
                    | codigo) << 6u32)
            }
        }),
{
    let e = v.estado.unwrap();
    let x = v.hand_config_code;
    let y = (v.history << 3u32) | ((posicion(acciones_completas(e.ultima_apuesta_spec()), a) + 1) as u64);
    assert(x | (0u64 << 3u32) | (y << 6u32) == x | (y << 6u32)) by (bit_vector);
}

/// Tipo de nodo del juego: de azar antes de repartir, terminal cuando el lance no tiene turno,
/// y si no, del jugador que tiene el turno con sus acciones disponibles.
pub open spec fn nodo_lance(v: VistaLanceGame) -> NodeType {
    match v.estado {
        None => NodeType::Chance,
        Some(e) => match e.turno_spec() {
            None => NodeType::Terminal,
            Some(t) => NodeType::Player(
                jugador_de(t) as usize,
                acciones_disponibles(v).len() as usize,
            ),
        },
    }
}

/// Códigos de las cuatro manos en el lance.
pub open spec fn codigos_manos(t: MusInfoSetTables, manos: Seq<Seq<Carta>>, l: Lance) -> Seq<u64> {
    Seq::new(4, |i: int| t.codigo_mano(manos[i], l) as u64)
}

/// Juego con la configuración y los códigos de las manos recibidas.
pub open spec fn con_manos(v: VistaLanceGame, manos: Seq<Seq<Carta>>, t: MusInfoSetTables) -> VistaLanceGame {
    VistaLanceGame {
        hand_config_code: codigo_configuracion(configuracion_de(jugadas_de(v.lance, manos))),
        private_history: codigos_manos(t, manos, v.lance),
        ..v
    }
}

/// Juego repartido con las manos recibidas: el lance empieza con ellas y la pareja mano es la
/// que habla primero.
pub open spec fn repartido(v: VistaLanceGame, manos: Seq<Seq<Carta>>, t: MusInfoSetTables) -> VistaLanceGame {
    VistaLanceGame {
        estado: Some(EstadoLance::inicial(v.lance, manos, MAX_TANTOS)),
        pareja_mano: turno_inicial_spec(v.lance, manos),
        ..con_manos(v, manos, t)
    }
}

/// Pareja que gana el lance resuelto.
pub open spec fn ganador_lance(e: EstadoLance) -> u8 {
    match e.ganador_spec() {
        Some(g) => g,
        None => (e.mejor_mano_spec() % 2) as u8,
    }
}

/// Marcador tras el lance, visto desde la pareja que habla primero: la pareja ganadora suma los
/// tantos apostados (cuarenta con un órdago) y los de sus jugadas; si llega a cuarenta, se queda
/// con cuarenta y la otra con cero.
pub open spec fn marcador_final(v: VistaLanceGame) -> (int, int) {
    let e = v.estado.unwrap();
    let g = ganador_lance(e);
    let apostado = match e.tantos_apostados_spec() {
        Apuesta::Tantos(t) => t as int,
        Apuesta::Ordago => MAX_TANTOS as int,
    };
    let ganados = apostado + e.tantos_mano_spec()[g as int];
    let t0 = if v.pareja_mano == 1 {
        v.tantos[1] as int
    } else {
        v.tantos[0] as int
    };
    let t1 = if v.pareja_mano == 1 {
        v.tantos[0] as int
    } else {
        v.tantos[1] as int
    };
    let tg = (if g == 0 {
        t0
    } else {
        t1
    }) + ganados;
    if tg >= MAX_TANTOS {
        if g == 0 {
            (MAX_TANTOS as int, 0)
        } else {
            (0, MAX_TANTOS as int)
        }
    } else if g == 0 {
        (tg, t1)
    } else {
        (t0, tg)
    }
}

/// Ganancia del jugador al acabar el lance: la diferencia de tantos a favor de su pareja.
pub open spec fn ganancia(v: VistaLanceGame, player: int) -> int {
    let (a, b) = marcador_final(v);
    if player % 2 == 0 {
        a - b
    } else {
        b - a
    }
}

/// Juego tras actuar con cada acción de `h`, en orden.
pub open spec fn tras_apuestas(v: VistaLanceGame, h: Seq<Accion>) -> VistaLanceGame
    decreases h.len(),
{
    if h.len() == 0 {
        v
    } else {
        tras_accion(tras_apuestas(v, h.drop_last()), h.last())
    }
}

/// Las apuestas no cambian el lance, el marcador, la pareja que habla primero ni lo que valen
/// las jugadas de cada pareja.
proof fn lema_tras_apuestas_conserva(v: VistaLanceGame, h: Seq<Accion>)
    requires
        v.estado is Some,
    ensures
        tras_apuestas(v, h).estado is Some,
        tras_apuestas(v, h).lance == v.lance,
        tras_apuestas(v, h).tantos == v.tantos,
        tras_apuestas(v, h).pareja_mano == v.pareja_mano,
        tras_apuestas(v, h).estado.unwrap().tantos_mano_spec() == v.estado.unwrap().tantos_mano_spec(),
        v.estado.unwrap().parejas_validas() ==> tras_apuestas(v, h).estado.unwrap().parejas_validas(),
    decreases h.len(),
{
    if h.len() > 0 {
        lema_tras_apuestas_conserva(v, h.drop_last());
        let w = tras_apuestas(v, h.drop_last());
        w.estado.unwrap().lema_paso_conserva(h.last());
        w.estado.unwrap().lema_parejas_validas(h.last(), v.lance, Seq::empty(), 0);
    }
}

/// Lo que gana cada pareja al acabar un lance repartido con `manos`, tras cualquier serie de
/// apuestas: la pareja ganadora suma a su marcador los tantos apostados (cuarenta con un órdago)
/// y los de las jugadas de sus dos manos en el lance; la ganancia del jugador es la diferencia
/// de marcadores, o cuarenta si su pareja llega a cuarenta. La ganancia de un jugador de la otra
/// pareja es la opuesta.
pub proof fn lema_ganancia_tras_apuestas(
    v: VistaLanceGame,
    manos: Seq<Seq<Carta>>,
    t: MusInfoSetTables,
    h: Seq<Accion>,
)
    requires
        manos.len() == 4,
    ensures
        ({
            let w = tras_apuestas(repartido(v, manos, t), h);
            let e = w.estado.unwrap();
            let g = ganador_lance(e);
            let apostado = match e.tantos_apostados_spec() {
                Apuesta::Tantos(x) => x as int,
                Apuesta::Ordago => 40int,
            };
            let jugadas = tantos_mano_spec(v.lance, manos[g as int]) + tantos_mano_spec(
                v.lance,
                manos[g + 2],
            ) + v.lance.bonus_spec();
            let primera = if w.pareja_mano == 1 {
                1int
            } else {
                0int
            };
            let propios = if g == 0 {
                v.tantos[primera] as int
            } else {
                v.tantos[1 - primera] as int
            };
            let ajenos = if g == 0 {
                v.tantos[1 - primera] as int
            } else {
                v.tantos[primera] as int
            };
            &&& g <= 1
            &&& propios + apostado + jugadas < 40 ==> ganancia(w, g as int) == propios + apostado
                + jugadas - ajenos
            &&& propios + apostado + jugadas >= 40 ==> ganancia(w, g as int) == 40
            &&& ganancia(w, g + 1) == -ganancia(w, g as int)
        }),
{
    let v0 = repartido(v, manos, t);
    EstadoLance::lema_inicial(v.lance, manos, MAX_TANTOS);
    crate::mus::lema_tantos_pareja_acotados(v.lance, manos);
    lema_tras_apuestas_conserva(v0, h);
    let w = tras_apuestas(v0, h);
    let e = w.estado.unwrap();
    e.lema_parejas_validas(Accion::Paso, v.lance, manos, MAX_TANTOS);
    lema_suma_cero(w, ganador_lance(e) as int);
}

/// Lance de mus jugado entre dos parejas. Se puede configurar el lance, los tantos con los que
/// empieza el marcador y si se usan manos abstractas en los conjuntos de información.
#[derive(Debug)]
pub struct LanceGame {
    lance: Lance,
    tantos: [u8; 2],
    estado_lance: Option<EstadoLance>,
    pareja_mano: usize,
    abstract_game: bool,
    last_action: Option<Accion>,
    tables: Arc<MusInfoSetTables>,
    private_history: [u64; 4],
    hand_config_code: u64,
    hidden_action: u64,
    history: u64,
}

impl View for LanceGame {
    type V = VistaLanceGame;

    closed spec fn view(&self) -> VistaLanceGame {
        VistaLanceGame {
            lance: self.lance,
            tantos: self.tantos,
            estado: self.estado_lance,
            pareja_mano: self.pareja_mano,
            abstract_game: self.abstract_game,
            last_action: self.last_action,
            private_history: self.private_history@,
            hand_config_code: self.hand_config_code,
            hidden_action: self.hidden_action,
            history: self.history,
        }
    }
}

impl LanceGame {
    #[verifier::type_invariant]
    spec fn inv(self) -> bool {
        self.estado_lance matches Some(e) ==> {
            &&& e.apuesta_maxima_spec() == MAX_TANTOS
            &&& e.envites_acotados()
            &&& e.tantos_mano_spec()[0] <= 7
            &&& e.tantos_mano_spec()[1] <= 7
            &&& (e.turno_spec() == Some(Turno::Pareja(2)) || e.turno_spec() == Some(
                Turno::Pareja(3),
            )) ==> self.last_action is Some
        }
    }

    /// Tablas con las que se codifican los conjuntos de información.
    pub closed spec fn tablas(self) -> MusInfoSetTables {
        *self.tables
    }

    /// Juego del lance con los tantos de partida, aún sin repartir.
    pub fn new(lance: Lance, tantos: [u8; 2], abstract_game: bool) -> (g: Self)
        ensures
            g@ == (VistaLanceGame {
                lance,
                tantos,
                estado: None,
                pareja_mano: 0,
                abstract_game,
                last_action: None,
                private_history: seq![0u64, 0u64, 0u64, 0u64],
                hand_config_code: 0,
                hidden_action: 0,
                history: 0,
            }),
            g.tablas().tablas_abstractas() is Some == abstract_game,
    {
        let g = LanceGame {
            lance,
            tantos,
            abstract_game,
            estado_lance: None,
            last_action: None,
            pareja_mano: 0,
            tables: Arc::new(MusInfoSetTables::new(abstract_game)),
            private_history: [0; 4],
            hand_config_code: 0,
            hidden_action: 0,
            history: 0,
        };
        proof {
            assert(g@.private_history =~= seq![0u64, 0u64, 0u64, 0u64]);
        }
        g
    }

    /// Empieza el lance con los jugadores de la configuración de manos indicada, sin jugadas ni
    /// tantos de mano.
    pub fn new_with_configuration(&mut self, hand_configuration: HandConfiguration)
        requires
            crate::mus::turno_inicial_lance(
                old(self)@.lance,
                jugadores_configuracion(hand_configuration),
            ) is Some,
        ensures
            final(self)@ == (VistaLanceGame {
                estado: Some(
                    EstadoLance::con_jugadores_spec(
                        old(self)@.lance,
                        jugadores_configuracion(hand_configuration),
                        [0u8, 0u8],
                        0,
                        MAX_TANTOS,
                    ),
                ),
                pareja_mano: jugador_de(
                    crate::mus::turno_inicial_lance(
                        old(self)@.lance,
                        jugadores_configuracion(hand_configuration),
                    ).unwrap(),
                ) as usize,
                hand_config_code: codigo_configuracion(hand_configuration),
                ..old(self)@
            }),
            final(self).tablas() == old(self).tablas(),
    {
        proof {
            use_type_invariant(&*self);
        }
        let jugadores: Vec<u8> = match hand_configuration {
            HandConfiguration::CuatroManos => vec![0, 1, 2, 3],
            HandConfiguration::TresManos1vs2 => vec![0, 1, 3],
            HandConfiguration::TresManos1vs2Intermedio => vec![0, 1, 2],
            HandConfiguration::TresManos2vs1 => vec![0, 2, 3],
            HandConfiguration::DosManos => vec![0, 1],
            HandConfiguration::SinLance => vec![0, 2],
        };
        proof {
            assert(jugadores@ =~= jugadores_configuracion(hand_configuration));
            lema_configuracion_sin_segundo(self@.lance, hand_configuration);
        }
        let estado_lance = EstadoLance::con_jugadores(
            &self.lance,
            jugadores.as_slice(),
            [0, 0],
            0,
            MAX_TANTOS,
        );
        let turno = estado_lance.turno().unwrap();
        self.pareja_mano = match turno {
            Turno::Pareja(idx) => idx as usize,
            Turno::Jugador(idx) => idx as usize,
        };
        self.hand_config_code = hand_config_code(hand_configuration);
        self.estado_lance = Some(estado_lance);
    }

    /// Juego del lance en curso de una fase de envites de cuatro jugadores, con sus manos y su
    /// marcador, o `None` si la fase ya ha terminado.
    pub fn from_partida_mus(partida_mus: &FaseEnvites<CuatroJugadores>, abstract_game: bool) -> (r:
        Option<Self>)
        requires
            partida_mus@.manos.len() == 4,
            partida_mus@.lance_actual() matches Some(l) ==> normalizable(l, partida_mus@.manos),
        ensures
            partida_mus@.lance_actual() is None ==> r is None,
            partida_mus@.lance_actual() matches Some(l) ==> r matches Some(g) && g@ == (
            VistaLanceGame {
                estado: Some(EstadoLance::inicial(l, partida_mus@.manos, MAX_TANTOS)),
                ..con_manos(
                    VistaLanceGame {
                        lance: l,
                        tantos: partida_mus@.tantos,
                        estado: None,
                        pareja_mano: 0,
                        abstract_game,
                        last_action: None,
                        private_history: seq![0u64, 0u64, 0u64, 0u64],
                        hand_config_code: 0,
                        hidden_action: 0,
                        history: 0,
                    },
                    partida_mus@.manos,
                    g.tablas(),
                )
            }) && g.tablas().tablas_abstractas() is Some == abstract_game,
    {
        let lance = match partida_mus.lance_actual() {
            Some(l) => l,
            None => return None,
        };
        let mut game = Self::new(lance, *partida_mus.tantos(), abstract_game);
        let m = partida_mus.manos();
        proof {
            assert(vistas(m@)[0] == m@[0]@);
            assert(vistas(m@)[1] == m@[1]@);
            assert(vistas(m@)[2] == m@[2]@);
            assert(vistas(m@)[3] == m@[3]@);
        }
        let manos: [Mano; 4] = [m[0].copia(), m[1].copia(), m[2].copia(), m[3].copia()];
        proof {
            assert(vistas(manos@) =~= vistas(m@));
            assert(manos_de_partida(vistas(m@)));
            lema_turno_cuatro_manos(lance, vistas(manos@));
        }
        let estado = EstadoLance::new(&lance, &manos, MAX_TANTOS);
        proof {
            crate::mus::lema_tantos_pareja_acotados(lance, vistas(manos@));
        }
        game.estado_lance = Some(estado);
        game.set_manos(&manos);
        Some(game)
    }

    /// Fija en el conjunto de información la configuración de manos y el código de la mano de
    /// cada jugador para el lance.
    pub fn set_manos(&mut self, manos: &[Mano; 4])
        requires
            forall|i: int| 0 <= i < 4 ==> (#[trigger] manos@[i])@.len() == 4,
            normalizable(old(self)@.lance, vistas(manos@)),
        ensures
            final(self)@ == con_manos(old(self)@, vistas(manos@), old(self).tablas()),
            final(self).tablas() == old(self).tablas(),
    {
        proof {
            use_type_invariant(&*self);
        }
        let config = ManosNormalizadas::normalizar_mano(manos, &self.lance).hand_configuration();
        self.hand_config_code = hand_config_code(config);
        let r0 = self.tables.rank_hand(&manos[0], &self.lance);
        let r1 = self.tables.rank_hand(&manos[1], &self.lance);
        let r2 = self.tables.rank_hand(&manos[2], &self.lance);
        let r3 = self.tables.rank_hand(&manos[3], &self.lance);
        self.private_history = [r0, r1, r2, r3];
        proof {
            assert(vistas(manos@)[0] == manos@[0]@);
            assert(vistas(manos@)[1] == manos@[1]@);
            assert(vistas(manos@)[2] == manos@[2]@);
            assert(vistas(manos@)[3] == manos@[3]@);
            assert(self@.private_history =~= codigos_manos(
                old(self).tablas(),
                vistas(manos@),
                self@.lance,
            ));
        }
    }

    /// Parte pública del conjunto de información: ver [`info_publica`].
    pub fn public_info_set(&self) -> (r: u64)
        ensures
            r == info_publica(self@),
    {
        self.hand_config_code | (self.hidden_action << HAND_CONFIG_WIDTH) | (self.history << (
        HAND_CONFIG_WIDTH + HIDDEN_ACTION_WIDTH))
    }

    /// Acciones disponibles para el jugador que tiene el turno: ver [`acciones_disponibles`].
    pub fn actions(&self) -> (r: ArrayVec<Accion, 15>)
        requires
            self@.estado matches Some(e) && e.turno_spec() is Some,
        ensures
            acciones_de(r) == acciones_disponibles(self@),
    {
        proof {
            use_type_invariant(self);
        }
        let partida = self.estado_lance.unwrap();
        let turno = partida.turno().unwrap();
        let acciones = full_actions(partida.ultima_apuesta());
        if turno == Turno::Pareja(2) || turno == Turno::Pareja(3) {
            retener_no_menores(&acciones, self.last_action.unwrap())
        } else {
            acciones
        }
    }

    /// Actúa con la acción `a`, que debe ser una de las de la lista completa ante la última
    /// apuesta: ver [`tras_accion`].
    pub fn act_with_action(&mut self, a: Accion)
        requires
            old(self)@.estado matches Some(e) && e.turno_spec() is Some && acciones_completas(
                e.ultima_apuesta_spec(),
            ).contains(a),
        ensures
            final(self)@ == tras_accion(old(self)@, a),
            final(self).tablas() == old(self).tablas(),
    {
        proof {
            use_type_invariant(&*self);
        }
        let mut estado = self.estado_lance.unwrap();
        let turno = estado.turno().unwrap();
        let ultima = estado.ultima_apuesta();
        let completas = full_actions(ultima);
        let n = acciones_len(&completas);
        let ghost l = acciones_completas(ultima);
        let mut idx: usize = 0;
        while idx < n && acciones_get(&completas, idx) != a
            invariant
                n == l.len(),
                acciones_de(completas) == l,
                l.contains(a),
                idx <= n,
                forall|k: int| 0 <= k < idx ==> l[k] != a,
            decreases n - idx,
        {
            idx = idx + 1;
        }
        proof {
            let w = choose|k: int| 0 <= k < l.len() && l[k] == a;
            assert(w >= idx);
            assert(idx < n);
            assert(es_primera(l, a, idx as int));
            lema_posicion_unica(l, a, idx as int, posicion(l, a));
        }
        let codigo: u64 = (idx + 1) as u64;
        self.last_action = Some(a);
        match turno {
            Turno::Pareja(0) | Turno::Pareja(1) => {
                self.hidden_action = codigo;
            },
            _ => {
                self.history = (self.history << ACTION_WIDTH) | codigo;
                self.hidden_action = 0;
            },
        }
        proof {
            lema_envites_completos(ultima, a);
            estado.lema_admite_acotado(a);
        }
        let _ = estado.actuar(a);
        self.estado_lance = Some(estado);
    }

    /// Conjunto de información del jugador: la parte pública y el código de su mano.
    pub fn info_set(&self, player: usize) -> (r: (u64, u64))
        requires
            player < 4,
        ensures
            r == (info_publica(self@), self@.private_history[player as int]),
    {
        (self.public_info_set(), self.private_history[player])
    }

    /// Tipo de nodo: ver [`nodo_lance`].
    pub fn current_node(&self) -> (r: NodeType)
        ensures
            r == nodo_lance(self@),
    {
        match &self.estado_lance {
            None => NodeType::Chance,
            Some(estado_lance) => match estado_lance.turno() {
                None => NodeType::Terminal,
                Some(t) => NodeType::Player(t.player_id() as usize, acciones_len(&self.actions())),
            },
        }
    }

    /// Juego tras la acción con índice `action_id` de las disponibles.
    pub fn act(&self, action_id: usize) -> (r: Self)
        requires
            self@.estado matches Some(e) && e.turno_spec() is Some,
            action_id < acciones_disponibles(self@).len(),
        ensures
            r@ == tras_accion(self@, acciones_disponibles(self@)[action_id as int]),
            r.tablas() == self.tablas(),
    {
        let acciones = self.actions();
        let a = acciones_get(&acciones, action_id);
        proof {
            let e = self@.estado.unwrap();
            let l = acciones_completas(e.ultima_apuesta_spec());
            if e.turno_spec() == Some(Turno::Pareja(2)) || e.turno_spec() == Some(Turno::Pareja(3)) {
                lema_no_menores_contenidas(l, self@.last_action.unwrap(), action_id as int);
            }
        }
        let mut new_game = self.clone();
        new_game.act_with_action(a);
        new_game
    }

    /// Clave del nodo: la parte pública del conjunto de información.
    pub fn node_key(&self) -> (r: u64)
        ensures
            r == info_publica(self@),
    {
        self.public_info_set()
    }

    /// Reparte manos de una baraja de mus barajada hasta dar con un reparto en el que el lance
    /// tenga envites, y empieza el lance con él. Si tras `u32::MAX` intentos no lo encuentra,
    /// devuelve el juego sin repartir.
    pub fn chance_sample(&self) -> (r: Self)
        ensures
            r.tablas() == self.tablas(),
            r@ == self@ || exists|manos: Seq<Seq<Carta>>|
                {
                    &&& manos_de_partida(manos)
                    &&& manos.len() == 4
                    &&& exists|c: ModeloBaraja| repartida_de_baraja(manos, c)
                    &&& EstadoLance::inicial(self@.lance, manos, MAX_TANTOS).turno_spec() is Some
                    &&& r@ == repartido(self@, manos, self.tablas())
                },
            (self@.lance == Lance::Grande || self@.lance == Lance::Chica) ==> exists|
                manos: Seq<Seq<Carta>>,
            |
                {
                    &&& manos_de_partida(manos)
                    &&& manos.len() == 4
                    &&& exists|c: ModeloBaraja| repartida_de_baraja(manos, c)
                    &&& r@ == repartido(self@, manos, self.tablas())
                },
    {
        let mut new_game = self.clone();
        let mut intentos: u32 = 0;
        while intentos < u32::MAX
            invariant
                new_game@ == self@,
                new_game.tablas() == self.tablas(),
                (self@.lance == Lance::Grande || self@.lance == Lance::Chica) ==> intentos == 0,
            decreases u32::MAX - intentos,
        {
            let mut baraja = Baraja::baraja_mus();
            let ghost d = baraja@.cartas;
            let manos: [Mano; 4] = baraja.repartir_manos();
            proof {
                assert(manos_de_partida(vistas(manos@))) by {
                    assert(vistas(manos@)[0] == manos@[0]@);
                    assert(vistas(manos@)[1] == manos@[1]@);
                    assert(vistas(manos@)[2] == manos@[2]@);
                    assert(vistas(manos@)[3] == manos@[3]@);
                }
                assert forall|i: int| 0 <= i < 4 implies mano_ordenada_de(
                    #[trigger] vistas(manos@)[i],
                    d.subrange(4 * i, 4 * i + 4),
                ) by {
                    assert(vistas(manos@)[i] == manos@[i]@);
                }
                assert(repartida_de_baraja(vistas(manos@), baraja@));
                lema_turno_cuatro_manos(self@.lance, vistas(manos@));
                crate::mus::lema_tantos_pareja_acotados(self@.lance, vistas(manos@));
                if self@.lance == Lance::Grande || self@.lance == Lance::Chica {
                    crate::mus::lema_grande_chica_se_juegan(self@.lance, vistas(manos@));
                }
            }
            let intento = EstadoLance::new(&self.lance, &manos, MAX_TANTOS);
            if intento.turno().is_some() {
                new_game.estado_lance = Some(intento);
                new_game.set_manos(&manos);
                new_game.pareja_mano = self.lance.turno_inicial(&manos);
                return new_game;
            }
            intentos = intentos + 1;
        }
        new_game
    }

    /// Ganancia del jugador al resolver el lance: ver [`ganancia`].
    pub fn payoff(&self, player: usize) -> (r: i8)
        requires
            self@.estado is Some,
            self@.tantos[0] <= MAX_TANTOS,
            self@.tantos[1] <= MAX_TANTOS,
        ensures
            r == ganancia(self@, player as int),
    {
        proof {
            use_type_invariant(self);
        }
        let mut estado_lance = self.estado_lance.unwrap();
        let ghost inicial = estado_lance;
        let ganador = estado_lance.resolver_lance();
        proof {
            inicial.lema_resuelto(ganador);
        }
        let tantos_ganador = match estado_lance.tantos_apostados() {
            Apuesta::Tantos(t) => t,
            Apuesta::Ordago => MAX_TANTOS,
        } + estado_lance.tantos_mano()[ganador as usize];
        let mut tantos = self.tantos;
        if self.pareja_mano == 1 {
            tantos = [self.tantos[1], self.tantos[0]];
        }
        let g = ganador as usize;
        let suma = tantos[g] + tantos_ganador;
        if suma >= MAX_TANTOS {
            if g == 0 {
                tantos = [MAX_TANTOS, 0];
            } else {
                tantos = [0, MAX_TANTOS];
            }
        } else if g == 0 {
            tantos = [suma, tantos[1]];
        } else {
            tantos = [tantos[0], suma];
        }
        let payoff = [
            tantos[0] as i8 - tantos[1] as i8,
            tantos[1] as i8 - tantos[0] as i8,
        ];
        payoff[player % 2]
    }
}

impl Clone for LanceGame {
    fn clone(&self) -> (r: Self)
        ensures
            r@ == self@,
            r.tablas() == self.tablas(),
    {
        proof {
            use_type_invariant(self);
        }
        LanceGame {
            lance: self.lance,
            tantos: self.tantos,
            estado_lance: self.estado_lance,
            pareja_mano: self.pareja_mano,
            abstract_game: self.abstract_game,
            last_action: self.last_action,
            tables: compartir(&self.tables),
            private_history: self.private_history,
            hand_config_code: self.hand_config_code,
            hidden_action: self.hidden_action,
            history: self.history,
        }
    }
}

/// El juego es de suma cero: lo que gana una pareja lo pierde la otra, y los dos jugadores de una
/// pareja ganan lo mismo.
pub proof fn lema_suma_cero(v: VistaLanceGame, player: int)
    ensures
        ganancia(v, player) + ganancia(v, player + 1) == 0,
        ganancia(v, player) == ganancia(v, player + 2),
{
}

/// Las acciones que quedan tras el recorte de la pareja están en la lista recibida.
proof fn lema_no_menores_contenidas(l: Seq<Accion>, u: Accion, i: int)
    requires
        0 <= i < no_menores(l, u).len(),
    ensures
        l.contains(no_menores(l, u)[i]),
    decreases l.len(),
{
    reveal(Seq::filter);
    let f = no_menores(l, u);
    if l.len() > 0 {
        let r = no_menores(l.drop_last(), u);
        if i < r.len() {
            lema_no_menores_contenidas(l.drop_last(), u, i);
            assert(f[i] == r[i]);
            let k = choose|k: int| 0 <= k < l.drop_last().len() && l.drop_last()[k] == r[i];
            assert(l[k] == f[i]);
        } else {
            assert(f[i] == l.last());
            assert(l[l.len() - 1] == f[i]);
        }
    }
}

/// Las acciones de la lista completa solo envidan dos, cinco o diez tantos.
proof fn lema_envites_completos(ultima: Apuesta, a: Accion)
    requires
        acciones_completas(ultima).contains(a),
    ensures
        a matches Accion::Envido(n) ==> n <= 10,
{
    let l = acciones_completas(ultima);
    let k = choose|k: int| 0 <= k < l.len() && l[k] == a;
    assert(l[k] == a);
}

/// Con las configuraciones de manos, si empieza una pareja completa habla primero el jugador 0
/// o el 1.
proof fn lema_configuracion_sin_segundo(lance: Lance, c: HandConfiguration)
    ensures
        crate::mus::turno_inicial_lance(lance, jugadores_configuracion(c)) matches Some(
            Turno::Pareja(p),
        ) ==> p <= 1,
{
    reveal_with_fuel(crate::mus::de_paridad, 5);
    let j = jugadores_configuracion(c);
    match c {
        HandConfiguration::CuatroManos => {
            assert(j.drop_last() =~= seq![0u8, 1u8, 2u8]);
            assert(j.drop_last().drop_last() =~= seq![0u8, 1u8]);
            assert(j.drop_last().drop_last().drop_last() =~= seq![0u8]);
            assert(crate::mus::de_paridad(j, 0) =~= seq![0u8, 2u8]);
            assert(crate::mus::de_paridad(j, 1) =~= seq![1u8, 3u8]);
        },
        HandConfiguration::TresManos1vs2 => {
            assert(j.drop_last() =~= seq![0u8, 1u8]);
            assert(j.drop_last().drop_last() =~= seq![0u8]);
            assert(crate::mus::de_paridad(j, 0) =~= seq![0u8]);
        },
        HandConfiguration::TresManos1vs2Intermedio => {
            assert(j.drop_last() =~= seq![0u8, 1u8]);
            assert(j.drop_last().drop_last() =~= seq![0u8]);
            assert(crate::mus::de_paridad(j, 0) =~= seq![0u8, 2u8]);
            assert(crate::mus::de_paridad(j, 1) =~= seq![1u8]);
        },
        HandConfiguration::TresManos2vs1 => {
            assert(j.drop_last() =~= seq![0u8, 2u8]);
            assert(j.drop_last().drop_last() =~= seq![0u8]);
            assert(crate::mus::de_paridad(j, 0) =~= seq![0u8, 2u8]);
            assert(crate::mus::de_paridad(j, 1) =~= seq![3u8]);
        },
        HandConfiguration::DosManos => {
            assert(j.drop_last() =~= seq![0u8]);
            assert(crate::mus::de_paridad(j, 0) =~= seq![0u8]);
            assert(crate::mus::de_paridad(j, 1) =~= seq![1u8]);
        },
        HandConfiguration::SinLance => {
            assert(j.drop_last() =~= seq![0u8]);
            assert(crate::mus::de_paridad(j, 1) =~= Seq::<u8>::empty());
        },
    }
}

} // verus!
