use std::sync::Arc;

use vstd::prelude::*;

use crate::colecciones::compartir;
use crate::mus::{Accion, Carta, Lance, Mano, potencia2, tiene_jugada, vistas};

use super::{MusInfoSetTables, canonica, canonical_envite_action, indice_canonico, lema_cabe_en_anchura, rango_completo, tablas_validas};

verus! {

/// Valor de `dest` con el campo de `width` bits desde el bit `offset` sustituido por `value`.
pub open spec fn poner(dest: u64, value: u64, offset: u32, width: u32) -> u64 {
    (dest & !((((1u64 << width) - 1u64) as u64) << offset)) | (value << offset)
}

/// Campo de `width` bits desde el bit `offset` de `dest`.
pub open spec fn leer(dest: u64, offset: u32, width: u32) -> u64 {
    (dest >> offset) & ((((1u64 << width) - 1u64) as u64))
}

/// Lo que se lee de un campo es lo último que se escribió en él.
pub proof fn lema_poner_leer(dest: u64, value: u64, offset: u32, width: u32)
    requires
        width < 64,
        offset + width <= 64,
        value < (1u64 << width),
    ensures
        leer(poner(dest, value, offset, width), offset, width) == value,
{
    assert(leer(poner(dest, value, offset, width), offset, width) == value) by (bit_vector)
        requires
            width < 64,
            offset + width <= 64,
            value < (1u64 << width),
    ;
}

/// Escribir un campo no cambia los campos que no se solapan con él.
pub proof fn lema_poner_otro_campo(dest: u64, value: u64, offset: u32, width: u32, o2: u32, w2: u32)
    requires
        width < 64,
        offset + width <= 64,
        value < (1u64 << width),
        w2 < 64,
        o2 + w2 <= 64,
        offset + width <= o2 || o2 + w2 <= offset,
    ensures
        leer(poner(dest, value, offset, width), o2, w2) == leer(dest, o2, w2),
{
    assert(leer(poner(dest, value, offset, width), o2, w2) == leer(dest, o2, w2)) by (bit_vector)
        requires
            width < 64,
            offset + width <= 64,
            value < (1u64 << width),
            w2 < 64,
            o2 + w2 <= 64,
            offset + width <= o2 || o2 + w2 <= offset,
    ;
}

/// Escribir un campo solo cambia sus bits: fuera de él, el valor queda como estaba.
pub proof fn lema_poner_fuera_del_campo(dest: u64, value: u64, offset: u32, width: u32)
    requires
        width < 64,
        offset + width <= 64,
        value < (1u64 << width),
    ensures
        poner(dest, value, offset, width) & !((((1u64 << width) - 1u64) as u64) << offset) == dest
            & !((((1u64 << width) - 1u64) as u64) << offset),
{
    assert(poner(dest, value, offset, width) & !((((1u64 << width) - 1u64) as u64) << offset)
        == dest & !((((1u64 << width) - 1u64) as u64) << offset)) by (bit_vector)
        requires
            width < 64,
            offset + width <= 64,
            value < (1u64 << width),
    ;
}

/// Escribir dos veces el mismo campo equivale a escribir solo la segunda vez.
pub proof fn lema_poner_dos_veces(dest: u64, v1: u64, v2: u64, offset: u32, width: u32)
    requires
        width < 64,
        offset + width <= 64,
        v1 < (1u64 << width),
        v2 < (1u64 << width),
    ensures
        poner(poner(dest, v1, offset, width), v2, offset, width) == poner(dest, v2, offset, width),
{
    assert(poner(poner(dest, v1, offset, width), v2, offset, width) == poner(
        dest,
        v2,
        offset,
        width,
    )) by (bit_vector)
        requires
            width < 64,
            offset + width <= 64,
            v1 < (1u64 << width),
            v2 < (1u64 << width),
    ;
}


/// Potencias de dos pequeñas como desplazamientos.
pub proof fn lema_potencia_desplazamiento(k: u32)
    requires
        k <= 9,
    ensures
        potencia2(k as nat) == (1u64 << k),
{
    reveal_with_fuel(potencia2, 10);
    if k == 0 {
        assert((1u64 << 0u32) == 1) by (bit_vector);
    } else if k == 1 {
        assert((1u64 << 1u32) == 2) by (bit_vector);
    } else if k == 2 {
        assert((1u64 << 2u32) == 4) by (bit_vector);
    } else if k == 3 {
        assert((1u64 << 3u32) == 8) by (bit_vector);
    } else if k == 4 {
        assert((1u64 << 4u32) == 16) by (bit_vector);
    } else if k == 5 {
        assert((1u64 << 5u32) == 32) by (bit_vector);
    } else if k == 6 {
        assert((1u64 << 6u32) == 64) by (bit_vector);
    } else if k == 7 {
        assert((1u64 << 7u32) == 128) by (bit_vector);
    } else if k == 8 {
        assert((1u64 << 8u32) == 256) by (bit_vector);
    } else {
        assert((1u64 << 9u32) == 512) by (bit_vector);
    }
}

/// Escribe el valor en el campo de `width` bits desde el bit `offset`: ver [`poner`].
fn put(dest: &mut u64, value: u64, offset: u32, width: u32)
    requires
        width < 64,
        offset < 64,
        value < (1u64 << width),
    ensures
        *final(dest) == poner(*old(dest), value, offset, width),
{
    assert((1u64 << width) >= 1) by (bit_vector)
        requires
            width < 64,
    ;
    let mask: u64 = (1u64 << width) - 1;
    *dest = *dest & !(mask << offset);
    *dest = *dest | (value << offset);
}

/// Código con que empiezan los descartes de cada número de cartas: antes van los de menos
/// cartas.
pub open spec fn inicio_descartes(n: nat) -> u64 {
    if n == 1 {
        1
    } else if n == 2 {
        9
    } else if n == 3 {
        45
    } else if n == 4 {
        165
    } else {
        0
    }
}

/// Índice de cada lance en el historial de envites. El punto se juega en lugar del juego, así
/// que comparten historial.
pub open spec fn historial_de_lance(l: Lance) -> u8 {
    match l {
        Lance::Grande => 0,
        Lance::Chica => 1,
        Lance::Pares => 2,
        Lance::Punto => 3,
        Lance::Juego => 3,
    }
}

/// Bits de qué manos tienen jugada, el de la primera mano el más alto.
pub open spec fn bits_jugadas(l: Lance, manos: Seq<Seq<Carta>>) -> u64
    decreases manos.len(),
{
    if manos.len() == 0 {
        0
    } else {
        (2 * bits_jugadas(l, manos.drop_last()) + if tiene_jugada(l, manos.last()) {
            1int
        } else {
            0int
        }) as u64
    }
}

/// Contenido de un constructor de conjuntos de información.
pub struct VistaConstructor {
    /// Parte pública: historiales de mus, descartes y envites, jugadas y acción oculta.
    pub public_history: u64,
    /// Parte privada de cada jugador: su mano y sus descartes.
    pub private_history: Seq<u64>,
    /// Historial del lance en curso.
    pub current_lance: Option<u8>,
    /// Nodo del árbol de la fase en curso.
    pub current_node: u32,
}

/// Constructor con la acción oculta escrita: el índice canónico de la acción más uno, o cero si
/// no hay acción.
pub open spec fn con_oculta(b: VistaConstructor, t: MusInfoSetTables, a: Option<Accion>) -> VistaConstructor {
    VistaConstructor {
        public_history: poner(
            b.public_history,
            match a {
                Some(x) => (1 + indice_canonico(x)) as u64,
                None => 0u64,
            },
            t.campos().hidden_action.offset,
            t.campos().hidden_action.width,
        ),
        ..b
    }
}

/// La acción tiene hijo en el nodo actual del árbol de mus.
pub open spec fn paso_mus_valido(b: VistaConstructor, t: MusInfoSetTables, a: Accion) -> bool {
    &&& canonica(a)
    &&& b.current_node < t.arbol_mus().len()
    &&& t.arbol_mus()[b.current_node as int][indice_canonico(a)] >= 0
}

/// Constructor tras avanzar en el árbol de mus con la acción, con el nodo nuevo escrito en el
/// historial de mus.
pub open spec fn con_paso_mus(b: VistaConstructor, t: MusInfoSetTables, a: Accion) -> VistaConstructor {
    let nodo = t.arbol_mus()[b.current_node as int][indice_canonico(a)] as u32;
    VistaConstructor {
        current_node: nodo,
        public_history: poner(
            b.public_history,
            nodo as u64,
            t.campos().history_mus.offset,
            t.campos().history_mus.width,
        ),
        ..b
    }
}

/// Hay lance en curso y la acción tiene hijo en el nodo actual del árbol de envites.
pub open spec fn paso_lance_valido(b: VistaConstructor, t: MusInfoSetTables, a: Accion) -> bool {
    &&& b.current_lance matches Some(l) && l < 4
    &&& canonica(a)
    &&& b.current_node < t.arbol_lance().len()
    &&& t.arbol_lance()[b.current_node as int][indice_canonico(a)] >= 0
}

/// Constructor tras avanzar en el árbol de envites con la acción, con el nodo nuevo escrito en
/// el historial del lance en curso.
pub open spec fn con_paso_lance(b: VistaConstructor, t: MusInfoSetTables, a: Accion) -> VistaConstructor {
    let nodo = t.arbol_lance()[b.current_node as int][indice_canonico(a)] as u32;
    let campo = t.campos().history_lance[b.current_lance.unwrap() as int];
    VistaConstructor {
        current_node: nodo,
        public_history: poner(b.public_history, nodo as u64, campo.offset, campo.width),
        ..b
    }
}

/// Constructor con el código de la mano `m` en el lance escrito en la parte privada del
/// jugador `j`.
pub open spec fn con_mano(b: VistaConstructor, t: MusInfoSetTables, j: int, m: Seq<Carta>, l: Lance) -> VistaConstructor {
    VistaConstructor {
        private_history: b.private_history.update(
            j,
            poner(
                b.private_history[j],
                t.codigo_mano(m, l) as u64,
                t.campos().mano.offset,
                t.campos().mano.width,
            ),
        ),
        ..b
    }
}

/// Constructor con los descartes `d` escritos en la parte privada del jugador `j` y el
/// historial de descartes avanzado con su número de cartas.
pub open spec fn con_descartes(b: VistaConstructor, t: MusInfoSetTables, j: int, d: Seq<Carta>) -> VistaConstructor {
    let nodo = (b.current_node * 4 + d.len() - 1) as u32;
    VistaConstructor {
        private_history: b.private_history.update(
            j,
            poner(
                b.private_history[j],
                (inicio_descartes(d.len()) + rango_completo(d)) as u64,
                t.campos().descartes.offset,
                t.campos().descartes.width,
            ),
        ),
        current_node: nodo,
        public_history: poner(
            b.public_history,
            nodo as u64,
            t.campos().history_descartes.offset,
            t.campos().history_descartes.width,
        ),
        ..b
    }
}

/// Constructor con qué manos tienen jugada escrito en la parte pública, en pares y juego.
pub open spec fn con_jugada(b: VistaConstructor, t: MusInfoSetTables, l: Lance, manos: Seq<Seq<Carta>>) -> VistaConstructor {
    VistaConstructor {
        public_history: match l {
            Lance::Pares => poner(
                b.public_history,
                bits_jugadas(l, manos),
                t.campos().jugadas_pares.offset,
                t.campos().jugadas_pares.width,
            ),
            Lance::Juego => poner(
                b.public_history,
                bits_jugadas(l, manos),
                t.campos().jugadas_juego.offset,
                t.campos().jugadas_juego.width,
            ),
            _ => b.public_history,
        },
        ..b
    }
}

/// Constructor al empezar el lance: su historial de envites, desde la raíz.
pub open spec fn con_lance(b: VistaConstructor, l: Lance) -> VistaConstructor {
    VistaConstructor { current_lance: Some(historial_de_lance(l)), current_node: 0, ..b }
}

/// Constructor en el nodo `n`.
pub open spec fn con_nodo(b: VistaConstructor, n: u32) -> VistaConstructor {
    VistaConstructor { current_node: n, ..b }
}

/// Construye los conjuntos de información de una partida de mus: la parte pública, común a
/// todos, y la privada de cada jugador, con campos de bits en un `u64`.
#[derive(Debug)]
pub struct MusInfoSetBuilder {
    public_history: u64,
    private_history: [u64; 4],
    tables: Arc<MusInfoSetTables>,
    current_lance: Option<u8>,
    current_node: u32,
}

impl View for MusInfoSetBuilder {
    type V = VistaConstructor;

    closed spec fn view(&self) -> VistaConstructor {
        VistaConstructor {
            public_history: self.public_history,
            private_history: self.private_history@,
            current_lance: self.current_lance,
            current_node: self.current_node,
        }
    }
}

impl MusInfoSetBuilder {
    #[verifier::type_invariant]
    spec fn inv(self) -> bool {
        tablas_validas(*self.tables)
    }

    /// Tablas con las que se codifica.
    pub closed spec fn tablas(self) -> MusInfoSetTables {
        *self.tables
    }

    /// Constructor con todo a cero y sin lance.
    pub fn new(abstract_game: bool) -> (b: Self)
        ensures
            b@ == (VistaConstructor {
                public_history: 0,
                private_history: seq![0u64, 0u64, 0u64, 0u64],
                current_lance: None,
                current_node: 0,
            }),
            b.tablas().tablas_abstractas() is Some == abstract_game,
            tablas_validas(b.tablas()),
    {
        let b = MusInfoSetBuilder {
            public_history: 0,
            private_history: [0; 4],
            tables: Arc::new(MusInfoSetTables::new(abstract_game)),
            current_lance: None,
            current_node: 0,
        };
        proof {
            assert(b@.private_history =~= seq![0u64, 0u64, 0u64, 0u64]);
        }
        b
    }

    /// Conjunto de información del jugador: la parte pública y la suya.
    pub fn to_mus_infoset(&self, player_id: usize) -> (r: (u64, u64))
        requires
            player_id < 4,
        ensures
            r == (self@.public_history, self@.private_history[player_id as int]),
    {
        (self.public_history, self.private_history[player_id])
    }

    /// Conjunto de información del jugador que ve las dos manos de su pareja: la parte privada
    /// de su compañero va en los 32 bits altos.
    pub fn to_mus_infoset_two_hands(&self, player_id: usize) -> (r: (u64, u64))
        requires
            player_id < 2,
        ensures
            r == (self@.public_history, self@.private_history[player_id as int] | (
            self@.private_history[player_id + 2] << 32u64)),
    {
        (
            self.public_history,
            self.private_history[player_id] | (self.private_history[player_id + 2] << 32u64),
        )
    }

    /// Escribe en la parte privada del jugador el código de su mano en el lance.
    pub fn set_hand(&mut self, player_id: usize, mano: &Mano, lance: &Lance)
        requires
            player_id < 4,
            mano@.len() == 4,
        ensures
            final(self)@ == con_mano(old(self)@, old(self).tablas(), player_id as int, mano@, *lance),
            final(self).tablas() == old(self).tablas(),
    {
        proof {
            use_type_invariant(&*self);
            assert((1u64 << 9u32) == 512) by (bit_vector);
        }
        let value = self.tables.rank_hand(mano, lance);
        let campo = self.tables.disposicion().mano;
        let mut p = self.private_history[player_id];
        put(&mut p, value, campo.offset, campo.width);
        let mut ph = self.private_history;
        ph.set(player_id, p);
        self.private_history = ph;
        proof {
            assert(self@.private_history =~= old(self)@.private_history.update(player_id as int, p));
        }
    }

    /// Escribe en la parte privada del jugador el código de sus descartes y avanza el historial
    /// de descartes con su número de cartas.
    pub fn set_descartes(&mut self, player_id: usize, descartes: &[Carta])
        requires
            player_id < 4,
            1 <= descartes@.len() <= 4,
            old(self)@.current_node < 128,
        ensures
            final(self)@ == con_descartes(old(self)@, old(self).tablas(), player_id as int, descartes@),
            final(self).tablas() == old(self).tablas(),
    {
        proof {
            use_type_invariant(&*self);
            assert((1u64 << 9u32) == 512) by (bit_vector);
        }
        let code_offset: u64 = match descartes.len() {
            1 => 1,
            2 => 9,
            3 => 45,
            4 => 165,
            _ => 0,
        };
        let value = code_offset + self.tables.rank_complete_hand(descartes);
        let campo = self.tables.disposicion().descartes;
        let mut p = self.private_history[player_id];
        put(&mut p, value, campo.offset, campo.width);
        let mut ph = self.private_history;
        ph.set(player_id, p);
        self.private_history = ph;
        proof {
            assert(self@.private_history =~= old(self)@.private_history.update(player_id as int, p));
        }
        self.step_descartes(descartes.len());
    }

    /// Vuelve a la raíz del árbol de mus.
    pub fn begin_mus(&mut self)
        ensures
            final(self)@ == con_nodo(old(self)@, 0),
            final(self).tablas() == old(self).tablas(),
    {
        proof {
            use_type_invariant(&*self);
        }
        self.current_node = 0;
    }

    /// Avanza en el árbol de mus con la acción y escribe el nodo en el historial de mus. La
    /// acción tiene que tener hijo en el nodo actual.
    pub fn step_mus(&mut self, action: Accion)
        requires
            paso_mus_valido(old(self)@, old(self).tablas(), action),
        ensures
            final(self)@ == con_paso_mus(old(self)@, old(self).tablas(), action),
            final(self).tablas() == old(self).tablas(),
    {
        proof {
            use_type_invariant(&*self);
        }
        let r = self.tables.paso_mus(self.current_node, action);
        let nodo = r as u32;
        let campo = self.tables.disposicion().history_mus;
        proof {
            lema_cabe_en_anchura(nodo as nat, self.tablas().arbol_mus().len());
            lema_potencia_desplazamiento(campo.width);
        }
        let mut h = self.public_history;
        put(&mut h, nodo as u64, campo.offset, campo.width);
        self.public_history = h;
        self.current_node = nodo;
    }

    /// Empieza los descartes: nodo 1 del historial de descartes.
    pub fn begin_descartes(&mut self)
        ensures
            final(self)@ == con_nodo(old(self)@, 1),
            final(self).tablas() == old(self).tablas(),
    {
        proof {
            use_type_invariant(&*self);
        }
        self.current_node = 1;
    }

    /// Avanza el historial de descartes con un descarte de `num_descartes` cartas: cada descarte
    /// multiplica el nodo por cuatro y suma el número de cartas menos una.
    fn step_descartes(&mut self, num_descartes: usize)
        requires
            1 <= num_descartes <= 4,
            old(self)@.current_node < 128,
        ensures
            ({
                let nodo = (old(self)@.current_node * 4 + num_descartes - 1) as u32;
                final(self)@ == VistaConstructor {
                    current_node: nodo,
                    public_history: poner(
                        old(self)@.public_history,
                        nodo as u64,
                        old(self).tablas().campos().history_descartes.offset,
                        old(self).tablas().campos().history_descartes.width,
                    ),
                    ..old(self)@
                }
            }),
            final(self).tablas() == old(self).tablas(),
    {
        proof {
            use_type_invariant(&*self);
            assert((1u64 << 9u32) == 512) by (bit_vector);
        }
        self.current_node = self.current_node * 4 + (num_descartes - 1) as u32;
        let campo = self.tables.disposicion().history_descartes;
        let mut h = self.public_history;
        put(&mut h, self.current_node as u64, campo.offset, campo.width);
        self.public_history = h;
    }

    /// Empieza el historial de envites del lance.
    pub fn begin_lance(&mut self, lance: &Lance)
        ensures
            final(self)@ == con_lance(old(self)@, *lance),
            final(self).tablas() == old(self).tablas(),
    {
        proof {
            use_type_invariant(&*self);
        }
        self.current_lance = Some(
            match lance {
                Lance::Grande => 0,
                Lance::Chica => 1,
                Lance::Pares => 2,
                Lance::Punto => 3,
                Lance::Juego => 3,
            },
        );
        self.current_node = 0;
    }

    /// Avanza en el árbol de envites con la acción y escribe el nodo en el historial del lance
    /// en curso. La acción tiene que tener hijo en el nodo actual.
    pub fn step_lance(&mut self, action: Accion)
        requires
            paso_lance_valido(old(self)@, old(self).tablas(), action),
        ensures
            final(self)@ == con_paso_lance(old(self)@, old(self).tablas(), action),
            final(self).tablas() == old(self).tablas(),
    {
        proof {
            use_type_invariant(&*self);
        }
        let lance_idx = self.current_lance.unwrap() as usize;
        let r = self.tables.paso_lance(self.current_node, action);
        let nodo = r as u32;
        let campo = self.tables.disposicion().history_lance[lance_idx];
        proof {
            lema_cabe_en_anchura(nodo as nat, self.tablas().arbol_lance().len());
            lema_potencia_desplazamiento(campo.width);
        }
        let mut h = self.public_history;
        put(&mut h, nodo as u64, campo.offset, campo.width);
        self.public_history = h;
        self.current_node = nodo;
    }

    /// Escribe la acción oculta del primero de una pareja (su índice canónico más uno), o la
    /// borra con `None`.
    pub fn set_hidden_action(&mut self, action: Option<Accion>)
        requires
            action matches Some(a) ==> canonica(a),
        ensures
            final(self)@ == con_oculta(old(self)@, old(self).tablas(), action),
            final(self).tablas() == old(self).tablas(),
    {
        proof {
            use_type_invariant(&*self);
            assert((1u64 << 3u32) == 8) by (bit_vector);
        }
        let code: u64 = match action {
            Some(a) => 1 + canonical_envite_action(a) as u64,
            None => 0,
        };
        let campo = self.tables.disposicion().hidden_action;
        let mut h = self.public_history;
        put(&mut h, code, campo.offset, campo.width);
        self.public_history = h;
    }

    /// Escribe en la parte pública qué manos tienen jugada en pares o en juego. En el resto de
    /// lances no hace nada.
    pub fn set_jugada(&mut self, lance: &Lance, manos: &[Mano])
        requires
            manos@.len() <= 4,
        ensures
            final(self)@ == con_jugada(old(self)@, old(self).tablas(), *lance, vistas(manos@)),
            final(self).tablas() == old(self).tablas(),
    {
        proof {
            use_type_invariant(&*self);
            assert((1u64 << 4u32) == 16) by (bit_vector);
        }
        match lance {
            Lance::Pares | Lance::Juego => {
                let mut jugada: u64 = 0;
                for i in 0..manos.len()
                    invariant
                        manos@.len() <= 4,
                        *lance == Lance::Pares || *lance == Lance::Juego,
                        jugada == bits_jugadas(*lance, vistas(manos@).take(i as int)),
                        jugada < potencia2(i as nat),
                {
                    let tiene = match lance {
                        Lance::Pares => manos[i].pares().is_some(),
                        _ => manos[i].juego().is_some(),
                    };
                    proof {
                        assert(vistas(manos@).take(i + 1).drop_last() =~= vistas(manos@).take(
                            i as int,
                        ));
                        assert(vistas(manos@).take(i + 1).last() == manos@[i as int]@);
                        reveal_with_fuel(potencia2, 5);
                        assert(potencia2(i as nat) <= 8);
                    }
                    jugada = jugada * 2 + if tiene {
                        1
                    } else {
                        0
                    };
                }
                proof {
                    assert(vistas(manos@).take(manos@.len() as int) =~= vistas(manos@));
                    reveal_with_fuel(potencia2, 5);
                    assert(potencia2(manos@.len() as nat) <= 16);
                }
                let campo = match lance {
                    Lance::Pares => self.tables.disposicion().jugadas_pares,
                    _ => self.tables.disposicion().jugadas_juego,
                };
                let mut h = self.public_history;
                put(&mut h, jugada, campo.offset, campo.width);
                self.public_history = h;
            },
            _ => {},
        }
    }
}

impl Clone for MusInfoSetBuilder {
    fn clone(&self) -> (r: Self)
        ensures
            r@ == self@,
            r.tablas() == self.tablas(),
    {
        proof {
            use_type_invariant(self);
        }
        MusInfoSetBuilder {
            public_history: self.public_history,
            private_history: self.private_history,
            tables: compartir(&self.tables),
            current_lance: self.current_lance,
            current_node: self.current_node,
        }
    }
}

} // verus!
