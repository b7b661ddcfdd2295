use vstd::prelude::*;

use crate::mus::{
    Carta, Juego, Lance, Mano, Pares, bit, conteo, figuras, juego_spec, mascara, mascara_hasta, pares_spec, puntos_carta,
    suma_puntos,
};

verus! {

/// Jugada abstracta de una mano en un lance: agrupa las manos que juegan igual.
#[derive(Debug, PartialEq, Eq, Clone, Copy)]
pub enum AbstractJugada {
    AbstractGrande(AbstractGrande),
    AbstractChica(AbstractChica),
    AbstractPares(AbstractPares),
    AbstractJuego(AbstractJuego),
    AbstractPunto(AbstractPunto),
}

/// Abstracción para grande: número de reyes (cerdos) y la mayor carta que no lo es.
#[derive(Debug, PartialEq, Eq, Clone, Copy)]
pub enum AbstractGrande {
    NoCerdos(Carta),
    UnCerdo(Carta),
    DosCerdos(Carta),
    TresCerdos(Carta),
}

/// Abstracción para chica: número de ases (pitos) y la menor carta que no lo es.
#[derive(Debug, PartialEq, Eq, Clone, Copy)]
pub enum AbstractChica {
    NoPitos(Carta),
    UnPito(Carta),
    DosPitos(Carta),
    TresPitos(Carta),
}

/// Abstracción para pares: tipo de jugada y valor de las cartas que la forman.
#[derive(Debug, PartialEq, Eq, Clone, Copy)]
pub enum AbstractPares {
    Pareja(Carta),
    Medias(Carta),
    Duples(Carta, Carta),
}

/// Abstracción para juego: el valor y, cuando importa para ganar, el número de figuras.
#[derive(Debug, PartialEq, Eq, Clone, Copy, Hash)]
pub enum AbstractJuego {
    Treintaytres,
    Treintaycuatro2F,
    Treintaycuatro3F,
    Treintaycinco,
    Treintayseis,
    Treintaysiete,
    Cuarenta,
    Treintaydos66,
    Treintaydos75,
    Treintayuna1F,
    Treintayuna2F74,
    Treintayuna2F65,
    Treintayuna3F,
}

/// Abstracción para punto: los puntos de la mano.
#[derive(Debug, PartialEq, Eq, Clone, Copy, Hash)]
pub enum AbstractPunto {
    Punto(u8),
}

/// Carta de un valor: as para el 1 y rey para el 12.
pub open spec fn carta_de_valor(v: int) -> Carta {
    Carta::from_valor_spec(v as u8).unwrap()
}

/// Menor valor, desde `v`, del que hay exactamente `k` cartas; 13 si no hay ninguno.
pub open spec fn primer_valor(s: Seq<Carta>, k: int, v: int) -> int
    decreases 13 - v,
{
    if v >= 13 {
        13
    } else if conteo(s, v) == k {
        v
    } else {
        primer_valor(s, k, v + 1)
    }
}

/// Mayor valor, por debajo de `v`, del que hay exactamente `k` cartas; -1 si no hay ninguno.
pub open spec fn ultimo_valor(s: Seq<Carta>, k: int, v: int) -> int
    decreases v,
{
    if v <= 0 {
        -1
    } else if conteo(s, v - 1) == k {
        v - 1
    } else {
        ultimo_valor(s, k, v - 1)
    }
}

/// Abstracción de grande de cuatro cartas ordenadas de mayor a menor.
pub open spec fn abstract_grande_spec(s: Seq<Carta>) -> AbstractJugada {
    if s[2].valor_spec() == 12 {
        AbstractJugada::AbstractGrande(AbstractGrande::TresCerdos(s[3]))
    } else if s[1].valor_spec() == 12 {
        AbstractJugada::AbstractGrande(AbstractGrande::DosCerdos(s[2]))
    } else if s[0].valor_spec() == 12 {
        AbstractJugada::AbstractGrande(AbstractGrande::UnCerdo(s[1]))
    } else {
        AbstractJugada::AbstractGrande(AbstractGrande::NoCerdos(s[0]))
    }
}

/// Abstracción de chica de cuatro cartas ordenadas de mayor a menor.
pub open spec fn abstract_chica_spec(s: Seq<Carta>) -> AbstractJugada {
    if s[1].valor_spec() == 1 {
        AbstractJugada::AbstractChica(AbstractChica::TresPitos(s[0]))
    } else if s[2].valor_spec() == 1 {
        AbstractJugada::AbstractChica(AbstractChica::DosPitos(s[1]))
    } else if s[3].valor_spec() == 1 {
        AbstractJugada::AbstractChica(AbstractChica::UnPito(s[2]))
    } else {
        AbstractJugada::AbstractChica(AbstractChica::NoPitos(s[3]))
    }
}

/// Abstracción de pares: la carta de la pareja o de las medias, y en duples las dos parejas,
/// la mayor primero (la misma carta dos veces si las cuatro son iguales).
pub open spec fn abstract_pares_spec(s: Seq<Carta>) -> Option<AbstractJugada> {
    match pares_spec(s) {
        None => None,
        Some(Pares::Pareja(_)) => Some(
            AbstractJugada::AbstractPares(AbstractPares::Pareja(carta_de_valor(primer_valor(s, 2, 0)))),
        ),
        Some(Pares::Medias(_)) => Some(
            AbstractJugada::AbstractPares(AbstractPares::Medias(carta_de_valor(primer_valor(s, 3, 0)))),
        ),
        Some(Pares::Duples(_)) => if mascara(s, 4) > 0 {
            Some(
                AbstractJugada::AbstractPares(
                    AbstractPares::Duples(
                        carta_de_valor(primer_valor(s, 4, 0)),
                        carta_de_valor(primer_valor(s, 4, 0)),
                    ),
                ),
            )
        } else {
            Some(
                AbstractJugada::AbstractPares(
                    AbstractPares::Duples(
                        carta_de_valor(ultimo_valor(s, 2, 13)),
                        carta_de_valor(primer_valor(s, 2, 0)),
                    ),
                ),
            )
        },
    }
}

/// Abstracción de juego de cuatro cartas ordenadas de mayor a menor.
pub open spec fn abstract_juego_spec(s: Seq<Carta>) -> Option<AbstractJugada> {
    match juego_spec(s) {
        None => None,
        Some(Juego::Treintaydos) => Some(
            AbstractJugada::AbstractJuego(
                if s[3].valor_spec() == 5 {
                    AbstractJuego::Treintaydos75
                } else {
                    AbstractJuego::Treintaydos66
                },
            ),
        ),
        Some(Juego::Treintayuna) => Some(
            AbstractJugada::AbstractJuego(
                if figuras(s) == 1 {
                    AbstractJuego::Treintayuna1F
                } else if figuras(s) == 2 {
                    if s[3].valor_spec() == 4 {
                        AbstractJuego::Treintayuna2F74
                    } else {
                        AbstractJuego::Treintayuna2F65
                    }
                } else {
                    AbstractJuego::Treintayuna3F
                },
            ),
        ),
        Some(Juego::Resto(v)) => Some(
            AbstractJugada::AbstractJuego(
                if v == 33 {
                    AbstractJuego::Treintaytres
                } else if v == 34 {
                    if figuras(s) == 2 {
                        AbstractJuego::Treintaycuatro2F
                    } else {
                        AbstractJuego::Treintaycuatro3F
                    }
                } else if v == 35 {
                    AbstractJuego::Treintaycinco
                } else if v == 36 {
                    AbstractJuego::Treintayseis
                } else if v == 37 {
                    AbstractJuego::Treintaysiete
                } else {
                    AbstractJuego::Cuarenta
                },
            ),
        ),
    }
}

/// Abstracción de una mano en un lance, si tiene jugada en él.
pub open spec fn abstraccion(s: Seq<Carta>, lance: Lance) -> Option<AbstractJugada> {
    match lance {
        Lance::Grande => Some(abstract_grande_spec(s)),
        Lance::Chica => Some(abstract_chica_spec(s)),
        Lance::Pares => abstract_pares_spec(s),
        Lance::Juego => abstract_juego_spec(s),
        Lance::Punto => Some(AbstractJugada::AbstractPunto(AbstractPunto::Punto(suma_puntos(s) as u8))),
    }
}

} // verus!

verus! {

/// Si hay cartas de un valor, ese valor es el de alguna carta.
proof fn lema_valor_presente(s: Seq<Carta>, v: int)
    requires
        conteo(s, v) > 0,
    ensures
        Carta::from_valor_spec(v as u8) is Some,
        0 <= v <= 12,
    decreases s.len(),
{
    if s.len() > 0 {
        if s.last().valor_spec() != v {
            lema_valor_presente(s.drop_last(), v);
        }
    }
}

/// Menor valor del que hay exactamente `k` cartas, según los contadores de cada valor.
fn primer_valor_con(contadores: &Vec<u8>, k: u8, Ghost(s): Ghost<Seq<Carta>>) -> (v: usize)
    requires
        contadores@.len() == 13,
        forall|u: int| 0 <= u < 13 ==> #[trigger] contadores@[u] == conteo(s, u),
    ensures
        v == primer_valor(s, k as int, 0),
        v <= 13,
{
    let mut v: usize = 0;
    while v < 13
        invariant
            v <= 13,
            contadores@.len() == 13,
            forall|u: int| 0 <= u < 13 ==> #[trigger] contadores@[u] == conteo(s, u),
            primer_valor(s, k as int, 0) == primer_valor(s, k as int, v as int),
        decreases 13 - v,
    {
        if contadores[v] == k {
            return v;
        }
        v = v + 1;
    }
    v
}

/// Mayor valor del que hay exactamente `k` cartas, según los contadores de cada valor.
fn ultimo_valor_con(contadores: &Vec<u8>, k: u8, Ghost(s): Ghost<Seq<Carta>>) -> (v: i32)
    requires
        contadores@.len() == 13,
        forall|u: int| 0 <= u < 13 ==> #[trigger] contadores@[u] == conteo(s, u),
    ensures
        v == ultimo_valor(s, k as int, 13),
        -1 <= v < 13,
{
    let mut v: usize = 13;
    while v > 0
        invariant
            v <= 13,
            contadores@.len() == 13,
            forall|u: int| 0 <= u < 13 ==> #[trigger] contadores@[u] == conteo(s, u),
            ultimo_valor(s, k as int, 13) == ultimo_valor(s, k as int, v as int),
        decreases v,
    {
        if contadores[v - 1] == k {
            return (v - 1) as i32;
        }
        v = v - 1;
    }
    -1
}

/// Carta del valor `v`, que es el de alguna carta de `s`.
fn carta_con_valor(v: usize, Ghost(s): Ghost<Seq<Carta>>) -> (c: Carta)
    requires
        v < 13,
        conteo(s, v as int) > 0,
    ensures
        c == carta_de_valor(v as int),
{
    proof {
        lema_valor_presente(s, v as int);
    }
    match Carta::desde_valor(v as u8) {
        Some(c) => c,
        None => Carta::As,
    }
}

impl AbstractGrande {
    /// Abstracción de grande de una mano de cuatro cartas ordenada de mayor a menor.
    pub fn abstract_hand(m: &Mano) -> (r: AbstractJugada)
        requires
            m@.len() == 4,
        ensures
            r == abstract_grande_spec(m@),
    {
        let cartas = m.cartas();
        if cartas[2] == Carta::Rey {
            AbstractJugada::AbstractGrande(AbstractGrande::TresCerdos(cartas[3]))
        } else if cartas[1] == Carta::Rey {
            AbstractJugada::AbstractGrande(AbstractGrande::DosCerdos(cartas[2]))
        } else if cartas[0] == Carta::Rey {
            AbstractJugada::AbstractGrande(AbstractGrande::UnCerdo(cartas[1]))
        } else {
            AbstractJugada::AbstractGrande(AbstractGrande::NoCerdos(cartas[0]))
        }
    }
}

impl AbstractChica {
    /// Abstracción de chica de una mano de cuatro cartas ordenada de mayor a menor.
    pub fn abstract_hand(m: &Mano) -> (r: AbstractJugada)
        requires
            m@.len() == 4,
        ensures
            r == abstract_chica_spec(m@),
    {
        let cartas = m.cartas();
        if cartas[1] == Carta::As {
            AbstractJugada::AbstractChica(AbstractChica::TresPitos(cartas[0]))
        } else if cartas[2] == Carta::As {
            AbstractJugada::AbstractChica(AbstractChica::DosPitos(cartas[1]))
        } else if cartas[3] == Carta::As {
            AbstractJugada::AbstractChica(AbstractChica::UnPito(cartas[2]))
        } else {
            AbstractJugada::AbstractChica(AbstractChica::NoPitos(cartas[3]))
        }
    }
}

impl AbstractPares {
    /// Abstracción de pares de una mano, o `None` si no tiene pares.
    pub fn abstract_hand(m: &Mano) -> (r: Option<AbstractJugada>)
        ensures
            r == abstract_pares_spec(m@),
    {
        let contadores = m.conteos();
        let ghost s = m@;
        match m.pares() {
            None => None,
            Some(Pares::Pareja(_)) => {
                let v = primer_valor_con(&contadores, 2, Ghost(s));
                proof {
                    lema_primer_valor_existe(s, 2);
                }
                Some(
                    AbstractJugada::AbstractPares(
                        AbstractPares::Pareja(carta_con_valor(v, Ghost(s))),
                    ),
                )
            },
            Some(Pares::Medias(_)) => {
                let v = primer_valor_con(&contadores, 3, Ghost(s));
                proof {
                    lema_primer_valor_existe(s, 3);
                }
                Some(
                    AbstractJugada::AbstractPares(
                        AbstractPares::Medias(carta_con_valor(v, Ghost(s))),
                    ),
                )
            },
            Some(Pares::Duples(_)) => {
                let v4 = primer_valor_con(&contadores, 4, Ghost(s));
                if v4 < 13 {
                    proof {
                        lema_mascara_positiva(s, 4);
                        lema_primer_valor_existe(s, 4);
                    }
                    let c = carta_con_valor(v4, Ghost(s));
                    Some(AbstractJugada::AbstractPares(AbstractPares::Duples(c, c)))
                } else {
                    let alto = ultimo_valor_con(&contadores, 2, Ghost(s));
                    let bajo = primer_valor_con(&contadores, 2, Ghost(s));
                    proof {
                        lema_mascara_positiva(s, 4);
                        lema_primer_valor_existe(s, 2);
                        lema_ultimo_valor_existe(s, 2);
                    }
                    Some(
                        AbstractJugada::AbstractPares(
                            AbstractPares::Duples(
                                carta_con_valor(alto as usize, Ghost(s)),
                                carta_con_valor(bajo, Ghost(s)),
                            ),
                        ),
                    )
                }
            },
        }
    }
}

} // verus!

verus! {

proof fn lema_bit_positivo(v: int)
    ensures
        bit(v) >= 1,
    decreases v,
{
    if v > 0 {
        lema_bit_positivo(v - 1);
    }
}

/// La máscara de los valores con `k` cartas es positiva justo cuando alguno lo tiene.
proof fn lema_mascara_hasta(s: Seq<Carta>, k: int, n: int)
    requires
        0 <= n <= 13,
    ensures
        mascara_hasta(s, k, n) >= 0,
        (mascara_hasta(s, k, n) > 0) == (exists|u: int| 0 <= u < n && #[trigger] conteo(s, u) == k),
    decreases n,
{
    if n > 0 {
        lema_mascara_hasta(s, k, n - 1);
        lema_bit_positivo(n - 1);
        if conteo(s, n - 1) == k {
            assert(0 <= n - 1 < n && conteo(s, n - 1) == k);
        }
        if exists|u: int| 0 <= u < n && #[trigger] conteo(s, u) == k {
            let u = choose|u: int| 0 <= u < n && #[trigger] conteo(s, u) == k;
            if u < n - 1 {
                assert(0 <= u < n - 1 && conteo(s, u) == k);
            }
        }
    }
}

/// El primer valor desde `v` con `k` cartas existe justo cuando alguno lo tiene.
proof fn lema_primer_valor(s: Seq<Carta>, k: int, v: int)
    requires
        0 <= v <= 13,
    ensures
        v <= primer_valor(s, k, v) <= 13,
        primer_valor(s, k, v) < 13 ==> conteo(s, primer_valor(s, k, v)) == k,
        (primer_valor(s, k, v) < 13) == (exists|u: int| v <= u < 13 && #[trigger] conteo(s, u) == k),
    decreases 13 - v,
{
    if v < 13 {
        lema_primer_valor(s, k, v + 1);
        if conteo(s, v) == k {
            assert(v <= v < 13 && conteo(s, v) == k);
        }
        if exists|u: int| v <= u < 13 && #[trigger] conteo(s, u) == k {
            let u = choose|u: int| v <= u < 13 && #[trigger] conteo(s, u) == k;
            if u > v {
                assert(v + 1 <= u < 13 && conteo(s, u) == k);
            }
        }
    }
}

/// El último valor por debajo de `v` con `k` cartas existe justo cuando alguno lo tiene.
proof fn lema_ultimo_valor(s: Seq<Carta>, k: int, v: int)
    requires
        0 <= v <= 13,
    ensures
        -1 <= ultimo_valor(s, k, v) < v,
        ultimo_valor(s, k, v) >= 0 ==> conteo(s, ultimo_valor(s, k, v)) == k,
        (ultimo_valor(s, k, v) >= 0) == (exists|u: int| 0 <= u < v && #[trigger] conteo(s, u) == k),
    decreases v,
{
    if v > 0 {
        lema_ultimo_valor(s, k, v - 1);
        if conteo(s, v - 1) == k {
            assert(0 <= v - 1 < v && conteo(s, v - 1) == k);
        }
        if exists|u: int| 0 <= u < v && #[trigger] conteo(s, u) == k {
            let u = choose|u: int| 0 <= u < v && #[trigger] conteo(s, u) == k;
            if u < v - 1 {
                assert(0 <= u < v - 1 && conteo(s, u) == k);
            }
        }
    }
}

/// Si hay un valor con `k` cartas, el primero y el último existen y lo tienen.
proof fn lema_primer_valor_existe(s: Seq<Carta>, k: int)
    requires
        mascara(s, k) > 0,
    ensures
        primer_valor(s, k, 0) < 13,
        conteo(s, primer_valor(s, k, 0)) == k,
        k > 0 ==> conteo(s, primer_valor(s, k, 0)) > 0,
{
    lema_mascara_hasta(s, k, 13);
    lema_primer_valor(s, k, 0);
}

proof fn lema_ultimo_valor_existe(s: Seq<Carta>, k: int)
    requires
        mascara(s, k) > 0,
    ensures
        0 <= ultimo_valor(s, k, 13) < 13,
        conteo(s, ultimo_valor(s, k, 13)) == k,
{
    lema_mascara_hasta(s, k, 13);
    lema_ultimo_valor(s, k, 13);
}

/// La máscara de `k` es positiva justo cuando existe el primer valor con `k` cartas.
proof fn lema_mascara_positiva(s: Seq<Carta>, k: int)
    ensures
        (mascara(s, k) > 0) == (primer_valor(s, k, 0) < 13),
{
    lema_mascara_hasta(s, k, 13);
    lema_primer_valor(s, k, 0);
}

} // verus!

verus! {

/// Con cuatro cartas no se suman 38 ni 39 puntos, y 31 se hace con una, dos o tres figuras.
proof fn lema_juego_cuatro_cartas(s: Seq<Carta>)
    requires
        s.len() == 4,
    ensures
        suma_puntos(s) != 38,
        suma_puntos(s) != 39,
        suma_puntos(s) == 31 ==> 1 <= figuras(s) <= 3,
{
    reveal_with_fuel(suma_puntos, 5);
    reveal_with_fuel(figuras, 5);
    let s3 = s.drop_last();
    let s2 = s3.drop_last();
    let s1 = s2.drop_last();
    assert(s1.drop_last().len() == 0);
    assert(s1.last() == s[0]);
    assert(s2.last() == s[1]);
    assert(s3.last() == s[2]);
    assert(s.last() == s[3]);
    assert(suma_puntos(s) == puntos_carta(s[0]) + puntos_carta(s[1]) + puntos_carta(s[2])
        + puntos_carta(s[3]));
}

impl AbstractJuego {
    /// Abstracción de juego de una mano de cuatro cartas ordenada de mayor a menor, o `None` si
    /// no tiene juego.
    pub fn abstract_hand(m: &Mano) -> (r: Option<AbstractJugada>)
        requires
            m@.len() == 4,
        ensures
            r == abstract_juego_spec(m@),
            r == Some(AbstractJugada::AbstractJuego(AbstractJuego::Cuarenta)) ==> suma_puntos(m@)
                == 40,
            r == Some(AbstractJugada::AbstractJuego(AbstractJuego::Treintayuna3F)) ==> figuras(m@)
                == 3,
    {
        proof {
            lema_juego_cuatro_cartas(m@);
        }
        let cartas = m.cartas();
        match m.juego() {
            None => None,
            Some(Juego::Treintaydos) => Some(
                AbstractJugada::AbstractJuego(
                    if cartas[3].valor() == 5 {
                        AbstractJuego::Treintaydos75
                    } else {
                        AbstractJuego::Treintaydos66
                    },
                ),
            ),
            Some(Juego::Treintayuna) => {
                let f = m.num_figuras();
                Some(
                    AbstractJugada::AbstractJuego(
                        if f == 1 {
                            AbstractJuego::Treintayuna1F
                        } else if f == 2 {
                            if cartas[3].valor() == 4 {
                                AbstractJuego::Treintayuna2F74
                            } else {
                                AbstractJuego::Treintayuna2F65
                            }
                        } else {
                            AbstractJuego::Treintayuna3F
                        },
                    ),
                )
            },
            Some(Juego::Resto(v)) => Some(
                AbstractJugada::AbstractJuego(
                    if v == 33 {
                        AbstractJuego::Treintaytres
                    } else if v == 34 {
                        if m.num_figuras() == 2 {
                            AbstractJuego::Treintaycuatro2F
                        } else {
                            AbstractJuego::Treintaycuatro3F
                        }
                    } else if v == 35 {
                        AbstractJuego::Treintaycinco
                    } else if v == 36 {
                        AbstractJuego::Treintayseis
                    } else if v == 37 {
                        AbstractJuego::Treintaysiete
                    } else {
                        AbstractJuego::Cuarenta
                    },
                ),
            ),
        }
    }
}

impl AbstractPunto {
    /// Abstracción de punto de una mano: sus puntos.
    pub fn abstract_hand(m: &Mano) -> (r: AbstractJugada)
        ensures
            r == AbstractJugada::AbstractPunto(AbstractPunto::Punto(suma_puntos(m@) as u8)),
    {
        AbstractJugada::AbstractPunto(AbstractPunto::Punto(m.valor_puntos()))
    }
}

impl AbstractJugada {
    /// Abstracción de una mano de cuatro cartas en un lance, o `None` si no tiene jugada en él.
    pub fn to_abstract(m: &Mano, lance: &Lance) -> (r: Option<AbstractJugada>)
        requires
            m@.len() == 4,
        ensures
            r == abstraccion(m@, *lance),
    {
        match lance {
            Lance::Grande => Some(AbstractGrande::abstract_hand(m)),
            Lance::Chica => Some(AbstractChica::abstract_hand(m)),
            Lance::Pares => AbstractPares::abstract_hand(m),
            Lance::Juego => AbstractJuego::abstract_hand(m),
            Lance::Punto => Some(AbstractPunto::abstract_hand(m)),
        }
    }
}

} // verus!
