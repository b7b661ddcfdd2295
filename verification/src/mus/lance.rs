use vstd::prelude::*;

use super::mano::{lema_suma_puntos_cota, suma_puntos, vistas};
use super::{Accion, Carta, Mano, MusError, lema_max_accion_conmutativa, max_accion};

verus! {

/// Jugadas del lance juego.
#[derive(Hash, Debug, PartialOrd, Ord, PartialEq, Eq, Structural, Clone, Copy)]
pub enum Juego {
    Resto(u8),
    Treintaydos,
    Treintayuna,
}

/// Jugadas del lance pares. El entero es una máscara de bits con los valores de las cartas que
/// forman la jugada.
#[derive(Hash, Debug, PartialOrd, Ord, PartialEq, Eq, Structural, Clone, Copy)]
pub enum Pares {
    Pareja(u16),
    Medias(u16),
    Duples(u16),
}

/// Jugada de una mano en los lances de pares o juego.
pub enum Jugada {
    Pares(Pares),
    Juego(Juego),
}

/// Lances de una partida de mus.
#[derive(Hash, Eq, PartialEq, Structural, Copy, Clone, Debug)]
pub enum Lance {
    Grande,
    Chica,
    Pares,
    Punto,
    Juego,
}

/// Potencia de dos.
pub open spec fn bit(v: int) -> int
    decreases v,
{
    if v <= 0 {
        1
    } else {
        2 * bit(v - 1)
    }
}

/// Número de cartas de la secuencia que tienen el valor `v`.
pub open spec fn conteo(s: Seq<Carta>, v: int) -> int
    decreases s.len(),
{
    if s.len() == 0 {
        0
    } else {
        conteo(s.drop_last(), v) + if s.last().valor_spec() == v {
            1int
        } else {
            0int
        }
    }
}

/// Máscara de bits de los valores menores que `v` que aparecen exactamente `k` veces.
pub open spec fn mascara_hasta(s: Seq<Carta>, k: int, v: int) -> int
    decreases v,
{
    if v <= 0 {
        0
    } else {
        mascara_hasta(s, k, v - 1) + if conteo(s, v - 1) == k {
            bit(v - 1)
        } else {
            0
        }
    }
}

/// Número de valores menores que `v` que aparecen exactamente `k` veces.
pub open spec fn valores_hasta(s: Seq<Carta>, k: int, v: int) -> int
    decreases v,
{
    if v <= 0 {
        0
    } else {
        valores_hasta(s, k, v - 1) + if conteo(s, v - 1) == k {
            1int
        } else {
            0int
        }
    }
}

/// Máscara de los valores (de 0 a 12) que aparecen exactamente `k` veces.
pub open spec fn mascara(s: Seq<Carta>, k: int) -> int {
    mascara_hasta(s, k, 13)
}

/// Jugada de pares de unas cartas. Cuatro cartas iguales son duples, con la máscara desplazada un
/// bit para distinguirlas de los duples de dos parejas.
pub open spec fn pares_spec(s: Seq<Carta>) -> Option<Pares> {
    if mascara(s, 4) > 0 {
        Some(Pares::Duples((2 * mascara(s, 4)) as u16))
    } else if mascara(s, 3) > 0 {
        Some(Pares::Medias(mascara(s, 3) as u16))
    } else if mascara(s, 2) > 0 {
        if valores_hasta(s, 2, 13) == 2 {
            Some(Pares::Duples(mascara(s, 2) as u16))
        } else {
            Some(Pares::Pareja(mascara(s, 2) as u16))
        }
    } else {
        None
    }
}

/// Jugada de juego de unas cartas.
pub open spec fn juego_spec(s: Seq<Carta>) -> Option<Juego> {
    let p = suma_puntos(s);
    if p == 31 {
        Some(Juego::Treintayuna)
    } else if p == 32 {
        Some(Juego::Treintaydos)
    } else if 33 <= p <= 40 {
        Some(Juego::Resto(p as u8))
    } else {
        None
    }
}

/// Valor de las cuatro cartas como un número en base 256, la primera carta en el byte más alto.
pub open spec fn valor_grande_spec(s: Seq<Carta>) -> int {
    s[0].valor_spec() * 16777216 + s[1].valor_spec() * 65536 + s[2].valor_spec() * 256
        + s[3].valor_spec()
}

/// Valor de las cuatro cartas como un número en base 256, la última carta en el byte más alto.
pub open spec fn valor_chica_spec(s: Seq<Carta>) -> int {
    s[3].valor_spec() * 16777216 + s[2].valor_spec() * 65536 + s[1].valor_spec() * 256
        + s[0].valor_spec()
}

proof fn lema_bit(v: int)
    requires
        0 <= v,
    ensures
        bit(v) >= 1,
        bit(v + 1) == 2 * bit(v),
    decreases v,
{
    if v > 0 {
        lema_bit(v - 1);
    }
}

proof fn lema_bit_13()
    ensures
        bit(13) == 8192,
{
    reveal_with_fuel(bit, 14);
}

proof fn lema_mascara_cota(s: Seq<Carta>, k: int, v: int)
    requires
        0 <= v,
    ensures
        0 <= mascara_hasta(s, k, v) < bit(v),
        0 <= valores_hasta(s, k, v) <= v,
    decreases v,
{
    if v > 0 {
        lema_mascara_cota(s, k, v - 1);
        lema_bit(v - 1);
    }
}

proof fn lema_conteo_cota(s: Seq<Carta>, v: int)
    ensures
        0 <= conteo(s, v) <= s.len(),
    decreases s.len(),
{
    if s.len() > 0 {
        lema_conteo_cota(s.drop_last(), v);
    }
}

impl Mano {
    /// Valor de la mano para el lance de grande: las cartas en base 256, la primera en el byte
    /// más alto.
    pub fn valor_grande(&self) -> (v: usize)
        requires
            self@.len() == 4,
        ensures
            v == valor_grande_spec(self@),
    {
        let c = self.cartas();
        (c[0].valor() as usize) * 16777216 + (c[1].valor() as usize) * 65536 + (
        c[2].valor() as usize) * 256 + c[3].valor() as usize
    }

    /// Valor de la mano para el lance de chica: las cartas en base 256, la última en el byte más
    /// alto.
    pub fn valor_chica(&self) -> (v: usize)
        requires
            self@.len() == 4,
        ensures
            v == valor_chica_spec(self@),
    {
        let c = self.cartas();
        (c[3].valor() as usize) * 16777216 + (c[2].valor() as usize) * 65536 + (
        c[1].valor() as usize) * 256 + c[0].valor() as usize
    }

    /// Indica si la mano tiene una jugada para el lance de pares, y en caso contrario devuelve
    /// None.
    pub fn pares(&self) -> (p: Option<Pares>)
        ensures
            p == pares_spec(self@),
    {
        let c = self.cartas();
        let contadores = self.conteos();
        let mut b: u16 = 1;

        let mut m2: u16 = 0;
        let mut m3: u16 = 0;
        let mut m4: u16 = 0;
        let mut n2: u8 = 0;
        for v in 0..13usize
            invariant
                c@ == self@,
                contadores@.len() == 13,
                forall|u: int| 0 <= u < 13 ==> contadores@[u] == conteo(c@, u),
                b == bit(v as int),
                m2 == mascara_hasta(c@, 2, v as int),
                m3 == mascara_hasta(c@, 3, v as int),
                m4 == mascara_hasta(c@, 4, v as int),
                n2 == valores_hasta(c@, 2, v as int),
        {
            proof {
                lema_bit(v as int);
                lema_bit_13();
                lema_mascara_cota(c@, 2, v as int);
                lema_mascara_cota(c@, 3, v as int);
                lema_mascara_cota(c@, 4, v as int);
                lema_mascara_cota(c@, 2, 13);
                lema_bit_mono(v as int + 1, 13);
            }
            let k = contadores[v];
            if k == 2 {
                m2 = m2 + b;
                n2 = n2 + 1;
            } else if k == 3 {
                m3 = m3 + b;
            } else if k == 4 {
                m4 = m4 + b;
            }
            b = b * 2;
        }
        proof {
            lema_mascara_cota(c@, 4, 13);
            lema_bit_13();
        }
        if m4 > 0 {
            return Some(Pares::Duples(m4 * 2));
        }
        if m3 > 0 {
            return Some(Pares::Medias(m3));
        }
        if m2 > 0 {
            if n2 == 2 {
                return Some(Pares::Duples(m2));
            }
            return Some(Pares::Pareja(m2));
        }
        None
    }

    /// Número de cartas de cada valor, de 0 a 12.
    pub fn conteos(&self) -> (contadores: Vec<u8>)
        ensures
            contadores@.len() == 13,
            forall|u: int| 0 <= u < 13 ==> #[trigger] contadores@[u] == conteo(self@, u),
            forall|u: int| 0 <= u < 13 ==> #[trigger] contadores@[u] <= 4,
    {
        let c = self.cartas();
        let mut contadores: Vec<u8> = Vec::new();
        for v in 0..13usize
            invariant
                contadores@.len() == v,
                forall|u: int| 0 <= u < v ==> contadores@[u] == 0,
        {
            contadores.push(0);
        }
        for i in 0..c.len()
            invariant
                c@ == self@,
                c@.len() <= 4,
                contadores@.len() == 13,
                forall|u: int| 0 <= u < 13 ==> contadores@[u] == conteo(c@.take(i as int), u),
        {
            proof {
                assert(c@.take(i + 1).drop_last() =~= c@.take(i as int));
                lema_conteo_cota(c@.take(i as int), c@[i as int].valor_spec() as int);
            }
            let v = c[i].valor() as usize;
            let actual = contadores[v];
            contadores.set(v, actual + 1);
        }
        proof {
            assert(c@.take(c@.len() as int) =~= c@);
            assert forall|u: int| 0 <= u < 13 implies #[trigger] contadores@[u] <= 4 by {
                lema_conteo_cota(c@, u);
            }
        }
        contadores
    }

    /// Devuelve los puntos de la mano para los lances de punto y juego.
    pub fn valor_puntos(&self) -> (p: u8)
        ensures
            p == suma_puntos(self@),
    {
        let c = self.cartas();
        let mut total: u8 = 0;
        for i in 0..c.len()
            invariant
                c@ == self@,
                c@.len() <= 4,
                total == suma_puntos(c@.take(i as int)),
        {
            proof {
                assert(c@.take(i + 1).drop_last() =~= c@.take(i as int));
                lema_suma_puntos_cota(c@.take(i as int));
            }
            if c[i].valor() >= 10 {
                total = total + 10;
            } else {
                total = total + c[i].valor();
            }
        }
        proof {
            assert(c@.take(c@.len() as int) =~= c@);
        }
        total
    }

    /// Indica si la mano tiene jugada para el lance de juego. En caso contrario devuelve None.
    pub fn juego(&self) -> (j: Option<Juego>)
        ensures
            j == juego_spec(self@),
    {
        let p = self.valor_puntos();
        if p == 31 {
            Some(Juego::Treintayuna)
        } else if p == 32 {
            Some(Juego::Treintaydos)
        } else if 33 <= p && p <= 40 {
            Some(Juego::Resto(p))
        } else {
            None
        }
    }
}

proof fn lema_bit_mono(a: int, b: int)
    requires
        0 <= a <= b,
    ensures
        bit(a) <= bit(b),
    decreases b - a,
{
    if a < b {
        lema_bit_mono(a, b - 1);
        lema_bit(b - 1);
    }
}

} // verus!

verus! {

/// Orden de las jugadas de pares, tal como las ordena su `Ord`: primero por tipo y después por la
/// máscara. No tener jugada es lo menor.
pub open spec fn rango_pares(p: Option<Pares>) -> int {
    match p {
        None => 0,
        Some(Pares::Pareja(v)) => 1 + v,
        Some(Pares::Medias(v)) => 65537 + v,
        Some(Pares::Duples(v)) => 131073 + v,
    }
}

/// Orden de las jugadas de juego, tal como las ordena su `Ord`: el resto por su valor, después
/// treinta y dos y la mejor es treinta y una. No tener jugada es lo menor.
pub open spec fn rango_juego(j: Option<Juego>) -> int {
    match j {
        None => 0,
        Some(Juego::Resto(v)) => 1 + v,
        Some(Juego::Treintaydos) => 300,
        Some(Juego::Treintayuna) => 301,
    }
}

/// Fuerza de unas cartas en un lance: de dos manos gana la de mayor fuerza.
pub open spec fn fuerza_spec(lance: Lance, s: Seq<Carta>) -> int {
    match lance {
        Lance::Grande => valor_grande_spec(s),
        Lance::Chica => -valor_chica_spec(s),
        Lance::Pares => rango_pares(pares_spec(s)),
        Lance::Juego => rango_juego(juego_spec(s)),
        Lance::Punto => suma_puntos(s),
    }
}

/// Orden entre dos enteros.
pub open spec fn orden_de(x: int, y: int) -> core::cmp::Ordering {
    if x < y {
        core::cmp::Ordering::Less
    } else if x == y {
        core::cmp::Ordering::Equal
    } else {
        core::cmp::Ordering::Greater
    }
}

/// Las manos que necesita un lance para compararse: en grande y chica se miran las cuatro cartas.
pub open spec fn mano_comparable(lance: Lance, s: Seq<Carta>) -> bool {
    (lance == Lance::Grande || lance == Lance::Chica) ==> s.len() == 4
}

/// Si la mano tiene jugada en el lance. En grande, chica y punto siempre la tiene.
pub open spec fn tiene_jugada(lance: Lance, s: Seq<Carta>) -> bool {
    match lance {
        Lance::Pares => pares_spec(s) is Some,
        Lance::Juego => juego_spec(s) is Some,
        _ => true,
    }
}

/// Si alguna de las manos con índice de paridad `paridad` (o cualquiera, si es `None`) tiene
/// jugada en el lance.
pub open spec fn alguna_con_jugada(lance: Lance, manos: Seq<Seq<Carta>>, paridad: Option<int>) -> bool {
    exists|i: int|
        0 <= i < manos.len() && tiene_jugada(lance, #[trigger] manos[i]) && match paridad {
            Some(p) => i % 2 == p,
            None => true,
        }
}

/// Tantos que vale la jugada de una mano en el lance: en pares uno por pareja, dos por medias y
/// tres por duples; en juego tres por treinta y una y dos por cualquier otro juego.
pub open spec fn tantos_mano_spec(lance: Lance, s: Seq<Carta>) -> u8 {
    match lance {
        Lance::Pares => match pares_spec(s) {
            Some(Pares::Pareja(_)) => 1,
            Some(Pares::Medias(_)) => 2,
            Some(Pares::Duples(_)) => 3,
            None => 0,
        },
        Lance::Juego => match juego_spec(s) {
            Some(Juego::Treintayuna) => 3,
            Some(_) => 2,
            None => 0,
        },
        _ => 0,
    }
}

/// Pareja que empieza a hablar en un lance con cuatro manos.
pub open spec fn turno_inicial_spec(lance: Lance, manos: Seq<Seq<Carta>>) -> usize {
    match lance {
        Lance::Pares | Lance::Juego => if !tiene_jugada(lance, manos[3]) && tiene_jugada(
            lance,
            manos[1],
        ) && tiene_jugada(lance, manos[2]) {
            1
        } else {
            0
        },
        _ => 0,
    }
}

/// Si el lance tiene lugar con estas manos.
pub open spec fn hay_lance_spec(lance: Lance, manos: Seq<Seq<Carta>>) -> bool {
    match lance {
        Lance::Grande | Lance::Chica => true,
        Lance::Pares | Lance::Juego => alguna_con_jugada(lance, manos, None),
        Lance::Punto => !alguna_con_jugada(Lance::Juego, manos, None),
    }
}

/// Si el lance tiene envites: en pares y juego hace falta que cada pareja tenga alguna mano con
/// jugada.
pub open spec fn se_juega_spec(lance: Lance, manos: Seq<Seq<Carta>>) -> bool {
    match lance {
        Lance::Grande | Lance::Chica => true,
        Lance::Pares | Lance::Juego => alguna_con_jugada(lance, manos, Some(0))
            && alguna_con_jugada(lance, manos, Some(1)),
        Lance::Punto => !alguna_con_jugada(Lance::Juego, manos, None),
    }
}

impl Lance {
    /// Fuerza de una mano en el lance. La mejor de dos manos es la de mayor fuerza.
    pub fn fuerza(&self, m: &Mano) -> (f: i64)
        requires
            mano_comparable(*self, m@),
        ensures
            f == fuerza_spec(*self, m@),
    {
        match self {
            Lance::Grande => m.valor_grande() as i64,
            Lance::Chica => -(m.valor_chica() as i64),
            Lance::Pares => match m.pares() {
                None => 0,
                Some(Pares::Pareja(v)) => 1 + v as i64,
                Some(Pares::Medias(v)) => 65537 + v as i64,
                Some(Pares::Duples(v)) => 131073 + v as i64,
            },
            Lance::Juego => match m.juego() {
                None => 0,
                Some(Juego::Resto(v)) => 1 + v as i64,
                Some(Juego::Treintaydos) => 300,
                Some(Juego::Treintayuna) => 301,
            },
            Lance::Punto => m.valor_puntos() as i64,
        }
    }

    /// Compara dos manos en el lance: `Greater` si gana la primera.
    pub fn compara_manos(&self, a: &Mano, b: &Mano) -> (r: core::cmp::Ordering)
        requires
            mano_comparable(*self, a@),
            mano_comparable(*self, b@),
        ensures
            r == orden_de(fuerza_spec(*self, a@), fuerza_spec(*self, b@)),
    {
        let fa = self.fuerza(a);
        let fb = self.fuerza(b);
        if fa < fb {
            core::cmp::Ordering::Less
        } else if fa == fb {
            core::cmp::Ordering::Equal
        } else {
            core::cmp::Ordering::Greater
        }
    }

    /// Dado un vector de manos de mus, devuelve el índice de la mejor de ellas en el lance. Se
    /// asume que la primera mano es la del jugador mano y la última la del postre, así que en
    /// caso de empate gana la mano con menor índice.
    pub fn mejor_mano(&self, manos: &[Mano]) -> (r: usize)
        requires
            manos@.len() > 0,
            forall|i: int| 0 <= i < manos@.len() ==> mano_comparable(*self, #[trigger] manos@[i]@),
        ensures
            r < manos@.len(),
            forall|j: int|
                0 <= j < manos@.len() ==> fuerza_spec(*self, #[trigger] manos@[j]@) <= fuerza_spec(
                    *self,
                    manos@[r as int]@,
                ),
            forall|j: int|
                0 <= j < r ==> fuerza_spec(*self, #[trigger] manos@[j]@) < fuerza_spec(
                    *self,
                    manos@[r as int]@,
                ),
    {
        let mut mejor: usize = 0;
        let mut f_mejor = self.fuerza(&manos[0]);
        for i in 1..manos.len()
            invariant
                mejor < i <= manos@.len(),
                forall|k: int| 0 <= k < manos@.len() ==> mano_comparable(*self, #[trigger] manos@[k]@),
                f_mejor == fuerza_spec(*self, manos@[mejor as int]@),
                forall|j: int| 0 <= j < i ==> fuerza_spec(*self, #[trigger] manos@[j]@) <= f_mejor,
                forall|j: int| 0 <= j < mejor ==> fuerza_spec(*self, #[trigger] manos@[j]@) < f_mejor,
        {
            let f = self.fuerza(&manos[i]);
            if f > f_mejor {
                mejor = i;
                f_mejor = f;
            }
        }
        mejor
    }

    /// Tantos asociados al valor de una mano. En los lances de pares y juego se corresponde con el
    /// tanteo de las jugadas y en el resto de lances es cero.
    pub fn tantos_mano(&self, mano: &Mano) -> (t: u8)
        ensures
            t == tantos_mano_spec(*self, mano@),
    {
        match self {
            Lance::Pares => match mano.pares() {
                Some(Pares::Pareja(_)) => 1,
                Some(Pares::Medias(_)) => 2,
                Some(Pares::Duples(_)) => 3,
                None => 0,
            },
            Lance::Juego => match mano.juego() {
                Some(Juego::Treintayuna) => 3,
                Some(Juego::Treintaydos) | Some(Juego::Resto(_)) => 2,
                None => 0,
            },
            _ => 0,
        }
    }

    /// Tantos apostados cuando todos los jugadores pasan. Es 1 para los lances de grande y chica y
    /// 0 para el resto.
    pub fn apuesta_minima(&self) -> (t: u8)
        ensures
            t == (if *self == Lance::Grande || *self == Lance::Chica {
                1u8
            } else {
                0u8
            }),
    {
        if let Lance::Grande | Lance::Chica = self {
            1
        } else {
            0
        }
    }

    /// Tantos extra recibidos por ganar el lance. Es 1 para el lance de punto y 0 para el resto.
    pub fn bonus(&self) -> (t: u8)
        ensures
            t == (if *self == Lance::Punto {
                1u8
            } else {
                0u8
            }),
    {
        if let Lance::Punto = self {
            1
        } else {
            0
        }
    }

    /// Indica si alguna de las jugadas existe.
    pub fn hay_lance_jugadas<T>(&self, manos: &[Option<T>]) -> (r: bool)
        ensures
            r == exists|i: int| 0 <= i < manos@.len() && (#[trigger] manos@[i]) is Some,
    {
        for i in 0..manos.len()
            invariant
                forall|k: int| 0 <= k < i ==> (#[trigger] manos@[k]) is None,
        {
            if manos[i].is_some() {
                return true;
            }
        }
        false
    }

    /// Indica si la mano tiene jugada en el lance. En grande, chica y punto siempre la tiene.
    pub fn tiene_jugada(&self, mano: &Mano) -> (r: bool)
        ensures
            r == tiene_jugada(*self, mano@),
    {
        match self {
            Lance::Pares => mano.pares().is_some(),
            Lance::Juego => mano.juego().is_some(),
            _ => true,
        }
    }

    /// Indica si alguna de las manos con la paridad indicada (o cualquiera) tiene jugada.
    fn alguna_con_jugada(&self, manos: &[Mano], paridad: Option<usize>) -> (r: bool)
        requires
            paridad matches Some(p) ==> p < 2,
        ensures
            r == alguna_con_jugada(
                *self,
                vistas(manos@),
                match paridad {
                    Some(p) => Some(p as int),
                    None => None,
                },
            ),
    {
        let ghost par = match paridad {
            Some(p) => Some(p as int),
            None => None,
        };
        for i in 0..manos.len()
            invariant
                paridad matches Some(p) ==> p < 2,
                par == match paridad {
                    Some(p) => Some(p as int),
                    None => None::<int>,
                },
                forall|k: int|
                    0 <= k < i ==> !(tiene_jugada(*self, #[trigger] manos@[k]@) && match par {
                        Some(p) => k % 2 == p,
                        None => true,
                    }),
        {
            let cuenta = match paridad {
                Some(p) => i % 2 == p,
                None => true,
            };
            if cuenta && self.tiene_jugada(&manos[i]) {
                proof {
                    assert(vistas(manos@)[i as int] == manos@[i as int]@);
                }
                return true;
            }
        }
        false
    }

    /// Indica qué pareja es la primera en actuar. Por lo general será la pareja del jugador mano,
    /// pero en los lances de pares y juego puede darse la situación contraria en dos casos: que
    /// solo tengan jugada el jugador a la derecha del mano y la pareja del mano, o que el único
    /// sin jugada sea el jugador postre.
    ///
    /// En este último caso, el jugador de la pareja postre está intercalado entre los dos rivales.
    /// Se asume que en esa configuración el jugador mano siempre va a pasar a la espera de lo que
    /// decida su compañero, por lo que empezaría hablando el jugador que está solo.
    pub fn turno_inicial(&self, manos: &[Mano]) -> (t: usize)
        requires
            (*self == Lance::Pares || *self == Lance::Juego) ==> manos@.len() >= 4,
        ensures
            t == turno_inicial_spec(*self, vistas(manos@)),
    {
        match self {
            Lance::Grande | Lance::Chica | Lance::Punto => 0,
            _ => {
                if self.tiene_jugada(&manos[3]) {
                    return 0;
                }
                if self.tiene_jugada(&manos[1]) && self.tiene_jugada(&manos[2]) {
                    1
                } else {
                    0
                }
            },
        }
    }

    /// Devuelve un bool indicando si el lance tiene lugar, independientemente de si hay lugar a
    /// envites. En los lances de grande y chica siempre devuelve true, en pares y juego si algún
    /// jugador tiene jugada, y en punto si no hay ningún jugador con juego.
    pub fn hay_lance(&self, manos: &[Mano]) -> (r: bool)
        ensures
            r == hay_lance_spec(*self, vistas(manos@)),
    {
        match self {
            Lance::Grande | Lance::Chica => true,
            Lance::Pares | Lance::Juego => self.alguna_con_jugada(manos, None),
            Lance::Punto => !Lance::Juego.alguna_con_jugada(manos, None),
        }
    }

    /// Devuelve un bool indicando si el lance tiene envites. Para ello es necesario que al menos
    /// un jugador de cada pareja tenga jugada. Las parejas las forman las manos de índice par y
    /// las de índice impar.
    pub fn se_juega(&self, manos: &[Mano]) -> (r: bool)
        ensures
            r == se_juega_spec(*self, vistas(manos@)),
    {
        match self {
            Lance::Grande | Lance::Chica => true,
            Lance::Pares | Lance::Juego => self.alguna_con_jugada(manos, Some(0))
                && self.alguna_con_jugada(manos, Some(1)),
            Lance::Punto => !Lance::Juego.alguna_con_jugada(manos, None),
        }
    }
}

} // verus!

verus! {

/// Tantos totales apostados en un lance.
#[derive(PartialOrd, Ord, PartialEq, Eq, Structural, Copy, Clone, Debug)]
pub enum Apuesta {
    Tantos(u8),
    Ordago,
}

/// Representa el turno, bien de un jugador individual o de una pareja.
#[derive(Debug, PartialEq, Eq, Structural, Clone, Copy)]
pub enum Turno {
    /// Turno de un jugador individual.
    ///
    /// El entero representa el identificador de jugador, que puede tomar valores de 0 a 3, siendo
    /// 0 el jugador mano y 3 el jugador postre.
    Jugador(u8),
    /// Turno de una pareja.
    ///
    /// El entero representa el identificador de jugador que tiene que actuar. La diferencia
    /// respecto al turno de jugador es que el turno de pareja implica siempre que se solicitará la
    /// acción de los dos jugadores de la pareja. Solo se tomará en consideración la acción mayor
    /// de las dos.
    Pareja(u8),
}

/// Jugador al que corresponde un turno.
pub open spec fn jugador_de(t: Turno) -> u8 {
    match t {
        Turno::Jugador(p) => p,
        Turno::Pareja(p) => p,
    }
}

impl Turno {
    /// Identificador del jugador que tiene el turno.
    pub fn player_id(&self) -> (p: u8)
        ensures
            p == jugador_de(*self),
    {
        match self {
            Turno::Jugador(p) => *p,
            Turno::Pareja(p) => *p,
        }
    }
}

/// Orden de las apuestas, el mismo que da su `Ord`: los tantos por su número y el órdago por
/// encima de todos.
pub open spec fn rango_apuesta(a: Apuesta) -> int {
    match a {
        Apuesta::Tantos(t) => t as int,
        Apuesta::Ordago => 256,
    }
}

/// Una apuesta no supera la apuesta máxima del lance.
pub open spec fn apuesta_acotada(a: Apuesta, maxima: u8) -> bool {
    a matches Apuesta::Tantos(t) ==> t <= maxima
}

/// Jugadores de la secuencia con la paridad indicada, en el mismo orden.
pub open spec fn de_paridad(s: Seq<u8>, p: int) -> Seq<u8>
    decreases s.len(),
{
    if s.len() == 0 {
        Seq::empty()
    } else if s.last() % 2 == p {
        de_paridad(s.drop_last(), p).push(s.last())
    } else {
        de_paridad(s.drop_last(), p)
    }
}

/// Turnos de los jugadores de una pareja que participan en el lance: si juega uno solo, habla
/// como jugador; si juegan los dos, hablan como pareja.
pub open spec fn turnos_pareja(p: Seq<u8>) -> (Option<Turno>, Option<Turno>) {
    if p.len() == 1 {
        (Some(Turno::Jugador(p[0])), None)
    } else if p.len() == 2 {
        (Some(Turno::Pareja(p[0])), Some(Turno::Pareja(p[1])))
    } else {
        (None, None)
    }
}

/// Pareja que empieza a hablar: la del mano, salvo que juegan el jugador 1 solo contra el 2 (solo
/// o con el 0).
pub open spec fn pareja_inicial(jugadores: Seq<u8>) -> u8 {
    let m = turnos_pareja(de_paridad(jugadores, 0));
    let p = turnos_pareja(de_paridad(jugadores, 1));
    if (m == (Some(Turno::Jugador(2)), None::<Turno>) || m == (
    Some(Turno::Pareja(0)), Some(Turno::Pareja(2)))) && p == (Some(Turno::Jugador(1)), None::<Turno>) {
        1
    } else {
        0
    }
}

/// Primer turno del lance, o `None` si no hay envites: falta una de las parejas, o en el punto
/// una de ellas no tiene a sus dos jugadores.
pub open spec fn turno_inicial_lance(lance: Lance, jugadores: Seq<u8>) -> Option<Turno> {
    let m = de_paridad(jugadores, 0);
    let p = de_paridad(jugadores, 1);
    if m.len() == 0 || p.len() == 0 || (lance == Lance::Punto && (m.len() < 2 || p.len() < 2)) {
        None
    } else if pareja_inicial(jugadores) == 0 {
        turnos_pareja(m).0
    } else {
        turnos_pareja(p).0
    }
}

/// Nuevo bote tras un envite: se suman los tantos envidados (al menos dos) sin pasar de la
/// apuesta máxima, o se pasa a órdago. `None` si la acción no es un envite o si ya hay órdago.
pub open spec fn bote_tras_envite(bote: Apuesta, a: Accion, maxima: u8) -> Option<Apuesta> {
    match bote {
        Apuesta::Ordago => None,
        Apuesta::Tantos(t) => match a {
            Accion::Envido(n) => {
                let e = if n < 2 {
                    2int
                } else {
                    n as int
                };
                Some(
                    Apuesta::Tantos(
                        if t + e < maxima {
                            (t + e) as u8
                        } else {
                            maxima
                        },
                    ),
                )
            },
            Accion::Ordago => Some(Apuesta::Ordago),
            _ => None,
        },
    }
}

/// Simula la secuencia de envites de un lance suponiendo que los jugadores juegan por parejas. Si
/// los cuatro jugadores participan en el lance, denotando el jugador mano como 0 y el jugador
/// postre como 3, el orden de juego es: 0-2-1-3.
#[derive(Debug, Copy)]
pub struct EstadoLance {
    aceptado: Apuesta,
    bote: Apuesta,
    turno: Option<Turno>,
    ultimo_envite: u8,
    apuesta_maxima: u8,
    apuesta_minima: u8,
    ganador: Option<u8>,
    jugador_mejor_mano: u8,
    tantos_mano: [u8; 2],
    idx_turno: u8,
    pareja_mano: (Option<Turno>, Option<Turno>),
    pareja_postre: (Option<Turno>, Option<Turno>),
    accion_pareja: Option<Accion>,
}

impl EstadoLance {
    #[verifier::type_invariant]
    spec fn inv(self) -> bool {
        &&& self.idx_turno <= 1
        &&& self.ultimo_envite <= 1
        &&& apuesta_acotada(self.aceptado, self.apuesta_maxima)
        &&& apuesta_acotada(self.bote, self.apuesta_maxima)
        &&& rango_apuesta(self.aceptado) <= rango_apuesta(self.bote)
        &&& self.ganador matches Some(g) ==> g <= 1
        &&& self.ganador is Some ==> self.turno is None
        &&& self.apuesta_minima <= 1
    }

    /// Turno del jugador o pareja que tiene que actuar, o `None` si ya no hay envites.
    pub closed spec fn turno_spec(self) -> Option<Turno> {
        self.turno
    }

    /// Última apuesta, aceptada o no.
    pub closed spec fn ultima_apuesta_spec(self) -> Apuesta {
        self.bote
    }

    /// Apuesta aceptada: la que se quiso o la que se aceptó al subirla.
    pub closed spec fn aceptada_spec(self) -> Apuesta {
        self.aceptado
    }

    /// Pareja ganadora, si ya la hay.
    pub closed spec fn ganador_spec(self) -> Option<u8> {
        self.ganador
    }

    /// Apuesta máxima del lance.
    pub closed spec fn apuesta_maxima_spec(self) -> u8 {
        self.apuesta_maxima
    }

    /// Tantos que se apuestan si todos pasan.
    pub closed spec fn apuesta_minima_spec(self) -> u8 {
        self.apuesta_minima
    }

    /// Jugador con la mejor mano.
    pub closed spec fn mejor_mano_spec(self) -> u8 {
        self.jugador_mejor_mano
    }

    /// Tantos de las jugadas de cada pareja.
    pub closed spec fn tantos_mano_spec(self) -> [u8; 2] {
        self.tantos_mano
    }

    /// Turnos de la pareja que tiene la voz.
    pub closed spec fn pareja_activa(self) -> (Option<Turno>, Option<Turno>) {
        if self.idx_turno == 0 {
            self.pareja_mano
        } else {
            self.pareja_postre
        }
    }

    /// Si la acción es la del primer miembro de una pareja, que espera a su compañero.
    pub closed spec fn espera_companero(self) -> bool {
        self.pareja_activa().1 is Some && self.accion_pareja is None
    }

    /// Acción que cuenta para la pareja: la mayor de las de sus dos miembros.
    pub closed spec fn accion_efectiva(self, a: Accion) -> Accion {
        match self.accion_pareja {
            Some(b) => max_accion(a, b),
            None => a,
        }
    }

    /// Si la acción se puede procesar sin desbordar los tantos del bote.
    pub closed spec fn admite(self, a: Accion) -> bool {
        (self.turno is Some && !self.espera_companero()) ==> match (
            self.accion_efectiva(a),
            self.bote,
        ) {
            (Accion::Envido(n), Apuesta::Tantos(t)) => t + (if n < 2 {
                2int
            } else {
                n as int
            }) <= 255,
            _ => true,
        }
    }

    /// Estado y respuesta tras actuar con la acción `a`.
    pub closed spec fn paso(self, a: Accion) -> Result<(EstadoLance, Option<Turno>), MusError> {
        if self.turno is None {
            Err(MusError::AccionNoValida)
        } else if self.espera_companero() {
            let t = self.pareja_activa().1;
            Ok((EstadoLance { accion_pareja: Some(a), turno: t, ..self }, t))
        } else {
            let m = self.accion_efectiva(a);
            let tras: Option<(Apuesta, Apuesta, u8)> = match m {
                Accion::Paso => Some((self.aceptado, self.bote, self.ultimo_envite)),
                Accion::Quiero => Some((self.bote, self.bote, self.ultimo_envite)),
                _ => match bote_tras_envite(self.bote, m, self.apuesta_maxima) {
                    Some(nb) => Some((self.bote, nb, self.idx_turno)),
                    None => None,
                },
            };
            match tras {
                None => Err(MusError::AccionNoValida),
                Some((ac, bo, ue)) => {
                    let idx = (1 - self.idx_turno) as u8;
                    if idx == ue {
                        let g = if ac != bo {
                            Some(idx)
                        } else {
                            self.ganador
                        };
                        Ok(
                            (
                                EstadoLance {
                                    aceptado: ac,
                                    bote: bo,
                                    ultimo_envite: ue,
                                    idx_turno: idx,
                                    ganador: g,
                                    turno: None,
                                    ..self
                                },
                                None,
                            ),
                        )
                    } else {
                        let t = if idx == 0 {
                            self.pareja_mano.0
                        } else {
                            self.pareja_postre.0
                        };
                        Ok(
                            (
                                EstadoLance {
                                    aceptado: ac,
                                    bote: bo,
                                    ultimo_envite: ue,
                                    idx_turno: idx,
                                    accion_pareja: None,
                                    turno: t,
                                    ..self
                                },
                                t,
                            ),
                        )
                    }
                },
            }
        }
    }

    /// En el turno de una pareja solo cuenta la mayor de las acciones de sus dos miembros, sea
    /// cual sea el orden en que hablen. La primera acción pasa la voz al compañero sin cambiar
    /// la apuesta; tras la segunda, el lance sigue igual con un orden que con el otro: el mismo
    /// turno, las mismas apuestas y el mismo ganador, o el mismo error.
    pub proof fn lema_orden_en_pareja(self, a: Accion, b: Accion)
        requires
            self.turno_spec() is Some,
            self.espera_companero(),
        ensures
            self.paso(a) matches Ok((ea, t)) && t == self.pareja_activa().1 && ea.turno_spec() == t
                && ea.ultima_apuesta_spec() == self.ultima_apuesta_spec()
                && ea.aceptada_spec() == self.aceptada_spec(),
            match (self.paso(a), self.paso(b)) {
                (Ok((ea, _)), Ok((eb, _))) => match (ea.paso(b), eb.paso(a)) {
                    (Ok((x, tx)), Ok((y, ty))) => {
                        &&& tx == ty
                        &&& x.turno_spec() == y.turno_spec()
                        &&& x.ultima_apuesta_spec() == y.ultima_apuesta_spec()
                        &&& x.aceptada_spec() == y.aceptada_spec()
                        &&& x.tantos_apostados_spec() == y.tantos_apostados_spec()
                        &&& x.ganador_spec() == y.ganador_spec()
                    },
                    (Err(x), Err(y)) => x == y,
                    _ => false,
                },
                _ => false,
            },
    {
        lema_max_accion_conmutativa(a, b);
    }

    /// Estado una vez resuelto el lance con el ganador indicado.
    pub closed spec fn resuelto(self, g: u8) -> EstadoLance {
        EstadoLance { turno: None, ganador: Some(g), ..self }
    }

    /// El turno que se devuelve tras una acción es el del nuevo estado.
    pub proof fn lema_paso_turno(self, a: Accion)
        ensures
            self.paso(a) matches Ok((e2, t)) ==> e2.turno_spec() == t,
    {
    }

    /// Lance en el que cada pareja juega con un solo jugador: nadie espera a su compañero.
    pub closed spec fn sin_parejas(self) -> bool {
        self.pareja_mano.1 is None && self.pareja_postre.1 is None && self.accion_pareja is None
    }

    /// Un envite con esta acción sube de verdad la apuesta: no se envida cuando ya se ha llegado
    /// a la apuesta máxima.
    pub open spec fn sube(self, a: Accion) -> bool {
        a matches Accion::Envido(_) ==> self.ultima_apuesta_spec() matches Apuesta::Tantos(t) && t
            < self.apuesta_maxima_spec()
    }

    /// Sin parejas y con turno, pasar y querer siempre se admiten, y envidar o echar un órdago
    /// mientras no haya órdago.
    pub proof fn lema_paso_ok(self, a: Accion)
        requires
            self.sin_parejas(),
            self.turno_spec() is Some,
            (a is Envido || a is Ordago) ==> self.ultima_apuesta_spec() is Tantos,
            a is Paso || a is Quiero || a is Envido || a is Ordago,
        ensures
            self.paso(a) is Ok,
    {
    }

    /// Sin parejas, un envite pequeño sobre un bote pequeño no desborda los tantos.
    pub proof fn lema_admite(self, a: Accion)
        requires
            self.sin_parejas(),
            a matches Accion::Envido(n) ==> n <= 200,
            self.ultima_apuesta_spec() matches Apuesta::Tantos(t) ==> t <= 40,
        ensures
            self.admite(a),
    {
    }

    /// Con dos manos, en grande o chica juegan los dos jugadores, uno por pareja, y empieza el
    /// mano.
    pub proof fn lema_dos_manos(lance: Lance, manos: Seq<Seq<Carta>>, m: u8)
        requires
            manos.len() == 2,
            lance == Lance::Grande || lance == Lance::Chica,
        ensures
            EstadoLance::inicial(lance, manos, m).sin_parejas(),
            EstadoLance::inicial(lance, manos, m).turno_spec() == Some(Turno::Jugador(0)),
    {
        reveal_with_fuel(activos_hasta, 3);
        let j = activos(lance, manos);
        assert(j =~= seq![0u8, 1u8]);
        reveal_with_fuel(de_paridad, 3);
        assert(de_paridad(j, 0) =~= seq![0u8]) by {
            assert(j.drop_last() =~= seq![0u8]);
            assert(j.drop_last().drop_last() =~= Seq::<u8>::empty());
        }
        assert(de_paridad(j, 1) =~= seq![1u8]) by {
            assert(j.drop_last() =~= seq![0u8]);
            assert(j.drop_last().drop_last() =~= Seq::<u8>::empty());
        }
    }

    /// Medida de lo que le queda al lance: baja con cada acción tras la que el lance sigue, si
    /// los envites suben la apuesta.
    pub closed spec fn medida(self) -> nat {
        (2 * (257 - rango_apuesta(self.bote)) + if self.idx_turno == self.ultimo_envite {
            1int
        } else {
            0int
        }) as nat
    }

    /// Sin turno no se admite ninguna acción.
    pub proof fn lema_sin_turno(self, a: Accion)
        requires
            self.turno_spec() is None,
        ensures
            self.paso(a) == Err::<(EstadoLance, Option<Turno>), MusError>(MusError::AccionNoValida),
    {
    }

    /// Los envites que tiene pendientes el primer miembro de una pareja son pequeños.
    pub closed spec fn envites_acotados(self) -> bool {
        self.accion_pareja matches Some(Accion::Envido(n)) ==> n <= 200
    }

    /// Con los envites pendientes acotados, un envite pequeño sobre un bote pequeño no desborda
    /// los tantos.
    pub proof fn lema_admite_acotado(self, a: Accion)
        requires
            self.envites_acotados(),
            a matches Accion::Envido(n) ==> n <= 200,
            self.ultima_apuesta_spec() matches Apuesta::Tantos(t) ==> t <= 40,
        ensures
            self.admite(a),
    {
    }

    /// Resolver el lance solo cierra el turno y fija el ganador: el resto del estado no cambia.
    pub broadcast proof fn lema_resuelto(self, g: u8)
        ensures
            #[trigger] self.resuelto(g).apuesta_maxima_spec() == self.apuesta_maxima_spec(),
            self.resuelto(g).apuesta_minima_spec() == self.apuesta_minima_spec(),
            self.resuelto(g).tantos_apostados_spec() == self.tantos_apostados_spec(),
            self.resuelto(g).ultima_apuesta_spec() == self.ultima_apuesta_spec(),
            self.resuelto(g).aceptada_spec() == self.aceptada_spec(),
            self.resuelto(g).mejor_mano_spec() == self.mejor_mano_spec(),
            self.resuelto(g).tantos_mano_spec() == self.tantos_mano_spec(),
            self.resuelto(g).turno_spec() is None,
            self.resuelto(g).ganador_spec() == Some(g),
            (self.turno_spec() is None && self.ganador_spec() == Some(g)) ==> self.resuelto(g)
                == self,
    {
    }

    /// Acción del primero de la pareja que tiene la voz, mientras espera a su compañero.
    pub closed spec fn accion_companero_spec(self) -> Option<Accion> {
        self.accion_pareja
    }

    /// Tantos apostados a partir de las apuestas: la aceptada; uno si se rechazó el primer
    /// envite, cuando no había nada aceptado; y la apuesta mínima si nadie envidó.
    pub proof fn lema_tantos_apostados(self)
        ensures
            self.tantos_apostados_spec() == ({
                let apostado = if self.aceptada_spec() == Apuesta::Tantos(0) && rango_apuesta(
                    self.ultima_apuesta_spec(),
                ) > 0 {
                    Apuesta::Tantos(1)
                } else {
                    self.aceptada_spec()
                };
                if apostado == Apuesta::Tantos(0) {
                    Apuesta::Tantos(self.apuesta_minima_spec())
                } else {
                    apostado
                }
            }),
    {
    }

    /// Estado inicial de un lance: nada apostado ni aceptado, sin ganador y con el primer turno
    /// de los jugadores que participan.
    pub proof fn lema_inicial(lance: Lance, manos: Seq<Seq<Carta>>, apuesta_maxima: u8)
        ensures
            ({
                let e = EstadoLance::inicial(lance, manos, apuesta_maxima);
                &&& e.turno_spec() == turno_inicial_lance(lance, activos(lance, manos))
                &&& e.ultima_apuesta_spec() == Apuesta::Tantos(0)
                &&& e.aceptada_spec() == Apuesta::Tantos(0)
                &&& e.ganador_spec() is None
                &&& e.apuesta_maxima_spec() == apuesta_maxima
                &&& e.apuesta_minima_spec() == lance.apuesta_minima_spec()
                &&& e.mejor_mano_spec() == mejor_indice(lance, manos) as u8
                &&& e.tantos_mano_spec() == [
                    tantos_pareja(lance, manos, 0) as u8,
                    tantos_pareja(lance, manos, 1) as u8,
                ]
                &&& e.accion_companero_spec() is None
            }),
    {
    }

    /// La voz y el ganador, si lo hay, son de una de las dos parejas.
    pub closed spec fn parejas_validas(self) -> bool {
        &&& self.idx_turno <= 1
        &&& self.ganador matches Some(g) ==> g <= 1
    }

    /// Un lance recién empezado tiene la voz y el ganador en una de las dos parejas, y actuar lo
    /// mantiene; entonces el ganador es la pareja 0 o la 1.
    pub proof fn lema_parejas_validas(self, a: Accion, lance: Lance, manos: Seq<Seq<Carta>>, m: u8)
        ensures
            EstadoLance::inicial(lance, manos, m).parejas_validas(),
            self.parejas_validas() ==> (self.paso(a) matches Ok((e2, _)) ==> e2.parejas_validas()),
            self.parejas_validas() ==> (self.ganador_spec() matches Some(g) ==> g <= 1),
    {
    }

    /// Actuar no cambia lo que no son las apuestas y los turnos: los tantos de las jugadas de
    /// cada pareja, la mejor mano y las apuestas mínima y máxima.
    pub proof fn lema_paso_conserva(self, a: Accion)
        ensures
            self.paso(a) matches Ok((e2, _)) ==> {
                &&& e2.tantos_mano_spec() == self.tantos_mano_spec()
                &&& e2.mejor_mano_spec() == self.mejor_mano_spec()
                &&& e2.apuesta_minima_spec() == self.apuesta_minima_spec()
                &&& e2.apuesta_maxima_spec() == self.apuesta_maxima_spec()
            },
    {
    }

    /// La acción que cuenta es la mayor entre la recibida y la del compañero que ya habló.
    pub proof fn lema_accion_efectiva(self, a: Accion)
        ensures
            self.accion_efectiva(a) == match self.accion_companero_spec() {
                Some(b) => max_accion(a, b),
                None => a,
            },
    {
    }

    /// Lo que hace un paso con las apuestas. Sin turno es un error. Si habla el primero de una
    /// pareja, su acción queda a la espera del compañero, que pasa a tener la voz, sin tocar las
    /// apuestas. Si no, cuenta la acción efectiva: pasar no cambia nada; querer acepta la última
    /// apuesta; un envite acepta tácitamente la última apuesta y la sube, y es un error si no se
    /// puede subir.
    pub proof fn lema_paso_apuestas(self, a: Accion)
        ensures
            self.turno_spec() is None ==> self.paso(a) == Err::<(EstadoLance, Option<Turno>), MusError>(
                MusError::AccionNoValida,
            ),
            (self.turno_spec() is Some && self.espera_companero()) ==> (self.paso(a) matches Ok(
                (e2, t),
            ) && t is Some && e2.turno_spec() == t && e2.ultima_apuesta_spec()
                == self.ultima_apuesta_spec() && e2.aceptada_spec() == self.aceptada_spec()
                && e2.ganador_spec() == self.ganador_spec() && e2.accion_companero_spec() == Some(a)),
            (self.turno_spec() is Some && !self.espera_companero()) ==> match self.accion_efectiva(
                a,
            ) {
                Accion::Paso => self.paso(a) matches Ok((e2, t)) && e2.turno_spec() == t
                    && e2.ultima_apuesta_spec() == self.ultima_apuesta_spec() && e2.aceptada_spec()
                    == self.aceptada_spec(),
                Accion::Quiero => self.paso(a) matches Ok((e2, t)) && e2.turno_spec() == t
                    && e2.ultima_apuesta_spec() == self.ultima_apuesta_spec() && e2.aceptada_spec()
                    == self.ultima_apuesta_spec(),
                m => match bote_tras_envite(
                    self.ultima_apuesta_spec(),
                    m,
                    self.apuesta_maxima_spec(),
                ) {
                    Some(nb) => self.paso(a) matches Ok((e2, t)) && e2.turno_spec() == t
                        && e2.ultima_apuesta_spec() == nb && e2.aceptada_spec()
                        == self.ultima_apuesta_spec(),
                    None => self.paso(a) == Err::<(EstadoLance, Option<Turno>), MusError>(
                        MusError::AccionNoValida,
                    ),
                },
            },
    {
    }

    /// Tantos apostados según el estado: ver [`EstadoLance::tantos_apostados`].
    pub closed spec fn tantos_apostados_spec(self) -> Apuesta {
        let apostado = if self.aceptado == Apuesta::Tantos(0) && rango_apuesta(self.bote) > 0 {
            Apuesta::Tantos(1)
        } else {
            self.aceptado
        };
        if apostado == Apuesta::Tantos(0) {
            Apuesta::Tantos(self.apuesta_minima)
        } else {
            apostado
        }
    }

    /// Estado inicial de un lance en el que participan los jugadores indicados: nada apostado,
    /// sin ganador y con la voz en la pareja que empieza a hablar.
    pub closed spec fn con_jugadores_spec(
        lance: Lance,
        jugadores: Seq<u8>,
        tantos_mano: [u8; 2],
        jugador_mejor_mano: u8,
        apuesta_maxima: u8,
    ) -> EstadoLance {
        EstadoLance {
            aceptado: Apuesta::Tantos(0),
            bote: Apuesta::Tantos(0),
            turno: turno_inicial_lance(lance, jugadores),
            ultimo_envite: pareja_inicial(jugadores),
            apuesta_maxima,
            apuesta_minima: lance.apuesta_minima_spec(),
            ganador: None,
            jugador_mejor_mano,
            tantos_mano,
            idx_turno: pareja_inicial(jugadores),
            pareja_mano: turnos_pareja(de_paridad(jugadores, 0)),
            pareja_postre: turnos_pareja(de_paridad(jugadores, 1)),
            accion_pareja: None,
        }
    }

    /// Estado inicial del lance jugado con estas manos: participan las manos con jugada, los
    /// tantos de mano son los de cada pareja y la mejor mano es la que indica
    /// [`mejor_indice`].
    pub closed spec fn inicial(lance: Lance, manos: Seq<Seq<Carta>>, apuesta_maxima: u8) -> EstadoLance {
        EstadoLance::con_jugadores_spec(
            lance,
            activos(lance, manos),
            [tantos_pareja(lance, manos, 0) as u8, tantos_pareja(lance, manos, 1) as u8],
            mejor_indice(lance, manos) as u8,
            apuesta_maxima,
        )
    }

    /// Crea el estado de un lance en el que participan los jugadores indicados. Los jugadores de
    /// índice par forman la pareja del mano y los de índice impar la del postre.
    pub fn con_jugadores(
        lance: &Lance,
        jugadores: &[u8],
        tantos_mano: [u8; 2],
        jugador_mejor_mano: u8,
        apuesta_maxima: u8,
    ) -> (e: Self)
        ensures
            e.turno_spec() == turno_inicial_lance(*lance, jugadores@),
            e.ultima_apuesta_spec() == Apuesta::Tantos(0),
            e.aceptada_spec() == Apuesta::Tantos(0),
            e.ganador_spec() is None,
            e.apuesta_maxima_spec() == apuesta_maxima,
            e.apuesta_minima_spec() == lance.apuesta_minima_spec(),
            e.mejor_mano_spec() == jugador_mejor_mano,
            e.tantos_mano_spec() == tantos_mano,
            e.pareja_activa() == turnos_pareja(
                de_paridad(jugadores@, pareja_inicial(jugadores@) as int),
            ),
            !e.espera_companero() || e.pareja_activa().1 is Some,
            e.envites_acotados(),
            e == EstadoLance::con_jugadores_spec(
                *lance,
                jugadores@,
                tantos_mano,
                jugador_mejor_mano,
                apuesta_maxima,
            ),
    {
        let mut pareja_mano: Vec<u8> = Vec::new();
        let mut pareja_postre: Vec<u8> = Vec::new();
        for i in 0..jugadores.len()
            invariant
                pareja_mano@ == de_paridad(jugadores@.take(i as int), 0),
                pareja_postre@ == de_paridad(jugadores@.take(i as int), 1),
                pareja_mano@.len() <= i,
                pareja_postre@.len() <= i,
        {
            proof {
                assert(jugadores@.take(i + 1).drop_last() =~= jugadores@.take(i as int));
            }
            let j = jugadores[i];
            if j % 2 == 0 {
                pareja_mano.push(j);
            } else {
                pareja_postre.push(j);
            }
        }
        proof {
            assert(jugadores@.take(jugadores@.len() as int) =~= jugadores@);
        }
        let tm = Self::turnos_de(&pareja_mano);
        let tp = Self::turnos_de(&pareja_postre);
        let dos_contra_uno = match (tm, tp) {
            ((Some(Turno::Jugador(2)), None), (Some(Turno::Jugador(1)), None)) => true,
            ((Some(Turno::Pareja(0)), Some(Turno::Pareja(2))), (Some(Turno::Jugador(1)), None)) => true,
            _ => false,
        };
        let idx_turno: u8 = if dos_contra_uno {
            1
        } else {
            0
        };
        let sin_envites = pareja_mano.len() == 0 || pareja_postre.len() == 0 || (match lance {
            Lance::Punto => true,
            _ => false,
        } && (pareja_mano.len() < 2 || pareja_postre.len() < 2));
        let turno = if sin_envites {
            None
        } else if idx_turno == 0 {
            tm.0
        } else {
            tp.0
        };
        EstadoLance {
            aceptado: Apuesta::Tantos(0),
            bote: Apuesta::Tantos(0),
            turno,
            ultimo_envite: idx_turno,
            apuesta_maxima,
            apuesta_minima: lance.apuesta_minima(),
            ganador: None,
            jugador_mejor_mano,
            tantos_mano,
            idx_turno,
            pareja_mano: tm,
            pareja_postre: tp,
            accion_pareja: None,
        }
    }

    fn turnos_de(p: &Vec<u8>) -> (t: (Option<Turno>, Option<Turno>))
        ensures
            t == turnos_pareja(p@),
    {
        if p.len() == 1 {
            (Some(Turno::Jugador(p[0])), None)
        } else if p.len() == 2 {
            (Some(Turno::Pareja(p[0])), Some(Turno::Pareja(p[1])))
        } else {
            (None, None)
        }
    }

    /// Efectúa la acción para el jugador del turno actual.
    /// Devuelve el turno del siguiente jugador o None si la ronda de envites acabó.
    /// Devuelve un error si se intenta actuar cuando ya ha terminado la ronda de envites, o si la
    /// acción no es válida en el estado actual; en ese caso el estado no cambia.
    pub fn actuar(&mut self, a: Accion) -> (r: Result<Option<Turno>, MusError>)
        requires
            old(self).admite(a),
        ensures
            match old(self).paso(a) {
                Ok((e, t)) => r == Ok::<Option<Turno>, MusError>(t) && *final(self) == e,
                Err(err) => r == Err::<Option<Turno>, MusError>(err) && *final(self) == *old(self),
            },
            r matches Ok(t) ==> final(self).turno_spec() == t,
            old(self).turno_spec() is None ==> r == Err::<Option<Turno>, MusError>(
                MusError::AccionNoValida,
            ),
            rango_apuesta(old(self).ultima_apuesta_spec()) <= rango_apuesta(
                final(self).ultima_apuesta_spec(),
            ),
            old(self).ganador_spec() is Some ==> final(self).ganador_spec()
                == old(self).ganador_spec(),
            final(self).apuesta_maxima_spec() == old(self).apuesta_maxima_spec(),
            final(self).apuesta_minima_spec() == old(self).apuesta_minima_spec(),
            final(self).mejor_mano_spec() == old(self).mejor_mano_spec(),
            final(self).tantos_mano_spec() == old(self).tantos_mano_spec(),
            old(self).sin_parejas() ==> final(self).sin_parejas(),
            (old(self).envites_acotados() && (a matches Accion::Envido(n) ==> n <= 200))
                ==> final(self).envites_acotados(),
            (old(self).sin_parejas() && old(self).sube(a) && r matches Ok(Some(_)))
                ==> final(self).medida() < old(self).medida(),
    {
        proof {
            use_type_invariant(&*self);
        }
        if self.turno.is_none() {
            return Err(MusError::AccionNoValida);
        }
        let activa = if self.idx_turno == 0 {
            self.pareja_mano
        } else {
            self.pareja_postre
        };
        if activa.1.is_some() && self.accion_pareja.is_none() {
            self.accion_pareja = Some(a);
            self.turno = activa.1;
            return Ok(self.turno);
        }
        let efectiva = match self.accion_pareja {
            Some(b) => Accion::mayor(a, b),
            None => a,
        };
        match efectiva {
            Accion::Paso => {},
            Accion::Quiero => {
                self.aceptado = self.bote;
            },
            _ => {
                self.procesar_envite(efectiva)?;
            },
        }
        self.idx_turno = 1 - self.idx_turno;
        if self.idx_turno == self.ultimo_envite {
            self.turno = None;
            if self.aceptado != self.bote {
                self.ganador = Some(self.idx_turno);
            }
            return Ok(None);
        }
        self.accion_pareja = None;
        self.turno = if self.idx_turno == 0 {
            self.pareja_mano.0
        } else {
            self.pareja_postre.0
        };
        proof {
            if old(self).sin_parejas() && old(self).sube(a) {
                assert(efectiva == a);
                assert(old(self).idx_turno <= 1 && old(self).ultimo_envite <= 1);
                if a is Paso || a is Quiero {
                    assert(old(self).idx_turno == old(self).ultimo_envite);
                    assert(self.bote == old(self).bote);
                } else {
                    assert(rango_apuesta(self.bote) > rango_apuesta(old(self).bote));
                    assert(self.idx_turno != self.ultimo_envite);
                }
            }
        }
        Ok(self.turno)
    }

    fn procesar_envite(&mut self, a: Accion) -> (r: Result<(), MusError>)
        requires
            match (a, old(self).bote) {
                (Accion::Envido(n), Apuesta::Tantos(t)) => t + (if n < 2 {
                    2int
                } else {
                    n as int
                }) <= 255,
                _ => true,
            },
        ensures
            match bote_tras_envite(old(self).bote, a, old(self).apuesta_maxima) {
                Some(nb) => r is Ok && *final(self) == (EstadoLance {
                    aceptado: old(self).bote,
                    bote: nb,
                    ultimo_envite: old(self).idx_turno,
                    ..*old(self)
                }),
                None => r == Err::<(), MusError>(MusError::AccionNoValida) && *final(self) == *old(
                    self,
                ),
            },
    {
        proof {
            use_type_invariant(&*self);
        }
        let ultima_apuesta = match self.bote {
            Apuesta::Tantos(t) => t,
            Apuesta::Ordago => return Err(MusError::AccionNoValida),
        };
        let nuevo_bote = match a {
            Accion::Envido(n) => {
                let e = if n < 2 {
                    2
                } else {
                    n
                };
                let suma = ultima_apuesta + e;
                Apuesta::Tantos(
                    if suma < self.apuesta_maxima {
                        suma
                    } else {
                        self.apuesta_maxima
                    },
                )
            },
            Accion::Ordago => Apuesta::Ordago,
            _ => return Err(MusError::AccionNoValida),
        };
        self.aceptado = self.bote;
        self.bote = nuevo_bote;
        self.ultimo_envite = self.idx_turno;
        Ok(())
    }

    /// Devuelve los tantos totales apostados en el lance hasta el momento. Se considera apostada
    /// cualquier cantidad que se quiso o que se ha aceptado tácitamente con un nuevo envite. En
    /// caso de que rechace un envite sin que hubiera en ese momento tantos apostados, se asume que
    /// se apuesta un tanto. Si el lance tiene apuesta mínima y todos los jugadores pasaron, se
    /// asume que se apuesta esa cantidad. Esto último solo ocurre en grande y chica.
    pub fn tantos_apostados(&self) -> (a: Apuesta)
        ensures
            a == self.tantos_apostados_spec(),
            a matches Apuesta::Tantos(t) ==> t <= self.apuesta_maxima_spec() || t <= 1,
    {
        proof {
            use_type_invariant(self);
        }
        let hay_envite = match self.bote {
            Apuesta::Tantos(t) => t > 0,
            Apuesta::Ordago => true,
        };
        let apostado = if self.aceptado == Apuesta::Tantos(0) && hay_envite {
            Apuesta::Tantos(1)
        } else {
            self.aceptado
        };
        if apostado == Apuesta::Tantos(0) {
            Apuesta::Tantos(self.apuesta_minima)
        } else {
            apostado
        }
    }

    /// Devuelve los tantos de mano de cada una de las parejas.
    pub fn tantos_mano(&self) -> (t: &[u8; 2])
        ensures
            *t == self.tantos_mano_spec(),
    {
        &self.tantos_mano
    }

    /// Determina el ganador del lance. Si no se quisieron, devuelve la pareja que se lleva los
    /// tantos. En caso contrario, resuelve el lance con las manos recibidas.
    /// Si el lance está resuelto y se vuelve a llamar a esta función, devolverá el mismo ganador
    /// ya calculado anteriormente. Devuelve el número de pareja que ha ganado el lance.
    pub fn resolver_lance(&mut self) -> (g: u8)
        ensures
            g == (match old(self).ganador_spec() {
                Some(g0) => g0,
                None => (old(self).mejor_mano_spec() % 2) as u8,
            }),
            g <= 1,
            *final(self) == old(self).resuelto(g),
            final(self).turno_spec() is None,
            final(self).ganador_spec() == Some(g),
    {
        proof {
            use_type_invariant(&*self);
        }
        self.turno = None;
        match self.ganador {
            Some(g) => g,
            None => {
                let g = self.jugador_mejor_mano % 2;
                self.ganador = Some(g);
                g
            },
        }
    }

    /// Indica si ya hay un ganador en el lance, bien sea porque una pareja ha rechazado un envite o
    /// porque el lance ya está resuelto. En caso de que todavía no haya ganador, esta función
    /// devuelve None.
    pub fn ganador(&self) -> (g: Option<u8>)
        ensures
            g == self.ganador_spec(),
            g matches Some(x) ==> x <= 1,
    {
        proof {
            use_type_invariant(self);
        }
        self.ganador
    }

    /// Devuelve el turno de la pareja a la que le toca actuar. En caso de que el lance ya haya
    /// acabado devuelve None.
    pub fn turno(&self) -> (t: Option<Turno>)
        ensures
            t == self.turno_spec(),
    {
        self.turno
    }

    /// Devuelve hasta cuántos tantos se ha elevado la apuesta del lance actual. Se incluye en este
    /// valor los envites que todavía no han sido aceptados por la pareja rival. Por ejemplo, si el
    /// jugador mano envida dos tantos y el jugador a su derecha envida otros dos, esta función
    /// devolverá Apuesta::Tantos(4).
    pub fn ultima_apuesta(&self) -> (a: Apuesta)
        ensures
            a == self.ultima_apuesta_spec(),
            a matches Apuesta::Tantos(t) ==> t <= self.apuesta_maxima_spec(),
    {
        proof {
            use_type_invariant(self);
        }
        self.bote
    }

    /// Apuesta máxima del lance.
    pub fn apuesta_maxima(&self) -> (m: u8)
        ensures
            m == self.apuesta_maxima_spec(),
    {
        self.apuesta_maxima
    }
}

/// Si el jugador participa en el lance con su mano: en pares y juego si tiene jugada, en punto si
/// no tiene juego, y en grande y chica siempre.
pub open spec fn participa(lance: Lance, s: Seq<Carta>) -> bool {
    match lance {
        Lance::Pares => pares_spec(s) is Some,
        Lance::Juego => juego_spec(s) is Some,
        Lance::Punto => juego_spec(s) is None,
        _ => true,
    }
}

/// Índices, en orden, de las primeras `n` manos que participan en el lance.
pub open spec fn activos_hasta(lance: Lance, manos: Seq<Seq<Carta>>, n: int) -> Seq<u8>
    decreases n,
{
    if n <= 0 {
        Seq::empty()
    } else if participa(lance, manos[n - 1]) {
        activos_hasta(lance, manos, n - 1).push((n - 1) as u8)
    } else {
        activos_hasta(lance, manos, n - 1)
    }
}

/// Índices, en orden, de las manos que participan en el lance.
pub open spec fn activos(lance: Lance, manos: Seq<Seq<Carta>>) -> Seq<u8> {
    activos_hasta(lance, manos, manos.len() as int)
}

/// Tantos de mano de la pareja `p`: las jugadas de sus manos más el bonus del lance.
pub open spec fn tantos_pareja(lance: Lance, manos: Seq<Seq<Carta>>, p: int) -> int {
    tantos_mano_spec(lance, manos[p]) + (if manos.len() == 4 {
        tantos_mano_spec(lance, manos[p + 2]) as int
    } else {
        0int
    }) + lance.bonus_spec()
}

/// `r` es el índice de la mejor mano del lance: la de mayor fuerza y, entre las empatadas, la
/// primera.
pub open spec fn es_mejor_mano(lance: Lance, manos: Seq<Seq<Carta>>, r: int) -> bool {
    &&& 0 <= r < manos.len()
    &&& forall|j: int| 0 <= j < manos.len() ==> fuerza_spec(lance, #[trigger] manos[j]) <= fuerza_spec(lance, manos[r])
    &&& forall|j: int| 0 <= j < r ==> fuerza_spec(lance, #[trigger] manos[j]) < fuerza_spec(lance, manos[r])
}

/// Índice de la mejor mano del lance, el único que cumple [`es_mejor_mano`].
pub open spec fn mejor_indice(lance: Lance, manos: Seq<Seq<Carta>>) -> int {
    choose|r: int| es_mejor_mano(lance, manos, r)
}

/// Solo un índice es el de la mejor mano.
pub proof fn lema_mejor_mano_unica(lance: Lance, manos: Seq<Seq<Carta>>, r1: int, r2: int)
    requires
        es_mejor_mano(lance, manos, r1),
        es_mejor_mano(lance, manos, r2),
    ensures
        r1 == r2,
{
    if r1 < r2 {
        assert(fuerza_spec(lance, manos[r1]) < fuerza_spec(lance, manos[r2]));
        assert(fuerza_spec(lance, manos[r2]) <= fuerza_spec(lance, manos[r1]));
    } else if r2 < r1 {
        assert(fuerza_spec(lance, manos[r2]) < fuerza_spec(lance, manos[r1]));
        assert(fuerza_spec(lance, manos[r1]) <= fuerza_spec(lance, manos[r2]));
    }
}

/// Con cuatro manos, si el lance tiene envites cada pareja tiene alguna mano que participa, y
/// si empieza a hablar una pareja completa, habla primero su primer jugador, el 0 o el 1.
/// Estado tras actuar con cada acción de `h`, en orden; una acción que da error no cambia nada.
pub open spec fn tras_acciones(e: EstadoLance, h: Seq<Accion>) -> EstadoLance
    decreases h.len(),
{
    if h.len() == 0 {
        e
    } else {
        let previo = tras_acciones(e, h.drop_last());
        match previo.paso(h.last()) {
            Ok((e2, _)) => e2,
            Err(_) => previo,
        }
    }
}

/// La última apuesta que se quiso o que se aceptó al subirla: la que había antes de la última
/// acción que contó como querer o como envite; si no hubo ninguna, la aceptada al empezar.
pub open spec fn ultima_aceptada(e: EstadoLance, h: Seq<Accion>) -> Apuesta
    decreases h.len(),
{
    if h.len() == 0 {
        e.aceptada_spec()
    } else {
        let previo = tras_acciones(e, h.drop_last());
        let a = h.last();
        if previo.turno_spec() is Some && !previo.espera_companero() && previo.paso(a) is Ok
            && previo.accion_efectiva(a) != Accion::Paso {
            previo.ultima_apuesta_spec()
        } else {
            ultima_aceptada(e, h.drop_last())
        }
    }
}

/// Tras cualquier serie de acciones, lo aceptado es la última apuesta que se quiso o que se
/// aceptó al subirla; y los tantos apostados son esa apuesta, uno si se rechazó el primer envite
/// cuando no había nada aceptado, o la apuesta mínima si nadie envidó.
pub proof fn lema_tantos_tras_acciones(e: EstadoLance, h: Seq<Accion>)
    ensures
        tras_acciones(e, h).aceptada_spec() == ultima_aceptada(e, h),
        tras_acciones(e, h).tantos_apostados_spec() == ({
            let ac = ultima_aceptada(e, h);
            let ultima = tras_acciones(e, h).ultima_apuesta_spec();
            let apostado = if ac == Apuesta::Tantos(0) && rango_apuesta(ultima) > 0 {
                Apuesta::Tantos(1)
            } else {
                ac
            };
            if apostado == Apuesta::Tantos(0) {
                Apuesta::Tantos(tras_acciones(e, h).apuesta_minima_spec())
            } else {
                apostado
            }
        }),
    decreases h.len(),
{
    if h.len() > 0 {
        lema_tantos_tras_acciones(e, h.drop_last());
        let previo = tras_acciones(e, h.drop_last());
        previo.lema_paso_apuestas(h.last());
    }
    tras_acciones(e, h).lema_tantos_apostados();
}

/// En grande y chica participan las cuatro manos, así que el lance siempre tiene envites.
pub proof fn lema_grande_chica_se_juegan(lance: Lance, manos: Seq<Seq<Carta>>)
    requires
        manos.len() == 4,
        lance == Lance::Grande || lance == Lance::Chica,
    ensures
        turno_inicial_lance(lance, activos(lance, manos)) is Some,
{
    reveal_with_fuel(activos_hasta, 5);
    let a = activos(lance, manos);
    assert(a =~= seq![0u8, 1u8, 2u8, 3u8]);
    reveal_with_fuel(de_paridad, 5);
    assert(a.drop_last() =~= seq![0u8, 1u8, 2u8]);
    assert(a.drop_last().drop_last() =~= seq![0u8, 1u8]);
    assert(a.drop_last().drop_last().drop_last() =~= seq![0u8]);
    assert(de_paridad(a, 0).len() == 2);
    assert(de_paridad(a, 1).len() == 2);
}

pub proof fn lema_turno_cuatro_manos(lance: Lance, manos: Seq<Seq<Carta>>)
    requires
        manos.len() == 4,
    ensures
        ((lance == Lance::Pares || lance == Lance::Juego) && turno_inicial_lance(
            lance,
            activos(lance, manos),
        ) is Some) ==> alguna_con_jugada(lance, manos, Some(0)) && alguna_con_jugada(
            lance,
            manos,
            Some(1),
        ),
        turno_inicial_lance(lance, activos(lance, manos)) matches Some(Turno::Pareja(p)) ==> p
            <= 1,
{
    reveal_with_fuel(activos_hasta, 5);
    reveal_with_fuel(de_paridad, 5);
    let b0 = participa(lance, manos[0]);
    let b1 = participa(lance, manos[1]);
    let b2 = participa(lance, manos[2]);
    let b3 = participa(lance, manos[3]);
    let a1: Seq<u8> = if b0 { seq![0u8] } else { Seq::empty() };
    let a2: Seq<u8> = if b1 { a1.push(1u8) } else { a1 };
    let a3: Seq<u8> = if b2 { a2.push(2u8) } else { a2 };
    let a4: Seq<u8> = if b3 { a3.push(3u8) } else { a3 };
    assert(activos_hasta(lance, manos, 1) =~= a1);
    assert(activos_hasta(lance, manos, 2) =~= a2);
    assert(activos_hasta(lance, manos, 3) =~= a3);
    assert(activos(lance, manos) =~= a4);
    let m: Seq<u8> = if b0 && b2 {
        seq![0u8, 2u8]
    } else if b0 {
        seq![0u8]
    } else if b2 {
        seq![2u8]
    } else {
        Seq::empty()
    };
    let q: Seq<u8> = if b1 && b3 {
        seq![1u8, 3u8]
    } else if b1 {
        seq![1u8]
    } else if b3 {
        seq![3u8]
    } else {
        Seq::empty()
    };
    assert(de_paridad(a4, 0) =~= m) by {
        assert(de_paridad(a1, 0) =~= (if b0 { seq![0u8] } else { Seq::<u8>::empty() }));
        assert(de_paridad(a2, 0) =~= de_paridad(a1, 0));
        assert(de_paridad(a3, 0) =~= m);
    }
    assert(de_paridad(a4, 1) =~= q) by {
        assert(de_paridad(a1, 1) =~= Seq::<u8>::empty());
        assert(de_paridad(a2, 1) =~= (if b1 { seq![1u8] } else { Seq::<u8>::empty() }));
        assert(de_paridad(a3, 1) =~= de_paridad(a2, 1));
    }
    assert(tiene_jugada(lance, manos[0]) == b0 || !(lance == Lance::Pares || lance == Lance::Juego));
    assert(tiene_jugada(lance, manos[1]) == b1 || !(lance == Lance::Pares || lance == Lance::Juego));
    assert(tiene_jugada(lance, manos[2]) == b2 || !(lance == Lance::Pares || lance == Lance::Juego));
    assert(tiene_jugada(lance, manos[3]) == b3 || !(lance == Lance::Pares || lance == Lance::Juego));
}

/// Los tantos de mano de cada pareja no pasan de siete: tres por cada jugada y uno de bonus.
pub proof fn lema_tantos_pareja_acotados(lance: Lance, manos: Seq<Seq<Carta>>)
    requires
        manos.len() == 2 || manos.len() == 4,
    ensures
        tantos_pareja(lance, manos, 0) <= 7,
        tantos_pareja(lance, manos, 1) <= 7,
{
}

/// Manos con las que se puede jugar un lance: dos o cuatro manos de cuatro cartas.
pub open spec fn manos_de_partida(manos: Seq<Seq<Carta>>) -> bool {
    &&& (manos.len() == 2 || manos.len() == 4)
    &&& forall|i: int| 0 <= i < manos.len() ==> (#[trigger] manos[i]).len() == 4
}

impl EstadoLance {
    /// Crea el estado de un lance a partir de las manos de los jugadores, dos o cuatro, ordenadas
    /// desde el mano hasta el postre. Participan los jugadores con jugada en el lance.
    pub fn new(lance: &Lance, manos: &[Mano], apuesta_maxima: u8) -> (e: Self)
        requires
            manos_de_partida(vistas(manos@)),
        ensures
            e.turno_spec() == turno_inicial_lance(*lance, activos(*lance, vistas(manos@))),
            e.ultima_apuesta_spec() == Apuesta::Tantos(0),
            e.aceptada_spec() == Apuesta::Tantos(0),
            e.ganador_spec() is None,
            e.apuesta_maxima_spec() == apuesta_maxima,
            e.apuesta_minima_spec() == lance.apuesta_minima_spec(),
            es_mejor_mano(*lance, vistas(manos@), e.mejor_mano_spec() as int),
            e.tantos_mano_spec()[0] == tantos_pareja(*lance, vistas(manos@), 0),
            e.tantos_mano_spec()[1] == tantos_pareja(*lance, vistas(manos@), 1),
            e.pareja_activa() == turnos_pareja(
                de_paridad(
                    activos(*lance, vistas(manos@)),
                    pareja_inicial(activos(*lance, vistas(manos@))) as int,
                ),
            ),
            e.envites_acotados(),
            e == EstadoLance::inicial(*lance, vistas(manos@), apuesta_maxima),
    {
        let mut activos: Vec<u8> = Vec::new();
        for i in 0..manos.len()
            invariant
                manos_de_partida(vistas(manos@)),
                activos@ == activos_hasta(*lance, vistas(manos@), i as int),
        {
            let participa = match lance {
                Lance::Pares => manos[i].pares().is_some(),
                Lance::Juego => manos[i].juego().is_some(),
                Lance::Punto => manos[i].juego().is_none(),
                _ => true,
            };
            if participa {
                activos.push(i as u8);
            }
        }
        let n = manos.len();
        let bonus = lance.bonus();
        let t0 = lance.tantos_mano(&manos[0]) + if n == 4 {
            lance.tantos_mano(&manos[2])
        } else {
            0
        } + bonus;
        let t1 = lance.tantos_mano(&manos[1]) + if n == 4 {
            lance.tantos_mano(&manos[3])
        } else {
            0
        } + bonus;
        let mejor = lance.mejor_mano(manos);
        proof {
            assert(es_mejor_mano(*lance, vistas(manos@), mejor as int));
            lema_mejor_mano_unica(*lance, vistas(manos@), mejor as int, mejor_indice(*lance, vistas(manos@)));
        }
        EstadoLance::con_jugadores(lance, activos.as_slice(), [t0, t1], mejor as u8, apuesta_maxima)
    }
}

impl Clone for EstadoLance {
    fn clone(&self) -> (e: Self)
        ensures
            e == *self,
    {
        proof {
            use_type_invariant(self);
        }
        EstadoLance {
            aceptado: self.aceptado,
            bote: self.bote,
            turno: self.turno,
            ultimo_envite: self.ultimo_envite,
            apuesta_maxima: self.apuesta_maxima,
            apuesta_minima: self.apuesta_minima,
            ganador: self.ganador,
            jugador_mejor_mano: self.jugador_mejor_mano,
            tantos_mano: self.tantos_mano,
            idx_turno: self.idx_turno,
            pareja_mano: self.pareja_mano,
            pareja_postre: self.pareja_postre,
            accion_pareja: self.accion_pareja,
        }
    }
}

impl Lance {
    /// Tantos extra por ganar el lance.
    pub open spec fn bonus_spec(self) -> u8 {
        if self == Lance::Punto {
            1
        } else {
            0
        }
    }

    /// Tantos apostados cuando todos pasan.
    pub open spec fn apuesta_minima_spec(self) -> u8 {
        if self == Lance::Grande || self == Lance::Chica {
            1
        } else {
            0
        }
    }
}

/// Comparar dos manos en un lance da el resultado opuesto que compararlas al revés, e iguales
/// en los dos sentidos.
pub proof fn lema_comparacion_inversa(lance: Lance, a: Seq<Carta>, b: Seq<Carta>)
    ensures
        (orden_de(fuerza_spec(lance, a), fuerza_spec(lance, b)) == core::cmp::Ordering::Less)
            == (orden_de(fuerza_spec(lance, b), fuerza_spec(lance, a))
            == core::cmp::Ordering::Greater),
        (orden_de(fuerza_spec(lance, a), fuerza_spec(lance, b)) == core::cmp::Ordering::Equal)
            == (orden_de(fuerza_spec(lance, b), fuerza_spec(lance, a))
            == core::cmp::Ordering::Equal),
{
}

/// En el juego gana la mejor jugada: treinta y una gana a todo, treinta y dos a todo lo demás,
/// cualquier jugada a no tener juego, y entre dos restos (de 33 a 40) el de más puntos; dos
/// manos con la misma jugada, o sin juego las dos, empatan.
pub proof fn lema_orden_juego(a: Seq<Carta>, b: Seq<Carta>)
    ensures
        (juego_spec(a) == Some(Juego::Treintayuna) && juego_spec(b) != Some(Juego::Treintayuna))
            ==> orden_de(fuerza_spec(Lance::Juego, a), fuerza_spec(Lance::Juego, b))
            == core::cmp::Ordering::Greater,
        (juego_spec(a) == Some(Juego::Treintaydos) && (juego_spec(b) is None || juego_spec(
            b,
        ) matches Some(Juego::Resto(_)))) ==> orden_de(
            fuerza_spec(Lance::Juego, a),
            fuerza_spec(Lance::Juego, b),
        ) == core::cmp::Ordering::Greater,
        (juego_spec(a) is Some && juego_spec(b) is None) ==> orden_de(
            fuerza_spec(Lance::Juego, a),
            fuerza_spec(Lance::Juego, b),
        ) == core::cmp::Ordering::Greater,
        forall|x: u8, y: u8|
            juego_spec(a) == Some(Juego::Resto(x)) && juego_spec(b) == Some(Juego::Resto(y)) && x
                > y ==> orden_de(fuerza_spec(Lance::Juego, a), fuerza_spec(Lance::Juego, b))
                == core::cmp::Ordering::Greater,
        juego_spec(a) == juego_spec(b) ==> orden_de(
            fuerza_spec(Lance::Juego, a),
            fuerza_spec(Lance::Juego, b),
        ) == core::cmp::Ordering::Equal,
        juego_spec(a) matches Some(Juego::Resto(x)) ==> 33 <= x <= 40 && suma_puntos(a) == x,
{
}

/// En pares gana la mejor jugada: duples a medias, medias a pareja, cualquier jugada a no tener
/// pares; y con la misma jugada, la de cartas más altas. Dos manos con la misma jugada, o sin
/// pares las dos, empatan.
pub proof fn lema_orden_pares(a: Seq<Carta>, b: Seq<Carta>)
    ensures
        (pares_spec(a) matches Some(Pares::Duples(_)) && !(pares_spec(b) matches Some(
            Pares::Duples(_),
        ))) ==> orden_de(fuerza_spec(Lance::Pares, a), fuerza_spec(Lance::Pares, b))
            == core::cmp::Ordering::Greater,
        (pares_spec(a) matches Some(Pares::Medias(_)) && (pares_spec(b) is None || pares_spec(
            b,
        ) matches Some(Pares::Pareja(_)))) ==> orden_de(
            fuerza_spec(Lance::Pares, a),
            fuerza_spec(Lance::Pares, b),
        ) == core::cmp::Ordering::Greater,
        (pares_spec(a) is Some && pares_spec(b) is None) ==> orden_de(
            fuerza_spec(Lance::Pares, a),
            fuerza_spec(Lance::Pares, b),
        ) == core::cmp::Ordering::Greater,
        forall|x: u16, y: u16|
            x > y && ((pares_spec(a) == Some(Pares::Pareja(x)) && pares_spec(b) == Some(
                Pares::Pareja(y),
            )) || (pares_spec(a) == Some(Pares::Medias(x)) && pares_spec(b) == Some(
                Pares::Medias(y),
            )) || (pares_spec(a) == Some(Pares::Duples(x)) && pares_spec(b) == Some(
                Pares::Duples(y),
            ))) ==> orden_de(fuerza_spec(Lance::Pares, a), fuerza_spec(Lance::Pares, b))
                == core::cmp::Ordering::Greater,
        pares_spec(a) == pares_spec(b) ==> orden_de(
            fuerza_spec(Lance::Pares, a),
            fuerza_spec(Lance::Pares, b),
        ) == core::cmp::Ordering::Equal,
{
}

/// En el punto gana la mano que suma más puntos, y empatan las que suman lo mismo.
pub proof fn lema_orden_punto(a: Seq<Carta>, b: Seq<Carta>)
    ensures
        suma_puntos(a) > suma_puntos(b) ==> orden_de(
            fuerza_spec(Lance::Punto, a),
            fuerza_spec(Lance::Punto, b),
        ) == core::cmp::Ordering::Greater,
        suma_puntos(a) == suma_puntos(b) ==> orden_de(
            fuerza_spec(Lance::Punto, a),
            fuerza_spec(Lance::Punto, b),
        ) == core::cmp::Ordering::Equal,
{
}

/// En grande las manos se comparan carta a carta desde la primera (la más alta): gana la que
/// tiene más valor en la primera posición en que difieren; si no difieren, empatan. En chica se
/// comparan desde la última (la más baja) y gana la de menos valor.
pub proof fn lema_orden_grande_chica(a: Seq<Carta>, b: Seq<Carta>, i: int)
    requires
        a.len() == 4,
        b.len() == 4,
        0 <= i < 4,
    ensures
        ((forall|k: int| 0 <= k < i ==> a[k].valor_spec() == b[k].valor_spec()) && a[i].valor_spec()
            > b[i].valor_spec()) ==> orden_de(
            fuerza_spec(Lance::Grande, a),
            fuerza_spec(Lance::Grande, b),
        ) == core::cmp::Ordering::Greater,
        ((forall|k: int| 3 - i < k < 4 ==> a[k].valor_spec() == b[k].valor_spec()) && a[3
            - i].valor_spec() < b[3 - i].valor_spec()) ==> orden_de(
            fuerza_spec(Lance::Chica, a),
            fuerza_spec(Lance::Chica, b),
        ) == core::cmp::Ordering::Greater,
        (forall|k: int| 0 <= k < 4 ==> a[k].valor_spec() == b[k].valor_spec()) ==> orden_de(
            fuerza_spec(Lance::Grande, a),
            fuerza_spec(Lance::Grande, b),
        ) == core::cmp::Ordering::Equal && orden_de(
            fuerza_spec(Lance::Chica, a),
            fuerza_spec(Lance::Chica, b),
        ) == core::cmp::Ordering::Equal,
{
    assert(forall|k: int| 0 <= k < 4 ==> a[k].valor_spec() <= 12 && b[k].valor_spec() <= 12);
    if forall|k: int| 0 <= k < i ==> a[k].valor_spec() == b[k].valor_spec() {
        if i >= 1 {
            assert(a[0].valor_spec() == b[0].valor_spec());
        }
        if i >= 2 {
            assert(a[1].valor_spec() == b[1].valor_spec());
        }
        if i >= 3 {
            assert(a[2].valor_spec() == b[2].valor_spec());
        }
    }
    if forall|k: int| 3 - i < k < 4 ==> a[k].valor_spec() == b[k].valor_spec() {
        if i >= 1 {
            assert(a[3].valor_spec() == b[3].valor_spec());
        }
        if i >= 2 {
            assert(a[2].valor_spec() == b[2].valor_spec());
        }
        if i >= 3 {
            assert(a[1].valor_spec() == b[1].valor_spec());
        }
    }
    if forall|k: int| 0 <= k < 4 ==> a[k].valor_spec() == b[k].valor_spec() {
        assert(a[0].valor_spec() == b[0].valor_spec());
        assert(a[1].valor_spec() == b[1].valor_spec());
        assert(a[2].valor_spec() == b[2].valor_spec());
        assert(a[3].valor_spec() == b[3].valor_spec());
    }
}

} // verus!
