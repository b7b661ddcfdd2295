use arrayvec::ArrayVec;
use vstd::prelude::*;

use super::mus_error::MusError;
use super::Carta;
use crate::colecciones::{cartas_de, cartas_push, cartas_slice, cartas_vacias, push_char};

verus! {

broadcast use vstd::seq_lib::group_to_multiset_ensures;

/// Indica si las cartas están ordenadas de mayor a menor valor.
pub open spec fn ordenada(s: Seq<Carta>) -> bool {
    forall|i: int, j: int| 0 <= i < j < s.len() ==> s[i].valor_spec() >= s[j].valor_spec()
}

/// Ordena las cartas de mayor a menor valor. Las cartas de igual valor pueden quedar en cualquier
/// orden.
pub fn ordenar_cartas(cartas: &[Carta]) -> (r: Vec<Carta>)
    ensures
        r@.to_multiset() == cartas@.to_multiset(),
        r@.len() == cartas@.len(),
        ordenada(r@),
{
    let mut r: Vec<Carta> = Vec::new();
    let n = cartas.len();
    for i in 0..n
        invariant
            n == cartas@.len(),
            r@.to_multiset() == cartas@.take(i as int).to_multiset(),
            r@.len() == i,
            ordenada(r@),
    {
        let c = cartas[i];
        let v = c.valor();
        let mut p: usize = 0;
        while p < r.len() && r[p].valor() >= v
            invariant
                p <= r@.len(),
                forall|k: int| 0 <= k < p ==> r@[k].valor_spec() >= v,
            decreases r@.len() - p,
        {
            p = p + 1;
        }
        proof {
            assert(cartas@.take(i + 1) =~= cartas@.take(i as int).push(c));
        }
        let ghost antes = r@;
        r.insert(p, c);
        proof {
            assert(r@ == antes.insert(p as int, c));
            assert forall|a: int, b: int| 0 <= a < b < r@.len() implies r@[a].valor_spec()
                >= r@[b].valor_spec() by {
                if b < p {
                } else if b == p {
                } else if a < p {
                    assert(r@[b] == antes[b - 1]);
                    if p < antes.len() {
                        assert(antes[p as int].valor_spec() < v);
                    }
                } else if a == p {
                    assert(r@[b] == antes[b - 1]);
                    assert(antes[p as int].valor_spec() < v);
                } else {
                    assert(r@[a] == antes[a - 1]);
                    assert(r@[b] == antes[b - 1]);
                }
            }
        }
    }
    proof {
        assert(cartas@.take(n as int) =~= cartas@);
    }
    r
}

/// Representación de una mano de cartas. Internamente es un vector de como mucho cuatro cartas.
#[derive(Debug)]
pub struct Mano(ArrayVec<Carta, 4>);

impl View for Mano {
    type V = Seq<Carta>;

    closed spec fn view(&self) -> Seq<Carta> {
        cartas_de(self.0)
    }
}

/// Puntos de una carta en los lances de punto y juego: las figuras valen diez.
pub open spec fn puntos_carta(c: Carta) -> int {
    if c.valor_spec() >= 10 {
        10
    } else {
        c.valor_spec() as int
    }
}

/// Suma de los puntos de las cartas.
pub open spec fn suma_puntos(s: Seq<Carta>) -> int
    decreases s.len(),
{
    if s.len() == 0 {
        0
    } else {
        suma_puntos(s.drop_last()) + puntos_carta(s.last())
    }
}

/// Número de figuras (cartas de valor diez o más).
pub open spec fn figuras(s: Seq<Carta>) -> int
    decreases s.len(),
{
    if s.len() == 0 {
        0
    } else {
        figuras(s.drop_last()) + if s.last().valor_spec() >= 10 {
            1int
        } else {
            0int
        }
    }
}

pub(crate) proof fn lema_suma_puntos_cota(s: Seq<Carta>)
    ensures
        0 <= suma_puntos(s) <= 10 * s.len(),
        0 <= figuras(s) <= s.len(),
    decreases s.len(),
{
    if s.len() > 0 {
        lema_suma_puntos_cota(s.drop_last());
    }
}

/// Número de descartes en las posiciones anteriores a `i`.
pub open spec fn descartes_antes(d: [bool; 4], i: int) -> int
    decreases i,
{
    if i <= 0 {
        0
    } else {
        descartes_antes(d, i - 1) + if d[i - 1] {
            1int
        } else {
            0int
        }
    }
}

/// Cartas tras cambiar las descartadas por las nuevas: la posición `i`, si se descarta, recibe
/// la carta nueva que le toca en orden, mientras las haya.
pub open spec fn reemplazo(s: Seq<Carta>, d: [bool; 4], nuevas: Seq<Carta>) -> Seq<Carta> {
    Seq::new(
        s.len(),
        |i: int|
            if d[i] && descartes_antes(d, i) < nuevas.len() {
                nuevas[descartes_antes(d, i)]
            } else {
                s[i]
            },
    )
}

/// Cartas descartadas de la mano, en orden.
pub open spec fn descartadas_de(s: Seq<Carta>, d: [bool; 4], n: int) -> Seq<Carta>
    decreases n,
{
    if n <= 0 {
        Seq::empty()
    } else if d[n - 1] {
        descartadas_de(s, d, n - 1).push(s[n - 1])
    } else {
        descartadas_de(s, d, n - 1)
    }
}

/// Cartas de cada una de las manos.
pub open spec fn vistas(manos: Seq<Mano>) -> Seq<Seq<Carta>> {
    manos.map_values(|m: Mano| m@)
}

/// Mano construida a partir de unas cartas: las mismas cartas, de mayor a menor valor.
pub open spec fn mano_ordenada_de(m: Seq<Carta>, cartas: Seq<Carta>) -> bool {
    &&& m.to_multiset() == cartas.to_multiset()
    &&& ordenada(m)
}

/// Carta que se lee en un carácter válido.
pub open spec fn carta_de_char(c: char) -> Carta {
    Carta::from_char_spec(c).unwrap()
}

/// Si un texto describe una mano: como mucho cuatro caracteres, todos ellos cartas.
pub open spec fn texto_valido(s: Seq<char>) -> bool {
    &&& s.len() <= 4
    &&& forall|i: int| 0 <= i < s.len() ==> Carta::from_char_spec(s[i]) is Some
}

/// Posición del primer carácter que impide leer el texto como una mano: uno que no es una carta,
/// o el quinto.
pub open spec fn primer_error(s: Seq<char>, i: int) -> bool {
    &&& 0 <= i < s.len()
    &&& (i >= 4 || Carta::from_char_spec(s[i]) is None)
    &&& forall|k: int| 0 <= k < i ==> Carta::from_char_spec(s[k]) is Some
}

impl Mano {
    /// Construye una mano a partir de cuatro cartas, que quedan ordenadas de mayor a menor valor.
    pub fn new(cartas: [Carta; 4]) -> (m: Self)
        ensures
            mano_ordenada_de(m@, cartas@),
            m@.len() == 4,
    {
        let ordenadas = ordenar_cartas(cartas.as_slice());
        Self::desde_slice(ordenadas.as_slice())
    }

    /// Construye una mano con las cartas en el orden recibido.
    pub fn new_unsorted(cartas: [Carta; 4]) -> (m: Self)
        ensures
            m@ == cartas@,
    {
        Self::desde_slice(cartas.as_slice())
    }

    fn desde_slice(cartas: &[Carta]) -> (m: Self)
        requires
            cartas@.len() <= 4,
        ensures
            m@ == cartas@,
    {
        let mut v = cartas_vacias();
        for i in 0..cartas.len()
            invariant
                cartas@.len() <= 4,
                cartas_de(v) == cartas@.take(i as int),
        {
            proof {
                assert(cartas@.take(i + 1) =~= cartas@.take(i as int).push(cartas@[i as int]));
            }
            cartas_push(&mut v, cartas[i]);
        }
        proof {
            assert(cartas@.take(cartas@.len() as int) =~= cartas@);
        }
        Mano(v)
    }

    /// Construye una mano con las cartas del vector, ordenadas de mayor a menor valor.
    pub fn from_arrayvec(cartas: ArrayVec<Carta, 4>) -> (m: Self)
        ensures
            mano_ordenada_de(m@, cartas_de(cartas)),
    {
        let ordenadas = ordenar_cartas(cartas_slice(&cartas));
        Self::desde_slice(ordenadas.as_slice())
    }

    /// Cartas de la mano.
    pub fn cartas(&self) -> (s: &[Carta])
        ensures
            s@ == self@,
            s@.len() <= 4,
    {
        cartas_slice(&self.0)
    }

    /// Añade una carta al final de la mano, sin reordenarla.
    pub fn insertar(&mut self, carta: Carta)
        requires
            old(self)@.len() < 4,
        ensures
            final(self)@ == old(self)@.push(carta),
    {
        cartas_push(&mut self.0, carta);
    }

    /// Número de figuras de la mano.
    pub fn num_figuras(&self) -> (n: u8)
        ensures
            n == figuras(self@),
    {
        let c = self.cartas();
        let mut n: u8 = 0;
        for i in 0..c.len()
            invariant
                c@ == self@,
                c@.len() <= 4,
                n == figuras(c@.take(i as int)),
        {
            proof {
                assert(c@.take(i + 1).drop_last() =~= c@.take(i as int));
                lema_suma_puntos_cota(c@.take(i as int));
            }
            if c[i].valor() >= 10 {
                n = n + 1;
            }
        }
        proof {
            assert(c@.take(c@.len() as int) =~= c@);
        }
        n
    }

    /// Cambia las cartas descartadas por las nuevas, en orden, y vuelve a ordenar la mano. Si no
    /// hay cartas nuevas para todos los descartes, los últimos descartes conservan su carta.
    pub fn reemplazar(&mut self, descartes: [bool; 4], nuevas: &[Carta])
        requires
            old(self)@.len() == 4,
        ensures
            mano_ordenada_de(final(self)@, reemplazo(old(self)@, descartes, nuevas@)),
            final(self)@.len() == 4,
    {
        let actuales = self.copia();
        let c = actuales.cartas();
        let mut v: Vec<Carta> = Vec::new();
        let mut k: usize = 0;
        for i in 0..4
            invariant
                c@ == old(self)@,
                c@.len() == 4,
                k == descartes_antes(descartes, i as int),
                k <= i,
                v@ == reemplazo(c@, descartes, nuevas@).take(i as int),
        {
            proof {
                assert(reemplazo(c@, descartes, nuevas@).take(i + 1) =~= reemplazo(
                    c@,
                    descartes,
                    nuevas@,
                ).take(i as int).push(reemplazo(c@, descartes, nuevas@)[i as int]));
            }
            if descartes[i] && k < nuevas.len() {
                v.push(nuevas[k]);
            } else {
                v.push(c[i]);
            }
            if descartes[i] {
                k = k + 1;
            }
        }
        proof {
            assert(v@ =~= reemplazo(c@, descartes, nuevas@));
        }
        let ordenadas = ordenar_cartas(v.as_slice());
        *self = Self::desde_slice(ordenadas.as_slice());
    }

    /// Copia de la mano con las mismas cartas en el mismo orden.
    pub fn copia(&self) -> (m: Self)
        ensures
            m@ == self@,
    {
        Self::desde_slice(self.cartas())
    }

    /// Representación de la mano con un carácter por carta, en el orden de la mano.
    pub fn to_string(&self) -> (s: String)
        ensures
            s@ == self@.map_values(|c: Carta| c.char_spec()),
    {
        let c = self.cartas();
        let mut s = String::new();
        for i in 0..c.len()
            invariant
                c@ == self@,
                s@ == c@.take(i as int).map_values(|c: Carta| c.char_spec()),
        {
            proof {
                assert(c@.take(i + 1).map_values(|c: Carta| c.char_spec()) =~= c@.take(
                    i as int,
                ).map_values(|c: Carta| c.char_spec()).push(c@[i as int].char_spec()));
            }
            push_char(&mut s, c[i].to_char());
        }
        proof {
            assert(c@.take(c@.len() as int) =~= c@);
        }
        s
    }

    /// Lee una mano a partir de un texto con un carácter por carta. Las cartas quedan ordenadas de
    /// mayor a menor valor. Devuelve error en el primer carácter que no sea una carta o que no
    /// quepa en la mano.
    pub fn parse(texto: &str) -> (r: Result<Self, MusError>)
        ensures
            texto_valido(texto@) ==> (r matches Ok(m) && mano_ordenada_de(
                m@,
                texto@.map_values(|c: char| carta_de_char(c)),
            )),
            !texto_valido(texto@) ==> exists|i: int|
                primer_error(texto@, i) && r == Err::<Mano, MusError>(
                    MusError::CaracterNoValido(texto@[i]),
                ),
    {
        let n = texto.unicode_len();
        let mut cartas: Vec<Carta> = Vec::new();
        for i in 0..n
            invariant
                n == texto@.len(),
                i <= 4,
                cartas@ == texto@.take(i as int).map_values(|c: char| carta_de_char(c)),
                forall|k: int| 0 <= k < i ==> Carta::from_char_spec(texto@[k]) is Some,
        {
            let ch = texto.get_char(i);
            if i >= 4 {
                proof {
                    assert(primer_error(texto@, i as int));
                }
                return Err(MusError::CaracterNoValido(ch));
            }
            match Carta::desde_char(ch) {
                Some(carta) => {
                    proof {
                        assert(carta == carta_de_char(texto@[i as int]));
                        assert(texto@.take(i + 1).map_values(|c: char| carta_de_char(c)) =~= texto@.take(
                            i as int,
                        ).map_values(|c: char| carta_de_char(c)).push(carta));
                    }
                    cartas.push(carta);
                },
                None => {
                    proof {
                        assert(primer_error(texto@, i as int));
                    }
                    return Err(MusError::CaracterNoValido(ch));
                },
            }
        }
        proof {
            assert(texto@.take(n as int) =~= texto@);
        }
        let ordenadas = ordenar_cartas(cartas.as_slice());
        Ok(Self::desde_slice(ordenadas.as_slice()))
    }
}

impl Clone for Mano {
    fn clone(&self) -> (m: Self)
        ensures
            m@ == self@,
    {
        self.copia()
    }
}

impl Default for Mano {
    fn default() -> (m: Self)
        ensures
            m@ == Seq::<Carta>::empty(),
    {
        Mano(cartas_vacias())
    }
}

impl<'a> TryFrom<&'a str> for Mano {
    type Error = MusError;

    fn try_from(other: &'a str) -> (r: Result<Self, Self::Error>)
        ensures
            texto_valido(other@) ==> (r matches Ok(m) && mano_ordenada_de(
                m@,
                other@.map_values(|c: char| carta_de_char(c)),
            )),
            !texto_valido(other@) ==> exists|i: int|
                primer_error(other@, i) && r == Err::<Mano, MusError>(
                    MusError::CaracterNoValido(other@[i]),
                ),
    {
        Mano::parse(other)
    }
}

impl<'a> vstd::std_specs::convert::TryFromSpecImpl<&'a str> for Mano {
    /// El resultado no es una función de la entrada: las cartas del mismo valor pueden quedar en
    /// cualquier orden. Lo que se sabe de él lo dice el contrato de `try_from`.
    open spec fn obeys_try_from_spec() -> bool {
        false
    }

    open spec fn try_from_spec(v: &'a str) -> Result<Mano, MusError> {
        Err(MusError::AccionNoValida)
    }
}

impl core::str::FromStr for Mano {
    type Err = MusError;

    fn from_str(s: &str) -> (r: Result<Self, Self::Err>)
        ensures
            texto_valido(s@) ==> (r matches Ok(m) && mano_ordenada_de(
                m@,
                s@.map_values(|c: char| carta_de_char(c)),
            )),
            !texto_valido(s@) ==> exists|i: int|
                primer_error(s@, i) && r == Err::<Mano, MusError>(MusError::CaracterNoValido(s@[i])),
    {
        Mano::parse(s)
    }
}

/// El texto de una mano se lee de vuelta: es un texto válido y sus caracteres son las cartas de
/// la mano, en el mismo orden.
pub proof fn lema_texto_mano(m: Seq<Carta>)
    requires
        m.len() <= 4,
    ensures
        texto_valido(m.map_values(|c: Carta| c.char_spec())),
        m.map_values(|c: Carta| c.char_spec()).map_values(|ch: char| carta_de_char(ch)) == m,
{
    let t = m.map_values(|c: Carta| c.char_spec());
    assert forall|i: int| 0 <= i < t.len() implies Carta::from_char_spec(t[i]) is Some by {
        super::carta::lema_caracter_carta(m[i]);
    }
    assert forall|i: int| 0 <= i < m.len() implies t.map_values(|ch: char| carta_de_char(ch))[i]
        == m[i] by {
        super::carta::lema_caracter_carta(m[i]);
    }
    assert(t.map_values(|ch: char| carta_de_char(ch)) =~= m);
}

} // verus!
