use std::collections::VecDeque;

use arrayvec::ArrayVec;
use vstd::prelude::*;

use super::{Carta, Mano, descartadas_de, mano_ordenada_de, reemplazo, num_descartes};
use crate::colecciones::{barajar_desde, cartas_de, cartas_push, cartas_vacias, manos_en_array};

verus! {

broadcast use vstd::seq_lib::group_to_multiset_ensures;

/// Baraja española de cartas. Lleva la cuenta de las cartas que aún no se han repartido desde
/// que se barajó: los descartes se ponen al final y solo se barajan cuando se acaban las demás.
#[derive(Debug)]
pub struct Baraja(VecDeque<Carta>, usize);

/// Modelo de una baraja: sus cartas en orden y cuántas de las primeras quedan por repartir.
pub struct ModeloBaraja {
    pub cartas: Seq<Carta>,
    pub pendientes: nat,
}

impl View for Baraja {
    type V = ModeloBaraja;

    closed spec fn view(&self) -> ModeloBaraja {
        ModeloBaraja { cartas: self.0@, pendientes: self.1 as nat }
    }
}

/// Frecuencias de las cartas de la baraja de mus: ocho reyes y ocho ases, cuatro de las demás.
pub open spec fn frecuencias_mus() -> Seq<(Carta, u8)> {
    seq![
        (Carta::Rey, 8u8),
        (Carta::Caballo, 4u8),
        (Carta::Sota, 4u8),
        (Carta::Siete, 4u8),
        (Carta::Seis, 4u8),
        (Carta::Cinco, 4u8),
        (Carta::Cuatro, 4u8),
        (Carta::As, 8u8),
    ]
}

/// Número de cartas de la secuencia iguales a `c`, como enumerado.
pub open spec fn veces(s: Seq<Carta>, c: Carta) -> nat {
    s.to_multiset().count(c)
}

/// La baraja de mus completa: cuarenta cartas, ocho ases, ocho reyes y cuatro de cada una de las
/// demás, sin doses ni treses.
pub open spec fn baraja_mus_completa(s: Seq<Carta>) -> bool {
    &&& s.len() == 40
    &&& veces(s, Carta::As) == 8
    &&& veces(s, Carta::Rey) == 8
    &&& veces(s, Carta::Caballo) == 4
    &&& veces(s, Carta::Sota) == 4
    &&& veces(s, Carta::Siete) == 4
    &&& veces(s, Carta::Seis) == 4
    &&& veces(s, Carta::Cinco) == 4
    &&& veces(s, Carta::Cuatro) == 4
}

/// Baraja `b1` y cartas `nuevas` tras poner `descartadas` al final de la baraja `b0` y tomar
/// del principio tantas como se descartan. Las cartas por repartir quedan delante; si no llegan,
/// las que no lo estaban se barajan y pasan a estarlo.
pub open spec fn descarte_de_baraja(
    b0: ModeloBaraja,
    descartadas: Seq<Carta>,
    nuevas: Seq<Carta>,
    b1: ModeloBaraja,
) -> bool {
    let ext = b0.cartas + descartadas;
    let n = descartadas.len();
    let p = b0.pendientes;
    exists|b: Seq<Carta>|
        {
            &&& b.len() == ext.len()
            &&& b.take(p as int) == ext.take(p as int)
            &&& b.skip(p as int).to_multiset() == ext.skip(p as int).to_multiset()
            &&& n <= p ==> b == ext
            &&& b1.cartas == b.skip(n as int)
            &&& b1.pendientes == (if n > p {
                ext.len()
            } else {
                p
            }) - n
            &&& nuevas == b.take(n as int)
        }
}

impl Baraja {
    pub const FREC_BARAJA_MUS: [(Carta, u8); 8] = [
        (Carta::Rey, 8),
        (Carta::Caballo, 4),
        (Carta::Sota, 4),
        (Carta::Siete, 4),
        (Carta::Seis, 4),
        (Carta::Cinco, 4),
        (Carta::Cuatro, 4),
        (Carta::As, 8),
    ];

    #[verifier::type_invariant]
    spec fn inv(self) -> bool {
        self.1 <= self.0@.len()
    }

    /// Devuelve una nueva baraja vacía.
    pub fn new() -> (b: Self)
        ensures
            b@.cartas == Seq::<Carta>::empty(),
            b@.pendientes == 0,
    {
        Baraja(VecDeque::with_capacity(40), 0)
    }

    /// Inserta una carta al final de la baraja.
    pub fn insertar(&mut self, c: Carta)
        requires
            old(self)@.pendientes < usize::MAX,
        ensures
            final(self)@.cartas == old(self)@.cartas.push(c),
            final(self)@.pendientes == old(self)@.pendientes + 1,
    {
        proof {
            use_type_invariant(&*self);
        }
        let mut cartas = self.0.clone();
        cartas.push_back(c);
        proof {
            assert(cartas@ =~= old(self)@.cartas.push(c));
        }
        *self = Baraja(cartas, self.1 + 1);
    }

    /// Devuelve una baraja de mus barajada. Incluye ocho ases y ocho reyes, y no incluye ni doses
    /// ni treses.
    pub fn baraja_mus() -> (b: Baraja)
        ensures
            baraja_mus_completa(b@.cartas),
            b@.pendientes == 40,
    {
        let mut b = Baraja::new();
        let ghost mut inicial: Seq<Carta> = Seq::empty();
        for i in 0..8usize
            invariant
                b@.cartas.len() == 2 * i,
                b@.pendientes == 2 * i,
                veces(b@.cartas, Carta::As) == i,
                veces(b@.cartas, Carta::Rey) == i,
                veces(b@.cartas, Carta::Caballo) == 0,
                veces(b@.cartas, Carta::Sota) == 0,
                veces(b@.cartas, Carta::Siete) == 0,
                veces(b@.cartas, Carta::Seis) == 0,
                veces(b@.cartas, Carta::Cinco) == 0,
                veces(b@.cartas, Carta::Cuatro) == 0,
        {
            b.insertar(Carta::As);
            b.insertar(Carta::Rey);
        }
        for i in 0..4usize
            invariant
                b@.cartas.len() == 16 + 6 * i,
                b@.pendientes == 16 + 6 * i,
                veces(b@.cartas, Carta::As) == 8,
                veces(b@.cartas, Carta::Rey) == 8,
                veces(b@.cartas, Carta::Caballo) == i,
                veces(b@.cartas, Carta::Sota) == i,
                veces(b@.cartas, Carta::Siete) == i,
                veces(b@.cartas, Carta::Seis) == i,
                veces(b@.cartas, Carta::Cinco) == i,
                veces(b@.cartas, Carta::Cuatro) == i,
        {
            b.insertar(Carta::Caballo);
            b.insertar(Carta::Sota);
            b.insertar(Carta::Siete);
            b.insertar(Carta::Seis);
            b.insertar(Carta::Cinco);
            b.insertar(Carta::Cuatro);
        }
        b.barajar();
        b
    }

    /// Baraja las cartas al azar con el algoritmo del crate rand. El número de cartas por repartir
    /// no cambia.
    pub fn barajar(&mut self)
        ensures
            final(self)@.cartas.to_multiset() == old(self)@.cartas.to_multiset(),
            final(self)@.cartas.len() == old(self)@.cartas.len(),
            final(self)@.pendientes == old(self)@.pendientes,
    {
        proof {
            use_type_invariant(&*self);
        }
        let mut cartas = self.0.clone();
        barajar_desde(&mut cartas, 0);
        proof {
            assert(cartas@.skip(0) =~= cartas@);
            assert(old(self)@.cartas.skip(0) =~= old(self)@.cartas);
        }
        *self = Baraja(cartas, self.1);
    }

    /// Elimina la primera carta de la baraja y la devuelve, descontando una de las cartas por
    /// repartir. Con la baraja vacía devuelve `None` y la deja como está. Si quedan cartas, alguna
    /// tiene que estar por repartir.
    pub fn repartir(&mut self) -> (c: Option<Carta>)
        requires
            old(self)@.pendientes > 0 || old(self)@.cartas.len() == 0,
        ensures
            old(self)@.cartas.len() == 0 ==> c is None && final(self)@ == old(self)@,
            old(self)@.cartas.len() > 0 ==> {
                &&& c == Some(old(self)@.cartas[0])
                &&& final(self)@.cartas == old(self)@.cartas.drop_first()
                &&& final(self)@.pendientes == old(self)@.pendientes - 1
            },
    {
        proof {
            use_type_invariant(&*self);
        }
        if self.0.len() == 0 {
            return None;
        }
        let mut cartas = self.0.clone();
        let c = cartas.pop_front();
        *self = Baraja(cartas, self.1 - 1);
        c
    }

    /// Devuelve una copia de las primeras `n` cartas de la baraja.
    pub fn primeras_n_cartas(&self, n: usize) -> (s: Vec<Carta>)
        requires
            n <= self@.cartas.len(),
        ensures
            s@ == self@.cartas.take(n as int),
    {
        let mut s: Vec<Carta> = Vec::new();
        for i in 0..n
            invariant
                n <= self@.cartas.len(),
                s@ == self@.cartas.take(i as int),
        {
            proof {
                assert(self@.cartas.take(i + 1) =~= self@.cartas.take(i as int).push(
                    self@.cartas[i as int],
                ));
            }
            s.push(self.0[i]);
        }
        s
    }

    /// Genera `N` manos a partir de las primeras `4 * N` cartas de la baraja, cuatro cartas por
    /// mano y en orden, y las quita de la baraja. No baraja las cartas. De las cartas por
    /// repartir se descuentan dieciséis, las de cuatro manos, sea cual sea `N`; las que siguen
    /// por repartir no pueden ser más que las que quedan.
    pub fn repartir_manos<const N: usize>(&mut self) -> (manos: [Mano; N])
        requires
            old(self)@.cartas.len() >= 4 * N,
            old(self)@.pendientes >= 16,
            old(self)@.pendientes - 16 <= old(self)@.cartas.len() - 4 * N,
        ensures
            forall|i: int|
                0 <= i < N ==> mano_ordenada_de(
                    #[trigger] manos@[i]@,
                    old(self)@.cartas.subrange(4 * i, 4 * i + 4),
                ) && manos@[i]@.len() == 4,
            final(self)@.cartas == old(self)@.cartas.skip(4 * N),
            final(self)@.pendientes == old(self)@.pendientes - 16,
    {
        proof {
            use_type_invariant(&*self);
        }
        let mut cartas = self.0.clone();
        let mut manos: Vec<Mano> = Vec::new();
        for i in 0..N
            invariant
                old(self)@.cartas.len() >= 4 * N,
                cartas@ == old(self)@.cartas.skip(4 * i),
                manos@.len() == i,
                forall|j: int|
                    0 <= j < i ==> mano_ordenada_de(
                        #[trigger] manos@[j]@,
                        old(self)@.cartas.subrange(4 * j, 4 * j + 4),
                    ) && manos@[j]@.len() == 4,
        {
            let mut m = cartas_vacias();
            for k in 0..4usize
                invariant
                    old(self)@.cartas.len() >= 4 * N,
                    i < N,
                    cartas@ == old(self)@.cartas.skip(4 * i + k),
                    cartas_de(m) == old(self)@.cartas.subrange(4 * i, 4 * i + k),
            {
                let c = cartas.pop_front().unwrap();
                proof {
                    assert(old(self)@.cartas.subrange(4 * i, 4 * i + k + 1) =~= old(
                        self,
                    )@.cartas.subrange(4 * i, 4 * i + k).push(c));
                    assert(cartas@ =~= old(self)@.cartas.skip(4 * i + k + 1));
                }
                cartas_push(&mut m, c);
            }
            let mano = Mano::from_arrayvec(m);
            proof {
                lema_cuatro_cartas(mano@, cartas_de(m));
            }
            manos.push(mano);
        }
        *self = Baraja(cartas, self.1 - 16);
        manos_en_array(manos)
    }

    /// Cambia las cartas descartadas de la mano por las primeras de la baraja. Los descartes se
    /// ponen al final de la baraja; si no quedan cartas suficientes por repartir, se barajan los
    /// descartes acumulados y pasan a estar por repartir.
    pub fn descartar(&mut self, mano: &mut Mano, descartes: [bool; 4])
        requires
            old(mano)@.len() == 4,
            old(self)@.cartas.len() + 4 <= usize::MAX,
        ensures
            ({
                let ext = old(self)@.cartas + descartadas_de(old(mano)@, descartes, 4);
                let n = descartadas_de(old(mano)@, descartes, 4).len();
                let p = old(self)@.pendientes;
                exists|b: Seq<Carta>|
                    {
                        &&& b.len() == ext.len()
                        &&& b.take(p as int) == ext.take(p as int)
                        &&& b.skip(p as int).to_multiset() == ext.skip(p as int).to_multiset()
                        &&& n <= p ==> b == ext
                        &&& final(self)@.cartas == b.skip(n as int)
                        &&& final(self)@.pendientes == (if n > p {
                            ext.len()
                        } else {
                            p
                        }) - n
                        &&& mano_ordenada_de(
                            final(mano)@,
                            reemplazo(old(mano)@, descartes, b.take(n as int)),
                        )
                    }
            }),
            final(mano)@.len() == 4,
    {
        proof {
            use_type_invariant(&*self);
        }
        let mut cartas = self.0.clone();
        let c = mano.cartas();
        let mut n: usize = 0;
        for i in 0..4usize
            invariant
                c@ == old(mano)@,
                c@.len() == 4,
                old(self)@.cartas.len() + 4 <= usize::MAX,
                cartas@ == old(self)@.cartas + descartadas_de(c@, descartes, i as int),
                n == descartadas_de(c@, descartes, i as int).len(),
                n <= i,
        {
            if descartes[i] {
                cartas.push_back(c[i]);
                n = n + 1;
            }
            proof {
                assert(cartas@ =~= old(self)@.cartas + descartadas_de(c@, descartes, i + 1));
            }
        }
        let ghost ext = cartas@;
        let mut pendientes = self.1;
        if n > pendientes {
            barajar_desde(&mut cartas, pendientes);
            pendientes = cartas.len();
        }
        let ghost b = cartas@;
        let mut nuevas: Vec<Carta> = Vec::new();
        for k in 0..n
            invariant
                n <= pendientes <= b.len(),
                n <= b.len(),
                cartas@ == b.skip(k as int),
                nuevas@ == b.take(k as int),
        {
            let x = cartas.pop_front().unwrap();
            proof {
                assert(b.take(k + 1) =~= b.take(k as int).push(x));
                assert(cartas@ =~= b.skip(k + 1));
            }
            nuevas.push(x);
        }
        mano.reemplazar(descartes, nuevas.as_slice());
        *self = Baraja(cartas, pendientes - n);
        proof {
            assert(b.take(self@.pendientes as int) == b.take(self@.pendientes as int));
        }
    }

    /// Pone las cartas descartadas al final de la baraja y devuelve las que las sustituyen, las
    /// primeras de la baraja. Si no quedan cartas suficientes por repartir, se barajan los
    /// descartes acumulados y pasan a estar por repartir.
    pub fn descartar_cartas(&mut self, descartadas: &[Carta]) -> (nuevas: Vec<Carta>)
        requires
            old(self)@.cartas.len() + descartadas@.len() <= usize::MAX,
            descartadas@.len() <= 4,
        ensures
            descarte_de_baraja(old(self)@, descartadas@, nuevas@, final(self)@),
    {
        proof {
            use_type_invariant(&*self);
        }
        let mut cartas = self.0.clone();
        let n = descartadas.len();
        for i in 0..n
            invariant
                n == descartadas@.len(),
                old(self)@.cartas.len() + n <= usize::MAX,
                cartas@ == old(self)@.cartas + descartadas@.take(i as int),
        {
            cartas.push_back(descartadas[i]);
            proof {
                assert(cartas@ =~= old(self)@.cartas + descartadas@.take(i + 1));
            }
        }
        proof {
            assert(descartadas@.take(n as int) =~= descartadas@);
        }
        let ghost ext = cartas@;
        let mut pendientes = self.1;
        if n > pendientes {
            barajar_desde(&mut cartas, pendientes);
            pendientes = cartas.len();
        }
        let ghost b = cartas@;
        let mut nuevas: Vec<Carta> = Vec::new();
        for k in 0..n
            invariant
                n <= pendientes <= b.len(),
                cartas@ == b.skip(k as int),
                nuevas@ == b.take(k as int),
        {
            let x = cartas.pop_front().unwrap();
            proof {
                assert(b.take(k + 1) =~= b.take(k as int).push(x));
                assert(cartas@ =~= b.skip(k + 1));
            }
            nuevas.push(x);
        }
        *self = Baraja(cartas, pendientes - n);
        nuevas
    }
}

/// Una mano con las mismas cartas que otras cuatro tiene cuatro cartas.
proof fn lema_cuatro_cartas(m: Seq<Carta>, cartas: Seq<Carta>)
    requires
        m.to_multiset() == cartas.to_multiset(),
        cartas.len() == 4,
    ensures
        m.len() == 4,
{
    m.to_multiset_ensures();
    cartas.to_multiset_ensures();
}

impl Clone for Baraja {
    fn clone(&self) -> (b: Self)
        ensures
            b@ == self@,
    {
        proof {
            use_type_invariant(self);
        }
        Baraja(self.0.clone(), self.1)
    }
}

impl Default for Baraja {
    fn default() -> (b: Self)
        ensures
            b@.cartas == Seq::<Carta>::empty(),
            b@.pendientes == 0,
    {
        Self::new()
    }
}

} // verus!
