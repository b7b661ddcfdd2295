use vstd::prelude::*;

use super::carta_iter::{
    contar, indices_de, peso, peso_si_factible, indices_mano, probabilidad_mano_spec,
    probabilidad_dos_manos_spec, posicion_carta,
    cartas_de_indices, combinaciones_factibles, distribucion_restante, enteros, frecuencias,
    restantes, suma, suma_hasta, CombinationsWithReplacementProb, lista_desde, lema_lista_factible,
    veces_en, factible, en_rango, cabe_en_u64,
};
use super::{frecuencias_mus, Baraja, Carta};
use crate::colecciones::{binom, binomial};

verus! {

/// Un reparto de dos manos: sus cartas, el número de maneras de repartirlas, el total de maneras
/// de repartir dos manos y las frecuencias que quedan.
pub struct ParDeManos {
    pub mano1: Seq<Carta>,
    pub mano2: Seq<Carta>,
    pub casos: nat,
    pub total: nat,
    pub quedan: Seq<int>,
}

/// Frecuencias enteras como índices de máquina.
pub open spec fn como_usize(s: Seq<int>) -> Seq<usize> {
    s.map_values(|x: int| x as usize)
}

/// Repartos de la segunda mano cuando la primera es la combinación `c1`, con su peso, de las
/// frecuencias `max`, cuyo total de maneras es `t1`.
pub open spec fn segundas_manos(
    cartas: Seq<(Carta, u8)>,
    n: nat,
    max: Seq<usize>,
    c1: (Seq<int>, nat),
    t1: nat,
) -> Seq<ParDeManos> {
    let resto = como_usize(restantes(max, c1.0));
    combinaciones_factibles(resto, n).map_values(
        |c2: (Seq<int>, nat)|
            ParDeManos {
                mano1: cartas_de_indices(cartas, c1.0),
                mano2: cartas_de_indices(cartas, c2.0),
                casos: c1.1 * c2.1,
                total: t1 * binom(suma(resto), n),
                quedan: restantes(resto, c2.0),
            },
    )
}

/// Repartos de dos manos cuyas primeras manos son las de la lista, en orden.
pub open spec fn pares_de_manos(
    cartas: Seq<(Carta, u8)>,
    n: nat,
    max: Seq<usize>,
    primeras: Seq<(Seq<int>, nat)>,
    t1: nat,
) -> Seq<ParDeManos>
    decreases primeras.len(),
{
    if primeras.len() == 0 {
        Seq::empty()
    } else {
        pares_de_manos(cartas, n, max, primeras.drop_last(), t1) + segundas_manos(
            cartas,
            n,
            max,
            primeras.last(),
            t1,
        )
    }
}

/// Todos los repartos de dos manos de `n` cartas de la distribución: para cada primera mano, en
/// orden lexicográfico, cada segunda mano de las cartas que quedan.
pub open spec fn todos_los_pares(cartas: Seq<(Carta, u8)>, n: nat) -> Seq<ParDeManos> {
    let max = frecuencias(cartas);
    pares_de_manos(cartas, n, max, combinaciones_factibles(max, n), binom(suma(max), n))
}

/// Si cada frecuencia no pasa de la otra, la suma tampoco.
proof fn lema_suma_menor(a: Seq<usize>, b: Seq<usize>, j: int)
    requires
        a.len() == b.len(),
        0 <= j <= a.len(),
        forall|i: int| 0 <= i < a.len() ==> a[i] <= b[i],
    ensures
        suma_hasta(a, j) <= suma_hasta(b, j),
    decreases j,
{
    if j > 0 {
        lema_suma_menor(a, b, j - 1);
    }
}

/// Todas las combinaciones de la lista tienen `k` índices más que el prefijo.
proof fn lema_longitud_lista(max: Seq<usize>, pre: Seq<int>, v: int, k: nat)
    ensures
        forall|i: int|
            0 <= i < lista_desde(max, pre, v, k).len() ==> (#[trigger] lista_desde(
                max,
                pre,
                v,
                k,
            )[i]).0.len() == pre.len() + k,
    decreases k, max.len() - v,
{
    if k > 0 && 0 <= v < max.len() {
        lema_longitud_lista(max, pre.push(v), v, (k - 1) as nat);
        lema_longitud_lista(max, pre, v + 1, k);
        let a = lista_desde(max, pre.push(v), v, (k - 1) as nat);
        let b = lista_desde(max, pre, v + 1, k);
        assert forall|i: int| 0 <= i < (a + b).len() implies (#[trigger] (a + b)[i]).0.len()
            == pre.len() + k by {
            if i < a.len() {
                assert((a + b)[i] == a[i]);
            } else {
                assert((a + b)[i] == b[i - a.len()]);
            }
        }
    }
}

/// Veces que aparecen en la combinación los índices menores que `n`.
pub open spec fn suma_veces(c: Seq<int>, n: int) -> nat
    decreases n,
{
    if n <= 0 {
        0
    } else {
        suma_veces(c, n - 1) + veces_en(c, n - 1)
    }
}

/// Quitar el último índice de la combinación resta uno a la cuenta si es menor que `n`.
proof fn lema_suma_veces_ultimo(c: Seq<int>, n: int)
    requires
        c.len() > 0,
    ensures
        suma_veces(c, n) == suma_veces(c.drop_last(), n) + if 0 <= c.last() < n {
            1int
        } else {
            0int
        },
    decreases n,
{
    if n > 0 {
        lema_suma_veces_ultimo(c, n - 1);
    }
}

/// Si todos los índices son menores que `n`, la cuenta es la longitud de la combinación.
proof fn lema_suma_veces(c: Seq<int>, n: int)
    requires
        en_rango(c, n),
    ensures
        suma_veces(c, n) == c.len(),
    decreases c.len(),
{
    if c.len() == 0 {
        lema_suma_veces_vacia(n);
        assert(c =~= Seq::empty());
    } else {
        assert(0 <= c[c.len() - 1] < n);
        lema_suma_veces_ultimo(c, n);
        assert(en_rango(c.drop_last(), n));
        lema_suma_veces(c.drop_last(), n);
    }
}

/// Una combinación vacía no cuenta nada.
proof fn lema_suma_veces_vacia(n: int)
    ensures
        suma_veces(Seq::empty(), n) == 0,
    decreases n,
{
    if n > 0 {
        lema_suma_veces_vacia(n - 1);
    }
}

/// Lo que queda tras sacar una combinación que se puede sacar suma lo que había menos su
/// longitud, y ninguna frecuencia crece.
proof fn lema_suma_restantes(max: Seq<usize>, c: Seq<int>, j: int)
    requires
        0 <= j <= max.len(),
        factible(max, c),
    ensures
        suma_hasta(como_usize(restantes(max, c)), j) == suma_hasta(max, j) - suma_veces(c, j),
    decreases j,
{
    if j > 0 {
        lema_suma_restantes(max, c, j - 1);
        assert(veces_en(c, j - 1) <= max[j - 1]);
        assert(como_usize(restantes(max, c))[j - 1] == max[j - 1] - veces_en(c, j - 1));
    }
}

/// Lo que queda tras sacar una combinación de la lista suma lo que había menos `k`.
pub proof fn lema_suma_tras_combinacion(max: Seq<usize>, k: nat, i: int)
    requires
        0 <= i < combinaciones_factibles(max, k).len(),
    ensures
        suma(como_usize(restantes(max, combinaciones_factibles(max, k)[i].0))) == suma(max) - k,
        como_usize(restantes(max, combinaciones_factibles(max, k)[i].0)).len() == max.len(),
        forall|j: int|
            0 <= j < max.len() ==> 0 <= #[trigger] restantes(
                max,
                combinaciones_factibles(max, k)[i].0,
            )[j] <= max[j] && como_usize(restantes(max, combinaciones_factibles(max, k)[i].0))[j]
                == restantes(max, combinaciones_factibles(max, k)[i].0)[j],
{
    let c = combinaciones_factibles(max, k)[i].0;
    lema_lista_factible(max, Seq::empty(), 0, k);
    lema_longitud_lista(max, Seq::empty(), 0, k);
    assert(factible(max, c) && en_rango(c, max.len() as int));
    lema_suma_restantes(max, c, max.len() as int);
    lema_suma_veces(c, max.len() as int);
    assert forall|j: int| 0 <= j < max.len() implies 0 <= #[trigger] restantes(max, c)[j] <= max[j]
        && como_usize(restantes(max, c))[j] == restantes(max, c)[j] by {
        assert(veces_en(c, j) <= max[j]);
    }
}

/// Tras cada reparto de dos manos de la lista quedan las cartas que había menos `2 * n`, y
/// ninguna frecuencia crece ni es negativa.
pub proof fn lema_quedan_pares(cartas: Seq<(Carta, u8)>, n: nat, m: int, i: int)
    requires
        0 <= m <= combinaciones_factibles(frecuencias(cartas), n).len(),
        0 <= i < pares_de_manos(
            cartas,
            n,
            frecuencias(cartas),
            combinaciones_factibles(frecuencias(cartas), n).take(m),
            binom(suma(frecuencias(cartas)), n),
        ).len(),
    ensures
        ({
            let max = frecuencias(cartas);
            let q = pares_de_manos(
                cartas,
                n,
                max,
                combinaciones_factibles(max, n).take(m),
                binom(suma(max), n),
            )[i].quedan;
            &&& q.len() == max.len()
            &&& suma(como_usize(q)) == suma(max) - 2 * n
            &&& forall|j: int| 0 <= j < max.len() ==> 0 <= #[trigger] q[j] <= max[j]
                && como_usize(q)[j] == q[j]
        }),
    decreases m,
{
    let max = frecuencias(cartas);
    let l = combinaciones_factibles(max, n);
    let t = binom(suma(max), n);
    let todos = pares_de_manos(cartas, n, max, l.take(m), t);
    assert(m > 0);
    assert(l.take(m).drop_last() =~= l.take(m - 1));
    let previos = pares_de_manos(cartas, n, max, l.take(m - 1), t);
    let c1 = l[m - 1];
    assert(l.take(m).last() == c1);
    let seg = segundas_manos(cartas, n, max, c1, t);
    assert(todos == previos + seg);
    if i < previos.len() {
        lema_quedan_pares(cartas, n, m - 1, i);
        assert(todos[i] == previos[i]);
    } else {
        let k = i - previos.len();
        assert(todos[i] == seg[k]);
        let resto = como_usize(restantes(max, c1.0));
        lema_suma_tras_combinacion(max, n, m - 1);
        lema_suma_tras_combinacion(resto, n, k);
        let q = seg[k].quedan;
        assert(q == restantes(resto, combinaciones_factibles(resto, n)[k].0));
        assert forall|j: int| 0 <= j < max.len() implies 0 <= #[trigger] q[j] <= max[j]
            && como_usize(q)[j] == q[j] by {
            assert(0 <= restantes(max, c1.0)[j] <= max[j]);
            assert(resto[j] == restantes(max, c1.0)[j]);
            assert(0 <= q[j] <= resto[j]);
        }
    }
}

/// Cartas de la distribución en las posiciones de una combinación.
fn manos_de_indices<const M: usize>(cartas: &[(Carta, u8); M], indices: &Vec<usize>) -> (r: Vec<
    Carta,
>)
    requires
        forall|j: int| 0 <= j < indices@.len() ==> #[trigger] indices@[j] < M,
    ensures
        r@ == cartas_de_indices(cartas@, enteros(indices@)),
{
    let ghost e = enteros(indices@);
    let mut mano: Vec<Carta> = Vec::new();
    for i in 0..indices.len()
        invariant
            e == enteros(indices@),
            mano@ == cartas_de_indices(cartas@, e.take(i as int)),
            forall|j: int| 0 <= j < indices@.len() ==> #[trigger] indices@[j] < M,
    {
        mano.push(cartas[indices[i]].0);
        proof {
            assert(mano@ =~= cartas_de_indices(cartas@, e.take(i + 1)));
        }
    }
    proof {
        assert(e.take(e.len() as int) =~= e);
    }
    mano
}

/// Copia de las frecuencias.
fn copia_frecuencias(f: &[usize]) -> (r: Vec<usize>)
    ensures
        r@ == f@,
{
    let mut r: Vec<usize> = Vec::new();
    for i in 0..f.len()
        invariant
            r@ == f@.take(i as int),
    {
        r.push(f[i]);
        proof {
            assert(r@ =~= f@.take(i + 1));
        }
    }
    proof {
        assert(f@.take(f@.len() as int) =~= f@);
    }
    r
}

/// Repartos guardados, como pares de manos.
pub open spec fn vista_pares(v: Seq<(Vec<Carta>, Vec<Carta>, u128, u128, Vec<usize>)>) -> Seq<
    ParDeManos,
> {
    v.map_values(
        |p: (Vec<Carta>, Vec<Carta>, u128, u128, Vec<usize>)|
            ParDeManos {
                mano1: p.0@,
                mano2: p.1@,
                casos: p.2 as nat,
                total: p.3 as nat,
                quedan: enteros(p.4@),
            },
    )
}

/// El producto de dos enteros de 64 bits cabe en 128.
proof fn lema_producto(a: u64, b: u64)
    ensures
        (a as int) * (b as int) <= u128::MAX,
{
    assert((a as int) * (b as int) <= (u64::MAX as int) * (u64::MAX as int)) by (nonlinear_arith);
}

/// Copia de unas cartas.
fn copia_cartas(c: &Vec<Carta>) -> (r: Vec<Carta>)
    ensures
        r@ == c@,
{
    let mut r: Vec<Carta> = Vec::new();
    for i in 0..c.len()
        invariant
            r@ == c@.take(i as int),
    {
        r.push(c[i]);
        proof {
            assert(r@ =~= c@.take(i + 1));
        }
    }
    proof {
        assert(c@.take(c@.len() as int) =~= c@);
    }
    r
}

/// Añade a `pares` los repartos de la segunda mano cuando la primera es `c1`, que deja las
/// frecuencias `resto`.
fn agregar_segundas<const N: usize, const M: usize>(
    cartas: &[(Carta, u8); M],
    Ghost(max): Ghost<Seq<usize>>,
    Ghost(c1): Ghost<(Seq<int>, nat)>,
    mano1: &Vec<Carta>,
    w1: u64,
    t1: u64,
    resto: Vec<usize>,
    pares: &mut Vec<(Vec<Carta>, Vec<Carta>, u128, u128, Vec<usize>)>,
)
    requires
        N >= 1,
        resto@.len() == M,
        cabe_en_u64(resto@, N as nat),
        resto@ == como_usize(restantes(max, c1.0)),
        mano1@ == cartas_de_indices(cartas@, c1.0),
        w1 == c1.1,
        forall|i: int| 0 <= i < old(pares)@.len() ==> (#[trigger] old(pares)@[i]).4@.len() == M,
    ensures
        forall|i: int| 0 <= i < final(pares)@.len() ==> (#[trigger] final(pares)@[i]).4@.len() == M,
        vista_pares(final(pares)@) == vista_pares(old(pares)@) + segundas_manos(
            cartas@,
            N as nat,
            max,
            c1,
            t1 as nat,
        ),
{
    let ghost resto_v = resto@;
    let ghost segundas = segundas_manos(cartas@, N as nat, max, c1, t1 as nat);
    let mut iter2 = CombinationsWithReplacementProb::<N>::new(resto);
    let ghost lista2 = iter2@.lista;
    proof {
        assert(lista2 == combinaciones_factibles(resto_v, N as nat));
        assert(segundas.len() == lista2.len());
        assert(vista_pares(pares@) =~= vista_pares(old(pares)@) + segundas.take(0));
    }
    loop
        invariant
            iter2@.max == resto_v,
            iter2@.lista == lista2,
            iter2@.total == binom(suma(resto_v), N as nat),
            0 <= iter2@.pos <= lista2.len(),
            resto_v.len() == M,
            resto_v == como_usize(restantes(max, c1.0)),
            lista2 == combinaciones_factibles(resto_v, N as nat),
            segundas == segundas_manos(cartas@, N as nat, max, c1, t1 as nat),
            segundas.len() == lista2.len(),
            mano1@ == cartas_de_indices(cartas@, c1.0),
            w1 == c1.1,
            vista_pares(pares@) == vista_pares(old(pares)@) + segundas.take(iter2@.pos),
            forall|i: int| 0 <= i < pares@.len() ==> (#[trigger] pares@[i]).4@.len() == M,
        ensures
            forall|i: int| 0 <= i < pares@.len() ==> (#[trigger] pares@[i]).4@.len() == M,
            vista_pares(pares@) == vista_pares(old(pares)@) + segundas,
        decreases lista2.len() - iter2@.pos,
    {
        let ghost pos = iter2@.pos;
        match iter2.next() {
            None => {
                proof {
                    assert(segundas.take(pos) =~= segundas);
                }
                break;
            },
            Some((c2, w2, t2)) => {
                let mano2 = manos_de_indices(cartas, &c2);
                let quedan = copia_frecuencias(iter2.current_frequencies());
                let copia1 = copia_cartas(mano1);
                proof {
                    lema_producto(w1, w2);
                    lema_producto(t1, t2);
                }
                let casos = (w1 as u128) * (w2 as u128);
                let total = (t1 as u128) * (t2 as u128);
                let ghost antes = pares@;
                pares.push((copia1, mano2, casos, total, quedan));
                proof {
                    let nuevo = ParDeManos {
                        mano1: cartas_de_indices(cartas@, c1.0),
                        mano2: cartas_de_indices(cartas@, lista2[pos].0),
                        casos: c1.1 * lista2[pos].1,
                        total: (t1 as nat) * binom(suma(resto_v), N as nat),
                        quedan: restantes(resto_v, lista2[pos].0),
                    };
                    assert(segundas[pos] == nuevo);
                    assert(vista_pares(pares@) =~= vista_pares(antes).push(nuevo));
                    assert(segundas.take(pos + 1) =~= segundas.take(pos).push(nuevo));
                }
            },
        }
    }
}

/// Frecuencias que quedan antes de pedir el primer reparto: las que deja la primera mano de la
/// lista, si hay alguna, y si no todas.
pub open spec fn frecuencias_iniciales(cartas: Seq<(Carta, u8)>, n: nat) -> Seq<int> {
    let max = frecuencias(cartas);
    let l = combinaciones_factibles(max, n);
    if l.len() > 0 {
        restantes(max, l[0].0)
    } else {
        enteros(max)
    }
}

/// Iterador de los repartos de dos manos de `N` cartas de una distribución de `M` cartas: para
/// cada primera mano, cada segunda mano de las cartas que quedan, con el número de maneras de
/// repartirlas y el total de maneras de repartir dos manos.
pub struct DistribucionDobleCartaIter<const N: usize, const M: usize> {
    cartas: [(Carta, u8); M],
    pares: Vec<(Vec<Carta>, Vec<Carta>, u128, u128, Vec<usize>)>,
    siguiente: usize,
    actuales: Vec<usize>,
}

/// Modelo del iterador: la distribución, los repartos que recorre, la posición del siguiente y
/// las frecuencias que quedan tras el último reparto.
pub struct ModeloDobleDistribucion {
    pub cartas: Seq<(Carta, u8)>,
    pub pares: Seq<ParDeManos>,
    pub pos: int,
    pub actuales: Seq<int>,
}

impl<const N: usize, const M: usize> View for DistribucionDobleCartaIter<N, M> {
    type V = ModeloDobleDistribucion;

    closed spec fn view(&self) -> ModeloDobleDistribucion {
        ModeloDobleDistribucion {
            cartas: self.cartas@,
            pares: vista_pares(self.pares@),
            pos: self.siguiente as int,
            actuales: enteros(self.actuales@),
        }
    }
}

impl<const N: usize, const M: usize> DistribucionDobleCartaIter<N, M> {
    #[verifier::type_invariant]
    spec fn inv(self) -> bool {
        &&& self.siguiente <= self.pares@.len()
        &&& self.actuales@.len() == M
        &&& forall|i: int| 0 <= i < self.pares@.len() ==> (#[trigger] self.pares@[i]).4@.len() == M
    }

    /// Crea el iterador de repartos de dos manos de `N` cartas de la distribución recibida. Hacen
    /// falta al menos `2 * N` cartas para que cada primera mano deje una segunda, o menos de
    /// `N`, con las que no hay ningún reparto.
    pub fn new(cartas: [(Carta, u8); M]) -> (it: Self)
        requires
            N >= 1,
            cabe_en_u64(frecuencias(cartas@), N as nat),
            suma(frecuencias(cartas@)) < N || suma(frecuencias(cartas@)) >= 2 * N,
        ensures
            it@.cartas == cartas@,
            it@.pares == todos_los_pares(cartas@, N as nat),
            it@.pos == 0,
            it@.actuales == frecuencias_iniciales(cartas@, N as nat),
    {
        let mut frequencies: Vec<usize> = Vec::new();
        for i in 0..M
            invariant
                frequencies@ == frecuencias(cartas@.take(i as int)),
        {
            frequencies.push(cartas[i].1 as usize);
            proof {
                assert(frequencies@ =~= frecuencias(cartas@.take(i + 1)));
            }
        }
        proof {
            assert(cartas@.take(M as int) =~= cartas@);
        }
        let ghost max = frequencies@;
        let mut iter1 = CombinationsWithReplacementProb::<N>::new(frequencies);
        let ghost lista1 = iter1@.lista;
        let ghost t1s = iter1@.total;
        let mut pares: Vec<(Vec<Carta>, Vec<Carta>, u128, u128, Vec<usize>)> = Vec::new();
        let mut actuales: Vec<usize> = copia_frecuencias(iter1.current_frequencies());
        let mut primera = true;
        proof {
            assert(pares_de_manos(cartas@, N as nat, max, lista1.take(0), t1s) =~= Seq::empty());
            assert(vista_pares(pares@) =~= Seq::empty());
        }
        loop
            invariant
                iter1@.max == max,
                iter1@.lista == lista1,
                iter1@.total == t1s,
                0 <= iter1@.pos <= lista1.len(),
                max.len() == M,
                max == frecuencias(cartas@),
                cabe_en_u64(max, N as nat),
                lista1 == combinaciones_factibles(max, N as nat),
                t1s == binom(suma(max), N as nat),
                N >= 1,
                vista_pares(pares@) == pares_de_manos(
                    cartas@,
                    N as nat,
                    max,
                    lista1.take(iter1@.pos),
                    t1s,
                ),
                primera == (iter1@.pos == 0),
                actuales@.len() == M,
                forall|i: int| 0 <= i < pares@.len() ==> (#[trigger] pares@[i]).4@.len() == M,
                iter1@.pos == 0 ==> enteros(actuales@) == enteros(max),
                iter1@.pos > 0 ==> enteros(actuales@) == restantes(max, lista1[0].0),
            ensures
                actuales@.len() == M,
                forall|i: int| 0 <= i < pares@.len() ==> (#[trigger] pares@[i]).4@.len() == M,
                vista_pares(pares@) == pares_de_manos(cartas@, N as nat, max, lista1, t1s),
                enteros(actuales@) == frecuencias_iniciales(cartas@, N as nat),
            decreases lista1.len() - iter1@.pos,
        {
            let ghost pos = iter1@.pos;
            match iter1.next() {
                None => {
                    proof {
                        assert(lista1.take(pos) =~= lista1);
                    }
                    break;
                },
                Some((c1, w1, t1)) => {
                    let mano1 = manos_de_indices(&cartas, &c1);
                    let resto = copia_frecuencias(iter1.current_frequencies());
                    if primera {
                        actuales = copia_frecuencias(iter1.current_frequencies());
                        primera = false;
                    }
                    proof {
                        let r = restantes(max, lista1[pos].0);
                        assert(enteros(resto@) == r);
                        assert forall|j: int| 0 <= j < M implies resto@[j] <= max[j] by {
                            assert(enteros(resto@)[j] == r[j]);
                        }
                        lema_suma_menor(resto@, max, M as int);
                        crate::mus::lema_binom_monotono(suma(resto@), suma(max), N as nat);
                        assert(resto@ =~= como_usize(r)) by {
                            assert forall|j: int| 0 <= j < M implies resto@[j] == como_usize(r)[j] by {
                                assert(enteros(resto@)[j] == r[j]);
                            }
                        }
                    }
                    agregar_segundas::<N, M>(
                        &cartas,
                        Ghost(max),
                        Ghost(lista1[pos]),
                        &mano1,
                        w1,
                        t1,
                        resto,
                        &mut pares,
                    );
                    proof {
                        assert(lista1.take(pos + 1).drop_last() =~= lista1.take(pos));
                        assert(lista1.take(pos + 1).last() == lista1[pos]);
                    }
                },
            }
        }
        DistribucionDobleCartaIter { cartas, pares, siguiente: 0, actuales }
    }

    /// Siguiente reparto: las dos manos, el número de maneras de repartirlas y el total de
    /// maneras de repartir dos manos; o `None` si ya no quedan.
    pub fn next(&mut self) -> (r: Option<(Vec<Carta>, Vec<Carta>, u128, u128)>)
        ensures
            final(self)@.cartas == old(self)@.cartas,
            final(self)@.pares == old(self)@.pares,
            ({
                let v = old(self)@;
                v.pos < v.pares.len() ==> (r matches Some((m1, m2, casos, total)) && m1@
                    == v.pares[v.pos].mano1 && m2@ == v.pares[v.pos].mano2 && casos
                    == v.pares[v.pos].casos && total == v.pares[v.pos].total && final(self)@.pos
                    == v.pos + 1 && final(self)@.actuales == v.pares[v.pos].quedan)
            }),
            old(self)@.pos >= old(self)@.pares.len() ==> r is None && final(self)@ == old(self)@,
    {
        proof {
            use_type_invariant(&*self);
        }
        if self.siguiente >= self.pares.len() {
            return None;
        }
        let i = self.siguiente;
        let m1 = copia_cartas(&self.pares[i].0);
        let m2 = copia_cartas(&self.pares[i].1);
        let casos = self.pares[i].2;
        let total = self.pares[i].3;
        self.actuales = copia_frecuencias(self.pares[i].4.as_slice());
        self.siguiente = i + 1;
        Some((m1, m2, casos, total))
    }

    /// Frecuencias que quedan tras el último reparto.
    pub fn current_frequencies(&self) -> (f: &[usize])
        ensures
            enteros(f@) == self@.actuales,
            f@.len() == M,
    {
        proof {
            use_type_invariant(self);
        }
        self.actuales.as_slice()
    }

    /// Distribución de cartas del iterador.
    pub fn cartas(&self) -> (c: [(Carta, u8); M])
        ensures
            c@ == self@.cartas,
    {
        self.cartas
    }

    /// Número de repartos que quedan por recorrer.
    pub fn len(&self) -> (n: usize)
        ensures
            n == self@.pares.len() - self@.pos,
    {
        proof {
            use_type_invariant(self);
        }
        self.pares.len() - self.siguiente
    }
}

/// Repartos de dos manos de cuatro cartas de la baraja de mus, con la distribución que queda
/// tras cada uno.
pub struct RepartoMusDosJugadoresIter(DistribucionDobleCartaIter<4, 8>);

impl RepartoMusDosJugadoresIter {
    /// Modelo de los repartos que se recorren.
    pub closed spec fn distribucion(self) -> ModeloDobleDistribucion {
        self.0@
    }

    /// Iterador de todos los repartos de dos manos de la baraja de mus.
    pub fn new() -> (it: Self)
        ensures
            it.distribucion().cartas == frecuencias_mus(),
            it.distribucion().pares == todos_los_pares(frecuencias_mus(), 4),
            it.distribucion().pos == 0,
    {
        let cartas = Baraja::FREC_BARAJA_MUS;
        proof {
            lema_baraja_mus();
        }
        RepartoMusDosJugadoresIter(DistribucionDobleCartaIter::new(cartas))
    }

    /// Siguiente reparto: las dos manos, el número de maneras de repartirlas, el total de
    /// maneras y la distribución que queda; o `None` si ya no quedan.
    pub fn next(&mut self) -> (r: Option<(Vec<Carta>, Vec<Carta>, u128, u128, [(Carta, u8); 8])>)
        ensures
            final(self).distribucion().cartas == old(self).distribucion().cartas,
            final(self).distribucion().pares == old(self).distribucion().pares,
            ({
                let v = old(self).distribucion();
                v.pos < v.pares.len() ==> (r matches Some((m1, m2, casos, total, dist)) && m1@
                    == v.pares[v.pos].mano1 && m2@ == v.pares[v.pos].mano2 && casos
                    == v.pares[v.pos].casos && total == v.pares[v.pos].total
                    && final(self).distribucion().pos == v.pos + 1 && dist@
                    == distribucion_restante(v.cartas, v.pares[v.pos].quedan))
            }),
            old(self).distribucion().pos >= old(self).distribucion().pares.len() ==> r is None
                && final(self).distribucion() == old(self).distribucion(),
    {
        let (m1, m2, casos, total) = match self.0.next() {
            Some(x) => x,
            None => return None,
        };
        let mut dist = self.0.cartas();
        let actuales = self.0.current_frequencies();
        for i in 0..8usize
            invariant
                actuales@.len() == 8,
                forall|j: int| 0 <= j < i ==> #[trigger] dist@[j] == (
                    self.0@.cartas[j].0,
                    enteros(actuales@)[j] as u8,
                ),
                forall|j: int| i <= j < 8 ==> #[trigger] dist@[j] == self.0@.cartas[j],
                self.0@.cartas.len() == 8,
        {
            let c = dist[i].0;
            dist.set(i, (c, actuales[i] as u8));
        }
        proof {
            assert(dist@ =~= distribucion_restante(self.0@.cartas, self.0@.actuales));
        }
        Some((m1, m2, casos, total, dist))
    }

    /// Número de repartos que quedan por recorrer.
    pub fn len(&self) -> (n: usize)
        ensures
            n == self.distribucion().pares.len() - self.distribucion().pos,
    {
        self.0.len()
    }
}

/// La baraja de mus tiene cuarenta cartas, con ocho reyes, ocho ases y cuatro de cada otra.
proof fn lema_baraja_mus()
    ensures
        Baraja::FREC_BARAJA_MUS@ == frecuencias_mus(),
        suma(frecuencias(frecuencias_mus())) == 40,
        forall|j: int| 0 <= j < 8 ==> #[trigger] frecuencias(frecuencias_mus())[j] <= 8,
        frecuencias(frecuencias_mus()).len() == 8,
        cabe_en_u64(frecuencias(frecuencias_mus()), 4),
{
    assert(Baraja::FREC_BARAJA_MUS@ =~= frecuencias_mus());
    reveal_with_fuel(suma_hasta, 9);
    crate::mus::lema_binom_cabe(40, 4);
}

/// Un reparto de las cuatro manos de una partida: las dos primeras, las dos segundas de las
/// cartas que quedan, y la distribución que queda al final.
pub struct RepartoCuatro {
    pub primeras: ParDeManos,
    pub segundas: ParDeManos,
    pub quedan: Seq<(Carta, u8)>,
}

/// Repartos de cuatro manos cuyas dos primeras manos son las del reparto `p` de la distribución.
pub open spec fn repartos_tras(cartas: Seq<(Carta, u8)>, p: ParDeManos) -> Seq<RepartoCuatro> {
    let dist = distribucion_restante(cartas, p.quedan);
    todos_los_pares(dist, 4).map_values(
        |q: ParDeManos|
            RepartoCuatro { primeras: p, segundas: q, quedan: distribucion_restante(dist, q.quedan) },
    )
}

/// Repartos de cuatro manos cuyas dos primeras manos son las de la lista, en orden.
pub open spec fn repartos_cuatro(cartas: Seq<(Carta, u8)>, pares: Seq<ParDeManos>) -> Seq<
    RepartoCuatro,
>
    decreases pares.len(),
{
    if pares.len() == 0 {
        Seq::empty()
    } else {
        repartos_cuatro(cartas, pares.drop_last()) + repartos_tras(cartas, pares.last())
    }
}

/// Todos los repartos de las cuatro manos de una partida de mus: para cada reparto de las dos
/// primeras manos, cada reparto de las dos segundas con las cartas que quedan.
pub open spec fn todos_los_repartos_mus() -> Seq<RepartoCuatro> {
    repartos_cuatro(frecuencias_mus(), todos_los_pares(frecuencias_mus(), 4))
}

/// Los repartos de un prefijo de la lista son un prefijo de los de toda la lista.
proof fn lema_prefijo_repartos(cartas: Seq<(Carta, u8)>, s: Seq<ParDeManos>, i: int)
    requires
        0 <= i <= s.len(),
    ensures
        repartos_cuatro(cartas, s.take(i)).len() <= repartos_cuatro(cartas, s).len(),
        forall|k: int|
            0 <= k < repartos_cuatro(cartas, s.take(i)).len() ==> #[trigger] repartos_cuatro(
                cartas,
                s,
            )[k] == repartos_cuatro(cartas, s.take(i))[k],
    decreases s.len(),
{
    if i < s.len() {
        assert(s.drop_last().take(i) =~= s.take(i));
        lema_prefijo_repartos(cartas, s.drop_last(), i);
    } else {
        assert(s.take(i) =~= s);
    }
}

/// Iterador de todos los repartos de las cuatro manos de una partida de mus.
pub struct RepartoMusIter {
    outer: DistribucionDobleCartaIter<4, 8>,
    actual: Option<(Vec<Carta>, Vec<Carta>, u128, u128, DistribucionDobleCartaIter<4, 8>)>,
}

impl RepartoMusIter {
    /// El iterador recorre los repartos de la baraja de mus: el de las dos primeras manos ya
    /// sacado está guardado con el iterador de las dos segundas, y si no hay ninguno es que ya no
    /// quedan.
    pub closed spec fn bien_formado(self) -> bool {
        &&& self.outer@.cartas == frecuencias_mus()
        &&& self.outer@.pares == todos_los_pares(frecuencias_mus(), 4)
        &&& 0 <= self.outer@.pos <= self.outer@.pares.len()
        &&& match self.actual {
            None => self.outer@.pos == self.outer@.pares.len(),
            Some((m1, m2, c, t, inner)) => {
                let p = self.outer@.pares[self.outer@.pos - 1];
                &&& self.outer@.pos >= 1
                &&& m1@ == p.mano1
                &&& m2@ == p.mano2
                &&& c == p.casos
                &&& t == p.total
                &&& inner@.cartas == distribucion_restante(frecuencias_mus(), p.quedan)
                &&& inner@.pares == todos_los_pares(inner@.cartas, 4)
                &&& 0 <= inner@.pos <= inner@.pares.len()
            },
        }
    }

    /// Posición en [`todos_los_repartos_mus`] del siguiente reparto que se devuelve.
    pub closed spec fn posicion(self) -> int {
        match self.actual {
            None => todos_los_repartos_mus().len() as int,
            Some((_, _, _, _, inner)) => repartos_cuatro(
                frecuencias_mus(),
                self.outer@.pares.take(self.outer@.pos - 1),
            ).len() + inner@.pos,
        }
    }

    /// Distribución que queda tras el reparto de las dos primeras manos que acaba de sacar el
    /// iterador exterior.
    fn distribucion_tras(outer: &DistribucionDobleCartaIter<4, 8>) -> (d: [(Carta, u8); 8])
        requires
            outer@.cartas == frecuencias_mus(),
            outer@.pares == todos_los_pares(frecuencias_mus(), 4),
            1 <= outer@.pos <= outer@.pares.len(),
            outer@.actuales == outer@.pares[outer@.pos - 1].quedan,
        ensures
            d@ == distribucion_restante(frecuencias_mus(), outer@.pares[outer@.pos - 1].quedan),
            suma(frecuencias(d@)) == 32,
            cabe_en_u64(frecuencias(d@), 4),
    {
        proof {
            crate::mus::lema_binom_cabe(32, 4);
        }
        let cartas = outer.cartas();
        let actuales = outer.current_frequencies();
        let mut dist = cartas;
        let ghost q = outer@.pares[outer@.pos - 1].quedan;
        proof {
            lema_baraja_mus();
            let max = frecuencias(frecuencias_mus());
            let l = combinaciones_factibles(max, 4);
            assert(l.take(l.len() as int) =~= l);
            lema_quedan_pares(frecuencias_mus(), 4, l.len() as int, outer@.pos - 1);
        }
        for i in 0..8usize
            invariant
                actuales@.len() == 8,
                enteros(actuales@) == q,
                cartas@ == frecuencias_mus(),
                forall|j: int| 0 <= j < i ==> #[trigger] dist@[j] == (cartas@[j].0, q[j] as u8),
                forall|j: int| i <= j < 8 ==> #[trigger] dist@[j] == cartas@[j],
        {
            let c = dist[i].0;
            assert(enteros(actuales@)[i as int] == actuales@[i as int] as int);
            dist.set(i, (c, actuales[i] as u8));
        }
        proof {
            assert(dist@ =~= distribucion_restante(frecuencias_mus(), q));
            let max = frecuencias(frecuencias_mus());
            assert(frecuencias(dist@) =~= como_usize(q)) by {
                assert forall|j: int| 0 <= j < 8 implies frecuencias(dist@)[j] == como_usize(q)[j] by {
                    assert(0 <= q[j] <= max[j]);
                    assert(max[j] <= 8);
                }
            }
        }
        dist
    }

    /// Iterador de todos los repartos de las cuatro manos de una partida de mus.
    pub fn new() -> (it: Self)
        ensures
            it.bien_formado(),
            it.posicion() == 0,
    {
        proof {
            lema_baraja_mus();
        }
        let mut outer = DistribucionDobleCartaIter::<4, 8>::new(Baraja::FREC_BARAJA_MUS);
        let actual = match outer.next() {
            None => None,
            Some((m1, m2, c, t)) => {
                let dist = Self::distribucion_tras(&outer);
                let inner = DistribucionDobleCartaIter::<4, 8>::new(dist);
                Some((m1, m2, c, t, inner))
            },
        };
        let it = RepartoMusIter { outer, actual };
        proof {
            assert(it.outer@.pares.take(0) =~= Seq::<ParDeManos>::empty());
        }
        it
    }

    /// Distribución que queda tras el último reparto de dos manos de un iterador.
    fn distribucion_actual(it: &DistribucionDobleCartaIter<4, 8>) -> (d: [(Carta, u8); 8])
        requires
            it@.cartas.len() == 8,
        ensures
            d@ == distribucion_restante(it@.cartas, it@.actuales),
    {
        let cartas = it.cartas();
        let actuales = it.current_frequencies();
        let mut dist = cartas;
        for i in 0..8usize
            invariant
                actuales@.len() == 8,
                enteros(actuales@) == it@.actuales,
                cartas@ == it@.cartas,
                forall|j: int|
                    0 <= j < i ==> #[trigger] dist@[j] == (cartas@[j].0, it@.actuales[j] as u8),
                forall|j: int| i <= j < 8 ==> #[trigger] dist@[j] == cartas@[j],
        {
            let c = dist[i].0;
            assert(enteros(actuales@)[i as int] == actuales@[i as int] as int);
            dist.set(i, (c, actuales[i] as u8));
        }
        proof {
            assert(dist@ =~= distribucion_restante(it@.cartas, it@.actuales));
        }
        dist
    }

    /// Siguiente reparto de las cuatro manos: las dos primeras manos con el número de maneras de
    /// repartirlas y su total, lo mismo de las dos segundas, y la distribución que queda; o
    /// `None` si ya no quedan.
    #[verifier::rlimit(60)]
    pub fn next(&mut self) -> (r: Option<
        ((Vec<Carta>, Vec<Carta>, u128, u128), (Vec<Carta>, Vec<Carta>, u128, u128), [(Carta, u8); 8]),
    >)
        requires
            old(self).bien_formado(),
        ensures
            final(self).bien_formado(),
            ({
                let k = old(self).posicion();
                let todos = todos_los_repartos_mus();
                &&& k < todos.len() ==> (r matches Some((a, b, d)) && a.0@
                    == todos[k].primeras.mano1 && a.1@ == todos[k].primeras.mano2 && a.2
                    == todos[k].primeras.casos && a.3 == todos[k].primeras.total && b.0@
                    == todos[k].segundas.mano1 && b.1@ == todos[k].segundas.mano2 && b.2
                    == todos[k].segundas.casos && b.3 == todos[k].segundas.total && d@
                    == todos[k].quedan && final(self).posicion() == k + 1)
                &&& k >= todos.len() ==> r is None && final(self).posicion() == k
            }),
    {
        let ghost k = self.posicion();
        proof {
            lema_baraja_mus();
            let pares = self.outer@.pares;
            let pos = self.outer@.pos;
            assert(pares.take(pares.len() as int) =~= pares);
            if self.actual is Some {
                assert(pares.take(pos).drop_last() =~= pares.take(pos - 1));
                assert(pares.take(pos).last() == pares[pos - 1]);
                lema_prefijo_repartos(frecuencias_mus(), pares, pos);
            }
        }
        loop
            invariant
                self.bien_formado(),
                self.posicion() == k,
                k == old(self).posicion(),
                k <= todos_los_repartos_mus().len(),
            decreases self.outer@.pares.len() - self.outer@.pos,
        {
            let ghost pos = self.outer@.pos;
            let ghost pares = self.outer@.pares;
            let actual = self.actual.take();
            match actual {
                None => {
                    return None;
                },
                Some((m1, m2, c, t, mut inner)) => {
                    let ghost j = inner@.pos;
                    let ghost p = pares[pos - 1];
                    proof {
                        assert(pares.take(pos).drop_last() =~= pares.take(pos - 1));
                        assert(pares.take(pos).last() == p);
                        lema_prefijo_repartos(frecuencias_mus(), pares, pos);
                    }
                    match inner.next() {
                        Some((m3, m4, c2, t2)) => {
                            let d = Self::distribucion_actual(&inner);
                            let primeras = (copia_cartas(&m1), copia_cartas(&m2), c, t);
                            self.actual = Some((m1, m2, c, t, inner));
                            proof {
                                let prev = repartos_cuatro(frecuencias_mus(), pares.take(pos - 1));
                                let tras = repartos_tras(frecuencias_mus(), p);
                                assert(repartos_cuatro(frecuencias_mus(), pares.take(pos)) == prev
                                    + tras);
                                assert(todos_los_repartos_mus()[k] == (prev + tras)[k]);
                                assert((prev + tras)[k] == tras[j]);
                            }
                            return Some((primeras, (m3, m4, c2, t2), d));
                        },
                        None => {
                            match self.outer.next() {
                                None => {
                                    proof {
                                        assert(pares.take(pos) =~= pares);
                                    }
                                    return None;
                                },
                                Some((n1, n2, nc, nt)) => {
                                    let dist = Self::distribucion_tras(&self.outer);
                                    let nuevo = DistribucionDobleCartaIter::<4, 8>::new(dist);
                                    self.actual = Some((n1, n2, nc, nt, nuevo));
                                    proof {
                                        assert(self.outer@.pares.take(self.outer@.pos - 1)
                                            == pares.take(pos));
                                    }
                                },
                            }
                        },
                    }
                },
            }
        }
    }
}

/// Número de maneras de repartir exactamente la combinación de índices y frecuencias que quedan
/// tras repartirla; `None` si usa algún índice más veces de las que hay.
fn combinaciones_mano(frecuencias: &Vec<usize>, indices: &Vec<usize>, cota: u64) -> (r: Option<(u64, Vec<usize>)>)
    requires
        forall|j: int| 0 <= j < indices@.len() ==> #[trigger] indices@[j] < frecuencias@.len(),
        cota == binom(suma(frecuencias@), indices@.len()),
    ensures
        match r {
            Some((w, resto)) => {
                &&& factible(frecuencias@, enteros(indices@))
                &&& w == peso(frecuencias@, enteros(indices@))
                &&& enteros(resto@) == restantes(frecuencias@, enteros(indices@))
                &&& resto@.len() == frecuencias@.len()
            },
            None => !factible(frecuencias@, enteros(indices@)),
        },
{
    proof {
        assert(en_rango(enteros(indices@), frecuencias@.len() as int));
    }
    let w = match peso_si_factible(frecuencias, indices, cota) {
        Some(w) => w,
        None => return None,
    };
    let ghost e = enteros(indices@);
    let mut resto: Vec<usize> = Vec::new();
    for j in 0..frecuencias.len()
        invariant
            resto@.len() == j,
            e == enteros(indices@),
            factible(frecuencias@, e),
            forall|u: int|
                0 <= u < j ==> #[trigger] resto@[u] as int == frecuencias@[u] - veces_en(e, u),
    {
        let veces = contar(indices, j);
        proof {
            assert(veces_en(e, j as int) <= frecuencias@[j as int]);
        }
        resto.push(frecuencias[j] - veces);
    }
    proof {
        assert(enteros(resto@) =~= restantes(frecuencias@, e));
    }
    Some((w, resto))
}

/// Frecuencias de la distribución como vector.
fn frecuencias_de<const M: usize>(cartas: &[(Carta, u8); M]) -> (f: Vec<usize>)
    ensures
        f@ == frecuencias(cartas@),
{
    let mut f: Vec<usize> = Vec::new();
    for i in 0..M
        invariant
            f@ == frecuencias(cartas@.take(i as int)),
    {
        f.push(cartas[i].1 as usize);
        proof {
            assert(f@ =~= frecuencias(cartas@.take(i + 1)));
        }
    }
    proof {
        assert(cartas@.take(M as int) =~= cartas@);
    }
    f
}

/// Suma de las frecuencias.
fn sumar(f: &Vec<usize>) -> (s: u64)
    requires
        suma(f@) <= u64::MAX,
    ensures
        s == suma(f@),
{
    let mut s: u64 = 0;
    for j in 0..f.len()
        invariant
            suma(f@) <= u64::MAX,
            s == suma_hasta(f@, j as int),
    {
        proof {
            lema_suma_menor_prefijo(f@, j as int + 1);
        }
        s = s + f[j] as u64;
    }
    s
}

/// Las sumas de los prefijos no pasan de la suma total.
proof fn lema_suma_menor_prefijo(f: Seq<usize>, j: int)
    requires
        0 <= j <= f.len(),
    ensures
        suma_hasta(f, j) <= suma(f),
    decreases f.len() - j,
{
    if j < f.len() {
        lema_suma_menor_prefijo(f, j + 1);
    }
}

/// Probabilidad de repartir exactamente esta mano de la distribución, como fracción: el número
/// de maneras de repartirla y el total de maneras de repartir tantas cartas. Es la misma que da
/// [`DistribucionCartaIter`] para esa mano. Una mano imposible tiene probabilidad `0 / 1`.
pub fn probabilidad_mano<const M: usize>(cartas: [(Carta, u8); M], mano: &[Carta]) -> (r: (u64, u64))
    requires
        cabe_en_u64(frecuencias(cartas@), mano@.len()),
    ensures
        (r.0 as nat, r.1 as nat) == probabilidad_mano_spec(cartas@, mano@),
{
    let f = frecuencias_de(&cartas);
    let indices = match indices_de(&cartas, mano) {
        Some(v) => v,
        None => return (0, 1),
    };
    let n = sumar(&f);
    let total = binomial(n, mano.len() as u64);
    match combinaciones_mano(&f, &indices, total) {
        None => (0, 1),
        Some((w, _)) => (w, total),
    }
}

/// Probabilidad conjunta de repartir las dos manos de la distribución, la segunda con las
/// cartas que deja la primera, como fracción. Es la misma que da [`DistribucionDobleCartaIter`]
/// para ese par de manos. Si alguna es imposible, `0 / 1`.
pub fn probabilidad_dos_manos<const M: usize>(
    cartas: [(Carta, u8); M],
    mano1: &[Carta],
    mano2: &[Carta],
) -> (r: (u128, u128))
    requires
        cabe_en_u64(frecuencias(cartas@), mano1@.len()),
        cabe_en_u64(frecuencias(cartas@), mano2@.len()),
    ensures
        (r.0 as nat, r.1 as nat) == probabilidad_dos_manos_spec(cartas@, mano1@, mano2@),
{
    let f = frecuencias_de(&cartas);
    let (indices1, indices2) = match (indices_de(&cartas, mano1), indices_de(&cartas, mano2)) {
        (Some(a), Some(b)) => (a, b),
        _ => return (0, 1),
    };
    let n1 = sumar(&f);
    let t1 = binomial(n1, mano1.len() as u64);
    let (w1, resto) = match combinaciones_mano(&f, &indices1, t1) {
        Some(x) => x,
        None => return (0, 1),
    };
    let ghost e1 = enteros(indices1@);
    proof {
        let esperado = Seq::new(f@.len(), |j: int| (f@[j] - veces_en(e1, j)) as usize);
        assert forall|j: int| 0 <= j < f@.len() implies resto@[j] == esperado[j] && resto@[j]
            <= f@[j] by {
            assert(enteros(resto@)[j] == restantes(f@, e1)[j]);
        }
        assert(resto@ =~= esperado);
        lema_suma_menor(resto@, f@, f@.len() as int);
        assert forall|j: int| 0 <= j < indices2@.len() implies #[trigger] indices2@[j] < resto@.len() by {
        }
    }
    proof {
        crate::mus::lema_binom_monotono(suma(resto@), suma(f@), mano2@.len());
    }
    let n2 = sumar(&resto);
    let t2 = binomial(n2, mano2.len() as u64);
    let (w2, _) = match combinaciones_mano(&resto, &indices2, t2) {
        Some(x) => x,
        None => return (0, 1),
    };
    proof {
        lema_producto(w1, w2);
        lema_producto(t1, t2);
    }
    ((w1 as u128) * (w2 as u128), (t1 as u128) * (t2 as u128))
}

/// Las cartas de la distribución tienen valores distintos.
pub open spec fn valores_distintos(cartas: Seq<(Carta, u8)>) -> bool {
    forall|a: int, b: int|
        0 <= a < b < cartas.len() ==> #[trigger] cartas[a].0.valor_spec() != #[trigger] cartas[
            b
        ].0.valor_spec()
}

/// El peso de cada combinación de la lista es el número de maneras de sacarla.
proof fn lema_peso_lista(max: Seq<usize>, pre: Seq<int>, v: int, k: nat)
    ensures
        forall|i: int|
            0 <= i < lista_desde(max, pre, v, k).len() ==> (#[trigger] lista_desde(
                max,
                pre,
                v,
                k,
            )[i]).1 == peso(max, lista_desde(max, pre, v, k)[i].0),
    decreases k, max.len() - v,
{
    if k > 0 && 0 <= v < max.len() {
        lema_peso_lista(max, pre.push(v), v, (k - 1) as nat);
        lema_peso_lista(max, pre, v + 1, k);
        let a = lista_desde(max, pre.push(v), v, (k - 1) as nat);
        let b = lista_desde(max, pre, v + 1, k);
        assert forall|i: int| 0 <= i < (a + b).len() implies (#[trigger] (a + b)[i]).1 == peso(
            max,
            (a + b)[i].0,
        ) by {
            if i < a.len() {
                assert((a + b)[i] == a[i]);
            } else {
                assert((a + b)[i] == b[i - a.len()]);
            }
        }
    }
}

/// Con valores distintos, la posición de la carta de una posición es esa misma.
proof fn lema_posicion_de_carta(cartas: Seq<(Carta, u8)>, i: int)
    requires
        valores_distintos(cartas),
        0 <= i < cartas.len(),
    ensures
        posicion_carta(cartas, cartas[i].0) == Some(i),
    decreases cartas.len(),
{
    if i < cartas.len() - 1 {
        lema_posicion_de_carta(cartas.drop_last(), i);
        assert(cartas.drop_last()[i] == cartas[i]);
    } else {
        lema_sin_posicion(cartas.drop_last(), cartas[i].0);
    }
}

/// Si ninguna carta tiene el valor de `c`, no hay posición.
proof fn lema_sin_posicion(cartas: Seq<(Carta, u8)>, c: Carta)
    requires
        forall|j: int| 0 <= j < cartas.len() ==> #[trigger] cartas[j].0.valor_spec() != c.valor_spec(),
    ensures
        posicion_carta(cartas, c) is None,
    decreases cartas.len(),
{
    if cartas.len() > 0 {
        lema_sin_posicion(cartas.drop_last(), c);
    }
}

/// Con valores distintos, las posiciones de las cartas de una combinación son la combinación.
proof fn lema_indices_de_combinacion(cartas: Seq<(Carta, u8)>, c: Seq<int>)
    requires
        valores_distintos(cartas),
        en_rango(c, cartas.len() as int),
    ensures
        indices_mano(cartas, cartas_de_indices(cartas, c)) == Some(c),
    decreases c.len(),
{
    let m = cartas_de_indices(cartas, c);
    if c.len() == 0 {
        assert(m =~= Seq::<Carta>::empty());
    } else {
        assert(m.drop_last() =~= cartas_de_indices(cartas, c.drop_last()));
        lema_indices_de_combinacion(cartas, c.drop_last());
        assert(0 <= c[c.len() - 1] < cartas.len());
        lema_posicion_de_carta(cartas, c.last());
        assert(c.drop_last().push(c.last()) =~= c);
    }
}

/// La probabilidad de cada mano que recorre el iterador de manos es la que da su forma cerrada,
/// si las cartas de la distribución tienen valores distintos.
pub proof fn lema_probabilidad_mano_iterador(cartas: Seq<(Carta, u8)>, n: nat, i: int)
    requires
        valores_distintos(cartas),
        0 <= i < combinaciones_factibles(frecuencias(cartas), n).len(),
    ensures
        ({
            let f = frecuencias(cartas);
            let c = combinaciones_factibles(f, n)[i];
            probabilidad_mano_spec(cartas, cartas_de_indices(cartas, c.0)) == (c.1, binom(suma(f), n))
        }),
{
    let f = frecuencias(cartas);
    let c = combinaciones_factibles(f, n)[i];
    lema_lista_factible(f, Seq::empty(), 0, n);
    lema_longitud_lista(f, Seq::empty(), 0, n);
    lema_peso_lista(f, Seq::empty(), 0, n);
    assert(en_rango(c.0, f.len() as int));
    lema_indices_de_combinacion(cartas, c.0);
}

/// La probabilidad de cada par de manos que recorre el iterador de pares es la que da su forma
/// cerrada, si las cartas de la distribución tienen valores distintos.
pub proof fn lema_probabilidad_dos_manos_iterador(cartas: Seq<(Carta, u8)>, n: nat, m: int, i: int)
    requires
        valores_distintos(cartas),
        0 <= m <= combinaciones_factibles(frecuencias(cartas), n).len(),
        0 <= i < pares_de_manos(
            cartas,
            n,
            frecuencias(cartas),
            combinaciones_factibles(frecuencias(cartas), n).take(m),
            binom(suma(frecuencias(cartas)), n),
        ).len(),
    ensures
        ({
            let f = frecuencias(cartas);
            let p = pares_de_manos(
                cartas,
                n,
                f,
                combinaciones_factibles(f, n).take(m),
                binom(suma(f), n),
            )[i];
            probabilidad_dos_manos_spec(cartas, p.mano1, p.mano2) == (p.casos, p.total)
        }),
    decreases m,
{
    let f = frecuencias(cartas);
    let l = combinaciones_factibles(f, n);
    let t = binom(suma(f), n);
    let todos = pares_de_manos(cartas, n, f, l.take(m), t);
    assert(m > 0);
    assert(l.take(m).drop_last() =~= l.take(m - 1));
    let previos = pares_de_manos(cartas, n, f, l.take(m - 1), t);
    let c1 = l[m - 1];
    assert(l.take(m).last() == c1);
    let seg = segundas_manos(cartas, n, f, c1, t);
    assert(todos == previos + seg);
    if i < previos.len() {
        lema_probabilidad_dos_manos_iterador(cartas, n, m - 1, i);
        assert(todos[i] == previos[i]);
    } else {
        let k = i - previos.len();
        assert(todos[i] == seg[k]);
        let resto = como_usize(restantes(f, c1.0));
        let l2 = combinaciones_factibles(resto, n);
        let c2 = l2[k];
        lema_lista_factible(f, Seq::empty(), 0, n);
        lema_longitud_lista(f, Seq::empty(), 0, n);
        lema_peso_lista(f, Seq::empty(), 0, n);
        lema_lista_factible(resto, Seq::empty(), 0, n);
        lema_longitud_lista(resto, Seq::empty(), 0, n);
        lema_peso_lista(resto, Seq::empty(), 0, n);
        assert(en_rango(c1.0, f.len() as int));
        assert(en_rango(c2.0, resto.len() as int));
        lema_indices_de_combinacion(cartas, c1.0);
        lema_indices_de_combinacion(cartas, c2.0);
        assert(resto =~= Seq::new(f.len(), |j: int| (f[j] - veces_en(c1.0, j)) as usize));
    }
}

} // verus!
