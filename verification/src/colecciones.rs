//! Declaraciones de los tipos y funciones externos que usa la biblioteca, con los contratos que
//! se asumen de ellos.
use std::collections::VecDeque;
use std::sync::Arc;

use arrayvec::ArrayVec;
use itertools::Itertools;
use rand::seq::SliceRandom;
use vstd::prelude::*;

use crate::mus::{Accion, Carta, Lance, Mano, ResultadoLance};

verus! {

#[verifier::external_type_specification]
#[verifier::external_body]
#[verifier::reject_recursive_types(T)]
pub struct ExArrayVec<T, const CAP: usize>(ArrayVec<T, CAP>);

/// Cartas que contiene un `ArrayVec` de cartas, en orden.
pub uninterp spec fn cartas_de(v: ArrayVec<Carta, 4>) -> Seq<Carta>;

/// `ArrayVec::new`: devuelve un vector vacío.
#[verifier::external_body]
pub(crate) fn cartas_vacias() -> (r: ArrayVec<Carta, 4>)
    ensures
        cartas_de(r) == Seq::<Carta>::empty(),
{
    ArrayVec::new()
}

/// `ArrayVec::push`: añade la carta al final. Entra en pánico si el vector está lleno, por lo que
/// se exige que tenga sitio.
#[verifier::external_body]
pub(crate) fn cartas_push(v: &mut ArrayVec<Carta, 4>, c: Carta)
    requires
        cartas_de(*old(v)).len() < 4,
    ensures
        cartas_de(*final(v)) == cartas_de(*old(v)).push(c),
{
    v.push(c);
}

/// `ArrayVec::as_slice`: las cartas del vector, que nunca son más que su capacidad.
#[verifier::external_body]
pub(crate) fn cartas_slice(v: &ArrayVec<Carta, 4>) -> (s: &[Carta])
    ensures
        s@ == cartas_de(*v),
        s@.len() <= 4,
{
    v.as_slice()
}

/// Lances de una fase de envites, con el resultado de los ya resueltos, en orden.
pub uninterp spec fn lances_de(v: ArrayVec<(Lance, Option<ResultadoLance>), 4>) -> Seq<
    (Lance, Option<ResultadoLance>),
>;

/// `ArrayVec::new`: devuelve un vector de lances vacío.
#[verifier::external_body]
pub(crate) fn lances_vacios() -> (r: ArrayVec<(Lance, Option<ResultadoLance>), 4>)
    ensures
        lances_de(r) == Seq::<(Lance, Option<ResultadoLance>)>::empty(),
{
    ArrayVec::new()
}

/// `ArrayVec::push`: añade el lance al final. Entra en pánico si el vector está lleno, por lo
/// que se exige que tenga sitio.
#[verifier::external_body]
pub(crate) fn lances_push(
    v: &mut ArrayVec<(Lance, Option<ResultadoLance>), 4>,
    x: (Lance, Option<ResultadoLance>),
)
    requires
        lances_de(*old(v)).len() < 4,
    ensures
        lances_de(*final(v)) == lances_de(*old(v)).push(x),
{
    v.push(x);
}

/// `ArrayVec::len`: número de lances del vector, que no supera su capacidad.
#[verifier::external_body]
pub(crate) fn lances_len(v: &ArrayVec<(Lance, Option<ResultadoLance>), 4>) -> (n: usize)
    ensures
        n == lances_de(*v).len(),
        n <= 4,
{
    v.len()
}

/// Indexación de un `ArrayVec`: copia del lance en la posición `i`, que debe existir.
#[verifier::external_body]
pub(crate) fn lances_get(v: &ArrayVec<(Lance, Option<ResultadoLance>), 4>, i: usize) -> (x: (
    Lance,
    Option<ResultadoLance>,
))
    requires
        i < lances_de(*v).len(),
    ensures
        x == lances_de(*v)[i as int],
{
    v[i]
}

/// Indexación mutable de un `ArrayVec`: anota el resultado del lance en la posición `i`, que
/// debe existir.
#[verifier::external_body]
pub(crate) fn lances_set_resultado(
    v: &mut ArrayVec<(Lance, Option<ResultadoLance>), 4>,
    i: usize,
    r: ResultadoLance,
)
    requires
        i < lances_de(*old(v)).len(),
    ensures
        lances_de(*final(v)) == lances_de(*old(v)).update(
            i as int,
            (lances_de(*old(v))[i as int].0, Some(r)),
        ),
{
    v[i].1 = Some(r);
}

/// `ArrayVec::clone`: copia de los lances.
#[verifier::external_body]
pub(crate) fn lances_clone(v: &ArrayVec<(Lance, Option<ResultadoLance>), 4>) -> (r: ArrayVec<
    (Lance, Option<ResultadoLance>),
    4,
>)
    ensures
        lances_de(r) == lances_de(*v),
{
    v.clone()
}

/// `Vec::from` sobre un array: un vector con los mismos elementos en el mismo orden.
#[verifier::external_body]
pub(crate) fn vec_de_array<T, const N: usize>(a: [T; N]) -> (v: Vec<T>)
    ensures
        v@ == a@,
{
    Vec::from(a)
}

/// `SliceRandom::shuffle` con `rand::thread_rng` sobre las cartas desde la posición `desde`:
/// las permuta al azar, intercambiándolas, y deja como estaban las anteriores. Qué permutación
/// sale depende del generador aleatorio.
#[verifier::external_body]
pub(crate) fn barajar_desde(v: &mut VecDeque<Carta>, desde: usize)
    requires
        desde <= old(v)@.len(),
    ensures
        final(v)@.len() == old(v)@.len(),
        final(v)@.take(desde as int) == old(v)@.take(desde as int),
        final(v)@.skip(desde as int).to_multiset() == old(v)@.skip(desde as int).to_multiset(),
{
    v.make_contiguous()[desde..].shuffle(&mut rand::thread_rng());
}

/// `TryFrom<Vec<Mano>>` para un array: las mismas manos en el mismo orden. El vector tiene
/// exactamente `N` manos, por lo que la conversión no falla.
#[verifier::external_body]
pub(crate) fn manos_en_array<const N: usize>(v: Vec<Mano>) -> (a: [Mano; N])
    requires
        v@.len() == N,
    ensures
        a@ == v@,
{
    v.try_into().unwrap()
}

/// Número combinatorio de `n` sobre `k`: 1 si `k` es 0, 0 si `k` supera a `n`, y la suma de
/// los dos de arriba en el triángulo de Pascal en el resto.
pub open spec fn binom(n: nat, k: nat) -> nat
    decreases n,
{
    if k == 0 {
        1
    } else if n == 0 {
        0
    } else {
        binom((n - 1) as nat, (k - 1) as nat) + binom((n - 1) as nat, k)
    }
}

/// `num_integer::binomial` sobre `u64`: el número combinatorio de `n` sobre `k`. Calcula con el
/// menor de `k` y `n - k` los números `C(n, d)` para `d` creciente, cada uno como
/// `r / g * (a / (d / g))` con `g` el máximo común divisor de `r` y `d`: los valores que pasan
/// por sus variables no superan el resultado, así que no se desborda cuando el resultado cabe en
/// `u64`. La documentación lo garantiza en particular para `n` hasta 67.
#[verifier::external_body]
pub(crate) fn binomial(n: u64, k: u64) -> (r: u64)
    requires
        binom(n as nat, k as nat) <= u64::MAX,
    ensures
        r == binom(n as nat, k as nat),
{
    num_integer::binomial(n, k)
}

/// Acciones que contiene un `ArrayVec` de acciones, en orden.
pub uninterp spec fn acciones_de(v: ArrayVec<Accion, 15>) -> Seq<Accion>;

/// `ArrayVec::new`: devuelve un vector de acciones vacío.
#[verifier::external_body]
pub(crate) fn acciones_vacias() -> (r: ArrayVec<Accion, 15>)
    ensures
        acciones_de(r) == Seq::<Accion>::empty(),
{
    ArrayVec::new()
}

/// `ArrayVec::push`: añade la acción al final. Entra en pánico si el vector está lleno, por lo
/// que se exige que tenga sitio.
#[verifier::external_body]
pub(crate) fn acciones_push(v: &mut ArrayVec<Accion, 15>, a: Accion)
    requires
        acciones_de(*old(v)).len() < 15,
    ensures
        acciones_de(*final(v)) == acciones_de(*old(v)).push(a),
{
    v.push(a);
}

/// `ArrayVec::len`: número de acciones del vector, que no supera su capacidad.
#[verifier::external_body]
pub(crate) fn acciones_len(v: &ArrayVec<Accion, 15>) -> (n: usize)
    ensures
        n == acciones_de(*v).len(),
        n <= 15,
{
    v.len()
}

/// Indexación de un `ArrayVec`: la acción en la posición `i`, que debe existir.
#[verifier::external_body]
pub(crate) fn acciones_get(v: &ArrayVec<Accion, 15>, i: usize) -> (a: Accion)
    requires
        i < acciones_de(*v).len(),
    ensures
        a == acciones_de(*v)[i as int],
{
    v[i]
}

/// Índices como enteros.
pub open spec fn indices_enteros(s: Seq<usize>) -> Seq<int> {
    s.map_values(|x: usize| x as int)
}

/// Combinaciones con repetición, en orden lexicográfico, que empiezan por `pre` y siguen con `k`
/// índices desde `v` hasta `n`, sin bajar nunca.
pub open spec fn combinaciones_desde(n: int, pre: Seq<int>, v: int, k: nat) -> Seq<Seq<int>>
    decreases k, n - v,
{
    if k == 0 {
        seq![pre]
    } else if v < 0 || v >= n {
        Seq::empty()
    } else {
        combinaciones_desde(n, pre.push(v), v, (k - 1) as nat) + combinaciones_desde(
            n,
            pre,
            v + 1,
            k,
        )
    }
}

/// `Itertools::combinations_with_replacement` sobre `0..n`: todas las combinaciones con
/// repetición de `k` índices, cada una en orden no decreciente y todas en orden lexicográfico.
#[verifier::external_body]
pub(crate) fn combinaciones_con_repeticion(n: usize, k: usize) -> (v: Vec<Vec<usize>>)
    ensures
        v@.map_values(|c: Vec<usize>| indices_enteros(c@)) == combinaciones_desde(
            n as int,
            Seq::empty(),
            0,
            k as nat,
        ),
{
    (0..n).combinations_with_replacement(k).collect()
}

/// `String::push`: añade un carácter al final de la cadena.
#[verifier::external_body]
pub(crate) fn push_char(s: &mut String, c: char)
    ensures
        final(s)@ == old(s)@.push(c),
{
    s.push(c);
}

/// `Arc::clone`: otra referencia compartida al mismo valor.
#[verifier::external_body]
pub(crate) fn compartir<T>(v: &Arc<T>) -> (r: Arc<T>)
    ensures
        r == *v,
{
    Arc::clone(v)
}

} // verus!
