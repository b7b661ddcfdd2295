use arrayvec::ArrayVec;
use vstd::prelude::*;

use crate::colecciones::{acciones_de, acciones_get, acciones_len, acciones_push, acciones_vacias};
use crate::mus::{Accion, Apuesta, rango_accion};

verus! {

/// Acciones posibles ante la última apuesta, sin el recorte por la apuesta máxima: sin nada
/// apostado se puede pasar o envidar; ante dos tantos, también querer; ante cuatro o cinco solo
/// cabe envidar diez más; ante un órdago, pasar o querer; y en el resto, pasar, querer o echar
/// órdago.
pub open spec fn acciones_completas(ultimo: Apuesta) -> Seq<Accion> {
    match ultimo {
        Apuesta::Tantos(0) => seq![
            Accion::Paso,
            Accion::Envido(2),
            Accion::Envido(5),
            Accion::Envido(10),
            Accion::Ordago,
        ],
        Apuesta::Tantos(2) => seq![
            Accion::Paso,
            Accion::Quiero,
            Accion::Envido(2),
            Accion::Envido(5),
            Accion::Envido(10),
            Accion::Ordago,
        ],
        Apuesta::Tantos(t) => if 4 <= t <= 5 {
            seq![Accion::Paso, Accion::Quiero, Accion::Envido(10), Accion::Ordago]
        } else {
            seq![Accion::Paso, Accion::Quiero, Accion::Ordago]
        },
        Apuesta::Ordago => seq![Accion::Paso, Accion::Quiero],
    }
}

/// Acciones posibles ante la última apuesta cuando la apuesta máxima es `maxima`: si ya se ha
/// llegado a ella no se puede envidar más.
pub open spec fn acciones_envite_spec(ultimo: Apuesta, maxima: u8) -> Seq<Accion> {
    if ultimo == Apuesta::Tantos(maxima) {
        seq![Accion::Paso, Accion::Quiero, Accion::Ordago]
    } else {
        acciones_completas(ultimo)
    }
}

/// Acción con índice canónico en el árbol de apuestas.
pub open spec fn canonica(a: Accion) -> bool {
    match a {
        Accion::NoMus | Accion::Mus | Accion::Paso | Accion::Quiero | Accion::Ordago => true,
        Accion::Envido(n) => n == 2 || n == 5 || n == 10,
        _ => false,
    }
}

/// Índice canónico de cada acción en el árbol de apuestas, fijo e independiente de qué
/// acciones haya disponibles en cada momento. Mus y envites usan árboles distintos, así que sus
/// índices se solapan.
pub open spec fn indice_canonico(a: Accion) -> int {
    match a {
        Accion::NoMus => 0,
        Accion::Mus => 1,
        Accion::Paso => 0,
        Accion::Quiero => 1,
        Accion::Envido(n) => if n == 2 {
            2
        } else if n == 5 {
            3
        } else {
            4
        },
        _ => 5,
    }
}

/// Índice canónico de la acción en el árbol de apuestas.
pub fn canonical_envite_action(action: Accion) -> (i: usize)
    requires
        canonica(action),
    ensures
        i == indice_canonico(action),
        i < 6,
{
    match action {
        Accion::NoMus => 0,
        Accion::Mus => 1,
        Accion::Paso => 0,
        Accion::Quiero => 1,
        Accion::Envido(n) => if n == 2 {
            2
        } else if n == 5 {
            3
        } else {
            4
        },
        _ => 5,
    }
}

fn de_lista(l: &[Accion]) -> (v: ArrayVec<Accion, 15>)
    requires
        l@.len() <= 6,
    ensures
        acciones_de(v) == l@,
{
    let mut v = acciones_vacias();
    for i in 0..l.len()
        invariant
            l@.len() <= 6,
            acciones_de(v) == l@.take(i as int),
    {
        proof {
            assert(l@.take(i + 1) =~= l@.take(i as int).push(l@[i as int]));
        }
        acciones_push(&mut v, l[i]);
    }
    proof {
        assert(l@.take(l@.len() as int) =~= l@);
    }
    v
}

/// Lista completa de acciones posibles ante la última apuesta, sin recortes. Fija el código de
/// cada acción en los conjuntos de información de los lances.
pub fn full_actions(ultimo_envite: Apuesta) -> (v: ArrayVec<Accion, 15>)
    ensures
        acciones_de(v) == acciones_completas(ultimo_envite),
{
    let r = match ultimo_envite {
        Apuesta::Tantos(0) => de_lista(
            &[
                Accion::Paso,
                Accion::Envido(2),
                Accion::Envido(5),
                Accion::Envido(10),
                Accion::Ordago,
            ],
        ),
        Apuesta::Tantos(2) => de_lista(
            &[
                Accion::Paso,
                Accion::Quiero,
                Accion::Envido(2),
                Accion::Envido(5),
                Accion::Envido(10),
                Accion::Ordago,
            ],
        ),
        Apuesta::Tantos(t) => if 4 <= t && t <= 5 {
            de_lista(&[Accion::Paso, Accion::Quiero, Accion::Envido(10), Accion::Ordago])
        } else {
            de_lista(&[Accion::Paso, Accion::Quiero, Accion::Ordago])
        },
        Apuesta::Ordago => de_lista(&[Accion::Paso, Accion::Quiero]),
    };
    proof {
        assert(acciones_de(r) =~= acciones_completas(ultimo_envite));
    }
    r
}

/// Acciones posibles ante la última apuesta con la apuesta máxima dada.
pub fn actions_envite(ultimo_envite: Apuesta, apuesta_maxima: u8) -> (v: ArrayVec<Accion, 15>)
    ensures
        acciones_de(v) == acciones_envite_spec(ultimo_envite, apuesta_maxima),
{
    if ultimo_envite == Apuesta::Tantos(apuesta_maxima) {
        let r = de_lista(&[Accion::Paso, Accion::Quiero, Accion::Ordago]);
        proof {
            assert(acciones_de(r) =~= acciones_envite_spec(ultimo_envite, apuesta_maxima));
        }
        r
    } else {
        full_actions(ultimo_envite)
    }
}

/// Acciones de la lista que no son menores que `minima` en el orden de las acciones.
pub open spec fn no_menores(l: Seq<Accion>, minima: Accion) -> Seq<Accion> {
    l.filter(|a: Accion| rango_accion(a) >= rango_accion(minima))
}

/// Se queda con las acciones que no son menores que `minima`: el compañero que conoce la acción
/// de su pareja solo puede igualarla o subirla.
pub fn retener_no_menores(v: &ArrayVec<Accion, 15>, minima: Accion) -> (r: ArrayVec<Accion, 15>)
    ensures
        acciones_de(r) == no_menores(acciones_de(*v), minima),
{
    let n = acciones_len(v);
    let mut r = acciones_vacias();
    let ghost l = acciones_de(*v);
    for i in 0..n
        invariant
            n == l.len(),
            n <= 15,
            l == acciones_de(*v),
            acciones_de(r) == no_menores(l.take(i as int), minima),
            acciones_de(r).len() <= i,
    {
        let a = acciones_get(v, i);
        proof {
            assert(l.take(i + 1).drop_last() =~= l.take(i as int));
            assert(l.take(i + 1).last() == a);
        }
        if a.rango() >= minima.rango() {
            acciones_push(&mut r, a);
        }
        proof {
            reveal(Seq::filter);
            assert(acciones_de(r) =~= no_menores(l.take(i + 1), minima));
        }
    }
    proof {
        assert(l.take(n as int) =~= l);
    }
    r
}

} // verus!
