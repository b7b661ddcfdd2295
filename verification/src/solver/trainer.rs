use vstd::prelude::*;

use crate::game::CfrMethod;

verus! {

/// Configuración del entrenamiento: método e iteraciones.
#[derive(Debug, Clone, Copy)]
pub struct TrainerConfig {
    pub method: CfrMethod,
    pub iterations: usize,
}

/// Entrena estrategias para todos los marcadores a partir de uno dado.
pub struct Trainer {
    tantos: [u8; 2],
}

/// Marcadores que se entrenan, en orden: por diagonales de tantos totales decrecientes,
/// empezando por los más cercanos al final de la partida, y solo los que no quedan por debajo de
/// `objetivo` en ninguna pareja.
pub open spec fn marcadores_hasta(objetivo: [u8; 2], t1: int) -> Seq<[u8; 2]>
    decreases t1 + 1,
{
    if t1 < 0 || t1 > 39 {
        Seq::empty()
    } else {
        marcadores_diagonal(objetivo, t1, 40 - t1) + marcadores_hasta(objetivo, t1 - 1)
    }
}

/// Marcadores `[t1 + t2, 39 - t2]` de la diagonal `t1`, para `t2` menor que `n`, que no quedan
/// por debajo del objetivo.
pub open spec fn marcadores_diagonal(objetivo: [u8; 2], t1: int, n: int) -> Seq<[u8; 2]>
    decreases n,
{
    if n <= 0 {
        Seq::empty()
    } else {
        let previos = marcadores_diagonal(objetivo, t1, n - 1);
        let t2 = n - 1;
        let tantos = [(t1 + t2) as u8, (39 - t2) as u8];
        if t1 + t2 < objetivo[0] || 39 - t2 < objetivo[1] {
            previos
        } else {
            previos.push(tantos)
        }
    }
}

/// Tantos que suman entre las dos parejas.
pub open spec fn total(m: [u8; 2]) -> int {
    m[0] + m[1]
}

/// Los marcadores de una diagonal suman `t1 + 39`, no quedan por debajo del objetivo ni pasan de
/// 39, y están todos los de la diagonal que no quedan por debajo del objetivo.
proof fn lema_diagonal(objetivo: [u8; 2], t1: int, n: int)
    requires
        0 <= t1 <= 39,
        0 <= n <= 40 - t1,
    ensures
        forall|k: int|
            0 <= k < marcadores_diagonal(objetivo, t1, n).len() ==> {
                let m = #[trigger] marcadores_diagonal(objetivo, t1, n)[k];
                &&& total(m) == t1 + 39
                &&& objetivo[0] <= m[0] <= 39
                &&& objetivo[1] <= m[1] <= 39
            },
        forall|a: int, b: int|
            objetivo[0] <= a <= 39 && objetivo[1] <= b <= 39 && a + b == t1 + 39 && 39 - b < n
                ==> #[trigger] contiene(marcadores_diagonal(objetivo, t1, n), a, b),
    decreases n,
{
    if n > 0 {
        lema_diagonal(objetivo, t1, n - 1);
        let previos = marcadores_diagonal(objetivo, t1, n - 1);
        let d = marcadores_diagonal(objetivo, t1, n);
        let t2 = n - 1;
        let m = [(t1 + t2) as u8, (39 - t2) as u8];
        assert(m[0] == t1 + t2 && m[1] == 39 - t2);
        if !(t1 + t2 < objetivo[0] || 39 - t2 < objetivo[1]) {
            assert(d == previos.push(m));
            assert(d[previos.len() as int] == m);
            assert forall|a: int, b: int|
                objetivo[0] <= a <= 39 && objetivo[1] <= b <= 39 && a + b == t1 + 39 && 39 - b < n
                implies #[trigger] contiene(d, a, b) by {
                if 39 - b < n - 1 {
                    assert(contiene(previos, a, b));
                    let k = choose|k: int|
                        0 <= k < previos.len() && #[trigger] previos[k][0] == a && previos[k][1] == b;
                    assert(d[k] == previos[k]);
                } else {
                    assert(d[previos.len() as int][0] == a);
                }
            }
        }
    }
}

/// Propiedades de los marcadores desde la diagonal `t1` hacia abajo: suman entre 39 y
/// `t1 + 39`, van de más a menos tantos, y están todos los que no quedan por debajo del objetivo.
proof fn lema_hasta(objetivo: [u8; 2], t1: int)
    requires
        -1 <= t1 <= 39,
    ensures
        forall|k: int|
            0 <= k < marcadores_hasta(objetivo, t1).len() ==> {
                let m = #[trigger] marcadores_hasta(objetivo, t1)[k];
                &&& 39 <= total(m) <= t1 + 39
                &&& objetivo[0] <= m[0] <= 39
                &&& objetivo[1] <= m[1] <= 39
            },
        forall|i: int, j: int|
            0 <= i < j < marcadores_hasta(objetivo, t1).len() ==> total(
                #[trigger] marcadores_hasta(objetivo, t1)[i],
            ) >= total(#[trigger] marcadores_hasta(objetivo, t1)[j]),
        forall|a: int, b: int|
            objetivo[0] <= a <= 39 && objetivo[1] <= b <= 39 && 39 <= a + b <= t1 + 39
                ==> #[trigger] contiene(marcadores_hasta(objetivo, t1), a, b),
    decreases t1 + 1,
{
    if t1 >= 0 {
        lema_hasta(objetivo, t1 - 1);
        lema_diagonal(objetivo, t1, 40 - t1);
        let d = marcadores_diagonal(objetivo, t1, 40 - t1);
        let r = marcadores_hasta(objetivo, t1 - 1);
        let h = marcadores_hasta(objetivo, t1);
        assert(h == d + r);
        assert forall|k: int| 0 <= k < h.len() implies {
            let m = #[trigger] h[k];
            &&& 39 <= total(m) <= t1 + 39
            &&& objetivo[0] <= m[0] <= 39
            &&& objetivo[1] <= m[1] <= 39
        } by {
            if k < d.len() {
                assert(h[k] == d[k]);
            } else {
                assert(h[k] == r[k - d.len()]);
            }
        }
        assert forall|i: int, j: int| 0 <= i < j < h.len() implies total(#[trigger] h[i]) >= total(
            #[trigger] h[j],
        ) by {
            if j < d.len() {
                assert(h[i] == d[i] && h[j] == d[j]);
            } else if i < d.len() {
                assert(h[i] == d[i] && h[j] == r[j - d.len()]);
            } else {
                assert(h[i] == r[i - d.len()] && h[j] == r[j - d.len()]);
            }
        }
        assert forall|a: int, b: int|
            objetivo[0] <= a <= 39 && objetivo[1] <= b <= 39 && 39 <= a + b <= t1 + 39 implies #[trigger] contiene(
            h,
            a,
            b,
        ) by {
            if a + b == t1 + 39 {
                assert(contiene(d, a, b));
                let k = choose|k: int| 0 <= k < d.len() && #[trigger] d[k][0] == a && d[k][1] == b;
                assert(h[k] == d[k]);
            } else {
                assert(contiene(r, a, b));
                let k = choose|k: int| 0 <= k < r.len() && #[trigger] r[k][0] == a && r[k][1] == b;
                assert(h[k + d.len()] == r[k]);
            }
        }
    }
}

/// Indica si el marcador `[a, b]` está en la lista.
pub open spec fn contiene(m: Seq<[u8; 2]>, a: int, b: int) -> bool {
    exists|k: int| 0 <= k < m.len() && #[trigger] m[k][0] == a && m[k][1] == b
}

/// Los marcadores se entrenan de más tantos a menos, de modo que un marcador al que se llega
/// desde otro ganando tantos se entrena antes que él; y se entrenan todos los marcadores sin
/// ganador que no quedan por debajo del de partida y que suman al menos 39 tantos.
pub proof fn lema_marcadores_ordenados(objetivo: [u8; 2])
    ensures
        forall|i: int, j: int|
            0 <= i < j < marcadores_hasta(objetivo, 39).len() ==> total(
                #[trigger] marcadores_hasta(objetivo, 39)[i],
            ) >= total(#[trigger] marcadores_hasta(objetivo, 39)[j]),
        forall|k: int|
            0 <= k < marcadores_hasta(objetivo, 39).len() ==> {
                let m = #[trigger] marcadores_hasta(objetivo, 39)[k];
                &&& 39 <= total(m)
                &&& objetivo[0] <= m[0] <= 39
                &&& objetivo[1] <= m[1] <= 39
            },
        forall|a: int, b: int|
            objetivo[0] <= a <= 39 && objetivo[1] <= b <= 39 && 39 <= a + b ==> #[trigger] contiene(
                marcadores_hasta(objetivo, 39),
                a,
                b,
            ),
{
    lema_hasta(objetivo, 39);
}

impl Trainer {
    pub fn new() -> (t: Self)
        ensures
            t.tantos_spec() == [0u8, 0u8],
    {
        Trainer { tantos: [0, 0] }
    }

    /// El mismo entrenador, que empieza por el marcador indicado.
    pub fn with_tantos(self, tantos: [u8; 2]) -> (t: Self)
        ensures
            t.tantos_spec() == tantos,
    {
        Trainer { tantos }
    }

    /// Marcador desde el que se entrena.
    pub closed spec fn tantos_spec(self) -> [u8; 2] {
        self.tantos
    }

    /// Marcadores que se entrenan, en el orden en que se entrenan.
    pub fn marcadores(&self) -> (m: Vec<[u8; 2]>)
        ensures
            m@ == marcadores_hasta(self.tantos_spec(), 39),
    {
        let mut m: Vec<[u8; 2]> = Vec::new();
        let mut t1: u8 = 40;
        while t1 > 0
            invariant
                t1 <= 40,
                m@ + marcadores_hasta(self.tantos, t1 as int - 1) == marcadores_hasta(self.tantos, 39),
            decreases t1,
        {
            t1 = t1 - 1;
            let ghost antes = m@;
            for t2 in 0..(40 - t1)
                invariant
                    t1 < 40,
                    m@ == antes + marcadores_diagonal(self.tantos, t1 as int, t2 as int),
            {
                let tantos = [t1 + t2, 39 - t2];
                if !(tantos[0] < self.tantos[0] || tantos[1] < self.tantos[1]) {
                    m.push(tantos);
                }
                proof {
                    assert(m@ =~= antes + marcadores_diagonal(self.tantos, t1 as int, t2 + 1));
                }
            }
            proof {
                assert(marcadores_hasta(self.tantos, t1 as int) == marcadores_diagonal(
                    self.tantos,
                    t1 as int,
                    40 - t1,
                ) + marcadores_hasta(self.tantos, t1 - 1));
                assert(m@ + marcadores_hasta(self.tantos, t1 - 1) =~= antes + marcadores_hasta(
                    self.tantos,
                    t1 as int,
                ));
            }
        }
        m
    }
}

} // verus!
