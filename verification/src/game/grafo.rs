use vstd::prelude::*;

verus! {

/// Veces que aparece el nodo `c` en la lista de hijos `s`.
pub open spec fn veces_hijo(s: Seq<usize>, c: usize) -> nat
    decreases s.len(),
{
    if s.len() == 0 {
        0
    } else {
        veces_hijo(s.drop_last(), c) + if s.last() == c {
            1nat
        } else {
            0nat
        }
    }
}

/// Aristas hacia `c` desde los nodos menores que `m` que no están en `hechos`.
pub open spec fn aristas_pendientes(h: Seq<Seq<usize>>, hechos: Seq<usize>, c: usize, m: int) -> nat
    decreases m,
{
    if m <= 0 {
        0
    } else {
        aristas_pendientes(h, hechos, c, m - 1) + if hechos.contains((m - 1) as usize) {
            0nat
        } else {
            veces_hijo(h[m - 1], c)
        }
    }
}

/// Número de aristas que salen de los nodos menores que `m`.
pub open spec fn total_aristas(h: Seq<Seq<usize>>, m: int) -> nat
    decreases m,
{
    if m <= 0 {
        0
    } else {
        total_aristas(h, m - 1) + h[m - 1].len()
    }
}

/// `p` es padre de `c`: `c` está entre los hijos de `p`.
pub open spec fn es_padre(h: Seq<Seq<usize>>, p: int, c: usize) -> bool {
    0 <= p < h.len() && h[p].contains(c)
}

/// Grafo con `h.len()` nodos cuyos hijos son nodos del grafo y en el que nadie apunta al nodo 0.
pub open spec fn grafo_con_raiz(h: Seq<Seq<usize>>) -> bool {
    &&& h.len() >= 1
    &&& forall|p: int, j: int| 0 <= p < h.len() && 0 <= j < h[p].len() ==> #[trigger] h[p][j] < h.len()
    &&& forall|p: int| 0 <= p < h.len() ==> !(#[trigger] h[p]).contains(0usize)
}

proof fn lema_veces_toma(s: Seq<usize>, c: usize, j: int)
    requires
        0 <= j < s.len(),
    ensures
        veces_hijo(s.take(j + 1), c) == veces_hijo(s.take(j), c) + if s[j] == c {
            1nat
        } else {
            0nat
        },
{
    assert(s.take(j + 1).drop_last() =~= s.take(j));
}

/// Hay `c` en la lista si y solo si aparece alguna vez.
proof fn lema_veces_contiene(s: Seq<usize>, c: usize)
    ensures
        (veces_hijo(s, c) > 0) == s.contains(c),
        veces_hijo(s, c) <= s.len(),
    decreases s.len(),
{
    if s.len() > 0 {
        lema_veces_contiene(s.drop_last(), c);
        if s.drop_last().contains(c) {
            let k = choose|k: int| 0 <= k < s.drop_last().len() && s.drop_last()[k] == c;
            assert(s[k] == c);
        }
        if s.contains(c) && s.last() != c {
            let k = choose|k: int| 0 <= k < s.len() && s[k] == c;
            assert(s.drop_last()[k] == c);
        }
    }
}

/// Veces que aparece `c` en lo que queda de la lista desde `j`.
proof fn lema_veces_resto(s: Seq<usize>, c: usize, j: int)
    requires
        0 <= j < s.len(),
    ensures
        veces_hijo(s.skip(j), c) == veces_hijo(s.skip(j + 1), c) + if s[j] == c {
            1nat
        } else {
            0nat
        },
    decreases s.len(),
{
    if j == s.len() - 1 {
        assert(s.skip(j).drop_last() =~= s.skip(j + 1));
    } else {
        lema_veces_resto(s.drop_last(), c, j);
        assert(s.skip(j).drop_last() =~= s.drop_last().skip(j));
        assert(s.skip(j + 1).drop_last() =~= s.drop_last().skip(j + 1));
    }
}

/// Marcar `p` como hecho quita de las pendientes sus aristas.
proof fn lema_pendientes_marcar(h: Seq<Seq<usize>>, hechos: Seq<usize>, p: usize, c: usize, m: int)
    requires
        !hechos.contains(p),
        0 <= m <= usize::MAX + 1,
    ensures
        aristas_pendientes(h, hechos, c, m) == aristas_pendientes(h, hechos.push(p), c, m) + if p
            < m {
            veces_hijo(h[p as int], c)
        } else {
            0nat
        },
    decreases m,
{
    if m > 0 {
        lema_pendientes_marcar(h, hechos, p, c, m - 1);
        assert(hechos.push(p).contains((m - 1) as usize) == (hechos.contains((m - 1) as usize) || p
            == m - 1)) by {
            if hechos.push(p).contains((m - 1) as usize) && p != m - 1 {
                let k = choose|k: int|
                    0 <= k < hechos.push(p).len() && hechos.push(p)[k] == (m - 1) as usize;
                assert(hechos[k] == (m - 1) as usize);
            }
            if hechos.contains((m - 1) as usize) {
                let k = choose|k: int| 0 <= k < hechos.len() && hechos[k] == (m - 1) as usize;
                assert(hechos.push(p)[k] == (m - 1) as usize);
            }
            if p == m - 1 {
                assert(hechos.push(p)[hechos.len() as int] == p);
            }
        }
    }
}

/// Sin aristas pendientes hacia `c`, todos sus padres menores que `m` están hechos; y si algún
/// padre no lo está, quedan aristas pendientes.
proof fn lema_pendientes_padres(h: Seq<Seq<usize>>, hechos: Seq<usize>, c: usize, m: int)
    requires
        0 <= m <= h.len(),
    ensures
        (aristas_pendientes(h, hechos, c, m) == 0) == (forall|p: int|
            0 <= p < m && es_padre(h, p, c) ==> hechos.contains(p as usize)),
    decreases m,
{
    if m > 0 {
        lema_pendientes_padres(h, hechos, c, m - 1);
        lema_veces_contiene(h[m - 1], c);
        if aristas_pendientes(h, hechos, c, m) == 0 {
            assert forall|p: int| 0 <= p < m && es_padre(h, p, c) implies hechos.contains(
                p as usize,
            ) by {
                if p == m - 1 {
                } else {
                }
            }
        } else {
            if aristas_pendientes(h, hechos, c, m - 1) == 0 {
                assert(es_padre(h, m - 1, c) && !hechos.contains((m - 1) as usize));
            } else {
                let q = choose|p: int|
                    !(0 <= p < m - 1 && es_padre(h, p, c) ==> hechos.contains(p as usize));
                assert(0 <= q < m && es_padre(h, q, c) && !hechos.contains(q as usize));
            }
        }
    }
}

/// Las aristas pendientes no pasan del total de aristas.
proof fn lema_pendientes_acotadas(h: Seq<Seq<usize>>, hechos: Seq<usize>, c: usize, m: int)
    requires
        0 <= m <= h.len(),
    ensures
        aristas_pendientes(h, hechos, c, m) <= total_aristas(h, m),
    decreases m,
{
    if m > 0 {
        lema_pendientes_acotadas(h, hechos, c, m - 1);
        lema_veces_contiene(h[m - 1], c);
    }
}

/// Orden de los nodos del grafo, empezando por el 0, en el que cada nodo va después de todos sus
/// padres. Recorre el grafo quitando aristas: un nodo entra en el orden cuando ya han entrado
/// todos sus padres, y entran todos los que tienen padres y los tienen todos en el orden. En un
/// grafo sin ciclos en el que todo nodo distinto del 0 tiene padre, entran todos.
pub fn topological_order(children: &Vec<Vec<usize>>) -> (order: Vec<usize>)
    requires
        grafo_con_raiz(children@.map_values(|v: Vec<usize>| v@)),
        total_aristas(children@.map_values(|v: Vec<usize>| v@), children@.len() as int)
            <= usize::MAX,
    ensures
        ({
            let h = children@.map_values(|v: Vec<usize>| v@);
            &&& order@.len() >= 1
            &&& order@[0] == 0
            &&& forall|k: int| 0 <= k < order@.len() ==> #[trigger] order@[k] < h.len()
            &&& forall|i: int, j: int|
                0 <= i < j < order@.len() ==> #[trigger] order@[i] != #[trigger] order@[j]
            &&& forall|k: int, p: int|
                0 <= k < order@.len() && #[trigger] es_padre(h, p, order@[k]) ==> exists|m: int|
                    0 <= m < k && order@[m] == p
            &&& forall|c: int, p: int|
                0 <= c < h.len() && #[trigger] es_padre(h, p, c as usize) && !order@.contains(
                    c as usize,
                ) ==> exists|q: int| #[trigger]
                    es_padre(h, q, c as usize) && !order@.contains(q as usize)
        }),
{
    let ghost h = children@.map_values(|v: Vec<usize>| v@);
    let n = children.len();
    let mut num_parents: Vec<usize> = Vec::new();
    for c in 0..n
        invariant
            num_parents@.len() == c,
            forall|x: int| 0 <= x < c ==> num_parents@[x] == 0,
    {
        num_parents.push(0);
    }
    for q in 0..n
        invariant
            n == children@.len(),
            h == children@.map_values(|v: Vec<usize>| v@),
            grafo_con_raiz(h),
            total_aristas(h, n as int) <= usize::MAX,
            num_parents@.len() == n,
            forall|x: int|
                0 <= x < n ==> #[trigger] num_parents@[x] == aristas_pendientes(
                    h,
                    Seq::empty(),
                    x as usize,
                    q as int,
                ),
    {
        let hijos = &children[q];
        let ghost s = h[q as int];
        proof {
            assert(hijos@ == s);
        }
        for j in 0..hijos.len()
            invariant
                n == children@.len(),
                h == children@.map_values(|v: Vec<usize>| v@),
                grafo_con_raiz(h),
                total_aristas(h, n as int) <= usize::MAX,
                q < n,
                hijos@ == s,
                s == h[q as int],
                num_parents@.len() == n,
                forall|x: int|
                    0 <= x < n ==> #[trigger] num_parents@[x] == aristas_pendientes(
                        h,
                        Seq::empty(),
                        x as usize,
                        q as int,
                    ) + veces_hijo(s.take(j as int), x as usize),
        {
            let c = hijos[j];
            proof {
                assert(c < n);
                lema_veces_toma(s, c, j as int);
                lema_veces_contiene(s.take(j as int), c);
                lema_pendientes_acotadas(h, Seq::empty(), c, q as int);
                lema_total_monotono(h, q as int + 1, n as int);
                assert forall|x: int| 0 <= x < n implies #[trigger] veces_hijo(s.take(j + 1), x as usize)
                    == veces_hijo(s.take(j as int), x as usize) + if s[j as int] == x as usize {
                    1nat
                } else {
                    0nat
                } by {
                    lema_veces_toma(s, x as usize, j as int);
                }
            }
            num_parents.set(c, num_parents[c] + 1);
        }
        proof {
            assert(s.take(s.len() as int) =~= s);
            assert forall|x: int| 0 <= x < n implies #[trigger] num_parents@[x] == aristas_pendientes(
                h,
                Seq::empty(),
                x as usize,
                q + 1,
            ) by {
                assert(!Seq::<usize>::empty().contains(q));
            }
        }
    }
    let mut order: Vec<usize> = Vec::new();
    order.push(0);
    let mut i: usize = 0;
    proof {
        assert(num_parents@[0] == 0) by {
            lema_pendientes_vacias_cero(h, n as int);
        }
        assert(order@.take(0) =~= Seq::<usize>::empty());
        assert forall|c: int|
            0 <= c < n && !order@.contains(c as usize) && (exists|p: int|
                #[trigger] es_padre(h, p, c as usize)) implies #[trigger] num_parents@[c] > 0 by {
            lema_pendientes_padres(h, Seq::empty(), c as usize, n as int);
            let p = choose|p: int| #[trigger] es_padre(h, p, c as usize);
            assert(!Seq::<usize>::empty().contains(p as usize));
        }
    }
    while i < order.len()
        invariant
            n == children@.len(),
            h == children@.map_values(|v: Vec<usize>| v@),
            grafo_con_raiz(h),
            num_parents@.len() == n,
            1 <= order@.len() <= n,
            order@[0] == 0,
            i <= order@.len(),
            forall|k: int| 0 <= k < order@.len() ==> #[trigger] order@[k] < n,
            forall|a: int, b: int|
                0 <= a < b < order@.len() ==> #[trigger] order@[a] != #[trigger] order@[b],
            forall|x: int|
                0 <= x < n ==> #[trigger] num_parents@[x] == aristas_pendientes(
                    h,
                    order@.take(i as int),
                    x as usize,
                    n as int,
                ),
            forall|k: int| 0 <= k < order@.len() ==> num_parents@[#[trigger] order@[k] as int] == 0,
            forall|k: int, p: int|
                0 <= k < order@.len() && #[trigger] es_padre(h, p, order@[k]) ==> exists|m: int|
                    0 <= m < k && m < i && order@[m] == p,
            forall|c: int|
                0 <= c < n && !order@.contains(c as usize) && (exists|p: int|
                    #[trigger] es_padre(h, p, c as usize)) ==> #[trigger] num_parents@[c] > 0,
        decreases n - i,
    {
        let p = order[i];
        let ghost hechos = order@.take(i as int);
        proof {
            assert(!hechos.contains(p)) by {
                if hechos.contains(p) {
                    let k = choose|k: int| 0 <= k < hechos.len() && hechos[k] == p;
                    assert(order@[k] == order@[i as int]);
                }
            }
            assert(order@.take(i + 1) =~= hechos.push(p));
        }
        i = i + 1;
        let hijos = &children[p];
        let ghost s = h[p as int];
        proof {
            assert(hijos@ == s);
            assert forall|x: int| 0 <= x < n implies #[trigger] num_parents@[x] == aristas_pendientes(
                h,
                order@.take(i as int),
                x as usize,
                n as int,
            ) + veces_hijo(s.skip(0), x as usize) by {
                lema_pendientes_marcar(h, hechos, p, x as usize, n as int);
                assert(s.skip(0) =~= s);
            }
        }
        for j in 0..hijos.len()
            invariant
                n == children@.len(),
                h == children@.map_values(|v: Vec<usize>| v@),
                grafo_con_raiz(h),
                hijos@ == s,
                s == h[p as int],
                p < n,
                num_parents@.len() == n,
                1 <= order@.len() <= n,
                order@[0] == 0,
                1 <= i <= order@.len(),
                order@[i - 1] == p,
                forall|k: int| 0 <= k < order@.len() ==> #[trigger] order@[k] < n,
                forall|a: int, b: int|
                    0 <= a < b < order@.len() ==> #[trigger] order@[a] != #[trigger] order@[b],
                forall|x: int|
                    0 <= x < n ==> #[trigger] num_parents@[x] == aristas_pendientes(
                        h,
                        order@.take(i as int),
                        x as usize,
                        n as int,
                    ) + veces_hijo(s.skip(j as int), x as usize),
                forall|k: int| 0 <= k < order@.len() ==> num_parents@[#[trigger] order@[k] as int]
                    == 0,
                forall|k: int, q: int|
                    0 <= k < order@.len() && #[trigger] es_padre(h, q, order@[k]) ==> exists|m: int|
                        0 <= m < k && m < i && order@[m] == q,
                forall|c: int|
                    0 <= c < n && !order@.contains(c as usize) && (exists|q: int|
                        #[trigger] es_padre(h, q, c as usize)) ==> #[trigger] num_parents@[c] > 0,
        {
            let c = hijos[j];
            proof {
                assert(c < n);
                lema_veces_resto(s, c, j as int);
            }
            let ghost antes = num_parents@;
            num_parents.set(c, num_parents[c] - 1);
            proof {
                assert forall|x: int| 0 <= x < n implies #[trigger] num_parents@[x]
                    == aristas_pendientes(h, order@.take(i as int), x as usize, n as int)
                    + veces_hijo(s.skip(j + 1), x as usize) by {
                    lema_veces_resto(s, x as usize, j as int);
                }
                assert forall|k: int| 0 <= k < order@.len() implies order@[k] != c by {
                    assert(antes[order@[k] as int] == 0);
                }
            }
            if num_parents[c] == 0 {
                let ghost viejo = order@;
                proof {
                    lema_pendientes_padres(h, order@.take(i as int), c, n as int);
                    assert(!order@.contains(c)) by {
                        if order@.contains(c) {
                            let k = choose|k: int| 0 <= k < order@.len() && order@[k] == c;
                            assert(order@[k] != c);
                        }
                    }
                    lema_distintos_acotados(order@, n as int);
                    if order@.len() == n {
                        lema_distintos_acotados(order@.push(c), n as int);
                    }
                }
                order.push(c);
                proof {
                    assert(order@.take(i as int) =~= viejo.take(i as int));
                    assert forall|k: int, q: int|
                        0 <= k < order@.len() && #[trigger] es_padre(h, q, order@[k]) implies exists|
                        m: int,
                    | 0 <= m < k && m < i && order@[m] == q by {
                        if k == viejo.len() {
                            assert(viejo.take(i as int).contains(q as usize));
                            let m = choose|m: int|
                                0 <= m < viejo.take(i as int).len() && viejo.take(i as int)[m]
                                    == q as usize;
                            assert(order@[m] == q);
                        } else {
                            assert(order@[k] == viejo[k]);
                            assert(es_padre(h, q, viejo[k]));
                            let m = choose|m: int| 0 <= m < k && m < i && viejo[m] == q;
                            assert(order@[m] == q);
                        }
                    }
                    assert forall|x: int|
                        0 <= x < n && !order@.contains(x as usize) && (exists|q: int|
                            #[trigger] es_padre(h, q, x as usize)) implies #[trigger] num_parents@[x]
                        > 0 by {
                        assert(x != c) by {
                            assert(order@[viejo.len() as int] == c);
                        }
                        if viejo.contains(x as usize) {
                            let k = choose|k: int| 0 <= k < viejo.len() && viejo[k] == x as usize;
                            assert(order@[k] == x as usize);
                        }
                    }
                }
            }
        }
        proof {
            assert(s.skip(s.len() as int) =~= Seq::<usize>::empty());
        }
    }
    proof {
        assert(order@.take(i as int) =~= order@);
        assert forall|c: int, p: int|
            0 <= c < h.len() && #[trigger] es_padre(h, p, c as usize) && !order@.contains(
                c as usize,
            ) implies exists|q: int| #[trigger]
            es_padre(h, q, c as usize) && !order@.contains(q as usize) by {
            assert(num_parents@[c] > 0);
            lema_pendientes_padres(h, order@, c as usize, n as int);
            let q = choose|q: int|
                !(0 <= q < n && #[trigger] es_padre(h, q, c as usize) ==> order@.contains(q as usize));
            assert(es_padre(h, q, c as usize) && !order@.contains(q as usize));
        }
    }
    order
}

/// Sin nodos hechos, las aristas pendientes hacia el 0 son las que llegan a él, que no hay.
proof fn lema_pendientes_vacias_cero(h: Seq<Seq<usize>>, m: int)
    requires
        grafo_con_raiz(h),
        0 <= m <= h.len(),
    ensures
        aristas_pendientes(h, Seq::empty(), 0usize, m) == 0,
    decreases m,
{
    if m > 0 {
        lema_pendientes_vacias_cero(h, m - 1);
        lema_veces_contiene(h[m - 1], 0usize);
    }
}

/// Una lista de nodos distintos, todos menores que `n`, tiene como mucho `n` nodos.
proof fn lema_distintos_acotados(s: Seq<usize>, n: int)
    requires
        n >= 0,
        forall|k: int| 0 <= k < s.len() ==> #[trigger] s[k] < n,
        forall|a: int, b: int| 0 <= a < b < s.len() ==> #[trigger] s[a] != #[trigger] s[b],
    ensures
        s.len() <= n,
{
    let t = s.map_values(|x: usize| x as int);
    assert(t.no_duplicates()) by {
        assert forall|a: int, b: int| 0 <= a < t.len() && 0 <= b < t.len() && a != b implies t[a]
            != t[b] by {
            if a < b {
                assert(s[a] != s[b]);
            } else {
                assert(s[b] != s[a]);
            }
        }
    }
    t.unique_seq_to_set();
    vstd::set_lib::lemma_int_range(0, n);
    assert(t.to_set().subset_of(vstd::set_lib::set_int_range(0, n))) by {
        assert forall|x: int| t.to_set().contains(x) implies vstd::set_lib::set_int_range(
            0,
            n,
        ).contains(x) by {
            let k = choose|k: int| 0 <= k < t.len() && t[k] == x;
            assert(s[k] < n);
        }
    }
    vstd::set_lib::lemma_len_subset(t.to_set(), vstd::set_lib::set_int_range(0, n));
}

/// El total de aristas crece con los nodos.
proof fn lema_total_monotono(h: Seq<Seq<usize>>, a: int, b: int)
    requires
        0 <= a <= b,
    ensures
        total_aristas(h, a) <= total_aristas(h, b),
    decreases b - a,
{
    if a < b {
        lema_total_monotono(h, a, b - 1);
    }
}

} // verus!
