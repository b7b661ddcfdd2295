use vstd::prelude::*;

use super::Carta;
use crate::colecciones::{binom, binomial, combinaciones_con_repeticion, combinaciones_desde, indices_enteros};

verus! {

/// Potencia de dos.
pub open spec fn potencia2(n: nat) -> nat
    decreases n,
{
    if n == 0 {
        1
    } else {
        2 * potencia2((n - 1) as nat)
    }
}

/// Índices como enteros.
pub open spec fn enteros(s: Seq<usize>) -> Seq<int> {
    s.map_values(|x: usize| x as int)
}

/// Veces que aparece el índice `j` en la combinación.
pub open spec fn veces_en(c: Seq<int>, j: int) -> nat
    decreases c.len(),
{
    if c.len() == 0 {
        0
    } else {
        veces_en(c.drop_last(), j) + if c.last() == j {
            1nat
        } else {
            0nat
        }
    }
}

/// La combinación no usa ningún elemento más veces de las que hay.
pub open spec fn factible(max: Seq<usize>, c: Seq<int>) -> bool {
    forall|j: int| 0 <= j < max.len() ==> #[trigger] veces_en(c, j) <= max[j]
}

/// Número de maneras de sacar la combinación de los primeros `j` elementos: el producto de los
/// números combinatorios de cuántos hay sobre cuántos se usan.
pub open spec fn peso_hasta(max: Seq<usize>, c: Seq<int>, j: int) -> nat
    decreases j,
{
    if j <= 0 {
        1
    } else {
        peso_hasta(max, c, j - 1) * binom(max[j - 1] as nat, veces_en(c, j - 1))
    }
}

/// Número de maneras de sacar la combinación.
pub open spec fn peso(max: Seq<usize>, c: Seq<int>) -> nat {
    peso_hasta(max, c, max.len() as int)
}

/// Suma de las primeras `j` frecuencias.
pub open spec fn suma_hasta(max: Seq<usize>, j: int) -> nat
    decreases j,
{
    if j <= 0 {
        0
    } else {
        suma_hasta(max, j - 1) + max[j - 1] as nat
    }
}

/// Número total de elementos.
pub open spec fn suma(max: Seq<usize>) -> nat {
    suma_hasta(max, max.len() as int)
}

/// El total de elementos cabe en `usize` y el número de maneras de sacar `k` de ellos, en
/// `u64`: lo que necesitan las cuentas de los iteradores de combinaciones.
pub open spec fn cabe_en_u64(max: Seq<usize>, k: nat) -> bool {
    suma(max) <= usize::MAX && binom(suma(max), k) <= u64::MAX
}

/// Combinaciones con repetición que se pueden sacar, en orden lexicográfico, que empiezan por
/// `pre` y siguen con `k` índices de `v` en adelante, sin bajar nunca; cada una con su peso.
pub open spec fn lista_desde(max: Seq<usize>, pre: Seq<int>, v: int, k: nat) -> Seq<
    (Seq<int>, nat),
>
    decreases k, max.len() - v,
{
    if k == 0 {
        if factible(max, pre) {
            seq![(pre, peso(max, pre))]
        } else {
            Seq::empty()
        }
    } else if v < 0 || v >= max.len() {
        Seq::empty()
    } else {
        lista_desde(max, pre.push(v), v, (k - 1) as nat) + lista_desde(max, pre, v + 1, k)
    }
}

/// Todas las combinaciones con repetición de `k` elementos que se pueden sacar, en orden
/// lexicográfico de índices, con su peso.
pub open spec fn combinaciones_factibles(max: Seq<usize>, k: nat) -> Seq<(Seq<int>, nat)> {
    lista_desde(max, Seq::empty(), 0, k)
}

/// Frecuencias que quedan tras sacar la combinación.
pub open spec fn restantes(max: Seq<usize>, c: Seq<int>) -> Seq<int> {
    Seq::new(max.len(), |j: int| max[j] - veces_en(c, j))
}

/// Todos los índices están entre 0 y `n`.
pub open spec fn en_rango(c: Seq<int>, n: int) -> bool {
    forall|j: int| 0 <= j < c.len() ==> 0 <= #[trigger] c[j] < n
}

/// Todas las combinaciones de la lista se pueden sacar.
pub proof fn lema_lista_factible(max: Seq<usize>, pre: Seq<int>, v: int, k: nat)
    requires
        en_rango(pre, max.len() as int),
    ensures
        forall|i: int|
            0 <= i < lista_desde(max, pre, v, k).len() ==> factible(
                max,
                #[trigger] lista_desde(max, pre, v, k)[i].0,
            ) && en_rango(lista_desde(max, pre, v, k)[i].0, max.len() as int),
    decreases k, max.len() - v,
{
    if k > 0 && 0 <= v < max.len() {
        lema_lista_factible(max, pre.push(v), v, (k - 1) as nat);
        lema_lista_factible(max, pre, v + 1, k);
        let a = lista_desde(max, pre.push(v), v, (k - 1) as nat);
        let b = lista_desde(max, pre, v + 1, k);
        assert forall|i: int| 0 <= i < (a + b).len() implies factible(max, #[trigger] (a + b)[i].0)
            && en_rango((a + b)[i].0, max.len() as int) by {
            if i < a.len() {
                assert((a + b)[i] == a[i]);
            } else {
                assert((a + b)[i] == b[i - a.len()]);
            }
        }
    }
}

proof fn lema_potencia2(a: nat, b: nat)
    ensures
        potencia2(a) >= 1,
        potencia2(a + b) == potencia2(a) * potencia2(b),
        a <= b ==> potencia2(a) <= potencia2(b),
    decreases a,
{
    if a > 0 {
        lema_potencia2((a - 1) as nat, b);
        lema_potencia2((a - 1) as nat, (b - 1) as nat);
        assert(potencia2(a + b) == 2 * potencia2((a - 1 + b) as nat));
        assert(2 * (potencia2((a - 1) as nat) * potencia2(b)) == (2 * potencia2((a - 1) as nat))
            * potencia2(b)) by (nonlinear_arith);
    } else {
        lema_potencia2_positiva(b);
    }
}

proof fn lema_potencia2_positiva(n: nat)
    ensures
        potencia2(n) >= 1,
    decreases n,
{
    if n > 0 {
        lema_potencia2_positiva((n - 1) as nat);
    }
}

proof fn lema_potencia2_63()
    ensures
        potencia2(63) == 0x8000_0000_0000_0000,
{
    reveal_with_fuel(potencia2, 64);
}

/// Con hasta 63 elementos, los números combinatorios caben en `u64`.
pub proof fn lema_binom_cabe(n: nat, k: nat)
    requires
        n <= 63,
    ensures
        binom(n, k) <= u64::MAX,
{
    lema_binom_cota(n, k);
    lema_potencia2(n, 63);
    lema_potencia2_63();
}

/// Con más elementos hay al menos tantas maneras de elegir `x`: forma pública.
pub proof fn lema_binom_monotono(a: nat, b: nat, x: nat)
    requires
        a <= b,
    ensures
        binom(a, x) <= binom(b, x),
{
    lema_binom_crece(a, (b - a) as nat, x);
}

/// Hay al menos una manera de elegir `v` de entre `m` si `v` no pasa de `m`.
proof fn lema_binom_positivo(m: nat, v: nat)
    requires
        v <= m,
    ensures
        binom(m, v) >= 1,
    decreases m,
{
    if v > 0 {
        lema_binom_positivo((m - 1) as nat, (v - 1) as nat);
    }
}

/// En una combinación factible cada factor del peso es al menos 1, así que el peso de los
/// primeros `j` elementos no pasa del de los primeros `k`.
proof fn lema_peso_crece(max: Seq<usize>, c: Seq<int>, j: int, k: int)
    requires
        0 <= j <= k <= max.len(),
        factible(max, c),
    ensures
        1 <= peso_hasta(max, c, j) <= peso_hasta(max, c, k),
    decreases k,
{
    if j < k {
        lema_peso_crece(max, c, j, k - 1);
        let p = peso_hasta(max, c, k - 1);
        let f = binom(max[k - 1] as nat, veces_en(c, k - 1));
        assert(veces_en(c, k - 1) <= max[k - 1]);
        lema_binom_positivo(max[k - 1] as nat, veces_en(c, k - 1));
        assert(p <= p * f) by (nonlinear_arith)
            requires
                f >= 1,
                p >= 0,
        ;
    } else {
        lema_peso_positivo(max, c, j);
    }
}

/// El peso de una combinación factible es al menos 1.
proof fn lema_peso_positivo(max: Seq<usize>, c: Seq<int>, j: int)
    requires
        0 <= j <= max.len(),
        factible(max, c),
    ensures
        peso_hasta(max, c, j) >= 1,
    decreases j,
{
    if j > 0 {
        lema_peso_positivo(max, c, j - 1);
        let p = peso_hasta(max, c, j - 1);
        let f = binom(max[j - 1] as nat, veces_en(c, j - 1));
        assert(veces_en(c, j - 1) <= max[j - 1]);
        lema_binom_positivo(max[j - 1] as nat, veces_en(c, j - 1));
        assert(p * f >= 1) by (nonlinear_arith)
            requires
                f >= 1,
                p >= 1,
        ;
    }
}

/// Con más elementos hay al menos tantas maneras de elegir `x`.
proof fn lema_binom_crece(a: nat, b: nat, x: nat)
    ensures
        binom(a, x) <= binom(a + b, x),
    decreases b,
{
    if b > 0 {
        lema_binom_crece(a, (b - 1) as nat, x);
        if x > 0 {
            assert(binom(a + b, x) == binom((a + b - 1) as nat, (x - 1) as nat) + binom(
                (a + b - 1) as nat,
                x,
            ));
        }
    }
}

/// Elegir `x` de `a` y, por separado, `y` de `b` es una de las maneras de elegir `x + y` de
/// `a + b`.
proof fn lema_vandermonde(a: nat, x: nat, b: nat, y: nat)
    ensures
        binom(a, x) * binom(b, y) <= binom(a + b, x + y),
    decreases b,
{
    if y == 0 {
        lema_binom_crece(a, b, x);
        assert(binom(b, 0) == 1);
        assert(binom(a, x) * 1 == binom(a, x));
    } else if b == 0 {
        assert(binom(b, y) == 0);
        assert(binom(a, x) * 0 == 0);
    } else {
        let b1 = (b - 1) as nat;
        let y1 = (y - 1) as nat;
        lema_vandermonde(a, x, b1, y1);
        lema_vandermonde(a, x, b1, y);
        let p = binom(b1, y1);
        let q = binom(b1, y);
        assert(binom(b, y) == p + q);
        assert(binom(a, x) * (p + q) == binom(a, x) * p + binom(a, x) * q) by (nonlinear_arith);
        let n = a + b;
        let k = x + y;
        assert(n > 0 && k > 0);
        assert(binom(n, k) == binom((n - 1) as nat, (k - 1) as nat) + binom((n - 1) as nat, k));
        assert((n - 1) as nat == a + b1);
        assert((k - 1) as nat == x + y1);
    }
}

/// Elementos de la combinación con índice menor que `j`.
pub open spec fn cuenta_hasta(c: Seq<int>, j: int) -> nat
    decreases j,
{
    if j <= 0 {
        0
    } else {
        cuenta_hasta(c, j - 1) + veces_en(c, j - 1)
    }
}

proof fn lema_cuenta_ultimo(c: Seq<int>, j: int)
    requires
        c.len() > 0,
        j >= 0,
    ensures
        cuenta_hasta(c, j) == cuenta_hasta(c.drop_last(), j) + if 0 <= c.last() < j {
            1nat
        } else {
            0nat
        },
    decreases j,
{
    if j > 0 {
        lema_cuenta_ultimo(c, j - 1);
    }
}

proof fn lema_cuenta_vacia(c: Seq<int>, j: int)
    requires
        c.len() == 0,
    ensures
        cuenta_hasta(c, j) == 0,
    decreases j,
{
    if j > 0 {
        lema_cuenta_vacia(c, j - 1);
    }
}

/// Si todos los índices están por debajo de `n`, los elementos con índice menor que `n` son
/// todos.
proof fn lema_cuenta_total(c: Seq<int>, n: int)
    requires
        en_rango(c, n),
        n >= 0,
    ensures
        cuenta_hasta(c, n) == c.len(),
    decreases c.len(),
{
    if c.len() == 0 {
        lema_cuenta_vacia(c, n);
    } else {
        lema_cuenta_ultimo(c, n);
        assert(en_rango(c.drop_last(), n)) by {
            assert forall|j: int| 0 <= j < c.drop_last().len() implies 0 <= #[trigger] c.drop_last()[j]
                < n by {
                assert(c.drop_last()[j] == c[j]);
            }
        }
        lema_cuenta_total(c.drop_last(), n);
        assert(c.last() == c[c.len() - 1]);
        assert(0 <= c[c.len() - 1] < n);
        assert(c.drop_last().len() == c.len() - 1);
    }
}

/// El número de maneras de sacar una combinación de los primeros `j` elementos no pasa del de
/// elegir tantos como usa de entre todos ellos.
proof fn lema_peso_cota(max: Seq<usize>, c: Seq<int>, j: int)
    requires
        0 <= j <= max.len(),
    ensures
        peso_hasta(max, c, j) <= binom(suma_hasta(max, j), cuenta_hasta(c, j)),
    decreases j,
{
    if j > 0 {
        lema_peso_cota(max, c, j - 1);
        let a = suma_hasta(max, j - 1);
        let x = cuenta_hasta(c, j - 1);
        let b = max[j - 1] as nat;
        let y = veces_en(c, j - 1);
        lema_vandermonde(a, x, b, y);
        assert(peso_hasta(max, c, j - 1) * binom(b, y) <= binom(a, x) * binom(b, y))
            by (nonlinear_arith)
            requires
                peso_hasta(max, c, j - 1) <= binom(a, x),
        ;
    }
}

proof fn lema_binom_cota(n: nat, k: nat)
    ensures
        binom(n, k) <= potencia2(n),
    decreases n,
{
    lema_potencia2_positiva(n);
    if k > 0 && n > 0 {
        lema_binom_cota((n - 1) as nat, (k - 1) as nat);
        lema_binom_cota((n - 1) as nat, k);
    }
}

proof fn lema_suma_cota(max: Seq<usize>, j: int, i: int)
    requires
        0 <= i < j <= max.len(),
    ensures
        max[i] <= suma_hasta(max, j),
        suma_hasta(max, i) <= suma_hasta(max, j),
    decreases j,
{
    if i < j - 1 {
        lema_suma_cota(max, j - 1, i);
    }
}

/// Veces que aparece un índice en la combinación.
pub(crate) fn contar(c: &Vec<usize>, j: usize) -> (n: usize)
    ensures
        n == veces_en(enteros(c@), j as int),
        n <= c@.len(),
{
    let mut n: usize = 0;
    for i in 0..c.len()
        invariant
            n == veces_en(enteros(c@.take(i as int)), j as int),
            n <= i,
    {
        proof {
            assert(enteros(c@.take(i + 1)).drop_last() =~= enteros(c@.take(i as int)));
        }
        if c[i] == j {
            n = n + 1;
        }
    }
    proof {
        assert(c@.take(c@.len() as int) =~= c@);
    }
    n
}

/// Peso de la combinación, o `None` si usa algún elemento más veces de las que hay.
pub(crate) fn peso_si_factible(max: &Vec<usize>, c: &Vec<usize>, cota: u64) -> (r: Option<u64>)
    requires
        en_rango(enteros(c@), max@.len() as int),
        cota == binom(suma(max@), c@.len()),
    ensures
        match r {
            Some(w) => factible(max@, enteros(c@)) && w == peso(max@, enteros(c@)),
            None => !factible(max@, enteros(c@)),
        },
{
    let ghost e = enteros(c@);
    let n = max.len();
    for j in 0..n
        invariant
            n == max@.len(),
            e == enteros(c@),
            forall|u: int| 0 <= u < j ==> #[trigger] veces_en(e, u) <= max@[u],
    {
        let veces = contar(c, j);
        if veces > max[j] {
            return None;
        }
    }
    proof {
        lema_peso_cota(max@, e, n as int);
        lema_cuenta_total(e, n as int);
        assert(peso(max@, e) <= cota);
    }
    let mut acc: u64 = 1;
    for j in 0..n
        invariant
            n == max@.len(),
            e == enteros(c@),
            factible(max@, e),
            peso(max@, e) <= cota,
            acc == peso_hasta(max@, e, j as int),
    {
        let veces = contar(c, j);
        proof {
            lema_peso_crece(max@, e, j as int, n as int);
            lema_peso_crece(max@, e, j + 1, n as int);
            let f = binom(max@[j as int] as nat, veces as nat);
            assert(peso_hasta(max@, e, j + 1) == acc * f);
            assert(f <= acc * f) by (nonlinear_arith)
                requires
                    acc >= 1,
                    f >= 0,
            ;
        }
        let f = binomial(max[j] as u64, veces as u64);
        acc = acc * f;
    }
    Some(acc)
}

/// Añade a `out` las combinaciones factibles que empiezan por `pre` y siguen con `k` índices
/// desde `v`, en orden lexicográfico.
fn generar(
    max: &Vec<usize>,
    pre: &mut Vec<usize>,
    v: usize,
    k: usize,
    out: &mut Vec<(Vec<usize>, u64)>,
    cota: u64,
)
    requires
        v <= max@.len(),
        forall|i: int| 0 <= i < old(pre)@.len() ==> #[trigger] old(pre)@[i] < max@.len(),
        cota == binom(suma(max@), (old(pre)@.len() + k) as nat),
    ensures
        final(pre)@ == old(pre)@,
        vista_lista(final(out)@) == vista_lista(old(out)@) + lista_desde(
            max@,
            enteros(old(pre)@),
            v as int,
            k as nat,
        ),
    decreases k, max@.len() - v,
{
    if k == 0 {
        proof {
            assert(en_rango(enteros(pre@), max@.len() as int));
        }
        if let Some(w) = peso_si_factible(max, pre, cota) {
            let copia = pre.clone();
            proof {
                assert(copia@ =~= pre@);
            }
            out.push((copia, w));
            proof {
                assert(vista_lista(out@) =~= vista_lista(old(out)@) + seq![
                    (enteros(pre@), w as nat),
                ]);
            }
        } else {
            proof {
                assert(vista_lista(out@) =~= vista_lista(old(out)@) + Seq::empty());
            }
        }
        return ;
    }
    if v >= max.len() {
        proof {
            assert(vista_lista(out@) =~= vista_lista(old(out)@) + Seq::empty());
        }
        return ;
    }
    let ghost medio_pre = pre@;
    pre.push(v);
    proof {
        assert(enteros(pre@) =~= enteros(medio_pre).push(v as int));
    }
    generar(max, pre, v, k - 1, out, cota);
    pre.pop();
    proof {
        assert(pre@ =~= medio_pre);
    }
    generar(max, pre, v + 1, k, out, cota);
    proof {
        assert(vista_lista(out@) =~= vista_lista(old(out)@) + lista_desde(
            max@,
            enteros(old(pre)@),
            v as int,
            k as nat,
        ));
    }
}

/// Lista de combinaciones como secuencias de enteros con su peso.
pub open spec fn vista_lista(l: Seq<(Vec<usize>, u64)>) -> Seq<(Seq<int>, nat)> {
    l.map_values(|p: (Vec<usize>, u64)| (enteros(p.0@), p.1 as nat))
}

} // verus!

verus! {

/// Combinaciones con repetición de `K` elementos, en orden lexicográfico de índices, cuando de
/// cada elemento hay un número limitado de copias. Cada combinación se devuelve con su peso, el
/// número de maneras de sacarla, y con el total de maneras de sacar `K` elementos: su cociente es
/// la probabilidad de la combinación.
pub struct CombinationsWithReplacementProb<const K: usize> {
    max_frequencies: Vec<usize>,
    current_frequencies: Vec<usize>,
    total_frequency: u64,
    combinaciones: Vec<(Vec<usize>, u64)>,
    siguiente: usize,
}

/// Modelo del iterador: frecuencias máximas y restantes tras la última combinación, total de
/// maneras, combinaciones que se recorren y posición de la siguiente.
pub struct ModeloCombinaciones {
    pub max: Seq<usize>,
    pub actuales: Seq<int>,
    pub total: nat,
    pub lista: Seq<(Seq<int>, nat)>,
    pub pos: int,
}

impl<const K: usize> View for CombinationsWithReplacementProb<K> {
    type V = ModeloCombinaciones;

    closed spec fn view(&self) -> ModeloCombinaciones {
        ModeloCombinaciones {
            max: self.max_frequencies@,
            actuales: enteros(self.current_frequencies@),
            total: self.total_frequency as nat,
            lista: vista_lista(self.combinaciones@),
            pos: self.siguiente as int,
        }
    }
}

impl ModeloCombinaciones {
    /// Iterador recién creado con estas frecuencias.
    pub open spec fn inicial(max: Seq<usize>, k: nat) -> ModeloCombinaciones {
        ModeloCombinaciones {
            max,
            actuales: enteros(max),
            total: binom(suma(max), k),
            lista: combinaciones_factibles(max, k),
            pos: 0,
        }
    }

    /// Iterador tras devolver la siguiente combinación.
    pub open spec fn avanzado(self) -> ModeloCombinaciones {
        ModeloCombinaciones {
            actuales: restantes(self.max, self.lista[self.pos].0),
            pos: self.pos + 1,
            ..self
        }
    }
}

impl<const K: usize> CombinationsWithReplacementProb<K> {
    #[verifier::type_invariant]
    spec fn inv(self) -> bool {
        &&& self.siguiente <= self.combinaciones@.len()
        &&& self.current_frequencies@.len() == self.max_frequencies@.len()
        &&& forall|i: int|
            0 <= i < self.combinaciones@.len() ==> factible(
                self.max_frequencies@,
                #[trigger] vista_lista(self.combinaciones@)[i].0,
            ) && en_rango(vista_lista(self.combinaciones@)[i].0, self.max_frequencies@.len() as int)
    }

    /// Crea el iterador de combinaciones de `K` elementos. `max_frequencies` tiene el número de
    /// copias de cada elemento; el número de maneras de sacar `K` de todas ellas tiene que caber
    /// en `u64`.
    pub fn new(max_frequencies: Vec<usize>) -> (it: Self)
        requires
            K >= 1,
            cabe_en_u64(max_frequencies@, K as nat),
        ensures
            it@ == ModeloCombinaciones::inicial(max_frequencies@, K as nat),
    {
        let mut total: usize = 0;
        for j in 0..max_frequencies.len()
            invariant
                suma(max_frequencies@) <= usize::MAX,
                total == suma_hasta(max_frequencies@, j as int),
        {
            proof {
                lema_suma_cota(max_frequencies@, max_frequencies@.len() as int, j as int);
                if j + 1 < max_frequencies@.len() {
                    lema_suma_cota(max_frequencies@, max_frequencies@.len() as int, j + 1);
                }
            }
            total = total + max_frequencies[j];
        }
        let total_frequency = binomial(total as u64, K as u64);
        let mut combinaciones: Vec<(Vec<usize>, u64)> = Vec::new();
        let mut pre: Vec<usize> = Vec::new();
        generar(&max_frequencies, &mut pre, 0, K, &mut combinaciones, total_frequency);
        proof {
            assert(enteros(Seq::<usize>::empty()) =~= Seq::<int>::empty());
            assert(vista_lista(combinaciones@) =~= combinaciones_factibles(
                max_frequencies@,
                K as nat,
            ));
        }
        proof {
            lema_lista_factible(max_frequencies@, Seq::empty(), 0, K as nat);
            assert(vista_lista(combinaciones@) =~= combinaciones_factibles(max_frequencies@, K as nat));
        }
        let current_frequencies = max_frequencies.clone();
        proof {
            assert(current_frequencies@ =~= max_frequencies@);
        }
        CombinationsWithReplacementProb {
            max_frequencies,
            current_frequencies,
            total_frequency,
            combinaciones,
            siguiente: 0,
        }
    }

    /// Siguiente combinación con su peso y el total de maneras, o `None` si ya no quedan.
    pub fn next(&mut self) -> (r: Option<(Vec<usize>, u64, u64)>)
        ensures
            old(self)@.pos < old(self)@.lista.len() ==> (r matches Some((c, w, t)) && enteros(c@)
                == old(self)@.lista[old(self)@.pos].0 && w == old(self)@.lista[old(self)@.pos].1
                && t == old(self)@.total && final(self)@ == old(self)@.avanzado()),
            old(self)@.pos >= old(self)@.lista.len() ==> r is None && final(self)@ == old(self)@,
            r matches Some((c, w, t)) ==> forall|j: int|
                0 <= j < c@.len() ==> #[trigger] c@[j] < old(self)@.max.len(),
            final(self)@.max == old(self)@.max,
    {
        proof {
            use_type_invariant(&*self);
        }
        if self.siguiente >= self.combinaciones.len() {
            return None;
        }
        let (c, w) = (self.combinaciones[self.siguiente].0.clone(), self.combinaciones[self.siguiente].1);
        proof {
            assert(c@ =~= self.combinaciones@[self.siguiente as int].0@);
            assert(factible(
                self.max_frequencies@,
                vista_lista(self.combinaciones@)[self.siguiente as int].0,
            ));
            assert(en_rango(
                vista_lista(self.combinaciones@)[self.siguiente as int].0,
                self.max_frequencies@.len() as int,
            ));
            assert forall|j: int| 0 <= j < c@.len() implies #[trigger] c@[j] < self.max_frequencies@.len() by {
                assert(enteros(c@)[j] == c@[j] as int);
            }
        }
        let mut actuales: Vec<usize> = Vec::new();
        for j in 0..self.max_frequencies.len()
            invariant
                actuales@.len() == j,
                forall|u: int|
                    0 <= u < j ==> #[trigger] actuales@[u] as int == self.max_frequencies@[u]
                        - veces_en(enteros(c@), u),
                self.max_frequencies@.len() == old(self).max_frequencies@.len(),
                *self == *old(self),
                enteros(c@) == old(self)@.lista[old(self)@.pos].0,
                factible(self.max_frequencies@, enteros(c@)),
        {
            let veces = contar(&c, j);
            proof {
                assert(veces_en(enteros(c@), j as int) <= self.max_frequencies@[j as int]);
            }
            actuales.push(self.max_frequencies[j] - veces);
        }
        proof {
            assert(enteros(actuales@) =~= restantes(self.max_frequencies@, enteros(c@)));
        }
        self.current_frequencies = actuales;
        self.siguiente = self.siguiente + 1;
        Some((c, w, self.total_frequency))
    }

    /// Frecuencias que quedan tras la última combinación devuelta.
    pub fn current_frequencies(&self) -> (f: &[usize])
        ensures
            enteros(f@) == self@.actuales,
            f@.len() == self@.max.len(),
    {
        proof {
            use_type_invariant(self);
        }
        self.current_frequencies.as_slice()
    }
}

} // verus!

verus! {

/// Frecuencias de una distribución de cartas.
pub open spec fn frecuencias(cartas: Seq<(Carta, u8)>) -> Seq<usize> {
    cartas.map_values(|p: (Carta, u8)| p.1 as usize)
}

/// Cartas que corresponden a los índices de una combinación.
pub open spec fn cartas_de_indices(cartas: Seq<(Carta, u8)>, c: Seq<int>) -> Seq<Carta> {
    c.map_values(|i: int| cartas[i].0)
}

/// Iterador de manos de `N` cartas que se pueden repartir de una distribución de `M` cartas,
/// dada por pares (carta, número de copias), con el número de maneras de repartir cada una.
pub struct DistribucionCartaIter<const N: usize, const M: usize> {
    cartas: [(Carta, u8); M],
    iter: CombinationsWithReplacementProb<N>,
}

/// Modelo de la distribución: sus cartas y el iterador de combinaciones de índices.
pub struct ModeloDistribucion {
    pub cartas: Seq<(Carta, u8)>,
    pub combinaciones: ModeloCombinaciones,
}

impl<const N: usize, const M: usize> View for DistribucionCartaIter<N, M> {
    type V = ModeloDistribucion;

    closed spec fn view(&self) -> ModeloDistribucion {
        ModeloDistribucion { cartas: self.cartas@, combinaciones: self.iter@ }
    }
}

impl<const N: usize, const M: usize> DistribucionCartaIter<N, M> {
    /// El iterador de combinaciones recorre índices de las `M` cartas.
    pub closed spec fn bien_formado(self) -> bool {
        self.iter@.max.len() == M
    }

    /// Crea el iterador de manos de `N` cartas de la distribución recibida.
    pub fn new(cartas: [(Carta, u8); M]) -> (it: Self)
        requires
            N >= 1,
            cabe_en_u64(frecuencias(cartas@), N as nat),
        ensures
            it@.cartas == cartas@,
            it@.combinaciones == ModeloCombinaciones::inicial(frecuencias(cartas@), N as nat),
            it.bien_formado(),
    {
        let mut frequencies: Vec<usize> = Vec::new();
        for i in 0..M
            invariant
                frequencies@ == frecuencias(cartas@.take(i as int)),
        {
            frequencies.push(cartas[i].1 as usize);
            proof {
                assert(frequencies@ =~= frecuencias(cartas@.take(i + 1)));
            }
        }
        proof {
            assert(cartas@.take(M as int) =~= cartas@);
        }
        let iter = CombinationsWithReplacementProb::new(frequencies);
        DistribucionCartaIter { cartas, iter }
    }

    /// Frecuencias que quedan tras repartir la última mano.
    pub fn current_frequencies(&self) -> (f: &[usize])
        ensures
            enteros(f@) == self@.combinaciones.actuales,
            f@.len() == self@.combinaciones.max.len(),
    {
        self.iter.current_frequencies()
    }

    /// Distribución de cartas del iterador.
    pub fn cartas(&self) -> (c: [(Carta, u8); M])
        ensures
            c@ == self@.cartas,
    {
        self.cartas
    }

    /// Siguiente mano, con el número de maneras de repartirla y el total de maneras de repartir
    /// `N` cartas, o `None` si no quedan.
    pub fn next(&mut self) -> (r: Option<(Vec<Carta>, u64, u64)>)
        requires
            old(self).bien_formado(),
        ensures
            final(self).bien_formado(),
            final(self)@.cartas == old(self)@.cartas,
            ({
                let m = old(self)@.combinaciones;
                m.pos < m.lista.len() ==> (r matches Some((c, w, t)) && c@ == cartas_de_indices(
                    old(self)@.cartas,
                    m.lista[m.pos].0,
                ) && w == m.lista[m.pos].1 && t == m.total && final(self)@.combinaciones
                    == m.avanzado())
            }),
            old(self)@.combinaciones.pos >= old(self)@.combinaciones.lista.len() ==> r is None
                && final(self)@ == old(self)@,
    {
        let (indices, w, t) = match self.iter.next() {
            Some(x) => x,
            None => return None,
        };
        let ghost e = enteros(indices@);
        let mut mano: Vec<Carta> = Vec::new();
        for i in 0..indices.len()
            invariant
                e == enteros(indices@),
                mano@ == cartas_de_indices(self.cartas@, e.take(i as int)),
                forall|j: int| 0 <= j < indices@.len() ==> #[trigger] indices@[j] < M,
        {
            mano.push(self.cartas[indices[i]].0);
            proof {
                assert(mano@ =~= cartas_de_indices(self.cartas@, e.take(i + 1)));
            }
        }
        proof {
            assert(e.take(e.len() as int) =~= e);
        }
        Some((mano, w, t))
    }
}

} // verus!

verus! {

/// Distribución que queda tras repartir una mano: las mismas cartas con las frecuencias
/// restantes.
pub open spec fn distribucion_restante(cartas: Seq<(Carta, u8)>, actuales: Seq<int>) -> Seq<
    (Carta, u8),
> {
    Seq::new(cartas.len(), |i: int| (cartas[i].0, actuales[i] as u8))
}

/// Iterador de los repartos de `N` cartas nuevas tras un descarte en el mus: cada reparto trae
/// las cartas, el número de maneras de repartirlas, el total y la distribución que queda.
pub struct RepartoDescarteMusIter<const N: usize>(DistribucionCartaIter<N, 8>);

impl<const N: usize> RepartoDescarteMusIter<N> {
    /// Modelo de la distribución que se recorre.
    pub closed spec fn distribucion(self) -> ModeloDistribucion {
        self.0@
    }

    /// La distribución recorre índices de sus ocho cartas.
    pub closed spec fn bien_formado(self) -> bool {
        self.0.bien_formado()
    }

    /// Crea el iterador de repartos de `N` cartas de la distribución recibida.
    pub fn new(frequencies: [(Carta, u8); 8]) -> (it: Self)
        requires
            N >= 1,
            cabe_en_u64(frecuencias(frequencies@), N as nat),
        ensures
            it.distribucion().cartas == frequencies@,
            it.distribucion().combinaciones == ModeloCombinaciones::inicial(
                frecuencias(frequencies@),
                N as nat,
            ),
            it.bien_formado(),
    {
        RepartoDescarteMusIter(DistribucionCartaIter::new(frequencies))
    }

    /// Distribución de cartas del iterador.
    pub fn cartas(&self) -> (c: [(Carta, u8); 8])
        ensures
            c@ == self.distribucion().cartas,
    {
        self.0.cartas()
    }

    /// Siguiente reparto: cartas nuevas, maneras de repartirlas, total de maneras y distribución
    /// que queda; o `None` si no quedan.
    pub fn next(&mut self) -> (r: Option<(Vec<Carta>, u64, u64, [(Carta, u8); 8])>)
        requires
            old(self).bien_formado(),
        ensures
            final(self).bien_formado(),
            final(self).distribucion().cartas == old(self).distribucion().cartas,
            ({
                let d = old(self).distribucion();
                let m = d.combinaciones;
                m.pos < m.lista.len() ==> (r matches Some((c, w, t, dist)) && c@
                    == cartas_de_indices(d.cartas, m.lista[m.pos].0) && w == m.lista[m.pos].1 && t
                    == m.total && final(self).distribucion().combinaciones == m.avanzado()
                    && dist@ == distribucion_restante(d.cartas, m.avanzado().actuales))
            }),
            old(self).distribucion().combinaciones.pos >= old(
                self,
            ).distribucion().combinaciones.lista.len() ==> r is None && final(self).distribucion()
                == old(self).distribucion(),
    {
        let (mano, w, t) = match self.0.next() {
            Some(x) => x,
            None => return None,
        };
        let mut dist = self.0.cartas();
        let actuales = self.0.current_frequencies();
        for i in 0..8usize
            invariant
                actuales@.len() == 8,
                forall|j: int| 0 <= j < i ==> #[trigger] dist@[j] == (
                    self.0@.cartas[j].0,
                    enteros(actuales@)[j] as u8,
                ),
                forall|j: int| i <= j < 8 ==> #[trigger] dist@[j] == self.0@.cartas[j],
                self.0@.cartas.len() == 8,
        {
            let c = dist[i].0;
            dist.set(i, (c, actuales[i] as u8));
        }
        proof {
            assert(dist@ =~= distribucion_restante(self.0@.cartas, self.0@.combinaciones.actuales));
        }
        Some((mano, w, t, dist))
    }
}

} // verus!

verus! {

/// Todos los índices de las combinaciones están entre 0 y `n`.
proof fn lema_combinaciones_en_rango(n: int, pre: Seq<int>, v: int, k: nat)
    requires
        en_rango(pre, n),
        0 <= v,
    ensures
        forall|i: int|
            0 <= i < combinaciones_desde(n, pre, v, k).len() ==> en_rango(
                #[trigger] combinaciones_desde(n, pre, v, k)[i],
                n,
            ) && combinaciones_desde(n, pre, v, k)[i].len() == pre.len() + k,
    decreases k, n - v,
{
    if k > 0 && 0 <= v < n {
        lema_combinaciones_en_rango(n, pre.push(v), v, (k - 1) as nat);
        lema_combinaciones_en_rango(n, pre, v + 1, k);
        let a = combinaciones_desde(n, pre.push(v), v, (k - 1) as nat);
        let b = combinaciones_desde(n, pre, v + 1, k);
        assert forall|i: int| 0 <= i < (a + b).len() implies en_rango(#[trigger] (a + b)[i], n)
            && (a + b)[i].len() == pre.len() + k by {
            if i < a.len() {
                assert((a + b)[i] == a[i]);
            } else {
                assert((a + b)[i] == b[i - a.len()]);
            }
        }
    }
}

/// Iterador de manos de cartas: todas las combinaciones con repetición de las cartas recibidas,
/// en orden lexicográfico de sus posiciones.
pub struct CartaIter {
    cartas: Vec<Carta>,
    combinaciones: Vec<Vec<usize>>,
    pos: usize,
}

impl CartaIter {
    /// Manos que quedan por devolver.
    pub closed spec fn pendientes(self) -> Seq<Seq<Carta>> {
        self.combinaciones@.skip(self.pos as int).map_values(
            |c: Vec<usize>| indices_enteros(c@).map_values(|i: int| self.cartas@[i]),
        )
    }

    #[verifier::type_invariant]
    spec fn inv(self) -> bool {
        &&& self.pos <= self.combinaciones@.len()
        &&& forall|i: int|
            0 <= i < self.combinaciones@.len() ==> en_rango(
                indices_enteros(#[trigger] self.combinaciones@[i]@),
                self.cartas@.len() as int,
            )
    }

    /// Crea el iterador de manos de `num_cartas` cartas de las recibidas.
    pub fn new(cartas: &[Carta], num_cartas: usize) -> (it: Self)
        ensures
            it.pendientes() == combinaciones_desde(
                cartas@.len() as int,
                Seq::empty(),
                0,
                num_cartas as nat,
            ).map_values(|c: Seq<int>| c.map_values(|i: int| cartas@[i])),
    {
        let combinaciones = combinaciones_con_repeticion(cartas.len(), num_cartas);
        let mut copia: Vec<Carta> = Vec::new();
        for i in 0..cartas.len()
            invariant
                copia@ == cartas@.take(i as int),
        {
            copia.push(cartas[i]);
            proof {
                assert(copia@ =~= cartas@.take(i + 1));
            }
        }
        proof {
            assert(copia@ =~= cartas@);
            let todas = combinaciones_desde(cartas@.len() as int, Seq::empty(), 0, num_cartas as nat);
            lema_combinaciones_en_rango(cartas@.len() as int, Seq::empty(), 0, num_cartas as nat);
            assert forall|i: int| 0 <= i < combinaciones@.len() implies en_rango(
                indices_enteros(#[trigger] combinaciones@[i]@),
                cartas@.len() as int,
            ) by {
                assert(combinaciones@.map_values(|c: Vec<usize>| indices_enteros(c@))[i] == todas[i]);
            }
        }
        let it = CartaIter { cartas: copia, combinaciones, pos: 0 };
        proof {
            assert(it.combinaciones@.skip(0) =~= it.combinaciones@);
            assert(it.pendientes() =~= combinaciones_desde(
                cartas@.len() as int,
                Seq::empty(),
                0,
                num_cartas as nat,
            ).map_values(|c: Seq<int>| c.map_values(|i: int| cartas@[i])));
        }
        it
    }

    /// Siguiente mano, o `None` si no quedan.
    pub fn next(&mut self) -> (r: Option<Vec<Carta>>)
        ensures
            old(self).pendientes().len() > 0 ==> (r matches Some(v) && v@ == old(
                self,
            ).pendientes()[0] && final(self).pendientes() == old(self).pendientes().drop_first()),
            old(self).pendientes().len() == 0 ==> r is None && final(self).pendientes() == old(
                self,
            ).pendientes(),
    {
        proof {
            use_type_invariant(&*self);
        }
        if self.pos >= self.combinaciones.len() {
            return None;
        }
        let c = &self.combinaciones[self.pos];
        let ghost e = indices_enteros(c@);
        proof {
            assert(en_rango(e, self.cartas@.len() as int));
        }
        let mut mano: Vec<Carta> = Vec::new();
        for i in 0..c.len()
            invariant
                e == indices_enteros(c@),
                en_rango(e, self.cartas@.len() as int),
                mano@ == e.take(i as int).map_values(|j: int| self.cartas@[j]),
        {
            proof {
                assert(e[i as int] == c@[i as int] as int);
            }
            mano.push(self.cartas[c[i]]);
            proof {
                assert(mano@ =~= e.take(i + 1).map_values(|j: int| self.cartas@[j]));
            }
        }
        proof {
            assert(e.take(e.len() as int) =~= e);
        }
        let ghost antes = self.pendientes();
        self.pos = self.pos + 1;
        proof {
            assert(self.pendientes() =~= antes.drop_first());
        }
        Some(mano)
    }
}

} // verus!

verus! {

/// Posición de la primera carta de la distribución con el mismo valor que `c`, si la hay.
pub open spec fn posicion_carta(cartas: Seq<(Carta, u8)>, c: Carta) -> Option<int>
    decreases cartas.len(),
{
    if cartas.len() == 0 {
        None
    } else {
        match posicion_carta(cartas.drop_last(), c) {
            Some(i) => Some(i),
            None => if cartas.last().0.valor_spec() == c.valor_spec() {
                Some(cartas.len() - 1)
            } else {
                None
            },
        }
    }
}

/// Posiciones en la distribución de las cartas de la mano, o `None` si alguna no está.
pub open spec fn indices_mano(cartas: Seq<(Carta, u8)>, mano: Seq<Carta>) -> Option<Seq<int>>
    decreases mano.len(),
{
    if mano.len() == 0 {
        Some(Seq::empty())
    } else {
        match (indices_mano(cartas, mano.drop_last()), posicion_carta(cartas, mano.last())) {
            (Some(s), Some(i)) => Some(s.push(i)),
            _ => None,
        }
    }
}

/// Probabilidad de repartir exactamente la mano, como fracción: el número de maneras de
/// repartirla y el total de maneras de repartir tantas cartas. Una mano imposible tiene
/// probabilidad `0 / 1`.
pub open spec fn probabilidad_mano_spec(cartas: Seq<(Carta, u8)>, mano: Seq<Carta>) -> (nat, nat) {
    let f = frecuencias(cartas);
    match indices_mano(cartas, mano) {
        Some(ix) => if factible(f, ix) {
            (peso(f, ix), binom(suma(f), mano.len()))
        } else {
            (0, 1)
        },
        None => (0, 1),
    }
}

/// Probabilidad conjunta de repartir las dos manos, la segunda con las cartas que deja la
/// primera, como fracción. Si alguna es imposible, `0 / 1`.
pub open spec fn probabilidad_dos_manos_spec(
    cartas: Seq<(Carta, u8)>,
    mano1: Seq<Carta>,
    mano2: Seq<Carta>,
) -> (nat, nat) {
    let f = frecuencias(cartas);
    match (indices_mano(cartas, mano1), indices_mano(cartas, mano2)) {
        (Some(i1), Some(i2)) => {
            let resto = Seq::new(f.len(), |j: int| (f[j] - veces_en(i1, j)) as usize);
            if factible(f, i1) && factible(resto, i2) {
                (
                    peso(f, i1) * peso(resto, i2),
                    binom(suma(f), mano1.len()) * binom(suma(resto), mano2.len()),
                )
            } else {
                (0, 1)
            }
        },
        _ => (0, 1),
    }
}

/// Posición en la distribución de la primera carta con el mismo valor que `c`.
fn posicion<const M: usize>(cartas: &[(Carta, u8); M], c: Carta) -> (r: Option<usize>)
    ensures
        match posicion_carta(cartas@, c) {
            Some(i) => r == Some(i as usize),
            None => r is None,
        },
{
    for i in 0..M
        invariant
            posicion_carta(cartas@.take(i as int), c) is None,
    {
        proof {
            assert(cartas@.take(i + 1).drop_last() =~= cartas@.take(i as int));
        }
        if cartas[i].0 == c {
            proof {
                assert(posicion_carta(cartas@.take(i + 1), c) == Some(i as int));
                lema_posicion_prefijo(cartas@, i + 1, c);
            }
            return Some(i);
        }
    }
    proof {
        assert(cartas@.take(M as int) =~= cartas@);
    }
    None
}

/// Si un prefijo de la distribución ya tiene una carta del valor de `c`, la primera está ahí.
proof fn lema_posicion_prefijo(cartas: Seq<(Carta, u8)>, k: int, c: Carta)
    requires
        0 <= k <= cartas.len(),
    ensures
        posicion_carta(cartas.take(k), c) is Some ==> posicion_carta(cartas, c) == posicion_carta(
            cartas.take(k),
            c,
        ),
    decreases cartas.len(),
{
    if k < cartas.len() {
        lema_posicion_prefijo(cartas.drop_last(), k, c);
        assert(cartas.drop_last().take(k) =~= cartas.take(k));
    } else {
        assert(cartas.take(k) =~= cartas);
    }
}

/// La posición de una carta está en la distribución.
proof fn lema_posicion_en_rango(cartas: Seq<(Carta, u8)>, c: Carta)
    ensures
        posicion_carta(cartas, c) matches Some(i) ==> 0 <= i < cartas.len(),
    decreases cartas.len(),
{
    if cartas.len() > 0 {
        lema_posicion_en_rango(cartas.drop_last(), c);
    }
}

/// Posiciones en la distribución de las cartas de la mano, o `None` si alguna no está.
pub(crate) fn indices_de<const M: usize>(cartas: &[(Carta, u8); M], mano: &[Carta]) -> (r: Option<Vec<usize>>)
    ensures
        match indices_mano(cartas@, mano@) {
            Some(s) => r matches Some(v) && enteros(v@) == s && v@.len() == mano@.len() && forall|
                j: int,
            | 0 <= j < v@.len() ==> #[trigger] v@[j] < M,
            None => r is None,
        },
{
    let mut v: Vec<usize> = Vec::new();
    for i in 0..mano.len()
        invariant
            indices_mano(cartas@, mano@.take(i as int)) == Some(enteros(v@)),
            v@.len() == i,
            forall|j: int| 0 <= j < v@.len() ==> #[trigger] v@[j] < M,
    {
        proof {
            assert(mano@.take(i + 1).drop_last() =~= mano@.take(i as int));
            assert(mano@.take(i + 1).last() == mano@[i as int]);
            lema_posicion_en_rango(cartas@, mano@[i as int]);
        }
        match posicion(cartas, mano[i]) {
            Some(p) => {
                v.push(p);
                proof {
                    assert(enteros(v@) =~= enteros(v@.drop_last()).push(p as int));
                }
            },
            None => {
                proof {
                    lema_indices_prefijo(cartas@, mano@, i + 1);
                }
                return None;
            },
        }
    }
    proof {
        assert(mano@.take(mano@.len() as int) =~= mano@);
    }
    Some(v)
}

/// Si a un prefijo de la mano le falta una carta en la distribución, a la mano también.
proof fn lema_indices_prefijo(cartas: Seq<(Carta, u8)>, mano: Seq<Carta>, k: int)
    requires
        0 <= k <= mano.len(),
    ensures
        indices_mano(cartas, mano.take(k)) is None ==> indices_mano(cartas, mano) is None,
    decreases mano.len(),
{
    if k < mano.len() {
        lema_indices_prefijo(cartas, mano.drop_last(), k);
        assert(mano.drop_last().take(k) =~= mano.take(k));
    } else {
        assert(mano.take(k) =~= mano);
    }
}

} // verus!
