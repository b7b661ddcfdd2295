use vstd::prelude::*;

use crate::colecciones::{binom, binomial, combinaciones_desde};
use crate::mus::{Accion, Apuesta, Carta, CartaIter, EstadoLance, Lance, Mano, Turno, mano_ordenada_de};

use super::{abstraccion, AbstractChica, AbstractGrande, AbstractJuego, AbstractJugada, AbstractPares, AbstractPunto, acciones_envite_spec, actions_envite, canonical_envite_action, indice_canonico};
use crate::colecciones::{acciones_de, acciones_get, acciones_len};

verus! {

/// Campo de bits de un conjunto de información: anchura y desplazamiento.
#[derive(Debug, Clone, Copy, PartialEq, Eq, Structural)]
pub struct BitField {
    pub width: u32,
    pub offset: u32,
}

/// Número máximo de nodos de un árbol de secuencias: al llegar a él no se crean más. Con él, el
/// índice de un nodo cabe en ocho bits y el conjunto de información de una partida entera cabe
/// en 64 bits.
pub const LIMITE_NODOS: usize = 128;

/// Fila de un nodo sin hijos.
pub open spec fn fila_vacia() -> Seq<int> {
    seq![-1, -1, -1, -1, -1, -1]
}

/// Árbol tras añadir el camino `s` desde su posición `i`, estando en el nodo `nodo`: se sigue
/// el hijo de cada acción y, si no existe, se crea al final.
pub open spec fn insertar_camino(nodos: Seq<Seq<int>>, s: Seq<u8>, i: int, nodo: int) -> Seq<
    Seq<int>,
>
    decreases s.len() - i,
{
    if i < 0 || i >= s.len() {
        nodos
    } else {
        let a = s[i] as int;
        let hijo = nodos[nodo][a];
        if hijo < 0 && nodos.len() >= LIMITE_NODOS {
            nodos
        } else if hijo < 0 {
            let n = nodos.len() as int;
            insertar_camino(
                nodos.push(fila_vacia()).update(nodo, nodos[nodo].update(a, n)),
                s,
                i + 1,
                n,
            )
        } else {
            insertar_camino(nodos, s, i + 1, hijo)
        }
    }
}

/// Árbol de los primeros `j` caminos: la raíz es el nodo 0.
pub open spec fn arbol_de(caminos: Seq<Seq<u8>>, j: int) -> Seq<Seq<int>>
    decreases j,
{
    if j <= 0 {
        seq![fila_vacia()]
    } else {
        insertar_camino(arbol_de(caminos, j - 1), caminos[j - 1], 0, 0)
    }
}

/// Árbol bien formado: cada nodo tiene seis hijos, que son -1 (no hay hijo) o un nodo del árbol.
pub open spec fn arbol_valido(nodos: Seq<Seq<int>>) -> bool {
    &&& 1 <= nodos.len() <= LIMITE_NODOS
    &&& forall|n: int| 0 <= n < nodos.len() ==> (#[trigger] nodos[n]).len() == 6
    &&& forall|n: int, a: int|
        0 <= n < nodos.len() && 0 <= a < 6 ==> -1 <= #[trigger] nodos[n][a] < nodos.len()
}

/// Los caminos solo usan las seis acciones.
pub open spec fn caminos_validos(caminos: Seq<Seq<u8>>) -> bool {
    forall|j: int, i: int|
        0 <= j < caminos.len() && 0 <= i < caminos[j].len() ==> #[trigger] caminos[j][i] < 6
}

/// Filas del árbol como secuencias de enteros.
pub open spec fn vista_nodos(nodos: Seq<[isize; 6]>) -> Seq<Seq<int>> {
    nodos.map_values(|f: [isize; 6]| f@.map_values(|x: isize| x as int))
}

proof fn lema_insertar_valido(nodos: Seq<Seq<int>>, s: Seq<u8>, i: int, nodo: int)
    requires
        arbol_valido(nodos),
        0 <= nodo < nodos.len(),
        forall|k: int| 0 <= k < s.len() ==> #[trigger] s[k] < 6,
    ensures
        arbol_valido(insertar_camino(nodos, s, i, nodo)),
    decreases s.len() - i,
{
    if 0 <= i < s.len() {
        let a = s[i] as int;
        let hijo = nodos[nodo][a];
        if hijo < 0 && nodos.len() >= LIMITE_NODOS {
        } else if hijo < 0 {
            let n = nodos.len() as int;
            let nuevos = nodos.push(fila_vacia()).update(nodo, nodos[nodo].update(a, n));
            assert forall|m: int| 0 <= m < nuevos.len() implies (#[trigger] nuevos[m]).len() == 6 by {
            }
            assert forall|m: int, b: int| 0 <= m < nuevos.len() && 0 <= b < 6 implies -1
                <= #[trigger] nuevos[m][b] < nuevos.len() by {
                if m == nodo {
                    if b != a {
                        assert(nuevos[m][b] == nodos[nodo][b]);
                    }
                } else if m < n {
                    assert(nuevos[m] == nodos[m]);
                } else {
                    assert(nuevos[m] == fila_vacia());
                }
            }
            lema_insertar_valido(nuevos, s, i + 1, n);
        } else {
            lema_insertar_valido(nodos, s, i + 1, hijo);
        }
    }
}

proof fn lema_arbol_valido(caminos: Seq<Seq<u8>>, j: int)
    requires
        caminos_validos(caminos),
        j <= caminos.len(),
    ensures
        arbol_valido(arbol_de(caminos, j)),
    decreases j,
{
    if j > 0 {
        lema_arbol_valido(caminos, j - 1);
        assert forall|k: int| 0 <= k < caminos[j - 1].len() implies #[trigger] caminos[j - 1][k]
            < 6 by {
            assert(caminos[j - 1][k] < 6);
        }
        lema_insertar_valido(arbol_de(caminos, j - 1), caminos[j - 1], 0, 0);
    }
}

/// Árbol de secuencias de acciones: cada nodo es una secuencia de acciones desde la raíz, y sus
/// hijos se indexan por el índice canónico de la acción.
#[derive(Debug)]
pub struct BettingSequence {
    nodes: Vec<[isize; 6]>,
}

impl View for BettingSequence {
    type V = Seq<Seq<int>>;

    closed spec fn view(&self) -> Seq<Seq<int>> {
        vista_nodos(self.nodes@)
    }
}

/// Fila de un nodo sin hijos.
fn fila_sin_hijos() -> (f: [isize; 6])
    ensures
        f@.map_values(|x: isize| x as int) == fila_vacia(),
{
    let f: [isize; 6] = [-1, -1, -1, -1, -1, -1];
    proof {
        assert(f@.map_values(|x: isize| x as int) =~= fila_vacia());
    }
    f
}

impl Clone for BettingSequence {
    fn clone(&self) -> (c: Self)
        ensures
            c@ == self@,
    {
        proof {
            use_type_invariant(self);
        }
        let mut nodes: Vec<[isize; 6]> = Vec::new();
        for i in 0..self.nodes.len()
            invariant
                nodes@ == self.nodes@.take(i as int),
        {
            nodes.push(self.nodes[i]);
            proof {
                assert(nodes@ =~= self.nodes@.take(i + 1));
            }
        }
        proof {
            assert(nodes@ =~= self.nodes@);
        }
        BettingSequence { nodes }
    }
}

impl BettingSequence {
    #[verifier::type_invariant]
    spec fn inv(self) -> bool {
        arbol_valido(self@)
    }

    /// Construye el árbol con las secuencias de índices canónicos recibidas.
    pub fn from_sequences(sequences: &[Vec<u8>]) -> (b: Self)
        requires
            caminos_validos(sequences@.map_values(|s: Vec<u8>| s@)),
        ensures
            b@ == arbol_de(sequences@.map_values(|s: Vec<u8>| s@), sequences@.len() as int),
    {
        let ghost caminos = sequences@.map_values(|s: Vec<u8>| s@);
        let mut nodes: Vec<[isize; 6]> = Vec::new();
        nodes.push(fila_sin_hijos());
        proof {
            assert(vista_nodos(nodes@) =~= arbol_de(caminos, 0));
        }
        for j in 0..sequences.len()
            invariant
                caminos == sequences@.map_values(|s: Vec<u8>| s@),
                caminos_validos(caminos),
                vista_nodos(nodes@) == arbol_de(caminos, j as int),
                j <= sequences@.len(),
                nodes@.len() <= LIMITE_NODOS,
        {
            let s = &sequences[j];
            proof {
                assert(s@ == caminos[j as int]);
                lema_arbol_valido(caminos, j as int);
            }
            let mut node: usize = 0;
            let ghost objetivo = insertar_camino(arbol_de(caminos, j as int), s@, 0, 0);
            let mut i: usize = 0;
            let mut lleno = false;
            while i < s.len() && !lleno
                invariant
                    s@ == caminos[j as int],
                    caminos_validos(caminos),
                    j < caminos.len(),
                    i <= s@.len(),
                    arbol_valido(vista_nodos(nodes@)),
                    (node as int) < vista_nodos(nodes@).len(),
                    !lleno ==> insertar_camino(vista_nodos(nodes@), s@, i as int, node as int) == objetivo,
                    lleno ==> vista_nodos(nodes@) == objetivo,
                    nodes@.len() <= LIMITE_NODOS,
                decreases s@.len() - i,
            {
                let a = s[i] as usize;
                proof {
                    assert(s@[i as int] < 6);
                    assert(vista_nodos(nodes@)[node as int][a as int] == nodes@[node as int]@[a as int] as int);
                }
                let hijo = nodes[node][a];
                if hijo < 0 && nodes.len() >= LIMITE_NODOS {
                    lleno = true;
                } else if hijo < 0 {
                    let ghost antes = vista_nodos(nodes@);
                    proof {
                        lema_insertar_valido(antes, s@, i as int, node as int);
                    }
                    nodes.push(fila_sin_hijos());
                    let n = nodes.len() - 1;
                    let mut fila = nodes[node];
                    proof {
                        assert(fila@.map_values(|x: isize| x as int) == antes[node as int]);
                    }
                    fila.set(a, n as isize);
                    proof {
                        assert(fila@.map_values(|x: isize| x as int) =~= antes[node as int].update(
                            a as int,
                            n as int,
                        ));
                    }
                    nodes.set(node, fila);
                    proof {
                        assert(vista_nodos(nodes@) =~= antes.push(fila_vacia()).update(
                            node as int,
                            antes[node as int].update(a as int, n as int),
                        ));
                        let nuevos = antes.push(fila_vacia()).update(node as int, antes[node as int].update(a as int, n as int));
                        assert forall|m: int| 0 <= m < nuevos.len() implies (#[trigger] nuevos[m]).len() == 6 by {
                        }
                        assert forall|m: int, b: int| 0 <= m < nuevos.len() && 0 <= b < 6 implies -1
                            <= #[trigger] nuevos[m][b] < nuevos.len() by {
                            if m == node {
                                if b != a {
                                    assert(nuevos[m][b] == antes[node as int][b]);
                                }
                            } else if m < antes.len() {
                                assert(nuevos[m] == antes[m]);
                            } else {
                                assert(nuevos[m] == fila_vacia());
                            }
                        }
                    }
                    node = n;
                } else {
                    node = hijo as usize;
                }
                i = i + 1;
            }
        }
        proof {
            assert(sequences@.len() == caminos.len());
            lema_arbol_valido(caminos, sequences@.len() as int);
        }
        BettingSequence { nodes }
    }

    /// Número de nodos del árbol.
    pub fn num_nodes(&self) -> (n: usize)
        ensures
            n == self@.len(),
            n >= 1,
    {
        proof {
            use_type_invariant(self);
        }
        self.nodes.len()
    }

    /// Nodo al que se llega desde `node` con la acción; -1 si no hay hijo.
    pub fn step(&self, node: u32, action: Accion) -> (r: isize)
        requires
            node < self@.len(),
            crate::solver::canonica(action),
        ensures
            r == self@[node as int][indice_canonico(action)],
            -1 <= r < self@.len(),
    {
        proof {
            use_type_invariant(self);
        }
        let i = canonical_envite_action(action);
        proof {
            assert(self@[node as int][i as int] == self.nodes@[node as int]@[i as int] as int);
        }
        self.nodes[node as usize][i]
    }
}

} // verus!

verus! {

/// Número de bits con que se escribe `n`.
pub open spec fn anchura(n: nat) -> nat
    decreases n,
{
    if n == 0 {
        0
    } else {
        1 + anchura(n / 2)
    }
}

/// Número de bits con que se escribe `n`.
pub fn bits_de(n: usize) -> (w: u32)
    ensures
        w == anchura(n as nat),
{
    let mut m = n;
    let mut w: u32 = 0;
    proof {
        lema_anchura_cota(n as nat);
    }
    while m > 0
        invariant
            anchura(n as nat) == w + anchura(m as nat),
            w <= 64 - anchura(m as nat),
            anchura(m as nat) <= 64,
        decreases m,
    {
        proof {
            lema_anchura_cota(m as nat);
        }
        m = m / 2;
        w = w + 1;
    }
    w
}

proof fn lema_anchura_cota(n: nat)
    requires
        n <= usize::MAX,
    ensures
        anchura(n) <= 64,
        n > 0 ==> anchura(n / 2) + 1 == anchura(n),
{
    assert(n <= 0xffff_ffff_ffff_ffff);
    reveal_with_fuel(crate::mus::potencia2, 65);
    assert(crate::mus::potencia2(64) == 0x1_0000_0000_0000_0000);
    lema_anchura_potencia(n, 64);
}

proof fn lema_anchura_potencia(n: nat, k: nat)
    requires
        n < crate::mus::potencia2(k),
    ensures
        anchura(n) <= k,
    decreases k,
{
    if n > 0 && k > 0 {
        lema_anchura_potencia(n / 2, (k - 1) as nat);
    } else if n > 0 && k == 0 {
        assert(crate::mus::potencia2(0) == 1);
    }
}

} // verus!

verus! {

/// Posición de la carta entre las cartas de la baraja de mus, por su valor: del as al rey.
pub open spec fn indice_mus(c: Carta) -> int {
    let v = c.valor_spec();
    if v == 1 {
        0
    } else if v == 4 {
        1
    } else if v == 5 {
        2
    } else if v == 6 {
        3
    } else if v == 7 {
        4
    } else if v == 10 {
        5
    } else if v == 11 {
        6
    } else {
        7
    }
}

/// Posición de la carta entre las cartas de la baraja de mus.
pub fn valor_mus(c: &Carta) -> (i: usize)
    ensures
        i == indice_mus(*c),
        i < 8,
{
    let v = c.valor();
    if v == 1 {
        0
    } else if v == 4 {
        1
    } else if v == 5 {
        2
    } else if v == 6 {
        3
    } else if v == 7 {
        4
    } else if v == 10 {
        5
    } else if v == 11 {
        6
    } else {
        7
    }
}

/// Rango de unas cartas en el sistema combinatorio de combinaciones con repetición: recorridas
/// desde la última, la carta `i`-ésima suma el número combinatorio de su posición más `i` sobre
/// `i + 1`.
pub open spec fn rango_desde(s: Seq<Carta>, i: int) -> nat
    decreases s.len() - i,
{
    if i < 0 || i >= s.len() {
        0
    } else {
        binom((indice_mus(s[s.len() - 1 - i]) + i) as nat, (i + 1) as nat) + rango_desde(s, i + 1)
    }
}

/// Rango de las cartas de una mano.
pub open spec fn rango_completo(s: Seq<Carta>) -> nat {
    rango_desde(s, 0)
}

proof fn lema_binom_creciente(n: nat, m: nat, k: nat)
    requires
        n <= m,
    ensures
        binom(n, k) <= binom(m, k),
    decreases m - n,
{
    if n < m {
        lema_binom_creciente(n, (m - 1) as nat, k);
        if k > 0 {
            assert(binom(m, k) == binom((m - 1) as nat, (k - 1) as nat) + binom((m - 1) as nat, k));
        }
    }
}

proof fn lema_rango_cota(s: Seq<Carta>, i: int)
    requires
        s.len() <= 4,
        0 <= i,
    ensures
        rango_desde(s, i) <= (if i <= 0 { 329int } else if i == 1 { 322int } else if i == 2 { 294int } else if i == 3 { 210int } else { 0int }),
    decreases s.len() - i,
{
    if i < s.len() {
        lema_rango_cota(s, i + 1);
        lema_binom_creciente((indice_mus(s[s.len() - 1 - i]) + i) as nat, (7 + i) as nat, (i + 1) as nat);
        lema_binomios_rango();
    }
}

proof fn lema_binomios_rango()
    ensures
        binom(7, 1) == 7,
        binom(8, 2) == 28,
        binom(9, 3) == 84,
        binom(10, 4) == 210,
{
    reveal_with_fuel(binom, 12);
}

/// Tabla de números combinatorios de `n` sobre `k`, con `n` hasta 11 y `k` hasta 4.
pub fn combinations_table() -> (t: [[u64; 5]; 12])
    ensures
        forall|n: int, k: int| 0 <= n < 12 && 0 <= k < 5 ==> #[trigger] t[n][k] == binom(n as nat, k as nat),
{
    let mut t: [[u64; 5]; 12] = [[1u64, 0, 0, 0, 0]; 12];
    proof {
        assert forall|k: int| 0 <= k < 5 implies #[trigger] t[0][k] == binom(0, k as nat) by {
        }
    }
    for n in 1..12usize
        invariant
            forall|m: int, k: int| 0 <= m < n && 0 <= k < 5 ==> #[trigger] t[m][k] == binom(m as nat, k as nat),
            forall|m: int| n <= m < 12 ==> #[trigger] t[m] == [1u64, 0, 0, 0, 0],
    {
        let mut fila: [u64; 5] = [1u64, 0, 0, 0, 0];
        for k in 1..5usize
            invariant
                1 <= n < 12,
                fila[0] == 1,
                forall|j: int| 1 <= j < k ==> #[trigger] fila[j] == binom(n as nat, j as nat),
        {
            proof {
                crate::mus::lema_binom_cabe(n as nat, k as nat);
            }
            let b = binomial(n as u64, k as u64);
            fila.set(k, b);
        }
        t.set(n, fila);
    }
    t
}

} // verus!

verus! {

/// Código de una jugada abstracta que respeta su orden: las de cada lance se numeran de menor a
/// mayor, y las cartas del mismo valor dan el mismo código.
pub open spec fn codigo_abstracto(j: AbstractJugada) -> int {
    match j {
        AbstractJugada::AbstractGrande(g) => match g {
            AbstractGrande::NoCerdos(c) => c.valor_spec() as int,
            AbstractGrande::UnCerdo(c) => 16 + c.valor_spec(),
            AbstractGrande::DosCerdos(c) => 32 + c.valor_spec(),
            AbstractGrande::TresCerdos(c) => 48 + c.valor_spec(),
        },
        AbstractJugada::AbstractChica(ch) => match ch {
            AbstractChica::NoPitos(c) => 16 - c.valor_spec(),
            AbstractChica::UnPito(c) => 32 - c.valor_spec(),
            AbstractChica::DosPitos(c) => 48 - c.valor_spec(),
            AbstractChica::TresPitos(c) => 64 - c.valor_spec(),
        },
        AbstractJugada::AbstractPares(p) => match p {
            AbstractPares::Pareja(c) => c.valor_spec() as int,
            AbstractPares::Medias(c) => 256 + c.valor_spec(),
            AbstractPares::Duples(a, b) => 512 + 16 * a.valor_spec() + b.valor_spec(),
        },
        AbstractJugada::AbstractJuego(jg) => match jg {
            AbstractJuego::Treintaytres => 0,
            AbstractJuego::Treintaycuatro2F => 1,
            AbstractJuego::Treintaycuatro3F => 2,
            AbstractJuego::Treintaycinco => 3,
            AbstractJuego::Treintayseis => 4,
            AbstractJuego::Treintaysiete => 5,
            AbstractJuego::Cuarenta => 6,
            AbstractJuego::Treintaydos66 => 7,
            AbstractJuego::Treintaydos75 => 8,
            AbstractJuego::Treintayuna1F => 9,
            AbstractJuego::Treintayuna2F74 => 10,
            AbstractJuego::Treintayuna2F65 => 11,
            AbstractJuego::Treintayuna3F => 12,
        },
        AbstractJugada::AbstractPunto(AbstractPunto::Punto(v)) => v as int,
    }
}

/// Código de una jugada abstracta.
pub fn codigo_jugada(j: &AbstractJugada) -> (c: u32)
    ensures
        c == codigo_abstracto(*j),
{
    match j {
        AbstractJugada::AbstractGrande(g) => match g {
            AbstractGrande::NoCerdos(c) => c.valor() as u32,
            AbstractGrande::UnCerdo(c) => 16 + c.valor() as u32,
            AbstractGrande::DosCerdos(c) => 32 + c.valor() as u32,
            AbstractGrande::TresCerdos(c) => 48 + c.valor() as u32,
        },
        AbstractJugada::AbstractChica(ch) => match ch {
            AbstractChica::NoPitos(c) => 16 - c.valor() as u32,
            AbstractChica::UnPito(c) => 32 - c.valor() as u32,
            AbstractChica::DosPitos(c) => 48 - c.valor() as u32,
            AbstractChica::TresPitos(c) => 64 - c.valor() as u32,
        },
        AbstractJugada::AbstractPares(p) => match p {
            AbstractPares::Pareja(c) => c.valor() as u32,
            AbstractPares::Medias(c) => 256 + c.valor() as u32,
            AbstractPares::Duples(a, b) => 512 + 16 * (a.valor() as u32) + b.valor() as u32,
        },
        AbstractJugada::AbstractJuego(jg) => match jg {
            AbstractJuego::Treintaytres => 0,
            AbstractJuego::Treintaycuatro2F => 1,
            AbstractJuego::Treintaycuatro3F => 2,
            AbstractJuego::Treintaycinco => 3,
            AbstractJuego::Treintayseis => 4,
            AbstractJuego::Treintaysiete => 5,
            AbstractJuego::Cuarenta => 6,
            AbstractJuego::Treintaydos66 => 7,
            AbstractJuego::Treintaydos75 => 8,
            AbstractJuego::Treintayuna1F => 9,
            AbstractJuego::Treintayuna2F74 => 10,
            AbstractJuego::Treintayuna2F65 => 11,
            AbstractJuego::Treintayuna3F => 12,
        },
        AbstractJugada::AbstractPunto(AbstractPunto::Punto(v)) => *v as u32,
    }
}

/// Secuencia estrictamente creciente.
pub open spec fn creciente(s: Seq<u32>) -> bool {
    forall|i: int, j: int| 0 <= i < j < s.len() ==> s[i] < s[j]
}

/// Añade el código a una tabla creciente, si no estaba, manteniéndola creciente.
fn insertar_ordenado(t: &mut Vec<u32>, x: u32)
    requires
        creciente(old(t)@),
    ensures
        creciente(final(t)@),
        final(t)@.to_set() == old(t)@.to_set().insert(x),
        final(t)@.len() <= old(t)@.len() + 1,
{
    let mut p: usize = 0;
    while p < t.len() && t[p] < x
        invariant
            p <= t@.len(),
            t@ == old(t)@,
            forall|k: int| 0 <= k < p ==> t@[k] < x,
        decreases t@.len() - p,
    {
        p = p + 1;
    }
    if p < t.len() && t[p] == x {
        proof {
            assert(old(t)@.to_set().insert(x) =~= old(t)@.to_set()) by {
                assert(old(t)@.contains(x)) by {
                    assert(old(t)@[p as int] == x);
                }
            }
        }
        return ;
    }
    t.insert(p, x);
    proof {
        assert(t@ == old(t)@.insert(p as int, x));
        assert forall|i: int, j: int| 0 <= i < j < t@.len() implies t@[i] < t@[j] by {
            if j < p {
            } else if j == p {
            } else if i < p {
                assert(t@[j] == old(t)@[j - 1]);
                if p < old(t)@.len() {
                    assert(old(t)@[p as int] > x);
                }
            } else if i == p {
                assert(t@[j] == old(t)@[j - 1]);
                assert(old(t)@[p as int] >= x);
            } else {
                assert(t@[j] == old(t)@[j - 1]);
                assert(t@[i] == old(t)@[i - 1]);
            }
        }
        assert(t@.to_set() =~= old(t)@.to_set().insert(x)) by {
            assert forall|y: u32| t@.to_set().contains(y) <==> old(t)@.to_set().insert(x).contains(y) by {
                if t@.contains(y) {
                    let k = choose|k: int| 0 <= k < t@.len() && t@[k] == y;
                    if k < p {
                        assert(old(t)@[k] == y);
                    } else if k > p {
                        assert(old(t)@[k - 1] == y);
                    }
                }
                if old(t)@.contains(y) {
                    let k = choose|k: int| 0 <= k < old(t)@.len() && old(t)@[k] == y;
                    if k < p {
                        assert(t@[k] == y);
                    } else {
                        assert(t@[k + 1] == y);
                    }
                }
                if y == x {
                    assert(t@[p as int] == x);
                }
            }
        }
    }
}

/// Posición del código en la tabla más uno, o 0 si no está.
pub open spec fn rango_en_tabla(t: Seq<u32>, x: int) -> int {
    if exists|k: int| 0 <= k < t.len() && t[k] == x {
        1 + choose|k: int| 0 <= k < t.len() && t[k] == x
    } else {
        0
    }
}

/// Posición del código en la tabla creciente más uno, o 0 si no está.
fn buscar(t: &Vec<u32>, x: u32) -> (r: u64)
    requires
        creciente(t@),
    ensures
        r == rango_en_tabla(t@, x as int),
        r <= t@.len(),
{
    for k in 0..t.len()
        invariant
            creciente(t@),
            forall|j: int| 0 <= j < k ==> t@[j] != x,
    {
        if t[k] == x {
            proof {
                assert(0 <= k < t@.len() && t@[k as int] == x);
                let c = choose|j: int| 0 <= j < t@.len() && t@[j] == x;
                assert(0 <= c < t@.len() && t@[c] == x);
                if c != k {
                    if c < k {
                        assert(t@[c] < t@[k as int]);
                    } else {
                        assert(t@[k as int] < t@[c]);
                    }
                }
            }
            return (k + 1) as u64;
        }
    }
    0
}

} // verus!

verus! {

/// Códigos de las jugadas abstractas que tienen en el lance las manos recibidas.
pub open spec fn codigos(manos: Seq<Seq<Carta>>, l: Lance) -> Set<u32> {
    Set::new(
        |x: u32|
            exists|h: int|
                0 <= h < manos.len() && #[trigger] abstraccion(manos[h], l) is Some
                    && codigo_abstracto(abstraccion(manos[h], l).unwrap()) == x as int,
    )
}

proof fn lema_codigos_push(manos: Seq<Seq<Carta>>, m: Seq<Carta>, l: Lance)
    ensures
        codigos(manos.push(m), l) == (match abstraccion(m, l) {
            Some(j) => codigos(manos, l).insert(codigo_abstracto(j) as u32),
            None => codigos(manos, l),
        }),
{
    let nuevas = manos.push(m);
    let esperado = match abstraccion(m, l) {
        Some(j) => codigos(manos, l).insert(codigo_abstracto(j) as u32),
        None => codigos(manos, l),
    };
    assert forall|x: u32| codigos(nuevas, l).contains(x) implies esperado.contains(x) by {
        let h = choose|h: int|
            0 <= h < nuevas.len() && #[trigger] abstraccion(nuevas[h], l) is Some
                && codigo_abstracto(abstraccion(nuevas[h], l).unwrap()) == x as int;
        if h < manos.len() {
            assert(nuevas[h] == manos[h]);
            assert(codigos(manos, l).contains(x));
        } else {
            assert(nuevas[h] == m);
        }
    }
    assert forall|x: u32| esperado.contains(x) implies codigos(nuevas, l).contains(x) by {
        if codigos(manos, l).contains(x) {
            let h = choose|h: int|
                0 <= h < manos.len() && #[trigger] abstraccion(manos[h], l) is Some
                    && codigo_abstracto(abstraccion(manos[h], l).unwrap()) == x as int;
            assert(nuevas[h] == manos[h]);
        } else {
            let k = manos.len() as int;
            assert(nuevas[k] == m);
            match abstraccion(m, l) {
                Some(j) => {
                    assert(0 <= codigo_abstracto(j) < 1024) by {
                        lema_codigo_cota(j);
                    }
                    assert(abstraccion(nuevas[k], l) is Some);
                },
                None => {},
            }
        }
    }
    assert(codigos(nuevas, l) =~= esperado);
}

proof fn lema_codigo_cota(j: AbstractJugada)
    ensures
        0 <= codigo_abstracto(j) < 1024,
{
}

/// Número de combinaciones con repetición de `k` elementos escogidos entre `m` valores.
pub open spec fn num_combinaciones(m: int, k: nat) -> nat
    decreases k, m,
{
    if k == 0 {
        1
    } else if m <= 0 {
        0
    } else {
        num_combinaciones(m, (k - 1) as nat) + num_combinaciones(m - 1, k)
    }
}

/// Las combinaciones que empiezan en el valor `v` son tantas como las de `k` elementos entre los
/// valores que quedan.
pub proof fn lema_num_combinaciones(n: int, pre: Seq<int>, v: int, k: nat)
    requires
        0 <= v,
    ensures
        combinaciones_desde(n, pre, v, k).len() == num_combinaciones(n - v, k),
    decreases k, n - v,
{
    if k > 0 && v < n {
        lema_num_combinaciones(n, pre.push(v), v, (k - 1) as nat);
        lema_num_combinaciones(n, pre, v + 1, k);
    }
}

/// Hay 330 manos distintas en la baraja de mus.
pub proof fn lema_num_manos_mus()
    ensures
        manos_mus().len() == 330,
{
    lema_num_combinaciones(8, Seq::empty(), 0, 4);
    reveal_with_fuel(num_combinaciones, 2);
    assert(num_combinaciones(0, 1) == 0);
    assert(num_combinaciones(1, 1) == 1);
    assert(num_combinaciones(2, 1) == 2);
    assert(num_combinaciones(3, 1) == 3);
    assert(num_combinaciones(4, 1) == 4);
    assert(num_combinaciones(5, 1) == 5);
    assert(num_combinaciones(6, 1) == 6);
    assert(num_combinaciones(7, 1) == 7);
    assert(num_combinaciones(8, 1) == 8);
    assert(num_combinaciones(0, 2) == 0);
    assert(num_combinaciones(1, 2) == 1);
    assert(num_combinaciones(2, 2) == 3);
    assert(num_combinaciones(3, 2) == 6);
    assert(num_combinaciones(4, 2) == 10);
    assert(num_combinaciones(5, 2) == 15);
    assert(num_combinaciones(6, 2) == 21);
    assert(num_combinaciones(7, 2) == 28);
    assert(num_combinaciones(8, 2) == 36);
    assert(num_combinaciones(0, 3) == 0);
    assert(num_combinaciones(1, 3) == 1);
    assert(num_combinaciones(2, 3) == 4);
    assert(num_combinaciones(3, 3) == 10);
    assert(num_combinaciones(4, 3) == 20);
    assert(num_combinaciones(5, 3) == 35);
    assert(num_combinaciones(6, 3) == 56);
    assert(num_combinaciones(7, 3) == 84);
    assert(num_combinaciones(8, 3) == 120);
    assert(num_combinaciones(0, 4) == 0);
    assert(num_combinaciones(1, 4) == 1);
    assert(num_combinaciones(2, 4) == 5);
    assert(num_combinaciones(3, 4) == 15);
    assert(num_combinaciones(4, 4) == 35);
    assert(num_combinaciones(5, 4) == 70);
    assert(num_combinaciones(6, 4) == 126);
    assert(num_combinaciones(7, 4) == 210);
    assert(num_combinaciones(8, 4) == 330);
}


/// Manos de cuatro cartas de la baraja de mus que recorre el iterador de cartas.
pub open spec fn manos_mus() -> Seq<Seq<Carta>> {
    combinaciones_desde(8, Seq::empty(), 0, 4).map_values(
        |c: Seq<int>| c.map_values(|i: int| Carta::CARTAS_MUS@[i]),
    )
}

/// Tablas de las jugadas abstractas de grande, chica, pares, juego y punto: en cada una, los
/// códigos de las jugadas que se pueden dar con una mano de la baraja de mus, de menor a mayor.
/// La posición de una jugada en su tabla la identifica en los conjuntos de información.
pub fn abstract_hands_table() -> (t: Vec<Vec<u32>>)
    ensures
        t@.len() == 5,
        forall|i: int| 0 <= i < 5 ==> creciente(#[trigger] t@[i]@) && t@[i]@.len() <= 330,
        exists|manos: Seq<Seq<Carta>>|
            {
                &&& manos.len() == manos_mus().len()
                &&& forall|h: int|
                    0 <= h < manos.len() ==> mano_ordenada_de(#[trigger] manos[h], manos_mus()[h])
                        && manos[h].len() == 4
                &&& t@[0]@.to_set() == codigos(manos, Lance::Grande)
                &&& t@[1]@.to_set() == codigos(manos, Lance::Chica)
                &&& t@[2]@.to_set() == codigos(manos, Lance::Pares)
                &&& t@[3]@.to_set() == codigos(manos, Lance::Juego)
                &&& t@[4]@.to_set() == codigos(manos, Lance::Punto)
            },
{
    let mut grande: Vec<u32> = Vec::new();
    let mut chica: Vec<u32> = Vec::new();
    let mut pares: Vec<u32> = Vec::new();
    let mut juego: Vec<u32> = Vec::new();
    let mut punto: Vec<u32> = Vec::new();
    let cartas_mus = Carta::CARTAS_MUS;
    let mut it = CartaIter::new(&cartas_mus, 4);
    let ghost mut manos: Seq<Seq<Carta>> = Seq::empty();
    proof {
        assert(cartas_mus@ == Carta::CARTAS_MUS@);
        assert(it.pendientes() == manos_mus());
        assert(codigos(manos, Lance::Grande) =~= Set::<u32>::empty());
        assert(codigos(manos, Lance::Chica) =~= Set::<u32>::empty());
        assert(codigos(manos, Lance::Pares) =~= Set::<u32>::empty());
        assert(codigos(manos, Lance::Juego) =~= Set::<u32>::empty());
        assert(codigos(manos, Lance::Punto) =~= Set::<u32>::empty());
        assert(grande@.to_set() =~= Set::<u32>::empty());
        assert(chica@.to_set() =~= Set::<u32>::empty());
        assert(pares@.to_set() =~= Set::<u32>::empty());
        assert(juego@.to_set() =~= Set::<u32>::empty());
        assert(punto@.to_set() =~= Set::<u32>::empty());
        lema_combinaciones_mus();
    }
    loop
        invariant
            manos.len() + it.pendientes().len() == manos_mus().len(),
            it.pendientes() == manos_mus().skip(manos.len() as int),
            forall|k: int| 0 <= k < manos_mus().len() ==> (#[trigger] manos_mus()[k]).len() == 4,
            forall|h: int|
                0 <= h < manos.len() ==> mano_ordenada_de(#[trigger] manos[h], manos_mus()[h])
                    && manos[h].len() == 4,
            creciente(grande@),
            creciente(chica@),
            creciente(pares@),
            creciente(juego@),
            creciente(punto@),
            grande@.len() <= manos.len(),
            chica@.len() <= manos.len(),
            pares@.len() <= manos.len(),
            juego@.len() <= manos.len(),
            punto@.len() <= manos.len(),
            grande@.to_set() == codigos(manos, Lance::Grande),
            chica@.to_set() == codigos(manos, Lance::Chica),
            pares@.to_set() == codigos(manos, Lance::Pares),
            juego@.to_set() == codigos(manos, Lance::Juego),
            punto@.to_set() == codigos(manos, Lance::Punto),
        ensures
            manos.len() == manos_mus().len(),
            forall|h: int|
                0 <= h < manos.len() ==> mano_ordenada_de(#[trigger] manos[h], manos_mus()[h])
                    && manos[h].len() == 4,
            creciente(grande@),
            creciente(chica@),
            creciente(pares@),
            creciente(juego@),
            creciente(punto@),
            grande@.len() <= manos.len(),
            chica@.len() <= manos.len(),
            pares@.len() <= manos.len(),
            juego@.len() <= manos.len(),
            punto@.len() <= manos.len(),
            grande@.to_set() == codigos(manos, Lance::Grande),
            chica@.to_set() == codigos(manos, Lance::Chica),
            pares@.to_set() == codigos(manos, Lance::Pares),
            juego@.to_set() == codigos(manos, Lance::Juego),
            punto@.to_set() == codigos(manos, Lance::Punto),
        decreases it.pendientes().len(),
    {
        let ghost antes = it.pendientes();
        let cartas = match it.next() {
            Some(c) => c,
            None => break,
        };
        proof {
            assert(cartas@ == manos_mus()[manos.len() as int]);
        }
        let mano = Mano::new([cartas[0], cartas[1], cartas[2], cartas[3]]);
        proof {
            assert([cartas[0], cartas[1], cartas[2], cartas[3]]@ =~= cartas@);
        }
        if let Some(j) = AbstractJugada::to_abstract(&mano, &Lance::Grande) {
            insertar_ordenado(&mut grande, codigo_jugada(&j));
        }
        if let Some(j) = AbstractJugada::to_abstract(&mano, &Lance::Chica) {
            insertar_ordenado(&mut chica, codigo_jugada(&j));
        }
        if let Some(j) = AbstractJugada::to_abstract(&mano, &Lance::Pares) {
            insertar_ordenado(&mut pares, codigo_jugada(&j));
        }
        if let Some(j) = AbstractJugada::to_abstract(&mano, &Lance::Juego) {
            insertar_ordenado(&mut juego, codigo_jugada(&j));
        }
        if let Some(j) = AbstractJugada::to_abstract(&mano, &Lance::Punto) {
            insertar_ordenado(&mut punto, codigo_jugada(&j));
        }
        proof {
            lema_codigos_push(manos, mano@, Lance::Grande);
            lema_codigos_push(manos, mano@, Lance::Chica);
            lema_codigos_push(manos, mano@, Lance::Pares);
            lema_codigos_push(manos, mano@, Lance::Juego);
            lema_codigos_push(manos, mano@, Lance::Punto);
            manos = manos.push(mano@);
            assert(it.pendientes() =~= manos_mus().skip(manos.len() as int));
        }
    }
    proof {
        lema_num_manos_mus();
    }
    let mut t: Vec<Vec<u32>> = Vec::new();
    t.push(grande);
    t.push(chica);
    t.push(pares);
    t.push(juego);
    t.push(punto);
    t
}

/// Las manos de la baraja de mus tienen cuatro cartas.
proof fn lema_combinaciones_mus()
    ensures
        forall|k: int| 0 <= k < manos_mus().len() ==> (#[trigger] manos_mus()[k]).len() == 4,
{
    lema_longitud_combinaciones(8, Seq::empty(), 0, 4);
}

proof fn lema_longitud_combinaciones(n: int, pre: Seq<int>, v: int, k: nat)
    ensures
        forall|i: int|
            0 <= i < combinaciones_desde(n, pre, v, k).len() ==> (#[trigger] combinaciones_desde(
                n,
                pre,
                v,
                k,
            )[i]).len() == pre.len() + k,
    decreases k, n - v,
{
    if k > 0 && 0 <= v < n {
        lema_longitud_combinaciones(n, pre.push(v), v, (k - 1) as nat);
        lema_longitud_combinaciones(n, pre, v + 1, k);
        let a = combinaciones_desde(n, pre.push(v), v, (k - 1) as nat);
        let b = combinaciones_desde(n, pre, v + 1, k);
        assert forall|i: int| 0 <= i < (a + b).len() implies (#[trigger] (a + b)[i]).len() == pre.len() + k by {
            if i < a.len() {
                assert((a + b)[i] == a[i]);
            } else {
                assert((a + b)[i] == b[i - a.len()]);
            }
        }
    }
}

} // verus!

verus! {

/// Caminos como secuencias de índices.
pub open spec fn vista_caminos(out: Seq<Vec<u8>>) -> Seq<Seq<u8>> {
    out.map_values(|s: Vec<u8>| s@)
}

/// Acciones que se ofrecen en el estado del lance.
pub open spec fn acciones_estado(estado: EstadoLance) -> Seq<Accion> {
    acciones_envite_spec(estado.ultima_apuesta_spec(), estado.apuesta_maxima_spec())
}

/// Caminos, precedidos de `camino`, de todas las formas de acabar los envites desde `estado`
/// empezando por una de sus `i` primeras acciones, en el orden en que se ofrecen: cada camino
/// lleva el índice canónico de cada acción jugada.
pub open spec fn caminos_envite(estado: EstadoLance, camino: Seq<u8>, i: int) -> Seq<Seq<u8>>
    decreases estado.medida(), i,
{
    if i <= 0 {
        Seq::empty()
    } else {
        let a = acciones_estado(estado)[i - 1];
        let c = camino.push(indice_canonico(a) as u8);
        caminos_envite(estado, camino, i - 1) + match estado.paso(a) {
            Ok((e, Some(_))) => if e.medida() < estado.medida() {
                caminos_envite(e, c, acciones_estado(e).len() as int)
            } else {
                Seq::empty()
            },
            Ok((_, None)) => seq![c],
            Err(_) => Seq::empty(),
        }
    }
}

/// Todos los caminos de los envites de un lance de grande entre dos jugadores, uno con cuatro
/// reyes y otro con un rey y tres ases, con cuarenta tantos en juego.
pub open spec fn caminos_lance() -> Seq<Seq<u8>> {
    let estado = EstadoLance::inicial(
        Lance::Grande,
        seq![
            seq![Carta::Rey, Carta::Rey, Carta::Rey, Carta::Rey],
            seq![Carta::Rey, Carta::As, Carta::As, Carta::As],
        ],
        40,
    );
    caminos_envite(estado, Seq::empty(), acciones_estado(estado).len() as int)
}

/// Las acciones que se ofrecen ante una apuesta tienen índice canónico, los envites son pequeños
/// y suben la apuesta, y no se echa órdago sobre un órdago.
proof fn lema_accion_ofrecida(ultimo: Apuesta, maxima: u8, i: int)
    requires
        ultimo matches Apuesta::Tantos(t) ==> t <= maxima,
        0 <= i < acciones_envite_spec(ultimo, maxima).len(),
    ensures
        ({
            let a = acciones_envite_spec(ultimo, maxima)[i];
            &&& crate::solver::canonica(a)
            &&& a is Paso || a is Quiero || a is Envido || a is Ordago
            &&& a matches Accion::Envido(n) ==> (n <= 10 && (ultimo matches Apuesta::Tantos(t) && t
                < maxima))
            &&& a is Ordago ==> ultimo is Tantos
        }),
{
}

/// Añade a `out` las secuencias de índices canónicos de todas las formas de acabar los envites
/// desde `estado`, precedidas de `camino`, en el orden en que se ofrecen las acciones.
fn recorrer(estado: EstadoLance, camino: &mut Vec<u8>, out: &mut Vec<Vec<u8>>)
    requires
        estado.sin_parejas(),
        estado.turno_spec() is Some,
        estado.apuesta_maxima_spec() <= 40,
        forall|k: int| 0 <= k < old(camino)@.len() ==> #[trigger] old(camino)@[k] < 6,
        caminos_validos(vista_caminos(old(out)@)),
    ensures
        final(camino)@ == old(camino)@,
        caminos_validos(vista_caminos(final(out)@)),
        vista_caminos(final(out)@) == vista_caminos(old(out)@) + caminos_envite(
            estado,
            old(camino)@,
            acciones_estado(estado).len() as int,
        ),
    decreases estado.medida(),
{
    let ultimo = estado.ultima_apuesta();
    let maxima = estado.apuesta_maxima();
    let acciones = actions_envite(ultimo, maxima);
    let n = acciones_len(&acciones);
    for i in 0..n
        invariant
            n == acciones_de(acciones).len(),
            acciones_de(acciones) == acciones_envite_spec(ultimo, maxima),
            ultimo == estado.ultima_apuesta_spec(),
            maxima == estado.apuesta_maxima_spec(),
            ultimo matches Apuesta::Tantos(t) ==> t <= maxima,
            estado.sin_parejas(),
            estado.turno_spec() is Some,
            maxima <= 40,
            camino@ == old(camino)@,
            forall|k: int| 0 <= k < camino@.len() ==> #[trigger] camino@[k] < 6,
            caminos_validos(vista_caminos(out@)),
            vista_caminos(out@) == vista_caminos(old(out)@) + caminos_envite(
                estado,
                old(camino)@,
                i as int,
            ),
    {
        let a = acciones_get(&acciones, i);
        proof {
            lema_accion_ofrecida(ultimo, maxima, i as int);
            estado.lema_admite(a);
            estado.lema_paso_ok(a);
        }
        let codigo = canonical_envite_action(a) as u8;
        camino.push(codigo);
        let mut nuevo = estado;
        let r = nuevo.actuar(a);
        match r {
            Ok(Some(_)) => {
                let ghost e = nuevo;
                let ghost c = camino@;
                let ghost previo = vista_caminos(out@);
                proof {
                    assert(acciones_estado(estado)[i as int] == a);
                    assert(c == old(camino)@.push(indice_canonico(a) as u8));
                    assert(estado.paso(a) matches Ok((e2, Some(_))) && e2 == e);
                    assert(e.medida() < estado.medida());
                    assert(previo == vista_caminos(old(out)@) + caminos_envite(
                        estado,
                        old(camino)@,
                        i as int,
                    ));
                }
                recorrer(nuevo, camino, out);
                proof {
                    assert(vista_caminos(out@) == previo + caminos_envite(e, c, acciones_estado(e).len() as int));
                    assert(caminos_envite(estado, old(camino)@, i + 1) == caminos_envite(
                        estado,
                        old(camino)@,
                        i as int,
                    ) + caminos_envite(e, c, acciones_estado(e).len() as int));
                    let o = vista_caminos(old(out)@);
                    let ci = caminos_envite(estado, old(camino)@, i as int);
                    let x = caminos_envite(e, c, acciones_estado(e).len() as int);
                    assert((o + ci) + x =~= o + (ci + x));
                    assert(vista_caminos(out@) == o + caminos_envite(estado, old(camino)@, i + 1));
                }
            },
            Ok(None) => {
                let copia = camino.clone();
                proof {
                    assert(copia@ =~= camino@);
                }
                let ghost antes = out@;
                proof {
                    assert(acciones_estado(estado)[i as int] == a);
                    assert(estado.paso(a) matches Ok((_, None)));
                    assert(caminos_envite(estado, old(camino)@, i + 1) == caminos_envite(
                        estado,
                        old(camino)@,
                        i as int,
                    ) + seq![camino@]);
                }
                out.push(copia);
                proof {
                    assert forall|j: int, k: int|
                        0 <= j < vista_caminos(out@).len() && 0 <= k < vista_caminos(out@)[j].len() implies #[trigger] vista_caminos(out@)[j][k] < 6 by {
                        if j < antes.len() {
                            assert(out@[j] == antes[j]);
                            assert(vista_caminos(antes)[j][k] < 6);
                        }
                    }
                    let o = vista_caminos(old(out)@);
                    let ci = caminos_envite(estado, old(camino)@, i as int);
                    assert(vista_caminos(antes) == o + ci);
                    assert(vista_caminos(out@) =~= vista_caminos(antes).push(copia@));
                    assert((o + ci).push(camino@) =~= o + (ci + seq![camino@]));
                    assert(vista_caminos(out@) == o + caminos_envite(estado, old(camino)@, i + 1));
                }
            },
            Err(_) => {
                proof {
                    assert(false);
                }
            },
        }
        camino.pop();
        proof {
            assert(camino@ =~= old(camino)@);
        }
    }
}

/// Secuencias de índices canónicos de todas las formas de jugar los envites de un lance entre
/// dos jugadores con cuarenta tantos en juego.
pub fn sequences_lance() -> (out: Vec<Vec<u8>>)
    ensures
        caminos_validos(vista_caminos(out@)),
        vista_caminos(out@) == caminos_lance(),
{
    let manos = [
        Mano::new_unsorted([Carta::Rey, Carta::Rey, Carta::Rey, Carta::Rey]),
        Mano::new_unsorted([Carta::Rey, Carta::As, Carta::As, Carta::As]),
    ];
    proof {
        assert(crate::mus::manos_de_partida(crate::mus::vistas(manos@))) by {
            assert(crate::mus::vistas(manos@)[0] == manos@[0]@);
            assert(crate::mus::vistas(manos@)[1] == manos@[1]@);
        }
        EstadoLance::lema_dos_manos(Lance::Grande, crate::mus::vistas(manos@), 40);
    }
    let estado = EstadoLance::new(&Lance::Grande, &manos, 40);
    let mut out: Vec<Vec<u8>> = Vec::new();
    let mut camino: Vec<u8> = Vec::new();
    proof {
        assert(vista_caminos(out@) =~= Seq::<Seq<u8>>::empty());
    }
    proof {
        assert(crate::mus::vistas(manos@) =~= seq![
            seq![Carta::Rey, Carta::Rey, Carta::Rey, Carta::Rey],
            seq![Carta::Rey, Carta::As, Carta::As, Carta::As],
        ]);
    }
    recorrer(estado, &mut camino, &mut out);
    proof {
        assert(vista_caminos(out@) =~= caminos_lance());
    }
    out
}

} // verus!

verus! {

/// Posición del lance en las tablas de jugadas abstractas.
pub open spec fn indice_abstracto(l: Lance) -> int {
    match l {
        Lance::Grande => 0,
        Lance::Chica => 1,
        Lance::Pares => 2,
        Lance::Juego => 3,
        Lance::Punto => 4,
    }
}

/// Posición y anchura de cada campo de un conjunto de información.
#[derive(Debug, Clone, Copy)]
pub struct Disposicion {
    pub mano: BitField,
    pub descartes: BitField,
    pub jugadas_pares: BitField,
    pub jugadas_juego: BitField,
    pub history_mus: BitField,
    pub history_descartes: BitField,
    pub history_lance: [BitField; 4],
    pub hidden_action: BitField,
}

/// Posición y anchura de los campos con árboles de mus y de envites cuyos nodos se escriben
/// con `wm` y `wl` bits. En la parte privada, la mano y los descartes; en la pública, las
/// jugadas de pares y juego, el historial de mus, el de descartes, el de cada lance y la acción
/// oculta, uno tras otro.
pub open spec fn disposicion(wm: nat, wl: nat) -> Disposicion {
    Disposicion {
        mano: BitField { width: 9, offset: 0 },
        descartes: BitField { width: 9, offset: 9 },
        jugadas_pares: BitField { width: 4, offset: 0 },
        jugadas_juego: BitField { width: 4, offset: 4 },
        history_mus: BitField { width: wm as u32, offset: 8 },
        history_descartes: BitField { width: 9, offset: (8 + wm) as u32 },
        history_lance: [
            BitField { width: wl as u32, offset: (17 + wm) as u32 },
            BitField { width: wl as u32, offset: (17 + wm + wl) as u32 },
            BitField { width: wl as u32, offset: (17 + wm + 2 * wl) as u32 },
            BitField { width: wl as u32, offset: (17 + wm + 3 * wl) as u32 },
        ],
        hidden_action: BitField { width: 3, offset: (17 + wm + 4 * wl) as u32 },
    }
}

/// Tablas bien construidas: el árbol de mus es el de sus tres secuencias, el de envites es un
/// árbol válido, y los campos se disponen según la anchura de los nodos de cada árbol, que no
/// pasa de ocho bits.
pub open spec fn tablas_validas(t: MusInfoSetTables) -> bool {
    &&& t.arbol_mus() == arbol_de(caminos_mus(), 3)
    &&& arbol_valido(t.arbol_mus())
    &&& arbol_valido(t.arbol_lance())
    &&& anchura(t.arbol_mus().len()) <= 8
    &&& anchura(t.arbol_lance().len()) <= 8
    &&& t.campos() == disposicion(anchura(t.arbol_mus().len()), anchura(t.arbol_lance().len()))
}

/// El campo `b` empieza justo donde acaba `a`.
pub open spec fn sigue(a: BitField, b: BitField) -> bool {
    b.offset == a.offset + a.width
}

/// Los campos de unas tablas válidas van uno tras otro, sin huecos ni solapes, y caben en 64
/// bits: en la parte privada, la mano desde el bit 0 y los descartes; en la pública, desde el
/// bit 0, las jugadas de pares y de juego, el historial de mus (tres bits para los cinco nodos de
/// su árbol), el de descartes, el de cada lance y la acción oculta, que acaba como mucho en el
/// bit 55.
pub proof fn lema_campos_contiguos(t: MusInfoSetTables)
    requires
        tablas_validas(t),
    ensures
        t.campos().mano.offset == 0,
        sigue(t.campos().mano, t.campos().descartes),
        t.campos().descartes.offset + t.campos().descartes.width <= 64,
        t.campos().jugadas_pares.offset == 0,
        sigue(t.campos().jugadas_pares, t.campos().jugadas_juego),
        sigue(t.campos().jugadas_juego, t.campos().history_mus),
        sigue(t.campos().history_mus, t.campos().history_descartes),
        sigue(t.campos().history_descartes, t.campos().history_lance[0]),
        sigue(t.campos().history_lance[0], t.campos().history_lance[1]),
        sigue(t.campos().history_lance[1], t.campos().history_lance[2]),
        sigue(t.campos().history_lance[2], t.campos().history_lance[3]),
        sigue(t.campos().history_lance[3], t.campos().hidden_action),
        t.campos().history_mus.width == 3,
        t.campos().hidden_action.offset + t.campos().hidden_action.width <= 55,
{
    lema_arbol_mus();
    assert(arbol_mus_completo().len() == 5);
    reveal_with_fuel(anchura, 4);
    assert(anchura(5) == 3);
}

/// Con a lo sumo 128 nodos, el índice de un nodo se escribe con ocho bits.
pub proof fn lema_anchura_ocho(n: nat)
    requires
        n <= LIMITE_NODOS,
    ensures
        anchura(n) <= 8,
{
    reveal_with_fuel(crate::mus::potencia2, 9);
    lema_anchura_potencia(n, 8);
}

/// Un número menor que `n` cabe en los bits con que se escribe `n`.
pub proof fn lema_cabe_en_anchura(m: nat, n: nat)
    requires
        m < n,
    ensures
        m < crate::mus::potencia2(anchura(n)),
{
    lema_menor_potencia(n);
}

proof fn lema_menor_potencia(n: nat)
    ensures
        n < crate::mus::potencia2(anchura(n)),
    decreases n,
{
    if n > 0 {
        lema_menor_potencia(n / 2);
        assert(crate::mus::potencia2(anchura(n / 2) + 1) == 2 * crate::mus::potencia2(
            anchura(n / 2),
        ));
    }
}

/// Árbol de la fase de mus: desde la raíz, cortar lleva al nodo 1 y pedir mus al 2; desde el 2,
/// cortar lleva al 3 y pedir mus otra vez al 4.
pub open spec fn arbol_mus_completo() -> Seq<Seq<int>> {
    seq![
        seq![1, 2, -1, -1, -1, -1],
        fila_vacia(),
        seq![3, 4, -1, -1, -1, -1],
        fila_vacia(),
        fila_vacia(),
    ]
}

/// El árbol de las secuencias de mus es [`arbol_mus_completo`].
pub proof fn lema_arbol_mus()
    ensures
        arbol_de(caminos_mus(), 3) == arbol_mus_completo(),
{
    let c = caminos_mus();
    let f = fila_vacia();
    let a0 = seq![f];
    let a1 = seq![f.update(0, 1), f];
    let b2 = seq![f.update(0, 1).update(1, 2), f, f];
    let a2 = seq![f.update(0, 1).update(1, 2), f, f.update(0, 3), f];
    let a3 = arbol_mus_completo();
    reveal_with_fuel(arbol_de, 4);
    assert(arbol_de(c, 0) == a0);
    assert(a0.push(f).update(0, a0[0].update(0, 1)) =~~= a1);
    assert(insertar_camino(a1, c[0], 1, 1) == a1);
    assert(insertar_camino(a0, c[0], 0, 0) == a1);
    assert(arbol_de(c, 1) == a1);
    assert(a1.push(f).update(0, a1[0].update(1, 2)) =~~= b2);
    assert(b2.push(f).update(2, b2[2].update(0, 3)) =~~= a2);
    assert(insertar_camino(a2, c[1], 2, 3) == a2);
    assert(insertar_camino(b2, c[1], 1, 2) == a2);
    assert(insertar_camino(a1, c[1], 0, 0) == a2);
    assert(arbol_de(c, 2) == a2);
    assert(a2.push(f).update(2, a2[2].update(1, 4)) =~~= a3);
    assert(insertar_camino(a3, c[2], 2, 4) == a3);
    assert(insertar_camino(a2, c[2], 1, 2) == a3);
    assert(insertar_camino(a2, c[2], 0, 0) == a3);
    assert(arbol_de(c, 3) == a3);
}

/// Tablas con las que se codifican los conjuntos de información de las partidas: la posición y
/// anchura de cada campo, los números combinatorios con que se numeran las manos, los árboles de
/// las secuencias de mus y de envites, y las tablas de jugadas abstractas si el juego es
/// abstracto.
#[derive(Debug)]
pub struct MusInfoSetTables {
    campos: Disposicion,
    combinations: [[u64; 5]; 12],
    mus_sequence: BettingSequence,
    lance_sequence: BettingSequence,
    abstract_hands: Option<Vec<Vec<u32>>>,
}

/// Secuencias de la fase de mus: cortar, o pedir mus y después cortar o pedir otra vez.
pub open spec fn caminos_mus() -> Seq<Seq<u8>> {
    seq![seq![0u8], seq![1u8, 0u8], seq![1u8, 1u8]]
}

impl MusInfoSetTables {
    #[verifier::type_invariant]
    spec fn inv(self) -> bool {
        &&& forall|n: int, k: int|
            0 <= n < 12 && 0 <= k < 5 ==> #[trigger] self.combinations[n][k] == binom(
                n as nat,
                k as nat,
            )
        &&& self.abstract_hands matches Some(t) ==> t@.len() == 5 && forall|i: int|
            0 <= i < 5 ==> creciente(#[trigger] t@[i]@) && t@[i]@.len() <= 330
    }

    /// Posición y anchura de los campos.
    pub closed spec fn campos(self) -> Disposicion {
        self.campos
    }

    /// Posición y anchura de los campos.
    pub fn disposicion(&self) -> (d: Disposicion)
        ensures
            d == self.campos(),
    {
        self.campos
    }

    /// Árbol de las secuencias de la fase de mus.
    pub closed spec fn arbol_mus(self) -> Seq<Seq<int>> {
        self.mus_sequence@
    }

    /// Árbol de las secuencias de envites.
    pub closed spec fn arbol_lance(self) -> Seq<Seq<int>> {
        self.lance_sequence@
    }

    /// Tablas de jugadas abstractas, si el juego es abstracto.
    pub closed spec fn tablas_abstractas(self) -> Option<Seq<Seq<u32>>> {
        match self.abstract_hands {
            Some(t) => Some(t@.map_values(|v: Vec<u32>| v@)),
            None => None,
        }
    }

    /// Código de la mano en el lance: su posición en la tabla de jugadas abstractas del lance,
    /// empezando en 1 (0 si no tiene jugada), o, si el juego no es abstracto, el rango de sus
    /// cartas.
    pub open spec fn codigo_mano(self, m: Seq<Carta>, l: Lance) -> int {
        match self.tablas_abstractas() {
            Some(t) => match abstraccion(m, l) {
                Some(j) => rango_en_tabla(t[indice_abstracto(l)], codigo_abstracto(j)),
                None => 0,
            },
            None => rango_completo(m) as int,
        }
    }

    /// Construye las tablas, con las de jugadas abstractas solo si el juego es abstracto.
    pub fn new(abstract_game: bool) -> (t: Self)
        ensures
            tablas_validas(t),
            t.tablas_abstractas() is Some == abstract_game,
    {
        let combinations = combinations_table();
        let mut caminos: Vec<Vec<u8>> = Vec::new();
        caminos.push(vec![0u8]);
        caminos.push(vec![1u8, 0u8]);
        caminos.push(vec![1u8, 1u8]);
        proof {
            assert(caminos@[0]@ =~= seq![0u8]);
            assert(caminos@[1]@ =~= seq![1u8, 0u8]);
            assert(caminos@[2]@ =~= seq![1u8, 1u8]);
            assert(vista_caminos(caminos@) =~= caminos_mus());
        }
        let mus_sequence = BettingSequence::from_sequences(&caminos);
        let secuencias = sequences_lance();
        let lance_sequence = BettingSequence::from_sequences(&secuencias);
        let abstract_hands = if abstract_game {
            Some(abstract_hands_table())
        } else {
            None
        };
        let ancho_mus = bits_de(mus_sequence.num_nodes());
        let ancho_lance = bits_de(lance_sequence.num_nodes());
        proof {
            use_type_invariant(&mus_sequence);
            use_type_invariant(&lance_sequence);
            lema_anchura_ocho(mus_sequence@.len());
            lema_anchura_ocho(lance_sequence@.len());
        }
        let offset = 8 + ancho_mus;
        let history_descartes = BitField { width: 9, offset };
        let offset = offset + 9;
        let history_lance = [
            BitField { width: ancho_lance, offset },
            BitField { width: ancho_lance, offset: offset + ancho_lance },
            BitField { width: ancho_lance, offset: offset + 2 * ancho_lance },
            BitField { width: ancho_lance, offset: offset + 3 * ancho_lance },
        ];
        let hidden_action = BitField { width: 3, offset: offset + 4 * ancho_lance };
        let campos = Disposicion {
            mano: BitField { width: 9, offset: 0 },
            descartes: BitField { width: 9, offset: 9 },
            jugadas_pares: BitField { width: 4, offset: 0 },
            jugadas_juego: BitField { width: 4, offset: 4 },
            history_mus: BitField { width: ancho_mus, offset: 8 },
            history_descartes,
            history_lance,
            hidden_action,
        };
        proof {
            assert(campos == disposicion(ancho_mus as nat, ancho_lance as nat));
        }
        MusInfoSetTables {
            campos,
            combinations,
            mus_sequence,
            lance_sequence,
            abstract_hands,
        }
    }

    /// Rango de unas cartas, de las que hay como mucho cuatro.
    pub fn rank_complete_hand(&self, mano: &[Carta]) -> (r: u64)
        requires
            mano@.len() <= 4,
        ensures
            r == rango_completo(mano@),
            r <= 329,
    {
        proof {
            use_type_invariant(self);
            lema_rango_cota(mano@, 0);
        }
        let n = mano.len();
        let mut rank: u64 = 0;
        let mut i: usize = 0;
        while i < n
            invariant
                n == mano@.len(),
                n <= 4,
                i <= n,
                rank + rango_desde(mano@, i as int) == rango_completo(mano@),
                rango_completo(mano@) <= 329,
                forall|a: int, k: int|
                    0 <= a < 12 && 0 <= k < 5 ==> #[trigger] self.combinations[a][k] == binom(
                        a as nat,
                        k as nat,
                    ),
            decreases n - i,
        {
            let c = mano[n - 1 - i];
            let v = valor_mus(&c);
            rank = rank + self.combinations[v + i][i + 1];
            i = i + 1;
        }
        rank
    }

    /// Código de la mano de cuatro cartas en el lance: ver [`MusInfoSetTables::codigo_mano`].
    pub fn rank_hand(&self, mano: &Mano, lance: &Lance) -> (r: u64)
        requires
            mano@.len() == 4,
        ensures
            r == self.codigo_mano(mano@, *lance),
            r <= 330,
    {
        proof {
            use_type_invariant(self);
        }
        match &self.abstract_hands {
            Some(tablas) => {
                let idx = match lance {
                    Lance::Grande => 0,
                    Lance::Chica => 1,
                    Lance::Pares => 2,
                    Lance::Juego => 3,
                    Lance::Punto => 4,
                };
                match AbstractJugada::to_abstract(mano, lance) {
                    Some(j) => {
                        let r = buscar(&tablas[idx], codigo_jugada(&j));
                        proof {
                            assert(self.tablas_abstractas().unwrap()[idx as int] == tablas@[idx as int]@);
                        }
                        r
                    },
                    None => 0,
                }
            },
            None => self.rank_complete_hand(mano.cartas()),
        }
    }

    /// Siguiente nodo del árbol de mus, o -1 si no lo hay.
    pub fn paso_mus(&self, node: u32, action: Accion) -> (r: isize)
        requires
            node < self.arbol_mus().len(),
            crate::solver::canonica(action),
        ensures
            r == self.arbol_mus()[node as int][indice_canonico(action)],
            -1 <= r < self.arbol_mus().len(),
    {
        self.mus_sequence.step(node, action)
    }

    /// Siguiente nodo del árbol de envites, o -1 si no lo hay.
    pub fn paso_lance(&self, node: u32, action: Accion) -> (r: isize)
        requires
            node < self.arbol_lance().len(),
            crate::solver::canonica(action),
        ensures
            r == self.arbol_lance()[node as int][indice_canonico(action)],
            -1 <= r < self.arbol_lance().len(),
    {
        self.lance_sequence.step(node, action)
    }
}

} // verus!
