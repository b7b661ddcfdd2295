use vstd::prelude::*;
use vstd::std_specs::cmp::PartialEqSpec;

verus! {

/// Nodo del árbol de acciones de un juego en forma extensiva.
///
/// Un nodo terminal no tiene más acciones; uno no terminal tiene el jugador `P` que actúa y la
/// lista de acciones `A` posibles, cada una con el nodo al que lleva.
#[derive(Debug, PartialEq)]
pub enum ActionNode<P, A> {
    Terminal,
    NonTerminal(P, Vec<(A, ActionNode<P, A>)>),
}

impl<P, A> Default for ActionNode<P, A> {
    fn default() -> (r: Self)
        ensures
            r is Terminal,
    {
        ActionNode::Terminal
    }
}

/// Índice del primer hijo cuya acción es igual a `a`, según la igualdad de `A`.
pub open spec fn primer_hijo<P, A: PartialEq>(hijos: Seq<(A, ActionNode<P, A>)>, a: A) -> Option<
    int,
>
    decreases hijos.len(),
{
    if hijos.len() == 0 {
        None
    } else {
        match primer_hijo(hijos.drop_last(), a) {
            Some(i) => Some(i),
            None => if hijos.last().0.eq_spec(&a) {
                Some(hijos.len() - 1)
            } else {
                None
            },
        }
    }
}

/// Si un prefijo de los hijos ya tiene una acción igual a `a`, el primer hijo con esa acción es
/// el mismo en toda la lista.
pub proof fn lema_primer_hijo_prefijo<P, A: PartialEq>(
    hijos: Seq<(A, ActionNode<P, A>)>,
    k: int,
    a: A,
)
    requires
        0 <= k <= hijos.len(),
    ensures
        primer_hijo(hijos.take(k), a) is Some ==> primer_hijo(hijos, a) == primer_hijo(
            hijos.take(k),
            a,
        ),
    decreases hijos.len(),
{
    if k < hijos.len() {
        lema_primer_hijo_prefijo(hijos.drop_last(), k, a);
        assert(hijos.drop_last().take(k) =~= hijos.take(k));
    } else {
        assert(hijos.take(k) =~= hijos);
    }
}

/// Nodo al que lleva la acción `a` desde `n`, si `n` no es terminal y tiene esa acción.
pub open spec fn siguiente<P, A: PartialEq>(n: ActionNode<P, A>, a: A) -> Option<ActionNode<P, A>> {
    match n {
        ActionNode::Terminal => None,
        ActionNode::NonTerminal(_, hijos) => match primer_hijo(hijos@, a) {
            Some(i) => Some(hijos@[i].1),
            None => None,
        },
    }
}

/// Nodo al que se llega desde `n` jugando el historial `h`. Las acciones que no están en el
/// árbol se saltan.
pub open spec fn buscar<P, A: PartialEq>(n: ActionNode<P, A>, h: Seq<A>) -> ActionNode<P, A>
    decreases h.len(),
{
    if h.len() == 0 {
        n
    } else {
        let previo = buscar(n, h.drop_last());
        match siguiente(previo, h.last()) {
            Some(m) => m,
            None => previo,
        }
    }
}

/// Buscar un historial compuesto de dos partes es buscar la primera y, desde el nodo al que se
/// llega, la segunda.
pub proof fn lema_buscar_concatenado<P, A: PartialEq>(n: ActionNode<P, A>, h1: Seq<A>, h2: Seq<A>)
    ensures
        buscar(n, h1 + h2) == buscar(buscar(n, h1), h2),
    decreases h2.len(),
{
    if h2.len() == 0 {
        assert(h1 + h2 =~= h1);
    } else {
        assert((h1 + h2).drop_last() =~= h1 + h2.drop_last());
        assert((h1 + h2).last() == h2.last());
        lema_buscar_concatenado(n, h1, h2.drop_last());
    }
}

impl<P: Copy, A: Eq + Copy> ActionNode<P, A> {
    /// Nodo no terminal, sin acciones, en el que actúa el jugador `p`.
    pub fn new(p: P) -> (r: Self)
        ensures
            r matches ActionNode::NonTerminal(q, hijos) && q == p && hijos@.len() == 0,
    {
        ActionNode::NonTerminal(p, Vec::new())
    }

    /// Añade una acción que lleva a un nodo terminal. Un nodo terminal queda igual.
    pub fn add_terminal_action(&mut self, a: A)
        ensures
            match *old(self) {
                ActionNode::Terminal => *final(self) is Terminal,
                ActionNode::NonTerminal(p, hijos) => *final(self) matches ActionNode::NonTerminal(
                    q,
                    nuevos,
                ) && q == p && nuevos@ == hijos@.push((a, ActionNode::<P, A>::Terminal)),
            },
    {
        match self {
            ActionNode::NonTerminal(_, m) => {
                m.push((a, ActionNode::Terminal));
            },
            ActionNode::Terminal => {},
        }
    }

    /// Añade una acción `a` tras la que actúa el jugador `p`, y devuelve el nodo creado para
    /// seguir construyendo el árbol desde él. Un nodo terminal queda igual y se devuelve `None`.
    pub fn add_non_terminal_action(&mut self, a: A, p: P) -> (r: Option<&mut Self>)
        ensures
            match *old(self) {
                ActionNode::Terminal => r is None && *final(self) is Terminal,
                ActionNode::NonTerminal(q, hijos) => r matches Some(n) && ({
                    &&& *n matches ActionNode::NonTerminal(pn, hn) && pn == p && hn@.len() == 0
                    &&& *final(self) matches ActionNode::NonTerminal(q2, nuevos) && q2 == q
                        && nuevos@ == hijos@.push((a, *final(n)))
                }),
            },
    {
        match self {
            ActionNode::NonTerminal(_, m) => {
                m.push((a, ActionNode::new(p)));
                let k = m.len() - 1;
                Some(&mut m[k].1)
            },
            ActionNode::Terminal => None,
        }
    }

    /// Nodo al que lleva la acción `action`: el del primer hijo con esa acción. Se compara con la
    /// igualdad de `A`, de la que se sabe lo que dice su especificación.
    pub fn next_node(&self, action: A) -> (r: Option<&ActionNode<P, A>>)
        ensures
            A::obeys_eq_spec() ==> match r {
                Some(n) => siguiente(*self, action) == Some(*n),
                None => siguiente(*self, action) is None,
            },
    {
        match self {
            ActionNode::Terminal => None,
            ActionNode::NonTerminal(_, children) => {
                let mut i: usize = 0;
                while i < children.len()
                    invariant
                        0 <= i <= children@.len(),
                        *self matches ActionNode::NonTerminal(_, h) && h@ == children@,
                        A::obeys_eq_spec() ==> primer_hijo(children@.take(i as int), action) is None,
                    decreases children@.len() - i,
                {
                    proof {
                        assert(children@.take(i + 1).drop_last() =~= children@.take(i as int));
                    }
                    if children[i].0 == action {
                        proof {
                            if A::obeys_eq_spec() {
                                assert(children@.take(i + 1).last() == children@[i as int]);
                                assert(primer_hijo(children@.take(i + 1), action) == Some(i as int));
                                lema_primer_hijo_prefijo(children@, i + 1, action);
                            }
                        }
                        return Some(&children[i].1);
                    }
                    i += 1;
                }
                proof {
                    assert(children@.take(i as int) =~= children@);
                }
                None
            },
        }
    }

    /// Nodo al que se llega jugando el historial desde este nodo. Las acciones que no están en el
    /// árbol se saltan.
    pub fn search_action_node(&self, history: &[A]) -> (r: &ActionNode<P, A>)
        ensures
            A::obeys_eq_spec() ==> *r == buscar(*self, history@),
    {
        let mut current_node = self;
        for i in 0..history.len()
            invariant
                A::obeys_eq_spec() ==> *current_node == buscar(*self, history@.take(i as int)),
        {
            proof {
                assert(history@.take(i + 1).drop_last() =~= history@.take(i as int));
            }
            current_node =
            match current_node.next_node(history[i]) {
                Some(n) => n,
                None => current_node,
            };
        }
        proof {
            assert(history@.take(history@.len() as int) =~= history@);
        }
        current_node
    }

    /// Acciones del nodo con los nodos a los que llevan, si no es terminal.
    pub fn children(&self) -> (r: Option<&Vec<(A, ActionNode<P, A>)>>)
        ensures
            match *self {
                ActionNode::Terminal => r is None,
                ActionNode::NonTerminal(_, hijos) => r matches Some(v) && *v == hijos,
            },
    {
        match self {
            ActionNode::Terminal => None,
            ActionNode::NonTerminal(_, vec) => Some(vec),
        }
    }

    /// Acciones del nodo, en orden, si no es terminal.
    pub fn actions(&self) -> (r: Option<Vec<A>>)
        ensures
            match *self {
                ActionNode::Terminal => r is None,
                ActionNode::NonTerminal(_, hijos) => r matches Some(v) && v@ == hijos@.map_values(
                    |h: (A, ActionNode<P, A>)| h.0,
                ),
            },
    {
        match self {
            ActionNode::Terminal => None,
            ActionNode::NonTerminal(_, vec) => {
                let mut acciones: Vec<A> = Vec::new();
                for i in 0..vec.len()
                    invariant
                        acciones@ == vec@.take(i as int).map_values(
                            |h: (A, ActionNode<P, A>)| h.0,
                        ),
                {
                    acciones.push(vec[i].0);
                    proof {
                        assert(vec@.take(i + 1).map_values(|h: (A, ActionNode<P, A>)| h.0)
                            =~= acciones@);
                    }
                }
                proof {
                    assert(vec@.take(vec@.len() as int) =~= vec@);
                }
                Some(acciones)
            },
        }
    }

    /// Jugador que actúa en el nodo, si no es terminal.
    pub fn to_play(&self) -> (r: Option<P>)
        ensures
            r == match *self {
                ActionNode::Terminal => None,
                ActionNode::NonTerminal(p, _) => Some(p),
            },
    {
        match self {
            ActionNode::Terminal => None,
            ActionNode::NonTerminal(player, _) => Some(*player),
        }
    }
}

} // verus!
