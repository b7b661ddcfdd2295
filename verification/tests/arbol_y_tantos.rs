use musolver::game::ActionNode;
use musolver::solver::{parse_tantos, Trainer};

#[derive(Debug, PartialEq, Eq, Clone, Copy)]
enum Action {
    Pass,
    Call,
    Bet,
}

fn arbol_ejemplo() -> ActionNode<u8, Action> {
    let mut root: ActionNode<u8, Action> = ActionNode::new(0);

    let pass = root.add_non_terminal_action(Action::Pass, 1).unwrap();
    let pass_bet = pass.add_non_terminal_action(Action::Bet, 0).unwrap();
    pass_bet.add_terminal_action(Action::Pass);
    pass_bet.add_terminal_action(Action::Call);
    pass.add_terminal_action(Action::Pass);

    let bet = root.add_non_terminal_action(Action::Bet, 1).unwrap();
    bet.add_terminal_action(Action::Pass);
    bet.add_terminal_action(Action::Call);
    root
}

#[test]
fn arbol_de_acciones_construido() {
    let root = arbol_ejemplo();
    assert_eq!(root.to_play(), Some(0));
    assert_eq!(root.actions(), Some(vec![Action::Pass, Action::Bet]));
    let pass = root.next_node(Action::Pass).unwrap();
    assert_eq!(pass.to_play(), Some(1));
    assert_eq!(pass.actions(), Some(vec![Action::Bet, Action::Pass]));
    let bet = root.next_node(Action::Bet).unwrap();
    assert_eq!(bet.actions(), Some(vec![Action::Pass, Action::Call]));
    assert!(root.next_node(Action::Call).is_none());
    assert_eq!(root.children().unwrap().len(), 2);
}

#[test]
fn arbol_de_acciones_busqueda() {
    let root = arbol_ejemplo();
    let n = root.search_action_node(&[Action::Pass, Action::Bet]);
    assert_eq!(n.to_play(), Some(0));
    assert_eq!(n.actions(), Some(vec![Action::Pass, Action::Call]));
    let fin = root.search_action_node(&[Action::Pass, Action::Bet, Action::Call]);
    assert!(matches!(fin, ActionNode::Terminal));
    assert_eq!(fin.to_play(), None);
    assert!(fin.actions().is_none());
    assert!(fin.children().is_none());
    // Las acciones que no están en el árbol se saltan.
    let saltado = root.search_action_node(&[Action::Call, Action::Bet]);
    assert_eq!(saltado.actions(), Some(vec![Action::Pass, Action::Call]));
    let vacio = root.search_action_node(&[]);
    assert_eq!(vacio.to_play(), Some(0));
}

#[test]
fn arbol_terminal_no_cambia() {
    let mut t: ActionNode<u8, Action> = ActionNode::default();
    t.add_terminal_action(Action::Pass);
    assert!(t.add_non_terminal_action(Action::Bet, 1).is_none());
    assert!(matches!(t, ActionNode::Terminal));
    assert!(t.next_node(Action::Pass).is_none());
}

#[test]
fn tantos_validos() {
    assert_eq!(parse_tantos("25:14"), Ok([25, 14]));
    assert_eq!(parse_tantos("0:0"), Ok([0, 0]));
    assert_eq!(parse_tantos("+7:007"), Ok([7, 7]));
    assert_eq!(parse_tantos("255:39"), Ok([255, 39]));
}

#[test]
fn tantos_sin_dos_puntos() {
    assert_eq!(
        parse_tantos("2514"),
        Err("Formato de los tantos incorecto (2514). Deben indicarse separados por dos puntos, por ejemplo 5:23.".to_string())
    );
    assert_eq!(
        parse_tantos("1:2:3"),
        Err("Formato de los tantos incorecto (1:2:3). Deben indicarse separados por dos puntos, por ejemplo 5:23.".to_string())
    );
}

#[test]
fn tantos_no_numericos() {
    assert_eq!(parse_tantos("a:3"), Err("a no es un número.".to_string()));
    assert_eq!(parse_tantos("3:x1"), Err("x1 no es un número.".to_string()));
    assert_eq!(parse_tantos(":3"), Err(" no es un número.".to_string()));
    assert_eq!(parse_tantos("256:3"), Err("256 no es un número.".to_string()));
    assert_eq!(parse_tantos("3:-1"), Err("-1 no es un número.".to_string()));
    assert_eq!(parse_tantos("+:1"), Err("+ no es un número.".to_string()));
    assert_eq!(parse_tantos("9999:1"), Err("9999 no es un número.".to_string()));
}

#[test]
fn marcadores_del_entrenador() {
    let m = Trainer::new().marcadores();
    // Una diagonal por cada total de tantos de 39 a 78 con los dos marcadores por debajo de 40.
    assert_eq!(m.len(), (1..=40).sum::<usize>());
    assert_eq!(m[0], [39, 39]);
    assert_eq!(m[1], [38, 39]);
    assert_eq!(m[2], [39, 38]);
    let desde = Trainer::new().with_tantos([38, 38]).marcadores();
    assert_eq!(desde, vec![[39, 39], [38, 39], [39, 38], [38, 38]]);
}
