use std::cmp::Ordering;

use musolver::game::ActionNode;
use musolver::mus::{Carta, Lance, Mano};
use musolver::solver::{parse_tantos, LanceGame, Trainer};
use musolver::NodeType;

#[test]
fn caracter_de_cada_carta_se_lee_de_vuelta() {
    for c in Carta::CARTAS {
        assert_eq!(Carta::desde_char(c.to_char()), Some(c));
    }
}

#[test]
fn texto_de_una_mano_se_lee_de_vuelta() {
    for texto in ["RRRR", "RC71", "3C72", "S654", "1111", "R", ""] {
        let mano: Mano = texto.parse().unwrap();
        let escrita = mano.to_string();
        let leida = Mano::parse(&escrita).unwrap();
        assert_eq!(leida.to_string(), escrita);
        assert_eq!(leida.cartas(), mano.cartas());
    }
}

#[test]
fn comparar_al_reves_da_el_resultado_opuesto() {
    let manos: Vec<Mano> = ["RRRR", "RC71", "3C72", "S654", "1111", "RR11", "7S41"]
        .iter()
        .map(|t| t.parse().unwrap())
        .collect();
    for lance in [Lance::Grande, Lance::Chica, Lance::Pares, Lance::Punto, Lance::Juego] {
        for a in &manos {
            for b in &manos {
                assert_eq!(lance.compara_manos(a, b), lance.compara_manos(b, a).reverse());
            }
            assert_eq!(lance.compara_manos(a, a), Ordering::Equal);
        }
    }
}

#[test]
fn marcadores_de_mas_a_menos_tantos() {
    for objetivo in [[0, 0], [20, 10], [39, 0], [35, 36]] {
        let m = Trainer::new().with_tantos(objetivo).marcadores();
        for w in m.windows(2) {
            assert!(w[0][0] as u32 + w[0][1] as u32 >= w[1][0] as u32 + w[1][1] as u32);
        }
        for a in 0..40u8 {
            for b in 0..40u8 {
                let esperado =
                    a >= objetivo[0] && b >= objetivo[1] && a as u32 + b as u32 >= 39;
                assert_eq!(m.contains(&[a, b]), esperado, "{a}:{b} con objetivo {objetivo:?}");
            }
        }
    }
}

#[test]
fn marcador_escrito_se_lee_de_vuelta() {
    for a in 0..=255u8 {
        for b in [0u8, 7, 39, 40, 99, 100, 255] {
            assert_eq!(parse_tantos(&format!("{a}:{b}")), Ok([a, b]));
        }
    }
}

#[derive(Debug, PartialEq, Eq, Clone, Copy)]
enum Accion {
    Paso,
    Envido,
    Quiero,
}

#[test]
fn buscar_por_partes_es_buscar_todo() {
    let mut root: ActionNode<u8, Accion> = ActionNode::new(0);
    let paso = root.add_non_terminal_action(Accion::Paso, 1).unwrap();
    let envido = paso.add_non_terminal_action(Accion::Envido, 0).unwrap();
    envido.add_terminal_action(Accion::Quiero);
    envido.add_terminal_action(Accion::Paso);
    paso.add_terminal_action(Accion::Paso);
    let historiales: [&[Accion]; 4] = [
        &[Accion::Paso, Accion::Envido, Accion::Quiero],
        &[Accion::Paso, Accion::Quiero, Accion::Envido],
        &[Accion::Envido, Accion::Paso, Accion::Paso],
        &[],
    ];
    for h in historiales {
        for corte in 0..=h.len() {
            let todo = root.search_action_node(h);
            let partes = root.search_action_node(&h[..corte]).search_action_node(&h[corte..]);
            assert_eq!(todo, partes);
            assert_eq!(todo.to_play(), partes.to_play());
            assert_eq!(todo.actions(), partes.actions());
        }
    }
}

#[test]
fn lance_de_suma_cero() {
    for lance in [Lance::Grande, Lance::Chica, Lance::Pares, Lance::Juego, Lance::Punto] {
        for intento in 0..20 {
            let mut game = LanceGame::new(lance, [0, 0], false).chance_sample();
            loop {
                match game.current_node() {
                    NodeType::Terminal => break,
                    NodeType::Chance => game = game.chance_sample(),
                    NodeType::Player(_, n_actions) => game = game.act(intento % n_actions),
                }
            }
            for player in 0..4 {
                assert_eq!(game.payoff(player), -game.payoff(player + 1));
                assert_eq!(game.payoff(player), game.payoff(player + 2));
            }
        }
    }
}
