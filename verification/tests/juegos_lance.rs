use musolver::mus::{Lance, Mano};
use musolver::solver::{HandConfiguration, LanceGame, ManosNormalizadas};
use musolver::NodeType;

fn manos(a: &str, b: &str, c: &str, d: &str) -> [Mano; 4] {
    [
        Mano::try_from(a).unwrap(),
        Mano::try_from(b).unwrap(),
        Mano::try_from(c).unwrap(),
        Mano::try_from(d).unwrap(),
    ]
}

#[test]
fn test_normalizar() {
    let m = manos("RRRR", "RRR1", "RR11", "R111");
    let manos_normalizadas = ManosNormalizadas::normalizar_mano(&m, &Lance::Juego);
    assert_eq!(manos_normalizadas.hand_configuration(), HandConfiguration::DosManos);
    assert_eq!(manos_normalizadas.manos(0).0.to_string(), "RRRR");
    assert!(manos_normalizadas.manos(0).1.is_none());
    assert_eq!(manos_normalizadas.manos(1).0.to_string(), "RRR1");
    assert!(manos_normalizadas.manos(1).1.is_none());

    let m = manos("RRRR", "RRR1", "RRR1", "R111");
    let manos_normalizadas = ManosNormalizadas::normalizar_mano(&m, &Lance::Juego);
    assert_eq!(
        manos_normalizadas.hand_configuration(),
        HandConfiguration::TresManos1vs2Intermedio
    );
    assert_eq!(manos_normalizadas.manos(0).0.to_string(), "RRR1");
    assert!(manos_normalizadas.manos(0).1.is_none());
    assert_eq!(manos_normalizadas.manos(1).0.to_string(), "RRRR");
    assert!(manos_normalizadas.manos(1).1.is_some());

    let m = manos("RRRR", "RRR1", "R111", "RRR1");
    let manos_normalizadas = ManosNormalizadas::normalizar_mano(&m, &Lance::Juego);
    assert_eq!(manos_normalizadas.hand_configuration(), HandConfiguration::TresManos1vs2);
    assert_eq!(manos_normalizadas.manos(0).0.to_string(), "RRRR");
    assert!(manos_normalizadas.manos(0).1.is_none());
    assert_eq!(manos_normalizadas.manos(1).0.to_string(), "RRR1");
    assert!(manos_normalizadas.manos(1).1.is_some());

    let m = manos("RRRR", "R111", "RRR1", "RRR1");
    let manos_normalizadas = ManosNormalizadas::normalizar_mano(&m, &Lance::Juego);
    assert_eq!(manos_normalizadas.hand_configuration(), HandConfiguration::TresManos2vs1);
    assert_eq!(manos_normalizadas.manos(0).0.to_string(), "RRRR");
    assert!(manos_normalizadas.manos(0).1.is_some());
    assert_eq!(manos_normalizadas.manos(1).0.to_string(), "RRR1");
    assert!(manos_normalizadas.manos(1).1.is_none());
}

#[test]
fn test_pareja_mano() {
    let m = manos("RRRR", "R111", "RRR1", "RRR1");
    let manos_normalizadas = ManosNormalizadas::normalizar_mano(&m, &Lance::Juego);
    assert_eq!(manos_normalizadas.pareja_mano(), 0);

    let m = manos("RRRR", "RRR1", "RRR1", "R111");
    let manos_normalizadas = ManosNormalizadas::normalizar_mano(&m, &Lance::Juego);
    assert_eq!(manos_normalizadas.pareja_mano(), 1);

    let m = manos("R111", "RRR1", "RRR1", "R111");
    let manos_normalizadas = ManosNormalizadas::normalizar_mano(&m, &Lance::Juego);
    assert_eq!(manos_normalizadas.pareja_mano(), 1);
}

/// Reparte un lance y juega una línea determinista hasta el nodo terminal.
#[test]
fn lance_game_info_set_no_panic() {
    for lance in [Lance::Grande, Lance::Chica, Lance::Pares, Lance::Juego, Lance::Punto] {
        for abstract_game in [false, true] {
            let mut game = LanceGame::new(lance, [0, 0], abstract_game).chance_sample();
            let mut terminado = false;
            for _ in 0..50 {
                match game.current_node() {
                    NodeType::Terminal => {
                        terminado = true;
                        break;
                    }
                    NodeType::Chance => game = game.chance_sample(),
                    NodeType::Player(player, n_actions) => {
                        let _ = game.info_set(player);
                        game = game.act(n_actions - 1);
                    }
                }
            }
            assert!(terminado, "el lance {lance:?} no terminó");
        }
    }
}

/// En el juego abstracto dos manos con la misma jugada en el lance comparten la parte privada
/// del conjunto de información; en el juego exacto no.
#[test]
fn lance_game_abstract_merges_hands() {
    let opp = [
        Mano::try_from("RRR1").unwrap(),
        Mano::try_from("RRR4").unwrap(),
        Mano::try_from("RRR7").unwrap(),
    ];
    let manos_a = [
        Mano::try_from("S655").unwrap(),
        opp[0].clone(),
        opp[1].clone(),
        opp[2].clone(),
    ];
    let manos_b = [
        Mano::try_from("S544").unwrap(),
        opp[0].clone(),
        opp[1].clone(),
        opp[2].clone(),
    ];

    let mut abstracto_a = LanceGame::new(Lance::Grande, [0, 0], true);
    abstracto_a.set_manos(&manos_a);
    let mut abstracto_b = LanceGame::new(Lance::Grande, [0, 0], true);
    abstracto_b.set_manos(&manos_b);
    assert_eq!(abstracto_a.info_set(0), abstracto_b.info_set(0));

    let mut exacto_a = LanceGame::new(Lance::Grande, [0, 0], false);
    exacto_a.set_manos(&manos_a);
    let mut exacto_b = LanceGame::new(Lance::Grande, [0, 0], false);
    exacto_b.set_manos(&manos_b);
    assert_ne!(exacto_a.info_set(0), exacto_b.info_set(0));
}

#[test]
fn normalizar_sin_lance_con_una_pareja() {
    let m = manos("RRR1", "R111", "RRR1", "R111");
    let normalizadas = ManosNormalizadas::normalizar_mano(&m, &Lance::Juego);
    assert_eq!(normalizadas.hand_configuration(), HandConfiguration::SinLance);
    assert_eq!(normalizadas.manos(0).0.to_string(), "RRR1");
    assert_eq!(normalizadas.manos(0).1.map(|m| m.to_string()), Some("RRR1".to_string()));
    assert_eq!(normalizadas.manos(1).0.to_string(), "R111");
    assert!(normalizadas.manos(1).1.is_none());
}

#[test]
fn normalizar_sin_lance_sin_jugadas() {
    let m = manos("R754", "C641", "S531", "7641");
    let normalizadas = ManosNormalizadas::normalizar_mano(&m, &Lance::Pares);
    assert_eq!(normalizadas.hand_configuration(), HandConfiguration::SinLance);
    assert_eq!(normalizadas.manos(0).0.to_string(), "R754");
    assert!(normalizadas.manos(0).1.is_none());
    assert_eq!(normalizadas.manos(1).0.to_string(), "C641");
    assert!(normalizadas.manos(1).1.is_none());
}
