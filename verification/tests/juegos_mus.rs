use std::collections::HashMap;
use std::str::FromStr;

use musolver::mus::{Accion, Baraja, Carta, Mano, RepartoDescarteMusIter};
use musolver::solver::{CardSource, MusGame, MusGameTwoHands, MusGameTwoPlayers};
use musolver::NodeType;

type MusInfoSet = (u64, u64);

/// Lo que necesitan los recorridos de las pruebas de cada juego de partida completa.
trait JuegoDePrueba: Sized {
    fn nodo(&self) -> NodeType;
    fn conjunto(&self, jugador: usize) -> MusInfoSet;
    fn hijo(&self, accion: usize) -> Self;
    /// Primer hijo de un nodo de azar: el primer reparto, o las primeras cartas del descarte.
    fn primer_hijo_de_azar(&self) -> Option<Self>;
}

/// Primer reparto de cuatro manos de la baraja de mus y las frecuencias de las cartas que quedan:
/// se reparte a cada mano la primera combinación de las cartas que quedan.
fn primer_reparto() -> ([Mano; 4], [(Carta, u8); 8]) {
    let mut frecuencias = Baraja::FREC_BARAJA_MUS;
    let mut manos = Vec::new();
    for _ in 0..4 {
        let mut quedan = frecuencias;
        for (i, (c, f)) in frecuencias.iter().enumerate() {
            quedan[i] = (*c, *f);
        }
        let mut restantes = quedan;
        let mut cartas = Vec::new();
        let mut i = 0;
        while cartas.len() < 4 {
            if restantes[i].1 > 0 {
                cartas.push(restantes[i].0);
                restantes[i].1 -= 1;
            } else {
                i += 1;
            }
        }
        manos.push(Mano::new([cartas[0], cartas[1], cartas[2], cartas[3]]));
        frecuencias = restantes;
    }
    let manos: [Mano; 4] = [manos[0].clone(), manos[1].clone(), manos[2].clone(), manos[3].clone()];
    (manos, frecuencias)
}

fn nuevas_del_descarte(n: usize, dist: [(Carta, u8); 8]) -> Option<(Vec<Carta>, [(Carta, u8); 8])> {
    match n {
        1 => RepartoDescarteMusIter::<1>::new(dist).next().map(|(c, _, _, d)| (c, d)),
        2 => RepartoDescarteMusIter::<2>::new(dist).next().map(|(c, _, _, d)| (c, d)),
        3 => RepartoDescarteMusIter::<3>::new(dist).next().map(|(c, _, _, d)| (c, d)),
        4 => RepartoDescarteMusIter::<4>::new(dist).next().map(|(c, _, _, d)| (c, d)),
        _ => None,
    }
}

fn distribucion(c: Option<&CardSource>) -> [(Carta, u8); 8] {
    match c {
        Some(CardSource::Iterable(d)) => *d,
        _ => panic!("se esperaba un origen de cartas iterable"),
    }
}

impl JuegoDePrueba for MusGame {
    fn nodo(&self) -> NodeType {
        self.current_node()
    }
    fn conjunto(&self, jugador: usize) -> MusInfoSet {
        self.info_set(jugador)
    }
    fn hijo(&self, accion: usize) -> Self {
        self.act(accion)
    }
    fn primer_hijo_de_azar(&self) -> Option<Self> {
        match self.mus_game() {
            None => {
                let (manos, dist) = primer_reparto();
                let mut g = self.clone().with_hands(manos);
                g.set_card_source(CardSource::Iterable(dist));
                Some(g)
            }
            Some(p) => {
                let n = p.descartadas().unwrap().len();
                let (nuevas, dist) = nuevas_del_descarte(n, distribucion(self.card_source()))?;
                Some(self.con_descarte(&nuevas, dist))
            }
        }
    }
}

impl JuegoDePrueba for MusGameTwoHands {
    fn nodo(&self) -> NodeType {
        self.current_node()
    }
    fn conjunto(&self, jugador: usize) -> MusInfoSet {
        self.info_set(jugador)
    }
    fn hijo(&self, accion: usize) -> Self {
        self.act(accion)
    }
    fn primer_hijo_de_azar(&self) -> Option<Self> {
        match self.mus_game() {
            None => {
                let (manos, dist) = primer_reparto();
                let mut g = self.clone().with_hands(manos);
                g.set_card_source(CardSource::Iterable(dist));
                Some(g)
            }
            Some(p) => {
                let n = p.descartadas().unwrap().len();
                let (nuevas, dist) = nuevas_del_descarte(n, distribucion(self.card_source()))?;
                Some(self.con_descarte(&nuevas, dist))
            }
        }
    }
}

impl JuegoDePrueba for MusGameTwoPlayers {
    fn nodo(&self) -> NodeType {
        self.current_node()
    }
    fn conjunto(&self, jugador: usize) -> MusInfoSet {
        self.info_set(jugador)
    }
    fn hijo(&self, accion: usize) -> Self {
        self.act(accion)
    }
    fn primer_hijo_de_azar(&self) -> Option<Self> {
        match self.mus_game() {
            None => {
                let (manos, dist) = primer_reparto();
                let mut dist2 = dist;
                // Con dos jugadores solo se reparten las dos primeras manos: vuelven a la
                // baraja las cartas de las otras dos.
                for m in [&manos[2], &manos[3]] {
                    for c in m.cartas() {
                        for e in dist2.iter_mut() {
                            if e.0 == *c {
                                e.1 += 1;
                            }
                        }
                    }
                }
                let mut g = self.clone().with_hands([manos[0].clone(), manos[1].clone()]);
                g.set_card_source(CardSource::Iterable(dist2));
                Some(g)
            }
            Some(p) => {
                let n = p.descartadas().unwrap().len();
                let (nuevas, dist) = nuevas_del_descarte(n, distribucion(self.card_source()))?;
                Some(self.con_descarte(&nuevas, dist))
            }
        }
    }
}

fn cuatro_manos() -> [Mano; 4] {
    [
        Mano::from_str("RRR5").unwrap(),
        Mano::from_str("RCC1").unwrap(),
        Mano::from_str("RRR4").unwrap(),
        Mano::from_str("RCC7").unwrap(),
    ]
}

fn dos_manos() -> [Mano; 2] {
    [Mano::from_str("RRR5").unwrap(), Mano::from_str("RCC1").unwrap()]
}

fn walk<G: JuegoDePrueba>(game: &G, infosets: &mut HashMap<MusInfoSet, usize>, budget: &mut usize) {
    if *budget == 0 {
        return;
    }
    match game.nodo() {
        NodeType::Terminal => {}
        NodeType::Chance => {
            if let Some(child) = game.primer_hijo_de_azar() {
                walk(&child, infosets, budget);
            }
        }
        NodeType::Player(player, n_actions) => {
            *budget -= 1;
            let info = game.conjunto(player);
            let prev = infosets.entry(info).or_insert(n_actions);
            assert_eq!(
                *prev, n_actions,
                "conjunto de información {info:?} visto con distinto número de acciones"
            );
            for action_id in 0..n_actions {
                walk(&game.hijo(action_id), infosets, budget);
            }
        }
    }
}

fn play_one_line<G: JuegoDePrueba>(mut game: G) {
    for _ in 0..1_000 {
        match game.nodo() {
            NodeType::Terminal => return,
            NodeType::Chance => {
                game = game.primer_hijo_de_azar().expect("nodo de azar sin hijos");
            }
            NodeType::Player(player, n_actions) => {
                let _ = game.conjunto(player);
                game = game.hijo(n_actions - 1);
            }
        }
    }
    panic!("la partida no terminó en 1000 pasos");
}

#[test]
fn mus_game_full_tree_no_panic() {
    let game = MusGame::new([0, 0], false, 0).with_hands(cuatro_manos());
    let infos: Vec<_> = (0..4).map(|p| game.info_set(p)).collect();
    for i in 0..4 {
        for j in (i + 1)..4 {
            assert_ne!(infos[i], infos[j], "jugadores {i} y {j} comparten conjunto");
        }
    }
    let mut infosets = HashMap::new();
    walk(&game, &mut infosets, &mut 300_000);
    assert!(!infosets.is_empty());
}

#[test]
fn mus_game_two_hands_full_tree_no_panic() {
    let game = MusGameTwoHands::new([0, 0], false, 0).with_hands(cuatro_manos());
    assert_ne!(game.info_set(0), game.info_set(1));
    let mut infosets = HashMap::new();
    walk(&game, &mut infosets, &mut 300_000);
    assert!(!infosets.is_empty());
}

#[test]
fn mus_game_two_players_full_tree_no_panic() {
    let game = MusGameTwoPlayers::new([0, 0], false, 0).with_hands(dos_manos());
    assert_ne!(game.info_set(0), game.info_set(1));
    let mut infosets = HashMap::new();
    walk(&game, &mut infosets, &mut 300_000);
    assert!(!infosets.is_empty());
}

#[test]
fn full_game_with_mus_round_terminates() {
    play_one_line(MusGame::new([0, 0], false, 1));
    play_one_line(MusGameTwoHands::new([0, 0], false, 1));
    play_one_line(MusGameTwoPlayers::new([0, 0], false, 1));
}

#[test]
fn two_players_actions() {
    let manos = dos_manos();
    let mut game = MusGameTwoPlayers::new([35, 35], false, 1).with_hands(manos.clone());
    game.act_with_action(Accion::NoMus);
    game.act_with_action(Accion::Envido(2));
    game.act_with_action(Accion::Envido(2));
    assert_eq!(
        game.actions().to_vec(),
        vec![Accion::Paso, Accion::Quiero, Accion::Ordago]
    );
    let mut game = MusGameTwoPlayers::new([37, 37], false, 1).with_hands(manos.clone());
    game.act_with_action(Accion::NoMus);
    assert_eq!(
        game.actions().to_vec(),
        vec![Accion::Paso, Accion::Envido(2), Accion::Ordago]
    );
    game.act_with_action(Accion::Envido(2));
    assert_eq!(
        game.actions().to_vec(),
        vec![Accion::Paso, Accion::Quiero, Accion::Ordago]
    );
}

#[test]
fn mus_game_hidden_first_partner() {
    let mut game = MusGame::new([38, 37], false, 0).with_hands(cuatro_manos());
    assert!(matches!(game.current_node(), NodeType::Player(0, _)));
    game.act_with_action(Accion::Ordago);
    assert!(matches!(game.current_node(), NodeType::Player(2, _)));
    assert_eq!(game.actions().to_vec(), vec![Accion::Ordago]);
}

#[test]
fn hidden_action_visible_to_partner() {
    let base = MusGame::new([0, 0], false, 0).with_hands(cuatro_manos());

    let mut tras_paso = base.clone();
    tras_paso.act_with_action(Accion::Paso);
    let mut tras_ordago = base.clone();
    tras_ordago.act_with_action(Accion::Ordago);

    assert!(matches!(tras_paso.current_node(), NodeType::Player(2, _)));
    assert!(matches!(tras_ordago.current_node(), NodeType::Player(2, _)));
    assert_ne!(tras_paso.info_set(2), tras_ordago.info_set(2));
}

#[test]
fn abstract_game_merges_equivalent_hands() {
    let mano_a = Mano::from_str("S655").unwrap();
    let mano_b = Mano::from_str("S544").unwrap();
    let opp = Mano::from_str("RRR1").unwrap();
    let abstracto_a =
        MusGameTwoPlayers::new([0, 0], true, 0).with_hands([mano_a.clone(), opp.clone()]);
    let abstracto_b =
        MusGameTwoPlayers::new([0, 0], true, 0).with_hands([mano_b.clone(), opp.clone()]);
    assert_eq!(abstracto_a.info_set(0), abstracto_b.info_set(0));

    let exacto_a = MusGameTwoPlayers::new([0, 0], false, 0).with_hands([mano_a, opp.clone()]);
    let exacto_b = MusGameTwoPlayers::new([0, 0], false, 0).with_hands([mano_b, opp]);
    assert_ne!(exacto_a.info_set(0), exacto_b.info_set(0));
}

#[test]
fn abstract_game_full_tree_no_panic() {
    let game = MusGame::new([0, 0], true, 0).with_hands(cuatro_manos());
    let mut infosets = HashMap::new();
    walk(&game, &mut infosets, &mut 300_000);
    assert!(!infosets.is_empty());
}

fn walk_collision(game: &MusGame, seen: &mut HashMap<MusInfoSet, usize>, budget: &mut usize) {
    if *budget == 0 {
        return;
    }
    match game.current_node() {
        NodeType::Terminal => {}
        NodeType::Chance => {
            let child = game.chance_sample();
            walk_collision(&child, seen, budget);
        }
        NodeType::Player(player, n) => {
            *budget -= 1;
            let info = game.info_set(player);
            let prev = *seen.entry(info).or_insert(n);
            assert_eq!(prev, n, "colisión en el conjunto {info:?}: {prev} vs {n} acciones");
            for a in 0..n {
                walk_collision(&game.act(a), seen, budget);
            }
        }
    }
}

#[test]
fn no_infoset_collision_across_deals() {
    for tantos in [[0, 0], [39, 39]] {
        let mut seen = HashMap::new();
        for _ in 0..400 {
            walk_collision(&MusGame::new(tantos, false, 1), &mut seen, &mut 1_500);
        }
    }
}

#[test]
fn chance_sample_deals_from_a_full_mus_deck() {
    let game = MusGameTwoPlayers::new([0, 0], false, 1).chance_sample();
    let mut cartas: Vec<Carta> = Vec::new();
    for mano in game.mus_game().unwrap().manos() {
        cartas.extend(mano.cartas().iter().copied());
    }
    assert_eq!(cartas.len(), 8);
    match game.card_source() {
        Some(CardSource::Baraja(baraja)) => cartas.extend(baraja.primeras_n_cartas(32)),
        _ => panic!("se esperaba una baraja"),
    }
    let cuenta = |c: Carta| cartas.iter().filter(|x| **x == c).count();
    assert_eq!(cuenta(Carta::As), 8);
    assert_eq!(cuenta(Carta::Rey), 8);
    for c in [Carta::Caballo, Carta::Sota, Carta::Siete, Carta::Seis, Carta::Cinco, Carta::Cuatro] {
        assert_eq!(cuenta(c), 4);
    }
}
