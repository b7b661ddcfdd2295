use musolver::mus::{Accion, Carta, FasePartida, Mano};
use musolver::solver::{CardSource, MusGameTwoPlayers};
use musolver::NodeType;

const VALORES: [Carta; 4] = [Carta::As, Carta::Cuatro, Carta::Sota, Carta::Rey];

/// Todos los multiconjuntos de 1 a 4 cartas sobre `VALORES`, ordenados como una mano.
fn descartes_posibles() -> Vec<Vec<Carta>> {
    let base = VALORES.len();
    let mut out: Vec<Vec<Carta>> = Vec::new();
    for num_descartes in 1..=4u32 {
        for code in 0..base.pow(num_descartes) {
            let mut cartas: Vec<Carta> = (0..num_descartes)
                .map(|i| VALORES[(code / base.pow(i)) % base])
                .collect();
            cartas.sort_unstable_by(|a, b| b.partial_cmp(a).unwrap());
            if !out.contains(&cartas) {
                out.push(cartas);
            }
        }
    }
    out
}

/// Mano de ejemplo para cada combinación de pares y juego.
fn example_hand(pares: bool, juego: bool) -> Mano {
    match (pares, juego) {
        (false, false) => Mano::new([Carta::Seis, Carta::Cinco, Carta::Cuatro, Carta::As]),
        (true, false) => Mano::new([Carta::As, Carta::As, Carta::As, Carta::As]),
        (false, true) => Mano::new([Carta::Rey, Carta::Caballo, Carta::Sota, Carta::As]),
        (true, true) => Mano::new([Carta::Rey, Carta::Rey, Carta::Rey, Carta::Rey]),
    }
}

fn hand_configs() -> Vec<(bool, bool)> {
    vec![(false, false), (false, true), (true, false), (true, true)]
}

/// Mano antes del descarte: las primeras cartas de `after` y después las descartadas.
fn pre_discard_hand(after: &Mano, descartes: &[Carta]) -> Mano {
    let mut cartas: Vec<Carta> = after.cartas()[..4 - descartes.len()].to_vec();
    cartas.extend(descartes.iter().copied());
    Mano::new_unsorted([cartas[0], cartas[1], cartas[2], cartas[3]])
}

/// Marca en `mano` las posiciones de `descartes`, eligiendo para cada carta la posición libre más
/// a la izquierda con ese valor.
fn discard_mask(mano: &Mano, descartes: &[Carta]) -> [bool; 4] {
    let mut mask = [false; 4];
    for carta in descartes {
        let idx = mano
            .cartas()
            .iter()
            .enumerate()
            .find(|(idx, c)| !mask[*idx] && *c == carta)
            .map(|(idx, _)| idx)
            .unwrap();
        mask[idx] = true;
    }
    mask
}

/// Partida de dos jugadores llevada hasta la fase de descartes, con el turno en el jugador 0.
fn game_in_descartes(manos: [Mano; 2]) -> MusGameTwoPlayers {
    let mut game = MusGameTwoPlayers::new([0, 0], false, 1).with_hands(manos);
    while matches!(game.mus_game().unwrap().fase(), Some(FasePartida::Mus)) {
        game.act_with_action(Accion::Mus);
    }
    assert_eq!(game.mus_game().unwrap().fase(), Some(FasePartida::Descartes));
    assert_eq!(game.mus_game().unwrap().turno().map(|turno| turno.player_id()), Some(0));
    game
}

#[test]
fn discard_mask_is_a_legal_action() {
    for (pares, juego) in hand_configs() {
        let after = example_hand(pares, juego);
        for descartes in descartes_posibles() {
            let mano = pre_discard_hand(&after, &descartes);
            let mask = discard_mask(&mano, &descartes);
            let game = game_in_descartes([mano.clone(), after.clone()]);
            assert!(
                game.actions().contains(&Accion::Descartar(mask)),
                "máscara {mask:?} ilegal para {} descartando {descartes:?}",
                mano.to_string()
            );
        }
    }
}

#[test]
fn prefix_mask_is_a_legal_action() {
    for (pares, juego) in hand_configs() {
        let mano = example_hand(pares, juego);
        for num_descartes in 1..=4 {
            let mask: [bool; 4] = std::array::from_fn(|idx| idx < num_descartes);
            let game = game_in_descartes([mano.clone(), mano.clone()]);
            assert!(
                game.actions().contains(&Accion::Descartar(mask)),
                "máscara prefijo {mask:?} ilegal para {}",
                mano.to_string()
            );
        }
    }
}

#[test]
fn four_distinct_cards_allow_every_nonempty_discard() {
    let mano = Mano::new([Carta::Rey, Carta::Caballo, Carta::Sota, Carta::As]);
    let game = game_in_descartes([mano.clone(), mano]);
    let acciones = game.actions().to_vec();
    assert_eq!(acciones.len(), 15);
    for code in 1..16usize {
        let mask: [bool; 4] = std::array::from_fn(|i| (code >> i) & 1 == 1);
        assert_eq!(acciones[code - 1], Accion::Descartar(mask));
    }
}

#[test]
fn four_kings_allow_only_prefix_discards() {
    let mano = Mano::new([Carta::Rey, Carta::Rey, Carta::Rey, Carta::Tres]);
    let game = game_in_descartes([mano.clone(), mano]);
    assert_eq!(
        game.actions().to_vec(),
        vec![
            Accion::Descartar([true, false, false, false]),
            Accion::Descartar([true, true, false, false]),
            Accion::Descartar([true, true, true, false]),
            Accion::Descartar([true, true, true, true]),
        ]
    );
}

#[test]
fn pair_of_aces_keeps_first_ace_first() {
    let mano = Mano::new([Carta::Rey, Carta::Sota, Carta::As, Carta::As]);
    let game = game_in_descartes([mano.clone(), mano]);
    let acciones = game.actions().to_vec();
    // Dos ases iguales: no se puede descartar el segundo sin el primero.
    assert!(!acciones.contains(&Accion::Descartar([false, false, false, true])));
    assert!(acciones.contains(&Accion::Descartar([false, false, true, false])));
    assert!(acciones.contains(&Accion::Descartar([false, false, true, true])));
    assert_eq!(acciones.len(), 11);
}

#[test]
fn non_prefix_discard_can_be_played() {
    let mano = Mano::new([Carta::Rey, Carta::Caballo, Carta::Sota, Carta::As]);
    let mut game = game_in_descartes([mano.clone(), mano]);
    game.act_with_action(Accion::Descartar([false, true, false, true]));
    assert!(matches!(game.current_node(), NodeType::Chance));
    let descartadas = game.mus_game().unwrap().descartadas().unwrap();
    assert_eq!(descartadas.to_vec(), vec![Carta::Caballo, Carta::As]);
}

#[test]
fn discard_takes_new_cards_from_the_front_of_the_deck() {
    let game = MusGameTwoPlayers::new([0, 0], false, 1).chance_sample();
    let mut game = game;
    while matches!(game.mus_game().unwrap().fase(), Some(FasePartida::Mus)) {
        game.act_with_action(Accion::Mus);
    }
    let mano = game.mus_game().unwrap().manos()[0].clone();
    let descartada = mano.cartas()[0];
    let (primera, longitud) = match game.card_source() {
        Some(CardSource::Baraja(b)) => (b.primeras_n_cartas(1)[0], 32),
        _ => panic!("se esperaba una baraja"),
    };
    game.act_with_action(Accion::Descartar([true, false, false, false]));
    let tras = game.chance_sample();
    let nueva_mano = tras.mus_game().unwrap().manos()[0].clone();
    let mut esperadas: Vec<Carta> = mano.cartas()[1..].to_vec();
    esperadas.push(primera);
    let mut obtenidas: Vec<Carta> = nueva_mano.cartas().to_vec();
    esperadas.sort_by(|a, b| b.partial_cmp(a).unwrap());
    obtenidas.sort_by(|a, b| b.partial_cmp(a).unwrap());
    assert_eq!(obtenidas, esperadas);
    match tras.card_source() {
        Some(CardSource::Baraja(b)) => {
            let cartas = b.primeras_n_cartas(longitud);
            assert_eq!(cartas[longitud - 1], descartada);
        }
        _ => panic!("se esperaba una baraja"),
    }
}
