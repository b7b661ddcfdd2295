use musolver::mus::{Accion, Carta, CuatroJugadores, DosJugadores, FaseEnvites, FasePartida, Lance, Mano, PartidaMus, Turno};

fn manos_tanteo() -> [Mano; 4] {
    [
        Mano::try_from("1234").unwrap(),
        Mano::try_from("57SS").unwrap(),
        Mano::try_from("3334").unwrap(),
        Mano::try_from("257C").unwrap(),
    ]
}

#[test]
fn test_tanteo() {
    let mut partida = FaseEnvites::<CuatroJugadores>::new(manos_tanteo(), [0, 0]);
    for _ in 0..16 {
        let _ = partida.actuar(Accion::Paso);
    }
    assert_eq!(partida.tantos(), &[5, 2]);
}

#[test]
fn test_tanteo2() {
    let mut partida = FaseEnvites::<CuatroJugadores>::new(manos_tanteo(), [0, 0]);
    let _ = partida.actuar(Accion::Envido(2));
    let _ = partida.actuar(Accion::Envido(2));
    let _ = partida.actuar(Accion::Envido(2));
    let _ = partida.actuar(Accion::Envido(2));
    let _ = partida.actuar(Accion::Paso);
    let _ = partida.actuar(Accion::Paso);
    assert_eq!(partida.tantos(), &[0, 2]);

    assert_eq!(partida.lance_actual(), Some(Lance::Chica));
    let _ = partida.actuar(Accion::Envido(2));
    let _ = partida.actuar(Accion::Envido(2));
    let _ = partida.actuar(Accion::Envido(2));
    let _ = partida.actuar(Accion::Envido(2));
    let _ = partida.actuar(Accion::Quiero);
    let _ = partida.actuar(Accion::Quiero);
    assert_eq!(partida.tantos(), &[0, 2]);

    // El 3 no tiene pares, así que habla primero la pareja 1.
    assert_eq!(partida.lance_actual(), Some(Lance::Pares));
    let _ = partida.actuar(Accion::Envido(2));
    let _ = partida.actuar(Accion::Envido(2));
    let _ = partida.actuar(Accion::Envido(2));
    let _ = partida.actuar(Accion::Paso);
    assert_eq!(partida.tantos(), &[2, 2]);

    // Tienen juego el 2 y el 3, así que habla primero la pareja 1.
    assert_eq!(partida.lance_actual(), Some(Lance::Juego));
    let _ = partida.actuar(Accion::Envido(2));
    let _ = partida.actuar(Accion::Envido(2));
    let _ = partida.actuar(Accion::Quiero);
    assert_eq!(partida.tantos(), &[9, 8]);
}

#[test]
fn test_punto_miedo() {
    let manos = [
        Mano::try_from("1134").unwrap(),
        Mano::try_from("571S").unwrap(),
        Mano::try_from("3544").unwrap(),
        Mano::try_from("257C").unwrap(),
    ];
    let mut partida =
        FaseEnvites::<CuatroJugadores>::new_partida_lance(Lance::Punto, manos, [0, 0]).unwrap();
    let _ = partida.actuar(Accion::Envido(2));
    let _ = partida.actuar(Accion::Envido(2));
    let _ = partida.actuar(Accion::Paso);
    let _ = partida.actuar(Accion::Paso);
    assert_eq!(partida.tantos(), &[2, 0]);

    let manos = [
        Mano::try_from("1134").unwrap(),
        Mano::try_from("571S").unwrap(),
        Mano::try_from("3544").unwrap(),
        Mano::try_from("257C").unwrap(),
    ];
    let mut partida =
        FaseEnvites::<CuatroJugadores>::new_partida_lance(Lance::Punto, manos, [0, 0]).unwrap();
    let _ = partida.actuar(Accion::Paso);
    let _ = partida.actuar(Accion::Paso);
    let _ = partida.actuar(Accion::Envido(2));
    let _ = partida.actuar(Accion::Envido(2));
    let _ = partida.actuar(Accion::Paso);
    let _ = partida.actuar(Accion::Paso);
    assert_eq!(partida.tantos(), &[0, 2]);
}

#[test]
fn test_tanteo_limite() {
    // Grande
    let mut partida = FaseEnvites::<CuatroJugadores>::new(manos_tanteo(), [29, 32]);
    let _ = partida.actuar(Accion::Envido(2));
    let _ = partida.actuar(Accion::Envido(2));
    let _ = partida.actuar(Accion::Envido(2));
    let _ = partida.actuar(Accion::Envido(2));
    let _ = partida.actuar(Accion::Paso);
    let _ = partida.actuar(Accion::Paso);
    assert_eq!(partida.tantos(), &[29, 34]);
    // Chica
    let _ = partida.actuar(Accion::Envido(2));
    let _ = partida.actuar(Accion::Envido(2));
    let _ = partida.actuar(Accion::Envido(2));
    let _ = partida.actuar(Accion::Envido(2));
    let _ = partida.actuar(Accion::Quiero);
    let _ = partida.actuar(Accion::Quiero);
    // Pares
    let _ = partida.actuar(Accion::Envido(2));
    let _ = partida.actuar(Accion::Envido(2));
    let _ = partida.actuar(Accion::Envido(2));
    let _ = partida.actuar(Accion::Quiero);
    // Juego
    let _ = partida.actuar(Accion::Envido(2));
    let _ = partida.actuar(Accion::Envido(2));
    let _ = partida.actuar(Accion::Quiero);
    assert_eq!(partida.tantos(), &[40, 0]);

    let mut partida = FaseEnvites::<CuatroJugadores>::new(manos_tanteo(), [29, 38]);
    let _ = partida.actuar(Accion::Envido(2));
    let _ = partida.actuar(Accion::Envido(2));
    let _ = partida.actuar(Accion::Envido(2));
    let _ = partida.actuar(Accion::Envido(2));
    let _ = partida.actuar(Accion::Paso);
    let _ = partida.actuar(Accion::Paso);
    assert_eq!(partida.turno(), None);
    assert_eq!(partida.tantos(), &[0, 40]);
}

#[test]
fn test_ordago() {
    let mut partida = FaseEnvites::<CuatroJugadores>::new(manos_tanteo(), [0, 0]);
    let _ = partida.actuar(Accion::Ordago);
    let _ = partida.actuar(Accion::Ordago);
    let _ = partida.actuar(Accion::Paso);
    let _ = partida.actuar(Accion::Paso);
    assert_eq!(partida.tantos(), &[1, 0]);
    let _ = partida.actuar(Accion::Ordago);
    let _ = partida.actuar(Accion::Ordago);
    let _ = partida.actuar(Accion::Quiero);
    let _ = partida.actuar(Accion::Quiero);
    assert_eq!(partida.tantos(), &[40, 0]);
    assert_eq!(partida.turno(), None);
}

#[test]
fn test_partida_lance() {
    let manos = [
        Mano::try_from("CC76").unwrap(),
        Mano::try_from("CCC1").unwrap(),
        Mano::try_from("1111").unwrap(),
        Mano::try_from("257C").unwrap(),
    ];
    let mut partida_lance =
        FaseEnvites::<CuatroJugadores>::new_partida_lance(Lance::Juego, manos, [0, 0]);
    assert!(partida_lance.is_some());
    let _ = partida_lance.as_mut().unwrap().actuar(Accion::Paso);
    let _ = partida_lance.as_mut().unwrap().actuar(Accion::Paso);
    let _ = partida_lance.as_mut().unwrap().actuar(Accion::Paso);
    let _ = partida_lance.as_mut().unwrap().actuar(Accion::Paso);
    assert_eq!(partida_lance.as_ref().unwrap().lance_actual(), None);
    assert_eq!(partida_lance.as_ref().unwrap().tantos(), &[0, 3]);
    let manos = [
        Mano::try_from("257C").unwrap(),
        Mano::try_from("CC76").unwrap(),
        Mano::try_from("CCC1").unwrap(),
        Mano::try_from("1111").unwrap(),
    ];
    let mut partida_lance =
        FaseEnvites::<CuatroJugadores>::new_partida_lance(Lance::Juego, manos, [0, 0]);
    assert_eq!(partida_lance.as_ref().unwrap().turno(), Some(Turno::Jugador(1)));
    let _ = partida_lance.as_mut().unwrap().actuar(Accion::Paso);
    let _ = partida_lance.as_mut().unwrap().actuar(Accion::Paso);
    let _ = partida_lance.as_mut().unwrap().actuar(Accion::Paso);
    let _ = partida_lance.as_mut().unwrap().actuar(Accion::Paso);
    assert_eq!(partida_lance.as_ref().unwrap().tantos(), &[3, 0]);
}

#[test]
fn test_marcador_sin_lances() {
    let manos = [Mano::try_from("RS64").unwrap(), Mano::try_from("RCC1").unwrap()];
    let mut game = FaseEnvites::<DosJugadores>::new(manos, [0, 0]);
    let _ = game.actuar(Accion::Paso);
    let _ = game.actuar(Accion::Envido(2));
    let _ = game.actuar(Accion::Paso);
    assert_eq!(game.tantos(), &[0, 1]);
    let _ = game.actuar(Accion::Paso);
    let _ = game.actuar(Accion::Envido(2));
    let turno = game.actuar(Accion::Paso);
    // Solo el jugador 2 tiene pares y juego: la partida termina.
    assert!(turno.is_ok());
    assert!(turno.unwrap().is_none());
    assert_eq!(game.tantos(), &[0, 6]);

    let manos = [
        Mano::try_from("RS64").unwrap(),
        Mano::try_from("RCC1").unwrap(),
        Mano::try_from("RS64").unwrap(),
        Mano::try_from("RCC1").unwrap(),
    ];
    let mut game = FaseEnvites::<CuatroJugadores>::new(manos, [0, 0]);
    let _ = game.actuar(Accion::Paso);
    let _ = game.actuar(Accion::Paso);
    let _ = game.actuar(Accion::Envido(2));
    let _ = game.actuar(Accion::Envido(2));
    let _ = game.actuar(Accion::Paso);
    let _ = game.actuar(Accion::Paso);
    assert_eq!(game.tantos(), &[0, 1]);
    let _ = game.actuar(Accion::Paso);
    let _ = game.actuar(Accion::Paso);
    let _ = game.actuar(Accion::Envido(2));
    let _ = game.actuar(Accion::Envido(2));
    let _ = game.actuar(Accion::Paso);
    let turno = game.actuar(Accion::Paso);
    assert!(turno.is_ok());
    assert!(turno.unwrap().is_none());
    assert_eq!(game.tantos(), &[0, 10]);
}

#[test]
fn test_fase_mus() {
    let mut partida = PartidaMus::<CuatroJugadores>::new(
        [
            Mano::try_from("RRAA").unwrap(),
            Mano::try_from("RRAA").unwrap(),
            Mano::try_from("RRAA").unwrap(),
            Mano::try_from("RRAA").unwrap(),
        ],
        [0, 0],
    );

    assert_eq!(partida.fase(), Some(FasePartida::Mus));
    assert_eq!(partida.turno(), Some(Turno::Pareja(0)));

    let turno = partida.actuar(Accion::Paso);
    assert!(turno.is_err());
    let turno = partida.actuar(Accion::Descartar([false, true, true, true]));
    assert!(turno.is_err());
    let _ = partida.actuar(Accion::NoMus);
    assert_eq!(partida.fase(), Some(FasePartida::Envites(Lance::Grande)));

    let mut partida = PartidaMus::<CuatroJugadores>::new(
        [
            Mano::try_from("RRAA").unwrap(),
            Mano::try_from("RRAA").unwrap(),
            Mano::try_from("RRAA").unwrap(),
            Mano::try_from("RRAA").unwrap(),
        ],
        [0, 0],
    );
    let _ = partida.actuar(Accion::Mus);
    assert_eq!(partida.turno(), Some(Turno::Pareja(2)));
    let _ = partida.actuar(Accion::Mus);
    assert_eq!(partida.turno(), Some(Turno::Pareja(1)));
    let _ = partida.actuar(Accion::Mus);
    assert_eq!(partida.turno(), Some(Turno::Pareja(3)));
    let _ = partida.actuar(Accion::Mus);
    assert_eq!(partida.fase(), Some(FasePartida::Descartes));
    assert_eq!(partida.turno(), Some(Turno::Jugador(0)));

    let turno = partida.actuar(Accion::Descartar([false, false, false, false]));
    assert!(turno.is_err());
    let turno = partida.actuar(Accion::Descartar([true, false, false, false]));
    assert!(turno.is_ok());
    let _ = partida.descartar_con_nuevas(&[Carta::Rey]);
    assert_eq!(partida.turno(), Some(Turno::Jugador(1)));
    let _ = partida.actuar(Accion::Descartar([true, false, false, false]));
    let _ = partida.descartar_con_nuevas(&[Carta::Rey]);
    let _ = partida.actuar(Accion::Descartar([true, false, false, false]));
    let _ = partida.descartar_con_nuevas(&[Carta::Rey]);
    let _ = partida.actuar(Accion::Descartar([true, false, false, false]));
    let _ = partida.descartar_con_nuevas(&[Carta::Rey]);
    assert_eq!(partida.fase(), Some(FasePartida::Mus));
    assert_eq!(partida.turno(), Some(Turno::Pareja(0)));
}
