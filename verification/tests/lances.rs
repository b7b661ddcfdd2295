use std::cmp::Ordering::{Equal, Greater, Less};

use musolver::mus::{Accion, Apuesta, EstadoLance, Juego, Lance, Mano, Turno, MAX_TANTOS};

#[test]
fn test_paso() {
    let manos: [Mano; 4] = [
        "R111".parse().unwrap(),
        "RRR1".parse().unwrap(),
        "RRR1".parse().unwrap(),
        "RRR1".parse().unwrap(),
    ];
    let mut partida = EstadoLance::new(&Lance::Grande, &manos, MAX_TANTOS);
    assert_eq!(partida.turno(), Some(Turno::Pareja(0)));
    assert_eq!(partida.actuar(Accion::Paso).unwrap(), Some(Turno::Pareja(2)));
    assert_eq!(partida.actuar(Accion::Paso).unwrap(), Some(Turno::Pareja(1)));
    assert_eq!(partida.actuar(Accion::Paso).unwrap(), Some(Turno::Pareja(3)));
    assert_eq!(partida.actuar(Accion::Paso).unwrap(), None);
    assert_eq!(partida.resolver_lance(), 1);
    assert_eq!(partida.tantos_apostados(), Apuesta::Tantos(1));

    // Hay lance pero no se juega.
    let manos: [Mano; 4] = [
        "R111".parse().unwrap(),
        "RRR1".parse().unwrap(),
        "RR11".parse().unwrap(),
        "RRR1".parse().unwrap(),
    ];
    let mut partida = EstadoLance::new(&Lance::Juego, &manos, MAX_TANTOS);
    assert_eq!(partida.turno(), None);
    assert_eq!(partida.resolver_lance(), 1);
    assert_eq!(partida.tantos_apostados(), Apuesta::Tantos(0));

    // Juegan 1 y 2.
    let manos: [Mano; 4] = [
        "R111".parse().unwrap(),
        "RRR1".parse().unwrap(),
        "RRR1".parse().unwrap(),
        "R111".parse().unwrap(),
    ];
    let mut partida = EstadoLance::new(&Lance::Juego, &manos, MAX_TANTOS);
    assert_eq!(partida.turno(), Some(Turno::Jugador(1)));
    assert_eq!(partida.actuar(Accion::Paso).unwrap(), Some(Turno::Jugador(2)));
    assert_eq!(partida.actuar(Accion::Paso).unwrap(), None);
    assert_eq!(partida.resolver_lance(), 1);
    assert_eq!(partida.tantos_apostados(), Apuesta::Tantos(0));

    // Juegan 0 y 3.
    let manos: [Mano; 4] = [
        "RRR1".parse().unwrap(),
        "R111".parse().unwrap(),
        "R111".parse().unwrap(),
        "RRR1".parse().unwrap(),
    ];
    let mut partida = EstadoLance::new(&Lance::Juego, &manos, MAX_TANTOS);
    assert_eq!(partida.turno(), Some(Turno::Jugador(0)));
    assert_eq!(partida.actuar(Accion::Paso).unwrap(), Some(Turno::Jugador(3)));
    assert_eq!(partida.actuar(Accion::Paso).unwrap(), None);
    assert_eq!(partida.resolver_lance(), 0);
    assert_eq!(partida.tantos_apostados(), Apuesta::Tantos(0));
}

#[test]
fn test_envido() {
    let manos: [Mano; 4] = [
        "R111".parse().unwrap(),
        "RRR1".parse().unwrap(),
        "RRR1".parse().unwrap(),
        "RRR1".parse().unwrap(),
    ];
    // Cuatro participantes, envite del jugador 0.
    let mut partida = EstadoLance::new(&Lance::Grande, &manos, MAX_TANTOS);
    assert_eq!(partida.turno(), Some(Turno::Pareja(0)));
    assert_eq!(partida.actuar(Accion::Envido(2)).unwrap(), Some(Turno::Pareja(2)));
    assert_eq!(partida.actuar(Accion::Paso).unwrap(), Some(Turno::Pareja(1)));
    assert_eq!(partida.actuar(Accion::Paso).unwrap(), Some(Turno::Pareja(3)));
    assert_eq!(partida.actuar(Accion::Paso).unwrap(), None);
    assert_eq!(partida.resolver_lance(), 0);
    assert_eq!(partida.tantos_apostados(), Apuesta::Tantos(1));

    // Cuatro participantes, envite del jugador 1.
    let mut partida = EstadoLance::new(&Lance::Grande, &manos, MAX_TANTOS);
    assert_eq!(partida.turno(), Some(Turno::Pareja(0)));
    assert_eq!(partida.actuar(Accion::Paso).unwrap(), Some(Turno::Pareja(2)));
    assert_eq!(partida.actuar(Accion::Envido(2)).unwrap(), Some(Turno::Pareja(1)));
    assert_eq!(partida.actuar(Accion::Paso).unwrap(), Some(Turno::Pareja(3)));
    assert_eq!(partida.actuar(Accion::Paso).unwrap(), None);
    assert_eq!(partida.resolver_lance(), 0);
    assert_eq!(partida.tantos_apostados(), Apuesta::Tantos(1));

    // Tres participantes con envite inicial de la pareja.
    let mut partida = EstadoLance::new(&Lance::Juego, &manos, MAX_TANTOS);
    assert_eq!(partida.turno(), Some(Turno::Jugador(2)));
    assert_eq!(partida.actuar(Accion::Envido(2)).unwrap(), Some(Turno::Pareja(1)));
    assert_eq!(partida.actuar(Accion::Paso).unwrap(), Some(Turno::Pareja(3)));
    assert_eq!(partida.actuar(Accion::Paso).unwrap(), None);
    assert_eq!(partida.resolver_lance(), 0);
    assert_eq!(partida.tantos_apostados(), Apuesta::Tantos(1));

    // Revocación.
    let mut partida = EstadoLance::new(&Lance::Juego, &manos, MAX_TANTOS);
    assert_eq!(partida.turno(), Some(Turno::Jugador(2)));
    assert_eq!(partida.actuar(Accion::Paso).unwrap(), Some(Turno::Pareja(1)));
    assert_eq!(partida.actuar(Accion::Paso).unwrap(), Some(Turno::Pareja(3)));
    assert_eq!(partida.actuar(Accion::Envido(2)).unwrap(), Some(Turno::Jugador(2)));
    assert_eq!(partida.actuar(Accion::Quiero).unwrap(), None);
    assert_eq!(partida.resolver_lance(), 1);
    assert_eq!(partida.tantos_apostados(), Apuesta::Tantos(2));

    // Doble revocación
    let mut partida = EstadoLance::new(&Lance::Juego, &manos, MAX_TANTOS);
    assert_eq!(partida.turno(), Some(Turno::Jugador(2)));
    assert_eq!(partida.actuar(Accion::Envido(2)).unwrap(), Some(Turno::Pareja(1)));
    assert_eq!(partida.actuar(Accion::Paso).unwrap(), Some(Turno::Pareja(3)));
    assert_eq!(partida.actuar(Accion::Envido(2)).unwrap(), Some(Turno::Jugador(2)));
    assert_eq!(partida.actuar(Accion::Envido(5)).unwrap(), Some(Turno::Pareja(1)));
    assert_eq!(partida.actuar(Accion::Quiero).unwrap(), Some(Turno::Pareja(3)));
    assert_eq!(partida.actuar(Accion::Paso).unwrap(), None);
    assert_eq!(partida.resolver_lance(), 1);
    assert_eq!(partida.tantos_apostados(), Apuesta::Tantos(9));
}

#[test]
fn test_tantos_mano() {
    let manos: [Mano; 4] = [
        "R111".parse().unwrap(),
        "RRR1".parse().unwrap(),
        "RRR1".parse().unwrap(),
        "RRR1".parse().unwrap(),
    ];
    let partida = EstadoLance::new(&Lance::Grande, &manos, MAX_TANTOS);
    assert_eq!(partida.tantos_mano(), &[0, 0]);
    let partida = EstadoLance::new(&Lance::Pares, &manos, MAX_TANTOS);
    assert_eq!(partida.tantos_mano(), &[4, 4]);
    let partida = EstadoLance::new(&Lance::Juego, &manos, MAX_TANTOS);
    assert_eq!(partida.tantos_mano(), &[3, 6]);
    let partida = EstadoLance::new(&Lance::Punto, &manos, MAX_TANTOS);
    assert_eq!(partida.tantos_mano(), &[1, 1]);
}

#[test]
fn hay_lance() {
    let manos = vec![
        Mano::try_from("R111").unwrap(),
        Mano::try_from("R111").unwrap(),
        Mano::try_from("RR11").unwrap(),
        Mano::try_from("R111").unwrap(),
    ];
    assert!(Lance::Grande.hay_lance(&manos));
    assert!(Lance::Chica.hay_lance(&manos));
    assert!(Lance::Pares.hay_lance(&manos));
    assert!(Lance::Pares.se_juega(&manos));
    assert!(!Lance::Juego.hay_lance(&manos));
    assert!(Lance::Punto.hay_lance(&manos));

    let manos = vec![
        Mano::try_from("R571").unwrap(),
        Mano::try_from("R571").unwrap(),
        Mano::try_from("RR11").unwrap(),
        Mano::try_from("R751").unwrap(),
    ];
    assert!(Lance::Pares.hay_lance(&manos));
    assert!(!Lance::Pares.se_juega(&manos));

    let manos = vec![
        Mano::try_from("R571").unwrap(),
        Mano::try_from("R571").unwrap(),
        Mano::try_from("R571").unwrap(),
        Mano::try_from("R751").unwrap(),
    ];
    assert!(!Lance::Pares.hay_lance(&manos));
    assert!(!Lance::Pares.se_juega(&manos));

    let manos = vec![
        Mano::try_from("RCS1").unwrap(),
        Mano::try_from("RCS1").unwrap(),
        Mano::try_from("RR11").unwrap(),
        Mano::try_from("RCS1").unwrap(),
    ];
    assert!(Lance::Juego.hay_lance(&manos));
    assert!(Lance::Juego.se_juega(&manos));

    let manos = vec![
        Mano::try_from("RCS1").unwrap(),
        Mano::try_from("R1S1").unwrap(),
        Mano::try_from("RRC1").unwrap(),
        Mano::try_from("R1S1").unwrap(),
    ];
    assert!(Lance::Juego.hay_lance(&manos));
    assert!(!Lance::Juego.se_juega(&manos));
    assert!(!Lance::Punto.hay_lance(&manos));
    assert!(!Lance::Punto.se_juega(&manos));
}

#[test]
fn test_turno_inicial() {
    let manos = vec![
        Mano::try_from("R1S1").unwrap(),
        Mano::try_from("R1S1").unwrap(),
        Mano::try_from("RRC1").unwrap(),
        Mano::try_from("RCS1").unwrap(),
    ];
    assert_eq!(Lance::Grande.turno_inicial(&manos), 0);
    assert_eq!(Lance::Chica.turno_inicial(&manos), 0);
    assert_eq!(Lance::Pares.turno_inicial(&manos), 1);
    assert_eq!(Lance::Juego.turno_inicial(&manos), 0);
}

#[test]
fn orden_jugadas() {
    assert!(Juego::Treintayuna > Juego::Resto(33));
    assert!(Juego::Treintayuna > Juego::Treintaydos);
    let p1 = Mano::try_from("1111").unwrap().pares();
    let p2 = Mano::try_from("1144").unwrap().pares();
    let p3 = Mano::try_from("4444").unwrap().pares();
    assert!(p2 > p1);
    assert!(p3 > p2);
    let p4 = Mano::try_from("CC55").unwrap().pares();
    let p5 = Mano::try_from("RRR1").unwrap().pares();
    assert!(p4 > p5);
    assert!(p4 > p2);
    assert!(p1 > p5);
}

#[test]
fn test_compara_manos1() {
    let a = Mano::try_from("355R").unwrap();
    let b = Mano::try_from("3555").unwrap();
    assert_eq!(Lance::Grande.compara_manos(&a, &b), Greater);
    assert_eq!(Lance::Chica.compara_manos(&a, &b), Less);
    assert_eq!(Lance::Pares.compara_manos(&a, &b), Greater);
    assert_eq!(Lance::Punto.compara_manos(&a, &b), Greater);
    assert_eq!(Lance::Juego.compara_manos(&a, &b), Equal);
    let manos = vec![a, b];
    assert_eq!(Lance::Chica.mejor_mano(&manos), 1);
}

#[test]
fn test_compara_manos2() {
    let a = Mano::try_from("1147").unwrap();
    let b = Mano::try_from("1247").unwrap();
    assert_eq!(Lance::Grande.compara_manos(&a, &b), Equal);
    assert_eq!(Lance::Chica.compara_manos(&a, &b), Equal);
    assert_eq!(Lance::Pares.compara_manos(&a, &b), Equal);
    assert_eq!(Lance::Punto.compara_manos(&a, &b), Equal);
    assert_eq!(Lance::Juego.compara_manos(&a, &b), Equal);
    let manos = vec![a, b];
    assert_eq!(Lance::Grande.mejor_mano(&manos), 0);
}

#[test]
fn test_compara_manos3() {
    let a = Mano::try_from("2CRR").unwrap();
    let b = Mano::try_from("SSCR").unwrap();
    assert_eq!(Lance::Grande.compara_manos(&a, &b), Greater);
    assert_eq!(Lance::Chica.compara_manos(&a, &b), Greater);
    assert_eq!(Lance::Pares.compara_manos(&a, &b), Greater);
    assert_eq!(Lance::Punto.compara_manos(&a, &b), Less);
    assert_eq!(Lance::Juego.compara_manos(&a, &b), Greater);
    let manos = vec![a, b];
    assert_eq!(Lance::Juego.mejor_mano(&manos), 0);
}

#[test]
fn en_pareja_el_orden_de_las_acciones_no_importa() {
    let manos: [Mano; 4] = [
        "R111".parse().unwrap(),
        "RRR1".parse().unwrap(),
        "RRR1".parse().unwrap(),
        "RRR1".parse().unwrap(),
    ];
    let base = EstadoLance::new(&Lance::Grande, &manos, MAX_TANTOS);
    let acciones = [Accion::Paso, Accion::Envido(2), Accion::Envido(5), Accion::Ordago];
    for a in acciones {
        for b in acciones {
            let mut e1 = base.clone();
            let mut e2 = base.clone();
            assert_eq!(e1.actuar(a), Ok(Some(Turno::Pareja(2))));
            assert_eq!(e1.ultima_apuesta(), base.ultima_apuesta());
            let r1 = e1.actuar(b);
            assert_eq!(e2.actuar(b), Ok(Some(Turno::Pareja(2))));
            let r2 = e2.actuar(a);
            assert_eq!(r1, r2);
            assert_eq!(e1.turno(), e2.turno());
            assert_eq!(e1.ultima_apuesta(), e2.ultima_apuesta());
            assert_eq!(e1.tantos_apostados(), e2.tantos_apostados());
            assert_eq!(e1.ganador(), e2.ganador());
        }
    }
}


#[test]
fn envite_subido_y_rechazado_acepta_el_primero() {
    let manos: [Mano; 2] = ["RRR1".parse().unwrap(), "R111".parse().unwrap()];
    let mut e = EstadoLance::new(&Lance::Grande, &manos, MAX_TANTOS);
    e.actuar(Accion::Envido(2)).unwrap();
    e.actuar(Accion::Envido(2)).unwrap();
    assert_eq!(e.actuar(Accion::Paso).unwrap(), None);
    assert_eq!(e.tantos_apostados(), Apuesta::Tantos(2));

    let mut e = EstadoLance::new(&Lance::Grande, &manos, MAX_TANTOS);
    e.actuar(Accion::Envido(5)).unwrap();
    assert_eq!(e.actuar(Accion::Paso).unwrap(), None);
    assert_eq!(e.tantos_apostados(), Apuesta::Tantos(1));

    let mut e = EstadoLance::new(&Lance::Grande, &manos, MAX_TANTOS);
    e.actuar(Accion::Envido(5)).unwrap();
    assert_eq!(e.actuar(Accion::Quiero).unwrap(), None);
    assert_eq!(e.tantos_apostados(), Apuesta::Tantos(5));
}

#[test]
fn resolver_dos_veces_da_el_mismo_ganador() {
    let manos: [Mano; 2] = ["RRR1".parse().unwrap(), "R111".parse().unwrap()];
    let mut e = EstadoLance::new(&Lance::Grande, &manos, MAX_TANTOS);
    let g = e.resolver_lance();
    assert_eq!(g, 0);
    assert_eq!(e.ganador(), Some(0));
    assert_eq!(e.turno(), None);
    assert_eq!(e.resolver_lance(), g);
}
