use musolver::mus::{
    probabilidad_dos_manos, probabilidad_mano, Baraja, Carta, DistribucionCartaIter,
    DistribucionDobleCartaIter, RepartoMusDosJugadoresIter, RepartoMusIter,
};

fn cuenta<const N: usize, const M: usize>(mut it: DistribucionDobleCartaIter<N, M>) -> usize {
    let mut n = 0;
    while it.next().is_some() {
        n += 1;
    }
    n
}

#[test]
fn test_double_dist_iterator() {
    let cartas = [
        (Carta::As, 1),
        (Carta::Dos, 1),
        (Carta::Tres, 1),
        (Carta::Cuatro, 1),
    ];
    let it = DistribucionDobleCartaIter::<2, 4>::new(cartas);
    assert_eq!(cuenta(it), 6);

    let cartas = [(Carta::As, 2), (Carta::Cuatro, 2)];
    let it = DistribucionDobleCartaIter::<2, 2>::new(cartas);
    assert_eq!(cuenta(it), 3);
    let mut it = DistribucionDobleCartaIter::<2, 2>::new(cartas);
    let (mano1, mano2, casos, total) = it.next().unwrap();
    assert_eq!(mano1, vec![Carta::As, Carta::As]);
    assert_eq!(mano2, vec![Carta::Cuatro, Carta::Cuatro]);
    assert_eq!(casos as f64 / total as f64, 1. / 6.);
}

#[test]
fn test_current_frequencies() {
    let cartas = [(Carta::As, 2), (Carta::Cuatro, 2)];
    let mut it = DistribucionDobleCartaIter::<2, 2>::new(cartas);
    it.next();
    assert_eq!(it.current_frequencies(), &[0, 0]);
}

#[test]
fn test_repartos_mus() {
    let mut reparto = RepartoMusDosJugadoresIter::new();
    let len = reparto.len();
    let mut count = 0;
    let mut total_probability = 0.;
    while let Some((_, _, casos, total, _)) = reparto.next() {
        count += 1;
        total_probability += casos as f64 / total as f64;
    }
    assert_eq!(len, count);
    assert_eq!(len, 104_820);
    assert!((total_probability - 1.).abs() < 1e-9);
}

#[test]
fn repartos_dobles_dejan_las_cartas_restantes() {
    let mut reparto = RepartoMusDosJugadoresIter::new();
    let (mano1, mano2, casos, total, dist) = reparto.next().unwrap();
    assert_eq!(mano1.len(), 4);
    assert_eq!(mano2.len(), 4);
    assert!(casos > 0 && casos <= total);
    // C(40, 4) * C(36, 4) maneras de repartir dos manos de cuatro cartas.
    assert_eq!(total, 91_390 * 58_905);
    let quedan: u32 = dist.iter().map(|(_, n)| *n as u32).sum();
    assert_eq!(quedan, 32);
    for (c, n) in Baraja::FREC_BARAJA_MUS {
        let usadas = mano1.iter().chain(mano2.iter()).filter(|x| x.valor() == c.valor()).count() as u8;
        let restante = dist.iter().find(|(d, _)| d.to_char() == c.to_char()).unwrap().1;
        assert_eq!(restante + usadas, n);
    }
    assert_eq!(reparto.len(), 104_819);
}

#[test]
fn repartos_de_cuatro_manos() {
    let mut it = RepartoMusIter::new();
    let mut anterior: Option<Vec<Vec<Carta>>> = None;
    let mut suma_segundas = 0.;
    for _ in 0..2000 {
        let ((m1, m2, c1, t1), (m3, m4, c2, t2), dist) = it.next().unwrap();
        for m in [&m1, &m2, &m3, &m4] {
            assert_eq!(m.len(), 4);
        }
        assert_eq!(t1, 91_390 * 58_905);
        assert_eq!(t2, 35_960 * 20_475);
        assert!(c1 > 0 && c2 > 0);
        let quedan: u32 = dist.iter().map(|(_, n)| *n as u32).sum();
        assert_eq!(quedan, 24);
        for (c, n) in Baraja::FREC_BARAJA_MUS {
            let usadas = [&m1, &m2, &m3, &m4]
                .iter()
                .flat_map(|m| m.iter())
                .filter(|x| x.valor() == c.valor())
                .count() as u8;
            let restante = dist.iter().find(|(d, _)| d.to_char() == c.to_char()).unwrap().1;
            assert_eq!(restante + usadas, n);
        }
        let actual = vec![m1.clone(), m2.clone(), m3.clone(), m4.clone()];
        assert_ne!(anterior.as_ref(), Some(&actual));
        anterior = Some(actual);
        suma_segundas += c2 as f64 / t2 as f64;
    }
    assert!(suma_segundas > 0. && suma_segundas <= 1. + 1e-9);
}

/// La forma cerrada tiene que dar exactamente lo mismo que el iterador para todas las manos.
#[test]
fn probabilidad_mano_coincide_con_el_iterador() {
    let mut manos = 0;
    let mut it = DistribucionCartaIter::<4, 8>::new(Baraja::FREC_BARAJA_MUS);
    while let Some((cartas, casos, total)) = it.next() {
        let prior = casos as f64 / total as f64;
        let (c, t) = probabilidad_mano(Baraja::FREC_BARAJA_MUS, &cartas);
        let cerrada = c as f64 / t as f64;
        assert!((cerrada - prior).abs() < 1e-12, "{cartas:?}: {cerrada} != {prior}");
        manos += 1;
    }
    assert!(manos > 300);
}

#[test]
fn probabilidad_dos_manos_coincide_con_el_iterador() {
    let mut pares = 0;
    let mut it = DistribucionDobleCartaIter::<4, 8>::new(Baraja::FREC_BARAJA_MUS);
    while let Some((cartas1, cartas2, casos, total)) = it.next() {
        let prior = casos as f64 / total as f64;
        let (c, t) = probabilidad_dos_manos(Baraja::FREC_BARAJA_MUS, &cartas1, &cartas2);
        let cerrada = c as f64 / t as f64;
        assert!(
            (cerrada - prior).abs() < 1e-12,
            "{cartas1:?} {cartas2:?}: {cerrada} != {prior}"
        );
        pares += 1;
    }
    assert!(pares > 1000);
}

/// Una mano que no cabe en la baraja tiene probabilidad cero.
#[test]
fn probabilidad_de_una_mano_imposible_es_cero() {
    // Solo hay cuatro Sotas.
    let cinco_sotas = [Carta::Sota; 5];
    let (c, t) = probabilidad_mano(Baraja::FREC_BARAJA_MUS, &cinco_sotas);
    assert_eq!(c as f64 / t as f64, 0.);
    // Ocho Reyes en total: dos manos de cuatro son posibles, tres no.
    let reyes = [Carta::Rey; 4];
    let (c, t) = probabilidad_dos_manos(Baraja::FREC_BARAJA_MUS, &reyes, &reyes);
    assert!(c as f64 / t as f64 > 0.);
    let sotas = [Carta::Sota; 4];
    let (c, t) = probabilidad_dos_manos(Baraja::FREC_BARAJA_MUS, &sotas, &sotas);
    assert_eq!(c as f64 / t as f64, 0.);
}

#[test]
fn probabilidad_de_una_mano_concreta() {
    // Cuatro reyes de ocho: C(8, 4) = 70 de C(40, 4) = 91390 maneras.
    assert_eq!(probabilidad_mano(Baraja::FREC_BARAJA_MUS, &[Carta::Rey; 4]), (70, 91_390));
    // Los treses cuentan como reyes.
    assert_eq!(
        probabilidad_mano(Baraja::FREC_BARAJA_MUS, &[Carta::Tres, Carta::Rey, Carta::Rey, Carta::Rey]),
        (70, 91_390)
    );
    // Una carta que no está en la distribución.
    assert_eq!(probabilidad_mano([(Carta::As, 4)], &[Carta::Sota]), (0, 1));
}

#[test]
fn probabilidad_con_sesenta_y_siete_cartas() {
    let cartas = [(Carta::Rey, 60u8), (Carta::As, 7u8)];
    assert_eq!(probabilidad_mano(cartas, &[Carta::Rey; 4]), (487_635, 766_480));
    let cartas = [(Carta::Rey, 34u8), (Carta::As, 33u8)];
    assert_eq!(
        probabilidad_mano(cartas, &[Carta::Rey, Carta::Rey, Carta::As, Carta::As]),
        (296_208, 766_480)
    );
}
