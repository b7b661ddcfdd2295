use musolver::mus::{Baraja, Carta, DistribucionCartaIter};

fn cuenta(cartas: &[Carta]) -> Vec<usize> {
    Carta::CARTAS
        .iter()
        .map(|c| cartas.iter().filter(|x| x.to_char() == c.to_char()).count())
        .collect()
}

#[test]
fn barajar_cambia_el_orden_y_conserva_las_cartas() {
    let mut baraja = Baraja::new();
    for (c, n) in Baraja::FREC_BARAJA_MUS {
        for _ in 0..n {
            baraja.insertar(c);
        }
    }
    let inicial = baraja.primeras_n_cartas(40);
    assert_eq!(inicial.len(), 40);
    let mut alguna_distinta = false;
    for _ in 0..5 {
        baraja.barajar();
        let barajadas = baraja.primeras_n_cartas(40);
        assert_eq!(cuenta(&barajadas), cuenta(&inicial));
        alguna_distinta |= barajadas != inicial;
    }
    assert!(alguna_distinta);
}

#[test]
fn baraja_de_mus_tiene_cuarenta_cartas() {
    let baraja = Baraja::baraja_mus();
    let cartas = baraja.primeras_n_cartas(40);
    let mut esperado = vec![0usize; 10];
    for (c, n) in Baraja::FREC_BARAJA_MUS {
        let i = Carta::CARTAS.iter().position(|x| x.to_char() == c.to_char()).unwrap();
        esperado[i] = n as usize;
    }
    assert_eq!(cuenta(&cartas), esperado);
}

#[test]
fn total_de_manos_es_el_numero_combinatorio() {
    // Hay C(40, 4) = 91390 maneras de repartir cuatro cartas de la baraja de mus.
    let mut it = DistribucionCartaIter::<4, 8>::new(Baraja::FREC_BARAJA_MUS);
    let (_, _, total) = it.next().unwrap();
    assert_eq!(total, 91390);
    let mut suma = 0;
    let mut it = DistribucionCartaIter::<4, 8>::new(Baraja::FREC_BARAJA_MUS);
    while let Some((_, casos, _)) = it.next() {
        suma += casos;
    }
    assert_eq!(suma, 91390);
}
