use musolver::mus::{Baraja, Carta, CartaIter, DistribucionCartaIter, Mano};

#[test]
fn comparar_valor() {
    assert_eq!(Carta::As, Carta::Dos);
    assert_eq!(Carta::Tres, Carta::Rey);
    assert!(Carta::Caballo < Carta::Tres);
}

#[test]
fn try_from_char() {
    let chars = ['A', '1', '2', '3', '4', '5', '6', '7', 'S', 'C', 'R'];
    for c in chars {
        assert!(Carta::try_from(c).is_ok());
    }
    assert!(Carta::try_from('8').is_err());
}

#[test]
fn test_display() {
    let m = Mano::new([Carta::Caballo, Carta::Tres, Carta::Dos, Carta::Siete]);
    assert_eq!(m.to_string(), "3C72");
}

#[test]
fn test_codigo() {
    let m = Mano::new([Carta::As, Carta::As, Carta::As, Carta::Tres]);
    assert_eq!(m.valor_grande(), 201392385);
    assert_eq!(m.valor_chica(), 16843020);
}

#[test]
fn test_descartar() {
    let mut baraja = Baraja::new();
    let mut mano = Mano::new([Carta::As, Carta::As, Carta::As, Carta::Tres]);
    baraja.descartar(&mut mano, [true, true, true, true]);
    assert_eq!(mano.to_string(), "3111");

    baraja.insertar(Carta::Caballo);
    baraja.descartar(&mut mano, [false, false, true, true]);
    assert_eq!(mano.to_string(), "3C11");
}

fn cuenta_cartas(mut it: CartaIter) -> usize {
    let mut n = 0;
    while it.next().is_some() {
        n += 1;
    }
    n
}

fn cuenta_distribucion<const N: usize, const M: usize>(mut it: DistribucionCartaIter<N, M>) -> usize {
    let mut n = 0;
    while it.next().is_some() {
        n += 1;
    }
    n
}

#[test]
fn test_iterator() {
    let cartas = [Carta::As, Carta::Cuatro, Carta::Cinco, Carta::Seis];
    let it = CartaIter::new(&cartas, 2);
    assert_eq!(cuenta_cartas(it), 10);

    let cartas = [
        Carta::As,
        Carta::Cuatro,
        Carta::Cinco,
        Carta::Seis,
        Carta::Siete,
        Carta::Sota,
        Carta::Caballo,
        Carta::Rey,
    ];
    let it = CartaIter::new(&cartas, 4);
    assert_eq!(cuenta_cartas(it), 330);
}

#[test]
fn test_dist_iterator() {
    let cartas = [
        (Carta::As, 1),
        (Carta::Dos, 1),
        (Carta::Tres, 1),
        (Carta::Cuatro, 1),
    ];
    let it = DistribucionCartaIter::<4, 4>::new(cartas);
    assert_eq!(cuenta_distribucion(it), 1);

    let cartas = [(Carta::As, 2), (Carta::Cuatro, 1)];
    let it = DistribucionCartaIter::<2, 2>::new(cartas);
    assert_eq!(cuenta_distribucion(it), 2);
    let mut it = DistribucionCartaIter::<2, 2>::new(cartas);
    let (mano, casos, total) = it.next().unwrap();
    assert_eq!(mano, vec![Carta::As, Carta::As]);
    assert_eq!(casos as f64 / total as f64, 1. / 3.);
    let (mano, casos, total) = it.next().unwrap();
    assert_eq!(mano, vec![Carta::As, Carta::Cuatro]);
    assert_eq!(casos as f64 / total as f64, 2. / 3.);
}

#[test]
fn repartir_baraja_vacia_no_devuelve_carta() {
    let mut baraja = Baraja::new();
    assert_eq!(baraja.repartir(), None);
    assert_eq!(baraja.repartir(), None);
    assert!(baraja.primeras_n_cartas(0).is_empty());
    baraja.insertar(Carta::Sota);
    baraja.insertar(Carta::As);
    assert_eq!(baraja.repartir(), Some(Carta::Sota));
    assert_eq!(baraja.primeras_n_cartas(1), vec![Carta::As]);
}

#[test]
fn distribucion_de_cien_cartas() {
    let cartas = [(Carta::Rey, 50), (Carta::As, 50)];
    let mut it = DistribucionCartaIter::<2, 2>::new(cartas);
    assert_eq!(it.next().unwrap(), (vec![Carta::Rey, Carta::Rey], 1225, 4950));
    assert_eq!(it.next().unwrap(), (vec![Carta::Rey, Carta::As], 2500, 4950));
    assert_eq!(it.next().unwrap(), (vec![Carta::As, Carta::As], 1225, 4950));
    assert!(it.next().is_none());
}
