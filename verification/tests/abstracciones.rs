use musolver::mus::{Carta, Mano};
use musolver::solver::{AbstractChica, AbstractGrande, AbstractJuego, AbstractJugada, AbstractPares, AbstractPunto};

fn mano(s: &str) -> Mano {
    s.try_into().unwrap()
}

#[test]
fn test_abstract_grande() {
    assert_eq!(
        AbstractGrande::abstract_hand(&mano("RRR1")),
        AbstractJugada::AbstractGrande(AbstractGrande::TresCerdos(Carta::As))
    );
    assert_eq!(
        AbstractGrande::abstract_hand(&mano("RR11")),
        AbstractJugada::AbstractGrande(AbstractGrande::DosCerdos(Carta::As))
    );
    assert_eq!(
        AbstractGrande::abstract_hand(&mano("R111")),
        AbstractJugada::AbstractGrande(AbstractGrande::UnCerdo(Carta::As))
    );
    assert_eq!(
        AbstractGrande::abstract_hand(&mano("C411")),
        AbstractJugada::AbstractGrande(AbstractGrande::NoCerdos(Carta::Caballo))
    );
}

#[test]
fn test_abstract_chica() {
    assert_eq!(
        AbstractChica::abstract_hand(&mano("C111")),
        AbstractJugada::AbstractChica(AbstractChica::TresPitos(Carta::Caballo))
    );
    assert_eq!(
        AbstractChica::abstract_hand(&mano("CC11")),
        AbstractJugada::AbstractChica(AbstractChica::DosPitos(Carta::Caballo))
    );
    assert_eq!(
        AbstractChica::abstract_hand(&mano("CCC1")),
        AbstractJugada::AbstractChica(AbstractChica::UnPito(Carta::Caballo))
    );
    assert_eq!(
        AbstractChica::abstract_hand(&mano("CCCC")),
        AbstractJugada::AbstractChica(AbstractChica::NoPitos(Carta::Caballo))
    );
}

#[test]
fn test_abstract_pares() {
    assert_eq!(
        AbstractPares::abstract_hand(&mano("CCCC")),
        Some(AbstractJugada::AbstractPares(AbstractPares::Duples(Carta::Caballo, Carta::Caballo)))
    );
    assert_eq!(
        AbstractPares::abstract_hand(&mano("RR11")),
        Some(AbstractJugada::AbstractPares(AbstractPares::Duples(Carta::Rey, Carta::As)))
    );
}

#[test]
fn test_abstract_juego() {
    assert_eq!(
        AbstractJuego::abstract_hand(&mano("CCCC")),
        Some(AbstractJugada::AbstractJuego(AbstractJuego::Cuarenta))
    );
    assert_eq!(
        AbstractJuego::abstract_hand(&mano("RC74")),
        Some(AbstractJugada::AbstractJuego(AbstractJuego::Treintayuna2F74))
    );
}

#[test]
fn test_abstract_punto() {
    assert_eq!(
        AbstractPunto::abstract_hand(&mano("C111")),
        AbstractJugada::AbstractPunto(AbstractPunto::Punto(13))
    );
}
