use arrayvec::ArrayVec;
use vstd::prelude::*;

use crate::colecciones::{acciones_de, acciones_get, acciones_len, acciones_push, acciones_vacias, cartas_de, cartas_slice};
use crate::game::NodeType;
use crate::mus::{Accion, Apuesta, Baraja, Carta, baraja_mus_completa, descarte_de_baraja, mano_ordenada_de, CuatroJugadores, DosJugadores, FasePartida, Lance, Mano, ModeloBaraja, ModeloMus, ModeloPartida, PartidaMus, SubfaseMus, Turno, descartadas_de, jugador_de, manos_completas, manos_de_partida, vistas};

use super::{MusInfoSetBuilder, MusInfoSetTables, VistaConstructor, acciones_envite_spec, actions_envite, con_descartes, con_jugada, con_lance, con_mano, con_nodo, con_oculta, con_paso_lance, con_paso_mus, no_menores, paso_lance_valido, paso_mus_valido, retener_no_menores};

verus! {

/// Máximo de rondas de la fase de mus en los juegos de partida completa.
pub const MAX_RONDAS_MUS: u8 = 1;

/// De dónde salen las cartas de los descartes: una baraja de verdad, o las frecuencias de las
/// cartas que quedan cuando se recorren todos los repartos posibles.
#[derive(Debug)]
pub enum CardSource {
    Baraja(Baraja),
    Iterable([(Carta, u8); 8]),
}

/// Contenido de un origen de cartas.
pub enum VistaCartas {
    Baraja(ModeloBaraja),
    Iterable([(Carta, u8); 8]),
}

impl View for CardSource {
    type V = VistaCartas;

    open spec fn view(&self) -> VistaCartas {
        match self {
            CardSource::Baraja(b) => VistaCartas::Baraja(b@),
            CardSource::Iterable(d) => VistaCartas::Iterable(*d),
        }
    }
}

impl Clone for CardSource {
    fn clone(&self) -> (r: Self)
        ensures
            r@ == self@,
    {
        match self {
            CardSource::Baraja(b) => CardSource::Baraja(b.clone()),
            CardSource::Iterable(d) => CardSource::Iterable(*d),
        }
    }
}

/// Origen de cartas con a lo sumo una baraja de cuarenta cartas.
pub open spec fn cartas_acotadas(c: Option<VistaCartas>) -> bool {
    c matches Some(VistaCartas::Baraja(b)) ==> b.cartas.len() <= 40
}

/// Estado de un juego de partida completa.
pub struct VistaJuegoMus {
    pub tantos: [u8; 2],
    pub cards: Option<VistaCartas>,
    pub partida: Option<ModeloPartida>,
    pub mus_rounds: u8,
    pub max_mus_rounds: u8,
    pub abstract_game: bool,
    pub constructor: VistaConstructor,
    /// Última acción, con la que se restringe la del compañero del primero de una pareja.
    pub last_action: Option<Accion>,
}

/// Juego sin repartir.
pub open spec fn juego_inicial(tantos: [u8; 2], abstract_game: bool, max_mus_rounds: u8) -> VistaJuegoMus {
    VistaJuegoMus {
        tantos,
        cards: None,
        partida: None,
        mus_rounds: 0,
        max_mus_rounds,
        abstract_game,
        constructor: VistaConstructor {
            public_history: 0,
            private_history: seq![0u64, 0u64, 0u64, 0u64],
            current_lance: None,
            current_node: 0,
        },
        last_action: None,
    }
}

/// Constructor con los códigos de las manos de la 0 a la `n - 1` en el lance.
pub open spec fn con_codigos_hasta(b: VistaConstructor, t: MusInfoSetTables, manos: Seq<Seq<Carta>>, l: Lance, n: int) -> VistaConstructor
    decreases n,
{
    if n <= 0 {
        b
    } else {
        con_mano(con_codigos_hasta(b, t, manos, l, n - 1), t, n - 1, manos[n - 1], l)
    }
}

/// Constructor con los códigos de todas las manos en el lance.
pub open spec fn con_codigos_manos(b: VistaConstructor, t: MusInfoSetTables, manos: Seq<Seq<Carta>>, l: Lance) -> VistaConstructor {
    con_codigos_hasta(b, t, manos, l, manos.len() as int)
}

/// Partida tras la acción: si no es válida, la partida no cambia.
pub open spec fn partida_tras(p: ModeloPartida, a: Accion) -> ModeloPartida {
    match p.paso(a) {
        Ok((p2, _)) => p2,
        Err(_) => p,
    }
}

/// Cartas del descarte pendiente.
pub open spec fn descarte_pendiente(p: ModeloPartida) -> Seq<Carta> {
    match p {
        ModeloPartida::Mus(m) => match m.sub_fase {
            SubfaseMus::DescartePendiente { jugador, descarte } => descartadas_de(
                m.manos[jugador as int],
                descarte,
                4,
            ),
            _ => Seq::empty(),
        },
        _ => Seq::empty(),
    }
}

/// Constructor tras el cambio de fase de la partida, de `fase` a la de `p`: al pasar del mus a
/// los descartes empieza el historial de descartes; al volver al mus, el de mus; al descartar un
/// jugador se escriben sus descartes; al empezar un lance, su historial y los códigos de las
/// manos en él; y en los lances siguientes, además, qué manos tienen jugada.
pub open spec fn tras_cambio_fase(b: VistaConstructor, t: MusInfoSetTables, fase: Option<FasePartida>, p: ModeloPartida, jugador: int) -> VistaConstructor {
    match (fase, p.fase()) {
        (Some(FasePartida::Mus), Some(FasePartida::Descartes)) => con_nodo(b, 1),
        (Some(FasePartida::Descartes), Some(FasePartida::Mus)) => con_nodo(b, 0),
        (Some(FasePartida::Descartes), Some(FasePartida::DescartePendiente)) => con_descartes(
            b,
            t,
            jugador,
            descarte_pendiente(p),
        ),
        (Some(FasePartida::Mus), Some(FasePartida::Envites(l))) => con_codigos_manos(
            con_lance(b, l),
            t,
            p.manos(),
            l,
        ),
        (Some(FasePartida::Envites(l1)), Some(FasePartida::Envites(l2))) => if l1 != l2 {
            con_jugada(con_codigos_manos(con_lance(b, l2), t, p.manos(), l2), t, l2, p.manos())
        } else {
            b
        },
        _ => b,
    }
}

/// Rondas de mus tras el cambio de fase: una más al pasar del mus a los descartes.
pub open spec fn rondas_tras(fase: Option<FasePartida>, p: ModeloPartida, r: u8) -> u8 {
    if fase == Some(FasePartida::Mus) && p.fase() == Some(FasePartida::Descartes) {
        (r + 1) as u8
    } else {
        r
    }
}

/// El cambio de fase se puede escribir: el historial de descartes tiene sitio y las rondas no se
/// desbordan.
pub open spec fn cambio_valido(b: VistaConstructor, fase: Option<FasePartida>, p: ModeloPartida, r: u8) -> bool {
    &&& (fase == Some(FasePartida::Descartes) && p.fase() == Some(FasePartida::DescartePendiente))
        ==> b.current_node < 128
    &&& (fase == Some(FasePartida::Mus) && p.fase() == Some(FasePartida::Descartes)) ==> r < 255
}

/// Juego tras agotar las rondas de mus: si se han jugado todas y la partida está en la fase de
/// mus, se corta el mus y, si empieza un lance, se abre su historial con las manos.
pub open spec fn forzar_fin_mus(v: VistaJuegoMus, t: MusInfoSetTables) -> VistaJuegoMus {
    let p = v.partida.unwrap();
    if v.mus_rounds < v.max_mus_rounds || p.fase() != Some(FasePartida::Mus) {
        v
    } else {
        let p2 = partida_tras(p, Accion::NoMus);
        match p2.fase() {
            Some(FasePartida::Envites(l)) => VistaJuegoMus {
                partida: Some(p2),
                constructor: con_codigos_manos(con_lance(v.constructor, l), t, p2.manos(), l),
                ..v
            },
            _ => VistaJuegoMus { partida: Some(p2), ..v },
        }
    }
}

/// Juego repartido con las manos: la partida empieza en el mus, se escriben las manos para la
/// grande y se fuerza el fin del mus si no hay rondas.
pub open spec fn con_reparto(v: VistaJuegoMus, t: MusInfoSetTables, manos: Seq<Seq<Carta>>) -> VistaJuegoMus {
    forzar_fin_mus(
        VistaJuegoMus {
            partida: Some(ModeloPartida::Mus(ModeloMus::inicial(manos, v.tantos))),
            constructor: con_nodo(con_codigos_manos(v.constructor, t, manos, Lance::Grande), 0),
            ..v
        },
        t,
    )
}

/// Manos repartidas de una baraja de mus completa barajada, cuatro cartas a cada una y en orden,
/// y la baraja `c` con las cartas que quedan detrás de ellas.
pub open spec fn repartida_de_baraja(manos: Seq<Seq<Carta>>, c: ModeloBaraja) -> bool {
    exists|d: Seq<Carta>|
        {
            &&& baraja_mus_completa(d)
            &&& forall|i: int|
                0 <= i < manos.len() ==> mano_ordenada_de(
                    #[trigger] manos[i],
                    d.subrange(4 * i, 4 * i + 4),
                )
            &&& c.cartas == d.skip(4 * manos.len() as int)
            &&& c.pendientes == 24
        }
}

/// Juego tras cambiar el descarte pendiente por las cartas nuevas, que dejan la partida en
/// `m2`, y tomar las siguientes de `c`.
pub open spec fn con_cartas_nuevas(v: VistaJuegoMus, t: MusInfoSetTables, m2: ModeloMus, c: VistaCartas) -> VistaJuegoMus {
    forzar_fin_mus(
        VistaJuegoMus {
            partida: Some(ModeloPartida::Mus(m2)),
            constructor: con_codigos_manos(v.constructor, t, m2.manos, Lance::Grande),
            cards: Some(c),
            ..v
        },
        t,
    )
}

/// Máscara de descarte de código `c`: el bit `i` de `c` marca la carta `i` de la mano.
pub open spec fn mascara(c: int) -> [bool; 4] {
    [c % 2 == 1, (c / 2) % 2 == 1, (c / 4) % 2 == 1, (c / 8) % 2 == 1]
}

/// La máscara de código `c` marca, entre cartas de igual valor en la mano, solo las primeras: si descarta
/// la carta `j` y una carta anterior `i` vale lo mismo, también descarta la `i`. Cada forma de
/// descartar unas cartas concretas tiene así una sola máscara.
pub open spec fn descarte_canonico(m: Seq<Carta>, c: int) -> bool {
    let d0 = c % 2 == 1;
    let d1 = (c / 2) % 2 == 1;
    let d2 = (c / 4) % 2 == 1;
    let d3 = (c / 8) % 2 == 1;
    &&& (m[0].valor_spec() == m[1].valor_spec() && d1 ==> d0)
    &&& (m[0].valor_spec() == m[2].valor_spec() && d2 ==> d0)
    &&& (m[0].valor_spec() == m[3].valor_spec() && d3 ==> d0)
    &&& (m[1].valor_spec() == m[2].valor_spec() && d2 ==> d1)
    &&& (m[1].valor_spec() == m[3].valor_spec() && d3 ==> d1)
    &&& (m[2].valor_spec() == m[3].valor_spec() && d3 ==> d2)
}

/// Descartes de la mano `m` con código menor que `n`, en orden de código, empezando por el 1:
/// cada máscara no vacía que marca primero las cartas iguales anteriores.
pub open spec fn descartes_hasta(m: Seq<Carta>, n: nat) -> Seq<Accion>
    decreases n,
{
    if n <= 1 {
        Seq::empty()
    } else {
        let previos = descartes_hasta(m, (n - 1) as nat);
        if descarte_canonico(m, n - 1) {
            previos.push(Accion::Descartar(mascara(n - 1)))
        } else {
            previos
        }
    }
}

/// Descartes posibles con la mano `m`: todas las máscaras no vacías, una por cada forma de elegir
/// las cartas que se descartan.
pub open spec fn descartes_legales(m: Seq<Carta>) -> Seq<Accion> {
    descartes_hasta(m, 16)
}

/// Envites que no llegan a la apuesta máxima.
pub open spec fn sin_desbordar(l: Seq<Accion>, ultimo: Apuesta, maxima: u8) -> Seq<Accion> {
    l.filter(
        |a: Accion|
            match (ultimo, a) {
                (Apuesta::Tantos(t), Accion::Envido(v)) => t + v < maxima,
                _ => true,
            },
    )
}

/// Acciones de la partida según su fase: pedir mus o cortar; los descartes posibles con la mano
/// del jugador; o los envites ante la última apuesta que no llegan a la máxima.
pub open spec fn acciones_partida(p: ModeloPartida) -> Seq<Accion> {
    match p.fase() {
        Some(FasePartida::Mus) => seq![Accion::Mus, Accion::NoMus],
        Some(FasePartida::Descartes) => descartes_legales(
            p.manos()[jugador_de(p.turno().unwrap()) as int],
        ),
        Some(FasePartida::Envites(_)) => match p {
            ModeloPartida::Envites(e) => {
                let es = e.estado.unwrap();
                sin_desbordar(
                    acciones_envite_spec(es.ultima_apuesta_spec(), es.apuesta_maxima_spec()),
                    es.ultima_apuesta_spec(),
                    es.apuesta_maxima_spec(),
                )
            },
            _ => Seq::empty(),
        },
        _ => Seq::empty(),
    }
}

/// Acciones posibles en la partida.
fn actions<T>(partida: &PartidaMus<T>) -> (r: ArrayVec<Accion, 15>)
    requires
        partida@.fase() is Some,
    ensures
        acciones_de(r) == acciones_partida(partida@),
{
    let mut r = acciones_vacias();
    match partida.fase() {
        Some(FasePartida::Mus) => {
            acciones_push(&mut r, Accion::Mus);
            acciones_push(&mut r, Accion::NoMus);
            proof {
                assert(acciones_de(r) =~= seq![Accion::Mus, Accion::NoMus]);
            }
        },
        Some(FasePartida::Descartes) => {
            let turno = partida.turno().unwrap().player_id() as usize;
            let manos = partida.manos();
            let mano = manos[turno].cartas();
            proof {
                assert(vistas(manos@)[turno as int] == manos@[turno as int]@);
            }
            let ghost m = partida@.manos()[turno as int];
            proof {
                assert(mano@ == m);
            }
            let mut c: u8 = 1;
            while c < 16
                invariant
                    1 <= c <= 16,
                    mano@ == m,
                    m.len() == 4,
                    acciones_de(r) == descartes_hasta(m, c as nat),
                    acciones_de(r).len() < c,
                decreases 16 - c,
            {
                let d0 = c % 2 == 1;
                let d1 = (c / 2) % 2 == 1;
                let d2 = (c / 4) % 2 == 1;
                let d3 = (c / 8) % 2 == 1;
                let canonica = (!(mano[0] == mano[1] && d1) || d0) && (!(mano[0] == mano[2] && d2)
                    || d0) && (!(mano[0] == mano[3] && d3) || d0) && (!(mano[1] == mano[2] && d2)
                    || d1) && (!(mano[1] == mano[3] && d3) || d1) && (!(mano[2] == mano[3] && d3)
                    || d2);
                proof {
                    assert(canonica == descarte_canonico(m, c as int));
                    assert([d0, d1, d2, d3] == mascara(c as int));
                }
                if canonica {
                    acciones_push(&mut r, Accion::Descartar([d0, d1, d2, d3]));
                }
                c = c + 1;
            }
            proof {
                assert(acciones_de(r) == acciones_partida(partida@));
            }
        },
        Some(FasePartida::Envites(_)) => {
            let fase_envites = partida.fase_envites().unwrap();
            let ultimo_envite = fase_envites.ultima_apuesta();
            let apuesta_maxima = fase_envites.apuesta_maxima();
            let todas = actions_envite(ultimo_envite, apuesta_maxima);
            let n = acciones_len(&todas);
            let ghost l = acciones_de(todas);
            for i in 0..n
                invariant
                    n == l.len(),
                    l == acciones_de(todas),
                    acciones_de(r) == sin_desbordar(l.take(i as int), ultimo_envite, apuesta_maxima),
                    acciones_de(r).len() <= i,
                    n <= 15,
            {
                let a = acciones_get(&todas, i);
                proof {
                    assert(l.take(i + 1).drop_last() =~= l.take(i as int));
                    assert(l.take(i + 1).last() == a);
                }
                let cabe = match (ultimo_envite, a) {
                    (Apuesta::Tantos(t), Accion::Envido(v)) => (t as u16) + (v as u16) < (
                    apuesta_maxima as u16),
                    _ => true,
                };
                if cabe {
                    acciones_push(&mut r, a);
                }
                proof {
                    reveal(Seq::filter);
                    assert(acciones_de(r) =~= sin_desbordar(
                        l.take(i + 1),
                        ultimo_envite,
                        apuesta_maxima,
                    ));
                }
            }
            proof {
                assert(l.take(n as int) =~= l);
            }
        },
        _ => {},
    }
    r
}

/// Escribe en el constructor los códigos de las manos de la partida para el lance.
fn update_hands<T>(partida: &PartidaMus<T>, b: &mut MusInfoSetBuilder, lance: Lance)
    ensures
        final(b)@ == con_codigos_manos(old(b)@, old(b).tablas(), partida@.manos(), lance),
        final(b).tablas() == old(b).tablas(),
{
    let manos = partida.manos();
    for i in 0..manos.len()
        invariant
            vistas(manos@) == partida@.manos(),
            manos_de_partida(partida@.manos()),
            b@ == con_codigos_hasta(old(b)@, old(b).tablas(), partida@.manos(), lance, i as int),
            b.tablas() == old(b).tablas(),
    {
        proof {
            assert(vistas(manos@)[i as int] == manos@[i as int]@);
        }
        b.set_hand(i, &manos[i], &lance);
    }
}

/// Fuerza el fin del mus cuando se han jugado todas las rondas: ver [`forzar_fin_mus`].
fn enforce_max_mus_rounds<T>(partida: &mut PartidaMus<T>, b: &mut MusInfoSetBuilder, mus_rounds: u8, max_mus_rounds: u8)
    ensures
        ({
            let v = VistaJuegoMus {
                tantos: [0u8, 0u8],
                cards: None,
                partida: Some(old(partida)@),
                mus_rounds,
                max_mus_rounds,
                abstract_game: false,
                constructor: old(b)@,
                last_action: None,
            };
            let w = forzar_fin_mus(v, old(b).tablas());
            w.partida == Some(final(partida)@) && w.constructor == final(b)@
        }),
        final(b).tablas() == old(b).tablas(),
{
    if mus_rounds < max_mus_rounds {
        return;
    }
    if partida.fase() != Some(FasePartida::Mus) {
        return;
    }
    let _ = partida.actuar(Accion::NoMus);
    match partida.fase() {
        Some(FasePartida::Envites(lance)) => {
            b.begin_lance(&lance);
            update_hands(partida, b, lance);
        },
        _ => {},
    }
}

/// Escribe en el constructor el cambio de fase de la partida tras la acción del jugador: ver
/// [`tras_cambio_fase`]. Devuelve las rondas de mus tras el cambio.
fn registrar_cambio_fase<T>(partida: &PartidaMus<T>, b: &mut MusInfoSetBuilder, fase: Option<FasePartida>, jugador: usize, mus_rounds: u8) -> (r: u8)
    requires
        cambio_valido(old(b)@, fase, partida@, mus_rounds),
        jugador < 4,
    ensures
        final(b)@ == tras_cambio_fase(old(b)@, old(b).tablas(), fase, partida@, jugador as int),
        final(b).tablas() == old(b).tablas(),
        r == rondas_tras(fase, partida@, mus_rounds),
{
    let nueva = partida.fase();
    match (fase, nueva) {
        (Some(FasePartida::Mus), Some(FasePartida::Descartes)) => {
            b.begin_descartes();
            mus_rounds + 1
        },
        (Some(FasePartida::Descartes), Some(FasePartida::Mus)) => {
            b.begin_mus();
            mus_rounds
        },
        (Some(FasePartida::Descartes), Some(FasePartida::DescartePendiente)) => {
            let descartes = partida.descartadas().unwrap();
            let d = cartas_slice(&descartes);
            b.set_descartes(jugador, d);
            mus_rounds
        },
        (Some(FasePartida::Mus), Some(FasePartida::Envites(lance))) => {
            b.begin_lance(&lance);
            update_hands(partida, b, lance);
            mus_rounds
        },
        (Some(FasePartida::Envites(previo)), Some(FasePartida::Envites(siguiente))) => {
            if previo != siguiente {
                b.begin_lance(&siguiente);
                update_hands(partida, b, siguiente);
                let manos = partida.manos();
                b.set_jugada(&siguiente, manos);
            }
            mus_rounds
        },
        _ => mus_rounds,
    }
}


/// Constructor tras escribir la acción de un jugador que habla solo: avanza el historial de la
/// fase en que actuó.
pub open spec fn registro_individual(b: VistaConstructor, t: MusInfoSetTables, fase: Option<FasePartida>, a: Accion) -> VistaConstructor {
    match fase {
        Some(FasePartida::Mus) => con_paso_mus(b, t, a),
        Some(FasePartida::Envites(_)) => con_paso_lance(b, t, a),
        _ => b,
    }
}

/// La acción de un jugador que habla solo se puede escribir en el historial de su fase.
pub open spec fn registro_individual_valido(b: VistaConstructor, t: MusInfoSetTables, fase: Option<FasePartida>, a: Accion) -> bool {
    match fase {
        Some(FasePartida::Mus) => paso_mus_valido(b, t, a),
        Some(FasePartida::Envites(_)) => paso_lance_valido(b, t, a),
        _ => true,
    }
}

/// Hay partida con turno, la acción no desborda los tantos y se puede escribir, junto con el
/// cambio de fase, en el conjunto de información.
pub open spec fn accion_valida_dos(v: VistaJuegoMus, t: MusInfoSetTables, a: Accion) -> bool {
    &&& v.partida matches Some(p)
    &&& p.turno() is Some
    &&& jugador_de(p.turno().unwrap()) < 4
    &&& p.admite(a)
    &&& registro_individual_valido(v.constructor, t, p.fase(), a)
    &&& cambio_valido(
        registro_individual(v.constructor, t, p.fase(), a),
        p.fase(),
        partida_tras(p, a),
        v.mus_rounds,
    )
}

/// Juego de dos jugadores tras la acción: la partida avanza, el constructor escribe la acción y
/// el cambio de fase, y se cuentan las rondas de mus.
pub open spec fn tras_accion_dos(v: VistaJuegoMus, t: MusInfoSetTables, a: Accion) -> VistaJuegoMus {
    let p = v.partida.unwrap();
    let fase = p.fase();
    let p2 = partida_tras(p, a);
    VistaJuegoMus {
        partida: Some(p2),
        constructor: tras_cambio_fase(
            registro_individual(v.constructor, t, fase, a),
            t,
            fase,
            p2,
            jugador_de(p.turno().unwrap()) as int,
        ),
        mus_rounds: rondas_tras(fase, p2, v.mus_rounds),
        ..v
    }
}

/// Tipo de nodo de una partida completa: de azar antes de repartir y con un descarte
/// pendiente, terminal cuando acaba, y si no, del jugador que tiene el turno con sus acciones.
/// Con dos jugadores por bando, `por_parejas` numera a los jugadores por su pareja.
pub open spec fn nodo_partida(v: VistaJuegoMus, num_acciones: nat, por_parejas: bool) -> NodeType {
    match v.partida {
        None => NodeType::Chance,
        Some(p) => match p.fase() {
            None => NodeType::Terminal,
            Some(FasePartida::DescartePendiente) => NodeType::Chance,
            Some(_) => match p.turno() {
                Some(t) => NodeType::Player(
                    if por_parejas {
                        (jugador_de(t) % 2) as usize
                    } else {
                        jugador_de(t) as usize
                    },
                    num_acciones as usize,
                ),
                None => NodeType::Terminal,
            },
        },
    }
}

/// Partida de mus completa entre dos jugadores.
#[derive(Debug)]
pub struct MusGameTwoPlayers {
    tantos: [u8; 2],
    cards: Option<CardSource>,
    partida: Option<PartidaMus<DosJugadores>>,
    mus_rounds: u8,
    max_mus_rounds: u8,
    abstract_game: bool,
    info_set_builder: MusInfoSetBuilder,
}

impl View for MusGameTwoPlayers {
    type V = VistaJuegoMus;

    closed spec fn view(&self) -> VistaJuegoMus {
        VistaJuegoMus {
            tantos: self.tantos,
            cards: match self.cards {
                Some(c) => Some(c@),
                None => None,
            },
            partida: match self.partida {
                Some(p) => Some(p@),
                None => None,
            },
            mus_rounds: self.mus_rounds,
            max_mus_rounds: self.max_mus_rounds,
            abstract_game: self.abstract_game,
            constructor: self.info_set_builder@,
            last_action: None,
        }
    }
}

impl MusGameTwoPlayers {
    #[verifier::type_invariant]
    spec fn inv(self) -> bool {
        &&& self.tantos[0] <= 40
        &&& self.tantos[1] <= 40
        &&& cartas_acotadas(self@.cards)
    }

    /// Tablas con las que se codifican los conjuntos de información.
    pub closed spec fn tablas(self) -> MusInfoSetTables {
        self.info_set_builder.tablas()
    }

    /// Partida sin repartir. `max_mus_rounds` acota cuántas rondas de mus pueden jugarse, hasta
    /// [`MAX_RONDAS_MUS`]; con cero se juega a primeras dadas.
    pub fn new(tantos: [u8; 2], abstract_game: bool, max_mus_rounds: u8) -> (g: Self)
        requires
            max_mus_rounds <= MAX_RONDAS_MUS,
            tantos[0] <= 40,
            tantos[1] <= 40,
        ensures
            g@ == juego_inicial(tantos, abstract_game, max_mus_rounds),
            g.tablas().tablas_abstractas() is Some == abstract_game,
            super::tablas_validas(g.tablas()),
    {
        MusGameTwoPlayers {
            partida: None,
            cards: None,
            tantos,
            mus_rounds: 0,
            max_mus_rounds,
            abstract_game,
            info_set_builder: MusInfoSetBuilder::new(abstract_game),
        }
    }

    /// Partida repartida con las manos: ver [`con_reparto`].
    pub fn with_hands(self, manos: [Mano; 2]) -> (g: Self)
        requires
            manos_completas(manos@),
        ensures
            g@ == con_reparto(self@, self.tablas(), vistas(manos@)),
            g.tablas() == self.tablas(),
    {
        proof {
            use_type_invariant(&self);
        }
        let mut partida = PartidaMus::<DosJugadores>::new(manos, self.tantos);
        let mut b = self.info_set_builder.clone();
        update_hands(&partida, &mut b, Lance::Grande);
        b.begin_mus();
        enforce_max_mus_rounds(&mut partida, &mut b, self.mus_rounds, self.max_mus_rounds);
        MusGameTwoPlayers {
            partida: Some(partida),
            info_set_builder: b,
            cards: self.cards,
            ..self
        }
    }

    /// Cambia el origen de las cartas de los descartes.
    pub fn set_card_source(&mut self, cartas: CardSource)
        requires
            cartas_acotadas(Some(cartas@)),
        ensures
            final(self)@ == (VistaJuegoMus { cards: Some(cartas@), ..old(self)@ }),
            final(self).tablas() == old(self).tablas(),
    {
        proof {
            use_type_invariant(&*self);
        }
        self.cards = Some(cartas);
    }

    /// Origen de las cartas de los descartes, si lo hay.
    pub fn card_source(&self) -> (r: Option<&CardSource>)
        ensures
            match self@.cards {
                Some(c) => r matches Some(x) && x@ == c,
                None => r is None,
            },
    {
        self.cards.as_ref()
    }

    /// Partida en curso, si ya se ha repartido.
    pub fn mus_game(&self) -> (r: Option<&PartidaMus<DosJugadores>>)
        ensures
            match self@.partida {
                Some(p) => r matches Some(x) && x@ == p,
                None => r is None,
            },
    {
        self.partida.as_ref()
    }

    /// Acciones posibles: ver [`acciones_partida`].
    pub fn actions(&self) -> (r: ArrayVec<Accion, 15>)
        requires
            self@.partida matches Some(p) && p.fase() is Some,
        ensures
            acciones_de(r) == acciones_partida(self@.partida.unwrap()),
    {
        match &self.partida {
            Some(p) => actions(p),
            None => acciones_vacias(),
        }
    }

    /// Actúa con la acción: ver [`tras_accion_dos`].
    pub fn act_with_action(&mut self, action: Accion)
        requires
            accion_valida_dos(old(self)@, old(self).tablas(), action),
        ensures
            final(self)@ == tras_accion_dos(old(self)@, old(self).tablas(), action),
            final(self).tablas() == old(self).tablas(),
    {
        proof {
            use_type_invariant(&*self);
        }
        let mut partida = self.partida.as_ref().unwrap().clone();
        let phase = partida.fase();
        let turno = partida.turno().unwrap().player_id() as usize;
        let _ = partida.actuar(action);
        let mut b = self.info_set_builder.clone();
        match phase {
            Some(FasePartida::Mus) => {
                b.step_mus(action);
            },
            Some(FasePartida::Envites(_)) => {
                b.step_lance(action);
            },
            _ => {},
        }
        let rondas = registrar_cambio_fase(&partida, &mut b, phase, turno, self.mus_rounds);
        self.partida = Some(partida);
        self.info_set_builder = b;
        self.mus_rounds = rondas;
    }

    /// Conjunto de información del jugador.
    pub fn info_set(&self, player: usize) -> (r: (u64, u64))
        requires
            player < 4,
        ensures
            r == (self@.constructor.public_history, self@.constructor.private_history[player as int]),
    {
        self.info_set_builder.to_mus_infoset(player)
    }

    /// Tipo de nodo: ver [`nodo_partida`].
    pub fn current_node(&self) -> (r: NodeType)
        ensures
            r == nodo_partida(
                self@,
                match self@.partida {
                    Some(p) => acciones_partida(p).len(),
                    None => 0,
                },
                true,
            ),
    {
        match &self.partida {
            None => NodeType::Chance,
            Some(partida) => match partida.fase() {
                None => NodeType::Terminal,
                Some(FasePartida::DescartePendiente) => NodeType::Chance,
                Some(_) => match partida.turno() {
                    Some(t) => NodeType::Player(
                        t.player_id() as usize % 2,
                        acciones_len(&actions(partida)),
                    ),
                    None => NodeType::Terminal,
                },
            },
        }
    }

    /// Partida tras la acción con índice `action_id` de las posibles.
    pub fn act(&self, action_id: usize) -> (r: Self)
        requires
            self@.partida matches Some(p) && p.fase() is Some && action_id < acciones_partida(
                p,
            ).len() && accion_valida_dos(
                self@,
                self.tablas(),
                acciones_partida(p)[action_id as int],
            ),
        ensures
            r@ == tras_accion_dos(
                self@,
                self.tablas(),
                acciones_partida(self@.partida.unwrap())[action_id as int],
            ),
            r.tablas() == self.tablas(),
    {
        let mut new_game = self.clone();
        let acciones = new_game.actions();
        let action = acciones_get(&acciones, action_id);
        new_game.act_with_action(action);
        new_game
    }

    /// Clave del nodo: la parte pública del conjunto de información, con el bit más alto en los
    /// nodos de azar.
    pub fn node_key(&self) -> (r: u64)
        ensures
            r == if self.current_node_spec() == NodeType::Chance {
                self@.constructor.public_history | (1u64 << 63u64)
            } else {
                self@.constructor.public_history
            },
    {
        let mut key = self.info_set_builder.to_mus_infoset(0).0;
        if self.current_node() == NodeType::Chance {
            key = key | (1u64 << 63u64);
        }
        key
    }

    /// Tipo de nodo, como en [`MusGameTwoPlayers::current_node`].
    pub open spec fn current_node_spec(self) -> NodeType {
        nodo_partida(
            self@,
            match self@.partida {
                Some(p) => acciones_partida(p).len(),
                None => 0,
            },
            true,
        )
    }

    /// Reparte manos de una baraja barajada si la partida no ha empezado, o, con un descarte
    /// pendiente y una baraja como origen de las cartas, da las cartas nuevas de la baraja.
    /// Después fuerza el fin del mus si se han jugado todas sus rondas.
    pub fn chance_sample(&self) -> (r: Self)
        requires
            self@.partida matches Some(p) && self@.cards matches Some(VistaCartas::Baraja(_))
                ==> p.fase() == Some(FasePartida::DescartePendiente),
        ensures
            r.tablas() == self.tablas(),
            self@.partida is None ==> exists|manos: Seq<Seq<Carta>>, c: ModeloBaraja|
                {
                    &&& manos_de_partida(manos)
                    &&& manos.len() == 2
                    &&& repartida_de_baraja(manos, c)
                    &&& c.cartas.len() <= 40
                    &&& r@ == VistaJuegoMus {
                        cards: Some(VistaCartas::Baraja(c)),
                        ..con_reparto(self@, self.tablas(), manos)
                    }
                },
            (self@.partida matches Some(ModeloPartida::Mus(_)) && self@.cards matches Some(
                VistaCartas::Baraja(_),
            )) ==> exists|nuevas: Seq<Carta>, m2: ModeloMus, c: ModeloBaraja|
                {
                    &&& self@.partida.unwrap()->Mus_0.descartada(nuevas, m2)
                    &&& descarte_de_baraja(
                        self@.cards.unwrap()->Baraja_0,
                        descarte_pendiente(self@.partida.unwrap()),
                        nuevas,
                        c,
                    )
                    &&& c.cartas.len() <= 40
                    &&& r@ == con_cartas_nuevas(self@, self.tablas(), m2, VistaCartas::Baraja(c))
                },
            (self@.partida is Some && !(self@.cards matches Some(VistaCartas::Baraja(_))))
                ==> r@ == forzar_fin_mus(self@, self.tablas()),
    {
        proof {
            use_type_invariant(self);
        }
        let new_game = self.clone();
        match &self.partida {
            None => {
                let mut baraja = Baraja::baraja_mus();
                let ghost d = baraja@.cartas;
                let manos: [Mano; 2] = baraja.repartir_manos();
                proof {
                    assert forall|i: int| 0 <= i < 2 implies mano_ordenada_de(
                        #[trigger] vistas(manos@)[i],
                        d.subrange(4 * i, 4 * i + 4),
                    ) by {
                        assert(vistas(manos@)[i] == manos@[i]@);
                    }
                    assert(repartida_de_baraja(vistas(manos@), baraja@));
                    assert(manos_de_partida(vistas(manos@))) by {
                        assert(vistas(manos@)[0] == manos@[0]@);
                        assert(vistas(manos@)[1] == manos@[1]@);
                    }
                }
                let mut g = new_game.with_hands(manos);
                g.set_card_source(CardSource::Baraja(baraja));
                g
            },
            Some(p) => {
                let mut partida = p.clone();
                let mut b = self.info_set_builder.clone();
                let mut cards = match &self.cards {
                    Some(c) => Some(c.clone()),
                    None => None,
                };
                let ghost mut testigo: (Seq<Carta>, ModeloMus, ModeloBaraja) = arbitrary();
                match cards {
                    Some(CardSource::Baraja(mut baraja)) => {
                        let ghost b0 = baraja@;
                        let descartes = partida.descartadas().unwrap();
                        let d = cartas_slice(&descartes);
                        proof {
                            assert(d@ == descarte_pendiente(self@.partida.unwrap()));
                        }
                        let nuevas = baraja.descartar_cartas(d);
                        let _ = partida.descartar_con_nuevas(nuevas.as_slice());
                        update_hands(&partida, &mut b, Lance::Grande);
                        proof {
                            testigo = (nuevas@, partida@->Mus_0, baraja@);
                            assert(b0 == self@.cards.unwrap()->Baraja_0);
                            assert(descarte_de_baraja(
                                b0,
                                descarte_pendiente(self@.partida.unwrap()),
                                nuevas@,
                                baraja@,
                            ));
                        }
                        cards = Some(CardSource::Baraja(baraja));
                    },
                    _ => {},
                }
                enforce_max_mus_rounds(&mut partida, &mut b, self.mus_rounds, self.max_mus_rounds);
                let g = MusGameTwoPlayers {
                    tantos: self.tantos,
                    cards,
                    partida: Some(partida),
                    mus_rounds: self.mus_rounds,
                    max_mus_rounds: self.max_mus_rounds,
                    abstract_game: self.abstract_game,
                    info_set_builder: b,
                };
                proof {
                    if self@.cards matches Some(VistaCartas::Baraja(_)) {
                        let (nv, m2, c) = testigo;
                        assert(g@ == con_cartas_nuevas(self@, self.tablas(), m2, VistaCartas::Baraja(c)));
                    }
                }
                g
            },
        }
    }

    /// Partida tras cambiar el descarte pendiente por las cartas `nuevas`, con `dist` como
    /// frecuencias de las cartas que quedan, y forzar el fin del mus si toca.
    pub fn con_descarte(&self, nuevas: &[Carta], dist: [(Carta, u8); 8]) -> (r: Self)
        requires
            self@.partida matches Some(ModeloPartida::Mus(m)) && m.sub_fase is DescartePendiente,
        ensures
            r.tablas() == self.tablas(),
            exists|m2: ModeloMus|
                {
                    &&& self@.partida.unwrap()->Mus_0.descartada(nuevas@, m2)
                    &&& r@ == con_cartas_nuevas(
                        self@,
                        self.tablas(),
                        m2,
                        VistaCartas::Iterable(dist),
                    )
                },
    {
        proof {
            use_type_invariant(self);
        }
        let mut partida = self.partida.as_ref().unwrap().clone();
        let mut b = self.info_set_builder.clone();
        let _ = partida.descartar_con_nuevas(nuevas);
        let ghost m2 = partida@->Mus_0;
        update_hands(&partida, &mut b, Lance::Grande);
        enforce_max_mus_rounds(&mut partida, &mut b, self.mus_rounds, self.max_mus_rounds);
        let g = MusGameTwoPlayers {
            tantos: self.tantos,
            cards: Some(CardSource::Iterable(dist)),
            partida: Some(partida),
            mus_rounds: self.mus_rounds,
            max_mus_rounds: self.max_mus_rounds,
            abstract_game: self.abstract_game,
            info_set_builder: b,
        };
        proof {
            assert(g@ == con_cartas_nuevas(self@, self.tablas(), m2, VistaCartas::Iterable(dist)));
        }
        g
    }
}

impl Clone for MusGameTwoPlayers {
    fn clone(&self) -> (r: Self)
        ensures
            r@ == self@,
            r.tablas() == self.tablas(),
    {
        proof {
            use_type_invariant(self);
        }
        MusGameTwoPlayers {
            tantos: self.tantos,
            cards: match &self.cards {
                Some(c) => Some(c.clone()),
                None => None,
            },
            partida: match &self.partida {
                Some(p) => Some(p.clone()),
                None => None,
            },
            mus_rounds: self.mus_rounds,
            max_mus_rounds: self.max_mus_rounds,
            abstract_game: self.abstract_game,
            info_set_builder: self.info_set_builder.clone(),
        }
    }
}


/// Habla el compañero del primero de una pareja en un lance.
pub open spec fn es_segundo(p: ModeloPartida) -> bool {
    &&& p.fase() matches Some(FasePartida::Envites(_))
    &&& (p.turno() == Some(Turno::Pareja(2)) || p.turno() == Some(Turno::Pareja(3)))
}

/// Si habla el compañero del primero de una pareja, se conoce la acción de este.
pub open spec fn segundo_con_accion(v: VistaJuegoMus) -> bool {
    v.partida matches Some(p) && es_segundo(p) ==> v.last_action is Some
}

/// Se pueden calcular las acciones de la partida de cuatro jugadores.
pub open spec fn acciones_definidas(v: VistaJuegoMus) -> bool {
    &&& v.partida matches Some(p) && p.fase() is Some
    &&& segundo_con_accion(v)
}

/// Acciones de la partida de cuatro jugadores: las de la partida, y el compañero del primero de
/// una pareja solo puede igualar o subir la acción de este.
pub open spec fn acciones_cuatro(v: VistaJuegoMus) -> Seq<Accion> {
    let p = v.partida.unwrap();
    if es_segundo(p) {
        no_menores(acciones_partida(p), v.last_action.unwrap())
    } else {
        acciones_partida(p)
    }
}

/// Habla el primero de una pareja.
pub open spec fn es_primero(p: ModeloPartida) -> bool {
    p.turno() == Some(Turno::Pareja(0)) || p.turno() == Some(Turno::Pareja(1))
}

/// Constructor tras escribir la acción cuando las parejas hablan por turnos: la del primero de
/// una pareja queda oculta para su compañero (salvo cortar el mus, que cierra la decisión de la
/// pareja), y la del compañero avanza el historial y borra la acción oculta.
pub open spec fn registro_parejas(b: VistaConstructor, t: MusInfoSetTables, fase: Option<FasePartida>, primero: bool, a: Accion) -> VistaConstructor {
    match fase {
        Some(FasePartida::Mus) => if primero && a != Accion::NoMus {
            con_oculta(b, t, Some(a))
        } else {
            con_oculta(con_paso_mus(b, t, a), t, None)
        },
        Some(FasePartida::Envites(_)) => if primero {
            con_oculta(b, t, Some(a))
        } else {
            con_oculta(con_paso_lance(b, t, a), t, None)
        },
        _ => b,
    }
}

/// En los envites, el primero de una pareja deja su acción en el campo oculto de la parte
/// pública del conjunto de información: dos apuestas distintas dejan partes públicas distintas.
pub proof fn lema_oculta_distingue(
    b: VistaConstructor,
    t: MusInfoSetTables,
    l: Lance,
    a1: Accion,
    a2: Accion,
)
    requires
        super::tablas_validas(t),
        super::canonica(a1),
        super::canonica(a2),
        a1 != Accion::Mus && a1 != Accion::NoMus,
        a2 != Accion::Mus && a2 != Accion::NoMus,
        a1 != a2,
    ensures
        registro_parejas(b, t, Some(FasePartida::Envites(l)), true, a1).public_history
            != registro_parejas(b, t, Some(FasePartida::Envites(l)), true, a2).public_history,
{
    let off = t.campos().hidden_action.offset;
    let w = t.campos().hidden_action.width;
    let v1 = (1 + super::indice_canonico(a1)) as u64;
    let v2 = (1 + super::indice_canonico(a2)) as u64;
    assert(w == 3 && off + w <= 64);
    assert((1u64 << 3u32) == 8) by (bit_vector);
    assert(v1 != v2);
    super::lema_poner_leer(b.public_history, v1, off, w);
    super::lema_poner_leer(b.public_history, v2, off, w);
}

/// La acción se puede escribir cuando las parejas hablan por turnos.
pub open spec fn registro_parejas_valido(b: VistaConstructor, t: MusInfoSetTables, fase: Option<FasePartida>, primero: bool, a: Accion) -> bool {
    match fase {
        Some(FasePartida::Mus) => if primero && a != Accion::NoMus {
            crate::solver::canonica(a)
        } else {
            paso_mus_valido(b, t, a)
        },
        Some(FasePartida::Envites(_)) => if primero {
            crate::solver::canonica(a)
        } else {
            paso_lance_valido(b, t, a)
        },
        _ => true,
    }
}

/// Hay partida con turno, la acción no desborda los tantos y se puede escribir, junto con el
/// cambio de fase, en el conjunto de información de la partida de cuatro jugadores.
pub open spec fn accion_valida_cuatro(v: VistaJuegoMus, t: MusInfoSetTables, a: Accion) -> bool {
    &&& v.partida matches Some(p)
    &&& p.turno() is Some
    &&& jugador_de(p.turno().unwrap()) < 4
    &&& p.admite(a)
    &&& registro_parejas_valido(v.constructor, t, p.fase(), es_primero(p), a)
    &&& cambio_valido(
        registro_parejas(v.constructor, t, p.fase(), es_primero(p), a),
        p.fase(),
        partida_tras(p, a),
        v.mus_rounds,
    )
}

/// Partida de cuatro jugadores tras la acción: la partida avanza, el constructor escribe la
/// acción y el cambio de fase, se cuentan las rondas de mus y se recuerda la acción.
pub open spec fn tras_accion_cuatro(v: VistaJuegoMus, t: MusInfoSetTables, a: Accion) -> VistaJuegoMus {
    let p = v.partida.unwrap();
    let fase = p.fase();
    let p2 = partida_tras(p, a);
    VistaJuegoMus {
        partida: Some(p2),
        constructor: tras_cambio_fase(
            registro_parejas(v.constructor, t, fase, es_primero(p), a),
            t,
            fase,
            p2,
            jugador_de(p.turno().unwrap()) as int,
        ),
        mus_rounds: rondas_tras(fase, p2, v.mus_rounds),
        last_action: Some(a),
        ..v
    }
}

/// En la partida de cuatro jugadores, cuando el primero de una pareja apuesta en los envites y
/// el lance sigue, la parte pública del conjunto de información, la que ve su compañero, es
/// distinta para dos apuestas distintas.
pub proof fn lema_companero_distingue(v: VistaJuegoMus, t: MusInfoSetTables, a1: Accion, a2: Accion)
    requires
        super::tablas_validas(t),
        v.partida matches Some(p) && p.fase() matches Some(FasePartida::Envites(_)) && es_primero(p),
        accion_valida_cuatro(v, t, a1),
        accion_valida_cuatro(v, t, a2),
        a1 != Accion::Mus && a1 != Accion::NoMus,
        a2 != Accion::Mus && a2 != Accion::NoMus,
        a1 != a2,
    ensures
        (tras_accion_cuatro(v, t, a1).partida.unwrap().fase() == v.partida.unwrap().fase()
            && tras_accion_cuatro(v, t, a2).partida.unwrap().fase() == v.partida.unwrap().fase())
            ==> tras_accion_cuatro(v, t, a1).constructor.public_history != tras_accion_cuatro(
            v,
            t,
            a2,
        ).constructor.public_history,
{
    let p = v.partida.unwrap();
    let l = p.fase().unwrap()->Envites_0;
    lema_oculta_distingue(v.constructor, t, l, a1, a2);
}

/// En los envites, el primero de una pareja habla por las dos manos: la acción se aplica dos
/// veces.
pub open spec fn accion_doble(p: ModeloPartida) -> bool {
    p.fase() matches Some(FasePartida::Envites(_)) && es_primero(p)
}

/// Partida tras la acción de quien juega con las dos manos de una pareja.
pub open spec fn partida_tras_dos_manos(p: ModeloPartida, a: Accion) -> ModeloPartida {
    if accion_doble(p) {
        partida_tras(partida_tras(p, a), a)
    } else {
        partida_tras(p, a)
    }
}

/// Constructor tras escribir la acción de quien juega con dos manos: en el mus la del primero
/// de la pareja queda oculta; en los envites cada acción avanza el historial.
pub open spec fn registro_dos_manos(b: VistaConstructor, t: MusInfoSetTables, fase: Option<FasePartida>, primero: bool, a: Accion) -> VistaConstructor {
    match fase {
        Some(FasePartida::Envites(_)) => con_paso_lance(b, t, a),
        _ => registro_parejas(b, t, fase, primero, a),
    }
}

/// La acción de quien juega con dos manos se puede escribir.
pub open spec fn registro_dos_manos_valido(b: VistaConstructor, t: MusInfoSetTables, fase: Option<FasePartida>, primero: bool, a: Accion) -> bool {
    match fase {
        Some(FasePartida::Envites(_)) => paso_lance_valido(b, t, a),
        _ => registro_parejas_valido(b, t, fase, primero, a),
    }
}

/// Habla uno de los dos primeros jugadores, el 0 o el 1.
pub open spec fn primer_jugador(p: ModeloPartida) -> bool {
    jugador_de(p.turno().unwrap()) < 2
}

/// Hay partida con turno, la acción (dos veces si habla por las dos manos) no desborda los
/// tantos ni es inválida la segunda vez, y se puede escribir con el cambio de fase.
pub open spec fn accion_valida_dos_manos(v: VistaJuegoMus, t: MusInfoSetTables, a: Accion) -> bool {
    &&& v.partida matches Some(p)
    &&& p.turno() is Some
    &&& jugador_de(p.turno().unwrap()) < 4
    &&& p.admite(a)
    &&& accion_doble(p) ==> partida_tras(p, a).admite(a) && partida_tras(p, a).paso(a) is Ok
    &&& registro_dos_manos_valido(v.constructor, t, p.fase(), primer_jugador(p), a)
    &&& cambio_valido(
        registro_dos_manos(v.constructor, t, p.fase(), primer_jugador(p), a),
        p.fase(),
        partida_tras_dos_manos(p, a),
        v.mus_rounds,
    )
}

/// Partida de dos manos por jugador tras la acción.
pub open spec fn tras_accion_dos_manos(v: VistaJuegoMus, t: MusInfoSetTables, a: Accion) -> VistaJuegoMus {
    let p = v.partida.unwrap();
    let fase = p.fase();
    let p2 = partida_tras_dos_manos(p, a);
    VistaJuegoMus {
        partida: Some(p2),
        constructor: tras_cambio_fase(
            registro_dos_manos(v.constructor, t, fase, primer_jugador(p), a),
            t,
            fase,
            p2,
            jugador_de(p.turno().unwrap()) as int,
        ),
        mus_rounds: rondas_tras(fase, p2, v.mus_rounds),
        ..v
    }
}

/// Partida de mus completa entre cuatro jugadores, por parejas.
#[derive(Debug)]
pub struct MusGame {
    tantos: [u8; 2],
    cards: Option<CardSource>,
    partida: Option<PartidaMus<CuatroJugadores>>,
    mus_rounds: u8,
    max_mus_rounds: u8,
    abstract_game: bool,
    info_set_builder: MusInfoSetBuilder,
    last_action: Option<Accion>,
}

impl View for MusGame {
    type V = VistaJuegoMus;

    closed spec fn view(&self) -> VistaJuegoMus {
        VistaJuegoMus {
            tantos: self.tantos,
            cards: match self.cards {
                Some(c) => Some(c@),
                None => None,
            },
            partida: match self.partida {
                Some(p) => Some(p@),
                None => None,
            },
            mus_rounds: self.mus_rounds,
            max_mus_rounds: self.max_mus_rounds,
            abstract_game: self.abstract_game,
            constructor: self.info_set_builder@,
            last_action: self.last_action,
        }
    }
}

impl MusGame {
    #[verifier::type_invariant]
    spec fn inv(self) -> bool {
        &&& self.tantos[0] <= 40
        &&& self.tantos[1] <= 40
        &&& cartas_acotadas(self@.cards)
    }

    /// Tablas con las que se codifican los conjuntos de información.
    pub closed spec fn tablas(self) -> MusInfoSetTables {
        self.info_set_builder.tablas()
    }

    /// Partida sin repartir. `max_mus_rounds` acota cuántas rondas de mus pueden jugarse, hasta
    /// [`MAX_RONDAS_MUS`]; con cero se juega a primeras dadas.
    pub fn new(tantos: [u8; 2], abstract_game: bool, max_mus_rounds: u8) -> (g: Self)
        requires
            max_mus_rounds <= MAX_RONDAS_MUS,
            tantos[0] <= 40,
            tantos[1] <= 40,
        ensures
            g@ == juego_inicial(tantos, abstract_game, max_mus_rounds),
            g.tablas().tablas_abstractas() is Some == abstract_game,
            super::tablas_validas(g.tablas()),
    {
        MusGame {
            partida: None,
            cards: None,
            tantos,
            mus_rounds: 0,
            max_mus_rounds,
            abstract_game,
            info_set_builder: MusInfoSetBuilder::new(abstract_game),
            last_action: None,
        }
    }

    /// Partida repartida con las manos: ver [`con_reparto`].
    pub fn with_hands(self, manos: [Mano; 4]) -> (g: Self)
        requires
            manos_completas(manos@),
        ensures
            g@ == con_reparto(self@, self.tablas(), vistas(manos@)),
            g.tablas() == self.tablas(),
    {
        proof {
            use_type_invariant(&self);
        }
        let mut partida = PartidaMus::<CuatroJugadores>::new(manos, self.tantos);
        let mut b = self.info_set_builder.clone();
        update_hands(&partida, &mut b, Lance::Grande);
        b.begin_mus();
        enforce_max_mus_rounds(&mut partida, &mut b, self.mus_rounds, self.max_mus_rounds);
        MusGame {
            partida: Some(partida),
            info_set_builder: b,
            cards: self.cards,
            ..self
        }
    }

    /// Cambia el origen de las cartas de los descartes.
    pub fn set_card_source(&mut self, cartas: CardSource)
        requires
            cartas_acotadas(Some(cartas@)),
        ensures
            final(self)@ == (VistaJuegoMus { cards: Some(cartas@), ..old(self)@ }),
            final(self).tablas() == old(self).tablas(),
    {
        proof {
            use_type_invariant(&*self);
        }
        self.cards = Some(cartas);
    }

    /// Origen de las cartas de los descartes, si lo hay.
    pub fn card_source(&self) -> (r: Option<&CardSource>)
        ensures
            match self@.cards {
                Some(c) => r matches Some(x) && x@ == c,
                None => r is None,
            },
    {
        self.cards.as_ref()
    }

    /// Partida en curso, si ya se ha repartido.
    pub fn mus_game(&self) -> (r: Option<&PartidaMus<CuatroJugadores>>)
        ensures
            match self@.partida {
                Some(p) => r matches Some(x) && x@ == p,
                None => r is None,
            },
    {
        self.partida.as_ref()
    }

    /// Acciones posibles: ver [`acciones_cuatro`]. El compañero del primero de una pareja
    /// conoce su acción y solo puede igualarla o subirla.
    pub fn actions(&self) -> (r: ArrayVec<Accion, 15>)
        requires
            acciones_definidas(self@),
        ensures
            acciones_de(r) == acciones_cuatro(self@),
    {
        let p = self.partida.as_ref().unwrap();
        let acciones = actions(p);
        let segundo = match p.fase() {
            Some(FasePartida::Envites(_)) => match p.turno() {
                Some(Turno::Pareja(j)) => j == 2 || j == 3,
                _ => false,
            },
            _ => false,
        };
        if segundo {
            retener_no_menores(&acciones, self.last_action.unwrap())
        } else {
            acciones
        }
    }

    /// Actúa con la acción: ver [`tras_accion_dos`].
    pub fn act_with_action(&mut self, action: Accion)
        requires
            accion_valida_cuatro(old(self)@, old(self).tablas(), action),
        ensures
            final(self)@ == tras_accion_cuatro(old(self)@, old(self).tablas(), action),
            final(self).tablas() == old(self).tablas(),
    {
        proof {
            use_type_invariant(&*self);
        }
        self.last_action = Some(action);
        let mut partida = self.partida.as_ref().unwrap().clone();
        let phase = partida.fase();
        let turno = partida.turno().unwrap();
        let _ = partida.actuar(action);
        let is_first_partner = turno == Turno::Pareja(0) || turno == Turno::Pareja(1);
        let mut b = self.info_set_builder.clone();
        match phase {
            Some(FasePartida::Mus) => {
                if is_first_partner && action != Accion::NoMus {
                    b.set_hidden_action(Some(action));
                } else {
                    b.step_mus(action);
                    b.set_hidden_action(None);
                }
            },
            Some(FasePartida::Envites(_)) => {
                if is_first_partner {
                    b.set_hidden_action(Some(action));
                } else {
                    b.step_lance(action);
                    b.set_hidden_action(None);
                }
            },
            _ => {},
        }
        let rondas = registrar_cambio_fase(
            &partida,
            &mut b,
            phase,
            turno.player_id() as usize,
            self.mus_rounds,
        );
        self.partida = Some(partida);
        self.info_set_builder = b;
        self.mus_rounds = rondas;
    }

    /// Conjunto de información del jugador.
    pub fn info_set(&self, player: usize) -> (r: (u64, u64))
        requires
            player < 4,
        ensures
            r == (self@.constructor.public_history, self@.constructor.private_history[player as int]),
    {
        self.info_set_builder.to_mus_infoset(player)
    }

    /// Tipo de nodo: ver [`nodo_partida`].
    pub fn current_node(&self) -> (r: NodeType)
        requires
            segundo_con_accion(self@),
        ensures
            r == self.current_node_spec(),
    {
        match &self.partida {
            None => NodeType::Chance,
            Some(partida) => match partida.fase() {
                None => NodeType::Terminal,
                Some(FasePartida::DescartePendiente) => NodeType::Chance,
                Some(_) => match partida.turno() {
                    Some(t) => NodeType::Player(t.player_id() as usize, acciones_len(&self.actions())),
                    None => NodeType::Terminal,
                },
            },
        }
    }

    /// Partida tras la acción con índice `action_id` de las posibles.
    pub fn act(&self, action_id: usize) -> (r: Self)
        requires
            acciones_definidas(self@),
            action_id < acciones_cuatro(self@).len(),
            accion_valida_cuatro(self@, self.tablas(), acciones_cuatro(self@)[action_id as int]),
        ensures
            r@ == tras_accion_cuatro(self@, self.tablas(), acciones_cuatro(self@)[action_id as int]),
            r.tablas() == self.tablas(),
    {
        let mut new_game = self.clone();
        let acciones = new_game.actions();
        let action = acciones_get(&acciones, action_id);
        new_game.act_with_action(action);
        new_game
    }

    /// Clave del nodo: la parte pública del conjunto de información, con el bit más alto en los
    /// nodos de azar.
    pub fn node_key(&self) -> (r: u64)
        requires
            segundo_con_accion(self@),
        ensures
            r == if self.current_node_spec() == NodeType::Chance {
                self@.constructor.public_history | (1u64 << 63u64)
            } else {
                self@.constructor.public_history
            },
    {
        let mut key = self.info_set_builder.to_mus_infoset(0).0;
        if self.current_node() == NodeType::Chance {
            key = key | (1u64 << 63u64);
        }
        key
    }

    /// Tipo de nodo, como en [`MusGame::current_node`].
    pub open spec fn current_node_spec(self) -> NodeType {
        nodo_partida(
            self@,
            match self@.partida {
                Some(p) => acciones_cuatro(self@).len(),
                None => 0,
            },
            false,
        )
    }

    /// Reparte manos de una baraja barajada si la partida no ha empezado, o, con un descarte
    /// pendiente y una baraja como origen de las cartas, da las cartas nuevas de la baraja.
    /// Después fuerza el fin del mus si se han jugado todas sus rondas.
    pub fn chance_sample(&self) -> (r: Self)
        requires
            self@.partida matches Some(p) && self@.cards matches Some(VistaCartas::Baraja(_))
                ==> p.fase() == Some(FasePartida::DescartePendiente),
        ensures
            r.tablas() == self.tablas(),
            self@.partida is None ==> exists|manos: Seq<Seq<Carta>>, c: ModeloBaraja|
                {
                    &&& manos_de_partida(manos)
                    &&& manos.len() == 4
                    &&& repartida_de_baraja(manos, c)
                    &&& c.cartas.len() <= 40
                    &&& r@ == VistaJuegoMus {
                        cards: Some(VistaCartas::Baraja(c)),
                        ..con_reparto(self@, self.tablas(), manos)
                    }
                },
            (self@.partida matches Some(ModeloPartida::Mus(_)) && self@.cards matches Some(
                VistaCartas::Baraja(_),
            )) ==> exists|nuevas: Seq<Carta>, m2: ModeloMus, c: ModeloBaraja|
                {
                    &&& self@.partida.unwrap()->Mus_0.descartada(nuevas, m2)
                    &&& descarte_de_baraja(
                        self@.cards.unwrap()->Baraja_0,
                        descarte_pendiente(self@.partida.unwrap()),
                        nuevas,
                        c,
                    )
                    &&& c.cartas.len() <= 40
                    &&& r@ == con_cartas_nuevas(self@, self.tablas(), m2, VistaCartas::Baraja(c))
                },
            (self@.partida is Some && !(self@.cards matches Some(VistaCartas::Baraja(_))))
                ==> r@ == forzar_fin_mus(self@, self.tablas()),
    {
        proof {
            use_type_invariant(self);
        }
        let new_game = self.clone();
        match &self.partida {
            None => {
                let mut baraja = Baraja::baraja_mus();
                let ghost d = baraja@.cartas;
                let manos: [Mano; 4] = baraja.repartir_manos();
                proof {
                    assert forall|i: int| 0 <= i < 4 implies mano_ordenada_de(
                        #[trigger] vistas(manos@)[i],
                        d.subrange(4 * i, 4 * i + 4),
                    ) by {
                        assert(vistas(manos@)[i] == manos@[i]@);
                    }
                    assert(repartida_de_baraja(vistas(manos@), baraja@));
                    assert(manos_de_partida(vistas(manos@))) by {
                        assert(vistas(manos@)[0] == manos@[0]@);
                        assert(vistas(manos@)[1] == manos@[1]@);
                    }
                }
                let mut g = new_game.with_hands(manos);
                g.set_card_source(CardSource::Baraja(baraja));
                g
            },
            Some(p) => {
                let mut partida = p.clone();
                let mut b = self.info_set_builder.clone();
                let mut cards = match &self.cards {
                    Some(c) => Some(c.clone()),
                    None => None,
                };
                let ghost mut testigo: (Seq<Carta>, ModeloMus, ModeloBaraja) = arbitrary();
                match cards {
                    Some(CardSource::Baraja(mut baraja)) => {
                        let ghost b0 = baraja@;
                        let descartes = partida.descartadas().unwrap();
                        let d = cartas_slice(&descartes);
                        proof {
                            assert(d@ == descarte_pendiente(self@.partida.unwrap()));
                        }
                        let nuevas = baraja.descartar_cartas(d);
                        let _ = partida.descartar_con_nuevas(nuevas.as_slice());
                        update_hands(&partida, &mut b, Lance::Grande);
                        proof {
                            testigo = (nuevas@, partida@->Mus_0, baraja@);
                            assert(b0 == self@.cards.unwrap()->Baraja_0);
                            assert(descarte_de_baraja(
                                b0,
                                descarte_pendiente(self@.partida.unwrap()),
                                nuevas@,
                                baraja@,
                            ));
                        }
                        cards = Some(CardSource::Baraja(baraja));
                    },
                    _ => {},
                }
                enforce_max_mus_rounds(&mut partida, &mut b, self.mus_rounds, self.max_mus_rounds);
                let g = MusGame {
                    tantos: self.tantos,
                    cards,
                    partida: Some(partida),
                    mus_rounds: self.mus_rounds,
                    max_mus_rounds: self.max_mus_rounds,
                    abstract_game: self.abstract_game,
                    info_set_builder: b,
                    last_action: self.last_action,
                };
                proof {
                    if self@.cards matches Some(VistaCartas::Baraja(_)) {
                        let (nv, m2, c) = testigo;
                        assert(g@ == con_cartas_nuevas(self@, self.tablas(), m2, VistaCartas::Baraja(c)));
                    }
                }
                g
            },
        }
    }

    /// Partida tras cambiar el descarte pendiente por las cartas `nuevas`, con `dist` como
    /// frecuencias de las cartas que quedan, y forzar el fin del mus si toca.
    pub fn con_descarte(&self, nuevas: &[Carta], dist: [(Carta, u8); 8]) -> (r: Self)
        requires
            self@.partida matches Some(ModeloPartida::Mus(m)) && m.sub_fase is DescartePendiente,
        ensures
            r.tablas() == self.tablas(),
            exists|m2: ModeloMus|
                {
                    &&& self@.partida.unwrap()->Mus_0.descartada(nuevas@, m2)
                    &&& r@ == con_cartas_nuevas(
                        self@,
                        self.tablas(),
                        m2,
                        VistaCartas::Iterable(dist),
                    )
                },
    {
        proof {
            use_type_invariant(self);
        }
        let mut partida = self.partida.as_ref().unwrap().clone();
        let mut b = self.info_set_builder.clone();
        let _ = partida.descartar_con_nuevas(nuevas);
        let ghost m2 = partida@->Mus_0;
        update_hands(&partida, &mut b, Lance::Grande);
        enforce_max_mus_rounds(&mut partida, &mut b, self.mus_rounds, self.max_mus_rounds);
        let g = MusGame {
            tantos: self.tantos,
            cards: Some(CardSource::Iterable(dist)),
            partida: Some(partida),
            mus_rounds: self.mus_rounds,
            max_mus_rounds: self.max_mus_rounds,
            abstract_game: self.abstract_game,
            info_set_builder: b,
            last_action: self.last_action,
        };
        proof {
            assert(g@ == con_cartas_nuevas(self@, self.tablas(), m2, VistaCartas::Iterable(dist)));
        }
        g
    }
}

impl Clone for MusGame {
    fn clone(&self) -> (r: Self)
        ensures
            r@ == self@,
            r.tablas() == self.tablas(),
    {
        proof {
            use_type_invariant(self);
        }
        MusGame {
            tantos: self.tantos,
            cards: match &self.cards {
                Some(c) => Some(c.clone()),
                None => None,
            },
            partida: match &self.partida {
                Some(p) => Some(p.clone()),
                None => None,
            },
            mus_rounds: self.mus_rounds,
            max_mus_rounds: self.max_mus_rounds,
            abstract_game: self.abstract_game,
            info_set_builder: self.info_set_builder.clone(),
            last_action: self.last_action,
        }
    }
}

/// Partida de mus completa entre dos jugadores que juegan cada uno con las dos manos de una
/// pareja.
#[derive(Debug)]
pub struct MusGameTwoHands {
    tantos: [u8; 2],
    cards: Option<CardSource>,
    partida: Option<PartidaMus<CuatroJugadores>>,
    mus_rounds: u8,
    max_mus_rounds: u8,
    abstract_game: bool,
    info_set_builder: MusInfoSetBuilder,
}

impl View for MusGameTwoHands {
    type V = VistaJuegoMus;

    closed spec fn view(&self) -> VistaJuegoMus {
        VistaJuegoMus {
            tantos: self.tantos,
            cards: match self.cards {
                Some(c) => Some(c@),
                None => None,
            },
            partida: match self.partida {
                Some(p) => Some(p@),
                None => None,
            },
            mus_rounds: self.mus_rounds,
            max_mus_rounds: self.max_mus_rounds,
            abstract_game: self.abstract_game,
            constructor: self.info_set_builder@,
            last_action: None,
        }
    }
}

impl MusGameTwoHands {
    #[verifier::type_invariant]
    spec fn inv(self) -> bool {
        &&& self.tantos[0] <= 40
        &&& self.tantos[1] <= 40
        &&& cartas_acotadas(self@.cards)
    }

    /// Tablas con las que se codifican los conjuntos de información.
    pub closed spec fn tablas(self) -> MusInfoSetTables {
        self.info_set_builder.tablas()
    }

    /// Partida sin repartir. `max_mus_rounds` acota cuántas rondas de mus pueden jugarse, hasta
    /// [`MAX_RONDAS_MUS`]; con cero se juega a primeras dadas.
    pub fn new(tantos: [u8; 2], abstract_game: bool, max_mus_rounds: u8) -> (g: Self)
        requires
            max_mus_rounds <= MAX_RONDAS_MUS,
            tantos[0] <= 40,
            tantos[1] <= 40,
        ensures
            g@ == juego_inicial(tantos, abstract_game, max_mus_rounds),
            g.tablas().tablas_abstractas() is Some == abstract_game,
            super::tablas_validas(g.tablas()),
    {
        MusGameTwoHands {
            partida: None,
            cards: None,
            tantos,
            mus_rounds: 0,
            max_mus_rounds,
            abstract_game,
            info_set_builder: MusInfoSetBuilder::new(abstract_game),
        }
    }

    /// Partida repartida con las manos: ver [`con_reparto`].
    pub fn with_hands(self, manos: [Mano; 4]) -> (g: Self)
        requires
            manos_completas(manos@),
        ensures
            g@ == con_reparto(self@, self.tablas(), vistas(manos@)),
            g.tablas() == self.tablas(),
    {
        proof {
            use_type_invariant(&self);
        }
        let mut partida = PartidaMus::<CuatroJugadores>::new(manos, self.tantos);
        let mut b = self.info_set_builder.clone();
        update_hands(&partida, &mut b, Lance::Grande);
        b.begin_mus();
        enforce_max_mus_rounds(&mut partida, &mut b, self.mus_rounds, self.max_mus_rounds);
        MusGameTwoHands {
            partida: Some(partida),
            info_set_builder: b,
            cards: self.cards,
            ..self
        }
    }

    /// Cambia el origen de las cartas de los descartes.
    pub fn set_card_source(&mut self, cartas: CardSource)
        requires
            cartas_acotadas(Some(cartas@)),
        ensures
            final(self)@ == (VistaJuegoMus { cards: Some(cartas@), ..old(self)@ }),
            final(self).tablas() == old(self).tablas(),
    {
        proof {
            use_type_invariant(&*self);
        }
        self.cards = Some(cartas);
    }

    /// Origen de las cartas de los descartes, si lo hay.
    pub fn card_source(&self) -> (r: Option<&CardSource>)
        ensures
            match self@.cards {
                Some(c) => r matches Some(x) && x@ == c,
                None => r is None,
            },
    {
        self.cards.as_ref()
    }

    /// Partida en curso, si ya se ha repartido.
    pub fn mus_game(&self) -> (r: Option<&PartidaMus<CuatroJugadores>>)
        ensures
            match self@.partida {
                Some(p) => r matches Some(x) && x@ == p,
                None => r is None,
            },
    {
        self.partida.as_ref()
    }

    /// Acciones posibles: ver [`acciones_partida`].
    pub fn actions(&self) -> (r: ArrayVec<Accion, 15>)
        requires
            self@.partida matches Some(p) && p.fase() is Some,
        ensures
            acciones_de(r) == acciones_partida(self@.partida.unwrap()),
    {
        match &self.partida {
            Some(p) => actions(p),
            None => acciones_vacias(),
        }
    }

    /// Actúa con la acción: ver [`tras_accion_dos`].
    pub fn act_with_action(&mut self, action: Accion)
        requires
            accion_valida_dos_manos(old(self)@, old(self).tablas(), action),
        ensures
            final(self)@ == tras_accion_dos_manos(old(self)@, old(self).tablas(), action),
            final(self).tablas() == old(self).tablas(),
    {
        proof {
            use_type_invariant(&*self);
        }
        let mut partida = self.partida.as_ref().unwrap().clone();
        let phase = partida.fase();
        let turno = partida.turno().unwrap();
        let player_id = turno.player_id() as usize;
        let _ = partida.actuar(action);
        let es_envite = match phase {
            Some(FasePartida::Envites(_)) => true,
            _ => false,
        };
        if (turno == Turno::Pareja(0) || turno == Turno::Pareja(1)) && es_envite {
            let _ = partida.actuar(action);
        }
        let is_first_partner = player_id == 0 || player_id == 1;
        let mut b = self.info_set_builder.clone();
        match phase {
            Some(FasePartida::Mus) => {
                if is_first_partner && action != Accion::NoMus {
                    b.set_hidden_action(Some(action));
                } else {
                    b.step_mus(action);
                    b.set_hidden_action(None);
                }
            },
            Some(FasePartida::Envites(_)) => {
                b.step_lance(action);
            },
            _ => {},
        }
        let rondas = registrar_cambio_fase(&partida, &mut b, phase, player_id, self.mus_rounds);
        self.partida = Some(partida);
        self.info_set_builder = b;
        self.mus_rounds = rondas;
    }

    /// Conjunto de información del jugador, que ve las dos manos de su pareja: la suya en los 32
    /// bits bajos de la parte privada y la de su compañero en los altos.
    pub fn info_set(&self, player: usize) -> (r: (u64, u64))
        requires
            player < 2,
        ensures
            r == (self@.constructor.public_history, self@.constructor.private_history[player as int]
                | (self@.constructor.private_history[player + 2] << 32u64)),
    {
        self.info_set_builder.to_mus_infoset_two_hands(player)
    }

    /// Tipo de nodo: ver [`nodo_partida`].
    pub fn current_node(&self) -> (r: NodeType)
        ensures
            r == nodo_partida(
                self@,
                match self@.partida {
                    Some(p) => acciones_partida(p).len(),
                    None => 0,
                },
                true,
            ),
    {
        match &self.partida {
            None => NodeType::Chance,
            Some(partida) => match partida.fase() {
                None => NodeType::Terminal,
                Some(FasePartida::DescartePendiente) => NodeType::Chance,
                Some(_) => match partida.turno() {
                    Some(t) => NodeType::Player(
                        t.player_id() as usize % 2,
                        acciones_len(&actions(partida)),
                    ),
                    None => NodeType::Terminal,
                },
            },
        }
    }

    /// Partida tras la acción con índice `action_id` de las posibles.
    pub fn act(&self, action_id: usize) -> (r: Self)
        requires
            self@.partida matches Some(p) && p.fase() is Some && action_id < acciones_partida(
                p,
            ).len() && accion_valida_dos_manos(
                self@,
                self.tablas(),
                acciones_partida(p)[action_id as int],
            ),
        ensures
            r@ == tras_accion_dos_manos(
                self@,
                self.tablas(),
                acciones_partida(self@.partida.unwrap())[action_id as int],
            ),
            r.tablas() == self.tablas(),
    {
        let mut new_game = self.clone();
        let acciones = new_game.actions();
        let action = acciones_get(&acciones, action_id);
        new_game.act_with_action(action);
        new_game
    }

    /// Clave del nodo: la parte pública del conjunto de información, con el bit más alto en los
    /// nodos de azar.
    pub fn node_key(&self) -> (r: u64)
        ensures
            r == if self.current_node_spec() == NodeType::Chance {
                self@.constructor.public_history | (1u64 << 63u64)
            } else {
                self@.constructor.public_history
            },
    {
        let mut key = self.info_set_builder.to_mus_infoset(0).0;
        if self.current_node() == NodeType::Chance {
            key = key | (1u64 << 63u64);
        }
        key
    }

    /// Tipo de nodo, como en [`MusGameTwoHands::current_node`].
    pub open spec fn current_node_spec(self) -> NodeType {
        nodo_partida(
            self@,
            match self@.partida {
                Some(p) => acciones_partida(p).len(),
                None => 0,
            },
            true,
        )
    }

    /// Reparte manos de una baraja barajada si la partida no ha empezado, o, con un descarte
    /// pendiente y una baraja como origen de las cartas, da las cartas nuevas de la baraja.
    /// Después fuerza el fin del mus si se han jugado todas sus rondas.
    pub fn chance_sample(&self) -> (r: Self)
        requires
            self@.partida matches Some(p) && self@.cards matches Some(VistaCartas::Baraja(_))
                ==> p.fase() == Some(FasePartida::DescartePendiente),
        ensures
            r.tablas() == self.tablas(),
            self@.partida is None ==> exists|manos: Seq<Seq<Carta>>, c: ModeloBaraja|
                {
                    &&& manos_de_partida(manos)
                    &&& manos.len() == 4
                    &&& repartida_de_baraja(manos, c)
                    &&& c.cartas.len() <= 40
                    &&& r@ == VistaJuegoMus {
                        cards: Some(VistaCartas::Baraja(c)),
                        ..con_reparto(self@, self.tablas(), manos)
                    }
                },
            (self@.partida matches Some(ModeloPartida::Mus(_)) && self@.cards matches Some(
                VistaCartas::Baraja(_),
            )) ==> exists|nuevas: Seq<Carta>, m2: ModeloMus, c: ModeloBaraja|
                {
                    &&& self@.partida.unwrap()->Mus_0.descartada(nuevas, m2)
                    &&& descarte_de_baraja(
                        self@.cards.unwrap()->Baraja_0,
                        descarte_pendiente(self@.partida.unwrap()),
                        nuevas,
                        c,
                    )
                    &&& c.cartas.len() <= 40
                    &&& r@ == con_cartas_nuevas(self@, self.tablas(), m2, VistaCartas::Baraja(c))
                },
            (self@.partida is Some && !(self@.cards matches Some(VistaCartas::Baraja(_))))
                ==> r@ == forzar_fin_mus(self@, self.tablas()),
    {
        proof {
            use_type_invariant(self);
        }
        let new_game = self.clone();
        match &self.partida {
            None => {
                let mut baraja = Baraja::baraja_mus();
                let ghost d = baraja@.cartas;
                let manos: [Mano; 4] = baraja.repartir_manos();
                proof {
                    assert forall|i: int| 0 <= i < 4 implies mano_ordenada_de(
                        #[trigger] vistas(manos@)[i],
                        d.subrange(4 * i, 4 * i + 4),
                    ) by {
                        assert(vistas(manos@)[i] == manos@[i]@);
                    }
                    assert(repartida_de_baraja(vistas(manos@), baraja@));
                    assert(manos_de_partida(vistas(manos@))) by {
                        assert(vistas(manos@)[0] == manos@[0]@);
                        assert(vistas(manos@)[1] == manos@[1]@);
                    }
                }
                let mut g = new_game.with_hands(manos);
                g.set_card_source(CardSource::Baraja(baraja));
                g
            },
            Some(p) => {
                let mut partida = p.clone();
                let mut b = self.info_set_builder.clone();
                let mut cards = match &self.cards {
                    Some(c) => Some(c.clone()),
                    None => None,
                };
                let ghost mut testigo: (Seq<Carta>, ModeloMus, ModeloBaraja) = arbitrary();
                match cards {
                    Some(CardSource::Baraja(mut baraja)) => {
                        let ghost b0 = baraja@;
                        let descartes = partida.descartadas().unwrap();
                        let d = cartas_slice(&descartes);
                        proof {
                            assert(d@ == descarte_pendiente(self@.partida.unwrap()));
                        }
                        let nuevas = baraja.descartar_cartas(d);
                        let _ = partida.descartar_con_nuevas(nuevas.as_slice());
                        update_hands(&partida, &mut b, Lance::Grande);
                        proof {
                            testigo = (nuevas@, partida@->Mus_0, baraja@);
                            assert(b0 == self@.cards.unwrap()->Baraja_0);
                            assert(descarte_de_baraja(
                                b0,
                                descarte_pendiente(self@.partida.unwrap()),
                                nuevas@,
                                baraja@,
                            ));
                        }
                        cards = Some(CardSource::Baraja(baraja));
                    },
                    _ => {},
                }
                enforce_max_mus_rounds(&mut partida, &mut b, self.mus_rounds, self.max_mus_rounds);
                let g = MusGameTwoHands {
                    tantos: self.tantos,
                    cards,
                    partida: Some(partida),
                    mus_rounds: self.mus_rounds,
                    max_mus_rounds: self.max_mus_rounds,
                    abstract_game: self.abstract_game,
                    info_set_builder: b,
                };
                proof {
                    if self@.cards matches Some(VistaCartas::Baraja(_)) {
                        let (nv, m2, c) = testigo;
                        assert(g@ == con_cartas_nuevas(self@, self.tablas(), m2, VistaCartas::Baraja(c)));
                    }
                }
                g
            },
        }
    }

    /// Partida tras cambiar el descarte pendiente por las cartas `nuevas`, con `dist` como
    /// frecuencias de las cartas que quedan, y forzar el fin del mus si toca.
    pub fn con_descarte(&self, nuevas: &[Carta], dist: [(Carta, u8); 8]) -> (r: Self)
        requires
            self@.partida matches Some(ModeloPartida::Mus(m)) && m.sub_fase is DescartePendiente,
        ensures
            r.tablas() == self.tablas(),
            exists|m2: ModeloMus|
                {
                    &&& self@.partida.unwrap()->Mus_0.descartada(nuevas@, m2)
                    &&& r@ == con_cartas_nuevas(
                        self@,
                        self.tablas(),
                        m2,
                        VistaCartas::Iterable(dist),
                    )
                },
    {
        proof {
            use_type_invariant(self);
        }
        let mut partida = self.partida.as_ref().unwrap().clone();
        let mut b = self.info_set_builder.clone();
        let _ = partida.descartar_con_nuevas(nuevas);
        let ghost m2 = partida@->Mus_0;
        update_hands(&partida, &mut b, Lance::Grande);
        enforce_max_mus_rounds(&mut partida, &mut b, self.mus_rounds, self.max_mus_rounds);
        let g = MusGameTwoHands {
            tantos: self.tantos,
            cards: Some(CardSource::Iterable(dist)),
            partida: Some(partida),
            mus_rounds: self.mus_rounds,
            max_mus_rounds: self.max_mus_rounds,
            abstract_game: self.abstract_game,
            info_set_builder: b,
        };
        proof {
            assert(g@ == con_cartas_nuevas(self@, self.tablas(), m2, VistaCartas::Iterable(dist)));
        }
        g
    }
}

impl Clone for MusGameTwoHands {
    fn clone(&self) -> (r: Self)
        ensures
            r@ == self@,
            r.tablas() == self.tablas(),
    {
        proof {
            use_type_invariant(self);
        }
        MusGameTwoHands {
            tantos: self.tantos,
            cards: match &self.cards {
                Some(c) => Some(c.clone()),
                None => None,
            },
            partida: match &self.partida {
                Some(p) => Some(p.clone()),
                None => None,
            },
            mus_rounds: self.mus_rounds,
            max_mus_rounds: self.max_mus_rounds,
            abstract_game: self.abstract_game,
            info_set_builder: self.info_set_builder.clone(),
        }
    }
}


} // verus!
