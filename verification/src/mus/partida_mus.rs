use vstd::prelude::*;

use core::marker::PhantomData;

use arrayvec::ArrayVec;

use crate::colecciones::{cartas_de, cartas_push, cartas_vacias, lances_clone, lances_de, lances_get, lances_len, lances_push, lances_set_resultado, lances_vacios, push_char, vec_de_array};

use super::{Apuesta, Carta, EstadoLance, Lance, Mano, vistas, descartadas_de, jugador_de, mano_ordenada_de, reemplazo, MusError, Turno, hay_lance_spec, manos_de_partida, rango_apuesta, se_juega_spec, tantos_pareja, tantos_mano_spec};

verus! {

/// Acciones posibles durante una partida de mus.
#[derive(Copy, Clone, Eq, Hash, Debug, PartialOrd, Ord)]
pub enum Accion {
    Paso,
    Quiero,
    Envido(u8),
    Ordago,
    Mus,
    NoMus,
    Descartar([bool; 4]),
}

impl PartialEq for Accion {
    fn eq(&self, other: &Self) -> (r: bool) {
        match (self, other) {
            (Accion::Paso, Accion::Paso) => true,
            (Accion::Quiero, Accion::Quiero) => true,
            (Accion::Envido(a), Accion::Envido(b)) => *a == *b,
            (Accion::Ordago, Accion::Ordago) => true,
            (Accion::Mus, Accion::Mus) => true,
            (Accion::NoMus, Accion::NoMus) => true,
            (Accion::Descartar(a), Accion::Descartar(b)) => {
                let r = a[0] == b[0] && a[1] == b[1] && a[2] == b[2] && a[3] == b[3];
                proof {
                    if r {
                        assert(*a =~= *b);
                    }
                }
                r
            },
            _ => false,
        }
    }
}

impl vstd::std_specs::cmp::PartialEqSpecImpl for Accion {
    open spec fn obeys_eq_spec() -> bool {
        true
    }

    open spec fn eq_spec(&self, other: &Accion) -> bool {
        *self == *other
    }
}

/// Número de cartas que se descartan.
pub open spec fn num_descartes(d: [bool; 4]) -> int {
    (if d[0] {
        1int
    } else {
        0int
    }) + (if d[1] {
        1int
    } else {
        0int
    }) + (if d[2] {
        1int
    } else {
        0int
    }) + (if d[3] {
        1int
    } else {
        0int
    })
}

/// Código de un descarte: las cuatro posiciones leídas como un número binario, la primera la más
/// significativa.
pub open spec fn codigo_descarte(d: [bool; 4]) -> int {
    (if d[0] {
        8int
    } else {
        0int
    }) + (if d[1] {
        4int
    } else {
        0int
    }) + (if d[2] {
        2int
    } else {
        0int
    }) + (if d[3] {
        1int
    } else {
        0int
    })
}

/// Orden de las acciones, el mismo que da su `Ord`: primero por tipo, en el orden en que están
/// declarados, y después por su contenido.
pub open spec fn rango_accion(a: Accion) -> int {
    match a {
        Accion::Paso => 0,
        Accion::Quiero => 1,
        Accion::Envido(n) => 2 + n,
        Accion::Ordago => 258,
        Accion::Mus => 259,
        Accion::NoMus => 260,
        Accion::Descartar(d) => 261 + codigo_descarte(d),
    }
}

/// Mayor de dos acciones.
pub open spec fn max_accion(a: Accion, b: Accion) -> Accion {
    if rango_accion(a) >= rango_accion(b) {
        a
    } else {
        b
    }
}

/// Dos acciones distintas nunca tienen el mismo rango, así que la mayor de dos no depende del
/// orden en que se comparan.
pub proof fn lema_max_accion_conmutativa(a: Accion, b: Accion)
    ensures
        max_accion(a, b) == max_accion(b, a),
{
    if rango_accion(a) == rango_accion(b) {
        match (a, b) {
            (Accion::Descartar(d1), Accion::Descartar(d2)) => {
                assert(d1[0] == d2[0] && d1[1] == d2[1] && d1[2] == d2[2] && d1[3] == d2[3]);
                assert(d1 =~= d2);
            },
            _ => {},
        }
    }
}

/// Texto con el que se escribe una acción en el historial.
pub open spec fn texto_accion(a: Accion) -> Seq<char> {
    match a {
        Accion::Paso => seq!['p'],
        Accion::Quiero => seq!['q'],
        Accion::Envido(n) => seq!['e'] + digitos(n as nat),
        Accion::Ordago => seq!['o'],
        Accion::Mus => seq!['m'],
        Accion::NoMus => seq!['n'],
        Accion::Descartar(d) => seq!['d'] + digitos(num_descartes(d) as nat),
    }
}

/// Dígito decimal.
pub open spec fn digito(d: nat) -> char {
    if d == 0 {
        '0'
    } else if d == 1 {
        '1'
    } else if d == 2 {
        '2'
    } else if d == 3 {
        '3'
    } else if d == 4 {
        '4'
    } else if d == 5 {
        '5'
    } else if d == 6 {
        '6'
    } else if d == 7 {
        '7'
    } else if d == 8 {
        '8'
    } else {
        '9'
    }
}

/// Escritura decimal de un número natural, sin ceros a la izquierda.
pub open spec fn digitos(n: nat) -> Seq<char>
    decreases n,
{
    if n < 10 {
        seq![digito(n)]
    } else {
        digitos(n / 10).push(digito(n % 10))
    }
}

/// Añade a la cadena la escritura decimal del número.
pub fn escribir_numero(s: &mut String, n: u8)
    ensures
        final(s)@ == old(s)@ + digitos(n as nat),
{
    if n >= 100 {
        push_char(s, digito_exec(n / 100));
        push_char(s, digito_exec((n / 10) % 10));
        push_char(s, digito_exec(n % 10));
        proof {
            assert(digitos(n as nat) == digitos((n / 10) as nat).push(digito((n % 10) as nat)));
            assert(digitos((n / 10) as nat) == digitos((n / 100) as nat).push(
                digito(((n / 10) % 10) as nat),
            ));
            assert(((n as nat) / 10) / 10 == (n as nat) / 100);
        }
    } else if n >= 10 {
        push_char(s, digito_exec(n / 10));
        push_char(s, digito_exec(n % 10));
        proof {
            assert(digitos(n as nat) == digitos((n / 10) as nat).push(digito((n % 10) as nat)));
        }
    } else {
        push_char(s, digito_exec(n));
    }
    proof {
        assert(final(s)@ =~= old(s)@ + digitos(n as nat));
    }
}

fn digito_exec(d: u8) -> (c: char)
    requires
        d < 10,
    ensures
        c == digito(d as nat),
{
    if d == 0 {
        '0'
    } else if d == 1 {
        '1'
    } else if d == 2 {
        '2'
    } else if d == 3 {
        '3'
    } else if d == 4 {
        '4'
    } else if d == 5 {
        '5'
    } else if d == 6 {
        '6'
    } else if d == 7 {
        '7'
    } else if d == 8 {
        '8'
    } else {
        '9'
    }
}

impl Accion {
    /// Posición de la acción en el orden de las acciones.
    pub fn rango(&self) -> (r: u16)
        ensures
            r == rango_accion(*self),
    {
        match self {
            Accion::Paso => 0,
            Accion::Quiero => 1,
            Accion::Envido(n) => 2 + *n as u16,
            Accion::Ordago => 258,
            Accion::Mus => 259,
            Accion::NoMus => 260,
            Accion::Descartar(d) => {
                let mut c: u16 = 261;
                if d[0] {
                    c = c + 8;
                }
                if d[1] {
                    c = c + 4;
                }
                if d[2] {
                    c = c + 2;
                }
                if d[3] {
                    c = c + 1;
                }
                c
            },
        }
    }

    /// Mayor de dos acciones según su orden.
    pub fn mayor(a: Accion, b: Accion) -> (r: Accion)
        ensures
            r == max_accion(a, b),
    {
        if a.rango() >= b.rango() {
            a
        } else {
            b
        }
    }

    /// Texto de la acción en el historial: una letra, seguida de los tantos en los envites y del
    /// número de cartas en los descartes.
    pub fn to_string(&self) -> (s: String)
        ensures
            s@ == texto_accion(*self),
    {
        let mut s = String::new();
        match self {
            Accion::Paso => push_char(&mut s, 'p'),
            Accion::Quiero => push_char(&mut s, 'q'),
            Accion::Envido(n) => {
                push_char(&mut s, 'e');
                escribir_numero(&mut s, *n);
            },
            Accion::Ordago => push_char(&mut s, 'o'),
            Accion::Mus => push_char(&mut s, 'm'),
            Accion::NoMus => push_char(&mut s, 'n'),
            Accion::Descartar(d) => {
                push_char(&mut s, 'd');
                let mut k: u8 = 0;
                if d[0] {
                    k = k + 1;
                }
                if d[1] {
                    k = k + 1;
                }
                if d[2] {
                    k = k + 1;
                }
                if d[3] {
                    k = k + 1;
                }
                escribir_numero(&mut s, k);
            },
        }
        proof {
            assert(s@ =~= texto_accion(*self));
        }
        s
    }
}

} // verus!

verus! {

broadcast use EstadoLance::lema_resuelto;

/// Resultado de un lance ya resuelto: pareja ganadora y tantos que se anota al final.
#[derive(Clone, Copy, Debug, PartialEq, Eq, Structural)]
pub struct ResultadoLance {
    pub ganador: u8,
    pub tantos: u8,
}

/// Partida de dos jugadores, uno contra uno.
#[derive(Clone, Copy, Debug)]
pub struct DosJugadores;

/// Partida de cuatro jugadores en dos parejas.
#[derive(Clone, Copy, Debug)]
pub struct CuatroJugadores;

/// Modalidades de partida: de dos o de cuatro jugadores.
pub trait ModalidadMus {}

impl ModalidadMus for DosJugadores {}

impl ModalidadMus for CuatroJugadores {}

/// Tantos con los que se gana la partida.
pub const MAX_TANTOS: u8 = 40;

/// Apuesta máxima de un lance con este marcador: lo que le falta a la pareja más retrasada.
pub open spec fn apuesta_maxima_de(tantos: [u8; 2]) -> u8 {
    if 40 - tantos[0] >= 40 - tantos[1] {
        (40 - tantos[0]) as u8
    } else {
        (40 - tantos[1]) as u8
    }
}

/// Ganador que da resolver el lance: el que ya hubiera o la pareja de la mejor mano.
pub open spec fn resolucion(e: EstadoLance) -> u8 {
    match e.ganador_spec() {
        Some(g) => g,
        None => (e.mejor_mano_spec() % 2) as u8,
    }
}

/// Un resultado anotado es de una de las dos parejas y de pocos tantos.
pub open spec fn resultado_valido(r: Option<ResultadoLance>) -> bool {
    r matches Some(x) ==> x.ganador <= 1 && x.tantos <= 47
}

/// Modelo de la fase de envites: manos, lances con sus resultados, marcador, lance en curso y
/// estado de sus envites (`None` cuando la partida ha terminado).
pub struct ModeloEnvites {
    pub manos: Seq<Seq<Carta>>,
    pub lances: Seq<(Lance, Option<ResultadoLance>)>,
    pub tantos: [u8; 2],
    pub idx_lance: int,
    pub estado: Option<EstadoLance>,
}

impl ModeloEnvites {
    /// Turno de quien tiene que actuar, o `None` si la partida ha terminado.
    pub open spec fn turno(self) -> Option<Turno> {
        match self.estado {
            Some(e) => e.turno_spec(),
            None => None,
        }
    }

    /// Lance en curso, o `None` si la partida ha terminado.
    pub open spec fn lance_actual(self) -> Option<Lance> {
        match self.estado {
            Some(_) => Some(self.lances[self.idx_lance].0),
            None => None,
        }
    }

    /// Si la acción se puede procesar sin desbordar los tantos del bote.
    pub open spec fn admite(self, a: Accion) -> bool {
        self.estado matches Some(e) ==> e.admite(a)
    }

    /// Estado de envites con el que empieza el lance `l` con este marcador. Si el lance no tiene
    /// envites se resuelve en el acto.
    pub open spec fn crear_estado(self, l: Lance) -> EstadoLance {
        let e = EstadoLance::inicial(l, self.manos, apuesta_maxima_de(self.tantos));
        if se_juega_spec(l, self.manos) {
            e
        } else {
            e.resuelto(resolucion(e))
        }
    }

    /// Marcador tras anotar `t` tantos a la pareja `p`. Al llegar a cuarenta la pareja gana la
    /// partida: se queda con cuarenta, la otra con cero, y la partida termina.
    pub open spec fn anotado(self, p: u8, t: u8) -> ModeloEnvites {
        let n = self.tantos[p as int] + t;
        if n >= 40 {
            ModeloEnvites {
                tantos: if p == 0 {
                    [40u8, 0u8]
                } else {
                    [0u8, 40u8]
                },
                estado: None,
                ..self
            }
        } else {
            ModeloEnvites {
                tantos: if p == 0 {
                    [n as u8, self.tantos[1]]
                } else {
                    [self.tantos[0], n as u8]
                },
                ..self
            }
        }
    }

    /// Anota al ganador los tantos de los envites del lance en curso, si ya lo hay. Un órdago
    /// aceptado resuelve el lance y da la partida a su ganador.
    pub open spec fn tras_envites(self) -> ModeloEnvites {
        match self.estado {
            None => self,
            Some(e) => {
                let ap = e.tantos_apostados_spec();
                let e2 = if ap == Apuesta::Ordago {
                    e.resuelto(resolucion(e))
                } else {
                    e
                };
                let s = ModeloEnvites { estado: Some(e2), ..self };
                match e2.ganador_spec() {
                    Some(g) => match ap {
                        Apuesta::Tantos(t) => s.anotado(g, t),
                        Apuesta::Ordago => s.anotado(g, 40),
                    },
                    None => s,
                }
            },
        }
    }

    /// Resuelve el lance en curso y guarda su resultado, que se anota al final de la partida: los
    /// tantos de las jugadas de la pareja ganadora y, si el lance se resolvió ahora, lo que se
    /// quiso en él.
    pub open spec fn tras_final_lance(self) -> ModeloEnvites {
        match self.estado {
            None => self,
            Some(e) => {
                let g = resolucion(e);
                let (e2, apostado) = match e.ganador_spec() {
                    Some(_) => (e, 0int),
                    None => (
                        e.resuelto(g),
                        match e.tantos_apostados_spec() {
                            Apuesta::Tantos(t) => t as int,
                            Apuesta::Ordago => 0,
                        },
                    ),
                };
                let l = self.lances[self.idx_lance].0;
                let r = ResultadoLance {
                    ganador: g,
                    tantos: (apostado + tantos_pareja(l, self.manos, g as int)) as u8,
                };
                ModeloEnvites {
                    lances: self.lances.update(self.idx_lance, (l, Some(r))),
                    estado: Some(e2),
                    ..self
                }
            },
        }
    }

    /// Pasa al siguiente lance, o termina la partida si era el último.
    pub open spec fn siguiente(self) -> ModeloEnvites {
        match self.estado {
            None => self,
            Some(_) => if 0 <= self.idx_lance < self.lances.len() - 1 {
                ModeloEnvites {
                    idx_lance: self.idx_lance + 1,
                    estado: Some(self.crear_estado(self.lances[self.idx_lance + 1].0)),
                    ..self
                }
            } else {
                ModeloEnvites { estado: None, ..self }
            },
        }
    }

    /// Avanza hasta el siguiente lance con envites, resolviendo los que no los tienen, o hasta el
    /// final de la partida.
    pub open spec fn avanzar(self) -> ModeloEnvites
        decreases self.lances.len() - self.idx_lance,
    {
        let s = self.siguiente();
        match s.estado {
            None => s,
            Some(e) => if e.turno_spec() is Some {
                s
            } else {
                proof {
                    assert(s.tras_final_lance().lances.len() == self.lances.len());
                }
                s.tras_final_lance().avanzar()
            },
        }
    }

    /// Anota los resultados de los lances desde el `i`-ésimo, hasta que una pareja llega a
    /// cuarenta.
    pub open spec fn anotar_desde(self, rs: Seq<(Lance, Option<ResultadoLance>)>, i: int) -> ModeloEnvites
        decreases rs.len() - i,
    {
        if i < 0 || i >= rs.len() {
            self
        } else {
            match rs[i].1 {
                Some(r) => {
                    let s = self.anotado(r.ganador, r.tantos);
                    if s.tantos[0] == 40 || s.tantos[1] == 40 {
                        s
                    } else {
                        s.anotar_desde(rs, i + 1)
                    }
                },
                None => self.anotar_desde(rs, i + 1),
            }
        }
    }

    /// Tanteo final: se vacían los lances y se anotan sus resultados en orden.
    pub open spec fn con_resultados(self) -> ModeloEnvites {
        ModeloEnvites { lances: Seq::empty(), ..self }.anotar_desde(self.lances, 0)
    }

    /// Fase y respuesta al acabar de avanzar: el turno del lance en curso o, si ya no queda
    /// ninguno, el tanteo final y `None`.
    pub open spec fn cierre(self) -> Result<(ModeloEnvites, Option<Turno>), MusError> {
        match self.estado {
            Some(e) => Ok((self, e.turno_spec())),
            None => Ok((self.con_resultados(), None)),
        }
    }

    /// Fase y respuesta tras actuar con la acción `a`: la acción se aplica al lance en curso y,
    /// si con ella se acaban sus envites, se anota el lance y se pasa al siguiente con envites.
    /// Si no queda ninguno, se hace el tanteo final y la partida termina.
    pub open spec fn paso(self, a: Accion) -> Result<(ModeloEnvites, Option<Turno>), MusError> {
        match self.estado {
            None => Err(MusError::AccionNoValida),
            Some(e) => match e.paso(a) {
                Err(err) => Err(err),
                Ok((e2, t)) => {
                    let s = ModeloEnvites { estado: Some(e2), ..self };
                    if t is Some {
                        Ok((s, t))
                    } else {
                        s.tras_envites().tras_final_lance().avanzar().cierre()
                    }
                },
            },
        }
    }
}

} // verus!

verus! {

impl ModeloEnvites {
    /// Estados posibles de la fase: marcador hasta cuarenta, dos o cuatro manos de cuatro cartas,
    /// hasta cuatro lances con resultados de una pareja, y un lance en curso entre ellos mientras
    /// no acabe la partida.
    pub open spec fn valido(self) -> bool {
        &&& self.tantos[0] <= 40
        &&& self.tantos[1] <= 40
        &&& manos_de_partida(self.manos)
        &&& self.lances.len() <= 4
        &&& 0 <= self.idx_lance < 4
        &&& forall|i: int|
            0 <= i < self.lances.len() ==> resultado_valido(#[trigger] self.lances[i].1)
        &&& self.estado matches Some(e) ==> self.idx_lance < self.lances.len()
            && e.apuesta_maxima_spec() <= 40
    }
}

/// Fase de envites de una partida: se juegan en orden los lances y se lleva el marcador.
#[derive(Debug)]
pub struct FaseEnvites<T> {
    manos: Vec<Mano>,
    lances: ArrayVec<(Lance, Option<ResultadoLance>), 4>,
    tantos: [u8; 2],
    idx_lance: usize,
    estado_lance: Option<EstadoLance>,
    modalidad: PhantomData<T>,
}

impl<T> View for FaseEnvites<T> {
    type V = ModeloEnvites;

    closed spec fn view(&self) -> ModeloEnvites {
        ModeloEnvites {
            manos: vistas(self.manos@),
            lances: lances_de(self.lances),
            tantos: self.tantos,
            idx_lance: self.idx_lance as int,
            estado: self.estado_lance,
        }
    }
}

impl<T> FaseEnvites<T> {
    #[verifier::type_invariant]
    spec fn inv(self) -> bool {
        self@.valido()
    }

    /// Fase con las manos, los lances y el marcador indicados, aún sin lance en curso.
    fn con_lances(
        manos: Vec<Mano>,
        lances: ArrayVec<(Lance, Option<ResultadoLance>), 4>,
        tantos: [u8; 2],
    ) -> (p: Self)
        requires
            manos_de_partida(vistas(manos@)),
            1 <= lances_de(lances).len() <= 4,
            forall|i: int|
                0 <= i < lances_de(lances).len() ==> (#[trigger] lances_de(lances)[i]).1 is None,
            tantos[0] <= 40,
            tantos[1] <= 40,
        ensures
            p@ == (ModeloEnvites {
                manos: vistas(manos@),
                lances: lances_de(lances),
                tantos,
                idx_lance: 0,
                estado: None,
            }),
    {
        FaseEnvites {
            manos,
            lances,
            tantos,
            idx_lance: 0,
            estado_lance: None,
            modalidad: PhantomData,
        }
    }

    /// Estado de envites con el que empieza el lance `l`.
    fn crear_estado_lance(&self, l: Lance) -> (e: EstadoLance)
        ensures
            e == self@.crear_estado(l),
            e.apuesta_maxima_spec() <= 40,
    {
        proof {
            use_type_invariant(self);
        }
        let r0 = MAX_TANTOS - self.tantos[0];
        let r1 = MAX_TANTOS - self.tantos[1];
        let maxima = if r0 >= r1 {
            r0
        } else {
            r1
        };
        let mut e = EstadoLance::new(&l, self.manos.as_slice(), maxima);
        if !l.se_juega(self.manos.as_slice()) {
            e.resolver_lance();
        }
        e
    }

    /// Pone en marcha el primer lance.
    fn empezar(&mut self)
        requires
            old(self)@.estado is None,
            old(self)@.idx_lance == 0,
            old(self)@.lances.len() >= 1,
        ensures
            final(self)@ == (ModeloEnvites {
                estado: Some(old(self)@.crear_estado(old(self)@.lances[0].0)),
                ..old(self)@
            }),
    {
        proof {
            use_type_invariant(&*self);
        }
        let l = lances_get(&self.lances, 0).0;
        let e = self.crear_estado_lance(l);
        self.estado_lance = Some(e);
    }

    fn anotar_tantos(&mut self, pareja: u8, tantos: u8)
        requires
            pareja <= 1,
            tantos <= 47,
        ensures
            final(self)@ == old(self)@.anotado(pareja, tantos),
    {
        proof {
            use_type_invariant(&*self);
        }
        let n: u8 = if pareja == 0 {
            self.tantos[0] + tantos
        } else {
            self.tantos[1] + tantos
        };
        if n >= MAX_TANTOS {
            self.estado_lance = None;
            self.tantos = if pareja == 0 {
                [MAX_TANTOS, 0]
            } else {
                [0, MAX_TANTOS]
            };
        } else if pareja == 0 {
            self.tantos = [n, self.tantos[1]];
        } else {
            self.tantos = [self.tantos[0], n];
        }
    }

    fn tanteo_envites_lance(&mut self)
        ensures
            final(self)@ == old(self)@.tras_envites(),
    {
        proof {
            use_type_invariant(&*self);
        }
        let mut estado = match self.estado_lance {
            Some(e) => e,
            None => return ,
        };
        let apuesta = estado.tantos_apostados();
        if let Apuesta::Ordago = apuesta {
            estado.resolver_lance();
        }
        let ganador = estado.ganador();
        self.estado_lance = Some(estado);
        if let Some(g) = ganador {
            match apuesta {
                Apuesta::Tantos(t) => self.anotar_tantos(g, t),
                Apuesta::Ordago => self.anotar_tantos(g, MAX_TANTOS),
            }
        }
    }

    /// Tantos de las jugadas de la pareja `g` en el lance `l`, con el bonus del lance.
    fn tantos_ganador(&self, l: Lance, g: u8) -> (t: u8)
        requires
            g <= 1,
        ensures
            t == tantos_pareja(l, self@.manos, g as int),
            t <= 7,
    {
        proof {
            use_type_invariant(self);
        }
        let i = g as usize;
        let extra = if self.manos.len() == 4 {
            l.tantos_mano(&self.manos[i + 2])
        } else {
            0
        };
        l.tantos_mano(&self.manos[i]) + extra + l.bonus()
    }

    fn tanteo_final_lance(&mut self)
        ensures
            final(self)@ == old(self)@.tras_final_lance(),
    {
        proof {
            use_type_invariant(&*self);
        }
        let mut estado = match self.estado_lance {
            Some(e) => e,
            None => return ,
        };
        let mut tantos: u8 = 0;
        let ganador = match estado.ganador() {
            Some(g) => g,
            None => {
                let g = estado.resolver_lance();
                if let Apuesta::Tantos(t) = estado.tantos_apostados() {
                    tantos = t;
                }
                g
            },
        };
        let lance = lances_get(&self.lances, self.idx_lance).0;
        tantos = tantos + self.tantos_ganador(lance, ganador);
        let mut lances = lances_clone(&self.lances);
        lances_set_resultado(&mut lances, self.idx_lance, ResultadoLance { ganador, tantos });
        self.estado_lance = None;
        self.lances = lances;
        self.estado_lance = Some(estado);
    }

    /// Pasa al siguiente lance. Devuelve `false` si no lo hay, y entonces la partida termina.
    fn siguiente_lance(&mut self) -> (hay: bool)
        ensures
            final(self)@ == old(self)@.siguiente(),
            hay == final(self)@.estado is Some,
    {
        proof {
            use_type_invariant(&*self);
        }
        if self.estado_lance.is_none() {
            return false;
        }
        let n = lances_len(&self.lances);
        if self.idx_lance < n - 1 {
            let lance = lances_get(&self.lances, self.idx_lance + 1).0;
            let e = self.crear_estado_lance(lance);
            self.idx_lance = self.idx_lance + 1;
            self.estado_lance = Some(e);
            true
        } else {
            self.estado_lance = None;
            false
        }
    }

    fn tanteo_final(&mut self)
        requires
            old(self)@.estado is None,
        ensures
            final(self)@ == old(self)@.con_resultados(),
    {
        proof {
            use_type_invariant(&*self);
        }
        let ghost inicio = self@;
        let lances = lances_clone(&self.lances);
        self.lances = lances_vacios();
        let n = lances_len(&lances);
        let ghost rs = lances_de(lances);
        let mut i: usize = 0;
        let mut fin = false;
        while i < n && !fin
            invariant
                rs == lances_de(lances),
                rs == inicio.lances,
                n == rs.len(),
                i <= n,
                forall|k: int| 0 <= k < rs.len() ==> resultado_valido(#[trigger] rs[k].1),
                fin ==> self@ == inicio.con_resultados(),
                !fin ==> self@.anotar_desde(rs, i as int) == inicio.con_resultados(),
            decreases n - i,
        {
            let (_, resultado) = lances_get(&lances, i);
            if let Some(r) = resultado {
                proof {
                    assert(resultado_valido(rs[i as int].1));
                }
                self.anotar_tantos(r.ganador, r.tantos);
                if self.tantos[0] == MAX_TANTOS || self.tantos[1] == MAX_TANTOS {
                    fin = true;
                }
            }
            i = i + 1;
        }
    }
}

} // verus!

verus! {

impl ModeloEnvites {
    /// Lances que se juegan con estas manos: grande, chica, pares si alguna mano los tiene, y
    /// juego si alguna lo tiene o punto si no.
    pub open spec fn lances_de_manos(manos: Seq<Seq<Carta>>) -> Seq<(Lance, Option<ResultadoLance>)> {
        let base = seq![(Lance::Grande, None::<ResultadoLance>), (Lance::Chica, None::<ResultadoLance>)];
        let con_pares = if hay_lance_spec(Lance::Pares, manos) {
            base.push((Lance::Pares, None::<ResultadoLance>))
        } else {
            base
        };
        if hay_lance_spec(Lance::Juego, manos) {
            con_pares.push((Lance::Juego, None::<ResultadoLance>))
        } else {
            con_pares.push((Lance::Punto, None::<ResultadoLance>))
        }
    }

    /// Fase con estos lances, aún sin lance en curso.
    pub open spec fn sin_empezar(
        manos: Seq<Seq<Carta>>,
        lances: Seq<(Lance, Option<ResultadoLance>)>,
        tantos: [u8; 2],
    ) -> ModeloEnvites {
        ModeloEnvites { manos, lances, tantos, idx_lance: 0, estado: None }
    }

    /// Fase recién creada: empieza el primero de sus lances.
    pub open spec fn empezada(self) -> ModeloEnvites {
        ModeloEnvites { estado: Some(self.crear_estado(self.lances[0].0)), ..self }
    }

    /// Fase de envites al comenzar una partida con estas manos y este marcador.
    pub open spec fn inicial(manos: Seq<Seq<Carta>>, tantos: [u8; 2]) -> ModeloEnvites {
        ModeloEnvites::sin_empezar(manos, ModeloEnvites::lances_de_manos(manos), tantos).empezada()
    }

    /// Fase en la que solo se juega el lance `l`, o `None` si ese lance no tiene envites.
    pub open spec fn de_un_lance(l: Lance, manos: Seq<Seq<Carta>>, tantos: [u8; 2]) -> Option<
        ModeloEnvites,
    > {
        let m = ModeloEnvites::sin_empezar(manos, seq![(l, None::<ResultadoLance>)], tantos).empezada();
        if m.turno() is Some {
            Some(m)
        } else {
            None
        }
    }
}

impl<T> FaseEnvites<T> {
    /// Crea la fase de envites con las manos recibidas, ordenadas desde el mano hasta el postre,
    /// y los tantos con los que empieza cada pareja.
    fn desde_manos(manos: Vec<Mano>, tantos: [u8; 2]) -> (p: Self)
        requires
            manos_de_partida(vistas(manos@)),
            tantos[0] <= 40,
            tantos[1] <= 40,
        ensures
            p@ == ModeloEnvites::inicial(vistas(manos@), tantos),
    {
        let mut lances = lances_vacios();
        lances_push(&mut lances, (Lance::Grande, None));
        lances_push(&mut lances, (Lance::Chica, None));
        if Lance::Pares.hay_lance(manos.as_slice()) {
            lances_push(&mut lances, (Lance::Pares, None));
        }
        if Lance::Juego.hay_lance(manos.as_slice()) {
            lances_push(&mut lances, (Lance::Juego, None));
        } else {
            lances_push(&mut lances, (Lance::Punto, None));
        }
        proof {
            assert(lances_de(lances) =~= ModeloEnvites::lances_de_manos(vistas(manos@)));
        }
        let mut p = Self::con_lances(manos, lances, tantos);
        p.empezar();
        p
    }

    /// Crea una fase en la que solo se juega el lance `lance`. Devuelve `None` si el lance no
    /// tiene envites con estas manos.
    fn de_un_lance(lance: Lance, manos: Vec<Mano>, tantos: [u8; 2]) -> (p: Option<Self>)
        requires
            manos_de_partida(vistas(manos@)),
            tantos[0] <= 40,
            tantos[1] <= 40,
        ensures
            match ModeloEnvites::de_un_lance(lance, vistas(manos@), tantos) {
                Some(m) => p matches Some(f) && f@ == m,
                None => p is None,
            },
    {
        let mut lances = lances_vacios();
        lances_push(&mut lances, (lance, None));
        proof {
            assert(lances_de(lances) =~= seq![(lance, None::<ResultadoLance>)]);
        }
        let mut p = Self::con_lances(manos, lances, tantos);
        p.empezar();
        if p.turno().is_none() {
            return None;
        }
        Some(p)
    }

    /// Realiza la acción recibida como parámetro. Devuelve el turno de la siguiente pareja o
    /// `Ok(None)` si la partida ha terminado. Devuelve error si se llama tras haber acabado la
    /// partida o si la acción no es válida; en ese caso la fase no cambia.
    pub fn actuar(&mut self, accion: Accion) -> (r: Result<Option<Turno>, MusError>)
        requires
            old(self)@.admite(accion),
        ensures
            match old(self)@.paso(accion) {
                Ok((m, t)) => r == Ok::<Option<Turno>, MusError>(t) && final(self)@ == m,
                Err(e) => r == Err::<Option<Turno>, MusError>(e) && final(self)@ == old(self)@,
            },
            final(self)@.valido(),
    {
        proof {
            use_type_invariant(&*self);
        }
        let mut estado = match self.estado_lance {
            Some(e) => e,
            None => return Err(MusError::AccionNoValida),
        };
        let turno = match estado.actuar(accion) {
            Ok(t) => t,
            Err(e) => return Err(e),
        };
        self.estado_lance = Some(estado);
        if turno.is_some() {
            return Ok(turno);
        }
        self.tanteo_envites_lance();
        self.tanteo_final_lance();
        let ghost objetivo = self@.avanzar();
        assert(old(self)@.paso(accion) == objetivo.cierre());
        loop
            invariant
                self@.avanzar() == objetivo,
                old(self)@.paso(accion) == objetivo.cierre(),
            ensures
                self@ == objetivo,
                self@.estado is None,
            decreases 4 - self.idx_lance,
        {
            proof {
                use_type_invariant(&*self);
            }
            let ghost previo = self@;
            if !self.siguiente_lance() {
                break;
            }
            let t = self.turno();
            if t.is_some() {
                proof {
                    use_type_invariant(&*self);
                    assert(previo.avanzar() == self@);
                }
                return Ok(t);
            }
            self.tanteo_final_lance();
            proof {
                use_type_invariant(&*self);
            }
        }
        self.tanteo_final();
        proof {
            use_type_invariant(&*self);
        }
        Ok(None)
    }

    /// Devuelve el turno de la pareja a la que le toca jugar, o `None` si la partida ha
    /// terminado.
    pub fn turno(&self) -> (t: Option<Turno>)
        ensures
            t == self@.turno(),
    {
        match &self.estado_lance {
            Some(e) => e.turno(),
            None => None,
        }
    }

    /// Devuelve los tantos que lleva cada pareja.
    pub fn tantos(&self) -> (t: &[u8; 2])
        ensures
            *t == self@.tantos,
            t[0] <= 40,
            t[1] <= 40,
    {
        proof {
            use_type_invariant(self);
        }
        &self.tantos
    }

    /// Devuelve el lance en curso, o `None` si la partida ya ha acabado.
    pub fn lance_actual(&self) -> (l: Option<Lance>)
        ensures
            l == self@.lance_actual(),
    {
        proof {
            use_type_invariant(self);
        }
        match &self.estado_lance {
            Some(_) => Some(lances_get(&self.lances, self.idx_lance).0),
            None => None,
        }
    }

    /// Indica si hubo algún envite en el lance en curso. En caso de que la partida esté
    /// finalizada, devuelve false.
    pub fn hay_envites(&self) -> (r: bool)
        ensures
            r == (self@.estado matches Some(e) && rango_apuesta(e.ultima_apuesta_spec()) > 0),
    {
        match &self.estado_lance {
            Some(e) => match e.ultima_apuesta() {
                Apuesta::Tantos(t) => t > 0,
                Apuesta::Ordago => true,
            },
            None => false,
        }
    }

    /// Devuelve hasta cuántos tantos se ha elevado la apuesta del lance actual. Se incluye en este
    /// valor los envites que todavía no han sido aceptados por la pareja rival.
    pub fn ultima_apuesta(&self) -> (a: Apuesta)
        ensures
            a == match self@.estado {
                Some(e) => e.ultima_apuesta_spec(),
                None => Apuesta::Tantos(0),
            },
    {
        match &self.estado_lance {
            Some(e) => e.ultima_apuesta(),
            None => Apuesta::Tantos(0),
        }
    }

    /// Devuelve la apuesta máxima del lance en curso. Si la partida ha terminado devuelve 0.
    pub fn apuesta_maxima(&self) -> (m: u8)
        ensures
            m == match self@.estado {
                Some(e) => e.apuesta_maxima_spec(),
                None => 0,
            },
            m <= 40,
    {
        proof {
            use_type_invariant(self);
        }
        match &self.estado_lance {
            Some(e) => e.apuesta_maxima(),
            None => 0,
        }
    }

    /// Devuelve las manos de los jugadores.
    pub fn manos(&self) -> (m: &[Mano])
        ensures
            vistas(m@) == self@.manos,
            manos_de_partida(self@.manos),
    {
        proof {
            use_type_invariant(self);
        }
        self.manos.as_slice()
    }
}

} // verus!

verus! {

} // verus!

verus! {

/// Manos de cuatro cartas.
pub open spec fn manos_completas(manos: Seq<Mano>) -> bool {
    forall|i: int| 0 <= i < manos.len() ==> (#[trigger] manos[i])@.len() == 4
}

impl FaseEnvites<DosJugadores> {
    /// Crea la fase de envites de una partida de dos jugadores con las manos recibidas, la del
    /// mano primero, y los tantos con los que empieza cada jugador.
    pub fn new(manos: [Mano; 2], tantos: [u8; 2]) -> (p: Self)
        requires
            manos_completas(manos@),
            tantos[0] <= 40,
            tantos[1] <= 40,
        ensures
            p@ == ModeloEnvites::inicial(vistas(manos@), tantos),
    {
        Self::desde_manos(vec_de_array(manos), tantos)
    }

    /// Crea una fase en la que solo se juega el lance recibido. Devuelve `None` si el lance no
    /// tiene envites con estas manos.
    pub fn new_partida_lance(lance: Lance, manos: [Mano; 2], tantos: [u8; 2]) -> (p: Option<Self>)
        requires
            manos_completas(manos@),
            tantos[0] <= 40,
            tantos[1] <= 40,
        ensures
            match ModeloEnvites::de_un_lance(lance, vistas(manos@), tantos) {
                Some(m) => p matches Some(f) && f@ == m,
                None => p is None,
            },
    {
        Self::de_un_lance(lance, vec_de_array(manos), tantos)
    }
}

impl FaseEnvites<CuatroJugadores> {
    /// Crea la fase de envites de una partida de cuatro jugadores con las manos recibidas,
    /// ordenadas desde el mano hasta el postre, y los tantos con los que empieza cada pareja.
    pub fn new(manos: [Mano; 4], tantos: [u8; 2]) -> (p: Self)
        requires
            manos_completas(manos@),
            tantos[0] <= 40,
            tantos[1] <= 40,
        ensures
            p@ == ModeloEnvites::inicial(vistas(manos@), tantos),
    {
        Self::desde_manos(vec_de_array(manos), tantos)
    }

    /// Crea una fase en la que solo se juega el lance recibido. Devuelve `None` si el lance no
    /// tiene envites con estas manos; por ejemplo, en pares cuando solo una pareja los tiene.
    pub fn new_partida_lance(lance: Lance, manos: [Mano; 4], tantos: [u8; 2]) -> (p: Option<Self>)
        requires
            manos_completas(manos@),
            tantos[0] <= 40,
            tantos[1] <= 40,
        ensures
            match ModeloEnvites::de_un_lance(lance, vistas(manos@), tantos) {
                Some(m) => p matches Some(f) && f@ == m,
                None => p is None,
            },
    {
        Self::de_un_lance(lance, vec_de_array(manos), tantos)
    }
}

} // verus!

verus! {

/// Copias de unas manos: las mismas cartas en cada una.
proof fn lema_manos_clonadas(a: Seq<Mano>, b: Seq<Mano>)
    requires
        a.len() == b.len(),
        forall|i: int| 0 <= i < a.len() ==> cloned::<Mano>(a[i], b[i]),
    ensures
        vistas(a) == vistas(b),
{
    assert forall|i: int| 0 <= i < a.len() implies vistas(a)[i] == vistas(b)[i] by {
        assert(cloned::<Mano>(a[i], b[i]));
    }
    assert(vistas(a) =~= vistas(b));
}

impl<T> Clone for FaseEnvites<T> {
    fn clone(&self) -> (c: Self)
        ensures
            c@ == self@,
    {
        proof {
            use_type_invariant(self);
        }
        let manos = self.manos.clone();
        proof {
            lema_manos_clonadas(self.manos@, manos@);
        }
        FaseEnvites {
            manos,
            lances: lances_clone(&self.lances),
            tantos: self.tantos,
            idx_lance: self.idx_lance,
            estado_lance: self.estado_lance,
            modalidad: PhantomData,
        }
    }
}

} // verus!

verus! {

/// Momento de la fase de mus: pidiendo mus, pidiendo descartes o a la espera de las cartas que
/// reemplazan un descarte.
#[derive(Clone, Copy, Debug)]
pub enum SubfaseMus {
    Mus,
    Descartes,
    DescartePendiente { jugador: u8, descarte: [bool; 4] },
}

/// Fase en la que se encuentra una partida.
#[derive(Clone, Copy, Debug, PartialEq, Eq, Structural)]
pub enum FasePartida {
    Mus,
    Descartes,
    DescartePendiente,
    Envites(Lance),
}

/// Modelo de la fase de mus: manos, turno, momento de la fase y marcador.
pub struct ModeloMus {
    pub manos: Seq<Seq<Carta>>,
    pub turno: Option<Turno>,
    pub sub_fase: SubfaseMus,
    pub tantos: [u8; 2],
}

/// Ningún descarte.
pub open spec fn sin_descartes(d: [bool; 4]) -> bool {
    !d[0] && !d[1] && !d[2] && !d[3]
}

impl ModeloMus {
    /// Estados posibles: manos de partida, marcador hasta cuarenta y un turno acorde con el
    /// momento de la fase. Con dos jugadores siempre habla un jugador; con cuatro, el mus se pide
    /// por parejas y los descartes uno a uno.
    pub open spec fn valido(self) -> bool {
        &&& manos_de_partida(self.manos)
        &&& self.tantos[0] <= 40
        &&& self.tantos[1] <= 40
        &&& match self.sub_fase {
            SubfaseMus::Mus => if self.manos.len() == 2 {
                self.turno == Some(Turno::Jugador(0)) || self.turno == Some(Turno::Jugador(1))
            } else {
                self.turno matches Some(Turno::Pareja(p)) && p <= 3
            },
            SubfaseMus::Descartes => self.turno matches Some(Turno::Jugador(j)) && j
                < self.manos.len(),
            SubfaseMus::DescartePendiente { jugador, descarte } => self.turno == Some(
                Turno::Jugador(jugador),
            ) && jugador < self.manos.len() && !sin_descartes(descarte),
        }
    }

    /// Fase de mus al repartir: habla el mano.
    pub open spec fn inicial(manos: Seq<Seq<Carta>>, tantos: [u8; 2]) -> ModeloMus {
        ModeloMus {
            manos,
            turno: Some(
                if manos.len() == 2 {
                    Turno::Jugador(0)
                } else {
                    Turno::Pareja(0)
                },
            ),
            sub_fase: SubfaseMus::Mus,
            tantos,
        }
    }

    /// Fase de la partida que corresponde a este momento de la fase de mus.
    pub open spec fn fase(self) -> FasePartida {
        match self.sub_fase {
            SubfaseMus::Mus => FasePartida::Mus,
            SubfaseMus::Descartes => FasePartida::Descartes,
            SubfaseMus::DescartePendiente { .. } => FasePartida::DescartePendiente,
        }
    }

    /// Respuesta a pedir mus o cortar: con mus pasa la voz al siguiente y, cuando todos lo han
    /// pedido, empiezan los descartes por el mano; cortar el mus acaba la fase (`Ok(None)`).
    pub open spec fn paso_mus(self, a: Accion) -> Result<(ModeloMus, Option<Turno>), MusError> {
        match a {
            Accion::Mus => {
                let (t, sf) = if self.manos.len() == 2 {
                    if self.turno == Some(Turno::Jugador(0)) {
                        (Turno::Jugador(1), SubfaseMus::Mus)
                    } else {
                        (Turno::Jugador(0), SubfaseMus::Descartes)
                    }
                } else {
                    match self.turno {
                        Some(Turno::Pareja(0)) => (Turno::Pareja(2), SubfaseMus::Mus),
                        Some(Turno::Pareja(2)) => (Turno::Pareja(1), SubfaseMus::Mus),
                        Some(Turno::Pareja(1)) => (Turno::Pareja(3), SubfaseMus::Mus),
                        _ => (Turno::Jugador(0), SubfaseMus::Descartes),
                    }
                };
                Ok((ModeloMus { turno: Some(t), sub_fase: sf, ..self }, Some(t)))
            },
            Accion::NoMus => Ok((self, None)),
            _ => Err(MusError::AccionNoValida),
        }
    }

    /// Respuesta a un descarte: queda pendiente de recibir las cartas nuevas. No se puede
    /// descartar ninguna carta.
    pub open spec fn paso_descartes(self, a: Accion) -> Result<(ModeloMus, Option<Turno>), MusError> {
        match a {
            Accion::Descartar(d) => if sin_descartes(d) {
                Err(MusError::AccionNoValida)
            } else {
                Ok(
                    (
                        ModeloMus {
                            sub_fase: SubfaseMus::DescartePendiente {
                                jugador: jugador_de(self.turno.unwrap()),
                                descarte: d,
                            },
                            ..self
                        },
                        self.turno,
                    ),
                )
            },
            _ => Err(MusError::AccionNoValida),
        }
    }

    /// Respuesta a una acción en la fase de mus.
    pub open spec fn paso(self, a: Accion) -> Result<(ModeloMus, Option<Turno>), MusError> {
        match self.sub_fase {
            SubfaseMus::Mus => self.paso_mus(a),
            SubfaseMus::Descartes => self.paso_descartes(a),
            SubfaseMus::DescartePendiente { .. } => Err(MusError::AccionNoValida),
        }
    }

    /// Turno y momento de la fase tras recibir las cartas de un descarte: descarta el siguiente
    /// jugador o, tras el último, se vuelve a pedir mus.
    pub open spec fn tras_descarte(self) -> (Option<Turno>, SubfaseMus) {
        let j = jugador_de(self.turno.unwrap());
        if j + 1 < self.manos.len() {
            (Some(Turno::Jugador((j + 1) as u8)), SubfaseMus::Descartes)
        } else if self.manos.len() == 2 {
            (Some(Turno::Jugador(0)), SubfaseMus::Mus)
        } else {
            (Some(Turno::Pareja(0)), SubfaseMus::Mus)
        }
    }

    /// `m2` es la fase tras cambiar el descarte pendiente por las cartas `nuevas`: la mano del
    /// jugador pasa a tener esas cartas, ordenadas, y el turno sigue.
    pub open spec fn descartada(self, nuevas: Seq<Carta>, m2: ModeloMus) -> bool {
        match self.sub_fase {
            SubfaseMus::DescartePendiente { jugador, descarte } => {
                &&& m2.tantos == self.tantos
                &&& m2.manos.len() == self.manos.len()
                &&& forall|i: int|
                    0 <= i < self.manos.len() && i != jugador ==> #[trigger] m2.manos[i]
                        == self.manos[i]
                &&& mano_ordenada_de(
                    m2.manos[jugador as int],
                    reemplazo(self.manos[jugador as int], descarte, nuevas),
                )
                &&& (m2.turno, m2.sub_fase) == self.tras_descarte()
            },
            _ => false,
        }
    }
}

/// Un descarte de alguna carta de una mano de cuatro deja entre una y cuatro cartas.
proof fn lema_descartadas_no_vacias(m: Seq<Carta>, d: [bool; 4])
    requires
        m.len() == 4,
        !sin_descartes(d),
    ensures
        1 <= descartadas_de(m, d, 4).len() <= 4,
{
    reveal_with_fuel(descartadas_de, 5);
}

/// Fase de mus de una partida: se pide mus y se descarta hasta que alguien corta.
#[derive(Debug)]
pub struct FaseMus<T> {
    manos: Vec<Mano>,
    estado: (Option<Turno>, SubfaseMus),
    tantos: [u8; 2],
    modalidad: PhantomData<T>,
}

impl<T> View for FaseMus<T> {
    type V = ModeloMus;

    closed spec fn view(&self) -> ModeloMus {
        ModeloMus {
            manos: vistas(self.manos@),
            turno: self.estado.0,
            sub_fase: self.estado.1,
            tantos: self.tantos,
        }
    }
}

impl<T> FaseMus<T> {
    #[verifier::type_invariant]
    spec fn inv(self) -> bool {
        self@.valido()
    }

    fn desde_manos(manos: Vec<Mano>, tantos: [u8; 2]) -> (f: Self)
        requires
            manos_de_partida(vistas(manos@)),
            tantos[0] <= 40,
            tantos[1] <= 40,
        ensures
            f@ == ModeloMus::inicial(vistas(manos@), tantos),
    {
        let turno = if manos.len() == 2 {
            Turno::Jugador(0)
        } else {
            Turno::Pareja(0)
        };
        FaseMus { manos, estado: (Some(turno), SubfaseMus::Mus), tantos, modalidad: PhantomData }
    }

    /// Turno del jugador o pareja que tiene que hablar.
    pub fn turno(&self) -> (t: Option<Turno>)
        ensures
            t == self@.turno,
    {
        self.estado.0
    }

    /// Tantos de cada pareja.
    pub fn tantos(&self) -> (t: &[u8; 2])
        ensures
            *t == self@.tantos,
    {
        &self.tantos
    }

    /// Manos de los jugadores.
    pub fn manos(&self) -> (m: &[Mano])
        ensures
            vistas(m@) == self@.manos,
            manos_de_partida(self@.manos),
    {
        proof {
            use_type_invariant(self);
        }
        self.manos.as_slice()
    }

    /// Fase de la partida en este momento.
    pub fn fase(&self) -> (f: FasePartida)
        ensures
            f == self@.fase(),
            f == FasePartida::Descartes ==> (self@.turno matches Some(Turno::Jugador(j)) && j
                < self@.manos.len()),
    {
        proof {
            use_type_invariant(self);
        }
        match self.estado.1 {
            SubfaseMus::Mus => FasePartida::Mus,
            SubfaseMus::Descartes => FasePartida::Descartes,
            SubfaseMus::DescartePendiente { .. } => FasePartida::DescartePendiente,
        }
    }

    fn actuar_mus(&mut self, accion: Accion) -> (r: Result<Option<Turno>, MusError>)
        requires
            old(self)@.sub_fase is Mus,
        ensures
            match old(self)@.paso_mus(accion) {
                Ok((m, t)) => r == Ok::<Option<Turno>, MusError>(t) && final(self)@ == m,
                Err(e) => r == Err::<Option<Turno>, MusError>(e) && final(self)@ == old(self)@,
            },
    {
        proof {
            use_type_invariant(&*self);
        }
        match accion {
            Accion::Mus => {
                let siguiente = if self.manos.len() == 2 {
                    match self.estado.0 {
                        Some(Turno::Jugador(0)) => (Turno::Jugador(1), SubfaseMus::Mus),
                        _ => (Turno::Jugador(0), SubfaseMus::Descartes),
                    }
                } else {
                    match self.estado.0 {
                        Some(Turno::Pareja(0)) => (Turno::Pareja(2), SubfaseMus::Mus),
                        Some(Turno::Pareja(2)) => (Turno::Pareja(1), SubfaseMus::Mus),
                        Some(Turno::Pareja(1)) => (Turno::Pareja(3), SubfaseMus::Mus),
                        _ => (Turno::Jugador(0), SubfaseMus::Descartes),
                    }
                };
                self.estado = (Some(siguiente.0), siguiente.1);
                Ok(Some(siguiente.0))
            },
            Accion::NoMus => Ok(None),
            _ => Err(MusError::AccionNoValida),
        }
    }

    fn actuar_descartes(&mut self, accion: Accion) -> (r: Result<Option<Turno>, MusError>)
        requires
            old(self)@.sub_fase is Descartes,
        ensures
            match old(self)@.paso_descartes(accion) {
                Ok((m, t)) => r == Ok::<Option<Turno>, MusError>(t) && final(self)@ == m,
                Err(e) => r == Err::<Option<Turno>, MusError>(e) && final(self)@ == old(self)@,
            },
    {
        proof {
            use_type_invariant(&*self);
        }
        let jugador = match self.estado.0 {
            Some(t) => t.player_id(),
            None => return Err(MusError::AccionNoValida),
        };
        match accion {
            Accion::Descartar(d) => {
                if !d[0] && !d[1] && !d[2] && !d[3] {
                    return Err(MusError::AccionNoValida);
                }
                self.estado = (
                    self.estado.0,
                    SubfaseMus::DescartePendiente { jugador, descarte: d },
                );
                Ok(self.estado.0)
            },
            _ => Err(MusError::AccionNoValida),
        }
    }

    /// Realiza la acción en la fase de mus. Devuelve el turno siguiente, u `Ok(None)` si se corta
    /// el mus y empiezan los envites. Una acción que no corresponde al momento de la fase
    /// devuelve error y no cambia nada.
    pub fn actuar(&mut self, accion: Accion) -> (r: Result<Option<Turno>, MusError>)
        ensures
            match old(self)@.paso(accion) {
                Ok((m, t)) => r == Ok::<Option<Turno>, MusError>(t) && final(self)@ == m,
                Err(e) => r == Err::<Option<Turno>, MusError>(e) && final(self)@ == old(self)@,
            },
            final(self)@.valido(),
    {
        let r = match self.estado.1 {
            SubfaseMus::Mus => self.actuar_mus(accion),
            SubfaseMus::Descartes => self.actuar_descartes(accion),
            SubfaseMus::DescartePendiente { .. } => Err(MusError::AccionNoValida),
        };
        proof {
            use_type_invariant(&*self);
        }
        r
    }

    /// Cartas que ha descartado el jugador cuyo descarte está pendiente, en el orden de su mano.
    /// Devuelve error si no hay ningún descarte pendiente.
    pub fn descartadas(&self) -> (r: Result<ArrayVec<Carta, 4>, MusError>)
        ensures
            match self@.sub_fase {
                SubfaseMus::DescartePendiente { jugador, descarte } => r matches Ok(v)
                    && cartas_de(v) == descartadas_de(self@.manos[jugador as int], descarte, 4),
                _ => r == Err::<ArrayVec<Carta, 4>, MusError>(MusError::AccionNoValida),
            },
            r matches Ok(v) ==> 1 <= cartas_de(v).len() <= 4,
    {
        proof {
            use_type_invariant(self);
        }
        let (jugador, descarte) = match self.estado.1 {
            SubfaseMus::DescartePendiente { jugador, descarte } => (jugador, descarte),
            _ => return Err(MusError::AccionNoValida),
        };
        let cartas = self.manos[jugador as usize].cartas();
        proof {
            assert(cartas@ == self@.manos[jugador as int]);
        }
        let mut v = cartas_vacias();
        for i in 0..4
            invariant
                cartas@ == self@.manos[jugador as int],
                cartas@.len() == 4,
                cartas_de(v) == descartadas_de(cartas@, descarte, i as int),
                cartas_de(v).len() <= i,
        {
            if descarte[i] {
                cartas_push(&mut v, cartas[i]);
            }
        }
        proof {
            lema_descartadas_no_vacias(cartas@, descarte);
        }
        Ok(v)
    }

    /// Cambia las cartas del descarte pendiente por las nuevas y pasa el turno al siguiente
    /// jugador, o vuelve a pedir mus tras el último. Devuelve error si no hay descarte pendiente.
    pub fn descartar_con_nuevas(&mut self, nuevas: &[Carta]) -> (r: Result<Option<Turno>, MusError>)
        ensures
            old(self)@.sub_fase is DescartePendiente ==> r == Ok::<Option<Turno>, MusError>(
                final(self)@.turno,
            ) && old(self)@.descartada(nuevas@, final(self)@),
            !(old(self)@.sub_fase is DescartePendiente) ==> r == Err::<Option<Turno>, MusError>(
                MusError::AccionNoValida,
            ) && final(self)@ == old(self)@,
            final(self)@.valido(),
    {
        proof {
            use_type_invariant(&*self);
        }
        let (jugador, descarte) = match self.estado.1 {
            SubfaseMus::DescartePendiente { jugador, descarte } => (jugador, descarte),
            _ => return Err(MusError::AccionNoValida),
        };
        let j = jugador as usize;
        proof {
            assert(vistas(self.manos@)[j as int] == self.manos@[j as int]@);
        }
        let mut mano = self.manos[j].copia();
        mano.reemplazar(descarte, nuevas);
        let mut manos = self.manos.clone();
        manos.set(j, mano);
        proof {
            assert forall|i: int| 0 <= i < manos@.len() implies (#[trigger] vistas(manos@)[i]).len()
                == 4 by {
                if i != j {
                    assert(cloned::<Mano>(self.manos@[i], manos@[i]));
                    assert(vistas(self.manos@)[i] == self.manos@[i]@);
                }
            }
        }
        let n = self.manos.len();
        let siguiente = if j + 1 < n {
            (Some(Turno::Jugador(jugador + 1)), SubfaseMus::Descartes)
        } else if n == 2 {
            (Some(Turno::Jugador(0)), SubfaseMus::Mus)
        } else {
            (Some(Turno::Pareja(0)), SubfaseMus::Mus)
        };
        self.manos = manos;
        self.estado = siguiente;
        proof {
            assert forall|i: int| 0 <= i < old(self)@.manos.len() && i != jugador implies #[trigger] self@.manos[i]
                == old(self)@.manos[i] by {
                assert(cloned::<Mano>(old(self).manos@[i], self.manos@[i]));
            }
            use_type_invariant(&*self);
        }
        Ok(self.estado.0)
    }
}

impl<T> Clone for FaseMus<T> {
    fn clone(&self) -> (c: Self)
        ensures
            c@ == self@,
    {
        proof {
            use_type_invariant(self);
        }
        let manos = self.manos.clone();
        proof {
            lema_manos_clonadas(self.manos@, manos@);
        }
        FaseMus { manos, estado: self.estado, tantos: self.tantos, modalidad: PhantomData }
    }
}

impl FaseMus<DosJugadores> {
    /// Crea la fase de mus de una partida de dos jugadores: habla primero el mano.
    pub fn new(manos: [Mano; 2], tantos: [u8; 2]) -> (f: Self)
        requires
            manos_completas(manos@),
            tantos[0] <= 40,
            tantos[1] <= 40,
        ensures
            f@ == ModeloMus::inicial(vistas(manos@), tantos),
    {
        Self::desde_manos(vec_de_array(manos), tantos)
    }
}

impl FaseMus<CuatroJugadores> {
    /// Crea la fase de mus de una partida de cuatro jugadores: habla primero la pareja del mano.
    pub fn new(manos: [Mano; 4], tantos: [u8; 2]) -> (f: Self)
        requires
            manos_completas(manos@),
            tantos[0] <= 40,
            tantos[1] <= 40,
        ensures
            f@ == ModeloMus::inicial(vistas(manos@), tantos),
    {
        Self::desde_manos(vec_de_array(manos), tantos)
    }
}

} // verus!

verus! {

/// Modelo de una partida: en la fase de mus o en la de envites.
pub enum ModeloPartida {
    Mus(ModeloMus),
    Envites(ModeloEnvites),
}

impl ModeloPartida {
    /// Turno de quien tiene que hablar, o `None` si la partida ha terminado.
    pub open spec fn turno(self) -> Option<Turno> {
        match self {
            ModeloPartida::Mus(m) => m.turno,
            ModeloPartida::Envites(e) => e.turno(),
        }
    }

    /// Fase de la partida, o `None` si ha terminado.
    pub open spec fn fase(self) -> Option<FasePartida> {
        match self {
            ModeloPartida::Mus(m) => Some(m.fase()),
            ModeloPartida::Envites(e) => match e.lance_actual() {
                Some(l) => Some(FasePartida::Envites(l)),
                None => None,
            },
        }
    }

    /// Marcador de la partida.
    pub open spec fn tantos(self) -> [u8; 2] {
        match self {
            ModeloPartida::Mus(m) => m.tantos,
            ModeloPartida::Envites(e) => e.tantos,
        }
    }

    /// Manos de los jugadores.
    pub open spec fn manos(self) -> Seq<Seq<Carta>> {
        match self {
            ModeloPartida::Mus(m) => m.manos,
            ModeloPartida::Envites(e) => e.manos,
        }
    }

    /// Si la acción se puede procesar sin desbordar los tantos del bote.
    pub open spec fn admite(self, a: Accion) -> bool {
        self matches ModeloPartida::Envites(e) ==> e.admite(a)
    }

    /// Respuesta a una acción: en la fase de mus, cortar el mus da paso a los envites con las
    /// manos y el marcador que haya.
    pub open spec fn paso(self, a: Accion) -> Result<(ModeloPartida, Option<Turno>), MusError> {
        match self {
            ModeloPartida::Mus(m) => match m.paso(a) {
                Err(e) => Err(e),
                Ok((m2, t)) => if t is Some {
                    Ok((ModeloPartida::Mus(m2), t))
                } else {
                    let e = ModeloEnvites::inicial(m2.manos, m2.tantos);
                    Ok((ModeloPartida::Envites(e), e.turno()))
                },
            },
            ModeloPartida::Envites(e) => match e.paso(a) {
                Err(err) => Err(err),
                Ok((e2, t)) => Ok((ModeloPartida::Envites(e2), t)),
            },
        }
    }
}

#[derive(Debug)]
enum Fase<T> {
    Mus(FaseMus<T>),
    Envites(FaseEnvites<T>),
}

/// Partida de mus completa: fase de mus y fase de envites.
#[derive(Debug)]
pub struct PartidaMus<T> {
    fase: Fase<T>,
}

impl<T> View for PartidaMus<T> {
    type V = ModeloPartida;

    closed spec fn view(&self) -> ModeloPartida {
        match self.fase {
            Fase::Mus(f) => ModeloPartida::Mus(f@),
            Fase::Envites(f) => ModeloPartida::Envites(f@),
        }
    }
}

impl<T> PartidaMus<T> {
    /// Turno de la pareja o jugador al que le toca hablar, o `None` si la partida ha terminado.
    pub fn turno(&self) -> (t: Option<Turno>)
        ensures
            t == self@.turno(),
    {
        match &self.fase {
            Fase::Mus(f) => f.turno(),
            Fase::Envites(f) => f.turno(),
        }
    }

    /// Fase de la partida, o `None` si ha terminado.
    pub fn fase(&self) -> (f: Option<FasePartida>)
        ensures
            f == self@.fase(),
            f == Some(FasePartida::Descartes) ==> (self@.turno() matches Some(Turno::Jugador(j))
                && j < self@.manos().len()),
    {
        match &self.fase {
            Fase::Mus(f) => Some(f.fase()),
            Fase::Envites(f) => match f.lance_actual() {
                Some(l) => Some(FasePartida::Envites(l)),
                None => None,
            },
        }
    }

    /// Tantos de cada pareja.
    pub fn tantos(&self) -> (t: [u8; 2])
        ensures
            t == self@.tantos(),
    {
        match &self.fase {
            Fase::Mus(f) => *f.tantos(),
            Fase::Envites(f) => *f.tantos(),
        }
    }

    /// Fase de envites, si la partida ha llegado a ella.
    pub fn fase_envites(&self) -> (f: Option<&FaseEnvites<T>>)
        ensures
            match self@ {
                ModeloPartida::Envites(e) => f matches Some(x) && x@ == e,
                ModeloPartida::Mus(_) => f is None,
            },
    {
        match &self.fase {
            Fase::Mus(_) => None,
            Fase::Envites(f) => Some(f),
        }
    }

    /// Manos de los jugadores.
    pub fn manos(&self) -> (m: &[Mano])
        ensures
            vistas(m@) == self@.manos(),
            manos_de_partida(self@.manos()),
    {
        match &self.fase {
            Fase::Mus(f) => f.manos(),
            Fase::Envites(f) => f.manos(),
        }
    }

    /// Realiza la acción y devuelve el turno siguiente, u `Ok(None)` si la partida ha terminado.
    /// Al cortar el mus empieza la fase de envites. Una acción no válida devuelve error y deja la
    /// partida como estaba.
    pub fn actuar(&mut self, accion: Accion) -> (r: Result<Option<Turno>, MusError>)
        requires
            old(self)@.admite(accion),
        ensures
            match old(self)@.paso(accion) {
                Ok((m, t)) => r == Ok::<Option<Turno>, MusError>(t) && final(self)@ == m,
                Err(e) => r == Err::<Option<Turno>, MusError>(e) && final(self)@ == old(self)@,
            },
    {
        match &mut self.fase {
            Fase::Mus(fase_mus) => {
                let turno = fase_mus.actuar(accion)?;
                if turno.is_some() {
                    return Ok(turno);
                }
                let manos = fase_mus.manos.clone();
                let tantos = fase_mus.tantos;
                proof {
                    lema_manos_clonadas(fase_mus.manos@, manos@);
                    use_type_invariant(&*fase_mus);
                }
                let fase_envites = FaseEnvites::<T>::desde_manos(manos, tantos);
                let t = fase_envites.turno();
                self.fase = Fase::Envites(fase_envites);
                Ok(t)
            },
            Fase::Envites(fase_envites) => fase_envites.actuar(accion),
        }
    }

    /// Cambia las cartas del descarte pendiente por las nuevas. Devuelve error si no hay ningún
    /// descarte pendiente.
    pub fn descartar_con_nuevas(&mut self, nuevas: &[Carta]) -> (r: Result<Option<Turno>, MusError>)
        ensures
            match old(self)@ {
                ModeloPartida::Mus(m) => if m.sub_fase is DescartePendiente {
                    final(self)@ matches ModeloPartida::Mus(m2) && m.descartada(nuevas@, m2)
                        && r == Ok::<Option<Turno>, MusError>(m2.turno)
                } else {
                    r == Err::<Option<Turno>, MusError>(MusError::AccionNoValida) && final(self)@
                        == old(self)@
                },
                ModeloPartida::Envites(_) => r == Err::<Option<Turno>, MusError>(
                    MusError::AccionNoValida,
                ) && final(self)@ == old(self)@,
            },
    {
        match &mut self.fase {
            Fase::Mus(fase_mus) => fase_mus.descartar_con_nuevas(nuevas),
            Fase::Envites(_) => Err(MusError::AccionNoValida),
        }
    }

    /// Cartas del descarte pendiente. Devuelve error si no hay ningún descarte pendiente.
    pub fn descartadas(&self) -> (r: Result<ArrayVec<Carta, 4>, MusError>)
        ensures
            match self@ {
                ModeloPartida::Mus(m) => match m.sub_fase {
                    SubfaseMus::DescartePendiente { jugador, descarte } => r matches Ok(v)
                        && cartas_de(v) == descartadas_de(m.manos[jugador as int], descarte, 4),
                    _ => r == Err::<ArrayVec<Carta, 4>, MusError>(MusError::AccionNoValida),
                },
                ModeloPartida::Envites(_) => r == Err::<ArrayVec<Carta, 4>, MusError>(
                    MusError::AccionNoValida,
                ),
            },
            r matches Ok(v) ==> 1 <= cartas_de(v).len() <= 4,
    {
        match &self.fase {
            Fase::Mus(fase_mus) => fase_mus.descartadas(),
            Fase::Envites(_) => Err(MusError::AccionNoValida),
        }
    }
}

impl<T> Clone for PartidaMus<T> {
    fn clone(&self) -> (c: Self)
        ensures
            c@ == self@,
    {
        match &self.fase {
            Fase::Mus(f) => PartidaMus { fase: Fase::Mus(f.clone()) },
            Fase::Envites(f) => PartidaMus { fase: Fase::Envites(f.clone()) },
        }
    }
}

impl PartidaMus<DosJugadores> {
    /// Crea una partida de dos jugadores que empieza en la fase de mus.
    pub fn new(manos: [Mano; 2], tantos: [u8; 2]) -> (p: Self)
        requires
            manos_completas(manos@),
            tantos[0] <= 40,
            tantos[1] <= 40,
        ensures
            p@ == ModeloPartida::Mus(ModeloMus::inicial(vistas(manos@), tantos)),
    {
        PartidaMus { fase: Fase::Mus(FaseMus::<DosJugadores>::new(manos, tantos)) }
    }
}

impl PartidaMus<CuatroJugadores> {
    /// Crea una partida de cuatro jugadores que empieza en la fase de mus.
    pub fn new(manos: [Mano; 4], tantos: [u8; 2]) -> (p: Self)
        requires
            manos_completas(manos@),
            tantos[0] <= 40,
            tantos[1] <= 40,
        ensures
            p@ == ModeloPartida::Mus(ModeloMus::inicial(vistas(manos@), tantos)),
    {
        PartidaMus { fase: Fase::Mus(FaseMus::<CuatroJugadores>::new(manos, tantos)) }
    }
}

} // verus!

verus! {

/// Una partida terminada, o un lance sin turno, no admite ninguna acción: la respuesta es
/// siempre un error.
/// Al acabar los envites de un lance se anota su resultado: gana la pareja que resuelve el
/// lance, y sus tantos son los de las jugadas de las manos de esa pareja, más el bonus del lance,
/// más lo que se quiso si nadie había ganado todavía los envites.
pub proof fn lema_resultado_lance(m: ModeloEnvites)
    requires
        m.estado is Some,
        0 <= m.idx_lance < m.lances.len(),
        m.manos.len() == 2 || m.manos.len() == 4,
    ensures
        ({
            let e = m.estado.unwrap();
            let l = m.lances[m.idx_lance].0;
            let g = resolucion(e);
            let querido = if e.ganador_spec() is None {
                match e.tantos_apostados_spec() {
                    Apuesta::Tantos(t) => t as int,
                    Apuesta::Ordago => 0int,
                }
            } else {
                0int
            };
            let jugadas = tantos_mano_spec(l, m.manos[g as int]) + (if m.manos.len() == 4 {
                tantos_mano_spec(l, m.manos[g + 2]) as int
            } else {
                0int
            }) + l.bonus_spec();
            let r = m.tras_final_lance();
            &&& r.lances.len() == m.lances.len()
            &&& r.lances[m.idx_lance].0 == l
            &&& r.lances[m.idx_lance].1 matches Some(res) && res.ganador == g && res.tantos
                == (querido + jugadas) as u8
            &&& r.tantos == m.tantos
        }),
{
}

/// Anotar tantos a una pareja: suma a su marcador; si llega a cuarenta se queda con cuarenta,
/// la otra con cero y la partida termina; si no, el marcador de la otra no cambia.
pub proof fn lema_anotado(m: ModeloEnvites, p: u8, t: u8)
    requires
        p <= 1,
    ensures
        m.tantos[p as int] + t >= 40 ==> m.anotado(p, t).tantos[p as int] == 40 && m.anotado(
            p,
            t,
        ).tantos[1 - p] == 0 && m.anotado(p, t).estado is None,
        m.tantos[p as int] + t < 40 ==> m.anotado(p, t).tantos[p as int] == m.tantos[p as int] + t
            && m.anotado(p, t).tantos[1 - p] == m.tantos[1 - p] && m.anotado(p, t).estado
            == m.estado,
{
}

pub proof fn lema_terminada_rechaza(m: ModeloEnvites, a: Accion)
    requires
        m.turno() is None,
    ensures
        m.paso(a) == Err::<(ModeloEnvites, Option<Turno>), MusError>(MusError::AccionNoValida),
{
    if let Some(e) = m.estado {
        e.lema_sin_turno(a);
    }
}

/// Al avanzar se llega a un lance con turno o al final de la partida.
proof fn lema_avanzar_con_turno(m: ModeloEnvites)
    ensures
        m.avanzar().estado matches Some(e) ==> e.turno_spec() is Some,
    decreases m.lances.len() - m.idx_lance,
{
    let s = m.siguiente();
    if let Some(e) = s.estado {
        if e.turno_spec() is None {
            assert(s.tras_final_lance().lances.len() == m.lances.len());
            lema_avanzar_con_turno(s.tras_final_lance());
        }
    }
}

/// Anotar resultados en una partida terminada la deja terminada.
proof fn lema_anotar_terminada(m: ModeloEnvites, rs: Seq<(Lance, Option<ResultadoLance>)>, i: int)
    requires
        m.estado is None,
    ensures
        m.anotar_desde(rs, i).estado is None,
    decreases rs.len() - i,
{
    if 0 <= i < rs.len() {
        match rs[i].1 {
            Some(r) => lema_anotar_terminada(m.anotado(r.ganador, r.tantos), rs, i + 1),
            None => lema_anotar_terminada(m, rs, i + 1),
        }
    }
}

/// La respuesta a una acción es `Ok(None)` justo cuando con ella termina la partida: entonces ya
/// no hay lance en curso.
pub proof fn lema_fin_de_partida(m: ModeloEnvites, a: Accion)
    requires
        m.paso(a) is Ok,
    ensures
        (m.paso(a).unwrap().1 is None) == (m.paso(a).unwrap().0.lance_actual() is None),
        (m.paso(a).unwrap().1 is None) == (m.paso(a).unwrap().0.turno() is None),
{
    if let Some(e) = m.estado {
        e.lema_paso_turno(a);
        if let Ok((e2, t)) = e.paso(a) {
            if t is None {
                let s = ModeloEnvites { estado: Some(e2), ..m };
                let s3 = s.tras_envites().tras_final_lance().avanzar();
                lema_avanzar_con_turno(s.tras_envites().tras_final_lance());
                if s3.estado is None {
                    lema_anotar_terminada(
                        ModeloEnvites { lances: Seq::empty(), ..s3 },
                        s3.lances,
                        0,
                    );
                }
            }
        }
    }
}

} // verus!
