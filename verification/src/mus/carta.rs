use vstd::prelude::*;

use super::mus_error::MusError;

verus! {

/// Cartas de la baraja española, sin los ochos ni los nueves.
#[derive(Debug, Clone, Copy)]
pub enum Carta {
    As,
    Dos,
    Tres,
    Cuatro,
    Cinco,
    Seis,
    Siete,
    Sota,
    Caballo,
    Rey,
}

impl Carta {
    /// Valor de la carta en el mus: los doses valen como ases y los treses como reyes.
    pub open spec fn valor_spec(self) -> u8 {
        match self {
            Carta::As | Carta::Dos => 1,
            Carta::Cuatro => 4,
            Carta::Cinco => 5,
            Carta::Seis => 6,
            Carta::Siete => 7,
            Carta::Sota => 10,
            Carta::Caballo => 11,
            Carta::Tres | Carta::Rey => 12,
        }
    }

    /// Carácter con el que se escribe la carta.
    pub open spec fn char_spec(self) -> char {
        match self {
            Carta::As => '1',
            Carta::Dos => '2',
            Carta::Tres => '3',
            Carta::Cuatro => '4',
            Carta::Cinco => '5',
            Carta::Seis => '6',
            Carta::Siete => '7',
            Carta::Sota => 'S',
            Carta::Caballo => 'C',
            Carta::Rey => 'R',
        }
    }

    /// Carta que representa un carácter, si lo hay.
    pub open spec fn from_char_spec(c: char) -> Option<Carta> {
        if c == 'A' || c == '1' {
            Some(Carta::As)
        } else if c == '2' {
            Some(Carta::Dos)
        } else if c == '3' {
            Some(Carta::Tres)
        } else if c == '4' {
            Some(Carta::Cuatro)
        } else if c == '5' {
            Some(Carta::Cinco)
        } else if c == '6' {
            Some(Carta::Seis)
        } else if c == '7' {
            Some(Carta::Siete)
        } else if c == 'S' {
            Some(Carta::Sota)
        } else if c == 'C' {
            Some(Carta::Caballo)
        } else if c == 'R' {
            Some(Carta::Rey)
        } else {
            None
        }
    }

    /// Carta que tiene un valor dado, si la hay. Para los valores compartidos se elige el as y
    /// el rey.
    pub open spec fn from_valor_spec(v: u8) -> Option<Carta> {
        if v == 1 {
            Some(Carta::As)
        } else if v == 2 {
            Some(Carta::Dos)
        } else if v == 3 {
            Some(Carta::Tres)
        } else if v == 4 {
            Some(Carta::Cuatro)
        } else if v == 5 {
            Some(Carta::Cinco)
        } else if v == 6 {
            Some(Carta::Seis)
        } else if v == 7 {
            Some(Carta::Siete)
        } else if v == 10 {
            Some(Carta::Sota)
        } else if v == 11 {
            Some(Carta::Caballo)
        } else if v == 12 {
            Some(Carta::Rey)
        } else {
            None
        }
    }

    /// Devuelve el valor de la carta en el mus.
    pub fn valor(&self) -> (v: u8)
        ensures
            v == self.valor_spec(),
    {
        match self {
            Carta::As | Carta::Dos => 1,
            Carta::Cuatro => 4,
            Carta::Cinco => 5,
            Carta::Seis => 6,
            Carta::Siete => 7,
            Carta::Sota => 10,
            Carta::Caballo => 11,
            Carta::Tres | Carta::Rey => 12,
        }
    }

    /// Carta que representa un carácter, si lo hay.
    pub fn desde_char(c: char) -> (r: Option<Carta>)
        ensures
            r == Carta::from_char_spec(c),
    {
        match c {
            'A' | '1' => Some(Carta::As),
            '2' => Some(Carta::Dos),
            '3' => Some(Carta::Tres),
            '4' => Some(Carta::Cuatro),
            '5' => Some(Carta::Cinco),
            '6' => Some(Carta::Seis),
            '7' => Some(Carta::Siete),
            'S' => Some(Carta::Sota),
            'C' => Some(Carta::Caballo),
            'R' => Some(Carta::Rey),
            _ => None,
        }
    }

    /// Carta que tiene un valor dado, si la hay: el as para el 1 y el rey para el 12.
    pub fn desde_valor(v: u8) -> (r: Option<Carta>)
        ensures
            r == Carta::from_valor_spec(v),
    {
        match v {
            1 => Some(Carta::As),
            2 => Some(Carta::Dos),
            3 => Some(Carta::Tres),
            4 => Some(Carta::Cuatro),
            5 => Some(Carta::Cinco),
            6 => Some(Carta::Seis),
            7 => Some(Carta::Siete),
            10 => Some(Carta::Sota),
            11 => Some(Carta::Caballo),
            12 => Some(Carta::Rey),
            _ => None,
        }
    }

    /// Carácter con el que se escribe la carta.
    pub fn to_char(&self) -> (c: char)
        ensures
            c == self.char_spec(),
    {
        match self {
            Carta::As => '1',
            Carta::Dos => '2',
            Carta::Tres => '3',
            Carta::Cuatro => '4',
            Carta::Cinco => '5',
            Carta::Seis => '6',
            Carta::Siete => '7',
            Carta::Sota => 'S',
            Carta::Caballo => 'C',
            Carta::Rey => 'R',
        }
    }
}

impl Carta {
    /// Todas las cartas de la baraja, de menor a mayor.
    pub const CARTAS: [Carta; 10] = [
    Carta::As,
    Carta::Dos,
    Carta::Tres,
    Carta::Cuatro,
    Carta::Cinco,
    Carta::Seis,
    Carta::Siete,
    Carta::Sota,
    Carta::Caballo,
    Carta::Rey,
];

    /// Las ocho cartas distintas que se usan en el mus.
    pub const CARTAS_MUS: [Carta; 8] = [
    Carta::As,
    Carta::Cuatro,
    Carta::Cinco,
    Carta::Seis,
    Carta::Siete,
    Carta::Sota,
    Carta::Caballo,
    Carta::Rey,
];
}

impl From<&Carta> for char {
    fn from(other: &Carta) -> (c: char) {
        other.to_char()
    }
}

impl vstd::std_specs::convert::FromSpecImpl<&Carta> for char {
    open spec fn obeys_from_spec() -> bool {
        true
    }

    open spec fn from_spec(v: &Carta) -> char {
        v.char_spec()
    }
}

impl TryFrom<char> for Carta {
    type Error = MusError;

    fn try_from(other: char) -> (r: Result<Self, Self::Error>) {
        match Carta::desde_char(other) {
            Some(c) => Ok(c),
            None => Err(MusError::CaracterNoValido(other)),
        }
    }
}

impl vstd::std_specs::convert::TryFromSpecImpl<char> for Carta {
    open spec fn obeys_try_from_spec() -> bool {
        true
    }

    open spec fn try_from_spec(v: char) -> Result<Carta, MusError> {
        match Carta::from_char_spec(v) {
            Some(c) => Ok(c),
            None => Err(MusError::CaracterNoValido(v)),
        }
    }
}

impl TryFrom<u8> for Carta {
    type Error = MusError;

    fn try_from(other: u8) -> (r: Result<Self, Self::Error>) {
        match other {
            1 => Ok(Carta::As),
            2 => Ok(Carta::Dos),
            3 => Ok(Carta::Tres),
            4 => Ok(Carta::Cuatro),
            5 => Ok(Carta::Cinco),
            6 => Ok(Carta::Seis),
            7 => Ok(Carta::Siete),
            10 => Ok(Carta::Sota),
            11 => Ok(Carta::Caballo),
            12 => Ok(Carta::Rey),
            _ => Err(MusError::ValorNoValido(other)),
        }
    }
}

impl vstd::std_specs::convert::TryFromSpecImpl<u8> for Carta {
    open spec fn obeys_try_from_spec() -> bool {
        true
    }

    open spec fn try_from_spec(v: u8) -> Result<Carta, MusError> {
        match Carta::from_valor_spec(v) {
            Some(c) => Ok(c),
            None => Err(MusError::ValorNoValido(v)),
        }
    }
}

/// Dos cartas son iguales si tienen el mismo valor en el mus.
impl PartialEq for Carta {
    fn eq(&self, other: &Self) -> (r: bool) {
        self.valor() == other.valor()
    }
}

impl vstd::std_specs::cmp::PartialEqSpecImpl for Carta {
    open spec fn obeys_eq_spec() -> bool {
        true
    }

    open spec fn eq_spec(&self, other: &Carta) -> bool {
        self.valor_spec() == other.valor_spec()
    }
}

impl Eq for Carta {}

/// Las cartas se ordenan por su valor en el mus.
impl PartialOrd for Carta {
    fn partial_cmp(&self, other: &Self) -> (r: Option<core::cmp::Ordering>) {
        let a = self.valor();
        let b = other.valor();
        if a < b {
            Some(core::cmp::Ordering::Less)
        } else if a == b {
            Some(core::cmp::Ordering::Equal)
        } else {
            Some(core::cmp::Ordering::Greater)
        }
    }
}

impl vstd::std_specs::cmp::PartialOrdSpecImpl for Carta {
    open spec fn obeys_partial_cmp_spec() -> bool {
        true
    }

    open spec fn partial_cmp_spec(&self, other: &Carta) -> Option<core::cmp::Ordering> {
        if self.valor_spec() < other.valor_spec() {
            Some(core::cmp::Ordering::Less)
        } else if self.valor_spec() == other.valor_spec() {
            Some(core::cmp::Ordering::Equal)
        } else {
            Some(core::cmp::Ordering::Greater)
        }
    }
}

/// El carácter con el que se escribe una carta se lee de vuelta como esa misma carta.
pub proof fn lema_caracter_carta(c: Carta)
    ensures
        Carta::from_char_spec(c.char_spec()) == Some(c),
{
}

} // verus!
