use vstd::prelude::*;

use super::GameError;
use crate::colecciones::push_char;

verus! {

/// Tipo de nodo del árbol de un juego.
#[derive(Debug, Clone, Copy, PartialEq, Eq, Structural)]
pub enum NodeType {
    /// Nodo de azar.
    Chance,
    /// Nodo de jugador: el jugador que actúa y el número de acciones que tiene disponibles.
    Player(usize, usize),
    /// Nodo terminal.
    Terminal,
}

/// Variantes del algoritmo CFR con las que se puede entrenar.
#[derive(Debug, Copy, Clone, PartialEq, Eq, Structural)]
pub enum CfrMethod {
    Cfr,
    CfrPlus,
    ChanceSampling,
    ExternalSampling,
    FsiCfr,
}

/// Minúscula de un carácter ASCII; el resto queda igual.
pub open spec fn minuscula(c: char) -> char {
    if 'A' <= c <= 'Z' {
        ((c as u32) + 32) as char
    } else {
        c
    }
}

/// Texto con las letras ASCII en minúscula.
pub open spec fn en_minusculas(s: Seq<char>) -> Seq<char> {
    s.map_values(|c: char| minuscula(c))
}

/// Método que se nombra con un texto, sin distinguir mayúsculas: "cfr", "cfr-plus",
/// "chance-sampling", "external-sampling" o "fsi-cfr".
pub open spec fn metodo_de_texto(s: Seq<char>) -> Option<CfrMethod> {
    let t = en_minusculas(s);
    if t == seq!['c', 'f', 'r'] {
        Some(CfrMethod::Cfr)
    } else if t == seq!['c', 'f', 'r', '-', 'p', 'l', 'u', 's'] {
        Some(CfrMethod::CfrPlus)
    } else if t == seq![
        'c',
        'h',
        'a',
        'n',
        'c',
        'e',
        '-',
        's',
        'a',
        'm',
        'p',
        'l',
        'i',
        'n',
        'g',
    ] {
        Some(CfrMethod::ChanceSampling)
    } else if t == seq![
        'e',
        'x',
        't',
        'e',
        'r',
        'n',
        'a',
        'l',
        '-',
        's',
        'a',
        'm',
        'p',
        'l',
        'i',
        'n',
        'g',
    ] {
        Some(CfrMethod::ExternalSampling)
    } else if t == seq!['f', 's', 'i', '-', 'c', 'f', 'r'] {
        Some(CfrMethod::FsiCfr)
    } else {
        None
    }
}

fn minuscula_exec(c: char) -> (r: char)
    ensures
        r == minuscula(c),
{
    if 'A' <= c && c <= 'Z' {
        let u = (c as u32) + 32;
        proof {
            assert(0x61 <= u <= 0x7a);
        }
        char_de(u)
    } else {
        c
    }
}

fn char_de(u: u32) -> (c: char)
    requires
        0x61 <= u <= 0x7a,
    ensures
        c == u as char,
{
    if u == 0x61 { 'a' } else if u == 0x62 { 'b' } else if u == 0x63 { 'c' } else if u == 0x64 { 'd' }
    else if u == 0x65 { 'e' } else if u == 0x66 { 'f' } else if u == 0x67 { 'g' } else if u == 0x68 { 'h' }
    else if u == 0x69 { 'i' } else if u == 0x6a { 'j' } else if u == 0x6b { 'k' } else if u == 0x6c { 'l' }
    else if u == 0x6d { 'm' } else if u == 0x6e { 'n' } else if u == 0x6f { 'o' } else if u == 0x70 { 'p' }
    else if u == 0x71 { 'q' } else if u == 0x72 { 'r' } else if u == 0x73 { 's' } else if u == 0x74 { 't' }
    else if u == 0x75 { 'u' } else if u == 0x76 { 'v' } else if u == 0x77 { 'w' } else if u == 0x78 { 'x' }
    else if u == 0x79 { 'y' } else { 'z' }
}

/// Indica si la cadena tiene exactamente estos caracteres.
fn es_texto(s: &Vec<char>, t: &[char]) -> (r: bool)
    ensures
        r == (s@ == t@),
{
    if s.len() != t.len() {
        return false;
    }
    for i in 0..s.len()
        invariant
            s@.len() == t@.len(),
            forall|k: int| 0 <= k < i ==> s@[k] == t@[k],
    {
        if s[i] != t[i] {
            return false;
        }
    }
    proof {
        assert(s@ =~= t@);
    }
    true
}

impl CfrMethod {
    /// Lee el método de entrenamiento de su nombre, sin distinguir mayúsculas. Devuelve error,
    /// con el texto recibido, si no es ninguno de los métodos.
    pub fn parse(s: &str) -> (r: Result<CfrMethod, GameError>)
        ensures
            match metodo_de_texto(s@) {
                Some(m) => r == Ok::<CfrMethod, GameError>(m),
                None => r matches Err(GameError::InvalidCfrMethod(t)) && t@ == s@,
            },
    {
        let n = s.unicode_len();
        let mut t: Vec<char> = Vec::new();
        for i in 0..n
            invariant
                n == s@.len(),
                t@ == en_minusculas(s@.take(i as int)),
        {
            let c = minuscula_exec(s.get_char(i));
            t.push(c);
            proof {
                assert(en_minusculas(s@.take(i + 1)) =~= en_minusculas(s@.take(i as int)).push(c));
            }
        }
        proof {
            assert(s@.take(n as int) =~= s@);
        }
        if es_texto(&t, &['c', 'f', 'r']) {
            Ok(CfrMethod::Cfr)
        } else if es_texto(&t, &['c', 'f', 'r', '-', 'p', 'l', 'u', 's']) {
            Ok(CfrMethod::CfrPlus)
        } else if es_texto(
            &t,
            &['c', 'h', 'a', 'n', 'c', 'e', '-', 's', 'a', 'm', 'p', 'l', 'i', 'n', 'g'],
        ) {
            Ok(CfrMethod::ChanceSampling)
        } else if es_texto(
            &t,
            &['e', 'x', 't', 'e', 'r', 'n', 'a', 'l', '-', 's', 'a', 'm', 'p', 'l', 'i', 'n', 'g'],
        ) {
            Ok(CfrMethod::ExternalSampling)
        } else if es_texto(&t, &['f', 's', 'i', '-', 'c', 'f', 'r']) {
            Ok(CfrMethod::FsiCfr)
        } else {
            let mut copia = String::new();
            for i in 0..n
                invariant
                    n == s@.len(),
                    copia@ == s@.take(i as int),
            {
                push_char(&mut copia, s.get_char(i));
                proof {
                    assert(s@.take(i + 1) =~= s@.take(i as int).push(s@[i as int]));
                }
            }
            Err(GameError::InvalidCfrMethod(copia))
        }
    }
}

impl core::str::FromStr for CfrMethod {
    type Err = GameError;

    fn from_str(s: &str) -> (r: Result<Self, Self::Err>)
        ensures
            match metodo_de_texto(s@) {
                Some(m) => r == Ok::<CfrMethod, GameError>(m),
                None => r matches Err(GameError::InvalidCfrMethod(t)) && t@ == s@,
            },
    {
        CfrMethod::parse(s)
    }
}

} // verus!
