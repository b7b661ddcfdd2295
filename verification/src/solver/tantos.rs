use vstd::prelude::*;

use crate::colecciones::push_char;
use crate::mus::{digito, digitos};

verus! {

/// Posiciones de los dos puntos en el texto, de menor a mayor.
pub open spec fn dos_puntos(s: Seq<char>) -> Seq<int>
    decreases s.len(),
{
    if s.len() == 0 {
        Seq::empty()
    } else if s.last() == ':' {
        dos_puntos(s.drop_last()).push(s.len() - 1)
    } else {
        dos_puntos(s.drop_last())
    }
}

/// Indica si el carácter es un dígito decimal.
pub open spec fn es_digito(c: char) -> bool {
    '0' <= c <= '9'
}

/// Valor decimal de una secuencia de dígitos.
pub open spec fn valor_digitos(d: Seq<char>) -> int
    decreases d.len(),
{
    if d.len() == 0 {
        0
    } else {
        valor_digitos(d.drop_last()) * 10 + (d.last() as int - '0' as int)
    }
}

/// Texto sin el signo `+` inicial, si lo tiene.
pub open spec fn sin_signo(t: Seq<char>) -> Seq<char> {
    if t.len() > 0 && t[0] == '+' {
        t.drop_first()
    } else {
        t
    }
}

/// Indica si todos los caracteres son dígitos decimales.
pub open spec fn solo_digitos(d: Seq<char>) -> bool {
    forall|i: int| 0 <= i < d.len() ==> es_digito(#[trigger] d[i])
}

/// Número de 0 a 255 escrito en el texto, como lo lee `u8::from_str`: dígitos decimales, con un
/// `+` delante opcional, al menos un dígito y sin pasarse de 255.
pub open spec fn valor_u8(t: Seq<char>) -> Option<u8> {
    let d = sin_signo(t);
    if d.len() > 0 && solo_digitos(d) && valor_digitos(d) <= 255 {
        Some(valor_digitos(d) as u8)
    } else {
        None
    }
}

/// Mensaje de error cuando el texto no tiene exactamente unos dos puntos.
pub open spec fn error_formato(s: Seq<char>) -> Seq<char> {
    "Formato de los tantos incorecto ("@ + s
        + "). Deben indicarse separados por dos puntos, por ejemplo 5:23."@
}

/// Mensaje de error cuando una parte del marcador no es un número.
pub open spec fn error_numero(t: Seq<char>) -> Seq<char> {
    t + " no es un número."@
}

/// Marcador que se lee de un texto con los tantos de cada pareja separados por dos puntos, o el
/// mensaje de error: el de formato si no hay exactamente unos dos puntos y, si no, el de la
/// primera parte que no es un número.
pub open spec fn tantos_de_texto(s: Seq<char>) -> Result<[u8; 2], Seq<char>> {
    let p = dos_puntos(s);
    if p.len() != 1 {
        Err(error_formato(s))
    } else {
        let a = s.take(p[0]);
        let b = s.skip(p[0] + 1);
        match valor_u8(a) {
            None => Err(error_numero(a)),
            Some(x) => match valor_u8(b) {
                None => Err(error_numero(b)),
                Some(y) => Ok([x, y]),
            },
        }
    }
}

/// El valor de una secuencia de dígitos no es negativo.
proof fn lema_valor_no_negativo(d: Seq<char>)
    requires
        forall|k: int| 0 <= k < d.len() ==> es_digito(#[trigger] d[k]),
    ensures
        valor_digitos(d) >= 0,
    decreases d.len(),
{
    if d.len() > 0 {
        lema_valor_no_negativo(d.drop_last());
        assert(es_digito(d[d.len() - 1]));
    }
}

/// El valor de un prefijo de dígitos no supera el de la secuencia entera.
pub proof fn lema_valor_prefijo(d: Seq<char>, i: int)
    requires
        0 <= i <= d.len(),
        forall|k: int| 0 <= k < d.len() ==> es_digito(#[trigger] d[k]),
    ensures
        valor_digitos(d.take(i)) <= valor_digitos(d),
    decreases d.len(),
{
    if i < d.len() {
        lema_valor_no_negativo(d.drop_last());
        assert(es_digito(d[d.len() - 1]));
        assert(d.drop_last().take(i) =~= d.take(i));
        lema_valor_prefijo(d.drop_last(), i);
    } else {
        assert(d.take(i) =~= d);
    }
}

/// Añade al final de `s` los caracteres de `t`.
fn agregar(s: &mut String, t: &str)
    ensures
        final(s)@ == old(s)@ + t@,
{
    let n = t.unicode_len();
    for i in 0..n
        invariant
            n == t@.len(),
            s@ == old(s)@ + t@.take(i as int),
    {
        push_char(s, t.get_char(i));
        proof {
            assert(t@.take(i + 1) =~= t@.take(i as int).push(t@[i as int]));
        }
    }
    proof {
        assert(t@.take(n as int) =~= t@);
    }
}

/// Texto con los caracteres de `s` entre las posiciones `desde` y `hasta`.
fn subtexto(s: &str, desde: usize, hasta: usize) -> (r: String)
    requires
        desde <= hasta <= s@.len(),
    ensures
        r@ == s@.subrange(desde as int, hasta as int),
{
    let mut r = String::new();
    for i in desde..hasta
        invariant
            hasta <= s@.len(),
            r@ == s@.subrange(desde as int, i as int),
    {
        push_char(&mut r, s.get_char(i));
        proof {
            assert(s@.subrange(desde as int, i + 1) =~= s@.subrange(desde as int, i as int).push(
                s@[i as int],
            ));
        }
    }
    r
}

/// Lee un número de 0 a 255 de los caracteres de `s` entre `desde` y `hasta`.
fn leer_u8(s: &str, desde: usize, hasta: usize) -> (r: Option<u8>)
    requires
        desde <= hasta <= s@.len(),
    ensures
        r == valor_u8(s@.subrange(desde as int, hasta as int)),
{
    let ghost t = s@.subrange(desde as int, hasta as int);
    let mut inicio = desde;
    if desde < hasta && s.get_char(desde) == '+' {
        inicio = desde + 1;
    }
    let ghost d = s@.subrange(inicio as int, hasta as int);
    assert(d == sin_signo(t));
    if inicio == hasta {
        return None;
    }
    let mut valor: u32 = 0;
    let mut i = inicio;
    while i < hasta
        invariant
            inicio <= i <= hasta <= s@.len(),
            d == s@.subrange(inicio as int, hasta as int),
            t == s@.subrange(desde as int, hasta as int),
            d == sin_signo(t),
            d.len() > 0,
            valor <= 255,
            valor == valor_digitos(d.take(i - inicio)),
            forall|k: int| 0 <= k < i - inicio ==> es_digito(#[trigger] d[k]),
        decreases hasta - i,
    {
        let c = s.get_char(i);
        assert(d[i - inicio] == c);
        if !('0' <= c && c <= '9') {
            proof {
                assert(!es_digito(d[i - inicio]));
                assert(!solo_digitos(d));
            }
            return None;
        }
        proof {
            assert(d.take(i - inicio + 1).drop_last() =~= d.take(i - inicio));
            assert(d.take(i - inicio + 1).last() == c);
        }
        valor = valor * 10 + (c as u32 - '0' as u32);
        i = i + 1;
        if valor > 255 {
            proof {
                if solo_digitos(d) {
                    lema_valor_prefijo(d, i - inicio);
                }
            }
            return None;
        }
    }
    proof {
        assert(d.take(d.len() as int) =~= d);
    }
    Some(valor as u8)
}

/// Lee el marcador inicial de un texto con los tantos de cada pareja separados por dos puntos,
/// por ejemplo `25:14`. Si el texto no tiene exactamente unos dos puntos, o una de las partes no
/// es un número de 0 a 255, devuelve el mensaje de error.
pub fn parse_tantos(s: &str) -> (r: Result<[u8; 2], String>)
    ensures
        match tantos_de_texto(s@) {
            Ok(t) => r == Ok::<[u8; 2], String>(t),
            Err(m) => r matches Err(e) && e@ == m,
        },
{
    let n = s.unicode_len();
    let mut cuenta: usize = 0;
    let mut pos: usize = 0;
    for i in 0..n
        invariant
            n == s@.len(),
            cuenta == dos_puntos(s@.take(i as int)).len(),
            cuenta <= i,
            cuenta >= 1 ==> pos == dos_puntos(s@.take(i as int))[0] && pos < i,
    {
        proof {
            assert(s@.take(i + 1).drop_last() =~= s@.take(i as int));
        }
        if s.get_char(i) == ':' {
            if cuenta == 0 {
                pos = i;
            }
            cuenta = cuenta + 1;
        }
    }
    proof {
        assert(s@.take(n as int) =~= s@);
    }
    if cuenta != 1 {
        let mut e = String::new();
        agregar(&mut e, "Formato de los tantos incorecto (");
        agregar(&mut e, s);
        agregar(&mut e, "). Deben indicarse separados por dos puntos, por ejemplo 5:23.");
        return Err(e);
    }
    proof {
        assert(s@.subrange(0, pos as int) =~= s@.take(pos as int));
        assert(s@.subrange(pos + 1, n as int) =~= s@.skip(pos + 1));
    }
    match leer_u8(s, 0, pos) {
        None => {
            let mut e = subtexto(s, 0, pos);
            agregar(&mut e, " no es un número.");
            Err(e)
        },
        Some(t1) => match leer_u8(s, pos + 1, n) {
            None => {
                let mut e = subtexto(s, pos + 1, n);
                agregar(&mut e, " no es un número.");
                Err(e)
            },
            Some(t2) => Ok([t1, t2]),
        },
    }
}

/// Un dígito escrito vale lo que el número que representa.
proof fn lema_digito(d: nat)
    requires
        d < 10,
    ensures
        es_digito(digito(d)),
        digito(d) as int - '0' as int == d,
{
}

/// La escritura decimal de un número es una secuencia no vacía de dígitos que vale el número.
proof fn lema_digitos(n: nat)
    ensures
        digitos(n).len() > 0,
        solo_digitos(digitos(n)),
        valor_digitos(digitos(n)) == n,
    decreases n,
{
    if n < 10 {
        lema_digito(n);
        assert(digitos(n).drop_last() =~= Seq::<char>::empty());
        assert(digitos(n).last() == digito(n));
        assert(valor_digitos(Seq::<char>::empty()) == 0);
        assert(valor_digitos(digitos(n)) == n);
    } else {
        lema_digitos(n / 10);
        lema_digito(n % 10);
        assert(digitos(n).drop_last() == digitos(n / 10));
        assert(digitos(n).last() == digito(n % 10));
        assert(valor_digitos(digitos(n)) == valor_digitos(digitos(n / 10)) * 10 + (digito(n % 10) as int
            - '0' as int));
        assert((n / 10) * 10 + n % 10 == n);
        assert(valor_digitos(digitos(n)) == n);
    }
}

/// Añadir caracteres que no son dos puntos no cambia las posiciones de los dos puntos.
proof fn lema_dos_puntos_extension(s: Seq<char>, t: Seq<char>)
    requires
        forall|i: int| 0 <= i < t.len() ==> t[i] != ':',
    ensures
        dos_puntos(s + t) == dos_puntos(s),
    decreases t.len(),
{
    if t.len() == 0 {
        assert(s + t =~= s);
    } else {
        assert((s + t).drop_last() =~= s + t.drop_last());
        assert((s + t).last() == t.last());
        lema_dos_puntos_extension(s, t.drop_last());
    }
}

/// El marcador escrito con los tantos de cada pareja en decimal separados por dos puntos se lee
/// de vuelta como el mismo marcador.
pub proof fn lema_leer_tantos_escritos(a: u8, b: u8)
    ensures
        tantos_de_texto(digitos(a as nat) + seq![':'] + digitos(b as nat)) == Ok::<
            [u8; 2],
            Seq<char>,
        >([a, b]),
{
    let da = digitos(a as nat);
    let db = digitos(b as nat);
    let s = da + seq![':'] + db;
    lema_digitos(a as nat);
    lema_digitos(b as nat);
    lema_dos_puntos_extension(Seq::empty(), da);
    assert(Seq::<char>::empty() + da =~= da);
    assert(da + seq![':'] =~= da.push(':'));
    assert((da + seq![':']).drop_last() =~= da);
    assert(dos_puntos(da + seq![':']) == seq![da.len() as int]);
    lema_dos_puntos_extension(da + seq![':'], db);
    assert(s.take(da.len() as int) =~= da);
    assert(s.skip(da.len() as int + 1) =~= db);
    assert(sin_signo(da) == da);
    assert(sin_signo(db) == db);
}

} // verus!
