//! Text: numbers in decimal digits and comparison of names.

use vstd::prelude::*;

verus! {

/// The digit of a number below ten.
pub open spec fn digito(d: nat) -> char {
    (48 + d) as char
}

/// A natural number in decimal digits, without leading zeros.
pub open spec fn digitos(n: nat) -> Seq<char>
    decreases n,
{
    if n < 10 {
        seq![digito(n)]
    } else {
        digitos(n / 10).push(digito(n % 10))
    }
}

/// A whole number in decimal digits, with a minus sign if it is negative.
pub open spec fn texto_de_entero(n: int) -> Seq<char> {
    if n < 0 {
        seq!['-'] + digitos((-n) as nat)
    } else {
        digitos(n as nat)
    }
}

fn texto_de_digito(d: u64) -> (r: &'static str)
    requires
        d < 10,
    ensures
        r@ == seq![digito(d as nat)],
{
    proof {
        reveal_strlit("0");
        reveal_strlit("1");
        reveal_strlit("2");
        reveal_strlit("3");
        reveal_strlit("4");
        reveal_strlit("5");
        reveal_strlit("6");
        reveal_strlit("7");
        reveal_strlit("8");
        reveal_strlit("9");
    }
    if d == 0 {
        "0"
    } else if d == 1 {
        "1"
    } else if d == 2 {
        "2"
    } else if d == 3 {
        "3"
    } else if d == 4 {
        "4"
    } else if d == 5 {
        "5"
    } else if d == 6 {
        "6"
    } else if d == 7 {
        "7"
    } else if d == 8 {
        "8"
    } else {
        "9"
    }
}

/// Writes a natural number in decimal digits.
pub fn natural_a_texto(n: u64) -> (r: String)
    ensures
        r@ == digitos(n as nat),
    decreases n,
{
    if n < 10 {
        texto_de_digito(n).to_string()
    } else {
        let mut texto = natural_a_texto(n / 10);
        texto.append(texto_de_digito(n % 10));
        texto
    }
}

/// Writes a whole number in decimal digits.
pub fn entero_a_texto(n: i64) -> (r: String)
    ensures
        r@ == texto_de_entero(n as int),
{
    if n >= 0 {
        natural_a_texto(n as u64)
    } else {
        proof {
            reveal_strlit("-");
        }
        let mut texto = "-".to_string();
        let positivo: u64 = if n == i64::MIN {
            0x8000_0000_0000_0000
        } else {
            (-n) as u64
        };
        texto.append(natural_a_texto(positivo).as_str());
        texto
    }
}

/// Whether two texts hold the same characters.
pub fn mismo_texto(a: &str, b: &str) -> (r: bool)
    ensures
        r == (a@ == b@),
{
    broadcast use vstd::utf8::encode_utf8_decode_utf8;

    let x = a.as_bytes();
    let y = b.as_bytes();
    proof {
        assert(vstd::utf8::decode_utf8(vstd::utf8::encode_utf8(a@)) == a@);
        assert(vstd::utf8::decode_utf8(vstd::utf8::encode_utf8(b@)) == b@);
    }
    if x.len() != y.len() {
        return false;
    }
    let mut i: usize = 0;
    while i < x.len()
        invariant
            i <= x@.len(),
            x@.len() == y@.len(),
            x@ == vstd::utf8::encode_utf8(a@),
            y@ == vstd::utf8::encode_utf8(b@),
            forall|k: int| 0 <= k < i ==> x@[k] == y@[k],
        decreases x@.len() - i,
    {
        if x[i] != y[i] {
            return false;
        }
        i = i + 1;
    }
    assert(x@ =~= y@);
    true
}

/// Puts three pieces of text one after the other.
pub fn unir(a: &str, b: &str, c: &str) -> (r: String)
    ensures
        r@ == a@ + b@ + c@,
{
    let mut texto = a.to_string();
    texto.append(b);
    texto.append(c);
    texto
}

} // verus!
