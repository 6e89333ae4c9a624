use vstd::prelude::*;

verus! {

/// The lowercase hexadecimal digit for a value below sixteen.
pub open spec fn hex_digit(n: int) -> char {
    if n == 0 {
        '0'
    } else if n == 1 {
        '1'
    } else if n == 2 {
        '2'
    } else if n == 3 {
        '3'
    } else if n == 4 {
        '4'
    } else if n == 5 {
        '5'
    } else if n == 6 {
        '6'
    } else if n == 7 {
        '7'
    } else if n == 8 {
        '8'
    } else if n == 9 {
        '9'
    } else if n == 10 {
        'a'
    } else if n == 11 {
        'b'
    } else if n == 12 {
        'c'
    } else if n == 13 {
        'd'
    } else if n == 14 {
        'e'
    } else {
        'f'
    }
}

/// Whether a character is a lowercase hexadecimal digit.
pub open spec fn is_hex_char(c: char) -> bool {
    c == '0' || c == '1' || c == '2' || c == '3' || c == '4' || c == '5' || c == '6' || c == '7'
        || c == '8' || c == '9' || c == 'a' || c == 'b' || c == 'c' || c == 'd' || c == 'e' || c
        == 'f'
}

/// The lowercase hexadecimal rendering of a byte sequence: two digits per
/// byte, high nibble first.
pub open spec fn hex_of(b: Seq<u8>) -> Seq<char> {
    Seq::new(
        b.len() * 2,
        |i: int|
            if i % 2 == 0 {
                hex_digit(b[i / 2] as int / 16)
            } else {
                hex_digit(b[i / 2] as int % 16)
            },
    )
}

fn hex_digit_char(n: u8) -> (c: char)
    requires
        n < 16,
    ensures
        c == hex_digit(n as int),
{
    match n {
        0 => '0',
        1 => '1',
        2 => '2',
        3 => '3',
        4 => '4',
        5 => '5',
        6 => '6',
        7 => '7',
        8 => '8',
        9 => '9',
        10 => 'a',
        11 => 'b',
        12 => 'c',
        13 => 'd',
        14 => 'e',
        _ => 'f',
    }
}

/// Relies on std's String::push: it appends exactly the given character.
#[verifier::external_body]
fn push_char(s: &mut String, c: char)
    ensures
        final(s)@ == old(s)@.push(c),
{
    s.push(c);
}

/// Renders a byte sequence as its lowercase hexadecimal string.
pub fn to_hex(b: &Vec<u8>) -> (r: String)
    requires
        b@.len() * 2 <= usize::MAX,
    ensures
        r@ == hex_of(b@),
{
    let mut r = String::new();
    let mut i: usize = 0;
    while i < b.len()
        invariant
            i <= b@.len(),
            b@.len() * 2 <= usize::MAX,
            r@.len() == 2 * i,
            forall|k: int| 0 <= k < 2 * i ==> r@[k] == hex_of(b@)[k],
        decreases b@.len() - i,
    {
        let byte = b[i];
        let hi = hex_digit_char(byte / 16);
        let lo = hex_digit_char(byte % 16);
        push_char(&mut r, hi);
        push_char(&mut r, lo);
        i = i + 1;
    }
    proof {
        assert(r@ =~= hex_of(b@));
    }
    r
}

/// Every digit of a hexadecimal rendering is a lowercase hexadecimal
/// character.
pub proof fn lemma_hex_of_chars(b: Seq<u8>)
    ensures
        hex_of(b).len() == 2 * b.len(),
        forall|i: int| 0 <= i < hex_of(b).len() ==> is_hex_char(#[trigger] hex_of(b)[i]),
{
    assert forall|i: int| 0 <= i < hex_of(b).len() implies is_hex_char(#[trigger] hex_of(b)[i]) by {
        let n = b[i / 2] as int;
        assert(0 <= n < 256);
        assert(0 <= n / 16 < 16);
        assert(0 <= n % 16 < 16);
    }
}

/// The two digits a given byte contributes to the rendering.
pub proof fn lemma_hex_of_index(b: Seq<u8>, j: int)
    requires
        0 <= j < b.len(),
    ensures
        hex_of(b)[2 * j] == hex_digit(b[j] as int / 16),
        hex_of(b)[2 * j + 1] == hex_digit(b[j] as int % 16),
{
    vstd::arithmetic::div_mod::lemma_fundamental_div_mod_converse(2 * j, 2, j, 0);
    vstd::arithmetic::div_mod::lemma_fundamental_div_mod_converse(2 * j + 1, 2, j, 1);
}

/// Hexadecimal rendering is injective: distinct byte sequences always get
/// distinct renderings, so identifiers never collide unless the random bytes
/// behind them do.
pub proof fn lemma_hex_of_injective(a: Seq<u8>, b: Seq<u8>)
    requires
        hex_of(a) == hex_of(b),
    ensures
        a == b,
{
    assert(hex_of(a).len() == a.len() * 2);
    assert(hex_of(b).len() == b.len() * 2);
    assert(a.len() == b.len());
    assert forall|j: int| 0 <= j < a.len() implies a[j] == b[j] by {
        lemma_hex_of_index(a, j);
        lemma_hex_of_index(b, j);
        assert(hex_of(a)[2 * j] == hex_of(b)[2 * j]);
        assert(hex_of(a)[2 * j + 1] == hex_of(b)[2 * j + 1]);
        let x = a[j] as int;
        let y = b[j] as int;
        assert(hex_digit(x / 16) == hex_digit(y / 16));
        assert(hex_digit(x % 16) == hex_digit(y % 16));
        lemma_hex_digit_injective(x / 16, y / 16);
        lemma_hex_digit_injective(x % 16, y % 16);
        assert(x == 16 * (x / 16) + x % 16) by {
            vstd::arithmetic::div_mod::lemma_fundamental_div_mod(x, 16);
        }
        assert(y == 16 * (y / 16) + y % 16) by {
            vstd::arithmetic::div_mod::lemma_fundamental_div_mod(y, 16);
        }
    }
    assert(a =~= b);
}

proof fn lemma_hex_digit_injective(m: int, n: int)
    requires
        0 <= m < 16,
        0 <= n < 16,
        hex_digit(m) == hex_digit(n),
    ensures
        m == n,
{
}

} // verus!
