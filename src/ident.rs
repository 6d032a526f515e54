//! Slot identifiers: sixteen random bytes rendered as thirty-two upper-case
//! hexadecimal digits, two per byte.
use vstd::prelude::*;

verus! {

/// Number of random bytes behind an identifier.
pub const ID_BYTES: usize = 16;

/// Number of characters of a rendered identifier.
pub const ID_CHARS: usize = 32;

/// The upper-case hexadecimal digit for a value below sixteen.
pub open spec fn hex_char(n: nat) -> char {
    if n < 10 {
        ((n + 48) as u8) as char
    } else {
        ((n + 55) as u8) as char
    }
}

/// Whether `c` is an upper-case hexadecimal digit.
pub open spec fn is_hex_upper(c: char) -> bool {
    ('0' <= c && c <= '9') || ('A' <= c && c <= 'F')
}

/// Each byte as two hexadecimal digits, high nibble first.
pub open spec fn id_text(b: Seq<u8>) -> Seq<char> {
    Seq::new(
        2 * b.len(),
        |i: int|
            if i % 2 == 0 {
                hex_char((b[i / 2] / 16) as nat)
            } else {
                hex_char((b[i / 2] % 16) as nat)
            },
    )
}

/// The shape of every identifier that the allocator hands out.
pub open spec fn spec_is_slot_id(s: Seq<char>) -> bool {
    &&& s.len() == ID_CHARS
    &&& forall|i: int| 0 <= i < s.len() ==> is_hex_upper(#[trigger] s[i])
}

/// Relies on String::push: the character is appended at the end.
#[verifier::external_body]
pub(crate) fn push_char(s: &mut String, c: char)
    ensures
        final(s)@ == old(s)@.push(c),
{
    s.push(c)
}

/// Relies on rand::random: sixteen bytes from the thread-local generator.
/// Nothing is known of their values.
#[verifier::external_body]
fn random_id_bytes() -> (r: [u8; 16])
{
    rand::random::<[u8; 16]>()
}

fn hex_digit(n: u8) -> (c: char)
    requires
        n < 16,
    ensures
        c == hex_char(n as nat),
{
    if n < 10 {
        (n + 48) as char
    } else {
        (n + 55) as char
    }
}

/// Renders the bytes of an identifier as thirty-two upper-case hexadecimal
/// digits, each byte zero-padded to two digits.
pub fn encode_id(bytes: &[u8; 16]) -> (r: String)
    ensures
        r@ == id_text(bytes@),
{
    let mut out = String::new();
    let mut i: usize = 0;
    while i < ID_BYTES
        invariant
            i <= ID_BYTES,
            bytes@.len() == ID_BYTES,
            out@ =~= id_text(bytes@.subrange(0, i as int)),
        decreases ID_BYTES - i,
    {
        let b = bytes[i];
        push_char(&mut out, hex_digit(b / 16));
        push_char(&mut out, hex_digit(b % 16));
        proof {
            assert(bytes@.subrange(0, i + 1)[i as int] == b);
        }
        i = i + 1;
        assert(out@ =~= id_text(bytes@.subrange(0, i as int)));
    }
    assert(bytes@.subrange(0, ID_BYTES as int) =~= bytes@);
    out
}

/// Rendered identifiers have the identifier shape.
pub proof fn lemma_id_text_shape(b: Seq<u8>)
    requires
        b.len() == ID_BYTES,
    ensures
        spec_is_slot_id(id_text(b)),
{
    assert forall|i: int| 0 <= i < id_text(b).len() implies is_hex_upper(
        #[trigger] id_text(b)[i],
    ) by {
        let hi = (b[i / 2] / 16) as nat;
        let lo = (b[i / 2] % 16) as nat;
        assert(hi < 16 && lo < 16);
    }
}

proof fn lemma_hex_char_injective(x: nat, y: nat)
    requires
        x < 16,
        y < 16,
        hex_char(x) == hex_char(y),
    ensures
        x == y,
{
}

/// Distinct byte strings render to distinct identifiers: rendering keeps all
/// the entropy of the random bytes.
pub proof fn lemma_id_text_injective(a: Seq<u8>, b: Seq<u8>)
    requires
        id_text(a) == id_text(b),
    ensures
        a == b,
{
    assert(id_text(a).len() == 2 * a.len());
    assert(id_text(b).len() == 2 * b.len());
    assert forall|k: int| 0 <= k < a.len() implies a[k] == b[k] by {
        assert((2 * k) / 2 == k);
        assert((2 * k + 1) / 2 == k);
        assert((2 * k) % 2 == 0);
        assert((2 * k + 1) % 2 == 1);
        assert(id_text(a)[2 * k] == id_text(b)[2 * k]);
        assert(id_text(a)[2 * k + 1] == id_text(b)[2 * k + 1]);
        let (x, y) = (a[k], b[k]);
        assert(id_text(a)[2 * k] == hex_char((a[(2 * k) / 2] / 16) as nat));
        assert(id_text(b)[2 * k] == hex_char((b[(2 * k) / 2] / 16) as nat));
        assert(id_text(a)[2 * k + 1] == hex_char((a[(2 * k + 1) / 2] % 16) as nat));
        assert(id_text(b)[2 * k + 1] == hex_char((b[(2 * k + 1) / 2] % 16) as nat));
        lemma_hex_char_injective((x / 16) as nat, (y / 16) as nat);
        lemma_hex_char_injective((x % 16) as nat, (y % 16) as nat);
        assert(x == (x / 16) * 16 + x % 16);
        assert(y == (y / 16) * 16 + y % 16);
    }
    assert(a =~= b);
}

/// Draws a fresh identifier from sixteen random bytes.
pub fn new_slot_id() -> (r: String)
    ensures
        exists|b: Seq<u8>| b.len() == ID_BYTES && r@ == id_text(b),
        spec_is_slot_id(r@),
{
    let bytes = random_id_bytes();
    let r = encode_id(&bytes);
    proof {
        lemma_id_text_shape(bytes@);
    }
    r
}

/// Whether `s` has the shape of an identifier that the allocator hands out.
/// No slot is named by any other text.
pub fn is_slot_id(s: &str) -> (r: bool)
    ensures
        r == spec_is_slot_id(s@),
{
    let n = s.unicode_len();
    if n != ID_CHARS {
        return false;
    }
    let mut i: usize = 0;
    while i < n
        invariant
            n == s@.len(),
            n == ID_CHARS,
            i <= n,
            forall|j: int| 0 <= j < i ==> is_hex_upper(#[trigger] s@[j]),
        decreases n - i,
    {
        let c = s.get_char(i);
        if !(('0' <= c && c <= '9') || ('A' <= c && c <= 'F')) {
            return false;
        }
        i = i + 1;
    }
    true
}

} // verus!
