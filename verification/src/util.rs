//! Shared helpers: big-endian conversions between `u32` and byte vectors,
//! and the error type used when reading fields of a bencoded dictionary.

use vstd::prelude::*;

use vstd::string::StringExecFns;

use rand::Rng;

verus! {

/// Errors raised while reading the fields of a bencoded dictionary.
#[derive(Debug, Clone, Copy, PartialEq, Eq, Structural)]
pub enum Error {
    DictMatchErr,
    FieldNotFound,
}

/// The value of four bytes read as one big-endian 32-bit integer.
pub open spec fn be_u32(b0: u8, b1: u8, b2: u8, b3: u8) -> int {
    b0 * 0x100_0000 + b1 * 0x1_0000 + b2 * 0x100 + b3
}

/// The four bytes of a 32-bit integer in big-endian order.
pub open spec fn u32_be_bytes(x: u32) -> Seq<u8> {
    seq![
        (x / 0x100_0000) as u8,
        ((x / 0x1_0000) % 0x100) as u8,
        ((x / 0x100) % 0x100) as u8,
        (x % 0x100) as u8,
    ]
}

/// Reading back the four big-endian bytes of `x` yields `x`.
pub proof fn lemma_u32_be_bytes_round_trip(x: u32)
    ensures
        be_u32(u32_be_bytes(x)[0], u32_be_bytes(x)[1], u32_be_bytes(x)[2], u32_be_bytes(x)[3])
            == x,
{
    assert((x / 0x100_0000) * 0x100_0000 + ((x / 0x1_0000) % 0x100) * 0x1_0000 + ((x / 0x100)
        % 0x100) * 0x100 + (x % 0x100) == x) by (bit_vector);
}

/// The big-endian bytes of the value read from four bytes are those bytes.
pub proof fn lemma_be_u32_round_trip(b0: u8, b1: u8, b2: u8, b3: u8)
    ensures
        u32_be_bytes(be_u32(b0, b1, b2, b3) as u32) =~= seq![b0, b1, b2, b3],
{
    let x = be_u32(b0, b1, b2, b3) as u32;
    assert(x == b0 * 0x100_0000 + b1 * 0x1_0000 + b2 * 0x100 + b3);
    assert(x / 0x100_0000 == b0 && (x / 0x1_0000) % 0x100 == b1 && (x / 0x100) % 0x100 == b2 && x
        % 0x100 == b3) by (bit_vector)
        requires
            x == b0 * 0x100_0000 + b1 * 0x1_0000 + b2 * 0x100 + b3,
    ;
}

/// Reads the first four bytes of `bytes` as a big-endian 32-bit integer.
pub fn bytes_to_u32(bytes: &[u8]) -> (r: u32)
    requires
        bytes@.len() >= 4,
    ensures
        r == be_u32(bytes@[0], bytes@[1], bytes@[2], bytes@[3]),
{
    (bytes[0] as u32) * 0x100_0000 + (bytes[1] as u32) * 0x1_0000 + (bytes[2] as u32) * 0x100
        + (bytes[3] as u32)
}

/// Compares two byte strings element by element.
pub fn bytes_equal(a: &[u8], b: &[u8]) -> (r: bool)
    ensures
        r == (a@ == b@),
{
    if a.len() != b.len() {
        assert(a@ != b@);
        return false;
    }
    let mut i: usize = 0;
    while i < a.len()
        invariant
            i <= a@.len(),
            a@.len() == b@.len(),
            forall|j: int| 0 <= j < i ==> a@[j] == b@[j],
        decreases a@.len() - i,
    {
        if a[i] != b[i] {
            assert(a@ != b@);
            return false;
        }
        i += 1;
    }
    proof {
        assert(a@ =~= b@);
    }
    true
}

/// Compares two byte vectors element by element.
pub fn vecs_u8_equal(a: &Vec<u8>, b: &Vec<u8>) -> (r: bool)
    ensures
        r == (a@ == b@),
{
    bytes_equal(a.as_slice(), b.as_slice())
}

/// Writes `integer` as four bytes in big-endian order.
pub fn u32_to_bytes(integer: u32) -> (r: Vec<u8>)
    ensures
        r@ =~= u32_be_bytes(integer),
        r@.len() == 4,
{
    let mut bytes: Vec<u8> = Vec::new();
    bytes.push((integer / 0x100_0000) as u8);
    bytes.push(((integer / 0x1_0000) % 0x100) as u8);
    bytes.push(((integer / 0x100) % 0x100) as u8);
    bytes.push((integer % 0x100) as u8);
    bytes
}

/// The character for a decimal digit value.
pub open spec fn spec_digit_char(d: int) -> char {
    ((48 + d) as u8) as char
}

/// The decimal digits of `n`, most significant first.
pub open spec fn spec_decimal(n: nat) -> Seq<char>
    decreases n,
{
    if n < 10 {
        seq![spec_digit_char(n as int)]
    } else {
        spec_decimal(n / 10) + seq![spec_digit_char(n as int % 10)]
    }
}

/// The characters of the digit values, last value first.
spec fn spec_rev_digits(ds: Seq<u8>) -> Seq<char>
    decreases ds.len(),
{
    if ds.len() == 0 {
        seq![]
    } else {
        seq![spec_digit_char(ds.last() as int)] + spec_rev_digits(ds.drop_last())
    }
}

/// Reversing reads the first digit value last.
proof fn lemma_rev_digits_first(ds: Seq<u8>)
    requires
        ds.len() > 0,
    ensures
        spec_rev_digits(ds) == spec_rev_digits(ds.skip(1)) + seq![spec_digit_char(ds[0] as int)],
    decreases ds.len(),
{
    if ds.len() == 1 {
        assert(ds.skip(1) =~= Seq::<u8>::empty());
        assert(ds.drop_last() =~= Seq::<u8>::empty());
        assert(spec_rev_digits(ds.drop_last()) =~= Seq::<char>::empty());
        assert(spec_rev_digits(ds) =~= seq![spec_digit_char(ds[0] as int)]);
    } else {
        lemma_rev_digits_first(ds.drop_last());
        assert(ds.drop_last()[0] == ds[0]);
        assert(ds.skip(1).drop_last() =~= ds.drop_last().skip(1));
        assert(ds.skip(1).last() == ds.last());
        assert(spec_rev_digits(ds.skip(1)) == seq![spec_digit_char(ds.last() as int)]
            + spec_rev_digits(ds.drop_last().skip(1)));
        assert(spec_rev_digits(ds) =~= spec_rev_digits(ds.skip(1)) + seq![
            spec_digit_char(ds[0] as int),
        ]);
    }
}

/// Relies on `std::string::String::push`: appends the one character.
#[verifier::external_body]
pub fn push_char(s: &mut String, c: char)
    ensures
        final(s)@ == old(s)@.push(c),
{
    s.push(c);
}

/// Renders `n` in decimal.
pub fn u64_to_string(n: u64) -> (r: String)
    ensures
        r@ == spec_decimal(n as nat),
{
    let mut digits: Vec<u8> = Vec::new();
    let mut m: u64 = n;
    digits.push((m % 10) as u8);
    m = m / 10;
    proof {
        assert(digits@.drop_last() =~= Seq::<u8>::empty());
        assert(spec_rev_digits(digits@.drop_last()) =~= Seq::<char>::empty());
        assert(spec_rev_digits(digits@) =~= seq![spec_digit_char((n % 10) as int)]);
        assert(spec_decimal(n as nat) == (if m > 0 {
            spec_decimal(m as nat)
        } else {
            Seq::<char>::empty()
        }) + spec_rev_digits(digits@));
    }
    while m > 0
        invariant
            digits@.len() >= 1,
            forall|j: int| 0 <= j < digits@.len() ==> (#[trigger] digits@[j]) < 10,
            spec_decimal(n as nat) == (if m > 0 {
                spec_decimal(m as nat)
            } else {
                Seq::<char>::empty()
            }) + spec_rev_digits(digits@),
        decreases m,
    {
        let ghost before = digits@;
        digits.push((m % 10) as u8);
        proof {
            assert(digits@.drop_last() =~= before);
        }
        m = m / 10;
    }
    let mut out = String::new();
    let mut i: usize = digits.len();
    proof {
        assert(digits@.skip(digits@.len() as int) =~= Seq::<u8>::empty());
    }
    while i > 0
        invariant
            i <= digits@.len(),
            forall|j: int| 0 <= j < digits@.len() ==> (#[trigger] digits@[j]) < 10,
            spec_decimal(n as nat) == spec_rev_digits(digits@),
            out@ == spec_rev_digits(digits@.skip(i as int)),
        decreases i,
    {
        push_char(&mut out, (digits[i - 1] + 48) as char);
        i -= 1;
        proof {
            let tail = digits@.skip(i as int);
            lemma_rev_digits_first(tail);
            assert(tail.skip(1) =~= digits@.skip(i + 1 as int));
            assert(out@ =~= spec_rev_digits(tail));
        }
    }
    proof {
        assert(digits@.skip(0) =~= digits@);
    }
    out
}

/// The first capture group of the leftmost match of the pattern in the
/// text: a function of the pattern and the text alone; nothing when the
/// pattern is invalid or nothing matches.
pub uninterp spec fn regex_first_capture(pattern: Seq<char>, text: Seq<char>) -> Option<Seq<char>>;

/// Relies on `regex::Regex`: `captures` finds the leftmost match and its
/// capture groups, a function of the pattern and the text alone.
#[verifier::external_body]
fn regex_capture(pattern: &str, text: &str) -> (r: Option<String>)
    ensures
        r matches Some(t) ==> regex_first_capture(pattern@, text@) == Some(t@),
        r is None ==> regex_first_capture(pattern@, text@) is None,
{
    match regex::Regex::new(pattern) {
        Ok(re) => match re.captures(text) {
            Some(caps) => caps.get(1).map(|m| m.as_str().to_string()),
            None => None,
        },
        Err(_) => None,
    }
}

/// Takes a string which is denoted within quotation marks and returns that
/// string, or the original string if no match is found.
pub fn parse_string(s: &str) -> (r: String)
    ensures
        r@ == match regex_first_capture("\"(.*)\""@, s@) {
            Some(t) => t,
            None => s@,
        },
{
    match regex_capture("\"(.*)\"", s) {
        Some(t) => t,
        None => s.to_owned(),
    }
}

/// Relies on `rand`'s `Alphanumeric` distribution over `thread_rng`: `n`
/// characters drawn from the ASCII letters and digits; nothing more can be
/// promised of a random value.
#[verifier::external_body]
fn random_alphanumeric(n: usize) -> (r: String)
    ensures
        r@.len() == n,
        forall|i: int|
            0 <= i < n ==> ('A' <= #[trigger] r@[i] <= 'Z' || 'a' <= r@[i] <= 'z' || '0' <= r@[i]
                <= '9'),
{
    rand::thread_rng().sample_iter(&rand::distributions::Alphanumeric).take(n).map(
        char::from,
    ).collect()
}

/// An Azureus-style peer id: the fixed `-AZ2060-` prefix followed by twelve
/// random ASCII alphanumerics, twenty characters in all.
pub fn create_peer_id() -> (r: String)
    ensures
        r@.len() == 20,
        r@.take(8) == "-AZ2060-"@,
        forall|i: int|
            8 <= i < 20 ==> ('A' <= #[trigger] r@[i] <= 'Z' || 'a' <= r@[i] <= 'z' || '0' <= r@[i]
                <= '9'),
{
    let mut id = "-AZ2060-".to_owned();
    let suffix = random_alphanumeric(12);
    proof {
        reveal_strlit("-AZ2060-");
    }
    id.append(suffix.as_str());
    proof {
        assert(id@.take(8) =~= "-AZ2060-"@);
    }
    id
}

} // verus!
