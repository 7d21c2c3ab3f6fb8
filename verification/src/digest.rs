//! SHA-256 digests and their hexadecimal form.

use vstd::prelude::*;
use sha2::{Digest, Sha256};
use crate::failure;
use crate::failure::{Failure, FailureView};
use crate::text;
use crate::text::chars_of;

verus! {

/// What the SHA-256 hash function makes of a byte string.
pub uninterp spec fn sha256_output(bytes: Seq<u8>) -> [u8; 32];

/// The SHA-256 digest of a byte string, as a sequence of 32 bytes.
pub open spec fn sha256(bytes: Seq<u8>) -> Seq<u8> {
    sha256_output(bytes)@
}

/// Calls `Sha256::digest` of the sha2 crate. It is taken to return the 32 bytes of the SHA-256
/// digest of its argument, which depends on the argument alone; how it is computed is left open.
#[verifier::external_body]
pub(crate) fn sha256_digest(bytes: &[u8]) -> (r: [u8; 32])
    ensures
        r == sha256_output(bytes@),
{
    Sha256::digest(bytes).into()
}

/// The hexadecimal digit of a number below sixteen.
pub open spec fn hex_digit(n: int) -> char {
    if n < 10 {
        (48 + n) as u8 as char
    } else {
        (87 + n) as u8 as char
    }
}

/// Two small hexadecimal digits for each byte, the higher half first.
pub open spec fn hex_text(bytes: Seq<u8>) -> Seq<char> {
    Seq::new(
        2 * bytes.len(),
        |i: int|
            if i % 2 == 0 {
                hex_digit(bytes[i / 2] as int / 16)
            } else {
                hex_digit(bytes[i / 2] as int % 16)
            },
    )
}

/// Calls `hex::encode` of the hex crate. It is taken to write each byte as two small hexadecimal
/// digits, the higher half first.
#[verifier::external_body]
pub(crate) fn hex_encode(bytes: &[u8]) -> (r: String)
    ensures
        r@ == hex_text(bytes@),
{
    hex::encode(bytes)
}

/// Whether `c` is a hexadecimal digit of either case.
pub open spec fn is_hex_digit(c: char) -> bool {
    ||| '0' <= c <= '9'
    ||| 'a' <= c <= 'f'
    ||| 'A' <= c <= 'F'
}

/// The number that a hexadecimal digit stands for.
pub open spec fn hex_value(c: char) -> int {
    if '0' <= c <= '9' {
        c as int - 48
    } else if 'a' <= c <= 'f' {
        c as int - 87
    } else {
        c as int - 55
    }
}

/// Whether `s` is a digest in hexadecimal form: 64 digits and nothing else.
pub open spec fn is_digest_text(s: Seq<char>) -> bool {
    &&& s.len() == 64
    &&& forall|i: int| 0 <= i < s.len() ==> is_hex_digit(#[trigger] s[i])
}

/// The bytes that pairs of hexadecimal digits stand for.
pub open spec fn digest_bytes(s: Seq<char>) -> Seq<u8> {
    Seq::new(s.len() / 2, |i: int| (hex_value(s[2 * i]) * 16 + hex_value(s[2 * i + 1])) as u8)
}

/// The failure reported for a declared digest that is not one.
pub open spec fn malformed_digest(s: Seq<char>) -> FailureView {
    failure::failure("invalid sha256 checksum \""@ + s + "\": expected 64 hexadecimal characters"@)
}

/// The failure reported where a target declares no digest.
pub open spec fn missing_digest() -> FailureView {
    failure::failure("binary target is missing required sha256 checksum"@)
}

/// The failure reported where the content has another digest than the declared one.
pub open spec fn digest_mismatch(expected: Seq<u8>, actual: Seq<u8>) -> FailureView {
    failure::failure(
        "sha256 checksum mismatch: expected "@ + hex_text(expected) + ", got "@ + hex_text(actual),
    )
}

fn digit_value(c: char) -> (r: Option<u8>)
    ensures
        match r {
            Some(v) => is_hex_digit(c) && v == hex_value(c) && v < 16,
            None => !is_hex_digit(c),
        },
{
    if '0' <= c && c <= '9' {
        Some((c as u8) - 48)
    } else if 'a' <= c && c <= 'f' {
        Some((c as u8) - 87)
    } else if 'A' <= c && c <= 'F' {
        Some((c as u8) - 55)
    } else {
        None
    }
}

/// Reads a declared SHA-256 digest.
pub fn parse_sha256(value: &str) -> (r: Result<Vec<u8>, Failure>)
    ensures
        match r {
            Ok(bytes) => is_digest_text(value@) && bytes@ == digest_bytes(value@) && bytes@.len()
                == 32,
            Err(e) => !is_digest_text(value@) && e@ == malformed_digest(value@),
        },
{
    let chars = chars_of(value);
    let mut bytes: Vec<u8> = Vec::new();
    let mut good: bool = chars.len() == 64;
    if good {
        let mut i: usize = 0;
        while i < 32
            invariant
                i <= 32,
                chars@ == value@,
                chars.len() == 64,
                good ==> bytes.len() == i,
                good ==> forall|j: int| 0 <= j < 2 * i ==> is_hex_digit(#[trigger] value@[j]),
                good ==> forall|j: int|
                    0 <= j < i ==> #[trigger] bytes@[j] == digest_bytes(value@)[j],
                !good ==> !is_digest_text(value@),
            decreases 32 - i,
        {
            match (digit_value(chars[2 * i]), digit_value(chars[2 * i + 1])) {
                (Some(high), Some(low)) => {
                    bytes.push(high * 16 + low);
                },
                _ => {
                    good = false;
                },
            }
            i += 1;
        }
    }
    if good {
        assert(bytes@ == digest_bytes(value@));
        Ok(bytes)
    } else {
        Err(
            Failure::new(
                "invalid sha256 checksum \"".to_owned().concat(value).concat(
                    "\": expected 64 hexadecimal characters",
                ),
            ),
        )
    }
}

/// Whether two byte strings are equal.
pub fn same_bytes(a: &[u8], b: &[u8]) -> (r: bool)
    ensures
        r == (a@ == b@),
{
    if a.len() != b.len() {
        return false;
    }
    let mut i: usize = 0;
    while i < a.len()
        invariant
            i <= a.len(),
            a.len() == b.len(),
            forall|j: int| 0 <= j < i ==> a@[j] == b@[j],
        decreases a.len() - i,
    {
        if a[i] != b[i] {
            return false;
        }
        i += 1;
    }
    assert(a@ == b@);
    true
}

/// What comes of holding content with the digest `actual` against a declared digest.
pub open spec fn digest_verdict(declared: Option<Seq<char>>, actual: Seq<u8>) -> Result<
    (),
    FailureView,
> {
    match declared {
        None => Err(missing_digest()),
        Some(declared_text) => if !is_digest_text(declared_text) {
            Err(malformed_digest(declared_text))
        } else if digest_bytes(declared_text) != actual {
            Err(digest_mismatch(digest_bytes(declared_text), actual))
        } else {
            Ok(())
        },
    }
}

/// Holds a digest that was computed against a declared one.
pub fn check_digest(declared: Option<&str>, actual: &[u8]) -> (r: Result<(), Failure>)
    ensures
        match r {
            Ok(()) => digest_verdict(text::text_option(declared), actual@) == Ok::<(), FailureView>(()),
            Err(e) => digest_verdict(text::text_option(declared), actual@) == Err::<(), FailureView>(e@),
        },
{
    match declared {
        None => Err(
            Failure::new("binary target is missing required sha256 checksum".to_owned()),
        ),
        Some(declared_text) => {
            let expected = parse_sha256(declared_text)?;
            if same_bytes(expected.as_slice(), actual) {
                Ok(())
            } else {
                Err(
                    Failure::new(
                        "sha256 checksum mismatch: expected ".to_owned().concat(
                            hex_encode(expected.as_slice()).as_str(),
                        ).concat(", got ").concat(hex_encode(actual).as_str()),
                    ),
                )
            }
        },
    }
}

/// Verifies downloaded bytes against the declared SHA-256 digest.
///
/// A missing or malformed digest is refused, whatever the bytes are.
pub fn verify_sha256(bytes: &[u8], expected: Option<&str>) -> (r: Result<(), Failure>)
    ensures
        match r {
            Ok(()) => digest_verdict(text::text_option(expected), sha256(bytes@)) == Ok::<
                (),
                FailureView,
            >(()),
            Err(e) => digest_verdict(text::text_option(expected), sha256(bytes@)) == Err::<
                (),
                FailureView,
            >(e@),
        },
{
    let actual = sha256_digest(bytes);
    check_digest(expected, &actual)
}

/// Reading a digest that was written in hexadecimal gives the digest back.
pub proof fn law_hex_round_trip(bytes: Seq<u8>)
    requires
        bytes.len() == 32,
    ensures
        is_digest_text(hex_text(bytes)),
        digest_bytes(hex_text(bytes)) == bytes,
{
    let s = hex_text(bytes);
    assert forall|i: int| 0 <= i < s.len() implies is_hex_digit(#[trigger] s[i]) by {
        assert(0 <= bytes[i / 2] as int / 16 < 16);
    }
    assert forall|i: int| 0 <= i < 32 implies digest_bytes(s)[i] == bytes[i] by {
        let b = bytes[i] as int;
        assert((2 * i) / 2 == i);
        assert((2 * i + 1) / 2 == i);
        assert(s[2 * i] == hex_digit(b / 16));
        assert(s[2 * i + 1] == hex_digit(b % 16));
        assert(hex_value(hex_digit(b / 16)) == b / 16);
        assert(hex_value(hex_digit(b % 16)) == b % 16);
    }
    assert(digest_bytes(s) == bytes);
}

/// The case of the digits of a declared digest does not matter, and writing the digest that was
/// read gives the declared text in small letters.
pub proof fn law_digest_case(s: Seq<char>)
    requires
        is_digest_text(s),
    ensures
        is_digest_text(text::ascii_lower(s)),
        digest_bytes(text::ascii_lower(s)) == digest_bytes(s),
        hex_text(digest_bytes(s)) == text::ascii_lower(s),
{
    let low = text::ascii_lower(s);
    assert forall|i: int| 0 <= i < s.len() implies is_hex_digit(#[trigger] low[i]) && hex_value(
        low[i],
    ) == hex_value(s[i]) by {
        assert(is_hex_digit(s[i]));
    }
    assert(digest_bytes(low) == digest_bytes(s));
    assert forall|i: int| 0 <= i < 64 implies hex_text(digest_bytes(s))[i] == low[i] by {
        let k = i / 2;
        assert(is_hex_digit(s[2 * k]) && is_hex_digit(s[2 * k + 1]));
        let high = hex_value(s[2 * k]);
        let lo = hex_value(s[2 * k + 1]);
        assert(digest_bytes(s)[k] as int == high * 16 + lo);
        assert((high * 16 + lo) / 16 == high);
        assert((high * 16 + lo) % 16 == lo);
        assert(is_hex_digit(s[i]));
    }
    assert(hex_text(digest_bytes(s)) == low);
}

/// The number that a hexadecimal digit stands for, in whatever case.
pub open spec fn nibble(c: char) -> int {
    let n = c as int;
    if n >= 97 {
        n - 87
    } else if n >= 65 {
        n - 55
    } else {
        n - 48
    }
}

/// A declared digest is well formed exactly if it is 64 hexadecimal digits.
pub proof fn law_digest_texts_are_64_hex_digits(s: Seq<char>)
    ensures
        is_digest_text(s) <==> s.len() == 64 && forall|i: int|
            #![trigger s[i]]
            0 <= i < s.len() ==> {
                let c = s[i] as int;
                48 <= c <= 57 || 65 <= c <= 70 || 97 <= c <= 102
            },
{
    if is_digest_text(s) {
        assert forall|i: int| 0 <= i < s.len() implies ({
            let c = (#[trigger] s[i]) as int;
            48 <= c <= 57 || 65 <= c <= 70 || 97 <= c <= 102
        }) by {
            assert(is_hex_digit(s[i]));
        }
    }
}

/// Two digits stand for one byte, the first for its upper half; they are written small.
pub proof fn law_bytes_are_written_as_two_digits(bytes: Seq<u8>, s: Seq<char>, i: int)
    ensures
        hex_text(bytes).len() == 2 * bytes.len(),
        0 <= i < bytes.len() ==> {
            let a = hex_text(bytes)[2 * i];
            let b = hex_text(bytes)[2 * i + 1];
            &&& bytes[i] == 16 * nibble(a) + nibble(b)
            &&& !(65 <= a as int <= 90) && !(65 <= b as int <= 90)
        },
        is_digest_text(s) && 0 <= i < 32 ==> digest_bytes(s).len() == 32 && digest_bytes(s)[i] == 16
            * nibble(s[2 * i]) + nibble(s[2 * i + 1]),
{
    if is_digest_text(s) && 0 <= i < 32 {
        assert(is_hex_digit(s[2 * i]) && is_hex_digit(s[2 * i + 1]));
        law_digest_texts_are_64_hex_digits(s);
    }
}

/// Content is accepted exactly if a digest was declared that is well formed and is, in whatever
/// case, the digest of the content.
pub proof fn law_only_the_declared_digest_is_accepted(
    declared: Option<Seq<char>>,
    actual: Seq<u8>,
)
    requires
        actual.len() == 32,
    ensures
        digest_verdict(declared, actual) is Ok <==> declared is Some && is_digest_text(
            declared->Some_0,
        ) && text::same_letters(declared->Some_0, hex_text(actual)),
        declared is None ==> digest_verdict(declared, actual) == Err::<(), FailureView>(
            missing_digest(),
        ),
{
    law_hex_round_trip(actual);
    if declared is Some && is_digest_text(declared->Some_0) {
        let d = declared->Some_0;
        law_digest_case(d);
        law_digest_case(hex_text(actual));
        text::law_lower_case_forgets_case_only(d, hex_text(actual));
    }
}

/// A digest is read exactly if it is sixty-four hexadecimal digits: every two of them are a byte.
pub proof fn law_digests_are_read_two_digits_a_byte(value: &str, r: Result<Vec<u8>, Failure>, i: int)
    requires
        call_ensures(parse_sha256, (value,), r),
    ensures
        r is Ok <==> is_digest_text(value@),
        r is Ok ==> r->Ok_0.len() == 32,
        r is Ok && 0 <= i < 32 ==> r->Ok_0@[i] == nibble(value@[2 * i]) * 16 + nibble(
            value@[2 * i + 1],
        ),
{
    if r is Ok && 0 <= i < 32 {
        assert(r->Ok_0@[i] == digest_bytes(value@)[i]);
        law_bytes_are_written_as_two_digits(Seq::empty(), value@, i);
    }
}

} // verus!
