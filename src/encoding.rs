use vstd::prelude::*;

verus! {

#[verifier::external_type_specification]
#[verifier::external_body]
pub struct ExEncodingError(subtle_encoding::Error);

/// A text encoding of bytes could not be decoded.
#[derive(Debug, Clone, Copy, PartialEq, Eq, Structural)]
pub struct DecodeError;

/// The ASCII hex digit for a nibble, in upper or lower case.
pub open spec fn hex_char(nibble: u8, upper: bool) -> u8 {
    if nibble < 10 {
        (48 + nibble) as u8
    } else if upper {
        (55 + nibble) as u8
    } else {
        (87 + nibble) as u8
    }
}

/// The value of an ASCII hex digit of the given case, if it is one.
pub open spec fn hex_value(c: u8, upper: bool) -> Option<u8> {
    if 48 <= c <= 57 {
        Some((c - 48) as u8)
    } else if upper && 65 <= c <= 70 {
        Some((c - 55) as u8)
    } else if !upper && 97 <= c <= 102 {
        Some((c - 87) as u8)
    } else {
        None
    }
}

/// Two hex digits per byte, high nibble first.
pub open spec fn hex_encoded(b: Seq<u8>, upper: bool) -> Seq<u8> {
    Seq::new(
        2 * b.len(),
        |i: int|
            if i % 2 == 0 {
                hex_char(b[i / 2] / 16, upper)
            } else {
                hex_char(b[i / 2] % 16, upper)
            },
    )
}

/// The bytes that `s` spells in hex of the given case, or `None` when its
/// length is odd or it holds anything but digits of that case.
pub open spec fn hex_decoded(s: Seq<u8>, upper: bool) -> Option<Seq<u8>> {
    if s.len() % 2 == 0 && forall|i: int| 0 <= i < s.len() ==> (#[trigger] hex_value(s[i], upper)).is_some() {
        Some(
            Seq::new(
                s.len() / 2,
                |i: int| (16 * hex_value(s[2 * i], upper).unwrap() + hex_value(s[2 * i + 1], upper).unwrap()) as u8,
            ),
        )
    } else {
        None
    }
}

/// The standard Base64 text of some bytes.
pub uninterp spec fn base64_of(b: Seq<u8>) -> Seq<u8>;

/// The bytes that a standard Base64 text stands for, if it is one.
pub uninterp spec fn base64_decoding_of(s: Seq<u8>) -> Option<Seq<u8>>;

/// Relies on subtle_encoding::hex::encode_upper: two upper-case digits per byte.
#[verifier::external_body]
fn hex_upper(b: &Vec<u8>) -> (r: Vec<u8>)
    ensures
        r@ == hex_encoded(b@, true),
{
    subtle_encoding::hex::encode_upper(b)
}

/// Relies on subtle_encoding::hex::decode_upper: accepts exactly the
/// even-length texts of digits 0-9 and A-F.
#[verifier::external_body]
fn unhex_upper(s: &Vec<u8>) -> (r: Result<Vec<u8>, subtle_encoding::Error>)
    ensures
        match r {
            Ok(v) => hex_decoded(s@, true) == Some(v@),
            Err(_) => hex_decoded(s@, true).is_none(),
        },
{
    subtle_encoding::hex::decode_upper(s)
}

/// Relies on subtle_encoding::hex::decode: accepts exactly the even-length
/// texts of digits 0-9 and a-f.
#[verifier::external_body]
fn unhex_lower(s: &Vec<u8>) -> (r: Result<Vec<u8>, subtle_encoding::Error>)
    ensures
        match r {
            Ok(v) => hex_decoded(s@, false) == Some(v@),
            Err(_) => hex_decoded(s@, false).is_none(),
        },
{
    subtle_encoding::hex::decode(s)
}

/// Relies on subtle_encoding::base64::encode for the Base64 text of the bytes.
#[verifier::external_body]
fn base64_encode(b: &Vec<u8>) -> (r: Vec<u8>)
    ensures
        r@ == base64_of(b@),
{
    subtle_encoding::base64::encode(b)
}

/// A byte that `char::from` turns into a whitespace character.
pub open spec fn is_space_byte(b: u8) -> bool {
    (9 <= b <= 13) || b == 32 || b == 0x85 || b == 0xa0
}

/// Texts on which the decoder of subtle_encoding 0.5 panics: the last group
/// of four (or fewer) characters opens with a padding sign, and the text
/// does not end in whitespace (which it refuses first).
pub open spec fn base64_trips_decoder(s: Seq<u8>) -> bool {
    &&& s.len() > 0
    &&& !is_space_byte(s.last())
    &&& s[4 * ((s.len() - 1) / 4)] == 61
}

/// Relies on subtle_encoding::base64::decode for the bytes of a Base64 text.
#[verifier::external_body]
fn base64_decode(s: &Vec<u8>) -> (r: Result<Vec<u8>, subtle_encoding::Error>)
    requires
        !base64_trips_decoder(s@),
    ensures
        match r {
            Ok(v) => base64_decoding_of(s@) == Some(v@),
            Err(_) => base64_decoding_of(s@).is_none(),
        },
{
    subtle_encoding::base64::decode(s)
}

/// Upper-case hex text of the bytes.
pub fn encode_hexstring(b: &Vec<u8>) -> (r: Vec<u8>)
    ensures
        r@ == hex_encoded(b@, true),
{
    hex_upper(b)
}

/// Reads hex text in upper case, or failing that in lower case.
pub fn decode_hexstring(s: &Vec<u8>) -> (r: Result<Vec<u8>, DecodeError>)
    ensures
        match r {
            Ok(v) => if hex_decoded(s@, true).is_some() {
                hex_decoded(s@, true) == Some(v@)
            } else {
                hex_decoded(s@, false) == Some(v@)
            },
            Err(_) => hex_decoded(s@, true).is_none() && hex_decoded(s@, false).is_none(),
        },
{
    match unhex_upper(s) {
        Ok(v) => Ok(v),
        Err(_) => match unhex_lower(s) {
            Ok(v) => Ok(v),
            Err(_) => Err(DecodeError),
        },
    }
}

/// Upper-case hex text of each byte string.
pub fn encode_hexstring_list(items: &Vec<Vec<u8>>) -> (r: Vec<Vec<u8>>)
    ensures
        r@.len() == items@.len(),
        forall|k: int| 0 <= k < items@.len() ==> (#[trigger] r@[k])@ == hex_encoded(items@[k]@, true),
{
    let mut r: Vec<Vec<u8>> = Vec::new();
    let mut i: usize = 0;
    while i < items.len()
        invariant
            i <= items@.len(),
            r@.len() == i,
            forall|k: int| 0 <= k < i ==> (#[trigger] r@[k])@ == hex_encoded(items@[k]@, true),
        decreases items@.len() - i,
    {
        r.push(hex_upper(&items[i]));
        i = i + 1;
    }
    r
}

/// Reads each entry as upper-case hex; fails if any entry is not.
pub fn decode_hexstring_list(items: &Vec<Vec<u8>>) -> (r: Result<Vec<Vec<u8>>, DecodeError>)
    ensures
        match r {
            Ok(out) => out@.len() == items@.len() && forall|i: int|
                0 <= i < items@.len() ==> hex_decoded(#[trigger] items@[i]@, true) == Some(out@[i]@),
            Err(_) => exists|i: int| 0 <= i < items@.len() && hex_decoded(#[trigger] items@[i]@, true).is_none(),
        },
{
    let mut out: Vec<Vec<u8>> = Vec::new();
    let mut i: usize = 0;
    while i < items.len()
        invariant
            i <= items@.len(),
            out@.len() == i,
            forall|k: int| 0 <= k < i ==> hex_decoded(#[trigger] items@[k]@, true) == Some(out@[k]@),
        decreases items@.len() - i,
    {
        match unhex_upper(&items[i]) {
            Ok(v) => out.push(v),
            Err(_) => {
                assert(hex_decoded(items@[i as int]@, true).is_none());
                return Err(DecodeError);
            },
        }
        i = i + 1;
    }
    Ok(out)
}

/// Base64 text of the bytes.
pub fn encode_base64string(b: &Vec<u8>) -> (r: Vec<u8>)
    ensures
        r@ == base64_of(b@),
{
    base64_encode(b)
}

fn trips_decoder(s: &Vec<u8>) -> (r: bool)
    ensures
        r == base64_trips_decoder(s@),
{
    if s.len() == 0 {
        return false;
    }
    let last = s[s.len() - 1];
    if (9 <= last && last <= 13) || last == 32 || last == 0x85 || last == 0xa0 {
        return false;
    }
    s[4 * ((s.len() - 1) / 4)] == 61
}

/// Reads Base64 text. A text whose last group opens with padding is
/// refused without consulting the decoder.
pub fn decode_base64string(s: &Vec<u8>) -> (r: Result<Vec<u8>, DecodeError>)
    ensures
        base64_trips_decoder(s@) ==> r.is_err(),
        !base64_trips_decoder(s@) ==> match r {
            Ok(v) => base64_decoding_of(s@) == Some(v@),
            Err(_) => base64_decoding_of(s@).is_none(),
        },
{
    if trips_decoder(s) {
        return Err(DecodeError);
    }
    match base64_decode(s) {
        Ok(v) => Ok(v),
        Err(_) => Err(DecodeError),
    }
}

/// Base64 text of each byte string.
pub fn encode_base64string_list(items: &Vec<Vec<u8>>) -> (r: Vec<Vec<u8>>)
    ensures
        r@.len() == items@.len(),
        forall|k: int| 0 <= k < items@.len() ==> (#[trigger] r@[k])@ == base64_of(items@[k]@),
{
    let mut r: Vec<Vec<u8>> = Vec::new();
    let mut i: usize = 0;
    while i < items.len()
        invariant
            i <= items@.len(),
            r@.len() == i,
            forall|k: int| 0 <= k < i ==> (#[trigger] r@[k])@ == base64_of(items@[k]@),
        decreases items@.len() - i,
    {
        r.push(base64_encode(&items[i]));
        i = i + 1;
    }
    r
}

/// Reads each entry as Base64; fails if any entry is not.
pub fn decode_base64string_list(items: &Vec<Vec<u8>>) -> (r: Result<Vec<Vec<u8>>, DecodeError>)
    ensures
        match r {
            Ok(out) => out@.len() == items@.len() && forall|i: int|
                0 <= i < items@.len() ==> !base64_trips_decoder(#[trigger] items@[i]@) && base64_decoding_of(
                    items@[i]@,
                ) == Some(out@[i]@),
            Err(_) => exists|i: int|
                0 <= i < items@.len() && (base64_trips_decoder(#[trigger] items@[i]@) || base64_decoding_of(
                    items@[i]@,
                ).is_none()),
        },
{
    let mut out: Vec<Vec<u8>> = Vec::new();
    let mut i: usize = 0;
    while i < items.len()
        invariant
            i <= items@.len(),
            out@.len() == i,
            forall|k: int|
                0 <= k < i ==> !base64_trips_decoder(#[trigger] items@[k]@) && base64_decoding_of(items@[k]@)
                    == Some(out@[k]@),
        decreases items@.len() - i,
    {
        match decode_base64string(&items[i]) {
            Ok(v) => out.push(v),
            Err(_) => {
                assert(base64_trips_decoder(items@[i as int]@) || base64_decoding_of(items@[i as int]@).is_none());
                return Err(DecodeError);
            },
        }
        i = i + 1;
    }
    Ok(out)
}

} // verus!
