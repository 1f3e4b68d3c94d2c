//! Entry names as text: UTF-8 decoding, and the charset guess for zip
//! entries whose names were stored in a legacy code page.
use vstd::prelude::*;
use vstd::utf8::{decode_utf8, valid_utf8};

use codepage_437::{ToCp437, CP437_WINGDINGS};
use encoding::label::encoding_from_whatwg_label;
use encoding::DecoderTrap;

verus! {

/// The bytes that the characters map to in code page 437 (the variant that
/// shows control codes as symbols), or `None` where one has no such byte.
pub uninterp spec fn cp437_bytes(text: Seq<char>) -> Option<Seq<u8>>;

/// The name of the charset that the detector finds most likely for the bytes.
pub uninterp spec fn detected_charset(bytes: Seq<u8>) -> Seq<char>;

/// The bytes decoded under the encoding that a WHATWG label names, with
/// undecodable sequences skipped; `None` where the label names no encoding.
pub uninterp spec fn decoded_by_label(label: Seq<char>, bytes: Seq<u8>) -> Option<Seq<char>>;

/// The bytes read as UTF-8, each invalid sequence replaced by U+FFFD.
pub uninterp spec fn lossy_utf8(bytes: Seq<u8>) -> Seq<char>;

/// The text an optional string holds.
pub open spec fn text_of(s: Option<String>) -> Option<Seq<char>> {
    match s {
        Some(t) => Some(t@),
        None => None,
    }
}

/// The encoding label that the detector's charset name stands for: three
/// names are spelled otherwise, the rest pass through.
pub open spec fn label_for_charset(charset: Seq<char>) -> Seq<char> {
    if charset == seq!['C', 'P', '9', '3', '2'] {
        seq!['w', 'i', 'n', 'd', 'o', 'w', 's', '-', '3', '1', 'j']
    } else if charset == seq!['C', 'P', '9', '4', '9'] {
        seq!['w', 'i', 'n', 'd', 'o', 'w', 's', '-', '9', '4', '9']
    } else if charset == seq![
        'M', 'a', 'c', 'C', 'y', 'r', 'i', 'l', 'l', 'i', 'c',
    ] {
        seq!['x', '-', 'm', 'a', 'c', '-', 'c', 'y', 'r', 'i', 'l', 'l', 'i', 'c']
    } else {
        charset
    }
}

/// Bytes that hold an escape (0x1B) and otherwise only bytes below 0x80 or
/// equal to 0xA0: the charset detector cannot rule on these.
pub open spec fn escaped_ascii(bytes: Seq<u8>) -> bool {
    &&& bytes.contains(0x1Bu8)
    &&& forall|i: int| 0 <= i < bytes.len() ==> bytes[i] < 0x80 || bytes[i] == 0xA0
}

/// The name a zip entry is shown under. A name that is not UTF-8 gives
/// `None`. A name with a character outside code page 437 cannot have been
/// decoded from it, so it stands as it is; so does a name whose code page 437
/// bytes are escaped ASCII. Otherwise its code page 437 bytes are decoded
/// again under the charset that detection picks.
pub open spec fn zip_name_guess(raw: Seq<u8>) -> Option<Seq<char>> {
    if !valid_utf8(raw) {
        None
    } else {
        let text = decode_utf8(raw);
        match cp437_bytes(text) {
            None => Some(text),
            Some(cp) => if escaped_ascii(cp) {
                Some(text)
            } else {
                decoded_by_label(label_for_charset(detected_charset(cp)), cp)
            },
        }
    }
}

/// Whether the bytes are escaped ASCII.
fn is_escaped_ascii(bytes: &[u8]) -> (r: bool)
    ensures
        r == escaped_ascii(bytes@),
{
    let mut has_escape = false;
    let mut i: usize = 0;
    while i < bytes.len()
        invariant
            i <= bytes@.len(),
            forall|k: int| 0 <= k < i ==> bytes@[k] < 0x80 || bytes@[k] == 0xA0,
            has_escape == bytes@.subrange(0, i as int).contains(0x1Bu8),
        decreases bytes@.len() - i,
    {
        let b = bytes[i];
        if b >= 0x80 && b != 0xA0 {
            return false;
        }
        proof {
            let next = bytes@.subrange(0, i + 1);
            assert(next =~= bytes@.subrange(0, i as int).push(b));
            if bytes@.subrange(0, i as int).contains(0x1Bu8) {
                let k = choose|k: int| 0 <= k < i && bytes@.subrange(0, i as int)[k] == 0x1Bu8;
                assert(next[k] == 0x1Bu8);
            }
            if b == 0x1B {
                assert(next[i as int] == 0x1Bu8);
            }
        }
        if b == 0x1B {
            has_escape = true;
        }
        i = i + 1;
    }
    assert(bytes@.subrange(0, i as int) =~= bytes@);
    has_escape
}

/// Relies on `std::str::from_utf8`: it succeeds exactly on valid UTF-8, and
/// then holds the characters that the bytes encode.
#[verifier::external_body]
fn utf8_text(bytes: &[u8]) -> (r: Option<String>)
    ensures
        r is Some <==> valid_utf8(bytes@),
        text_of(r) == Some(decode_utf8(bytes@)) || r is None,
{
    std::str::from_utf8(bytes).ok().map(str::to_owned)
}

/// Relies on `String::from_utf8_lossy`: invalid sequences become U+FFFD, and
/// valid UTF-8 is decoded unchanged.
#[verifier::external_body]
fn lossy_text(bytes: &[u8]) -> (r: String)
    ensures
        r@ == lossy_utf8(bytes@),
        valid_utf8(bytes@) ==> r@ == decode_utf8(bytes@),
{
    String::from_utf8_lossy(bytes).into_owned()
}

/// Relies on `codepage_437::ToCp437::to_cp437` with `CP437_WINGDINGS`.
#[verifier::external_body]
fn to_cp437(text: &str) -> (r: Option<Vec<u8>>)
    ensures
        match r {
            Some(v) => cp437_bytes(text@) == Some(v@),
            None => cp437_bytes(text@) is None,
        },
{
    text.to_cp437(&CP437_WINGDINGS).ok().map(|c| c.into_owned())
}

/// Relies on `chardet::detect`, keeping the charset name it reports. Its
/// detector stops at an unreachable arm on escaped ASCII that no escape
/// prober recognises, so such bytes are left out.
#[verifier::external_body]
fn detect_charset(bytes: &[u8]) -> (r: String)
    requires
        !escaped_ascii(bytes@),
    ensures
        r@ == detected_charset(bytes@),
{
    chardet::detect(bytes).0
}

/// Relies on `chardet::charset2encoding`: it renames CP932, CP949 and
/// MacCyrillic and hands any other name back.
#[verifier::external_body]
fn charset_label(charset: &String) -> (r: String)
    ensures
        r@ == label_for_charset(charset@),
{
    chardet::charset2encoding(charset).to_owned()
}

/// Relies on `encoding::label::encoding_from_whatwg_label` to find the
/// encoding a label names, and on that encoding's `decode` with
/// `DecoderTrap::Ignore`.
#[verifier::external_body]
fn decode_with_label(label: &str, bytes: &[u8]) -> (r: Option<String>)
    ensures
        text_of(r) == decoded_by_label(label@, bytes@),
{
    match encoding_from_whatwg_label(label) {
        Some(enc) => enc.decode(bytes, DecoderTrap::Ignore).ok(),
        None => None,
    }
}

/// Guesses the real name of a zip entry from the UTF-8 name the decode
/// engine reports.
pub fn guess_zip_name(raw: &[u8]) -> (r: Option<String>)
    ensures
        text_of(r) == zip_name_guess(raw@),
{
    let text = match utf8_text(raw) {
        Some(t) => t,
        None => {
            return None;
        },
    };
    let cp = match to_cp437(text.as_str()) {
        Some(cp) => cp,
        None => {
            return Some(text);
        },
    };
    if is_escaped_ascii(cp.as_slice()) {
        return Some(text);
    }
    let charset = detect_charset(cp.as_slice());
    let label = charset_label(&charset);
    decode_with_label(label.as_str(), cp.as_slice())
}

/// The name an entry is shown under, given the format of its container and
/// the name bytes the decode engine reports.
pub open spec fn entry_name(zip: bool, raw: Seq<u8>) -> Seq<char> {
    if zip && zip_name_guess(raw) is Some {
        zip_name_guess(raw)->Some_0
    } else {
        lossy_utf8(raw)
    }
}

/// Picks the name of an entry: the guessed name for a zip entry where there
/// is one, otherwise the reported bytes read as UTF-8.
pub fn name_for_entry(zip: bool, raw: &[u8]) -> (r: String)
    ensures
        r@ == entry_name(zip, raw@),
        valid_utf8(raw@) && !zip ==> r@ == decode_utf8(raw@),
{
    if zip {
        match guess_zip_name(raw) {
            Some(name) => {
                return name;
            },
            None => {},
        }
    }
    lossy_text(raw)
}

} // verus!
