//! The JSON cell: every record the script produces holds well-formed JSON.
use crate::codec::views;
use crate::error::Error;
use vstd::prelude::*;
use vstd::string::{StrSliceExecFns, StringSliceAdditionalSpecFns};
use vstd::utf8::{decode_utf8, decode_utf8_encode_utf8, valid_utf8};

verus! {

/// Whether lite_json's parser accepts `text`.
pub uninterp spec fn json_accepts(text: Seq<char>) -> bool;

/// Relies on `core::str::from_utf8`: it succeeds exactly on valid UTF-8,
/// and the string it returns holds the decoded characters.
#[verifier::external_body]
fn utf8_text(data: &Vec<u8>) -> (r: Option<&str>)
    ensures
        r is Some <==> valid_utf8(data@),
        r matches Some(s) ==> s@ == decode_utf8(data@),
{
    core::str::from_utf8(data.as_slice()).ok()
}

/// Relies on `lite_json::json_parser::parse_json`: whether it returns `Ok`
/// depends on the text alone. It counts characters in a `u32` and reads
/// numbers into `u64` and `i32` with unchecked arithmetic, so longer texts
/// and longer numbers are left out.
#[verifier::external_body]
fn parses_as_json(text: &str) -> (r: bool)
    requires
        text@.len() < u32::MAX,
        !has_long_number(text.spec_bytes()),
    ensures
        r == json_accepts(text@),
{
    lite_json::json_parser::parse_json(text).is_ok()
}

/// An ASCII decimal digit.
pub open spec fn is_digit(b: u8) -> bool {
    0x30 <= b <= 0x39
}

/// `bytes[start..start + n]` are all digits.
pub open spec fn digits_at(bytes: Seq<u8>, start: int, n: int) -> bool {
    &&& 0 <= start
    &&& start + n <= bytes.len()
    &&& forall|k: int| start <= k < start + n ==> is_digit(#[trigger] bytes[k])
}

/// `e` or `E`.
pub open spec fn is_exponent_mark(b: u8) -> bool {
    b == 0x65 || b == 0x45
}

/// An exponent mark, with or without a sign, ends right before `start`.
pub open spec fn exponent_before(bytes: Seq<u8>, start: int) -> bool {
    ||| (1 <= start <= bytes.len() && is_exponent_mark(bytes[start - 1]))
    ||| (2 <= start <= bytes.len() && (bytes[start - 1] == 0x2b || bytes[start - 1] == 0x2d)
        && is_exponent_mark(bytes[start - 2]))
}

/// A digit run lite_json's parser might read as a number and overflow on:
/// twenty digits in a row, which overflow its `u64` accumulators, or ten
/// after an exponent mark, which overflow its `i32` one. Digits inside
/// string literals count too: the parser's byte-range lookups can lose
/// track of where a literal ends in text that is not all ASCII.
pub open spec fn has_long_number(bytes: Seq<u8>) -> bool {
    exists|start: int|
        #![trigger digits_at(bytes, start, 20)]
        #![trigger digits_at(bytes, start, 10)]
        digits_at(bytes, start, 20) || (exponent_before(bytes, start) && digits_at(bytes, start, 10))
}

/// Whether the text holds a digit run too long for lite_json's parser.
pub fn long_number(data: &Vec<u8>) -> (r: bool)
    ensures
        r == has_long_number(data@),
{
    let n = data.len();
    let mut run: usize = 0;
    let mut i: usize = 0;
    while i < n
        invariant
            n == data@.len(),
            i <= n,
            run <= i,
            forall|k: int| i - run <= k < i ==> is_digit(#[trigger] data@[k]),
            run < i ==> !is_digit(data@[i - run - 1]),
            forall|s: int| s + 20 <= i ==> !digits_at(data@, s, 20),
            forall|s: int| s + 10 <= i && exponent_before(data@, s) ==> !digits_at(data@, s, 10),
        decreases n - i,
    {
        let b = data[i];
        if 0x30 <= b && b <= 0x39 {
            run = run + 1;
        } else {
            run = 0;
        }
        let end = i + 1;
        proof {
            assert forall|s: int| s + 20 <= end && digits_at(data@, s, 20) implies s + 20 == end
                && run >= 20 by {
                if s + 20 == end && run < 20 {
                    assert(is_digit(data@[end - run - 1]));
                }
            }
            assert forall|s: int|
                s + 10 <= end && exponent_before(data@, s) && digits_at(data@, s, 10) implies s + 10
                == end && run == 10 by {
                if s + 10 == end {
                    if run < 10 {
                        assert(is_digit(data@[end - run - 1]));
                    } else if run > 10 {
                        assert(is_digit(data@[s - 1]));
                    }
                }
            }
        }
        if run >= 20 {
            proof {
                assert(digits_at(data@, end - 20, 20));
            }
            return true;
        }
        if run == 10 {
            let start = end - 10;
            let marked = (start >= 1 && (data[start - 1] == 0x65 || data[start - 1] == 0x45)) || (
            start >= 2 && (data[start - 1] == 0x2b || data[start - 1] == 0x2d) && (data[start - 2]
                == 0x65 || data[start - 2] == 0x45));
            if marked {
                proof {
                    assert(exponent_before(data@, start as int));
                    assert(digits_at(data@, start as int, 10));
                }
                return true;
            }
        }
        i = end;
    }
    false
}

/// What a record's bytes are, as text.
#[derive(Clone, Copy, Debug, PartialEq, Eq, Structural)]
pub enum CellText {
    /// The bytes are not UTF-8.
    NotUtf8,
    /// The bytes are UTF-8 but the text is too long, or holds a number too
    /// long, for the parser: the script aborts.
    Oversized,
    /// The bytes are UTF-8 but the text is not JSON.
    NotJson,
    /// The bytes are UTF-8 text that is JSON.
    Json,
}

/// Classifies a record's bytes.
pub open spec fn text_of(data: Seq<u8>) -> CellText {
    if !valid_utf8(data) {
        CellText::NotUtf8
    } else if decode_utf8(data).len() >= u32::MAX || has_long_number(data) {
        CellText::Oversized
    } else if !json_accepts(decode_utf8(data)) {
        CellText::NotJson
    } else {
        CellText::Json
    }
}

/// The verdict on records classified in order: the first that is not JSON
/// decides the error.
pub open spec fn texts_outcome(texts: Seq<CellText>) -> Result<(), Error>
    decreases texts.len(),
{
    if texts.len() == 0 {
        Ok(())
    } else {
        match texts_outcome(texts.drop_last()) {
            Err(e) => Err(e),
            Ok(_) => match texts.last() {
                CellText::NotUtf8 => Err(Error::InvalidStringData),
                CellText::Oversized => Err(Error::Aborted),
                CellText::NotJson => Err(Error::InvalidJson),
                CellText::Json => Ok(()),
            },
        }
    }
}

/// The verdict of the JSON cell on the records it produces.
pub open spec fn jsoncell_outcome(after: Seq<Seq<u8>>) -> Result<(), Error> {
    texts_outcome(after.map_values(|d: Seq<u8>| text_of(d)))
}

/// Classifies one record's bytes.
pub fn classify_text(data: &Vec<u8>) -> (r: CellText)
    ensures
        r == text_of(data@),
{
    match utf8_text(data) {
        None => CellText::NotUtf8,
        Some(text) => {
            if text.unicode_len() >= u32::MAX as usize || long_number(data) {
                return CellText::Oversized;
            }
            proof {
                decode_utf8_encode_utf8(data@);
            }
            if parses_as_json(text) {
                CellText::Json
            } else {
                CellText::NotJson
            }
        },
    }
}

/// The verdict on records already classified.
pub fn json_cells_verdict(texts: &Vec<CellText>) -> (r: Result<(), Error>)
    ensures
        r == texts_outcome(texts@),
{
    let mut i: usize = 0;
    while i < texts.len()
        invariant
            i <= texts@.len(),
            texts_outcome(texts@.subrange(0, i as int)) == Ok::<(), Error>(()),
        decreases texts@.len() - i,
    {
        proof {
            assert(texts@.subrange(0, i as int + 1).drop_last() =~= texts@.subrange(0, i as int));
        }
        match texts[i] {
            CellText::NotUtf8 => {
                proof {
                    lemma_texts_error_persists(texts@, i as int + 1);
                }
                return Err(Error::InvalidStringData);
            },
            CellText::Oversized => {
                proof {
                    lemma_texts_error_persists(texts@, i as int + 1);
                }
                return Err(Error::Aborted);
            },
            CellText::NotJson => {
                proof {
                    lemma_texts_error_persists(texts@, i as int + 1);
                }
                return Err(Error::InvalidJson);
            },
            CellText::Json => {},
        }
        i = i + 1;
    }
    assert(texts@.subrange(0, texts@.len() as int) =~= texts@);
    Ok(())
}

/// Once a prefix of the records fails, the whole does too.
proof fn lemma_texts_error_persists(texts: Seq<CellText>, n: int)
    requires
        0 <= n <= texts.len(),
        texts_outcome(texts.subrange(0, n)) is Err,
    ensures
        texts_outcome(texts) == texts_outcome(texts.subrange(0, n)),
    decreases texts.len() - n,
{
    if n < texts.len() {
        assert(texts.subrange(0, n + 1).drop_last() =~= texts.subrange(0, n));
        lemma_texts_error_persists(texts, n + 1);
    } else {
        assert(texts.subrange(0, n) =~= texts);
    }
}

/// Validates the records the JSON cell produces.
pub fn validate_jsoncell(after: &Vec<Vec<u8>>) -> (r: Result<(), Error>)
    ensures
        r == jsoncell_outcome(views(after@)),
{
    let mut texts: Vec<CellText> = Vec::new();
    let mut i: usize = 0;
    while i < after.len()
        invariant
            i <= after@.len(),
            texts@ =~= views(after@).map_values(|d: Seq<u8>| text_of(d)).subrange(0, i as int),
        decreases after@.len() - i,
    {
        texts.push(classify_text(&after[i]));
        i = i + 1;
    }
    assert(texts@ =~= views(after@).map_values(|d: Seq<u8>| text_of(d)));
    json_cells_verdict(&texts)
}

} // verus!
