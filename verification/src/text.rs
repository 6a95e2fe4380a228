//! Operations on text that the engine takes from the standard library.

use vstd::prelude::*;
use vstd::string::{StringExecFns, StringSliceAdditionalSpecFns};

verus! {

/// What `str::parse::<i64>` makes of a text: the number, or nothing where it
/// reports an error.
pub uninterp spec fn parsed_integer(text: Seq<char>) -> Option<i64>;

/// The decimal text that `i64::to_string` writes.
pub uninterp spec fn integer_text(value: i64) -> Seq<char>;

/// Calls `str::parse::<i64>` and keeps the number, or nothing on an error.
#[verifier::external_body]
pub(crate) fn parse_integer(text: &str) -> (r: Option<i64>)
    ensures
        r == parsed_integer(text@),
{
    text.parse::<i64>().ok()
}

/// Calls `i64::to_string`.
#[verifier::external_body]
pub(crate) fn integer_to_text(value: i64) -> (r: String)
    ensures
        r@ == integer_text(value),
{
    value.to_string()
}

/// The text that `str::trim` leaves: the text without the white space at
/// its two ends.
pub uninterp spec fn trimmed(text: Seq<char>) -> Seq<char>;

/// The text that `str::to_lowercase` returns.
pub uninterp spec fn lowercase(text: Seq<char>) -> Seq<char>;

/// The text that `str::to_uppercase` returns.
pub uninterp spec fn uppercase(text: Seq<char>) -> Seq<char>;

/// The bytes of `text` with those of `piece` put in at the byte `index`: the
/// bytes of the text up to `index`, then those of the piece, then the rest.
pub open spec fn inserted_bytes(text: Seq<char>, index: usize, piece: Seq<char>) -> Seq<u8> {
    let bytes = vstd::utf8::encode_utf8(text);
    bytes.subrange(0, index as int) + vstd::utf8::encode_utf8(piece) + bytes.subrange(
        index as int,
        bytes.len() as int,
    )
}

/// The text with `piece` put in at the byte `index`: the text that has the
/// bytes of `inserted_bytes`.
pub open spec fn inserted(text: Seq<char>, index: usize, piece: Seq<char>) -> Seq<char> {
    vstd::utf8::decode_utf8(inserted_bytes(text, index, piece))
}

/// The bytes of two texts, one behind the other, are the bytes of the one
/// behind the bytes of the other.
pub proof fn lemma_bytes_of_joined(a: Seq<char>, b: Seq<char>)
    ensures
        vstd::utf8::encode_utf8(a + b) == vstd::utf8::encode_utf8(a) + vstd::utf8::encode_utf8(b),
    decreases a.len(),
{
    if a.len() == 0 {
        assert(a + b =~= b);
        assert(vstd::utf8::encode_utf8(a) + vstd::utf8::encode_utf8(b) =~= vstd::utf8::encode_utf8(
            b,
        ));
    } else {
        assert((a + b).drop_first() =~= a.drop_first() + b);
        lemma_bytes_of_joined(a.drop_first(), b);
        assert(vstd::utf8::encode_utf8(a + b) =~= vstd::utf8::encode_utf8(a)
            + vstd::utf8::encode_utf8(b));
    }
}

/// Putting a piece into a text at a boundary between characters leaves the
/// characters of the text before the boundary, then the piece, then the
/// characters of the text behind the boundary.
pub proof fn lemma_inserted(text: Seq<char>, index: usize, piece: Seq<char>)
    requires
        vstd::utf8::is_char_boundary(vstd::utf8::encode_utf8(text), index as int),
    ensures
        ({
            let bytes = vstd::utf8::encode_utf8(text);
            let before = vstd::utf8::decode_utf8(bytes.subrange(0, index as int));
            let behind = vstd::utf8::decode_utf8(bytes.subrange(index as int, bytes.len() as int));
            &&& text == before + behind
            &&& inserted(text, index, piece) == before + piece + behind
        }),
{
    let bytes = vstd::utf8::encode_utf8(text);
    let head = bytes.subrange(0, index as int);
    let tail = bytes.subrange(index as int, bytes.len() as int);
    let before = vstd::utf8::decode_utf8(head);
    let behind = vstd::utf8::decode_utf8(tail);
    vstd::utf8::encode_utf8_valid_utf8(text);
    vstd::utf8::valid_utf8_split(bytes, index as int);
    vstd::utf8::decode_utf8_split(bytes, index as int);
    vstd::utf8::encode_utf8_decode_utf8(text);
    vstd::utf8::decode_utf8_encode_utf8(head);
    vstd::utf8::decode_utf8_encode_utf8(tail);
    lemma_bytes_of_joined(before, piece);
    lemma_bytes_of_joined(before + piece, behind);
    vstd::utf8::encode_utf8_decode_utf8(before + piece + behind);
}

/// Calls `String::insert_str` on a copy of `text`. The byte `index` lies on a
/// boundary between characters, as that function demands. The bytes of
/// what it leaves are those of the text up to `index`, then those of the
/// piece, then the rest of the text.
#[verifier::external_body]
fn insert_str(text: &str, index: usize, piece: &str) -> (r: String)
    requires
        vstd::utf8::is_char_boundary(text.spec_bytes(), index as int),
    ensures
        vstd::utf8::encode_utf8(r@) == inserted_bytes(text@, index, piece@),
{
    let mut out = text.to_string();
    out.insert_str(index, piece);
    out
}

/// The text with `piece` put in at the byte `index`, which lies on a
/// boundary between characters.
pub fn insert(text: &str, index: usize, piece: &str) -> (r: String)
    requires
        vstd::utf8::is_char_boundary(text.spec_bytes(), index as int),
    ensures
        r@ == inserted(text@, index, piece@),
{
    let r = insert_str(text, index, piece);
    proof {
        vstd::utf8::encode_utf8_decode_utf8(r@);
    }
    r
}

/// Calls `str::trim` and copies what it leaves.
#[verifier::external_body]
pub(crate) fn trim(text: &str) -> (r: String)
    ensures
        r@ == trimmed(text@),
{
    text.trim().to_string()
}

/// Calls `str::to_lowercase`.
#[verifier::external_body]
pub(crate) fn to_lowercase(text: &str) -> (r: String)
    ensures
        r@ == lowercase(text@),
{
    text.to_lowercase()
}

/// Calls `str::to_uppercase`.
#[verifier::external_body]
pub(crate) fn to_uppercase(text: &str) -> (r: String)
    ensures
        r@ == uppercase(text@),
{
    text.to_uppercase()
}

/// The two texts, one behind the other.
pub fn join(a: &str, b: &str) -> (r: String)
    ensures
        r@ == a@ + b@,
{
    a.to_owned().concat(b)
}

/// The text of a digit.
pub open spec fn digit_text(digit: nat) -> Seq<char> {
    if digit == 0 {
        "0"@
    } else if digit == 1 {
        "1"@
    } else if digit == 2 {
        "2"@
    } else if digit == 3 {
        "3"@
    } else if digit == 4 {
        "4"@
    } else if digit == 5 {
        "5"@
    } else if digit == 6 {
        "6"@
    } else if digit == 7 {
        "7"@
    } else if digit == 8 {
        "8"@
    } else {
        "9"@
    }
}

/// The decimal text of a number: its digits, the most significant first.
pub open spec fn decimal_text(number: nat) -> Seq<char>
    decreases number,
{
    if number < 10 {
        digit_text(number)
    } else {
        decimal_text(number / 10) + digit_text(number % 10)
    }
}

/// The decimal text of `number`.
pub fn decimal(number: u64) -> (r: String)
    ensures
        r@ == decimal_text(number as nat),
    decreases number,
{
    let digit = match number % 10 {
        0 => "0",
        1 => "1",
        2 => "2",
        3 => "3",
        4 => "4",
        5 => "5",
        6 => "6",
        7 => "7",
        8 => "8",
        _ => "9",
    };
    if number < 10 {
        digit.to_owned()
    } else {
        decimal(number / 10).concat(digit)
    }
}

/// Whether two texts hold the same characters.
pub fn same_text(a: &str, b: &str) -> (r: bool)
    ensures
        r == (a@ == b@),
{
    let left = a.to_owned();
    let right = b.to_owned();
    left == right
}

/// The views of the texts in `texts`, in order.
pub open spec fn texts_view(texts: Seq<String>) -> Seq<Seq<char>> {
    Seq::new(texts.len(), |i: int| texts[i]@)
}

/// A copy of `texts`.
pub fn copy_texts(texts: &Vec<String>) -> (r: Vec<String>)
    ensures
        texts_view(r@) == texts_view(texts@),
{
    let mut out: Vec<String> = Vec::new();
    let mut i: usize = 0;
    while i < texts.len()
        invariant
            i <= texts@.len(),
            out@.len() == i,
            forall|j: int| 0 <= j < i ==> out@[j]@ == texts@[j]@,
        decreases texts@.len() - i,
    {
        out.push(texts[i].clone());
        i += 1;
    }
    assert(texts_view(out@) =~= texts_view(texts@));
    out
}

/// Whether two lists hold the same texts in the same order.
pub fn same_texts(a: &Vec<String>, b: &Vec<String>) -> (r: bool)
    ensures
        r == (texts_view(a@) == texts_view(b@)),
{
    if a.len() != b.len() {
        assert(texts_view(a@).len() != texts_view(b@).len());
        return false;
    }
    let mut i: usize = 0;
    while i < a.len()
        invariant
            i <= a@.len(),
            a@.len() == b@.len(),
            forall|j: int| 0 <= j < i ==> a@[j]@ == b@[j]@,
        decreases a@.len() - i,
    {
        if !same_text(a[i].as_str(), b[i].as_str()) {
            assert(texts_view(a@)[i as int] != texts_view(b@)[i as int]);
            return false;
        }
        i += 1;
    }
    assert(texts_view(a@) =~= texts_view(b@));
    true
}

} // verus!
