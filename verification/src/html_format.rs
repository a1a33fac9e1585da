//! The "HTML Format" of the Windows clipboard: an HTML document behind a
//! header of named byte offsets.
//!
//! The header names, in ten decimal digits each, where the document starts
//! and ends and where the fragment, the part that was copied, starts and
//! ends. All offsets count bytes from the start of the data. A reader looks
//! the two fragment offsets up by their names; offsets that are missing, in
//! the wrong order or beyond the data are refused with
//! `InvalidHtmlOffsets`.

use vstd::prelude::*;
use crate::content::append_bytes;
use crate::error::ClipboardError;

verus! {

/// The offset at which the document starts: the length of the header.
pub const DOCUMENT_START: usize = 105;

/// The offset at which the fragment starts.
pub const FRAGMENT_START: usize = 139;

/// The number of bytes around the fragment: header and markup.
pub const OVERHEAD: usize = 173;

/// The longest fragment whose offsets can be written in ten digits.
pub const MAX_FRAGMENT: u64 = 9_999_999_826;

/// The words before the first offset: the version line and the name of the first field.
pub open spec fn lead() -> Seq<u8> {
    seq![86u8, 101, 114, 115, 105, 111, 110, 58, 48, 46, 57, 13, 10, 83, 116, 97, 114, 116, 72, 84, 77, 76, 58]
}

fn lead_bytes() -> (out: Vec<u8>)
    ensures
        out@ == lead(),
{
    let out: Vec<u8> = vec![86u8, 101, 114, 115, 105, 111, 110, 58, 48, 46, 57, 13, 10, 83, 116, 97, 114, 116, 72, 84, 77, 76, 58];
    assert(out@ =~= lead());
    out
}

/// The line break and the name of the second field.
pub open spec fn end_html_field() -> Seq<u8> {
    seq![13u8, 10, 69, 110, 100, 72, 84, 77, 76, 58]
}

fn end_html_field_bytes() -> (out: Vec<u8>)
    ensures
        out@ == end_html_field(),
{
    let out: Vec<u8> = vec![13u8, 10, 69, 110, 100, 72, 84, 77, 76, 58];
    assert(out@ =~= end_html_field());
    out
}

/// The line break and the name of the third field.
pub open spec fn start_fragment_field() -> Seq<u8> {
    seq![13u8, 10, 83, 116, 97, 114, 116, 70, 114, 97, 103, 109, 101, 110, 116, 58]
}

fn start_fragment_field_bytes() -> (out: Vec<u8>)
    ensures
        out@ == start_fragment_field(),
{
    let out: Vec<u8> = vec![13u8, 10, 83, 116, 97, 114, 116, 70, 114, 97, 103, 109, 101, 110, 116, 58];
    assert(out@ =~= start_fragment_field());
    out
}

/// The line break and the name of the fourth field.
pub open spec fn end_fragment_field() -> Seq<u8> {
    seq![13u8, 10, 69, 110, 100, 70, 114, 97, 103, 109, 101, 110, 116, 58]
}

fn end_fragment_field_bytes() -> (out: Vec<u8>)
    ensures
        out@ == end_fragment_field(),
{
    let out: Vec<u8> = vec![13u8, 10, 69, 110, 100, 70, 114, 97, 103, 109, 101, 110, 116, 58];
    assert(out@ =~= end_fragment_field());
    out
}

/// The end of the header and the markup that opens the document and the fragment.
pub open spec fn opening() -> Seq<u8> {
    seq![13u8, 10, 60, 104, 116, 109, 108, 62, 60, 98, 111, 100, 121, 62, 13, 10, 60, 33, 45, 45, 83, 116, 97, 114, 116, 70, 114, 97, 103, 109, 101, 110, 116, 45, 45, 62]
}

fn opening_bytes() -> (out: Vec<u8>)
    ensures
        out@ == opening(),
{
    let out: Vec<u8> = vec![13u8, 10, 60, 104, 116, 109, 108, 62, 60, 98, 111, 100, 121, 62, 13, 10, 60, 33, 45, 45, 83, 116, 97, 114, 116, 70, 114, 97, 103, 109, 101, 110, 116, 45, 45, 62];
    assert(out@ =~= opening());
    out
}

/// The markup that closes the fragment and the document.
pub open spec fn closing() -> Seq<u8> {
    seq![60u8, 33, 45, 45, 69, 110, 100, 70, 114, 97, 103, 109, 101, 110, 116, 45, 45, 62, 13, 10, 60, 47, 98, 111, 100, 121, 62, 60, 47, 104, 116, 109, 108, 62]
}

fn closing_bytes() -> (out: Vec<u8>)
    ensures
        out@ == closing(),
{
    let out: Vec<u8> = vec![60u8, 33, 45, 45, 69, 110, 100, 70, 114, 97, 103, 109, 101, 110, 116, 45, 45, 62, 13, 10, 60, 47, 98, 111, 100, 121, 62, 60, 47, 104, 116, 109, 108, 62];
    assert(out@ =~= closing());
    out
}

/// The name of the field that holds the offset at which the fragment starts.
pub open spec fn start_key() -> Seq<u8> {
    seq![83u8, 116, 97, 114, 116, 70, 114, 97, 103, 109, 101, 110, 116, 58]
}

fn start_key_bytes() -> (out: Vec<u8>)
    ensures
        out@ == start_key(),
{
    let out: Vec<u8> = vec![83u8, 116, 97, 114, 116, 70, 114, 97, 103, 109, 101, 110, 116, 58];
    assert(out@ =~= start_key());
    out
}

/// The name of the field that holds the offset at which the fragment ends.
pub open spec fn end_key() -> Seq<u8> {
    seq![69u8, 110, 100, 70, 114, 97, 103, 109, 101, 110, 116, 58]
}

fn end_key_bytes() -> (out: Vec<u8>)
    ensures
        out@ == end_key(),
{
    let out: Vec<u8> = vec![69u8, 110, 100, 70, 114, 97, 103, 109, 101, 110, 116, 58];
    assert(out@ =~= end_key());
    out
}

/// The byte that writes the decimal digit of `n` at the place `unit`.
pub open spec fn digit_at(n: nat, unit: nat) -> u8 {
    (48 + n / unit % 10) as u8
}

/// `n` in ten decimal digits, with leading zeros.
pub open spec fn ten_digits(n: nat) -> Seq<u8> {
    seq![
        digit_at(n, 1_000_000_000),
        digit_at(n, 100_000_000),
        digit_at(n, 10_000_000),
        digit_at(n, 1_000_000),
        digit_at(n, 100_000),
        digit_at(n, 10_000),
        digit_at(n, 1_000),
        digit_at(n, 100),
        digit_at(n, 10),
        digit_at(n, 1),
    ]
}

/// The header and the opening markup for a fragment of `n` bytes.
pub open spec fn head(n: nat) -> Seq<u8> {
    lead() + ten_digits(DOCUMENT_START as nat) + end_html_field() + ten_digits((OVERHEAD + n) as nat)
        + start_fragment_field() + ten_digits(FRAGMENT_START as nat) + end_fragment_field()
        + ten_digits((FRAGMENT_START + n) as nat) + opening()
}

/// The clipboard data for the HTML fragment `fragment`.
pub open spec fn html_format(fragment: Seq<u8>) -> Seq<u8> {
    head(fragment.len()) + fragment + closing()
}

/// Whether `byte` writes a decimal digit.
pub open spec fn is_digit(byte: u8) -> bool {
    48 <= byte <= 57
}

/// Whether `key` stands in `data` at the position `at`.
pub open spec fn matches_at(data: Seq<u8>, key: Seq<u8>, at: int) -> bool {
    0 <= at && at + key.len() <= data.len() && data.subrange(at, at + key.len()) == key
}

/// The first position at or after `from` at which `key` stands in `data`.
pub open spec fn first_match_from(data: Seq<u8>, key: Seq<u8>, from: int) -> Option<int>
    decreases data.len() + 1 - from,
{
    if from < 0 || from + key.len() > data.len() {
        None
    } else if matches_at(data, key, from) {
        Some(from)
    } else {
        first_match_from(data, key, from + 1)
    }
}

/// Whether a decimal digit stands in `data` at the position `at`.
pub open spec fn has_digit(data: Seq<u8>, at: int) -> bool {
    0 <= at < data.len() && is_digit(data[at])
}

/// The number that the run of decimal digits at `at` writes, continued
/// from the value `so_far` of the digits before it.
pub open spec fn number_from(data: Seq<u8>, at: int, so_far: nat) -> nat
    decreases data.len() - at,
{
    if has_digit(data, at) {
        number_from(data, at + 1, so_far * 10 + (data[at] - 48) as nat)
    } else {
        so_far
    }
}

/// The offset that the header field named `key` holds: the number written
/// right behind the first occurrence of the name.
pub open spec fn offset_named(data: Seq<u8>, key: Seq<u8>) -> Option<nat> {
    match first_match_from(data, key, 0) {
        Some(at) => if has_digit(data, at + key.len()) {
            Some(number_from(data, at + key.len(), 0))
        } else {
            None
        },
        None => None,
    }
}

/// Where the fragment stands in `data`, if the header says so validly:
/// both fragment offsets are present, the start does not lie behind the
/// end, and the end does not lie behind the data.
pub open spec fn fragment_range(data: Seq<u8>) -> Option<(int, int)> {
    match (offset_named(data, start_key()), offset_named(data, end_key())) {
        (Some(start), Some(end)) => if start <= end <= data.len() {
            Some((start as int, end as int))
        } else {
            None
        },
        _ => None,
    }
}

fn push_ten_digits(out: &mut Vec<u8>, n: u64)
    ensures
        final(out)@ == old(out)@ + ten_digits(n as nat),
{
    out.push((48 + n / 1_000_000_000 % 10) as u8);
    out.push((48 + n / 100_000_000 % 10) as u8);
    out.push((48 + n / 10_000_000 % 10) as u8);
    out.push((48 + n / 1_000_000 % 10) as u8);
    out.push((48 + n / 100_000 % 10) as u8);
    out.push((48 + n / 10_000 % 10) as u8);
    out.push((48 + n / 1_000 % 10) as u8);
    out.push((48 + n / 100 % 10) as u8);
    out.push((48 + n / 10 % 10) as u8);
    out.push((48 + n / 1 % 10) as u8);
    assert(out@ =~= old(out)@ + ten_digits(n as nat));
}

/// The clipboard data for the HTML fragment `fragment`. A fragment too
/// long for offsets of ten digits is refused with `InvalidHtmlOffsets`.
pub fn wrap_html(fragment: &[u8]) -> (out: Result<Vec<u8>, ClipboardError>)
    ensures
        fragment@.len() <= MAX_FRAGMENT ==> out is Ok && out.unwrap()@ == html_format(fragment@),
        fragment@.len() > MAX_FRAGMENT ==> out == Err::<Vec<u8>, ClipboardError>(
            ClipboardError::InvalidHtmlOffsets,
        ),
{
    if fragment.len() as u64 > MAX_FRAGMENT {
        return Err(ClipboardError::InvalidHtmlOffsets);
    }
    let n: u64 = fragment.len() as u64;
    let mut out: Vec<u8> = Vec::new();
    append_bytes(&mut out, lead_bytes().as_slice());
    push_ten_digits(&mut out, DOCUMENT_START as u64);
    append_bytes(&mut out, end_html_field_bytes().as_slice());
    push_ten_digits(&mut out, OVERHEAD as u64 + n);
    append_bytes(&mut out, start_fragment_field_bytes().as_slice());
    push_ten_digits(&mut out, FRAGMENT_START as u64);
    append_bytes(&mut out, end_fragment_field_bytes().as_slice());
    push_ten_digits(&mut out, FRAGMENT_START as u64 + n);
    append_bytes(&mut out, opening_bytes().as_slice());
    assert(out@ =~= head(fragment@.len()));
    append_bytes(&mut out, fragment);
    append_bytes(&mut out, closing_bytes().as_slice());
    Ok(out)
}

fn equal_at(data: &[u8], key: &[u8], at: usize) -> (same: bool)
    requires
        at + key@.len() <= data@.len(),
    ensures
        same == matches_at(data@, key@, at as int),
{
    let total: usize = data.len();
    let mut i: usize = 0;
    while i < key.len()
        invariant
            0 <= i <= key@.len(),
            at + key@.len() <= data@.len() == total,
            forall|j: int| 0 <= j < i ==> data@[at + j] == key@[j],
        decreases key@.len() - i,
    {
        if data[at + i] != key[i] {
            assert(data@.subrange(at as int, at + key@.len())[i as int] == data@[at + i]);
            return false;
        }
        i += 1;
    }
    assert(data@.subrange(at as int, at + key@.len()) =~= key@);
    true
}

/// The first position at which `key` stands in `data`.
pub fn find(data: &[u8], key: &[u8]) -> (out: Option<usize>)
    ensures
        match first_match_from(data@, key@, 0) {
            Some(at) => out == Some(at as usize) && 0 <= at && at + key@.len() <= data@.len(),
            None => out is None,
        },
{
    if key.len() > data.len() {
        return None;
    }
    let last: usize = data.len() - key.len();
    let mut at: usize = 0;
    while at <= last
        invariant
            0 <= at <= last + 1,
            last == data@.len() - key@.len(),
            first_match_from(data@, key@, 0) == first_match_from(data@, key@, at as int),
        decreases last + 1 - at,
    {
        if equal_at(data, key, at) {
            return Some(at);
        }
        if at == last {
            return None;
        }
        at += 1;
    }
    None
}

fn digit_here(data: &[u8], at: usize) -> (yes: bool)
    ensures
        yes == has_digit(data@, at as int),
{
    at < data.len() && data[at] >= 48 && data[at] <= 57
}

/// A run of digits writes at least the value it was continued from.
pub proof fn lemma_number_grows(data: Seq<u8>, at: int, so_far: nat)
    ensures
        number_from(data, at, so_far) >= so_far,
    decreases data.len() - at,
{
    if has_digit(data, at) {
        lemma_number_grows(data, at + 1, so_far * 10 + (data[at] - 48) as nat);
    }
}

/// The number written at `at`, where a digit stands there and the number
/// does not exceed the length of the data.
fn offset_at(data: &[u8], at: usize) -> (out: Option<usize>)
    ensures
        match out {
            Some(value) => has_digit(data@, at as int) && value == number_from(data@, at as int, 0)
                && value <= data@.len(),
            None => !has_digit(data@, at as int) || number_from(data@, at as int, 0) > data@.len(),
        },
{
    if !digit_here(data, at) {
        return None;
    }
    let mut i: usize = at;
    let mut value: usize = 0;
    let mut more: bool = true;
    while more
        invariant
            at <= i <= data@.len(),
            more == has_digit(data@, i as int),
            value <= data@.len(),
            number_from(data@, at as int, 0) == number_from(data@, i as int, value as nat),
        decreases data@.len() - i,
    {
        let digit: u128 = (data[i] - 48) as u128;
        let next: u128 = (value as u128) * 10 + digit;
        if next > data.len() as u128 {
            proof {
                lemma_number_grows(data@, i + 1, next as nat);
            }
            return None;
        }
        value = next as usize;
        i += 1;
        more = digit_here(data, i);
    }
    Some(value)
}

fn named_offset(data: &[u8], key: &[u8]) -> (out: Option<usize>)
    ensures
        match out {
            Some(value) => offset_named(data@, key@) == Some(value as nat) && value <= data@.len(),
            None => match offset_named(data@, key@) {
                Some(value) => value > data@.len(),
                None => true,
            },
        },
{
    let total: usize = data.len();
    match find(data, key) {
        Some(at) => {
            assert(at + key@.len() <= total);
            offset_at(data, at + key.len())
        },
        None => None,
    }
}

/// The fragment that the clipboard data `data` holds. Data whose header
/// does not say validly where the fragment stands is refused with
/// `InvalidHtmlOffsets`.
pub fn extract_fragment(data: &[u8]) -> (out: Result<Vec<u8>, ClipboardError>)
    ensures
        match fragment_range(data@) {
            Some((start, end)) => out is Ok && out.unwrap()@ == data@.subrange(start, end),
            None => out == Err::<Vec<u8>, ClipboardError>(ClipboardError::InvalidHtmlOffsets),
        },
{
    let start = match named_offset(data, start_key_bytes().as_slice()) {
        Some(start) => start,
        None => {
            return Err(ClipboardError::InvalidHtmlOffsets);
        },
    };
    let end = match named_offset(data, end_key_bytes().as_slice()) {
        Some(end) => end,
        None => {
            return Err(ClipboardError::InvalidHtmlOffsets);
        },
    };
    if start > end {
        return Err(ClipboardError::InvalidHtmlOffsets);
    }
    let mut out: Vec<u8> = Vec::new();
    let mut i: usize = start;
    assert(out@ =~= data@.subrange(start as int, i as int));
    while i < end
        invariant
            start <= i <= end <= data@.len(),
            out@ == data@.subrange(start as int, i as int),
        decreases end - i,
    {
        out.push(data[i]);
        i += 1;
        assert(out@ =~= data@.subrange(start as int, i as int));
    }
    Ok(out)
}

/// The first match of `key` at or after `from` is at `at` when `key`
/// stands there and nowhere between.
pub proof fn lemma_first_match(data: Seq<u8>, key: Seq<u8>, from: int, at: int)
    requires
        0 <= from <= at,
        matches_at(data, key, at),
        forall|p: int| from <= p < at ==> !matches_at(data, key, p),
    ensures
        first_match_from(data, key, from) == Some(at),
    decreases at - from,
{
    if from < at {
        lemma_first_match(data, key, from + 1, at);
    }
}

/// Each decimal place of a number continues the places above it.
proof fn lemma_places(n: nat)
    requires
        n <= 9_999_999_999,
    ensures
        n / 1_000_000_000 < 10,
        n / 100_000_000 == n / 1_000_000_000 * 10 + n / 100_000_000 % 10,
        n / 10_000_000 == n / 100_000_000 * 10 + n / 10_000_000 % 10,
        n / 1_000_000 == n / 10_000_000 * 10 + n / 1_000_000 % 10,
        n / 100_000 == n / 1_000_000 * 10 + n / 100_000 % 10,
        n / 10_000 == n / 100_000 * 10 + n / 10_000 % 10,
        n / 1_000 == n / 10_000 * 10 + n / 1_000 % 10,
        n / 100 == n / 1_000 * 10 + n / 100 % 10,
        n / 10 == n / 100 * 10 + n / 10 % 10,
        n / 1 == n / 10 * 10 + n / 1 % 10,
{
}

/// One digit continues the number read so far.
proof fn lemma_digit_step(data: Seq<u8>, at: int, above: nat, place: nat)
    requires
        0 <= at < data.len(),
        data[at] == (48 + place % 10) as u8,
        place == above * 10 + place % 10,
    ensures
        has_digit(data, at),
        number_from(data, at, above) == number_from(data, at + 1, place),
{
    assert((data[at] - 48) as nat == place % 10);
}

/// Ten digits followed by something else write the number they were made
/// from.
pub proof fn lemma_ten_digits_read_back(data: Seq<u8>, at: int, n: nat)
    requires
        n <= 9_999_999_999,
        0 <= at,
        at + 10 <= data.len(),
        data.subrange(at, at + 10) == ten_digits(n),
        !has_digit(data, at + 10),
    ensures
        has_digit(data, at),
        number_from(data, at, 0) == n,
{
    let digits = ten_digits(n);
    assert forall|i: int| 0 <= i < 10 implies data[at + i] == #[trigger] digits[i] by {
        assert(data.subrange(at, at + 10)[i] == data[at + i]);
    }
    assert(digits[0] == digit_at(n, 1_000_000_000));
    assert(digits[1] == digit_at(n, 100_000_000));
    assert(digits[2] == digit_at(n, 10_000_000));
    assert(digits[3] == digit_at(n, 1_000_000));
    assert(digits[4] == digit_at(n, 100_000));
    assert(digits[5] == digit_at(n, 10_000));
    assert(digits[6] == digit_at(n, 1_000));
    assert(digits[7] == digit_at(n, 100));
    assert(digits[8] == digit_at(n, 10));
    assert(digits[9] == digit_at(n, 1));
    lemma_places(n);
    lemma_digit_step(data, at, 0, n / 1_000_000_000);
    lemma_digit_step(data, at + 1, n / 1_000_000_000, n / 100_000_000);
    lemma_digit_step(data, at + 2, n / 100_000_000, n / 10_000_000);
    lemma_digit_step(data, at + 3, n / 10_000_000, n / 1_000_000);
    lemma_digit_step(data, at + 4, n / 1_000_000, n / 100_000);
    lemma_digit_step(data, at + 5, n / 100_000, n / 10_000);
    lemma_digit_step(data, at + 6, n / 10_000, n / 1_000);
    lemma_digit_step(data, at + 7, n / 1_000, n / 100);
    lemma_digit_step(data, at + 8, n / 100, n / 10);
    lemma_digit_step(data, at + 9, n / 10, n / 1);
    assert(number_from(data, at + 10, n) == n);
}

/// Every byte of ten digits is a digit.
pub proof fn lemma_ten_digits_are_digits(n: nat)
    ensures
        ten_digits(n).len() == 10,
        forall|i: int| 0 <= i < 10 ==> is_digit(#[trigger] ten_digits(n)[i]),
{
}

/// Where the letters stand that the field names begin with.
proof fn lemma_landmarks()
    ensures
        lead().len() == 23,
        forall|p: int| 0 <= p < 23 && #[trigger] lead()[p] == 83 ==> p == 13,
        forall|p: int| 0 <= p < 23 ==> #[trigger] lead()[p] != 69,
        lead()[18] == 72,
        end_html_field().len() == 10,
        forall|p: int| 0 <= p < 10 ==> #[trigger] end_html_field()[p] != 83,
        forall|p: int| 0 <= p < 10 && #[trigger] end_html_field()[p] == 69 ==> p == 2,
        end_html_field()[5] == 72,
        start_fragment_field().len() == 16,
        start_fragment_field().subrange(2, 16) == start_key(),
        forall|p: int| 0 <= p < 16 ==> #[trigger] start_fragment_field()[p] != 69,
        !is_digit(start_fragment_field()[0]),
        end_fragment_field().len() == 14,
        end_fragment_field().subrange(2, 14) == end_key(),
        !is_digit(end_fragment_field()[0]),
        opening().len() == 36,
        !is_digit(opening()[0]),
        closing().len() == 34,
        start_key().len() == 14,
        start_key()[0] == 83,
        start_key()[5] == 70,
        end_key().len() == 12,
        end_key()[0] == 69,
        end_key()[3] == 70,
{
    assert(start_fragment_field().subrange(2, 16) =~= start_key());
    assert(end_fragment_field().subrange(2, 14) =~= end_key());
}

/// Reading undoes writing: in the data written for a fragment the header
/// names exactly the place of the fragment, and the bytes there are the
/// fragment.
pub proof fn lemma_html_round_trip(fragment: Seq<u8>)
    requires
        fragment.len() <= MAX_FRAGMENT,
    ensures
        fragment_range(html_format(fragment)) == Some(
            (FRAGMENT_START as int, FRAGMENT_START + fragment.len()),
        ),
        html_format(fragment).subrange(FRAGMENT_START as int, FRAGMENT_START + fragment.len())
            == fragment,
{
    let n = fragment.len();
    let data = html_format(fragment);
    let d1 = ten_digits(DOCUMENT_START as nat);
    let d2 = ten_digits((OVERHEAD + n) as nat);
    let d3 = ten_digits(FRAGMENT_START as nat);
    let d4 = ten_digits((FRAGMENT_START + n) as nat);
    lemma_landmarks();
    lemma_ten_digits_are_digits(DOCUMENT_START as nat);
    lemma_ten_digits_are_digits((OVERHEAD + n) as nat);
    lemma_ten_digits_are_digits(FRAGMENT_START as nat);
    lemma_ten_digits_are_digits((FRAGMENT_START + n) as nat);
    let s1 = lead() + d1;
    let s2 = s1 + end_html_field();
    let s3 = s2 + d2;
    let s4 = s3 + start_fragment_field();
    let s5 = s4 + d3;
    let s6 = s5 + end_fragment_field();
    let s7 = s6 + d4;
    let s8 = s7 + opening();
    assert(s8 == head(n));
    assert(s8.len() == 139);
    assert(data.len() == 173 + n);
    assert forall|p: int| 0 <= p < 139 implies data[p] == s8[p] by {}
    assert forall|p: int| 0 <= p < 23 implies #[trigger] data[p] == lead()[p] by {}
    assert forall|p: int| 23 <= p < 33 implies #[trigger] data[p] == d1[p - 23] by {}
    assert forall|p: int| 33 <= p < 43 implies #[trigger] data[p] == end_html_field()[p - 33] by {}
    assert forall|p: int| 43 <= p < 53 implies #[trigger] data[p] == d2[p - 43] by {}
    assert forall|p: int| 53 <= p < 69 implies #[trigger] data[p] == start_fragment_field()[p
        - 53] by {}
    assert forall|p: int| 69 <= p < 79 implies #[trigger] data[p] == d3[p - 69] by {}
    assert forall|p: int| 79 <= p < 93 implies #[trigger] data[p] == end_fragment_field()[p
        - 79] by {}
    assert forall|p: int| 93 <= p < 103 implies #[trigger] data[p] == d4[p - 93] by {}
    assert(data[103] == opening()[0]);

    assert(data.subrange(55, 69) =~= start_key()) by {
        assert forall|i: int| 0 <= i < 14 implies data.subrange(55, 69)[i] == start_key()[i] by {
            assert(start_fragment_field().subrange(2, 16)[i] == start_fragment_field()[i + 2]);
        }
    }
    assert forall|p: int| 0 <= p < 55 implies !matches_at(data, start_key(), p) by {
        if matches_at(data, start_key(), p) {
            assert(data.subrange(p, p + 14)[0] == data[p]);
            assert(data.subrange(p, p + 14)[5] == data[p + 5]);
            assert(data[p] == 83);
            assert(data[p + 5] == 70);
            if p < 23 {
                assert(lead()[p] == 83);
            } else if p < 33 {
                assert(is_digit(d1[p - 23]));
            } else if p < 43 {
                assert(end_html_field()[p - 33] == 83);
            } else if p < 53 {
                assert(is_digit(d2[p - 43]));
            } else {
                assert(start_fragment_field()[p - 53] == 83);
                assert(start_fragment_field().subrange(2, 16)[0] == start_fragment_field()[2]);
            }
        }
    }
    lemma_first_match(data, start_key(), 0, 55);
    assert(data.subrange(69, 79) =~= d3);
    lemma_ten_digits_read_back(data, 69, FRAGMENT_START as nat);

    assert(data.subrange(81, 93) =~= end_key()) by {
        assert forall|i: int| 0 <= i < 12 implies data.subrange(81, 93)[i] == end_key()[i] by {
            assert(end_fragment_field().subrange(2, 14)[i] == end_fragment_field()[i + 2]);
        }
    }
    assert forall|p: int| 0 <= p < 81 implies !matches_at(data, end_key(), p) by {
        if matches_at(data, end_key(), p) {
            assert(data.subrange(p, p + 12)[0] == data[p]);
            assert(data.subrange(p, p + 12)[3] == data[p + 3]);
            assert(data[p] == 69);
            assert(data[p + 3] == 70);
            if p < 23 {
                assert(lead()[p] == 69);
            } else if p < 33 {
                assert(is_digit(d1[p - 23]));
            } else if p < 43 {
                assert(end_html_field()[p - 33] == 69);
            } else if p < 53 {
                assert(is_digit(d2[p - 43]));
            } else if p < 69 {
                assert(start_fragment_field()[p - 53] == 69);
            } else if p < 79 {
                assert(is_digit(d3[p - 69]));
            } else {
                assert(end_fragment_field()[p - 79] == 69);
                assert(end_fragment_field().subrange(2, 14)[0] == end_fragment_field()[2]);
                assert(end_fragment_field().subrange(2, 14)[3] == end_fragment_field()[5]);
            }
        }
    }
    lemma_first_match(data, end_key(), 0, 81);
    assert(data.subrange(93, 103) =~= d4);
    lemma_ten_digits_read_back(data, 93, (FRAGMENT_START + n) as nat);
    assert(data.subrange(FRAGMENT_START as int, FRAGMENT_START + n) =~= fragment);
}

} // verus!
