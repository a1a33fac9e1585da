//! File lists: the payload of the `Files` format is a list of paths in
//! UTF-8, one per line. A line ends at a line feed or a carriage return;
//! empty lines do not count.

use vstd::prelude::*;
use vstd::utf8::{decode_utf8, valid_utf8};
use crate::content::{copy_bytes, texts};
use crate::error::ClipboardError;

verus! {

/// Calls `String::from_utf8`: the bytes become a string exactly when they
/// are well-formed UTF-8, and the string then holds the characters that
/// they encode.
#[verifier::external_body]
pub(crate) fn text_of(bytes: Vec<u8>) -> (out: Result<String, std::string::FromUtf8Error>)
    ensures
        match out {
            Ok(text) => valid_utf8(bytes@) && text@ == decode_utf8(bytes@),
            Err(_) => !valid_utf8(bytes@),
        },
{
    String::from_utf8(bytes)
}

/// Whether `byte` ends a line.
pub open spec fn is_break(byte: u8) -> bool {
    byte == 10 || byte == 13
}

/// `line` as a sequence of lines: nothing when it is empty.
pub open spec fn closed_line(line: Seq<u8>) -> Seq<Seq<u8>> {
    if line.len() == 0 {
        Seq::empty()
    } else {
        seq![line]
    }
}

/// The lines of `bytes`, where `line` is the part of the present line that
/// has been read already.
pub open spec fn split_from(bytes: Seq<u8>, line: Seq<u8>) -> Seq<Seq<u8>>
    decreases bytes.len(),
{
    if bytes.len() == 0 {
        closed_line(line)
    } else if is_break(bytes[0]) {
        closed_line(line) + split_from(bytes.skip(1), Seq::empty())
    } else {
        split_from(bytes.skip(1), line.push(bytes[0]))
    }
}

/// The lines of `bytes` that are not empty, in order.
pub open spec fn split_lines(bytes: Seq<u8>) -> Seq<Seq<u8>> {
    split_from(bytes, Seq::empty())
}

/// The bytes of each of `lines`.
pub open spec fn line_bytes(lines: Seq<Vec<u8>>) -> Seq<Seq<u8>> {
    lines.map_values(|line: Vec<u8>| line@)
}

/// The lines of `bytes` that are not empty, in order.
pub fn lines(bytes: &[u8]) -> (out: Vec<Vec<u8>>)
    ensures
        line_bytes(out@) == split_lines(bytes@),
{
    let mut out: Vec<Vec<u8>> = Vec::new();
    let mut line: Vec<u8> = Vec::new();
    let mut i: usize = 0;
    assert(bytes@.skip(0) =~= bytes@);
    assert(line_bytes(out@) =~= Seq::<Seq<u8>>::empty());
    assert(line_bytes(out@) + split_from(bytes@.skip(0), line@) =~= split_lines(bytes@));
    while i < bytes.len()
        invariant
            0 <= i <= bytes@.len(),
            line_bytes(out@) + split_from(bytes@.skip(i as int), line@) == split_lines(bytes@),
        decreases bytes@.len() - i,
    {
        let ghost rest = bytes@.skip(i as int);
        let ghost before = line_bytes(out@);
        assert(rest[0] == bytes@[i as int]);
        assert(rest.skip(1) =~= bytes@.skip(i + 1));
        let ghost current = line@;
        let byte = bytes[i];
        if byte == 10 || byte == 13 {
            let ghost after = split_from(rest.skip(1), Seq::empty());
            if line.len() > 0 {
                out.push(line);
                line = Vec::new();
                assert(line_bytes(out@) =~= before + closed_line(current));
            }
            assert(line@ =~= Seq::<u8>::empty());
            assert((before + closed_line(current)) + after =~= before + (closed_line(current)
                + after));
        } else {
            line.push(byte);
        }
        i += 1;
    }
    assert(bytes@.skip(i as int) =~= Seq::<u8>::empty());
    let ghost before = line_bytes(out@);
    if line.len() > 0 {
        out.push(line);
        assert(line_bytes(out@) =~= before + closed_line(line@));
    }
    out
}

/// Whether every one of `lines` is well-formed UTF-8.
pub open spec fn all_text(lines: Seq<Seq<u8>>) -> bool {
    forall|i: int| 0 <= i < lines.len() ==> valid_utf8(#[trigger] lines[i])
}

/// The characters that each of `lines` encodes.
pub open spec fn decoded_lines(lines: Seq<Seq<u8>>) -> Seq<Seq<char>> {
    lines.map_values(|line: Seq<u8>| decode_utf8(line))
}

/// Whether `out` is the reading of the file list `bytes`: `NoFileData`
/// where it holds no path, the paths where every line is text, and
/// `StringConversionError` where a line is not.
pub open spec fn reads_as(bytes: Seq<u8>, out: Result<Vec<String>, ClipboardError>) -> bool {
    let found = split_lines(bytes);
    if found.len() == 0 {
        out == Err::<Vec<String>, ClipboardError>(ClipboardError::NoFileData)
    } else if all_text(found) {
        out is Ok && texts(out.unwrap()@) == decoded_lines(found)
    } else {
        out matches Err(e) && e is StringConversionError
    }
}

/// The paths that the file list `bytes` holds.
pub fn paths(bytes: &[u8]) -> (out: Result<Vec<String>, ClipboardError>)
    ensures
        reads_as(bytes@, out),
{
    let found = lines(bytes);
    if found.len() == 0 {
        return Err(ClipboardError::NoFileData);
    }
    let ghost wanted = split_lines(bytes@);
    let mut out: Vec<String> = Vec::new();
    let mut i: usize = 0;
    while i < found.len()
        invariant
            0 <= i <= found@.len(),
            wanted == split_lines(bytes@),
            line_bytes(found@) == wanted,
            out@.len() == i,
            forall|j: int| 0 <= j < i ==> valid_utf8(#[trigger] wanted[j]),
            forall|j: int| 0 <= j < i ==> (#[trigger] out@[j])@ == decode_utf8(wanted[j]),
        decreases found@.len() - i,
    {
        assert(line_bytes(found@)[i as int] == found@[i as int]@);
        match text_of(copy_bytes(&found[i])) {
            Ok(text) => {
                out.push(text);
            },
            Err(e) => {
                assert(!valid_utf8(wanted[i as int]));
                return Err(ClipboardError::StringConversionError(e));
            },
        }
        i += 1;
    }
    assert(wanted.len() == found@.len());
    assert(texts(out@) =~= decoded_lines(wanted));
    Ok(out)
}

} // verus!
