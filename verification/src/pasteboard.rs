//! What the macOS pasteboard is asked to do for one write.
//!
//! A write first clears the pasteboard, then declares the types of one
//! item and then sets that item's data, one representation for each
//! payload. The change count that the pasteboard reports afterwards is the
//! change token of the content.

use vstd::prelude::*;
use crate::content::{copy_bytes, ClipboardPayload, ContentFormat, FormatTag};
use crate::error::ClipboardError;

verus! {

/// One request to the pasteboard.
#[derive(Debug)]
pub enum PasteboardStep {
    /// Remove every item.
    ClearContents,
    /// Declare the types of the item that is about to be written, most
    /// preferred first.
    DeclareTypes(Vec<String>),
    /// Set the data of one representation of the item.
    SetData { kind: String, bytes: Vec<u8> },
}

/// The mathematical value of a [`PasteboardStep`].
pub enum StepModel {
    ClearContents,
    DeclareTypes(Seq<Seq<char>>),
    SetData { kind: Seq<char>, bytes: Seq<u8> },
}

impl View for PasteboardStep {
    type V = StepModel;

    open spec fn view(&self) -> StepModel {
        match self {
            PasteboardStep::ClearContents => StepModel::ClearContents,
            PasteboardStep::DeclareTypes(kinds) => StepModel::DeclareTypes(
                kinds@.map_values(|kind: String| kind@),
            ),
            PasteboardStep::SetData { kind, bytes } => StepModel::SetData {
                kind: kind@,
                bytes: bytes@,
            },
        }
    }
}

/// The pasteboard type of the content format `tag`.
pub open spec fn type_of(tag: FormatTag) -> Seq<char> {
    match tag {
        FormatTag::Text => "public.utf8-plain-text"@,
        FormatTag::Rtf => "public.rtf"@,
        FormatTag::Html => "public.html"@,
        FormatTag::Image => "public.png"@,
        FormatTag::Files => "public.file-url"@,
        FormatTag::Custom(name) => name,
    }
}

/// The pasteboard type of `format`.
pub fn pasteboard_type(format: &ContentFormat) -> (kind: String)
    ensures
        kind@ == type_of(format@),
{
    match format {
        ContentFormat::Text => String::from_str("public.utf8-plain-text"),
        ContentFormat::Rtf => String::from_str("public.rtf"),
        ContentFormat::Html => String::from_str("public.html"),
        ContentFormat::Image => String::from_str("public.png"),
        ContentFormat::Files => String::from_str("public.file-url"),
        ContentFormat::Custom(name) => name.clone(),
    }
}

/// The requests for a write of `payloads`: clear, declare the type of
/// every payload, then set the data of each in turn.
pub open spec fn steps_for(payloads: Seq<ClipboardPayload>) -> Seq<StepModel> {
    seq![
        StepModel::ClearContents,
        StepModel::DeclareTypes(payloads.map_values(|p: ClipboardPayload| type_of(p@.format))),
    ] + payloads.map_values(
        |p: ClipboardPayload| StepModel::SetData { kind: type_of(p@.format), bytes: p@.bytes },
    )
}

/// The values of `steps`, in order.
pub open spec fn step_models(steps: Seq<PasteboardStep>) -> Seq<StepModel> {
    steps.map_values(|step: PasteboardStep| step@)
}

/// The requests for a write of `payloads`. An empty sequence is refused
/// with `EmptyContent`, before anything is cleared.
pub fn write_steps(payloads: &Vec<ClipboardPayload>) -> (out: Result<
    Vec<PasteboardStep>,
    ClipboardError,
>)
    ensures
        payloads@.len() == 0 ==> out == Err::<Vec<PasteboardStep>, ClipboardError>(
            ClipboardError::EmptyContent,
        ),
        payloads@.len() > 0 ==> out is Ok && step_models(out.unwrap()@) == steps_for(payloads@),
{
    if payloads.len() == 0 {
        return Err(ClipboardError::EmptyContent);
    }
    let ghost wanted = steps_for(payloads@);
    let mut kinds: Vec<String> = Vec::new();
    let mut i: usize = 0;
    while i < payloads.len()
        invariant
            0 <= i <= payloads@.len(),
            kinds@.len() == i,
            forall|j: int| 0 <= j < i ==> (#[trigger] kinds@[j])@ == type_of(payloads@[j]@.format),
        decreases payloads@.len() - i,
    {
        kinds.push(pasteboard_type(&payloads[i].format));
        i += 1;
    }
    let mut steps: Vec<PasteboardStep> = Vec::new();
    steps.push(PasteboardStep::ClearContents);
    let declare = PasteboardStep::DeclareTypes(kinds);
    assert(declare@ == wanted[1]) by {
        assert(kinds@.map_values(|kind: String| kind@) =~= payloads@.map_values(
            |p: ClipboardPayload| type_of(p@.format),
        ));
    }
    steps.push(declare);
    let mut k: usize = 0;
    while k < payloads.len()
        invariant
            0 <= k <= payloads@.len(),
            wanted == steps_for(payloads@),
            steps@.len() == k + 2,
            forall|j: int| 0 <= j < steps@.len() ==> (#[trigger] steps@[j])@ == wanted[j],
        decreases payloads@.len() - k,
    {
        let step = PasteboardStep::SetData {
            kind: pasteboard_type(&payloads[k].format),
            bytes: copy_bytes(&payloads[k].bytes),
        };
        assert(step@ == wanted[k + 2]);
        steps.push(step);
        k += 1;
    }
    assert(step_models(steps@) =~= wanted);
    Ok(steps)
}

/// What the pasteboard's answer to a request means: a refusal, which the
/// pasteboard describes in words, is a pasteboard error with those words.
pub fn step_outcome(answer: Result<(), String>) -> (out: Result<(), ClipboardError>)
    ensures
        match answer {
            Ok(()) => out == Ok::<(), ClipboardError>(()),
            Err(text) => out == Err::<(), ClipboardError>(
                ClipboardError::MacOsPasteboardError(text),
            ),
        },
{
    match answer {
        Ok(()) => Ok(()),
        Err(text) => Err(ClipboardError::MacOsPasteboardError(text)),
    }
}

/// What the pasteboard's data for one type means to a read: a type
/// without data is a format that is not available.
pub fn read_outcome(data: Option<Vec<u8>>) -> (out: Result<Vec<u8>, ClipboardError>)
    ensures
        match data {
            Some(bytes) => out == Ok::<Vec<u8>, ClipboardError>(bytes),
            None => out == Err::<Vec<u8>, ClipboardError>(ClipboardError::FormatNotAvailable),
        },
{
    match data {
        Some(bytes) => Ok(bytes),
        None => Err(ClipboardError::FormatNotAvailable),
    }
}

} // verus!
