//! The normalized content model: format tags and the payloads that carry
//! clipboard data between a caller and a platform backend.

use vstd::prelude::*;
use vstd::std_specs::cmp::PartialEqSpecImpl;
use crate::error::ClipboardError;

verus! {

/// The kinds of content the clipboard can hold.
#[derive(Debug)]
pub enum ContentFormat {
    /// Plain text, in UTF-8.
    Text,
    /// Rich text.
    Rtf,
    /// An HTML fragment.
    Html,
    /// An image, as a PNG file.
    Image,
    /// A list of file paths, one per line.
    Files,
    /// Content that only its name describes.
    Custom(String),
}

/// The mathematical value of a [`ContentFormat`]: a custom format is
/// identified by the characters of its name.
pub enum FormatTag {
    Text,
    Rtf,
    Html,
    Image,
    Files,
    Custom(Seq<char>),
}

impl View for ContentFormat {
    type V = FormatTag;

    open spec fn view(&self) -> FormatTag {
        match self {
            ContentFormat::Text => FormatTag::Text,
            ContentFormat::Rtf => FormatTag::Rtf,
            ContentFormat::Html => FormatTag::Html,
            ContentFormat::Image => FormatTag::Image,
            ContentFormat::Files => FormatTag::Files,
            ContentFormat::Custom(name) => FormatTag::Custom(name@),
        }
    }
}

impl Clone for ContentFormat {
    fn clone(&self) -> (out: Self)
        ensures
            out@ == self@,
    {
        match self {
            ContentFormat::Text => ContentFormat::Text,
            ContentFormat::Rtf => ContentFormat::Rtf,
            ContentFormat::Html => ContentFormat::Html,
            ContentFormat::Image => ContentFormat::Image,
            ContentFormat::Files => ContentFormat::Files,
            ContentFormat::Custom(name) => ContentFormat::Custom(name.clone()),
        }
    }
}

impl PartialEq for ContentFormat {
    fn eq(&self, other: &Self) -> (same: bool) {
        match self {
            ContentFormat::Text => matches!(other, ContentFormat::Text),
            ContentFormat::Rtf => matches!(other, ContentFormat::Rtf),
            ContentFormat::Html => matches!(other, ContentFormat::Html),
            ContentFormat::Image => matches!(other, ContentFormat::Image),
            ContentFormat::Files => matches!(other, ContentFormat::Files),
            ContentFormat::Custom(a) => match other {
                ContentFormat::Custom(b) => {
                    let same = *a == *b;
                    assert(same == (a@ == b@));
                    same
                },
                _ => false,
            },
        }
    }
}

impl PartialEqSpecImpl for ContentFormat {
    open spec fn obeys_eq_spec() -> bool {
        true
    }

    open spec fn eq_spec(&self, other: &Self) -> bool {
        self@ == other@
    }
}

impl Eq for ContentFormat {

}

/// One clipboard entry: content bytes tagged with their format.
#[derive(Debug)]
pub struct ClipboardPayload {
    pub format: ContentFormat,
    pub bytes: Vec<u8>,
}

/// The mathematical value of a [`ClipboardPayload`].
pub struct PayloadModel {
    pub format: FormatTag,
    pub bytes: Seq<u8>,
}

impl View for ClipboardPayload {
    type V = PayloadModel;

    open spec fn view(&self) -> PayloadModel {
        PayloadModel { format: self.format@, bytes: self.bytes@ }
    }
}

/// A copy of `bytes`.
pub fn copy_bytes(bytes: &Vec<u8>) -> (out: Vec<u8>)
    ensures
        out@ == bytes@,
{
    let out = bytes.clone();
    assert(out@ =~= bytes@);
    out
}

impl Clone for ClipboardPayload {
    fn clone(&self) -> (out: Self)
        ensures
            out@ == self@,
    {
        ClipboardPayload { format: self.format.clone(), bytes: copy_bytes(&self.bytes) }
    }
}

impl ClipboardPayload {
    /// A payload of `format` that carries `bytes`.
    pub fn new(format: ContentFormat, bytes: Vec<u8>) -> (out: ClipboardPayload)
        ensures
            out.format == format,
            out.bytes == bytes,
    {
        ClipboardPayload { format, bytes }
    }
}

/// The values of a sequence of payloads, in order.
pub open spec fn models(payloads: Seq<ClipboardPayload>) -> Seq<PayloadModel> {
    payloads.map_values(|p: ClipboardPayload| p@)
}

/// The characters of each of `strings`.
pub open spec fn texts(strings: Seq<String>) -> Seq<Seq<char>> {
    strings.map_values(|s: String| s@)
}

/// The values of a sequence of formats, as a set.
pub open spec fn tag_set(formats: Seq<ContentFormat>) -> Set<FormatTag> {
    Set::new(|t: FormatTag| exists|i: int| 0 <= i < formats.len() && #[trigger] formats[i]@ == t)
}

/// Whether some payload of `contents` has the format `tag`.
pub open spec fn offers(contents: Seq<PayloadModel>, tag: FormatTag) -> bool {
    exists|i: int| 0 <= i < contents.len() && #[trigger] contents[i].format == tag
}

/// The payloads of `contents` whose format is in `wanted`, in their stored
/// order (most preferred first).
pub open spec fn selection(contents: Seq<PayloadModel>, wanted: Set<FormatTag>) -> Seq<
    PayloadModel,
> {
    contents.filter(|p: PayloadModel| wanted.contains(p.format))
}

/// Whether `format` is one of `formats`.
pub fn format_listed(formats: &Vec<ContentFormat>, format: &ContentFormat) -> (found: bool)
    ensures
        found == tag_set(formats@).contains(format@),
{
    let mut i: usize = 0;
    while i < formats.len()
        invariant
            i <= formats.len(),
            forall|j: int| 0 <= j < i ==> formats[j]@ != format@,
        decreases formats.len() - i,
    {
        if formats[i] == *format {
            return true;
        }
        i += 1;
    }
    false
}

/// Whether some payload of `payloads` has the format `format`.
pub fn has_format(payloads: &Vec<ClipboardPayload>, format: &ContentFormat) -> (found: bool)
    ensures
        found == offers(models(payloads@), format@),
{
    let mut i: usize = 0;
    while i < payloads.len()
        invariant
            i <= payloads.len(),
            forall|j: int| 0 <= j < i ==> #[trigger] models(payloads@)[j].format != format@,
        decreases payloads.len() - i,
    {
        if payloads[i].format == *format {
            assert(models(payloads@)[i as int].format == format@);
            return true;
        }
        i += 1;
    }
    false
}

/// Copies of the payloads whose format is one of `formats`, in stored order.
pub fn select_formats(payloads: &Vec<ClipboardPayload>, formats: &Vec<ContentFormat>) -> (out: Vec<
    ClipboardPayload,
>)
    ensures
        models(out@) == selection(models(payloads@), tag_set(formats@)),
{
    let mut out: Vec<ClipboardPayload> = Vec::new();
    let ghost wanted = tag_set(formats@);
    let ghost keep = |p: PayloadModel| wanted.contains(p.format);
    let mut i: usize = 0;
    assert(models(payloads@).take(0) =~= Seq::<PayloadModel>::empty());
    assert(models(out@) =~= Seq::<PayloadModel>::empty());
    while i < payloads.len()
        invariant
            i <= payloads.len(),
            wanted == tag_set(formats@),
            keep == (|p: PayloadModel| wanted.contains(p.format)),
            models(out@) == models(payloads@).take(i as int).filter(keep),
        decreases payloads.len() - i,
    {
        let ghost before = models(out@);
        let listed = format_listed(formats, &payloads[i].format);
        proof {
            let all = models(payloads@);
            assert(all.take(i as int + 1) =~= all.take(i as int).push(all[i as int]));
            lemma_filter_push(all.take(i as int), all[i as int], keep);
        }
        if listed {
            out.push(payloads[i].clone());
            assert(models(out@) =~= before.push(payloads@[i as int]@));
        }
        i += 1;
    }
    assert(models(payloads@).take(i as int) =~= models(payloads@));
    out
}

/// Filtering a sequence extended by one element keeps that element exactly
/// when the predicate holds of it.
pub proof fn lemma_filter_push<A>(s: Seq<A>, a: A, pred: spec_fn(A) -> bool)
    ensures
        s.push(a).filter(pred) == if pred(a) {
            s.filter(pred).push(a)
        } else {
            s.filter(pred)
        },
{
    reveal(Seq::filter);
    assert(s.push(a).drop_last() =~= s);
}

/// Appends `more` to `out`.
pub fn append_bytes(out: &mut Vec<u8>, more: &[u8])
    ensures
        final(out)@ == old(out)@ + more@,
{
    let mut i: usize = 0;
    assert(out@ =~= old(out)@ + more@.take(0));
    while i < more.len()
        invariant
            0 <= i <= more@.len(),
            out@ == old(out)@ + more@.take(i as int),
        decreases more@.len() - i,
    {
        out.push(more[i]);
        i += 1;
        assert(out@ =~= old(out)@ + more@.take(i as int));
    }
    assert(more@.take(i as int) =~= more@);
}

/// The bytes of the first payload of `contents` that has the format `tag`.
pub open spec fn first_of(contents: Seq<PayloadModel>, tag: FormatTag) -> Option<Seq<u8>>
    decreases contents.len(),
{
    if contents.len() == 0 {
        None
    } else if contents[0].format == tag {
        Some(contents[0].bytes)
    } else {
        first_of(contents.skip(1), tag)
    }
}

/// A first payload of a format exists exactly when the format is offered.
pub proof fn lemma_first_of_offers(contents: Seq<PayloadModel>, tag: FormatTag)
    ensures
        first_of(contents, tag) is Some <==> offers(contents, tag),
    decreases contents.len(),
{
    if contents.len() > 0 {
        if contents[0].format == tag {
        } else {
            let rest = contents.skip(1);
            lemma_first_of_offers(rest, tag);
            if offers(rest, tag) {
                let i = choose|i: int| 0 <= i < rest.len() && #[trigger] rest[i].format == tag;
                assert(contents[i + 1].format == tag);
            }
            if offers(contents, tag) {
                let i = choose|i: int| 0 <= i < contents.len() && #[trigger] contents[i].format
                    == tag;
                assert(rest[i - 1].format == tag);
            }
        }
    }
}

/// A copy of the bytes of the first payload that has the format `format`.
pub fn first_bytes(payloads: &Vec<ClipboardPayload>, format: &ContentFormat) -> (out: Option<
    Vec<u8>,
>)
    ensures
        match first_of(models(payloads@), format@) {
            Some(bytes) => out is Some && out.unwrap()@ == bytes,
            None => out is None,
        },
{
    let ghost all = models(payloads@);
    let mut i: usize = 0;
    assert(all.skip(0) =~= all);
    while i < payloads.len()
        invariant
            0 <= i <= payloads.len(),
            all == models(payloads@),
            first_of(all, format@) == first_of(all.skip(i as int), format@),
        decreases payloads.len() - i,
    {
        assert(all.skip(i as int)[0] == all[i as int]);
        if payloads[i].format == *format {
            return Some(copy_bytes(&payloads[i].bytes));
        }
        assert(all.skip(i as int).skip(1) =~= all.skip(i + 1));
        i += 1;
    }
    None
}

/// Whether `payloads` can be written at all: a write without any payload
/// is refused with `EmptyContent`.
pub fn check_payloads(payloads: &Vec<ClipboardPayload>) -> (out: Result<(), ClipboardError>)
    ensures
        payloads@.len() > 0 ==> out == Ok::<(), ClipboardError>(()),
        payloads@.len() == 0 ==> out == Err::<(), ClipboardError>(ClipboardError::EmptyContent),
{
    if payloads.len() == 0 {
        Err(ClipboardError::EmptyContent)
    } else {
        Ok(())
    }
}

} // verus!
