//! The clipboard as one process sees it: what is published, who published
//! it, and a token that changes with every change of content.
//!
//! Writes replace the whole content at once, so a reader never sees part of
//! an old write beside part of a new one, and a refused write changes
//! nothing. Payload bytes are kept and returned as they are: no line
//! ending and no character set is changed on the way.

use vstd::prelude::*;
use crate::codec::png_encoding;
use crate::content::{
    first_bytes,
    first_of,
    has_format,
    lemma_first_of_offers,
    lemma_filter_push,
    models,
    offers,
    select_formats,
    selection,
    tag_set,
    ClipboardPayload,
    ContentFormat,
    FormatTag,
    PayloadModel,
};
use crate::error::ClipboardError;
use crate::files::{paths, reads_as};
use crate::image_data::{decoder_gives, rgba_image, ImageData, PixelFormat};

verus! {

/// Who published the present content.
#[derive(Debug, Clone, Copy, PartialEq, Eq, Structural)]
pub enum Owner {
    /// No one: the clipboard is empty.
    Nobody,
    /// This process.
    This,
    /// Another process.
    Other,
}

/// The mathematical value of a context.
pub struct ContextModel {
    pub contents: Seq<PayloadModel>,
    pub owner: Owner,
    pub token: u64,
}

/// The token that follows `token`. It differs from `token`, also where the
/// counter starts over.
pub open spec fn next_token(token: u64) -> u64 {
    if token == u64::MAX {
        0
    } else {
        (token + 1) as u64
    }
}

impl ContextModel {
    /// The context with nothing published.
    pub open spec fn empty() -> ContextModel {
        ContextModel { contents: Seq::empty(), owner: Owner::Nobody, token: 0 }
    }

    /// The context after this process published `payloads`.
    pub open spec fn after_set(self, payloads: Seq<PayloadModel>) -> ContextModel {
        if payloads.len() == 0 {
            self
        } else {
            ContextModel { contents: payloads, owner: Owner::This, token: next_token(self.token) }
        }
    }

    /// The context after the content was cleared.
    pub open spec fn after_clear(self) -> ContextModel {
        ContextModel {
            contents: Seq::empty(),
            owner: Owner::Nobody,
            token: next_token(self.token),
        }
    }

    /// The context after another process took the clipboard over and
    /// published `payloads`.
    pub open spec fn after_takeover(self, payloads: Seq<PayloadModel>) -> ContextModel {
        ContextModel { contents: payloads, owner: Owner::Other, token: next_token(self.token) }
    }

    /// What a read of the formats `wanted` returns: the matching payloads in
    /// stored order, or `None` when there is none.
    pub open spec fn read(self, wanted: Set<FormatTag>) -> Option<Seq<PayloadModel>> {
        let found = selection(self.contents, wanted);
        if found.len() == 0 {
            None
        } else {
            Some(found)
        }
    }
}

/// The clipboard content as this process knows it.
#[derive(Debug)]
pub struct ClipboardContext {
    contents: Vec<ClipboardPayload>,
    owner: Owner,
    token: u64,
}

impl View for ClipboardContext {
    type V = ContextModel;

    closed spec fn view(&self) -> ContextModel {
        ContextModel { contents: models(self.contents@), owner: self.owner, token: self.token }
    }
}

impl ClipboardContext {
    /// A context with nothing published.
    pub fn new() -> (out: ClipboardContext)
        ensures
            out@ == ContextModel::empty(),
    {
        let out = ClipboardContext { contents: Vec::new(), owner: Owner::Nobody, token: 0 };
        assert(models(out.contents@) =~= Seq::<PayloadModel>::empty());
        out
    }

    /// The context of a clipboard that the platform has or has not let
    /// this process open: a clipboard that could not be opened gives
    /// `OpenFailed`.
    pub fn open(opened: bool) -> (out: Result<ClipboardContext, ClipboardError>)
        ensures
            opened ==> out is Ok && out.unwrap()@ == ContextModel::empty(),
            !opened ==> out == Err::<ClipboardContext, ClipboardError>(ClipboardError::OpenFailed),
    {
        if opened {
            Ok(ClipboardContext::new())
        } else {
            Err(ClipboardError::OpenFailed)
        }
    }

    /// Whether content of `format` is available.
    pub fn has(&self, format: &ContentFormat) -> (found: bool)
        ensures
            found == offers(self@.contents, format@),
    {
        has_format(&self.contents, format)
    }

    /// The payloads whose format is one of `formats`, most preferred first.
    /// Fails with `FormatNotAvailable` when none of the formats is present.
    pub fn get(&self, formats: &Vec<ContentFormat>) -> (out: Result<
        Vec<ClipboardPayload>,
        ClipboardError,
    >)
        ensures
            match self@.read(tag_set(formats@)) {
                Some(found) => out is Ok && models(out.unwrap()@) == found,
                None => out == Err::<Vec<ClipboardPayload>, ClipboardError>(
                    ClipboardError::FormatNotAvailable,
                ),
            },
    {
        let found = select_formats(&self.contents, formats);
        if found.len() == 0 {
            Err(ClipboardError::FormatNotAvailable)
        } else {
            Ok(found)
        }
    }

    /// Publishes `payloads` in place of the present content; this process
    /// becomes the owner. An empty sequence is refused with `EmptyContent`
    /// and changes nothing.
    pub fn set(&mut self, payloads: Vec<ClipboardPayload>) -> (out: Result<(), ClipboardError>)
        ensures
            final(self)@ == old(self)@.after_set(models(payloads@)),
            payloads@.len() == 0 ==> out == Err::<(), ClipboardError>(ClipboardError::EmptyContent),
            payloads@.len() > 0 ==> out == Ok::<(), ClipboardError>(()),
    {
        if payloads.len() == 0 {
            return Err(ClipboardError::EmptyContent);
        }
        self.contents = payloads;
        self.owner = Owner::This;
        self.token = advance(self.token);
        Ok(())
    }

    /// Removes all content. Afterwards nobody owns the clipboard.
    pub fn clear(&mut self)
        ensures
            final(self)@ == old(self)@.after_clear(),
    {
        self.contents = Vec::new();
        self.owner = Owner::Nobody;
        self.token = advance(self.token);
        assert(models(self.contents@) =~= Seq::<PayloadModel>::empty());
    }

    /// Another process took the clipboard over and published `payloads`.
    /// What this process had published is forgotten.
    pub fn taken_over(&mut self, payloads: Vec<ClipboardPayload>)
        ensures
            final(self)@ == old(self)@.after_takeover(models(payloads@)),
    {
        self.contents = payloads;
        self.owner = Owner::Other;
        self.token = advance(self.token);
    }

    /// A copy of the bytes of the most preferred payload of `format`.
    pub fn first(&self, format: &ContentFormat) -> (out: Option<Vec<u8>>)
        ensures
            match first_of(self@.contents, format@) {
                Some(bytes) => out is Some && out.unwrap()@ == bytes,
                None => out is None,
            },
    {
        first_bytes(&self.contents, format)
    }

    /// The formats of the published payloads, most preferred first.
    pub fn formats(&self) -> (out: Vec<ContentFormat>)
        ensures
            out@.len() == self@.contents.len(),
            forall|i: int| 0 <= i < out@.len() ==> (#[trigger] out@[i])@ == self@.contents[i].format,
    {
        let mut out: Vec<ContentFormat> = Vec::new();
        let mut i: usize = 0;
        while i < self.contents.len()
            invariant
                0 <= i <= self.contents.len(),
                out@.len() == i,
                forall|j: int| 0 <= j < i ==> (#[trigger] out@[j])@ == self.contents@[j].format@,
            decreases self.contents.len() - i,
        {
            out.push(self.contents[i].format.clone());
            i += 1;
        }
        out
    }

    /// Publishes `image` as the only content, as a PNG file. Where the
    /// codec refuses the image, its error comes back as `ImageLibraryError`
    /// and nothing changes.
    pub fn set_image(&mut self, image: &ImageData) -> (out: Result<(), ClipboardError>)
        ensures
            match png_encoding(image@.width, image@.height, image@.rgba()) {
                Some(bytes) => {
                    &&& out == Ok::<(), ClipboardError>(())
                    &&& final(self)@ == old(self)@.after_set(
                        seq![PayloadModel { format: FormatTag::Image, bytes }],
                    )
                    &&& offers(final(self)@.contents, FormatTag::Image)
                },
                None => out matches Err(e) && e is ImageLibraryError && final(self)@ == old(self)@,
            },
    {
        match image.to_png() {
            Ok(bytes) => {
                let mut payloads: Vec<ClipboardPayload> = Vec::new();
                payloads.push(ClipboardPayload::new(ContentFormat::Image, bytes));
                assert(models(payloads@) =~= seq![
                    PayloadModel { format: FormatTag::Image, bytes: bytes@ },
                ]);
                assert(models(payloads@)[0].format == FormatTag::Image);
                self.set(payloads)
            },
            Err(e) => Err(e),
        }
    }

    /// What the decoding of an image payload means to a reader: the image,
    /// or `InvalidImageData` where the payload is no image.
    pub fn image_from(decoded: Result<ImageData, ClipboardError>) -> (out: Result<
        ImageData,
        ClipboardError,
    >)
        ensures
            match decoded {
                Ok(image) => out == Ok::<ImageData, ClipboardError>(image),
                Err(_) => out == Err::<ImageData, ClipboardError>(ClipboardError::InvalidImageData),
            },
    {
        match decoded {
            Ok(image) => Ok(image),
            Err(_) => Err(ClipboardError::InvalidImageData),
        }
    }

    /// Whether `out` is what a read of the image among `contents` gives
    /// when the codec answers the decoding of the most preferred image
    /// payload with `answer`: `NoImageData` where no image is offered, the
    /// decoded image where the pixels fit their size, and
    /// `InvalidImageData` otherwise.
    pub open spec fn reads_image(
        contents: Seq<PayloadModel>,
        answer: Result<(u32, u32, Vec<u8>), ::image::ImageError>,
        out: Result<ImageData, ClipboardError>,
    ) -> bool {
        if first_of(contents, FormatTag::Image) is None {
            out == Err::<ImageData, ClipboardError>(ClipboardError::NoImageData)
        } else {
            match answer {
                Ok((width, height, pixels)) => if pixels@.len() == width * height * 4 {
                    out is Ok && out.unwrap()@ == rgba_image(width as nat, height as nat, pixels@)
                } else {
                    out == Err::<ImageData, ClipboardError>(ClipboardError::InvalidImageData)
                },
                Err(_) => out == Err::<ImageData, ClipboardError>(ClipboardError::InvalidImageData),
            }
        }
    }

    /// The most preferred image on the clipboard, decoded. Fails with
    /// `NoImageData` when no image is offered and with `InvalidImageData`
    /// when the payload cannot be decoded. What the codec answers is not
    /// known here: the result is what follows from some answer.
    pub fn get_image(&self) -> (out: Result<ImageData, ClipboardError>)
        ensures
            exists|answer: Result<(u32, u32, Vec<u8>), ::image::ImageError>|
                #[trigger] Self::reads_image(self@.contents, answer, out),
            !offers(self@.contents, FormatTag::Image) <==> out == Err::<ImageData, ClipboardError>(
                ClipboardError::NoImageData,
            ),
            out matches Ok(image) ==> image@.format == PixelFormat::Rgba8 && image@.wf(),
            out matches Err(e) ==> e == ClipboardError::NoImageData || e
                == ClipboardError::InvalidImageData,
    {
        proof {
            lemma_first_of_offers(self@.contents, FormatTag::Image);
        }
        match self.first(&ContentFormat::Image) {
            None => {
                let out = Err(ClipboardError::NoImageData);
                assert(Self::reads_image(self@.contents, arbitrary(), out));
                out
            },
            Some(bytes) => {
                let decoded = ImageData::from_bytes(bytes.as_slice());
                let ghost answer = choose|answer: Result<(u32, u32, Vec<u8>), ::image::ImageError>|
                    decoder_gives(answer, decoded);
                let out = Self::image_from(decoded);
                assert(Self::reads_image(self@.contents, answer, out));
                out
            },
        }
    }

    /// Settles who owns the clipboard after a write: `owner` is the window
    /// that the platform names as the owner, `window` is this process's
    /// own. Where another window owns the clipboard the write has not gone
    /// through: what this process had published is forgotten and
    /// `OwnershipFailed` comes back.
    pub fn confirm_owner(&mut self, owner: u32, window: u32) -> (out: Result<(), ClipboardError>)
        ensures
            owner == window ==> out == Ok::<(), ClipboardError>(()) && final(self)@ == old(self)@,
            owner != window ==> out == Err::<(), ClipboardError>(ClipboardError::OwnershipFailed)
                && final(self)@ == old(self)@.after_takeover(Seq::empty()),
    {
        if owner == window {
            Ok(())
        } else {
            self.taken_over(Vec::new());
            assert(models(Seq::<ClipboardPayload>::empty()) =~= Seq::<PayloadModel>::empty());
            Err(ClipboardError::OwnershipFailed)
        }
    }

    /// Clears the content once the platform has said whether it let the
    /// clipboard go: where it did not, nothing changes and `ClearFailed`
    /// comes back.
    pub fn release(&mut self, released: bool) -> (out: Result<(), ClipboardError>)
        ensures
            released ==> out == Ok::<(), ClipboardError>(()) && final(self)@
                == old(self)@.after_clear(),
            !released ==> out == Err::<(), ClipboardError>(ClipboardError::ClearFailed)
                && final(self)@ == old(self)@,
    {
        if released {
            self.clear();
            Ok(())
        } else {
            Err(ClipboardError::ClearFailed)
        }
    }

    /// The paths of the most preferred file list on the clipboard. Fails
    /// with `NoFileData` when no file list is offered or the list holds no
    /// path, and with `StringConversionError` when a path is not text.
    pub fn get_files(&self) -> (out: Result<Vec<String>, ClipboardError>)
        ensures
            match first_of(self@.contents, FormatTag::Files) {
                Some(bytes) => reads_as(bytes, out),
                None => out == Err::<Vec<String>, ClipboardError>(ClipboardError::NoFileData),
            },
    {
        match self.first(&ContentFormat::Files) {
            None => Err(ClipboardError::NoFileData),
            Some(bytes) => paths(bytes.as_slice()),
        }
    }

    /// Who published the present content.
    pub fn owner(&self) -> (owner: Owner)
        ensures
            owner == self@.owner,
    {
        self.owner
    }

    /// A value that changes whenever the content changes.
    pub fn change_token(&self) -> (token: u64)
        ensures
            token == self@.token,
    {
        self.token
    }
}

/// The token that follows `token`.
pub fn advance(token: u64) -> (next: u64)
    ensures
        next == next_token(token),
        next != token,
{
    if token == u64::MAX {
        0
    } else {
        token + 1
    }
}

/// Selecting from a sequence by a set that holds the format of every
/// element returns the sequence itself.
pub proof fn lemma_selection_all(contents: Seq<PayloadModel>, wanted: Set<FormatTag>)
    requires
        forall|i: int| 0 <= i < contents.len() ==> wanted.contains(#[trigger] contents[i].format),
    ensures
        selection(contents, wanted) == contents,
    decreases contents.len(),
{
    let keep = |p: PayloadModel| wanted.contains(p.format);
    if contents.len() == 0 {
        assert(contents.filter(keep) =~= contents) by {
            reveal(Seq::filter);
        }
    } else {
        let front = contents.drop_last();
        lemma_selection_all(front, wanted);
        assert(contents =~= front.push(contents.last()));
        lemma_filter_push(front, contents.last(), keep);
    }
}

/// A selection is not empty exactly when one of the wanted formats is offered.
pub proof fn lemma_selection_offers(contents: Seq<PayloadModel>, wanted: Set<FormatTag>)
    ensures
        selection(contents, wanted).len() > 0 <==> exists|t: FormatTag|
            wanted.contains(t) && offers(contents, t),
    decreases contents.len(),
{
    let keep = |p: PayloadModel| wanted.contains(p.format);
    if contents.len() == 0 {
        reveal(Seq::filter);
    } else {
        let front = contents.drop_last();
        let last = contents.last();
        lemma_selection_offers(front, wanted);
        assert(contents =~= front.push(last));
        lemma_filter_push(front, last, keep);
        if selection(contents, wanted).len() > 0 {
            if keep(last) {
                assert(contents[contents.len() - 1].format == last.format);
                assert(wanted.contains(last.format) && offers(contents, last.format));
            } else {
                let t = choose|t: FormatTag| wanted.contains(t) && offers(front, t);
                let i = choose|i: int| 0 <= i < front.len() && #[trigger] front[i].format == t;
                assert(contents[i].format == t);
                assert(wanted.contains(t) && offers(contents, t));
            }
        }
        if exists|t: FormatTag| wanted.contains(t) && offers(contents, t) {
            let t = choose|t: FormatTag| wanted.contains(t) && offers(contents, t);
            let i = choose|i: int| 0 <= i < contents.len() && #[trigger] contents[i].format == t;
            if i < front.len() {
                assert(front[i].format == t);
                assert(wanted.contains(t) && offers(front, t));
            } else {
                assert(keep(last));
            }
        }
    }
}

/// Round trip: after a write of a payload sequence that is not empty, a
/// read that asks for every format of the sequence returns the sequence
/// itself, byte for byte and in the same order.
pub proof fn lemma_set_then_get(
    before: ContextModel,
    payloads: Seq<PayloadModel>,
    wanted: Set<FormatTag>,
)
    requires
        payloads.len() > 0,
        forall|i: int| 0 <= i < payloads.len() ==> wanted.contains(#[trigger] payloads[i].format),
    ensures
        before.after_set(payloads).read(wanted) == Some(payloads),
{
    lemma_selection_all(payloads, wanted);
}

/// An empty write is refused: it leaves the content, the owner and the
/// token as they were.
pub proof fn lemma_empty_set_changes_nothing(before: ContextModel)
    ensures
        before.after_set(Seq::empty()) == before,
{
}

/// After a write every format of the written payloads is offered, and
/// after a clear no format is offered and every read fails.
pub proof fn lemma_set_offers_clear_removes(
    before: ContextModel,
    payloads: Seq<PayloadModel>,
    i: int,
    tag: FormatTag,
    wanted: Set<FormatTag>,
)
    requires
        0 <= i < payloads.len(),
    ensures
        offers(before.after_set(payloads).contents, payloads[i].format),
        !offers(before.after_set(payloads).after_clear().contents, tag),
        before.after_set(payloads).after_clear().read(wanted) is None,
{
    let written = before.after_set(payloads);
    assert(written.contents[i].format == payloads[i].format);
    assert(selection(Seq::<PayloadModel>::empty(), wanted).len() == 0) by {
        reveal(Seq::filter);
    }
}

/// Loss of ownership: once another process has taken the clipboard over,
/// reads answer from what that process published and from nothing else.
/// A format that the new owner does not offer is not available, whatever
/// this process had written before.
pub proof fn lemma_takeover_hides_old_content(
    before: ContextModel,
    ours: Seq<PayloadModel>,
    theirs: Seq<PayloadModel>,
    wanted: Set<FormatTag>,
)
    ensures
        before.after_set(ours).after_takeover(theirs).owner == Owner::Other,
        before.after_set(ours).after_takeover(theirs).read(wanted) == (ContextModel {
            contents: theirs,
            owner: Owner::Other,
            token: 0,
        }).read(wanted),
        (forall|t: FormatTag| wanted.contains(t) ==> !offers(theirs, t)) ==> before.after_set(
            ours,
        ).after_takeover(theirs).read(wanted) is None,
{
    lemma_selection_offers(theirs, wanted);
}

/// Every change of content changes the token.
pub proof fn lemma_token_changes(before: ContextModel, payloads: Seq<PayloadModel>)
    ensures
        payloads.len() > 0 ==> before.after_set(payloads).token != before.token,
        before.after_clear().token != before.token,
        before.after_takeover(payloads).token != before.token,
{
}

} // verus!
