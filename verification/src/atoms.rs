//! The names under which content is offered on an X11 selection.
//!
//! Each format is transferred under one target name; a custom format is
//! transferred under its own name. `TARGETS` asks the owner for the list of
//! names it can deliver.

use vstd::prelude::*;
use crate::content::{ContentFormat, FormatTag};

verus! {

/// What a requester asks a selection owner for.
#[derive(Debug)]
pub enum Target {
    /// The list of targets that the owner can deliver.
    Targets,
    /// Content of one format.
    Content(ContentFormat),
}

/// The mathematical value of a [`Target`].
pub enum TargetTag {
    Targets,
    Content(FormatTag),
}

impl View for Target {
    type V = TargetTag;

    open spec fn view(&self) -> TargetTag {
        match self {
            Target::Targets => TargetTag::Targets,
            Target::Content(format) => TargetTag::Content(format@),
        }
    }
}

/// The target name under which content of the format `tag` is transferred.
pub open spec fn name_of(tag: FormatTag) -> Seq<char> {
    match tag {
        FormatTag::Text => "UTF8_STRING"@,
        FormatTag::Rtf => "text/rtf"@,
        FormatTag::Html => "text/html"@,
        FormatTag::Image => "image/png"@,
        FormatTag::Files => "text/uri-list"@,
        FormatTag::Custom(name) => name,
    }
}

/// Whether `name` is the target name of one of the built-in formats.
pub open spec fn built_in(name: Seq<char>) -> bool {
    name == "UTF8_STRING"@ || name == "text/rtf"@ || name == "text/html"@ || name
        == "image/png"@ || name == "text/uri-list"@
}

/// The format that is transferred under the target name `name`: a built-in
/// format for its own name, a custom format for every other name.
pub open spec fn format_named(name: Seq<char>) -> FormatTag {
    if name == "UTF8_STRING"@ {
        FormatTag::Text
    } else if name == "text/rtf"@ {
        FormatTag::Rtf
    } else if name == "text/html"@ {
        FormatTag::Html
    } else if name == "image/png"@ {
        FormatTag::Image
    } else if name == "text/uri-list"@ {
        FormatTag::Files
    } else {
        FormatTag::Custom(name)
    }
}

/// What the target name `name` asks for.
pub open spec fn target_named(name: Seq<char>) -> TargetTag {
    if name == "TARGETS"@ {
        TargetTag::Targets
    } else {
        TargetTag::Content(format_named(name))
    }
}

/// The target name under which content of `format` is transferred.
pub fn atom_name(format: &ContentFormat) -> (name: String)
    ensures
        name@ == name_of(format@),
{
    match format {
        ContentFormat::Text => String::from_str("UTF8_STRING"),
        ContentFormat::Rtf => String::from_str("text/rtf"),
        ContentFormat::Html => String::from_str("text/html"),
        ContentFormat::Image => String::from_str("image/png"),
        ContentFormat::Files => String::from_str("text/uri-list"),
        ContentFormat::Custom(name) => name.clone(),
    }
}

fn is_name(name: &String, literal: &str) -> (same: bool)
    ensures
        same == (name@ == literal@),
{
    let other = String::from_str(literal);
    *name == other
}

/// The format that is transferred under the target name `name`.
pub fn format_of_name(name: &String) -> (format: ContentFormat)
    ensures
        format@ == format_named(name@),
{
    if is_name(name, "UTF8_STRING") {
        ContentFormat::Text
    } else if is_name(name, "text/rtf") {
        ContentFormat::Rtf
    } else if is_name(name, "text/html") {
        ContentFormat::Html
    } else if is_name(name, "image/png") {
        ContentFormat::Image
    } else if is_name(name, "text/uri-list") {
        ContentFormat::Files
    } else {
        ContentFormat::Custom(name.clone())
    }
}

/// What the target name `name` asks for.
pub fn target_of_name(name: &String) -> (target: Target)
    ensures
        target@ == target_named(name@),
{
    if is_name(name, "TARGETS") {
        Target::Targets
    } else {
        Target::Content(format_of_name(name))
    }
}

/// The built-in target names differ from each other and from `TARGETS`.
pub proof fn lemma_names_distinct()
    ensures
        "UTF8_STRING"@ != "text/rtf"@,
        "UTF8_STRING"@ != "text/html"@,
        "UTF8_STRING"@ != "image/png"@,
        "UTF8_STRING"@ != "text/uri-list"@,
        "text/rtf"@ != "text/html"@,
        "text/rtf"@ != "image/png"@,
        "text/rtf"@ != "text/uri-list"@,
        "text/html"@ != "image/png"@,
        "text/html"@ != "text/uri-list"@,
        "image/png"@ != "text/uri-list"@,
        !built_in("TARGETS"@),
{
    reveal_strlit("UTF8_STRING");
    reveal_strlit("text/rtf");
    reveal_strlit("text/html");
    reveal_strlit("image/png");
    reveal_strlit("text/uri-list");
    reveal_strlit("TARGETS");
    assert("UTF8_STRING"@.len() == 11);
    assert("text/rtf"@.len() == 8);
    assert("text/html"@.len() == 9);
    assert("image/png"@.len() == 9);
    assert("text/uri-list"@.len() == 13);
    assert("TARGETS"@.len() == 7);
    assert("text/html"@[0] == 't');
    assert("image/png"@[0] == 'i');
}

/// A format is found again under its own target name, unless it is a
/// custom format that took the name of a built-in one.
pub proof fn lemma_name_round_trip(tag: FormatTag)
    requires
        tag matches FormatTag::Custom(name) ==> !built_in(name),
    ensures
        format_named(name_of(tag)) == tag,
        tag matches FormatTag::Custom(name) ==> name != "TARGETS"@ ==> target_named(name_of(tag))
            == TargetTag::Content(tag),
        !(tag is Custom) ==> target_named(name_of(tag)) == TargetTag::Content(tag),
{
    lemma_names_distinct();
}

/// The number that the four bytes of `bytes` at `at` write in the byte
/// order of the client: least significant byte first where `little` holds,
/// most significant first where it does not.
pub open spec fn word_at(bytes: Seq<u8>, at: int, little: bool) -> u32 {
    if little {
        (bytes[at] + 256 * bytes[at + 1] + 65536 * bytes[at + 2] + 16777216 * bytes[at + 3]) as u32
    } else {
        (bytes[at + 3] + 256 * bytes[at + 2] + 65536 * bytes[at + 1] + 16777216 * bytes[at]) as u32
    }
}

/// The atoms that a property of 32-bit items holds. Bytes behind the last
/// whole item do not count.
pub open spec fn atoms_in(bytes: Seq<u8>, little: bool) -> Seq<u32> {
    Seq::new(bytes.len() / 4, |i: int| word_at(bytes, 4 * i, little))
}

/// The atoms that a property of 32-bit items holds, as an answer to
/// `TARGETS` does.
pub fn atom_list(bytes: &[u8], little: bool) -> (out: Vec<u32>)
    ensures
        out@ == atoms_in(bytes@, little),
{
    let total: usize = bytes.len();
    let count: usize = total / 4;
    let mut out: Vec<u32> = Vec::new();
    let mut i: usize = 0;
    while i < count
        invariant
            0 <= i <= count,
            total == bytes@.len(),
            count == total / 4,
            out@.len() == i,
            forall|j: int| 0 <= j < i ==> out@[j] == word_at(bytes@, 4 * j, little),
        decreases count - i,
    {
        let at: usize = 4 * i;
        let a: u32 = bytes[at] as u32;
        let b: u32 = bytes[at + 1] as u32;
        let c: u32 = bytes[at + 2] as u32;
        let d: u32 = bytes[at + 3] as u32;
        let word: u32 = if little {
            a + 256 * b + 65536 * c + 16777216 * d
        } else {
            d + 256 * c + 65536 * b + 16777216 * a
        };
        out.push(word);
        i += 1;
    }
    assert(out@ =~= atoms_in(bytes@, little));
    out
}

/// Whether `atom` is one of `atoms`.
pub fn lists_atom(atoms: &Vec<u32>, atom: u32) -> (found: bool)
    ensures
        found == atoms@.contains(atom),
{
    let mut i: usize = 0;
    while i < atoms.len()
        invariant
            0 <= i <= atoms@.len(),
            forall|j: int| 0 <= j < i ==> atoms@[j] != atom,
        decreases atoms@.len() - i,
    {
        if atoms[i] == atom {
            return true;
        }
        i += 1;
    }
    false
}

} // verus!
