//! A file as the editor knows it: its path, the name it is shown under,
//! and its extension.

use vstd::prelude::*;
use crate::strings::{byte_len, lowercase_of, same_text, to_lowercase};

verus! {

/// A file's path with the two parts of it that the editor reads. Two
/// values name the same file when their paths are the same text.
#[derive(Debug)]
pub struct DocPath {
    /// The whole path.
    pub path: String,
    /// The last component of the path, where it has one.
    pub file_name: Option<String>,
    /// What follows the last dot of the file name, where it has one.
    pub extension: Option<String>,
}

/// A [`DocPath`] as plain texts.
pub struct DocPathView {
    pub path: Seq<char>,
    pub file_name: Option<Seq<char>>,
    pub extension: Option<Seq<char>>,
}

impl View for DocPath {
    type V = DocPathView;

    open spec fn view(&self) -> DocPathView {
        DocPathView {
            path: self.path@,
            file_name: match self.file_name {
                Some(n) => Some(n@),
                None => None,
            },
            extension: match self.extension {
                Some(e) => Some(e@),
                None => None,
            },
        }
    }
}

impl DocPath {
    /// A second value with the same three texts.
    pub fn duplicate(&self) -> (d: DocPath)
        ensures
            d@ == self@,
    {
        DocPath {
            path: self.path.clone(),
            file_name: match &self.file_name {
                Some(n) => Some(n.clone()),
                None => None,
            },
            extension: match &self.extension {
                Some(e) => Some(e.clone()),
                None => None,
            },
        }
    }

    /// Whether `other` names the same file.
    pub fn same_file(&self, other: &DocPath) -> (r: bool)
        ensures
            r == (self@.path == other@.path),
    {
        same_text(self.path.as_str(), other.path.as_str())
    }

    /// The width of the file's tab: its name, or `New` where it has none,
    /// between two blanks, with a star behind the name when `unsaved`.
    pub fn tab_label_len(&self, unsaved: bool) -> (n: usize)
        ensures
            n == capped_label(self@.label_len(unsaved)),
    {
        let name_len: usize = match &self.file_name {
            Some(n) => n.as_str().as_bytes().len(),
            None => 3,
        };
        let mark: usize = if unsaved { 3 } else { 2 };
        if name_len > usize::MAX - mark {
            usize::MAX
        } else {
            name_len + mark
        }
    }
}

impl DocPathView {
    /// The width of the file's tab in bytes.
    pub open spec fn label_len(self, unsaved: bool) -> nat {
        let name = match self.file_name {
            Some(n) => byte_len(n),
            None => 3,
        };
        name + 2 + if unsaved { 1nat } else { 0nat }
    }

    /// Whether the file is an image by its extension.
    pub open spec fn is_image(self) -> bool {
        match self.extension {
            Some(e) => image_extension(lowercase_of(e)),
            None => false,
        }
    }
}

/// A width brought down to what a `usize` holds.
pub open spec fn capped_label(n: nat) -> usize {
    if n <= usize::MAX {
        n as usize
    } else {
        usize::MAX
    }
}

/// The extensions, in lowercase, of the images that can be shown.
pub open spec fn image_extension(lowered: Seq<char>) -> bool {
    lowered == "png"@ || lowered == "jpg"@ || lowered == "jpeg"@ || lowered == "gif"@ || lowered
        == "webp"@
}

/// Whether `lowered`, an extension in lowercase, is that of an image that
/// can be shown.
pub fn is_image_extension(lowered: &str) -> (r: bool)
    ensures
        r == image_extension(lowered@),
{
    same_text(lowered, "png") || same_text(lowered, "jpg") || same_text(lowered, "jpeg")
        || same_text(lowered, "gif") || same_text(lowered, "webp")
}

/// Whether the file is an image that can be shown: its extension, whatever
/// its case, is one of `png`, `jpg`, `jpeg`, `gif`, `webp`.
pub fn is_image_file(path: &DocPath) -> (r: bool)
    ensures
        r == path@.is_image(),
{
    match &path.extension {
        Some(e) => {
            let lowered = to_lowercase(e.as_str());
            is_image_extension(lowered.as_str())
        },
        None => false,
    }
}

} // verus!
