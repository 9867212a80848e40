//! What an operation asks to have done to the file it was given the
//! content of.

use vstd::prelude::*;

verus! {

/// A change to a text file, decided from its content.
#[derive(Debug, PartialEq, Eq)]
pub enum FileAction {
    /// The file stays as it is.
    Keep,
    /// The text is written after the end of the file.
    Append(String),
    /// The text becomes the whole content of the file.
    Replace(String),
}

/// A `FileAction` with its texts as character sequences.
pub enum FileChange {
    Keep,
    Append(Seq<char>),
    Replace(Seq<char>),
}

impl FileChange {
    /// The content of the file after the change, where `content` was its
    /// content before.
    pub open spec fn apply(self, content: Seq<char>) -> Seq<char> {
        match self {
            FileChange::Keep => content,
            FileChange::Append(text) => content + text,
            FileChange::Replace(text) => text,
        }
    }
}

impl View for FileAction {
    type V = FileChange;

    open spec fn view(&self) -> FileChange {
        match self {
            FileAction::Keep => FileChange::Keep,
            FileAction::Append(text) => FileChange::Append(text@),
            FileAction::Replace(text) => FileChange::Replace(text@),
        }
    }
}

impl FileAction {
    /// The content of the file after the change, where `content` was its
    /// content before.
    pub fn apply(&self, content: &str) -> (after: String)
        ensures
            after@ == self@.apply(content@),
    {
        match self {
            FileAction::Keep => content.to_owned(),
            FileAction::Append(text) => {
                let mut after = content.to_owned();
                after.append(text.as_str());
                after
            },
            FileAction::Replace(text) => text.clone(),
        }
    }

    /// Whether the change leaves the file as it is.
    pub fn is_keep(&self) -> (r: bool)
        ensures
            r == (self@ == FileChange::Keep),
    {
        match self {
            FileAction::Keep => true,
            _ => false,
        }
    }
}

/// What an operation found, and what is to be done to the file.
#[derive(Debug, PartialEq, Eq)]
pub struct Report<O> {
    pub outcome: O,
    pub action: FileAction,
}

} // verus!
