//! One imported PDF and what is known of it.

use vstd::prelude::*;
use crate::text::text_of;

verus! {

/// The glyph shown beside a file.
#[derive(Clone, Copy, Debug, PartialEq, Eq, Structural)]
pub enum Icon {
    /// The file is, or may be, restricted.
    Locked,
    /// The file is free of restrictions.
    Unlocked,
}

/// The short label shown for a file.
#[derive(Clone, Copy, Debug, PartialEq, Eq, Structural)]
pub enum Status {
    /// The probe found the file encrypted.
    Restricted,
    /// The probe found the file not encrypted.
    Unrestricted,
    /// The probe could not tell.
    Unknown,
    /// An unlocked copy was written.
    Unlocked,
    /// The attempt to unlock the file failed.
    UnlockFailed,
}

impl Icon {
    /// The glyph as text.
    pub open spec fn glyph_text(self) -> Seq<char> {
        match self {
            Icon::Locked => "🔒"@,
            Icon::Unlocked => "🔓"@,
        }
    }

    /// The glyph as text.
    pub fn glyph(self) -> (s: &'static str)
        ensures
            s@ == self.glyph_text(),
    {
        match self {
            Icon::Locked => "🔒",
            Icon::Unlocked => "🔓",
        }
    }
}

impl Status {
    /// The label as text.
    pub open spec fn label_text(self) -> Seq<char> {
        match self {
            Status::Restricted => "加密受限"@,
            Status::Unrestricted => "未受限"@,
            Status::Unknown => "未知"@,
            Status::Unlocked => "解锁成功"@,
            Status::UnlockFailed => "解锁失败"@,
        }
    }

    /// The label as text.
    pub fn label(self) -> (s: &'static str)
        ensures
            s@ == self.label_text(),
    {
        match self {
            Status::Restricted => "加密受限",
            Status::Unrestricted => "未受限",
            Status::Unknown => "未知",
            Status::Unlocked => "解锁成功",
            Status::UnlockFailed => "解锁失败",
        }
    }
}

/// One imported PDF.
#[derive(Clone, Debug, PartialEq, Eq)]
pub struct FileEntry {
    /// The path of the file that was imported.
    pub path: String,
    /// The glyph that reflects what is known of the file's restrictions.
    pub icon: Icon,
    /// The label shown for the file.
    pub status: Status,
    /// Whether the last attempt to unlock the file succeeded, once there was one.
    pub unlock_result: Option<bool>,
    /// The path of the unlocked copy, once one was written.
    pub output_path: Option<String>,
}

/// A [`FileEntry`] as plain values.
pub struct EntryModel {
    pub path: Seq<char>,
    pub icon: Icon,
    pub status: Status,
    pub unlock_result: Option<bool>,
    pub output_path: Option<Seq<char>>,
}

impl View for FileEntry {
    type V = EntryModel;

    open spec fn view(&self) -> EntryModel {
        EntryModel {
            path: self.path@,
            icon: self.icon,
            status: self.status,
            unlock_result: self.unlock_result,
            output_path: text_of(self.output_path),
        }
    }
}

/// The entry of a file that was just imported, given what the encryption
/// probe said of it. A file of which the probe could not tell is shown locked.
pub open spec fn imported(path: Seq<char>, encrypted: Option<bool>) -> EntryModel {
    EntryModel {
        path,
        icon: if encrypted == Some(false) {
            Icon::Unlocked
        } else {
            Icon::Locked
        },
        status: match encrypted {
            Some(true) => Status::Restricted,
            Some(false) => Status::Unrestricted,
            None => Status::Unknown,
        },
        unlock_result: None,
        output_path: None,
    }
}

/// A copy of an optional text.
pub fn clone_text(text: &Option<String>) -> (copy: Option<String>)
    ensures
        text_of(copy) == text_of(*text),
{
    match text {
        Some(s) => Some(s.clone()),
        None => None,
    }
}

impl FileEntry {
    /// The entry of a file that was just imported.
    pub fn new(path: String, encrypted: Option<bool>) -> (entry: FileEntry)
        ensures
            entry@ == imported(path@, encrypted),
    {
        let (icon, status) = match encrypted {
            Some(true) => (Icon::Locked, Status::Restricted),
            Some(false) => (Icon::Unlocked, Status::Unrestricted),
            None => (Icon::Locked, Status::Unknown),
        };
        FileEntry { path, icon, status, unlock_result: None, output_path: None }
    }

    /// Whether the entry's row offers to open the unlocked copy: it does
    /// once a copy is named.
    pub fn can_open(&self) -> (r: bool)
        ensures
            r == (self@.output_path is Some),
    {
        self.output_path.is_some()
    }

    /// A copy of the entry.
    pub fn duplicate(&self) -> (copy: FileEntry)
        ensures
            copy@ == self@,
    {
        FileEntry {
            path: self.path.clone(),
            icon: self.icon,
            status: self.status,
            unlock_result: self.unlock_result,
            output_path: clone_text(&self.output_path),
        }
    }
}

/// The file to open for an entry: the unlocked copy where one was written
/// and is still there, else the file that was imported.
pub fn open_entry(entry: &FileEntry, output_exists: bool) -> (path: &String)
    ensures
        path@ == match entry.output_path {
            Some(out) => if output_exists {
                out@
            } else {
                entry.path@
            },
            None => entry.path@,
        },
{
    match &entry.output_path {
        Some(out) => if output_exists {
            out
        } else {
            &entry.path
        },
        None => &entry.path,
    }
}

} // verus!
