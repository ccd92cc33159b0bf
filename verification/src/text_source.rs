//! The text that the overlay shows: the content of the newest text file of a
//! directory, or a message that says why there is none.
//!
//! The program lists the directory and reads the file. Which file is read,
//! and what is shown in place of a file, is decided here.

use vstd::prelude::*;
use vstd::string::*;

verus! {

/// One entry of the directory listing.
#[derive(Clone, Debug)]
pub struct FileEntry {
    /// The path of the entry.
    pub path: String,
    /// When the entry was last modified, in nanoseconds since the start of
    /// 1970 (negative before it), or `None` where the time is not known.
    pub modified: Option<i128>,
}

/// Whether `path` ends in `.txt`.
pub open spec fn has_text_suffix(path: Seq<char>) -> bool {
    path.len() >= 4 && path.subrange(path.len() - 4, path.len() as int) == seq!['.', 't', 'x', 't']
}

/// Whether an entry can be chosen at all: a text file whose modification
/// time is known, however old it is.
pub open spec fn eligible(entry: FileEntry) -> bool {
    &&& has_text_suffix(entry.path@)
    &&& entry.modified.is_some()
}

/// Whether the entry at `index` is the one to show: it can be chosen, none
/// that can be chosen is newer, and none before it is as new.
pub open spec fn is_latest(entries: Seq<FileEntry>, index: int) -> bool {
    &&& 0 <= index < entries.len()
    &&& eligible(entries[index])
    &&& forall|j: int|
        0 <= j < entries.len() && eligible(#[trigger] entries[j]) ==> entries[j].modified.unwrap()
            <= entries[index].modified.unwrap()
    &&& forall|j: int|
        0 <= j < index && eligible(#[trigger] entries[j]) ==> entries[j].modified.unwrap()
            < entries[index].modified.unwrap()
}

/// Whether `path` ends in `.txt`.
pub fn is_text_file(path: &str) -> (found: bool)
    ensures
        found == has_text_suffix(path@),
{
    let n = path.unicode_len();
    if n < 4 {
        return false;
    }
    let found = path.get_char(n - 4) == '.' && path.get_char(n - 3) == 't' && path.get_char(n - 2)
        == 'x' && path.get_char(n - 1) == 't';
    proof {
        let tail = path@.subrange(n - 4, n as int);
        let suffix = seq!['.', 't', 'x', 't'];
        assert(tail[0] == path@[n - 4] && tail[1] == path@[n - 3] && tail[2] == path@[n - 2]
            && tail[3] == path@[n - 1]);
        if found {
            assert(tail =~= suffix);
        } else {
            assert(tail[0] != suffix[0] || tail[1] != suffix[1] || tail[2] != suffix[2] || tail[3]
                != suffix[3]);
        }
    }
    found
}

/// Chooses the text file that was modified last. Among files modified at the
/// same instant the first in the listing is chosen. `None` means that the
/// listing holds no text file that can be chosen.
pub fn select_latest(entries: &Vec<FileEntry>) -> (chosen: Option<usize>)
    ensures
        match chosen {
            Some(index) => is_latest(entries@, index as int),
            None => forall|j: int| 0 <= j < entries@.len() ==> !eligible(#[trigger] entries@[j]),
        },
{
    let mut chosen: Option<usize> = None;
    let mut latest: i128 = 0;
    let mut i: usize = 0;
    while i < entries.len()
        invariant
            i <= entries.len(),
            match chosen {
                Some(index) => {
                    &&& is_latest(entries@.take(i as int), index as int)
                    &&& latest == entries@[index as int].modified.unwrap()
                },
                None => forall|j: int| 0 <= j < i ==> !eligible(#[trigger] entries@[j]),
            },
        decreases entries.len() - i,
    {
        let ghost before = entries@.take(i as int);
        let ghost after = entries@.take(i + 1);
        proof {
            assert forall|j: int| 0 <= j < i implies #[trigger] after[j] == before[j] by {}
            assert(after[i as int] == entries@[i as int]);
        }
        let entry = &entries[i];
        let mut newer = false;
        if is_text_file(entry.path.as_str()) {
            match entry.modified {
                Some(time) => {
                    if chosen.is_none() || time > latest {
                        newer = true;
                        latest = time;
                    }
                },
                None => {},
            }
        }
        if newer {
            proof {
                assert forall|j: int| 0 <= j < after.len() && eligible(#[trigger] after[j]) implies after[j].modified.unwrap()
                    <= entries@[i as int].modified.unwrap() by {
                    if j < i {
                        assert(after[j] == before[j]);
                        if chosen.is_none() {
                            assert(!eligible(entries@[j]));
                        }
                    }
                }
                assert forall|j: int| 0 <= j < i && eligible(#[trigger] after[j]) implies after[j].modified.unwrap()
                    < entries@[i as int].modified.unwrap() by {
                    assert(after[j] == before[j]);
                    if chosen.is_none() {
                        assert(!eligible(entries@[j]));
                    }
                }
            }
            chosen = Some(i);
        } else {
            proof {
                match chosen {
                    Some(index) => {
                        assert(after[index as int] == before[index as int]);
                        assert forall|j: int| 0 <= j < after.len() && eligible(#[trigger] after[j]) implies after[j].modified.unwrap()
                            <= after[index as int].modified.unwrap() by {
                            if j < i {
                                assert(after[j] == before[j]);
                            }
                        }
                        assert forall|j: int| 0 <= j < index && eligible(#[trigger] after[j]) implies after[j].modified.unwrap()
                            < after[index as int].modified.unwrap() by {
                            assert(after[j] == before[j]);
                        }
                    },
                    None => {},
                }
            }
        }
        i += 1;
    }
    proof {
        assert(entries@.take(i as int) =~= entries@);
    }
    chosen
}

/// How the search for the text ended.
#[derive(Clone, Debug)]
pub enum TextOutcome {
    /// The working directory could not be found out; `reason` says why.
    NoDirectory { reason: String },
    /// The directory holds no text file that can be chosen.
    NoFile,
    /// The chosen file could not be read; `reason` says why.
    Unreadable { reason: String },
    /// The chosen file was read.
    Loaded { content: String },
}

/// What the overlay shows for an outcome: the content of the file, or a
/// message in its place.
pub open spec fn shown_text(outcome: TextOutcome) -> Seq<char> {
    match outcome {
        TextOutcome::NoDirectory { reason } => "Error getting current directory: "@ + reason@,
        TextOutcome::NoFile => "No .txt files found in this directory.\nCreate one and restart."@,
        TextOutcome::Unreadable { reason } => "Error reading file: "@ + reason@,
        TextOutcome::Loaded { content } => content@,
    }
}

/// The text to show for an outcome.
pub fn display_text(outcome: TextOutcome) -> (text: String)
    ensures
        text@ == shown_text(outcome),
{
    match outcome {
        TextOutcome::NoDirectory { reason } => String::from_str(
            "Error getting current directory: ",
        ).concat(reason.as_str()),
        TextOutcome::NoFile => String::from_str(
            "No .txt files found in this directory.\nCreate one and restart.",
        ),
        TextOutcome::Unreadable { reason } => String::from_str("Error reading file: ").concat(
            reason.as_str(),
        ),
        TextOutcome::Loaded { content } => content,
    }
}

} // verus!
