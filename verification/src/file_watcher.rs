//! The decisions of the file watcher: which file to read and watch, and
//! when to start watching it.
use vstd::prelude::*;

use crate::text::{append_str, opt_view};

verus! {

/// A request to the file watcher: follow this file, or none.
pub enum FileWatcherMessage {
    FilePath(Option<String>),
}

/// Why a job's output could not be shown.
pub enum FileWatcherError {
    /// Reading the file failed; the text describes the error.
    File(String),
}

impl FileWatcherError {
    /// The text shown in place of the output: `Read error: <description>`.
    pub fn message(&self) -> (r: String)
        ensures
            r@ == match self {
                FileWatcherError::File(e) => "Read error: "@ + e@,
            },
    {
        match self {
            FileWatcherError::File(e) => {
                let mut r = String::from_str("Read error: ");
                append_str(&mut r, e.as_str());
                r
            },
        }
    }
}

/// What to do when the file to follow changes.
pub struct FileSelectionPlan {
    /// The file whose change notifications must be turned off.
    pub unwatch: Option<String>,
    /// The file to start reading and watching; none means the output is
    /// now empty.
    pub read: Option<String>,
}

/// The file watcher's state: the file it follows, and whether change
/// notifications for it are on.
pub struct FileWatcherState {
    pub file_path: Option<String>,
    pub watching: bool,
}

impl FileWatcherState {
    /// Notifications are only ever on for a file that is followed.
    pub open spec fn wf(&self) -> bool {
        self.watching ==> self.file_path is Some
    }

    /// Following nothing.
    pub fn new() -> (r: Self)
        ensures
            r.wf(),
            r.file_path is None,
            !r.watching,
    {
        FileWatcherState { file_path: None, watching: false }
    }

    /// Switches to following `file_path`: notifications for the old file go
    /// off, and the new file (if any) is to be read; until its watch starts,
    /// notifications are off.
    pub fn select_file(&mut self, file_path: Option<String>) -> (plan: FileSelectionPlan)
        requires
            old(self).wf(),
        ensures
            final(self).wf(),
            opt_view(plan.unwatch) == (if old(self).watching {
                opt_view(old(self).file_path)
            } else {
                None
            }),
            opt_view(plan.read) == opt_view(file_path),
            opt_view(final(self).file_path) == opt_view(file_path),
            !final(self).watching,
    {
        let unwatch = if self.watching {
            self.file_path.clone()
        } else {
            None
        };
        self.file_path = None;
        self.watching = false;
        let read = match &file_path {
            Some(p) => Some(p.clone()),
            None => None,
        };
        self.file_path = file_path;
        FileSelectionPlan { unwatch, read }
    }

    /// The file to try to start watching when content arrives: only when
    /// the read succeeded, a file is followed and it is not watched yet.
    pub fn watch_candidate(&self, read_ok: bool) -> (r: Option<String>)
        ensures
            opt_view(r) == (if !self.watching && read_ok {
                opt_view(self.file_path)
            } else {
                None
            }),
    {
        if !self.watching && read_ok {
            self.file_path.clone()
        } else {
            None
        }
    }

    /// Records whether starting notifications for the followed file worked.
    pub fn record_watch(&mut self, started: bool)
        requires
            old(self).wf(),
            old(self).file_path is Some,
        ensures
            final(self).wf(),
            final(self).watching == started,
            final(self).file_path == old(self).file_path,
    {
        self.watching = started;
    }
}

/// Whether two file paths name the same path, as std's `Path` compares
/// them (component by component).
pub uninterp spec fn same_path(a: Seq<char>, b: Seq<char>) -> bool;

/// Compares two paths with std's `==` on `Path`: the result is
/// `same_path`, and identical texts are the same path. What else compares
/// equal (repeated or trailing separators, `.` components) is left to std.
#[verifier::external_body]
fn paths_equal(a: &str, b: &str) -> (r: bool)
    ensures
        r == same_path(a@, b@),
        a@ == b@ ==> r,
{
    std::path::Path::new(a) == std::path::Path::new(b)
}

/// A change of the followed file: from none to a file or back, or to a
/// file that is not the same path.
pub open spec fn path_changed(old: Option<Seq<char>>, new: Option<Seq<char>>) -> bool {
    match (old, new) {
        (Some(a), Some(b)) => !same_path(a, b),
        (None, None) => false,
        _ => true,
    }
}

/// The file the application last asked the file watcher to follow.
pub struct FollowedFile {
    pub file_path: Option<String>,
}

impl FollowedFile {
    /// Nothing asked for yet.
    pub fn new() -> (r: Self)
        ensures
            r.file_path is None,
    {
        FollowedFile { file_path: None }
    }

    /// The application wants `file_path` followed: when that changes the
    /// followed file, it is recorded and the request for the watcher is
    /// returned; otherwise nothing changes and nothing is to be sent (so
    /// asking again for the file already followed sends nothing).
    pub fn set_file_path(&mut self, file_path: Option<String>) -> (r: Option<FileWatcherMessage>)
        ensures
            path_changed(opt_view(old(self).file_path), opt_view(file_path)) ==> {
                &&& opt_view(final(self).file_path) == opt_view(file_path)
                &&& r matches Some(FileWatcherMessage::FilePath(p)) && opt_view(p) == opt_view(
                    file_path,
                )
            },
            !path_changed(opt_view(old(self).file_path), opt_view(file_path)) ==> {
                &&& r is None
                &&& opt_view(final(self).file_path) == opt_view(old(self).file_path)
            },
            opt_view(file_path) == opt_view(old(self).file_path) ==> r is None,
    {
        let changed = match (&self.file_path, &file_path) {
            (Some(a), Some(b)) => !paths_equal(a.as_str(), b.as_str()),
            (None, None) => false,
            _ => true,
        };
        if changed {
            let sent = match &file_path {
                Some(p) => Some(p.clone()),
                None => None,
            };
            self.file_path = file_path;
            Some(FileWatcherMessage::FilePath(sent))
        } else {
            None
        }
    }
}

} // verus!
