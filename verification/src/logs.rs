//! The logs of the container that is being viewed.
use crate::containers::ContainerKey;
use crate::outside::{seconds_between, Timestamp};
use crate::outside;
use vstd::prelude::*;

verus! {

/// One line of a container's log.
#[derive(Clone, Debug, PartialEq)]
pub struct LogEntry {
    pub timestamp: Timestamp,
    pub message: String,
}

/// Log state for the currently viewed container. `L` is a formatted line and `H`
/// the handle of the task that streams the log.
#[derive(Debug)]
pub struct LogState<L, H> {
    /// Which container these logs are for
    pub container_key: ContainerKey,
    /// Raw log entries with timestamps (used for progress calculation)
    pub log_entries: Vec<LogEntry>,
    /// Pre-formatted lines for rendering (cached to avoid reformatting every frame)
    pub formatted_lines: Vec<L>,
    /// Current scroll offset in visual lines (not entry count)
    pub scroll_offset: usize,
    /// Handle to the log streaming task (for cancellation)
    pub stream_handle: Option<H>,
    /// Timestamp of the oldest log currently loaded (for pagination cursor)
    pub oldest_timestamp: Option<Timestamp>,
    /// Timestamp of the newest log (for progress bar calculation)
    pub newest_timestamp: Option<Timestamp>,
    /// Whether there are more logs to fetch before oldest_timestamp
    pub has_more_history: bool,
    /// Total number of logs loaded so far
    pub total_loaded: usize,
    /// Timestamp when the container was created (for progress bar calculation)
    pub container_created_at: Option<Timestamp>,
    /// Track if we're currently fetching older logs (prevent duplicate requests)
    pub fetching_older: bool,
}

/// How far through the log history a view is.
#[derive(Clone, Copy, Debug, PartialEq, Eq, Structural)]
pub enum Progress {
    /// The history spans no time: the view is at its end.
    Complete,
    /// The view is `offset` seconds into a history of `total` seconds: none at the
    /// container's creation, all of them at the newest log.
    Within { offset: i64, total: i64 },
}

/// Whether a point in time that may be absent is one that a date can hold.
pub open spec fn valid_if_any(t: Option<Timestamp>) -> bool {
    match t {
        Some(t) => t.valid(),
        None => true,
    }
}

/// `n`, or the nearest number from 0 to `max`.
pub open spec fn clamped(n: int, max: int) -> int {
    if n < 0 {
        0
    } else if n > max {
        max
    } else {
        n
    }
}

/// How far through a history from a container's creation to its newest log a
/// point in time is.
pub open spec fn progress_of(created: Timestamp, newest: Timestamp, visible: Timestamp) -> Progress {
    let total = outside::whole_seconds(newest, created);
    if total <= 0 {
        Progress::Complete
    } else {
        Progress::Within {
            offset: clamped(outside::whole_seconds(visible, created), total) as i64,
            total: total as i64,
        }
    }
}

/// A view of the container's creation is at the start of the history, and a view
/// of the newest log at its end.
pub proof fn law_progress_runs_from_creation_to_newest(created: Timestamp, newest: Timestamp)
    requires
        created.valid(),
        newest.valid(),
    ensures
        progress_of(created, newest, created) matches Progress::Within { offset, .. } ==> offset
            == 0,
        progress_of(created, newest, newest) matches Progress::Within { offset, total } ==> offset
            == total,
{
}

impl<L, H> LogState<L, H> {
    /// Every point in time is one that a date can hold.
    pub open spec fn wf(self) -> bool {
        &&& valid_if_any(self.oldest_timestamp)
        &&& valid_if_any(self.newest_timestamp)
        &&& valid_if_any(self.container_created_at)
        &&& forall|i: int|
            0 <= i < self.log_entries@.len() ==> (#[trigger] self.log_entries@[i]).timestamp.valid()
    }

    /// The point in time of the topmost visible entry: that of the last entry
    /// where the index is beyond it.
    pub open spec fn visible_timestamp(self, index: int) -> Timestamp {
        if index < self.log_entries@.len() {
            self.log_entries@[index].timestamp
        } else {
            self.log_entries@.last().timestamp
        }
    }

    /// How far through the log history the entry at an index is, where the
    /// container's creation, the newest log and an entry are known.
    pub open spec fn progress_at(self, index: int) -> Option<Progress> {
        match (self.container_created_at, self.newest_timestamp) {
            (Some(created), Some(newest)) => if self.log_entries@.len() == 0 {
                None
            } else {
                Some(progress_of(created, newest, self.visible_timestamp(index)))
            },
            _ => None,
        }
    }

    /// Create a new LogState for a container
    pub fn new(container_key: ContainerKey, container_created_at: Option<Timestamp>) -> (r: Self)
        ensures
            r.container_key == container_key,
            r.container_created_at == container_created_at,
            r.log_entries@.len() == 0,
            r.formatted_lines@.len() == 0,
            r.scroll_offset == 0,
            r.stream_handle is None,
            r.oldest_timestamp is None,
            r.newest_timestamp is None,
            !r.has_more_history,
            r.total_loaded == 0,
            !r.fetching_older,
            valid_if_any(container_created_at) ==> r.wf(),
    {
        LogState {
            container_key,
            log_entries: Vec::new(),
            formatted_lines: Vec::new(),
            scroll_offset: 0,
            stream_handle: None,
            oldest_timestamp: None,
            newest_timestamp: None,
            has_more_history: false,
            total_loaded: 0,
            container_created_at,
            fetching_older: false,
        }
    }

    /// Set log entries and the formatted lines that belong to them.
    /// Used when bulk-replacing entries.
    pub fn set_entries(&mut self, entries: Vec<LogEntry>, formatted: Vec<L>)
        requires
            entries@.len() == formatted@.len(),
        ensures
            *final(self) == (LogState {
                log_entries: entries,
                formatted_lines: formatted,
                ..*old(self)
            }),
    {
        self.formatted_lines = formatted;
        self.log_entries = entries;
    }

    /// Calculate how far through the log history the current visible page is.
    /// Takes the entry index of the topmost visible log entry.
    /// Returns None if we can't calculate (missing timestamps)
    pub fn calculate_progress(&self, visible_entry_index: usize) -> (r: Option<Progress>)
        requires
            self.wf(),
        ensures
            r == self.progress_at(visible_entry_index as int),
            r matches Some(Progress::Within { offset, total }) ==> 0 <= offset <= total && total
                > 0,
    {
        let created = match self.container_created_at {
            Some(t) => t,
            None => return None,
        };
        let newest = match self.newest_timestamp {
            Some(t) => t,
            None => return None,
        };
        let count: usize = self.log_entries.len();
        let visible = if visible_entry_index < count {
            self.log_entries[visible_entry_index].timestamp
        } else if count > 0 {
            self.log_entries[count - 1].timestamp
        } else {
            return None;
        };
        let total: i64 = seconds_between(newest, created);
        if total <= 0 {
            return Some(Progress::Complete);
        }
        let offset: i64 = seconds_between(visible, created);
        if offset < 0 {
            Some(Progress::Within { offset: 0, total })
        } else if offset > total {
            Some(Progress::Within { offset: total, total })
        } else {
            Some(Progress::Within { offset, total })
        }
    }
}

/// Between points in time on whole seconds, the history is as long as the newest
/// log is after the container's creation, and the view as far into it as what is
/// visible is after that, but neither before its start nor beyond its end.
pub proof fn law_progress_counts_seconds(created: Timestamp, newest: Timestamp, visible: Timestamp)
    requires
        created.valid() && newest.valid() && visible.valid(),
        created.nanos == 0 && newest.nanos == 0 && visible.nanos == 0,
    ensures
        newest.secs <= created.secs ==> progress_of(created, newest, visible) == Progress::Complete,
        newest.secs > created.secs ==> {
            &&& progress_of(created, newest, visible) matches Progress::Within { offset, total }
            &&& total == newest.secs - created.secs
            &&& created.secs <= visible.secs <= newest.secs ==> offset == visible.secs - created.secs
            &&& visible.secs < created.secs ==> offset == 0
            &&& visible.secs > newest.secs ==> offset == total
        },
{
}

impl<L, H> LogState<L, H> {
    /// The progress is that of the entry at the index, or of the last entry where
    /// there are not so many; without an entry, or where the container's creation or
    /// the newest log is not known, there is none to tell.
    pub proof fn law_progress_goes_by_the_visible_entry(
        self,
        index: int,
        created: Timestamp,
        newest: Timestamp,
    )
        requires
            0 <= index,
        ensures
            self.container_created_at is None || self.newest_timestamp is None
                || self.log_entries@.len() == 0 <==> self.progress_at(index) is None,
            self.container_created_at == Some(created) && self.newest_timestamp == Some(newest) ==> {
                let entries = self.log_entries@;
                &&& index < entries.len() ==> self.progress_at(index) == Some(
                    progress_of(created, newest, entries[index].timestamp),
                )
                &&& 0 < entries.len() <= index ==> self.progress_at(index) == Some(
                    progress_of(created, newest, entries[entries.len() - 1].timestamp),
                )
            },
    {
    }
}

/// The history is as long as the whole seconds from the container's creation to its
/// newest log. The view is so many seconds into it as what is visible is after the
/// creation, but neither before the start nor beyond the end of the history.
pub proof fn law_progress_counts_whole_seconds(
    created: Timestamp,
    newest: Timestamp,
    visible: Timestamp,
)
    requires
        created.valid() && newest.valid() && visible.valid(),
    ensures
        ({
            let length = outside::whole_seconds(newest, created);
            let into = outside::whole_seconds(visible, created);
            let progress = progress_of(created, newest, visible);
            &&& length <= 0 <==> progress == Progress::Complete
            &&& length > 0 ==> {
                &&& progress is Within
                &&& progress->total == length
                &&& 0 <= into <= length ==> progress->offset == into
                &&& into < 0 ==> progress->offset == 0
                &&& into > length ==> progress->offset == length
            }
        }),
{
}

} // verus!
