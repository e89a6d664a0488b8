//! Billable assistant turns read from transcript logs.
use vstd::prelude::*;
use vstd::string::*;
use crate::text::chars_of;
use crate::time::{Timestamp, rfc3339_instant, reset_time};

verus! {

/// One billable assistant turn: when it happened, which model served it,
/// and the tokens it used by category.
#[derive(Debug, Clone, PartialEq, Eq)]
pub struct LogEntry {
    pub timestamp: Timestamp,
    pub model: String,
    pub input_tokens: u64,
    pub output_tokens: u64,
    pub cache_creation_input_tokens: u64,
    pub cache_read_input_tokens: u64,
}

impl LogEntry {
    /// Input, output, cache-write and cache-read tokens together.
    pub open spec fn token_sum(self) -> int {
        self.input_tokens + self.output_tokens + self.cache_creation_input_tokens
            + self.cache_read_input_tokens
    }

    /// The sum of all four token categories.
    pub fn total_tokens(&self) -> (r: u64)
        requires
            self.token_sum() <= u64::MAX,
        ensures
            r == self.token_sum(),
    {
        self.input_tokens + self.output_tokens + self.cache_creation_input_tokens
            + self.cache_read_input_tokens
    }
}

/// The token counts of a transcript line; a count the line leaves out is 0.
#[derive(Debug, Clone, Copy, PartialEq, Eq, Default)]
pub struct RawUsage {
    pub input_tokens: u64,
    pub output_tokens: u64,
    pub cache_creation_input_tokens: u64,
    pub cache_read_input_tokens: u64,
}

/// The `message` object of a transcript line, as far as it is read.
#[derive(Debug, Clone, PartialEq, Eq)]
pub struct RawMessage {
    pub model: Option<String>,
    pub usage: Option<RawUsage>,
}

/// A transcript line, as far as it is read: its `type`, its `timestamp` and
/// its `message`.
#[derive(Debug, Clone, PartialEq, Eq)]
pub struct RawLine {
    pub kind: Option<String>,
    pub timestamp: Option<String>,
    pub message: Option<RawMessage>,
}

/// The entry a transcript line gives, if it is a billable assistant turn:
/// `"type": "assistant"`, a model other than `<synthetic>` (a placeholder
/// for locally generated content, with no real API call behind it), a
/// `usage` object and an RFC 3339 timestamp.
pub open spec fn entry_from_raw_spec(raw: RawLine) -> Option<LogEntry> {
    match (raw.kind, raw.message, raw.timestamp) {
        (Some(kind), Some(message), Some(stamp)) => match (message.model, message.usage) {
            (Some(model), Some(usage)) => if kind@ == "assistant"@ && model@ != "<synthetic>"@ {
                match rfc3339_instant(stamp@) {
                    Some((secs, nanos)) => Some(
                        LogEntry {
                            timestamp: Timestamp { secs, nanos },
                            model,
                            input_tokens: usage.input_tokens,
                            output_tokens: usage.output_tokens,
                            cache_creation_input_tokens: usage.cache_creation_input_tokens,
                            cache_read_input_tokens: usage.cache_read_input_tokens,
                        },
                    ),
                    None => None,
                }
            } else {
                None
            },
            _ => None,
        },
        _ => None,
    }
}

/// Whether two strings hold the same characters.
pub fn same_text(a: &str, b: &str) -> (r: bool)
    ensures
        r == (a@ == b@),
{
    let x = chars_of(a);
    let y = chars_of(b);
    if x.len() != y.len() {
        return false;
    }
    let mut i: usize = 0;
    while i < x.len()
        invariant
            x@ == a@,
            y@ == b@,
            x@.len() == y@.len(),
            i <= x@.len(),
            forall|k: int| 0 <= k < i ==> x@[k] == y@[k],
        decreases x@.len() - i,
    {
        if x[i] != y[i] {
            assert(x@[i as int] != y@[i as int]);
            return false;
        }
        i = i + 1;
    }
    assert(x@ =~= y@);
    true
}

/// The entry a transcript line gives, or `None` when it is not a billable
/// assistant turn: not an assistant line, no model or `usage`, the
/// `<synthetic>` model, or a missing or malformed timestamp.
pub fn entry_from_raw_line(raw: RawLine) -> (r: Option<LogEntry>)
    ensures
        r == entry_from_raw_spec(raw),
        r matches Some(e) ==> e.timestamp.wf(),
{
    let RawLine { kind, timestamp, message } = raw;
    let kind = match kind {
        Some(k) => k,
        None => return None,
    };
    if !same_text(kind.as_str(), "assistant") {
        return None;
    }
    let message = match message {
        Some(m) => m,
        None => return None,
    };
    let RawMessage { model, usage } = message;
    let model = match model {
        Some(m) => m,
        None => return None,
    };
    if same_text(model.as_str(), "<synthetic>") {
        return None;
    }
    let usage = match usage {
        Some(u) => u,
        None => return None,
    };
    let stamp = match timestamp {
        Some(t) => t,
        None => return None,
    };
    let timestamp = match reset_time(Some(stamp.as_str())) {
        Some(t) => t,
        None => return None,
    };
    Some(
        LogEntry {
            timestamp,
            model,
            input_tokens: usage.input_tokens,
            output_tokens: usage.output_tokens,
            cache_creation_input_tokens: usage.cache_creation_input_tokens,
            cache_read_input_tokens: usage.cache_read_input_tokens,
        },
    )
}


impl LogEntry {
    /// A copy of the entry.
    pub fn duplicate(&self) -> (r: LogEntry)
        ensures
            r == *self,
    {
        LogEntry {
            timestamp: self.timestamp,
            model: self.model.clone(),
            input_tokens: self.input_tokens,
            output_tokens: self.output_tokens,
            cache_creation_input_tokens: self.cache_creation_input_tokens,
            cache_read_input_tokens: self.cache_read_input_tokens,
        }
    }
}

/// A copy of a list of entries.
pub fn duplicate_entries(entries: &Vec<LogEntry>) -> (r: Vec<LogEntry>)
    ensures
        r@ == entries@,
{
    let mut out: Vec<LogEntry> = Vec::new();
    let mut i: usize = 0;
    while i < entries.len()
        invariant
            i <= entries@.len(),
            out@ == entries@.take(i as int),
        decreases entries@.len() - i,
    {
        out.push(entries[i].duplicate());
        assert(entries@.take(i + 1) =~= entries@.take(i as int).push(entries@[i as int]));
        i = i + 1;
    }
    assert(entries@.take(entries@.len() as int) =~= entries@);
    out
}

/// Whether a file extension marks a transcript: transcripts are `.jsonl`
/// files.
pub fn is_transcript(extension: Option<&str>) -> (r: bool)
    ensures
        r == (extension matches Some(e) && e@ == "jsonl"@),
{
    match extension {
        Some(e) => same_text(e, "jsonl"),
        None => false,
    }
}

/// One remembered file: its path, the modification time it had when it was
/// read (nanoseconds since the epoch), and the entries it gave.
pub type CachedFile = (String, u128, Vec<LogEntry>);

/// What a remembered file maps to: its modification time and entries.
pub open spec fn cached_value(f: CachedFile) -> (u128, Seq<LogEntry>) {
    (f.1, f.2@)
}

/// The files of `files`, as a map from path to modification time and
/// entries (a later record of a path stands over an earlier one).
pub open spec fn files_map(files: Seq<CachedFile>) -> Map<Seq<char>, (u128, Seq<LogEntry>)>
    decreases files.len(),
{
    if files.len() == 0 {
        Map::empty()
    } else {
        files_map(files.drop_last()).insert(files.last().0@, cached_value(files.last()))
    }
}

/// No path is recorded twice.
pub open spec fn distinct_paths(files: Seq<CachedFile>) -> bool {
    forall|i: int, j: int|
        0 <= i < j < files.len() ==> (#[trigger] files[i]).0@ != (#[trigger] files[j]).0@
}

proof fn lemma_files_map_index(files: Seq<CachedFile>, i: int)
    requires
        distinct_paths(files),
        0 <= i < files.len(),
    ensures
        files_map(files).dom().contains(files[i].0@),
        files_map(files)[files[i].0@] == cached_value(files[i]),
    decreases files.len(),
{
    if i < files.len() - 1 {
        let d = files.drop_last();
        assert(d[i] == files[i]);
        assert(distinct_paths(d)) by {
            assert forall|a: int, b: int| 0 <= a < b < d.len() implies (#[trigger] d[a]).0@
                != (#[trigger] d[b]).0@ by {
                assert(d[a] == files[a] && d[b] == files[b]);
            }
        }
        lemma_files_map_index(d, i);
        assert(files[i].0@ != files[files.len() - 1].0@);
    }
}

proof fn lemma_files_map_absent(files: Seq<CachedFile>, path: Seq<char>)
    requires
        forall|i: int| 0 <= i < files.len() ==> (#[trigger] files[i]).0@ != path,
    ensures
        !files_map(files).dom().contains(path),
    decreases files.len(),
{
    if files.len() > 0 {
        let d = files.drop_last();
        assert forall|i: int| 0 <= i < d.len() implies (#[trigger] d[i]).0@ != path by {
            assert(d[i] == files[i]);
        }
        lemma_files_map_absent(d, path);
        assert(files[files.len() - 1].0@ != path);
    }
}

proof fn lemma_files_map_update(files: Seq<CachedFile>, i: int, f: CachedFile)
    requires
        distinct_paths(files),
        0 <= i < files.len(),
        files[i].0@ == f.0@,
    ensures
        files_map(files.update(i, f)) =~= files_map(files).insert(f.0@, cached_value(f)),
    decreases files.len(),
{
    let u = files.update(i, f);
    let n = files.len();
    assert(u.drop_last() =~= if i == n - 1 {
        files.drop_last()
    } else {
        files.drop_last().update(i, f)
    });
    if i < n - 1 {
        let d = files.drop_last();
        assert(distinct_paths(d)) by {
            assert forall|a: int, b: int| 0 <= a < b < d.len() implies (#[trigger] d[a]).0@
                != (#[trigger] d[b]).0@ by {
                assert(d[a] == files[a] && d[b] == files[b]);
            }
        }
        lemma_files_map_update(d, i, f);
        assert(files[i].0@ != files[n - 1].0@);
    }
}

/// Each transcript file's entries, remembered with the modification time the
/// file had when it was read, so that an unchanged file is not read again.
pub struct TranscriptCache {
    files: Vec<CachedFile>,
}

impl View for TranscriptCache {
    type V = Map<Seq<char>, (u128, Seq<LogEntry>)>;

    closed spec fn view(&self) -> Self::V {
        files_map(self.files@)
    }
}

impl TranscriptCache {
    #[verifier::type_invariant]
    closed spec fn paths_are_distinct(self) -> bool {
        distinct_paths(self.files@)
    }

    /// A cache that remembers no file.
    pub fn new() -> (r: Self)
        ensures
            r@ == Map::<Seq<char>, (u128, Seq<LogEntry>)>::empty(),
    {
        TranscriptCache { files: Vec::new() }
    }

    /// The position of `path` among the remembered files, if it is there.
    fn position(&self, path: &str) -> (r: Option<usize>)
        ensures
            match r {
                Some(i) => i < self.files@.len() && self.files@[i as int].0@ == path@,
                None => forall|i: int|
                    0 <= i < self.files@.len() ==> (#[trigger] self.files@[i]).0@ != path@,
            },
    {
        let mut i: usize = 0;
        while i < self.files.len()
            invariant
                i <= self.files@.len(),
                forall|k: int| 0 <= k < i ==> (#[trigger] self.files@[k]).0@ != path@,
            decreases self.files@.len() - i,
        {
            if same_text(self.files[i].0.as_str(), path) {
                return Some(i);
            }
            i = i + 1;
        }
        None
    }

    /// The entries remembered for `path`, if they were read when the file had
    /// modification time `mtime`; `None` when the file is not remembered or
    /// has changed since (it must be read again).
    pub fn lookup(&self, path: &str, mtime: u128) -> (r: Option<Vec<LogEntry>>)
        ensures
            match r {
                Some(entries) => self@.dom().contains(path@) && self@[path@] == (
                    mtime,
                    entries@,
                ),
                None => !(self@.dom().contains(path@) && self@[path@].0 == mtime),
            },
    {
        proof {
            use_type_invariant(self);
        }
        match self.position(path) {
            Some(i) => {
                proof {
                    lemma_files_map_index(self.files@, i as int);
                }
                if self.files[i].1 == mtime {
                    Some(duplicate_entries(&self.files[i].2))
                } else {
                    None
                }
            },
            None => {
                proof {
                    lemma_files_map_absent(self.files@, path@);
                }
                None
            },
        }
    }

    /// Remembers that `path`, at modification time `mtime`, gave `entries`;
    /// what was remembered for it before is replaced, every other file kept.
    pub fn store(&mut self, path: String, mtime: u128, entries: Vec<LogEntry>)
        ensures
            final(self)@ == old(self)@.insert(path@, (mtime, entries@)),
    {
        proof {
            use_type_invariant(&*self);
        }
        let found = self.position(path.as_str());
        let ghost old_files = self.files@;
        let record: CachedFile = (path, mtime, entries);
        match found {
            Some(i) => {
                proof {
                    lemma_files_map_update(old_files, i as int, record);
                    assert(distinct_paths(old_files.update(i as int, record))) by {
                        let u = old_files.update(i as int, record);
                        assert forall|a: int, b: int| 0 <= a < b < u.len() implies (
                        #[trigger] u[a]).0@ != (#[trigger] u[b]).0@ by {
                            if a != i && b != i {
                                assert(u[a] == old_files[a] && u[b] == old_files[b]);
                            } else if a == i {
                                assert(u[b] == old_files[b]);
                            } else {
                                assert(u[a] == old_files[a]);
                            }
                        }
                    }
                }
                let mut files = Vec::new();
                std::mem::swap(&mut files, &mut self.files);
                files.set(i, record);
                self.files = files;
            },
            None => {
                proof {
                    let u = old_files.push(record);
                    assert(u.drop_last() =~= old_files);
                    assert(distinct_paths(u)) by {
                        assert forall|a: int, b: int| 0 <= a < b < u.len() implies (
                        #[trigger] u[a]).0@ != (#[trigger] u[b]).0@ by {
                            assert(u[a] == old_files[a]);
                            if b < old_files.len() {
                                assert(u[b] == old_files[b]);
                            }
                        }
                    }
                }
                let mut files = Vec::new();
                std::mem::swap(&mut files, &mut self.files);
                files.push(record);
                self.files = files;
            },
        }
    }
}

} // verus!
