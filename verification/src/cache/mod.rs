//! The file cache: which files were analyzed under which configuration, and
//! whether a prior result is still valid.
//!
//! The cache decides; it does not touch the file system. Whoever drives it hands
//! over what it read (size, modification time, content) and writes the snapshot
//! that `save` hands back.

use vstd::prelude::*;
use crate::bindings::{sha256, sha256_digest, utc_now, Timestamp};
use crate::domain::violations::{copy_opt_text, opt_text, ErrorView, GuardianError};
use crate::numerals::{digit, digit_char};
use crate::patterns::checks::{concat3, number_text};
use crate::text::{same_text, string_of};

verus! {

/// The version of the cache format that this crate writes.
pub const CURRENT_VERSION: u32 = 1;

/// What is remembered of one analyzed file.
#[derive(Debug, Clone)]
pub struct FileEntry {
    /// SHA-256 digest of the content, in hexadecimal.
    pub content_hash: String,
    /// Size in bytes.
    pub size: u64,
    /// Time of the last modification, in seconds since the Unix epoch.
    pub modified_at: u64,
    /// Number of violations found in the file.
    pub violation_count: usize,
    /// Time of the analysis.
    pub analyzed_at: u64,
    /// Fingerprint of the configuration under which the file was analyzed.
    pub config_fingerprint: String,
}

/// What a [`FileEntry`] says.
pub struct EntryView {
    pub content_hash: Seq<char>,
    pub size: u64,
    pub modified_at: u64,
    pub violation_count: usize,
    pub analyzed_at: u64,
    pub config_fingerprint: Seq<char>,
}

impl View for FileEntry {
    type V = EntryView;

    open spec fn view(&self) -> EntryView {
        EntryView {
            content_hash: self.content_hash@,
            size: self.size,
            modified_at: self.modified_at,
            violation_count: self.violation_count,
            analyzed_at: self.analyzed_at,
            config_fingerprint: self.config_fingerprint@,
        }
    }
}

/// The entry of one path.
#[derive(Debug, Clone)]
pub struct CachedFile {
    pub path: String,
    pub entry: FileEntry,
}

/// Times and counters of the cache itself.
#[derive(Debug, Clone, Copy, PartialEq, Eq, Structural)]
pub struct CacheMetadata {
    pub created_at: u64,
    pub updated_at: u64,
    /// Number of checks that found a valid prior result.
    pub hits: u64,
    /// Number of checks that did not.
    pub misses: u64,
}

/// What is written to the cache file.
#[derive(Debug, Clone)]
pub struct CacheData {
    /// Version of the cache format.
    pub version: u32,
    /// Fingerprint of the configuration that the cache was last used with.
    pub config_fingerprint: Option<String>,
    /// One entry per path.
    pub files: Vec<CachedFile>,
    pub metadata: CacheMetadata,
}

/// What a cache holds.
pub struct CacheView {
    pub version: u32,
    pub config_fingerprint: Option<Seq<char>>,
    pub files: Seq<(Seq<char>, EntryView)>,
    pub metadata: CacheMetadata,
    pub dirty: bool,
}

/// What the entries of a list say: each path with its entry.
pub open spec fn file_views(files: Seq<CachedFile>) -> Seq<(Seq<char>, EntryView)> {
    files.map_values(|f: CachedFile| (f.path@, f.entry@))
}

/// Cache of analysis results, one entry per file path.
#[derive(Debug)]
pub struct FileCache {
    /// Where the cache is kept.
    pub cache_path: String,
    pub data: CacheData,
    /// Whether the cache holds changes that were not yet saved.
    pub dirty: bool,
}

impl View for FileCache {
    type V = CacheView;

    open spec fn view(&self) -> CacheView {
        CacheView {
            version: self.data.version,
            config_fingerprint: opt_text(self.data.config_fingerprint),
            files: file_views(self.data.files@),
            metadata: self.data.metadata,
            dirty: self.dirty,
        }
    }
}

/// What the cheap checks say of a file.
#[derive(Debug, Clone, Copy, PartialEq, Eq, Structural)]
pub enum FirstCheck {
    /// The file needs analysis, whatever its content is.
    Miss,
    /// Only the content can tell.
    ContentNeeded,
}

/// Activity of the cache.
#[derive(Debug, Clone, Copy, PartialEq, Eq, Structural)]
pub struct CacheStatistics {
    pub total_files: usize,
    pub cache_hits: u64,
    pub cache_misses: u64,
    pub created_at: u64,
    pub updated_at: u64,
}

// ---------------------------------------------------------------------------
// What the operations mean
// ---------------------------------------------------------------------------

/// The position of the first entry for `path`, if any.
pub open spec fn entry_index(files: Seq<(Seq<char>, EntryView)>, path: Seq<char>) -> Option<int> {
    if exists|k: int| 0 <= k < files.len() && (#[trigger] files[k]).0 == path {
        Some(
            choose|k: int|
                0 <= k < files.len() && (#[trigger] files[k]).0 == path && forall|j: int|
                    0 <= j < k ==> (#[trigger] files[j]).0 != path,
        )
    } else {
        None
    }
}

/// The entry for `path`, if any.
pub open spec fn entry_of(files: Seq<(Seq<char>, EntryView)>, path: Seq<char>) -> Option<
    EntryView,
> {
    match entry_index(files, path) {
        Some(k) => Some(files[k].1),
        None => None,
    }
}

/// The entries after `entry` was recorded for `path`: in place of the entry the
/// path had, or else behind all others.
pub open spec fn recorded(files: Seq<(Seq<char>, EntryView)>, path: Seq<char>, entry: EntryView)
    -> Seq<(Seq<char>, EntryView)> {
    match entry_index(files, path) {
        Some(k) => files.update(k, (path, entry)),
        None => files.push((path, entry)),
    }
}

/// No path has two entries.
pub open spec fn distinct_paths(files: Seq<(Seq<char>, EntryView)>) -> bool {
    forall|i: int, j: int| 0 <= i < j < files.len() ==> (#[trigger] files[i]).0 != (#[trigger] files[j]).0
}

/// The entries that the first `n` entries of a snapshot give when they are
/// taken over one by one: a later entry for a path takes the place of an
/// earlier one, so that no path has two.
pub open spec fn taken_over(files: Seq<(Seq<char>, EntryView)>, n: int) -> Seq<
    (Seq<char>, EntryView),
>
    decreases n,
{
    if n <= 0 {
        Seq::<(Seq<char>, EntryView)>::empty()
    } else {
        recorded(taken_over(files, n - 1), files[n - 1].0, files[n - 1].1)
    }
}

/// Two hexadecimal digits for each byte.
pub open spec fn hex_bytes(bytes: Seq<u8>) -> Seq<char>
    decreases bytes.len(),
{
    if bytes.len() == 0 {
        Seq::<char>::empty()
    } else {
        hex_bytes(bytes.drop_last()).push(digit_char((bytes.last() / 16) as nat)).push(
            digit_char((bytes.last() % 16) as nat),
        )
    }
}

/// The digest of a file's content as the cache stores it.
pub open spec fn content_digest(content: Seq<u8>) -> Seq<char> {
    hex_bytes(sha256(content))
}

/// What is known of a file when the cache is asked about it.
pub struct FileState {
    pub size: u64,
    pub modified_at: u64,
    pub digest: Seq<char>,
}

/// Whether a prior result is still valid: there is an entry, size and
/// modification time are as they were, the configuration is the same, and so
/// is the digest of the content.
pub open spec fn is_valid(entry: Option<EntryView>, fingerprint: Seq<char>, now: FileState) -> bool {
    match entry {
        Some(e) => e.size == now.size && e.modified_at == now.modified_at && e.config_fingerprint
            == fingerprint && e.content_hash == now.digest,
        None => false,
    }
}

/// Whether a file needs analysis.
pub open spec fn needs(c: CacheView, path: Seq<char>, fingerprint: Seq<char>, now: FileState)
    -> bool {
    !is_valid(entry_of(c.files, path), fingerprint, now)
}

/// Whether size, modification time and fingerprint alone show that a file
/// needs analysis: the cache has no entry for it, or the entry was made for
/// another size, another modification time or another configuration.
pub open spec fn settled_early(
    c: CacheView,
    path: Seq<char>,
    fingerprint: Seq<char>,
    size: u64,
    modified_at: u64,
) -> bool {
    match entry_of(c.files, path) {
        Some(e) => e.size != size || e.modified_at != modified_at || e.config_fingerprint
            != fingerprint,
        None => true,
    }
}

/// The cache after a check: a hit or a miss is counted, and the cache has
/// changes to save.
pub open spec fn checked(c: CacheView, miss: bool) -> CacheView {
    CacheView {
        metadata: CacheMetadata {
            hits: if miss {
                c.metadata.hits
            } else {
                (c.metadata.hits + 1) as u64
            },
            misses: if miss {
                (c.metadata.misses + 1) as u64
            } else {
                c.metadata.misses
            },
            ..c.metadata
        },
        dirty: true,
        ..c
    }
}

/// Whether a check can be counted: the counter that it raises is not at its
/// largest value.
pub open spec fn can_count(c: CacheView, miss: bool) -> bool {
    if miss {
        c.metadata.misses < u64::MAX
    } else {
        c.metadata.hits < u64::MAX
    }
}

/// The cache after an entry was recorded.
pub open spec fn updated(c: CacheView, path: Seq<char>, entry: EntryView) -> CacheView {
    CacheView { files: recorded(c.files, path, entry), dirty: true, ..c }
}

/// The entry that describes a file as it is now.
pub open spec fn entry_for(
    now: FileState,
    violation_count: usize,
    analyzed_at: u64,
    fingerprint: Seq<char>,
) -> EntryView {
    EntryView {
        content_hash: now.digest,
        size: now.size,
        modified_at: now.modified_at,
        violation_count,
        analyzed_at,
        config_fingerprint: fingerprint,
    }
}

/// The entries among the first `n` that are kept by a cleanup: those whose file
/// is said to exist, or of which nothing is said.
pub open spec fn retained(files: Seq<(Seq<char>, EntryView)>, exists: Seq<bool>, n: int) -> Seq<
    (Seq<char>, EntryView),
>
    decreases n,
{
    if n <= 0 {
        Seq::<(Seq<char>, EntryView)>::empty()
    } else if n - 1 < exists.len() && !exists[n - 1] {
        retained(files, exists, n - 1)
    } else {
        retained(files, exists, n - 1).push(files[n - 1])
    }
}

/// An empty cache in the current format, created at the given time.
pub open spec fn fresh(created_at: u64) -> CacheView {
    CacheView {
        version: CURRENT_VERSION,
        config_fingerprint: None,
        files: Seq::<(Seq<char>, EntryView)>::empty(),
        metadata: CacheMetadata { created_at, updated_at: created_at, hits: 0, misses: 0 },
        dirty: true,
    }
}

/// The cache after every entry was forgotten at the time `now`. The counts of
/// hits and misses stay as they are, and so do the format version, the
/// fingerprint and the time of creation.
pub open spec fn cleared(c: CacheView, now: u64) -> CacheView {
    CacheView {
        files: Seq::<(Seq<char>, EntryView)>::empty(),
        metadata: CacheMetadata { updated_at: later(c.metadata.created_at, now), ..c.metadata },
        dirty: true,
        ..c
    }
}

/// The cache after a snapshot was taken over, or, without a snapshot, an empty
/// cache created at the time `now`. The entries of the snapshot are taken over
/// one by one. A snapshot in format version zero is brought to the current
/// format, which counts as a change to save.
pub open spec fn loaded(was_dirty: bool, snapshot: Option<CacheData>, now: u64) -> CacheView {
    match snapshot {
        Some(data) => CacheView {
            version: if data.version == 0 {
                CURRENT_VERSION
            } else {
                data.version
            },
            config_fingerprint: opt_text(data.config_fingerprint),
            files: taken_over(file_views(data.files@), data.files@.len() as int),
            metadata: data.metadata,
            dirty: was_dirty || data.version == 0,
        },
        None => fresh(now),
    }
}

/// The cache after it was told the fingerprint of the configuration in use;
/// another fingerprint than before counts as a change to save.
pub open spec fn with_fingerprint(c: CacheView, fingerprint: Seq<char>) -> CacheView {
    CacheView {
        config_fingerprint: Some(fingerprint),
        dirty: c.dirty || c.config_fingerprint != Some(fingerprint),
        ..c
    }
}

/// The later of two times.
pub open spec fn later(a: u64, b: u64) -> u64 {
    if a < b {
        b
    } else {
        a
    }
}

/// The cache was created before it was last updated.
pub open spec fn is_coherent(c: CacheView) -> bool {
    c.metadata.created_at <= c.metadata.updated_at
}

/// The share of hits among all checks, in thousandths; zero before the first
/// check.
pub open spec fn hit_rate_per_mille(hits: u64, misses: u64) -> int {
    if hits + misses == 0 {
        0
    } else {
        (hits * 1000) / (hits + misses)
    }
}

/// The whole seconds since the Unix epoch at a point in time; a time before
/// the epoch counts as the epoch itself.
pub open spec fn whole_seconds(at: Timestamp) -> u64 {
    if at.secs < 0 {
        0
    } else {
        at.secs as u64
    }
}

/// The whole seconds since the Unix epoch at a point in time.
pub fn seconds_of(at: Timestamp) -> (t: u64)
    ensures
        t == whole_seconds(at),
{
    if at.secs < 0 {
        0
    } else {
        at.secs as u64
    }
}

/// The current time in whole seconds since the Unix epoch: the whole seconds
/// of a reading of the clock. Which reading is not known.
pub fn current_timestamp() -> (t: u64)
    ensures
        exists|at: Timestamp| t == #[trigger] whole_seconds(at),
{
    let now = utc_now();
    seconds_of(now)
}

/// The SHA-256 digest of a file's content, in lower-case hexadecimal.
pub fn calculate_file_hash(content: &[u8]) -> (s: String)
    ensures
        s@ == content_digest(content@),
{
    let digest = sha256_digest(content);
    let mut out: Vec<char> = Vec::new();
    let mut i: usize = 0;
    assert(digest@.take(0) =~= Seq::<u8>::empty());
    while i < digest.len()
        invariant
            i <= digest.len(),
            out@ == hex_bytes(digest@.take(i as int)),
        decreases digest.len() - i,
    {
        let b = digest[i];
        proof {
            let next = digest@.take(i + 1);
            assert(next.drop_last() =~= digest@.take(i as int));
            assert(next.last() == b);
        }
        out.push(digit((b / 16) as u64));
        out.push(digit((b % 16) as u64));
        i += 1;
    }
    assert(digest@.take(digest@.len() as int) =~= digest@);
    string_of(out.as_slice())
}

fn copy_entry(e: &FileEntry) -> (r: FileEntry)
    ensures
        r == *e,
{
    FileEntry {
        content_hash: e.content_hash.clone(),
        size: e.size,
        modified_at: e.modified_at,
        violation_count: e.violation_count,
        analyzed_at: e.analyzed_at,
        config_fingerprint: e.config_fingerprint.clone(),
    }
}

/// Whether `after` and `r` are what saving the cache `before` at the time `now`
/// gives. A cache without changes hands out nothing and stays as it is. One
/// with changes whose version is zero is refused and stays as it is. Any
/// other is stamped with the time, no longer counts as changed, and hands
/// out all it holds.
pub open spec fn saved_at(
    before: FileCache,
    now: u64,
    after: FileCache,
    r: Result<Option<CacheData>, GuardianError>,
) -> bool {
    &&& after.cache_path == before.cache_path
    &&& !before@.dirty ==> r == Ok::<Option<CacheData>, GuardianError>(None) && after == before
    &&& before@.dirty && before@.version == 0 ==> after == before && (r matches Err(e) && e@
        == ErrorView::Cache {
        message: "Cache version coherence violation - invalid version state"@,
    })
    &&& before@.dirty && before@.version != 0 ==> {
        &&& r matches Ok(Some(data))
        &&& after@ == (CacheView {
            metadata: CacheMetadata {
                updated_at: later(before@.metadata.created_at, now),
                ..before@.metadata
            },
            dirty: false,
            ..before@
        })
        &&& r->Ok_0->0.version == after@.version
        &&& opt_text(r->Ok_0->0.config_fingerprint) == after@.config_fingerprint
        &&& file_views(r->Ok_0->0.files@) == after@.files
        &&& r->Ok_0->0.metadata == after@.metadata
    }
}

/// Whether `after` and `r` are what saving the cache `before` gives, at the
/// whole seconds of some reading of the clock.
pub open spec fn saved(
    before: FileCache,
    after: FileCache,
    r: Result<Option<CacheData>, GuardianError>,
) -> bool {
    exists|at: Timestamp| #[trigger] saved_at(before, whole_seconds(at), after, r)
}

impl FileCache {
    /// The cache holds at most one entry for each path.
    pub open spec fn wf(&self) -> bool {
        distinct_paths(self@.files)
    }

    /// A cache kept at the given path. It holds nothing until it is loaded.
    pub fn new(cache_path: &str) -> (c: FileCache)
        ensures
            c.wf(),
            c.cache_path@ == cache_path@,
            c@.version == 0,
            c@.config_fingerprint is None,
            c@.files.len() == 0,
            c@.metadata == (CacheMetadata { created_at: 0, updated_at: 0, hits: 0, misses: 0 }),
            !c@.dirty,
    {
        FileCache {
            cache_path: cache_path.to_owned(),
            data: CacheData {
                version: 0,
                config_fingerprint: None,
                files: Vec::new(),
                metadata: CacheMetadata { created_at: 0, updated_at: 0, hits: 0, misses: 0 },
            },
            dirty: false,
        }
    }

    fn find(&self, path: &str) -> (r: Option<usize>)
        ensures
            match r {
                Some(k) => entry_index(self@.files, path@) == Some(k as int) && k
                    < self.data.files@.len() && self@.files[k as int].1
                    == self.data.files@[k as int].entry@,
                None => entry_index(self@.files, path@) is None,
            },
    {
        let ghost files = self@.files;
        let mut k: usize = 0;
        while k < self.data.files.len()
            invariant
                k <= self.data.files.len(),
                files == self@.files,
                forall|j: int| 0 <= j < k ==> (#[trigger] files[j]).0 != path@,
            decreases self.data.files.len() - k,
        {
            assert(files[k as int] == (self.data.files@[k as int].path@, self.data.files@[k as int].entry@));
            if same_text(self.data.files[k].path.as_str(), path) {
                proof {
                    let chosen = entry_index(files, path@)->0;
                    if chosen < k {
                        assert(files[chosen].0 != path@);
                    } else if k < chosen {
                        assert(files[k as int].0 != path@);
                    }
                }
                return Some(k);
            }
            k += 1;
        }
        None
    }

    /// Takes over a snapshot that was read from the cache file, or starts an
    /// empty cache when there was no file. A snapshot in format version zero is
    /// brought to the current format.
    pub fn load_at(&mut self, snapshot: Option<CacheData>, now: u64) -> (r: Result<(), GuardianError>)
        ensures
            r is Ok,
            final(self).cache_path == old(self).cache_path,
            final(self)@ == loaded(old(self)@.dirty, snapshot, now),
            final(self).wf(),
    {
        match snapshot {
            Some(data) => {
                let ghost given = file_views(data.files@);
                self.data = CacheData {
                    version: data.version,
                    config_fingerprint: data.config_fingerprint,
                    files: Vec::new(),
                    metadata: data.metadata,
                };
                let mut i: usize = 0;
                assert(self@.files =~= taken_over(given, 0));
                while i < data.files.len()
                    invariant
                        i <= data.files.len(),
                        given == file_views(data.files@),
                        self.cache_path == old(self).cache_path,
                        self.dirty == old(self).dirty,
                        self.data.version == data.version,
                        self.data.config_fingerprint == data.config_fingerprint,
                        self.data.metadata == data.metadata,
                        self@.files == taken_over(given, i as int),
                        self.wf(),
                    decreases data.files.len() - i,
                {
                    let f = &data.files[i];
                    assert(given[i as int] == (f.path@, f.entry@));
                    self.put(CachedFile { path: f.path.clone(), entry: copy_entry(&f.entry) });
                    i += 1;
                }
                match self.migrate_if_needed() {
                    Ok(()) => {},
                    Err(e) => {
                        return Err(e);
                    },
                }
            },
            None => {
                self.data = CacheData {
                    version: CURRENT_VERSION,
                    config_fingerprint: None,
                    files: Vec::new(),
                    metadata: CacheMetadata { created_at: now, updated_at: now, hits: 0, misses: 0 },
                };
                self.dirty = true;
                assert(self@.files =~= Seq::<(Seq<char>, EntryView)>::empty());
            },
        }
        self.verify_integrity_on_operation()
    }

    /// Puts an entry in the place of the entry that its path had, or else
    /// behind all others.
    fn put(&mut self, file: CachedFile)
        ensures
            final(self).cache_path == old(self).cache_path,
            final(self).dirty == old(self).dirty,
            final(self).data.version == old(self).data.version,
            final(self).data.config_fingerprint == old(self).data.config_fingerprint,
            final(self).data.metadata == old(self).data.metadata,
            final(self)@.files == recorded(old(self)@.files, file.path@, file.entry@),
            old(self).wf() ==> final(self).wf(),
    {
        let ghost before = self@.files;
        proof {
            if distinct_paths(before) {
                lemma_recorded_distinct(before, file.path@, file.entry@);
            }
        }
        match self.find(file.path.as_str()) {
            Some(k) => {
                self.data.files.set(k, file);
                assert(self@.files =~= before.update(k as int, (file.path@, file.entry@)));
            },
            None => {
                self.data.files.push(file);
                assert(self@.files =~= before.push((file.path@, file.entry@)));
            },
        }
    }

    /// Takes over a snapshot, or starts an empty cache stamped with the whole
    /// seconds of a reading of the clock.
    pub fn load(&mut self, snapshot: Option<CacheData>) -> (r: Result<(), GuardianError>)
        ensures
            r is Ok,
            final(self).cache_path == old(self).cache_path,
            exists|at: Timestamp|
                final(self)@ == loaded(old(self)@.dirty, snapshot, #[trigger] whole_seconds(at)),
            final(self).wf(),
    {
        self.load_at(snapshot, current_timestamp())
    }

    /// Hands out what is to be written to the cache file, if anything changed
    /// since the last save, and marks the cache as saved.
    pub fn save_at(&mut self, now: u64) -> (r: Result<Option<CacheData>, GuardianError>)
        ensures
            saved_at(*old(self), now, *final(self), r),
    {
        if !self.dirty {
            return Ok(None);
        }
        match self.verify_integrity_on_operation() {
            Ok(()) => {},
            Err(e) => {
                return Err(e);
            },
        }
        self.data.metadata.updated_at = if now < self.data.metadata.created_at {
            self.data.metadata.created_at
        } else {
            now
        };
        let mut files: Vec<CachedFile> = Vec::new();
        let mut i: usize = 0;
        while i < self.data.files.len()
            invariant
                i <= self.data.files.len(),
                files@ == self.data.files@.take(i as int),
            decreases self.data.files.len() - i,
        {
            let f = &self.data.files[i];
            files.push(CachedFile { path: f.path.clone(), entry: copy_entry(&f.entry) });
            assert(files@ =~= self.data.files@.take(i + 1));
            i += 1;
        }
        assert(files@ =~= self.data.files@);
        let data = CacheData {
            version: self.data.version,
            config_fingerprint: copy_opt_text(&self.data.config_fingerprint),
            files,
            metadata: self.data.metadata,
        };
        self.dirty = false;
        Ok(Some(data))
    }

    /// Hands out what is to be written, stamped with the current time.
    pub fn save(&mut self) -> (r: Result<Option<CacheData>, GuardianError>)
        ensures
            saved(*old(self), *final(self), r),
    {
        self.save_at(current_timestamp())
    }

    /// The cheap checks on a file, which need its size and modification time
    /// but not its content. If they show that the file needs analysis, a miss
    /// is counted and nothing remains to be asked; it fails, and leaves the
    /// cache as it was, when the counter cannot be raised. If they do not, the
    /// cache is left as it was and the content is to be handed to
    /// [`FileCache::needs_analysis`].
    pub fn first_check(
        &mut self,
        file_path: &str,
        config_fingerprint: &str,
        size: u64,
        modified_at: u64,
    ) -> (r: Result<FirstCheck, GuardianError>)
        ensures
            final(self).cache_path == old(self).cache_path,
            ({
                let early = settled_early(
                    old(self)@,
                    file_path@,
                    config_fingerprint@,
                    size,
                    modified_at,
                );
                &&& r is Ok <==> (early ==> can_count(old(self)@, true))
                &&& r matches Ok(c) ==> (c is Miss <==> early)
                &&& r == Ok::<FirstCheck, GuardianError>(FirstCheck::Miss) ==> final(self)@
                    == checked(old(self)@, true)
                &&& r == Ok::<FirstCheck, GuardianError>(FirstCheck::ContentNeeded) ==> *final(self)
                    == *old(self)
                &&& r matches Err(e) ==> e is Cache && *final(self) == *old(self)
            }),
    {
        let early = match self.find(file_path) {
            Some(k) => {
                let entry = &self.data.files[k].entry;
                entry.size != size || entry.modified_at != modified_at || !same_text(
                    entry.config_fingerprint.as_str(),
                    config_fingerprint,
                )
            },
            None => true,
        };
        if !early {
            return Ok(FirstCheck::ContentNeeded);
        }
        if self.data.metadata.misses == u64::MAX {
            return Err(GuardianError::cache("Cache statistics cannot count another miss"));
        }
        self.data.metadata.misses += 1;
        self.dirty = true;
        Ok(FirstCheck::Miss)
    }

    /// Whether a file needs to be analyzed again, given its size, its
    /// modification time and its content as they are now. The cheap checks come
    /// first: the content is hashed only when everything else agrees. Every
    /// check counts as a hit or a miss; when the counter cannot be raised any
    /// further, the check fails and the cache is left as it was.
    pub fn needs_analysis(
        &mut self,
        file_path: &str,
        config_fingerprint: &str,
        size: u64,
        modified_at: u64,
        content: &[u8],
    ) -> (r: Result<bool, GuardianError>)
        ensures
            ({
                let now = FileState { size, modified_at, digest: content_digest(content@) };
                let miss = needs(old(self)@, file_path@, config_fingerprint@, now);
                &&& r is Ok <==> can_count(old(self)@, miss)
                &&& r matches Ok(b) ==> b == miss && final(self)@ == checked(old(self)@, miss)
                &&& r matches Err(e) ==> e is Cache && *final(self) == *old(self)
            }),
            final(self).cache_path == old(self).cache_path,
    {
        let miss = match self.find(file_path) {
            Some(k) => {
                let entry = &self.data.files[k].entry;
                if entry.size != size || entry.modified_at != modified_at {
                    true
                } else if !same_text(entry.config_fingerprint.as_str(), config_fingerprint) {
                    true
                } else {
                    let digest = calculate_file_hash(content);
                    !same_text(entry.content_hash.as_str(), digest.as_str())
                }
            },
            None => true,
        };
        if miss {
            if self.data.metadata.misses == u64::MAX {
                return Err(GuardianError::cache("Cache statistics cannot count another miss"));
            }
            self.data.metadata.misses += 1;
        } else {
            if self.data.metadata.hits == u64::MAX {
                return Err(GuardianError::cache("Cache statistics cannot count another hit"));
            }
            self.data.metadata.hits += 1;
        }
        self.dirty = true;
        Ok(miss)
    }

    /// Records a file as analyzed at the given time.
    pub fn record_entry(
        &mut self,
        file_path: &str,
        violation_count: usize,
        config_fingerprint: &str,
        size: u64,
        modified_at: u64,
        content: &[u8],
        analyzed_at: u64,
    ) -> (r: Result<(), GuardianError>)
        ensures
            r is Ok,
            old(self).wf() ==> final(self).wf(),
            final(self).cache_path == old(self).cache_path,
            final(self)@ == updated(
                old(self)@,
                file_path@,
                entry_for(
                    FileState { size, modified_at, digest: content_digest(content@) },
                    violation_count,
                    analyzed_at,
                    config_fingerprint@,
                ),
            ),
    {
        let entry = FileEntry {
            content_hash: calculate_file_hash(content),
            size,
            modified_at,
            violation_count,
            analyzed_at,
            config_fingerprint: config_fingerprint.to_owned(),
        };
        self.put(CachedFile { path: file_path.to_owned(), entry });
        self.dirty = true;
        Ok(())
    }

    /// Records a file as analyzed now: digest and metadata are taken anew and
    /// replace what the cache held for the path.
    pub fn update_entry(
        &mut self,
        file_path: &str,
        violation_count: usize,
        config_fingerprint: &str,
        size: u64,
        modified_at: u64,
        content: &[u8],
    ) -> (r: Result<(), GuardianError>)
        ensures
            r is Ok,
            old(self).wf() ==> final(self).wf(),
            final(self).cache_path == old(self).cache_path,
            exists|analyzed_at: u64|
                final(self)@ == updated(
                    old(self)@,
                    file_path@,
                    #[trigger] entry_for(
                        FileState { size, modified_at, digest: content_digest(content@) },
                        violation_count,
                        analyzed_at,
                        config_fingerprint@,
                    ),
                ),
    {
        let now = current_timestamp();
        self.record_entry(
            file_path,
            violation_count,
            config_fingerprint,
            size,
            modified_at,
            content,
            now,
        )
    }

    /// The activity of the cache.
    pub fn statistics(&self) -> (s: CacheStatistics)
        ensures
            s.total_files == self@.files.len(),
            s.cache_hits == self@.metadata.hits,
            s.cache_misses == self@.metadata.misses,
            s.created_at == self@.metadata.created_at,
            s.updated_at == self@.metadata.updated_at,
    {
        CacheStatistics {
            total_files: self.data.files.len(),
            cache_hits: self.data.metadata.hits,
            cache_misses: self.data.metadata.misses,
            created_at: self.data.metadata.created_at,
            updated_at: self.data.metadata.updated_at,
        }
    }

    /// Forgets every entry, as of the given time. The counts of hits and misses
    /// stay: they are never set back.
    pub fn clear_at(&mut self, now: u64)
        ensures
            final(self).cache_path == old(self).cache_path,
            final(self).wf(),
            final(self)@ == cleared(old(self)@, now),
    {
        self.data.files = Vec::new();
        self.data.metadata.updated_at = if now < self.data.metadata.created_at {
            self.data.metadata.created_at
        } else {
            now
        };
        self.dirty = true;
        assert(self@.files =~= Seq::<(Seq<char>, EntryView)>::empty());
    }

    /// Forgets every entry, as of the whole seconds of a reading of the
    /// clock. The counts of hits and misses stay.
    pub fn clear(&mut self) -> (r: Result<(), GuardianError>)
        ensures
            r is Ok,
            final(self).wf(),
            final(self).cache_path == old(self).cache_path,
            exists|at: Timestamp| final(self)@ == cleared(old(self)@, #[trigger] whole_seconds(at)),
    {
        self.clear_at(current_timestamp());
        Ok(())
    }

    /// The paths that the cache holds entries for, in order.
    pub fn cached_paths(&self) -> (paths: Vec<String>)
        ensures
            paths@.len() == self@.files.len(),
            forall|i: int| 0 <= i < paths@.len() ==> (#[trigger] paths@[i])@ == self@.files[i].0,
    {
        let mut paths: Vec<String> = Vec::new();
        let mut i: usize = 0;
        while i < self.data.files.len()
            invariant
                i <= self.data.files.len(),
                paths@.len() == i,
                forall|j: int| 0 <= j < i ==> (#[trigger] paths@[j])@ == self@.files[j].0,
            decreases self.data.files.len() - i,
        {
            paths.push(self.data.files[i].path.clone());
            i += 1;
        }
        paths
    }

    /// Drops the entries of files that no longer exist: `exists[i]` says
    /// whether the file of the entry at position `i` is still there. Counts of
    /// hits and misses stay as they are.
    pub fn cleanup(&mut self, exists: &Vec<bool>) -> (r: Result<usize, GuardianError>)
        ensures
            r is Ok,
            old(self).wf() ==> final(self).wf(),
            final(self).cache_path == old(self).cache_path,
            final(self)@ == (CacheView {
                files: retained(old(self)@.files, exists@, old(self)@.files.len() as int),
                dirty: old(self)@.dirty || r->Ok_0 > 0,
                ..old(self)@
            }),
            r->Ok_0 == old(self)@.files.len() - final(self)@.files.len(),
    {
        let ghost before = self@.files;
        let mut kept: Vec<CachedFile> = Vec::new();
        let mut removed: usize = 0;
        let mut i: usize = 0;
        assert(file_views(kept@) =~= retained(before, exists@, 0));
        while i < self.data.files.len()
            invariant
                i <= self.data.files.len(),
                *self == *old(self),
                before == self@.files,
                file_views(kept@) == retained(before, exists@, i as int),
                removed + kept@.len() == i,
            decreases self.data.files.len() - i,
        {
            let f = &self.data.files[i];
            assert(before[i as int] == (f.path@, f.entry@));
            if i < exists.len() && !exists[i] {
                removed += 1;
            } else {
                let copy = CachedFile { path: f.path.clone(), entry: copy_entry(&f.entry) };
                assert(file_views(kept@.push(copy)) =~= file_views(kept@).push((f.path@, f.entry@)));
                kept.push(copy);
            }
            i += 1;
        }
        assert(file_views(kept@).len() == kept@.len());
        proof {
            if distinct_paths(before) {
                lemma_retained_distinct(before, exists@, before.len() as int);
            }
        }
        self.data.files = kept;
        if removed > 0 {
            self.dirty = true;
        }
        Ok(removed)
    }

    /// Remembers the fingerprint of the configuration in use.
    pub fn set_config_fingerprint(&mut self, fingerprint: String)
        ensures
            final(self).cache_path == old(self).cache_path,
            final(self)@ == with_fingerprint(old(self)@, fingerprint@),
    {
        let same = match &self.data.config_fingerprint {
            Some(f) => same_text(f.as_str(), fingerprint.as_str()),
            None => false,
        };
        if !same {
            self.data.config_fingerprint = Some(fingerprint);
            self.dirty = true;
        }
    }

    /// Brings a cache in an older format to the current one. Format zero is the
    /// only older format.
    pub fn migrate_if_needed(&mut self) -> (r: Result<(), GuardianError>)
        ensures
            r is Ok,
            final(self).cache_path == old(self).cache_path,
            final(self)@ == (CacheView {
                version: if old(self)@.version == 0 {
                    CURRENT_VERSION
                } else {
                    old(self)@.version
                },
                dirty: old(self)@.dirty || old(self)@.version == 0,
                ..old(self)@
            }),
    {
        if self.data.version < CURRENT_VERSION {
            match self.data.version {
                0 => {
                    self.data.version = 1;
                    self.dirty = true;
                },
                _ => {
                    let n = number_text(self.data.version);
                    return Err(
                        GuardianError::Cache {
                            message: concat3(
                                "Unsupported cache version: ",
                                n.as_str(),
                                ". Please delete the cache file.",
                            ),
                        },
                    );
                },
            }
        }
        Ok(())
    }

    /// Checks that the cache was not updated before it was created.
    pub fn validate_cache_coherence(&self) -> (r: Result<(), GuardianError>)
        ensures
            r is Ok <==> is_coherent(self@),
            r matches Err(e) ==> e@ == (ErrorView::Cache {
                message: "Temporal coherence violation - cache timeline is inconsistent"@,
            }),
    {
        if self.data.metadata.created_at > self.data.metadata.updated_at {
            return Err(
                GuardianError::cache("Temporal coherence violation - cache timeline is inconsistent"),
            );
        }
        Ok(())
    }

    /// Checks that the cache has a format version.
    pub fn verify_integrity_on_operation(&self) -> (r: Result<(), GuardianError>)
        ensures
            r is Ok <==> self@.version != 0,
            r matches Err(e) ==> e@ == (ErrorView::Cache {
                message: "Cache version coherence violation - invalid version state"@,
            }),
    {
        if self.data.version == 0 {
            return Err(
                GuardianError::cache("Cache version coherence violation - invalid version state"),
            );
        }
        Ok(())
    }
}

impl CacheStatistics {
    /// The share of hits among all checks, in thousandths.
    pub fn hit_rate_per_mille(&self) -> (r: u64)
        ensures
            r == hit_rate_per_mille(self.cache_hits, self.cache_misses),
            0 <= r <= 1000,
    {
        let hits = self.cache_hits as u128;
        let all = self.cache_hits as u128 + self.cache_misses as u128;
        if all == 0 {
            return 0;
        }
        let r = (hits * 1000) / all;
        assert(r <= 1000) by (nonlinear_arith)
            requires
                r as int == (hits as int * 1000) / (all as int),
                0 <= hits as int <= all as int,
                all as int > 0,
        ;
        r as u64
    }
}

// ---------------------------------------------------------------------------
// What follows from the operations
// ---------------------------------------------------------------------------

/// Recording a file makes it valid: a file that was recorded as it is now,
/// under the fingerprint in use, does not need analysis.
pub proof fn lemma_recorded_file_is_valid(
    c: CacheView,
    path: Seq<char>,
    fingerprint: Seq<char>,
    now: FileState,
    violation_count: usize,
    analyzed_at: u64,
)
    ensures
        !needs(
            updated(c, path, entry_for(now, violation_count, analyzed_at, fingerprint)),
            path,
            fingerprint,
            now,
        ),
{
    let entry = entry_for(now, violation_count, analyzed_at, fingerprint);
    lemma_recorded_entry(c.files, path, entry);
}

/// After an entry was recorded for a path, it is the entry of the path, and the
/// entries of all other paths are as before.
pub proof fn lemma_recorded_entry(files: Seq<(Seq<char>, EntryView)>, path: Seq<char>, entry: EntryView)
    ensures
        entry_of(recorded(files, path, entry), path) == Some(entry),
        forall|other: Seq<char>|
            other != path ==> entry_of(recorded(files, path, entry), other) == entry_of(
                files,
                other,
            ),
{
    let after = recorded(files, path, entry);
    lemma_entry_index(files, path);
    match entry_index(files, path) {
        Some(k) => {
            assert(after[k].0 == path);
            assert forall|j: int| 0 <= j < k implies (#[trigger] after[j]).0 != path by {
                assert(after[j] == files[j]);
            }
            lemma_entry_index_is(after, path, k);
        },
        None => {
            assert(after[files.len() as int].0 == path);
            assert forall|j: int| 0 <= j < files.len() implies (#[trigger] after[j]).0 != path by {
                assert(after[j] == files[j]);
            }
            lemma_entry_index_is(after, path, files.len() as int);
        },
    }
    assert forall|other: Seq<char>| other != path implies entry_of(after, other) == entry_of(
        files,
        other,
    ) by {
        lemma_entry_index(files, other);
        lemma_entry_index(after, other);
        match entry_index(files, other) {
            Some(k) => {
                assert(after[k] == files[k]);
                assert forall|j: int| 0 <= j < k implies (#[trigger] after[j]).0 != other by {
                    if after[j] != files[j] {
                        assert(after[j].0 == path);
                    }
                }
                lemma_entry_index_is(after, other, k);
            },
            None => {
                assert forall|j: int| 0 <= j < after.len() implies (#[trigger] after[j]).0
                    != other by {
                    if j < files.len() && after[j] == files[j] {
                    } else {
                        assert(after[j].0 == path);
                    }
                }
            },
        }
    }
}

proof fn lemma_entry_index(files: Seq<(Seq<char>, EntryView)>, path: Seq<char>)
    ensures
        match entry_index(files, path) {
            Some(k) => 0 <= k < files.len() && files[k].0 == path && forall|j: int|
                0 <= j < k ==> (#[trigger] files[j]).0 != path,
            None => forall|j: int| 0 <= j < files.len() ==> (#[trigger] files[j]).0 != path,
        },
{
    if exists|k: int| 0 <= k < files.len() && (#[trigger] files[k]).0 == path {
        let w = choose|k: int| 0 <= k < files.len() && (#[trigger] files[k]).0 == path;
        lemma_first_exists(files, path, w);
    }
}

proof fn lemma_first_exists(files: Seq<(Seq<char>, EntryView)>, path: Seq<char>, w: int)
    requires
        0 <= w < files.len(),
        files[w].0 == path,
    ensures
        exists|k: int|
            0 <= k < files.len() && (#[trigger] files[k]).0 == path && forall|j: int|
                0 <= j < k ==> (#[trigger] files[j]).0 != path,
    decreases w,
{
    if exists|j: int| 0 <= j < w && (#[trigger] files[j]).0 == path {
        let j = choose|j: int| 0 <= j < w && (#[trigger] files[j]).0 == path;
        lemma_first_exists(files, path, j);
    } else {
        assert(files[w].0 == path && forall|j: int| 0 <= j < w ==> (#[trigger] files[j]).0 != path);
    }
}

proof fn lemma_entry_index_is(files: Seq<(Seq<char>, EntryView)>, path: Seq<char>, k: int)
    requires
        0 <= k < files.len(),
        files[k].0 == path,
        forall|j: int| 0 <= j < k ==> (#[trigger] files[j]).0 != path,
    ensures
        entry_index(files, path) == Some(k),
{
    lemma_entry_index(files, path);
    let chosen = entry_index(files, path)->0;
    if chosen < k {
        assert(files[chosen].0 != path);
    } else if k < chosen {
        assert(files[k].0 != path);
    }
}

/// Recording an entry leaves each path with at most one entry.
pub proof fn lemma_recorded_distinct(
    files: Seq<(Seq<char>, EntryView)>,
    path: Seq<char>,
    entry: EntryView,
)
    requires
        distinct_paths(files),
    ensures
        distinct_paths(recorded(files, path, entry)),
{
    let after = recorded(files, path, entry);
    lemma_entry_index(files, path);
    assert forall|i: int, j: int| 0 <= i < j < after.len() implies (#[trigger] after[i]).0 != (
    #[trigger] after[j]).0 by {
        match entry_index(files, path) {
            Some(k) => {
                assert(after[i].0 == files[i].0);
                assert(after[j].0 == files[j].0);
            },
            None => {
                assert(after[i] == files[i]);
                if j < files.len() {
                    assert(after[j] == files[j]);
                }
            },
        }
    }
}

/// Entries taken over one by one leave each path with at most one entry.
pub proof fn lemma_taken_over_distinct(files: Seq<(Seq<char>, EntryView)>, n: int)
    ensures
        distinct_paths(taken_over(files, n)),
    decreases n,
{
    if n > 0 {
        lemma_taken_over_distinct(files, n - 1);
        lemma_recorded_distinct(taken_over(files, n - 1), files[n - 1].0, files[n - 1].1);
    }
}

/// A snapshot in which no path has two entries is taken over as it is.
pub proof fn lemma_taken_over_as_is(files: Seq<(Seq<char>, EntryView)>, n: int)
    requires
        distinct_paths(files),
        0 <= n <= files.len(),
    ensures
        taken_over(files, n) == files.take(n),
    decreases n,
{
    if n > 0 {
        lemma_taken_over_as_is(files, n - 1);
        let before = files.take(n - 1);
        lemma_entry_index(before, files[n - 1].0);
        if entry_index(before, files[n - 1].0) is Some {
            let k = entry_index(before, files[n - 1].0)->0;
            assert(before[k] == files[k]);
            assert(files[k].0 != files[n - 1].0);
        }
        assert(before.push((files[n - 1].0, files[n - 1].1)) =~= files.take(n));
    } else {
        assert(files.take(0) =~= Seq::<(Seq<char>, EntryView)>::empty());
    }
}

/// Whether `x` is one of the first `n` entries.
pub open spec fn stands_among(
    files: Seq<(Seq<char>, EntryView)>,
    n: int,
    x: (Seq<char>, EntryView),
) -> bool {
    exists|k: int| 0 <= k < n && #[trigger] files[k] == x
}

/// A cleanup leaves each path with at most one entry: every entry that it
/// keeps stood among the entries before, in the same order.
pub proof fn lemma_retained_distinct(files: Seq<(Seq<char>, EntryView)>, exists: Seq<bool>, n: int)
    requires
        distinct_paths(files),
        0 <= n <= files.len(),
    ensures
        distinct_paths(retained(files, exists, n)),
        forall|i: int|
            0 <= i < retained(files, exists, n).len() ==> stands_among(
                files,
                n,
                #[trigger] retained(files, exists, n)[i],
            ),
    decreases n,
{
    if n > 0 {
        lemma_retained_distinct(files, exists, n - 1);
        let before = retained(files, exists, n - 1);
        let after = retained(files, exists, n);
        assert forall|i: int| 0 <= i < before.len() implies stands_among(
            files,
            n,
            #[trigger] before[i],
        ) by {
            assert(stands_among(files, n - 1, before[i]));
            let k = choose|k: int| 0 <= k < n - 1 && #[trigger] files[k] == before[i];
            assert(files[k] == before[i]);
        }
        if n - 1 < exists.len() && !exists[n - 1] {
        } else {
            assert forall|i: int| 0 <= i < after.len() implies stands_among(
                files,
                n,
                #[trigger] after[i],
            ) by {
                if i < before.len() {
                    assert(after[i] == before[i]);
                } else {
                    assert(files[n - 1] == after[i]);
                }
            }
            assert forall|i: int, j: int| 0 <= i < j < after.len() implies (#[trigger] after[i]).0
                != (#[trigger] after[j]).0 by {
                if j < before.len() {
                    assert(after[i] == before[i] && after[j] == before[j]);
                } else {
                    assert(after[i] == before[i]);
                    assert(stands_among(files, n - 1, before[i]));
                    let k = choose|k: int| 0 <= k < n - 1 && #[trigger] files[k] == before[i];
                    assert(files[k].0 != files[n - 1].0);
                }
            }
        }
    }
}

/// A file that has not changed is analyzed once: after it was recorded, a check
/// under the same fingerprint says that it needs no analysis, counts one hit
/// and no miss, and goes on saying so.
pub proof fn lemma_unchanged_file_hits(
    c: CacheView,
    path: Seq<char>,
    fingerprint: Seq<char>,
    now: FileState,
    violation_count: usize,
    analyzed_at: u64,
)
    requires
        c.metadata.hits < u64::MAX,
    ensures
        ({
            let after = updated(c, path, entry_for(now, violation_count, analyzed_at, fingerprint));
            let miss = needs(after, path, fingerprint, now);
            let then = checked(after, miss);
            &&& !miss
            &&& then.metadata.hits == c.metadata.hits + 1
            &&& then.metadata.misses == c.metadata.misses
            &&& !needs(then, path, fingerprint, now)
        }),
{
    lemma_recorded_file_is_valid(c, path, fingerprint, now, violation_count, analyzed_at);
}

/// A change of the content that changes its digest is noticed, whatever size and
/// modification time say.
pub proof fn lemma_changed_content_misses(
    c: CacheView,
    path: Seq<char>,
    fingerprint: Seq<char>,
    before: FileState,
    now: FileState,
    violation_count: usize,
    analyzed_at: u64,
)
    requires
        now.digest != before.digest,
    ensures
        needs(
            updated(c, path, entry_for(before, violation_count, analyzed_at, fingerprint)),
            path,
            fingerprint,
            now,
        ),
{
    let entry = entry_for(before, violation_count, analyzed_at, fingerprint);
    lemma_recorded_entry(c.files, path, entry);
}

/// What the cheap checks settle stays settled: a file that they show to need
/// analysis needs it whatever its content is, so the first check and the full
/// check agree on it.
pub proof fn lemma_first_check_agrees(
    c: CacheView,
    path: Seq<char>,
    fingerprint: Seq<char>,
    now: FileState,
)
    requires
        settled_early(c, path, fingerprint, now.size, now.modified_at),
    ensures
        needs(c, path, fingerprint, now),
{
}

/// What the cheap checks leave open is decided by the digest alone.
pub proof fn lemma_content_decides(
    c: CacheView,
    path: Seq<char>,
    fingerprint: Seq<char>,
    now: FileState,
)
    requires
        !settled_early(c, path, fingerprint, now.size, now.modified_at),
    ensures
        entry_of(c.files, path) is Some,
        needs(c, path, fingerprint, now) <==> entry_of(c.files, path)->0.content_hash != now.digest,
{
}

/// Forgetting the entries sets no counter back.
pub proof fn lemma_clearing_keeps_counters(c: CacheView, now: u64)
    ensures
        cleared(c, now).metadata.hits == c.metadata.hits,
        cleared(c, now).metadata.misses == c.metadata.misses,
        cleared(c, now).files.len() == 0,
        is_coherent(cleared(c, now)),
{
}

/// Recording a file and remembering a fingerprint leave the counters as they
/// are: only a check changes a counter, and a check raises it.
pub proof fn lemma_records_keep_counters(
    c: CacheView,
    path: Seq<char>,
    entry: EntryView,
    fingerprint: Seq<char>,
)
    ensures
        updated(c, path, entry).metadata == c.metadata,
        with_fingerprint(c, fingerprint).metadata == c.metadata,
{
}

/// A check never lowers a counter, and the hits never exceed the checks.
pub proof fn lemma_counters_grow(c: CacheView, miss: bool)
    requires
        can_count(c, miss),
    ensures
        checked(c, miss).metadata.hits >= c.metadata.hits,
        checked(c, miss).metadata.misses >= c.metadata.misses,
        checked(c, miss).metadata.hits + checked(c, miss).metadata.misses == c.metadata.hits
            + c.metadata.misses + 1,
        0 <= hit_rate_per_mille(c.metadata.hits, c.metadata.misses) <= 1000,
{
    let hits = c.metadata.hits as int;
    let all = c.metadata.hits + c.metadata.misses;
    if all > 0 {
        assert(0 <= (hits * 1000) / all <= 1000) by (nonlinear_arith)
            requires
                0 <= hits <= all,
                all > 0,
        ;
    }
}

} // verus!
