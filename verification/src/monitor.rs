//! Decisions of the folder watcher: which files are media, when an event is a
//! repeat, when a growing file has settled, and its SHA-1 checksum.

use vstd::prelude::*;
use sha1::Digest;
use crate::keyed::KeyedList;
use crate::text::{push_char, same_text, path_extension, to_lowercase, path_extension_of, lowercase};

verus! {

/// A running `sha1::Sha1` hasher, held opaquely and described by what it has
/// absorbed.
#[verifier::external_body]
pub struct Sha1Hasher {
    inner: sha1::Sha1,
}

/// The bytes fed to a hasher since it was started.
pub uninterp spec fn sha1_absorbed(h: Sha1Hasher) -> Seq<u8>;

/// The SHA-1 digest of a byte sequence, as `sha1::Sha1` computes it.
pub uninterp spec fn sha1_digest_of(data: Seq<u8>) -> Seq<u8>;

/// Starts a hasher with `sha1::Sha1::new`; it has absorbed nothing.
#[verifier::external_body]
fn sha1_start() -> (h: Sha1Hasher)
    ensures
        sha1_absorbed(h) == Seq::<u8>::empty(),
{
    Sha1Hasher { inner: sha1::Sha1::new() }
}

/// Feeds bytes to a hasher with `Digest::update`; they are appended to what it
/// has absorbed.
#[verifier::external_body]
fn sha1_feed(h: &mut Sha1Hasher, data: &[u8])
    ensures
        sha1_absorbed(*final(h)) == sha1_absorbed(*old(h)) + data@,
{
    h.inner.update(data);
}

/// Finishes a hasher with `Digest::finalize`: the 20-byte SHA-1 digest of
/// everything it absorbed, named `sha1_digest_of`.
#[verifier::external_body]
fn sha1_finish(h: Sha1Hasher) -> (d: Vec<u8>)
    ensures
        d@ == sha1_digest_of(sha1_absorbed(h)),
        d@.len() == 20,
{
    h.inner.finalize().to_vec()
}

/// Lower-case hexadecimal digit for `d` (expected to be below sixteen).
pub open spec fn hex_digit(d: nat) -> char {
    if d < 10 {
        crate::text::digit_char(d)
    } else if d == 10 { 'a' }
    else if d == 11 { 'b' }
    else if d == 12 { 'c' }
    else if d == 13 { 'd' }
    else if d == 14 { 'e' }
    else { 'f' }
}

/// Two lower-case hexadecimal digits per byte, most significant first.
pub open spec fn hex_lower(bytes: Seq<u8>) -> Seq<char>
    decreases bytes.len(),
{
    if bytes.len() == 0 {
        Seq::empty()
    } else {
        hex_lower(bytes.drop_last()).push(hex_digit(bytes.last() as nat / 16)).push(
            hex_digit(bytes.last() as nat % 16),
        )
    }
}

fn hex_char(d: u8) -> (c: char)
    requires
        d < 16,
    ensures
        c == hex_digit(d as nat),
{
    if d == 0 { '0' }
    else if d == 1 { '1' }
    else if d == 2 { '2' }
    else if d == 3 { '3' }
    else if d == 4 { '4' }
    else if d == 5 { '5' }
    else if d == 6 { '6' }
    else if d == 7 { '7' }
    else if d == 8 { '8' }
    else if d == 9 { '9' }
    else if d == 10 { 'a' }
    else if d == 11 { 'b' }
    else if d == 12 { 'c' }
    else if d == 13 { 'd' }
    else if d == 14 { 'e' }
    else { 'f' }
}

/// Renders bytes as lower-case hexadecimal.
pub fn to_hex_lower(bytes: &[u8]) -> (res: String)
    ensures
        res@ == hex_lower(bytes@),
{
    let mut res = String::new();
    let n = bytes.len();
    let mut i: usize = 0;
    while i < n
        invariant
            n == bytes@.len(),
            i <= n,
            res@ == hex_lower(bytes@.subrange(0, i as int)),
        decreases n - i,
    {
        let b = bytes[i];
        push_char(&mut res, hex_char(b / 16));
        push_char(&mut res, hex_char(b % 16));
        assert(bytes@.subrange(0, i + 1).drop_last() =~= bytes@.subrange(0, i as int));
        i = i + 1;
    }
    assert(bytes@.subrange(0, n as int) =~= bytes@);
    res
}

/// Computes the SHA-1 checksum of a file fed to it chunk by chunk.
pub struct ChecksumBuilder {
    hasher: Sha1Hasher,
}

impl ChecksumBuilder {
    /// The bytes fed so far.
    pub closed spec fn absorbed(&self) -> Seq<u8> {
        sha1_absorbed(self.hasher)
    }

    /// A builder that has seen no bytes.
    pub fn new() -> (b: ChecksumBuilder)
        ensures
            b.absorbed() == Seq::<u8>::empty(),
    {
        ChecksumBuilder { hasher: sha1_start() }
    }

    /// Feeds the next chunk of the file.
    pub fn update(&mut self, chunk: &[u8])
        ensures
            final(self).absorbed() == old(self).absorbed() + chunk@,
    {
        sha1_feed(&mut self.hasher, chunk);
    }

    /// The checksum of everything fed, as 40 lower-case hexadecimal digits.
    pub fn finish_hex(self) -> (hex: String)
        ensures
            hex@ == hex_lower(sha1_digest_of(self.absorbed())),
    {
        let digest = sha1_finish(self.hasher);
        to_hex_lower(digest.as_slice())
    }
}

/// The SHA-1 checksum of `data` in lower-case hexadecimal.
pub fn sha1_hex(data: &[u8]) -> (hex: String)
    ensures
        hex@ == hex_lower(sha1_digest_of(data@)),
{
    let mut b = ChecksumBuilder::new();
    b.update(data);
    assert(Seq::<u8>::empty() + data@ =~= data@);
    b.finish_hex()
}

/// Whether a lower-cased extension is one of the media types that are uploaded.
pub open spec fn is_media_ext(e: Seq<char>) -> bool {
    e == "jpg"@ || e == "jpeg"@ || e == "png"@ || e == "heic"@ || e == "mp4"@ || e == "mov"@
        || e == "gif"@ || e == "webp"@ || e == "tiff"@ || e == "tif"@ || e == "raw"@
        || e == "arw"@ || e == "dng"@
}

/// Whether the file at `path` is a media file, judged by its extension
/// regardless of case.
pub open spec fn is_media_path(path: Seq<char>) -> bool {
    match path_extension_of(path) {
        Some(e) => is_media_ext(lowercase(e)),
        None => false,
    }
}

/// The extensions of the files that are uploaded.
pub open spec fn media_whitelist() -> Seq<Seq<char>> {
    seq![
        "jpg"@, "jpeg"@, "png"@, "heic"@, "mp4"@, "mov"@, "gif"@, "webp"@, "tiff"@, "tif"@,
        "raw"@, "arw"@, "dng"@,
    ]
}

/// Exactly the listed extensions are media: a path is a media path iff its
/// extension, lower-cased, is one of `jpg, jpeg, png, heic, mp4, mov, gif,
/// webp, tiff, tif, raw, arw, dng`.
pub proof fn lemma_media_whitelist(e: Seq<char>, path: Seq<char>)
    ensures
        forall|i: int| 0 <= i < media_whitelist().len() ==> is_media_ext(#[trigger] media_whitelist()[i]),
        is_media_ext(e) <==> media_whitelist().contains(e),
        media_whitelist().len() == 13,
        is_media_path(path) <==> (path_extension_of(path) is Some
            && media_whitelist().contains(lowercase(path_extension_of(path)->0))),
{
    let w = media_whitelist();
    assert(w[0] == "jpg"@ && w[1] == "jpeg"@ && w[2] == "png"@ && w[3] == "heic"@ && w[4] == "mp4"@
        && w[5] == "mov"@ && w[6] == "gif"@ && w[7] == "webp"@ && w[8] == "tiff"@ && w[9] == "tif"@
        && w[10] == "raw"@ && w[11] == "arw"@ && w[12] == "dng"@);
    assert forall|x: Seq<char>| is_media_ext(x) implies w.contains(x) by {
        if x == "jpg"@ { assert(w[0] == x); }
        else if x == "jpeg"@ { assert(w[1] == x); }
        else if x == "png"@ { assert(w[2] == x); }
        else if x == "heic"@ { assert(w[3] == x); }
        else if x == "mp4"@ { assert(w[4] == x); }
        else if x == "mov"@ { assert(w[5] == x); }
        else if x == "gif"@ { assert(w[6] == x); }
        else if x == "webp"@ { assert(w[7] == x); }
        else if x == "tiff"@ { assert(w[8] == x); }
        else if x == "tif"@ { assert(w[9] == x); }
        else if x == "raw"@ { assert(w[10] == x); }
        else if x == "arw"@ { assert(w[11] == x); }
        else { assert(w[12] == x); }
    }
}

/// Whether a lower-cased extension is one of the media types that are uploaded.
pub fn media_extension(e: &str) -> (b: bool)
    ensures
        b == is_media_ext(e@),
{
    same_text(e, "jpg") || same_text(e, "jpeg") || same_text(e, "png") || same_text(e, "heic")
        || same_text(e, "mp4") || same_text(e, "mov") || same_text(e, "gif")
        || same_text(e, "webp") || same_text(e, "tiff") || same_text(e, "tif")
        || same_text(e, "raw") || same_text(e, "arw") || same_text(e, "dng")
}

/// Whether the file at `path` has a media extension (any case).
pub fn is_media_file(path: &str) -> (b: bool)
    ensures
        b == is_media_path(path@),
{
    match path_extension(path) {
        Some(e) => {
            let lower = to_lowercase(e.as_str());
            media_extension(lower.as_str())
        },
        None => false,
    }
}

/// Whether a watcher event on `path` starts processing: it must create or
/// modify something, must not be a directory and must be a media file.
pub fn accepts_event_path(creates_or_modifies: bool, is_dir: bool, path: &str) -> (b: bool)
    ensures
        b == (creates_or_modifies && !is_dir && is_media_path(path@)),
{
    creates_or_modifies && !is_dir && is_media_file(path)
}

/// Events for one path closer together than this many nanoseconds count as
/// one.
pub open spec fn debounce_window_ns() -> nat {
    2_000_000_000
}

/// `a - b`, or zero when `b` exceeds `a` (a clock that reads earlier than a
/// recorded instant gives no elapsed time).
pub open spec fn elapsed(now: nat, then: nat) -> nat {
    if now >= then { (now - then) as nat } else { 0 }
}

/// Remembers when each path last started processing, to drop repeated events.
pub struct Debouncer {
    seen: KeyedList<u64>,
}

impl Debouncer {
    /// Path to the instant (nanoseconds on a monotonic clock) it last passed.
    pub closed spec fn last_seen(&self) -> Map<Seq<char>, u64> {
        self.seen.map()
    }

    /// Internal consistency.
    pub closed spec fn wf(&self) -> bool {
        self.seen.wf()
    }

    /// A debouncer that has seen nothing.
    pub fn new() -> (d: Debouncer)
        ensures
            d.wf(),
            d.last_seen() == Map::<Seq<char>, u64>::empty(),
    {
        Debouncer { seen: KeyedList::new() }
    }

    /// An event for `path` at `now_ns`: passes unless the path passed less
    /// than (or exactly) two seconds ago; a passing event is remembered.
    pub fn observe(&mut self, path: String, now_ns: u64) -> (pass: bool)
        requires
            old(self).wf(),
        ensures
            final(self).wf(),
            pass == debounce_pass(old(self).last_seen(), path@, now_ns),
            pass ==> final(self).last_seen() == old(self).last_seen().insert(path@, now_ns),
            !pass ==> final(self).last_seen() == old(self).last_seen(),
    {
        let pass = match self.seen.get(path.as_str()) {
            Some(last) => {
                let e: u64 = if now_ns >= *last { now_ns - *last } else { 0 };
                e > 2_000_000_000
            },
            None => true,
        };
        if pass {
            self.seen.insert(path, now_ns);
        }
        pass
    }
}

/// Whether a debouncer with record `seen` lets an event for `path` at `now` pass.
pub open spec fn debounce_pass(seen: Map<Seq<char>, u64>, path: Seq<char>, now: u64) -> bool {
    !seen.contains_key(path) || elapsed(now as nat, seen[path] as nat) > debounce_window_ns()
}

/// Whether an event for `path` at `now` starts a settle-wait: the path must
/// not have one running already, and the debouncer must let it pass.
pub open spec fn gate_pass(in_flight: Set<Seq<char>>, seen: Map<Seq<char>, u64>, path: Seq<char>, now: u64) -> bool {
    !in_flight.contains(path) && debounce_pass(seen, path, now)
}

/// Decides which watcher events start a settle-wait for their file: repeats
/// within the debounce window are dropped, and so is every event for a path
/// whose wait is still running.
pub struct EventGate {
    debouncer: Debouncer,
    running: KeyedList<()>,
}

impl EventGate {
    /// Paths whose settle-wait is running.
    pub closed spec fn in_flight(&self) -> Set<Seq<char>> {
        self.running.map().dom()
    }

    /// Path to the instant it last passed the debouncer.
    pub closed spec fn last_seen(&self) -> Map<Seq<char>, u64> {
        self.debouncer.last_seen()
    }

    /// Internal consistency.
    pub closed spec fn wf(&self) -> bool {
        self.debouncer.wf() && self.running.wf()
    }

    /// A gate with nothing running and nothing seen.
    pub fn new() -> (g: EventGate)
        ensures
            g.wf(),
            g.in_flight() == Set::<Seq<char>>::empty(),
            g.last_seen() == Map::<Seq<char>, u64>::empty(),
    {
        let g = EventGate { debouncer: Debouncer::new(), running: KeyedList::new() };
        assert(g.in_flight() =~= Set::<Seq<char>>::empty());
        g
    }

    /// An event for `path` at `now_ns`. It passes when no wait for the path is
    /// running and the debouncer lets it through; a passing path is recorded
    /// as seen at `now_ns` and as running. A path with a running wait changes
    /// nothing.
    pub fn let_through(&mut self, path: String, now_ns: u64) -> (pass: bool)
        requires
            old(self).wf(),
        ensures
            final(self).wf(),
            pass == gate_pass(old(self).in_flight(), old(self).last_seen(), path@, now_ns),
            pass ==> final(self).in_flight() == old(self).in_flight().insert(path@)
                && final(self).last_seen() == old(self).last_seen().insert(path@, now_ns),
            !pass ==> final(self).in_flight() == old(self).in_flight()
                && final(self).last_seen() == old(self).last_seen(),
    {
        if self.running.position(path.as_str()).is_some() {
            return false;
        }
        let key = path.clone();
        let pass = self.debouncer.observe(path, now_ns);
        if pass {
            self.running.insert(key, ());
            assert(self.in_flight() =~= old(self).in_flight().insert(key@));
        }
        pass
    }

    /// The settle-wait for `path` ended (whatever its outcome).
    pub fn release(&mut self, path: &str)
        requires
            old(self).wf(),
        ensures
            final(self).wf(),
            final(self).in_flight() == old(self).in_flight().remove(path@),
            final(self).last_seen() == old(self).last_seen(),
    {
        self.running.remove(path);
        assert(self.in_flight() =~= old(self).in_flight().remove(path@));
    }
}

/// Once a path has started a settle-wait, no later event for it starts
/// another until the wait is released; after the release it is judged by the
/// debouncer alone.
pub proof fn lemma_one_wait_per_path(
    in_flight: Set<Seq<char>>,
    seen: Map<Seq<char>, u64>,
    path: Seq<char>,
    t2: u64,
)
    ensures
        !gate_pass(in_flight.insert(path), seen, path, t2),
        gate_pass(in_flight.insert(path).remove(path), seen, path, t2) == debounce_pass(seen, path, t2),
{
}

/// An event that passed is followed by a dropped one when the same path comes
/// back within the window.
pub proof fn lemma_repeat_within_window_dropped(seen: Map<Seq<char>, u64>, path: Seq<char>, t: u64, t2: u64)
    requires
        t <= t2,
        t2 - t <= debounce_window_ns(),
    ensures
        !debounce_pass(seen.insert(path, t), path, t2),
{
}

/// How long a file may stay unchanged in size before waiting gives up,
/// counted from its last size change, in nanoseconds.
pub open spec fn idle_timeout_ns() -> nat {
    300_000_000_000
}

/// What to do after one size check of a file being written.
pub enum WaitStep {
    /// Check again after the interval.
    KeepWaiting,
    /// The size held steady long enough; the file is complete.
    Complete,
    /// The file vanished or could not be read.
    GiveUp,
}

/// Tracks the size of a file that is still being written until it holds
/// steady for three consecutive checks after the first sighting.
pub struct CompletionWatch {
    pub last_size: i64,
    pub stable_count: u32,
    pub last_change_ns: u64,
    /// Every size observed so far, oldest first.
    pub observed: Ghost<Seq<i64>>,
}

impl CompletionWatch {
    /// The counters agree with the observed sizes: `stable_count` repeats of
    /// the last, positive, size close the history.
    pub open spec fn wf(&self) -> bool {
        let o = self.observed@;
        &&& self.stable_count <= 3
        &&& o.len() == 0 ==> self.last_size == -1 && self.stable_count == 0
        &&& o.len() > 0 ==> o.last() == self.last_size
        &&& self.stable_count > 0 ==> {
            &&& o.len() > self.stable_count
            &&& self.last_size > 0
            &&& forall|j: int| o.len() - 1 - self.stable_count <= j < o.len() ==> o[j] == self.last_size
        }
    }

    /// A watch that has seen no size yet, started at `now_ns`.
    pub fn new(now_ns: u64) -> (w: CompletionWatch)
        ensures
            w.wf(),
            w.last_size == -1,
            w.stable_count == 0,
            w.last_change_ns == now_ns,
            w.observed@ == Seq::<i64>::empty(),
    {
        CompletionWatch { last_size: -1, stable_count: 0, last_change_ns: now_ns, observed: Ghost(Seq::empty()) }
    }

    /// Whether the file has gone five minutes without a size change.
    pub fn timed_out(&self, now_ns: u64) -> (b: bool)
        ensures
            b == (elapsed(now_ns as nat, self.last_change_ns as nat) >= idle_timeout_ns()),
    {
        let e: u64 = if now_ns >= self.last_change_ns { now_ns - self.last_change_ns } else { 0 };
        e >= 300_000_000_000
    }

    /// One size check at `now_ns`: `None` when the file could not be read.
    pub fn observe(&mut self, size: Option<u64>, now_ns: u64) -> (step: WaitStep)
        requires
            old(self).wf(),
            old(self).stable_count < 3,
        ensures
            size is None ==> step is GiveUp && *final(self) == *old(self),
            size matches Some(sz) ==> {
                let s = sz as i64;
                &&& final(self).observed@ == old(self).observed@.push(s)
                &&& if s == old(self).last_size && s > 0 {
                    &&& final(self).stable_count == old(self).stable_count + 1
                    &&& final(self).last_size == old(self).last_size
                    &&& final(self).last_change_ns == old(self).last_change_ns
                    &&& (step is Complete) == (final(self).stable_count >= 3)
                    &&& (step is KeepWaiting) == (final(self).stable_count < 3)
                } else {
                    &&& final(self).stable_count == 0
                    &&& final(self).last_size == s
                    &&& final(self).last_change_ns == if s != old(self).last_size { now_ns } else { old(self).last_change_ns }
                    &&& step is KeepWaiting
                }
            },
            final(self).wf(),
            step is Complete ==> {
                let o = final(self).observed@;
                &&& o.len() >= 4
                &&& o.last() > 0
                &&& forall|j: int| o.len() - 4 <= j < o.len() ==> o[j] == o.last()
            },
    {
        match size {
            None => WaitStep::GiveUp,
            Some(sz) => {
                let s = sz as i64;
                self.observed = Ghost(self.observed@.push(s));
                if s == self.last_size && s > 0 {
                    self.stable_count = self.stable_count + 1;
                    if self.stable_count >= 3 {
                        WaitStep::Complete
                    } else {
                        WaitStep::KeepWaiting
                    }
                } else {
                    if s != self.last_size {
                        self.last_change_ns = now_ns;
                    }
                    self.stable_count = 0;
                    self.last_size = s;
                    WaitStep::KeepWaiting
                }
            },
        }
    }
}

/// The configured folders that the watcher covers.
pub struct Monitor {
    watch_paths: Vec<String>,
}

impl Monitor {
    /// A watcher for the given folders.
    pub fn new(watch_paths: Vec<String>) -> (m: Monitor)
        ensures
            m.paths() == watch_paths@,
    {
        Monitor { watch_paths }
    }

    /// The folders, in configuration order.
    pub closed spec fn paths(&self) -> Seq<String> {
        self.watch_paths@
    }

    /// The folders, in configuration order.
    pub fn watch_paths(&self) -> (p: &Vec<String>)
        ensures
            p@ == self.paths(),
    {
        &self.watch_paths
    }
}

} // verus!
