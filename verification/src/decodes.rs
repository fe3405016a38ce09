//! Book-keeping of the background decodes: which previews, thumbnails and prefetches are
//! in flight, which failed, how often a photo failed in a row, and what a decode result
//! that comes back does to that state.
//!
//! Photos are named by their index in the folder ("real" index). The decoding itself and
//! the textures live in the application; it asks this ledger before each request and
//! reports each result to it.

use crate::text::{chars_of, parse_unsigned, parse_unsigned_spec};
use std::collections::HashMap;
use std::collections::HashSet;
use vstd::prelude::*;

verus! {

broadcast use vstd::std_specs::hash::group_hash_axioms;

/// Failures in a row after which a photo counts as unreadable and is no longer retried on
/// its own.
pub const DECODE_DEAD_THRESHOLD: u8 = 5;

/// The decodes asked for and how they went.
pub struct DecodeLedger {
    /// Folder generation; results of an older generation are stale.
    pub generation: u64,
    pub pending_preview: HashSet<usize>,
    pub pending_thumb: HashSet<usize>,
    /// Thumbnails already promoted to the priority lane once.
    pub pending_thumb_prio: HashSet<usize>,
    pub pending_prefetch: HashSet<usize>,
    pub failed_preview: HashSet<usize>,
    pub failed_thumb: HashSet<usize>,
    /// Failures in a row per photo.
    pub decode_fails: HashMap<usize, u8>,
}

/// Mathematical form of a [`DecodeLedger`].
pub struct LedgerModel {
    pub generation: u64,
    pub pending_preview: Set<usize>,
    pub pending_thumb: Set<usize>,
    pub pending_thumb_prio: Set<usize>,
    pub pending_prefetch: Set<usize>,
    pub failed_preview: Set<usize>,
    pub failed_thumb: Set<usize>,
    pub fails: Map<usize, u8>,
}

impl View for DecodeLedger {
    type V = LedgerModel;

    open spec fn view(&self) -> LedgerModel {
        LedgerModel {
            generation: self.generation,
            pending_preview: self.pending_preview@,
            pending_thumb: self.pending_thumb@,
            pending_thumb_prio: self.pending_thumb_prio@,
            pending_prefetch: self.pending_prefetch@,
            failed_preview: self.failed_preview@,
            failed_thumb: self.failed_thumb@,
            fails: self.decode_fails@,
        }
    }
}

/// Failures in a row recorded for photo `photo` (none recorded: 0).
pub open spec fn fails_of(m: Map<usize, u8>, photo: usize) -> u8 {
    if m.contains_key(photo) {
        m[photo]
    } else {
        0
    }
}

/// Photo `photo` has failed often enough in a row to be given up.
pub open spec fn dead_in(m: Map<usize, u8>, photo: usize) -> bool {
    fails_of(m, photo) >= DECODE_DEAD_THRESHOLD
}

/// One more failure, counted without overflow.
pub open spec fn bumped(n: u8) -> u8 {
    if n == 255 {
        255
    } else {
        (n + 1) as u8
    }
}

/// A ledger with nothing pending or failed.
pub open spec fn fresh(m: LedgerModel, generation: u64) -> bool {
    &&& m.generation == generation
    &&& m.pending_preview == Set::<usize>::empty()
    &&& m.pending_thumb == Set::<usize>::empty()
    &&& m.pending_thumb_prio == Set::<usize>::empty()
    &&& m.pending_prefetch == Set::<usize>::empty()
    &&& m.failed_preview == Set::<usize>::empty()
    &&& m.failed_thumb == Set::<usize>::empty()
    &&& m.fails == Map::<usize, u8>::empty()
}

/// The decoding lane a request goes to.
#[derive(Clone, Copy, Debug, PartialEq, Eq, Structural)]
pub enum Lane {
    /// The photo on screen, first.
    Preview,
    /// Neighbours of the photo on screen.
    Normal,
    /// Thumbnails, newest first.
    Thumb,
    /// Disk-cache warming, lowest priority.
    Background,
}

impl DecodeLedger {
    /// An empty ledger for generation 0.
    pub fn new() -> (l: DecodeLedger)
        ensures
            fresh(l@, 0),
    {
        DecodeLedger {
            generation: 0,
            pending_preview: HashSet::new(),
            pending_thumb: HashSet::new(),
            pending_thumb_prio: HashSet::new(),
            pending_prefetch: HashSet::new(),
            failed_preview: HashSet::new(),
            failed_thumb: HashSet::new(),
            decode_fails: HashMap::new(),
        }
    }

    /// A new folder, or the photos reordered: the real indices mean other photos now, so
    /// the generation moves on and everything pending or failed is forgotten.
    pub fn start_generation(&mut self)
        requires
            old(self).generation < u64::MAX,
        ensures
            fresh(final(self)@, (old(self).generation + 1) as u64),
    {
        self.generation = self.generation + 1;
        self.pending_preview.clear();
        self.pending_thumb.clear();
        self.pending_thumb_prio.clear();
        self.pending_prefetch.clear();
        self.failed_preview.clear();
        self.failed_thumb.clear();
        self.decode_fails.clear();
    }

    /// Failures in a row recorded for photo `photo`.
    pub fn fail_count(&self, photo: usize) -> (n: u8)
        ensures
            n == fails_of(self@.fails, photo),
    {
        match self.decode_fails.get(&photo) {
            Some(n) => *n,
            None => 0,
        }
    }

    /// The photo failed [`DECODE_DEAD_THRESHOLD`] times in a row and is not retried by
    /// itself any more.
    pub fn decode_dead(&self, photo: usize) -> (r: bool)
        ensures
            r == dead_in(self@.fails, photo),
    {
        self.fail_count(photo) >= DECODE_DEAD_THRESHOLD
    }

    /// The user asks to try a given-up photo again: its failure count and failure marks
    /// are cleared (the application then requests its preview and thumbnail).
    pub fn retry_decode(&mut self, photo: usize)
        ensures
            final(self)@ == (LedgerModel {
                fails: old(self)@.fails.remove(photo),
                failed_preview: old(self)@.failed_preview.remove(photo),
                failed_thumb: old(self)@.failed_thumb.remove(photo),
                ..old(self)@
            }),
    {
        self.decode_fails.remove(&photo);
        self.failed_preview.remove(&photo);
        self.failed_thumb.remove(&photo);
    }
}

/// What a preview request does: a photo asked for with priority is retried even after a
/// failure, unless it was given up; nothing is sent for a photo that failed, is cached
/// (`cached`), is already pending, or does not exist (`exists` false).
pub open spec fn preview_request(
    m: LedgerModel,
    photo: usize,
    cached: bool,
    prio: bool,
    exists: bool,
) -> (LedgerModel, Option<Lane>) {
    let failed = if prio && !dead_in(m.fails, photo) {
        m.failed_preview.remove(photo)
    } else {
        m.failed_preview
    };
    let m1 = LedgerModel { failed_preview: failed, ..m };
    if failed.contains(photo) || cached || m.pending_preview.contains(photo) || !exists {
        (m1, None)
    } else {
        (
            LedgerModel { pending_preview: m.pending_preview.insert(photo), ..m1 },
            Some(if prio { Lane::Preview } else { Lane::Normal }),
        )
    }
}

/// What a thumbnail request does: nothing for a cached one; with priority (a visible
/// cell) a failed thumbnail is retried unless given up, and a pending one is promoted to
/// the priority lane once; without it a failed or pending thumbnail is left alone.
pub open spec fn thumb_request(
    m: LedgerModel,
    photo: usize,
    cached: bool,
    prio: bool,
    exists: bool,
) -> (LedgerModel, Option<Lane>) {
    if cached {
        (m, None)
    } else if prio {
        if dead_in(m.fails, photo) {
            (m, None)
        } else {
            let m1 = LedgerModel { failed_thumb: m.failed_thumb.remove(photo), ..m };
            if m.pending_thumb_prio.contains(photo) || !exists {
                (m1, None)
            } else {
                (
                    LedgerModel {
                        pending_thumb: m.pending_thumb.insert(photo),
                        pending_thumb_prio: m.pending_thumb_prio.insert(photo),
                        ..m1
                    },
                    Some(Lane::Thumb),
                )
            }
        }
    } else if m.failed_thumb.contains(photo) || m.pending_thumb.contains(photo) || !exists {
        (m, None)
    } else {
        (LedgerModel { pending_thumb: m.pending_thumb.insert(photo), ..m }, Some(Lane::Thumb))
    }
}

/// What warming the disk cache for one photo does: skipped when its thumbnail is cached,
/// pending or failed, when it was given up, when it is HEIC (`heic`), or when it is already
/// being prefetched.
pub open spec fn prefetch_request(m: LedgerModel, photo: usize, cached: bool, heic: bool) -> (
    LedgerModel,
    Option<Lane>,
) {
    if cached || m.pending_thumb.contains(photo) || m.failed_thumb.contains(photo) || dead_in(
        m.fails,
        photo,
    ) || heic || m.pending_prefetch.contains(photo) {
        (m, None)
    } else {
        (
            LedgerModel { pending_prefetch: m.pending_prefetch.insert(photo), ..m },
            Some(Lane::Background),
        )
    }
}

impl DecodeLedger {
    /// Asks for the preview of `photo`; returns the lane to send the request to, or `None`
    /// when nothing is to be sent. `cached`: a preview of the wanted resolution is on
    /// screen already; `exists`: the photo is in the folder.
    pub fn request_preview(&mut self, photo: usize, cached: bool, prio: bool, exists: bool) -> (r:
        Option<Lane>)
        ensures
            final(self)@ == preview_request(old(self)@, photo, cached, prio, exists).0,
            r == preview_request(old(self)@, photo, cached, prio, exists).1,
    {
        if prio && !self.decode_dead(photo) {
            self.failed_preview.remove(&photo);
        }
        if self.failed_preview.contains(&photo) || cached || self.pending_preview.contains(&photo)
            || !exists {
            return None;
        }
        self.pending_preview.insert(photo);
        if prio {
            Some(Lane::Preview)
        } else {
            Some(Lane::Normal)
        }
    }

    /// Asks for the thumbnail of `photo`; returns the lane, or `None` when nothing is to be
    /// sent. `cached`: the thumbnail is on screen already.
    pub fn request_thumb(&mut self, photo: usize, cached: bool, prio: bool, exists: bool) -> (r:
        Option<Lane>)
        ensures
            final(self)@ == thumb_request(old(self)@, photo, cached, prio, exists).0,
            r == thumb_request(old(self)@, photo, cached, prio, exists).1,
    {
        if cached {
            return None;
        }
        if prio {
            if self.decode_dead(photo) {
                return None;
            }
            self.failed_thumb.remove(&photo);
            if self.pending_thumb_prio.contains(&photo) {
                return None;
            }
        } else if self.failed_thumb.contains(&photo) || self.pending_thumb.contains(&photo) {
            return None;
        }
        if !exists {
            return None;
        }
        self.pending_thumb.insert(photo);
        if prio {
            self.pending_thumb_prio.insert(photo);
        }
        Some(Lane::Thumb)
    }

    /// Asks to warm the disk cache with the thumbnail of `photo`; returns the lane, or
    /// `None` when it is skipped.
    pub fn request_prefetch(&mut self, photo: usize, cached: bool, heic: bool) -> (r: Option<
        Lane,
    >)
        ensures
            final(self)@ == prefetch_request(old(self)@, photo, cached, heic).0,
            r == prefetch_request(old(self)@, photo, cached, heic).1,
    {
        if cached || self.pending_thumb.contains(&photo) || self.failed_thumb.contains(&photo)
            || self.decode_dead(photo) || heic {
            return None;
        }
        if self.pending_prefetch.contains(&photo) {
            return None;
        }
        self.pending_prefetch.insert(photo);
        Some(Lane::Background)
    }
}

/// A decode result as the worker reports it.
#[derive(Clone, Copy, Debug, PartialEq, Eq, Structural)]
pub struct DecodeReport {
    pub photo: usize,
    /// Generation the request was made in.
    pub generation: u64,
    /// The worker dropped the request unanswered (its queue was full).
    pub dropped: bool,
    pub prefetch: bool,
    pub thumb: bool,
    /// An image came back.
    pub ok: bool,
}

/// What the application does with a result after the ledger took it in.
#[derive(Clone, Copy, Debug, PartialEq, Eq, Structural)]
pub enum ResultAction {
    /// Nothing to show: a drop, a prefetch, or a stale result.
    Ignore,
    /// Upload the thumbnail.
    ShowThumb,
    /// Upload the preview.
    ShowPreview,
    /// A HEIC file failed for the first time: ask for its RAW twin in this lane.
    RetryAsRaw(Lane),
    /// The decode failed; the photo is marked failed.
    Failed,
}

/// The ledger after a result for `r.photo` clears its pending mark.
pub open spec fn unpend(m: LedgerModel, r: DecodeReport) -> LedgerModel {
    if r.prefetch {
        LedgerModel { pending_prefetch: m.pending_prefetch.remove(r.photo), ..m }
    } else if r.thumb {
        LedgerModel {
            pending_thumb: m.pending_thumb.remove(r.photo),
            pending_thumb_prio: m.pending_thumb_prio.remove(r.photo),
            ..m
        }
    } else {
        LedgerModel { pending_preview: m.pending_preview.remove(r.photo), ..m }
    }
}

/// What a result does. A dropped request or a prefetch only clears its pending mark (a
/// failed prefetch also counts as a thumbnail failure), and only in the current
/// generation. Any other result clears its pending mark; a stale one stops there. A
/// success resets the photo's failures; a failure counts one more, and the first failure
/// of a HEIC file with a RAW twin (`heic_raw`) is retried on the RAW file instead of being
/// marked failed.
pub open spec fn result_step(m: LedgerModel, r: DecodeReport, heic_raw: bool) -> (
    LedgerModel,
    ResultAction,
) {
    let current = r.generation == m.generation;
    if r.dropped || r.prefetch {
        if !current {
            (m, ResultAction::Ignore)
        } else if r.dropped || r.ok {
            (unpend(m, r), ResultAction::Ignore)
        } else {
            let m1 = unpend(m, r);
            (
                LedgerModel {
                    failed_thumb: m1.failed_thumb.insert(r.photo),
                    fails: m1.fails.insert(r.photo, bumped(fails_of(m1.fails, r.photo))),
                    ..m1
                },
                ResultAction::Ignore,
            )
        }
    } else {
        let m1 = unpend(m, r);
        if !current {
            (m1, ResultAction::Ignore)
        } else if r.ok {
            (
                LedgerModel {
                    fails: m1.fails.remove(r.photo),
                    failed_thumb: m1.failed_thumb.remove(r.photo),
                    failed_preview: m1.failed_preview.remove(r.photo),
                    ..m1
                },
                if r.thumb {
                    ResultAction::ShowThumb
                } else {
                    ResultAction::ShowPreview
                },
            )
        } else {
            let n = bumped(fails_of(m1.fails, r.photo));
            let m2 = LedgerModel { fails: m1.fails.insert(r.photo, n), ..m1 };
            if n == 1 && heic_raw {
                if r.thumb {
                    (
                        LedgerModel { pending_thumb: m2.pending_thumb.insert(r.photo), ..m2 },
                        ResultAction::RetryAsRaw(Lane::Thumb),
                    )
                } else {
                    (
                        LedgerModel { pending_preview: m2.pending_preview.insert(r.photo), ..m2 },
                        ResultAction::RetryAsRaw(Lane::Preview),
                    )
                }
            } else if r.thumb {
                (
                    LedgerModel { failed_thumb: m2.failed_thumb.insert(r.photo), ..m2 },
                    ResultAction::Failed,
                )
            } else {
                (
                    LedgerModel { failed_preview: m2.failed_preview.insert(r.photo), ..m2 },
                    ResultAction::Failed,
                )
            }
        }
    }
}

impl DecodeLedger {
    fn clear_pending(&mut self, r: &DecodeReport)
        ensures
            final(self)@ == unpend(old(self)@, *r),
    {
        if r.prefetch {
            self.pending_prefetch.remove(&r.photo);
        } else if r.thumb {
            self.pending_thumb.remove(&r.photo);
            self.pending_thumb_prio.remove(&r.photo);
        } else {
            self.pending_preview.remove(&r.photo);
        }
    }

    fn count_failure(&mut self, photo: usize) -> (n: u8)
        ensures
            n == bumped(fails_of(old(self)@.fails, photo)),
            final(self)@ == (LedgerModel {
                fails: old(self)@.fails.insert(photo, n),
                ..old(self)@
            }),
    {
        let before = self.fail_count(photo);
        let n = if before == 255 {
            255
        } else {
            before + 1
        };
        self.decode_fails.insert(photo, n);
        n
    }

    /// Takes in one decode result; `heic_raw`: the photo is a HEIC file with a RAW twin.
    pub fn on_result(&mut self, r: DecodeReport, heic_raw: bool) -> (a: ResultAction)
        ensures
            final(self)@ == result_step(old(self)@, r, heic_raw).0,
            a == result_step(old(self)@, r, heic_raw).1,
    {
        let current = r.generation == self.generation;
        if r.dropped || r.prefetch {
            if !current {
                return ResultAction::Ignore;
            }
            self.clear_pending(&r);
            if !r.dropped && !r.ok {
                self.failed_thumb.insert(r.photo);
                self.count_failure(r.photo);
            }
            return ResultAction::Ignore;
        }
        self.clear_pending(&r);
        if !current {
            return ResultAction::Ignore;
        }
        if r.ok {
            self.decode_fails.remove(&r.photo);
            self.failed_thumb.remove(&r.photo);
            self.failed_preview.remove(&r.photo);
            return if r.thumb {
                ResultAction::ShowThumb
            } else {
                ResultAction::ShowPreview
            };
        }
        let n = self.count_failure(r.photo);
        if n == 1 && heic_raw {
            if r.thumb {
                self.pending_thumb.insert(r.photo);
                ResultAction::RetryAsRaw(Lane::Thumb)
            } else {
                self.pending_preview.insert(r.photo);
                ResultAction::RetryAsRaw(Lane::Preview)
            }
        } else if r.thumb {
            self.failed_thumb.insert(r.photo);
            ResultAction::Failed
        } else {
            self.failed_preview.insert(r.photo);
            ResultAction::Failed
        }
    }
}

/// How soon the next frame is needed for the decodes in flight.
#[derive(Clone, Copy, Debug, PartialEq, Eq, Structural)]
pub enum Pace {
    /// Previews pending: at once.
    Now,
    /// Thumbnails pending: in 100 ms.
    Thumbs,
    /// Only cache warming: in 200 ms.
    Background,
    /// Nothing in flight.
    Idle,
}

impl DecodeLedger {
    /// Pending previews come first, then thumbnails, then cache warming.
    pub fn pace(&self) -> (p: Pace)
        ensures
            p == (if !self@.pending_preview.is_empty() {
                Pace::Now
            } else if !self@.pending_thumb.is_empty() {
                Pace::Thumbs
            } else if !self@.pending_prefetch.is_empty() {
                Pace::Background
            } else {
                Pace::Idle
            }),
    {
        if !self.pending_preview.is_empty() {
            Pace::Now
        } else if !self.pending_thumb.is_empty() {
            Pace::Thumbs
        } else if !self.pending_prefetch.is_empty() {
            Pace::Background
        } else {
            Pace::Idle
        }
    }

    /// No preview and no thumbnail is being decoded.
    pub fn on_screen_idle(&self) -> (r: bool)
        ensures
            r == (self@.pending_preview.is_empty() && self@.pending_thumb.is_empty()),
    {
        self.pending_preview.is_empty() && self.pending_thumb.is_empty()
    }

    /// Nothing at all is being decoded, cache warming included.
    pub fn all_idle(&self) -> (r: bool)
        ensures
            r == (self@.pending_preview.is_empty() && self@.pending_thumb.is_empty()
                && self@.pending_prefetch.is_empty()),
    {
        self.on_screen_idle() && self.pending_prefetch.is_empty()
    }
}

/// Decode worker threads: `RB_THREADS` (`env`) when it is a whole number of at least 1,
/// else half the cores clamped to 2..=8, else 4 when the core count is unknown.
pub open spec fn threads_spec(env: Option<Seq<char>>, cores: Option<usize>) -> int {
    match env {
        Some(v) if parse_unsigned_spec(v, usize::MAX as nat) matches Some(n) && n >= 1 => {
            parse_unsigned_spec(v, usize::MAX as nat)->0 as int
        },
        _ => match cores {
            Some(c) => if c / 2 < 2 {
                2
            } else if c / 2 > 8 {
                8
            } else {
                (c / 2) as int
            },
            None => 4,
        },
    }
}

/// The number of decode worker threads (see [`threads_spec`]).
pub fn decode_threads(env: Option<&str>, cores: Option<usize>) -> (n: usize)
    ensures
        n == threads_spec(
            match env {
                Some(v) => Some(v@),
                None => None,
            },
            cores,
        ),
{
    if let Some(v) = env {
        let c = chars_of(v);
        proof {
            assert(c@.subrange(0, c@.len() as int) == c@);
        }
        if let Some(n) = parse_unsigned(&c, 0, c.len(), usize::MAX as u64) {
            if n >= 1 {
                return n as usize;
            }
        }
    }
    match cores {
        Some(c) => {
            let h = c / 2;
            if h < 2 {
                2
            } else if h > 8 {
                8
            } else {
                h
            }
        },
        None => 4,
    }
}

// ---------------------------------------------------------------- metadata reads

/// What the overlay of the current photo still needs read from its file.
#[derive(Clone, Copy, Debug, PartialEq, Eq, Structural)]
pub struct MetaWant {
    /// Its EXIF (and original size).
    pub exif: bool,
    /// Its AF points and orientation.
    pub af: bool,
}

/// Whether to start a metadata read for the current photo, and of what. One read runs at a
/// time (`inflight`), so that photos skipped over quickly do not queue up ahead of the one
/// on screen; EXIF is read until it has been loaded, AF points only while they are shown.
pub fn meta_request(inflight: bool, exif_loaded: bool, show_af: bool, af_loaded: bool) -> (r:
    Option<MetaWant>)
    ensures
        r == (if inflight || (exif_loaded && !(show_af && !af_loaded)) {
            None
        } else {
            Some(MetaWant { exif: !exif_loaded, af: show_af && !af_loaded })
        }),
{
    if inflight {
        return None;
    }
    let exif = !exif_loaded;
    let af = show_af && !af_loaded;
    if !exif && !af {
        None
    } else {
        Some(MetaWant { exif, af })
    }
}

// ---------------------------------------------------------------- laws

/// A result from an older generation (the folder changed since it was asked for) neither
/// shows anything nor touches any photo's failures.
pub proof fn law_stale_result_keeps_failures(m: LedgerModel, r: DecodeReport, heic_raw: bool)
    requires
        r.generation != m.generation,
    ensures
        result_step(m, r, heic_raw).1 == ResultAction::Ignore,
        result_step(m, r, heic_raw).0.fails == m.fails,
        result_step(m, r, heic_raw).0.failed_thumb == m.failed_thumb,
        result_step(m, r, heic_raw).0.failed_preview == m.failed_preview,
{
}

/// A decoded preview or thumbnail of the current folder resets the photo's failures: it is
/// no longer given up, nor marked failed.
pub proof fn law_success_forgets_failures(m: LedgerModel, r: DecodeReport, heic_raw: bool)
    requires
        r.generation == m.generation,
        !r.dropped,
        !r.prefetch,
        r.ok,
    ensures
        fails_of(result_step(m, r, heic_raw).0.fails, r.photo) == 0,
        !dead_in(result_step(m, r, heic_raw).0.fails, r.photo),
        !result_step(m, r, heic_raw).0.failed_thumb.contains(r.photo),
        !result_step(m, r, heic_raw).0.failed_preview.contains(r.photo),
{
}

/// A photo is given up only by a failed decode that follows one fewer failures in a row
/// than the threshold; no other result gives it up.
pub proof fn law_given_up_only_at_threshold(m: LedgerModel, r: DecodeReport, heic_raw: bool)
    requires
        !dead_in(m.fails, r.photo),
        dead_in(result_step(m, r, heic_raw).0.fails, r.photo),
    ensures
        !r.ok,
        !r.dropped,
        r.generation == m.generation,
        fails_of(m.fails, r.photo) == DECODE_DEAD_THRESHOLD - 1,
{
}

/// Once given up, a photo's thumbnail is not asked for again, neither for a visible cell
/// nor to warm the cache, until the user retries it.
pub proof fn law_given_up_is_not_requested(
    m: LedgerModel,
    photo: usize,
    cached: bool,
    exists: bool,
    heic: bool,
)
    requires
        dead_in(m.fails, photo),
    ensures
        thumb_request(m, photo, cached, true, exists).1 is None,
        thumb_request(m, photo, cached, true, exists).0 == m,
        prefetch_request(m, photo, cached, heic).1 is None,
        !dead_in(m.fails.remove(photo), photo),
{
}

/// A photo that is asked for is pending afterwards, so a second identical request sends
/// nothing until its result comes back.
pub proof fn law_request_is_sent_once(m: LedgerModel, photo: usize, cached: bool, prio: bool)
    requires
        preview_request(m, photo, cached, prio, true).1 is Some,
    ensures
        preview_request(m, photo, cached, prio, true).0.pending_preview.contains(photo),
        preview_request(preview_request(m, photo, cached, prio, true).0, photo, cached, prio, true).1 is None,
{
}

} // verus!
