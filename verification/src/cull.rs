//! Results of an AI culling run written to the photos: which photos count as good, which
//! are culled, which are left out, and what each gets on the chosen axis.

use crate::marks::{ColorTag, Label, Mark};
use crate::session::{session_wf, visible, AiCullTarget, CullSession, SessionModel};
use crate::text::{chars_of, trim, trim_range};
use vstd::prelude::*;

verus! {

/// The hard filters of a run, which demote a photo to "culled" whatever its score.
#[derive(Clone, Copy, Debug, PartialEq, Eq, Structural)]
pub struct HardFilters {
    /// Keep only photos with a face.
    pub use_face: bool,
    /// Genre filter: portraits (`genre_portrait`) need a face, landscapes must have none.
    pub use_genre: bool,
    pub genre_portrait: bool,
    /// Cull photos whose AI sharpness is below the minimum.
    pub use_sharp_ai: bool,
    /// Cull photos without the configured object class.
    pub use_object: bool,
}

/// What the detectors found in one photo; `None` where a detector did not run.
#[derive(Clone, Copy, Debug, PartialEq, Eq, Structural)]
pub struct DetectorFacts {
    pub face: Option<bool>,
    /// Whether the AI sharpness fell below the configured minimum.
    pub sharp_below_min: Option<bool>,
    pub object_match: Option<bool>,
}

/// The scoring of one photo.
#[derive(Clone, Copy, Debug, PartialEq, Eq, Structural)]
pub struct CullResult {
    /// Real index of the photo.
    pub real: usize,
    /// Verdict of the image checks (and aesthetic score).
    pub cv_good: bool,
    /// Verdict of the group culling (metadata, bursts, duplicates); `None` leaves the photo
    /// out.
    pub group: Option<bool>,
    pub facts: DetectorFacts,
}

/// Where the verdicts go.
#[derive(Clone, Copy, Debug, PartialEq, Eq, Structural)]
pub struct AssignPlan {
    pub target: AiCullTarget,
    pub good_stars: u8,
    pub bad_stars: u8,
    pub good_tag: ColorTag,
    pub bad_tag: ColorTag,
}

/// Whether a hard filter demotes a photo. A detector that did not run demotes nothing.
pub open spec fn excluded_spec(f: HardFilters, x: DetectorFacts) -> bool {
    let face_bad = if f.use_face || f.use_genre {
        match x.face {
            Some(found) => (f.use_face && !found) || (f.use_genre && f.genre_portrait && !found) || (
            f.use_genre && !f.genre_portrait && found),
            None => false,
        }
    } else {
        false
    };
    let sharp_bad = f.use_sharp_ai && x.sharp_below_min == Some(true);
    let object_bad = f.use_object && x.object_match == Some(false);
    face_bad || sharp_bad || object_bad
}

/// Final verdict of one photo: the group verdict when group culling is on (none leaves the
/// photo out), else the per-photo quality verdict; good only if no hard filter demotes it.
pub open spec fn decision(r: CullResult, group_active: bool, f: HardFilters) -> Option<bool> {
    let base = if group_active {
        r.group
    } else {
        Some(r.cv_good)
    };
    match base {
        None => None,
        Some(g) => Some(g && !excluded_spec(f, r.facts)),
    }
}

/// Ratings above five count as five.
pub open spec fn cap5(n: u8) -> u8 {
    if n > 5 {
        5
    } else {
        n
    }
}

/// What a verdict writes on the chosen axis: Pick or Reject, or the rating or tag for good or culled photos.
pub open spec fn verdict_mark(m: Mark, plan: AssignPlan, good: bool) -> Mark {
    match plan.target {
        AiCullTarget::Label => Mark {
            label: if good {
                Label::Pick
            } else {
                Label::Reject
            },
            ..m
        },
        AiCullTarget::Stars => Mark {
            stars: if good {
                cap5(plan.good_stars)
            } else {
                cap5(plan.bad_stars)
            },
            ..m
        },
        AiCullTarget::Tag => Mark {
            tag: if good {
                plan.good_tag
            } else {
                plan.bad_tag
            },
            ..m
        },
    }
}

/// The marks after writing the results `rs` in order, with the numbers of good, culled and
/// left-out photos. Results for photos that do not exist are passed over.
pub open spec fn cull_run(
    marks: Seq<Mark>,
    rs: Seq<CullResult>,
    group_active: bool,
    f: HardFilters,
    plan: AssignPlan,
) -> (Seq<Mark>, nat, nat, nat)
    decreases rs.len(),
{
    if rs.len() == 0 {
        (marks, 0, 0, 0)
    } else {
        let (m, g, b, sk) = cull_run(marks, rs.drop_last(), group_active, f, plan);
        let r = rs.last();
        match decision(r, group_active, f) {
            None => (m, g, b, sk + 1),
            Some(good) => if r.real < m.len() {
                (
                    m.update(r.real as int, verdict_mark(m[r.real as int], plan, good)),
                    if good {
                        g + 1
                    } else {
                        g
                    },
                    if good {
                        b
                    } else {
                        b + 1
                    },
                    sk,
                )
            } else {
                (m, g, b, sk)
            },
        }
    }
}

proof fn lemma_cull_run_bounds(
    marks: Seq<Mark>,
    rs: Seq<CullResult>,
    group_active: bool,
    f: HardFilters,
    plan: AssignPlan,
)
    ensures
        cull_run(marks, rs, group_active, f, plan).0.len() == marks.len(),
        cull_run(marks, rs, group_active, f, plan).1 + cull_run(marks, rs, group_active, f, plan).2
            + cull_run(marks, rs, group_active, f, plan).3 <= rs.len(),
    decreases rs.len(),
{
    if rs.len() > 0 {
        lemma_cull_run_bounds(marks, rs.drop_last(), group_active, f, plan);
    }
}

/// Whether a hard filter demotes a photo with detector findings `x`.
pub fn hard_filter_excludes(f: &HardFilters, x: &DetectorFacts) -> (r: bool)
    ensures
        r == excluded_spec(*f, *x),
{
    let face_bad = if f.use_face || f.use_genre {
        match x.face {
            Some(found) => (f.use_face && !found) || (f.use_genre && f.genre_portrait && !found) || (
            f.use_genre && !f.genre_portrait && found),
            None => false,
        }
    } else {
        false
    };
    let sharp_bad = f.use_sharp_ai && match x.sharp_below_min {
        Some(low) => low,
        None => false,
    };
    let object_bad = f.use_object && match x.object_match {
        Some(found) => !found,
        None => false,
    };
    face_bad || sharp_bad || object_bad
}

/// Size of the scoring worker pool: the logical cores, no more model copies than fit in a
/// 2 GB budget (when a model of `model_bytes` bytes is used), between 1 and 12.
pub open spec fn worker_count_spec(cores: usize, model_bytes: Option<u64>) -> int {
    let cap: int = match model_bytes {
        Some(sz) => if sz > 0 {
            if 2_000_000_000int / (sz as int) > 1 {
                2_000_000_000int / (sz as int)
            } else {
                1
            }
        } else {
            usize::MAX as int
        },
        None => usize::MAX as int,
    };
    let n: int = if (cores as int) < cap {
        cores as int
    } else {
        cap
    };
    if n < 1 {
        1
    } else if n > 12 {
        12
    } else {
        n
    }
}

/// Number of scoring workers for `cores` logical cores.
pub fn cull_worker_count(cores: usize, model_bytes: Option<u64>) -> (r: usize)
    ensures
        r == worker_count_spec(cores, model_bytes),
{
    let cap: usize = match model_bytes {
        Some(sz) => if sz > 0 {
            let q = 2_000_000_000u64 / sz;
            if q > 1 {
                q as usize
            } else {
                1
            }
        } else {
            usize::MAX
        },
        None => usize::MAX,
    };
    let n = if cores < cap {
        cores
    } else {
        cap
    };
    if n < 1 {
        1
    } else if n > 12 {
        12
    } else {
        n
    }
}

/// Writes the verdicts to the marks; returns the numbers of good, culled and left-out
/// photos.
fn write_verdicts(
    marks: &mut Vec<Mark>,
    results: &Vec<CullResult>,
    group_active: bool,
    filters: &HardFilters,
    plan: &AssignPlan,
) -> (r: (usize, usize, usize))
    ensures
        ({
            let run = cull_run(old(marks)@, results@, group_active, *filters, *plan);
            &&& final(marks)@ == run.0
            &&& r.0 == run.1
            &&& r.1 == run.2
            &&& r.2 == run.3
        }),
{
    let ghost m0 = marks@;
    let mut good: usize = 0;
    let mut bad: usize = 0;
    let mut skipped: usize = 0;
    let mut i: usize = 0;
    while i < results.len()
        invariant
            i <= results.len(),
            marks@.len() == m0.len(),
            (marks@, good as nat, bad as nat, skipped as nat) == cull_run(
                m0,
                results@.take(i as int),
                group_active,
                *filters,
                *plan,
            ),
            good + bad + skipped <= i,
        decreases results.len() - i,
    {
        proof {
            assert(results@.take(i + 1).drop_last() == results@.take(i as int));
            lemma_cull_run_bounds(m0, results@.take(i as int), group_active, *filters, *plan);
        }
        let res = results[i];
        let base = if group_active {
            res.group
        } else {
            Some(res.cv_good)
        };
        match base {
            None => {
                skipped = skipped + 1;
            },
            Some(g) => {
                let is_good = g && !hard_filter_excludes(filters, &res.facts);
                if res.real < marks.len() {
                    let m = marks[res.real];
                    let nm = match plan.target {
                        AiCullTarget::Label => Mark {
                            label: if is_good {
                                Label::Pick
                            } else {
                                Label::Reject
                            },
                            ..m
                        },
                        AiCullTarget::Stars => {
                            let s = if is_good {
                                plan.good_stars
                            } else {
                                plan.bad_stars
                            };
                            Mark {
                                stars: if s > 5 {
                                    5
                                } else {
                                    s
                                },
                                ..m
                            }
                        },
                        AiCullTarget::Tag => Mark {
                            tag: if is_good {
                                plan.good_tag
                            } else {
                                plan.bad_tag
                            },
                            ..m
                        },
                    };
                    marks.set(res.real, nm);
                    if is_good {
                        good = good + 1;
                    } else {
                        bad = bad + 1;
                    }
                }
            },
        }
        i = i + 1;
    }
    proof {
        assert(results@.take(results.len() as int) == results@);
    }
    (good, bad, skipped)
}

/// Longest edge photos are decoded at for scoring: enough detail for the sharpest check
/// that is on (focus 1024, tilt 512, else 256).
pub fn cull_decode_edge(use_focus: bool, use_tilt: bool) -> (r: u32)
    ensures
        r == if use_focus {
            1024u32
        } else if use_tilt {
            512u32
        } else {
            256u32
        },
{
    if use_focus {
        1024
    } else if use_tilt {
        512
    } else {
        256
    }
}

pub open spec fn min_int(a: int, b: int) -> int {
    if a < b {
        a
    } else {
        b
    }
}

/// Batch size and number of workers of a scoring run over `total` photos. On the GPU
/// photos go in batches (32 to one shared session, 8 per worker otherwise) with at most 8
/// workers, no more than there are batches; on the CPU one photo at a time with
/// [`cull_worker_count`] workers, no more than there are photos.
pub open spec fn pool_spec(use_gpu: bool, share_session: bool, cores: usize, model_bytes: Option<u64>, total: usize) -> (int, int) {
    let batch: int = if use_gpu {
        if share_session {
            32
        } else {
            8
        }
    } else {
        1
    };
    let at_least_one = |n: int| if n < 1 {
        1
    } else {
        n
    };
    let workers = if use_gpu {
        if share_session {
            min_int(min_int(cores as int, 8), at_least_one(total as int))
        } else {
            let batches = (total as int + batch - 1) / batch;
            min_int(min_int(worker_count_spec(cores, model_bytes), 8), at_least_one(batches))
        }
    } else {
        min_int(worker_count_spec(cores, model_bytes), at_least_one(total as int))
    };
    (batch, workers)
}

/// Batch size and worker count of a scoring run (see [`pool_spec`]).
pub fn cull_pool(use_gpu: bool, share_session: bool, cores: usize, model_bytes: Option<u64>, total: usize) -> (r: (usize, usize))
    ensures
        (r.0 as int, r.1 as int) == pool_spec(use_gpu, share_session, cores, model_bytes, total),
{
    let batch: usize = if use_gpu {
        if share_session {
            32
        } else {
            8
        }
    } else {
        1
    };
    let one_plus = if total < 1 {
        1
    } else {
        total
    };
    let workers = if use_gpu {
        if share_session {
            let c = if cores < 8 {
                cores
            } else {
                8
            };
            if c < one_plus {
                c
            } else {
                one_plus
            }
        } else {
            let batches = total / batch + if total % batch == 0 {
                0
            } else {
                1
            };
            proof {
                assert((total as int + batch - 1) / (batch as int) == total as int / batch as int + if total as int % batch as int == 0 {
                    0int
                } else {
                    1int
                }) by (nonlinear_arith)
                    requires
                        batch == 8 || batch == 32,
                        total >= 0,
                ;
            }
            let b1 = if batches < 1 {
                1
            } else {
                batches
            };
            let w = cull_worker_count(cores, model_bytes);
            let w8 = if w < 8 {
                w
            } else {
                8
            };
            if w8 < b1 {
                w8
            } else {
                b1
            }
        }
    } else {
        let w = cull_worker_count(cores, model_bytes);
        if w < one_plus {
            w
        } else {
            one_plus
        }
    };
    (batch, workers)
}

/// A culling run touches only the chosen axis: every other part of every mark stays, and a
/// photo that no result names keeps its whole mark.
pub proof fn law_verdicts_touch_only_the_chosen_axis(
    marks: Seq<Mark>,
    rs: Seq<CullResult>,
    group_active: bool,
    f: HardFilters,
    plan: AssignPlan,
    i: int,
)
    requires
        0 <= i < marks.len(),
    ensures
        ({
            let after = cull_run(marks, rs, group_active, f, plan).0;
            &&& plan.target != AiCullTarget::Label ==> after[i].label == marks[i].label
            &&& plan.target != AiCullTarget::Stars ==> after[i].stars == marks[i].stars
            &&& plan.target != AiCullTarget::Tag ==> after[i].tag == marks[i].tag
            &&& (forall|j: int| 0 <= j < rs.len() ==> rs[j].real as int != i) ==> after[i] == marks[i]
        }),
    decreases rs.len(),
{
    lemma_cull_run_bounds(marks, rs, group_active, f, plan);
    if rs.len() > 0 {
        let rs1 = rs.drop_last();
        law_verdicts_touch_only_the_chosen_axis(marks, rs1, group_active, f, plan, i);
        lemma_cull_run_bounds(marks, rs1, group_active, f, plan);
        if forall|j: int| 0 <= j < rs.len() ==> rs[j].real as int != i {
            assert forall|j: int| 0 <= j < rs1.len() implies rs1[j].real as int != i by {
                assert(rs1[j] == rs[j]);
            }
            assert(rs[rs.len() - 1].real as int != i);
        }
    }
}

/// Each scored photo ends with the verdict of its (last) result on the chosen axis: a good
/// photo is picked, gets the good rating (at most five) or the good colour; a culled one is
/// rejected, gets the bad rating or the bad colour. So with two different colours (or
/// ratings) good and culled photos always end up told apart.
pub proof fn law_verdicts_land_on_the_chosen_axis(
    marks: Seq<Mark>,
    rs: Seq<CullResult>,
    group_active: bool,
    f: HardFilters,
    plan: AssignPlan,
    k: int,
)
    requires
        0 <= k < rs.len(),
        rs[k].real < marks.len(),
        decision(rs[k], group_active, f) is Some,
        forall|j: int| k < j < rs.len() ==> rs[j].real != rs[k].real,
    ensures
        ({
            let good = decision(rs[k], group_active, f)->0;
            let n = cull_run(marks, rs, group_active, f, plan).0[rs[k].real as int];
            &&& plan.target == AiCullTarget::Label ==> n.label == (if good {
                Label::Pick
            } else {
                Label::Reject
            })
            &&& plan.target == AiCullTarget::Stars ==> n.stars == (if good {
                if plan.good_stars > 5 {
                    5
                } else {
                    plan.good_stars
                }
            } else {
                if plan.bad_stars > 5 {
                    5
                } else {
                    plan.bad_stars
                }
            })
            &&& plan.target == AiCullTarget::Tag ==> n.tag == (if good {
                plan.good_tag
            } else {
                plan.bad_tag
            })
        }),
    decreases rs.len(),
{
    let rs1 = rs.drop_last();
    lemma_cull_run_bounds(marks, rs1, group_active, f, plan);
    if k < rs.len() - 1 {
        assert forall|j: int| k < j < rs1.len() implies rs1[j].real != rs1[k].real by {
            assert(rs1[j] == rs[j]);
        }
        assert(rs1[k] == rs[k]);
        law_verdicts_land_on_the_chosen_axis(marks, rs1, group_active, f, plan, k);
        assert(rs[rs.len() - 1].real != rs[k].real);
    }
}

impl CullSession {
    /// Writes the verdicts of an AI culling run to the chosen axis of each scored photo
    /// and marks the sidecar due. Returns the numbers of good, culled and left-out photos.
    pub fn apply_cull_verdicts(
        &mut self,
        results: &Vec<CullResult>,
        group_active: bool,
        filters: &HardFilters,
        plan: &AssignPlan,
    ) -> (r: (usize, usize, usize))
        requires
            session_wf(old(self)@),
        ensures
            session_wf(final(self)@),
            ({
                let run = cull_run(old(self)@.marks, results@, group_active, *filters, *plan);
                &&& final(self)@ == (SessionModel { marks: run.0, dirty: true, ..old(self)@ })
                &&& r.0 == run.1
                &&& r.1 == run.2
                &&& r.2 == run.3
            }),
    {
        proof {
            lemma_cull_run_bounds(self.marks@, results@, group_active, *filters, *plan);
        }
        let r = write_verdicts(&mut self.marks, results, group_active, filters, plan);
        self.sidecar_dirty = true;
        r
    }
}

// ---------------------------------------------------------------- what a run uses

/// The detectors a culling run asks for in its settings.
#[derive(Clone, Copy, Debug, PartialEq, Eq, Structural)]
pub struct DetectorWish {
    pub aesthetic: bool,
    pub face: bool,
    pub genre: bool,
    pub sharp_ai: bool,
    pub object: bool,
    pub gpu: bool,
}

/// Which model files are on disk (and whether the object class names a known class).
#[derive(Clone, Copy, Debug, PartialEq, Eq, Structural)]
pub struct ModelsPresent {
    pub aesthetic: bool,
    pub face: bool,
    pub axes: bool,
    pub object: bool,
    pub object_class_known: bool,
}

/// The detectors a run actually uses.
#[derive(Clone, Copy, Debug, PartialEq, Eq, Structural)]
pub struct DetectorPlan {
    pub aesthetic: bool,
    pub face: bool,
    pub sharp_ai: bool,
    pub object: bool,
    pub gpu: bool,
}

/// A detector runs only when asked for and its model is on disk (a missing model turns the
/// check off rather than judging without it); faces serve the face and the genre checks;
/// the object check also needs a known class; the GPU serves the aesthetic model only.
pub fn detector_plan(w: &DetectorWish, m: &ModelsPresent) -> (p: DetectorPlan)
    ensures
        p == (DetectorPlan {
            aesthetic: w.aesthetic && m.aesthetic,
            face: (w.face || w.genre) && m.face,
            sharp_ai: w.sharp_ai && m.axes,
            object: w.object && m.object_class_known && m.object,
            gpu: w.gpu && w.aesthetic && m.aesthetic,
        }),
{
    let aesthetic = w.aesthetic && m.aesthetic;
    DetectorPlan {
        aesthetic,
        face: (w.face || w.genre) && m.face,
        sharp_ai: w.sharp_ai && m.axes,
        object: w.object && m.object_class_known && m.object,
        gpu: w.gpu && aesthetic,
    }
}

/// Whether "start culling" is enabled: some check is switched on (`any_check`, as the
/// options report it), there is at least one photo to analyse (`count`), and no check is
/// on whose model is missing: the aesthetic score needs its model, faces and the genre
/// check need the face model, AI sharpness needs the CLIP axes model, and the object check
/// needs the object model and a known class.
pub fn ai_cull_can_start(any_check: bool, count: usize, w: &DetectorWish, m: &ModelsPresent) -> (r: bool)
    ensures
        r == (any_check && count > 0 && !(w.aesthetic && !m.aesthetic) && !((w.face || w.genre)
            && !m.face) && !(w.sharp_ai && !m.axes) && !(w.object && !(m.object
            && m.object_class_known))),
{
    let aesthetic_blocks = w.aesthetic && !m.aesthetic;
    let face_blocks = (w.face || w.genre) && !m.face;
    let sharp_blocks = w.sharp_ai && !m.axes;
    let object_blocks = w.object && (!m.object || !m.object_class_known);
    any_check && count > 0 && !aesthetic_blocks && !face_blocks && !sharp_blocks && !object_blocks
}

impl CullSession {
    /// The number of photos a culling run analyses: the whole folder, or the photos
    /// through the filters.
    pub fn cull_count(&self, scope_all: bool) -> (r: usize)
        ensures
            r == (if scope_all {
                self@.marks.len()
            } else {
                visible(self@.marks, self@.filters).len()
            }),
    {
        if scope_all {
            self.marks.len()
        } else {
            self.filtered().len()
        }
    }
}

/// The group-culling settings that read each photo's EXIF.
#[derive(Clone, Copy, Debug, PartialEq, Eq, Structural)]
pub struct MetaNeeds {
    pub burst: bool,
    pub orientation_filter: bool,
    pub iso_max: bool,
    pub focal_range: bool,
    pub aperture_max: bool,
    pub shutter_min: bool,
}

/// EXIF is collected only when a setting reads it: burst grouping, an orientation filter,
/// one of the exposure limits, or a camera or lens filter that is not blank.
pub fn needs_meta(n: &MetaNeeds, camera_contains: &str, lens_contains: &str) -> (r: bool)
    ensures
        r == (n.burst || n.orientation_filter || n.iso_max || n.focal_range || n.aperture_max
            || n.shutter_min || trim(camera_contains@).len() > 0 || trim(lens_contains@).len()
            > 0),
{
    let cam = chars_of(camera_contains);
    let lens = chars_of(lens_contains);
    let (c0, c1) = trim_range(&cam, 0, cam.len());
    let (l0, l1) = trim_range(&lens, 0, lens.len());
    proof {
        assert(cam@.subrange(0, cam@.len() as int) == cam@);
        assert(lens@.subrange(0, lens@.len() as int) == lens@);
    }
    n.burst || n.orientation_filter || n.iso_max || n.focal_range || n.aperture_max || n.shutter_min
        || c1 > c0 || l1 > l0
}

// ---------------------------------------------------------------- while a run works

/// What the running job reported this frame.
#[derive(Clone, Copy, Debug, PartialEq, Eq, Structural)]
pub enum CullEvent {
    /// It finished and sent its verdicts.
    Finished,
    /// Nothing yet.
    Running,
    /// Its worker went away without an answer.
    Lost,
}

/// What the viewer does about it.
#[derive(Clone, Copy, Debug, PartialEq, Eq, Structural)]
pub enum CullStep {
    /// Apply the verdicts to the photos.
    Apply,
    /// The folder changed since the run started: its indices mean other photos now, so the
    /// verdicts are thrown away (and the user told).
    DiscardStale,
    /// The run is over without verdicts.
    Stop,
    /// Keep waiting, refreshing the progress.
    Wait,
}

/// The step for `ev` of a job started in folder generation `job_generation`.
pub fn cull_step(ev: CullEvent, job_generation: u64, generation: u64) -> (r: CullStep)
    ensures
        r == match ev {
            CullEvent::Finished => if job_generation == generation {
                CullStep::Apply
            } else {
                CullStep::DiscardStale
            },
            CullEvent::Running => CullStep::Wait,
            CullEvent::Lost => CullStep::Stop,
        },
{
    match ev {
        CullEvent::Finished => if job_generation == generation {
            CullStep::Apply
        } else {
            CullStep::DiscardStale
        },
        CullEvent::Running => CullStep::Wait,
        CullEvent::Lost => CullStep::Stop,
    }
}

impl CullSession {
    /// A culling run starts writing to axis `target`: manual edits of that axis are locked.
    pub fn lock_for_cull(&mut self, target: AiCullTarget)
        ensures
            final(self)@ == (SessionModel { cull_lock: Some(target), ..old(self)@ }),
    {
        self.cull_lock = Some(target);
    }

    /// The run ended (applied, discarded, lost or cancelled): the axis is free again.
    pub fn end_cull(&mut self)
        ensures
            final(self)@ == (SessionModel { cull_lock: None, ..old(self)@ }),
    {
        self.cull_lock = None;
    }
}

} // verus!
