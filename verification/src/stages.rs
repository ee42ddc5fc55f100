//! Frame-schedule bookkeeping around the cache and scheduler: the
//! named stages a frame runs through, the frame-time resource, and the
//! cadence at which cache cleanup jobs are submitted.

use vstd::prelude::*;

use crate::jobs::{CacheCleanJob, JobDesc};
use crate::scheduler::{JobScheduler, JobState, JobStateTracker};

verus! {

/// The stages one frame of the schedule runs through, in order.
#[derive(Debug, Copy, Clone, Eq, PartialEq, Hash, Structural)]
pub enum ScheduleStages {
    /// Application logic before the update stage.
    PreUpdate,
    /// The main update stage.
    Update,
    /// Application logic after the update stage.
    PostUpdate,
    /// Application logic before rendering starts.
    PreRender,
    /// Frame setup inside the renderer.
    InternalPreRender,
    /// Draw submission inside the renderer.
    InternalRender,
    /// Frame teardown inside the renderer.
    InternalPostRender,
    /// Application logic after rendering.
    PostRender,
}

/// The label of each schedule stage.
pub open spec fn stage_label(s: ScheduleStages) -> Seq<char> {
    match s {
        ScheduleStages::PreUpdate => "pre_update"@,
        ScheduleStages::Update => "update"@,
        ScheduleStages::PostUpdate => "post_update"@,
        ScheduleStages::PreRender => "pre_render"@,
        ScheduleStages::InternalPreRender => "i_prerender"@,
        ScheduleStages::InternalRender => "i_render"@,
        ScheduleStages::InternalPostRender => "i_postrender"@,
        ScheduleStages::PostRender => "post_render"@,
    }
}

impl ScheduleStages {
    /// Returns the stage's label.
    pub fn to_str(&self) -> (r: &'static str)
        ensures
            r@ == stage_label(*self),
    {
        match self {
            ScheduleStages::PreUpdate => "pre_update",
            ScheduleStages::Update => "update",
            ScheduleStages::PostUpdate => "post_update",
            ScheduleStages::PreRender => "pre_render",
            ScheduleStages::InternalPreRender => "i_prerender",
            ScheduleStages::InternalRender => "i_render",
            ScheduleStages::InternalPostRender => "i_postrender",
            ScheduleStages::PostRender => "post_render",
        }
    }
}

/// The time the last frame took, in microseconds.
#[derive(Debug, Copy, Clone, Eq, PartialEq, Structural)]
pub struct DeltaTime(pub u64);

impl Default for DeltaTime {
    /// A zero frame time, before any frame has been measured.
    fn default() -> (r: Self)
        ensures
            r.0 == 0,
    {
        DeltaTime(0)
    }
}

/// When the last cache cleanup job was submitted, in milliseconds of
/// the embedding clock.
#[derive(Debug, Copy, Clone, Eq, PartialEq, Structural)]
pub struct LastCacheClean(pub u64);

impl Default for LastCacheClean {
    /// The clock's origin, before any cleanup has been submitted.
    fn default() -> (r: Self)
        ensures
            r.0 == 0,
    {
        LastCacheClean(0)
    }
}

/// How often a cache cleanup job is submitted, in milliseconds.
#[derive(Debug, Copy, Clone, Eq, PartialEq, Structural)]
pub struct CacheCleanInterval(pub u64);

impl Default for CacheCleanInterval {
    /// Ten seconds between cleanup passes.
    fn default() -> (r: Self)
        ensures
            r.0 == 10000,
    {
        CacheCleanInterval(10000)
    }
}

/// Whether enough time has passed since the last cleanup submission
/// for another one.
pub open spec fn cache_clean_due(last: u64, interval: u64, now: u64) -> bool {
    now > last && now - last > interval
}

/// The per-frame cleanup cadence: when the interval since the last
/// submission has elapsed, submits one cache cleanup job and restarts
/// the interval; otherwise changes nothing. Returns the new job's
/// tracker when one was submitted.
pub fn clean_cache(
    sched: &mut JobScheduler<JobDesc>,
    last: &mut LastCacheClean,
    interval: &CacheCleanInterval,
    now: u64,
) -> (r: Option<JobStateTracker>)
    requires
        old(sched).wf(),
    ensures
        final(sched).wf(),
        if cache_clean_due(old(last).0, interval.0, now) {
            (r matches Some(t) && t.job == old(sched).jobs().len()) && final(last).0 == now
                && final(sched).jobs() == old(sched).jobs().push(JobState::Queued)
                && final(sched).queue().len() == old(sched).queue().len() + 1
                && final(sched).queue().drop_last() == old(sched).queue()
                && final(sched).queue().last().0 == old(sched).jobs().len()
                && final(sched).queue().last().1 is CacheClean
                && final(sched).threads() == old(sched).threads()
        } else {
            r is None && *final(last) == *old(last) && *final(sched) == *old(sched)
        },
    {
    let elapsed = if now > last.0 {
        now - last.0
    } else {
        0
    };
    if elapsed > interval.0 {
        let t = sched.submit(JobDesc::CacheClean(CacheCleanJob));
        last.0 = now;
        proof {
            assert(sched.queue().drop_last() =~= old(sched).queue());
        }
        Some(t)
    } else {
        None
    }
}

/// Which menu of the debug interface a window is listed under.
#[derive(Debug, Copy, Clone, Eq, PartialEq, Structural)]
pub enum MenuCategory {
    /// Debugging windows, such as the cache and scheduler viewers.
    Debug,
    /// Performance windows, such as frame-time plots.
    Performance,
}

/// The custom event the interface layer sends its event loop to ask
/// for a repaint.
#[derive(Debug, Copy, Clone, Eq, PartialEq, Structural)]
pub enum EguiRequestRedrawEvent {
    /// Wake the event loop and redraw.
    RequestRedraw,
}

} // verus!
