use asset_pipeline::{
    clean_cache, clone_or_panic, AssetLoader, CacheCleanInterval, CacheCleanJob, DeltaTime, Job,
    JobDesc, JobFrequency, JobScheduler, JobState, LastCacheClean, ScheduleStages, ThreadState,
};

fn sched() -> JobScheduler<JobDesc> {
    let mut s: JobScheduler<JobDesc> = JobScheduler::init();
    s.init_device_queue();
    s
}

#[test]
fn job_lifecycle_success() {
    let mut s = sched();
    let w = s.spawn_worker();
    assert_eq!(w.state(&s), ThreadState::Idle);
    let t = s.submit(JobDesc::CacheClean(CacheCleanJob));
    assert_eq!(t.state(&s), JobState::Queued);
    assert_eq!(t.flush_poll(&s), None);

    let (jt, desc) = s.worker_take(w).unwrap();
    assert_eq!(jt, t);
    assert_eq!(t.state(&s), JobState::Processing);
    assert_eq!(w.state(&s), ThreadState::Processing);
    let mut sys = AssetLoader::init(false, Vec::new());
    match desc {
        JobDesc::CacheClean(job) => job.run(&mut sys),
        _ => panic!("expected the cleanup job"),
    }
    s.worker_finish(w, jt, true);
    assert_eq!(t.state(&s), JobState::Succeeded);
    assert_eq!(w.state(&s), ThreadState::Idle);
    // a flush on a finished tracker returns at once
    assert_eq!(t.flush_poll(&s), Some(Ok(())));
    assert!(s.all_jobs_terminal());
}

#[test]
fn job_lifecycle_failure() {
    let mut s = sched();
    let w = s.spawn_worker();
    let t = s.submit(JobDesc::CacheClean(CacheCleanJob));
    let (jt, _desc) = s.worker_take(w).unwrap();
    s.worker_finish(w, jt, false);
    assert_eq!(t.state(&s), JobState::Failed);
    // the failure is reported without its detail
    assert_eq!(t.flush_poll(&s), Some(Err(())));
    assert!(s.all_jobs_terminal());
}

#[test]
fn empty_queue_gives_no_work() {
    let mut s = sched();
    let w = s.spawn_worker();
    assert!(s.worker_take(w).is_none());
    assert!(!s.should_terminate());
    s.request_terminate();
    assert!(s.should_terminate());
}

#[test]
fn submitting_without_workers_just_queues() {
    let mut s: JobScheduler<JobDesc> = JobScheduler::init();
    let t = s.submit(JobDesc::CacheClean(CacheCleanJob));
    assert_eq!(s.thread_states().len(), 0);
    assert_eq!(s.queued_count(), 1);
    assert_eq!(t.state(&s), JobState::Queued);
}

#[test]
fn spawn_workers_registers_idle_threads() {
    let mut s = sched();
    let trackers = s.spawn_workers(3);
    assert_eq!(trackers.len(), 3);
    let states = s.thread_states();
    assert_eq!(states, vec![ThreadState::Idle, ThreadState::Idle, ThreadState::Idle]);
}

#[test]
fn jobs_declare_their_frequency() {
    assert_eq!(CacheCleanJob.get_freq(), JobFrequency::Periodically);
    assert_eq!(asset_pipeline::LuaPreCompileJob::new("x").get_freq(), JobFrequency::Once);
}

#[test]
fn clone_or_panic_copies_the_value() {
    let v: Option<u32> = Some(17);
    assert_eq!(clone_or_panic(&v, "expected a configured value"), 17);
}

#[test]
fn cache_clean_cadence() {
    let mut s = sched();
    let mut last = LastCacheClean(1000);
    let interval = CacheCleanInterval::default();
    assert_eq!(interval.0, 10000);
    // not due yet: nothing is submitted
    assert!(clean_cache(&mut s, &mut last, &interval, 5000).is_none());
    assert_eq!(s.queued_count(), 0);
    assert_eq!(last.0, 1000);
    // past the interval: one cleanup job enters the queue
    let t = clean_cache(&mut s, &mut last, &interval, 12001).unwrap();
    assert_eq!(t.state(&s), JobState::Queued);
    assert_eq!(s.queued_count(), 1);
    assert_eq!(last.0, 12001);
}

#[test]
fn stage_labels() {
    assert_eq!(ScheduleStages::PreUpdate.to_str(), "pre_update");
    assert_eq!(ScheduleStages::Update.to_str(), "update");
    assert_eq!(ScheduleStages::PostUpdate.to_str(), "post_update");
    assert_eq!(ScheduleStages::PreRender.to_str(), "pre_render");
    assert_eq!(ScheduleStages::InternalPreRender.to_str(), "i_prerender");
    assert_eq!(ScheduleStages::InternalRender.to_str(), "i_render");
    assert_eq!(ScheduleStages::InternalPostRender.to_str(), "i_postrender");
    assert_eq!(ScheduleStages::PostRender.to_str(), "post_render");
}

#[test]
fn frame_resources_default() {
    assert_eq!(DeltaTime::default().0, 0);
    assert_eq!(LastCacheClean::default().0, 0);
}
