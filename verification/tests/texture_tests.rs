use std::io::Cursor;

use asset_pipeline::{
    AssetError, AssetLoader, JobDesc, JobScheduler, JobState, Uuid, UUID_NAMESPACE_ASSETS,
};

fn signing_key() -> vach::crypto::SigningKey {
    vach::crypto::SigningKey::from_bytes(&[3u8; 32])
}

fn build_archive(entries: &[(&str, &[u8])]) -> Vec<u8> {
    let mut leaves: Vec<vach::builder::Leaf<&[u8]>> = entries
        .iter()
        .map(|(id, data)| vach::builder::Leaf::new(*data, *id).sign(true))
        .collect();
    let config = vach::builder::BuilderConfig::default().keypair(signing_key());
    let mut target = Cursor::new(Vec::new());
    vach::builder::dump(&mut target, &mut leaves, &config, None).unwrap();
    target.into_inner()
}

fn setup() -> (AssetLoader, JobScheduler<JobDesc>) {
    let mut sys = AssetLoader::init(false, signing_key().verifying_key().to_bytes().to_vec());
    let bytes = build_archive(&[("ph.png", b"placeholder pixels"), ("sprite.png", b"sprite pixels")]);
    sys.add_archive("tex.pak", bytes).unwrap();
    // the embedding application would decode and upload the payload
    // before recording the placeholder
    let payload = sys.get_asset_uncached("ph.png").unwrap();
    assert_eq!(payload, b"placeholder pixels");
    sys.set_tex_placeholder("ph.png");
    (sys, JobScheduler::init())
}

fn uuid_of(name: &str) -> Uuid {
    Uuid::new_v5(&Uuid { value: UUID_NAMESPACE_ASSETS }, name.as_bytes())
}

#[test]
fn load_before_placeholder_is_refused() {
    let mut sys = AssetLoader::init(false, Vec::new());
    let mut sched: JobScheduler<JobDesc> = JobScheduler::init();
    let r = sys.try_load_texture(&mut sched, "sprite.png", None);
    assert_eq!(r.unwrap_err(), AssetError::InvariantViolation);
}

#[test]
fn cached_texture_comes_back_shared() {
    let (mut sys, mut sched) = setup();
    let h = sys.try_load_texture(&mut sched, "ph.png", None).unwrap();
    // a hit needs no job
    assert_eq!(sched.queued_count(), 0);
    assert_eq!(h.uuid(&sys), uuid_of("ph.png"));
}

#[test]
fn swap_redirects_every_clone() {
    let (mut sys, mut sched) = setup();
    let ph = uuid_of("ph.png");
    let real = uuid_of("sprite.png");
    let refs_before_loan = sys.texture_from_cache(&ph).unwrap();

    let h = sys.try_load_texture(&mut sched, "sprite.png", None).unwrap();
    // the handle first resolves to the placeholder
    assert_eq!(h.uuid(&sys), ph);
    assert_eq!(sys.texture_from_cache(&real), Err(AssetError::NotFound));
    // a clone taken before the redirection
    let h2 = h.clone_with(&mut sys);
    assert_eq!(h2.uuid(&sys), ph);

    // a worker claims and runs the queued job
    sched.init_device_queue();
    let w = sched.spawn_worker();
    let (jt, desc) = sched.worker_take(w).unwrap();
    let job = match desc {
        JobDesc::Texture(job) => job,
        _ => panic!("expected a texture-load job"),
    };
    let payload = job.fetch_payload(&sys).unwrap();
    assert_eq!(payload, b"sprite pixels");
    job.complete(&mut sys);
    sched.worker_finish(w, jt, true);
    assert_eq!(jt.state(&sched), JobState::Succeeded);

    // every clone of the handle now resolves to the real texture
    assert_eq!(h.uuid(&sys), real);
    assert_eq!(h2.uuid(&sys), real);
    // the placeholder's count is back at its pre-loan value
    assert_eq!(sys.texture_from_cache(&ph).unwrap(), refs_before_loan);
    // the real texture carries the two consumer handles
    assert_eq!(sys.texture_from_cache(&real), Ok(2));
}

#[test]
fn failed_load_leaves_the_placeholder() {
    let (mut sys, mut sched) = setup();
    let ph = uuid_of("ph.png");
    let refs_before_loan = sys.texture_from_cache(&ph).unwrap();
    let h = sys.try_load_texture(&mut sched, "missing.png", None).unwrap();
    assert_eq!(h.uuid(&sys), ph);

    sched.init_device_queue();
    let w = sched.spawn_worker();
    let (jt, desc) = sched.worker_take(w).unwrap();
    let job = match desc {
        JobDesc::Texture(job) => job,
        _ => panic!("expected a texture-load job"),
    };
    assert_eq!(job.fetch_payload(&sys), Err(AssetError::NotFound));
    job.abandon(&mut sys);
    sched.worker_finish(w, jt, false);
    assert_eq!(jt.state(&sched), JobState::Failed);

    // the consumer keeps showing the placeholder indefinitely
    assert_eq!(h.uuid(&sys), ph);
    assert_eq!(sys.texture_from_cache(&ph).unwrap(), refs_before_loan + 1);
    h.drop_with(&mut sys);
    assert_eq!(sys.texture_from_cache(&ph).unwrap(), refs_before_loan);
}

#[test]
fn concurrent_loads_queue_duplicate_jobs() {
    let (mut sys, mut sched) = setup();
    let ph = uuid_of("ph.png");
    // two requests for the same not-yet-cached key: no single-flight
    // marker exists, so each queues its own job
    let h1 = sys.try_load_texture(&mut sched, "sprite.png", None).unwrap();
    let h2 = sys.try_load_texture(&mut sched, "sprite.png", None).unwrap();
    assert_ne!(h1, h2);
    assert_eq!(h1.uuid(&sys), ph);
    assert_eq!(h2.uuid(&sys), ph);

    sched.init_device_queue();
    let w = sched.spawn_worker();
    let mut texture_jobs = 0;
    while let Some((jt, desc)) = sched.worker_take(w) {
        match desc {
            JobDesc::Texture(job) => {
                texture_jobs += 1;
                assert_eq!(job.fetch_payload(&sys).unwrap(), b"sprite pixels");
                job.complete(&mut sys);
                sched.worker_finish(w, jt, true);
            }
            _ => panic!("expected only texture-load jobs"),
        }
    }
    assert_eq!(texture_jobs, 2);
    let real = uuid_of("sprite.png");
    assert_eq!(h1.uuid(&sys), real);
    assert_eq!(h2.uuid(&sys), real);
}
