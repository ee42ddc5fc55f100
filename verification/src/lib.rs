//! Asset caching and background job scheduling for a small sprite engine.
//!
//! The crate models the engine's resource pipeline: deterministic
//! content-addressed identities, sealed archives that hold raw asset
//! payloads, reference-counted caches with threshold-driven eviction,
//! swappable texture handles that first point at a placeholder and are
//! redirected once a background load finishes, and a worker-pool job
//! scheduler with per-job completion tracking.

mod archive;
mod cache;
mod identity;
mod idmap;
mod jobs;
mod laws;
mod scheduler;
mod scripting;
mod stages;

pub use archive::{ArchiveSet, AssetError, MountedArchive};
pub use cache::{AssetLoader, GpuTextureRef, RawEntry, TexCell, TexEntry};
pub use identity::{ToUuid, Uuid, UUID_NAMESPACE_ASSETS};
pub use jobs::{CacheCleanJob, ImageFormatHint, Job, JobDesc, LuaPreCompileJob, TextureLoadJob};
pub use laws::{
    lemma_archive_precedence, lemma_cache_idempotent, lemma_duplicate_texture_jobs,
    lemma_eviction_by_refcount, lemma_identity_deterministic, lemma_job_lifecycle,
    lemma_refcount_drives_eviction, lemma_swap_correctness, lemma_swap_refcount_transfer,
};
pub use scripting::LuaScript;
pub use stages::{
    clean_cache, CacheCleanInterval, DeltaTime, EguiRequestRedrawEvent, LastCacheClean,
    MenuCategory, ScheduleStages,
};
pub use scheduler::{
    clone_or_panic, JobFrequency, JobScheduler, JobState, JobStateTracker, ThreadState,
    ThreadStateTracker,
};
