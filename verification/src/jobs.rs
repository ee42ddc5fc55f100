//! The engine's work items and the texture-load pipeline.
//!
//! Work items are a closed set of tagged variants: loading and
//! decoding a texture, precompiling a script, and running a cache
//! cleanup pass. A texture load is split around its device work: the
//! scheduler hands the job to a worker, the worker fetches the raw
//! payload and decodes and uploads it, and the completion step below
//! records the texture and atomically redirects the job's swappable
//! handle from the placeholder to the real identity.

use vstd::prelude::*;

use crate::archive::AssetError;
use crate::cache::{
    dec, inc, names_after, swap_tex_effect, AssetLoader, GpuTextureRef, TexCell, TexEntry,
};
use crate::identity::{name_uuid, uuid_for_name, ToUuid, Uuid};
use crate::scheduler::{JobFrequency, JobScheduler};

verus! {

/// A hint naming the image container format of a texture payload,
/// used instead of content sniffing when decoding.
#[derive(Copy, Clone, Debug, PartialEq, Eq, Structural)]
pub enum ImageFormatHint {
    /// Portable Network Graphics.
    Png,
    /// JPEG.
    Jpeg,
    /// GIF.
    Gif,
    /// Windows bitmap.
    Bmp,
    /// Truevision TGA.
    Tga,
    /// TIFF.
    Tiff,
    /// WebP.
    WebP,
}

/// A deferred texture load: fetch the raw payload by id, decode and
/// upload it, record it in the texture cache, and redirect the
/// handle's cell to the real identity.
pub struct TextureLoadJob {
    /// The asset id of the texture payload.
    pub id: String,
    /// The swappable handle every consumer of this load shares.
    pub tex: GpuTextureRef,
    /// The format hint, if the caller gave one.
    pub format: Option<ImageFormatHint>,
}

/// A deferred cache cleanup pass.
pub struct CacheCleanJob;

/// A deferred script compilation, so that later lookups find the
/// bytecode precompiled.
pub struct LuaPreCompileJob {
    script_id: String,
}

impl LuaPreCompileJob {
    /// The asset id of the script to precompile.
    pub closed spec fn id(&self) -> Seq<char> {
        self.script_id@
    }

    /// A job that will precompile the script stored under the given
    /// asset id.
    pub fn new(script_id: &str) -> (r: Self)
        ensures
            r.id() == script_id@,
    {
        LuaPreCompileJob { script_id: script_id.to_owned() }
    }

    /// Returns the asset id of the script to precompile.
    pub fn script_id(&self) -> (r: &str)
        ensures
            r@ == self.id(),
    {
        self.script_id.as_str()
    }
}

/// One work item for the scheduler, as a closed set of variants; the
/// payload owns everything its run needs.
pub enum JobDesc {
    /// Load, decode and record a texture, then redirect its handle.
    Texture(TextureLoadJob),
    /// Precompile a script into bytecode.
    LuaCompile(LuaPreCompileJob),
    /// Run a cache cleanup pass.
    CacheClean(CacheCleanJob),
}

/// What every work item declares: how often it is meant to run. The
/// run itself is dispatched by the worker on the item's variant.
pub trait Job: ToUuid {
    /// The declared frequency.
    spec fn freq_spec(&self) -> JobFrequency;

    /// Returns the declared frequency.
    fn get_freq(&self) -> (r: JobFrequency)
        ensures
            r == self.freq_spec(),
    ;
}

impl ToUuid for TextureLoadJob {
    open spec fn uuid_name_spec(&self) -> Seq<char> {
        "TextureLoadJob"@
    }

    fn uuid_name(&self) -> (r: String) {
        "TextureLoadJob".to_owned()
    }
}

impl Job for TextureLoadJob {
    open spec fn freq_spec(&self) -> JobFrequency {
        JobFrequency::Once
    }

    fn get_freq(&self) -> JobFrequency {
        JobFrequency::Once
    }
}

impl ToUuid for CacheCleanJob {
    open spec fn uuid_name_spec(&self) -> Seq<char> {
        "CacheCleanJob"@
    }

    fn uuid_name(&self) -> (r: String) {
        "CacheCleanJob".to_owned()
    }
}

impl Job for CacheCleanJob {
    open spec fn freq_spec(&self) -> JobFrequency {
        JobFrequency::Periodically
    }

    fn get_freq(&self) -> JobFrequency {
        JobFrequency::Periodically
    }
}

impl ToUuid for LuaPreCompileJob {
    open spec fn uuid_name_spec(&self) -> Seq<char> {
        "LuaPreCompileJob"@
    }

    fn uuid_name(&self) -> (r: String) {
        "LuaPreCompileJob".to_owned()
    }
}

impl Job for LuaPreCompileJob {
    open spec fn freq_spec(&self) -> JobFrequency {
        JobFrequency::Once
    }

    fn get_freq(&self) -> JobFrequency {
        JobFrequency::Once
    }
}

/// What a granted texture request does. On a cache hit the caller
/// gets a shared handle to the resident texture, registering one
/// reference, and the scheduler is untouched. On a miss the caller
/// gets a swappable handle over a fresh cell pointing at the
/// placeholder — registered twice, once for the caller's handle and
/// once for the clone the queued job carries — and a texture-load job
/// for the key enters the queue.
pub open spec fn load_texture_post(
    pre: &AssetLoader,
    post: &AssetLoader,
    spre: &JobScheduler<JobDesc>,
    spost: &JobScheduler<JobDesc>,
    id: Seq<char>,
    format: Option<ImageFormatHint>,
    h: GpuTextureRef,
) -> bool {
    let u = name_uuid(id);
    crate::cache::same_but_tex_and_cells(pre, post) && if pre.tex().contains_key(u) {
        h == GpuTextureRef::Shared(u) && post.tex() == pre.tex().insert(
            u,
            (TexEntry { refs: inc(pre.tex()[u].refs) }),
        ) && post.cells() == pre.cells() && *spost == *spre
    } else {
        (pre.placeholder() matches Some(ph) && pre.tex().contains_key(ph) && h
            == GpuTextureRef::Swappable(pre.cells().len() as usize) && post.cells()
            == pre.cells().push((TexCell { target: ph, clones: 2 })) && post.tex()
            == pre.tex().insert(ph, (TexEntry { refs: inc(inc(pre.tex()[ph].refs)) })))
            && spost.jobs() == spre.jobs().push(crate::scheduler::JobState::Queued)
            && spost.threads() == spre.threads() && spost.device_ready() == spre.device_ready()
            && spost.terminate() == spre.terminate() && spost.queue().len() == spre.queue().len()
            + 1 && spost.queue().drop_last() == spre.queue() && spost.queue().last().0
            == spre.jobs().len() && (spost.queue().last().1 matches JobDesc::Texture(j) && j.id@
            == id && j.format == format && j.tex == h)
    }
}

impl AssetLoader {
    fn load_texture_inner(
        &mut self,
        sched: &mut JobScheduler<JobDesc>,
        id: &str,
        format: Option<ImageFormatHint>,
    ) -> (r: Result<GpuTextureRef, AssetError>)
        requires
            old(self).wf(),
            old(sched).wf(),
            old(self).tex().contains_key(name_uuid(id@)) || (old(self).placeholder() matches Some(
                p,
            ) && old(self).tex().contains_key(p)),
        ensures
            final(self).wf(),
            final(sched).wf(),
            r matches Ok(h) && load_texture_post(
                old(self),
                final(self),
                old(sched),
                final(sched),
                id@,
                format,
                h,
            ),
    {
        let u = uuid_for_name(id);
        let hit = match self.texture_from_cache(&u) {
            Ok(_) => true,
            Err(_) => false,
        };
        if hit {
            let h = GpuTextureRef::new_shared(self, u);
            return Ok(h);
        }
        let ph = match self.placeholder_uuid() {
            Some(p) => p,
            None => vstd::pervasive::unreached(),
        };
        let ghost pre = *self;
        let idx = self.cell_count();
        let tex_ref = GpuTextureRef::new_swappable(self, ph);
        proof {
            assert(tex_ref == GpuTextureRef::Swappable(idx));
            assert(self.cells()[idx as int] == (TexCell { target: ph, clones: 1 }));
            assert(tex_ref.target(self) == ph);
        }
        let tex_clone = tex_ref.clone_with(self);
        proof {
            assert(self.cells() =~= pre.cells().push((TexCell { target: ph, clones: 2 })));
            assert(self.tex() =~= pre.tex().insert(
                ph,
                (TexEntry { refs: inc(inc(pre.tex()[ph].refs)) }),
            ));
        }
        let job = TextureLoadJob { id: id.to_owned(), tex: tex_clone, format };
        let ghost spre = *sched;
        sched.submit(JobDesc::Texture(job));
        proof {
            assert(sched.queue().drop_last() =~= spre.queue());
        }
        Ok(tex_ref)
    }

    /// Requests a texture by name, sniffing the payload's format:
    /// a resident texture is handed back at once as a shared handle;
    /// otherwise the caller gets a swappable handle showing the
    /// placeholder, and a background job is queued that will load the
    /// texture and redirect the handle. The placeholder must be
    /// configured (and resident) before any texture miss.
    pub fn load_texture(&mut self, sched: &mut JobScheduler<JobDesc>, id: &str) -> (r: Result<
        GpuTextureRef,
        AssetError,
    >)
        requires
            old(self).wf(),
            old(sched).wf(),
            old(self).tex().contains_key(name_uuid(id@)) || (old(self).placeholder() matches Some(
                p,
            ) && old(self).tex().contains_key(p)),
        ensures
            final(self).wf(),
            final(sched).wf(),
            r matches Ok(h) && load_texture_post(
                old(self),
                final(self),
                old(sched),
                final(sched),
                id@,
                None,
                h,
            ),
    {
        self.load_texture_inner(sched, id, None)
    }

    /// Requests a texture by name with an explicit format hint;
    /// otherwise exactly as `load_texture`.
    pub fn load_texture_with_format(
        &mut self,
        sched: &mut JobScheduler<JobDesc>,
        id: &str,
        format: ImageFormatHint,
    ) -> (r: Result<GpuTextureRef, AssetError>)
        requires
            old(self).wf(),
            old(sched).wf(),
            old(self).tex().contains_key(name_uuid(id@)) || (old(self).placeholder() matches Some(
                p,
            ) && old(self).tex().contains_key(p)),
        ensures
            final(self).wf(),
            final(sched).wf(),
            r matches Ok(h) && load_texture_post(
                old(self),
                final(self),
                old(sched),
                final(sched),
                id@,
                Some(format),
                h,
            ),
    {
        self.load_texture_inner(sched, id, Some(format))
    }

    /// Requests a texture by name, first checking the startup
    /// invariant instead of demanding it: when the texture is not
    /// resident and no resident placeholder is configured, the request
    /// is refused as an invariant violation and nothing changes.
    pub fn try_load_texture(
        &mut self,
        sched: &mut JobScheduler<JobDesc>,
        id: &str,
        format: Option<ImageFormatHint>,
    ) -> (r: Result<GpuTextureRef, AssetError>)
        requires
            old(self).wf(),
            old(sched).wf(),
        ensures
            final(self).wf(),
            final(sched).wf(),
            match r {
                Ok(h) => load_texture_post(
                    old(self),
                    final(self),
                    old(sched),
                    final(sched),
                    id@,
                    format,
                    h,
                ),
                Err(e) => e == AssetError::InvariantViolation && *final(self) == *old(self)
                    && *final(sched) == *old(sched) && !old(self).tex().contains_key(name_uuid(id@))
                    && !(old(self).placeholder() matches Some(p) && old(self).tex().contains_key(
                    p,
                )),
            },
    {
        let u = uuid_for_name(id);
        let cached = match self.texture_from_cache(&u) {
            Ok(_) => true,
            Err(_) => false,
        };
        let ready = if cached {
            true
        } else {
            match self.placeholder_uuid() {
                Some(p) => match self.texture_from_cache(&p) {
                    Ok(_) => true,
                    Err(_) => false,
                },
                None => false,
            }
        };
        if ready {
            match format {
                Some(f) => self.load_texture_with_format(sched, id, f),
                None => self.load_texture(sched, id),
            }
        } else {
            Err(AssetError::InvariantViolation)
        }
    }
}

/// What completing a texture load does to the loader: the texture is
/// recorded under the job's key (keeping references already registered
/// against that identity), the job's cell is redirected from its old
/// target to the key — each of its handles deregistering from the old
/// target and re-registering against the new one — and the job's own
/// handle is then released.
pub open spec fn texture_load_completed(
    pre: &AssetLoader,
    post: &AssetLoader,
    id: Seq<char>,
    i: int,
) -> bool {
    let u = name_uuid(id);
    let t0 = pre.cells()[i].target;
    let c = pre.cells()[i].clones;
    let m1 = pre.tex().insert(
        u,
        TexEntry {
            refs: if pre.tex().contains_key(u) {
                pre.tex()[u].refs
            } else {
                0
            },
        },
    );
    let m2 = swap_tex_effect(m1, t0, u, c);
    let m3 = m2.insert(u, TexEntry { refs: dec(m2[u].refs) });
    post.tex() == m3 && post.cells() == pre.cells().update(
        i,
        TexCell { target: u, clones: dec(c) },
    ) && post.names() == names_after(pre.names(), pre.keep_names(), id)
}

impl TextureLoadJob {
    /// The first half of the job's run: fetches the raw payload from
    /// the mounted archives, never touching the cache; the worker then
    /// decodes and uploads it before completing the job.
    pub fn fetch_payload(&self, sys: &AssetLoader) -> (r: Result<Vec<u8>, AssetError>)
        ensures
            match r {
                Ok(d) => crate::archive::first_hit(sys.mounted(), self.id@) matches Some(p) && d@
                    == p.0,
                Err(e) => e == AssetError::NotFound && crate::archive::first_hit(
                    sys.mounted(),
                    self.id@,
                ) is None,
            },
    {
        sys.get_asset_uncached(self.id.as_str())
    }

    /// The second half of the job's run, after the worker decoded and
    /// uploaded the texture: records it in the cache, redirects the
    /// job's swappable handle to the real identity, and releases the
    /// job's own handle.
    pub fn complete(self, sys: &mut AssetLoader)
        requires
            old(sys).wf(),
            self.tex is Swappable,
            self.tex.valid(old(sys)),
            old(sys).tex().contains_key(self.tex.target(old(sys))),
        ensures
            final(sys).wf(),
            crate::cache::same_but_tex_names_cells(old(sys), final(sys)),
            texture_load_completed(old(sys), final(sys), self.id@, self.tex.cell_index()),
    {
        let TextureLoadJob { id, tex, format: _ } = self;
        let ghost pre = *sys;
        let (u, _was) = sys.insert_into_texture_cache(id.as_str());
        tex.swap(sys, u);
        let ghost mid = *sys;
        tex.drop_with(sys);
        proof {
            let i = tex.cell_index();
            let t0 = pre.cells()[i].target;
            let c = pre.cells()[i].clones;
            assert(sys.cells() =~= pre.cells().update(i, TexCell { target: u, clones: dec(c) }));
        }
    }

    /// Releases the job's handle without recording anything, leaving
    /// its consumers on the placeholder; the path taken when the fetch
    /// or the decode fails.
    pub fn abandon(self, sys: &mut AssetLoader)
        requires
            old(sys).wf(),
            self.tex.valid(old(sys)),
        ensures
            final(sys).wf(),
            crate::cache::same_but_tex_and_cells(old(sys), final(sys)),
            final(sys).tex() == if old(sys).tex().contains_key(self.tex.target(old(sys))) {
                old(sys).tex().insert(
                    self.tex.target(old(sys)),
                    (TexEntry { refs: dec(old(sys).tex()[self.tex.target(old(sys))].refs) }),
                )
            } else {
                old(sys).tex()
            },
            final(sys).cells() == match self.tex {
                GpuTextureRef::Shared(_) => old(sys).cells(),
                GpuTextureRef::Swappable(i) => old(sys).cells().update(
                    i as int,
                    (TexCell {
                        target: old(sys).cells()[i as int].target,
                        clones: dec(old(sys).cells()[i as int].clones),
                    }),
                ),
            },
    {
        let TextureLoadJob { id: _, tex, format: _ } = self;
        tex.drop_with(sys);
    }
}

impl CacheCleanJob {
    /// Runs the cleanup pass against the loader, exactly as
    /// `AssetLoader::clean_cache` describes it.
    pub fn run(&self, sys: &mut AssetLoader)
        requires
            old(sys).wf(),
        ensures
            final(sys).wf(),
            final(sys).tex() == old(sys).tex().restrict(
                crate::cache::tex_live(old(sys).tex(), old(sys).viewers()),
            ),
            final(sys).raw() == old(sys).raw().restrict(crate::cache::raw_live(old(sys).raw())),
            crate::cache::same_but_tex_and_raw(old(sys), final(sys)),
    {
        sys.clean_cache();
    }
}

} // verus!
