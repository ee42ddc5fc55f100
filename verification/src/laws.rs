//! The pipeline's cross-cutting guarantees, each proved from the
//! operations' contracts alone.

use vstd::prelude::*;

use crate::archive::{first_hit, MountedArchive};
use crate::cache::{
    dec, get_asset_effect, inc, swap_tex_effect, tex_live, AssetLoader, GpuTextureRef, TexEntry,
};
use crate::identity::{name_uuid, v5_of, Uuid};
use crate::jobs::{load_texture_post, texture_load_completed, ImageFormatHint, JobDesc};
use crate::scheduler::{JobScheduler, JobState, JobStateTracker, ThreadStateTracker};

verus! {

/// Identity derivation is deterministic: two identities derived from
/// the same namespace and the same name bytes are one identity.
pub proof fn lemma_identity_deterministic(a: Uuid, b: Uuid, namespace: u128, name: Seq<u8>)
    requires
        a.value == v5_of(namespace, name),
        b.value == v5_of(namespace, name),
    ensures
        a == b,
{
}

/// Requesting the same raw asset key twice yields byte-identical
/// content both times, and the second request is served from the
/// cache: the first request leaves the key cached, so the second takes
/// the cache-hit path and asks no archive for anything.
pub proof fn lemma_cache_idempotent(
    s0: AssetLoader,
    s1: AssetLoader,
    s2: AssetLoader,
    id: Seq<char>,
    d1: Seq<u8>,
    d2: Seq<u8>,
)
    requires
        get_asset_effect(&s0, &s1, id, d1),
        get_asset_effect(&s1, &s2, id, d2),
    ensures
        d2 == d1,
        s1.raw().contains_key(name_uuid(id)),
{
}

/// Eviction is driven by the reference count alone: a cleanup pass
/// removes a cached texture exactly when its count of live references
/// is at or below the number of open debug viewers.
pub proof fn lemma_eviction_by_refcount(pre: AssetLoader, post: AssetLoader, u: Uuid)
    requires
        pre.tex().contains_key(u),
        post.tex() == pre.tex().restrict(tex_live(pre.tex(), pre.viewers())),
    ensures
        post.tex().contains_key(u) <==> pre.tex()[u].refs > pre.viewers(),
        post.tex().contains_key(u) ==> post.tex()[u] == pre.tex()[u],
{
    assert(tex_live(pre.tex(), pre.viewers()).contains(u) <==> pre.tex()[u].refs
        > pre.viewers());
}

/// The handle lifecycle drives eviction. Starting from an unreferenced
/// texture with no debug viewers open: registering a handle and then a
/// clone of it, and dropping one of the two, leaves one live reference,
/// and a cleanup pass keeps the texture; dropping the last handle too
/// makes the next pass remove it.
pub proof fn lemma_refcount_drives_eviction(
    s0: AssetLoader,
    s1: AssetLoader,
    s2: AssetLoader,
    s3: AssetLoader,
    s4: AssetLoader,
    s5: AssetLoader,
    s6: AssetLoader,
    u: Uuid,
)
    requires
        s0.tex().contains_key(u),
        s0.tex()[u].refs == 0,
        s3.viewers() == 0,
        s5.viewers() == 0,
        s1.tex() == s0.tex().insert(u, (TexEntry { refs: inc(s0.tex()[u].refs) })),
        s2.tex() == s1.tex().insert(u, (TexEntry { refs: inc(s1.tex()[u].refs) })),
        s3.tex() == s2.tex().insert(u, (TexEntry { refs: dec(s2.tex()[u].refs) })),
        s4.tex() == s3.tex().restrict(tex_live(s3.tex(), s3.viewers())),
        s5.tex() == s4.tex().insert(u, (TexEntry { refs: dec(s4.tex()[u].refs) })),
        s6.tex() == s5.tex().restrict(tex_live(s5.tex(), s5.viewers())),
    ensures
        s4.tex().contains_key(u),
        s4.tex()[u].refs == 1,
        !s6.tex().contains_key(u),
{
    assert(s3.tex()[u].refs == 1);
    assert(tex_live(s3.tex(), 0).contains(u));
    assert(s5.tex()[u].refs == 0);
    assert(!tex_live(s5.tex(), 0).contains(u));
}

/// Swap correctness. A texture request that misses hands back a
/// swappable handle that first resolves to the placeholder; once its
/// job completes and redirects the cell, the handle — and every clone
/// sharing its cell, taken before or after the redirection — resolves
/// to the real identity, the placeholder's reference count is back at
/// its pre-loan value, and the real texture holds exactly the
/// consumer's one reference.
pub proof fn lemma_swap_correctness(
    s0: AssetLoader,
    s1: AssetLoader,
    s2: AssetLoader,
    q0: JobScheduler<JobDesc>,
    q1: JobScheduler<JobDesc>,
    id: Seq<char>,
    format: Option<ImageFormatHint>,
    h: GpuTextureRef,
    ph: Uuid,
)
    requires
        s0.cells().len() <= usize::MAX,
        !s0.tex().contains_key(name_uuid(id)),
        s0.placeholder() == Some(ph),
        s0.tex().contains_key(ph),
        s0.tex()[ph].refs < u64::MAX - 1,
        load_texture_post(&s0, &s1, &q0, &q1, id, format, h),
        texture_load_completed(&s1, &s2, id, h.cell_index()),
    ensures
        h is Swappable,
        h.valid(&s1),
        h.target(&s1) == ph,
        h.target(&s2) == name_uuid(id),
        s2.cells()[h.cell_index()].target == name_uuid(id),
        s2.tex().contains_key(ph),
        s2.tex()[ph].refs == s0.tex()[ph].refs,
        s2.tex().contains_key(name_uuid(id)),
        s2.tex()[name_uuid(id)].refs == 1,
{
    let u = name_uuid(id);
    let i = h.cell_index();
    assert(ph != u);
    assert(h == GpuTextureRef::Swappable(s0.cells().len() as usize));
    assert(s1.cells()[i] == (crate::cache::TexCell { target: ph, clones: 2 }));
    assert(h.target(&s1) == ph);
    let r0 = s0.tex()[ph].refs;
    assert(s1.tex()[ph].refs == r0 + 2) by {
        assert(inc(r0) == r0 + 1);
        assert(inc((r0 + 1) as u64) == r0 + 2);
    }
    assert(!s1.tex().contains_key(u));
    let m1 = s1.tex().insert(u, TexEntry { refs: 0 });
    let mid = m1.insert(ph, TexEntry { refs: crate::cache::dec_by(m1[ph].refs, 2) });
    assert(mid[ph].refs == r0);
    let m2 = mid.insert(u, TexEntry { refs: crate::cache::inc_by(mid[u].refs, 2) });
    assert(m2[u].refs == 2);
    let m3 = m2.insert(u, TexEntry { refs: dec(m2[u].refs) });
    assert(m3[u].refs == 1);
    assert(m3[ph].refs == r0);
    assert(s2.tex() == m3);
    assert(s2.cells()[i].target == u);
}

/// The general refcount transfer of a redirection: a cell shared by
/// `n` live handles, redirected from one resident identity to another,
/// moves exactly the `n` references its handles held — the old
/// target's count drops by `n` (back to its pre-loan value when the
/// `n` were the loan) and the new target's count rises by `n`; no
/// other entry moves, restoring the invariant that an identity's count
/// equals the live handles targeting it. The bounds are machine
/// limits: the old target must actually hold the `n` registrations,
/// and the new count must not saturate.
pub proof fn lemma_swap_refcount_transfer(m: Map<Uuid, TexEntry>, t0: Uuid, t1: Uuid, n: u64)
    requires
        m.contains_key(t0),
        m.contains_key(t1),
        t0 != t1,
        m[t0].refs >= n,
        m[t1].refs + n <= u64::MAX,
    ensures
        swap_tex_effect(m, t0, t1, n).dom() == m.dom(),
        swap_tex_effect(m, t0, t1, n)[t0].refs == m[t0].refs - n,
        swap_tex_effect(m, t0, t1, n)[t1].refs == m[t1].refs + n,
        forall|k: Uuid|
            k != t0 && k != t1 && m.contains_key(k) ==> #[trigger] swap_tex_effect(
                m,
                t0,
                t1,
                n,
            )[k] == m[k],
{
    let post = swap_tex_effect(m, t0, t1, n);
    assert(post.dom() =~= m.dom());
}

/// Job lifecycle. A job submitted to an idle scheduler is Queued; the
/// worker that claims it sees it Processing; reporting its outcome
/// makes it Succeeded on success and Failed on error — terminal
/// states on which a flush returns at once.
pub proof fn lemma_job_lifecycle<J>(
    q0: JobScheduler<J>,
    q1: JobScheduler<J>,
    q2: JobScheduler<J>,
    q3: JobScheduler<J>,
    d: J,
    t: JobStateTracker,
    w: ThreadStateTracker,
    success: bool,
)
    requires
        q0.queue().len() == 0,
        t.job == q0.jobs().len(),
        // the submission:
        q1.jobs() == q0.jobs().push(JobState::Queued),
        q1.queue() == q0.queue().push((t.job, d)),
        // the worker claims the front of the queue:
        q2.jobs() == q1.jobs().update(t.job as int, JobState::Processing),
        q2.queue() == q1.queue().drop_first(),
        // the worker reports the outcome:
        q3.jobs() == q2.jobs().update(
            t.job as int,
            if success {
                JobState::Succeeded
            } else {
                JobState::Failed
            },
        ),
    ensures
        q1.jobs()[t.job as int] == JobState::Queued,
        q1.queue()[0] == (t.job, d),
        q2.jobs()[t.job as int] == JobState::Processing,
        q3.jobs()[t.job as int] == if success {
            JobState::Succeeded
        } else {
            JobState::Failed
        },
{
}

/// Archive fallback order: a raw fetch returns the payload of the
/// first archive, in mount order, that holds the key — whatever any
/// later archive holds under the same key, and whether or not the
/// winning entry is signed.
pub proof fn lemma_archive_precedence(archs: Seq<MountedArchive>, i: int, id: Seq<char>)
    requires
        0 <= i < archs.len(),
        archs[i].contents().contains_key(id),
        forall|j: int| 0 <= j < i ==> !(#[trigger] archs[j]).contents().contains_key(id),
    ensures
        first_hit(archs, id) == Some(archs[i].contents()[id]),
    decreases i,
{
    if i > 0 {
        assert(!archs[0].contents().contains_key(id));
        lemma_archive_precedence(archs.drop_first(), i - 1, id);
        assert(archs.drop_first()[i - 1] == archs[i]);
    }
}

/// Concurrent load de-duplication, the documented gap: two texture
/// requests for the same not-yet-cached key each queue their own
/// load job — there is no single-flight marker — and hand back
/// handles over two distinct cells.
pub proof fn lemma_duplicate_texture_jobs(
    s0: AssetLoader,
    s1: AssetLoader,
    s2: AssetLoader,
    q0: JobScheduler<JobDesc>,
    q1: JobScheduler<JobDesc>,
    q2: JobScheduler<JobDesc>,
    id: Seq<char>,
    f1: Option<ImageFormatHint>,
    f2: Option<ImageFormatHint>,
    h1: GpuTextureRef,
    h2: GpuTextureRef,
)
    requires
        s0.cells().len() <= usize::MAX - 1,
        !s0.tex().contains_key(name_uuid(id)),
        load_texture_post(&s0, &s1, &q0, &q1, id, f1, h1),
        load_texture_post(&s1, &s2, &q1, &q2, id, f2, h2),
    ensures
        q2.queue().len() == q0.queue().len() + 2,
        q1.queue().last().1 matches JobDesc::Texture(j) && j.id@ == id,
        q2.queue().last().1 matches JobDesc::Texture(j) && j.id@ == id,
        h1 != h2,
{
    let u = name_uuid(id);
    let ph = s0.placeholder()->Some_0;
    assert(ph != u);
    assert(!s1.tex().contains_key(u));
    assert(h1 == GpuTextureRef::Swappable(s0.cells().len() as usize));
    assert(h2 == GpuTextureRef::Swappable(s1.cells().len() as usize));
    assert(s1.cells().len() == s0.cells().len() + 1);
}

} // verus!
