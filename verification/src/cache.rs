//! The process-wide asset loader: identity-keyed caches of raw
//! payloads, GPU-resident textures and compiled scripts, together with
//! the reference counts that drive eviction.
//!
//! Reference counts are explicit: every live handle (and every raw
//! payload handed out) registers one logical reference against the
//! entry its identity points to, and a cleanup pass may evict exactly
//! the entries whose count is at or below the cache's threshold.

use vstd::prelude::*;

use crate::archive::{first_hit, ArchiveSet, AssetError, MountedArchive};
use crate::identity::{name_uuid, uuid_for_name, Uuid};
use crate::idmap::IdMap;

verus! {

/// A cached raw asset payload, with the count of live external
/// holders of the payload.
pub struct RawEntry {
    /// The asset's bytes.
    pub data: Vec<u8>,
    /// How many holders of the payload are live outside the cache.
    pub refs: u64,
}

/// The bookkeeping of one cached GPU texture: the count of live
/// logical references registered against its identity.
pub struct TexEntry {
    /// How many handles (and debug viewers) reference the texture.
    pub refs: u64,
}

/// The shared cell behind swappable texture handles: the identity the
/// handles currently resolve to, and how many handle clones share the
/// cell.
pub struct TexCell {
    /// The identity all handles of this cell currently point at.
    pub target: Uuid,
    /// The number of live handles sharing this cell.
    pub clones: u64,
}

/// A reference count after registering once more; counts saturate
/// rather than overflow.
pub open spec fn inc(r: u64) -> u64 {
    if r < u64::MAX {
        (r + 1) as u64
    } else {
        r
    }
}

/// A reference count after releasing once; counts saturate at zero.
pub open spec fn dec(r: u64) -> u64 {
    if r > 0 {
        (r - 1) as u64
    } else {
        0
    }
}

fn inc_u64(r: u64) -> (o: u64)
    ensures
        o == inc(r),
{
    if r < u64::MAX {
        r + 1
    } else {
        r
    }
}

fn dec_u64(r: u64) -> (o: u64)
    ensures
        o == dec(r),
{
    if r > 0 {
        r - 1
    } else {
        0
    }
}

fn clone_bytes(v: &Vec<u8>) -> (r: Vec<u8>)
    ensures
        r@ == v@,
{
    let r = v.clone();
    proof {
        assert(r@ =~= v@);
    }
    r
}

/// The name table after recording a name, which happens only while
/// name retention is switched on.
pub open spec fn names_after(pre: Map<Uuid, Seq<char>>, keep: bool, id: Seq<char>) -> Map<
    Uuid,
    Seq<char>,
> {
    if keep {
        pre.insert(name_uuid(id), id)
    } else {
        pre
    }
}

/// The raw cache `post` equals `pre` except that `u` now holds the
/// given bytes with the given holder count.
pub open spec fn raw_inserted(
    pre: Map<Uuid, RawEntry>,
    post: Map<Uuid, RawEntry>,
    u: Uuid,
    data: Seq<u8>,
    refs: u64,
) -> bool {
    post.contains_key(u) && post[u].data@ == data && post[u].refs == refs && post == pre.insert(
        u,
        post[u],
    )
}

/// The bytes a raw-asset request for `id` yields against the given
/// loader state: the cached payload when present, otherwise the first
/// archive hit, and nothing when the key is unknown everywhere.
pub open spec fn raw_payload(pre: &AssetLoader, id: Seq<char>) -> Option<Seq<u8>> {
    let u = name_uuid(id);
    if pre.raw().contains_key(u) {
        Some(pre.raw()[u].data@)
    } else {
        match first_hit(pre.mounted(), id) {
            Some(p) => Some(p.0),
            None => None,
        }
    }
}

/// What a successful raw-asset request does to the raw cache and the
/// name table: a hit hands out the cached bytes and registers one more
/// holder; a miss caches the first archive hit with one registered
/// holder and records the name.
pub open spec fn get_asset_effect(
    pre: &AssetLoader,
    post: &AssetLoader,
    id: Seq<char>,
    d: Seq<u8>,
) -> bool {
    let u = name_uuid(id);
    raw_payload(pre, id) == Some(d) && if pre.raw().contains_key(u) {
        raw_inserted(pre.raw(), post.raw(), u, pre.raw()[u].data@, inc(pre.raw()[u].refs))
            && post.names() == pre.names()
    } else {
        raw_inserted(pre.raw(), post.raw(), u, d, 1) && post.names() == names_after(
            pre.names(),
            pre.keep_names(),
            id,
        )
    }
}

/// The process-wide asset loader.
pub struct AssetLoader {
    name_cache: IdMap<String>,
    keep_names: bool,
    active_cache_debug_ui: u64,
    archives: ArchiveSet,
    raw_cache: IdMap<RawEntry>,
    tex_cache: IdMap<TexEntry>,
    tex_placeholder_uuid: Option<Uuid>,
    lua_script_cache: IdMap<Vec<u8>>,
    tex_cells: Vec<TexCell>,
}

impl AssetLoader {
    /// The recorded human-readable names, by identity.
    pub closed spec fn names(&self) -> Map<Uuid, Seq<char>> {
        self.name_cache@.map_values(|s: String| s@)
    }

    /// Whether names are retained for debug display.
    pub closed spec fn keep_names(&self) -> bool {
        self.keep_names
    }

    /// How many cache debug viewers are open.
    pub closed spec fn viewers(&self) -> u64 {
        self.active_cache_debug_ui
    }

    /// The mounted archives, in registration order.
    pub closed spec fn mounted(&self) -> Seq<MountedArchive> {
        self.archives.mounted()
    }

    /// The configured public key for archive verification.
    pub closed spec fn key_bytes(&self) -> Seq<u8> {
        self.archives.key_bytes()
    }

    /// The raw-payload cache.
    pub closed spec fn raw(&self) -> Map<Uuid, RawEntry> {
        self.raw_cache@
    }

    /// The texture cache bookkeeping.
    pub closed spec fn tex(&self) -> Map<Uuid, TexEntry> {
        self.tex_cache@
    }

    /// The placeholder texture's identity, once configured.
    pub closed spec fn placeholder(&self) -> Option<Uuid> {
        self.tex_placeholder_uuid
    }

    /// The compiled-script cache, by identity.
    pub closed spec fn scripts(&self) -> Map<Uuid, Seq<u8>> {
        self.lua_script_cache@.map_values(|v: Vec<u8>| v@)
    }

    /// The cells of the swappable handles handed out so far.
    pub closed spec fn cells(&self) -> Seq<TexCell> {
        self.tex_cells@
    }

    /// The loader's tables all satisfy their key-distinctness
    /// invariant.
    pub closed spec fn wf(&self) -> bool {
        self.name_cache.wf() && self.raw_cache.wf() && self.tex_cache.wf()
            && self.lua_script_cache.wf()
    }

    /// A fresh loader with empty caches, verifying archives against
    /// the given public key, and retaining names only when asked to.
    pub fn init(keep_names: bool, key: Vec<u8>) -> (r: Self)
        ensures
            r.wf(),
            r.names() == Map::<Uuid, Seq<char>>::empty(),
            r.keep_names() == keep_names,
            r.viewers() == 0,
            r.mounted() == Seq::<MountedArchive>::empty(),
            r.key_bytes() == key@,
            r.raw() == Map::<Uuid, RawEntry>::empty(),
            r.tex() == Map::<Uuid, TexEntry>::empty(),
            r.placeholder() is None,
            r.scripts() == Map::<Uuid, Seq<u8>>::empty(),
            r.cells() == Seq::<TexCell>::empty(),
    {
        let r = AssetLoader {
            name_cache: IdMap::new(),
            keep_names,
            active_cache_debug_ui: 0,
            archives: ArchiveSet::new(key),
            raw_cache: IdMap::new(),
            tex_cache: IdMap::new(),
            tex_placeholder_uuid: None,
            lua_script_cache: IdMap::new(),
            tex_cells: Vec::new(),
        };
        proof {
            assert(r.names() =~= Map::<Uuid, Seq<char>>::empty());
            assert(r.scripts() =~= Map::<Uuid, Seq<u8>>::empty());
            assert(r.cells() =~= Seq::<TexCell>::empty());
        }
        r
    }

    /// Records the human-readable name of an identity, when retention
    /// is on.
    fn insert_asset_name(&mut self, id: &str)
        requires
            old(self).wf(),
        ensures
            final(self).wf(),
            final(self).names() == names_after(old(self).names(), old(self).keep_names(), id@),
            final(self).keep_names() == old(self).keep_names(),
            final(self).viewers() == old(self).viewers(),
            final(self).mounted() == old(self).mounted(),
            final(self).key_bytes() == old(self).key_bytes(),
            final(self).raw() == old(self).raw(),
            final(self).tex() == old(self).tex(),
            final(self).placeholder() == old(self).placeholder(),
            final(self).scripts() == old(self).scripts(),
            final(self).cells() == old(self).cells(),
    {
        if self.keep_names {
            let u = uuid_for_name(id);
            let ghost pre = self.name_cache@;
            self.name_cache.insert(u, id.to_owned());
            proof {
                lemma_map_values_insert_string(pre, u, self.name_cache@[u]);
                assert(self.name_cache@[u]@ == id@);
                assert(self.names() =~= names_after(
                    old(self).names(),
                    old(self).keep_names(),
                    id@,
                ));
            }
        }
    }

    /// Registers a new debug cache viewer; each open viewer holds one
    /// extra reference to every texture it displays.
    pub fn add_to_active_cache_debug_ui(&mut self)
        requires
            old(self).wf(),
        ensures
            final(self).wf(),
            final(self).viewers() == inc(old(self).viewers()),
            same_but_viewers(old(self), final(self)),
    {
        self.active_cache_debug_ui = inc_u64(self.active_cache_debug_ui);
    }

    /// Removes a debug cache viewer.
    pub fn remove_from_active_cache_debug_ui(&mut self)
        requires
            old(self).wf(),
        ensures
            final(self).wf(),
            final(self).viewers() == dec(old(self).viewers()),
            same_but_viewers(old(self), final(self)),
    {
        self.active_cache_debug_ui = dec_u64(self.active_cache_debug_ui);
    }

    /// Opens the given container bytes and registers them as the last
    /// mounted archive, under the identity of the given name; it
    /// succeeds exactly when the bytes parse against the configured
    /// key, and the new archive's fetchable entries are that parse.
    pub fn add_archive(&mut self, name: &str, data: Vec<u8>) -> (r: Result<Uuid, AssetError>)
        requires
            old(self).wf(),
        ensures
            final(self).wf(),
            final(self).keep_names() == old(self).keep_names(),
            final(self).viewers() == old(self).viewers(),
            final(self).key_bytes() == old(self).key_bytes(),
            final(self).raw() == old(self).raw(),
            final(self).tex() == old(self).tex(),
            final(self).placeholder() == old(self).placeholder(),
            final(self).scripts() == old(self).scripts(),
            final(self).cells() == old(self).cells(),
            r is Ok <==> crate::archive::vach_parse_of(data@, old(self).key_bytes()) is Some,
            match r {
                Ok(u) => u == name_uuid(name@) && final(self).mounted().len() == old(
                    self,
                ).mounted().len() + 1 && final(self).mounted().drop_last() == old(self).mounted()
                    && final(self).mounted().last().id() == u && Some(
                    final(self).mounted().last().contents(),
                ) == crate::archive::vach_parse_of(data@, old(self).key_bytes())
                    && final(self).names() == names_after(
                    old(self).names(),
                    old(self).keep_names(),
                    name@,
                ),
                Err(e) => final(self).mounted() == old(self).mounted() && final(self).names()
                    == old(self).names() && (e == AssetError::IoError || e
                    == AssetError::FormatError),
            },
    {
        match self.archives.mount(name, data) {
            Ok(u) => {
                self.insert_asset_name(name);
                Ok(u)
            },
            Err(e) => Err(e),
        }
    }

    /// Lists the entry registry of the first archive mounted under the
    /// given name — each registry id exactly once — or nothing when
    /// no archive carries that identity.
    pub fn list_archive_entries(&self, id: &str) -> (r: Option<Vec<String>>)
        ensures
            match r {
                Some(v) => crate::archive::first_archive_listing(
                    self.mounted(),
                    name_uuid(id@),
                    v@,
                ),
                None => crate::archive::no_archive_under(self.mounted(), name_uuid(id@)),
            },
    {
        self.archives.entries_of(id)
    }

    /// Fetches an asset's bytes straight from the mounted archives,
    /// never touching the cache: the first archive in registration
    /// order that holds the key wins, and the fetch fails exactly when
    /// none does.
    pub fn get_asset_uncached(&self, id: &str) -> (r: Result<Vec<u8>, AssetError>)
        ensures
            match r {
                Ok(d) => first_hit(self.mounted(), id@) matches Some(p) && d@ == p.0,
                Err(e) => e == AssetError::NotFound && first_hit(self.mounted(), id@) is None,
            },
    {
        match self.archives.fetch_raw(id) {
            Ok((data, _secured)) => Ok(data),
            Err(e) => Err(e),
        }
    }

    /// Returns the cached payload under the given name, registering
    /// the caller as one more holder; answers nothing on a cache miss.
    pub fn get_asset_from_raw_cache(&mut self, id: &str) -> (r: Option<Vec<u8>>)
        requires
            old(self).wf(),
        ensures
            final(self).wf(),
            same_but_raw(old(self), final(self)),
            match r {
                Some(d) => old(self).raw().contains_key(name_uuid(id@)) && d@ == old(self).raw()[
                    name_uuid(id@)
                ].data@ && raw_inserted(
                    old(self).raw(),
                    final(self).raw(),
                    name_uuid(id@),
                    old(self).raw()[name_uuid(id@)].data@,
                    inc(old(self).raw()[name_uuid(id@)].refs),
                ),
                None => !old(self).raw().contains_key(name_uuid(id@)) && final(self).raw() == old(
                    self,
                ).raw(),
            },
    {
        let u = uuid_for_name(id);
        if self.raw_cache.contains(u) {
            let entry = self.raw_cache.get_mut(u);
            let out = clone_bytes(&entry.data);
            entry.refs = inc_u64(entry.refs);
            Some(out)
        } else {
            None
        }
    }

    /// Releases one holder registration of a cached raw payload; a
    /// release after eviction is tolerated and changes nothing.
    pub fn release_raw(&mut self, uuid: Uuid)
        requires
            old(self).wf(),
        ensures
            final(self).wf(),
            same_but_raw(old(self), final(self)),
            if old(self).raw().contains_key(uuid) {
                raw_inserted(
                    old(self).raw(),
                    final(self).raw(),
                    uuid,
                    old(self).raw()[uuid].data@,
                    dec(old(self).raw()[uuid].refs),
                )
            } else {
                final(self).raw() == old(self).raw()
            },
    {
        if self.raw_cache.contains(uuid) {
            let entry = self.raw_cache.get_mut(uuid);
            entry.refs = dec_u64(entry.refs);
        }
    }

    /// Returns an asset's bytes: from the raw cache when present
    /// (registering one more holder), otherwise from the first
    /// mounted archive holding the key, caching the payload with one
    /// registered holder and recording its name. Fails exactly when
    /// the key is both uncached and absent from every archive.
    pub fn get_asset(&mut self, id: &str) -> (r: Result<Vec<u8>, AssetError>)
        requires
            old(self).wf(),
        ensures
            final(self).wf(),
            same_but_raw_and_names(old(self), final(self)),
            match r {
                Ok(d) => get_asset_effect(old(self), final(self), id@, d@),
                Err(e) => e == AssetError::NotFound && raw_payload(old(self), id@) is None
                    && final(self).raw() == old(self).raw() && final(self).names() == old(
                    self,
                ).names(),
            },
    {
        match self.get_asset_from_raw_cache(id) {
            Some(d) => Ok(d),
            None => {
                let u = uuid_for_name(id);
                match self.get_asset_uncached(id) {
                    Ok(data) => {
                        let out = clone_bytes(&data);
                        self.raw_cache.insert(u, RawEntry { data, refs: 1 });
                        self.insert_asset_name(id);
                        Ok(out)
                    },
                    Err(e) => Err(e),
                }
            },
        }
    }

    /// The identities of all cached textures, for the debug cache
    /// viewer.
    pub fn texture_ids(&self) -> (r: Vec<Uuid>)
        requires
            self.wf(),
        ensures
            forall|i: int| 0 <= i < r@.len() ==> self.tex().contains_key(#[trigger] r@[i]),
            forall|k: Uuid| self.tex().contains_key(k) ==> r@.contains(k),
            forall|i: int, j: int| 0 <= i < j < r@.len() ==> r@[i] != r@[j],
    {
        self.tex_cache.keys()
    }

    /// Looks a raw payload up by identity, returning its current count
    /// of live holders; fails exactly when the payload is not cached.
    pub fn raw_from_cache(&self, uuid: &Uuid) -> (r: Result<u64, AssetError>)
        requires
            self.wf(),
        ensures
            match r {
                Ok(refs) => self.raw().contains_key(*uuid) && refs == self.raw()[*uuid].refs,
                Err(e) => e == AssetError::NotFound && !self.raw().contains_key(*uuid),
            },
    {
        match self.raw_cache.get(*uuid) {
            Some(e) => Ok(e.refs),
            None => Err(AssetError::NotFound),
        }
    }

    /// Renders an identity for humans: its recorded name when name
    /// retention is on and the identity is known, otherwise its
    /// canonical hexadecimal form. Read-only, so it can never block an
    /// insertion in progress.
    pub fn display(&self, uuid: &Uuid) -> (r: String)
        requires
            self.wf(),
        ensures
            r@ == if self.keep_names() && self.names().contains_key(*uuid) {
                self.names()[*uuid]
            } else {
                crate::identity::uuid_canonical(uuid.value)
            },
    {
        if self.keep_names {
            proof {
                lemma_map_values_contains_string(self.name_cache@, *uuid);
            }
            match self.name_cache.get(*uuid) {
                Some(s) => {
                    proof {
                        lemma_map_values_index_string(self.name_cache@, *uuid);
                    }
                    let r = s.clone();
                    r
                },
                None => uuid.canonical_string(),
            }
        } else {
            uuid.canonical_string()
        }
    }

    /// Stores compiled script bytecode under the given name's
    /// identity; the script cache is append-only and never evicted.
    pub fn add_compiled_lua_script(&mut self, id: &str, data: Vec<u8>)
        requires
            old(self).wf(),
        ensures
            final(self).wf(),
            same_but_scripts(old(self), final(self)),
            final(self).scripts() == old(self).scripts().insert(name_uuid(id@), data@),
    {
        let u = uuid_for_name(id);
        let ghost pre = self.lua_script_cache@;
        let ghost gdata = data;
        self.lua_script_cache.insert(u, data);
        proof {
            lemma_map_values_insert_bytes(pre, u, gdata);
        }
    }

    /// Returns a copy of the compiled bytecode cached under the given
    /// name, if any.
    pub fn get_precompiled_lua_script(&self, id: &str) -> (r: Option<Vec<u8>>)
        requires
            self.wf(),
        ensures
            match r {
                Some(d) => self.scripts().contains_key(name_uuid(id@)) && d@ == self.scripts()[
                    name_uuid(id@)
                ],
                None => !self.scripts().contains_key(name_uuid(id@)),
            },
    {
        let u = uuid_for_name(id);
        proof {
            lemma_map_values_contains_bytes(self.lua_script_cache@, u);
        }
        match self.lua_script_cache.get(u) {
            Some(v) => {
                proof {
                    lemma_map_values_index_bytes(self.lua_script_cache@, u);
                }
                Some(clone_bytes(v))
            },
            None => None,
        }
    }
}

/// A reference count after registering `n` more times, saturating.
pub open spec fn inc_by(r: u64, n: u64) -> u64 {
    if r + n <= u64::MAX {
        (r + n) as u64
    } else {
        u64::MAX
    }
}

/// A reference count after releasing `n` times, saturating at zero.
pub open spec fn dec_by(r: u64, n: u64) -> u64 {
    if r >= n {
        (r - n) as u64
    } else {
        0
    }
}

fn inc_by_u64(r: u64, n: u64) -> (o: u64)
    ensures
        o == inc_by(r, n),
{
    if r <= u64::MAX - n {
        r + n
    } else {
        u64::MAX
    }
}

fn dec_by_u64(r: u64, n: u64) -> (o: u64)
    ensures
        o == dec_by(r, n),
{
    if r >= n {
        r - n
    } else {
        0
    }
}

/// The texture cache after a swappable cell with `clones` live handles
/// is redirected from `t0` to `t1`: the cell's handles deregister from
/// `t0` once each, then register against `t1` once each.
pub open spec fn swap_tex_effect(pre: Map<Uuid, TexEntry>, t0: Uuid, t1: Uuid, c: u64) -> Map<
    Uuid,
    TexEntry,
> {
    let mid = pre.insert(t0, TexEntry { refs: dec_by(pre[t0].refs, c) });
    mid.insert(t1, TexEntry { refs: inc_by(mid[t1].refs, c) })
}

/// The keys of texture entries that survive a cleanup pass under the
/// given threshold.
pub open spec fn tex_live(m: Map<Uuid, TexEntry>, thr: u64) -> Set<Uuid> {
    m.dom().filter(|u: Uuid| m[u].refs > thr)
}

/// The keys of raw entries that survive a cleanup pass: those with at
/// least one live external holder.
pub open spec fn raw_live(m: Map<Uuid, RawEntry>) -> Set<Uuid> {
    m.dom().filter(|u: Uuid| m[u].refs > 0)
}

impl AssetLoader {
    /// Records a decoded texture in the texture cache under the given
    /// name, keeping whatever logical references are already
    /// registered against that identity, records the name, and returns
    /// the identity. Reports whether an entry was already present.
    pub fn insert_into_texture_cache(&mut self, id: &str) -> (r: (Uuid, bool))
        requires
            old(self).wf(),
        ensures
            final(self).wf(),
            r.0 == name_uuid(id@),
            r.1 == old(self).tex().contains_key(r.0),
            final(self).tex() == old(self).tex().insert(
                r.0,
                (TexEntry {
                    refs: if old(self).tex().contains_key(r.0) {
                        old(self).tex()[r.0].refs
                    } else {
                        0
                    },
                }),
            ),
            final(self).names() == names_after(old(self).names(), old(self).keep_names(), id@),
            final(self).keep_names() == old(self).keep_names(),
            final(self).viewers() == old(self).viewers(),
            final(self).mounted() == old(self).mounted(),
            final(self).key_bytes() == old(self).key_bytes(),
            final(self).raw() == old(self).raw(),
            final(self).placeholder() == old(self).placeholder(),
            final(self).scripts() == old(self).scripts(),
            final(self).cells() == old(self).cells(),
    {
        let u = uuid_for_name(id);
        let refs = match self.tex_cache.get(u) {
            Some(e) => e.refs,
            None => 0,
        };
        let was = self.tex_cache.insert(u, TexEntry { refs });
        self.insert_asset_name(id);
        (u, was)
    }

    /// Records the texture decoded from the given name as the
    /// placeholder all not-yet-loaded textures resolve to: the texture
    /// enters the cache (keeping any references already registered)
    /// and becomes the configured placeholder. Must be called before
    /// any texture is requested.
    pub fn set_tex_placeholder(&mut self, id: &str) -> (r: Uuid)
        requires
            old(self).wf(),
        ensures
            final(self).wf(),
            r == name_uuid(id@),
            final(self).placeholder() == Some(r),
            final(self).tex() == old(self).tex().insert(
                r,
                (TexEntry {
                    refs: if old(self).tex().contains_key(r) {
                        old(self).tex()[r].refs
                    } else {
                        0
                    },
                }),
            ),
            final(self).names() == names_after(old(self).names(), old(self).keep_names(), id@),
            final(self).keep_names() == old(self).keep_names(),
            final(self).viewers() == old(self).viewers(),
            final(self).mounted() == old(self).mounted(),
            final(self).key_bytes() == old(self).key_bytes(),
            final(self).raw() == old(self).raw(),
            final(self).scripts() == old(self).scripts(),
            final(self).cells() == old(self).cells(),
    {
        let (u, _was) = self.insert_into_texture_cache(id);
        self.tex_placeholder_uuid = Some(u);
        u
    }

    /// How many swappable cells have been handed out so far.
    pub fn cell_count(&self) -> (r: usize)
        ensures
            r as nat == self.cells().len(),
    {
        self.tex_cells.len()
    }

    /// Returns the configured placeholder identity, if any.
    pub fn placeholder_uuid(&self) -> (r: Option<Uuid>)
        ensures
            r == self.placeholder(),
    {
        self.tex_placeholder_uuid
    }

    /// Looks a texture up by identity, returning its current logical
    /// reference count; fails exactly when the texture is not
    /// resident.
    pub fn texture_from_cache(&self, uuid: &Uuid) -> (r: Result<u64, AssetError>)
        requires
            self.wf(),
        ensures
            match r {
                Ok(refs) => self.tex().contains_key(*uuid) && refs == self.tex()[*uuid].refs,
                Err(e) => e == AssetError::NotFound && !self.tex().contains_key(*uuid),
            },
    {
        match self.tex_cache.get(*uuid) {
            Some(e) => Ok(e.refs),
            None => Err(AssetError::NotFound),
        }
    }

    /// Registers one more logical reference against a resident
    /// texture.
    pub fn register_inner(&mut self, uuid: Uuid)
        requires
            old(self).wf(),
            old(self).tex().contains_key(uuid),
        ensures
            final(self).wf(),
            same_but_tex(old(self), final(self)),
            final(self).tex() == old(self).tex().insert(
                uuid,
                (TexEntry { refs: inc(old(self).tex()[uuid].refs) }),
            ),
    {
        let entry = self.tex_cache.get_mut(uuid);
        entry.refs = inc_u64(entry.refs);
    }

    /// Releases one logical reference of a resident texture.
    pub fn deregister_inner(&mut self, uuid: Uuid)
        requires
            old(self).wf(),
            old(self).tex().contains_key(uuid),
        ensures
            final(self).wf(),
            same_but_tex(old(self), final(self)),
            final(self).tex() == old(self).tex().insert(
                uuid,
                (TexEntry { refs: dec(old(self).tex()[uuid].refs) }),
            ),
    {
        let entry = self.tex_cache.get_mut(uuid);
        entry.refs = dec_u64(entry.refs);
    }

    fn clean_tex(&mut self, thr: u64)
        requires
            old(self).wf(),
        ensures
            final(self).wf(),
            same_but_tex(old(self), final(self)),
            final(self).tex() == old(self).tex().restrict(tex_live(old(self).tex(), thr)),
    {
        let keys = self.tex_cache.keys();
        let n = keys.len();
        let mut to_remove: Vec<Uuid> = Vec::new();
        let mut i: usize = 0;
        while i < n
            invariant
                self.wf(),
                *self == *old(self),
                n == keys@.len(),
                0 <= i <= n,
                forall|j: int| 0 <= j < keys@.len() ==> self.tex().contains_key(#[trigger] keys@[j]),
                forall|k: Uuid| self.tex().contains_key(k) ==> keys@.contains(k),
                forall|a: int, b: int| 0 <= a < b < keys@.len() ==> keys@[a] != keys@[b],
                forall|j: int|
                    0 <= j < to_remove@.len() ==> exists|a: int|
                        0 <= a < i && keys@[a] == (#[trigger] to_remove@[j]),
                forall|a: int, b: int|
                    0 <= a < b < to_remove@.len() ==> to_remove@[a] != to_remove@[b],
                forall|j: int|
                    0 <= j < to_remove@.len() ==> self.tex().contains_key(#[trigger] to_remove@[j])
                        && self.tex()[to_remove@[j]].refs <= thr,
                forall|j: int|
                    0 <= j < i ==> (self.tex()[#[trigger] keys@[j]].refs <= thr
                        <==> to_remove@.contains(keys@[j])),
            decreases n - i,
        {
            let k = keys[i];
            let keep = match self.tex_cache.get(k) {
                Some(e) => e.refs > thr,
                None => true,
            };
            let ghost prev = to_remove@;
            if !keep {
                to_remove.push(k);
            }
            proof {
                assert forall|j: int| 0 <= j < prev.len() implies prev[j] != keys@[i as int] by {
                    let a = choose|a: int| 0 <= a < i && keys@[a] == prev[j];
                    assert(keys@[a] != keys@[i as int]);
                }
                assert forall|x: Uuid| #[trigger] to_remove@.contains(x) == (prev.contains(x) || (
                !keep && x == keys@[i as int])) by {
                    if to_remove@.contains(x) {
                        let a = choose|a: int|
                            0 <= a < to_remove@.len() && to_remove@[a] == x;
                        if a < prev.len() {
                            assert(prev[a] == x);
                        }
                    }
                    if prev.contains(x) {
                        let a = choose|a: int| 0 <= a < prev.len() && prev[a] == x;
                        assert(to_remove@[a] == x);
                    }
                    if !keep && x == keys@[i as int] {
                        assert(to_remove@[prev.len() as int] == x);
                    }
                }
            }
            i = i + 1;
        }
        let m = to_remove.len();
        let ghost pre = self.tex();
        let ghost rem = to_remove@;
        let mut j: usize = 0;
        while j < m
            invariant
                self.wf(),
                same_but_tex(old(self), self),
                m == rem.len(),
                to_remove@ == rem,
                0 <= j <= m,
                forall|a: int, b: int| 0 <= a < b < rem.len() ==> rem[a] != rem[b],
                forall|a: int| 0 <= a < rem.len() ==> pre.contains_key(#[trigger] rem[a]),
                self.tex() == pre.remove_keys(rem.take(j as int).to_set()),
            decreases m - j,
        {
            let k = to_remove[j];
            proof {
                assert(!rem.take(j as int).to_set().contains(rem[j as int])) by {
                    if rem.take(j as int).contains(rem[j as int]) {
                        let a = choose|a: int|
                            0 <= a < j && rem.take(j as int)[a] == rem[j as int];
                        assert(rem[a] == rem[j as int]);
                        assert(false);
                    }
                }
                assert(self.tex().contains_key(k));
            }
            self.tex_cache.remove(k);
            proof {
                assert forall|x: Uuid| #[trigger] rem.take(j as int + 1).contains(x) == (rem.take(
                    j as int,
                ).contains(x) || x == rem[j as int]) by {
                    if rem.take(j as int + 1).contains(x) {
                        let a = choose|a: int|
                            0 <= a < j + 1 && (#[trigger] rem.take(j as int + 1)[a]) == x;
                        if a < j {
                            assert(rem.take(j as int)[a] == x);
                        } else {
                            assert(rem[j as int] == x);
                        }
                    }
                    if rem.take(j as int).contains(x) {
                        let a = choose|a: int| 0 <= a < j && rem.take(j as int)[a] == x;
                        assert(rem.take(j as int + 1)[a] == x);
                    }
                    if x == rem[j as int] {
                        assert(rem.take(j as int + 1)[j as int] == x);
                    }
                }
                assert(rem.take(j as int + 1).to_set() =~= rem.take(j as int).to_set().insert(
                    rem[j as int],
                ));
                assert(pre.remove_keys(rem.take(j as int).to_set()).remove(k) =~= pre.remove_keys(
                    rem.take(j as int + 1).to_set(),
                ));
            }
            j = j + 1;
        }
        proof {
            assert(rem.take(m as int) =~= rem);
            assert forall|k: Uuid| #[trigger]
                pre.remove_keys(rem.to_set()).contains_key(k) == pre.restrict(
                    tex_live(pre, thr),
                ).contains_key(k) by {
                if pre.contains_key(k) {
                    assert(keys@.contains(k));
                    let ki = choose|ki: int| 0 <= ki < keys@.len() && keys@[ki] == k;
                    assert(keys@[ki] == k);
                    assert(pre[k].refs <= thr <==> rem.contains(k));
                    assert(rem.contains(k) <==> rem.to_set().contains(k));
                }
            }
            assert(pre.remove_keys(rem.to_set()) =~= pre.restrict(tex_live(pre, thr)));
        }
    }

    fn clean_raw(&mut self)
        requires
            old(self).wf(),
        ensures
            final(self).wf(),
            same_but_raw(old(self), final(self)),
            final(self).raw() == old(self).raw().restrict(raw_live(old(self).raw())),
    {
        let keys = self.raw_cache.keys();
        let n = keys.len();
        let mut to_remove: Vec<Uuid> = Vec::new();
        let mut i: usize = 0;
        while i < n
            invariant
                self.wf(),
                *self == *old(self),
                n == keys@.len(),
                0 <= i <= n,
                forall|j: int| 0 <= j < keys@.len() ==> self.raw().contains_key(#[trigger] keys@[j]),
                forall|k: Uuid| self.raw().contains_key(k) ==> keys@.contains(k),
                forall|a: int, b: int| 0 <= a < b < keys@.len() ==> keys@[a] != keys@[b],
                forall|j: int|
                    0 <= j < to_remove@.len() ==> exists|a: int|
                        0 <= a < i && keys@[a] == (#[trigger] to_remove@[j]),
                forall|a: int, b: int|
                    0 <= a < b < to_remove@.len() ==> to_remove@[a] != to_remove@[b],
                forall|j: int|
                    0 <= j < to_remove@.len() ==> self.raw().contains_key(#[trigger] to_remove@[j])
                        && self.raw()[to_remove@[j]].refs == 0,
                forall|j: int|
                    0 <= j < i ==> (self.raw()[#[trigger] keys@[j]].refs == 0
                        <==> to_remove@.contains(keys@[j])),
            decreases n - i,
        {
            let k = keys[i];
            let keep = match self.raw_cache.get(k) {
                Some(e) => e.refs > 0,
                None => true,
            };
            let ghost prev = to_remove@;
            if !keep {
                to_remove.push(k);
            }
            proof {
                assert forall|j: int| 0 <= j < prev.len() implies prev[j] != keys@[i as int] by {
                    let a = choose|a: int| 0 <= a < i && keys@[a] == prev[j];
                    assert(keys@[a] != keys@[i as int]);
                }
                assert forall|x: Uuid| #[trigger] to_remove@.contains(x) == (prev.contains(x) || (
                !keep && x == keys@[i as int])) by {
                    if to_remove@.contains(x) {
                        let a = choose|a: int|
                            0 <= a < to_remove@.len() && to_remove@[a] == x;
                        if a < prev.len() {
                            assert(prev[a] == x);
                        }
                    }
                    if prev.contains(x) {
                        let a = choose|a: int| 0 <= a < prev.len() && prev[a] == x;
                        assert(to_remove@[a] == x);
                    }
                    if !keep && x == keys@[i as int] {
                        assert(to_remove@[prev.len() as int] == x);
                    }
                }
            }
            i = i + 1;
        }
        let m = to_remove.len();
        let ghost pre = self.raw();
        let ghost rem = to_remove@;
        let mut j: usize = 0;
        while j < m
            invariant
                self.wf(),
                same_but_raw(old(self), self),
                m == rem.len(),
                to_remove@ == rem,
                0 <= j <= m,
                forall|a: int, b: int| 0 <= a < b < rem.len() ==> rem[a] != rem[b],
                forall|a: int| 0 <= a < rem.len() ==> pre.contains_key(#[trigger] rem[a]),
                self.raw() == pre.remove_keys(rem.take(j as int).to_set()),
            decreases m - j,
        {
            let k = to_remove[j];
            proof {
                assert(!rem.take(j as int).to_set().contains(rem[j as int])) by {
                    if rem.take(j as int).contains(rem[j as int]) {
                        let a = choose|a: int|
                            0 <= a < j && rem.take(j as int)[a] == rem[j as int];
                        assert(rem[a] == rem[j as int]);
                        assert(false);
                    }
                }
                assert(self.raw().contains_key(k));
            }
            self.raw_cache.remove(k);
            proof {
                assert forall|x: Uuid| #[trigger] rem.take(j as int + 1).contains(x) == (rem.take(
                    j as int,
                ).contains(x) || x == rem[j as int]) by {
                    if rem.take(j as int + 1).contains(x) {
                        let a = choose|a: int|
                            0 <= a < j + 1 && (#[trigger] rem.take(j as int + 1)[a]) == x;
                        if a < j {
                            assert(rem.take(j as int)[a] == x);
                        } else {
                            assert(rem[j as int] == x);
                        }
                    }
                    if rem.take(j as int).contains(x) {
                        let a = choose|a: int| 0 <= a < j && rem.take(j as int)[a] == x;
                        assert(rem.take(j as int + 1)[a] == x);
                    }
                    if x == rem[j as int] {
                        assert(rem.take(j as int + 1)[j as int] == x);
                    }
                }
                assert(rem.take(j as int + 1).to_set() =~= rem.take(j as int).to_set().insert(
                    rem[j as int],
                ));
                assert(pre.remove_keys(rem.take(j as int).to_set()).remove(k) =~= pre.remove_keys(
                    rem.take(j as int + 1).to_set(),
                ));
            }
            j = j + 1;
        }
        proof {
            assert(rem.take(m as int) =~= rem);
            assert forall|k: Uuid| #[trigger]
                pre.remove_keys(rem.to_set()).contains_key(k) == pre.restrict(
                    raw_live(pre),
                ).contains_key(k) by {
                if pre.contains_key(k) {
                    assert(keys@.contains(k));
                    let ki = choose|ki: int| 0 <= ki < keys@.len() && keys@[ki] == k;
                    assert(keys@[ki] == k);
                    assert(pre[k].refs == 0 <==> rem.contains(k));
                    assert(rem.contains(k) <==> rem.to_set().contains(k));
                }
            }
            assert(pre.remove_keys(rem.to_set()) =~= pre.restrict(raw_live(pre)));
        }
    }

    /// One cleanup pass: scans the texture cache and the raw cache
    /// independently and evicts exactly the entries whose logical
    /// reference count is at or below the threshold — for textures,
    /// the number of open debug viewers (each viewer registers its own
    /// reference per displayed texture); for raw payloads, zero.
    pub fn clean_cache(&mut self)
        requires
            old(self).wf(),
        ensures
            final(self).wf(),
            final(self).tex() == old(self).tex().restrict(
                tex_live(old(self).tex(), old(self).viewers()),
            ),
            final(self).raw() == old(self).raw().restrict(raw_live(old(self).raw())),
            final(self).names() == old(self).names(),
            final(self).keep_names() == old(self).keep_names(),
            final(self).viewers() == old(self).viewers(),
            final(self).mounted() == old(self).mounted(),
            final(self).key_bytes() == old(self).key_bytes(),
            final(self).placeholder() == old(self).placeholder(),
            final(self).scripts() == old(self).scripts(),
            final(self).cells() == old(self).cells(),
    {
        let thr = self.active_cache_debug_ui;
        self.clean_tex(thr);
        self.clean_raw();
    }
}

/// A handle to a texture that may still be loading: either a fixed
/// identity, or an index into the loader's swappable cells, whose
/// target is redirected once the background load finishes. Every live
/// handle holds one logical reference against the entry its current
/// identity points to.
#[derive(Debug, PartialEq, Eq, Structural)]
pub enum GpuTextureRef {
    /// A handle sharing a swappable cell, by cell index.
    Swappable(usize),
    /// A handle to a fixed, already-resident identity.
    Shared(Uuid),
}

impl GpuTextureRef {
    /// The handle's cell index is within the loader's cells.
    pub open spec fn valid(&self, sys: &AssetLoader) -> bool {
        match *self {
            GpuTextureRef::Shared(_) => true,
            GpuTextureRef::Swappable(i) => i < sys.cells().len(),
        }
    }

    /// The identity the handle currently resolves to.
    pub open spec fn target(&self, sys: &AssetLoader) -> Uuid {
        match *self {
            GpuTextureRef::Shared(u) => u,
            GpuTextureRef::Swappable(i) => sys.cells()[i as int].target,
        }
    }

    /// Builds a handle to an already-resident texture, registering one
    /// logical reference.
    pub fn new_shared(sys: &mut AssetLoader, uuid: Uuid) -> (r: GpuTextureRef)
        requires
            old(sys).wf(),
            old(sys).tex().contains_key(uuid),
        ensures
            final(sys).wf(),
            r == GpuTextureRef::Shared(uuid),
            same_but_tex(old(sys), final(sys)),
            final(sys).tex() == old(sys).tex().insert(
                uuid,
                (TexEntry { refs: inc(old(sys).tex()[uuid].refs) }),
            ),
    {
        sys.register_inner(uuid);
        GpuTextureRef::Shared(uuid)
    }

    /// Builds a swappable handle over a fresh cell pointing at the
    /// given (resident) identity, registering one logical reference.
    pub fn new_swappable(sys: &mut AssetLoader, target: Uuid) -> (r: GpuTextureRef)
        requires
            old(sys).wf(),
            old(sys).tex().contains_key(target),
        ensures
            final(sys).wf(),
            r == GpuTextureRef::Swappable(old(sys).cells().len() as usize),
            final(sys).cells() == old(sys).cells().push((TexCell { target, clones: 1 })),
            final(sys).tex() == old(sys).tex().insert(
                target,
                (TexEntry { refs: inc(old(sys).tex()[target].refs) }),
            ),
            same_but_tex_and_cells(old(sys), final(sys)),
    {
        let i = sys.tex_cells.len();
        sys.tex_cells.push(TexCell { target, clones: 1 });
        sys.register_inner(target);
        GpuTextureRef::Swappable(i)
    }

    /// Clones the handle, registering one more logical reference
    /// against its current target and one more sharer of its cell.
    pub fn clone_with(&self, sys: &mut AssetLoader) -> (r: GpuTextureRef)
        requires
            old(sys).wf(),
            self.valid(old(sys)),
            old(sys).tex().contains_key(self.target(old(sys))),
        ensures
            final(sys).wf(),
            r == *self,
            final(sys).tex() == old(sys).tex().insert(
                self.target(old(sys)),
                (TexEntry { refs: inc(old(sys).tex()[self.target(old(sys))].refs) }),
            ),
            final(sys).cells() == match *self {
                GpuTextureRef::Shared(_) => old(sys).cells(),
                GpuTextureRef::Swappable(i) => old(sys).cells().update(
                    i as int,
                    (TexCell {
                        target: old(sys).cells()[i as int].target,
                        clones: inc(old(sys).cells()[i as int].clones),
                    }),
                ),
            },
            same_but_tex_and_cells(old(sys), final(sys)),
    {
        match self {
            GpuTextureRef::Shared(u) => {
                sys.register_inner(*u);
                GpuTextureRef::Shared(*u)
            },
            GpuTextureRef::Swappable(i) => {
                let target = sys.tex_cells[*i].target;
                let clones = sys.tex_cells[*i].clones;
                sys.tex_cells.set(*i, TexCell { target, clones: inc_u64(clones) });
                sys.register_inner(target);
                GpuTextureRef::Swappable(*i)
            },
        }
    }

    /// Drops the handle, releasing its logical reference; a drop whose
    /// target was already evicted is tolerated and releases nothing.
    pub fn drop_with(self, sys: &mut AssetLoader)
        requires
            old(sys).wf(),
            self.valid(old(sys)),
        ensures
            final(sys).wf(),
            final(sys).tex() == if old(sys).tex().contains_key(self.target(old(sys))) {
                old(sys).tex().insert(
                    self.target(old(sys)),
                    (TexEntry { refs: dec(old(sys).tex()[self.target(old(sys))].refs) }),
                )
            } else {
                old(sys).tex()
            },
            final(sys).cells() == match self {
                GpuTextureRef::Shared(_) => old(sys).cells(),
                GpuTextureRef::Swappable(i) => old(sys).cells().update(
                    i as int,
                    (TexCell {
                        target: old(sys).cells()[i as int].target,
                        clones: dec(old(sys).cells()[i as int].clones),
                    }),
                ),
            },
            same_but_tex_and_cells(old(sys), final(sys)),
    {
        let target = match &self {
            GpuTextureRef::Shared(u) => *u,
            GpuTextureRef::Swappable(i) => sys.tex_cells[*i].target,
        };
        if let GpuTextureRef::Swappable(i) = &self {
            let clones = sys.tex_cells[*i].clones;
            sys.tex_cells.set(*i, TexCell { target, clones: dec_u64(clones) });
        }
        if self_contains(sys, target) {
            sys.deregister_inner(target);
        }
    }

    /// Redirects a swappable cell to a new (resident) identity: every
    /// handle sharing the cell deregisters from the old target and
    /// re-registers against the new one, and all of them resolve to
    /// the new identity from here on.
    pub fn swap(&self, sys: &mut AssetLoader, new_uuid: Uuid)
        requires
            old(sys).wf(),
            self is Swappable,
            self.valid(old(sys)),
            old(sys).tex().contains_key(self.target(old(sys))),
            old(sys).tex().contains_key(new_uuid),
        ensures
            final(sys).wf(),
            final(sys).tex() == swap_tex_effect(
                old(sys).tex(),
                self.target(old(sys)),
                new_uuid,
                self.cell_clones(old(sys)),
            ),
            final(sys).cells() == old(sys).cells().update(
                self.cell_index(),
                (TexCell { target: new_uuid, clones: self.cell_clones(old(sys)) }),
            ),
            same_but_tex_and_cells(old(sys), final(sys)),
    {
        let i = match self {
            GpuTextureRef::Swappable(i) => *i,
            GpuTextureRef::Shared(_) => vstd::pervasive::unreached(),
        };
        let t0 = sys.tex_cells[i].target;
        let clones = sys.tex_cells[i].clones;
        let e0 = sys.tex_cache.get_mut(t0);
        e0.refs = dec_by_u64(e0.refs, clones);
        sys.tex_cells.set(i, TexCell { target: new_uuid, clones });
        let e1 = sys.tex_cache.get_mut(new_uuid);
        e1.refs = inc_by_u64(e1.refs, clones);
    }

    /// The index of the handle's cell; meaningful for swappable
    /// handles.
    pub open spec fn cell_index(&self) -> int {
        match *self {
            GpuTextureRef::Swappable(i) => i as int,
            GpuTextureRef::Shared(_) => 0,
        }
    }

    /// How many live handles share this handle's cell; a shared handle
    /// counts alone.
    pub open spec fn cell_clones(&self, sys: &AssetLoader) -> u64 {
        match *self {
            GpuTextureRef::Swappable(i) => sys.cells()[i as int].clones,
            GpuTextureRef::Shared(_) => 1,
        }
    }

    /// Whether the handle is the swappable variant.
    pub fn is_swappable(&self) -> (r: bool)
        ensures
            r == (self is Swappable),
    {
        match self {
            GpuTextureRef::Swappable(_) => true,
            GpuTextureRef::Shared(_) => false,
        }
    }

    /// Whether the handle's cell exists in the given loader; handles
    /// are only ever created valid against the loader that made them.
    pub fn is_valid(&self, sys: &AssetLoader) -> (r: bool)
        ensures
            r == self.valid(sys),
    {
        match self {
            GpuTextureRef::Shared(_) => true,
            GpuTextureRef::Swappable(i) => *i < sys.tex_cells.len(),
        }
    }

    /// The identity the handle currently resolves to.
    pub fn uuid(&self, sys: &AssetLoader) -> (r: Uuid)
        requires
            self.valid(sys),
        ensures
            r == self.target(sys),
    {
        match self {
            GpuTextureRef::Shared(u) => *u,
            GpuTextureRef::Swappable(i) => sys.tex_cells[*i].target,
        }
    }

    /// Resolves the handle to the resident texture it currently points
    /// at; never blocks, and never observes a missing entry, since a
    /// registered handle keeps its target alive.
    pub fn load(&self, sys: &AssetLoader) -> (r: Uuid)
        requires
            self.valid(sys),
            sys.tex().contains_key(self.target(sys)),
        ensures
            r == self.target(sys),
            sys.tex().contains_key(r),
    {
        self.uuid(sys)
    }
}

fn self_contains(sys: &AssetLoader, uuid: Uuid) -> (r: bool)
    requires
        sys.wf(),
    ensures
        r == sys.tex().contains_key(uuid),
{
    sys.tex_cache.contains(uuid)
}

/// Everything except the texture cache is unchanged.
pub open spec fn same_but_tex(pre: &AssetLoader, post: &AssetLoader) -> bool {
    post.keep_names() == pre.keep_names() && post.names() == pre.names() && post.viewers()
        == pre.viewers() && post.mounted() == pre.mounted() && post.key_bytes() == pre.key_bytes()
        && post.raw() == pre.raw() && post.placeholder() == pre.placeholder() && post.scripts()
        == pre.scripts() && post.cells() == pre.cells()
}

/// Everything except the texture cache and the handle cells is
/// unchanged.
pub open spec fn same_but_tex_and_cells(pre: &AssetLoader, post: &AssetLoader) -> bool {
    post.keep_names() == pre.keep_names() && post.names() == pre.names() && post.viewers()
        == pre.viewers() && post.mounted() == pre.mounted() && post.key_bytes() == pre.key_bytes()
        && post.raw() == pre.raw() && post.placeholder() == pre.placeholder() && post.scripts()
        == pre.scripts()
}

/// Everything except the texture cache and the raw cache is
/// unchanged.
pub open spec fn same_but_tex_and_raw(pre: &AssetLoader, post: &AssetLoader) -> bool {
    post.keep_names() == pre.keep_names() && post.names() == pre.names() && post.viewers()
        == pre.viewers() && post.mounted() == pre.mounted() && post.key_bytes() == pre.key_bytes()
        && post.placeholder() == pre.placeholder() && post.scripts() == pre.scripts()
        && post.cells() == pre.cells()
}

/// Everything except the texture cache, the name table and the handle
/// cells is unchanged.
pub open spec fn same_but_tex_names_cells(pre: &AssetLoader, post: &AssetLoader) -> bool {
    post.keep_names() == pre.keep_names() && post.viewers() == pre.viewers() && post.mounted()
        == pre.mounted() && post.key_bytes() == pre.key_bytes() && post.raw() == pre.raw()
        && post.placeholder() == pre.placeholder() && post.scripts() == pre.scripts()
}

/// Everything except the debug-viewer count is unchanged.
pub open spec fn same_but_viewers(pre: &AssetLoader, post: &AssetLoader) -> bool {
    post.keep_names() == pre.keep_names() && post.names() == pre.names() && post.mounted()
        == pre.mounted() && post.key_bytes() == pre.key_bytes() && post.raw() == pre.raw()
        && post.tex() == pre.tex() && post.placeholder() == pre.placeholder() && post.scripts()
        == pre.scripts() && post.cells() == pre.cells()
}

/// Everything except the raw cache is unchanged.
pub open spec fn same_but_raw(pre: &AssetLoader, post: &AssetLoader) -> bool {
    post.keep_names() == pre.keep_names() && post.names() == pre.names() && post.viewers()
        == pre.viewers() && post.mounted() == pre.mounted() && post.key_bytes() == pre.key_bytes()
        && post.tex() == pre.tex() && post.placeholder() == pre.placeholder() && post.scripts()
        == pre.scripts() && post.cells() == pre.cells()
}

/// Everything except the raw cache and the name table is unchanged.
pub open spec fn same_but_raw_and_names(pre: &AssetLoader, post: &AssetLoader) -> bool {
    post.keep_names() == pre.keep_names() && post.viewers() == pre.viewers() && post.mounted()
        == pre.mounted() && post.key_bytes() == pre.key_bytes() && post.tex() == pre.tex()
        && post.placeholder() == pre.placeholder() && post.scripts() == pre.scripts()
        && post.cells() == pre.cells()
}

/// Everything except the raw cache, the name table and the script
/// cache is unchanged.
pub open spec fn same_but_raw_names_scripts(pre: &AssetLoader, post: &AssetLoader) -> bool {
    post.keep_names() == pre.keep_names() && post.viewers() == pre.viewers() && post.mounted()
        == pre.mounted() && post.key_bytes() == pre.key_bytes() && post.tex() == pre.tex()
        && post.placeholder() == pre.placeholder() && post.cells() == pre.cells()
}

/// Everything except the script cache is unchanged.
pub open spec fn same_but_scripts(pre: &AssetLoader, post: &AssetLoader) -> bool {
    post.keep_names() == pre.keep_names() && post.names() == pre.names() && post.viewers()
        == pre.viewers() && post.mounted() == pre.mounted() && post.key_bytes() == pre.key_bytes()
        && post.raw() == pre.raw() && post.tex() == pre.tex() && post.placeholder()
        == pre.placeholder() && post.cells() == pre.cells()
}

proof fn lemma_map_values_insert_string(m: Map<Uuid, String>, k: Uuid, v: String)
    ensures
        m.insert(k, v).map_values(|s: String| s@) == m.map_values(|s: String| s@).insert(k, v@),
{
    assert(m.insert(k, v).map_values(|s: String| s@) =~= m.map_values(|s: String| s@).insert(
        k,
        v@,
    ));
}

proof fn lemma_map_values_insert_bytes(m: Map<Uuid, Vec<u8>>, k: Uuid, v: Vec<u8>)
    ensures
        m.insert(k, v).map_values(|s: Vec<u8>| s@) == m.map_values(|s: Vec<u8>| s@).insert(k, v@),
{
    assert(m.insert(k, v).map_values(|s: Vec<u8>| s@) =~= m.map_values(|s: Vec<u8>| s@).insert(
        k,
        v@,
    ));
}

proof fn lemma_map_values_contains_string(m: Map<Uuid, String>, k: Uuid)
    ensures
        m.map_values(|s: String| s@).contains_key(k) == m.contains_key(k),
{
}

proof fn lemma_map_values_index_string(m: Map<Uuid, String>, k: Uuid)
    requires
        m.contains_key(k),
    ensures
        m.map_values(|s: String| s@)[k] == m[k]@,
{
}

proof fn lemma_map_values_contains_bytes(m: Map<Uuid, Vec<u8>>, k: Uuid)
    ensures
        m.map_values(|s: Vec<u8>| s@).contains_key(k) == m.contains_key(k),
{
}

proof fn lemma_map_values_index_bytes(m: Map<Uuid, Vec<u8>>, k: Uuid)
    requires
        m.contains_key(k),
    ensures
        m.map_values(|s: Vec<u8>| s@)[k] == m[k]@,
{
}

} // verus!
