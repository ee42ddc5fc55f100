//! Mounted asset archives.
//!
//! An archive is a sealed container file holding named binary
//! payloads, optionally signed per entry against an ed25519 public
//! key. Archives are registered append-only; a raw-asset lookup asks
//! every mounted archive in registration order and returns the first
//! hit.

use vstd::prelude::*;

use crate::identity::{name_uuid, uuid_for_name, Uuid};

verus! {

/// Errors of the asset pipeline.
#[derive(Copy, Clone, PartialEq, Eq, Structural, Debug)]
pub enum AssetError {
    /// The key is absent from every mounted archive, or from the cache
    /// asked.
    NotFound,
    /// An archive could not be read.
    IoError,
    /// An archive's header, signature key or container data is
    /// invalid.
    FormatError,
    /// A startup invariant does not hold, such as asking for a texture
    /// before a placeholder was configured.
    InvariantViolation,
}

#[verifier::external_type_specification]
#[verifier::external_body]
#[verifier::reject_recursive_types(T)]
pub struct ExCursor<T>(std::io::Cursor<T>);

#[verifier::external_type_specification]
#[verifier::external_body]
#[verifier::reject_recursive_types(T)]
pub struct ExArchive<T>(vach::archive::Archive<T>);

/// The fetchable entries of a parsed archive: each id maps to the
/// payload bytes and the per-entry signature-verification flag that a
/// fetch of that id returns.
pub uninterp spec fn archive_contents(a: vach::archive::Archive<std::io::Cursor<Vec<u8>>>) -> Map<
    Seq<char>,
    (Seq<u8>, bool),
>;

/// The parse of container bytes against a verifying key: the
/// fetchable entries of the archive the parse yields, or nothing when
/// the key, header or registry is refused. A fixed function of the two
/// byte strings alone.
pub uninterp spec fn vach_parse_of(data: Seq<u8>, key: Seq<u8>) -> Option<
    Map<Seq<char>, (Seq<u8>, bool)>,
>;

/// Relies on vach::archive::Archive::with_key: parses the archive
/// header and entry registry out of the given bytes and keeps the
/// ed25519 verifying key for per-entry signature checks; it fails on
/// a malformed key, header or registry, and succeeds otherwise, a
/// function of the two byte strings alone.
#[verifier::external_body]
fn vach_open(data: Vec<u8>, key: &[u8]) -> (r: Result<
    vach::archive::Archive<std::io::Cursor<Vec<u8>>>,
    AssetError,
>)
    ensures
        r is Ok <==> vach_parse_of(data@, key@) is Some,
        r matches Ok(a) ==> Some(archive_contents(a)) == vach_parse_of(data@, key@),
        r matches Err(e) ==> (e == AssetError::IoError || e == AssetError::FormatError),
{
    let key_bytes: [u8; 32] = match key.try_into() {
        Ok(k) => k,
        Err(_) => return Err(AssetError::FormatError),
    };
    let vk = match vach::crypto::VerifyingKey::from_bytes(&key_bytes) {
        Ok(v) => v,
        Err(_) => return Err(AssetError::FormatError),
    };
    match vach::archive::Archive::with_key(std::io::Cursor::new(data), &vk) {
        Ok(a) => Ok(a),
        Err(vach::archive::InternalError::IOError(_)) => Err(AssetError::IoError),
        Err(_) => Err(AssetError::FormatError),
    }
}

/// Relies on vach::archive::Archive::fetch: hands back the processed
/// payload and signature flag of the entry with the given id, exactly
/// when the archive holds a fetchable entry under that id; the result
/// is a function of the archive value and the id alone.
#[verifier::external_body]
fn vach_fetch(a: &vach::archive::Archive<std::io::Cursor<Vec<u8>>>, id: &str) -> (r: Option<
    (Vec<u8>, bool),
>)
    ensures
        match r {
            Some(p) => archive_contents(*a).contains_key(id@) && archive_contents(*a)[id@] == (
                p.0@,
                p.1,
            ),
            None => !archive_contents(*a).contains_key(id@),
        },
{
    match a.fetch(id) {
        Ok(res) => Some((res.data.into_vec(), res.verified)),
        Err(_) => None,
    }
}

/// The ids in a parsed archive's entry registry; the fetchable
/// entries are a subset of these, since processing an entry can still
/// fail after it was listed.
pub uninterp spec fn archive_registry(a: vach::archive::Archive<std::io::Cursor<Vec<u8>>>) -> Set<
    Seq<char>,
>;

/// Relies on vach::archive::Archive::entries: lists the archive's
/// entry registry exactly — each registry id once, and nothing else;
/// every fetchable id is among them.
#[verifier::external_body]
fn vach_entry_ids(a: &vach::archive::Archive<std::io::Cursor<Vec<u8>>>) -> (r: Vec<String>)
    ensures
        forall|i: int, j: int| 0 <= i < j < r@.len() ==> (#[trigger] r@[i])@ != (#[trigger] r@[j])@,
        forall|i: int| 0 <= i < r@.len() ==> archive_registry(*a).contains((#[trigger] r@[i])@),
        forall|id: Seq<char>|
            #[trigger] archive_registry(*a).contains(id) ==> exists|i: int|
                0 <= i < r@.len() && (#[trigger] r@[i])@ == id,
        forall|id: Seq<char>|
            #[trigger] archive_contents(*a).contains_key(id) ==> exists|i: int|
                0 <= i < r@.len() && (#[trigger] r@[i])@ == id,
{
    a.entries().keys().map(|k| k.to_string()).collect()
}

/// One mounted archive: the identity derived from its registered name
/// together with the parsed container.
pub struct MountedArchive {
    uuid: Uuid,
    archive: vach::archive::Archive<std::io::Cursor<Vec<u8>>>,
}

impl MountedArchive {
    /// The identity the archive was registered under.
    pub closed spec fn id(&self) -> Uuid {
        self.uuid
    }

    /// The fetchable entries of the archive.
    pub closed spec fn contents(&self) -> Map<Seq<char>, (Seq<u8>, bool)> {
        archive_contents(self.archive)
    }

    /// The ids in the archive's entry registry.
    pub closed spec fn registry(&self) -> Set<Seq<char>> {
        archive_registry(self.archive)
    }
}

/// The payload of the first archive, in registration order, that
/// holds a fetchable entry under the given id.
pub open spec fn first_hit(archs: Seq<MountedArchive>, id: Seq<char>) -> Option<(Seq<u8>, bool)>
    decreases archs.len(),
{
    if archs.len() == 0 {
        None
    } else if archs[0].contents().contains_key(id) {
        Some(archs[0].contents()[id])
    } else {
        first_hit(archs.drop_first(), id)
    }
}

/// The registered archives, in mount order, and the public key their
/// entries are verified against.
pub struct ArchiveSet {
    archives: Vec<MountedArchive>,
    key: Vec<u8>,
}

impl ArchiveSet {
    /// The mounted archives, in registration order.
    pub closed spec fn mounted(&self) -> Seq<MountedArchive> {
        self.archives@
    }

    /// The bytes of the configured public key.
    pub closed spec fn key_bytes(&self) -> Seq<u8> {
        self.key@
    }

    /// An archive set with no archives, verifying against the given
    /// public key.
    pub fn new(key: Vec<u8>) -> (r: Self)
        ensures
            r.mounted() == Seq::<MountedArchive>::empty(),
            r.key_bytes() == key@,
    {
        let r = ArchiveSet { archives: Vec::new(), key };
        proof {
            assert(r.mounted() =~= Seq::<MountedArchive>::empty());
        }
        r
    }

    /// Parses the given container bytes and registers them as the last
    /// archive, under the identity derived from the given name; it
    /// succeeds exactly when the bytes parse against the configured
    /// key, and the new archive's fetchable entries are that parse.
    pub fn mount(&mut self, name: &str, data: Vec<u8>) -> (r: Result<Uuid, AssetError>)
        ensures
            final(self).key_bytes() == old(self).key_bytes(),
            r is Ok <==> vach_parse_of(data@, old(self).key_bytes()) is Some,
            match r {
                Ok(u) => u == name_uuid(name@) && final(self).mounted().len() == old(
                    self,
                ).mounted().len() + 1 && final(self).mounted().drop_last() == old(self).mounted()
                    && final(self).mounted().last().id() == u && Some(
                    final(self).mounted().last().contents(),
                ) == vach_parse_of(data@, old(self).key_bytes()),
                Err(e) => *final(self) == *old(self) && (e == AssetError::IoError || e
                    == AssetError::FormatError),
            },
    {
        let uuid = uuid_for_name(name);
        match vach_open(data, self.key.as_slice()) {
            Ok(archive) => {
                self.archives.push(MountedArchive { uuid, archive });
                proof {
                    assert(self.archives@.drop_last() =~= old(self).archives@);
                    assert(self.archives@.last().contents() == archive_contents(
                        self.archives@.last().archive,
                    ));
                }
                Ok(uuid)
            },
            Err(e) => Err(e),
        }
    }

    /// Asks every mounted archive in registration order and returns
    /// the first fetchable payload under the given id, together with
    /// its signature flag; fails exactly when no mounted archive holds
    /// the id.
    pub fn fetch_raw(&self, id: &str) -> (r: Result<(Vec<u8>, bool), AssetError>)
        ensures
            match r {
                Ok(p) => first_hit(self.mounted(), id@) == Some((p.0@, p.1)),
                Err(e) => e == AssetError::NotFound && first_hit(self.mounted(), id@) is None,
            },
    {
        let n = self.archives.len();
        proof {
            assert(self.archives@.skip(0) =~= self.archives@);
        }
        let mut i: usize = 0;
        while i < n
            invariant
                n == self.archives@.len(),
                0 <= i <= n,
                first_hit(self.archives@, id@) == first_hit(
                    self.archives@.skip(i as int),
                    id@,
                ),
            decreases n - i,
        {
            proof {
                assert(self.archives@.skip(i as int)[0] == self.archives@[i as int]);
            }
            match vach_fetch(&self.archives[i].archive, id) {
                Some(p) => {
                    return Ok(p);
                },
                None => {
                    proof {
                        assert(self.archives@.skip(i as int).drop_first() =~= self.archives@.skip(
                            i as int + 1,
                        ));
                    }
                },
            }
            i = i + 1;
        }
        proof {
            assert(self.archives@.skip(n as int).len() == 0);
        }
        Err(AssetError::NotFound)
    }

    /// Lists the entry registry of the first archive registered under
    /// the identity derived from the given name — each registry id
    /// exactly once — or nothing when no archive carries that
    /// identity.
    pub fn entries_of(&self, name: &str) -> (r: Option<Vec<String>>)
        ensures
            match r {
                Some(v) => first_archive_listing(self.mounted(), name_uuid(name@), v@),
                None => no_archive_under(self.mounted(), name_uuid(name@)),
            },
    {
        let uuid = uuid_for_name(name);
        let n = self.archives.len();
        let mut i: usize = 0;
        while i < n
            invariant
                n == self.archives@.len(),
                0 <= i <= n,
                uuid == name_uuid(name@),
                forall|j: int|
                    0 <= j < i ==> (#[trigger] self.archives@[j]).id() != name_uuid(name@),
            decreases n - i,
        {
            let candidate = &self.archives[i];
            if candidate.uuid.value == uuid.value {
                let v = vach_entry_ids(&candidate.archive);
                proof {
                    let j = i as int;
                    assert(*candidate == self.archives@[j]);
                    assert(candidate.uuid == uuid);
                    assert(self.mounted()[j].id() == name_uuid(name@));
                    assert(lists_registry(v@, self.mounted()[j].registry()));
                    assert(lists_contents(v@, self.mounted()[j].contents()));
                    assert(first_archive_listing(self.mounted(), name_uuid(name@), v@));
                }
                return Some(v);
            }
            i = i + 1;
        }
        None
    }
}

/// Every id in the map occurs in the listed sequence.
pub open spec fn lists_contents(v: Seq<String>, m: Map<Seq<char>, (Seq<u8>, bool)>) -> bool {
    forall|id: Seq<char>|
        #[trigger] m.contains_key(id) ==> exists|i: int| 0 <= i < v.len() && (#[trigger] v[i])@ == id
}

/// The listed sequence enumerates the id set exactly: no id twice,
/// nothing outside the set, and every id of the set present.
pub open spec fn lists_registry(v: Seq<String>, ids: Set<Seq<char>>) -> bool {
    (forall|i: int, j: int| 0 <= i < j < v.len() ==> (#[trigger] v[i])@ != (#[trigger] v[j])@)
        && (forall|i: int| 0 <= i < v.len() ==> ids.contains((#[trigger] v[i])@)) && (forall|
        id: Seq<char>,
    |
        #[trigger] ids.contains(id) ==> exists|i: int| 0 <= i < v.len() && (#[trigger] v[i])@ == id)
}

/// The listing `v` is exactly the registry of the first archive, in
/// registration order, that carries the identity `u`, and every id
/// fetchable from that archive occurs in it.
pub open spec fn first_archive_listing(archs: Seq<MountedArchive>, u: Uuid, v: Seq<String>) -> bool {
    exists|j: int|
        0 <= j < archs.len() && (#[trigger] archs[j]).id() == u && (forall|k: int|
            0 <= k < j ==> (#[trigger] archs[k]).id() != u) && lists_registry(v, archs[j].registry())
            && lists_contents(v, archs[j].contents())
}

/// No mounted archive carries the identity `u`.
pub open spec fn no_archive_under(archs: Seq<MountedArchive>, u: Uuid) -> bool {
    forall|j: int| 0 <= j < archs.len() ==> (#[trigger] archs[j]).id() != u
}

} // verus!
