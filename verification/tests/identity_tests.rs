use asset_pipeline::{LuaPreCompileJob, ToUuid, Uuid, UUID_NAMESPACE_ASSETS};

fn ns() -> Uuid {
    Uuid { value: UUID_NAMESPACE_ASSETS }
}

#[test]
fn derive_is_deterministic() {
    let a = Uuid::new_v5(&ns(), b"foo");
    let b = Uuid::new_v5(&ns(), b"foo");
    assert_eq!(a, b);
}

#[test]
fn derive_distinguishes_names() {
    let a = Uuid::new_v5(&ns(), b"foo");
    let b = Uuid::new_v5(&ns(), b"bar");
    assert_ne!(a, b);
}

#[test]
fn derive_changes_the_input() {
    // A version-5 derivation is a hash, not a copy: it differs from
    // its namespace and stamps the version nibble.
    let a = Uuid::new_v5(&ns(), b"foo");
    assert_ne!(a, ns());
    let s = a.canonical_string();
    assert_eq!(s.as_bytes()[14], b'5');
}

#[test]
fn from_bytes_is_big_endian() {
    let one = Uuid::from_bytes([0, 0, 0, 0, 0, 0, 0, 0, 0, 0, 0, 0, 0, 0, 0, 1]);
    assert_eq!(one.value, 1);
    let namespace = Uuid::from_bytes([
        0x6b, 0xa7, 0xb8, 0x15, 0x9d, 0xad, 0x11, 0xd1, 0x80, 0xb4, 0x00, 0xc0, 0x4f, 0xd4, 0x30,
        0xc8,
    ]);
    assert_eq!(namespace.value, UUID_NAMESPACE_ASSETS);
}

#[test]
fn canonical_string_is_hyphenated_hex() {
    let u = Uuid { value: UUID_NAMESPACE_ASSETS };
    assert_eq!(u.canonical_string(), "6ba7b815-9dad-11d1-80b4-00c04fd430c8");
    let zero = Uuid { value: 0 };
    assert_eq!(zero.canonical_string(), "00000000-0000-0000-0000-000000000000");
    let max = Uuid { value: u128::MAX };
    assert_eq!(max.canonical_string(), "ffffffff-ffff-ffff-ffff-ffffffffffff");
}

#[test]
fn job_identity_follows_its_name() {
    let job = LuaPreCompileJob::new("whatever");
    let expected = Uuid::new_v5(&ns(), b"LuaPreCompileJob");
    assert_eq!(job.uuid(), expected);
    assert_eq!(job.uuid_name(), "LuaPreCompileJob");
}
