use std::io::Cursor;

use asset_pipeline::{ArchiveSet, AssetError, AssetLoader, Uuid, UUID_NAMESPACE_ASSETS};

fn signing_key() -> vach::crypto::SigningKey {
    vach::crypto::SigningKey::from_bytes(&[7u8; 32])
}

fn pub_key() -> Vec<u8> {
    signing_key().verifying_key().to_bytes().to_vec()
}

fn build_archive(entries: &[(&str, &[u8])], signed: bool) -> Vec<u8> {
    let mut leaves: Vec<vach::builder::Leaf<&[u8]>> = entries
        .iter()
        .map(|(id, data)| vach::builder::Leaf::new(*data, *id).sign(signed))
        .collect();
    let config = if signed {
        vach::builder::BuilderConfig::default().keypair(signing_key())
    } else {
        vach::builder::BuilderConfig::default()
    };
    let mut target = Cursor::new(Vec::new());
    vach::builder::dump(&mut target, &mut leaves, &config, None).unwrap();
    target.into_inner()
}

fn loader() -> AssetLoader {
    AssetLoader::init(false, pub_key())
}

#[test]
fn mount_and_fetch_roundtrip() {
    let mut sys = loader();
    let bytes = build_archive(&[("greeting", b"hello, cassandra")], true);
    let id = sys.add_archive("a.pak", bytes).unwrap();
    let expected = Uuid::new_v5(&Uuid { value: UUID_NAMESPACE_ASSETS }, b"a.pak");
    assert_eq!(id, expected);
    let data = sys.get_asset("greeting").unwrap();
    assert_eq!(data, b"hello, cassandra");
}

#[test]
fn missing_key_is_not_found() {
    let mut sys = loader();
    let bytes = build_archive(&[("greeting", b"hello")], true);
    sys.add_archive("a.pak", bytes).unwrap();
    assert_eq!(sys.get_asset("absent"), Err(AssetError::NotFound));
    assert_eq!(sys.get_asset_uncached("absent"), Err(AssetError::NotFound));
}

#[test]
fn garbage_container_is_refused() {
    let mut sys = loader();
    let e = sys.add_archive("bad.pak", b"not an archive at all".to_vec()).unwrap_err();
    assert!(e == AssetError::FormatError || e == AssetError::IoError);
    // a refused mount registers nothing
    assert_eq!(sys.get_asset("anything"), Err(AssetError::NotFound));
}

#[test]
fn invalid_public_key_is_refused() {
    let mut sys = AssetLoader::init(false, vec![1, 2, 3]);
    let bytes = build_archive(&[("k", b"v")], true);
    assert_eq!(sys.add_archive("a.pak", bytes), Err(AssetError::FormatError));
}

#[test]
fn first_mounted_archive_wins() {
    let mut sys = loader();
    let first = build_archive(&[("clash", b"from the first"), ("only-a", b"a")], true);
    let second = build_archive(&[("clash", b"from the second"), ("only-b", b"b")], true);
    sys.add_archive("first.pak", first).unwrap();
    sys.add_archive("second.pak", second).unwrap();
    assert_eq!(sys.get_asset("clash").unwrap(), b"from the first");
    // keys unique to either archive still resolve
    assert_eq!(sys.get_asset("only-a").unwrap(), b"a");
    assert_eq!(sys.get_asset("only-b").unwrap(), b"b");
}

#[test]
fn unsigned_entries_are_served_with_a_flag() {
    let mut set = ArchiveSet::new(pub_key());
    let signed = build_archive(&[("s", b"signed payload")], true);
    let unsigned = build_archive(&[("u", b"unsigned payload")], false);
    set.mount("signed.pak", signed).unwrap();
    set.mount("unsigned.pak", unsigned).unwrap();
    let (data, secured) = set.fetch_raw("s").unwrap();
    assert_eq!(data, b"signed payload");
    assert!(secured);
    // an insecure match is served all the same, only flagged
    let (data, secured) = set.fetch_raw("u").unwrap();
    assert_eq!(data, b"unsigned payload");
    assert!(!secured);
}

#[test]
fn list_archive_entries_by_name() {
    let mut sys = loader();
    let bytes = build_archive(&[("one", b"1"), ("two", b"2")], true);
    sys.add_archive("lvme.pak", bytes).unwrap();
    let entries = sys.list_archive_entries("lvme.pak").unwrap();
    assert_eq!(entries.len(), 2);
    assert!(entries.iter().any(|e| e == "one"));
    assert!(entries.iter().any(|e| e == "two"));
    assert!(sys.list_archive_entries("other.pak").is_none());
}
