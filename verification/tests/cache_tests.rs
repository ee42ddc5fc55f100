use std::io::Cursor;

use asset_pipeline::{AssetError, AssetLoader, GpuTextureRef, Uuid, UUID_NAMESPACE_ASSETS};

fn signing_key() -> vach::crypto::SigningKey {
    vach::crypto::SigningKey::from_bytes(&[9u8; 32])
}

fn build_archive(entries: &[(&str, &[u8])]) -> Vec<u8> {
    let mut leaves: Vec<vach::builder::Leaf<&[u8]>> = entries
        .iter()
        .map(|(id, data)| vach::builder::Leaf::new(*data, *id).sign(true))
        .collect();
    let config = vach::builder::BuilderConfig::default().keypair(signing_key());
    let mut target = Cursor::new(Vec::new());
    vach::builder::dump(&mut target, &mut leaves, &config, None).unwrap();
    target.into_inner()
}

fn loader_with(entries: &[(&str, &[u8])]) -> AssetLoader {
    let mut sys = AssetLoader::init(false, signing_key().verifying_key().to_bytes().to_vec());
    sys.add_archive("data.pak", build_archive(entries)).unwrap();
    sys
}

fn uuid_of(name: &str) -> Uuid {
    Uuid::new_v5(&Uuid { value: UUID_NAMESPACE_ASSETS }, name.as_bytes())
}

#[test]
fn raw_cache_is_idempotent() {
    let mut sys = loader_with(&[("asset", b"payload bytes")]);
    let u = uuid_of("asset");
    assert_eq!(sys.raw_from_cache(&u), Err(AssetError::NotFound));
    let d1 = sys.get_asset("asset").unwrap();
    assert_eq!(d1, b"payload bytes");
    // the first request cached the payload with one registered holder
    assert_eq!(sys.raw_from_cache(&u), Ok(1));
    let d2 = sys.get_asset("asset").unwrap();
    assert_eq!(d2, d1);
    // the second request was served from the cache: one more holder
    assert_eq!(sys.raw_from_cache(&u), Ok(2));
}

#[test]
fn get_from_raw_cache_registers_a_holder() {
    let mut sys = loader_with(&[("asset", b"abc")]);
    assert!(sys.get_asset_from_raw_cache("asset").is_none());
    sys.get_asset("asset").unwrap();
    let again = sys.get_asset_from_raw_cache("asset").unwrap();
    assert_eq!(again, b"abc");
    assert_eq!(sys.raw_from_cache(&uuid_of("asset")), Ok(2));
}

#[test]
fn raw_eviction_waits_for_release() {
    let mut sys = loader_with(&[("asset", b"abc")]);
    let u = uuid_of("asset");
    sys.get_asset("asset").unwrap();
    // one live holder: the cleanup pass must keep the entry
    sys.clean_cache();
    assert_eq!(sys.raw_from_cache(&u), Ok(1));
    // the holder releases: the next pass removes it
    sys.release_raw(u);
    assert_eq!(sys.raw_from_cache(&u), Ok(0));
    sys.clean_cache();
    assert_eq!(sys.raw_from_cache(&u), Err(AssetError::NotFound));
}

#[test]
fn texture_eviction_follows_handles() {
    let mut sys = AssetLoader::init(false, Vec::new());
    let (u, was) = sys.insert_into_texture_cache("tex");
    assert!(!was);
    assert_eq!(sys.texture_from_cache(&u), Ok(0));
    let h = GpuTextureRef::new_shared(&mut sys, u);
    let h2 = h.clone_with(&mut sys);
    assert_eq!(sys.texture_from_cache(&u), Ok(2));
    h2.drop_with(&mut sys);
    assert_eq!(sys.texture_from_cache(&u), Ok(1));
    // one live handle: eviction must not touch the texture
    sys.clean_cache();
    assert_eq!(sys.texture_from_cache(&u), Ok(1));
    h.drop_with(&mut sys);
    assert_eq!(sys.texture_from_cache(&u), Ok(0));
    // no handles left: the next cleanup pass removes it
    sys.clean_cache();
    assert_eq!(sys.texture_from_cache(&u), Err(AssetError::NotFound));
}

#[test]
fn debug_viewers_raise_the_threshold() {
    let mut sys = AssetLoader::init(false, Vec::new());
    let (u, _) = sys.insert_into_texture_cache("tex");
    // a debug viewer opens and registers its own reference
    sys.add_to_active_cache_debug_ui();
    sys.register_inner(u);
    assert_eq!(sys.texture_from_cache(&u), Ok(1));
    // only the viewer references the texture: it may be evicted
    sys.clean_cache();
    assert_eq!(sys.texture_from_cache(&u), Err(AssetError::NotFound));
    // with an outside handle on top of the viewer, it stays
    let (u, _) = sys.insert_into_texture_cache("tex");
    sys.register_inner(u);
    let h = GpuTextureRef::new_shared(&mut sys, u);
    sys.clean_cache();
    assert_eq!(sys.texture_from_cache(&u), Ok(2));
    h.drop_with(&mut sys);
    sys.deregister_inner(u);
    sys.remove_from_active_cache_debug_ui();
}

#[test]
fn duplicate_texture_insert_keeps_references() {
    let mut sys = AssetLoader::init(false, Vec::new());
    let (u, first) = sys.insert_into_texture_cache("tex");
    assert!(!first);
    let _h = GpuTextureRef::new_shared(&mut sys, u);
    let (u2, second) = sys.insert_into_texture_cache("tex");
    assert_eq!(u, u2);
    assert!(second);
    // the replacement keeps the registered reference
    assert_eq!(sys.texture_from_cache(&u), Ok(1));
}

#[test]
fn script_cache_is_append_only() {
    let mut sys = AssetLoader::init(false, Vec::new());
    assert!(sys.get_precompiled_lua_script("s").is_none());
    sys.add_compiled_lua_script("s", vec![1, 2, 3]);
    assert_eq!(sys.get_precompiled_lua_script("s").unwrap(), vec![1, 2, 3]);
    // eviction never touches compiled scripts
    sys.clean_cache();
    assert_eq!(sys.get_precompiled_lua_script("s").unwrap(), vec![1, 2, 3]);
}
