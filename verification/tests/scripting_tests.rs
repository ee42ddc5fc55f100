use std::io::Cursor;

use asset_pipeline::{AssetError, AssetLoader, LuaPreCompileJob, LuaScript};

fn signing_key() -> vach::crypto::SigningKey {
    vach::crypto::SigningKey::from_bytes(&[5u8; 32])
}

fn build_archive(entries: &[(&str, &[u8])]) -> Vec<u8> {
    let mut leaves: Vec<vach::builder::Leaf<&[u8]>> = entries
        .iter()
        .map(|(id, data)| vach::builder::Leaf::new(*data, *id).sign(true))
        .collect();
    let config = vach::builder::BuilderConfig::default().keypair(signing_key());
    let mut target = Cursor::new(Vec::new());
    vach::builder::dump(&mut target, &mut leaves, &config, None).unwrap();
    target.into_inner()
}

fn loader_with(entries: &[(&str, &[u8])]) -> AssetLoader {
    let mut sys = AssetLoader::init(false, signing_key().verifying_key().to_bytes().to_vec());
    sys.add_archive("scripts.pak", build_archive(entries)).unwrap();
    sys
}

#[test]
fn compile_on_miss_then_serve_from_cache() {
    let mut sys = loader_with(&[("hello.lua", b"x = 1")]);
    assert!(sys.get_precompiled_lua_script("hello.lua").is_none());
    let d1 = sys.get_lua_script_or_compile("hello.lua").unwrap();
    // the compiler produced bytecode, not an echo of the source
    assert!(!d1.is_empty());
    assert_ne!(d1, b"x = 1");
    // the bytecode is now cached and served unchanged
    assert_eq!(sys.get_precompiled_lua_script("hello.lua").unwrap(), d1);
    let d2 = sys.get_lua_script_or_compile("hello.lua").unwrap();
    assert_eq!(d2, d1);
}

#[test]
fn missing_script_is_not_found() {
    let mut sys = loader_with(&[("hello.lua", b"x = 1")]);
    assert_eq!(sys.get_lua_script_or_compile("absent.lua"), Err(AssetError::NotFound));
}

#[test]
fn invalid_script_fails_to_compile() {
    let mut sys = loader_with(&[("broken.lua", b"((((")]);
    assert_eq!(sys.get_lua_script_or_compile("broken.lua"), Err(AssetError::FormatError));
    // the failure left no bytecode behind
    assert!(sys.get_precompiled_lua_script("broken.lua").is_none());
}

#[test]
fn precompile_job_fills_the_cache() {
    let mut sys = loader_with(&[("hello.lua", b"y = 2")]);
    let job = LuaPreCompileJob::new("hello.lua");
    assert_eq!(job.script_id(), "hello.lua");
    job.run(&mut sys).unwrap();
    let cached = sys.get_precompiled_lua_script("hello.lua").unwrap();
    assert!(!cached.is_empty());
    // a later consumer finds it precompiled
    assert_eq!(sys.get_lua_script_or_compile("hello.lua").unwrap(), cached);
}

#[test]
fn precompile_job_reports_missing_source() {
    let mut sys = loader_with(&[("hello.lua", b"y = 2")]);
    let job = LuaPreCompileJob::new("absent.lua");
    assert_eq!(job.run(&mut sys), Err(AssetError::NotFound));
}

#[test]
fn script_component_tracks_setup() {
    let mut sys = loader_with(&[("hello.lua", b"z = 3")]);
    let mut script = LuaScript::new(&mut sys, "hello.lua").unwrap();
    assert!(!script.binary().is_empty());
    assert!(script.needs_setup());
    script.mark_setup();
    assert!(!script.needs_setup());
}

#[test]
fn script_component_missing_source() {
    let mut sys = loader_with(&[("hello.lua", b"z = 3")]);
    assert!(matches!(LuaScript::new(&mut sys, "absent.lua"), Err(AssetError::NotFound)));
}

#[test]
fn script_component_bad_source() {
    let mut sys = loader_with(&[("broken.lua", b"((((")]);
    assert!(matches!(LuaScript::new(&mut sys, "broken.lua"), Err(AssetError::FormatError)));
    assert!(sys.get_precompiled_lua_script("broken.lua").is_none());
}

#[test]
fn display_prefers_recorded_names() {
    let mut sys = AssetLoader::init(true, signing_key().verifying_key().to_bytes().to_vec());
    let bytes = build_archive(&[("greeting", b"hi")]);
    let archive_id = sys.add_archive("names.pak", bytes).unwrap();
    // mounting recorded the archive's name
    assert_eq!(sys.display(&archive_id), "names.pak");
    // loading an asset records its name too
    sys.get_asset("greeting").unwrap();
    let asset_id = asset_pipeline::Uuid::new_v5(
        &asset_pipeline::Uuid { value: asset_pipeline::UUID_NAMESPACE_ASSETS },
        b"greeting",
    );
    assert_eq!(sys.display(&asset_id), "greeting");
    // unknown identities fall back to the canonical form
    let unknown = asset_pipeline::Uuid { value: 7 };
    assert_eq!(sys.display(&unknown), unknown.canonical_string());
}

#[test]
fn display_without_retention_is_canonical() {
    let mut sys = AssetLoader::init(false, signing_key().verifying_key().to_bytes().to_vec());
    let bytes = build_archive(&[("greeting", b"hi")]);
    let archive_id = sys.add_archive("names.pak", bytes).unwrap();
    assert_eq!(sys.display(&archive_id), archive_id.canonical_string());
}
