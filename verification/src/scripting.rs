//! Script compilation and the compiled-bytecode cache.
//!
//! Script sources live in the mounted archives like any other asset;
//! their compiled bytecode is cached by identity, append-only, for the
//! process lifetime. A lookup that misses compiles on the spot — the
//! path consumers hit when a script was not precompiled by a
//! background job.

use vstd::prelude::*;

use crate::archive::AssetError;
use crate::cache::{get_asset_effect, names_after, raw_payload, AssetLoader};
use crate::identity::name_uuid;
use crate::jobs::LuaPreCompileJob;

verus! {

/// The bytecode the script compiler produces from a source, at
/// optimization level 1, coverage level 2 and debug level 2; nothing
/// when the source does not compile. A fixed function of the source
/// bytes alone.
pub uninterp spec fn luau_bytecode_of(source: Seq<u8>) -> Option<Seq<u8>>;

/// Relies on mlua::chunk::Compiler::compile, with optimization level 1,
/// coverage level 2 and debug level 2: deterministic in the source
/// bytes, producing bytecode or failing on invalid source.
#[verifier::external_body]
fn compile_script(source: &[u8]) -> (r: Result<Vec<u8>, AssetError>)
    ensures
        match r {
            Ok(b) => luau_bytecode_of(source@) == Some(b@),
            Err(e) => luau_bytecode_of(source@) is None && e == AssetError::FormatError,
        },
{
    let compiler = mlua::chunk::Compiler::new().set_optimization_level(1).set_coverage_level(
        2,
    ).set_debug_level(2);
    match compiler.compile(source) {
        Ok(b) => Ok(b),
        Err(_) => Err(AssetError::FormatError),
    }
}

/// What running a script-precompile job does: the source is read like
/// any raw asset (caching it and registering one holder), compiled,
/// and the bytecode stored in the script cache under the source's
/// identity.
pub open spec fn compile_job_effect(pre: &AssetLoader, post: &AssetLoader, id: Seq<char>) -> bool {
    (exists|x: Seq<u8>| get_asset_effect(pre, post, id, x)) && match raw_payload(pre, id) {
        Some(d) => match luau_bytecode_of(d) {
            Some(b) => post.scripts() == pre.scripts().insert(name_uuid(id), b),
            None => false,
        },
        None => false,
    }
}

impl LuaPreCompileJob {
    /// Runs the precompilation: reads the script source through the
    /// raw cache, compiles it, and stores the bytecode. Fails with
    /// NotFound when the source is absent everywhere (nothing
    /// changes), and with FormatError when the source does not
    /// compile (the raw cache still keeps the source).
    pub fn run(&self, sys: &mut AssetLoader) -> (r: Result<(), AssetError>)
        requires
            old(sys).wf(),
        ensures
            final(sys).wf(),
            crate::cache::same_but_raw_names_scripts(old(sys), final(sys)),
            match r {
                Ok(()) => compile_job_effect(old(sys), final(sys), self.id()),
                Err(e) => (e == AssetError::NotFound && raw_payload(old(sys), self.id()) is None
                    && final(sys).raw() == old(sys).raw() && final(sys).names() == old(sys).names()
                    && final(sys).scripts() == old(sys).scripts()) || (e == AssetError::FormatError
                    && (raw_payload(
                    old(sys),
                    self.id(),
                ) matches Some(d) && luau_bytecode_of(d) is None) && (exists|x: Seq<u8>|
                    get_asset_effect(old(sys), final(sys), self.id(), x)
                ) && final(sys).scripts() == old(sys).scripts()),
            },
    {
        let script = match sys.get_asset(self.script_id()) {
            Ok(d) => d,
            Err(e) => {
                return Err(e);
            },
        };
        let ghost mid = *sys;
        let compiled = match compile_script(script.as_slice()) {
            Ok(b) => b,
            Err(e) => {
                proof {
                    assert(get_asset_effect(old(sys), sys, self.id(), script@));
                }
                return Err(e);
            },
        };
        proof {
            assert(get_asset_effect(old(sys), sys, self.id(), script@));
        }
        sys.add_compiled_lua_script(self.script_id(), compiled);
        proof {
            assert(get_asset_effect(old(sys), sys, self.id(), script@));
        }
        Ok(())
    }
}

impl AssetLoader {
    /// Returns the compiled bytecode of the named script: straight
    /// from the script cache when precompiled, otherwise by reading
    /// and compiling the source on the spot and caching the result.
    pub fn get_lua_script_or_compile(&mut self, id: &str) -> (r: Result<Vec<u8>, AssetError>)
        requires
            old(self).wf(),
        ensures
            final(self).wf(),
            crate::cache::same_but_raw_names_scripts(old(self), final(self)),
            match r {
                Ok(d) => if old(self).scripts().contains_key(name_uuid(id@)) {
                    d@ == old(self).scripts()[name_uuid(id@)] && final(self).raw() == old(
                        self,
                    ).raw() && final(self).names() == old(self).names() && final(self).scripts()
                        == old(self).scripts()
                } else {
                    compile_job_effect(old(self), final(self), id@)
                        && final(self).scripts().contains_key(name_uuid(id@)) && d@
                        == final(self).scripts()[name_uuid(id@)]
                },
                Err(e) => !old(self).scripts().contains_key(name_uuid(id@)) && ((e
                    == AssetError::NotFound && raw_payload(old(self), id@) is None
                    && final(self).raw() == old(self).raw() && final(self).names() == old(
                    self,
                ).names() && final(self).scripts() == old(self).scripts()) || (e
                    == AssetError::FormatError && (raw_payload(
                    old(self),
                    id@,
                ) matches Some(d) && luau_bytecode_of(d) is None) && final(self).scripts() == old(
                    self,
                ).scripts())),
            },
    {
        match self.get_precompiled_lua_script(id) {
            Some(v) => Ok(v),
            None => {
                let job = LuaPreCompileJob::new(id);
                match job.run(self) {
                    Ok(()) => {
                        match self.get_precompiled_lua_script(id) {
                            Some(v) => Ok(v),
                            None => vstd::pervasive::unreached(),
                        }
                    },
                    Err(e) => Err(e),
                }
            },
        }
    }
}

/// A script component: the asset id of its source, the compiled
/// bytecode it runs from, and whether its one-time setup has run in
/// the embedding virtual machine.
pub struct LuaScript {
    setup: bool,
    script_id: String,
    binary: Vec<u8>,
}

impl LuaScript {
    /// The asset id of the script's source.
    pub closed spec fn id(&self) -> Seq<char> {
        self.script_id@
    }

    /// The compiled bytecode the script runs from.
    pub closed spec fn bytecode(&self) -> Seq<u8> {
        self.binary@
    }

    /// Whether the script's one-time setup has already run.
    pub closed spec fn setup_done(&self) -> bool {
        self.setup
    }

    /// Builds a script component for the given source id, compiling
    /// the source now unless its bytecode is already cached; it fails
    /// exactly as the compile path does — the source absent everywhere
    /// (nothing changes), or uncompilable (the raw cache keeps the
    /// source, the script cache stays).
    pub fn new(sys: &mut AssetLoader, script_id: &str) -> (r: Result<LuaScript, AssetError>)
        requires
            old(sys).wf(),
        ensures
            final(sys).wf(),
            crate::cache::same_but_raw_names_scripts(old(sys), final(sys)),
            match r {
                Ok(s) => s.id() == script_id@ && !s.setup_done()
                    && final(sys).scripts().contains_key(name_uuid(script_id@)) && s.bytecode()
                    == final(sys).scripts()[name_uuid(script_id@)],
                Err(e) => !old(sys).scripts().contains_key(name_uuid(script_id@)) && ((e
                    == AssetError::NotFound && raw_payload(old(sys), script_id@) is None
                    && final(sys).raw() == old(sys).raw() && final(sys).names() == old(
                    sys,
                ).names() && final(sys).scripts() == old(sys).scripts()) || (e
                    == AssetError::FormatError && (raw_payload(old(sys), script_id@) matches Some(
                    d,
                ) && luau_bytecode_of(d) is None) && final(sys).scripts() == old(sys).scripts())),
            },
    {
        let binary = match sys.get_lua_script_or_compile(script_id) {
            Ok(b) => b,
            Err(e) => {
                return Err(e);
            },
        };
        Ok(LuaScript { setup: false, script_id: script_id.to_owned(), binary })
    }

    /// Returns the bytecode for the embedding virtual machine to load.
    pub fn binary(&self) -> (r: &Vec<u8>)
        ensures
            r@ == self.bytecode(),
    {
        &self.binary
    }

    /// Whether the script's one-time setup entry point still has to
    /// run before its per-frame entry point.
    pub fn needs_setup(&self) -> (r: bool)
        ensures
            r == !self.setup_done(),
    {
        !self.setup
    }

    /// Records that the one-time setup entry point has run.
    pub fn mark_setup(&mut self)
        ensures
            final(self).setup_done(),
            final(self).id() == old(self).id(),
            final(self).bytecode() == old(self).bytecode(),
    {
        self.setup = true;
    }
}

} // verus!
