//! The capability contract of a loaded extension, the stub used while real
//! extension code is not loaded, and the best-effort fan-out of hooks.
use vstd::prelude::*;
use serde_json::Value;
use crate::error::ExtensionError;
use crate::manifest::{ExtensionManifest, ExtensionType};

verus! {

#[verifier::external_type_specification]
#[verifier::external_body]
pub struct ExValue(serde_json::Value);

/// Relies on the `Clone` that serde_json derives for `Value`: the copy equals
/// the value it was made from.
pub assume_specification[ <serde_json::Value as Clone>::clone ](v: &serde_json::Value) -> (r:
    serde_json::Value)
    ensures
        r == *v,
;

/// What an extension is given when it starts: the directory it lives in.
#[derive(Debug, Clone)]
pub struct ExtensionContext {
    pub extension_dir: String,
}

/// Every loaded extension offers these operations.
pub trait ExtensionImpl {
    /// One-time setup; called once per load.
    fn initialize(&mut self, context: &ExtensionContext) -> Result<(), ExtensionError>;

    /// Releases what the extension holds; called once per unload.
    fn shutdown(&mut self) -> Result<(), ExtensionError>;

    /// Answers a hook. Unknown hook names are tolerated.
    fn handle_hook(&self, hook: &str, params: Value) -> Result<Value, ExtensionError>;

    fn get_manifest(&self) -> &ExtensionManifest;

    fn get_type(&self) -> ExtensionType;

    fn get_id(&self) -> &str;
}

/// The extension used when no real extension code is loaded: it starts and
/// stops without fault and answers every hook with its parameters.
#[derive(Debug)]
pub struct StubExtension {
    pub id: String,
    pub manifest: ExtensionManifest,
    pub path: String,
}

impl ExtensionImpl for StubExtension {
    fn initialize(&mut self, context: &ExtensionContext) -> (r: Result<(), ExtensionError>)
        ensures
            r is Ok,
            *final(self) == *old(self),
    {
        Ok(())
    }

    fn shutdown(&mut self) -> (r: Result<(), ExtensionError>)
        ensures
            r is Ok,
            *final(self) == *old(self),
    {
        Ok(())
    }

    fn handle_hook(&self, hook: &str, params: Value) -> (r: Result<Value, ExtensionError>)
        ensures
            r == Ok::<Value, ExtensionError>(params),
    {
        Ok(params)
    }

    fn get_manifest(&self) -> (r: &ExtensionManifest)
        ensures
            *r == self.manifest,
    {
        &self.manifest
    }

    fn get_type(&self) -> (r: ExtensionType)
        ensures
            r == self.manifest.extension_type,
    {
        self.manifest.extension_type
    }

    fn get_id(&self) -> (r: &str)
        ensures
            r@ == self.id@,
    {
        self.id.as_str()
    }
}

/// The values of the successful outcomes, in order; failures are dropped.
pub open spec fn successes<T>(outcomes: Seq<Result<T, ExtensionError>>) -> Seq<T>
    decreases outcomes.len(),
{
    if outcomes.len() == 0 {
        Seq::empty()
    } else {
        let rest = successes(outcomes.drop_last());
        match outcomes.last() {
            Ok(v) => rest.push(v),
            Err(_) => rest,
        }
    }
}

/// Best-effort fan-out: keeps the answers of the extensions that succeeded
/// and drops the failures, so one failing extension never fails the whole.
pub fn collect_hook_results<T>(outcomes: Vec<Result<T, ExtensionError>>) -> (r: Vec<T>)
    ensures
        r@ == successes(outcomes@),
{
    let ghost all = outcomes@;
    let mut rest = outcomes;
    let mut out: Vec<T> = Vec::new();
    while rest.len() > 0
        invariant
            rest@.len() <= all.len(),
            rest@ == all.subrange(all.len() - rest@.len(), all.len() as int),
            out@ == successes(all.subrange(0, all.len() - rest@.len())),
        decreases rest@.len(),
    {
        let ghost k = all.len() - rest@.len();
        let x = rest.remove(0);
        proof {
            assert(all.subrange(0, k + 1).drop_last() =~= all.subrange(0, k));
            assert(all[k] == x);
            assert(rest@ =~= all.subrange(all.len() - rest@.len(), all.len() as int));
        }
        match x {
            Ok(v) => out.push(v),
            Err(_) => {},
        }
    }
    assert(all.subrange(0, all.len() as int) =~= all);
    out
}

} // verus!
