//! Installing an extension from a store, as a sequence of decisions. The
//! host performs each network or disk step the install asks for and reports
//! the outcome back; every failure ends the install. Once the old version of
//! a reinstalled entry has been unloaded it is not restored if a later step
//! fails.
use vstd::prelude::*;
use vstd::string::*;
use crate::checksum::{checksum_of, verify_package};
use crate::client::{StoreExtensionDetails, vet_downloaded_manifest};
use crate::error::StoreError;
use crate::manager::{DbWrite, ExtensionManager, find_ext, has_ext, info_describes, load_writes, unload_writes, without_ext};
use crate::manifest::{ExtensionManifest, manifest_secure, manifest_valid};
use crate::store::{StoreManager, find_source, has_source};
use crate::text::eq_ignore_ascii_case_spec;

verus! {

/// Where an install stands.
#[derive(Debug, Clone, Copy, PartialEq, Eq, Structural)]
pub enum InstallStage {
    AwaitingDetails,
    AwaitingManifest,
    AwaitingPackage,
    AwaitingUnpack,
    Done,
}

/// What the host reports back.
#[derive(Debug)]
pub enum InstallEvent {
    Details(StoreExtensionDetails),
    Manifest(ExtensionManifest),
    Package(Vec<u8>),
    /// The package was unpacked and the manifest written at `manifest_path`.
    Unpacked { manifest_path: String },
    /// A step failed on the host's side (transport, parsing, disk).
    Failed(StoreError),
}

/// What the install asks of the host next.
#[derive(Debug)]
pub enum InstallAction {
    FetchDetails { base_url: String, extension_id: String },
    DownloadManifest { url: String },
    /// Download the package; first persist `writes`, which remove the
    /// version being replaced, if any.
    DownloadPackage { url: String, writes: Vec<DbWrite> },
    /// Unpack the verified package and write its manifest to disk.
    Unpack { package: Vec<u8> },
    /// Installed under `id`; persist `writes`.
    Installed { id: String, writes: Vec<DbWrite> },
    Failed(StoreError),
}

/// One install in progress.
#[derive(Debug)]
pub struct Install {
    pub source_id: String,
    pub catalog_id: String,
    pub stage: InstallStage,
    pub package_url: String,
    pub checksum: String,
    pub manifest: Option<ExtensionManifest>,
}

/// The manager as a caller sees it did not change.
pub open spec fn manager_unchanged(a: ExtensionManager, b: ExtensionManager) -> bool {
    a.loaded() == b.loaded() && a.infos() == b.infos() && a.origins() == b.origins()
}

/// Some extension was installed from catalog entry `c`.
pub open spec fn has_origin(m: ExtensionManager, c: Seq<char>) -> bool {
    exists|j: int| 0 <= j < m.origins().len() && (#[trigger] m.origins()[j]).0@ == c
}

/// The event the stage waits for.
pub open spec fn expected(stage: InstallStage, e: InstallEvent) -> bool {
    match stage {
        InstallStage::AwaitingDetails => e is Details,
        InstallStage::AwaitingManifest => e is Manifest,
        InstallStage::AwaitingPackage => e is Package,
        InstallStage::AwaitingUnpack => e is Unpacked,
        InstallStage::Done => false,
    }
}

fn finished(msg: &str) -> (r: InstallAction)
    ensures
        r matches InstallAction::Failed(StoreError::Validation(m)) && m@ == msg@,
{
    InstallAction::Failed(StoreError::Validation(String::from_str(msg)))
}

impl Install {
    pub open spec fn wf(&self) -> bool {
        (self.stage == InstallStage::AwaitingPackage || self.stage == InstallStage::AwaitingUnpack)
            ==> self.manifest is Some
    }

    fn done(&mut self, action: InstallAction) -> (r: InstallAction)
        ensures
            r == action,
            final(self).stage == InstallStage::Done,
            final(self).catalog_id == old(self).catalog_id,
            final(self).source_id == old(self).source_id,
            final(self).manifest == old(self).manifest,
    {
        self.stage = InstallStage::Done;
        action
    }

    /// Starts installing catalog entry `catalog_id` from source `source_id`:
    /// the source must exist (`NotFound`) and be enabled (`Validation`).
    pub fn begin(store: &StoreManager, source_id: &str, catalog_id: &str) -> (r: (Install, InstallAction))
        requires
            store.wf(),
        ensures
            r.0.wf(),
            r.0.source_id@ == source_id@,
            r.0.catalog_id@ == catalog_id@,
            r.0.manifest is None,
            !has_source(store.sources(), source_id@) ==> (r.1 matches InstallAction::Failed(
                StoreError::NotFound(_),
            ) && r.0.stage == InstallStage::Done),
            has_source(store.sources(), source_id@) && !find_source(
                store.sources(),
                source_id@,
            ).unwrap().enabled ==> (r.1 matches InstallAction::Failed(StoreError::Validation(_))
                && r.0.stage == InstallStage::Done),
            has_source(store.sources(), source_id@) && find_source(
                store.sources(),
                source_id@,
            ).unwrap().enabled ==> (r.1 matches InstallAction::FetchDetails {
                base_url,
                extension_id,
            } && base_url@ == find_source(store.sources(), source_id@).unwrap().base_url@
                && extension_id@ == catalog_id@ && r.0.stage == InstallStage::AwaitingDetails),
    {
        let mut install = Install {
            source_id: String::from_str(source_id),
            catalog_id: String::from_str(catalog_id),
            stage: InstallStage::AwaitingDetails,
            package_url: String::new(),
            checksum: String::new(),
            manifest: None,
        };
        match store.get_source(source_id) {
            None => {
                let msg = String::from_str("Source ").concat(source_id).concat(" not found");
                let a = install.done(InstallAction::Failed(StoreError::NotFound(msg)));
                (install, a)
            },
            Some(source) => {
                if !source.enabled {
                    let msg = String::from_str("Source ").concat(source_id).concat(" is disabled");
                    let a = install.done(InstallAction::Failed(StoreError::Validation(msg)));
                    (install, a)
                } else {
                    let a = InstallAction::FetchDetails {
                        base_url: source.base_url,
                        extension_id: String::from_str(catalog_id),
                    };
                    (install, a)
                }
            },
        }
    }

    /// Takes the next outcome reported by the host and decides what follows.
    pub fn step(&mut self, manager: &mut ExtensionManager, event: InstallEvent) -> (r: InstallAction)
        requires
            old(self).wf(),
            old(manager).wf(),
        ensures
            final(self).wf(),
            final(manager).wf(),
            final(manager).consistent(),
            final(self).catalog_id == old(self).catalog_id,
            final(self).source_id == old(self).source_id,
            old(self).stage != InstallStage::Done && event is Failed ==> (r == InstallAction::Failed(
                event->Failed_0,
            ) && final(self).stage == InstallStage::Done && manager_unchanged(
                *old(manager),
                *final(manager),
            )),
            !expected(old(self).stage, event) && !(old(self).stage != InstallStage::Done
                && event is Failed) ==> (r matches InstallAction::Failed(StoreError::Validation(_))
                && final(self).stage == InstallStage::Done && manager_unchanged(
                *old(manager),
                *final(manager),
            )),
            old(self).stage == InstallStage::AwaitingDetails && event is Details ==> ({
                let d = event->Details_0;
                &&& r matches InstallAction::DownloadManifest { url } && url@ == d.manifest_url@
                &&& final(self).stage == InstallStage::AwaitingManifest
                &&& final(self).package_url@ == d.package_url@
                &&& final(self).checksum@ == d.checksum@
                &&& manager_unchanged(*old(manager), *final(manager))
            }),
            old(self).stage == InstallStage::AwaitingManifest && event is Manifest && !manifest_secure(
                event->Manifest_0,
            ) ==> (r matches InstallAction::Failed(StoreError::Security(_)) && final(self).stage
                == InstallStage::Done && manager_unchanged(*old(manager), *final(manager))),
            old(self).stage == InstallStage::AwaitingManifest && event is Manifest && manifest_secure(
                event->Manifest_0,
            ) ==> ({
                &&& r is DownloadPackage
                &&& r->DownloadPackage_url@ == old(self).package_url@
                &&& final(self).stage == InstallStage::AwaitingPackage
                &&& final(self).manifest == Some(event->Manifest_0)
                &&& final(self).checksum == old(self).checksum
                &&& !has_origin(*old(manager), old(self).catalog_id@) ==> r->DownloadPackage_writes@.len()
                    == 0 && manager_unchanged(*old(manager), *final(manager))
                &&& has_origin(*old(manager), old(self).catalog_id@) ==> exists|j: int|
                    0 <= j < old(manager).origins().len() && (#[trigger] old(manager).origins()[j]).0@
                        == old(self).catalog_id@ && {
                        let prior = old(manager).origins()[j].1@;
                        &&& has_ext(old(manager).loaded(), prior)
                        &&& !has_ext(final(manager).loaded(), prior)
                        &&& unload_writes(r->DownloadPackage_writes@, prior)
                        &&& final(manager).loaded() == without_ext(old(manager).loaded(), prior)
                        &&& final(manager).infos() == old(manager).infos().remove(prior)
                    }
            }),
            old(self).stage == InstallStage::AwaitingPackage && event is Package ==> ({
                let data = event->Package_0;
                &&& manager_unchanged(*old(manager), *final(manager))
                &&& eq_ignore_ascii_case_spec(checksum_of(data@), old(self).checksum@) ==> (r matches InstallAction::Unpack { package } && package@ == data@ && final(self).stage
                    == InstallStage::AwaitingUnpack && final(self).manifest == old(self).manifest)
                &&& !eq_ignore_ascii_case_spec(checksum_of(data@), old(self).checksum@) ==> (r matches InstallAction::Failed(StoreError::Security(_)) && final(self).stage
                    == InstallStage::Done)
            }),
            old(self).stage == InstallStage::AwaitingUnpack && event is Unpacked ==> ({
                let m = old(self).manifest.unwrap();
                let path = event->Unpacked_manifest_path;
                &&& final(self).stage == InstallStage::Done
                &&& r is Installed <==> manifest_valid(m)
                &&& !manifest_valid(m) ==> (r matches InstallAction::Failed(StoreError::Validation(_))
                    && manager_unchanged(*old(manager), *final(manager)))
                &&& r is Installed ==> {
                    let id = r->Installed_id@;
                    let e = final(manager).loaded().last();
                    &&& id.len() > 0
                    &&& !has_ext(old(manager).loaded(), id)
                    &&& final(manager).loaded() == old(manager).loaded().push(e)
                    &&& e.id@ == id
                    &&& e.manifest == m
                    &&& find_ext(final(manager).loaded(), id) == Some(e)
                    &&& final(manager).infos() == old(manager).infos().insert(id, final(manager).infos()[id])
                    &&& info_describes(final(manager).infos()[id], id, m)
                    &&& load_writes(r->Installed_writes@, id, m, path@)
                    &&& final(manager).origins().last().0@ == old(self).catalog_id@
                    &&& final(manager).origins().last().1@ == id
                }
            }),
    {
        proof {
            manager.lemma_consistent();
        }
        if !matches!(self.stage, InstallStage::Done) {
            if let InstallEvent::Failed(e) = event {
                return self.done(InstallAction::Failed(e));
            }
        }
        match self.stage {
            InstallStage::AwaitingDetails => {
                match event {
                    InstallEvent::Details(d) => {
                        self.package_url = d.package_url;
                        self.checksum = d.checksum;
                        self.stage = InstallStage::AwaitingManifest;
                        InstallAction::DownloadManifest { url: d.manifest_url }
                    },
                    _ => self.done(finished("unexpected step: details were awaited")),
                }
            },
            InstallStage::AwaitingManifest => {
                match event {
                    InstallEvent::Manifest(m) => {
                        let ghost mv = m;
                        match vet_downloaded_manifest(m) {
                            Err(e) => self.done(InstallAction::Failed(e)),
                            Ok(m) => {
                                let writes = match manager.installed_for_catalog(self.catalog_id.as_str()) {
                                    Some(prior) => {
                                        match manager.unload_extension(prior.as_str()) {
                                            Ok(w) => w,
                                            Err(e) => {
                                                return self.done(InstallAction::Failed(StoreError::Validation(e.message())));
                                            },
                                        }
                                    },
                                    None => Vec::new(),
                                };
                                self.manifest = Some(m);
                                self.stage = InstallStage::AwaitingPackage;
                                InstallAction::DownloadPackage { url: self.package_url.clone(), writes }
                            },
                        }
                    },
                    _ => self.done(finished("unexpected step: the manifest was awaited")),
                }
            },
            InstallStage::AwaitingPackage => {
                match event {
                    InstallEvent::Package(data) => {
                        match verify_package(data, self.checksum.as_str()) {
                            Err(e) => self.done(InstallAction::Failed(e)),
                            Ok(package) => {
                                self.stage = InstallStage::AwaitingUnpack;
                                InstallAction::Unpack { package }
                            },
                        }
                    },
                    _ => self.done(finished("unexpected step: the package was awaited")),
                }
            },
            InstallStage::AwaitingUnpack => {
                match event {
                    InstallEvent::Unpacked { manifest_path } => {
                        let m = self.manifest.take().unwrap();
                        self.stage = InstallStage::Done;
                        match manager.load_extension(m, manifest_path.as_str()) {
                            Err(e) => InstallAction::Failed(StoreError::Validation(e.message())),
                            Ok((id, writes)) => {
                                proof {
                                    assert(has_ext(manager.loaded(), id@)) by {
                                        let l = manager.loaded();
                                        assert(l[l.len() - 1].id@ == id@);
                                    }
                                }
                                manager.record_catalog_install(self.catalog_id.as_str(), id.as_str());
                                InstallAction::Installed { id, writes }
                            },
                        }
                    },
                    _ => self.done(finished("unexpected step: the unpacked package was awaited")),
                }
            },
            InstallStage::Done => self.done(finished("the install has already ended")),
        }
    }
}

} // verus!
