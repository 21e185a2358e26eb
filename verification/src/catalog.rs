//! The catalog: the records that are shown, replaced as a whole by every
//! scan that succeeds.
//!
//! A catalog is empty until the first scan succeeds and loaded from then on.
//! A scan that fails changes nothing, so that a reader never sees a catalog
//! emptied by a failure.

use crate::app::{manifest_values, App, AppView};
use crate::error::Error;
use crate::manifest::{layout_filled, template_parts};
use crate::request::{chosen_host, request_host, Header};
use crate::storage::{is_keyed, newest_first, scan_outcome, scanned, Apps, FileView};
use vstd::prelude::*;
use vstd::string::*;

verus! {

/// The records that are shown.
#[derive(Debug)]
pub struct Catalog {
    loaded: bool,
    apps: Apps,
}

/// What a catalog holds.
pub ghost struct CatalogView {
    /// Whether a scan has succeeded yet.
    pub loaded: bool,
    /// The records by key.
    pub apps: Map<Seq<char>, AppView>,
}

/// The catalog before any scan.
pub open spec fn empty_catalog() -> CatalogView {
    CatalogView { loaded: false, apps: Map::empty() }
}

/// The catalog after a scan with the given outcome: the records of a scan
/// that succeeded, in place of all that was there; what was there, where the
/// scan failed.
pub open spec fn reloaded(prior: CatalogView, outcome: Result<Map<Seq<char>, AppView>, Error>) -> CatalogView {
    match outcome {
        Ok(apps) => CatalogView { loaded: true, apps },
        Err(_) => prior,
    }
}

/// The outcome of a scan, as far as the records go.
pub open spec fn outcome_of(scan: Result<Apps, Error>) -> Result<Map<Seq<char>, AppView>, Error> {
    match scan {
        Ok(apps) => Ok(apps@),
        Err(e) => Err(e),
    }
}

/// The answer to a request for the manifest of the package `id`: an unknown
/// package is `InvalidApp`, whatever the headers say; a known package
/// without a usable host is `HostHeader`; else the built-in template with
/// the values of the record and the host in the places of its markers.
pub open spec fn manifest_for(
    apps: Map<Seq<char>, AppView>,
    id: Seq<char>,
    forwarded: Header,
    host: Header,
) -> Result<Seq<char>, Error> {
    if apps.contains_key(id) {
        match chosen_host(forwarded, host) {
            Ok(name) => Ok(layout_filled(template_parts(), manifest_values(apps[id], name))),
            Err(e) => Err(e),
        }
    } else {
        Err(Error::InvalidApp)
    }
}

impl View for Catalog {
    type V = CatalogView;

    closed spec fn view(&self) -> CatalogView {
        CatalogView { loaded: self.loaded, apps: self.apps@ }
    }
}

impl Catalog {
    /// The catalog before any scan: empty.
    pub fn new() -> (catalog: Catalog)
        ensures
            catalog@ == empty_catalog(),
    {
        Catalog { loaded: false, apps: Apps::new() }
    }

    /// Takes the outcome of a scan. The records of a scan that succeeded
    /// replace all that was there, in one step. A scan that failed leaves
    /// the catalog as it was, and its error is handed back.
    pub fn reload(&mut self, scan: Result<Apps, Error>) -> (done: Result<(), Error>)
        ensures
            final(self)@ == reloaded(old(self)@, outcome_of(scan)),
            match scan {
                Ok(apps) => done is Ok && final(self)@.loaded && final(self)@.apps == apps@,
                Err(e) => done == Err::<(), Error>(e) && final(self)@ == old(self)@,
            },
    {
        match scan {
            Ok(apps) => {
                *self = Catalog { loaded: true, apps };
                Ok(())
            },
            Err(e) => Err(e),
        }
    }

    /// Whether a scan has succeeded yet.
    pub fn is_loaded(&self) -> (loaded: bool)
        ensures
            loaded == self@.loaded,
    {
        self.loaded
    }

    /// The number of records.
    pub fn len(&self) -> (count: usize)
        ensures
            count == self@.apps.len(),
            self@.apps.dom().finite(),
    {
        self.apps.len()
    }

    /// The record of the package `id`.
    pub fn get(&self, id: &str) -> (found: Result<&App, Error>)
        ensures
            match found {
                Ok(app) => self@.apps.contains_key(id@) && self@.apps[id@] == app@ && app@.id == id@,
                Err(e) => e == Error::InvalidApp && !self@.apps.contains_key(id@),
            },
    {
        match self.apps.get(id) {
            Some(app) => Ok(app),
            None => Err(Error::InvalidApp),
        }
    }

    /// All records, each once, the one built last first, and of records
    /// built in the same second the one whose key comes first.
    pub fn list(&self) -> (list: Vec<&App>)
        ensures
            newest_first(list@),
            forall|k: int|
                0 <= k < list.len() ==> self@.apps.contains_key((#[trigger] list[k])@.id)
                    && self@.apps[list[k]@.id] == list[k]@,
            forall|id: Seq<char>| #[trigger]
                self@.apps.contains_key(id) ==> exists|k: int|
                    0 <= k < list.len() && (#[trigger] list[k])@.id == id,
            forall|a: int, b: int|
                0 <= a < b < list.len() ==> (#[trigger] list[a])@.id != (#[trigger] list[b])@.id,
    {
        self.apps.listing()
    }

    /// The manifest of the package `id` for a request with these two host
    /// headers: the one that a proxy sets, and the one of the request itself.
    pub fn manifest(&self, id: &str, forwarded: &Header, host: &Header) -> (answer: Result<
        String,
        Error,
    >)
        ensures
            match answer {
                Ok(document) => manifest_for(self@.apps, id@, *forwarded, *host) == Ok::<
                    Seq<char>,
                    Error,
                >(document@),
                Err(e) => manifest_for(self@.apps, id@, *forwarded, *host) == Err::<
                    Seq<char>,
                    Error,
                >(e),
            },
    {
        let app = match self.get(id) {
            Ok(app) => app,
            Err(e) => { return Err(e); },
        };
        match request_host(forwarded, host) {
            Ok(name) => Ok(app.manifest(name)),
            Err(e) => Err(e),
        }
    }
}

/// A scan that fails leaves the catalog as it was.
pub proof fn lemma_failed_reload_keeps(prior: CatalogView, error: Error)
    ensures
        reloaded(prior, Err(error)) == prior,
        forall|timezone: int| reloaded(prior, #[trigger] scan_outcome(None, timezone)) == prior,
{
}

/// A catalog is loaded after the first scan that succeeds, and stays so.
pub proof fn lemma_loaded_stays(prior: CatalogView, outcome: Result<Map<Seq<char>, AppView>, Error>)
    ensures
        outcome is Ok ==> reloaded(prior, outcome).loaded,
        prior.loaded ==> reloaded(prior, outcome).loaded,
{
}

/// Scanning a storage that has not changed a second time gives the catalog
/// of the first scan again, key by key and field by field, and that catalog
/// does not depend on what was held before.
pub proof fn lemma_reload_repeats(
    prior: CatalogView,
    other: CatalogView,
    files: Seq<FileView>,
    timezone: int,
)
    ensures
        reloaded(reloaded(prior, scan_outcome(Some(files), timezone)), scan_outcome(Some(files), timezone))
            == reloaded(prior, scan_outcome(Some(files), timezone)),
        reloaded(prior, scan_outcome(Some(files), timezone)) == reloaded(
            other,
            scan_outcome(Some(files), timezone),
        ),
        reloaded(prior, scan_outcome(Some(files), timezone)).apps == scanned(files, timezone),
{
}

/// Every record of a catalog that was only ever loaded from scans stands
/// under its own key.
pub proof fn lemma_reloaded_is_keyed(prior: CatalogView, files: Seq<FileView>, timezone: int)
    ensures
        is_keyed(reloaded(prior, scan_outcome(Some(files), timezone)).apps),
{
    crate::storage::lemma_scanned_is_keyed(files, timezone);
}

} // verus!
