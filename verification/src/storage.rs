//! The storage of package files, and the snapshot that a scan of it gives.
//!
//! The storage is a directory. Reading it is left to the caller: a scan takes
//! the files as names and bytes, in the order in which the directory listed
//! them, and tells what the catalog is to hold.

use crate::app::{package_record, App, AppView};
use crate::error::Error;
use crate::text::{chars_of, comes_before, ends_with, lemma_precedes_total, lemma_precedes_transitive, precedes, same};
use vstd::prelude::*;
use vstd::string::*;

verus! {

/// The records of a scan, each under its key. No two records share a key.
#[derive(Debug)]
pub struct Apps {
    apps: Vec<App>,
}

/// A record with the key `id` is among `apps`.
pub open spec fn holds(apps: Seq<App>, id: Seq<char>) -> bool {
    exists|i: int| 0 <= i < apps.len() && (#[trigger] apps[i])@.id == id
}

/// The place of a record with the key `id` among `apps`.
pub open spec fn place(apps: Seq<App>, id: Seq<char>) -> int {
    choose|i: int| 0 <= i < apps.len() && (#[trigger] apps[i])@.id == id
}

/// No two of `apps` share a key.
pub open spec fn distinct(apps: Seq<App>) -> bool {
    forall|i: int, j: int|
        0 <= i < j < apps.len() ==> (#[trigger] apps[i])@.id != (#[trigger] apps[j])@.id
}

/// The records of `apps` by key.
pub open spec fn by_key(apps: Seq<App>) -> Map<Seq<char>, AppView> {
    Map::new(|id: Seq<char>| holds(apps, id), |id: Seq<char>| apps[place(apps, id)]@)
}

/// The place of a record in a listing: the later build first, and of two
/// records built in the same second the one whose key comes first.
pub open spec fn listed_before(a: AppView, b: AppView) -> bool {
    a.built_at.seconds > b.built_at.seconds || (a.built_at.seconds == b.built_at.seconds
        && precedes(a.id, b.id))
}

/// The records stand in the order of a listing.
pub open spec fn newest_first(list: Seq<&App>) -> bool {
    forall|a: int, b: int|
        0 <= a < b < list.len() ==> listed_before((#[trigger] list[a])@, (#[trigger] list[b])@)
}

/// Of two records with different keys one is listed before the other.
pub proof fn lemma_listed_total(a: AppView, b: AppView)
    requires
        a.id != b.id,
    ensures
        listed_before(a, b) || listed_before(b, a),
{
    lemma_precedes_total(a.id, b.id);
}

/// What is listed before a record is listed before all that the record is
/// listed before.
pub proof fn lemma_listed_transitive(a: AppView, b: AppView, c: AppView)
    requires
        listed_before(a, b),
        listed_before(b, c),
    ensures
        listed_before(a, c),
{
    if a.built_at.seconds == b.built_at.seconds && b.built_at.seconds == c.built_at.seconds {
        lemma_precedes_transitive(a.id, b.id, c.id);
    }
}

/// Every record is found under its own key, and under no other.
pub open spec fn is_keyed(records: Map<Seq<char>, AppView>) -> bool {
    forall|id: Seq<char>| #[trigger] records.contains_key(id) ==> records[id].id == id
}

/// Among records with distinct keys each is found at its own place.
pub proof fn lemma_place(apps: Seq<App>, i: int)
    requires
        distinct(apps),
        0 <= i < apps.len(),
    ensures
        holds(apps, apps[i]@.id),
        place(apps, apps[i]@.id) == i,
        by_key(apps).contains_key(apps[i]@.id),
        by_key(apps)[apps[i]@.id] == apps[i]@,
{
    let found = place(apps, apps[i]@.id);
    if found < i {
        assert(apps[found]@.id != apps[i]@.id);
    }
    if i < found {
        assert(apps[i]@.id != apps[found]@.id);
    }
}

/// Records by key are keyed.
pub proof fn lemma_by_key_is_keyed(apps: Seq<App>)
    ensures
        is_keyed(by_key(apps)),
{
}

/// The keys of `apps`, in their order.
pub open spec fn keys(apps: Seq<App>) -> Seq<Seq<char>> {
    apps.map_values(|app: App| app@.id)
}

/// Records with distinct keys are as many as their keys.
pub proof fn lemma_count(apps: Seq<App>)
    requires
        distinct(apps),
    ensures
        by_key(apps).dom().finite(),
        by_key(apps).dom().len() == apps.len(),
{
    let ids = keys(apps);
    assert(ids.no_duplicates()) by {
        assert forall|i: int, j: int| 0 <= i < ids.len() && 0 <= j < ids.len() && i != j implies ids[i]
            != ids[j] by {
            if i < j {
                assert(apps[i]@.id != apps[j]@.id);
            } else {
                assert(apps[j]@.id != apps[i]@.id);
            }
        }
    }
    assert(by_key(apps).dom() =~= ids.to_set()) by {
        assert forall|id: Seq<char>| by_key(apps).dom().contains(id) == ids.to_set().contains(
            id,
        ) by {
            if holds(apps, id) {
                let i = place(apps, id);
                assert(ids[i] == id);
            }
            if ids.contains(id) {
                let i = choose|i: int| 0 <= i < ids.len() && ids[i] == id;
                assert(apps[i]@.id == id);
            }
        }
    }
    ids.unique_seq_to_set();
    vstd::seq_lib::seq_to_set_is_finite(ids);
}

impl View for Apps {
    type V = Map<Seq<char>, AppView>;

    open spec fn view(&self) -> Map<Seq<char>, AppView> {
        by_key(self.order())
    }
}

impl Apps {
    #[verifier::type_invariant]
    spec fn keys_differ(self) -> bool {
        distinct(self.apps@)
    }

    /// The records in the order in which they were first put in.
    pub closed spec fn order(&self) -> Seq<App> {
        self.apps@
    }

    /// A snapshot without records.
    pub fn new() -> (apps: Apps)
        ensures
            apps@ == Map::<Seq<char>, AppView>::empty(),
            apps.order().len() == 0,
    {
        let apps = Apps { apps: Vec::new() };
        assert(apps@ =~= Map::<Seq<char>, AppView>::empty());
        apps
    }

    /// The number of records.
    pub fn len(&self) -> (count: usize)
        ensures
            count == self@.dom().len(),
            count == self@.len(),
            self@.dom().finite(),
    {
        proof {
            use_type_invariant(self);
            lemma_count(self.apps@);
        }
        self.apps.len()
    }

    /// The place of the record with the key `id`.
    fn position(&self, id: &str) -> (at: Option<usize>)
        ensures
            match at {
                Some(i) => i < self.apps.len() && self.apps[i as int]@.id == id@,
                None => !holds(self.apps@, id@),
            },
    {
        let mut i: usize = 0;
        while i < self.apps.len()
            invariant
                i <= self.apps.len(),
                forall|j: int| 0 <= j < i ==> (#[trigger] self.apps[j])@.id != id@,
            decreases self.apps.len() - i,
        {
            if same(self.apps[i].id(), id) {
                return Some(i);
            }
            i += 1;
        }
        None
    }

    /// The record with the key `id`.
    pub fn get(&self, id: &str) -> (found: Option<&App>)
        ensures
            match found {
                Some(app) => self@.contains_key(id@) && self@[id@] == app@ && app@.id == id@,
                None => !self@.contains_key(id@),
            },
    {
        proof {
            use_type_invariant(self);
        }
        match self.position(id) {
            Some(i) => {
                proof {
                    lemma_place(self.apps@, i as int);
                }
                Some(&self.apps[i])
            },
            None => None,
        }
    }

    /// Puts a record in under its key. A record that was there under the
    /// same key gives way: the last one put in wins.
    pub fn insert(&mut self, app: App)
        ensures
            final(self)@ == old(self)@.insert(app@.id, app@),
    {
        proof {
            use_type_invariant(&*self);
        }
        let at = self.position(app.id());
        let mut taken = Apps::new();
        std::mem::swap(self, &mut taken);
        let mut list = taken.apps;
        let ghost before = list@;
        match at {
            Some(i) => {
                proof {
                    lemma_insert_over(before, i as int, app);
                }
                list.set(i, app);
            },
            None => {
                proof {
                    lemma_insert_new(before, app);
                }
                list.push(app);
            },
        }
        *self = Apps { apps: list };
    }

    /// The records in the order of a listing: the one built last first, and
    /// of records built in the same second the one whose key comes first.
    pub fn listing(&self) -> (list: Vec<&App>)
        ensures
            newest_first(list@),
            list.len() == self.order().len(),
            forall|k: int|
                0 <= k < list.len() ==> self@.contains_key((#[trigger] list[k])@.id) && self@[list[k]@.id]
                    == list[k]@,
            forall|id: Seq<char>| #[trigger]
                self@.contains_key(id) ==> exists|k: int|
                    0 <= k < list.len() && (#[trigger] list[k])@.id == id,
            forall|a: int, b: int|
                0 <= a < b < list.len() ==> (#[trigger] list[a])@.id != (#[trigger] list[b])@.id,
    {
        proof {
            use_type_invariant(self);
        }
        let mut list: Vec<&App> = Vec::new();
        let ghost mut origin: Seq<int> = Seq::empty();
        let mut i: usize = 0;
        while i < self.apps.len()
            invariant
                i <= self.apps.len(),
                list.len() == i,
                origin.len() == i,
                distinct(self.apps@),
                newest_first(list@),
                forall|k: int|
                    0 <= k < i ==> 0 <= (#[trigger] origin[k]) < i && *list[k] == self.apps[origin[k]],
                forall|a: int, b: int|
                    0 <= a < b < i ==> (#[trigger] origin[a]) != (#[trigger] origin[b]),
                forall|j: int| 0 <= j < i ==> origin.contains(j),
            decreases self.apps.len() - i,
        {
            let app = &self.apps[i];
            let mut at: usize = 0;
            while at < list.len() && !goes_before(app, list[at])
                invariant
                    at <= list.len(),
                    forall|k: int| 0 <= k < at ==> !listed_before(app@, (#[trigger] list[k])@),
                decreases list.len() - at,
            {
                at += 1;
            }
            let ghost before = list@;
            let ghost origin_before = origin;
            list.insert(at, app);
            proof {
                origin = origin.insert(at as int, i as int);
                assert forall|a: int, b: int| 0 <= a < b < list.len() implies listed_before(
                    (#[trigger] list[a])@,
                    (#[trigger] list[b])@,
                ) by {
                    let pa = if a < at { a } else { a - 1 };
                    let pb = if b < at { b } else { b - 1 };
                    if a != at && b != at {
                        assert(list[a] == before[pa] && list[b] == before[pb]);
                    } else if b == at {
                        assert(list[a] == before[pa]);
                        assert(*before[pa] == self.apps[origin_before[pa]]);
                        assert(self.apps[origin_before[pa]]@.id != self.apps[i as int]@.id);
                        lemma_listed_total(app@, before[pa]@);
                    } else {
                        assert(list[b] == before[pb]);
                        if pb > at {
                            lemma_listed_transitive(app@, before[at as int]@, before[pb]@);
                        }
                    }
                }
                assert forall|k: int| 0 <= k < i + 1 implies 0 <= (#[trigger] origin[k]) < i + 1
                    && *list[k] == self.apps[origin[k]] by {
                    if k < at {
                        assert(origin[k] == origin_before[k] && list[k] == before[k]);
                    } else if k > at {
                        assert(origin[k] == origin_before[k - 1] && list[k] == before[k - 1]);
                    }
                }
                assert forall|a: int, b: int| 0 <= a < b < i + 1 implies (#[trigger] origin[a]) != (
                #[trigger] origin[b]) by {
                    let pa = if a < at { a } else { a - 1 };
                    let pb = if b < at { b } else { b - 1 };
                    if a != at && b != at {
                        assert(origin[a] == origin_before[pa] && origin[b] == origin_before[pb]);
                    } else if a == at {
                        assert(origin[b] == origin_before[pb]);
                    } else {
                        assert(origin[a] == origin_before[pa]);
                    }
                }
                assert forall|j: int| 0 <= j < i + 1 implies origin.contains(j) by {
                    if j < i {
                        assert(origin_before.contains(j));
                        let k = choose|k: int| 0 <= k < origin_before.len() && origin_before[k] == j;
                        if k < at {
                            assert(origin[k] == j);
                        } else {
                            assert(origin[k + 1] == j);
                        }
                    } else {
                        assert(origin[at as int] == j);
                    }
                }
            }
            i += 1;
        }
        proof {
            assert forall|k: int| 0 <= k < list.len() implies self@.contains_key(
                (#[trigger] list[k])@.id,
            ) && self@[list[k]@.id] == list[k]@ by {
                lemma_place(self.apps@, origin[k]);
            }
            assert forall|id: Seq<char>| #[trigger] self@.contains_key(id) implies exists|k: int|
                0 <= k < list.len() && (#[trigger] list[k])@.id == id by {
                let j = place(self.apps@, id);
                assert(origin.contains(j));
                let k = choose|k: int| 0 <= k < origin.len() && origin[k] == j;
                assert(list[k]@.id == id);
            }
            assert forall|a: int, b: int| 0 <= a < b < list.len() implies (#[trigger] list[a])@.id != (
            #[trigger] list[b])@.id by {
                let ja = origin[a];
                let jb = origin[b];
                if ja < jb {
                    assert(self.apps[ja]@.id != self.apps[jb]@.id);
                } else {
                    assert(self.apps[jb]@.id != self.apps[ja]@.id);
                }
            }
        }
        list
    }
}

/// Whether `a` is listed before `b`.
fn goes_before(a: &App, b: &App) -> (before: bool)
    ensures
        before == listed_before(a@, b@),
{
    let left = a.date().seconds;
    let right = b.date().seconds;
    if left != right {
        left > right
    } else {
        let first = chars_of(a.id());
        let second = chars_of(b.id());
        comes_before(first.as_slice(), second.as_slice())
    }
}

/// Replacing the record at a place by one with the same key is an insertion
/// under that key.
proof fn lemma_insert_over(apps: Seq<App>, at: int, app: App)
    requires
        distinct(apps),
        0 <= at < apps.len(),
        apps[at]@.id == app@.id,
    ensures
        distinct(apps.update(at, app)),
        by_key(apps.update(at, app)) == by_key(apps).insert(app@.id, app@),
{
    let after = apps.update(at, app);
    assert(distinct(after)) by {
        assert forall|a: int, b: int| 0 <= a < b < after.len() implies (#[trigger] after[a])@.id != (
        #[trigger] after[b])@.id by {
            assert(apps[a]@.id != apps[b]@.id);
        }
    }
    assert forall|id: Seq<char>| by_key(after).contains_key(id) == by_key(apps).insert(
        app@.id,
        app@,
    ).contains_key(id) by {
        if holds(after, id) {
            let i = place(after, id);
            assert(apps[i]@.id == id);
        }
        if holds(apps, id) {
            let i = place(apps, id);
            assert(after[i]@.id == id);
        }
        if id == app@.id {
            assert(after[at]@.id == id);
        }
    }
    assert forall|id: Seq<char>| by_key(after).contains_key(id) implies by_key(after)[id]
        == by_key(apps).insert(app@.id, app@)[id] by {
        let i = place(after, id);
        lemma_place(after, i);
        if i != at {
            assert(apps[i]@.id == id);
            lemma_place(apps, i);
        }
    }
    assert(by_key(after) =~= by_key(apps).insert(app@.id, app@));
}

/// Adding a record with a key that is not there is an insertion under that
/// key.
proof fn lemma_insert_new(apps: Seq<App>, app: App)
    requires
        distinct(apps),
        !holds(apps, app@.id),
    ensures
        distinct(apps.push(app)),
        by_key(apps.push(app)) == by_key(apps).insert(app@.id, app@),
{
    let after = apps.push(app);
    assert(distinct(after)) by {
        assert forall|a: int, b: int| 0 <= a < b < after.len() implies (#[trigger] after[a])@.id != (
        #[trigger] after[b])@.id by {
            if b < apps.len() {
                assert(apps[a]@.id != apps[b]@.id);
            } else {
                assert(apps[a]@.id != app@.id);
            }
        }
    }
    assert forall|id: Seq<char>| by_key(after).contains_key(id) == by_key(apps).insert(
        app@.id,
        app@,
    ).contains_key(id) by {
        if holds(after, id) {
            let i = place(after, id);
            if i < apps.len() {
                assert(apps[i]@.id == id);
            }
        }
        if holds(apps, id) {
            let i = place(apps, id);
            assert(after[i]@.id == id);
        }
        if id == app@.id {
            assert(after[apps.len() as int]@.id == id);
        }
    }
    assert forall|id: Seq<char>| by_key(after).contains_key(id) implies by_key(after)[id]
        == by_key(apps).insert(app@.id, app@)[id] by {
        let i = place(after, id);
        lemma_place(after, i);
        if i < apps.len() {
            assert(apps[i]@.id == id);
            lemma_place(apps, i);
        }
    }
    assert(by_key(after) =~= by_key(apps).insert(app@.id, app@));
}

/// A file of the storage, as the caller has read it.
#[derive(Debug)]
pub struct StoredFile {
    /// The name of the file, without the directory.
    pub name: String,
    /// All bytes of the file.
    pub bytes: Vec<u8>,
}

/// What a stored file holds.
pub ghost struct FileView {
    pub name: Seq<char>,
    pub bytes: Seq<u8>,
}

impl View for StoredFile {
    type V = FileView;

    open spec fn view(&self) -> FileView {
        FileView { name: self.name@, bytes: self.bytes@ }
    }
}

/// What a list of stored files holds, in the same order.
pub open spec fn views(files: Seq<StoredFile>) -> Seq<FileView> {
    files.map_values(|file: StoredFile| file@)
}

/// The ending of a package file's name.
pub open spec fn package_suffix() -> Seq<char> {
    ".ipa"@
}

/// A file of that name counts as a package.
pub open spec fn is_package_name(name: Seq<char>) -> bool {
    package_suffix().is_suffix_of(name)
}

/// The records after one more file has been looked at: a file that is no
/// package by its name changes nothing, nor does a package whose inspection
/// fails; the record of any other package goes in under its key, in place of
/// an earlier one.
pub open spec fn admitted(records: Map<Seq<char>, AppView>, file: FileView, timezone: int) -> Map<
    Seq<char>,
    AppView,
> {
    if is_package_name(file.name) {
        match package_record(file.name, file.bytes, timezone) {
            Ok(app) => records.insert(app.id, app),
            Err(_) => records,
        }
    } else {
        records
    }
}

/// The records that a scan of these files gives, the files looked at in
/// their order.
pub open spec fn scanned(files: Seq<FileView>, timezone: int) -> Map<Seq<char>, AppView>
    decreases files.len(),
{
    if files.len() == 0 {
        Map::empty()
    } else {
        admitted(scanned(files.drop_last(), timezone), files.last(), timezone)
    }
}

/// What a scan gives for a listing of the storage: `StorageUnavailable`
/// where the storage could not be listed, else the records of the files.
pub open spec fn scan_outcome(listing: Option<Seq<FileView>>, timezone: int) -> Result<
    Map<Seq<char>, AppView>,
    Error,
> {
    match listing {
        Some(files) => Ok(scanned(files, timezone)),
        None => Err(Error::StorageUnavailable),
    }
}

/// Where the package files are kept, and at which offset their recorded
/// times are read.
#[derive(Debug)]
pub struct AppsStorage {
    path: String,
    timezone: i32,
}

impl AppsStorage {
    /// The path of the storage root.
    pub closed spec fn root(&self) -> Seq<char> {
        self.path@
    }

    /// The configured offset from UTC, in hours.
    pub closed spec fn offset(&self) -> int {
        self.timezone as int
    }

    /// A storage at `path` whose packages were built `timezone` hours east
    /// of UTC.
    pub fn new(path: String, timezone: i32) -> (storage: AppsStorage)
        ensures
            storage.root() == path@,
            storage.offset() == timezone,
    {
        AppsStorage { path, timezone }
    }

    /// The path of the storage root.
    pub fn path(&self) -> (path: &str)
        ensures
            path@ == self.root(),
    {
        self.path.as_str()
    }

    /// The configured offset from UTC, in hours.
    pub fn timezone(&self) -> (timezone: i32)
        ensures
            timezone == self.offset(),
    {
        self.timezone
    }

    /// Whether a file of that name is looked at by a scan.
    pub fn accepts(name: &str) -> (accepted: bool)
        ensures
            accepted == is_package_name(name@),
    {
        let chars = chars_of(name);
        let suffix = chars_of(".ipa");
        ends_with(chars.as_slice(), suffix.as_slice())
    }

    /// Looks at one file of the storage and puts its record among `apps`, if
    /// it is a package that can be inspected.
    pub fn take_in(&self, apps: &mut Apps, file: StoredFile)
        ensures
            final(apps)@ == admitted(old(apps)@, file@, self.offset()),
    {
        if AppsStorage::accepts(file.name.as_str()) {
            match App::new(file.name.as_str(), file.bytes, self.timezone) {
                Ok(app) => {
                    apps.insert(app);
                },
                Err(_) => {},
            }
        }
    }

    /// Scans the storage, given its listing: `None` where the storage could
    /// not be listed, else its files in the order of the listing. A package
    /// that cannot be inspected is left out and does not fail the scan.
    pub fn find_apps(&self, listing: Option<Vec<StoredFile>>) -> (found: Result<Apps, Error>)
        ensures
            match found {
                Ok(apps) => listing matches Some(files) && apps@ == scanned(
                    views(files@),
                    self.offset(),
                ),
                Err(e) => listing is None && e == Error::StorageUnavailable,
            },
    {
        let files = match listing {
            Some(files) => files,
            None => { return Err(Error::StorageUnavailable); },
        };
        let ghost all = views(files@);
        let mut apps = Apps::new();
        assert(all.take(0) =~= Seq::<FileView>::empty());
        for file in it: files
            invariant
                all == views(it.seq()),
                apps@ == scanned(all.take(it.index() as int), self.offset()),
        {
            proof {
                let next = all.take(it.index() + 1);
                assert(next.drop_last() =~= all.take(it.index() as int));
                assert(next.last() == file@);
            }
            self.take_in(&mut apps, file);
        }
        assert(all.take(all.len() as int) =~= all);
        Ok(apps)
    }
}

/// Every record of a scan is found under the base name of a package file
/// that was scanned.
pub proof fn lemma_scanned_is_keyed(files: Seq<FileView>, timezone: int)
    ensures
        is_keyed(scanned(files, timezone)),
        forall|id: Seq<char>| #[trigger]
            scanned(files, timezone).contains_key(id) ==> exists|i: int|
                0 <= i < files.len() && is_package_name(files[i].name) && id == crate::app::stem(
                    (#[trigger] files[i]).name,
                ),
    decreases files.len(),
{
    if files.len() > 0 {
        let rest = files.drop_last();
        lemma_scanned_is_keyed(rest, timezone);
        crate::app::lemma_record_is_keyed(files.last().name, files.last().bytes, timezone);
        assert forall|id: Seq<char>| #[trigger]
            scanned(files, timezone).contains_key(id) implies exists|i: int|
            0 <= i < files.len() && is_package_name(files[i].name) && id == crate::app::stem(
                (#[trigger] files[i]).name,
            ) by {
            if scanned(rest, timezone).contains_key(id) {
                let i = choose|i: int|
                    0 <= i < rest.len() && is_package_name(rest[i].name) && id == crate::app::stem(
                        (#[trigger] rest[i]).name,
                    );
                assert(files[i] == rest[i]);
            } else {
                assert(files[files.len() - 1] == files.last());
            }
        }
    }
}

/// A package that cannot be inspected changes nothing, wherever it stands
/// among the files: the scan succeeds, and its records are those of the
/// scan without that file.
pub proof fn lemma_failure_contained(files: Seq<FileView>, at: int, timezone: int)
    requires
        0 <= at < files.len(),
        package_record(files[at].name, files[at].bytes, timezone) is Err,
    ensures
        scan_outcome(Some(files), timezone) is Ok,
        scanned(files, timezone) == scanned(files.remove(at), timezone),
    decreases files.len(),
{
    if at == files.len() - 1 {
        assert(files.remove(at) =~= files.drop_last());
    } else {
        lemma_failure_contained(files.drop_last(), at, timezone);
        assert(files.remove(at).drop_last() =~= files.drop_last().remove(at));
        assert(files.remove(at).last() == files.last());
    }
}

/// A package that can be inspected is among the records of a scan that
/// looks at it last, under the base name of its file.
pub proof fn lemma_success_recorded(files: Seq<FileView>, sound: FileView, timezone: int)
    requires
        is_package_name(sound.name),
        package_record(sound.name, sound.bytes, timezone) is Ok,
    ensures
        scanned(files.push(sound), timezone).contains_key(crate::app::stem(sound.name)),
        scanned(files.push(sound), timezone)[crate::app::stem(sound.name)] == package_record(
            sound.name,
            sound.bytes,
            timezone,
        )->Ok_0,
{
    assert(files.push(sound).drop_last() =~= files);
    crate::app::lemma_record_is_keyed(sound.name, sound.bytes, timezone);
}

} // verus!
