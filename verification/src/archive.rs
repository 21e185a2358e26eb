//! The compressed container of a package: what it holds, and where the
//! application bundle lies in it.
//!
//! The container is read by the `zip` crate. What the crate reports of an
//! archive is modelled by a [`Package`]; the declarations at the head of this
//! file state, without proof, how the crate's calls relate to that model.

use crate::error::Error;
use crate::text::{chars_of, comes_before, ends_with, lemma_precedes_total, lemma_precedes_transitive, precedes, starts_with};
use std::io::Cursor;
use vstd::prelude::*;
use zip::read::ZipFile;
use zip::result::ZipError;
use zip::ZipArchive;

verus! {

/// The date and time that a container records for an entry: calendar fields
/// as they are stored, with a resolution of one second and without an offset.
/// Nothing says that the fields name a day that exists.
#[derive(Clone, Copy, Debug, PartialEq, Eq, Structural)]
pub struct Stamp {
    pub year: u16,
    pub month: u8,
    pub day: u8,
    pub hour: u8,
    pub minute: u8,
    pub second: u8,
}

/// One entry of a container that can be opened.
pub ghost struct Entry {
    /// When the entry was last modified, as recorded.
    pub modified: Stamp,
    /// The entry's bytes after decompression, or `None` where they cannot be
    /// read to the end (damaged data, a checksum that does not match).
    pub payload: Option<Seq<u8>>,
}

/// What a container holds.
pub ghost struct Package {
    /// The names of all entries that the container's directory lists.
    pub names: Set<Seq<char>>,
    /// The entries that can be opened, by name.
    pub entries: Map<Seq<char>, Entry>,
}

/// A container that lies in memory.
pub type Container = ZipArchive<Cursor<Vec<u8>>>;

/// `zip::ZipArchive`, an archive over a reader. Nothing inside it is seen
/// here.
#[verifier::external_type_specification]
#[verifier::external_body]
#[verifier::reject_recursive_types(R)]
pub struct ExZipArchive<R>(ZipArchive<R>);

/// `std::io::Cursor`, the reader over bytes in memory from which an archive
/// is read.
#[verifier::external_type_specification]
#[verifier::external_body]
#[verifier::reject_recursive_types(T)]
pub struct ExCursor<T>(Cursor<T>);

/// `zip::read::ZipFile`, an open entry of an archive.
#[verifier::external_type_specification]
#[verifier::external_body]
pub struct ExZipFile<'a>(ZipFile<'a>);

/// `zip::result::ZipError`, the crate's error. It is never looked into.
#[verifier::external_type_specification]
#[verifier::external_body]
pub struct ExZipError(ZipError);

/// What `zip::ZipArchive::new` makes of the bytes of a file: the package they
/// hold, or `None` where they are no archive that the crate can read.
pub uninterp spec fn container_of(bytes: Seq<u8>) -> Option<Package>;

/// The names that an archive's directory lists: the keys under which
/// `zip::ZipArchive` finds its entries.
pub uninterp spec fn archive_names(archive: ZipArchive<Cursor<Vec<u8>>>) -> Set<Seq<char>>;

/// The entries of an archive that `zip::ZipArchive::by_name_decrypt` opens
/// without a password, by name.
pub uninterp spec fn archive_entries(archive: ZipArchive<Cursor<Vec<u8>>>) -> Map<Seq<char>, Entry>;

/// The entry that an open `zip::read::ZipFile` stands for.
pub uninterp spec fn file_entry(file: ZipFile<'_>) -> Entry;

/// The package that an archive holds.
pub open spec fn package_of(archive: Container) -> Package {
    Package { names: archive_names(archive), entries: archive_entries(archive) }
}

/// Every entry of the package that can be opened is listed under its name.
pub open spec fn is_listed(package: Package) -> bool {
    package.entries.dom().subset_of(package.names)
}

/// The texts of a list of strings, in the same order.
pub open spec fn texts(names: Seq<String>) -> Seq<Seq<char>> {
    names.map_values(|name: String| name@)
}

/// Calls `zip::ZipArchive::new` on the bytes. The crate reads the archive's
/// directory from them; the call succeeds exactly where `container_of` is
/// defined, and the archive then holds that package. The crate finds an
/// entry through its name table only, so every entry that can be opened is
/// listed.
#[verifier::external_body]
fn open_container(bytes: Vec<u8>) -> (opened: Result<ZipArchive<Cursor<Vec<u8>>>, ZipError>)
    ensures
        match opened {
            Ok(archive) => container_of(bytes@) == Some(
                Package { names: archive_names(archive), entries: archive_entries(archive) },
            ) && archive_entries(archive).dom().subset_of(archive_names(archive)),
            Err(_) => container_of(bytes@) is None,
        },
{
    ZipArchive::new(Cursor::new(bytes))
}

/// Calls `zip::ZipArchive::file_names` and copies each name. The crate walks
/// the keys of its name table, each once, in no order that it promises: the
/// names come as a list that holds exactly the listed names.
#[verifier::external_body]
fn entry_names(archive: &ZipArchive<Cursor<Vec<u8>>>) -> (names: Vec<String>)
    ensures
        texts(names@).to_set() == archive_names(*archive),
{
    archive.file_names().map(|name| name.to_owned()).collect()
}

/// Calls `zip::ZipArchive::by_name_decrypt` with an empty password, which,
/// unlike `by_name`, hands back its refusal as a value where an entry cannot
/// be read without a password. An entry is handed out exactly where the
/// archive has one of that name that opens this way, and such an entry is
/// always listed; what the archive holds stays as it was.
#[verifier::external_body]
fn open_entry<'a>(archive: &'a mut ZipArchive<Cursor<Vec<u8>>>, name: &str) -> (opened: Option<
    ZipFile<'a>,
>)
    ensures
        archive_names(*final(archive)) == archive_names(*old(archive)),
        archive_entries(*final(archive)) == archive_entries(*old(archive)),
        match opened {
            Some(file) => archive_names(*old(archive)).contains(name@) && archive_entries(
                *old(archive),
            ).contains_key(name@) && file_entry(file) == archive_entries(*old(archive))[name@],
            None => !archive_entries(*old(archive)).contains_key(name@),
        },
{
    match archive.by_name_decrypt(name, &[]) {
        Ok(Ok(file)) => Some(file),
        _ => None,
    }
}

/// Calls `zip::read::ZipFile::last_modified` and copies the six fields of
/// the crate's `DateTime`.
#[verifier::external_body]
fn entry_stamp(file: &ZipFile<'_>) -> (stamp: Stamp)
    ensures
        stamp == file_entry(*file).modified,
{
    let at = file.last_modified();
    Stamp {
        year: at.year(),
        month: at.month(),
        day: at.day(),
        hour: at.hour(),
        minute: at.minute(),
        second: at.second(),
    }
}

/// Calls `std::io::Read::read_to_end` on a freshly opened
/// `zip::read::ZipFile`, which decompresses the entry and checks its
/// checksum at the end.
#[verifier::external_body]
fn entry_bytes(file: ZipFile<'_>) -> (bytes: Option<Vec<u8>>)
    ensures
        match bytes {
            Some(read) => file_entry(file).payload == Some(read@),
            None => file_entry(file).payload is None,
        },
{
    let mut file = file;
    let mut read = Vec::new();
    match std::io::Read::read_to_end(&mut file, &mut read) {
        Ok(_) => Some(read),
        Err(_) => None,
    }
}

/// The top-level folder under which a package keeps its bundle.
pub open spec fn payload_dir() -> Seq<char> {
    "Payload/"@
}

/// The ending of a bundle directory's name, with the separator that marks a
/// directory entry.
pub open spec fn bundle_suffix() -> Seq<char> {
    ".app/"@
}

/// `name` is the path of a bundle root: a directory entry that lies directly
/// under the payload folder and whose name is a non-empty base name followed
/// by the bundle extension.
pub open spec fn is_bundle_root(name: Seq<char>) -> bool {
    &&& name.len() > payload_dir().len() + bundle_suffix().len()
    &&& payload_dir().is_prefix_of(name)
    &&& bundle_suffix().is_suffix_of(name)
    &&& forall|i: int| payload_dir().len() <= i < name.len() - 1 ==> name[i] != '/'
}

/// `root` is among `names`, is a bundle root, and no bundle root among
/// `names` comes before it.
pub open spec fn is_least_root(names: Set<Seq<char>>, root: Seq<char>) -> bool {
    &&& names.contains(root)
    &&& is_bundle_root(root)
    &&& forall|other: Seq<char>|
        names.contains(other) && is_bundle_root(other) ==> !precedes(other, root)
}

/// The bundle root of a container with these names: of the names that are
/// bundle roots the first in lexicographic order, whatever order the
/// container lists them in.
pub open spec fn bundle_root(names: Set<Seq<char>>) -> Option<Seq<char>> {
    if exists|root: Seq<char>| is_least_root(names, root) {
        Some(choose|root: Seq<char>| is_least_root(names, root))
    } else {
        None
    }
}

/// A set of names has at most one least bundle root.
pub proof fn lemma_least_root_unique(names: Set<Seq<char>>, a: Seq<char>, b: Seq<char>)
    requires
        is_least_root(names, a),
        is_least_root(names, b),
    ensures
        a == b,
{
    lemma_precedes_total(a, b);
}

/// A least bundle root is the bundle root.
pub proof fn lemma_least_root_is_bundle_root(names: Set<Seq<char>>, root: Seq<char>)
    requires
        is_least_root(names, root),
    ensures
        bundle_root(names) == Some(root),
{
    let chosen = choose|r: Seq<char>| is_least_root(names, r);
    lemma_least_root_unique(names, chosen, root);
}

/// Names without a bundle root have no bundle root.
pub proof fn lemma_no_root(names: Set<Seq<char>>)
    requires
        forall|name: Seq<char>| names.contains(name) ==> !is_bundle_root(name),
    ensures
        bundle_root(names) is None,
{
}

/// Whether `name` is the path of a bundle root.
pub fn names_bundle_root(name: &[char]) -> (is_root: bool)
    ensures
        is_root == is_bundle_root(name@),
{
    let prefix = chars_of("Payload/");
    let suffix = chars_of(".app/");
    proof {
        reveal_strlit("Payload/");
        reveal_strlit(".app/");
    }
    if name.len() <= prefix.len() + suffix.len() {
        return false;
    }
    if !starts_with(name, prefix.as_slice()) || !ends_with(name, suffix.as_slice()) {
        return false;
    }
    let mut i: usize = prefix.len();
    while i < name.len() - 1
        invariant
            prefix@ == payload_dir(),
            prefix.len() <= i <= name.len() - 1,
            forall|j: int| prefix.len() <= j < i ==> name@[j] != '/',
        decreases name.len() - i,
    {
        if name[i] == '/' {
            return false;
        }
        i += 1;
    }
    true
}

/// Picks the bundle root from the names of a container's entries.
pub fn pick_bundle_root(names: &Vec<String>) -> (root: Option<String>)
    ensures
        match root {
            Some(found) => is_least_root(texts(names@).to_set(), found@),
            None => forall|i: int| 0 <= i < names.len() ==> !is_bundle_root(#[trigger] names[i]@),
        },
        root is Some <==> exists|i: int| 0 <= i < names.len() && is_bundle_root(#[trigger] names[i]@),
        (match root {
            Some(found) => Some(found@),
            None => None,
        }) == bundle_root(texts(names@).to_set()),
{
    let ghost all = texts(names@);
    let mut best: Option<usize> = None;
    let mut best_chars: Vec<char> = Vec::new();
    let mut i: usize = 0;
    while i < names.len()
        invariant
            i <= names.len(),
            all == texts(names@),
            match best {
                Some(b) => {
                    &&& b < i
                    &&& best_chars@ == names[b as int]@
                    &&& is_bundle_root(names[b as int]@)
                    &&& forall|j: int|
                        0 <= j < i && is_bundle_root(#[trigger] names[j]@) ==> !precedes(
                            names[j]@,
                            names[b as int]@,
                        )
                },
                None => forall|j: int| 0 <= j < i ==> !is_bundle_root(#[trigger] names[j]@),
            },
        decreases names.len() - i,
    {
        let candidate = chars_of(names[i].as_str());
        if names_bundle_root(candidate.as_slice()) {
            let better = match best {
                Some(_) => comes_before(candidate.as_slice(), best_chars.as_slice()),
                None => true,
            };
            if better {
                proof {
                    if let Some(b) = best {
                        assert forall|j: int|
                            0 <= j < i + 1 && is_bundle_root(#[trigger] names[j]@) implies !precedes(
                            names[j]@,
                            names[i as int]@,
                        ) by {
                            if j < i && precedes(names[j]@, names[i as int]@) {
                                lemma_precedes_transitive(
                                    names[j]@,
                                    names[i as int]@,
                                    names[b as int]@,
                                );
                            }
                            if j == i {
                                crate::text::lemma_precedes_irreflexive(names[i as int]@);
                            }
                        }
                    } else {
                        crate::text::lemma_precedes_irreflexive(names[i as int]@);
                    }
                }
                best = Some(i);
                best_chars = candidate;
            }
        }
        i += 1;
    }
    match best {
        Some(b) => {
            let found = names[b].clone();
            proof {
                assert(all[b as int] == names[b as int]@);
                assert(all.to_set().contains(found@));
                assert forall|other: Seq<char>|
                    all.to_set().contains(other) && is_bundle_root(other) implies !precedes(
                    other,
                    found@,
                ) by {
                    let j = choose|j: int| 0 <= j < all.len() && all[j] == other;
                    assert(names[j]@ == other);
                }
                lemma_least_root_is_bundle_root(all.to_set(), found@);
            }
            Some(found)
        },
        None => {
            proof {
                assert forall|name: Seq<char>| all.to_set().contains(name) implies !is_bundle_root(
                    name,
                ) by {
                    let j = choose|j: int| 0 <= j < all.len() && all[j] == name;
                    assert(names[j]@ == name);
                }
                lemma_no_root(all.to_set());
            }
            None
        },
    }
}

/// Opens the container that the bytes of a package file hold.
pub fn open(bytes: Vec<u8>) -> (opened: Result<Container, Error>)
    ensures
        match opened {
            Ok(archive) => container_of(bytes@) == Some(package_of(archive)) && is_listed(
                package_of(archive),
            ),
            Err(e) => e == Error::PackageMalformed && container_of(bytes@) is None,
        },
{
    match open_container(bytes) {
        Ok(archive) => Ok(archive),
        Err(_) => Err(Error::PackageMalformed),
    }
}

/// Finds the bundle root of a container: all entries are looked at, and
/// where several are bundle roots the first in lexicographic order wins.
/// Fails with `PackageMalformed` exactly where no entry is a bundle root.
pub fn find_app_dir(archive: &Container) -> (found: Result<String, Error>)
    ensures
        match found {
            Ok(root) => bundle_root(package_of(*archive).names) == Some(root@) && is_least_root(
                package_of(*archive).names,
                root@,
            ),
            Err(e) => e == Error::PackageMalformed && bundle_root(package_of(*archive).names)
                is None,
        },
        found is Err <==> forall|name: Seq<char>| #[trigger]
            package_of(*archive).names.contains(name) ==> !is_bundle_root(name),
{
    let names = entry_names(archive);
    let root = pick_bundle_root(&names);
    proof {
        if root is None {
            assert forall|name: Seq<char>| #[trigger]
                package_of(*archive).names.contains(name) implies !is_bundle_root(name) by {
                let j = choose|j: int| 0 <= j < texts(names@).len() && texts(names@)[j] == name;
                assert(names[j]@ == name);
            }
        }
    }
    match root {
        Some(root) => Ok(root),
        None => Err(Error::PackageMalformed),
    }
}

/// The recorded modification time of the entry `name`, if the container has
/// such an entry and it can be opened.
pub open spec fn stamp_at(package: Package, name: Seq<char>) -> Option<Stamp> {
    if package.entries.contains_key(name) {
        Some(package.entries[name].modified)
    } else {
        None
    }
}

/// What reading the entry `name` yields: `None` where the container has no
/// such entry that can be opened, `Some(None)` where its bytes cannot be read
/// to the end, else the bytes.
pub open spec fn payload_at(package: Package, name: Seq<char>) -> Option<Option<Seq<u8>>> {
    if package.entries.contains_key(name) {
        Some(package.entries[name].payload)
    } else {
        None
    }
}

/// Looks up when the entry `name` was last modified.
pub fn modified_at(archive: &mut Container, name: &str) -> (stamp: Option<Stamp>)
    ensures
        package_of(*final(archive)) == package_of(*old(archive)),
        stamp == stamp_at(package_of(*old(archive)), name@),
        stamp is Some ==> package_of(*old(archive)).names.contains(name@),
{
    match open_entry(archive, name) {
        Some(file) => Some(entry_stamp(&file)),
        None => None,
    }
}

/// Reads the entry `name` to its end.
pub fn read_entry(archive: &mut Container, name: &str) -> (read: Option<Option<Vec<u8>>>)
    ensures
        package_of(*final(archive)) == package_of(*old(archive)),
        match read {
            Some(Some(bytes)) => payload_at(package_of(*old(archive)), name@) == Some(Some(bytes@)),
            Some(None) => payload_at(package_of(*old(archive)), name@) == Some(
                None::<Seq<u8>>,
            ),
            None => payload_at(package_of(*old(archive)), name@) is None,
        },
        read is Some ==> package_of(*old(archive)).names.contains(name@),
{
    match open_entry(archive, name) {
        Some(file) => Some(entry_bytes(file)),
        None => None,
    }
}

} // verus!
