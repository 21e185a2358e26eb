//! The icon of a bundle: one image, chosen among the files of the icon that
//! the descriptor declares, the sharpest first.

use crate::archive::{package_of, payload_at, read_entry, Container, Package};
use vstd::prelude::*;
use vstd::string::*;

verus! {

/// The ending of an icon file's name.
pub open spec fn icon_extension() -> Seq<char> {
    ".png"@
}

/// The marks of pixel density in the order in which they are tried: three
/// times, twice, and none.
pub open spec fn density_mark(rank: int) -> Seq<char> {
    if rank == 0 {
        "@3x"@
    } else if rank == 1 {
        "@2x"@
    } else {
        ""@
    }
}

/// The number of marks that are tried.
pub const DENSITIES: usize = 3;

/// The path of the icon candidate of the given rank.
pub open spec fn icon_path(root: Seq<char>, base: Seq<char>, rank: int) -> Seq<char> {
    root + base + density_mark(rank) + icon_extension()
}

/// The container has an entry for the candidate of the given rank, and it
/// can be opened.
pub open spec fn has_candidate(package: Package, root: Seq<char>, base: Seq<char>, rank: int) -> bool {
    package.entries.contains_key(icon_path(root, base, rank))
}

/// What a candidate's entry gives: its bytes where they can be read and are
/// not empty, else nothing.
pub open spec fn image_of(read: Option<Option<Seq<u8>>>) -> Option<Seq<u8>> {
    match read {
        Some(Some(bytes)) => if bytes.len() > 0 {
            Some(bytes)
        } else {
            None
        },
        _ => None,
    }
}

/// The icon among the candidates from `rank` on: the first candidate that
/// the container has decides.
pub open spec fn icon_from(package: Package, root: Seq<char>, base: Seq<char>, rank: int) -> Option<
    Seq<u8>,
>
    decreases DENSITIES - rank,
{
    if rank < 0 || rank >= DENSITIES {
        None
    } else if has_candidate(package, root, base, rank) {
        image_of(payload_at(package, icon_path(root, base, rank)))
    } else {
        icon_from(package, root, base, rank + 1)
    }
}

/// The icon of the bundle at `root`: none where the descriptor declares
/// none, else the first candidate that the container has.
pub open spec fn icon_at(package: Package, root: Seq<char>, declared: Option<Seq<char>>) -> Option<
    Seq<u8>,
> {
    match declared {
        Some(base) => icon_from(package, root, base, 0),
        None => None,
    }
}

/// What `base64::encode` makes of bytes: their text in the standard base64
/// alphabet, padded.
pub uninterp spec fn base64_text(bytes: Seq<u8>) -> Seq<char>;

/// Calls `base64::encode` on the bytes.
#[verifier::external_body]
fn encode(bytes: &[u8]) -> (text: String)
    ensures
        text@ == base64_text(bytes@),
{
    base64::encode(bytes)
}

/// The image as text, for documents that cannot hold bytes.
pub fn image_text(image: &Vec<u8>) -> (text: String)
    ensures
        text@ == base64_text(image@),
{
    encode(image.as_slice())
}

/// The mark of pixel density of the given rank.
pub fn mark_of(rank: usize) -> (mark: &'static str)
    ensures
        mark@ == density_mark(rank as int),
{
    if rank == 0 {
        "@3x"
    } else if rank == 1 {
        "@2x"
    } else {
        ""
    }
}

/// The path of the icon candidate of the given rank.
pub fn candidate_path(root: &str, base: &str, rank: usize) -> (path: String)
    ensures
        path@ == icon_path(root@, base@, rank as int),
{
    let mut path = root.to_owned();
    path.append(base);
    path.append(mark_of(rank));
    path.append(".png");
    path
}

/// Searches the bundle at `app_dir_path` for the image of the icon `icon`.
/// A missing image is no error.
pub fn extract_icon(archive: &mut Container, app_dir_path: &str, icon: &str) -> (image: Option<
    Vec<u8>,
>)
    ensures
        package_of(*final(archive)) == package_of(*old(archive)),
        match image {
            Some(bytes) => icon_from(package_of(*old(archive)), app_dir_path@, icon@, 0) == Some(
                bytes@,
            ) && bytes@.len() > 0,
            None => icon_from(package_of(*old(archive)), app_dir_path@, icon@, 0) is None,
        },
        (forall|rank: int|
            0 <= rank < DENSITIES ==> !package_of(*old(archive)).names.contains(
                #[trigger] icon_path(app_dir_path@, icon@, rank),
            )) ==> image is None,
{
    let ghost package = package_of(*archive);
    let mut rank: usize = 0;
    while rank < DENSITIES
        invariant
            rank <= DENSITIES,
            package_of(*archive) == package,
            package == package_of(*old(archive)),
            icon_from(package, app_dir_path@, icon@, 0) == icon_from(
                package,
                app_dir_path@,
                icon@,
                rank as int,
            ),
        decreases DENSITIES - rank,
    {
        let path = candidate_path(app_dir_path, icon, rank);
        match read_entry(archive, path.as_str()) {
            Some(read) => {
                return match read {
                    Some(bytes) => if bytes.len() > 0 {
                        Some(bytes)
                    } else {
                        None
                    },
                    None => None,
                };
            },
            None => {},
        }
        rank += 1;
    }
    None
}

/// Where the container has the sharpest candidate, with bytes that can be
/// read and are not empty, that candidate is the icon, whatever else the
/// container holds.
pub proof fn lemma_sharpest_first(package: Package, root: Seq<char>, base: Seq<char>, bytes: Seq<u8>)
    requires
        payload_at(package, icon_path(root, base, 0)) == Some(Some(bytes)),
        bytes.len() > 0,
    ensures
        icon_at(package, root, Some(base)) == Some(bytes),
{
}

/// Where the container has only the candidate without a mark, that one is
/// the icon.
pub proof fn lemma_plain_last(package: Package, root: Seq<char>, base: Seq<char>, bytes: Seq<u8>)
    requires
        !has_candidate(package, root, base, 0),
        !has_candidate(package, root, base, 1),
        payload_at(package, icon_path(root, base, 2)) == Some(Some(bytes)),
        bytes.len() > 0,
    ensures
        icon_at(package, root, Some(base)) == Some(bytes),
{
    reveal_with_fuel(icon_from, 3);
}

/// Where the container has no candidate there is no icon.
pub proof fn lemma_no_candidate(package: Package, root: Seq<char>, base: Seq<char>)
    requires
        forall|rank: int| 0 <= rank < DENSITIES ==> !has_candidate(package, root, base, rank),
    ensures
        icon_at(package, root, Some(base)) is None,
{
    reveal_with_fuel(icon_from, 4);
}

/// An icon is never empty.
pub proof fn lemma_icon_not_empty(package: Package, root: Seq<char>, declared: Option<Seq<char>>)
    ensures
        icon_at(package, root, declared) matches Some(bytes) ==> bytes.len() > 0,
{
    reveal_with_fuel(icon_from, 4);
}

} // verus!
