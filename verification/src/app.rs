//! The record of one package: what was found in its container, under the
//! name of its file.

use crate::archive::{bundle_root, container_of, find_app_dir, open, package_of, Container, Package};
use crate::descriptor::{find_info_plist, metadata_at};
use crate::error::Error;
use crate::icon::{base64_text, extract_icon, icon_at, image_text, lemma_icon_not_empty};
use crate::manifest::{layout_filled, lemma_template_filled, manifest_template, render, rendered, template_parts, template_text, Values};
use crate::text::chars_of;
use crate::timestamp::{binary_last_change, built_at, Timestamp};
use vstd::prelude::*;
use vstd::string::*;

verus! {

/// The record of a package. It does not change once it is made.
#[derive(Debug)]
pub struct App {
    id: String,
    bundle_id: String,
    name: String,
    version: String,
    build: String,
    date: Timestamp,
    size: u64,
    icon: Option<Vec<u8>>,
}

/// What a record holds.
pub ghost struct AppView {
    /// The base name of the package file: the key of the record.
    pub id: Seq<char>,
    /// The reverse-domain identifier of the bundle.
    pub bundle_identifier: Seq<char>,
    /// The name under which the package is shown.
    pub display_name: Seq<char>,
    /// The short version, as users see it.
    pub version: Seq<char>,
    /// The build version.
    pub build: Seq<char>,
    /// When the package was built.
    pub built_at: Timestamp,
    /// The size of the package file in bytes.
    pub size_bytes: u64,
    /// The image of the icon, in the encoding in which the bundle holds it.
    pub icon: Option<Seq<u8>>,
}

/// `at` is the place of the last dot of `name`.
pub open spec fn is_last_dot(name: Seq<char>, at: int) -> bool {
    &&& 0 <= at < name.len()
    &&& name[at] == '.'
    &&& forall|after: int| at < after < name.len() ==> name[after] != '.'
}

/// The base name of a file: its name up to the last dot, or the whole name
/// where it has no dot but a leading one.
pub open spec fn stem(name: Seq<char>) -> Seq<char> {
    if exists|at: int| at > 0 && is_last_dot(name, at) {
        name.subrange(0, choose|at: int| at > 0 && is_last_dot(name, at))
    } else {
        name
    }
}

/// A name has one last dot at most.
pub proof fn lemma_last_dot_unique(name: Seq<char>, a: int, b: int)
    requires
        is_last_dot(name, a),
        is_last_dot(name, b),
    ensures
        a == b,
{
}

/// The base name of a file name that is a base name without a dot in it and
/// an extension is that base name.
pub proof fn lemma_stem_of_extended(base: Seq<char>, extension: Seq<char>)
    requires
        base.len() > 0,
        forall|i: int| 0 <= i < extension.len() ==> extension[i] != '.',
    ensures
        stem(base + seq!['.'] + extension) == base,
{
    let name = base + seq!['.'] + extension;
    let at = base.len() as int;
    assert(name[at] == '.');
    assert forall|after: int| at < after < name.len() implies name[after] != '.' by {
        assert(name[after] == extension[after - at - 1]);
    }
    assert(at > 0 && is_last_dot(name, at));
    let chosen = choose|at: int| at > 0 && is_last_dot(name, at);
    lemma_last_dot_unique(name, at, chosen);
    assert(name.subrange(0, at) =~= base);
}

/// What a container says of its package, the file's name and size given:
/// the steps are taken in the order bundle root, descriptor, build time,
/// icon, and the first that fails decides the error.
pub open spec fn record_in(package: Package, id: Seq<char>, size: u64, timezone: int) -> Result<
    AppView,
    Error,
> {
    match bundle_root(package.names) {
        None => Err(Error::PackageMalformed),
        Some(root) => match metadata_at(package, root) {
            Err(e) => Err(e),
            Ok(metadata) => match built_at(package, root, Some(metadata.executable), timezone) {
                Err(e) => Err(e),
                Ok(at) => Ok(
                    AppView {
                        id,
                        bundle_identifier: metadata.bundle_identifier,
                        display_name: metadata.display_name,
                        version: metadata.version,
                        build: metadata.build,
                        built_at: at,
                        size_bytes: size,
                        icon: icon_at(package, root, metadata.icon_name),
                    },
                ),
            },
        },
    }
}

/// The record of the package file `name` with the content `bytes`, its
/// recorded times read at `timezone` hours east of UTC. It depends on
/// nothing else.
pub open spec fn package_record(name: Seq<char>, bytes: Seq<u8>, timezone: int) -> Result<
    AppView,
    Error,
> {
    match container_of(bytes) {
        Some(package) => record_in(package, stem(name), bytes.len() as u64, timezone),
        None => Err(Error::PackageMalformed),
    }
}

/// The values that a record and a host give to a manifest: the short
/// version stands for the bundle's version, the display name for the title.
pub open spec fn manifest_values(app: AppView, host: Seq<char>) -> Values {
    Values {
        host,
        id: app.id,
        bundle_identifier: app.bundle_identifier,
        bundle_version: app.version,
        title: app.display_name,
    }
}

/// The outcome of an inspection agrees with what the model says.
pub open spec fn agrees(found: Result<App, Error>, expected: Result<AppView, Error>) -> bool {
    match found {
        Ok(app) => expected == Ok::<AppView, Error>(app@),
        Err(e) => expected == Err::<AppView, Error>(e),
    }
}

/// The base name of a file.
pub fn file_stem(name: &str) -> (base: String)
    ensures
        base@ == stem(name@),
{
    let chars = chars_of(name);
    let mut at: usize = chars.len();
    while at > 0
        invariant
            at <= chars.len(),
            chars@ == name@,
            forall|after: int| at <= after < chars.len() ==> chars@[after] != '.',
        decreases at,
    {
        at -= 1;
        if chars[at] == '.' {
            if at > 0 {
                proof {
                    assert(is_last_dot(name@, at as int));
                    let chosen = choose|i: int| i > 0 && is_last_dot(name@, i);
                    lemma_last_dot_unique(name@, at as int, chosen);
                }
                return name.substring_char(0, at).to_owned();
            } else {
                proof {
                    assert(is_last_dot(name@, 0));
                    assert forall|i: int| i > 0 implies !is_last_dot(name@, i) by {
                        if is_last_dot(name@, i) {
                            lemma_last_dot_unique(name@, 0, i);
                        }
                    }
                }
                return name.to_owned();
            }
        }
    }
    name.to_owned()
}

impl View for App {
    type V = AppView;

    closed spec fn view(&self) -> AppView {
        AppView {
            id: self.id@,
            bundle_identifier: self.bundle_id@,
            display_name: self.name@,
            version: self.version@,
            build: self.build@,
            built_at: self.date,
            size_bytes: self.size,
            icon: match self.icon {
                Some(image) => Some(image@),
                None => None,
            },
        }
    }
}

impl Clone for App {
    fn clone(&self) -> (copy: App)
        ensures
            copy@ == self@,
    {
        proof {
            use_type_invariant(self);
        }
        App {
            id: self.id.clone(),
            bundle_id: self.bundle_id.clone(),
            name: self.name.clone(),
            version: self.version.clone(),
            build: self.build.clone(),
            date: self.date,
            size: self.size,
            icon: match &self.icon {
                Some(image) => Some(image.clone()),
                None => None,
            },
        }
    }
}

impl App {
    #[verifier::type_invariant]
    spec fn icon_holds_bytes(self) -> bool {
        self.icon matches Some(image) ==> image@.len() > 0
    }

    /// Inspects the package file `name` with the content `bytes`: finds the
    /// bundle in the container, reads its descriptor, derives the build time
    /// at `timezone` hours east of UTC, and looks for the icon.
    pub fn new(name: &str, bytes: Vec<u8>, timezone: i32) -> (found: Result<App, Error>)
        ensures
            agrees(found, package_record(name@, bytes@, timezone as int)),
            found matches Ok(app) ==> app@.id == stem(name@) && app@.size_bytes == bytes@.len(),
            found matches Err(e) ==> e.is_contained(),
    {
        let size = bytes.len() as u64;
        let id = file_stem(name);
        match open(bytes) {
            Ok(archive) => {
                let mut archive = archive;
                App::from_container(id, size, &mut archive, timezone)
            },
            Err(e) => Err(e),
        }
    }

    /// Inspects an open container for the package with the given key and
    /// file size.
    pub fn from_container(id: String, size: u64, archive: &mut Container, timezone: i32) -> (found:
        Result<App, Error>)
        ensures
            package_of(*final(archive)) == package_of(*old(archive)),
            agrees(found, record_in(package_of(*old(archive)), id@, size, timezone as int)),
            found matches Ok(app) ==> app@.id == id@ && app@.size_bytes == size,
            found matches Err(e) ==> e.is_contained(),
    {
        let ghost package = package_of(*archive);
        let root = match find_app_dir(archive) {
            Ok(root) => root,
            Err(e) => { return Err(e); },
        };
        let metadata = match find_info_plist(archive, root.as_str()) {
            Ok(metadata) => metadata,
            Err(e) => { return Err(e); },
        };
        let date = match binary_last_change(
            archive,
            root.as_str(),
            Some(metadata.executable.as_str()),
            timezone,
        ) {
            Ok(date) => date,
            Err(e) => { return Err(e); },
        };
        let icon = match &metadata.icon_name {
            Some(declared) => extract_icon(archive, root.as_str(), declared.as_str()),
            None => None,
        };
        Ok(
            App {
                id,
                bundle_id: metadata.bundle_identifier,
                name: metadata.display_name,
                version: metadata.version,
                build: metadata.build,
                date,
                size,
                icon,
            },
        )
    }

    /// The key of the record: the base name of the package file.
    pub fn id(&self) -> (id: &str)
        ensures
            id@ == self@.id,
    {
        self.id.as_str()
    }

    /// When the package was built.
    pub fn date(&self) -> (date: &Timestamp)
        ensures
            *date == self@.built_at,
    {
        &self.date
    }

    /// The manifest from which a device that reaches this server as `host`
    /// installs the package: the built-in template with the host, the key,
    /// the bundle identifier, the short version and the display name in the
    /// places of the five markers, and nothing else changed.
    pub fn manifest(&self, host: &str) -> (document: String)
        ensures
            document@ == rendered(template_text(), self.values(host@)),
            document@ == layout_filled(template_parts(), self.values(host@)),
    {
        let template = manifest_template();
        proof {
            lemma_template_filled(self.values(host@));
        }
        render(
            template.as_str(),
            host,
            self.id.as_str(),
            self.bundle_id.as_str(),
            self.version.as_str(),
            self.name.as_str(),
        )
    }

    /// The values that the record and a host give to a manifest.
    pub open spec fn values(&self, host: Seq<char>) -> Values {
        manifest_values(self@, host)
    }

    /// The reverse-domain identifier of the bundle.
    pub fn bundle_id(&self) -> (bundle_id: &str)
        ensures
            bundle_id@ == self@.bundle_identifier,
    {
        self.bundle_id.as_str()
    }

    /// The name under which the package is shown.
    pub fn name(&self) -> (name: &str)
        ensures
            name@ == self@.display_name,
    {
        self.name.as_str()
    }

    /// The short version, as users see it.
    pub fn version(&self) -> (version: &str)
        ensures
            version@ == self@.version,
    {
        self.version.as_str()
    }

    /// The build version.
    pub fn build(&self) -> (build: &str)
        ensures
            build@ == self@.build,
    {
        self.build.as_str()
    }

    /// The size of the package file in bytes.
    pub fn size(&self) -> (size: u64)
        ensures
            size == self@.size_bytes,
    {
        self.size
    }

    /// The image of the icon. An image that is there is not empty.
    pub fn icon(&self) -> (icon: Option<&Vec<u8>>)
        ensures
            match icon {
                Some(image) => self@.icon == Some(image@) && image@.len() > 0,
                None => self@.icon is None,
            },
    {
        proof {
            use_type_invariant(self);
        }
        match &self.icon {
            Some(image) => Some(image),
            None => None,
        }
    }

    /// The image of the icon as base64 text.
    pub fn icon_base64(&self) -> (text: Option<String>)
        ensures
            match text {
                Some(encoded) => self@.icon matches Some(image) && encoded@ == base64_text(image),
                None => self@.icon is None,
            },
    {
        match &self.icon {
            Some(image) => Some(image_text(image)),
            None => None,
        }
    }
}

/// A package without a bundle root gives no record: the inspection fails
/// with `PackageMalformed`.
pub proof fn lemma_no_bundle_no_record(name: Seq<char>, bytes: Seq<u8>, timezone: int)
    requires
        container_of(bytes) matches Some(package) ==> forall|entry: Seq<char>|
            package.names.contains(entry) ==> !crate::archive::is_bundle_root(entry),
    ensures
        package_record(name, bytes, timezone) == Err::<AppView, Error>(Error::PackageMalformed),
{
    if let Some(package) = container_of(bytes) {
        crate::archive::lemma_no_root(package.names);
    }
}

/// Every record carries the base name of its file as its key, and an icon
/// that is not empty if it has one.
pub proof fn lemma_record_is_keyed(name: Seq<char>, bytes: Seq<u8>, timezone: int)
    ensures
        package_record(name, bytes, timezone) matches Ok(app) ==> app.id == stem(name) && (
        app.icon matches Some(image) ==> image.len() > 0),
{
    if let Some(package) = container_of(bytes) {
        if let Some(root) = bundle_root(package.names) {
            if let Ok(metadata) = metadata_at(package, root) {
                lemma_icon_not_empty(package, root, metadata.icon_name);
            }
        }
    }
}

/// A failed inspection concerns its package only.
pub proof fn lemma_failures_are_contained(name: Seq<char>, bytes: Seq<u8>, timezone: int)
    ensures
        package_record(name, bytes, timezone) matches Err(e) ==> e.is_contained(),
{
}

} // verus!
