//! The descriptor of a bundle: the property list that names the bundle, its
//! versions and its icon.
//!
//! The document is decoded by the `plist` crate. What the crate hands back is
//! modelled by a [`Tree`]; the declarations at the head of this file state,
//! without proof, how the crate's calls relate to that model.

use crate::archive::{package_of, payload_at, read_entry, Container, Package};
use crate::error::Error;
use plist::Dictionary;
use plist::Value;
use std::io::Cursor;
use vstd::prelude::*;
use vstd::string::*;

verus! {

/// A decoded property list, as far as a descriptor is read: texts, lists and
/// tables; every other kind of value counts as `Other`.
pub ghost enum Tree {
    Text(Seq<char>),
    List(Seq<Tree>),
    Table(Map<Seq<char>, Tree>),
    Other,
}

/// `plist::Value`, a decoded property list. Nothing inside it is seen here.
#[verifier::external_type_specification]
#[verifier::external_body]
pub struct ExValue(Value);

/// `plist::Dictionary`, the entries of a property list that is a
/// dictionary.
#[verifier::external_type_specification]
#[verifier::external_body]
pub struct ExDictionary(Dictionary);

/// What `plist::Value::from_reader` makes of the bytes of a document: the
/// value they encode, or `None` where they are no property list.
pub uninterp spec fn plist_of(bytes: Seq<u8>) -> Option<Tree>;

/// The tree that a `plist::Value` holds.
pub uninterp spec fn value_tree(value: Value) -> Tree;

/// The values that a `plist::Dictionary` holds, by key.
pub uninterp spec fn dictionary_entries(dictionary: Dictionary) -> Map<Seq<char>, Tree>;

/// Calls `plist::Value::from_reader` on the bytes, which accepts the
/// binary, the XML and the ASCII encoding, and drops the crate's error. The call succeeds
/// exactly where `plist_of` is defined, and the value then holds that tree.
#[verifier::external_body]
fn parse_value(bytes: Vec<u8>) -> (parsed: Option<Value>)
    ensures
        match parsed {
            Some(value) => plist_of(bytes@) == Some(value_tree(value)),
            None => plist_of(bytes@) is None,
        },
{
    Value::from_reader(Cursor::new(bytes)).ok()
}

/// `plist::Value::as_dictionary` hands out the dictionary of a value that is
/// one, and nothing for any other value.
pub assume_specification[ Value::as_dictionary ](value: &Value) -> (table: Option<&Dictionary>)
    ensures
        match table {
            Some(dictionary) => value_tree(*value) == Tree::Table(dictionary_entries(*dictionary)),
            None => !(value_tree(*value) is Table),
        },
;

/// `plist::Value::as_string` hands out the text of a value that is a string,
/// and nothing for any other value.
pub assume_specification[ Value::as_string ](value: &Value) -> (text: Option<&str>)
    ensures
        match text {
            Some(text) => value_tree(*value) == Tree::Text(text@),
            None => !(value_tree(*value) is Text),
        },
;

/// `plist::Value::as_array` hands out the items of a value that is an array,
/// in their order, and nothing for any other value.
pub assume_specification[ Value::as_array ](value: &Value) -> (list: Option<&Vec<Value>>)
    ensures
        match list {
            Some(items) => value_tree(*value) == Tree::List(
                items@.map_values(|item: Value| value_tree(item)),
            ),
            None => !(value_tree(*value) is List),
        },
;

/// `plist::Dictionary::get` hands out the value stored under a key, and
/// nothing where the dictionary has no such key.
pub assume_specification<'a>[ Dictionary::get ](dictionary: &'a Dictionary, key: &str) -> (value:
    Option<&'a Value>)
    ensures
        match value {
            Some(found) => dictionary_entries(*dictionary).contains_key(key@)
                && dictionary_entries(*dictionary)[key@] == value_tree(*found),
            None => !dictionary_entries(*dictionary).contains_key(key@),
        },
;

/// What a descriptor says of its bundle.
#[derive(Debug)]
pub struct Metadata {
    /// The name of the bundle's executable.
    pub executable: String,
    /// The reverse-domain identifier of the bundle.
    pub bundle_identifier: String,
    /// The short version, as users see it.
    pub version: String,
    /// The build version.
    pub build: String,
    /// The name under which the bundle is shown.
    pub display_name: String,
    /// The base name of the bundle's icon files, where the descriptor
    /// declares one.
    pub icon_name: Option<String>,
}

/// The texts of a [`Metadata`].
pub ghost struct MetadataView {
    pub executable: Seq<char>,
    pub bundle_identifier: Seq<char>,
    pub version: Seq<char>,
    pub build: Seq<char>,
    pub display_name: Seq<char>,
    pub icon_name: Option<Seq<char>>,
}

impl View for Metadata {
    type V = MetadataView;

    open spec fn view(&self) -> MetadataView {
        MetadataView {
            executable: self.executable@,
            bundle_identifier: self.bundle_identifier@,
            version: self.version@,
            build: self.build@,
            display_name: self.display_name@,
            icon_name: match self.icon_name {
                Some(name) => Some(name@),
                None => None,
            },
        }
    }
}

/// The name of the descriptor's entry below the bundle root.
pub open spec fn descriptor_name() -> Seq<char> {
    "Info.plist"@
}

/// The key of the executable's name.
pub open spec fn key_executable() -> Seq<char> {
    "CFBundleExecutable"@
}

/// The key of the bundle identifier.
pub open spec fn key_identifier() -> Seq<char> {
    "CFBundleIdentifier"@
}

/// The key of the short version.
pub open spec fn key_short_version() -> Seq<char> {
    "CFBundleShortVersionString"@
}

/// The key of the build version.
pub open spec fn key_version() -> Seq<char> {
    "CFBundleVersion"@
}

/// The key of the localized display name.
pub open spec fn key_display_name() -> Seq<char> {
    "CFBundleDisplayName"@
}

/// The key of the internal bundle name.
pub open spec fn key_name() -> Seq<char> {
    "CFBundleName"@
}

/// The key of the table of icons.
pub open spec fn key_icons() -> Seq<char> {
    "CFBundleIcons"@
}

/// The key of the primary icon in the table of icons.
pub open spec fn key_primary_icon() -> Seq<char> {
    "CFBundlePrimaryIcon"@
}

/// The key of the list of files of an icon.
pub open spec fn key_icon_files() -> Seq<char> {
    "CFBundleIconFiles"@
}

/// The text stored under `key`, where the table has the key and its value is
/// a text.
pub open spec fn text_under(table: Map<Seq<char>, Tree>, key: Seq<char>) -> Option<Seq<char>> {
    if table.contains_key(key) {
        match table[key] {
            Tree::Text(text) => Some(text),
            _ => None,
        }
    } else {
        None
    }
}

/// The table stored under `key`, where the table has the key and its value
/// is a table.
pub open spec fn table_under(table: Map<Seq<char>, Tree>, key: Seq<char>) -> Option<
    Map<Seq<char>, Tree>,
> {
    if table.contains_key(key) {
        match table[key] {
            Tree::Table(inner) => Some(inner),
            _ => None,
        }
    } else {
        None
    }
}

/// The last item of the list stored under `key`, where that item is a text.
pub open spec fn last_text_under(table: Map<Seq<char>, Tree>, key: Seq<char>) -> Option<
    Seq<char>,
> {
    if table.contains_key(key) {
        match table[key] {
            Tree::List(items) => if items.len() > 0 {
                match items.last() {
                    Tree::Text(text) => Some(text),
                    _ => None,
                }
            } else {
                None
            },
            _ => None,
        }
    } else {
        None
    }
}

/// The display name: the localized display name where the descriptor has
/// that key, else the internal bundle name. A key whose value is no text
/// gives no name.
pub open spec fn display_name_in(table: Map<Seq<char>, Tree>) -> Option<Seq<char>> {
    if table.contains_key(key_display_name()) {
        text_under(table, key_display_name())
    } else {
        text_under(table, key_name())
    }
}

/// The icon that a descriptor declares: the last entry of the file list of
/// its primary icon. Anything missing or of another kind on the way means
/// that no icon is declared.
pub open spec fn declared_icon(table: Map<Seq<char>, Tree>) -> Option<Seq<char>> {
    match table_under(table, key_icons()) {
        Some(icons) => match table_under(icons, key_primary_icon()) {
            Some(primary) => last_text_under(primary, key_icon_files()),
            None => None,
        },
        None => None,
    }
}

/// All required fields of the table are texts.
pub open spec fn is_complete(table: Map<Seq<char>, Tree>) -> bool {
    &&& text_under(table, key_executable()) is Some
    &&& text_under(table, key_identifier()) is Some
    &&& text_under(table, key_short_version()) is Some
    &&& text_under(table, key_version()) is Some
    &&& display_name_in(table) is Some
}

/// What a decoded descriptor says: `MetadataCorrupt` where the document is
/// no table, `MetadataIncomplete` where a required field is absent or no
/// text, else the fields.
pub open spec fn metadata_of(tree: Tree) -> Result<MetadataView, Error> {
    match tree {
        Tree::Table(table) => if is_complete(table) {
            Ok(
                MetadataView {
                    executable: text_under(table, key_executable())->0,
                    bundle_identifier: text_under(table, key_identifier())->0,
                    version: text_under(table, key_short_version())->0,
                    build: text_under(table, key_version())->0,
                    display_name: display_name_in(table)->0,
                    icon_name: declared_icon(table),
                },
            )
        } else {
            Err(Error::MetadataIncomplete)
        },
        _ => Err(Error::MetadataCorrupt),
    }
}

/// What the bytes of a descriptor say: `MetadataCorrupt` where they are no
/// property list, else what the decoded document says.
pub open spec fn descriptor_of(bytes: Seq<u8>) -> Result<MetadataView, Error> {
    match plist_of(bytes) {
        Some(tree) => metadata_of(tree),
        None => Err(Error::MetadataCorrupt),
    }
}

/// The path of the descriptor of the bundle at `root`.
pub open spec fn descriptor_path(root: Seq<char>) -> Seq<char> {
    root + descriptor_name()
}

/// What the descriptor of the bundle at `root` says: `MetadataMissing` where
/// the container has no such entry that can be opened, `MetadataCorrupt`
/// where its bytes cannot be read, else what the bytes say.
pub open spec fn metadata_at(package: Package, root: Seq<char>) -> Result<MetadataView, Error> {
    match payload_at(package, descriptor_path(root)) {
        None => Err(Error::MetadataMissing),
        Some(None) => Err(Error::MetadataCorrupt),
        Some(Some(bytes)) => descriptor_of(bytes),
    }
}

/// The result of an extraction agrees with what the model says.
pub open spec fn agrees(found: Result<Metadata, Error>, expected: Result<MetadataView, Error>) -> bool {
    match found {
        Ok(metadata) => expected == Ok::<MetadataView, Error>(metadata@),
        Err(e) => expected == Err::<MetadataView, Error>(e),
    }
}

fn text_field(dictionary: &Dictionary, key: &str) -> (text: Option<String>)
    ensures
        match text {
            Some(found) => text_under(dictionary_entries(*dictionary), key@) == Some(found@),
            None => text_under(dictionary_entries(*dictionary), key@) is None,
        },
{
    match dictionary.get(key) {
        Some(value) => match value.as_string() {
            Some(text) => Some(text.to_owned()),
            None => None,
        },
        None => None,
    }
}

fn table_field<'a>(dictionary: &'a Dictionary, key: &str) -> (table: Option<&'a Dictionary>)
    ensures
        match table {
            Some(found) => table_under(dictionary_entries(*dictionary), key@) == Some(
                dictionary_entries(*found),
            ),
            None => table_under(dictionary_entries(*dictionary), key@) is None,
        },
{
    match dictionary.get(key) {
        Some(value) => value.as_dictionary(),
        None => None,
    }
}

fn last_text_field(dictionary: &Dictionary, key: &str) -> (text: Option<String>)
    ensures
        match text {
            Some(found) => last_text_under(dictionary_entries(*dictionary), key@) == Some(found@),
            None => last_text_under(dictionary_entries(*dictionary), key@) is None,
        },
{
    match dictionary.get(key) {
        Some(value) => match value.as_array() {
            Some(items) => {
                if items.len() == 0 {
                    return None;
                }
                let ghost trees = items@.map_values(|item: Value| value_tree(item));
                assert(trees.last() == value_tree(items@[items.len() - 1]));
                match items[items.len() - 1].as_string() {
                    Some(text) => Some(text.to_owned()),
                    None => None,
                }
            },
            None => None,
        },
        None => None,
    }
}

fn display_name_field(dictionary: &Dictionary) -> (text: Option<String>)
    ensures
        match text {
            Some(found) => display_name_in(dictionary_entries(*dictionary)) == Some(found@),
            None => display_name_in(dictionary_entries(*dictionary)) is None,
        },
{
    match dictionary.get("CFBundleDisplayName") {
        Some(value) => match value.as_string() {
            Some(text) => Some(text.to_owned()),
            None => None,
        },
        None => text_field(dictionary, "CFBundleName"),
    }
}

fn icon_field(dictionary: &Dictionary) -> (text: Option<String>)
    ensures
        match text {
            Some(found) => declared_icon(dictionary_entries(*dictionary)) == Some(found@),
            None => declared_icon(dictionary_entries(*dictionary)) is None,
        },
{
    match table_field(dictionary, "CFBundleIcons") {
        Some(icons) => match table_field(icons, "CFBundlePrimaryIcon") {
            Some(primary) => last_text_field(primary, "CFBundleIconFiles"),
            None => None,
        },
        None => None,
    }
}

/// Takes the fields of a bundle from its decoded descriptor.
pub fn read_descriptor(root: &Value) -> (found: Result<Metadata, Error>)
    ensures
        agrees(found, metadata_of(value_tree(*root))),
{
    let dictionary = match root.as_dictionary() {
        Some(dictionary) => dictionary,
        None => { return Err(Error::MetadataCorrupt); },
    };
    let executable = match text_field(dictionary, "CFBundleExecutable") {
        Some(text) => text,
        None => { return Err(Error::MetadataIncomplete); },
    };
    let bundle_identifier = match text_field(dictionary, "CFBundleIdentifier") {
        Some(text) => text,
        None => { return Err(Error::MetadataIncomplete); },
    };
    let version = match text_field(dictionary, "CFBundleShortVersionString") {
        Some(text) => text,
        None => { return Err(Error::MetadataIncomplete); },
    };
    let build = match text_field(dictionary, "CFBundleVersion") {
        Some(text) => text,
        None => { return Err(Error::MetadataIncomplete); },
    };
    let display_name = match display_name_field(dictionary) {
        Some(text) => text,
        None => { return Err(Error::MetadataIncomplete); },
    };
    let icon_name = icon_field(dictionary);
    Ok(Metadata { executable, bundle_identifier, version, build, display_name, icon_name })
}

/// Decodes the bytes of a descriptor and takes the bundle's fields from it.
pub fn parse_descriptor(bytes: Vec<u8>) -> (found: Result<Metadata, Error>)
    ensures
        agrees(found, descriptor_of(bytes@)),
{
    match parse_value(bytes) {
        Some(value) => read_descriptor(&value),
        None => Err(Error::MetadataCorrupt),
    }
}

/// Joins a bundle root and the name of an entry below it.
pub fn path_below(root: &str, name: &str) -> (path: String)
    ensures
        path@ == root@ + name@,
{
    let mut path = root.to_owned();
    path.append(name);
    path
}

/// Reads the descriptor of the bundle at `app_dir_path` from the container.
pub fn find_info_plist(archive: &mut Container, app_dir_path: &str) -> (found: Result<
    Metadata,
    Error,
>)
    ensures
        package_of(*final(archive)) == package_of(*old(archive)),
        agrees(found, metadata_at(package_of(*old(archive)), app_dir_path@)),
        !package_of(*old(archive)).names.contains(descriptor_path(app_dir_path@)) ==> (found
            matches Err(e) && e == Error::MetadataMissing),
{
    let path = path_below(app_dir_path, "Info.plist");
    match read_entry(archive, path.as_str()) {
        None => Err(Error::MetadataMissing),
        Some(None) => Err(Error::MetadataCorrupt),
        Some(Some(bytes)) => parse_descriptor(bytes),
    }
}

/// In a package whose openable entries are all listed, a bundle whose
/// descriptor the directory does not list has no descriptor.
pub proof fn lemma_unlisted_descriptor(package: Package, root: Seq<char>)
    requires
        crate::archive::is_listed(package),
        !package.names.contains(descriptor_path(root)),
    ensures
        metadata_at(package, root) == Err::<MetadataView, Error>(Error::MetadataMissing),
{
}

/// Where a descriptor has no display name but an internal name, the internal
/// name is shown.
pub proof fn lemma_display_name_falls_back(table: Map<Seq<char>, Tree>, name: Seq<char>)
    requires
        !table.contains_key(key_display_name()),
        table.contains_key(key_name()),
        table[key_name()] == Tree::Text(name),
    ensures
        display_name_in(table) == Some(name),
        metadata_of(Tree::Table(table)) matches Ok(metadata) ==> metadata.display_name == name,
{
}

/// Where a descriptor has a display name, the internal name plays no part.
pub proof fn lemma_display_name_wins(table: Map<Seq<char>, Tree>, name: Seq<char>)
    requires
        table.contains_key(key_display_name()),
        table[key_display_name()] == Tree::Text(name),
    ensures
        display_name_in(table) == Some(name),
        metadata_of(Tree::Table(table)) matches Ok(metadata) ==> metadata.display_name == name,
{
}

} // verus!
