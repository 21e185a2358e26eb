//! The manifest from which a device installs a package: a fixed template in
//! which five marked places are filled with the values of a package and of
//! the request.
//!
//! A marker is filled where it first stands in the template, read from left
//! to right, and only there. The values go in as they are: what a value
//! holds is never read as a marker.

use crate::text::{chars_of, find, found_at, occurs_at, occurs_in};
use vstd::prelude::*;
use vstd::string::*;

verus! {

/// The places of a manifest that are filled.
#[derive(Clone, Copy, Debug, PartialEq, Eq, Structural)]
pub enum Field {
    Host,
    Id,
    BundleIdentifier,
    BundleVersion,
    Title,
}

/// Which fields have been filled.
#[derive(Clone, Copy, Debug, PartialEq, Eq, Structural)]
pub struct Filled {
    pub host: bool,
    pub id: bool,
    pub bundle_identifier: bool,
    pub bundle_version: bool,
    pub title: bool,
}

/// The values that go into a manifest.
pub ghost struct Values {
    pub host: Seq<char>,
    pub id: Seq<char>,
    pub bundle_identifier: Seq<char>,
    pub bundle_version: Seq<char>,
    pub title: Seq<char>,
}

/// The template of the manifest up to the host.
pub const TEMPLATE_HEAD: &'static str = r#"<?xml version="1.0" encoding="UTF-8"?>
<!DOCTYPE plist PUBLIC "-//Apple//DTD PLIST 1.0//EN" "http://www.apple.com/DTDs/PropertyList-1.0.dtd">
<plist version="1.0">
<dict>
    <key>items</key>
    <array>
        <dict>
            <key>assets</key>
            <array>
                <dict>
                    <key>kind</key>
                    <string>software-package</string>
                    <key>url</key>
                    <string>https://"#;

/// The template between the host and the key of the package.
pub const TEMPLATE_PATH: &'static str = r#"/apps/"#;

/// The template between the key of the package and the bundle identifier.
pub const TEMPLATE_ASSETS_END: &'static str = r#"/ipa</string>
                </dict>
            </array>
            <key>metadata</key>
            <dict>
                <key>bundle-identifier</key>
                <string>"#;

/// The template between the bundle identifier and the bundle version.
pub const TEMPLATE_VERSION_KEY: &'static str = r#"</string>
                <key>bundle-version</key>
                <string>"#;

/// The template between the bundle version and the title.
pub const TEMPLATE_TITLE_KEY: &'static str = r#"</string>
                <key>kind</key>
                <string>software</string>
                <key>title</key>
                <string>"#;

/// The template after the title.
pub const TEMPLATE_TAIL: &'static str = r#"</string>
            </dict>
        </dict>
    </array>
</dict>
</plist>
"#;

/// The character with which every marker begins.
pub const MARK: char = '$';

/// The marker that stands for a field in a template.
pub open spec fn marker(field: Field) -> Seq<char> {
    match field {
        Field::Host => "$HOST"@,
        Field::Id => "$ID"@,
        Field::BundleIdentifier => "$BUNDLE_IDENTIFIER"@,
        Field::BundleVersion => "$BUNDLE_VERSION"@,
        Field::Title => "$TITLE"@,
    }
}

impl Filled {
    /// Nothing is filled yet.
    pub open spec fn nothing() -> Filled {
        Filled { host: false, id: false, bundle_identifier: false, bundle_version: false, title: false }
    }

    /// Whether `field` is filled.
    pub open spec fn has(self, field: Field) -> bool {
        match field {
            Field::Host => self.host,
            Field::Id => self.id,
            Field::BundleIdentifier => self.bundle_identifier,
            Field::BundleVersion => self.bundle_version,
            Field::Title => self.title,
        }
    }

    /// The same, with `field` filled.
    pub open spec fn with(self, field: Field) -> Filled {
        match field {
            Field::Host => Filled { host: true, ..self },
            Field::Id => Filled { id: true, ..self },
            Field::BundleIdentifier => Filled { bundle_identifier: true, ..self },
            Field::BundleVersion => Filled { bundle_version: true, ..self },
            Field::Title => Filled { title: true, ..self },
        }
    }
}

impl Values {
    /// The value that fills `field`.
    pub open spec fn of(self, field: Field) -> Seq<char> {
        match field {
            Field::Host => self.host,
            Field::Id => self.id,
            Field::BundleIdentifier => self.bundle_identifier,
            Field::BundleVersion => self.bundle_version,
            Field::Title => self.title,
        }
    }
}

/// `text` begins with the marker of `field`, and the field is still to be
/// filled.
pub open spec fn opens_with(text: Seq<char>, done: Filled, field: Field) -> bool {
    !done.has(field) && marker(field).is_prefix_of(text)
}

/// The field that is filled at the head of `text`, if any.
pub open spec fn field_at(text: Seq<char>, done: Filled) -> Option<Field> {
    if opens_with(text, done, Field::Host) {
        Some(Field::Host)
    } else if opens_with(text, done, Field::Id) {
        Some(Field::Id)
    } else if opens_with(text, done, Field::BundleIdentifier) {
        Some(Field::BundleIdentifier)
    } else if opens_with(text, done, Field::BundleVersion) {
        Some(Field::BundleVersion)
    } else if opens_with(text, done, Field::Title) {
        Some(Field::Title)
    } else {
        None
    }
}

/// `text` with its markers filled, the fields in `done` excepted: read from
/// the left, a marker that is still to be filled gives way to its value, and
/// every other character stays.
pub open spec fn filled(text: Seq<char>, values: Values, done: Filled) -> Seq<char>
    decreases text.len(),
    via filled_decreases
{
    if text.len() == 0 {
        Seq::empty()
    } else {
        match field_at(text, done) {
            Some(field) => values.of(field) + filled(
                text.skip(marker(field).len() as int),
                values,
                done.with(field),
            ),
            None => seq![text[0]] + filled(text.skip(1), values, done),
        }
    }
}

#[via_fn]
proof fn filled_decreases(text: Seq<char>, values: Values, done: Filled) {
    lemma_markers();
}

/// The manifest that a template gives for these values.
pub open spec fn rendered(template: Seq<char>, values: Values) -> Seq<char> {
    filled(template, values, Filled::nothing())
}

/// The template has a place for every field.
pub open spec fn is_complete(template: Seq<char>) -> bool {
    &&& occurs_in(template, marker(Field::Host))
    &&& occurs_in(template, marker(Field::Id))
    &&& occurs_in(template, marker(Field::BundleIdentifier))
    &&& occurs_in(template, marker(Field::BundleVersion))
    &&& occurs_in(template, marker(Field::Title))
}

/// No character of `text` begins a marker.
pub open spec fn is_plain(text: Seq<char>) -> bool {
    forall|i: int| 0 <= i < text.len() ==> text[i] != MARK
}

/// A template in which each marker stands once, in the order of the built-in
/// template, between six texts that hold no marker.
pub open spec fn layout(parts: Seq<Seq<char>>) -> Seq<char> {
    parts[0] + (marker(Field::Host) + (parts[1] + (marker(Field::Id) + (parts[2] + (marker(
        Field::BundleIdentifier,
    ) + (parts[3] + (marker(Field::BundleVersion) + (parts[4] + (marker(Field::Title)
        + parts[5])))))))))
}

/// The same texts with the values in the places of the markers.
pub open spec fn layout_filled(parts: Seq<Seq<char>>, values: Values) -> Seq<char> {
    parts[0] + (values.host + (parts[1] + (values.id + (parts[2] + (values.bundle_identifier + (
        parts[3] + (values.bundle_version + (parts[4] + (values.title + parts[5])))))))))
}

/// What the markers are made of: each begins with the mark, none is empty,
/// and none begins with another.
pub proof fn lemma_markers()
    ensures
        forall|field: Field| #[trigger] marker(field).len() > 0 && marker(field)[0] == MARK,
        marker(Field::Host).len() == 5,
        marker(Field::Id).len() == 3,
        marker(Field::BundleIdentifier).len() == 18,
        marker(Field::BundleVersion).len() == 15,
        marker(Field::Title).len() == 6,
        forall|a: Field, b: Field| a != b ==> !(#[trigger] marker(a)).is_prefix_of(#[trigger] marker(b)),
{
    reveal_strlit("$HOST");
    reveal_strlit("$ID");
    reveal_strlit("$BUNDLE_IDENTIFIER");
    reveal_strlit("$BUNDLE_VERSION");
    reveal_strlit("$TITLE");
    assert forall|a: Field, b: Field| a != b implies !(#[trigger] marker(a)).is_prefix_of(
        #[trigger] marker(b),
    ) by {
        if marker(a).is_prefix_of(marker(b)) {
            let head = marker(b).subrange(0, marker(a).len() as int);
            assert(head[1] == marker(b)[1]);
            assert(head[2] == marker(b)[2]);
            if marker(a).len() > 8 && marker(b).len() > 8 {
                assert(head[8] == marker(b)[8]);
            }
        }
    }
}

/// A text that begins with the marker of a field begins with no other
/// marker.
pub proof fn lemma_one_marker(text: Seq<char>, a: Field, b: Field)
    requires
        marker(a).is_prefix_of(text),
        marker(b).is_prefix_of(text),
    ensures
        a == b,
{
    lemma_markers();
    if a != b {
        let (short, long) = if marker(a).len() <= marker(b).len() {
            (a, b)
        } else {
            (b, a)
        };
        assert(marker(short) =~= marker(long).subrange(0, marker(short).len() as int)) by {
            assert(marker(short) =~= text.subrange(0, marker(short).len() as int));
            assert(marker(long) =~= text.subrange(0, marker(long).len() as int));
        }
        assert(marker(short).is_prefix_of(marker(long)));
    }
}

/// A text without marks stays as it is, and what follows it is filled as if
/// it stood alone.
pub proof fn lemma_plain_stays(plain: Seq<char>, rest: Seq<char>, values: Values, done: Filled)
    requires
        is_plain(plain),
    ensures
        filled(plain + rest, values, done) == plain + filled(rest, values, done),
    decreases plain.len(),
{
    lemma_markers();
    if plain.len() == 0 {
        assert(plain + rest =~= rest);
        assert(plain + filled(rest, values, done) =~= filled(rest, values, done));
    } else {
        let text = plain + rest;
        assert(text[0] == plain[0]);
        assert forall|field: Field| !opens_with(text, done, field) by {
            if marker(field).is_prefix_of(text) {
                assert(text.subrange(0, marker(field).len() as int)[0] == text[0]);
            }
        }
        assert(field_at(text, done) is None);
        assert(text.skip(1) =~= plain.skip(1) + rest);
        lemma_plain_stays(plain.skip(1), rest, values, done);
        assert(seq![text[0]] + (plain.skip(1) + filled(rest, values, done)) =~= plain + filled(
            rest,
            values,
            done,
        ));
    }
}

/// A marker that is still to be filled gives way to its value, and what
/// follows it is filled with that field done.
pub proof fn lemma_marker_filled(field: Field, rest: Seq<char>, values: Values, done: Filled)
    requires
        !done.has(field),
    ensures
        filled(marker(field) + rest, values, done) == values.of(field) + filled(
            rest,
            values,
            done.with(field),
        ),
{
    lemma_markers();
    let text = marker(field) + rest;
    assert(text.subrange(0, marker(field).len() as int) =~= marker(field));
    assert(opens_with(text, done, field));
    assert forall|other: Field| other != field implies !opens_with(text, done, other) by {
        if marker(other).is_prefix_of(text) {
            lemma_one_marker(text, other, field);
        }
    }
    assert(field_at(text, done) == Some(field));
    assert(text.skip(marker(field).len() as int) =~= rest);
}

/// In a template that has each marker once between plain texts every marker
/// gives way to its value and nothing else changes, whatever the values
/// hold.
pub proof fn lemma_layout_filled(parts: Seq<Seq<char>>, values: Values)
    requires
        parts.len() == 6,
        forall|i: int| 0 <= i < 6 ==> is_plain(#[trigger] parts[i]),
    ensures
        rendered(layout(parts), values) == layout_filled(parts, values),
{
    let d0 = Filled::nothing();
    let d1 = d0.with(Field::Host);
    let d2 = d1.with(Field::Id);
    let d3 = d2.with(Field::BundleIdentifier);
    let d4 = d3.with(Field::BundleVersion);
    let d5 = d4.with(Field::Title);
    let t5 = parts[5];
    let t4 = parts[4] + (marker(Field::Title) + t5);
    let t3 = parts[3] + (marker(Field::BundleVersion) + t4);
    let t2 = parts[2] + (marker(Field::BundleIdentifier) + t3);
    let t1 = parts[1] + (marker(Field::Id) + t2);
    let g5 = t5;
    let g4 = parts[4] + (values.title + g5);
    let g3 = parts[3] + (values.bundle_version + g4);
    let g2 = parts[2] + (values.bundle_identifier + g3);
    let g1 = parts[1] + (values.id + g2);
    assert(filled(t5, values, d5) == g5) by {
        lemma_plain_stays(t5, Seq::empty(), values, d5);
        assert(t5 + Seq::<char>::empty() =~= t5);
        assert(filled(Seq::<char>::empty(), values, d5) =~= Seq::<char>::empty());
    }
    assert(filled(t4, values, d4) == g4) by {
        lemma_plain_stays(parts[4], marker(Field::Title) + t5, values, d4);
        lemma_marker_filled(Field::Title, t5, values, d4);
    }
    assert(filled(t3, values, d3) == g3) by {
        lemma_plain_stays(parts[3], marker(Field::BundleVersion) + t4, values, d3);
        lemma_marker_filled(Field::BundleVersion, t4, values, d3);
    }
    assert(filled(t2, values, d2) == g2) by {
        lemma_plain_stays(parts[2], marker(Field::BundleIdentifier) + t3, values, d2);
        lemma_marker_filled(Field::BundleIdentifier, t3, values, d2);
    }
    assert(filled(t1, values, d1) == g1) by {
        lemma_plain_stays(parts[1], marker(Field::Id) + t2, values, d1);
        lemma_marker_filled(Field::Id, t2, values, d1);
    }
    lemma_plain_stays(parts[0], marker(Field::Host) + t1, values, d0);
    lemma_marker_filled(Field::Host, t1, values, d0);
}

/// The six texts of the built-in template, in their order.
pub open spec fn template_parts() -> Seq<Seq<char>> {
    seq![
        TEMPLATE_HEAD@,
        TEMPLATE_PATH@,
        TEMPLATE_ASSETS_END@,
        TEMPLATE_VERSION_KEY@,
        TEMPLATE_TITLE_KEY@,
        TEMPLATE_TAIL@,
    ]
}

/// The built-in template: its six texts with the five markers between them.
pub open spec fn template_text() -> Seq<char> {
    TEMPLATE_HEAD@ + marker(Field::Host) + TEMPLATE_PATH@ + marker(Field::Id) + TEMPLATE_ASSETS_END@
        + marker(Field::BundleIdentifier) + TEMPLATE_VERSION_KEY@ + marker(Field::BundleVersion)
        + TEMPLATE_TITLE_KEY@ + marker(Field::Title) + TEMPLATE_TAIL@
}

/// No character of `text` from `from` on begins a marker.
pub open spec fn plain_from(text: Seq<char>, from: int) -> bool
    decreases text.len() - from,
{
    if from < 0 || from >= text.len() {
        true
    } else {
        text[from] != MARK && plain_from(text, from + 1)
    }
}

/// A text that is plain from a place on, character by character, holds no
/// mark from that place on.
pub proof fn lemma_plain_from(text: Seq<char>, from: int)
    requires
        0 <= from,
        plain_from(text, from),
    ensures
        forall|i: int| from <= i < text.len() ==> text[i] != MARK,
        from == 0 ==> is_plain(text),
    decreases text.len() - from,
{
    if from < text.len() {
        lemma_plain_from(text, from + 1);
    }
}

/// The head of the template holds no mark.
proof fn lemma_head_is_plain()
    ensures
        is_plain(TEMPLATE_HEAD@),
{
    reveal_strlit(r#"<?xml version="1.0" encoding="UTF-8"?>
<!DOCTYPE plist PUBLIC "-//Apple//DTD PLIST 1.0//EN" "http://www.apple.com/DTDs/PropertyList-1.0.dtd">
<plist version="1.0">
<dict>
    <key>items</key>
    <array>
        <dict>
            <key>assets</key>
            <array>
                <dict>
                    <key>kind</key>
                    <string>software-package</string>
                    <key>url</key>
                    <string>https://"#);
    reveal_with_fuel(plain_from, 52);
    let text = TEMPLATE_HEAD@;
    assert(plain_from(text, 450));
    assert(plain_from(text, 400));
    assert(plain_from(text, 350));
    assert(plain_from(text, 300));
    assert(plain_from(text, 250));
    assert(plain_from(text, 200));
    assert(plain_from(text, 150));
    assert(plain_from(text, 100));
    assert(plain_from(text, 50));
    assert(plain_from(text, 0));
    lemma_plain_from(text, 0);
}

/// The text between host and key holds no mark.
proof fn lemma_path_is_plain()
    ensures
        is_plain(TEMPLATE_PATH@),
{
    reveal_strlit(r#"/apps/"#);
    reveal_with_fuel(plain_from, 52);
    let text = TEMPLATE_PATH@;
    assert(plain_from(text, 0));
    lemma_plain_from(text, 0);
}

/// The text between key and bundle identifier holds no mark.
proof fn lemma_assets_end_is_plain()
    ensures
        is_plain(TEMPLATE_ASSETS_END@),
{
    reveal_strlit(r#"/ipa</string>
                </dict>
            </array>
            <key>metadata</key>
            <dict>
                <key>bundle-identifier</key>
                <string>"#);
    reveal_with_fuel(plain_from, 52);
    let text = TEMPLATE_ASSETS_END@;
    assert(plain_from(text, 150));
    assert(plain_from(text, 100));
    assert(plain_from(text, 50));
    assert(plain_from(text, 0));
    lemma_plain_from(text, 0);
}

/// The text between bundle identifier and bundle version holds no mark.
proof fn lemma_version_key_is_plain()
    ensures
        is_plain(TEMPLATE_VERSION_KEY@),
{
    reveal_strlit(r#"</string>
                <key>bundle-version</key>
                <string>"#);
    reveal_with_fuel(plain_from, 52);
    let text = TEMPLATE_VERSION_KEY@;
    assert(plain_from(text, 50));
    assert(plain_from(text, 0));
    lemma_plain_from(text, 0);
}

/// The text between bundle version and title holds no mark.
proof fn lemma_title_key_is_plain()
    ensures
        is_plain(TEMPLATE_TITLE_KEY@),
{
    reveal_strlit(r#"</string>
                <key>kind</key>
                <string>software</string>
                <key>title</key>
                <string>"#);
    reveal_with_fuel(plain_from, 52);
    let text = TEMPLATE_TITLE_KEY@;
    assert(plain_from(text, 100));
    assert(plain_from(text, 50));
    assert(plain_from(text, 0));
    lemma_plain_from(text, 0);
}

/// The tail of the template holds no mark.
proof fn lemma_tail_is_plain()
    ensures
        is_plain(TEMPLATE_TAIL@),
{
    reveal_strlit(r#"</string>
            </dict>
        </dict>
    </array>
</dict>
</plist>
"#);
    reveal_with_fuel(plain_from, 52);
    let text = TEMPLATE_TAIL@;
    assert(plain_from(text, 50));
    assert(plain_from(text, 0));
    lemma_plain_from(text, 0);
}

/// Joining texts one after the other gives the same text however the joins
/// are grouped.
proof fn lemma_join_regroups(a: Seq<char>, b: Seq<char>, c: Seq<char>)
    ensures
        (a + b) + c == a + (b + c),
{
    assert((a + b) + c =~= a + (b + c));
}

/// A text stands where it was joined in.
proof fn lemma_occurs_where_joined(before: Seq<char>, needle: Seq<char>, after: Seq<char>)
    ensures
        occurs_at(before + (needle + after), before.len() as int, needle),
        occurs_in(before + (needle + after), needle),
{
    let text = before + (needle + after);
    assert(text.subrange(before.len() as int, (before.len() + needle.len()) as int) =~= needle);
}

/// The built-in template is sound: it has each marker once, in the order of
/// a layout, between six texts that hold no mark. So it has a place for
/// every field.
pub proof fn lemma_template_is_laid_out()
    ensures
        template_parts().len() == 6,
        forall|i: int| 0 <= i < 6 ==> is_plain(#[trigger] template_parts()[i]),
        template_text() == layout(template_parts()),
        is_complete(template_text()),
{
    lemma_head_is_plain();
    lemma_path_is_plain();
    lemma_assets_end_is_plain();
    lemma_version_key_is_plain();
    lemma_title_key_is_plain();
    lemma_tail_is_plain();
    let p = template_parts();
    let m0 = marker(Field::Host);
    let m1 = marker(Field::Id);
    let m2 = marker(Field::BundleIdentifier);
    let m3 = marker(Field::BundleVersion);
    let m4 = marker(Field::Title);
    let r9 = m4 + p[5];
    let r8 = p[4] + r9;
    let r7 = m3 + r8;
    let r6 = p[3] + r7;
    let r5 = m2 + r6;
    let r4 = p[2] + r5;
    let r3 = m1 + r4;
    let r2 = p[1] + r3;
    let r1 = m0 + r2;
    let l1 = p[0] + m0;
    let l2 = l1 + p[1];
    let l3 = l2 + m1;
    let l4 = l3 + p[2];
    let l5 = l4 + m2;
    let l6 = l5 + p[3];
    let l7 = l6 + m3;
    let l8 = l7 + p[4];
    let l9 = l8 + m4;
    lemma_join_regroups(l8, m4, p[5]);
    lemma_join_regroups(l7, p[4], r9);
    lemma_join_regroups(l6, m3, r8);
    lemma_join_regroups(l5, p[3], r7);
    lemma_join_regroups(l4, m2, r6);
    lemma_join_regroups(l3, p[2], r5);
    lemma_join_regroups(l2, m1, r4);
    lemma_join_regroups(l1, p[1], r3);
    lemma_join_regroups(p[0], m0, r2);
    let text = template_text();
    assert(text == l9 + p[5]);
    assert(text == l8 + r9);
    assert(text == l6 + r7);
    assert(text == l4 + r5);
    assert(text == l2 + r3);
    assert(text == p[0] + r1);
    assert(layout(p) == p[0] + r1);
    lemma_occurs_where_joined(l8, m4, p[5]);
    lemma_occurs_where_joined(l6, m3, r8);
    lemma_occurs_where_joined(l4, m2, r6);
    lemma_occurs_where_joined(l2, m1, r4);
    lemma_occurs_where_joined(p[0], m0, r2);
}

/// What the built-in template gives: its six texts as they are, with the
/// five values in the places of the markers, whatever the values hold.
pub proof fn lemma_template_filled(values: Values)
    ensures
        rendered(template_text(), values) == layout_filled(template_parts(), values),
{
    lemma_template_is_laid_out();
    lemma_layout_filled(template_parts(), values);
}

/// The built-in template. It has a place for every field.
pub fn manifest_template() -> (template: String)
    ensures
        template@ == template_text(),
        is_complete(template@),
{
    proof {
        lemma_template_is_laid_out();
    }
    let mut template = TEMPLATE_HEAD.to_owned();
    template.append("$HOST");
    template.append(TEMPLATE_PATH);
    template.append("$ID");
    template.append(TEMPLATE_ASSETS_END);
    template.append("$BUNDLE_IDENTIFIER");
    template.append(TEMPLATE_VERSION_KEY);
    template.append("$BUNDLE_VERSION");
    template.append(TEMPLATE_TITLE_KEY);
    template.append("$TITLE");
    template.append(TEMPLATE_TAIL);
    template
}

/// The text of a layout is as long as its six texts and its five markers
/// together, and filling it puts the lengths of the values in the place of
/// the 47 characters of the markers.
pub proof fn lemma_filled_length(parts: Seq<Seq<char>>, values: Values)
    requires
        parts.len() == 6,
    ensures
        layout(parts).len() == parts[0].len() + parts[1].len() + parts[2].len() + parts[3].len()
            + parts[4].len() + parts[5].len() + 47,
        layout_filled(parts, values).len() + 47 == layout(parts).len() + values.host.len()
            + values.id.len() + values.bundle_identifier.len() + values.bundle_version.len()
            + values.title.len(),
{
    lemma_markers();
}

/// The markers as characters.
struct Markers {
    host: Vec<char>,
    id: Vec<char>,
    bundle_identifier: Vec<char>,
    bundle_version: Vec<char>,
    title: Vec<char>,
}

impl Markers {
    spec fn wf(self) -> bool {
        &&& self.host@ == marker(Field::Host)
        &&& self.id@ == marker(Field::Id)
        &&& self.bundle_identifier@ == marker(Field::BundleIdentifier)
        &&& self.bundle_version@ == marker(Field::BundleVersion)
        &&& self.title@ == marker(Field::Title)
    }

    fn new() -> (markers: Markers)
        ensures
            markers.wf(),
    {
        Markers {
            host: chars_of("$HOST"),
            id: chars_of("$ID"),
            bundle_identifier: chars_of("$BUNDLE_IDENTIFIER"),
            bundle_version: chars_of("$BUNDLE_VERSION"),
            title: chars_of("$TITLE"),
        }
    }

    fn of(&self, field: Field) -> (chars: &Vec<char>)
        requires
            self.wf(),
        ensures
            chars@ == marker(field),
    {
        match field {
            Field::Host => &self.host,
            Field::Id => &self.id,
            Field::BundleIdentifier => &self.bundle_identifier,
            Field::BundleVersion => &self.bundle_version,
            Field::Title => &self.title,
        }
    }
}

/// A marker stands at a place of a text exactly where the rest of the text
/// from that place on begins with it.
proof fn lemma_occurs_is_prefix(text: Seq<char>, at: int, needle: Seq<char>)
    requires
        0 <= at <= text.len(),
    ensures
        occurs_at(text, at, needle) == needle.is_prefix_of(text.skip(at)),
{
    if at + needle.len() <= text.len() {
        assert(text.skip(at).subrange(0, needle.len() as int) =~= text.subrange(
            at,
            at + needle.len(),
        ));
    }
}

fn opens_here(text: &[char], at: usize, done: Filled, markers: &Markers, field: Field) -> (opens: bool)
    requires
        markers.wf(),
        at <= text.len(),
    ensures
        opens == opens_with(text@.skip(at as int), done, field),
{
    let filled = match field {
        Field::Host => done.host,
        Field::Id => done.id,
        Field::BundleIdentifier => done.bundle_identifier,
        Field::BundleVersion => done.bundle_version,
        Field::Title => done.title,
    };
    proof {
        lemma_occurs_is_prefix(text@, at as int, marker(field));
    }
    !filled && found_at(text, at, markers.of(field).as_slice())
}

fn field_here(text: &[char], at: usize, done: Filled, markers: &Markers) -> (field: Option<Field>)
    requires
        markers.wf(),
        at <= text.len(),
    ensures
        field == field_at(text@.skip(at as int), done),
{
    if opens_here(text, at, done, markers, Field::Host) {
        Some(Field::Host)
    } else if opens_here(text, at, done, markers, Field::Id) {
        Some(Field::Id)
    } else if opens_here(text, at, done, markers, Field::BundleIdentifier) {
        Some(Field::BundleIdentifier)
    } else if opens_here(text, at, done, markers, Field::BundleVersion) {
        Some(Field::BundleVersion)
    } else if opens_here(text, at, done, markers, Field::Title) {
        Some(Field::Title)
    } else {
        None
    }
}

fn mark_done(done: Filled, field: Field) -> (next: Filled)
    ensures
        next == done.with(field),
{
    match field {
        Field::Host => Filled { host: true, ..done },
        Field::Id => Filled { id: true, ..done },
        Field::BundleIdentifier => Filled { bundle_identifier: true, ..done },
        Field::BundleVersion => Filled { bundle_version: true, ..done },
        Field::Title => Filled { title: true, ..done },
    }
}

/// One step of filling at a marker: the marker lies within the text, is not
/// empty, and gives way to its value.
proof fn lemma_step_marker(text: Seq<char>, at: int, field: Field, values: Values, done: Filled)
    requires
        0 <= at < text.len(),
        field_at(text.skip(at), done) == Some(field),
    ensures
        marker(field).len() > 0,
        at + marker(field).len() <= text.len(),
        filled(text.skip(at), values, done) == values.of(field) + filled(
            text.skip(at + marker(field).len()),
            values,
            done.with(field),
        ),
{
    lemma_markers();
    assert(opens_with(text.skip(at), done, field));
    assert(text.skip(at).skip(marker(field).len() as int) =~= text.skip(at + marker(field).len()));
}

/// One step of filling at a character that begins no marker: the character
/// stays.
proof fn lemma_step_plain(text: Seq<char>, at: int, values: Values, done: Filled)
    requires
        0 <= at < text.len(),
        field_at(text.skip(at), done) is None,
    ensures
        filled(text.skip(at), values, done) == seq![text[at]] + filled(
            text.skip(at + 1),
            values,
            done,
        ),
{
    assert(text.skip(at).skip(1) =~= text.skip(at + 1));
    assert(text.skip(at)[0] == text[at]);
}

/// What is written stays the same text when a copied part and a value move
/// from what is still to come into what is done.
proof fn lemma_regroup_value(
    written: Seq<char>,
    part: Seq<char>,
    value: Seq<char>,
    rest: Seq<char>,
)
    ensures
        (written + part + value) + Seq::<char>::empty() + rest == written + part + (value + rest),
{
    assert((written + part + value) + Seq::<char>::empty() + rest =~= written + part + (value
        + rest));
}

/// What is written stays the same text when the part that is still to be
/// copied grows by one character.
proof fn lemma_regroup_char(written: Seq<char>, text: Seq<char>, from: int, at: int, rest: Seq<char>)
    requires
        0 <= from <= at < text.len(),
    ensures
        written + text.subrange(from, at + 1) + rest == written + text.subrange(from, at) + (
        seq![text[at]] + rest),
{
    assert(text.subrange(from, at + 1) =~= text.subrange(from, at) + seq![text[at]]);
    assert(written + (text.subrange(from, at) + seq![text[at]]) + rest =~= written
        + text.subrange(from, at) + (seq![text[at]] + rest));
}

/// Fills the markers of `template` with the given values.
pub fn render(
    template: &str,
    host: &str,
    id: &str,
    bundle_identifier: &str,
    bundle_version: &str,
    title: &str,
) -> (document: String)
    ensures
        document@ == rendered(
            template@,
            Values {
                host: host@,
                id: id@,
                bundle_identifier: bundle_identifier@,
                bundle_version: bundle_version@,
                title: title@,
            },
        ),
{
    let ghost values = Values {
        host: host@,
        id: id@,
        bundle_identifier: bundle_identifier@,
        bundle_version: bundle_version@,
        title: title@,
    };
    let ghost goal = rendered(template@, values);
    let markers = Markers::new();
    let text = chars_of(template);
    let mut document = String::new();
    let mut done = Filled {
        host: false,
        id: false,
        bundle_identifier: false,
        bundle_version: false,
        title: false,
    };
    let mut at: usize = 0;
    let mut copied: usize = 0;
    proof {
        assert(text@.skip(0) =~= text@);
        assert(document@ + text@.subrange(0, 0) + filled(text@, values, done) =~= filled(
            text@,
            values,
            done,
        ));
    }
    while at < text.len()
        invariant
            markers.wf(),
            text@ == template@,
            copied <= at <= text.len(),
            values.host == host@,
            values.id == id@,
            values.bundle_identifier == bundle_identifier@,
            values.bundle_version == bundle_version@,
            values.title == title@,
            goal == document@ + text@.subrange(copied as int, at as int) + filled(
                text@.skip(at as int),
                values,
                done,
            ),
        decreases text.len() - at,
    {
        let ghost written = document@;
        let ghost part = text@.subrange(copied as int, at as int);
        match field_here(text.as_slice(), at, done, &markers) {
            Some(field) => {
                proof {
                    lemma_step_marker(text@, at as int, field, values, done);
                }
                document.append(template.substring_char(copied, at));
                let value = match field {
                    Field::Host => host,
                    Field::Id => id,
                    Field::BundleIdentifier => bundle_identifier,
                    Field::BundleVersion => bundle_version,
                    Field::Title => title,
                };
                document.append(value);
                let width = markers.of(field).len();
                proof {
                    assert(value@ == values.of(field));
                    lemma_regroup_value(
                        written,
                        part,
                        value@,
                        filled(text@.skip(at + width), values, done.with(field)),
                    );
                    assert(text@.subrange(at + width, at + width) =~= Seq::<char>::empty());
                }
                at += width;
                copied = at;
                done = mark_done(done, field);
            },
            None => {
                proof {
                    lemma_step_plain(text@, at as int, values, done);
                    lemma_regroup_char(
                        written,
                        text@,
                        copied as int,
                        at as int,
                        filled(text@.skip(at + 1), values, done),
                    );
                }
                at += 1;
            },
        }
    }
    proof {
        assert(text@.skip(at as int) =~= Seq::<char>::empty());
        assert(document@ + text@.subrange(copied as int, at as int) + Seq::<char>::empty()
            =~= document@ + text@.subrange(copied as int, at as int));
    }
    document.append(template.substring_char(copied, at));
    document
}

/// Whether the template has a place for every field. A template that fails
/// this is a fault of the build, found before any request is served.
pub fn template_is_complete(template: &str) -> (complete: bool)
    ensures
        complete == is_complete(template@),
{
    let markers = Markers::new();
    let text = chars_of(template);
    find(text.as_slice(), markers.host.as_slice()).is_some() && find(
        text.as_slice(),
        markers.id.as_slice(),
    ).is_some() && find(text.as_slice(), markers.bundle_identifier.as_slice()).is_some() && find(
        text.as_slice(),
        markers.bundle_version.as_slice(),
    ).is_some() && find(text.as_slice(), markers.title.as_slice()).is_some()
}

} // verus!
