use std::io::Cursor;
use std::io::Write;

use ipa_catalog::archive::{find_app_dir, modified_at, names_bundle_root, open, pick_bundle_root, read_entry, Stamp};
use ipa_catalog::descriptor::{find_info_plist, parse_descriptor, read_descriptor};
use ipa_catalog::icon::{candidate_path, extract_icon, image_text};
use ipa_catalog::timestamp::{binary_last_change, binary_path, resolve_timestamp, Timestamp};
use ipa_catalog::app::file_stem;
use ipa_catalog::{App, Error};

/// The fields of 2024-03-01 10:00:00.
const BUILT: (u16, u8, u8, u8, u8, u8) = (2024, 3, 1, 10, 0, 0);

fn archive_of(entries: &[(&str, &[u8], (u16, u8, u8, u8, u8, u8))]) -> Vec<u8> {
    let mut writer = zip::ZipWriter::new(Cursor::new(Vec::new()));
    for (name, bytes, at) in entries {
        let stamp = zip::DateTime::from_date_and_time(at.0, at.1, at.2, at.3, at.4, at.5).unwrap();
        let options = zip::write::FileOptions::default()
            .compression_method(zip::CompressionMethod::Deflated)
            .last_modified_time(stamp);
        if name.ends_with('/') {
            writer.add_directory(*name, options).unwrap();
        } else {
            writer.start_file(*name, options).unwrap();
            writer.write_all(bytes).unwrap();
        }
    }
    writer.finish().unwrap().into_inner()
}

fn text(value: &str) -> plist::Value {
    plist::Value::String(value.to_owned())
}

fn descriptor(pairs: &[(&str, plist::Value)]) -> plist::Value {
    let mut dictionary = plist::Dictionary::new();
    for (key, value) in pairs {
        dictionary.insert((*key).to_owned(), value.clone());
    }
    plist::Value::Dictionary(dictionary)
}

fn icons(files: &[&str]) -> plist::Value {
    let list = plist::Value::Array(files.iter().map(|file| text(file)).collect());
    descriptor(&[("CFBundlePrimaryIcon", descriptor(&[("CFBundleIconFiles", list)]))])
}

fn full_descriptor() -> plist::Value {
    descriptor(&[
        ("CFBundleExecutable", text("Demo")),
        ("CFBundleIdentifier", text("com.example.app1")),
        ("CFBundleShortVersionString", text("1.2")),
        ("CFBundleVersion", text("42b")),
        ("CFBundleDisplayName", text("Demo App")),
        ("CFBundleName", text("DemoInternal")),
        ("CFBundleIcons", icons(&["small", "icon"])),
    ])
}

fn xml(value: &plist::Value) -> Vec<u8> {
    let mut bytes = Vec::new();
    value.to_writer_xml(&mut bytes).unwrap();
    bytes
}

fn binary(value: &plist::Value) -> Vec<u8> {
    let mut bytes = Vec::new();
    value.to_writer_binary(&mut bytes).unwrap();
    bytes
}

fn package(descriptor: &[u8], extra: &[(&str, &[u8])]) -> Vec<u8> {
    let mut entries: Vec<(&str, &[u8], (u16, u8, u8, u8, u8, u8))> = vec![
        ("Payload/", b"", (2020, 1, 1, 0, 0, 0)),
        ("Payload/Demo.app/", b"", (2020, 1, 1, 0, 0, 0)),
        ("Payload/Demo.app/Info.plist", descriptor, (2021, 5, 5, 5, 5, 4)),
        ("Payload/Demo.app/Demo", b"\xca\xfe\xba\xbe", BUILT),
    ];
    for (name, bytes) in extra {
        entries.push((*name, *bytes, (2022, 2, 2, 2, 2, 2)));
    }
    archive_of(&entries)
}

#[test]
fn record_holds_what_the_package_says() {
    let bytes = package(&xml(&full_descriptor()), &[("Payload/Demo.app/icon.png", b"plain")]);
    let size = bytes.len() as u64;
    let app = App::new("app1.ipa", bytes, 2).unwrap();
    assert_eq!(app.id(), "app1");
    assert_eq!(app.bundle_id(), "com.example.app1");
    assert_eq!(app.name(), "Demo App");
    assert_eq!(app.version(), "1.2");
    assert_eq!(app.build(), "42b");
    assert_eq!(app.size(), size);
    assert_eq!(*app.date(), Timestamp { seconds: 1709280000, offset: 7200 });
    assert_eq!(app.icon(), Some(&b"plain".to_vec()));
}

#[test]
fn id_is_the_base_name_of_the_file() {
    let bytes = package(&xml(&full_descriptor()), &[]);
    assert_eq!(App::new("app1.ipa", bytes.clone(), 0).unwrap().id(), "app1");
    assert_eq!(App::new("my.app.v2.ipa", bytes.clone(), 0).unwrap().id(), "my.app.v2");
    assert_eq!(App::new("plain", bytes, 0).unwrap().id(), "plain");
}

#[test]
fn file_stem_cuts_at_the_last_dot() {
    assert_eq!(file_stem("app1.ipa"), "app1");
    assert_eq!(file_stem("a.b.c"), "a.b");
    assert_eq!(file_stem("noextension"), "noextension");
    assert_eq!(file_stem(".hidden"), ".hidden");
    assert_eq!(file_stem(".hidden.ipa"), ".hidden");
    assert_eq!(file_stem("trailing."), "trailing");
    assert_eq!(file_stem(""), "");
    assert_eq!(file_stem("ünï.ipa"), "ünï");
}

#[test]
fn binary_descriptor_is_read_too() {
    let bytes = package(&binary(&full_descriptor()), &[]);
    let app = App::new("app1.ipa", bytes, 0).unwrap();
    assert_eq!(app.bundle_id(), "com.example.app1");
    assert_eq!(app.name(), "Demo App");
}

#[test]
fn bytes_that_are_no_archive_are_malformed() {
    assert_eq!(App::new("app1.ipa", b"not a zip file at all".to_vec(), 0).unwrap_err(), Error::PackageMalformed);
    assert_eq!(App::new("app1.ipa", Vec::new(), 0).unwrap_err(), Error::PackageMalformed);
    assert_eq!(open(b"PK".to_vec()).err(), Some(Error::PackageMalformed));
}

#[test]
fn container_without_bundle_directory_is_malformed() {
    let bytes = archive_of(&[
        ("Payload/", b"", BUILT),
        ("Payload/Demo.app/Info.plist", &xml(&full_descriptor()), BUILT),
        ("Payload/Demo.app/Demo", b"x", BUILT),
        ("Payload/Demo.bundle/", b"", BUILT),
        ("Other/Demo.app/", b"", BUILT),
        ("Payload/Nested/Demo.app/", b"", BUILT),
        ("Payload/Demo.app", b"a file", BUILT),
    ]);
    let archive = open(bytes.clone()).unwrap();
    assert_eq!(find_app_dir(&archive), Err(Error::PackageMalformed));
    assert_eq!(App::new("app1.ipa", bytes, 0).unwrap_err(), Error::PackageMalformed);
}

#[test]
fn bundle_is_found_wherever_it_stands() {
    let bytes = archive_of(&[
        ("Payload/Demo.app/Demo", b"x", BUILT),
        ("Payload/Demo.app/Info.plist", &xml(&full_descriptor()), BUILT),
        ("META-INF/", b"", BUILT),
        ("Payload/", b"", BUILT),
        ("iTunesArtwork", b"art", BUILT),
        ("Payload/Demo.app/", b"", BUILT),
    ]);
    let archive = open(bytes.clone()).unwrap();
    assert_eq!(find_app_dir(&archive), Ok("Payload/Demo.app/".to_owned()));
    assert_eq!(App::new("app1.ipa", bytes, 0).unwrap().id(), "app1");
}

#[test]
fn first_bundle_in_lexicographic_order_wins() {
    let entries: [(&str, &[u8], (u16, u8, u8, u8, u8, u8)); 4] = [
        ("Payload/Zeta.app/", b"", BUILT),
        ("Payload/Beta.app/", b"", BUILT),
        ("Payload/Alpha.app/", b"", BUILT),
        ("Payload/Alpha2.app/", b"", BUILT),
    ];
    let forward = open(archive_of(&entries)).unwrap();
    assert_eq!(find_app_dir(&forward), Ok("Payload/Alpha.app/".to_owned()));
    let mut reversed = entries;
    reversed.reverse();
    let backward = open(archive_of(&reversed)).unwrap();
    assert_eq!(find_app_dir(&backward), Ok("Payload/Alpha.app/".to_owned()));
}

#[test]
fn pick_bundle_root_takes_the_least_name() {
    let names = vec![
        "Payload/b.app/".to_owned(),
        "Payload/".to_owned(),
        "Payload/B.app/".to_owned(),
        "Payload/a.app/x".to_owned(),
        "Payload/ab.app/".to_owned(),
    ];
    assert_eq!(pick_bundle_root(&names), Some("Payload/B.app/".to_owned()));
    assert_eq!(pick_bundle_root(&Vec::new()), None);
    assert_eq!(pick_bundle_root(&vec!["Payload/.app/".to_owned()]), None);
}

#[test]
fn bundle_root_names() {
    let is_root = |name: &str| names_bundle_root(&name.chars().collect::<Vec<char>>());
    assert!(is_root("Payload/Demo.app/"));
    assert!(is_root("Payload/D.app/"));
    assert!(is_root("Payload/My App.app/"));
    assert!(!is_root("Payload/.app/"));
    assert!(!is_root("Payload/Demo.app"));
    assert!(!is_root("Payload/Demo.ipa/"));
    assert!(!is_root("Payload/Sub/Demo.app/"));
    assert!(!is_root("payload/Demo.app/"));
    assert!(!is_root("Demo.app/"));
    assert!(!is_root("Payload/Demo.app/Info.plist"));
    assert!(!is_root(""));
}

#[test]
fn entry_that_the_directory_does_not_list_is_missing() {
    let bytes = archive_of(&[("Payload/Demo.app/", b"", BUILT), ("Payload/Demo.app/Info.plist", &xml(&full_descriptor()), BUILT)]);
    let mut archive = open(bytes).unwrap();
    assert_eq!(modified_at(&mut archive, "Payload/Demo.app/Demo"), None);
    assert_eq!(read_entry(&mut archive, "Payload/Demo.app/Demo"), None);
    assert_eq!(binary_last_change(&mut archive, "Payload/Demo.app/", None, 0), Err(Error::BinaryEntryMissing));
    assert_eq!(find_info_plist(&mut archive, "Payload/Other.app/").unwrap_err(), Error::MetadataMissing);
    assert_eq!(extract_icon(&mut archive, "Payload/Demo.app/", "icon"), None);
}

#[test]
fn missing_descriptor_is_reported() {
    let bytes = archive_of(&[("Payload/Demo.app/", b"", BUILT), ("Payload/Demo.app/Demo", b"x", BUILT)]);
    assert_eq!(App::new("app1.ipa", bytes.clone(), 0).unwrap_err(), Error::MetadataMissing);
    let mut archive = open(bytes).unwrap();
    assert_eq!(find_info_plist(&mut archive, "Payload/Demo.app/").unwrap_err(), Error::MetadataMissing);
}

#[test]
fn descriptor_that_is_no_property_list_is_corrupt() {
    let bytes = package(b"this is not a property list", &[]);
    assert_eq!(App::new("app1.ipa", bytes, 0).unwrap_err(), Error::MetadataCorrupt);
    assert_eq!(parse_descriptor(Vec::new()).unwrap_err(), Error::MetadataCorrupt);
    assert_eq!(parse_descriptor(b"<plist><dict>".to_vec()).unwrap_err(), Error::MetadataCorrupt);
}

#[test]
fn descriptor_that_is_no_dictionary_is_corrupt() {
    assert_eq!(read_descriptor(&text("just text")).unwrap_err(), Error::MetadataCorrupt);
    assert_eq!(read_descriptor(&plist::Value::Array(vec![full_descriptor()])).unwrap_err(), Error::MetadataCorrupt);
    let bytes = package(&xml(&plist::Value::Boolean(true)), &[]);
    assert_eq!(App::new("app1.ipa", bytes, 0).unwrap_err(), Error::MetadataCorrupt);
}

#[test]
fn each_required_field_must_be_text() {
    let required = ["CFBundleExecutable", "CFBundleIdentifier", "CFBundleShortVersionString", "CFBundleVersion"];
    for key in required {
        let mut absent = full_descriptor().into_dictionary().unwrap();
        absent.remove(key);
        assert_eq!(read_descriptor(&plist::Value::Dictionary(absent)).unwrap_err(), Error::MetadataIncomplete);
        let mut number = full_descriptor().into_dictionary().unwrap();
        number.insert(key.to_owned(), plist::Value::Integer(7.into()));
        assert_eq!(read_descriptor(&plist::Value::Dictionary(number)).unwrap_err(), Error::MetadataIncomplete);
    }
    let bytes = package(&xml(&descriptor(&[("CFBundleExecutable", text("Demo"))])), &[]);
    assert_eq!(App::new("app1.ipa", bytes, 0).unwrap_err(), Error::MetadataIncomplete);
}

#[test]
fn display_name_falls_back_to_the_bundle_name() {
    let mut fields = full_descriptor().into_dictionary().unwrap();
    fields.remove("CFBundleDisplayName");
    let value = plist::Value::Dictionary(fields);
    assert_eq!(read_descriptor(&value).unwrap().display_name, "DemoInternal");
    let app = App::new("app1.ipa", package(&xml(&value), &[]), 0).unwrap();
    assert_eq!(app.name(), "DemoInternal");
}

#[test]
fn display_name_is_required_in_one_of_its_forms() {
    let mut neither = full_descriptor().into_dictionary().unwrap();
    neither.remove("CFBundleDisplayName");
    neither.remove("CFBundleName");
    assert_eq!(read_descriptor(&plist::Value::Dictionary(neither)).unwrap_err(), Error::MetadataIncomplete);
    let mut odd = full_descriptor().into_dictionary().unwrap();
    odd.insert("CFBundleDisplayName".to_owned(), plist::Value::Boolean(false));
    assert_eq!(read_descriptor(&plist::Value::Dictionary(odd)).unwrap_err(), Error::MetadataIncomplete);
    let mut fallback_odd = full_descriptor().into_dictionary().unwrap();
    fallback_odd.remove("CFBundleDisplayName");
    fallback_odd.insert("CFBundleName".to_owned(), plist::Value::Integer(1.into()));
    assert_eq!(read_descriptor(&plist::Value::Dictionary(fallback_odd)).unwrap_err(), Error::MetadataIncomplete);
}

#[test]
fn descriptor_fields_are_taken_over() {
    let metadata = read_descriptor(&full_descriptor()).unwrap();
    assert_eq!(metadata.executable, "Demo");
    assert_eq!(metadata.bundle_identifier, "com.example.app1");
    assert_eq!(metadata.version, "1.2");
    assert_eq!(metadata.build, "42b");
    assert_eq!(metadata.display_name, "Demo App");
    assert_eq!(metadata.icon_name, Some("icon".to_owned()));
}

#[test]
fn declared_icon_is_the_last_of_the_primary_files() {
    let with = |icons: plist::Value| {
        let mut fields = full_descriptor().into_dictionary().unwrap();
        fields.insert("CFBundleIcons".to_owned(), icons);
        read_descriptor(&plist::Value::Dictionary(fields)).unwrap().icon_name
    };
    assert_eq!(with(icons(&["a", "b", "c"])), Some("c".to_owned()));
    assert_eq!(with(icons(&["only"])), Some("only".to_owned()));
    assert_eq!(with(icons(&[])), None);
    assert_eq!(with(text("icon")), None);
    assert_eq!(with(descriptor(&[("CFBundlePrimaryIcon", text("icon"))])), None);
    assert_eq!(with(descriptor(&[("CFBundlePrimaryIcon", descriptor(&[("CFBundleIconFiles", text("icon"))]))])), None);
    let mixed = plist::Value::Array(vec![text("icon"), plist::Value::Integer(3.into())]);
    assert_eq!(with(descriptor(&[("CFBundlePrimaryIcon", descriptor(&[("CFBundleIconFiles", mixed)]))])), None);
    let mut none = full_descriptor().into_dictionary().unwrap();
    none.remove("CFBundleIcons");
    assert_eq!(read_descriptor(&plist::Value::Dictionary(none)).unwrap().icon_name, None);
}

#[test]
fn build_time_is_the_recorded_time_at_the_offset() {
    let stamp = Stamp { year: 2024, month: 3, day: 1, hour: 10, minute: 0, second: 0 };
    let expected = chrono::DateTime::parse_from_rfc3339("2024-03-01T10:00:00+02:00").unwrap();
    let at = resolve_timestamp(stamp, 2).unwrap();
    assert_eq!(at.seconds, expected.timestamp());
    assert_eq!(at.seconds, 1709280000);
    assert_eq!(at.offset, 7200);
    let app = App::new("app1.ipa", package(&xml(&full_descriptor()), &[]), 2).unwrap();
    assert_eq!(*app.date(), at);
}

#[test]
fn offsets_shift_the_point_in_time() {
    let stamp = Stamp { year: 1970, month: 1, day: 1, hour: 0, minute: 0, second: 0 };
    assert_eq!(resolve_timestamp(stamp, 0), Some(Timestamp { seconds: 0, offset: 0 }));
    assert_eq!(resolve_timestamp(stamp, 1), Some(Timestamp { seconds: -3600, offset: 3600 }));
    assert_eq!(resolve_timestamp(stamp, -5), Some(Timestamp { seconds: 18000, offset: -18000 }));
    assert_eq!(resolve_timestamp(stamp, 23), Some(Timestamp { seconds: -82800, offset: 82800 }));
    assert_eq!(resolve_timestamp(stamp, -23), Some(Timestamp { seconds: 82800, offset: -82800 }));
    let leap = Stamp { year: 2024, month: 2, day: 29, hour: 23, minute: 59, second: 58 };
    assert_eq!(resolve_timestamp(leap, 0), Some(Timestamp { seconds: 1709251198, offset: 0 }));
}

fn leap(year: i64) -> bool {
    year % 4 == 0 && (year % 100 != 0 || year % 400 == 0)
}

fn days_of(year: i64, month: i64) -> i64 {
    match month {
        2 => if leap(year) { 29 } else { 28 },
        4 | 6 | 9 | 11 => 30,
        _ => 31,
    }
}

fn counted(year: i64, month: i64, day: i64, hour: i64, minute: i64, second: i64, offset: i64) -> i64 {
    let before = |y: i64| 365 * y + (y - 1).div_euclid(4) - (y - 1).div_euclid(100) + (y - 1).div_euclid(400) + 1;
    let in_year: i64 = (1..month).map(|m| days_of(year, m)).sum();
    (before(year) + in_year + day - 1 - before(1970)) * 86400 + hour * 3600 + minute * 60 + second - offset
}

#[test]
fn seconds_follow_the_calendar() {
    let mut years: Vec<u16> = vec![0, 1, 3, 4, 5, 99, 100, 101, 399, 400, 401, 1600, 1899, 1900, 1901, 1969, 1970, 1971, 2400, 9999, 32767, 65535];
    years.extend(1978..=2110);
    for year in years {
        for month in 1..=12u8 {
            for day in 1..=days_of(year as i64, month as i64) as u8 {
                for (hour, minute, second, timezone) in [(0u8, 0u8, 0u8, 0i32), (23, 59, 59, -23), (10, 30, 2, 23), (12, 0, 0, 2)] {
                    let stamp = Stamp { year, month, day, hour, minute, second };
                    let expected = counted(
                        year as i64,
                        month as i64,
                        day as i64,
                        hour as i64,
                        minute as i64,
                        second as i64,
                        3600 * timezone as i64,
                    );
                    assert_eq!(
                        resolve_timestamp(stamp, timezone),
                        Some(Timestamp { seconds: expected, offset: 3600 * timezone })
                    );
                }
            }
            let past_the_end = Stamp { year, month, day: days_of(year as i64, month as i64) as u8 + 1, hour: 0, minute: 0, second: 0 };
            assert_eq!(resolve_timestamp(past_the_end, 0), None);
        }
    }
}

#[test]
fn one_hour_east_is_one_hour_earlier() {
    let stamp = Stamp { year: 2024, month: 3, day: 1, hour: 10, minute: 0, second: 0 };
    for timezone in -23..23 {
        let here = resolve_timestamp(stamp, timezone).unwrap();
        let east = resolve_timestamp(stamp, timezone + 1).unwrap();
        assert_eq!(east.seconds, here.seconds - 3600);
        assert_eq!(east.offset, here.offset + 3600);
    }
    assert_eq!(resolve_timestamp(stamp, -5), Some(Timestamp { seconds: 1709305200, offset: -18000 }));
}

#[test]
fn fields_that_name_no_time_give_none() {
    let good = Stamp { year: 2023, month: 2, day: 28, hour: 23, minute: 59, second: 59 };
    assert!(resolve_timestamp(good, 0).is_some());
    assert_eq!(resolve_timestamp(Stamp { day: 29, ..good }, 0), None);
    assert_eq!(resolve_timestamp(Stamp { year: 1900, day: 29, ..good }, 0), None);
    assert!(resolve_timestamp(Stamp { year: 2000, day: 29, ..good }, 0).is_some());
    assert_eq!(resolve_timestamp(Stamp { month: 0, ..good }, 0), None);
    assert_eq!(resolve_timestamp(Stamp { month: 13, ..good }, 0), None);
    assert_eq!(resolve_timestamp(Stamp { day: 0, ..good }, 0), None);
    assert_eq!(resolve_timestamp(Stamp { month: 4, day: 31, ..good }, 0), None);
    assert_eq!(resolve_timestamp(Stamp { hour: 24, ..good }, 0), None);
    assert_eq!(resolve_timestamp(Stamp { minute: 60, ..good }, 0), None);
    assert_eq!(resolve_timestamp(Stamp { second: 60, ..good }, 0), None);
    assert!(resolve_timestamp(Stamp { year: 0, day: 29, ..good }, 0).is_some());
    assert_eq!(resolve_timestamp(Stamp { year: 100, day: 29, ..good }, 0), None);
    assert!(resolve_timestamp(Stamp { year: 65535, month: 12, day: 31, ..good }, -23).is_some());
    assert!(resolve_timestamp(Stamp { year: 0, month: 1, day: 1, hour: 0, minute: 0, second: 0 }, 23).is_some());
    assert_eq!(resolve_timestamp(good, 24), None);
    assert_eq!(resolve_timestamp(good, -24), None);
    assert_eq!(resolve_timestamp(good, i32::MAX), None);
    assert_eq!(resolve_timestamp(good, i32::MIN), None);
}

#[test]
fn missing_executable_is_reported() {
    let bytes = archive_of(&[
        ("Payload/Demo.app/", b"", BUILT),
        ("Payload/Demo.app/Info.plist", &xml(&full_descriptor()), BUILT),
        ("Payload/Demo.app/Other", b"x", BUILT),
    ]);
    assert_eq!(App::new("app1.ipa", bytes.clone(), 0).unwrap_err(), Error::BinaryEntryMissing);
    let mut archive = open(bytes).unwrap();
    assert_eq!(binary_last_change(&mut archive, "Payload/Demo.app/", Some("Demo"), 0), Err(Error::BinaryEntryMissing));
    assert!(binary_last_change(&mut archive, "Payload/Demo.app/", Some("Other"), 0).is_ok());
}

#[test]
fn executable_with_an_impossible_date_is_reported() {
    let bytes = archive_of(&[
        ("Payload/Demo.app/", b"", BUILT),
        ("Payload/Demo.app/Info.plist", &xml(&full_descriptor()), BUILT),
        ("Payload/Demo.app/Demo", b"x", (2023, 2, 31, 1, 1, 2)),
    ]);
    assert_eq!(App::new("app1.ipa", bytes, 0).unwrap_err(), Error::BinaryEntryMissing);
}

#[test]
fn offset_of_a_day_or_more_gives_no_build_time() {
    let bytes = package(&xml(&full_descriptor()), &[]);
    assert_eq!(App::new("app1.ipa", bytes.clone(), 24).unwrap_err(), Error::BinaryEntryMissing);
    assert_eq!(App::new("app1.ipa", bytes.clone(), -1000000).unwrap_err(), Error::BinaryEntryMissing);
    assert!(App::new("app1.ipa", bytes, -23).is_ok());
}

#[test]
fn executable_defaults_to_the_base_name_of_the_bundle() {
    assert_eq!(binary_path("Payload/Demo.app/", None), "Payload/Demo.app/Demo");
    assert_eq!(binary_path("Payload/Demo.app/", Some("Runner")), "Payload/Demo.app/Runner");
    assert_eq!(binary_path("short", None), "short");
    let mut archive = open(package(&xml(&full_descriptor()), &[])).unwrap();
    let found = binary_last_change(&mut archive, "Payload/Demo.app/", None, 2);
    assert_eq!(found, Ok(Timestamp { seconds: 1709280000, offset: 7200 }));
}

#[test]
fn recorded_time_and_bytes_of_an_entry() {
    let mut archive = open(package(&xml(&full_descriptor()), &[("Payload/Demo.app/data.bin", b"payload bytes")])).unwrap();
    assert_eq!(
        modified_at(&mut archive, "Payload/Demo.app/Demo"),
        Some(Stamp { year: 2024, month: 3, day: 1, hour: 10, minute: 0, second: 0 })
    );
    assert_eq!(
        modified_at(&mut archive, "Payload/Demo.app/Info.plist"),
        Some(Stamp { year: 2021, month: 5, day: 5, hour: 5, minute: 5, second: 4 })
    );
    assert_eq!(modified_at(&mut archive, "Payload/Demo.app/Absent"), None);
    assert_eq!(read_entry(&mut archive, "Payload/Demo.app/data.bin"), Some(Some(b"payload bytes".to_vec())));
    assert_eq!(read_entry(&mut archive, "Payload/Demo.app/data.bin"), Some(Some(b"payload bytes".to_vec())));
    assert_eq!(read_entry(&mut archive, "Payload/Demo.app/Absent"), None);
}

#[test]
fn damaged_entry_cannot_be_read() {
    let content = vec![b'A'; 4000];
    let mut bytes = archive_of(&[("Payload/Demo.app/Info.plist", b"", BUILT)]);
    {
        let mut writer = zip::ZipWriter::new(Cursor::new(Vec::new()));
        let options = zip::write::FileOptions::default().compression_method(zip::CompressionMethod::Stored);
        writer.start_file("Payload/Demo.app/Info.plist", options).unwrap();
        writer.write_all(&content).unwrap();
        bytes = writer.finish().unwrap().into_inner();
    }
    let at = bytes.windows(4).position(|window| window == b"AAAA").unwrap();
    bytes[at + 100] = b'B';
    let mut archive = open(bytes.clone()).unwrap();
    assert_eq!(read_entry(&mut archive, "Payload/Demo.app/Info.plist"), Some(None));
    assert_eq!(find_info_plist(&mut archive, "Payload/Demo.app/").unwrap_err(), Error::MetadataCorrupt);
}

#[test]
fn icon_with_three_candidates_is_the_sharpest() {
    let bytes = package(
        &xml(&full_descriptor()),
        &[
            ("Payload/Demo.app/icon.png", b"plain"),
            ("Payload/Demo.app/icon@2x.png", b"twice"),
            ("Payload/Demo.app/icon@3x.png", b"thrice"),
        ],
    );
    let mut archive = open(bytes.clone()).unwrap();
    assert_eq!(extract_icon(&mut archive, "Payload/Demo.app/", "icon"), Some(b"thrice".to_vec()));
    assert_eq!(extract_icon(&mut archive, "Payload/Demo.app/", "icon"), Some(b"thrice".to_vec()));
    assert_eq!(App::new("app1.ipa", bytes, 0).unwrap().icon(), Some(&b"thrice".to_vec()));
}

#[test]
fn icon_without_the_sharpest_is_the_next() {
    let bytes = package(
        &xml(&full_descriptor()),
        &[("Payload/Demo.app/icon.png", b"plain"), ("Payload/Demo.app/icon@2x.png", b"twice")],
    );
    let mut archive = open(bytes).unwrap();
    assert_eq!(extract_icon(&mut archive, "Payload/Demo.app/", "icon"), Some(b"twice".to_vec()));
}

#[test]
fn icon_with_only_the_plain_candidate() {
    let bytes = package(&xml(&full_descriptor()), &[("Payload/Demo.app/icon.png", b"plain")]);
    let mut archive = open(bytes.clone()).unwrap();
    assert_eq!(extract_icon(&mut archive, "Payload/Demo.app/", "icon"), Some(b"plain".to_vec()));
    assert_eq!(App::new("app1.ipa", bytes, 0).unwrap().icon(), Some(&b"plain".to_vec()));
}

#[test]
fn icon_without_candidates_is_none_and_no_error() {
    let bytes = package(&xml(&full_descriptor()), &[("Payload/Demo.app/other.png", b"other")]);
    let mut archive = open(bytes.clone()).unwrap();
    assert_eq!(extract_icon(&mut archive, "Payload/Demo.app/", "icon"), None);
    let app = App::new("app1.ipa", bytes, 0).unwrap();
    assert_eq!(app.icon(), None);
    assert_eq!(app.icon_base64(), None);
}

#[test]
fn undeclared_icon_is_not_searched() {
    let mut fields = full_descriptor().into_dictionary().unwrap();
    fields.remove("CFBundleIcons");
    let bytes = package(&xml(&plist::Value::Dictionary(fields)), &[("Payload/Demo.app/icon.png", b"plain")]);
    assert_eq!(App::new("app1.ipa", bytes, 0).unwrap().icon(), None);
}

#[test]
fn empty_icon_file_counts_as_no_icon() {
    let bytes = package(
        &xml(&full_descriptor()),
        &[("Payload/Demo.app/icon@3x.png", b""), ("Payload/Demo.app/icon.png", b"plain")],
    );
    let mut archive = open(bytes).unwrap();
    assert_eq!(extract_icon(&mut archive, "Payload/Demo.app/", "icon"), None);
}

#[test]
fn icon_candidates_in_their_order() {
    assert_eq!(candidate_path("Payload/Demo.app/", "icon", 0), "Payload/Demo.app/icon@3x.png");
    assert_eq!(candidate_path("Payload/Demo.app/", "icon", 1), "Payload/Demo.app/icon@2x.png");
    assert_eq!(candidate_path("Payload/Demo.app/", "icon", 2), "Payload/Demo.app/icon.png");
}

#[test]
fn icon_as_base64_text() {
    assert_eq!(image_text(&b"hello".to_vec()), "aGVsbG8=");
    assert_eq!(image_text(&vec![0xff, 0xfe, 0xfd]), "//79");
    let bytes = package(&xml(&full_descriptor()), &[("Payload/Demo.app/icon.png", b"plain")]);
    let app = App::new("app1.ipa", bytes, 0).unwrap();
    assert_eq!(app.icon_base64(), Some("cGxhaW4=".to_owned()));
}

#[test]
fn same_bytes_give_the_same_record() {
    let bytes = package(&xml(&full_descriptor()), &[("Payload/Demo.app/icon@2x.png", b"twice")]);
    let first = App::new("app1.ipa", bytes.clone(), 3).unwrap();
    let second = App::new("app1.ipa", bytes, 3).unwrap();
    assert_eq!(first.id(), second.id());
    assert_eq!(first.bundle_id(), second.bundle_id());
    assert_eq!(first.name(), second.name());
    assert_eq!(first.version(), second.version());
    assert_eq!(first.build(), second.build());
    assert_eq!(first.date(), second.date());
    assert_eq!(first.size(), second.size());
    assert_eq!(first.icon(), second.icon());
    let copy = first.clone();
    assert_eq!(copy.id(), "app1");
    assert_eq!(copy.icon(), Some(&b"twice".to_vec()));
}
