use ipa_catalog::text::{chars_of, comes_before, ends_with, find, found_at, same, same_text, starts_with};
use ipa_catalog::watcher::{Action, Event, Watch, Watcher};
use ipa_catalog::Error;

fn chars(text: &str) -> Vec<char> {
    text.chars().collect()
}

#[test]
fn every_error_has_its_status() {
    assert_eq!(Error::InvalidApp.status_code(), 404);
    assert_eq!(Error::HostHeader.status_code(), 400);
    assert_eq!(Error::AppBinary.status_code(), 500);
    assert_eq!(Error::AppMetadata.status_code(), 500);
    assert_eq!(Error::StorageUnavailable.status_code(), 500);
    assert_eq!(Error::PackageMalformed.status_code(), 500);
    assert_eq!(Error::MetadataMissing.status_code(), 500);
    assert_eq!(Error::MetadataCorrupt.status_code(), 500);
    assert_eq!(Error::MetadataIncomplete.status_code(), 500);
    assert_eq!(Error::BinaryEntryMissing.status_code(), 500);
}

#[test]
fn every_error_has_its_words() {
    assert_eq!(Error::InvalidApp.message(), "cannot find app");
    assert_eq!(Error::HostHeader.message(), "invalid host header");
    assert_eq!(Error::AppBinary.message(), "app binary not found");
    assert_eq!(Error::AppMetadata.message(), "app metadata not found");
    assert_eq!(Error::StorageUnavailable.message(), "apps storage not found");
    assert_eq!(Error::PackageMalformed.message(), "package holds no application bundle");
    assert_eq!(Error::MetadataMissing.message(), "bundle descriptor not found");
    assert_eq!(Error::MetadataCorrupt.message(), "bundle descriptor cannot be read");
    assert_eq!(Error::MetadataIncomplete.message(), "bundle descriptor lacks a required field");
    assert_eq!(Error::BinaryEntryMissing.message(), "bundle executable not found");
}

#[test]
fn failures_of_one_package_are_skipped() {
    for error in [
        Error::PackageMalformed,
        Error::MetadataMissing,
        Error::MetadataCorrupt,
        Error::MetadataIncomplete,
        Error::BinaryEntryMissing,
    ] {
        assert!(error.skips_package());
    }
    for error in [Error::StorageUnavailable, Error::InvalidApp, Error::HostHeader, Error::AppBinary, Error::AppMetadata] {
        assert!(!error.skips_package());
    }
}

#[test]
fn characters_of_a_string() {
    assert_eq!(chars_of("abc"), vec!['a', 'b', 'c']);
    assert_eq!(chars_of(""), Vec::<char>::new());
    assert_eq!(chars_of("ü✓"), vec!['ü', '✓']);
}

#[test]
fn where_a_text_stands_in_another() {
    assert!(found_at(&chars("hello world"), 6, &chars("world")));
    assert!(!found_at(&chars("hello world"), 5, &chars("world")));
    assert!(!found_at(&chars("hello"), 3, &chars("low")));
    assert!(found_at(&chars("hello"), 5, &chars("")));
    assert!(!found_at(&chars("hello"), 6, &chars("")));
    assert!(!found_at(&chars("hello"), usize::MAX, &chars("h")));
    assert_eq!(find(&chars("abcabc"), &chars("bc")), Some(1));
    assert_eq!(find(&chars("abcabc"), &chars("abc")), Some(0));
    assert_eq!(find(&chars("abcabc"), &chars("cab")), Some(2));
    assert_eq!(find(&chars("abcabc"), &chars("abcabc")), Some(0));
    assert_eq!(find(&chars("abcabc"), &chars("abcabcd")), None);
    assert_eq!(find(&chars("abcabc"), &chars("x")), None);
    assert_eq!(find(&chars("abc"), &chars("")), Some(0));
    assert_eq!(find(&chars(""), &chars("")), Some(0));
    assert_eq!(find(&chars("aab"), &chars("ab")), Some(1));
}

#[test]
fn beginnings_and_endings() {
    assert!(starts_with(&chars("Payload/x"), &chars("Payload/")));
    assert!(!starts_with(&chars("Payloa"), &chars("Payload/")));
    assert!(starts_with(&chars("x"), &chars("")));
    assert!(ends_with(&chars("app1.ipa"), &chars(".ipa")));
    assert!(!ends_with(&chars("app1.ipa"), &chars(".app")));
    assert!(!ends_with(&chars("pa"), &chars(".ipa")));
    assert!(ends_with(&chars(""), &chars("")));
}

#[test]
fn same_texts() {
    assert!(same("abc", "abc"));
    assert!(same("", ""));
    assert!(!same("abc", "abd"));
    assert!(!same("abc", "ab"));
    assert!(!same("ab", "abc"));
    assert!(same_text(&chars("ü"), &chars("ü")));
    assert!(!same_text(&chars("a"), &chars("A")));
}

#[test]
fn lexicographic_order() {
    assert!(comes_before(&chars("a"), &chars("b")));
    assert!(!comes_before(&chars("b"), &chars("a")));
    assert!(comes_before(&chars("ab"), &chars("abc")));
    assert!(!comes_before(&chars("abc"), &chars("ab")));
    assert!(!comes_before(&chars("abc"), &chars("abc")));
    assert!(comes_before(&chars(""), &chars("a")));
    assert!(!comes_before(&chars(""), &chars("")));
    assert!(comes_before(&chars("B"), &chars("a")));
    assert!(comes_before(&chars("abd"), &chars("ac")));
    assert!(comes_before(&chars("z"), &chars("é")));
    let mut names = vec!["Payload/b.app/", "Payload/B.app/", "Payload/ab.app/", "Payload/a.app/"];
    names.sort();
    for pair in names.windows(2) {
        assert!(comes_before(&chars(pair[0]), &chars(pair[1])));
    }
}

#[test]
fn change_at_rest_begins_a_scan() {
    let mut watcher = Watcher::new();
    assert_eq!(watcher.state(), Watch::Idle);
    assert_eq!(watcher.on(Event::Changed), Action::Scan);
    assert_eq!(watcher.state(), Watch::Scanning);
    assert_eq!(watcher.on(Event::ScanEnded), Action::Wait);
    assert_eq!(watcher.state(), Watch::Idle);
}

#[test]
fn changes_during_a_scan_are_answered_by_one_scan() {
    let mut watcher = Watcher::new();
    assert_eq!(watcher.on(Event::Changed), Action::Scan);
    assert_eq!(watcher.on(Event::Changed), Action::Wait);
    assert_eq!(watcher.on(Event::Changed), Action::Wait);
    assert_eq!(watcher.on(Event::Changed), Action::Wait);
    assert_eq!(watcher.state(), Watch::ScanningStale);
    assert_eq!(watcher.on(Event::ScanEnded), Action::Scan);
    assert_eq!(watcher.state(), Watch::Scanning);
    assert_eq!(watcher.on(Event::ScanEnded), Action::Wait);
    assert_eq!(watcher.state(), Watch::Idle);
}

#[test]
fn end_of_a_scan_at_rest_changes_nothing() {
    let mut watcher = Watcher::new();
    assert_eq!(watcher.on(Event::ScanEnded), Action::Wait);
    assert_eq!(watcher.state(), Watch::Idle);
}

#[test]
fn never_more_than_one_scan_runs() {
    let events = [
        Event::Changed,
        Event::Changed,
        Event::ScanEnded,
        Event::Changed,
        Event::ScanEnded,
        Event::ScanEnded,
        Event::ScanEnded,
        Event::Changed,
        Event::Changed,
        Event::Changed,
        Event::ScanEnded,
        Event::ScanEnded,
    ];
    let mut watcher = Watcher::new();
    let mut running = 0;
    let mut begun = 0;
    for event in events {
        if event == Event::ScanEnded && running > 0 {
            running -= 1;
        }
        if watcher.on(event) == Action::Scan {
            running += 1;
            begun += 1;
        }
        assert!(running <= 1);
        assert_eq!(running == 0, watcher.state() == Watch::Idle);
    }
    assert_eq!(begun, 5);
    assert_eq!(watcher.state(), Watch::Idle);
}
