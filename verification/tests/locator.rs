use bookmark_finder::error::Failure;
use bookmark_finder::locator::{substitute, Candidate, Decision, Locator, Probe};
use bookmark_finder::model::{Bookmarks, Document, Root};
use bookmark_finder::platform::Platform;

fn two_variants() -> Locator {
    Locator::new("/tmp/{edition}/Bookmarks".to_string(), vec!["v1".to_string(), "v2".to_string()])
}

fn small_document() -> Document {
    Document {
        checksum: "x".to_string(),
        roots: vec![Root {
            name: "bookmark_bar".to_string(),
            node: Bookmarks::Folder { name: "bar".to_string(), children: vec![] },
        }],
    }
}

fn expect_try(decision: Decision) -> (Locator, Candidate) {
    match decision {
        Decision::Try(locator, candidate) => (locator, candidate),
        other => panic!("expected a candidate, got {:?}", other),
    }
}

#[test]
fn substitute_puts_the_variant_in_the_template() {
    assert_eq!(substitute("/tmp/{edition}/Bookmarks", "v1"), "/tmp/v1/Bookmarks");
}

#[test]
fn substitute_replaces_every_placeholder() {
    assert_eq!(substitute("{edition}/{edition}", "c"), "c/c");
    assert_eq!(substitute("{edition}{edition}", ""), "");
}

#[test]
fn substitute_leaves_a_template_without_placeholder() {
    assert_eq!(substitute("/tmp/Bookmarks", "v1"), "/tmp/Bookmarks");
    assert_eq!(substitute("/tmp/{edition/Bookmarks", "v1"), "/tmp/{edition/Bookmarks");
    assert_eq!(substitute("", "v1"), "");
}

#[test]
fn second_variant_is_found_when_the_first_is_missing() {
    let (locator, first) = expect_try(two_variants().advance());
    assert_eq!(first.template_path, "/tmp/v1/Bookmarks");
    assert_eq!(first.path, "/tmp/v1/Bookmarks");
    let (locator, second) = expect_try(locator.step(Probe::Unavailable));
    assert_eq!(second.path, "/tmp/v2/Bookmarks");
    assert_eq!(locator.tried, vec!["/tmp/v1/Bookmarks".to_string(), "/tmp/v2/Bookmarks".to_string()]);
    let decision = locator.step(Probe::Decoded(small_document()));
    assert_eq!(decision, Decision::Done(small_document()));
}

#[test]
fn first_variant_is_taken_when_it_decodes() {
    let (locator, first) = expect_try(two_variants().advance());
    assert_eq!(first.path, "/tmp/v1/Bookmarks");
    assert_eq!(locator.step(Probe::Decoded(small_document())), Decision::Done(small_document()));
}

#[test]
fn all_variants_missing_fails_with_the_paths_tried() {
    let (locator, _) = expect_try(two_variants().advance());
    let (locator, _) = expect_try(locator.step(Probe::Unavailable));
    let decision = locator.step(Probe::Unavailable);
    assert_eq!(
        decision,
        Decision::Fail(Failure::FileUnavailable {
            tried: vec!["/tmp/v1/Bookmarks".to_string(), "/tmp/v2/Bookmarks".to_string()],
        })
    );
}

#[test]
fn malformed_file_ends_the_search() {
    let (locator, _) = expect_try(two_variants().advance());
    assert_eq!(locator.step(Probe::Malformed), Decision::Fail(Failure::DecodeError));
}

#[test]
fn no_variants_fails_at_once() {
    let locator = Locator::new("/tmp/{edition}/Bookmarks".to_string(), Vec::new());
    assert_eq!(locator.advance(), Decision::Fail(Failure::FileUnavailable { tried: vec![] }));
}

#[test]
fn attempt_records_the_path() {
    let decision = two_variants().attempt("$HOME/v1".to_string(), "/home/u/v1".to_string());
    let (locator, candidate) = expect_try(decision);
    assert_eq!(
        candidate,
        Candidate { template_path: "$HOME/v1".to_string(), path: "/home/u/v1".to_string() }
    );
    assert_eq!(locator.tried, vec!["/home/u/v1".to_string()]);
    assert_eq!(locator.template, "/tmp/{edition}/Bookmarks");
    assert_eq!(locator.variants, vec!["v1".to_string(), "v2".to_string()]);
}

#[test]
fn new_locator_has_tried_nothing() {
    let locator = two_variants();
    assert!(locator.tried.is_empty());
    assert_eq!(locator.template, "/tmp/{edition}/Bookmarks");
    assert_eq!(locator.variants, vec!["v1".to_string(), "v2".to_string()]);
}

#[test]
fn linux_variants_and_template() {
    assert_eq!(
        Platform::Linux.variants(),
        vec!["google-chrome", "google-chrome-beta", "google-chrome-unstable", "chromium"]
    );
    assert_eq!(Platform::Linux.default_template(), "$HOME/.config/{edition}/Default/Bookmarks");
}

#[test]
fn macos_variants_and_template() {
    assert_eq!(
        Platform::MacOs.variants(),
        vec!["Chrome", "Chrome Beta", "Chromium", "Chrome Canary"]
    );
    assert_eq!(
        Platform::MacOs.default_template(),
        "$HOME/Library/Application Support/Google/{edition}/Default/Bookmarks"
    );
}

#[test]
fn windows_variants_and_template() {
    assert_eq!(Platform::Windows.variants(), vec!["Chrome", "Chrome Beta", "Chromium", "Chrome SxS"]);
    assert_eq!(
        Platform::Windows.default_template(),
        "%LOCALAPPDATA%\\Google\\{edition}\\Default\\Bookmarks"
    );
}

#[test]
fn platform_template_gives_the_variant_path_before_expansion() {
    let locator = Locator::new(Platform::Linux.default_template(), Platform::Linux.variants());
    let (_, candidate) = expect_try(locator.advance());
    assert_eq!(candidate.template_path, "$HOME/.config/google-chrome/Default/Bookmarks");
}

#[test]
fn candidate_keeps_the_path_before_expansion() {
    let locator = Locator::new(
        "/tmp/${BOOKMARK_FINDER_VARIABLE_THAT_IS_NOT_SET}/{edition}".to_string(),
        vec!["v1".to_string()],
    );
    let (locator, candidate) = expect_try(locator.advance());
    assert_eq!(candidate.template_path, "/tmp/${BOOKMARK_FINDER_VARIABLE_THAT_IS_NOT_SET}/v1");
    assert_eq!(locator.tried, vec![candidate.path.clone()]);
}

#[test]
fn variable_that_is_not_set_expands_to_nothing() {
    let reference = if std::path::MAIN_SEPARATOR == '/' {
        "${BOOKMARK_FINDER_VARIABLE_THAT_IS_NOT_SET}"
    } else {
        "%BOOKMARK_FINDER_VARIABLE_THAT_IS_NOT_SET%"
    };
    let locator = Locator::new(format!("/tmp/{}/{{edition}}", reference), vec!["v1".to_string()]);
    let (_, candidate) = expect_try(locator.advance());
    assert_eq!(candidate.template_path, format!("/tmp/{}/v1", reference));
    assert_eq!(candidate.path, "/tmp//v1");
}
