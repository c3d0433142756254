use pipe_gui::extract::{extract_links, ExtractOutcome};

fn lines(ls: &[&str]) -> Vec<String> {
    ls.iter().map(|s| s.to_string()).collect()
}

#[test]
fn direct_and_social_links_with_hash() {
    let out = lines(&[
        "Creating public link...",
        "https://x/publicDownload?hash=abc123",
        "https://x/publicDownload?hash=abc123&preview=true",
    ]);
    match extract_links(&out) {
        ExtractOutcome::Found { links } => {
            assert_eq!(links.direct_link, "https://x/publicDownload?hash=abc123");
            assert!(!links.direct_link.contains("preview=true"));
            assert_eq!(
                links.social_media_link,
                "https://x/publicDownload?hash=abc123&preview=true"
            );
            assert!(links.social_media_link.contains("preview=true"));
            assert_eq!(links.download_hash, "abc123");
        },
        _ => panic!("both links present, outcome must be Found"),
    }
}

#[test]
fn hash_token_trailing_punctuation_stripped() {
    let out = lines(&[
        "https://x/publicDownload?hash=zz&preview=true",
        "https://x/publicDownload?hash=abc123\")",
    ]);
    match extract_links(&out) {
        ExtractOutcome::Found { links } => {
            assert_eq!(links.download_hash, "abc123");
        },
        _ => panic!("expected a Found outcome"),
    }
}

#[test]
fn lines_are_trimmed_before_matching() {
    let out = lines(&[
        "   https://x/publicDownload?hash=h1   ",
        "\thttps://x/publicDownload?hash=h1&preview=true",
    ]);
    match extract_links(&out) {
        ExtractOutcome::Found { links } => {
            assert_eq!(links.direct_link, "https://x/publicDownload?hash=h1");
        },
        _ => panic!("expected a Found outcome"),
    }
}

#[test]
fn last_matching_line_wins() {
    let out = lines(&[
        "https://x/publicDownload?hash=first",
        "https://x/publicDownload?hash=second",
        "https://x/publicDownload?hash=second&preview=true",
    ]);
    match extract_links(&out) {
        ExtractOutcome::Found { links } => {
            assert_eq!(links.direct_link, "https://x/publicDownload?hash=second");
            assert_eq!(links.download_hash, "second");
        },
        _ => panic!("expected a Found outcome"),
    }
}

#[test]
fn host_fallback_takes_first_whitespace_delimited_url() {
    let out = lines(&[
        "nothing useful",
        "see https://us-west-00-firestarter.pipenetwork.com/f/1 for the file",
    ]);
    match extract_links(&out) {
        ExtractOutcome::Loose { links } => {
            assert_eq!(links.direct_link, "https://us-west-00-firestarter.pipenetwork.com/f/1");
            assert_eq!(links.social_media_link, links.direct_link);
            assert_eq!(links.download_hash, "");
        },
        _ => panic!("expected the fallback outcome"),
    }
}

#[test]
fn fallback_needs_whitespace_after_url() {
    // The heuristic takes the token up to the first whitespace; a line
    // where none follows the scheme yields nothing.
    let out = lines(&["https://pipenetwork.com/f/1"]);
    match extract_links(&out) {
        ExtractOutcome::Absent => {},
        _ => panic!("unterminated URL must not match the fallback"),
    }
}

#[test]
fn no_match_is_not_an_error() {
    let out = lines(&["plain output", "no links here"]);
    match extract_links(&out) {
        ExtractOutcome::Absent => {},
        _ => panic!("expected no result"),
    }
}

#[test]
fn direct_alone_falls_back() {
    let out = lines(&["https://x/publicDownload?hash=only direct on pipenetwork.com"]);
    match extract_links(&out) {
        ExtractOutcome::Loose { links } => {
            assert_eq!(links.direct_link, "https://x/publicDownload?hash=only");
        },
        _ => panic!("a single link line cannot be Found"),
    }
}
