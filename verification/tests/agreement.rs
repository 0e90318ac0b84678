use regex::{Captures, Regex};
use relink::resolve::resolve_relative_url;
use relink::rewrite::{
    rewrite, update_background_urls, update_external_links, update_image_sources,
};

/// A small generator of repeatable choices.
struct Choices(u64);

impl Choices {
    fn next(&mut self, bound: usize) -> usize {
        self.0 = self.0.wrapping_mul(6364136223846793005).wrapping_add(1442695040888963407);
        ((self.0 >> 33) as usize) % bound
    }

    fn text(&mut self, pieces: &[&str], longest: usize) -> String {
        let count = self.next(longest + 1);
        let mut text = String::new();
        for _ in 0..count {
            text.push_str(pieces[self.next(pieces.len())]);
        }
        text
    }
}

const MARKUP: [&str; 16] = [
    "<img ", "src=\"", "href=\"", "background=\"", "\"", ">", "<", " ", "a", ".", "/", "é", "\n",
    "=", "src=", "https://",
];

const ADDRESS: [&str; 10] = ["/", "//", ".", "a", "b", "://", "http", "s", ":", "é"];

/// The attribute shape as a pattern: the value, and its closing quote where
/// there is one.
fn rewritten_by_pattern(pattern: &str, closing: &str, html: &str, origin: &str, path: &str) -> String {
    Regex::new(pattern)
        .unwrap()
        .replace_all(html, |found: &Captures| {
            format!("{}{}{}", &found[1], resolve_relative_url(origin, path, &found[2]), closing)
        })
        .into_owned()
}

/// The resolution rules written with `str` methods and a pattern for the
/// runs of slashes.
fn resolved_by_pattern(origin: &str, path: &str, reference: &str) -> String {
    if reference.starts_with("http://") || reference.starts_with("https://") {
        return reference.to_string();
    }
    let lead = if reference.starts_with('/') { "" } else { "/" };
    let joined = if reference.contains('.') {
        format!("{}{}{}", origin, lead, reference)
    } else {
        let base = if reference.starts_with(path) {
            origin.to_string()
        } else if path.ends_with('/') {
            format!("{}{}", origin, path)
        } else {
            format!("{}/{}", origin, path)
        };
        let open = format!("{}{}{}", base, lead, reference);
        if open.ends_with('/') {
            open
        } else {
            format!("{}/", open)
        }
    };
    match joined.split_once("://") {
        Some((scheme, rest)) => {
            format!("{}://{}", scheme, Regex::new("/{2,}").unwrap().replace_all(rest, "/"))
        }
        None => joined,
    }
}

#[test]
fn links_agree_with_the_pattern() {
    let mut choices = Choices(1);
    let mut touched: usize = 0;
    for _ in 0..4000 {
        let html = choices.text(&MARKUP, 14);
        let written = update_external_links(&html, "https://e.com", "/p");
        if written != html {
            touched += 1;
        }
        assert_eq!(
            written,
            rewritten_by_pattern("(href=\")([^\"]+)\"?", "\"", &html, "https://e.com", "/p"),
            "{:?}",
            html
        );
    }
    assert!(touched > 100, "{}", touched);
}

#[test]
fn backgrounds_agree_with_the_pattern() {
    let mut choices = Choices(2);
    let mut touched: usize = 0;
    for _ in 0..4000 {
        let html = choices.text(&MARKUP, 14);
        let written = update_background_urls(&html, "https://e.com", "/p");
        if written != html {
            touched += 1;
        }
        assert_eq!(
            written,
            rewritten_by_pattern("(background=\")([^\"]+)\"?", "\"", &html, "https://e.com", "/p"),
            "{:?}",
            html
        );
    }
    assert!(touched > 100, "{}", touched);
}

#[test]
fn images_agree_with_the_pattern() {
    let mut choices = Choices(3);
    let mut touched: usize = 0;
    for _ in 0..4000 {
        let html = choices.text(&MARKUP, 14);
        let written = update_image_sources(&html, "https://e.com", "/p");
        if written != html {
            touched += 1;
        }
        assert_eq!(
            written,
            rewritten_by_pattern(
                "(<img [^>]*src=\")([^\"]+)\"?",
                "\" style=\"max-width:100%\"",
                &html,
                "https://e.com",
                "/p"
            ),
            "{:?}",
            html
        );
    }
    assert!(touched > 50, "{}", touched);
}

#[test]
fn images_agree_with_the_pattern_on_dense_markup() {
    let dense = ["<img ", "src=\"", "\"", ">", "a", "src=\"\"", " "];
    let mut choices = Choices(4);
    let mut touched: usize = 0;
    for _ in 0..4000 {
        let html = choices.text(&dense, 16);
        let written = update_image_sources(&html, "", "");
        if written != html {
            touched += 1;
        }
        assert_eq!(
            written,
            rewritten_by_pattern(
                "(<img [^>]*src=\")([^\"]+)\"?",
                "\" style=\"max-width:100%\"",
                &html,
                "",
                ""
            ),
            "{:?}",
            html
        );
    }
    assert!(touched > 300, "{}", touched);
}

#[test]
fn resolution_agrees_with_the_pattern() {
    let mut choices = Choices(5);
    for _ in 0..4000 {
        let origin = choices.text(&ADDRESS, 5);
        let path = choices.text(&ADDRESS, 4);
        let reference = choices.text(&ADDRESS, 6);
        assert_eq!(
            resolve_relative_url(&origin, &path, &reference),
            resolved_by_pattern(&origin, &path, &reference),
            "{:?} {:?} {:?}",
            origin,
            path,
            reference
        );
    }
}

#[test]
fn three_passes_agree_with_the_patterns_in_turn() {
    let mut choices = Choices(6);
    for _ in 0..4000 {
        let html = choices.text(&MARKUP, 14);
        let origin = choices.text(&ADDRESS, 4);
        let path = choices.text(&ADDRESS, 3);
        let images = rewritten_by_pattern(
            "(<img [^>]*src=\")([^\"]+)\"?",
            "\" style=\"max-width:100%\"",
            &html,
            &origin,
            &path,
        );
        let links = rewritten_by_pattern("(href=\")([^\"]+)\"?", "\"", &images, &origin, &path);
        let backgrounds =
            rewritten_by_pattern("(background=\")([^\"]+)\"?", "\"", &links, &origin, &path);
        assert_eq!(rewrite(&html, &origin, &path), backgrounds, "{:?}", html);
    }
}
