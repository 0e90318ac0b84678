use relink::document::{
    body_markup, rewrite_document, rewrite_located, selected_markup, Selection,
};
use relink::location::{get_base_url_and_path, LocateError};

#[test]
fn body_is_taken_out_of_the_document() {
    assert_eq!(
        body_markup("<html><head><title>t</title></head><body><p>hi</p></body></html>"),
        "<body><p>hi</p></body>"
    );
}

#[test]
fn body_is_supplied_where_the_document_writes_none() {
    assert_eq!(body_markup("<p>hi</p>"), "<body><p>hi</p></body>");
    assert_eq!(body_markup(""), "<body></body>");
}

#[test]
fn attributes_keep_their_order() {
    assert_eq!(
        body_markup("<body><img src=\"a.png\" alt=\"a\" id=\"i\" class=\"c\" width=\"1\"></body>"),
        "<body><img src=\"a.png\" alt=\"a\" id=\"i\" class=\"c\" width=\"1\"></body>"
    );
}

#[test]
fn fetched_document_becomes_a_fragment() {
    assert_eq!(
        rewrite_document(
            "<html><head><link href=\"s.css\"></head><body><a href=\"docs\">d</a><img src=\"a.png\"></body></html>",
            "https://e.com/base/"
        ),
        "<body><a href=\"https://e.com/base/docs/\">d</a><img src=\"https://e.com/a.png\" style=\"max-width:100%\"></body>"
    );
}

#[test]
fn unquoted_attribute_is_rewritten_after_extraction() {
    assert_eq!(
        rewrite_document("<body background=bg.gif><a href=docs>d</a></body>", "https://e.com/p"),
        "<body background=\"https://e.com/bg.gif\"><a href=\"https://e.com/p/docs/\">d</a></body>"
    );
}

#[test]
fn document_at_an_invalid_url_is_rewritten_against_nothing() {
    assert_eq!(
        rewrite_document("<body><a href=\"docs\">d</a></body>", "not a url"),
        "<body><a href=\"/docs/\">d</a></body>"
    );
}

#[test]
fn located_body_is_rewritten_for_its_location() {
    let location = get_base_url_and_path("https://e.com/base/");
    assert_eq!(
        rewrite_located("<a href=\"docs\">", &location),
        "<a href=\"https://e.com/base/docs/\">"
    );
}

#[test]
fn unlocated_body_is_rewritten_against_nothing() {
    assert_eq!(
        rewrite_located("<img src=\"a.png\">", &Err(LocateError::InvalidUrl)),
        "<img src=\"/a.png\" style=\"max-width:100%\">"
    );
}

#[test]
fn only_selected_markup_is_rewritten() {
    assert_eq!(selected_markup(Selection::Markup("<body></body>".to_string())), "<body></body>");
    assert_eq!(selected_markup(Selection::Nothing), "");
    assert_eq!(selected_markup(Selection::Rejected), "");
}

#[test]
fn text_in_the_body_is_escaped_as_the_serialiser_does() {
    assert_eq!(
        rewrite_document("<body><a href=\"a?x=1&y=2\">a & b</a></body>", "https://e.com/"),
        "<body><a href=\"https://e.com/a?x=1&amp;y=2/\">a &amp; b</a></body>"
    );
}
