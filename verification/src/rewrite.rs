//! Rewriting of the references that stand in three attribute shapes of raw
//! markup: `<img ... src="VALUE"`, `href="VALUE"` and `background="VALUE"`.
//!
//! The markup is not parsed. It is scanned from left to right, and wherever
//! a shape starts its value is replaced by the URL that the value resolves
//! to. A value is a run of at least one character other than the double
//! quote; it ends at the next double quote or at the end of the text.

use crate::resolve::{resolve, resolve_chars};
use crate::text::{
    chars_of, find_char_from, lemma_next_index_of, next_index_of, occurs_at, push_all,
    push_range, stands_at, string_of,
};
use vstd::prelude::*;

verus! {

/// An attribute shape whose value is a reference.
#[derive(Clone, Copy, Debug)]
pub enum Shape {
    /// `src="VALUE"` inside an `<img ` tag.
    Image,
    /// `href="VALUE"`, in any tag.
    Link,
    /// `background="VALUE"`, in any tag.
    Background,
}

/// The text that opens an image tag.
pub open spec fn image_tag() -> Seq<char> {
    "<img "@
}

/// The text that opens the attribute of `shape`, up to and with the quote.
pub open spec fn opening(shape: Shape) -> Seq<char> {
    match shape {
        Shape::Image => "src=\""@,
        Shape::Link => "href=\""@,
        Shape::Background => "background=\""@,
    }
}

/// The text written behind a rewritten value: the closing quote, and for an
/// image the style hint that keeps it inside its container.
pub open spec fn closing(shape: Shape) -> Seq<char> {
    match shape {
        Shape::Image => "\" style=\"max-width:100%\""@,
        Shape::Link => "\""@,
        Shape::Background => "\""@,
    }
}

/// A value starts at `v`: there is a character there, and it is no quote.
pub open spec fn has_value_at(s: Seq<char>, v: int) -> bool {
    0 <= v < s.len() && s[v] != '"'
}

/// An image tag starts at `i`, and `k` is a place in it where a source
/// attribute with a value starts: no `>` stands between the tag's opening
/// and `k`.
pub open spec fn is_image_source(s: Seq<char>, i: int, k: int) -> bool {
    &&& occurs_at(s, image_tag(), i)
    &&& i + image_tag().len() <= k
    &&& forall|j: int| i + image_tag().len() <= j < k ==> s[j] != '>'
    &&& occurs_at(s, opening(Shape::Image), k)
    &&& has_value_at(s, k + opening(Shape::Image).len())
}

/// `k` is the last place where a source attribute starts in the image tag
/// at `i`.
pub open spec fn is_last_image_source(s: Seq<char>, i: int, k: int) -> bool {
    &&& is_image_source(s, i, k)
    &&& forall|m: int| is_image_source(s, i, m) ==> m <= k
}

/// Where the value of the attribute begins, if `s` shows `shape` at `i`.
///
/// A link or a background starts with its attribute. An image starts with
/// its tag, and of the source attributes in the tag the last one counts.
pub open spec fn value_start(s: Seq<char>, shape: Shape, i: int) -> Option<int> {
    match shape {
        Shape::Image => {
            if exists|k: int| is_last_image_source(s, i, k) {
                Some((choose|k: int| is_last_image_source(s, i, k)) + opening(shape).len())
            } else {
                None
            }
        },
        _ => {
            if occurs_at(s, opening(shape), i) && has_value_at(s, i + opening(shape).len()) {
                Some(i + opening(shape).len())
            } else {
                None
            }
        },
    }
}

/// Where the value that begins at `v` ends: at the next quote, or at the
/// end of the text.
pub open spec fn value_end(s: Seq<char>, v: int) -> int {
    next_index_of(s, '"', v)
}

/// The first index behind the attribute whose value begins at `v`: behind
/// its closing quote, where it has one.
pub open spec fn attribute_end(s: Seq<char>, v: int) -> int {
    if value_end(s, v) < s.len() {
        value_end(s, v) + 1
    } else {
        value_end(s, v)
    }
}

/// What is written for the attribute that starts at `i` with its value at
/// `v`: the text up to the value as it stands, the URL that the value
/// resolves to, and the closing of the shape.
pub open spec fn rewritten_attribute(
    s: Seq<char>,
    shape: Shape,
    origin: Seq<char>,
    path: Seq<char>,
    i: int,
    v: int,
) -> Seq<char> {
    s.subrange(i, v) + resolve(origin, path, s.subrange(v, value_end(s, v))) + closing(shape)
}

/// The text of `s` from `pos` on, with every attribute of `shape` rewritten.
pub open spec fn rewritten_from(
    s: Seq<char>,
    shape: Shape,
    origin: Seq<char>,
    path: Seq<char>,
    pos: int,
) -> Seq<char>
    decreases s.len() - pos,
    via rewritten_from_decreases
{
    if pos < 0 || pos >= s.len() {
        Seq::empty()
    } else {
        match value_start(s, shape, pos) {
            Some(v) => rewritten_attribute(s, shape, origin, path, pos, v) + rewritten_from(
                s,
                shape,
                origin,
                path,
                attribute_end(s, v),
            ),
            None => seq![s[pos]] + rewritten_from(s, shape, origin, path, pos + 1),
        }
    }
}

#[via_fn]
proof fn rewritten_from_decreases(
    s: Seq<char>,
    shape: Shape,
    origin: Seq<char>,
    path: Seq<char>,
    pos: int,
) {
    if 0 <= pos < s.len() {
        if let Some(v) = value_start(s, shape, pos) {
            lemma_value_start(s, shape, pos);
        }
    }
}

/// The markup `s` with every attribute of `shape` rewritten.
pub open spec fn rewritten(s: Seq<char>, shape: Shape, origin: Seq<char>, path: Seq<char>) -> Seq<
    char,
> {
    rewritten_from(s, shape, origin, path, 0)
}

/// The markup `s` after the three passes: images, then links, then
/// backgrounds, each on what the pass before it wrote.
pub open spec fn rewritten_markup(s: Seq<char>, origin: Seq<char>, path: Seq<char>) -> Seq<char> {
    rewritten(
        rewritten(rewritten(s, Shape::Image, origin, path), Shape::Link, origin, path),
        Shape::Background,
        origin,
        path,
    )
}

/// A value starts where `value_start` says, at or behind `i`, and the
/// attribute ends behind it.
pub proof fn lemma_value_start(s: Seq<char>, shape: Shape, i: int)
    requires
        0 <= i,
        value_start(s, shape, i) is Some,
    ensures
        i <= value_start(s, shape, i)->0 < s.len(),
        has_value_at(s, value_start(s, shape, i)->0),
        value_start(s, shape, i)->0 < value_end(s, value_start(s, shape, i)->0) <= s.len(),
        i < attribute_end(s, value_start(s, shape, i)->0) <= s.len(),
{
    let v = value_start(s, shape, i)->0;
    lemma_next_index_of(s, '"', v);
    lemma_next_index_of(s, '"', v + 1);
}

/// Where no attribute of `shape` starts between `pos` and `next`, the text
/// between them is written as it stands.
pub proof fn lemma_rewritten_between_shapes(
    s: Seq<char>,
    shape: Shape,
    origin: Seq<char>,
    path: Seq<char>,
    pos: int,
    next: int,
)
    requires
        0 <= pos <= next <= s.len(),
        forall|i: int| pos <= i < next ==> value_start(s, shape, i) is None,
    ensures
        rewritten_from(s, shape, origin, path, pos) == s.subrange(pos, next) + rewritten_from(
            s,
            shape,
            origin,
            path,
            next,
        ),
    decreases next - pos,
{
    if pos < next {
        lemma_rewritten_between_shapes(s, shape, origin, path, pos + 1, next);
    }
}

/// Markup that shows `shape` nowhere is written as it stands.
pub proof fn lemma_rewritten_without_shape(
    s: Seq<char>,
    shape: Shape,
    origin: Seq<char>,
    path: Seq<char>,
)
    requires
        forall|i: int| 0 <= i < s.len() ==> value_start(s, shape, i) is None,
    ensures
        rewritten(s, shape, origin, path) == s,
{
    lemma_rewritten_between_shapes(s, shape, origin, path, 0, s.len() as int);
}

/// Up to and with its first attribute of `shape`, markup is written as it
/// stands but for the value, which is resolved, and the closing.
pub proof fn lemma_rewritten_first_shape(
    s: Seq<char>,
    shape: Shape,
    origin: Seq<char>,
    path: Seq<char>,
    first: int,
)
    requires
        0 <= first < s.len(),
        value_start(s, shape, first) is Some,
        forall|i: int| 0 <= i < first ==> value_start(s, shape, i) is None,
    ensures
        rewritten(s, shape, origin, path) == s.subrange(0, first) + rewritten_attribute(
            s,
            shape,
            origin,
            path,
            first,
            value_start(s, shape, first)->0,
        ) + rewritten_from(
            s,
            shape,
            origin,
            path,
            attribute_end(s, value_start(s, shape, first)->0),
        ),
{
    lemma_rewritten_between_shapes(s, shape, origin, path, 0, first);
}

/// Where the value begins, if `text` shows a link or a background at `pos`.
fn plain_value_start(text: &Vec<char>, shape: Shape, attribute: &Vec<char>, pos: usize) -> (r:
    Option<usize>)
    requires
        !(shape is Image),
        attribute@ == opening(shape),
    ensures
        r matches Some(v) ==> value_start(text@, shape, pos as int) == Some(v as int),
        r is None ==> value_start(text@, shape, pos as int) is None,
{
    if !stands_at(text, attribute, pos) {
        return None;
    }
    assert(pos + attribute.len() <= text.len());
    let v = pos + attribute.len();
    if v < text.len() && text[v] != '"' {
        Some(v)
    } else {
        None
    }
}

/// Where the value begins, if `text` shows an image at `pos`.
fn image_value_start(text: &Vec<char>, tag: &Vec<char>, attribute: &Vec<char>, pos: usize) -> (r:
    Option<usize>)
    requires
        tag@ == image_tag(),
        attribute@ == opening(Shape::Image),
    ensures
        r matches Some(v) ==> value_start(text@, Shape::Image, pos as int) == Some(v as int),
        r is None ==> value_start(text@, Shape::Image, pos as int) is None,
{
    if !stands_at(text, tag, pos) {
        return None;
    }
    assert(pos + tag.len() <= text.len());
    let start = pos + tag.len();
    let mut k: usize = start;
    let mut last: Option<usize> = None;
    loop
        invariant_except_break
            forall|m: int|
                m < k && is_image_source(text@, pos as int, m) ==> last is Some && m <= last->0,
        invariant
            tag@ == image_tag(),
            attribute@ == opening(Shape::Image),
            occurs_at(text@, image_tag(), pos as int),
            start == pos + tag.len(),
            start <= k <= text.len(),
            forall|j: int| start <= j < k ==> text@[j] != '>',
            last matches Some(b) ==> is_image_source(text@, pos as int, b as int),
        ensures
            forall|m: int|
                m <= k && is_image_source(text@, pos as int, m) ==> last is Some && m <= last->0,
            k == text.len() || text@[k as int] == '>',
        decreases text.len() - k,
    {
        if stands_at(text, attribute, k) {
            let v = k + attribute.len();
            if v < text.len() && text[v] != '"' {
                last = Some(k);
            }
        }
        if k >= text.len() || text[k] == '>' {
            break ;
        }
        k += 1;
    }
    match last {
        Some(b) => {
            assert(is_last_image_source(text@, pos as int, b as int));
            Some(b + attribute.len())
        },
        None => None,
    }
}

/// Rewrites every attribute of `shape` in `text`, on characters.
pub fn rewrite_chars(text: &Vec<char>, shape: Shape, origin: &Vec<char>, path: &Vec<char>) -> (out:
    Vec<char>)
    ensures
        out@ == rewritten(text@, shape, origin@, path@),
{
    let tag = chars_of("<img ");
    let attribute = match shape {
        Shape::Image => chars_of("src=\""),
        Shape::Link => chars_of("href=\""),
        Shape::Background => chars_of("background=\""),
    };
    let close = match shape {
        Shape::Image => chars_of("\" style=\"max-width:100%\""),
        Shape::Link => chars_of("\""),
        Shape::Background => chars_of("\""),
    };
    let mut out: Vec<char> = Vec::new();
    let mut pos: usize = 0;
    while pos < text.len()
        invariant
            pos <= text.len(),
            tag@ == image_tag(),
            attribute@ == opening(shape),
            close@ == closing(shape),
            out@ + rewritten_from(text@, shape, origin@, path@, pos as int) == rewritten(
                text@,
                shape,
                origin@,
                path@,
            ),
        decreases text.len() - pos,
    {
        let found = match shape {
            Shape::Image => image_value_start(text, &tag, &attribute, pos),
            Shape::Link => plain_value_start(text, shape, &attribute, pos),
            Shape::Background => plain_value_start(text, shape, &attribute, pos),
        };
        match found {
            Some(v) => {
                proof {
                    lemma_value_start(text@, shape, pos as int);
                }
                let end = find_char_from(text, '"', v);
                let mut value: Vec<char> = Vec::new();
                push_range(&mut value, text, v, end);
                let url = resolve_chars(origin, path, &value);
                push_range(&mut out, text, pos, v);
                push_all(&mut out, &url);
                push_all(&mut out, &close);
                pos = if end < text.len() {
                    end + 1
                } else {
                    end
                };
            },
            None => {
                out.push(text[pos]);
                pos += 1;
            },
        }
    }
    out
}

/// Rewrites the source of every image in `html_content`, and writes the
/// style hint `style="max-width:100%"` behind each: also where the tag has
/// a style attribute already.
pub fn update_image_sources(html_content: &str, base_url: &str, current_path: &str) -> (out: String)
    ensures
        out@ == rewritten(html_content@, Shape::Image, base_url@, current_path@),
{
    let text = chars_of(html_content);
    let origin = chars_of(base_url);
    let path = chars_of(current_path);
    string_of(&rewrite_chars(&text, Shape::Image, &origin, &path))
}

/// Rewrites the target of every `href` attribute in `html_content`, in
/// whatever tag it stands.
pub fn update_external_links(html_content: &str, base_url: &str, current_path: &str) -> (out:
    String)
    ensures
        out@ == rewritten(html_content@, Shape::Link, base_url@, current_path@),
{
    let text = chars_of(html_content);
    let origin = chars_of(base_url);
    let path = chars_of(current_path);
    string_of(&rewrite_chars(&text, Shape::Link, &origin, &path))
}

/// Rewrites the target of every `background` attribute in `html_content`.
pub fn update_background_urls(html_content: &str, base_url: &str, current_path: &str) -> (out:
    String)
    ensures
        out@ == rewritten(html_content@, Shape::Background, base_url@, current_path@),
{
    let text = chars_of(html_content);
    let origin = chars_of(base_url);
    let path = chars_of(current_path);
    string_of(&rewrite_chars(&text, Shape::Background, &origin, &path))
}

/// Rewrites the references of `html` for a document at `origin` and `path`:
/// images first, then links, then backgrounds.
pub fn rewrite(html: &str, origin: &str, path: &str) -> (out: String)
    ensures
        out@ == rewritten_markup(html@, origin@, path@),
{
    let text = chars_of(html);
    let origin = chars_of(origin);
    let path = chars_of(path);
    let images = rewrite_chars(&text, Shape::Image, &origin, &path);
    let links = rewrite_chars(&images, Shape::Link, &origin, &path);
    let backgrounds = rewrite_chars(&links, Shape::Background, &origin, &path);
    string_of(&backgrounds)
}

} // verus!
