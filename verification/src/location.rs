//! The location of a document: the origin that serves it and the path at
//! which it stands, taken from its full URL.

use crate::text::{chars_of, push_range, string_of};
use vstd::prelude::*;
use vstd::string::StringExecFns;

verus! {

/// `url::ParseError`: why `url::Url::parse` rejected a text. Nothing is
/// read from it.
#[verifier::external_type_specification]
#[verifier::external_body]
pub struct ExParseError(url::ParseError);

/// The parts of a parsed URL that locating a document reads.
#[derive(Debug)]
pub struct UrlParts {
    /// The scheme, without the colon.
    pub scheme: String,
    /// The host, where the URL has one. The port is no part of it.
    pub host: Option<String>,
    /// The path, without query and fragment.
    pub path: String,
}

/// The parts of a parsed URL, as sequences of characters.
pub struct UrlPartsView {
    pub scheme: Seq<char>,
    pub host: Option<Seq<char>>,
    pub path: Seq<char>,
}

impl View for UrlParts {
    type V = UrlPartsView;

    open spec fn view(&self) -> UrlPartsView {
        UrlPartsView {
            scheme: self.scheme@,
            host: match self.host {
                Some(h) => Some(h@),
                None => None,
            },
            path: self.path@,
        }
    }
}

/// Where a document stands: `origin` is `scheme://host`, `path` is the path
/// of its URL without trailing slashes.
#[derive(Debug)]
pub struct DocumentLocation {
    pub origin: String,
    pub path: String,
}

/// A document location, as sequences of characters.
pub struct Location {
    pub origin: Seq<char>,
    pub path: Seq<char>,
}

impl View for DocumentLocation {
    type V = Location;

    open spec fn view(&self) -> Location {
        Location { origin: self.origin@, path: self.path@ }
    }
}

impl DocumentLocation {
    /// The path does not end with a slash: the root path is the empty path.
    pub open spec fn wf(&self) -> bool {
        self.path@.len() > 0 ==> self.path@.last() != '/'
    }
}

/// Why a URL gives no document location.
#[derive(Debug)]
pub enum LocateError {
    /// The text is no absolute URL, or the URL has no host.
    InvalidUrl,
}

/// What `url::Url::parse` makes of `input`: the scheme, host and path of
/// the URL that it returns, or nothing where it returns an error.
pub uninterp spec fn parsed_url(input: Seq<char>) -> Option<UrlPartsView>;

/// `s` without the slashes at its end.
pub open spec fn without_trailing_slashes(s: Seq<char>) -> Seq<char>
    decreases s.len(),
{
    if s.len() > 0 && s.last() == '/' {
        without_trailing_slashes(s.drop_last())
    } else {
        s
    }
}

/// The location of the document whose URL has these parts. A URL without a
/// host locates nothing.
pub open spec fn location_of(parts: UrlPartsView) -> Option<Location> {
    match parts.host {
        Some(host) => Some(
            Location {
                origin: parts.scheme + "://"@ + host,
                path: without_trailing_slashes(parts.path),
            },
        ),
        None => None,
    }
}

/// The location of the document whose URL parsed to `parsed`. A URL that
/// did not parse locates nothing.
pub open spec fn located(parsed: Option<UrlPartsView>) -> Option<Location> {
    match parsed {
        Some(parts) => location_of(parts),
        None => None,
    }
}

/// What is left of `s` is a prefix of it, does not end with a slash, and
/// only slashes were taken away.
pub proof fn lemma_without_trailing_slashes(s: Seq<char>)
    ensures
        without_trailing_slashes(s).is_prefix_of(s),
        without_trailing_slashes(s).len() > 0 ==> without_trailing_slashes(s).last() != '/',
        forall|i: int| without_trailing_slashes(s).len() <= i < s.len() ==> s[i] == '/',
    decreases s.len(),
{
    if s.len() > 0 && s.last() == '/' {
        lemma_without_trailing_slashes(s.drop_last());
        assert forall|i: int| without_trailing_slashes(s).len() <= i < s.len() implies s[i]
            == '/' by {
            if i < s.len() - 1 {
                assert(s.drop_last()[i] == s[i]);
            }
        }
    }
}

/// A slash at the end of a path does not change what is left of it.
pub proof fn lemma_trailing_slash_is_stripped(s: Seq<char>)
    ensures
        without_trailing_slashes(s.push('/')) == without_trailing_slashes(s),
{
    assert(s.push('/').drop_last() == s);
}

/// Calls `url::Url::parse` on `input` and copies the scheme, the host and
/// the path out of the URL it returns (`Url::scheme`, `Url::host_str`,
/// `Url::path`). The contract only names that outcome: the parser reads
/// nothing but its input, so the same text gives the same parts.
#[verifier::external_body]
fn parse_url(input: &str) -> (r: Result<UrlParts, url::ParseError>)
    ensures
        match r {
            Ok(parts) => parsed_url(input@) == Some(parts@),
            Err(_) => parsed_url(input@) is None,
        },
{
    let url = url::Url::parse(input)?;
    Ok(
        UrlParts {
            scheme: url.scheme().to_owned(),
            host: url.host_str().map(str::to_owned),
            path: url.path().to_owned(),
        },
    )
}

/// The path without its trailing slashes.
fn strip_trailing_slashes(path: &str) -> (stripped: String)
    ensures
        stripped@ == without_trailing_slashes(path@),
{
    let chars = chars_of(path);
    let mut end: usize = chars.len();
    assert(chars@.take(end as int) == chars@);
    while end > 0 && chars[end - 1] == '/'
        invariant
            end <= chars.len(),
            without_trailing_slashes(chars@) == without_trailing_slashes(chars@.take(end as int)),
        decreases end,
    {
        assert(chars@.take(end as int).drop_last() == chars@.take(end - 1));
        end -= 1;
    }
    let mut kept: Vec<char> = Vec::new();
    push_range(&mut kept, &chars, 0, end);
    string_of(&kept)
}

/// The location of the document whose URL has the parts `parts`.
pub fn locate(parts: &UrlParts) -> (r: Result<DocumentLocation, LocateError>)
    ensures
        match r {
            Ok(location) => location_of(parts@) == Some(location@) && location.wf(),
            Err(e) => location_of(parts@) is None && e is InvalidUrl,
        },
{
    match &parts.host {
        Some(host) => {
            let mut origin = parts.scheme.clone();
            origin.append("://");
            origin.append(host.as_str());
            let path = strip_trailing_slashes(parts.path.as_str());
            proof {
                lemma_without_trailing_slashes(parts.path@);
            }
            Ok(DocumentLocation { origin, path })
        },
        None => Err(LocateError::InvalidUrl),
    }
}

/// The origin and the path of the document at `full_url`.
///
/// Fails with `InvalidUrl` where `full_url` does not parse as an absolute
/// URL, and where the URL has no host.
pub fn get_base_url_and_path(full_url: &str) -> (r: Result<DocumentLocation, LocateError>)
    ensures
        match r {
            Ok(location) => located(parsed_url(full_url@)) == Some(location@) && location.wf(),
            Err(e) => located(parsed_url(full_url@)) is None && e is InvalidUrl,
        },
{
    match parse_url(full_url) {
        Ok(parts) => locate(&parts),
        Err(_) => Err(LocateError::InvalidUrl),
    }
}

} // verus!
