//! Resolution of one reference found in markup against the location of the
//! document that holds it.
//!
//! A reference that is already absolute is kept. Any other is taken for a
//! file when it holds a dot and for a directory when it does not: a file is
//! placed under the origin, a directory under the origin and the current
//! path, with a closing slash. Runs of slashes behind the scheme separator
//! are then collapsed.

use crate::text::{
    chars_of, find_first, first_occurrence, holds_char, lemma_first_occurrence_is, occurs_at,
    push_all, push_range, stands_at, string_of,
};
use vstd::prelude::*;

verus! {

/// The reference starts with `http://` or `https://`.
pub open spec fn is_absolute(reference: Seq<char>) -> bool {
    "http://"@.is_prefix_of(reference) || "https://"@.is_prefix_of(reference)
}

/// The reference holds a dot, and is therefore taken for a file.
pub open spec fn is_file_like(reference: Seq<char>) -> bool {
    reference.contains('.')
}

/// The slash written before `reference`, unless it brings its own.
pub open spec fn separator_before(reference: Seq<char>) -> Seq<char> {
    if reference.len() > 0 && reference[0] == '/' {
        Seq::empty()
    } else {
        seq!['/']
    }
}

/// A file reference joined to the origin. The current path takes no part.
pub open spec fn file_url(origin: Seq<char>, reference: Seq<char>) -> Seq<char> {
    origin + separator_before(reference) + reference
}

/// The origin, followed by the current path unless the reference already
/// starts with it.
pub open spec fn directory_base(origin: Seq<char>, path: Seq<char>, reference: Seq<char>) -> Seq<
    char,
> {
    if path.is_prefix_of(reference) {
        origin
    } else if path.len() > 0 && path.last() != '/' {
        origin + seq!['/'] + path
    } else {
        origin + path
    }
}

/// `s`, closed by a slash if it does not end with one.
pub open spec fn with_closing_slash(s: Seq<char>) -> Seq<char> {
    if s.len() > 0 && s.last() == '/' {
        s
    } else {
        s.push('/')
    }
}

/// A directory reference joined to the origin and the current path.
pub open spec fn directory_url(origin: Seq<char>, path: Seq<char>, reference: Seq<char>) -> Seq<
    char,
> {
    with_closing_slash(
        directory_base(origin, path, reference) + separator_before(reference) + reference,
    )
}

/// `s` without the slashes that directly follow a slash: every run of
/// slashes becomes one slash.
pub open spec fn squeeze_slashes(s: Seq<char>) -> Seq<char>
    decreases s.len(),
{
    if s.len() == 0 {
        s
    } else if s.len() >= 2 && s[s.len() - 1] == '/' && s[s.len() - 2] == '/' {
        squeeze_slashes(s.drop_last())
    } else {
        squeeze_slashes(s.drop_last()).push(s.last())
    }
}

/// No slash in `s` directly follows another.
pub open spec fn has_no_slash_run(s: Seq<char>) -> bool {
    forall|i: int| 0 <= i && i + 1 < s.len() ==> !(s[i] == '/' && #[trigger] s[i + 1] == '/')
}

/// What parts a scheme from the rest of a URL.
pub open spec fn scheme_separator() -> Seq<char> {
    "://"@
}

/// Where the part of `s` behind its first scheme separator begins, if `s`
/// holds one.
pub open spec fn after_scheme(s: Seq<char>) -> Option<int> {
    match first_occurrence(s, scheme_separator()) {
        Some(k) => Some(k + scheme_separator().len()),
        None => None,
    }
}

/// `s` with the runs of slashes collapsed in the part behind its first
/// scheme separator. The separator itself is not touched, and a string
/// without one is left as it is.
pub open spec fn collapse_after_scheme(s: Seq<char>) -> Seq<char> {
    match after_scheme(s) {
        Some(tail) => s.subrange(0, tail) + squeeze_slashes(s.subrange(tail, s.len() as int)),
        None => s,
    }
}

/// The absolute URL that `reference` denotes in a document at `origin` and
/// `path`.
pub open spec fn resolve(origin: Seq<char>, path: Seq<char>, reference: Seq<char>) -> Seq<char> {
    if is_absolute(reference) {
        reference
    } else if is_file_like(reference) {
        collapse_after_scheme(file_url(origin, reference))
    } else {
        collapse_after_scheme(directory_url(origin, path, reference))
    }
}

/// Squeezing keeps the last character, and leaves no slash behind a slash.
pub proof fn lemma_squeeze_slashes(s: Seq<char>)
    ensures
        has_no_slash_run(squeeze_slashes(s)),
        squeeze_slashes(s).len() <= s.len(),
        s.len() > 0 ==> squeeze_slashes(s).len() > 0 && squeeze_slashes(s).last() == s.last(),
    decreases s.len(),
{
    if s.len() > 0 {
        lemma_squeeze_slashes(s.drop_last());
    }
}

/// Collapsing keeps the place of the first scheme separator, leaves no
/// run of slashes behind it, and keeps a closing slash.
pub proof fn lemma_collapse_after_scheme(s: Seq<char>)
    ensures
        after_scheme(collapse_after_scheme(s)) == after_scheme(s),
        after_scheme(s) matches Some(tail) ==> has_no_slash_run(
            collapse_after_scheme(s).skip(tail),
        ),
        after_scheme(s) is None ==> collapse_after_scheme(s) == s,
        s.len() > 0 && s.last() == '/' ==> collapse_after_scheme(s).len() > 0
            && collapse_after_scheme(s).last() == '/',
{
    let sep = scheme_separator();
    let collapsed = collapse_after_scheme(s);
    if let Some(k) = first_occurrence(s, sep) {
        let tail = k + sep.len();
        lemma_squeeze_slashes(s.subrange(tail, s.len() as int));
        assert(collapsed.subrange(k, tail) =~= s.subrange(k, tail));
        assert forall|j: int| 0 <= j < k implies !occurs_at(collapsed, sep, j) by {
            assert(!occurs_at(s, sep, j));
            if j + sep.len() <= collapsed.len() {
                assert(collapsed.subrange(j, j + sep.len()) =~= s.subrange(j, j + sep.len()));
            }
        }
        lemma_first_occurrence_is(collapsed, sep, k);
    }
}

/// An absolute reference resolves to itself, whatever the origin and the
/// current path are.
pub proof fn lemma_absolute_reference_unchanged(
    origin: Seq<char>,
    path: Seq<char>,
    reference: Seq<char>,
)
    requires
        is_absolute(reference),
    ensures
        resolve(origin, path, reference) == reference,
{
}

/// A file reference is resolved against the origin alone: the current path
/// has no part in the result.
pub proof fn lemma_file_reference_ignores_path(
    origin: Seq<char>,
    path: Seq<char>,
    other_path: Seq<char>,
    reference: Seq<char>,
)
    requires
        is_file_like(reference),
    ensures
        resolve(origin, path, reference) == resolve(origin, other_path, reference),
{
}

/// A directory reference resolves to a URL that ends with a slash.
pub proof fn lemma_directory_ends_with_slash(
    origin: Seq<char>,
    path: Seq<char>,
    reference: Seq<char>,
)
    requires
        !is_absolute(reference),
        !is_file_like(reference),
    ensures
        resolve(origin, path, reference).len() > 0,
        resolve(origin, path, reference).last() == '/',
{
    lemma_collapse_after_scheme(directory_url(origin, path, reference));
}

/// Where a reference that is not absolute resolves to a URL with a scheme
/// separator, no slash directly follows another behind the first one.
pub proof fn lemma_no_slash_run_after_scheme(
    origin: Seq<char>,
    path: Seq<char>,
    reference: Seq<char>,
)
    requires
        !is_absolute(reference),
    ensures
        after_scheme(resolve(origin, path, reference)) matches Some(tail) ==> has_no_slash_run(
            resolve(origin, path, reference).skip(tail),
        ),
{
    if is_file_like(reference) {
        lemma_collapse_after_scheme(file_url(origin, reference));
    } else {
        lemma_collapse_after_scheme(directory_url(origin, path, reference));
    }
}

/// Appends to `out` the characters of `s` from `from` on, with every run of
/// slashes among them collapsed.
fn push_squeezed(out: &mut Vec<char>, s: &Vec<char>, from: usize)
    requires
        from <= s.len(),
    ensures
        final(out)@ == old(out)@ + squeeze_slashes(s@.subrange(from as int, s.len() as int)),
{
    let mut i: usize = from;
    while i < s.len()
        invariant
            from <= i <= s.len(),
            out@ == old(out)@ + squeeze_slashes(s@.subrange(from as int, i as int)),
        decreases s.len() - i,
    {
        let c = s[i];
        let ghost upto = s@.subrange(from as int, i + 1);
        assert(upto.drop_last() == s@.subrange(from as int, i as int));
        if !(c == '/' && i > from && s[i - 1] == '/') {
            out.push(c);
        }
        i += 1;
    }
}

/// Collapses the runs of slashes behind the first `://` of `full`.
fn collapse(full: Vec<char>) -> (out: Vec<char>)
    ensures
        out@ == collapse_after_scheme(full@),
{
    let separator = chars_of("://");
    match find_first(&full, &separator) {
        Some(k) => {
            assert(k + separator.len() <= full.len());
            let tail = k + separator.len();
            let mut out: Vec<char> = Vec::new();
            push_range(&mut out, &full, 0, tail);
            push_squeezed(&mut out, &full, tail);
            out
        },
        None => full,
    }
}

/// Resolves `reference` against `origin` and `path`, on characters.
pub fn resolve_chars(origin: &Vec<char>, path: &Vec<char>, reference: &Vec<char>) -> (out: Vec<
    char,
>)
    ensures
        out@ == resolve(origin@, path@, reference@),
{
    let http = chars_of("http://");
    let https = chars_of("https://");
    let mut full: Vec<char> = Vec::new();
    if stands_at(reference, &http, 0) || stands_at(reference, &https, 0) {
        push_all(&mut full, reference);
        return full;
    }
    push_all(&mut full, origin);
    let own_slash = reference.len() > 0 && reference[0] == '/';
    if holds_char(reference, '.') {
        if !own_slash {
            full.push('/');
        }
        push_all(&mut full, reference);
        assert(full@ =~= file_url(origin@, reference@));
    } else {
        if !stands_at(reference, path, 0) {
            if path.len() > 0 && path[path.len() - 1] != '/' {
                full.push('/');
            }
            push_all(&mut full, path);
        }
        if !own_slash {
            full.push('/');
        }
        push_all(&mut full, reference);
        if !(full.len() > 0 && full[full.len() - 1] == '/') {
            full.push('/');
        }
        assert(full@ =~= directory_url(origin@, path@, reference@));
    }
    collapse(full)
}

/// The absolute URL that `relative_url` denotes in a document whose origin
/// is `base_url` and whose path is `current_path`.
///
/// Never fails: on degenerate input (an empty origin, say) the result is
/// the best string the rules give.
pub fn resolve_relative_url(base_url: &str, current_path: &str, relative_url: &str) -> (url: String)
    ensures
        url@ == resolve(base_url@, current_path@, relative_url@),
        is_absolute(relative_url@) ==> url@ == relative_url@,
        !is_absolute(relative_url@) && !is_file_like(relative_url@) ==> url@.len() > 0
            && url@.last() == '/',
        !is_absolute(relative_url@) ==> (after_scheme(url@) matches Some(tail)
            ==> has_no_slash_run(url@.skip(tail))),
{
    let origin = chars_of(base_url);
    let path = chars_of(current_path);
    let reference = chars_of(relative_url);
    let out = resolve_chars(&origin, &path, &reference);
    proof {
        if !is_absolute(relative_url@) {
            lemma_no_slash_run_after_scheme(base_url@, current_path@, relative_url@);
            if !is_file_like(relative_url@) {
                lemma_directory_ends_with_slash(base_url@, current_path@, relative_url@);
            }
        }
    }
    string_of(&out)
}

} // verus!
