//! Turning a file identifier (`path` or `path@tag`) into the local path it
//! names and the remote URL it is fetched from.

use vstd::prelude::*;

use crate::text::{last_index, last_index_of, lemma_last_index_found, lemma_last_index_is, lemma_last_index_none};

verus! {

/// Root under which every file is fetched.
pub const REMOTE_BASE: &'static str = "https://raw.githubusercontent.com/aslilac/okie/main/static/";

/// The serialization of the URL that `input` resolves to against the URL
/// serialized as `base`, or `None` where either does not parse.
pub uninterp spec fn url_join(base: Seq<char>, input: Seq<char>) -> Option<Seq<char>>;

/// Relies on `reqwest::Url::join` (the `url` crate's `Url::join`) to resolve
/// `input` against `base`; `Url::parse` reads `base` back from its
/// serialization and `Url::as_str` gives the result's.
#[verifier::external_body]
fn join_url(base: &str, input: &str) -> (r: Option<String>)
    ensures
        match r {
            Some(u) => url_join(base@, input@) == Some(u@),
            None => url_join(base@, input@) is None,
        },
{
    reqwest::Url::parse(base).and_then(|b| b.join(input)).ok().map(|u| String::from(u.as_str()))
}

/// The local path of an identifier: all before its rightmost `@`, or all of it.
pub open spec fn identifier_path(s: Seq<char>) -> Seq<char> {
    match last_index(s, '@') {
        Some(i) => s.subrange(0, i),
        None => s,
    }
}

/// The tag of an identifier: all after its rightmost `@`, if it has one.
pub open spec fn identifier_tag(s: Seq<char>) -> Option<Seq<char>> {
    match last_index(s, '@') {
        Some(i) => Some(s.subrange(i + 1, s.len() as int)),
        None => None,
    }
}

/// The path segment that a tag adds under the base: `@<tag>/`.
pub open spec fn tag_segment(tag: Seq<char>) -> Seq<char> {
    seq!['@'] + tag + seq!['/']
}

/// The URL an identifier is fetched from: the base, then `@<tag>/` where there
/// is a tag, then the local path, each joined onto what came before.
pub open spec fn resolved_url(base: Seq<char>, s: Seq<char>) -> Option<Seq<char>> {
    match identifier_tag(s) {
        None => url_join(base, identifier_path(s)),
        Some(tag) => match url_join(base, tag_segment(tag)) {
            Some(tagged) => url_join(tagged, identifier_path(s)),
            None => None,
        },
    }
}

/// Where an identifier is written locally and where it is fetched from.
#[derive(Debug, Clone)]
pub struct ResolvedTarget {
    pub file_path: String,
    pub url: String,
}

/// Why an identifier could not be resolved.
#[derive(Debug, Clone, Copy, PartialEq, Eq)]
pub enum ResolveError {
    /// The base, the tag or the path does not make a URL.
    InvalidUrl,
}

/// Splits an identifier at its rightmost `@` into local path and tag.
pub fn split_identifier(file: &str) -> (r: (String, Option<String>))
    ensures
        r.0@ == identifier_path(file@),
        match r.1 {
            Some(tag) => identifier_tag(file@) == Some(tag@),
            None => identifier_tag(file@) is None,
        },
{
    proof {
        lemma_last_index_found(file@, '@');
    }
    match last_index_of(file, '@') {
        Some(i) => {
            let n = file.unicode_len();
            let path = file.substring_char(0, i);
            let tag = file.substring_char(i + 1, n);
            (String::from_str(path), Some(String::from_str(tag)))
        },
        None => (String::from_str(file), None),
    }
}

/// Resolves an identifier against `base`.
pub fn resolve_against(base: &str, file: &str) -> (r: Result<ResolvedTarget, ResolveError>)
    ensures
        r is Ok <==> resolved_url(base@, file@) is Some,
        r matches Ok(t) ==> t.file_path@ == identifier_path(file@) && Some(t.url@) == resolved_url(
            base@,
            file@,
        ),
{
    let (file_path, tag) = split_identifier(file);
    let root = match tag {
        Some(tag) => {
            let mut segment = String::from_str("@");
            segment.append(tag.as_str());
            segment.append("/");
            proof {
                reveal_strlit("@");
                reveal_strlit("/");
                assert(segment@ =~= tag_segment(tag@));
            }
            match join_url(base, segment.as_str()) {
                Some(u) => u,
                None => return Err(ResolveError::InvalidUrl),
            }
        },
        None => String::from_str(base),
    };
    match join_url(root.as_str(), file_path.as_str()) {
        Some(url) => Ok(ResolvedTarget { file_path, url }),
        None => Err(ResolveError::InvalidUrl),
    }
}

/// Resolves an identifier against the fixed remote base.
pub fn parse_file_name(file: &str) -> (r: Result<ResolvedTarget, ResolveError>)
    ensures
        r is Ok <==> resolved_url(REMOTE_BASE@, file@) is Some,
        r matches Ok(t) ==> t.file_path@ == identifier_path(file@) && Some(t.url@) == resolved_url(
            REMOTE_BASE@,
            file@,
        ),
{
    resolve_against(REMOTE_BASE, file)
}

/// An identifier without `@` is its own local path, and its URL is that path
/// joined onto the base.
pub proof fn law_untagged_identifier(base: Seq<char>, file: Seq<char>)
    requires
        forall|i: int| 0 <= i < file.len() ==> file[i] != '@',
    ensures
        identifier_path(file) == file,
        identifier_tag(file) is None,
        resolved_url(base, file) == url_join(base, file),
{
    lemma_last_index_none(file, '@');
}

/// In `path@tag` where the tag holds no `@`, the tag is all after that `@`, the
/// local path is all before it, and the URL is the path joined onto the base
/// joined with `@<tag>/`.
pub proof fn law_tagged_identifier(base: Seq<char>, path: Seq<char>, tag: Seq<char>)
    requires
        forall|i: int| 0 <= i < tag.len() ==> tag[i] != '@',
    ensures
        identifier_path(path + seq!['@'] + tag) == path,
        identifier_tag(path + seq!['@'] + tag) == Some(tag),
        resolved_url(base, path + seq!['@'] + tag) == (match url_join(base, tag_segment(tag)) {
            Some(tagged) => url_join(tagged, path),
            None => None,
        }),
{
    let s = path + seq!['@'] + tag;
    let at = path.len() as int;
    assert forall|j: int| at < j < s.len() implies s[j] != '@' by {
        assert(s[j] == tag[j - at - 1]);
    }
    lemma_last_index_is(s, '@', at);
    assert(s.subrange(0, at) =~= path);
    assert(s.subrange(at + 1, s.len() as int) =~= tag);
}

} // verus!
