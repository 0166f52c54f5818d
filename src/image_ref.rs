//! Splitting an image reference into registry host, repository and tag.

use vstd::prelude::*;
use crate::text::{count_char, first_index, last_index, lemma_first_index, lemma_last_index, scan_char};

verus! {

/// Host used when an image reference names no registry of its own.
pub const DEFAULT_REGISTRY: &'static str = "https://index.docker.io/v1";

/// An image reference taken apart.
pub struct ImageRef {
    pub registry: String,
    pub repository: String,
    pub tag: String,
}

#[derive(Clone, Copy, Debug, PartialEq, Eq, Structural)]
pub enum ImageRefError {
    /// The repository part holds no ":" and so names no tag.
    MissingTag,
}

/// Number of "/"-separated segments of `s`.
pub open spec fn segment_count(s: Seq<char>) -> nat {
    count_char(s, '/') + 1
}

/// Registry host and repository path (tag included) of an image string.
pub open spec fn registry_and_path(s: Seq<char>) -> (Seq<char>, Seq<char>) {
    if segment_count(s) > 2 {
        let i = first_index(s, '/');
        (s.take(i), s.skip(i + 1))
    } else {
        (DEFAULT_REGISTRY@, s)
    }
}

/// Registry host, repository and tag of an image string; `None` when the
/// repository path holds no ":".
pub open spec fn parse_image_spec(s: Seq<char>) -> Option<(Seq<char>, Seq<char>, Seq<char>)> {
    let (host, path) = registry_and_path(s);
    let k = last_index(path, ':');
    if k < 0 {
        None
    } else {
        Some((host, path.take(k), path.skip(k + 1)))
    }
}

impl ImageRef {
    pub open spec fn view_parts(&self) -> (Seq<char>, Seq<char>, Seq<char>) {
        (self.registry@, self.repository@, self.tag@)
    }
}

/// Parses an image string such as `reg.example.com/team/app:1.2` or `redis:6`.
/// With three or more "/"-segments the first is the registry host; otherwise
/// the host is `DEFAULT_REGISTRY` and the whole string is repository and tag.
/// The tag follows the last ":" of the repository path; without one the
/// reference is malformed.
pub fn parse_image(image: &str) -> (r: Result<ImageRef, ImageRefError>)
    ensures
        match r {
            Ok(v) => parse_image_spec(image@) == Some(v.view_parts()),
            Err(e) => parse_image_spec(image@) is None && e == ImageRefError::MissingTag,
        },
{
    let (slashes, first_slash, _) = scan_char(image, '/');
    proof {
        lemma_first_index(image@, '/');
    }
    let n = image.unicode_len();
    let (registry, path): (String, &str) = if slashes > 1 {
        let i = match first_slash {
            Some(i) => i,
            None => 0,
        };
        (String::from_str(image.substring_char(0, i)), image.substring_char(i + 1, n))
    } else {
        (String::from_str(DEFAULT_REGISTRY), image)
    };
    assert(registry@ == registry_and_path(image@).0);
    assert(path@ =~= registry_and_path(image@).1);
    let (_, _, last_colon) = scan_char(path, ':');
    proof {
        lemma_last_index(path@, ':');
    }
    let k = match last_colon {
        Some(k) => k,
        None => return Err(ImageRefError::MissingTag),
    };
    let m = path.unicode_len();
    let repository = String::from_str(path.substring_char(0, k));
    let tag = String::from_str(path.substring_char(k + 1, m));
    assert(repository@ =~= path@.take(k as int));
    assert(tag@ =~= path@.skip(k + 1));
    Ok(ImageRef { registry, repository, tag })
}

/// With three or more "/"-segments the registry host is the first segment;
/// with fewer it is `DEFAULT_REGISTRY`, and repository, ":" and tag put back
/// together give the whole image string.
pub proof fn lemma_host_selection(s: Seq<char>)
    requires
        parse_image_spec(s) is Some,
    ensures
        ({
            let (host, repository, tag) = parse_image_spec(s).unwrap();
            &&& segment_count(s) > 2 ==> {
                &&& s =~= host + seq!['/'] + s.skip(host.len() as int + 1)
                &&& !host.contains('/')
            }
            &&& segment_count(s) <= 2 ==> {
                &&& host == DEFAULT_REGISTRY@
                &&& repository + seq![':'] + tag =~= s
            }
        }),
{
    lemma_first_index(s, '/');
    let (host, path) = registry_and_path(s);
    lemma_last_index(path, ':');
    let k = last_index(path, ':');
    assert(path =~= path.take(k) + seq![':'] + path.skip(k + 1));
    if segment_count(s) > 2 {
        let i = first_index(s, '/');
        assert(s =~= s.take(i) + seq!['/'] + s.skip(i + 1));
        if host.contains('/') {
            let j = choose|j: int| 0 <= j < host.len() && host[j] == '/';
            assert(s[j] == '/');
        }
    }
}

/// An image string without ":" never parses: no tag is made up for it.
pub proof fn lemma_no_colon_no_tag(s: Seq<char>)
    requires
        !s.contains(':'),
    ensures
        parse_image_spec(s) is None,
{
    lemma_first_index(s, '/');
    let path = registry_and_path(s).1;
    if path.contains(':') {
        let j = choose|j: int| 0 <= j < path.len() && path[j] == ':';
        let i = first_index(s, '/');
        if segment_count(s) > 2 {
            assert(s[i + 1 + j] == ':');
        } else {
            assert(s[j] == ':');
        }
    }
    lemma_last_index(path, ':');
}

} // verus!
