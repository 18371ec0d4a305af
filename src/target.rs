//! From a request to the file it asks for: the request-target, its
//! percent-decoding, and the path relative to the served root.
use vstd::prelude::*;
use vstd::string::StringSliceAdditionalSpecFns;
use vstd::utf8::valid_utf8;

use crate::bytes::{append_bytes, copy_range, find_byte, index_from};
use crate::error::Error;

verus! {

/// The value of an ASCII hexadecimal digit, either case.
pub open spec fn hex_value(b: u8) -> Option<u8> {
    if 48u8 <= b <= 57u8 {
        Some((b - 48) as u8)
    } else if 65u8 <= b <= 70u8 {
        Some((b - 55) as u8)
    } else if 97u8 <= b <= 102u8 {
        Some((b - 87) as u8)
    } else {
        None
    }
}

/// Percent-decoding: `%` (37) and two hex digits stand for one byte; any
/// other byte, a `%` without two hex digits after it included, stands for
/// itself. `+` stays `+`.
pub open spec fn percent_decoded(data: Seq<u8>) -> Seq<u8>
    decreases data.len(),
{
    if data.len() == 0 {
        Seq::empty()
    } else if data[0] == 37u8 && data.len() >= 3 && hex_value(data[1]) is Some && hex_value(
        data[2],
    ) is Some {
        seq![(hex_value(data[1])->Some_0 * 16 + hex_value(data[2])->Some_0) as u8]
            + percent_decoded(data.subrange(3, data.len() as int))
    } else {
        seq![data[0]] + percent_decoded(data.drop_first())
    }
}

/// Relies on `urlencoding::decode_binary`, which decodes as
/// `percent_decoded` says.
#[verifier::external_body]
fn decode_percent(data: &[u8]) -> (r: Vec<u8>)
    ensures
        r@ == percent_decoded(data@),
{
    urlencoding::decode_binary(data).into_owned()
}

/// Relies on `std::str::from_utf8`: it succeeds exactly on well-formed UTF-8.
#[verifier::external_body]
fn is_utf8(data: &[u8]) -> (r: bool)
    ensures
        r == valid_utf8(data@),
{
    std::str::from_utf8(data).is_ok()
}

/// The first line of a request, without its line ending (`\n`, or `\r\n`).
pub open spec fn first_line(request: Seq<u8>) -> Seq<u8> {
    let e = index_from(request, 10u8, 0);
    if e < request.len() && e > 0 && request[e - 1] == 13u8 {
        request.subrange(0, e - 1)
    } else {
        request.subrange(0, e)
    }
}

/// The request-target: in the first line, what stands between the first
/// space and the next one (or the end of the line). `None` when the line
/// has no space.
pub open spec fn target_of(request: Seq<u8>) -> Option<Seq<u8>> {
    let line = first_line(request);
    let sp1 = index_from(line, 32u8, 0);
    if sp1 >= line.len() {
        None
    } else {
        Some(line.subrange(sp1 + 1, index_from(line, 32u8, sp1 + 1)))
    }
}

proof fn lemma_index_from_bounds(s: Seq<u8>, b: u8, i: int)
    requires
        0 <= i <= s.len(),
    ensures
        i <= index_from(s, b, i) <= s.len(),
        index_from(s, b, i) < s.len() ==> s[index_from(s, b, i)] == b,
    decreases s.len() - i,
{
    if i < s.len() && s[i] != b {
        lemma_index_from_bounds(s, b, i + 1);
    }
}

/// Extracts the request-target from a request.
pub fn request_target(request: &[u8]) -> (r: Option<Vec<u8>>)
    ensures
        match r {
            Some(t) => target_of(request@) == Some(t@),
            None => target_of(request@) is None,
        },
{
    let e: usize = find_byte(request, 10u8, 0);
    proof {
        lemma_index_from_bounds(request@, 10u8, 0);
    }
    let line_end: usize = if e < request.len() && e > 0 && request[e - 1] == 13u8 {
        e - 1
    } else {
        e
    };
    let line: Vec<u8> = copy_range(request, 0, line_end);
    assert(line@ == first_line(request@));
    let sp1: usize = find_byte(line.as_slice(), 32u8, 0);
    proof {
        lemma_index_from_bounds(line@, 32u8, 0);
    }
    if sp1 >= line.len() {
        return None;
    }
    let sp2: usize = find_byte(line.as_slice(), 32u8, sp1 + 1);
    proof {
        lemma_index_from_bounds(line@, 32u8, sp1 + 1);
    }
    Some(copy_range(line.as_slice(), sp1 + 1, sp2))
}

/// What the request asks for, percent-decoded: the decoded target when
/// there is one and it is UTF-8 text.
pub open spec fn requested_path_outcome(request: Seq<u8>) -> Result<Seq<u8>, Error> {
    match target_of(request) {
        None => Err(Error::WrongRequest),
        Some(t) => if valid_utf8(percent_decoded(t)) {
            Ok(percent_decoded(t))
        } else {
            Err(Error::WrongUri)
        },
    }
}

/// Gets the requested path out of a request: the request-target,
/// percent-decoded. A request without a target is refused as
/// `WrongRequest`; one whose decoded target is not UTF-8, as `WrongUri`.
pub fn get_requested_path(request: &[u8]) -> (r: Result<Vec<u8>, Error>)
    ensures
        match r {
            Ok(p) => requested_path_outcome(request@) == Ok::<Seq<u8>, Error>(p@),
            Err(e) => requested_path_outcome(request@) == Err::<Seq<u8>, Error>(e),
        },
{
    match request_target(request) {
        None => Err(Error::WrongRequest),
        Some(t) => {
            let decoded = decode_percent(t.as_slice());
            if is_utf8(decoded.as_slice()) {
                Ok(decoded)
            } else {
                Err(Error::WrongUri)
            }
        },
    }
}

/// The first index at or after `i` that does not hold a `/` (47).
pub open spec fn slash_run(s: Seq<u8>, i: int) -> int
    decreases s.len() - i,
{
    if 0 <= i < s.len() && s[i] == 47u8 {
        slash_run(s, i + 1)
    } else {
        i
    }
}

/// A `..` segment (46 is `.`) starts at `i`: it stands between slashes or
/// the ends of `s`.
pub open spec fn is_parent_segment_at(s: Seq<u8>, i: int) -> bool {
    &&& 0 <= i
    &&& i + 1 < s.len()
    &&& s[i] == 46u8
    &&& s[i + 1] == 46u8
    &&& (i == 0 || s[i - 1] == 47u8)
    &&& (i + 2 == s.len() || s[i + 2] == 47u8)
}

/// `s` holds a `..` segment somewhere.
pub open spec fn has_parent_segment(s: Seq<u8>) -> bool {
    exists|i: int| is_parent_segment_at(s, i)
}

/// The decoded path made relative to the served root. It must start with
/// `/`, which is stripped; one with a `..` segment could climb out of the
/// root, so it is refused.
pub open spec fn relative_outcome(path: Seq<u8>) -> Result<Seq<u8>, Error> {
    if path.len() == 0 || path[0] != 47u8 {
        Err(Error::WrongRequest)
    } else if has_parent_segment(path) {
        Err(Error::WrongRequest)
    } else {
        Ok(path.subrange(slash_run(path, 0), path.len() as int))
    }
}

proof fn lemma_slash_run_bounds(s: Seq<u8>, i: int)
    requires
        0 <= i <= s.len(),
    ensures
        i <= slash_run(s, i) <= s.len(),
        forall|k: int| i <= k < slash_run(s, i) ==> s[k] == 47u8,
        slash_run(s, i) < s.len() ==> s[slash_run(s, i)] != 47u8,
    decreases s.len() - i,
{
    if i < s.len() && s[i] == 47u8 {
        lemma_slash_run_bounds(s, i + 1);
    }
}

/// Whether some `..` segment stands in `s`.
fn find_parent_segment(s: &[u8]) -> (r: bool)
    ensures
        r == has_parent_segment(s@),
{
    let mut i: usize = 0;
    while i < s.len() && i + 1 < s.len()
        invariant
            i <= s@.len(),
            forall|j: int| 0 <= j < i ==> !is_parent_segment_at(s@, j),
        decreases s@.len() - i,
    {
        if s[i] == 46u8 && s[i + 1] == 46u8 && (i == 0 || s[i - 1] == 47u8) && (i + 2 == s.len()
            || s[i + 2] == 47u8) {
            assert(is_parent_segment_at(s@, i as int));
            return true;
        }
        i = i + 1;
    }
    assert forall|j: int| !is_parent_segment_at(s@, j) by {
        if 0 <= j < i {
        }
    }
    false
}

/// Turns the decoded requested path into a path relative to the served
/// root: the leading `/` goes, and a path that is not rooted or that holds
/// a `..` segment is refused as `WrongRequest`.
pub fn relative_target(path: &[u8]) -> (r: Result<Vec<u8>, Error>)
    ensures
        match r {
            Ok(p) => relative_outcome(path@) == Ok::<Seq<u8>, Error>(p@),
            Err(e) => relative_outcome(path@) == Err::<Seq<u8>, Error>(e),
        },
{
    if path.len() == 0 || path[0] != 47u8 {
        return Err(Error::WrongRequest);
    }
    if find_parent_segment(path) {
        return Err(Error::WrongRequest);
    }
    let mut start: usize = 0;
    while start < path.len() && path[start] == 47u8
        invariant
            start <= path@.len(),
            slash_run(path@, 0) == slash_run(path@, start as int),
        decreases path@.len() - start,
    {
        start = start + 1;
    }
    Ok(copy_range(path, start, path.len()))
}

/// A path that `relative_target` accepts has no `..` segment left: the
/// file it names lies under the served root.
pub proof fn lemma_relative_target_stays_inside(path: Seq<u8>)
    requires
        relative_outcome(path) is Ok,
    ensures
        !has_parent_segment(relative_outcome(path)->Ok_0),
{
    lemma_slash_run_bounds(path, 0);
    let n = slash_run(path, 0);
    let rel = path.subrange(n, path.len() as int);
    assert(n >= 1);
    assert forall|i: int| !is_parent_segment_at(rel, i) by {
        if is_parent_segment_at(rel, i) {
            assert(path[n - 1] == 47u8);
            assert(is_parent_segment_at(path, i + n));
        }
    }
}

/// Where a request leads: its decoded target, made relative to the served
/// root.
pub open spec fn resolved_outcome(request: Seq<u8>) -> Result<Seq<u8>, Error> {
    match requested_path_outcome(request) {
        Ok(p) => relative_outcome(p),
        Err(e) => Err(e),
    }
}

/// The path, relative to the served root, that a request asks for; the
/// caller serves its `index.html` when it names a directory.
pub fn resolve_request(request: &[u8]) -> (r: Result<Vec<u8>, Error>)
    ensures
        match r {
            Ok(p) => resolved_outcome(request@) == Ok::<Seq<u8>, Error>(p@),
            Err(e) => resolved_outcome(request@) == Err::<Seq<u8>, Error>(e),
        },
{
    let path = get_requested_path(request)?;
    relative_target(path.as_slice())
}

/// The file served for a directory.
pub const INDEX_FILE: &'static str = "index.html";

/// The relative path of the index file inside the directory `dir`.
pub open spec fn index_of_dir(dir: Seq<u8>) -> Seq<u8> {
    if dir.len() == 0 || dir.last() == 47u8 {
        dir + INDEX_FILE.spec_bytes()
    } else {
        dir.push(47u8) + INDEX_FILE.spec_bytes()
    }
}

/// The path to serve when the relative path `dir` names a directory: its
/// `index.html`.
pub fn index_target(dir: &[u8]) -> (r: Vec<u8>)
    ensures
        r@ == index_of_dir(dir@),
{
    let mut r = copy_range(dir, 0, dir.len());
    assert(dir@.subrange(0, dir@.len() as int) == dir@);
    if dir.len() > 0 && dir[dir.len() - 1] != 47u8 {
        r.push(47u8);
    }
    append_bytes(&mut r, INDEX_FILE.as_bytes());
    r
}

} // verus!
