//! Reading lists of versions from the names that stand for them: the
//! directories of the installed SDKs and the tags of the upstream
//! repository.
//!
//! A list is read name by name. A name that is no tag of a release is
//! passed over; a tag whose version cannot be parsed fails the whole list
//! with the error of that tag.

use crate::parser::{parse_chars, parsed, prefix, prefix_at, ParseError};
use crate::text::{after_first, chars_of, find, split, split_on, views};
use crate::version::Version;
use vstd::prelude::*;

verus! {

/// The versions of the items of a list, where `tag_of` gives the text of
/// the version in an item, or nothing for an item to pass over. The result
/// is the error of the first item whose text is no version, if there is
/// one.
pub open spec fn parsed_tags(
    items: Seq<Seq<char>>,
    tag_of: spec_fn(Seq<char>) -> Option<Seq<char>>,
) -> Result<Seq<Version>, ParseError>
    decreases items.len(),
{
    if items.len() == 0 {
        Ok(Seq::empty())
    } else {
        match parsed_tags(items.drop_last(), tag_of) {
            Err(e) => Err(e),
            Ok(versions) => match tag_of(items.last()) {
                None => Ok(versions),
                Some(tag) => match parsed(tag) {
                    Ok(v) => Ok(versions.push(v)),
                    Err(e) => Err(e),
                },
            },
        }
    }
}

/// An error among the first items of a list is the error of the list.
pub proof fn lemma_parsed_tags_error(
    items: Seq<Seq<char>>,
    tag_of: spec_fn(Seq<char>) -> Option<Seq<char>>,
    i: int,
)
    requires
        0 <= i <= items.len(),
        parsed_tags(items.take(i), tag_of) is Err,
    ensures
        parsed_tags(items, tag_of) == parsed_tags(items.take(i), tag_of),
    decreases items.len() - i,
{
    if i == items.len() {
        assert(items.take(i) =~= items);
    } else {
        assert(items.take(i + 1).drop_last() =~= items.take(i));
        lemma_parsed_tags_error(items, tag_of, i + 1);
    }
}

/// Every name is the text of a version.
pub open spec fn whole_name() -> spec_fn(Seq<char>) -> Option<Seq<char>> {
    |name: Seq<char>| Some(name)
}

/// The text of the version in a reference to a tag: what follows
/// `refs/tags/go`. A reference to anything else holds none.
pub open spec fn tag_of_ref() -> spec_fn(Seq<char>) -> Option<Seq<char>> {
    |reference: Seq<char>| prefix_at("refs/tags/go"@, reference)
}

/// The text of the version in a line of a listing of remote tags: what
/// follows `go` behind the first `refs/tags/` of the line. A line without
/// that holds none.
pub open spec fn tag_of_line() -> spec_fn(Seq<char>) -> Option<Seq<char>> {
    |line: Seq<char>|
        match after_first(line, "refs/tags/"@) {
            Some(tag) => prefix_at("go"@, tag),
            None => None,
        }
}

/// The texts of the strings of a sequence.
pub open spec fn texts(names: Seq<String>) -> Seq<Seq<char>> {
    names.map_values(|name: String| name@)
}

/// Returns the versions of the installed SDKs, given the names of the
/// directories in the installations directory, in the order of the names.
///
/// # Errors
/// The error of the first name that is no version.
pub fn get_installed_versions(names: &Vec<String>) -> (r: Result<Vec<Version>, ParseError>)
    ensures
        match parsed_tags(texts(names@), whole_name()) {
            Ok(versions) => r matches Ok(read) && read@ == versions,
            Err(e) => r == Err::<Vec<Version>, ParseError>(e),
        },
{
    let ghost items = texts(names@);
    let mut versions: Vec<Version> = Vec::new();
    let mut i: usize = 0;
    while i < names.len()
        invariant
            i <= names.len(),
            items == texts(names@),
            parsed_tags(items.take(i as int), whole_name()) == Ok::<Seq<Version>, ParseError>(
                versions@,
            ),
        decreases names.len() - i,
    {
        let name = chars_of(names[i].as_str());
        proof {
            assert(items.take(i + 1).drop_last() =~= items.take(i as int));
            assert(items.take(i + 1).last() == name@);
        }
        match parse_chars(name.as_slice()) {
            Ok(v) => versions.push(v),
            Err(e) => {
                proof {
                    lemma_parsed_tags_error(items, whole_name(), i + 1);
                }
                return Err(e);
            },
        }
        i += 1;
    }
    assert(items.take(names.len() as int) =~= items);
    Ok(versions)
}

/// Returns the versions of the upstream releases, given the references
/// that the API of the repository lists: those that start with
/// `refs/tags/go`, in the order of the list.
///
/// # Errors
/// The error of the first such reference whose tag is no version.
pub fn get_upstream_versions_api(refs: &Vec<String>) -> (r: Result<Vec<Version>, ParseError>)
    ensures
        match parsed_tags(texts(refs@), tag_of_ref()) {
            Ok(versions) => r matches Ok(read) && read@ == versions,
            Err(e) => r == Err::<Vec<Version>, ParseError>(e),
        },
{
    let ghost items = texts(refs@);
    let mut versions: Vec<Version> = Vec::new();
    let mut i: usize = 0;
    while i < refs.len()
        invariant
            i <= refs.len(),
            items == texts(refs@),
            parsed_tags(items.take(i as int), tag_of_ref()) == Ok::<Seq<Version>, ParseError>(
                versions@,
            ),
        decreases refs.len() - i,
    {
        let reference = chars_of(refs[i].as_str());
        proof {
            assert(items.take(i + 1).drop_last() =~= items.take(i as int));
            assert(items.take(i + 1).last() == reference@);
        }
        if let Some(tag) = prefix("refs/tags/go", reference.as_slice()) {
            match parse_chars(tag) {
                Ok(v) => versions.push(v),
                Err(e) => {
                    proof {
                        lemma_parsed_tags_error(items, tag_of_ref(), i + 1);
                    }
                    return Err(e);
                },
            }
        }
        i += 1;
    }
    assert(items.take(refs.len() as int) =~= items);
    Ok(versions)
}

/// Returns the versions of the upstream releases, given the output of
/// `git ls-remote --tags` for the repository: one version for each line
/// that names a tag which starts with `go`, in the order of the lines.
///
/// # Errors
/// The error of the first such line whose tag is no version.
pub fn get_upstream_versions_git(output: &str) -> (r: Result<Vec<Version>, ParseError>)
    ensures
        match parsed_tags(split_on(output@, '\n'), tag_of_line()) {
            Ok(versions) => r matches Ok(read) && read@ == versions,
            Err(e) => r == Err::<Vec<Version>, ParseError>(e),
        },
{
    let chars = chars_of(output);
    let lines = split(chars.as_slice(), '\n');
    let marker = chars_of("refs/tags/");
    let ghost items = split_on(output@, '\n');
    let mut versions: Vec<Version> = Vec::new();
    let mut i: usize = 0;
    while i < lines.len()
        invariant
            i <= lines.len(),
            marker@ == "refs/tags/"@,
            items == views(lines@),
            items == split_on(output@, '\n'),
            parsed_tags(items.take(i as int), tag_of_line()) == Ok::<Seq<Version>, ParseError>(
                versions@,
            ),
        decreases lines.len() - i,
    {
        let line = lines[i].as_slice();
        proof {
            assert(items.take(i + 1).drop_last() =~= items.take(i as int));
            assert(items.take(i + 1).last() == line@);
        }
        if let Some(at) = find(line, marker.as_slice()) {
            assert(at + marker.len() <= line.len());
            let rest = vstd::slice::slice_subrange(line, at + marker.len(), line.len());
            assert(rest@ == line@.skip(at + marker@.len()));
            if let Some(tag) = prefix("go", rest) {
                match parse_chars(tag) {
                    Ok(v) => versions.push(v),
                    Err(e) => {
                        proof {
                            lemma_parsed_tags_error(items, tag_of_line(), i + 1);
                        }
                        return Err(e);
                    },
                }
            }
        }
        i += 1;
    }
    assert(items.take(lines.len() as int) =~= items);
    Ok(versions)
}

} // verus!
