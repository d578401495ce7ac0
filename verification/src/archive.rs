//! Recognising archives by their URL or path, and how an archive is
//! extracted.
use vstd::prelude::*;

use crate::text::{before_first, ends_with, lowered, owned, prefix_before, str_ends_with, to_lowercase};

verus! {

/// The path ends with the suffix of a known archive format.
pub open spec fn has_archive_suffix(p: Seq<char>) -> bool {
    ||| ends_with(p, ".zip"@)
    ||| ends_with(p, ".7z"@)
    ||| ends_with(p, ".tar"@)
    ||| ends_with(p, ".tar.gz"@)
    ||| ends_with(p, ".tgz"@)
    ||| ends_with(p, ".tar.bz2"@)
    ||| ends_with(p, ".tar.xz"@)
    ||| ends_with(p, ".gz"@)
}

/// Whether a lower-case URL points at an archive: its path, before any
/// query string, ends with a known archive suffix.
pub fn is_archive_lowercase_url(lower: &str) -> (res: bool)
    ensures
        res == has_archive_suffix(before_first(lower@, '?')),
{
    let p = prefix_before(lower, '?');
    let s = p.as_str();
    str_ends_with(s, ".zip") || str_ends_with(s, ".7z") || str_ends_with(s, ".tar")
        || str_ends_with(s, ".tar.gz") || str_ends_with(s, ".tgz") || str_ends_with(s, ".tar.bz2")
        || str_ends_with(s, ".tar.xz") || str_ends_with(s, ".gz")
}

/// A URL points at an archive: its lower-case form, before any query
/// string, ends with a known archive suffix.
pub open spec fn archive_url(url: Seq<char>) -> bool {
    has_archive_suffix(before_first(lowered(url), '?'))
}

/// Whether a URL points at an archive, whatever the case of its letters.
pub fn is_archive_url(url: &str) -> (res: bool)
    ensures
        res == archive_url(url@),
{
    let lower = to_lowercase(url);
    is_archive_lowercase_url(lower.as_str())
}

/// How an archive is extracted.
pub enum ExtractMethod {
    /// With the built-in zip reader.
    Zip,
    /// By running `7z` with these arguments.
    SevenZip(Vec<String>),
}

/// The arguments `7z` is run with to extract `src` into `dest`.
pub open spec fn seven_zip_args(src: Seq<char>, dest: Seq<char>) -> Seq<Seq<char>> {
    seq!["x"@, src, "-o"@ + dest, "-y"@]
}

/// How the archive at `src` is extracted into `dest`, given the lower-case
/// form of `src`: zip archives with the zip reader, anything else with `7z`.
pub fn plan_extract(lower_src: &str, src: &str, dest: &str) -> (res: ExtractMethod)
    ensures
        ends_with(lower_src@, ".zip"@) ==> res matches ExtractMethod::Zip,
        !ends_with(lower_src@, ".zip"@) ==> (res matches ExtractMethod::SevenZip(args)
            && crate::text::views(args@) == seven_zip_args(src@, dest@)),
{
    if str_ends_with(lower_src, ".zip") {
        ExtractMethod::Zip
    } else {
        let mut out = String::from_str("-o");
        out.append(dest);
        let mut args: Vec<String> = Vec::new();
        args.push(String::from_str("x"));
        args.push(owned(src));
        args.push(out);
        args.push(String::from_str("-y"));
        assert(crate::text::views(args@) =~= seven_zip_args(src@, dest@));
        ExtractMethod::SevenZip(args)
    }
}

/// How the archive at `src` is extracted into `dest`: zip archives, whatever
/// the case of their suffix, with the zip reader, anything else with `7z`.
pub fn extract(src: &str, dest: &str) -> (res: ExtractMethod)
    ensures
        ends_with(lowered(src@), ".zip"@) ==> res matches ExtractMethod::Zip,
        !ends_with(lowered(src@), ".zip"@) ==> (res matches ExtractMethod::SevenZip(args)
            && crate::text::views(args@) == seven_zip_args(src@, dest@)),
{
    let lower = to_lowercase(src);
    plan_extract(lower.as_str(), src, dest)
}

} // verus!
