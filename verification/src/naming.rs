//! Which paths are PDF files, and where the unlocked copy of one is written.

use vstd::prelude::*;
use vstd::string::*;
use crate::text::{chars_of, decimal, push_decimal, text_of};

verus! {

/// The highest number that is tried as a suffix before the overflow name.
pub const MAX_SUFFIX: usize = 9999;

/// The extension of a path, as `std::path::Path::extension` gives it on the
/// system the library is built for.
pub uninterp spec fn path_extension(path: Seq<char>) -> Option<Seq<char>>;

/// The file stem of a path, as `std::path::Path::file_stem` gives it on the
/// system the library is built for.
pub uninterp spec fn path_stem(path: Seq<char>) -> Option<Seq<char>>;

/// The parent of a path, as `std::path::Path::parent` gives it on the system
/// the library is built for.
pub uninterp spec fn path_parent(path: Seq<char>) -> Option<Seq<char>>;

/// The last component of a path, as `std::path::Path::file_name` gives it on
/// the system the library is built for.
pub uninterp spec fn path_file_name(path: Seq<char>) -> Option<Seq<char>>;

/// `name` below `dir`, as `std::path::Path::join` builds it on the system the
/// library is built for.
pub uninterp spec fn path_join(dir: Seq<char>, name: Seq<char>) -> Seq<char>;

/// Calls `Path::extension` on `path`. Nothing is proved of the result; it is
/// given the name [`path_extension`].
#[verifier::external_body]
pub(crate) fn extension_of(path: &str) -> (ext: Option<String>)
    ensures
        text_of(ext) == path_extension(path@),
{
    std::path::Path::new(path).extension()?.to_str().map(String::from)
}

/// Calls `Path::file_stem` on `path`. Nothing is proved of the result; it is
/// given the name [`path_stem`].
#[verifier::external_body]
pub(crate) fn stem_of(path: &str) -> (stem: Option<String>)
    ensures
        text_of(stem) == path_stem(path@),
{
    std::path::Path::new(path).file_stem()?.to_str().map(String::from)
}

/// Calls `Path::parent` on `path`. Nothing is proved of the result; it is
/// given the name [`path_parent`].
#[verifier::external_body]
pub(crate) fn parent_of(path: &str) -> (parent: Option<String>)
    ensures
        text_of(parent) == path_parent(path@),
{
    std::path::Path::new(path).parent()?.to_str().map(String::from)
}

/// Calls `Path::file_name` on `path`. Nothing is proved of the result; it is
/// given the name [`path_file_name`].
#[verifier::external_body]
pub(crate) fn file_name_of(path: &str) -> (name: Option<String>)
    ensures
        text_of(name) == path_file_name(path@),
{
    std::path::Path::new(path).file_name()?.to_str().map(String::from)
}

/// Calls `Path::join` to put `name` below `dir`. Nothing is proved of the
/// result; it is given the name [`path_join`].
#[verifier::external_body]
pub(crate) fn join(dir: &str, name: &str) -> (path: String)
    ensures
        path@ == path_join(dir@, name@),
{
    std::path::Path::new(dir).join(name).to_string_lossy().into_owned()
}

/// An extension that spells `pdf`, in any mix of upper and lower case.
pub open spec fn is_pdf_extension(ext: Seq<char>) -> bool {
    &&& ext.len() == 3
    &&& (ext[0] == 'p' || ext[0] == 'P')
    &&& (ext[1] == 'd' || ext[1] == 'D')
    &&& (ext[2] == 'f' || ext[2] == 'F')
}

/// A path whose extension spells `pdf`.
pub open spec fn is_pdf_path(path: Seq<char>) -> bool {
    match path_extension(path) {
        Some(ext) => is_pdf_extension(ext),
        None => false,
    }
}

/// Whether an extension (without its dot) spells `pdf`, ignoring ASCII case.
pub fn extension_is_pdf(ext: &str) -> (r: bool)
    ensures
        r == is_pdf_extension(ext@),
{
    let chars = chars_of(ext);
    chars.len() == 3 && (chars[0] == 'p' || chars[0] == 'P') && (chars[1] == 'd' || chars[1]
        == 'D') && (chars[2] == 'f' || chars[2] == 'F')
}

/// Whether `path` names a PDF file: its extension is `pdf`, in any case.
pub fn is_pdf(path: &str) -> (r: bool)
    ensures
        r == is_pdf_path(path@),
{
    match extension_of(path) {
        Some(ext) => extension_is_pdf(ext.as_str()),
        None => false,
    }
}

/// What stands between `_unlocked` and `.pdf` in the name tried at the given
/// attempt: nothing at first, then `_1` to `_9999`, last `_overflow`.
pub open spec fn name_suffix(attempt: nat) -> Seq<char> {
    if attempt == 0 {
        Seq::empty()
    } else if attempt <= MAX_SUFFIX {
        "_"@ + decimal(attempt)
    } else {
        "_overflow"@
    }
}

/// The file name tried at the given attempt for a source with the given
/// stem: the stem, `_unlocked`, the attempt's suffix, and `.pdf`.
pub open spec fn unlocked_name(stem: Seq<char>, attempt: nat) -> Seq<char> {
    stem + "_unlocked"@ + name_suffix(attempt) + ".pdf"@
}

/// The file name tried at `attempt` for the stem `stem`.
pub fn output_name(stem: &str, attempt: usize) -> (name: String)
    ensures
        name@ == unlocked_name(stem@, attempt as nat),
{
    let mut name = String::from_str(stem);
    name.append("_unlocked");
    let ghost head = name@;
    if attempt == 0 {
        proof {
            assert(head + Seq::<char>::empty() =~= head);
        }
    } else if attempt <= MAX_SUFFIX {
        name.append("_");
        push_decimal(&mut name, attempt);
        proof {
            assert(name@ =~= head + ("_"@ + decimal(attempt as nat)));
        }
    } else {
        name.append("_overflow");
    }
    name.append(".pdf");
    name
}

/// The path tried at the given attempt in `dir`.
pub open spec fn candidate(dir: Seq<char>, stem: Seq<char>, attempt: nat) -> Seq<char> {
    path_join(dir, unlocked_name(stem, attempt))
}

/// The existence check `is_taken`, asked about `path`, may answer `answer`.
pub open spec fn answers<F: Fn(&str) -> bool>(is_taken: F, path: Seq<char>, answer: bool) -> bool {
    exists|p: &str| p@ == path && #[trigger] call_ensures(is_taken, (p,), answer)
}

/// `path` is the candidate of `attempt`, every earlier candidate was reported
/// to exist, and this one was reported free unless it is the overflow name.
pub open spec fn found_at<F: Fn(&str) -> bool>(
    is_taken: F,
    dir: Seq<char>,
    stem: Seq<char>,
    path: Seq<char>,
    attempt: nat,
) -> bool {
    &&& attempt <= MAX_SUFFIX + 1
    &&& path == candidate(dir, stem, attempt)
    &&& forall|j: nat| j < attempt ==> answers(is_taken, #[trigger] candidate(dir, stem, j), true)
    &&& attempt <= MAX_SUFFIX ==> answers(is_taken, path, false)
}

/// Where the existence check tells the truth about a set of paths that are
/// taken, the path that was found is not among them unless it is the
/// overflow name, and every candidate before it is.
pub proof fn lemma_found_path_is_free<F: Fn(&str) -> bool>(
    is_taken: F,
    taken: Set<Seq<char>>,
    dir: Seq<char>,
    stem: Seq<char>,
    path: Seq<char>,
    attempt: nat,
)
    requires
        forall|p: &str, answer: bool| #[trigger]
            call_ensures(is_taken, (p,), answer) ==> answer == taken.contains(p@),
        found_at(is_taken, dir, stem, path, attempt),
    ensures
        attempt <= MAX_SUFFIX ==> !taken.contains(path),
        forall|j: nat| j < attempt ==> taken.contains(#[trigger] candidate(dir, stem, j)),
{
    assert forall|j: nat| j < attempt implies taken.contains(#[trigger] candidate(dir, stem, j)) by {
        assert(answers(is_taken, candidate(dir, stem, j), true));
    }
}

/// Picks the path of the unlocked copy in `output_dir`: the first of
/// `<stem>_unlocked.pdf`, `<stem>_unlocked_1.pdf` … `<stem>_unlocked_9999.pdf`
/// that `is_taken` reports free, else `<stem>_unlocked_overflow.pdf`, which is
/// taken without asking.
pub fn unique_output_path<F: Fn(&str) -> bool>(output_dir: &str, file_stem: &str, is_taken: F) -> (path:
    String)
    requires
        forall|p: &str| #[trigger] call_requires(is_taken, (p,)),
    ensures
        exists|attempt: nat| found_at(is_taken, output_dir@, file_stem@, path@, attempt),
{
    let mut attempt: usize = 0;
    while attempt <= MAX_SUFFIX
        invariant
            attempt <= MAX_SUFFIX + 1,
            forall|p: &str| #[trigger] call_requires(is_taken, (p,)),
            forall|j: nat|
                j < attempt ==> answers(is_taken, #[trigger] candidate(output_dir@, file_stem@, j), true),
        decreases MAX_SUFFIX + 1 - attempt,
    {
        let name = output_name(file_stem, attempt);
        let path = join(output_dir, name.as_str());
        let taken = is_taken(path.as_str());
        proof {
            assert(answers(is_taken, candidate(output_dir@, file_stem@, attempt as nat), taken));
        }
        if !taken {
            proof {
                assert(found_at(is_taken, output_dir@, file_stem@, path@, attempt as nat));
            }
            return path;
        }
        attempt += 1;
    }
    let name = output_name(file_stem, attempt);
    let path = join(output_dir, name.as_str());
    proof {
        assert(found_at(is_taken, output_dir@, file_stem@, path@, attempt as nat));
    }
    path
}

} // verus!
