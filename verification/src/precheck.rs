//! The precheck: before any sandbox is created, every file the run refers to
//! must exist, and each missing one is reported by a well-formed option
//! error naming it.

use vstd::prelude::*;

use crate::cli::{Metadata, Opts};
use crate::error::OptionError;
use crate::text::{chars_to_string, push_all, render_u64, nat_digits, str_to_chars};

verus! {

/// Relies on `std::path::Path::exists`: whether the path names an existing
/// filesystem entry. Nothing is assumed of the result; it depends on the
/// machine's disk.
#[verifier::external_body]
fn path_exists(path: &str) -> bool {
    std::path::Path::new(path).exists()
}

/// The message reported for a missing file.
pub open spec fn spec_missing_message(path: Seq<char>, description: Seq<char>) -> Seq<char> {
    "The "@ + description + " specified at "@ + path + " does not exist."@
}

/// A path under the testcases root.
pub open spec fn spec_joined_path(root: Seq<char>, rel: Seq<char>) -> Seq<char> {
    root + "/"@ + rel
}

/// Join a relative path onto the testcases root.
pub fn join_path(root: &str, rel: &str) -> (r: String)
    ensures
        r@ == spec_joined_path(root@, rel@),
{
    let joined = String::from_str(root).concat("/").concat(rel);
    proof {
        assert(joined@ =~= spec_joined_path(root@, rel@));
    }
    joined
}

/// Check that a file exists, and report a well-formed error naming it when it
/// does not. Whether it exists only the disk decides; what the error says is
/// fixed here: an error's message names exactly this path and description.
pub fn assert_exists(path_raw: &str, description: &str) -> (r: Result<(), OptionError>)
    ensures
        r matches Err(e) ==> e.message@ == spec_missing_message(path_raw@, description@),
{
    if path_exists(path_raw) {
        Ok(())
    } else {
        let message = String::from_str("The ").concat(description).concat(
            " specified at ",
        ).concat(path_raw).concat(" does not exist.");
        proof {
            assert(message@ =~= spec_missing_message(path_raw@, description@));
        }
        Err(OptionError { message })
    }
}

/// What a failed options precheck may report: one of the files the options
/// name, with its description.
pub open spec fn spec_is_opts_message(opts: Opts, m: Seq<char>) -> bool {
    ||| m == spec_missing_message(opts.metadata@, "metadata file"@)
    ||| m == spec_missing_message(opts.source@, "source file"@)
    ||| m == spec_missing_message(opts.checker@, "checker file"@)
    ||| m == spec_missing_message(opts.testcases@, "testcases folder"@)
    ||| m == spec_missing_message(opts.testlib@, "testlib.h"@)
    ||| m == spec_missing_message(opts.languages_definition@, "languages definition file"@)
    ||| (opts.interactor matches Some(p) && m == spec_missing_message(p@, "interactor file"@))
}

/// Check that every file the command-line options name exists: the metadata,
/// source, checker, testcases root, testlib header and languages definition,
/// and the interactor when one is given. The first missing one is reported.
pub fn precheck_opts(opts: &Opts) -> (r: Result<(), OptionError>)
    ensures
        r matches Err(e) ==> spec_is_opts_message(*opts, e.message@),
{
    if let Err(e) = assert_exists(opts.metadata.as_str(), "metadata file") {
        return Err(e);
    }
    if let Err(e) = assert_exists(opts.source.as_str(), "source file") {
        return Err(e);
    }
    if let Err(e) = assert_exists(opts.checker.as_str(), "checker file") {
        return Err(e);
    }
    if let Err(e) = assert_exists(opts.testcases.as_str(), "testcases folder") {
        return Err(e);
    }
    if let Err(e) = assert_exists(opts.testlib.as_str(), "testlib.h") {
        return Err(e);
    }
    if let Err(e) = assert_exists(opts.languages_definition.as_str(), "languages definition file") {
        return Err(e);
    }
    if let Some(interactor) = &opts.interactor {
        if let Err(e) = assert_exists(interactor.as_str(), "interactor file") {
            return Err(e);
        }
    }
    Ok(())
}

/// The description under which a test file is reported: its kind and its
/// one-based number.
pub open spec fn spec_test_file_description(kind: Seq<char>, n: int) -> Seq<char> {
    kind + " file for test "@ + nat_digits(n)
}

/// Build the description of a test file.
fn test_file_description(kind: &str, n: u64) -> (r: String)
    ensures
        r@ == spec_test_file_description(kind@, n as int),
{
    let mut chars = str_to_chars(kind);
    let infix = str_to_chars(" file for test ");
    push_all(&mut chars, infix.as_slice());
    let digits = render_u64(n);
    push_all(&mut chars, digits.as_slice());
    proof {
        assert(chars@ =~= spec_test_file_description(kind@, n as int));
    }
    chars_to_string(&chars)
}

/// What a failed metadata precheck may report: a missing input or output
/// file of some test case.
pub open spec fn spec_is_metadata_message(opts: Opts, metadata: Metadata, m: Seq<char>) -> bool {
    exists|i: int|
        0 <= i < metadata.testcases@.len() && {
            let tc = #[trigger] metadata.testcases@[i];
            ||| m == spec_missing_message(
                spec_joined_path(opts.testcases@, tc.input@),
                spec_test_file_description("input"@, i + 1),
            )
            ||| m == spec_missing_message(
                spec_joined_path(opts.testcases@, tc.output@),
                spec_test_file_description("output"@, i + 1),
            )
        }
}

/// Check that every test case's input and output file exists under the
/// testcases root. The first missing one is reported, named by its test's
/// one-based number; with no test cases there is nothing to consult and the
/// check succeeds.
pub fn precheck_metadata(opts: &Opts, metadata: &Metadata) -> (r: Result<(), OptionError>)
    requires
        metadata.testcases@.len() < u64::MAX,
    ensures
        r matches Err(e) ==> spec_is_metadata_message(*opts, *metadata, e.message@),
        metadata.testcases@.len() == 0 ==> r is Ok,
{
    let n = metadata.testcases.len();
    let mut i: usize = 0;
    while i < n
        invariant
            0 <= i <= n,
            n == metadata.testcases@.len(),
            n < u64::MAX,
        decreases n - i,
    {
        let tc = &metadata.testcases[i];
        let in_path = join_path(opts.testcases.as_str(), tc.input.as_str());
        let in_description = test_file_description("input", (i as u64) + 1);
        if let Err(e) = assert_exists(in_path.as_str(), in_description.as_str()) {
            return Err(e);
        }
        let out_path = join_path(opts.testcases.as_str(), tc.output.as_str());
        let out_description = test_file_description("output", (i as u64) + 1);
        if let Err(e) = assert_exists(out_path.as_str(), out_description.as_str()) {
            return Err(e);
        }
        i = i + 1;
    }
    Ok(())
}

} // verus!
