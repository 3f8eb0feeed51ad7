//! The top-level driver's verified decisions: the assignment of sandbox ids
//! to workers, and the fixed confinement configurations under which the
//! submission, the checker and each test case run.

use vstd::prelude::*;

use crate::cli::Metadata;
use crate::sandbox::{ExecuteConfig, ExecuteConfigView};

verus! {

/// The sandbox ids of a fleet of the given size: worker `k` owns id `k`.
pub fn sandbox_id_assignments(count: usize) -> (r: Vec<i32>)
    requires
        count <= i32::MAX,
    ensures
        r@.len() == count,
        forall|k: int| 0 <= k < count ==> r@[k] == k as i32,
{
    let mut ids: Vec<i32> = Vec::new();
    let mut i: usize = 0;
    while i < count
        invariant
            0 <= i <= count,
            count <= i32::MAX,
            ids@.len() == i,
            forall|k: int| 0 <= k < i ==> ids@[k] == k as i32,
        decreases count - i,
    {
        ids.push(i as i32);
        i = i + 1;
    }
    ids
}

/// No two workers hold the same sandbox id: with worker `k` owning id `k`,
/// the ids are pairwise distinct.
pub proof fn lemma_sandbox_ids_distinct(ids: Seq<i32>)
    requires
        forall|k: int| 0 <= k < ids.len() ==> ids[k] == k as i32,
        ids.len() <= i32::MAX,
    ensures
        forall|a: int, b: int| 0 <= a < b < ids.len() ==> ids[a] != ids[b],
{
    assert forall|a: int, b: int| 0 <= a < b < ids.len() implies ids[a] != ids[b] by {
        assert(ids[a] == a as i32);
        assert(ids[b] == b as i32);
    }
}

/// The confinement of the submission compile: the compile limits, a full
/// environment and unlimited processes, no redirection.
pub fn submission_compile_config(metadata: &Metadata) -> (r: ExecuteConfig)
    ensures
        r@ == (ExecuteConfigView {
            wall_time_limit: metadata.compile_time_limit,
            time_limit: metadata.compile_time_limit,
            memory_limit: metadata.compile_memory_limit,
            meta_file: None,
            input_file: None,
            output_file: None,
            error_file: None,
            full_env: true,
            unlimited_processes: true,
            additional_flags: Seq::<Seq<char>>::empty(),
        }),
{
    ExecuteConfig {
        wall_time_limit: metadata.compile_time_limit,
        time_limit: metadata.compile_time_limit,
        memory_limit: metadata.compile_memory_limit,
        meta_file: None,
        input_file: None,
        output_file: None,
        error_file: None,
        full_env: true,
        unlimited_processes: true,
        additional_flags: None,
    }
}

/// The confinement of the checker compile: as for the submission, and the
/// isolation tool is additionally handed a full-environment flag through the
/// extra flags, so the checker builds under the operator's environment.
pub fn checker_compile_config(metadata: &Metadata) -> (r: ExecuteConfig)
    ensures
        r@ == (ExecuteConfigView {
            wall_time_limit: metadata.compile_time_limit,
            time_limit: metadata.compile_time_limit,
            memory_limit: metadata.compile_memory_limit,
            meta_file: None,
            input_file: None,
            output_file: None,
            error_file: None,
            full_env: true,
            unlimited_processes: true,
            additional_flags: seq!["--full-env"@],
        }),
{
    let mut flags: Vec<String> = Vec::new();
    flags.push(String::from_str("--full-env"));
    let r = ExecuteConfig {
        wall_time_limit: metadata.compile_time_limit,
        time_limit: metadata.compile_time_limit,
        memory_limit: metadata.compile_memory_limit,
        meta_file: None,
        input_file: None,
        output_file: None,
        error_file: None,
        full_env: true,
        unlimited_processes: true,
        additional_flags: Some(flags),
    };
    proof {
        assert(r@.additional_flags =~~= seq!["--full-env"@]);
        assert(r@ =~~= (ExecuteConfigView {
            wall_time_limit: metadata.compile_time_limit,
            time_limit: metadata.compile_time_limit,
            memory_limit: metadata.compile_memory_limit,
            meta_file: None,
            input_file: None,
            output_file: None,
            error_file: None,
            full_env: true,
            unlimited_processes: true,
            additional_flags: seq!["--full-env"@],
        }));
    }
    r
}

/// The confinement of one test-case run: the problem's limits, stdin from
/// `in.txt`, stdout to `out.txt`, the meta report to `meta.txt`, restricted
/// environment, one process.
pub fn case_run_config(metadata: &Metadata) -> (r: ExecuteConfig)
    ensures
        r@ == (ExecuteConfigView {
            wall_time_limit: metadata.time_limit,
            time_limit: metadata.time_limit,
            memory_limit: metadata.memory_limit,
            meta_file: Some("meta.txt"@),
            input_file: Some("in.txt"@),
            output_file: Some("out.txt"@),
            error_file: None,
            full_env: false,
            unlimited_processes: false,
            additional_flags: Seq::<Seq<char>>::empty(),
        }),
{
    ExecuteConfig {
        wall_time_limit: metadata.time_limit,
        time_limit: metadata.time_limit,
        memory_limit: metadata.memory_limit,
        meta_file: Some(String::from_str("meta.txt")),
        input_file: Some(String::from_str("in.txt")),
        output_file: Some(String::from_str("out.txt")),
        error_file: None,
        full_env: false,
        unlimited_processes: false,
        additional_flags: None,
    }
}

/// The confinement of one checker run: the checker's limits, its stderr to
/// `checker.txt`, restricted environment, one process.
pub fn checker_run_config(metadata: &Metadata) -> (r: ExecuteConfig)
    ensures
        r@ == (ExecuteConfigView {
            wall_time_limit: metadata.checker_time_limit,
            time_limit: metadata.checker_time_limit,
            memory_limit: metadata.checker_memory_limit,
            meta_file: None,
            input_file: None,
            output_file: None,
            error_file: Some("checker.txt"@),
            full_env: false,
            unlimited_processes: false,
            additional_flags: Seq::<Seq<char>>::empty(),
        }),
{
    ExecuteConfig {
        wall_time_limit: metadata.checker_time_limit,
        time_limit: metadata.checker_time_limit,
        memory_limit: metadata.checker_memory_limit,
        meta_file: None,
        input_file: None,
        output_file: None,
        error_file: Some(String::from_str("checker.txt")),
        full_env: false,
        unlimited_processes: false,
        additional_flags: None,
    }
}

/// The argv under which the checker judges one case: the checker binary and
/// the input, contestant output and expected output files.
pub fn checker_command() -> (r: Vec<String>)
    ensures
        crate::languages::strings_views(r@) == seq!["checker"@, "in.txt"@, "out.txt"@, "ans.txt"@],
{
    let mut command: Vec<String> = Vec::new();
    command.push(String::from_str("checker"));
    command.push(String::from_str("in.txt"));
    command.push(String::from_str("out.txt"));
    command.push(String::from_str("ans.txt"));
    proof {
        assert(crate::languages::strings_views(command@) =~~= seq![
            "checker"@,
            "in.txt"@,
            "out.txt"@,
            "ans.txt"@,
        ]);
    }
    command
}

} // verus!
