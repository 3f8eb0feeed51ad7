//! The sandbox control layer's verified core: the handle for one numbered
//! isolation slot, the execution configuration, and the exact argument
//! vectors handed to the isolation tool. Spawning the tool itself is I/O and
//! lives outside the library.

use vstd::prelude::*;

use crate::languages::{
    clone_strings, lemma_strings_views_push, spec_render_compile, spec_render_execute,
    strings_views, DynLanguage,
};
use crate::text::{
    chars_to_string, push_all, render_i64, render_millis, render_u64, spec_i64_digits,
    spec_render_millis, str_to_chars,
};

verus! {

/// A numbered sandbox: while the handle is held, an isolation slot with this
/// id is live, rooted at `path`; the confined process works under
/// `path/box`.
#[derive(Clone, Debug)]
pub struct Sandbox {
    pub path: String,
    pub id: i32,
}

/// How one sandboxed execution is confined and wired: wall and CPU time in
/// milliseconds, memory in KiB, stdio redirections and the meta report file
/// relative to the box directory, environment and process-count policy, and
/// any extra flags, in order.
#[derive(Clone, Debug)]
pub struct ExecuteConfig {
    pub wall_time_limit: u64,
    pub time_limit: u64,
    pub memory_limit: u64,
    pub meta_file: Option<String>,
    pub input_file: Option<String>,
    pub output_file: Option<String>,
    pub error_file: Option<String>,
    pub full_env: bool,
    pub unlimited_processes: bool,
    pub additional_flags: Option<Vec<String>>,
}

/// The mathematical content of an execution configuration. Absent extra
/// flags and an empty list of them confine identically, so the view keeps
/// only the list.
pub struct ExecuteConfigView {
    pub wall_time_limit: u64,
    pub time_limit: u64,
    pub memory_limit: u64,
    pub meta_file: Option<Seq<char>>,
    pub input_file: Option<Seq<char>>,
    pub output_file: Option<Seq<char>>,
    pub error_file: Option<Seq<char>>,
    pub full_env: bool,
    pub unlimited_processes: bool,
    pub additional_flags: Seq<Seq<char>>,
}

impl View for ExecuteConfig {
    type V = ExecuteConfigView;

    open spec fn view(&self) -> ExecuteConfigView {
        ExecuteConfigView {
            wall_time_limit: self.wall_time_limit,
            time_limit: self.time_limit,
            memory_limit: self.memory_limit,
            meta_file: match self.meta_file {
                Some(f) => Some(f@),
                None => None,
            },
            input_file: match self.input_file {
                Some(f) => Some(f@),
                None => None,
            },
            output_file: match self.output_file {
                Some(f) => Some(f@),
                None => None,
            },
            error_file: match self.error_file {
                Some(f) => Some(f@),
                None => None,
            },
            full_env: self.full_env,
            unlimited_processes: self.unlimited_processes,
            additional_flags: match self.additional_flags {
                Some(fs) => strings_views(fs@),
                None => Seq::<Seq<char>>::empty(),
            },
        }
    }
}

impl Default for ExecuteConfig {
    /// No limits set, no redirection, restricted environment, one process.
    fn default() -> (r: ExecuteConfig)
        ensures
            r@ == (ExecuteConfigView {
                wall_time_limit: 0,
                time_limit: 0,
                memory_limit: 0,
                meta_file: None,
                input_file: None,
                output_file: None,
                error_file: None,
                full_env: false,
                unlimited_processes: false,
                additional_flags: Seq::<Seq<char>>::empty(),
            }),
    {
        ExecuteConfig {
            wall_time_limit: 0,
            time_limit: 0,
            memory_limit: 0,
            meta_file: None,
            input_file: None,
            output_file: None,
            error_file: None,
            full_env: false,
            unlimited_processes: false,
            additional_flags: None,
        }
    }
}

impl ExecuteConfig {
    /// A copy of this configuration.
    pub fn duplicate(&self) -> (r: ExecuteConfig)
        ensures
            r@ == self@,
    {
        let additional_flags = match &self.additional_flags {
            Some(fs) => Some(clone_strings(fs)),
            None => None,
        };
        let r = ExecuteConfig {
            wall_time_limit: self.wall_time_limit,
            time_limit: self.time_limit,
            memory_limit: self.memory_limit,
            meta_file: clone_opt_string(&self.meta_file),
            input_file: clone_opt_string(&self.input_file),
            output_file: clone_opt_string(&self.output_file),
            error_file: clone_opt_string(&self.error_file),
            full_env: self.full_env,
            unlimited_processes: self.unlimited_processes,
            additional_flags,
        };
        proof {
            if self.additional_flags is Some {
                assert(strings_views(r.additional_flags->0@) =~~= strings_views(
                    self.additional_flags->0@,
                ));
            }
        }
        r
    }
}

/// Copy an optional string, keeping its characters.
fn clone_opt_string(o: &Option<String>) -> (r: Option<String>)
    ensures
        o is Some ==> (r matches Some(t) && t@ == o->0@),
        o is None ==> r is None,
{
    match o {
        Some(s) => Some(s.clone()),
        None => None,
    }
}

/// The flag vector handed to the isolation tool for one execution, in its
/// exact order: control-group mode, the box id, the three limits, the run
/// command, then a redirection flag for each file actually set, the
/// environment and process-count flags when requested, the extra flags in
/// order, a separator, and the confined argv.
pub open spec fn spec_execute_args(id: int, c: ExecuteConfigView, command: Seq<Seq<char>>) -> Seq<
    Seq<char>,
> {
    seq![
        "--cg"@,
        "--box-id="@ + spec_i64_digits(id),
        "--wall-time="@ + spec_render_millis(c.wall_time_limit as int),
        "--time="@ + spec_render_millis(c.time_limit as int),
        "--mem="@ + spec_i64_digits(c.memory_limit as int),
        "--run"@,
    ] + (match c.input_file {
        Some(f) => seq!["--stdin="@ + f],
        None => Seq::<Seq<char>>::empty(),
    }) + (match c.output_file {
        Some(f) => seq!["--stdout="@ + f],
        None => Seq::<Seq<char>>::empty(),
    }) + (match c.error_file {
        Some(f) => seq!["--stderr="@ + f],
        None => Seq::<Seq<char>>::empty(),
    }) + (match c.meta_file {
        Some(f) => seq!["--meta="@ + f],
        None => Seq::<Seq<char>>::empty(),
    }) + (if c.full_env {
        seq!["--full-env"@]
    } else {
        Seq::<Seq<char>>::empty()
    }) + (if c.unlimited_processes {
        seq!["--processes=0"@]
    } else {
        Seq::<Seq<char>>::empty()
    }) + c.additional_flags + seq!["--"@] + command
}

/// A flag of the shape `prefix` followed by a rendered millisecond count.
fn millis_flag(prefix: &str, ms: u64) -> (r: String)
    ensures
        r@ == prefix@ + spec_render_millis(ms as int),
{
    let mut chars = str_to_chars(prefix);
    let value = render_millis(ms);
    push_all(&mut chars, value.as_slice());
    chars_to_string(&chars)
}

/// A flag of the shape `prefix` followed by a rendered non-negative count.
fn u64_flag(prefix: &str, value: u64) -> (r: String)
    ensures
        r@ == prefix@ + spec_i64_digits(value as int),
{
    let mut chars = str_to_chars(prefix);
    let digits = render_u64(value);
    push_all(&mut chars, digits.as_slice());
    chars_to_string(&chars)
}

/// A flag of the shape `prefix` followed by a rendered integer.
fn int_flag(prefix: &str, value: i64) -> (r: String)
    ensures
        r@ == prefix@ + spec_i64_digits(value as int),
{
    let mut chars = str_to_chars(prefix);
    let digits = render_i64(value);
    push_all(&mut chars, digits.as_slice());
    chars_to_string(&chars)
}

/// A flag of the shape `prefix` followed by a file name.
fn file_flag(prefix: &str, file: &String) -> (r: String)
    ensures
        r@ == prefix@ + file@,
{
    let mut chars = str_to_chars(prefix);
    let name = str_to_chars(file.as_str());
    push_all(&mut chars, name.as_slice());
    chars_to_string(&chars)
}

impl Sandbox {
    /// The working directory of the confined process: the `box` directory
    /// under the sandbox root.
    pub fn get_box_path(&self) -> (r: String)
        ensures
            r@ == self.path@ + "/box"@,
    {
        self.path.clone().concat("/box")
    }

    /// The complete argument vector for one execution in this sandbox.
    #[verifier::rlimit(100)]
    pub fn execute_args(&self, config: &ExecuteConfig, command: &Vec<String>) -> (r: Vec<String>)
        ensures
            strings_views(r@) == spec_execute_args(
                self.id as int,
                config@,
                strings_views(command@),
            ),
    {
        let ghost cv = config@;
        let mut args: Vec<String> = Vec::new();
        args.push(String::from_str("--cg"));
        args.push(int_flag("--box-id=", self.id as i64));
        args.push(millis_flag("--wall-time=", config.wall_time_limit));
        args.push(millis_flag("--time=", config.time_limit));
        args.push(u64_flag("--mem=", config.memory_limit));
        args.push(String::from_str("--run"));
        let ghost head = seq![
            "--cg"@,
            "--box-id="@ + spec_i64_digits(self.id as int),
            "--wall-time="@ + spec_render_millis(cv.wall_time_limit as int),
            "--time="@ + spec_render_millis(cv.time_limit as int),
            "--mem="@ + spec_i64_digits(cv.memory_limit as int),
            "--run"@,
        ];
        assert(strings_views(args@) =~~= head);
        let ghost seg_in = (match cv.input_file {
            Some(f) => seq!["--stdin="@ + f],
            None => Seq::<Seq<char>>::empty(),
        });
        if let Some(f) = &config.input_file {
            args.push(file_flag("--stdin=", f));
        }
        assert(strings_views(args@) =~~= head + seg_in);
        let ghost seg_out = (match cv.output_file {
            Some(f) => seq!["--stdout="@ + f],
            None => Seq::<Seq<char>>::empty(),
        });
        if let Some(f) = &config.output_file {
            args.push(file_flag("--stdout=", f));
        }
        assert(strings_views(args@) =~~= head + seg_in + seg_out);
        let ghost seg_err = (match cv.error_file {
            Some(f) => seq!["--stderr="@ + f],
            None => Seq::<Seq<char>>::empty(),
        });
        if let Some(f) = &config.error_file {
            args.push(file_flag("--stderr=", f));
        }
        assert(strings_views(args@) =~~= head + seg_in + seg_out + seg_err);
        let ghost seg_meta = (match cv.meta_file {
            Some(f) => seq!["--meta="@ + f],
            None => Seq::<Seq<char>>::empty(),
        });
        if let Some(f) = &config.meta_file {
            args.push(file_flag("--meta=", f));
        }
        assert(strings_views(args@) =~~= head + seg_in + seg_out + seg_err + seg_meta);
        let ghost seg_env = (if cv.full_env {
            seq!["--full-env"@]
        } else {
            Seq::<Seq<char>>::empty()
        });
        if config.full_env {
            args.push(String::from_str("--full-env"));
        }
        assert(strings_views(args@) =~~= head + seg_in + seg_out + seg_err + seg_meta + seg_env);
        let ghost seg_procs = (if cv.unlimited_processes {
            seq!["--processes=0"@]
        } else {
            Seq::<Seq<char>>::empty()
        });
        if config.unlimited_processes {
            args.push(String::from_str("--processes=0"));
        }
        assert(strings_views(args@) =~~= head + seg_in + seg_out + seg_err + seg_meta + seg_env
            + seg_procs);
        if let Some(extra) = &config.additional_flags {
            let n = extra.len();
            let mut i: usize = 0;
            let ghost before = strings_views(args@);
            while i < n
                invariant
                    0 <= i <= n,
                    n == extra@.len(),
                    strings_views(args@) =~~= before + strings_views(extra@).take(i as int),
                decreases n - i,
            {
                let ghost prev = args@;
                args.push(extra[i].clone());
                proof {
                    lemma_strings_views_push(prev, args@[args@.len() - 1]);
                    assert(strings_views(extra@).take(i + 1) =~~= strings_views(extra@).take(
                        i as int,
                    ).push(extra@[i as int]@));
                    assert((before + strings_views(extra@).take(i as int)).push(extra@[i as int]@)
                        =~~= before + strings_views(extra@).take(i + 1));
                }
                i = i + 1;
            }
            proof {
                assert(strings_views(extra@).take(n as int) =~~= strings_views(extra@));
            }
        }
        assert(strings_views(args@) =~~= head + seg_in + seg_out + seg_err + seg_meta + seg_env
            + seg_procs + cv.additional_flags);
        args.push(String::from_str("--"));
        let n = command.len();
        let mut i: usize = 0;
        let ghost before = strings_views(args@);
        while i < n
            invariant
                0 <= i <= n,
                n == command@.len(),
                strings_views(args@) =~~= before + strings_views(command@).take(i as int),
            decreases n - i,
        {
            let ghost prev = args@;
            args.push(command[i].clone());
            proof {
                lemma_strings_views_push(prev, args@[args@.len() - 1]);
                assert(strings_views(command@).take(i + 1) =~~= strings_views(command@).take(
                    i as int,
                ).push(command@[i as int]@));
                assert((before + strings_views(command@).take(i as int)).push(command@[i as int]@)
                    =~~= before + strings_views(command@).take(i + 1));
            }
            i = i + 1;
        }
        proof {
            assert(strings_views(command@).take(n as int) =~~= strings_views(command@));
            assert(strings_views(args@) =~~= spec_execute_args(
                self.id as int,
                cv,
                strings_views(command@),
            ));
        }
        args
    }

    /// The complete argument vector that compiles `source` into
    /// `destination` in this sandbox: the language's compile argv under the
    /// given confinement, with the configuration's extra flags first and the
    /// language's second.
    pub fn compile_args(
        &self,
        language: &DynLanguage,
        config: &ExecuteConfig,
        source: &str,
        destination: &str,
    ) -> (r: Vec<String>)
        ensures
            strings_views(r@) == spec_execute_args(
                self.id as int,
                ExecuteConfigView {
                    additional_flags: config@.additional_flags + (match language@.compile_flags {
                        Some(fs) => fs,
                        None => Seq::<Seq<char>>::empty(),
                    }),
                    ..config@
                },
                spec_render_compile(language@.compile_command, source@, destination@),
            ),
    {
        let command = language.compile(source, destination);
        let merged = with_language_flags(config, &language.compile_flags);
        self.execute_args(&merged, &command)
    }

    /// The complete argument vector that runs `executable` in this sandbox,
    /// with extra flags merged as for a compile.
    pub fn run_args(&self, language: &DynLanguage, config: &ExecuteConfig, executable: &str) -> (r:
        Vec<String>)
        ensures
            strings_views(r@) == spec_execute_args(
                self.id as int,
                ExecuteConfigView {
                    additional_flags: config@.additional_flags + (match language@.execute_flags {
                        Some(fs) => fs,
                        None => Seq::<Seq<char>>::empty(),
                    }),
                    ..config@
                },
                spec_render_execute(language@.execute_command, executable@),
            ),
    {
        let command = language.execute(executable);
        let merged = with_language_flags(config, &language.execute_flags);
        self.execute_args(&merged, &command)
    }
}

/// The confinement of a compile or run: the same configuration, with the
/// language's extra flags appended after the configuration's own.
fn with_language_flags(config: &ExecuteConfig, lang_flags: &Option<Vec<String>>) -> (r:
    ExecuteConfig)
    ensures
        r@ == (ExecuteConfigView {
            additional_flags: config@.additional_flags + (match *lang_flags {
                Some(fs) => strings_views(fs@),
                None => Seq::<Seq<char>>::empty(),
            }),
            ..config@
        }),
{
    let mut merged: Vec<String> = match &config.additional_flags {
        Some(fs) => clone_strings(fs),
        None => Vec::new(),
    };
    proof {
        assert(strings_views(merged@) =~~= config@.additional_flags);
    }
    if let Some(fs) = lang_flags {
        let n = fs.len();
        let mut i: usize = 0;
        let ghost before = strings_views(merged@);
        while i < n
            invariant
                0 <= i <= n,
                n == fs@.len(),
                strings_views(merged@) =~~= before + strings_views(fs@).take(i as int),
            decreases n - i,
        {
            let ghost prev = merged@;
            merged.push(fs[i].clone());
            proof {
                lemma_strings_views_push(prev, merged@[merged@.len() - 1]);
                assert(strings_views(fs@).take(i + 1) =~~= strings_views(fs@).take(i as int).push(
                    fs@[i as int]@,
                ));
                assert((before + strings_views(fs@).take(i as int)).push(fs@[i as int]@) =~~= before
                    + strings_views(fs@).take(i + 1));
            }
            i = i + 1;
        }
        proof {
            assert(strings_views(fs@).take(n as int) =~~= strings_views(fs@));
        }
    }
    let mut r = config.duplicate();
    // Mirroring the catalogue's convention, an empty merge is left absent;
    // the two confine identically.
    if merged.len() == 0 {
        proof {
            assert(strings_views(merged@) =~~= Seq::<Seq<char>>::empty());
        }
        r.additional_flags = None;
    } else {
        r.additional_flags = Some(merged);
    }
    r
}

} // verus!
