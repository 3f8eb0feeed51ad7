//! The language catalogue: declarative entries mapping a language code to
//! filenames and command-line templates, and the placeholder substitution
//! that turns a template into an argv.

use vstd::prelude::*;

use crate::text::{chars_to_string, push_all, spec_starts_with, starts_with_chars, str_to_chars};

verus! {

/// The views of a sequence of strings.
pub open spec fn strings_views(ss: Seq<String>) -> Seq<Seq<char>> {
    ss.map_values(|s: String| s@)
}

/// Pushing a string extends the views by its view.
pub proof fn lemma_strings_views_push(s: Seq<String>, x: String)
    ensures
        strings_views(s.push(x)) == strings_views(s).push(x@),
{
    assert(strings_views(s.push(x)) =~~= strings_views(s).push(x@));
}

/// One language of the catalogue: where its source and executable live in the
/// sandbox, and how to compile and run it. Command templates may hold the
/// placeholders `{source}` and `{destination}` (compile) or `{executable}`
/// (execute).
#[derive(Clone, Debug)]
pub struct DynLanguage {
    pub source_filename: String,
    pub executable_filename: String,
    pub code: String,
    pub compile_command: Vec<String>,
    pub execute_command: Vec<String>,
    pub compile_flags: Option<Vec<String>>,
    pub execute_flags: Option<Vec<String>>,
}

/// The mathematical content of a language entry.
pub struct DynLanguageView {
    pub source_filename: Seq<char>,
    pub executable_filename: Seq<char>,
    pub code: Seq<char>,
    pub compile_command: Seq<Seq<char>>,
    pub execute_command: Seq<Seq<char>>,
    pub compile_flags: Option<Seq<Seq<char>>>,
    pub execute_flags: Option<Seq<Seq<char>>>,
}

impl View for DynLanguage {
    type V = DynLanguageView;

    open spec fn view(&self) -> DynLanguageView {
        DynLanguageView {
            source_filename: self.source_filename@,
            executable_filename: self.executable_filename@,
            code: self.code@,
            compile_command: strings_views(self.compile_command@),
            execute_command: strings_views(self.execute_command@),
            compile_flags: match self.compile_flags {
                Some(fs) => Some(strings_views(fs@)),
                None => None,
            },
            execute_flags: match self.execute_flags {
                Some(fs) => Some(strings_views(fs@)),
                None => None,
            },
        }
    }
}

/// One-pass substitution of two placeholders: at each position, a template
/// that continues with a placeholder contributes that placeholder's value; an
/// unrecognized character — any other placeholder included — stands as it is.
pub open spec fn spec_substitute2(
    t: Seq<char>,
    k1: Seq<char>,
    v1: Seq<char>,
    k2: Seq<char>,
    v2: Seq<char>,
) -> Seq<char>
    decreases t.len(),
{
    if t.len() == 0 {
        t
    } else if k1.len() > 0 && spec_starts_with(t, k1) {
        v1 + spec_substitute2(t.skip(k1.len() as int), k1, v1, k2, v2)
    } else if k2.len() > 0 && spec_starts_with(t, k2) {
        v2 + spec_substitute2(t.skip(k2.len() as int), k1, v1, k2, v2)
    } else {
        seq![t[0]] + spec_substitute2(t.skip(1), k1, v1, k2, v2)
    }
}

/// One-pass substitution of one placeholder.
pub open spec fn spec_substitute1(t: Seq<char>, k: Seq<char>, v: Seq<char>) -> Seq<char>
    decreases t.len(),
{
    if t.len() == 0 {
        t
    } else if k.len() > 0 && spec_starts_with(t, k) {
        v + spec_substitute1(t.skip(k.len() as int), k, v)
    } else {
        seq![t[0]] + spec_substitute1(t.skip(1), k, v)
    }
}

/// Substitute two placeholders through a template, one pass, left to right.
fn substitute2(t: &[char], k1: &[char], v1: &[char], k2: &[char], v2: &[char]) -> (r: Vec<char>)
    requires
        k1@.len() > 0,
        k2@.len() > 0,
    ensures
        r@ == spec_substitute2(t@, k1@, v1@, k2@, v2@),
{
    let n = t.len();
    let mut out: Vec<char> = Vec::new();
    let mut i: usize = 0;
    proof {
        assert(t@.skip(0) =~= t@);
    }
    while i < n
        invariant
            0 <= i <= n,
            n == t@.len(),
            k1@.len() > 0,
            k2@.len() > 0,
            spec_substitute2(t@, k1@, v1@, k2@, v2@) == out@ + spec_substitute2(
                t@.skip(i as int),
                k1@,
                v1@,
                k2@,
                v2@,
            ),
        decreases n - i,
    {
        let rest = vstd::slice::slice_subrange(t, i, n);
        assert(rest@ =~= t@.skip(i as int));
        if starts_with_chars(rest, k1) {
            proof {
                assert(t@.skip(i as int).skip(k1@.len() as int) =~= t@.skip(i + k1@.len()));
                assert((out@ + v1@) + spec_substitute2(t@.skip(i + k1@.len()), k1@, v1@, k2@, v2@)
                    =~= out@ + (v1@ + spec_substitute2(t@.skip(i + k1@.len()), k1@, v1@, k2@, v2@)));
            }
            push_all(&mut out, v1);
            i = i + k1.len();
        } else if starts_with_chars(rest, k2) {
            proof {
                assert(t@.skip(i as int).skip(k2@.len() as int) =~= t@.skip(i + k2@.len()));
                assert((out@ + v2@) + spec_substitute2(t@.skip(i + k2@.len()), k1@, v1@, k2@, v2@)
                    =~= out@ + (v2@ + spec_substitute2(t@.skip(i + k2@.len()), k1@, v1@, k2@, v2@)));
            }
            push_all(&mut out, v2);
            i = i + k2.len();
        } else {
            proof {
                assert(t@.skip(i as int)[0] == t@[i as int]);
                assert(t@.skip(i as int).skip(1) =~= t@.skip(i + 1));
                assert(out@.push(t@[i as int]) + spec_substitute2(t@.skip(i + 1), k1@, v1@, k2@, v2@)
                    =~= out@ + (seq![t@[i as int]] + spec_substitute2(
                    t@.skip(i + 1),
                    k1@,
                    v1@,
                    k2@,
                    v2@,
                )));
            }
            out.push(t[i]);
            i = i + 1;
        }
    }
    proof {
        assert(t@.skip(n as int) =~= Seq::<char>::empty());
        assert(out@ + Seq::<char>::empty() =~= out@);
    }
    out
}

/// Substitute one placeholder through a template, one pass, left to right.
fn substitute1(t: &[char], k: &[char], v: &[char]) -> (r: Vec<char>)
    requires
        k@.len() > 0,
    ensures
        r@ == spec_substitute1(t@, k@, v@),
{
    let n = t.len();
    let mut out: Vec<char> = Vec::new();
    let mut i: usize = 0;
    proof {
        assert(t@.skip(0) =~= t@);
    }
    while i < n
        invariant
            0 <= i <= n,
            n == t@.len(),
            k@.len() > 0,
            spec_substitute1(t@, k@, v@) == out@ + spec_substitute1(t@.skip(i as int), k@, v@),
        decreases n - i,
    {
        let rest = vstd::slice::slice_subrange(t, i, n);
        assert(rest@ =~= t@.skip(i as int));
        if starts_with_chars(rest, k) {
            proof {
                assert(t@.skip(i as int).skip(k@.len() as int) =~= t@.skip(i + k@.len()));
                assert((out@ + v@) + spec_substitute1(t@.skip(i + k@.len()), k@, v@) =~= out@ + (v@
                    + spec_substitute1(t@.skip(i + k@.len()), k@, v@)));
            }
            push_all(&mut out, v);
            i = i + k.len();
        } else {
            proof {
                assert(t@.skip(i as int)[0] == t@[i as int]);
                assert(t@.skip(i as int).skip(1) =~= t@.skip(i + 1));
                assert(out@.push(t@[i as int]) + spec_substitute1(t@.skip(i + 1), k@, v@) =~= out@
                    + (seq![t@[i as int]] + spec_substitute1(t@.skip(i + 1), k@, v@)));
            }
            out.push(t[i]);
            i = i + 1;
        }
    }
    proof {
        assert(t@.skip(n as int) =~= Seq::<char>::empty());
        assert(out@ + Seq::<char>::empty() =~= out@);
    }
    out
}

/// The compile argv of a language entry: each template with `{source}` and
/// `{destination}` substituted.
pub open spec fn spec_render_compile(
    templates: Seq<Seq<char>>,
    source: Seq<char>,
    destination: Seq<char>,
) -> Seq<Seq<char>> {
    templates.map_values(
        |t: Seq<char>| spec_substitute2(t, "{source}"@, source, "{destination}"@, destination),
    )
}

/// The execute argv of a language entry: each template with `{executable}`
/// substituted.
pub open spec fn spec_render_execute(templates: Seq<Seq<char>>, executable: Seq<char>) -> Seq<
    Seq<char>,
> {
    templates.map_values(|t: Seq<char>| spec_substitute1(t, "{executable}"@, executable))
}

impl DynLanguage {
    /// The argv that compiles `source` into `destination` under this
    /// language: the compile templates with both placeholders substituted.
    pub fn compile(&self, source: &str, destination: &str) -> (r: Vec<String>)
        ensures
            strings_views(r@) == spec_render_compile(
                self@.compile_command,
                source@,
                destination@,
            ),
    {
        proof {
            reveal_strlit("{source}");
            reveal_strlit("{destination}");
        }
        let k1 = str_to_chars("{source}");
        let k2 = str_to_chars("{destination}");
        let v1 = str_to_chars(source);
        let v2 = str_to_chars(destination);
        let n = self.compile_command.len();
        let mut out: Vec<String> = Vec::new();
        let mut i: usize = 0;
        while i < n
            invariant
                0 <= i <= n,
                n == self.compile_command@.len(),
                k1@ == "{source}"@,
                k2@ == "{destination}"@,
                k1@.len() > 0,
                k2@.len() > 0,
                v1@ == source@,
                v2@ == destination@,
                out@.len() == i,
                forall|j: int|
                    0 <= j < i ==> (#[trigger] out@[j])@ == spec_substitute2(
                        self.compile_command@[j]@,
                        "{source}"@,
                        source@,
                        "{destination}"@,
                        destination@,
                    ),
            decreases n - i,
        {
            let template = str_to_chars(self.compile_command[i].as_str());
            let piece = substitute2(
                template.as_slice(),
                k1.as_slice(),
                v1.as_slice(),
                k2.as_slice(),
                v2.as_slice(),
            );
            out.push(chars_to_string(&piece));
            i = i + 1;
        }
        proof {
            assert(strings_views(out@) =~~= spec_render_compile(
                self@.compile_command,
                source@,
                destination@,
            ));
        }
        out
    }

    /// The argv that runs `executable` under this language: the execute
    /// templates with the placeholder substituted.
    pub fn execute(&self, executable: &str) -> (r: Vec<String>)
        ensures
            strings_views(r@) == spec_render_execute(self@.execute_command, executable@),
    {
        proof {
            reveal_strlit("{executable}");
        }
        let k = str_to_chars("{executable}");
        let v = str_to_chars(executable);
        let n = self.execute_command.len();
        let mut out: Vec<String> = Vec::new();
        let mut i: usize = 0;
        while i < n
            invariant
                0 <= i <= n,
                n == self.execute_command@.len(),
                k@ == "{executable}"@,
                k@.len() > 0,
                v@ == executable@,
                out@.len() == i,
                forall|j: int|
                    0 <= j < i ==> (#[trigger] out@[j])@ == spec_substitute1(
                        self.execute_command@[j]@,
                        "{executable}"@,
                        executable@,
                    ),
            decreases n - i,
        {
            let template = str_to_chars(self.execute_command[i].as_str());
            let piece = substitute1(template.as_slice(), k.as_slice(), v.as_slice());
            out.push(chars_to_string(&piece));
            i = i + 1;
        }
        proof {
            assert(strings_views(out@) =~~= spec_render_execute(
                self@.execute_command,
                executable@,
            ));
        }
        out
    }

    /// A copy of this entry.
    pub fn duplicate(&self) -> (r: DynLanguage)
        ensures
            r@ == self@,
    {
        let compile_flags = match &self.compile_flags {
            Some(fs) => Some(clone_strings(fs)),
            None => None,
        };
        let execute_flags = match &self.execute_flags {
            Some(fs) => Some(clone_strings(fs)),
            None => None,
        };
        let r = DynLanguage {
            source_filename: self.source_filename.clone(),
            executable_filename: self.executable_filename.clone(),
            code: self.code.clone(),
            compile_command: clone_strings(&self.compile_command),
            execute_command: clone_strings(&self.execute_command),
            compile_flags,
            execute_flags,
        };
        proof {
            assert(strings_views(r.compile_command@) =~~= strings_views(self.compile_command@));
            assert(strings_views(r.execute_command@) =~~= strings_views(self.execute_command@));
            if self.compile_flags is Some {
                assert(strings_views(r.compile_flags->0@) =~~= strings_views(
                    self.compile_flags->0@,
                ));
            }
            if self.execute_flags is Some {
                assert(strings_views(r.execute_flags->0@) =~~= strings_views(
                    self.execute_flags->0@,
                ));
            }
        }
        r
    }
}

/// Copy a vector of strings, keeping every string's characters.
pub fn clone_strings(v: &Vec<String>) -> (r: Vec<String>)
    ensures
        r@.len() == v@.len(),
        forall|i: int| 0 <= i < v@.len() ==> (#[trigger] r@[i])@ == v@[i]@,
{
    let n = v.len();
    let mut out: Vec<String> = Vec::new();
    let mut i: usize = 0;
    while i < n
        invariant
            0 <= i <= n,
            n == v@.len(),
            out@.len() == i,
            forall|j: int| 0 <= j < i ==> (#[trigger] out@[j])@ == v@[j]@,
        decreases n - i,
    {
        out.push(v[i].clone());
        i = i + 1;
    }
    out
}

} // verus!
