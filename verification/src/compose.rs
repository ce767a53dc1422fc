//! The script composer: turns the body of a composable ("smart") task
//! into the final interpreter-ready script, line by line.
//!
//! A plain line is preceded by a trace line that echoes the invocation
//! breadcrumb and the line itself to standard error.  A line starting
//! with `@` is executed without the trace.  A line starting with `<`
//! names another task, which is recursively inlined in place; reference
//! cycles, references to raw-mode tasks and references to unknown tasks
//! are rejected.  A line starting with `!` is rewritten to re-invoke the
//! running executable, so a task can run another task as a fresh
//! process.  A single-line body without a parameter marker gets the
//! positional arguments forwarded automatically, and every composed
//! script starts with a strict-mode preamble.
//!
//! Composition is pure: it returns a result and touches no file and no
//! process.

use vstd::prelude::*;
use vstd::string::*;

use crate::commands::{cmd_lookup, smart_spec, CmdEntry, FileConfig};
use crate::text::{has_char, trim_spec};

verus! {

/// Whether the line starts with the marker character `m`.
pub open spec fn is_marked(line: Seq<char>, m: char) -> bool {
    line.len() > 0 && line[0] == m
}

/// A task body ready for composition: a single-line body that holds no
/// parameter marker and is not an inline reference gets the
/// forward-positional-arguments token appended; any other body is kept
/// as it is.
pub open spec fn effective_run(run: Seq<Seq<char>>) -> Seq<Seq<char>> {
    if run.len() == 1 && !has_char(run[0], '$') && !is_marked(run[0], '<') {
        seq![run[0] + " \"$@\""@]
    } else {
        run
    }
}

/// The trace line echoed to standard error before a plain line.
pub open spec fn trace_line(prefix: Seq<char>, line: Seq<char>) -> Seq<char> {
    "echo '"@ + prefix + " > "@ + line + "' >&2"@
}

/// The breadcrumb prefix used inside an inlined task.
pub open spec fn sub_prefix(prefix: Seq<char>, name: Seq<char>) -> Seq<char> {
    prefix + " > "@ + name
}

/// A self-invocation line: the running executable followed by the rest
/// of the line.
pub open spec fn self_line(exe: Seq<char>, rest: Seq<char>) -> Seq<char> {
    exe + " "@ + rest
}

/// What composing a body yields: the composed lines, or the reference
/// error that stopped it.
pub enum ComposeOutcome {
    Lines { lines: Seq<Seq<char>> },
    Cyclic { name: Seq<char> },
    NotComposable { name: Seq<char> },
    Unknown { name: Seq<char> },
}

/// Prepends `lines` to a successful outcome; passes an error through.
pub open spec fn with_lines(lines: Seq<Seq<char>>, rest: ComposeOutcome) -> ComposeOutcome {
    match rest {
        ComposeOutcome::Lines { lines: r } => ComposeOutcome::Lines { lines: lines + r },
        e => e,
    }
}

/// How many config entries carry a name not yet visited.  Recursion into
/// a task always visits a new name, so this bounds the recursion depth.
pub open spec fn count_unvisited(cmds: Seq<CmdEntry>, visited: Set<Seq<char>>) -> nat
    decreases cmds.len(),
{
    if cmds.len() == 0 {
        0
    } else {
        (if visited.contains(cmds[0].0) {
            0nat
        } else {
            1nat
        }) + count_unvisited(cmds.drop_first(), visited)
    }
}

proof fn lemma_push_to_set(s: Seq<Seq<char>>, x: Seq<char>)
    ensures
        s.push(x).to_set() == s.to_set().insert(x),
{
    let p = s.push(x);
    assert forall|a: Seq<char>| #[trigger] p.to_set().contains(a) implies s.to_set().insert(
        x,
    ).contains(a) by {
        let j = choose|j: int| 0 <= j < p.len() && p[j] == a;
        if j < s.len() {
            assert(s[j] == a);
            assert(s.contains(a));
        }
    }
    assert forall|a: Seq<char>| #[trigger] s.to_set().insert(x).contains(a) implies p.to_set()
        .contains(a) by {
        if a == x {
            assert(p[s.len() as int] == a);
            assert(p.contains(a));
        } else {
            let j = choose|j: int| 0 <= j < s.len() && s[j] == a;
            assert(p[j] == a);
            assert(p.contains(a));
        }
    }
    assert(p.to_set() =~= s.to_set().insert(x));
}

pub proof fn lemma_count_mono(cmds: Seq<CmdEntry>, visited: Set<Seq<char>>, k: Seq<char>)
    ensures
        count_unvisited(cmds, visited.insert(k)) <= count_unvisited(cmds, visited),
    decreases cmds.len(),
{
    if cmds.len() > 0 {
        lemma_count_mono(cmds.drop_first(), visited, k);
    }
}

pub proof fn lemma_count_insert(cmds: Seq<CmdEntry>, visited: Set<Seq<char>>, k: Seq<char>)
    requires
        cmd_lookup(cmds, k) is Some,
        !visited.contains(k),
    ensures
        count_unvisited(cmds, visited.insert(k)) < count_unvisited(cmds, visited),
    decreases cmds.len(),
{
    if cmds[0].0 == k {
        lemma_count_mono(cmds.drop_first(), visited, k);
    } else {
        lemma_count_insert(cmds.drop_first(), visited, k);
    }
}

/// The composed lines for the body `run` from position `i` on, under the
/// set of task names already being composed.
pub open spec fn compose_lines(
    cmds: Seq<CmdEntry>,
    run: Seq<Seq<char>>,
    i: int,
    prefix: Seq<char>,
    exe: Seq<char>,
    visited: Set<Seq<char>>,
) -> ComposeOutcome
    decreases count_unvisited(cmds, visited), run.len() - i,
{
    if i < 0 || i >= run.len() {
        ComposeOutcome::Lines { lines: Seq::empty() }
    } else {
        let line = run[i];
        if is_marked(line, '@') {
            with_lines(
                seq![line.drop_first()],
                compose_lines(cmds, run, i + 1, prefix, exe, visited),
            )
        } else if is_marked(line, '<') {
            let name = trim_spec(line.drop_first());
            if visited.contains(name) {
                ComposeOutcome::Cyclic { name }
            } else {
                match cmd_lookup(cmds, name) {
                    Option::None => ComposeOutcome::Unknown { name },
                    Option::Some(c) => if !smart_spec(c) {
                        ComposeOutcome::NotComposable { name }
                    } else {
                        proof {
                            lemma_count_insert(cmds, visited, name);
                        }
                        match compose_lines(
                            cmds,
                            effective_run(c.run),
                            0,
                            sub_prefix(prefix, name),
                            exe,
                            visited.insert(name),
                        ) {
                            ComposeOutcome::Lines { lines } => with_lines(
                                lines,
                                compose_lines(cmds, run, i + 1, prefix, exe, visited),
                            ),
                            e => e,
                        }
                    },
                }
            }
        } else if is_marked(line, '!') {
            with_lines(
                seq![self_line(exe, trim_spec(line.drop_first()))],
                compose_lines(cmds, run, i + 1, prefix, exe, visited),
            )
        } else {
            with_lines(
                seq![trace_line(prefix, line), line],
                compose_lines(cmds, run, i + 1, prefix, exe, visited),
            )
        }
    }
}

/// The composed script for the task stored under `name`: the strict-mode
/// preamble followed by the composed body lines, or the error that
/// stopped composition.
pub open spec fn compose_spec(
    cmds: Seq<CmdEntry>,
    name: Seq<char>,
    prefix: Seq<char>,
    exe: Seq<char>,
    visited: Set<Seq<char>>,
) -> ComposeOutcome {
    if visited.contains(name) {
        ComposeOutcome::Cyclic { name }
    } else {
        match cmd_lookup(cmds, name) {
            Option::None => ComposeOutcome::Unknown { name },
            Option::Some(c) => if !smart_spec(c) {
                ComposeOutcome::NotComposable { name }
            } else {
                match compose_lines(
                    cmds,
                    effective_run(c.run),
                    0,
                    prefix,
                    exe,
                    visited.insert(name),
                ) {
                    ComposeOutcome::Lines { lines } => ComposeOutcome::Lines {
                        lines: seq!["set -e"@] + lines,
                    },
                    e => e,
                }
            },
        }
    }
}

/// Why composition stopped: a reference cycle, a reference to a task
/// outside composable mode, or a reference to a name the config lacks.
#[derive(Debug)]
pub enum ComposeError {
    CyclicComposition { name: String },
    NotComposable { name: String },
    UnknownTask { name: String },
}

/// The outcome an error stands for.
pub open spec fn err_view(e: ComposeError) -> ComposeOutcome {
    match e {
        ComposeError::CyclicComposition { name } => ComposeOutcome::Cyclic { name: name@ },
        ComposeError::NotComposable { name } => ComposeOutcome::NotComposable { name: name@ },
        ComposeError::UnknownTask { name } => ComposeOutcome::Unknown { name: name@ },
    }
}

impl ComposeError {
    /// The name of the offending task reference.
    pub fn name(&self) -> (r: &String)
        ensures
            err_view(*self) matches ComposeOutcome::Cyclic { name } ==> r@ == name,
            err_view(*self) matches ComposeOutcome::NotComposable { name } ==> r@ == name,
            err_view(*self) matches ComposeOutcome::Unknown { name } ==> r@ == name,
    {
        match self {
            ComposeError::CyclicComposition { name } => name,
            ComposeError::NotComposable { name } => name,
            ComposeError::UnknownTask { name } => name,
        }
    }
}

fn clone_lines(v: &Vec<String>) -> (r: Vec<String>)
    ensures
        r.deep_view() == v.deep_view(),
{
    let n = v.len();
    let mut out: Vec<String> = Vec::new();
    let mut i: usize = 0;
    while i < n
        invariant
            i <= n,
            n == v.len(),
            out@.len() == i,
            forall|j: int| 0 <= j < i ==> out@[j]@ == v@[j]@,
        decreases n - i,
    {
        out.push(v[i].clone());
        i = i + 1;
    }
    proof {
        assert(out.deep_view() =~= v.deep_view());
    }
    out
}

fn effective_run_exec(run: &Vec<String>) -> (r: Vec<String>)
    ensures
        r.deep_view() == effective_run(run.deep_view()),
{
    if run.len() == 1 {
        let line = &run[0];
        let n = line.as_str().unicode_len();
        let has_dollar = crate::text::contains_char(line.as_str(), '$');
        let inline_marked = n > 0 && line.as_str().get_char(0) == '<';
        if !has_dollar && !inline_marked {
            let mut l2 = line.clone();
            l2.append(" \"$@\"");
            let mut out: Vec<String> = Vec::new();
            out.push(l2);
            proof {
                assert(out.deep_view() =~= effective_run(run.deep_view()));
            }
            return out;
        }
    }
    let out = clone_lines(run);
    proof {
        assert(run.deep_view() == effective_run(run.deep_view()));
    }
    out
}

fn contains_name(v: &Vec<String>, name: &String) -> (r: bool)
    ensures
        r == v.deep_view().to_set().contains(name@),
{
    let n = v.len();
    let mut i: usize = 0;
    while i < n
        invariant
            i <= n,
            n == v.len(),
            forall|j: int| 0 <= j < i ==> v@[j]@ != name@,
        decreases n - i,
    {
        if v[i] == *name {
            proof {
                assert(v.deep_view()[i as int] == name@);
                assert(v.deep_view().contains(name@));
            }
            return true;
        }
        i = i + 1;
    }
    proof {
        if v.deep_view().to_set().contains(name@) {
            let j = choose|j: int| 0 <= j < v.deep_view().len() && v.deep_view()[j] == name@;
            assert(v@[j]@ != name@);
        }
    }
    false
}

fn make_sub_prefix(prefix: &String, name: &String) -> (r: String)
    ensures
        r@ == sub_prefix(prefix@, name@),
{
    let mut s = prefix.clone();
    s.append(" > ");
    s.append(name.as_str());
    proof {
        assert(s@ =~= sub_prefix(prefix@, name@));
    }
    s
}

fn make_trace_line(prefix: &String, line: &str) -> (r: String)
    ensures
        r@ == trace_line(prefix@, line@),
{
    let mut s = "echo '".to_owned();
    s.append(prefix.as_str());
    s.append(" > ");
    s.append(line);
    s.append("' >&2");
    proof {
        assert(s@ =~= trace_line(prefix@, line@));
    }
    s
}

fn make_self_line(exe: &String, rest: &str) -> (r: String)
    ensures
        r@ == self_line(exe@, rest@),
{
    let mut s = exe.clone();
    s.append(" ");
    s.append(rest);
    proof {
        assert(s@ =~= self_line(exe@, rest@));
    }
    s
}

fn compose_into(
    config: &FileConfig,
    run: &Vec<String>,
    i: usize,
    prefix: &String,
    exe: &String,
    visited: &Vec<String>,
    out: &mut Vec<String>,
) -> (r: Result<(), ComposeError>)
    requires
        i <= run.len(),
    ensures
        ({
            let o = compose_lines(
                config@.commands,
                run.deep_view(),
                i as int,
                prefix@,
                exe@,
                visited.deep_view().to_set(),
            );
            match r {
                Ok(_) => o matches ComposeOutcome::Lines { lines } && final(out).deep_view()
                    == old(out).deep_view() + lines,
                Err(e) => o == err_view(e),
            }
        }),
    decreases count_unvisited(config@.commands, visited.deep_view().to_set()), run.len() - i,
{
    let ghost cmds = config@.commands;
    let ghost vset = visited.deep_view().to_set();
    if i == run.len() {
        proof {
            assert(out.deep_view() =~= old(out).deep_view() + Seq::<Seq<char>>::empty());
        }
        return Ok(());
    }
    let line = &run[i];
    proof {
        assert(run.deep_view()[i as int] == line@);
    }
    let n = line.as_str().unicode_len();
    if n > 0 && line.as_str().get_char(0) == '@' {
        let stripped = line.as_str().substring_char(1, n).to_owned();
        proof {
            assert(stripped@ =~= line@.drop_first());
        }
        out.push(stripped);
        let rest = compose_into(config, run, i + 1, prefix, exe, visited, out);
        match rest {
            Ok(_) => {
                proof {
                    assert(out.deep_view() =~= old(out).deep_view() + (seq![
                        line@.drop_first(),
                    ] + compose_lines(
                        cmds,
                        run.deep_view(),
                        i + 1,
                        prefix@,
                        exe@,
                        vset,
                    )->Lines_lines));
                }
                Ok(())
            },
            Err(e) => Err(e),
        }
    } else if n > 0 && line.as_str().get_char(0) == '<' {
        let after = line.as_str().substring_char(1, n);
        proof {
            assert(after@ =~= line@.drop_first());
        }
        let name = crate::text::trim(after);
        if contains_name(visited, &name) {
            return Err(ComposeError::CyclicComposition { name });
        }
        let cmd = match config.get(&name) {
            Some(c) => c,
            None => {
                return Err(ComposeError::UnknownTask { name });
            },
        };
        if !cmd.smart() {
            return Err(ComposeError::NotComposable { name });
        }
        let sub_run = effective_run_exec(&cmd.run);
        let new_prefix = make_sub_prefix(prefix, &name);
        let mut new_visited = clone_lines(visited);
        new_visited.push(name.clone());
        proof {
            assert(new_visited.deep_view() =~= visited.deep_view().push(name@));
            lemma_push_to_set(visited.deep_view(), name@);
            assert(new_visited.deep_view().to_set() =~= vset.insert(name@));
            lemma_count_insert(cmds, vset, name@);
        }
        let sub = compose_into(config, &sub_run, 0, &new_prefix, exe, &new_visited, out);
        match sub {
            Ok(_) => {},
            Err(e) => {
                return Err(e);
            },
        }
        let ghost mid = out.deep_view();
        let rest = compose_into(config, run, i + 1, prefix, exe, visited, out);
        match rest {
            Ok(_) => {
                proof {
                    let sub_lines = compose_lines(
                        cmds,
                        effective_run(cmd@.run),
                        0,
                        sub_prefix(prefix@, name@),
                        exe@,
                        vset.insert(name@),
                    )->Lines_lines;
                    let rest_lines = compose_lines(
                        cmds,
                        run.deep_view(),
                        i + 1,
                        prefix@,
                        exe@,
                        vset,
                    )->Lines_lines;
                    assert(out.deep_view() =~= old(out).deep_view() + (sub_lines
                        + rest_lines));
                }
                Ok(())
            },
            Err(e) => Err(e),
        }
    } else if n > 0 && line.as_str().get_char(0) == '!' {
        let after = line.as_str().substring_char(1, n);
        proof {
            assert(after@ =~= line@.drop_first());
        }
        let rest_of_line = crate::text::trim(after);
        let rewritten = make_self_line(exe, rest_of_line.as_str());
        out.push(rewritten);
        let rest = compose_into(config, run, i + 1, prefix, exe, visited, out);
        match rest {
            Ok(_) => {
                proof {
                    assert(out.deep_view() =~= old(out).deep_view() + (seq![
                        self_line(exe@, trim_spec(line@.drop_first())),
                    ] + compose_lines(
                        cmds,
                        run.deep_view(),
                        i + 1,
                        prefix@,
                        exe@,
                        vset,
                    )->Lines_lines));
                }
                Ok(())
            },
            Err(e) => Err(e),
        }
    } else {
        let echo = make_trace_line(prefix, line.as_str());
        out.push(echo);
        out.push(line.clone());
        let rest = compose_into(config, run, i + 1, prefix, exe, visited, out);
        match rest {
            Ok(_) => {
                proof {
                    assert(out.deep_view() =~= old(out).deep_view() + (seq![
                        trace_line(prefix@, line@),
                        line@,
                    ] + compose_lines(
                        cmds,
                        run.deep_view(),
                        i + 1,
                        prefix@,
                        exe@,
                        vset,
                    )->Lines_lines));
                }
                Ok(())
            },
            Err(e) => Err(e),
        }
    }
}

/// Composes the script for the task stored under `name`: the strict-mode
/// preamble followed by the expanded body, as one line per element.
/// `prefix` is the invocation breadcrumb shown in trace lines and `exe`
/// the absolute path used for self-invocation lines.
pub fn compose(config: &FileConfig, name: &String, prefix: &String, exe: &String) -> (r: Result<
    Vec<String>,
    ComposeError,
>)
    ensures
        ({
            let o = compose_spec(config@.commands, name@, prefix@, exe@, Set::empty());
            match r {
                Ok(lines) => o == (ComposeOutcome::Lines { lines: lines.deep_view() }),
                Err(e) => o == err_view(e),
            }
        }),
{
    proof {
        assert(!Set::<Seq<char>>::empty().contains(name@));
    }
    let cmd = match config.get(name) {
        Some(c) => c,
        None => {
            return Err(ComposeError::UnknownTask { name: name.clone() });
        },
    };
    if !cmd.smart() {
        return Err(ComposeError::NotComposable { name: name.clone() });
    }
    let sub_run = effective_run_exec(&cmd.run);
    let mut visited: Vec<String> = Vec::new();
    visited.push(name.clone());
    let mut out: Vec<String> = Vec::new();
    out.push("set -e".to_owned());
    proof {
        assert(visited.deep_view() =~= Seq::<Seq<char>>::empty().push(name@));
        lemma_push_to_set(Seq::<Seq<char>>::empty(), name@);
        assert(Seq::<Seq<char>>::empty().to_set() =~= Set::<Seq<char>>::empty());
        assert(visited.deep_view().to_set() =~= Set::<Seq<char>>::empty().insert(name@));
        assert(out.deep_view() =~= seq!["set -e"@]);
    }
    match compose_into(config, &sub_run, 0, prefix, exe, &visited, &mut out) {
        Ok(_) => {
            proof {
                let lines = compose_lines(
                    config@.commands,
                    effective_run(cmd@.run),
                    0,
                    prefix@,
                    exe@,
                    Set::<Seq<char>>::empty().insert(name@),
                )->Lines_lines;
                assert(out.deep_view() =~= seq!["set -e"@] + lines);
            }
            Ok(out)
        },
        Err(e) => Err(e),
    }
}


/// The number of script lines that the bodies reached from `run[i..]`
/// contribute: a line that is not a successful inline reference counts
/// one, and a successful inline reference counts what the referenced
/// task's body contributes in turn.
pub open spec fn inlined_line_count(
    cmds: Seq<CmdEntry>,
    run: Seq<Seq<char>>,
    i: int,
    visited: Set<Seq<char>>,
) -> nat
    decreases count_unvisited(cmds, visited), run.len() - i,
{
    if i < 0 || i >= run.len() {
        0
    } else {
        let line = run[i];
        let rest = inlined_line_count(cmds, run, i + 1, visited);
        if is_marked(line, '<') && !is_marked(line, '@') {
            let name = trim_spec(line.drop_first());
            if !visited.contains(name) && cmd_lookup(cmds, name) is Some && smart_spec(
                cmd_lookup(cmds, name)->0,
            ) {
                proof {
                    lemma_count_insert(cmds, visited, name);
                }
                inlined_line_count(
                    cmds,
                    effective_run(cmd_lookup(cmds, name)->0.run),
                    0,
                    visited.insert(name),
                ) + rest
            } else {
                1 + rest
            }
        } else {
            1 + rest
        }
    }
}

proof fn lemma_compose_lines_count(
    cmds: Seq<CmdEntry>,
    run: Seq<Seq<char>>,
    i: int,
    prefix: Seq<char>,
    exe: Seq<char>,
    visited: Set<Seq<char>>,
)
    ensures
        compose_lines(cmds, run, i, prefix, exe, visited) matches ComposeOutcome::Lines { lines }
            ==> lines.len() >= inlined_line_count(cmds, run, i, visited),
    decreases count_unvisited(cmds, visited), run.len() - i,
{
    if 0 <= i < run.len() {
        lemma_compose_lines_count(cmds, run, i + 1, prefix, exe, visited);
        let line = run[i];
        if !is_marked(line, '@') && is_marked(line, '<') {
            let name = trim_spec(line.drop_first());
            if !visited.contains(name) && cmd_lookup(cmds, name) is Some && smart_spec(
                cmd_lookup(cmds, name)->0,
            ) {
                lemma_count_insert(cmds, visited, name);
                lemma_compose_lines_count(
                    cmds,
                    effective_run(cmd_lookup(cmds, name)->0.run),
                    0,
                    sub_prefix(prefix, name),
                    exe,
                    visited.insert(name),
                );
            }
        }
    }
}

/// Law: when composition of an (acyclic) task graph succeeds — and the
/// recursion measure guarantees it always ends — the composed script has
/// at least one line for the preamble plus the lines that all
/// transitively inlined bodies contribute.
pub proof fn lemma_compose_line_count(
    cmds: Seq<CmdEntry>,
    name: Seq<char>,
    prefix: Seq<char>,
    exe: Seq<char>,
    visited: Set<Seq<char>>,
)
    ensures
        compose_spec(cmds, name, prefix, exe, visited) matches ComposeOutcome::Lines { lines }
            ==> lines.len() >= 1 + (match cmd_lookup(cmds, name) {
            Option::Some(c) => inlined_line_count(
                cmds,
                effective_run(c.run),
                0,
                visited.insert(name),
            ),
            Option::None => 0,
        }),
{
    if !visited.contains(name) && cmd_lookup(cmds, name) is Some {
        let c = cmd_lookup(cmds, name)->0;
        if smart_spec(c) {
            lemma_compose_lines_count(
                cmds,
                effective_run(c.run),
                0,
                prefix,
                exe,
                visited.insert(name),
            );
        }
    }
}

/// Law: a reference cycle is detected.  When task `a` inlines task `b`
/// and task `b` inlines task `a` (both composable, each body the single
/// inline-reference line), composing `a` fails with the cyclic outcome —
/// so no script exists to be written or spawned.
pub proof fn lemma_cycle_detected(
    cmds: Seq<CmdEntry>,
    a: Seq<char>,
    b: Seq<char>,
    prefix: Seq<char>,
    exe: Seq<char>,
)
    requires
        cmd_lookup(cmds, a) is Some,
        cmd_lookup(cmds, b) is Some,
        smart_spec(cmd_lookup(cmds, a)->0),
        smart_spec(cmd_lookup(cmds, b)->0),
        cmd_lookup(cmds, a)->0.run == seq![seq!['<'] + b],
        cmd_lookup(cmds, b)->0.run == seq![seq!['<'] + a],
        trim_spec(a) == a,
        trim_spec(b) == b,
    ensures
        compose_spec(cmds, a, prefix, exe, Set::empty()) == (ComposeOutcome::Cyclic { name: a }),
{
    let ca = cmd_lookup(cmds, a)->0;
    let cb = cmd_lookup(cmds, b)->0;
    let la = seq!['<'] + b;
    let lb = seq!['<'] + a;
    assert(la[0] == '<');
    assert(lb[0] == '<');
    assert(la.drop_first() =~= b);
    assert(lb.drop_first() =~= a);
    assert(effective_run(ca.run) == ca.run);
    assert(effective_run(cb.run) == cb.run);
    let v1 = Set::<Seq<char>>::empty().insert(a);
    if v1.contains(b) {
        // `a` inlines itself: the reference to `b == a` closes the cycle at once
        assert(b == a);
        assert(compose_lines(cmds, ca.run, 0, prefix, exe, v1) == (ComposeOutcome::Cyclic {
            name: a,
        }));
    } else {
        let v2 = v1.insert(b);
        assert(v2.contains(a));
        assert(compose_lines(cmds, cb.run, 0, sub_prefix(prefix, b), exe, v2)
            == (ComposeOutcome::Cyclic { name: a }));
        assert(compose_lines(cmds, ca.run, 0, prefix, exe, v1) == (ComposeOutcome::Cyclic {
            name: a,
        }));
    }
}

/// Law: an inline reference to a task outside composable ("raw") mode is
/// rejected.  When composable task `a`'s body inlines task `b` and `b`
/// is not composable, composing `a` fails with the not-composable
/// outcome naming `b`.
pub proof fn lemma_reference_not_composable(
    cmds: Seq<CmdEntry>,
    a: Seq<char>,
    b: Seq<char>,
    prefix: Seq<char>,
    exe: Seq<char>,
)
    requires
        cmd_lookup(cmds, a) is Some,
        cmd_lookup(cmds, b) is Some,
        smart_spec(cmd_lookup(cmds, a)->0),
        !smart_spec(cmd_lookup(cmds, b)->0),
        cmd_lookup(cmds, a)->0.run == seq![seq!['<'] + b],
        trim_spec(b) == b,
        a != b,
    ensures
        compose_spec(cmds, a, prefix, exe, Set::empty()) == (ComposeOutcome::NotComposable {
            name: b,
        }),
{
    let ca = cmd_lookup(cmds, a)->0;
    let la = seq!['<'] + b;
    assert(la[0] == '<');
    assert(la.drop_first() =~= b);
    assert(effective_run(ca.run) == ca.run);
    let v1 = Set::<Seq<char>>::empty().insert(a);
    assert(!v1.contains(b));
    assert(compose_lines(cmds, ca.run, 0, prefix, exe, v1) == (ComposeOutcome::NotComposable {
        name: b,
    }));
}

/// Law: a single-line body without a parameter marker is rewritten to
/// forward the positional arguments: the composed script is exactly the
/// preamble, the trace line for the rewritten line, and the rewritten
/// line itself.
pub proof fn lemma_single_line_forwarding(
    cmds: Seq<CmdEntry>,
    name: Seq<char>,
    l: Seq<char>,
    prefix: Seq<char>,
    exe: Seq<char>,
)
    requires
        cmd_lookup(cmds, name) is Some,
        smart_spec(cmd_lookup(cmds, name)->0),
        cmd_lookup(cmds, name)->0.run == seq![l],
        !has_char(l, '$'),
        l.len() > 0,
        l[0] != '<' && l[0] != '@' && l[0] != '!',
    ensures
        compose_spec(cmds, name, prefix, exe, Set::empty()) == (ComposeOutcome::Lines {
            lines: seq![
                "set -e"@,
                trace_line(prefix, l + " \"$@\""@),
                l + " \"$@\""@,
            ],
        }),
{
    let c = cmd_lookup(cmds, name)->0;
    let rewritten = l + " \"$@\""@;
    assert(effective_run(c.run) == seq![rewritten]);
    assert(rewritten[0] == l[0]);
    let v1 = Set::<Seq<char>>::empty().insert(name);
    let o = compose_lines(cmds, seq![rewritten], 0, prefix, exe, v1);
    assert(compose_lines(cmds, seq![rewritten], 1, prefix, exe, v1) == (ComposeOutcome::Lines {
        lines: Seq::<Seq<char>>::empty(),
    }));
    assert(o == (ComposeOutcome::Lines { lines: seq![trace_line(prefix, rewritten), rewritten] + Seq::<Seq<char>>::empty() }));
    assert(seq![trace_line(prefix, rewritten), rewritten] + Seq::<Seq<char>>::empty() =~= seq![
        trace_line(prefix, rewritten),
        rewritten,
    ]);
    assert(seq!["set -e"@] + seq![trace_line(prefix, rewritten), rewritten] =~= seq![
        "set -e"@,
        trace_line(prefix, rewritten),
        rewritten,
    ]);
}

/// Law: a body of more than one line (or an empty body) is composed
/// unmodified: no forwarding token is appended to any of its lines.
pub proof fn lemma_multi_line_unmodified(run: Seq<Seq<char>>)
    requires
        run.len() != 1,
    ensures
        effective_run(run) == run,
{
}

} // verus!
