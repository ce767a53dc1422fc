//! Builds the resolved execution unit for one invocation: the composed
//! (or raw) script body, the argument vector, the merged environment
//! with the engine's own context variables, the resolved working and
//! watch directories, and the depth-namespaced temp path.
//!
//! The invocation context — recursion depth, breadcrumb, config path,
//! keep-temp flag — travels across process boundaries through
//! environment variables; it is modelled here as a typed value and
//! serialized into environment entries only at the spawn edge.

use vstd::prelude::*;
use vstd::string::*;

use crate::commands::{
    cmd_lookup, env_insert_spec, env_merge_spec, env_wf, smart_spec, Cmd, Repeat, RepeatView,
    EnvEntry, EnvMap, FileConfig,
};
use crate::compose::{compose, compose_spec, err_view, sub_prefix, ComposeError, ComposeOutcome};
use crate::script::tmp_file_name_spec;
use crate::text::{dec_str, dec_val, is_dec, u64_to_string};
use crate::utils::CliArgs;

verus! {

/// The engine state carried across recursive self-invocations: how deep
/// this invocation is nested, the human-readable task-invocation chain,
/// the absolute config file path, and whether temp files are kept.
pub struct InvocationContext {
    pub depth: u64,
    pub breadcrumb: String,
    pub config_path: String,
    pub keep_tmp: bool,
}

/// The invocation breadcrumb used inside a task: the caller's chain
/// plus the task's name, or the bare name at the top level.
pub open spec fn child_breadcrumb_spec(breadcrumb: Seq<char>, name: Seq<char>) -> Seq<char> {
    if breadcrumb.len() == 0 {
        name
    } else {
        sub_prefix(breadcrumb, name)
    }
}

/// Extends the invocation breadcrumb with a task name.
pub fn child_breadcrumb(breadcrumb: &String, name: &String) -> (r: String)
    ensures
        r@ == child_breadcrumb_spec(breadcrumb@, name@),
{
    if breadcrumb.as_str().unicode_len() == 0 {
        name.clone()
    } else {
        let mut s = breadcrumb.clone();
        s.append(" > ");
        s.append(name.as_str());
        proof {
            assert(s@ =~= sub_prefix(breadcrumb@, name@));
        }
        s
    }
}

/// The environment after serializing an invocation context into it:
/// depth, config path, breadcrumb and keep flag, inserted in that
/// order.
pub open spec fn ctx_env_spec(
    depth: nat,
    breadcrumb: Seq<char>,
    config_path: Seq<char>,
    keep: bool,
    m: Seq<EnvEntry>,
) -> Seq<EnvEntry> {
    env_insert_spec(
        env_insert_spec(
            env_insert_spec(
                env_insert_spec(m, "DONKEY_MAKE_DEPTH"@, dec_str(depth)),
                "DONKEY_MAKE_CONFIG_FILE"@,
                config_path,
            ),
            "DONKEY_MAKE_COMMAND"@,
            breadcrumb,
        ),
        "DONKEY_MAKE_KEEP"@,
        if keep {
            "1"@
        } else {
            "0"@
        },
    )
}

impl InvocationContext {
    /// Serializes this context into the environment mapping handed to
    /// the spawned child.
    pub fn apply_to(&self, env: &mut EnvMap)
        requires
            old(env).wf(),
        ensures
            final(env)@ == ctx_env_spec(
                self.depth as nat,
                self.breadcrumb@,
                self.config_path@,
                self.keep_tmp,
                old(env)@,
            ),
            final(env).wf(),
    {
        env.insert("DONKEY_MAKE_DEPTH".to_owned(), u64_to_string(self.depth));
        env.insert("DONKEY_MAKE_CONFIG_FILE".to_owned(), self.config_path.clone());
        env.insert("DONKEY_MAKE_COMMAND".to_owned(), self.breadcrumb.clone());
        let keep_value: String = if self.keep_tmp {
            "1".to_owned()
        } else {
            "0".to_owned()
        };
        env.insert("DONKEY_MAKE_KEEP".to_owned(), keep_value);
    }
}

/// The recursion depth read back from the environment: the decimal
/// value when the variable holds one that fits, zero otherwise.
pub open spec fn parse_depth_spec(s: Option<Seq<char>>) -> nat {
    match s {
        None => 0,
        Some(v) => if is_dec(v) && dec_val(v) <= u64::MAX {
            dec_val(v)
        } else {
            0
        },
    }
}

/// Reads the recursion depth back from an environment value.
pub fn parse_depth(s: &Option<String>) -> (r: u64)
    ensures
        r as nat == parse_depth_spec(crate::commands::opt_str_view(*s)),
{
    match s {
        None => 0,
        Some(v) => match crate::text::parse_u64(v.as_str()) {
            Some(d) => d,
            None => 0,
        },
    }
}

/// The position of the last path separator, or a negative value when
/// the path has none.
pub open spec fn last_slash(s: Seq<char>) -> int
    decreases s.len(),
{
    if s.len() == 0 {
        -1
    } else if s.last() == '/' {
        s.len() - 1
    } else {
        last_slash(s.drop_last())
    }
}

/// The directory holding the named file: the text before the last path
/// separator, the root for a file directly under it, the current
/// directory for a bare name.
pub open spec fn parent_dir_spec(p: Seq<char>) -> Seq<char> {
    let i = last_slash(p);
    if i < 0 {
        "."@
    } else if i == 0 {
        "/"@
    } else {
        p.subrange(0, i)
    }
}

fn last_slash_exec(s: &str) -> (r: Option<usize>)
    ensures
        match r {
            Some(i) => last_slash(s@) == i && i < s@.len(),
            None => last_slash(s@) < 0,
        },
    decreases s@.len(),
{
    let n = s.unicode_len();
    if n == 0 {
        None
    } else if s.get_char(n - 1) == '/' {
        Some(n - 1)
    } else {
        let rest = s.substring_char(0, n - 1);
        proof {
            assert(rest@ =~= s@.drop_last());
        }
        last_slash_exec(rest)
    }
}

/// The directory holding the named file.
pub fn parent_dir(p: &str) -> (r: String)
    ensures
        r@ == parent_dir_spec(p@),
{
    match last_slash_exec(p) {
        None => ".".to_owned(),
        Some(i) => {
            if i == 0 {
                "/".to_owned()
            } else {
                p.substring_char(0, i).to_owned()
            }
        },
    }
}

/// A path resolved against a base directory: an absolute path stands
/// alone, a relative one is joined under the base.
pub open spec fn resolve_path_spec(base: Seq<char>, p: Seq<char>) -> Seq<char> {
    if p.len() > 0 && p[0] == '/' {
        p
    } else {
        base + "/"@ + p
    }
}

/// Resolves a path against a base directory.
pub fn resolve_path(base: &str, p: &str) -> (r: String)
    ensures
        r@ == resolve_path_spec(base@, p@),
{
    let n = p.unicode_len();
    if n > 0 && p.get_char(0) == '/' {
        p.to_owned()
    } else {
        let mut s = base.to_owned();
        s.append("/");
        s.append(p);
        proof {
            assert(s@ =~= base@ + "/"@ + p@);
        }
        s
    }
}

/// The resolved execution unit for one invocation.
pub struct Run {
    pub cmd_name: String,
    pub args: Vec<String>,
    pub env: EnvMap,
    pub working_dir: String,
    pub tmp_path: String,
    pub file_path: String,
    pub watch_path: Option<String>,
    pub print_summary: bool,
}

/// Builds the run request for one task invocation: composes the script
/// body (or takes a raw body verbatim), namespaces the temp path by
/// recursion depth, assembles the argument vector (temp path, then the
/// task's fixed arguments, then the caller's extras), merges the global
/// environment under the task environment and serializes the child's
/// invocation context on top, and resolves the working and watch
/// directories against the config file's directory.
pub fn prepare_run(
    cmd_name: &String,
    config: &FileConfig,
    cmd: &Cmd,
    cli: &CliArgs,
    file_path: &String,
    self_exe: &String,
    ctx: &InvocationContext,
) -> (r: Result<(Run, Vec<String>), ComposeError>)
    requires
        config.wf(),
        env_wf(cmd@.env),
        cmd_lookup(config@.commands, cmd_name@) == Some(cmd@),
        ctx.depth < u64::MAX,
    ensures
        ({
            let crumb = child_breadcrumb_spec(ctx.breadcrumb@, cmd_name@);
            let o = compose_spec(config@.commands, cmd_name@, crumb, self_exe@, Set::empty());
            match r {
                Ok(p) => {
                    &&& p.0.cmd_name@ == cmd_name@
                    &&& p.0.tmp_path@ == tmp_file_name_spec(ctx.depth as nat)
                    &&& p.0.args.deep_view() == seq![tmp_file_name_spec(ctx.depth as nat)]
                        + cmd@.args + cli.args.deep_view()
                    &&& p.0.env@ == ctx_env_spec(
                        (ctx.depth + 1) as nat,
                        crumb,
                        file_path@,
                        ctx.keep_tmp,
                        env_merge_spec(config@.env, cmd@.env),
                    )
                    &&& p.0.env.wf()
                    &&& p.0.working_dir@ == (match cmd@.working_dir {
                        Some(wd) => resolve_path_spec(parent_dir_spec(file_path@), wd),
                        None => "."@,
                    })
                    &&& p.0.file_path@ == file_path@
                    &&& (match cmd@.repeat {
                        Some(RepeatView::Watch { dir, .. }) => p.0.watch_path matches Some(w)
                            && w@ == resolve_path_spec(parent_dir_spec(file_path@), dir),
                        _ => p.0.watch_path is None,
                    })
                    &&& p.0.print_summary == (ctx.depth == 0)
                    &&& (smart_spec(cmd@) ==> o == (ComposeOutcome::Lines {
                        lines: p.1.deep_view(),
                    }))
                    &&& (!smart_spec(cmd@) ==> p.1.deep_view() == cmd@.run)
                },
                Err(e) => smart_spec(cmd@) && o == err_view(e),
            }
        }),
{
    let crumb = child_breadcrumb(&ctx.breadcrumb, cmd_name);
    let body: Vec<String> = if cmd.smart() {
        match compose(config, cmd_name, &crumb, self_exe) {
            Ok(lines) => lines,
            Err(e) => {
                return Err(e);
            },
        }
    } else {
        let mut raw: Vec<String> = Vec::new();
        let n = cmd.run.len();
        let mut i: usize = 0;
        while i < n
            invariant
                i <= n,
                n == cmd.run.len(),
                raw@.len() == i,
                forall|j: int| 0 <= j < i ==> raw@[j]@ == cmd.run.deep_view()[j],
            decreases n - i,
        {
            raw.push(cmd.run[i].clone());
            i = i + 1;
        }
        proof {
            assert(raw.deep_view() =~= cmd@.run);
        }
        raw
    };
    let tmp_path = crate::script::tmp_file_name(ctx.depth);
    let mut args: Vec<String> = Vec::new();
    args.push(tmp_path.clone());
    let n_cmd_args = cmd.args.len();
    let mut i: usize = 0;
    while i < n_cmd_args
        invariant
            i <= n_cmd_args,
            n_cmd_args == cmd.args.len(),
            args@.len() == 1 + i,
            args.deep_view()[0] == tmp_file_name_spec(ctx.depth as nat),
            forall|j: int| 0 <= j < i ==> args.deep_view()[1 + j] == cmd.args.deep_view()[j],
        decreases n_cmd_args - i,
    {
        args.push(cmd.args[i].clone());
        i = i + 1;
    }
    let n_cli_args = cli.args.len();
    let mut k: usize = 0;
    while k < n_cli_args
        invariant
            k <= n_cli_args,
            n_cli_args == cli.args.len(),
            args@.len() == 1 + n_cmd_args + k,
            args.deep_view()[0] == tmp_file_name_spec(ctx.depth as nat),
            forall|j: int|
                0 <= j < n_cmd_args ==> args.deep_view()[1 + j] == cmd.args.deep_view()[j],
            forall|j: int|
                0 <= j < k ==> args.deep_view()[1 + n_cmd_args + j] == cli.args.deep_view()[j],
        decreases n_cli_args - k,
    {
        args.push(cli.args[k].clone());
        k = k + 1;
    }
    proof {
        assert(args.deep_view() =~= seq![tmp_file_name_spec(ctx.depth as nat)] + cmd@.args
            + cli.args.deep_view());
    }
    let mut env = config.env.merge(&cmd.env);
    let child_ctx = InvocationContext {
        depth: ctx.depth + 1,
        breadcrumb: crumb.clone(),
        config_path: file_path.clone(),
        keep_tmp: ctx.keep_tmp,
    };
    child_ctx.apply_to(&mut env);
    let base = parent_dir(file_path.as_str());
    let working_dir = match &cmd.working_dir {
        Some(wd) => resolve_path(base.as_str(), wd.as_str()),
        None => ".".to_owned(),
    };
    let watch_path = match &cmd.repeat {
        Some(Repeat::Watch { dir, .. }) => Some(resolve_path(base.as_str(), dir.as_str())),
        _ => None,
    };
    let run = Run {
        cmd_name: cmd_name.clone(),
        args,
        env,
        working_dir,
        tmp_path,
        file_path: file_path.clone(),
        watch_path,
        print_summary: ctx.depth == 0,
    };
    Ok((run, body))
}

/// The default config file names, probed in order when neither the
/// command line nor the environment names one.
pub fn config_file_candidates() -> (r: Vec<String>)
    ensures
        r.deep_view() =~= seq![
            "donk.yml"@,
            "donk.yaml"@,
            "donkey.yml"@,
            "donkey.yaml"@,
            "donkey-make.yml"@,
            "donkey-make.yaml"@,
        ],
{
    let mut v: Vec<String> = Vec::new();
    v.push("donk.yml".to_owned());
    v.push("donk.yaml".to_owned());
    v.push("donkey.yml".to_owned());
    v.push("donkey.yaml".to_owned());
    v.push("donkey-make.yml".to_owned());
    v.push("donkey-make.yaml".to_owned());
    v
}

/// The config path decision before any disk probing: an explicit
/// command-line path wins, then the environment override; with neither,
/// the caller probes the default candidates.
pub fn choose_config_path(explicit: &Option<String>, env_override: &Option<String>) -> (r: Option<
    String,
>)
    ensures
        match (explicit, env_override) {
            (Some(p), _) => r matches Some(v) && v@ == p@,
            (None, Some(p)) => r matches Some(v) && v@ == p@,
            (None, None) => r is None,
        },
{
    match explicit {
        Some(p) => Some(p.clone()),
        None => match env_override {
            Some(p) => Some(p.clone()),
            None => None,
        },
    }
}

/// The error shown when no config file was named and none of the
/// default candidates exists.
pub fn no_config_message() -> (r: String)
    ensures
        r@
            == "No commands config file provided, and no default found, tried:\n  donk.ya?ml, donkey.ya?ml and donkey-make.ya?ml"@,
{
    "No commands config file provided, and no default found, tried:\n  donk.ya?ml, donkey.ya?ml and donkey-make.ya?ml".to_owned()
}

/// The listed items joined with commas, from position `i` on.
pub open spec fn comma_join_spec(items: Seq<Seq<char>>, i: int) -> Seq<char>
    decreases items.len() - i,
{
    if i < 0 || i >= items.len() {
        Seq::empty()
    } else if i + 1 == items.len() {
        items[i]
    } else {
        items[i] + ", "@ + comma_join_spec(items, i + 1)
    }
}

fn comma_join_from(items: &Vec<String>, i: usize) -> (r: String)
    requires
        i <= items.len(),
    ensures
        r@ == comma_join_spec(items.deep_view(), i as int),
    decreases items.len() - i,
{
    if i == items.len() {
        String::new()
    } else if i + 1 == items.len() {
        items[i].clone()
    } else {
        let mut s = items[i].clone();
        s.append(", ");
        let rest = comma_join_from(items, i + 1);
        s.append(rest.as_str());
        proof {
            assert(s@ =~= comma_join_spec(items.deep_view(), i as int));
        }
        s
    }
}

/// The message shown for a task name the config lacks: the available
/// names, comma-separated, and a caller-supplied suggestion tail.
pub open spec fn unknown_command_message_spec(
    name: Seq<char>,
    keys: Seq<Seq<char>>,
    suggestion: Seq<char>,
) -> Seq<char> {
    "Command \""@ + name + "\" not found, commands available are:\n  "@ + comma_join_spec(keys, 0)
        + suggestion
}

/// Builds the message shown for a task name the config lacks.
pub fn unknown_command_message(name: &String, keys: &Vec<String>, suggestion: &String) -> (r:
    String)
    ensures
        r@ == unknown_command_message_spec(name@, keys.deep_view(), suggestion@),
{
    let mut s = "Command \"".to_owned();
    s.append(name.as_str());
    s.append("\" not found, commands available are:\n  ");
    let joined = comma_join_from(keys, 0);
    s.append(joined.as_str());
    s.append(suggestion.as_str());
    proof {
        assert(s@ =~= unknown_command_message_spec(name@, keys.deep_view(), suggestion@));
    }
    s
}

} // verus!
