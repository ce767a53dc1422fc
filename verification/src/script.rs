//! The temp script manager's decisions: the depth-namespaced file name,
//! the commented header block put above the script body, the exclusive
//! creation gate, and the error values that file work can produce.
//!
//! The file operations themselves happen outside the library: the caller
//! probes the filesystem and reports what it saw; this module decides
//! and builds the exact text to write.

use vstd::prelude::*;
use vstd::string::*;

use crate::commands::{EnvEntry, EnvMap};
use crate::text::{join, join_lines, dec_str, u64_to_string};

verus! {

/// What went wrong at the engine's file or process edge.
#[derive(Debug)]
pub enum IoErrorKind {
    /// The temp script path already exists: another invocation of the
    /// same task at the same depth is running.
    AlreadyRunning,
    WriteFailed,
    DeleteFailed,
    SpawnFailed,
    WatchFailed,
}

/// An engine I/O failure with path context.
#[derive(Debug)]
pub struct IoError {
    pub kind: IoErrorKind,
    pub path: String,
    pub detail: String,
}

/// The displayed text of an I/O failure.
pub open spec fn io_error_message_spec(kind: IoErrorKind, path: Seq<char>, detail: Seq<char>) -> Seq<
    char,
> {
    match kind {
        IoErrorKind::AlreadyRunning => "Temporary file "@ + path
            + " already exists, is the command already running?"@,
        IoErrorKind::WriteFailed => "Error writing temporary file "@ + path + ", "@ + detail,
        IoErrorKind::DeleteFailed => "Error deleting temporary file "@ + path + ", "@ + detail,
        IoErrorKind::SpawnFailed => "failed to execute command \""@ + path + "\": "@ + detail,
        IoErrorKind::WatchFailed => "failed to watch \""@ + path + "\": "@ + detail,
    }
}

impl IoError {
    /// The displayed text of this failure.
    pub fn message(&self) -> (r: String)
        ensures
            r@ == io_error_message_spec(self.kind, self.path@, self.detail@),
    {
        match self.kind {
            IoErrorKind::AlreadyRunning => {
                let mut s = "Temporary file ".to_owned();
                s.append(self.path.as_str());
                s.append(" already exists, is the command already running?");
                proof {
                    assert(s@ =~= io_error_message_spec(self.kind, self.path@, self.detail@));
                }
                s
            },
            IoErrorKind::WriteFailed => {
                let mut s = "Error writing temporary file ".to_owned();
                s.append(self.path.as_str());
                s.append(", ");
                s.append(self.detail.as_str());
                proof {
                    assert(s@ =~= io_error_message_spec(self.kind, self.path@, self.detail@));
                }
                s
            },
            IoErrorKind::DeleteFailed => {
                let mut s = "Error deleting temporary file ".to_owned();
                s.append(self.path.as_str());
                s.append(", ");
                s.append(self.detail.as_str());
                proof {
                    assert(s@ =~= io_error_message_spec(self.kind, self.path@, self.detail@));
                }
                s
            },
            IoErrorKind::SpawnFailed => {
                let mut s = "failed to execute command \"".to_owned();
                s.append(self.path.as_str());
                s.append("\": ");
                s.append(self.detail.as_str());
                proof {
                    assert(s@ =~= io_error_message_spec(self.kind, self.path@, self.detail@));
                }
                s
            },
            IoErrorKind::WatchFailed => {
                let mut s = "failed to watch \"".to_owned();
                s.append(self.path.as_str());
                s.append("\": ");
                s.append(self.detail.as_str());
                proof {
                    assert(s@ =~= io_error_message_spec(self.kind, self.path@, self.detail@));
                }
                s
            },
        }
    }
}

/// The temp script file name for a recursion depth: nested
/// self-invocations never collide with their parent's file.
pub open spec fn tmp_file_name_spec(depth: nat) -> Seq<char> {
    ".donkey-make."@ + dec_str(depth) + ".tmp"@
}

/// The temp script file name for a recursion depth.
pub fn tmp_file_name(depth: u64) -> (r: String)
    ensures
        r@ == tmp_file_name_spec(depth as nat),
{
    let mut s = ".donkey-make.".to_owned();
    let d = u64_to_string(depth);
    s.append(d.as_str());
    s.append(".tmp");
    proof {
        assert(s@ =~= tmp_file_name_spec(depth as nat));
    }
    s
}

/// Decides the exclusive write.  The caller reports whether the target
/// path already exists; if it does, the write is refused with
/// `AlreadyRunning` — the caller then writes nothing, so the existing
/// file stays untouched — and otherwise the write may proceed.
pub fn temp_write_gate(path: &String, path_exists: bool) -> (r: Result<(), IoError>)
    ensures
        r is Ok <==> !path_exists,
        r matches Err(e) ==> e.kind == IoErrorKind::AlreadyRunning && e.path@ == path@,
{
    if path_exists {
        Err(
            IoError {
                kind: IoErrorKind::AlreadyRunning,
                path: path.clone(),
                detail: String::new(),
            },
        )
    } else {
        Ok(())
    }
}

/// The comment token for the header block: line comments for an
/// interpreter with a known non-shell name, the shell's otherwise.
pub open spec fn comment_token_spec(interpreter: Seq<char>) -> Seq<char> {
    if "node"@.is_prefix_of(interpreter) {
        "//"@
    } else {
        "#"@
    }
}

/// The exact interpreter invocation: the interpreter followed by each
/// argument, space-separated.
pub open spec fn args_suffix_spec(args: Seq<Seq<char>>, i: int) -> Seq<char>
    decreases args.len() - i,
{
    if i < 0 || i >= args.len() {
        Seq::empty()
    } else {
        " "@ + args[i] + args_suffix_spec(args, i + 1)
    }
}

/// The exact interpreter invocation line content.
pub open spec fn invocation_spec(interpreter: Seq<char>, args: Seq<Seq<char>>) -> Seq<char> {
    interpreter + args_suffix_spec(args, 0)
}

fn args_suffix(args: &Vec<String>, i: usize) -> (r: String)
    requires
        i <= args.len(),
    ensures
        r@ == args_suffix_spec(args.deep_view(), i as int),
    decreases args.len() - i,
{
    if i == args.len() {
        String::new()
    } else {
        let mut s = " ".to_owned();
        s.append(args[i].as_str());
        let rest = args_suffix(args, i + 1);
        s.append(rest.as_str());
        proof {
            assert(s@ =~= args_suffix_spec(args.deep_view(), i as int));
        }
        s
    }
}

/// Builds the exact interpreter invocation shown in the header.
pub fn command_invocation(interpreter: &String, args: &Vec<String>) -> (r: String)
    ensures
        r@ == invocation_spec(interpreter@, args.deep_view()),
{
    let mut s = interpreter.clone();
    let rest = args_suffix(args, 0);
    s.append(rest.as_str());
    s
}

/// One header line describing one environment entry.
pub open spec fn env_line_spec(tok: Seq<char>, e: EnvEntry) -> Seq<char> {
    tok + " env: "@ + e.0 + "="@ + e.1
}

/// The banner line used to open and close the header block.
pub open spec fn banner_spec(tok: Seq<char>) -> Seq<char> {
    tok + " "@
        + "=========================================================================================="@
}

/// The commented header block: banner, generator identity, the exact
/// interpreter invocation, one line per environment entry, and the
/// closing banner.
pub open spec fn header_lines_spec(
    interpreter: Seq<char>,
    invocation: Seq<char>,
    env: Seq<EnvEntry>,
) -> Seq<Seq<char>> {
    let tok = comment_token_spec(interpreter);
    seq![banner_spec(tok), tok + " generated by donkey-make"@, tok + " command: "@ + invocation]
        + env.map_values(|e: EnvEntry| env_line_spec(tok, e)) + seq![banner_spec(tok)]
}

/// The whole temp script file: the header block followed by the script
/// body, one line each, every line newline-terminated.
pub open spec fn script_file_spec(
    interpreter: Seq<char>,
    invocation: Seq<char>,
    env: Seq<EnvEntry>,
    body: Seq<Seq<char>>,
) -> Seq<char> {
    join_lines(header_lines_spec(interpreter, invocation, env) + body)
}

fn comment_token(interpreter: &String) -> (r: &'static str)
    ensures
        r@ == comment_token_spec(interpreter@),
{
    if crate::text::starts_with(interpreter.as_str(), "node") {
        "//"
    } else {
        "#"
    }
}

/// Builds the whole temp script file text for one run: commented header
/// (banner, generator identity, interpreter invocation, environment
/// map, closing banner) followed by the script body.
pub fn script_file_content(
    interpreter: &String,
    invocation: &String,
    env: &EnvMap,
    body: &Vec<String>,
) -> (r: String)
    ensures
        r@ == script_file_spec(interpreter@, invocation@, env@, body.deep_view()),
{
    let tok = comment_token(interpreter);
    let mut lines: Vec<String> = Vec::new();
    let mut banner = tok.to_owned();
    banner.append(" ");
    banner.append(
        "==========================================================================================",
    );
    proof {
        assert(banner@ =~= banner_spec(comment_token_spec(interpreter@)));
    }
    lines.push(banner.clone());
    let mut ident = tok.to_owned();
    ident.append(" generated by donkey-make");
    proof {
        assert(ident@ =~= comment_token_spec(interpreter@) + " generated by donkey-make"@);
    }
    lines.push(ident);
    let mut cmd_line = tok.to_owned();
    cmd_line.append(" command: ");
    cmd_line.append(invocation.as_str());
    proof {
        assert(cmd_line@ =~= comment_token_spec(interpreter@) + " command: "@ + invocation@);
    }
    lines.push(cmd_line);
    let n = env.len();
    let mut i: usize = 0;
    while i < n
        invariant
            i <= n,
            n == env@.len(),
            lines@.len() == 3 + i,
            lines.deep_view().subrange(0, 3) =~= header_lines_spec(
                interpreter@,
                invocation@,
                env@,
            ).subrange(0, 3),
            forall|j: int|
                0 <= j < i ==> lines.deep_view()[3 + j] == env_line_spec(
                    comment_token_spec(interpreter@),
                    env@[j],
                ),
            tok@ == comment_token_spec(interpreter@),
        decreases n - i,
    {
        let entry = env.entry_at(i);
        let mut line = tok.to_owned();
        line.append(" env: ");
        line.append(entry.0.as_str());
        line.append("=");
        line.append(entry.1.as_str());
        proof {
            assert(line@ =~= env_line_spec(comment_token_spec(interpreter@), env@[i as int]));
        }
        lines.push(line);
        i = i + 1;
    }
    lines.push(banner);
    proof {
        let tokv = comment_token_spec(interpreter@);
        let hdr = header_lines_spec(interpreter@, invocation@, env@);
        assert(hdr.len() == 4 + n);
        assert forall|j: int| 0 <= j < 4 + n implies lines.deep_view()[j] == hdr[j] by {
            if j < 3 {
                assert(lines.deep_view().subrange(0, 3)[j] == hdr.subrange(0, 3)[j]);
            } else if j < 3 + n {
                assert(lines.deep_view()[j] == env_line_spec(tokv, env@[j - 3]));
                assert(hdr[j] == env@.map_values(|e: EnvEntry| env_line_spec(tokv, e))[j - 3]);
            } else {
                assert(hdr[j] == banner_spec(tokv));
            }
        }
        assert(lines.deep_view().subrange(0, 4 + n as int) =~= hdr);
    }
    let m = body.len();
    let mut k: usize = 0;
    while k < m
        invariant
            k <= m,
            m == body@.len(),
            lines@.len() == 4 + n + k,
            n == env@.len(),
            lines.deep_view().subrange(0, 4 + n as int) =~= header_lines_spec(
                interpreter@,
                invocation@,
                env@,
            ),
            forall|j: int| 0 <= j < k ==> lines.deep_view()[4 + n + j] == body.deep_view()[j],
        decreases m - k,
    {
        lines.push(body[k].clone());
        k = k + 1;
    }
    proof {
        assert(lines.deep_view() =~= header_lines_spec(interpreter@, invocation@, env@)
            + body.deep_view());
    }
    join(&lines)
}

} // verus!
