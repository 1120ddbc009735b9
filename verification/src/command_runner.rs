//! What the library decides about a finished external command: its failure reports and
//! the text that goes into them. Spawning the process is the caller's part.

use vstd::prelude::*;
use crate::decimal::{push_signed_decimal, signed_decimal};
use crate::strings::{is_ws, to_chars, trim, trim_bounds};
use vstd::string::StringExecFns;

verus! {

/// Why an external command did not produce usable output.
#[derive(Debug, Clone)]
pub enum CommandError {
    /// The process could not be started; `source` is the operating system's message.
    Spawn { cmd: String, source: String },
    /// The process was killed by a signal.
    Signal { cmd: String, detail: String },
    /// The process exited with a code that the caller counts as a failure.
    Exit { cmd: String, code: i32, detail: String },
}

/// What `String::from_utf8_lossy` makes of `bytes`.
pub uninterp spec fn utf8_lossy(bytes: Seq<u8>) -> Seq<char>;

/// `String::from_utf8_lossy(bytes)`: valid UTF-8 is decoded as is; the result is
/// otherwise the named value `utf8_lossy(bytes)` (invalid sequences become U+FFFD).
#[verifier::external_body]
pub(crate) fn from_utf8_lossy(bytes: &[u8]) -> (s: String)
    ensures
        s@ == utf8_lossy(bytes@),
        vstd::utf8::valid_utf8(bytes@) ==> s@ == vstd::utf8::decode_utf8(bytes@),
{
    String::from_utf8_lossy(bytes).into_owned()
}

/// The message of the error that `String::from_utf8` reports for `bytes`.
pub uninterp spec fn utf8_error_text(bytes: Seq<u8>) -> Seq<char>;

/// `String::from_utf8(bytes)`, with the error turned into its message: `Ok` exactly on
/// valid UTF-8, holding the decoded text.
#[verifier::external_body]
pub(crate) fn string_from_utf8(bytes: Vec<u8>) -> (r: Result<String, String>)
    ensures
        r is Ok <==> vstd::utf8::valid_utf8(bytes@),
        r matches Ok(s) ==> s@ == vstd::utf8::decode_utf8(bytes@),
        r matches Err(m) ==> m@ == utf8_error_text(bytes@),
{
    String::from_utf8(bytes).map_err(|e| e.to_string())
}

/// `args` joined with single spaces.
pub open spec fn join_spaces(args: Seq<Seq<char>>) -> Seq<char>
    decreases args.len(),
{
    if args.len() == 0 {
        Seq::empty()
    } else if args.len() == 1 {
        args[0]
    } else {
        join_spaces(args.drop_last()) + seq![' '] + args.last()
    }
}

pub open spec fn arg_views(args: Seq<&str>) -> Seq<Seq<char>> {
    args.map_values(|a: &str| a@)
}

/// The command line as it is shown in messages: the program, a space, then the
/// arguments joined with spaces.
pub open spec fn spec_command_line(command: Seq<char>, args: Seq<Seq<char>>) -> Seq<char> {
    command + seq![' '] + join_spaces(args)
}

pub fn command_line(command: &str, arguments: &[&str]) -> (s: String)
    ensures
        s@ == spec_command_line(command@, arg_views(arguments@)),
{
    proof {
        reveal_strlit(" ");
    }
    let mut s = String::from_str(command);
    s.append(" ");
    let mut i: usize = 0;
    assert(arg_views(arguments@.take(0)) =~= Seq::<Seq<char>>::empty());
    while i < arguments.len()
        invariant
            i <= arguments@.len(),
            s@ == command@ + seq![' '] + join_spaces(arg_views(arguments@.take(i as int))),
        decreases arguments@.len() - i,
    {
        let ghost before = s@;
        proof {
            reveal_strlit(" ");
        }
        if i > 0 {
            s.append(" ");
        }
        s.append(arguments[i]);
        let ghost a = arg_views(arguments@.take(i + 1));
        assert(a.drop_last() =~= arg_views(arguments@.take(i as int)));
        assert(a.last() == arguments@[i as int]@);
        if i == 0 {
            assert(a =~= seq![arguments@[0]@]);
        }
        i += 1;
        assert(s@ =~= command@ + seq![' '] + join_spaces(arg_views(arguments@.take(i as int))));
    }
    assert(arguments@.take(arguments@.len() as int) =~= arguments@);
    s
}

/// `stderr` as text, or `fallback` when that text is blank.
pub open spec fn spec_stderr_or(stderr: Seq<u8>, fallback: Seq<char>) -> Seq<char> {
    if trim(utf8_lossy(stderr)).len() == 0 {
        fallback
    } else {
        utf8_lossy(stderr)
    }
}

pub fn stderr_or(stderr: &[u8], fallback: &str) -> (s: String)
    ensures
        s@ == spec_stderr_or(stderr@, fallback@),
{
    let text = from_utf8_lossy(stderr);
    let chars = to_chars(text.as_str());
    let (a, b) = trim_bounds(&chars, 0, chars.len());
    assert(chars@.subrange(0, chars@.len() as int) =~= chars@);
    if a == b {
        String::from_str(fallback)
    } else {
        text
    }
}

/// The outcome of a finished command. `code` is its exit code (`None` when a signal
/// ended it) and `failed` whether the caller counts that code as a failure.
pub open spec fn exit_outcome_ok(code: Option<i32>, failed: bool) -> bool {
    code is Some && !failed
}

/// The usual reading of an exit code: anything but zero is a failure.
pub fn exit_failed(code: i32) -> (b: bool)
    ensures
        b == (code != 0),
{
    code != 0
}

/// Turns a finished command into its output or the error that describes it.
pub fn check_exit(
    cmd: String,
    code: Option<i32>,
    failed: bool,
    stdout: Vec<u8>,
    stderr: Vec<u8>,
) -> (r: Result<Vec<u8>, CommandError>)
    ensures
        r is Ok <==> exit_outcome_ok(code, failed),
        r matches Ok(out) ==> out@ == stdout@,
        code is None ==> (r matches Err(CommandError::Signal { cmd: c, detail }) && c == cmd
            && detail@ == spec_stderr_or(stderr@, "process terminated by signal"@)),
        code matches Some(k) ==> (failed ==> (r matches Err(
            CommandError::Exit { cmd: c, code: k2, detail },
        ) && c == cmd && k2 == k && detail@ == spec_stderr_or(stderr@, utf8_lossy(stdout@)))),
{
    match code {
        None => {
            let detail = stderr_or(stderr.as_slice(), "process terminated by signal");
            Err(CommandError::Signal { cmd, detail })
        },
        Some(k) => {
            if failed {
                let out = from_utf8_lossy(stdout.as_slice());
                let detail = stderr_or(stderr.as_slice(), out.as_str());
                Err(CommandError::Exit { cmd, code: k, detail })
            } else {
                Ok(stdout)
            }
        },
    }
}

impl CommandError {
    /// The error's message.
    pub open spec fn spec_message(&self) -> Seq<char> {
        match self {
            CommandError::Spawn { cmd, source } => "failed to run `"@ + cmd@ + "`: "@ + source@,
            CommandError::Signal { cmd, detail } => "`"@ + cmd@ + "` terminated by signal: "@
                + detail@,
            CommandError::Exit { cmd, code, detail } => "`"@ + cmd@ + "` failed (exit "@
                + signed_decimal(*code as int) + "): "@ + detail@,
        }
    }

    pub fn message(&self) -> (s: String)
        ensures
            s@ == self.spec_message(),
    {
        match self {
            CommandError::Spawn { cmd, source } => {
                let mut s = String::from_str("failed to run `");
                s.append(cmd.as_str());
                s.append("`: ");
                s.append(source.as_str());
                s
            },
            CommandError::Signal { cmd, detail } => {
                let mut s = String::from_str("`");
                s.append(cmd.as_str());
                s.append("` terminated by signal: ");
                s.append(detail.as_str());
                s
            },
            CommandError::Exit { cmd, code, detail } => {
                let mut s = String::from_str("`");
                s.append(cmd.as_str());
                s.append("` failed (exit ");
                push_signed_decimal(&mut s, *code as i64);
                s.append("): ");
                s.append(detail.as_str());
                s
            },
        }
    }
}

} // verus!
