//! The command line: what the arguments ask for, and the password piped in
//! on standard input.

use vstd::prelude::*;

use crate::input::secret_pop;
use crate::text::{chars_of, push_str, wipe_chars};

verus! {

/// What the program is asked to do.
#[derive(Clone, Copy, PartialEq, Eq, Debug, Structural)]
pub enum Command {
    Help,
    Version,
    /// Run the interface, in slim mode when `true`.
    Tui(bool),
}

/// Whether an argument asks for the help text.
pub open spec fn asks_help(a: Seq<char>) -> bool {
    a == "help"@ || a == "-h"@ || a == "--help"@
}

/// Whether an argument asks for the version.
pub open spec fn asks_version(a: Seq<char>) -> bool {
    a == "version"@ || a == "-V"@ || a == "--version"@
}

/// Whether an argument asks for slim mode.
pub open spec fn asks_slim(a: Seq<char>) -> bool {
    a == "slim"@ || a == "-s"@ || a == "--slim"@
}

/// The arguments joined with single spaces.
pub open spec fn joined(args: Seq<Seq<char>>) -> Seq<char>
    decreases args.len(),
{
    if args.len() == 0 {
        Seq::empty()
    } else if args.len() == 1 {
        args[0]
    } else {
        joined(args.drop_last()) + seq![' '] + args.last()
    }
}

/// The characters of each argument.
pub open spec fn arg_views(args: Seq<String>) -> Seq<Seq<char>> {
    args.map_values(|a: String| a@)
}

/// What the arguments ask for: nothing runs the interface; a first
/// argument may ask for help or the version, whatever follows it; a lone
/// slim argument runs the slim interface; anything else is refused.
pub open spec fn command_for(args: Seq<Seq<char>>) -> Result<Command, Seq<char>> {
    if args.len() == 0 {
        Ok(Command::Tui(false))
    } else if asks_help(args[0]) {
        Ok(Command::Help)
    } else if asks_version(args[0]) {
        Ok(Command::Version)
    } else if args.len() == 1 && asks_slim(args[0]) {
        Ok(Command::Tui(true))
    } else {
        Err("invalid argument(s): "@ + joined(args))
    }
}

/// Whether `a` holds exactly the characters of one of `x`, `y` and `z`.
fn is_one_of(a: &String, x: &str, y: &str, z: &str) -> (r: bool)
    ensures
        r == (a@ == x@ || a@ == y@ || a@ == z@),
{
    *a == x.to_owned() || *a == y.to_owned() || *a == z.to_owned()
}

/// The arguments joined with single spaces.
fn join_args(args: &Vec<String>) -> (r: String)
    ensures
        r@ == joined(arg_views(args@)),
{
    let mut r = String::new();
    let mut i: usize = 0;
    while i < args.len()
        invariant
            i <= args@.len(),
            r@ == joined(arg_views(args@).take(i as int)),
        decreases args@.len() - i,
    {
        let ghost before = arg_views(args@).take(i as int);
        let ghost after = arg_views(args@).take(i as int + 1);
        assert(after.drop_last() == before);
        assert(after.last() == args@[i as int]@);
        if i > 0 {
            r.push(' ');
        }
        push_str(&mut r, args[i].as_str());
        proof {
            if i == 0 {
                assert(r@ == after[0]);
            } else {
                assert(r@ == joined(before) + seq![' '] + after.last());
            }
        }
        i = i + 1;
    }
    assert(arg_views(args@).take(args@.len() as int) == arg_views(args@));
    r
}

/// Reads what the command-line arguments ask for.
pub fn parse_args(args: &Vec<String>) -> (r: Result<Command, String>)
    ensures
        match (r, command_for(arg_views(args@))) {
            (Ok(c), Ok(d)) => c == d,
            (Err(e), Err(f)) => e@ == f,
            _ => false,
        },
{
    let ghost views = arg_views(args@);
    if args.len() == 0 {
        return Ok(Command::Tui(false));
    }
    assert(views[0] == args@[0]@);
    if is_one_of(&args[0], "help", "-h", "--help") {
        return Ok(Command::Help);
    }
    if is_one_of(&args[0], "version", "-V", "--version") {
        return Ok(Command::Version);
    }
    if args.len() == 1 && is_one_of(&args[0], "slim", "-s", "--slim") {
        return Ok(Command::Tui(true));
    }
    let mut message = String::new();
    push_str(&mut message, "invalid argument(s): ");
    let joined_args = join_args(args);
    push_str(&mut message, joined_args.as_str());
    Err(message)
}

/// A line read from standard input without its line ending: a final
/// `\n`, and a `\r` before it.
pub open spec fn without_line_ending(s: Seq<char>) -> Seq<char> {
    if s.len() > 0 && s.last() == '\n' {
        let t = s.drop_last();
        if t.len() > 0 && t.last() == '\r' {
            t.drop_last()
        } else {
            t
        }
    } else {
        s
    }
}

/// Whether the last character of `s` is `c`.
fn ends_with_char(s: &String, c: char) -> (r: bool)
    ensures
        r == (s@.len() > 0 && s@.last() == c),
{
    let mut chars = chars_of(s.as_str());
    let n = chars.len();
    let r = n > 0 && chars[n - 1] == c;
    wipe_chars(&mut chars);
    r
}

/// Strips the line ending from a password read from standard input,
/// wiping what is removed.
pub fn strip_line_ending(password: &mut String)
    ensures
        final(password)@ == without_line_ending(old(password)@),
{
    if ends_with_char(password, '\n') {
        secret_pop(password);
        if ends_with_char(password, '\r') {
            secret_pop(password);
        }
    }
}

} // verus!
