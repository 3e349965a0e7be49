//! Commands: an executable name and its arguments, built directly or parsed
//! from shell-quoted lines.
//!
//! Splitting a line into words follows the POSIX shell and is done by the
//! `shlex` crate; the library decides what command, if any, the words make.
use vstd::prelude::*;

verus! {

/// A command with its executable name and argument list.
#[derive(Clone)]
pub struct Command {
    pub command: String,
    pub arguments: Vec<String>,
}

/// A command as a name and a list of arguments.
pub type CommandView = (Seq<char>, Seq<Seq<char>>);

/// The view of a list of strings.
pub open spec fn strings_view(v: Seq<String>) -> Seq<Seq<char>> {
    v.map_values(|s: String| s@)
}

impl Command {
    /// The name and the arguments of the command.
    pub open spec fn view(&self) -> CommandView {
        (self.command@, strings_view(self.arguments@))
    }
}

/// The views of a list of commands.
pub open spec fn commands_view(v: Seq<Command>) -> Seq<CommandView> {
    v.map_values(|c: Command| c.view())
}

/// The words of `line` as a POSIX shell splits them, or `None` if `line` is
/// erroneous (an unmatched quote, a trailing backslash).
pub uninterp spec fn shell_words(line: Seq<char>) -> Option<Seq<Seq<char>>>;

/// `shlex::split`. Claims the named result.
#[verifier::external_body]
fn shell_split(line: &str) -> (r: Option<Vec<String>>)
    ensures
        r is None <==> shell_words(line@) is None,
        r matches Some(w) ==> strings_view(w@) == shell_words(line@)->0,
{
    ::shlex::split(line)
}

/// The command that a list of words makes: the first word names the
/// executable, the others are its arguments; none for no word.
pub open spec fn command_of(words: Seq<Seq<char>>) -> Option<CommandView> {
    if words.len() == 0 {
        None
    } else {
        Some((words[0], words.drop_first()))
    }
}

/// The command that `line` makes, if it splits into at least one word.
pub open spec fn parsed_line(line: Seq<char>) -> Option<CommandView> {
    match shell_words(line) {
        Some(words) => command_of(words),
        None => None,
    }
}

/// The commands that `lines` make, if every line makes one.
pub open spec fn parsed_lines(lines: Seq<Seq<char>>) -> Option<Seq<CommandView>>
    decreases lines.len(),
{
    if lines.len() == 0 {
        Some(Seq::empty())
    } else {
        match (parsed_lines(lines.drop_last()), parsed_line(lines.last())) {
            (Some(cs), Some(c)) => Some(cs.push(c)),
            _ => None,
        }
    }
}

/// A command from an explicit executable name and argument list.
pub fn command(name: String, arguments: Vec<String>) -> (r: Command)
    ensures
        r.command == name,
        r.arguments == arguments,
{
    Command { command: name, arguments }
}

/// The command that split words make: the first names the executable, the
/// rest are its arguments; `None` for no word.
pub fn command_from_words(words: Vec<String>) -> (r: Option<Command>)
    ensures
        match r {
            Some(c) => command_of(strings_view(words@)) == Some(c.view()),
            None => command_of(strings_view(words@)) is None,
        },
{
    if words.len() == 0 {
        return None;
    }
    let mut arguments: Vec<String> = Vec::new();
    let mut i: usize = 1;
    while i < words.len()
        invariant
            1 <= i <= words.len(),
            strings_view(arguments@) == strings_view(words@).subrange(1, i as int),
        decreases words.len() - i,
    {
        let ghost before = arguments@;
        arguments.push(words[i].clone());
        assert(strings_view(arguments@) =~= strings_view(before).push(words@[i as int]@));
        i = i + 1;
        assert(strings_view(arguments@) =~= strings_view(words@).subrange(1, i as int));
    }
    assert(strings_view(words@).drop_first() =~= strings_view(words@).subrange(1, words@.len() as int));
    Some(Command { command: words[0].clone(), arguments })
}

/// Parses a single shell-quoted command line; `None` if `line` cannot be
/// split (an unmatched quote) or holds no word.
pub fn raw_command(line: &str) -> (r: Option<Command>)
    ensures
        match r {
            Some(c) => parsed_line(line@) == Some(c.view()),
            None => parsed_line(line@) is None,
        },
{
    match shell_split(line) {
        Some(words) => command_from_words(words),
        None => None,
    }
}

/// Parses shell-quoted command lines, `None` if any line cannot be split or
/// holds no word.
pub fn checked_raw_commands(lines: &Vec<String>) -> (r: Option<Vec<Command>>)
    ensures
        match r {
            Some(cs) => parsed_lines(strings_view(lines@)) == Some(commands_view(cs@)),
            None => parsed_lines(strings_view(lines@)) is None,
        },
{
    let mut commands: Vec<Command> = Vec::new();
    let mut i: usize = 0;
    while i < lines.len()
        invariant
            i <= lines.len(),
            parsed_lines(strings_view(lines@).subrange(0, i as int)) == Some(commands_view(commands@)),
        decreases lines.len() - i,
    {
        let ghost prefix = strings_view(lines@).subrange(0, i + 1);
        assert(prefix.drop_last() =~= strings_view(lines@).subrange(0, i as int));
        assert(prefix.last() == lines@[i as int]@);
        match raw_command(lines[i].as_str()) {
            Some(c) => {
                let ghost before = commands@;
                commands.push(c);
                assert(commands_view(commands@) =~= commands_view(before).push(c.view()));
            },
            None => {
                proof {
                    lemma_parsed_lines_prefix_fails(strings_view(lines@), i + 1);
                }
                return None;
            },
        }
        i = i + 1;
    }
    assert(strings_view(lines@).subrange(0, lines@.len() as int) =~= strings_view(lines@));
    Some(commands)
}

/// Parses shell-quoted command lines; the empty list if any line cannot be
/// split or holds no word.
pub fn raw_commands(lines: &Vec<String>) -> (r: Vec<Command>)
    ensures
        commands_view(r@) == match parsed_lines(strings_view(lines@)) {
            Some(cs) => cs,
            None => Seq::empty(),
        },
{
    match checked_raw_commands(lines) {
        Some(cs) => cs,
        None => {
            let r: Vec<Command> = Vec::new();
            assert(commands_view(r@) =~= Seq::empty());
            r
        },
    }
}

/// Where a prefix of the lines makes no list of commands, the whole does
/// not either.
proof fn lemma_parsed_lines_prefix_fails(lines: Seq<Seq<char>>, n: int)
    requires
        0 <= n <= lines.len(),
        parsed_lines(lines.subrange(0, n)) is None,
    ensures
        parsed_lines(lines) is None,
    decreases lines.len() - n,
{
    if n < lines.len() {
        assert(lines.subrange(0, n + 1).drop_last() =~= lines.subrange(0, n));
        lemma_parsed_lines_prefix_fails(lines, n + 1);
    } else {
        assert(lines.subrange(0, n) =~= lines);
    }
}

} // verus!
