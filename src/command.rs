//! Turns one line read from the terminal into the command to run: the line
//! is split into words as the Bourne shell splits them, and the first word
//! picks a builtin or an external pipeline.

use vstd::prelude::*;
use vstd::string::*;

use crate::text::{opt_view, same_text, views};

verus! {

#[verifier::external_type_specification]
#[verifier::external_body]
pub struct ExMismatchedQuotes(shellwords::MismatchedQuotes);

/// The words of a line as the Bourne shell splits them, or `None` where a
/// quote is left open.
pub uninterp spec fn shell_words_of(line: Seq<char>) -> Option<Seq<Seq<char>>>;

/// Relies on `shellwords::split`: the words of `line` with quotes and
/// backslashes interpreted, or `MismatchedQuotes` where a quoted string has
/// no closing quote. The result depends on the line alone; a line with no
/// character has no word.
#[verifier::external_body]
fn shell_split(line: &str) -> (r: Result<Vec<String>, shellwords::MismatchedQuotes>)
    ensures
        r is Ok <==> shell_words_of(line@) is Some,
        r is Ok ==> views(r->Ok_0@) == shell_words_of(line@)->Some_0,
        line@.len() == 0 ==> r is Ok && r->Ok_0@.len() == 0,
{
    shellwords::split(line)
}

/// Why a line could not be split into words.
#[derive(PartialEq, Eq, Structural, Clone, Copy, Debug)]
pub enum LineError {
    /// A quoted string has no closing quote.
    MismatchedQuotes,
}

/// The builtin commands, and the rest.
#[derive(PartialEq, Eq, Structural, Clone, Copy, Debug)]
pub enum CommandKind {
    List,
    ChangeDir,
    Echo,
    Clear,
    Read,
    Config,
    Exit,
    External,
}

/// The kind of command that the word `w` names.
pub open spec fn kind_spec(w: Seq<char>) -> CommandKind {
    if w == seq!['l', 's'] {
        CommandKind::List
    } else if w == seq!['c', 'd'] {
        CommandKind::ChangeDir
    } else if w == seq!['e', 'c', 'h', 'o'] {
        CommandKind::Echo
    } else if w == seq!['c', 'l', 'e', 'a', 'r'] {
        CommandKind::Clear
    } else if w == seq!['r', 'e', 'a', 'd'] {
        CommandKind::Read
    } else if w == seq!['c', 'o', 'n', 'f', 'i', 'g'] {
        CommandKind::Config
    } else if w == seq!['e', 'x', 'i', 't'] {
        CommandKind::Exit
    } else {
        CommandKind::External
    }
}

/// The words `ws` joined by single spaces.
pub open spec fn join_spec(ws: Seq<Seq<char>>) -> Seq<char>
    decreases ws.len(),
{
    if ws.len() == 0 {
        Seq::empty()
    } else if ws.len() == 1 {
        ws[0]
    } else {
        join_spec(ws.drop_last()) + seq![' '] + ws.last()
    }
}

/// A command read from the terminal.
pub enum Command {
    /// No word: nothing to do.
    Nothing,
    /// `ls`, with all the words of the line.
    List(Vec<String>),
    /// `cd`, with the target directory if one was given.
    ChangeDir(Option<String>),
    /// `echo`: the text to print.
    Echo(String),
    /// `clear`.
    Clear,
    /// `read`, with all the words of the line.
    Read(Vec<String>),
    /// `config`, with all the words of the line.
    Config(Vec<String>),
    /// `exit`.
    Exit,
    /// Anything else: the words joined by spaces, to be parsed as statements.
    External(String),
}

/// The command for the words `ws`.
pub open spec fn command_spec(ws: Seq<Seq<char>>, c: Command) -> bool {
    if ws.len() == 0 {
        c is Nothing
    } else {
        match kind_spec(ws[0]) {
            CommandKind::List => c matches Command::List(v) && views(v@) == ws,
            CommandKind::ChangeDir => c matches Command::ChangeDir(d) && opt_view(d) == (if ws.len()
                >= 2 {
                Some(ws[1])
            } else {
                None
            }),
            CommandKind::Echo => c matches Command::Echo(t) && t@ == join_spec(ws.drop_first()),
            CommandKind::Clear => c is Clear,
            CommandKind::Read => c matches Command::Read(v) && views(v@) == ws,
            CommandKind::Config => c matches Command::Config(v) && views(v@) == ws,
            CommandKind::Exit => c is Exit,
            CommandKind::External => c matches Command::External(t) && t@ == join_spec(ws),
        }
    }
}

/// The kind of command that the word `w` names.
pub fn command_kind(w: &str) -> (r: CommandKind)
    ensures
        r == kind_spec(w@),
{
    proof {
        reveal_strlit("ls");
        reveal_strlit("cd");
        reveal_strlit("echo");
        reveal_strlit("clear");
        reveal_strlit("read");
        reveal_strlit("config");
        reveal_strlit("exit");
        assert("ls"@ =~= seq!['l', 's']);
        assert("cd"@ =~= seq!['c', 'd']);
        assert("echo"@ =~= seq!['e', 'c', 'h', 'o']);
        assert("clear"@ =~= seq!['c', 'l', 'e', 'a', 'r']);
        assert("read"@ =~= seq!['r', 'e', 'a', 'd']);
        assert("config"@ =~= seq!['c', 'o', 'n', 'f', 'i', 'g']);
        assert("exit"@ =~= seq!['e', 'x', 'i', 't']);
    }
    if same_text(w, "ls") {
        CommandKind::List
    } else if same_text(w, "cd") {
        CommandKind::ChangeDir
    } else if same_text(w, "echo") {
        CommandKind::Echo
    } else if same_text(w, "clear") {
        CommandKind::Clear
    } else if same_text(w, "read") {
        CommandKind::Read
    } else if same_text(w, "config") {
        CommandKind::Config
    } else if same_text(w, "exit") {
        CommandKind::Exit
    } else {
        CommandKind::External
    }
}

/// Joins `ws[from..]` with single spaces.
pub fn join_words(ws: &Vec<String>, from: usize) -> (r: String)
    requires
        from <= ws@.len(),
    ensures
        r@ == join_spec(views(ws@).subrange(from as int, ws@.len() as int)),
{
    let mut out = String::new();
    let mut i: usize = from;
    proof {
        assert(views(ws@).subrange(from as int, from as int) =~= Seq::<Seq<char>>::empty());
        reveal_strlit(" ");
    }
    while i < ws.len()
        invariant
            from <= i <= ws@.len(),
            out@ == join_spec(views(ws@).subrange(from as int, i as int)),
        decreases ws@.len() - i,
    {
        let ghost pre = views(ws@).subrange(from as int, i as int);
        let ghost cur = views(ws@).subrange(from as int, i + 1);
        proof {
            assert(cur.drop_last() =~= pre);
            assert(cur.last() == ws@[i as int]@);
        }
        if i > from {
            out.append(" ");
            proof {
                reveal_strlit(" ");
            }
        }
        out.append(ws[i].as_str());
        proof {
            if i == from {
                assert(pre.len() == 0);
                assert(out@ =~= cur[0]);
            } else {
                assert(out@ =~= join_spec(pre) + seq![' '] + cur.last());
            }
        }
        i = i + 1;
    }
    out
}

/// The command for the words of a line.
pub fn classify(ws: Vec<String>) -> (r: Command)
    ensures
        command_spec(views(ws@), r),
{
    if ws.len() == 0 {
        return Command::Nothing;
    }
    let kind = command_kind(ws[0].as_str());
    proof {
        assert(views(ws@).subrange(0, ws@.len() as int) =~= views(ws@));
        assert(views(ws@).subrange(1, ws@.len() as int) =~= views(ws@).drop_first());
    }
    match kind {
        CommandKind::List => Command::List(ws),
        CommandKind::ChangeDir => {
            if ws.len() >= 2 {
                Command::ChangeDir(Some(ws[1].clone()))
            } else {
                Command::ChangeDir(None)
            }
        },
        CommandKind::Echo => Command::Echo(join_words(&ws, 1)),
        CommandKind::Clear => Command::Clear,
        CommandKind::Read => Command::Read(ws),
        CommandKind::Config => Command::Config(ws),
        CommandKind::Exit => Command::Exit,
        CommandKind::External => Command::External(join_words(&ws, 0)),
    }
}

/// Reads the command in a line: splits it into shell words, then picks the
/// command by its first word.
pub fn read_command(line: &str) -> (r: Result<Command, LineError>)
    ensures
        r is Err <==> shell_words_of(line@) is None,
        r is Err ==> r == Err::<Command, LineError>(LineError::MismatchedQuotes),
        r is Ok ==> command_spec(shell_words_of(line@)->Some_0, r->Ok_0),
{
    match shell_split(line) {
        Ok(ws) => Ok(classify(ws)),
        Err(_) => Err(LineError::MismatchedQuotes),
    }
}

/// The prompt shown in the directory `cwd`.
pub fn prompt_for(cwd: &str) -> (r: String)
    ensures
        r@ == cwd@ + seq![' ', '>', '>', ' '],
{
    proof {
        reveal_strlit(" >> ");
    }
    let r = cwd.to_owned().concat(" >> ");
    proof {
        assert(" >> "@ =~= seq![' ', '>', '>', ' ']);
    }
    r
}

} // verus!
