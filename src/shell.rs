//! Commands of the kernel's interactive shell and the parsing of a typed line.
use vstd::prelude::*;

verus! {

/// Message of a line whose first word names no command.
pub const UNKNOWN_COMMAND: &'static str = "Unknown command. Type 'help' for available commands.";
/// Message of a non-blank line in which no word is found.
pub const NO_COMMAND: &'static str = "No command";

#[derive(Clone, Copy, Debug, PartialEq, Eq)]
pub enum Command<'a> {
    Empty,
    Help,
    Clear,
    Echo(&'a str),
    Version,
    MemInfo,
    Halt,
}

/// The text with leading and trailing whitespace removed, as `str::trim` gives it.
pub uninterp spec fn trim_of(s: Seq<char>) -> Seq<char>;

/// The first whitespace-separated word of the text, as the first item of
/// `str::split_whitespace` gives it.
pub uninterp spec fn first_word_of(s: Seq<char>) -> Option<Seq<char>>;

/// Relies on `str::trim`: leading and trailing whitespace removed.
#[verifier::external_body]
fn trim(s: &str) -> (r: &str)
    ensures
        r@ == trim_of(s@),
{
    s.trim()
}

/// Relies on `str::split_whitespace`: its first item.
#[verifier::external_body]
fn first_word(s: &str) -> (r: Option<&str>)
    ensures
        r is Some <==> first_word_of(s@) is Some,
        r matches Some(w) ==> first_word_of(s@) == Some(w@),
{
    s.split_whitespace().next()
}

/// Relies on `str::strip_prefix`: the rest of `s` after `prefix`, when `s`
/// starts with it.
#[verifier::external_body]
fn strip_prefix<'a>(s: &'a str, prefix: &str) -> (r: Option<&'a str>)
    ensures
        r is Some <==> prefix@.is_prefix_of(s@),
        r matches Some(rest) ==> rest@ == s@.skip(prefix@.len() as int),
{
    s.strip_prefix(prefix)
}

/// Relies on `==` on `str`: the same characters.
#[verifier::external_body]
fn same_text(a: &str, b: &str) -> (r: bool)
    ensures
        r == (a@ == b@),
{
    a == b
}

/// The command that `word` names, with `text` as the argument of `echo`.
pub open spec fn command_named<'a>(word: Seq<char>, text: &'a str) -> Result<Command<'a>, &'static str> {
    if word == "help"@ {
        Ok(Command::Help)
    } else if word == "clear"@ {
        Ok(Command::Clear)
    } else if word == "version"@ {
        Ok(Command::Version)
    } else if word == "halt"@ {
        Ok(Command::Halt)
    } else if word == "meminfo"@ {
        Ok(Command::MemInfo)
    } else if word == "echo"@ {
        Ok(Command::Echo(text))
    } else {
        Err(UNKNOWN_COMMAND)
    }
}

/// The command that `word` names, with `text` as the argument of `echo`;
/// an error for any other word.
pub fn command_for_word<'a>(word: &str, text: &'a str) -> (r: Result<Command<'a>, &'static str>)
    ensures
        r == command_named(word@, text),
{
    if same_text(word, "help") {
        Ok(Command::Help)
    } else if same_text(word, "clear") {
        Ok(Command::Clear)
    } else if same_text(word, "version") {
        Ok(Command::Version)
    } else if same_text(word, "halt") {
        Ok(Command::Halt)
    } else if same_text(word, "meminfo") {
        Ok(Command::MemInfo)
    } else if same_text(word, "echo") {
        Ok(Command::Echo(text))
    } else {
        Err(UNKNOWN_COMMAND)
    }
}

/// The argument text of `echo` in the trimmed line `line`: what follows the
/// word, trimmed.
pub open spec fn echo_text_of(line: Seq<char>) -> Seq<char> {
    if "echo"@.is_prefix_of(line) {
        trim_of(line.skip(4))
    } else {
        trim_of(Seq::empty())
    }
}

/// Parses a typed line: a blank line is `Empty`; otherwise its first word
/// names the command, and `echo` takes the rest of the line, trimmed.
pub fn parse(input: &str) -> (r: Result<Command<'_>, &'static str>)
    ensures
        trim_of(input@).len() == 0 ==> r == Ok::<Command, &str>(Command::Empty),
        trim_of(input@).len() > 0 && first_word_of(trim_of(input@)) is None ==> r == Err::<
            Command,
            &str,
        >(NO_COMMAND),
        trim_of(input@).len() > 0 && first_word_of(trim_of(input@)) is Some ==> exists|text: &str|
            r == command_named(first_word_of(trim_of(input@))->0, text),
        trim_of(input@).len() > 0 ==> (r matches Ok(Command::Echo(text)) ==> text@ == echo_text_of(
            trim_of(input@),
        )),
{
    let line = trim(input);
    if line.is_empty() {
        return Ok(Command::Empty);
    }
    let cmd = match first_word(line) {
        Some(w) => w,
        None => {
            return Err(NO_COMMAND);
        },
    };
    let rest = match strip_prefix(line, "echo") {
        Some(rest) => rest,
        None => "",
    };
    let text = trim(rest);
    let r = command_for_word(cmd, text);
    proof {
        reveal_strlit("echo");
        reveal_strlit("");
        assert(rest@ == if "echo"@.is_prefix_of(line@) {
            line@.skip(4)
        } else {
            Seq::<char>::empty()
        });
        assert(text@ == echo_text_of(line@));
        assert(first_word_of(trim_of(input@))->0 == cmd@);
    }
    r
}

/// Longest line the shell accepts, in characters.
pub const MAX_LINE_LENGTH: usize = 128;

/// What the shell shows in answer to a key while a line is typed.
#[derive(Clone, Copy, Debug, PartialEq, Eq, Structural)]
pub enum KeyAction {
    /// The line is complete.
    Submit,
    /// Show the character, now at the end of the line.
    Echo(char),
    /// Rub out this many characters before the cursor.
    Erase(usize),
    /// Nothing to show.
    Ignore,
}

/// Whether the shell keeps `c` in a line: printable ASCII or a space.
pub open spec fn is_line_char(c: char) -> bool {
    '!' <= c <= '~' || c == ' '
}

/// The line being typed at the shell's prompt.
pub struct LineEditor {
    line: Vec<u8>,
}

impl LineEditor {
    /// The characters typed so far, as ASCII bytes.
    pub closed spec fn text(&self) -> Seq<u8> {
        self.line@
    }

    pub fn new() -> (r: Self)
        ensures
            r.text() == Seq::<u8>::empty(),
    {
        LineEditor { line: Vec::new() }
    }

    /// Takes one key: enter completes the line; backspace removes the last
    /// character; escape removes them all; a printable character or space is
    /// added while the line is shorter than the limit; other keys, tab among
    /// them, change nothing.
    pub fn key(&mut self, c: char) -> (r: KeyAction)
        requires
            old(self).text().len() <= MAX_LINE_LENGTH,
        ensures
            final(self).text().len() <= MAX_LINE_LENGTH,
            c == '\n' ==> r == KeyAction::Submit && final(self).text() == old(self).text(),
            c == '\x08' ==> if old(self).text().len() > 0 {
                r == KeyAction::Erase(1) && final(self).text() == old(self).text().drop_last()
            } else {
                r == KeyAction::Ignore && final(self).text() == old(self).text()
            },
            c == '\x1B' ==> r == KeyAction::Erase(old(self).text().len() as usize)
                && final(self).text() == Seq::<u8>::empty(),
            is_line_char(c) ==> if old(self).text().len() < MAX_LINE_LENGTH {
                r == KeyAction::Echo(c) && final(self).text() == old(self).text().push(c as u8)
            } else {
                r == KeyAction::Ignore && final(self).text() == old(self).text()
            },
            !(c == '\n' || c == '\x08' || c == '\x1B' || is_line_char(c)) ==> r == KeyAction::Ignore
                && final(self).text() == old(self).text(),
    {
        if c == '\n' {
            KeyAction::Submit
        } else if c == '\x08' {
            match self.line.pop() {
                Some(_) => KeyAction::Erase(1),
                None => KeyAction::Ignore,
            }
        } else if c == '\x1B' {
            let n = self.line.len();
            self.line.clear();
            KeyAction::Erase(n)
        } else if ('!' <= c && c <= '~') || c == ' ' {
            if self.line.len() < MAX_LINE_LENGTH {
                self.line.push(c as u8);
                KeyAction::Echo(c)
            } else {
                KeyAction::Ignore
            }
        } else {
            KeyAction::Ignore
        }
    }

    /// Hands out the typed line and starts an empty one.
    pub fn take_line(&mut self) -> (r: Vec<u8>)
        ensures
            r@ == old(self).text(),
            final(self).text() == Seq::<u8>::empty(),
    {
        let mut line: Vec<u8> = Vec::new();
        std::mem::swap(&mut line, &mut self.line);
        line
    }
}

} // verus!
