use vstd::prelude::*;
use vstd::string::StrSliceExecFns;
use vstd::string::StringExecFns;

verus! {

/// A textual command submitted from the command bar: quit the program, go
/// back or forward in history, open an address, an unrecognized word, or
/// nothing at all.
#[derive(Debug)]
pub enum Command {
    Quit,
    Back,
    Forward,
    Open(String),
    Unknown(String),
    Nothing,
}

/// The mathematical value of a `Command`.
pub enum CommandView {
    Quit,
    Back,
    Forward,
    Open(Seq<char>),
    Unknown(Seq<char>),
    Nothing,
}

impl View for Command {
    type V = CommandView;

    open spec fn view(&self) -> CommandView {
        match self {
            Command::Quit => CommandView::Quit,
            Command::Back => CommandView::Back,
            Command::Forward => CommandView::Forward,
            Command::Open(a) => CommandView::Open(a@),
            Command::Unknown(t) => CommandView::Unknown(t@),
            Command::Nothing => CommandView::Nothing,
        }
    }
}

/// Whitespace that separates command words.
pub open spec fn is_space(c: char) -> bool {
    c == ' ' || c == '\t' || c == '\n' || c == '\r'
}

/// First position at or after `i` that does not hold whitespace.
pub open spec fn skip_spaces(s: Seq<char>, i: int) -> int
    decreases s.len() - i,
{
    if i < 0 || i >= s.len() {
        i
    } else if is_space(s[i]) {
        skip_spaces(s, i + 1)
    } else {
        i
    }
}

/// First position at or after `i` that ends the word starting there.
pub open spec fn token_end(s: Seq<char>, i: int) -> int
    decreases s.len() - i,
{
    if i < 0 || i >= s.len() {
        i
    } else if is_space(s[i]) {
        i
    } else {
        token_end(s, i + 1)
    }
}

proof fn lemma_skip_spaces_bounds(s: Seq<char>, i: int)
    requires
        0 <= i <= s.len(),
    ensures
        i <= skip_spaces(s, i) <= s.len(),
    decreases s.len() - i,
{
    if i < s.len() && is_space(s[i]) {
        lemma_skip_spaces_bounds(s, i + 1);
    }
}

proof fn lemma_token_end_bounds(s: Seq<char>, i: int)
    requires
        0 <= i <= s.len(),
    ensures
        i <= token_end(s, i) <= s.len(),
    decreases s.len() - i,
{
    if i < s.len() && !is_space(s[i]) {
        lemma_token_end_bounds(s, i + 1);
    }
}

/// How the command bar reads its buffer: the first whitespace-separated
/// word picks the command, and for `url` the second word is the address
/// to open.  An empty buffer, or `url` without an address, asks nothing.
pub open spec fn parse_cmd_spec(s: Seq<char>) -> CommandView {
    let a = skip_spaces(s, 0);
    if a >= s.len() {
        CommandView::Nothing
    } else {
        let b = token_end(s, a);
        let tok = s.subrange(a, b);
        if tok == "q"@ || tok == "quit"@ {
            CommandView::Quit
        } else if tok == "b"@ || tok == "back"@ {
            CommandView::Back
        } else if tok == "f"@ || tok == "front"@ {
            CommandView::Forward
        } else if tok == "url"@ {
            let c = skip_spaces(s, b);
            if c >= s.len() {
                CommandView::Nothing
            } else {
                CommandView::Open(s.subrange(c, token_end(s, c)))
            }
        } else {
            CommandView::Unknown(tok)
        }
    }
}

fn skip_ws(s: &str, i: usize, len: usize) -> (r: usize)
    requires
        i <= len,
        len as int == s@.len(),
    ensures
        i <= r <= len,
        r as int == skip_spaces(s@, i as int),
    decreases len - i,
{
    if i >= len {
        return i;
    }
    let c = s.get_char(i);
    if c == ' ' || c == '\t' || c == '\n' || c == '\r' {
        skip_ws(s, i + 1, len)
    } else {
        i
    }
}

fn token_end_x(s: &str, i: usize, len: usize) -> (r: usize)
    requires
        i <= len,
        len as int == s@.len(),
    ensures
        i <= r <= len,
        r as int == token_end(s@, i as int),
    decreases len - i,
{
    if i >= len {
        return i;
    }
    let c = s.get_char(i);
    if c == ' ' || c == '\t' || c == '\n' || c == '\r' {
        i
    } else {
        token_end_x(s, i + 1, len)
    }
}

fn str_eq(a: &str, b: &str) -> (r: bool)
    ensures
        r == (a@ == b@),
{
    let sa = String::from_str(a);
    let sb = String::from_str(b);
    sa == sb
}

/// Reads one command from the command-bar buffer.
pub fn parse_command(s: &str) -> (c: Command)
    ensures
        c@ == parse_cmd_spec(s@),
{
    let len = s.unicode_len();
    let a = skip_ws(s, 0, len);
    if a >= len {
        return Command::Nothing;
    }
    let b = token_end_x(s, a, len);
    let tok = s.substring_char(a, b);
    if str_eq(tok, "q") || str_eq(tok, "quit") {
        Command::Quit
    } else if str_eq(tok, "b") || str_eq(tok, "back") {
        Command::Back
    } else if str_eq(tok, "f") || str_eq(tok, "front") {
        Command::Forward
    } else if str_eq(tok, "url") {
        let c2 = skip_ws(s, b, len);
        if c2 >= len {
            Command::Nothing
        } else {
            let d = token_end_x(s, c2, len);
            Command::Open(String::from_str(s.substring_char(c2, d)))
        }
    } else {
        Command::Unknown(String::from_str(tok))
    }
}

} // verus!
