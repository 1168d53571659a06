//! Server lines: splitting one line into its command and its payload.

use vstd::prelude::*;
use vstd::slice::*;
use crate::number::is_digit;

verus! {

/// Numeric code of the registration-success reply.
pub const RPL_WELCOME: u16 = 1;

/// Numeric code that closes a statistics reply.
pub const RPL_ENDOFSTATS: u16 = 219;

/// Numeric code of the uptime report.
pub const RPL_STATSUPTIME: u16 = 242;

/// Numeric code of the local user count.
pub const RPL_LOCALUSERS: u16 = 265;

/// Numeric code of the global user count, the last line of a user report.
pub const RPL_GLOBALUSERS: u16 = 266;

pub const SPACE: u8 = 32;

pub const COLON: u8 = 58;

pub const CR: u8 = 13;

pub const LF: u8 = 10;

/// Length of a line without the line terminators at its end.
pub open spec fn body_len(s: Seq<u8>) -> int
    decreases s.len(),
{
    if s.len() > 0 && (s.last() == CR || s.last() == LF) {
        body_len(s.drop_last())
    } else {
        s.len() as int
    }
}

/// First index at or after `from` that holds no space; the length if none.
pub open spec fn skip_spaces(s: Seq<u8>, from: int) -> int
    decreases s.len() - from,
{
    if from >= s.len() {
        s.len() as int
    } else if s[from] != SPACE {
        from
    } else {
        skip_spaces(s, from + 1)
    }
}

/// First index at or after `from` that holds a space; the length if none.
pub open spec fn token_end(s: Seq<u8>, from: int) -> int
    decreases s.len() - from,
{
    if from >= s.len() {
        s.len() as int
    } else if s[from] == SPACE {
        from
    } else {
        token_end(s, from + 1)
    }
}

/// `skip_spaces` moves forward and stays within the text.
pub proof fn lemma_skip_spaces(s: Seq<u8>, from: int)
    requires
        0 <= from <= s.len(),
    ensures
        from <= skip_spaces(s, from) <= s.len(),
        skip_spaces(s, from) < s.len() ==> s[skip_spaces(s, from)] != SPACE,
    decreases s.len() - from,
{
    if from < s.len() && s[from] == SPACE {
        lemma_skip_spaces(s, from + 1);
    }
}

/// `token_end` moves forward, past at least one byte of a token, and stays
/// within the text.
pub proof fn lemma_token_end(s: Seq<u8>, from: int)
    requires
        0 <= from <= s.len(),
    ensures
        from <= token_end(s, from) <= s.len(),
        from < s.len() && s[from] != SPACE ==> from < token_end(s, from),
    decreases s.len() - from,
{
    if from < s.len() && s[from] != SPACE {
        lemma_token_end(s, from + 1);
    }
}

/// The payload of the parameters that start at `from`, an index that holds
/// no space: the text behind the first parameter that opens with a colon, or
/// else the last parameter.
pub open spec fn payload_from(s: Seq<u8>, from: int) -> Seq<u8>
    decreases s.len() - from,
{
    if from < 0 || from >= s.len() {
        Seq::<u8>::empty()
    } else if s[from] == COLON {
        s.subrange(from + 1, s.len() as int)
    } else if s[from] == SPACE {
        Seq::<u8>::empty()
    } else {
        let e = token_end(s, from);
        let n = skip_spaces(s, e);
        proof {
            lemma_token_end(s, from);
            lemma_skip_spaces(s, e);
        }
        if n >= s.len() {
            s.subrange(from, e)
        } else {
            payload_from(s, n)
        }
    }
}

/// What a line is, as far as a session reads it.
pub enum CommandView {
    /// A three-digit reply code.
    Numeric(u16),
    /// A liveness probe that asks for an echo.
    Ping,
    /// The server announces that it ends the connection.
    Error,
    /// Anything else.
    Other,
}

/// Mathematical value of a parsed line.
pub struct LineView {
    pub command: CommandView,
    pub payload: Seq<u8>,
}

/// The command that a command word stands for.
pub open spec fn command_of(word: Seq<u8>) -> CommandView {
    if word.len() == 3 && is_digit(word[0]) && is_digit(word[1]) && is_digit(word[2]) {
        CommandView::Numeric(((word[0] - 48) * 100 + (word[1] - 48) * 10 + (word[2] - 48)) as u16)
    } else if word =~= seq![80u8, 73u8, 78u8, 71u8] {
        CommandView::Ping
    } else if word =~= seq![69u8, 82u8, 82u8, 79u8, 82u8] {
        CommandView::Error
    } else {
        CommandView::Other
    }
}

/// Index at which the command word of a line body starts: behind the source
/// prefix, where the body opens with one.
pub open spec fn command_start(body: Seq<u8>) -> int {
    if body.len() > 0 && body[0] == COLON {
        skip_spaces(body, token_end(body, 0))
    } else {
        skip_spaces(body, 0)
    }
}

/// A line as a session reads it; `None` where it holds no command.
pub open spec fn parse_line_spec(line: Seq<u8>) -> Option<LineView> {
    let body = line.subrange(0, body_len(line));
    let c0 = command_start(body);
    let c1 = token_end(body, c0);
    if c0 >= body.len() {
        None
    } else {
        Some(
            LineView {
                command: command_of(body.subrange(c0, c1)),
                payload: payload_from(body, skip_spaces(body, c1)),
            },
        )
    }
}

/// The command of a parsed line.
#[derive(Clone, Copy, Debug, PartialEq, Eq, Structural)]
pub enum Command {
    Numeric(u16),
    Ping,
    Error,
    Other,
}

impl View for Command {
    type V = CommandView;

    open spec fn view(&self) -> CommandView {
        match *self {
            Command::Numeric(n) => CommandView::Numeric(n),
            Command::Ping => CommandView::Ping,
            Command::Error => CommandView::Error,
            Command::Other => CommandView::Other,
        }
    }
}

/// A parsed line: its command and its payload.
#[derive(Clone, Debug, PartialEq, Eq)]
pub struct Line {
    pub command: Command,
    pub payload: Vec<u8>,
}

impl View for Line {
    type V = LineView;

    open spec fn view(&self) -> LineView {
        LineView { command: self.command@, payload: self.payload@ }
    }
}

/// The view of an optional line.
pub open spec fn line_view(l: Option<Line>) -> Option<LineView> {
    match l {
        Some(x) => Some(x@),
        None => None,
    }
}

fn trim_eol(s: &[u8]) -> (n: usize)
    ensures
        n == body_len(s@),
        n <= s.len(),
{
    let mut n: usize = s.len();
    proof {
        assert(s@.subrange(0, s.len() as int) =~= s@);
    }
    while n > 0 && (s[n - 1] == CR || s[n - 1] == LF)
        invariant
            n <= s.len(),
            body_len(s@) == body_len(s@.subrange(0, n as int)),
        decreases n,
    {
        proof {
            assert(s@.subrange(0, n as int).drop_last() =~= s@.subrange(0, n - 1));
        }
        n -= 1;
    }
    n
}

fn after_spaces(s: &[u8], from: usize) -> (r: usize)
    requires
        from <= s.len(),
    ensures
        r == skip_spaces(s@, from as int),
        from <= r <= s.len(),
{
    let mut i: usize = from;
    while i < s.len() && s[i] == SPACE
        invariant
            from <= i <= s.len(),
            skip_spaces(s@, from as int) == skip_spaces(s@, i as int),
        decreases s.len() - i,
    {
        i += 1;
    }
    i
}

fn after_token(s: &[u8], from: usize) -> (r: usize)
    requires
        from <= s.len(),
    ensures
        r == token_end(s@, from as int),
        from <= r <= s.len(),
{
    let mut i: usize = from;
    while i < s.len() && s[i] != SPACE
        invariant
            from <= i <= s.len(),
            token_end(s@, from as int) == token_end(s@, i as int),
        decreases s.len() - i,
    {
        i += 1;
    }
    i
}

fn classify(word: &[u8]) -> (c: Command)
    ensures
        c@ == command_of(word@),
{
    let n = word.len();
    if n == 3 && 48 <= word[0] && word[0] <= 57 && 48 <= word[1] && word[1] <= 57 && 48 <= word[2]
        && word[2] <= 57 {
        let h: u16 = (word[0] - 48) as u16;
        let t: u16 = (word[1] - 48) as u16;
        let u: u16 = (word[2] - 48) as u16;
        Command::Numeric(h * 100 + t * 10 + u)
    } else if n == 4 && word[0] == 80 && word[1] == 73 && word[2] == 78 && word[3] == 71 {
        Command::Ping
    } else if n == 5 && word[0] == 69 && word[1] == 82 && word[2] == 82 && word[3] == 79 && word[4]
        == 82 {
        Command::Error
    } else {
        Command::Other
    }
}

fn payload_bounds(s: &[u8], from: usize) -> (r: (usize, usize))
    requires
        from <= s.len(),
    ensures
        r.0 <= r.1 <= s.len(),
        s@.subrange(r.0 as int, r.1 as int) == payload_from(s@, from as int),
{
    let mut p: usize = from;
    loop
        invariant
            from <= p <= s.len(),
            payload_from(s@, from as int) == payload_from(s@, p as int),
        decreases s.len() - p,
    {
        if p >= s.len() || s[p] == SPACE {
            proof {
                assert(s@.subrange(p as int, p as int) =~= Seq::<u8>::empty());
            }
            return (p, p);
        }
        if s[p] == COLON {
            return (p + 1, s.len());
        }
        let e = after_token(s, p);
        let n = after_spaces(s, e);
        proof {
            lemma_token_end(s@, p as int);
        }
        if n >= s.len() {
            return (p, e);
        }
        p = n;
    }
}

/// Splits one line into its command and payload. A source prefix and the
/// line terminators are dropped; the payload is the text behind the first
/// parameter that opens with a colon, or else the last parameter.
pub fn parse_line(line: &[u8]) -> (out: Option<Line>)
    ensures
        line_view(out) == parse_line_spec(line@),
{
    let n = trim_eol(line);
    let body = slice_subrange(line, 0, n);
    let c0 = if body.len() > 0 && body[0] == COLON {
        let e = after_token(body, 0);
        after_spaces(body, e)
    } else {
        after_spaces(body, 0)
    };
    if c0 >= body.len() {
        return None;
    }
    let c1 = after_token(body, c0);
    let command = classify(slice_subrange(body, c0, c1));
    let p = after_spaces(body, c1);
    let (a, b) = payload_bounds(body, p);
    let payload = slice_to_vec(slice_subrange(body, a, b));
    Some(Line { command, payload })
}

} // verus!
