//! What is asked of a pseudo terminal: how a program is started and what is
//! typed into it.
use crate::error::Failure;
use crate::ordered::OrderedMap;
use crate::session::model::{ExitInfo, SignalKind};
use crate::text::{cat2, chars_of};
use crate::timestamp::Timestamp;
use vstd::prelude::*;

verus! {

pub const DEFAULT_PTY_ROWS: u16 = 24;

pub const DEFAULT_PTY_COLS: u16 = 80;

/// The program that a pseudo terminal is to run.
#[derive(Debug, PartialEq, Eq)]
pub struct PtySpawnRequest {
    pub command: String,
    pub args: Vec<String>,
    pub cwd: Option<String>,
    pub env: OrderedMap<String>,
    pub rows: u16,
    pub cols: u16,
}

impl PtySpawnRequest {
    /// A request is valid: its environment is an ordered map.
    pub open spec fn wf(&self) -> bool {
        self.env.wf()
    }

    /// A command without arguments on a terminal of the usual size.
    pub fn new(command: String) -> (r: Self)
        ensures
            r.command == command,
            r.args@.len() == 0,
            r.cwd is None,
            r.env@ == Map::<Seq<char>, String>::empty(),
            r.rows == DEFAULT_PTY_ROWS,
            r.cols == DEFAULT_PTY_COLS,
            r.wf(),
    {
        PtySpawnRequest {
            command,
            args: Vec::new(),
            cwd: None,
            env: OrderedMap::new(),
            rows: DEFAULT_PTY_ROWS,
            cols: DEFAULT_PTY_COLS,
        }
    }

    /// Adds one argument.
    pub fn arg(self, arg: String) -> (r: Self)
        ensures
            r == (PtySpawnRequest { args: r.args, ..self }),
            r.args@ == self.args@.push(arg),
    {
        let mut args = self.args;
        args.push(arg);
        PtySpawnRequest {
            command: self.command,
            args,
            cwd: self.cwd,
            env: self.env,
            rows: self.rows,
            cols: self.cols,
        }
    }

    /// Adds arguments.
    pub fn args(self, args: Vec<String>) -> (r: Self)
        ensures
            r == (PtySpawnRequest { args: r.args, ..self }),
            r.args@ == self.args@ + args@,
    {
        let mut all = self.args;
        let mut more = args;
        all.append(&mut more);
        PtySpawnRequest {
            command: self.command,
            args: all,
            cwd: self.cwd,
            env: self.env,
            rows: self.rows,
            cols: self.cols,
        }
    }

    /// Sets the working directory.
    pub fn cwd(self, cwd: String) -> (r: Self)
        ensures
            r == (PtySpawnRequest { cwd: Some(cwd), ..self }),
    {
        PtySpawnRequest {
            command: self.command,
            args: self.args,
            cwd: Some(cwd),
            env: self.env,
            rows: self.rows,
            cols: self.cols,
        }
    }

    /// Sets one variable of the environment.
    pub fn env(self, key: String, value: String) -> (r: Self)
        requires
            self.wf(),
        ensures
            r == (PtySpawnRequest { env: r.env, ..self }),
            r.env@ == self.env@.insert(key@, value),
            r.wf(),
    {
        let mut env = self.env;
        let _ = env.insert(key, value);
        PtySpawnRequest {
            command: self.command,
            args: self.args,
            cwd: self.cwd,
            env,
            rows: self.rows,
            cols: self.cols,
        }
    }

    /// Sets the size of the terminal.
    pub fn size(self, rows: u16, cols: u16) -> (r: Self)
        ensures
            r == (PtySpawnRequest { rows, cols, ..self }),
    {
        PtySpawnRequest {
            command: self.command,
            args: self.args,
            cwd: self.cwd,
            env: self.env,
            rows,
            cols,
        }
    }
}

/// How a program on a pseudo terminal ended.
#[derive(Debug, PartialEq, Eq)]
pub struct RuntimeExitStatus {
    pub exit_info: ExitInfo,
}

impl RuntimeExitStatus {
    /// The exit of a program with a code and, where one ended it, a signal, at a
    /// given moment. The code is taken as a 32-bit signed number.
    pub fn at(exit_code: u32, exit_signal: Option<String>, finished_at: Timestamp) -> (r: Self)
        ensures
            r.exit_info.exit_code == Some(exit_code as i32),
            r.exit_info.exit_signal == exit_signal,
            r.exit_info.finished_at == Some(finished_at),
    {
        RuntimeExitStatus {
            exit_info: ExitInfo {
                exit_code: Some(
                    #[verifier::truncate]
                    (exit_code as i32),
                ),
                exit_signal,
                finished_at: Some(finished_at),
            },
        }
    }

    /// The exit of a program that has just ended.
    pub fn from_exit(exit_code: u32, exit_signal: Option<String>) -> (r: Self)
        ensures
            r.exit_info.exit_code == Some(exit_code as i32),
            r.exit_info.exit_signal == exit_signal,
            r.exit_info.finished_at is Some,
    {
        RuntimeExitStatus::at(exit_code, exit_signal, Timestamp::now())
    }
}

/// Starts programs on pseudo terminals.
#[derive(Debug, Clone, Copy, PartialEq, Eq, Structural)]
pub struct PtyRuntime;

/// How a signal reaches a program.
#[derive(Debug, Clone, Copy, PartialEq, Eq, Structural)]
pub enum SignalRoute {
    /// It is sent to the process with this identifier.
    Process { pid: u32, signal: SignalKind },
    /// The program is killed through its terminal.
    Killer,
}

impl PtyRuntime {
    /// How a signal reaches a program: by the identifier of its process where that
    /// is known, but for the signal that kills.
    pub fn signal_route(&self, pid: Option<u32>, signal: SignalKind) -> (r: SignalRoute)
        ensures
            r == match pid {
                Some(p) => if signal == SignalKind::Sigkill {
                    SignalRoute::Killer
                } else {
                    SignalRoute::Process { pid: p, signal }
                },
                None => SignalRoute::Killer,
            },
    {
        match (pid, signal) {
            (None, _) => SignalRoute::Killer,
            (_, SignalKind::Sigkill) => SignalRoute::Killer,
            (Some(pid), _) => SignalRoute::Process { pid, signal },
        }
    }
}

/// The number that a hexadecimal digit stands for.
pub open spec fn hex_value(c: char) -> Option<u8> {
    if '0' <= c && c <= '9' {
        Some((c as int - 48) as u8)
    } else if 'a' <= c && c <= 'f' {
        Some((c as int - 87) as u8)
    } else if 'A' <= c && c <= 'F' {
        Some((c as int - 55) as u8)
    } else {
        None
    }
}

/// The byte that two characters write in hexadecimal. As in any number, a plus
/// sign may stand before the digit.
pub open spec fn hex_pair(high: char, low: char) -> Option<u8> {
    match (hex_value(high), hex_value(low)) {
        (Some(h), Some(l)) => Some((h * 16 + l) as u8),
        (None, Some(l)) => if high == '+' {
            Some(l)
        } else {
            None
        },
        _ => None,
    }
}

/// `first` before a decoded text.
pub open spec fn prepend(
    first: Seq<char>,
    rest: Result<Seq<char>, Seq<char>>,
) -> Result<Seq<char>, Seq<char>> {
    match rest {
        Ok(text) => Ok(first + text),
        Err(message) => Err(message),
    }
}

/// What an escaped text stands for, or why it stands for nothing. `input` is the
/// whole text, which the message for a bad hexadecimal escape quotes.
pub open spec fn decoded(s: Seq<char>, input: Seq<char>) -> Result<Seq<char>, Seq<char>>
    decreases s.len(),
{
    if s.len() == 0 {
        Ok(Seq::empty())
    } else if s[0] != '\\' {
        prepend(seq![s[0]], decoded(s.skip(1), input))
    } else if s.len() == 1 {
        Err("input ended with a dangling escape sequence"@)
    } else if s[1] == '\\' {
        prepend(seq!['\\'], decoded(s.skip(2), input))
    } else if s[1] == '0' {
        prepend(seq!['\0'], decoded(s.skip(2), input))
    } else if s[1] == 'n' {
        prepend(seq!['\n'], decoded(s.skip(2), input))
    } else if s[1] == 'r' {
        prepend(seq!['\r'], decoded(s.skip(2), input))
    } else if s[1] == 't' {
        prepend(seq!['\t'], decoded(s.skip(2), input))
    } else if s[1] == 'x' {
        if s.len() < 4 {
            Err("invalid hex escape in input: "@ + input)
        } else {
            match hex_pair(s[2], s[3]) {
                Some(value) => prepend(seq![value as char], decoded(s.skip(4), input)),
                None => Err("invalid hex escape in input: "@ + input),
            }
        }
    } else {
        Err("unsupported escape sequence: \\"@.push(s[1]))
    }
}

/// The number that a hexadecimal digit stands for.
fn hex_digit_value(c: char) -> (r: Option<u8>)
    ensures
        r == hex_value(c),
{
    if '0' <= c && c <= '9' {
        Some((c as u8) - 48)
    } else if 'a' <= c && c <= 'f' {
        Some((c as u8) - 87)
    } else if 'A' <= c && c <= 'F' {
        Some((c as u8) - 55)
    } else {
        None
    }
}

/// The byte that two characters write in hexadecimal.
fn hex_pair_value(high: char, low: char) -> (r: Option<u8>)
    ensures
        r == hex_pair(high, low),
{
    match (hex_digit_value(high), hex_digit_value(low)) {
        (Some(h), Some(l)) => {
            assert(h < 16 && l < 16);
            Some(h * 16 + l)
        },
        (None, Some(l)) => if high == '+' {
            Some(l)
        } else {
            None
        },
        _ => None,
    }
}

/// Decodes an escaped text: `\\`, `\0`, `\n`, `\r`, `\t` and `\xHH`.
pub fn decode_escaped_input(input: &str) -> (r: Result<String, Failure>)
    ensures
        match r {
            Ok(text) => decoded(input@, input@) == Ok::<Seq<char>, Seq<char>>(text@),
            Err(e) => decoded(input@, input@) == Err::<Seq<char>, Seq<char>>(e@),
        },
{
    let v = chars_of(input);
    let n: usize = v.len();
    let mut out: String = String::new();
    let mut i: usize = 0;
    proof {
        assert(input@.skip(0) =~= input@);
        match decoded(input@, input@) {
            Ok(t) => {
                assert(out@ + t =~= t);
            },
            Err(_) => {},
        }
    }
    while i < n
        invariant
            i <= n == v@.len(),
            v@ == input@,
            decoded(input@, input@) == prepend(out@, decoded(input@.skip(i as int), input@)),
        decreases n - i,
    {
        let ghost rest = input@.skip(i as int);
        let ghost before = out@;
        let c: char = v[i];
        if c != '\\' {
            out.push(c);
            i = i + 1;
            proof {
                assert(rest.skip(1) =~= input@.skip(i as int));
                lemma_prepend(before, seq![c], decoded(input@.skip(i as int), input@));
                assert(out@ =~= before + seq![c]);
            }
            continue ;
        }
        if i + 1 >= n {
            return Err(Failure::new("input ended with a dangling escape sequence".to_owned()));
        }
        let e: char = v[i + 1];
        let mut used: usize = 2;
        let value: char = if e == '\\' {
            '\\'
        } else if e == '0' {
            '\0'
        } else if e == 'n' {
            '\n'
        } else if e == 'r' {
            '\r'
        } else if e == 't' {
            '\t'
        } else if e == 'x' {
            if n - i < 4 {
                return Err(Failure::new(cat2("invalid hex escape in input: ", input)));
            }
            used = 4;
            match hex_pair_value(v[i + 2], v[i + 3]) {
                Some(b) => b as char,
                None => {
                    return Err(Failure::new(cat2("invalid hex escape in input: ", input)));
                },
            }
        } else {
            let mut message = "unsupported escape sequence: \\".to_owned();
            message.push(e);
            return Err(Failure::new(message));
        };
        out.push(value);
        i = i + used;
        proof {
            assert(rest.skip(used as int) =~= input@.skip(i as int));
            lemma_prepend(before, seq![value], decoded(input@.skip(i as int), input@));
            assert(out@ =~= before + seq![value]);
        }
    }
    proof {
        assert(input@.skip(n as int) =~= Seq::<char>::empty());
        assert(out@ + Seq::<char>::empty() =~= out@);
    }
    Ok(out)
}

proof fn lemma_prepend(a: Seq<char>, b: Seq<char>, r: Result<Seq<char>, Seq<char>>)
    ensures
        prepend(a, prepend(b, r)) == prepend(a + b, r),
{
    match r {
        Ok(t) => {
            assert(a + (b + t) =~= (a + b) + t);
        },
        Err(_) => {},
    }
}

/// A text without backslashes stands for itself.
pub proof fn law_plain_text_decodes_to_itself(s: Seq<char>, input: Seq<char>)
    requires
        !s.contains('\\'),
    ensures
        decoded(s, input) == Ok::<Seq<char>, Seq<char>>(s),
    decreases s.len(),
{
    if s.len() > 0 {
        assert(s.contains(s[0]));
        assert(!s.skip(1).contains('\\')) by {
            if s.skip(1).contains('\\') {
                let i = s.skip(1).index_of('\\');
                assert(s[i + 1] == '\\');
            }
        }
        law_plain_text_decodes_to_itself(s.skip(1), input);
        assert(seq![s[0]] + s.skip(1) =~= s);
    } else {
        assert(s =~= Seq::<char>::empty());
    }
}

/// A text with each backslash doubled.
pub open spec fn doubled(s: Seq<char>) -> Seq<char>
    decreases s.len(),
{
    if s.len() == 0 {
        Seq::empty()
    } else if s[0] == '\\' {
        seq!['\\', '\\'] + doubled(s.skip(1))
    } else {
        seq![s[0]] + doubled(s.skip(1))
    }
}

/// Every text can be typed: it is what its form with doubled backslashes stands
/// for.
pub proof fn law_doubled_backslashes_decode_back(s: Seq<char>, input: Seq<char>)
    ensures
        decoded(doubled(s), input) == Ok::<Seq<char>, Seq<char>>(s),
    decreases s.len(),
{
    if s.len() > 0 {
        law_doubled_backslashes_decode_back(s.skip(1), input);
        let d = doubled(s);
        if s[0] == '\\' {
            assert(d.skip(2) =~= doubled(s.skip(1)));
        } else {
            assert(d.skip(1) =~= doubled(s.skip(1)));
        }
        assert(seq![s[0]] + s.skip(1) =~= s);
    } else {
        assert(s =~= Seq::<char>::empty());
    }
}

/// The character that stands behind a backslash for one that cannot be typed as it is.
pub open spec fn escape_of(c: char) -> Option<char> {
    if c == '\\' {
        Some('\\')
    } else if c == '\0' {
        Some('0')
    } else if c == '\n' {
        Some('n')
    } else if c == '\r' {
        Some('r')
    } else if c == '\t' {
        Some('t')
    } else {
        None
    }
}

/// An escape stands for its character, wherever it stands: `\\`, `\0`, `\n`, `\r` and
/// `\t` for a backslash, a zero character, a line feed, a carriage return and a
/// tabulator.
pub proof fn law_escapes_stand_for_characters(c: char, rest: Seq<char>, input: Seq<char>)
    requires
        escape_of(c) is Some,
    ensures
        ({
            let s = seq!['\\', escape_of(c)->0] + rest;
            &&& decoded(rest, input) matches Ok(text) ==> decoded(s, input) == Ok::<
                Seq<char>,
                Seq<char>,
            >(seq![c] + text)
            &&& decoded(rest, input) is Err ==> decoded(s, input) == decoded(rest, input)
        }),
{
    let s = seq!['\\', escape_of(c)->0] + rest;
    assert(s.skip(2) =~= rest);
    assert(s[0] == '\\' && s[1] == escape_of(c)->0);
}

/// The number that one hexadecimal digit writes, in either case, and no other character.
pub open spec fn digit_of(c: char) -> int {
    if '0' <= c && c <= '9' {
        c as int - '0' as int
    } else if 'a' <= c && c <= 'f' {
        c as int - 'a' as int + 10
    } else if 'A' <= c && c <= 'F' {
        c as int - 'A' as int + 10
    } else {
        -1
    }
}

/// `\x` and two hexadecimal digits stand for the character of that number; any other
/// character behind a backslash, and a backslash at the end, is refused.
pub proof fn law_hexadecimal_escapes(high: char, low: char, rest: Seq<char>, input: Seq<char>)
    ensures
        ({
            let s = seq!['\\', 'x', high, low] + rest;
            let n = 16 * digit_of(high) + digit_of(low);
            &&& digit_of(high) >= 0 && digit_of(low) >= 0 ==> {
                &&& decoded(rest, input) matches Ok(text) ==> {
                    &&& decoded(s, input) matches Ok(whole)
                    &&& whole.len() == 1 + text.len()
                    &&& whole[0] as int == n
                    &&& whole.skip(1) == text
                }
                &&& decoded(rest, input) is Err ==> decoded(s, input) == decoded(rest, input)
            }
            &&& digit_of(low) < 0 || (digit_of(high) < 0 && high != '+') ==> decoded(s, input)
                == Err::<Seq<char>, Seq<char>>("invalid hex escape in input: "@ + input)
        }),
        high != '\\' && high != '0' && high != 'n' && high != 'r' && high != 't' && high != 'x'
            ==> decoded(seq!['\\', high] + rest, input) == Err::<Seq<char>, Seq<char>>(
            "unsupported escape sequence: \\"@.push(high),
        ),
        decoded(seq!['\\'], input) == Err::<Seq<char>, Seq<char>>(
            "input ended with a dangling escape sequence"@,
        ),
{
    let s = seq!['\\', 'x', high, low] + rest;
    assert(s.skip(4) =~= rest);
    assert(s[0] == '\\' && s[1] == 'x' && s[2] == high && s[3] == low);
    if digit_of(high) >= 0 && digit_of(low) >= 0 {
        let v = hex_pair(high, low)->0;
        assert(hex_value(high) is Some && hex_value(low) is Some);
        assert(v == 16 * digit_of(high) + digit_of(low));
        if decoded(rest, input) is Ok {
            let text = decoded(rest, input)->Ok_0;
            assert((seq![v as char] + text).skip(1) =~= text);
        }
    }
    let e = seq!['\\', high] + rest;
    assert(e[0] == '\\' && e[1] == high);
}

/// Terminals have 24 rows of 80 columns where nothing else is said.
pub proof fn law_usual_terminal_size()
    ensures
        DEFAULT_PTY_ROWS == 24,
        DEFAULT_PTY_COLS == 80,
{
}

} // verus!
