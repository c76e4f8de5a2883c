//! The text wire format spoken with station devices.
//!
//! Device to server: a handshake object `{ "id": <integer>, "token": <string> }`.
//! Server to device: `{"state": <string>}` or `{"conf": <string>}`, and `{}` as
//! the acknowledgement of a successful handshake.  Parsing and framing are
//! specified against spec-level functions over character sequences, so a
//! caller's contract can speak of the exact text on the wire.
use vstd::prelude::*;
use vstd::string::StrSliceExecFns;
use vstd::string::StringExecFns;

verus! {

/// A successfully parsed handshake message.
#[derive(Debug, Clone)]
pub struct Handshake {
    pub id: usize,
    pub token: String,
}

/// Appends one character.  Relies on `String::push`, which the standard
/// library documents as appending the given char to the end of the string.
#[verifier::external_body]
pub(crate) fn push_char(s: &mut String, c: char)
    ensures
        final(s)@ == old(s)@.push(c),
{
    s.push(c);
}

// ---------------------------------------------------------------------------
// Character classes
// ---------------------------------------------------------------------------

pub open spec fn is_ws_char(c: char) -> bool {
    c == ' ' || c == '\t' || c == '\n' || c == '\r'
}

pub open spec fn is_digit_char(c: char) -> bool {
    48 <= (c as u32) <= 57
}

pub open spec fn digit_val(c: char) -> nat {
    ((c as u32) - 48) as nat
}

// ---------------------------------------------------------------------------
// Spec-level parsing.  Each function consumes from index `i` and yields the
// parsed value with the index one past what it consumed, or `None` when the
// text does not match the grammar.
// ---------------------------------------------------------------------------

/// The first index at or after `i` that does not hold whitespace.
pub open spec fn skip_ws(s: Seq<char>, i: int) -> int
    decreases s.len() - i,
{
    if 0 <= i < s.len() && is_ws_char(s[i]) {
        skip_ws(s, i + 1)
    } else {
        i
    }
}

/// Decimal digits starting from an accumulated value, rejecting numbers that
/// do not fit a `usize`.
pub open spec fn scan_num(s: Seq<char>, i: int, acc: nat) -> Option<(nat, int)>
    decreases s.len() - i,
{
    if 0 <= i < s.len() && is_digit_char(s[i]) {
        let v = acc * 10 + digit_val(s[i]);
        if v > usize::MAX {
            None
        } else {
            scan_num(s, i + 1, v)
        }
    } else {
        Some((acc, i))
    }
}

/// A number: at least one digit, value within `usize`.
pub open spec fn parse_num(s: Seq<char>, i: int) -> Option<(nat, int)> {
    if 0 <= i < s.len() && is_digit_char(s[i]) {
        scan_num(s, i, 0)
    } else {
        None
    }
}

/// What a backslash escape stands for.
pub open spec fn unescape(c: char) -> Option<char> {
    if c == '"' {
        Some('"')
    } else if c == '\\' {
        Some('\\')
    } else if c == '/' {
        Some('/')
    } else if c == 'b' {
        Some('\u{8}')
    } else if c == 'f' {
        Some('\u{c}')
    } else if c == 'n' {
        Some('\n')
    } else if c == 'r' {
        Some('\r')
    } else if c == 't' {
        Some('\t')
    } else {
        None
    }
}

/// The body of a quoted string, from just after the opening quote up to and
/// including the closing quote.  Control characters must be escaped.
pub open spec fn scan_string(s: Seq<char>, i: int, acc: Seq<char>) -> Option<(Seq<char>, int)>
    decreases s.len() - i,
{
    if !(0 <= i < s.len()) {
        None
    } else if s[i] == '"' {
        Some((acc, i + 1))
    } else if s[i] == '\\' {
        if i + 1 < s.len() {
            match unescape(s[i + 1]) {
                Some(c) => scan_string(s, i + 2, acc.push(c)),
                None => None,
            }
        } else {
            None
        }
    } else if (s[i] as u32) < 32 {
        None
    } else {
        scan_string(s, i + 1, acc.push(s[i]))
    }
}

/// A quoted string starting at `i`.
pub open spec fn parse_string(s: Seq<char>, i: int) -> Option<(Seq<char>, int)> {
    if 0 <= i < s.len() && s[i] == '"' {
        scan_string(s, i + 1, Seq::empty())
    } else {
        None
    }
}

/// A quoted key followed by optional whitespace and a colon; yields the key
/// and the index after the whitespace that follows the colon.
pub open spec fn parse_key_colon(s: Seq<char>, i: int) -> Option<(Seq<char>, int)> {
    match parse_string(s, i) {
        None => None,
        Some((k, j)) => {
            let j2 = skip_ws(s, j);
            if 0 <= j2 < s.len() && s[j2] == ':' {
                Some((k, skip_ws(s, j2 + 1)))
            } else {
                None
            }
        },
    }
}

/// A comma between members, with surrounding whitespace.
pub open spec fn parse_comma(s: Seq<char>, i: int) -> Option<int> {
    let j = skip_ws(s, i);
    if 0 <= j < s.len() && s[j] == ',' {
        Some(skip_ws(s, j + 1))
    } else {
        None
    }
}

/// Exactly the two members `"id": <number>` and `"token": <string>`, in
/// either order, separated by one comma.
pub open spec fn parse_members(s: Seq<char>, i: int) -> Option<(nat, Seq<char>, int)> {
    match parse_key_colon(s, i) {
        None => None,
        Some((k1, i1)) => if k1 == "id"@ {
            match parse_num(s, i1) {
                None => None,
                Some((v, i2)) => match parse_comma(s, i2) {
                    None => None,
                    Some(i3) => match parse_key_colon(s, i3) {
                        None => None,
                        Some((k2, i4)) => if k2 == "token"@ {
                            match parse_string(s, i4) {
                                None => None,
                                Some((t, i5)) => Some((v, t, i5)),
                            }
                        } else {
                            None
                        },
                    },
                },
            }
        } else if k1 == "token"@ {
            match parse_string(s, i1) {
                None => None,
                Some((t, i2)) => match parse_comma(s, i2) {
                    None => None,
                    Some(i3) => match parse_key_colon(s, i3) {
                        None => None,
                        Some((k2, i4)) => if k2 == "id"@ {
                            match parse_num(s, i4) {
                                None => None,
                                Some((v, i5)) => Some((v, t, i5)),
                            }
                        } else {
                            None
                        },
                    },
                },
            }
        } else {
            None
        },
    }
}

/// The whole handshake message: one object holding exactly an `id` number and
/// a `token` string, and nothing but whitespace around it.
pub open spec fn parse_handshake_spec(s: Seq<char>) -> Option<(nat, Seq<char>)> {
    let i = skip_ws(s, 0);
    if !(0 <= i < s.len() && s[i] == '{') {
        None
    } else {
        match parse_members(s, skip_ws(s, i + 1)) {
            None => None,
            Some((v, t, i2)) => {
                let i3 = skip_ws(s, i2);
                if 0 <= i3 < s.len() && s[i3] == '}' && skip_ws(s, i3 + 1) == s.len() {
                    Some((v, t))
                } else {
                    None
                }
            },
        }
    }
}

// ---------------------------------------------------------------------------
// Executable parser, proved equal to the spec-level one.
// ---------------------------------------------------------------------------

fn skip_ws_exec(s: &str, n: usize, i: usize) -> (r: usize)
    requires
        n == s@.len(),
        i <= n,
    ensures
        r == skip_ws(s@, i as int),
        i <= r <= n,
{
    let mut j = i;
    loop
        invariant
            n == s@.len(),
            i <= j <= n,
            skip_ws(s@, i as int) == skip_ws(s@, j as int),
        ensures
            i <= j <= n,
            j == skip_ws(s@, i as int),
        decreases n - j,
    {
        if j >= n {
            break;
        }
        let c = s.get_char(j);
        if !(c == ' ' || c == '\t' || c == '\n' || c == '\r') {
            break;
        }
        j = j + 1;
    }
    j
}

fn scan_num_exec(s: &str, n: usize, i: usize, acc: usize) -> (r: Option<(usize, usize)>)
    requires
        n == s@.len(),
        i <= n,
    ensures
        match r {
            Some(p) => scan_num(s@, i as int, acc as nat) == Some((p.0 as nat, p.1 as int)) && i
                <= p.1 <= n,
            None => scan_num(s@, i as int, acc as nat) is None,
        },
{
    let mut j = i;
    let mut a = acc;
    loop
        invariant
            n == s@.len(),
            i <= j <= n,
            scan_num(s@, i as int, acc as nat) == scan_num(s@, j as int, a as nat),
        ensures
            i <= j <= n,
            scan_num(s@, i as int, acc as nat) == scan_num(s@, j as int, a as nat),
            j == n || !is_digit_char(s@[j as int]),
        decreases n - j,
    {
        if j >= n {
            break;
        }
        let c = s.get_char(j);
        let u = c as u32;
        if !(48 <= u && u <= 57) {
            break;
        }
        let d = (u - 48) as usize;
        if a > (usize::MAX - d) / 10 {
            proof {
                assert(a * 10 + d > usize::MAX) by (nonlinear_arith)
                    requires
                        a > (usize::MAX - d) / 10,
                        d <= 9,
                ;
            }
            return None;
        }
        proof {
            assert(a * 10 + d <= usize::MAX) by (nonlinear_arith)
                requires
                    a <= (usize::MAX - d) / 10,
                    d <= 9,
            ;
        }
        a = a * 10 + d;
        j = j + 1;
    }
    Some((a, j))
}

fn parse_num_exec(s: &str, n: usize, i: usize) -> (r: Option<(usize, usize)>)
    requires
        n == s@.len(),
        i <= n,
    ensures
        match r {
            Some(p) => parse_num(s@, i as int) == Some((p.0 as nat, p.1 as int)) && i <= p.1 <= n,
            None => parse_num(s@, i as int) is None,
        },
{
    if i < n {
        let c = s.get_char(i);
        let u = c as u32;
        if 48 <= u && u <= 57 {
            return scan_num_exec(s, n, i, 0);
        }
    }
    None
}

fn unescape_exec(c: char) -> (r: Option<char>)
    ensures
        r == unescape(c),
{
    match c {
        '"' => Some('"'),
        '\\' => Some('\\'),
        '/' => Some('/'),
        'b' => Some('\u{8}'),
        'f' => Some('\u{c}'),
        'n' => Some('\n'),
        'r' => Some('\r'),
        't' => Some('\t'),
        _ => None,
    }
}

fn scan_string_exec(s: &str, n: usize, i: usize, acc: String) -> (r: Option<(String, usize)>)
    requires
        n == s@.len(),
        i <= n,
    ensures
        match r {
            Some(p) => scan_string(s@, i as int, acc@) == Some((p.0@, p.1 as int)) && i <= p.1
                <= n,
            None => scan_string(s@, i as int, acc@) is None,
        },
{
    let mut j = i;
    let mut acc2 = acc;
    let mut out: Option<(String, usize)> = None;
    loop
        invariant_except_break
            out is None,
            scan_string(s@, i as int, acc@) == scan_string(s@, j as int, acc2@),
        invariant
            n == s@.len(),
            i <= j <= n,
        ensures
            match out {
                Some(p) => scan_string(s@, i as int, acc@) == Some((p.0@, p.1 as int)) && i
                    <= p.1 <= n,
                None => scan_string(s@, i as int, acc@) is None,
            },
        decreases n - j,
    {
        if j >= n {
            break;
        }
        let c = s.get_char(j);
        if c == '"' {
            out = Some((acc2, j + 1));
            break;
        }
        if c == '\\' {
            if j + 1 >= n {
                break;
            }
            let e = s.get_char(j + 1);
            match unescape_exec(e) {
                Some(u) => {
                    push_char(&mut acc2, u);
                    j = j + 2;
                },
                None => {
                    break;
                },
            }
        } else if (c as u32) < 32 {
            break;
        } else {
            push_char(&mut acc2, c);
            j = j + 1;
        }
    }
    out
}

fn parse_string_exec(s: &str, n: usize, i: usize) -> (r: Option<(String, usize)>)
    requires
        n == s@.len(),
        i <= n,
    ensures
        match r {
            Some(p) => parse_string(s@, i as int) == Some((p.0@, p.1 as int)) && i <= p.1 <= n,
            None => parse_string(s@, i as int) is None,
        },
{
    if i < n {
        let c = s.get_char(i);
        if c == '"' {
            let acc = String::new();
            return scan_string_exec(s, n, i + 1, acc);
        }
    }
    None
}

fn parse_key_colon_exec(s: &str, n: usize, i: usize) -> (r: Option<(String, usize)>)
    requires
        n == s@.len(),
        i <= n,
    ensures
        match r {
            Some(p) => parse_key_colon(s@, i as int) == Some((p.0@, p.1 as int)) && i <= p.1
                <= n,
            None => parse_key_colon(s@, i as int) is None,
        },
{
    match parse_string_exec(s, n, i) {
        None => None,
        Some((k, j)) => {
            let j2 = skip_ws_exec(s, n, j);
            if j2 < n {
                let c = s.get_char(j2);
                if c == ':' {
                    return Some((k, skip_ws_exec(s, n, j2 + 1)));
                }
            }
            None
        },
    }
}

fn parse_comma_exec(s: &str, n: usize, i: usize) -> (r: Option<usize>)
    requires
        n == s@.len(),
        i <= n,
    ensures
        match r {
            Some(j) => parse_comma(s@, i as int) == Some(j as int) && i <= j <= n,
            None => parse_comma(s@, i as int) is None,
        },
{
    let j = skip_ws_exec(s, n, i);
    if j < n {
        let c = s.get_char(j);
        if c == ',' {
            return Some(skip_ws_exec(s, n, j + 1));
        }
    }
    None
}

fn parse_members_exec(s: &str, n: usize, i: usize) -> (r: Option<(usize, String, usize)>)
    requires
        n == s@.len(),
        i <= n,
    ensures
        match r {
            Some(p) => parse_members(s@, i as int) == Some((p.0 as nat, p.1@, p.2 as int)) && i
                <= p.2 <= n,
            None => parse_members(s@, i as int) is None,
        },
{
    let id_key: String = "id".to_owned();
    let token_key: String = "token".to_owned();
    match parse_key_colon_exec(s, n, i) {
        None => None,
        Some((k1, i1)) => if k1 == id_key {
            match parse_num_exec(s, n, i1) {
                None => None,
                Some((v, i2)) => match parse_comma_exec(s, n, i2) {
                    None => None,
                    Some(i3) => match parse_key_colon_exec(s, n, i3) {
                        None => None,
                        Some((k2, i4)) => if k2 == token_key {
                            match parse_string_exec(s, n, i4) {
                                None => None,
                                Some((t, i5)) => Some((v, t, i5)),
                            }
                        } else {
                            None
                        },
                    },
                },
            }
        } else if k1 == token_key {
            match parse_string_exec(s, n, i1) {
                None => None,
                Some((t, i2)) => match parse_comma_exec(s, n, i2) {
                    None => None,
                    Some(i3) => match parse_key_colon_exec(s, n, i3) {
                        None => None,
                        Some((k2, i4)) => if k2 == id_key {
                            match parse_num_exec(s, n, i4) {
                                None => None,
                                Some((v, i5)) => Some((v, t, i5)),
                            }
                        } else {
                            None
                        },
                    },
                },
            }
        } else {
            None
        },
    }
}

/// Parses a handshake message, returning its station identity and secret
/// exactly when the text matches the handshake grammar.
pub fn parse_handshake(s: &str) -> (r: Option<Handshake>)
    ensures
        match r {
            Some(h) => parse_handshake_spec(s@) == Some((h.id as nat, h.token@)),
            None => parse_handshake_spec(s@) is None,
        },
{
    let n = s.unicode_len();
    let i = skip_ws_exec(s, n, 0);
    if i >= n {
        return None;
    }
    let c = s.get_char(i);
    if c != '{' {
        return None;
    }
    match parse_members_exec(s, n, skip_ws_exec(s, n, i + 1)) {
        None => None,
        Some((v, t, i2)) => {
            let i3 = skip_ws_exec(s, n, i2);
            if i3 < n {
                let c2 = s.get_char(i3);
                if c2 == '}' && skip_ws_exec(s, n, i3 + 1) == n {
                    return Some(Handshake { id: v, token: t });
                }
            }
            None
        },
    }
}

// ---------------------------------------------------------------------------
// Framing of server-to-device messages.
// ---------------------------------------------------------------------------

/// The lowercase hexadecimal digit for a value below sixteen.
pub open spec fn hex_digit(n: nat) -> char {
    if n == 0 {
        '0'
    } else if n == 1 {
        '1'
    } else if n == 2 {
        '2'
    } else if n == 3 {
        '3'
    } else if n == 4 {
        '4'
    } else if n == 5 {
        '5'
    } else if n == 6 {
        '6'
    } else if n == 7 {
        '7'
    } else if n == 8 {
        '8'
    } else if n == 9 {
        '9'
    } else if n == 10 {
        'a'
    } else if n == 11 {
        'b'
    } else if n == 12 {
        'c'
    } else if n == 13 {
        'd'
    } else if n == 14 {
        'e'
    } else {
        'f'
    }
}

/// How one character is written inside a quoted JSON string.
pub open spec fn escape_char(c: char) -> Seq<char> {
    if c == '"' {
        seq!['\\', '"']
    } else if c == '\\' {
        seq!['\\', '\\']
    } else if c == '\u{8}' {
        seq!['\\', 'b']
    } else if c == '\t' {
        seq!['\\', 't']
    } else if c == '\n' {
        seq!['\\', 'n']
    } else if c == '\u{c}' {
        seq!['\\', 'f']
    } else if c == '\r' {
        seq!['\\', 'r']
    } else if (c as u32) < 32 {
        seq!['\\', 'u', '0', '0', hex_digit(((c as u32) / 16) as nat), hex_digit(
            ((c as u32) % 16) as nat,
        )]
    } else {
        seq![c]
    }
}

/// A whole string, escaped.
pub open spec fn escape_seq(s: Seq<char>) -> Seq<char>
    decreases s.len(),
{
    if s.len() == 0 {
        Seq::empty()
    } else {
        escape_seq(s.drop_last()) + escape_char(s.last())
    }
}

fn hex_digit_exec(d: u32) -> (r: char)
    requires
        d < 16,
    ensures
        r == hex_digit(d as nat),
{
    match d {
        0 => '0',
        1 => '1',
        2 => '2',
        3 => '3',
        4 => '4',
        5 => '5',
        6 => '6',
        7 => '7',
        8 => '8',
        9 => '9',
        10 => 'a',
        11 => 'b',
        12 => 'c',
        13 => 'd',
        14 => 'e',
        _ => 'f',
    }
}

fn push_escaped(out: &mut String, c: char)
    ensures
        final(out)@ == old(out)@ + escape_char(c),
{
    if c == '"' {
        push_char(out, '\\');
        push_char(out, '"');
    } else if c == '\\' {
        push_char(out, '\\');
        push_char(out, '\\');
    } else if c == '\u{8}' {
        push_char(out, '\\');
        push_char(out, 'b');
    } else if c == '\t' {
        push_char(out, '\\');
        push_char(out, 't');
    } else if c == '\n' {
        push_char(out, '\\');
        push_char(out, 'n');
    } else if c == '\u{c}' {
        push_char(out, '\\');
        push_char(out, 'f');
    } else if c == '\r' {
        push_char(out, '\\');
        push_char(out, 'r');
    } else {
        let u = c as u32;
        if u < 32 {
            push_char(out, '\\');
            push_char(out, 'u');
            push_char(out, '0');
            push_char(out, '0');
            push_char(out, hex_digit_exec(u / 16));
            push_char(out, hex_digit_exec(u % 16));
        } else {
            push_char(out, c);
        }
    }
    proof {
        assert(final(out)@ =~= old(out)@ + escape_char(c));
    }
}

/// Escapes a string for inclusion between quotes in a JSON text.
pub fn escape_json(s: &str) -> (r: String)
    ensures
        r@ == escape_seq(s@),
{
    let n = s.unicode_len();
    let mut out = String::new();
    let mut i: usize = 0;
    while i < n
        invariant
            n == s@.len(),
            i <= n,
            out@ == escape_seq(s@.take(i as int)),
        decreases n - i,
    {
        let c = s.get_char(i);
        push_escaped(&mut out, c);
        proof {
            assert(s@.take(i + 1 as int).drop_last() =~= s@.take(i as int));
            assert(s@.take(i + 1 as int).last() == s@[i as int]);
        }
        i = i + 1;
    }
    proof {
        assert(s@.take(n as int) =~= s@);
    }
    out
}

/// The exact text of a state push for the given payload.
pub open spec fn state_message_seq(state: Seq<char>) -> Seq<char> {
    "{\"state\":\""@ + escape_seq(state) + "\"}"@
}

/// The exact text of a configuration push for the given payload.
pub open spec fn conf_message_seq(conf: Seq<char>) -> Seq<char> {
    "{\"conf\":\""@ + escape_seq(conf) + "\"}"@
}

/// Frames a state push.
pub fn state_message(state: &str) -> (r: String)
    ensures
        r@ == state_message_seq(state@),
{
    let mut out: String = "{\"state\":\"".to_owned();
    let esc = escape_json(state);
    out.append(esc.as_str());
    out.append("\"}");
    out
}

/// Frames a configuration push.
pub fn conf_message(conf: &str) -> (r: String)
    ensures
        r@ == conf_message_seq(conf@),
{
    let mut out: String = "{\"conf\":\"".to_owned();
    let esc = escape_json(conf);
    out.append(esc.as_str());
    out.append("\"}");
    out
}

/// The empty-object acknowledgement sent after a successful handshake.
pub fn ack_message() -> (r: String)
    ensures
        r@ == "{}"@,
{
    "{}".to_owned()
}

// ---------------------------------------------------------------------------
// Decimal rendering of a station identity, used as the salt of its stored
// credential hash.
// ---------------------------------------------------------------------------

/// The decimal digit character for a value below ten.
pub open spec fn dec_digit(n: nat) -> char {
    if n == 0 {
        '0'
    } else if n == 1 {
        '1'
    } else if n == 2 {
        '2'
    } else if n == 3 {
        '3'
    } else if n == 4 {
        '4'
    } else if n == 5 {
        '5'
    } else if n == 6 {
        '6'
    } else if n == 7 {
        '7'
    } else if n == 8 {
        '8'
    } else {
        '9'
    }
}

/// The decimal writing of a number, most significant digit first.
pub open spec fn dec_rep(n: nat) -> Seq<char>
    decreases n,
{
    if n < 10 {
        seq![dec_digit(n)]
    } else {
        dec_rep(n / 10).push(dec_digit(n % 10))
    }
}

fn dec_digit_exec(d: usize) -> (r: char)
    requires
        d < 10,
    ensures
        r == dec_digit(d as nat),
{
    match d {
        0 => '0',
        1 => '1',
        2 => '2',
        3 => '3',
        4 => '4',
        5 => '5',
        6 => '6',
        7 => '7',
        8 => '8',
        _ => '9',
    }
}

/// Writes a number in decimal.
pub fn usize_to_decimal(n: usize) -> (r: String)
    ensures
        r@ == dec_rep(n as nat),
    decreases n,
{
    if n < 10 {
        let mut s = String::new();
        push_char(&mut s, dec_digit_exec(n));
        s
    } else {
        proof {
            assert(n / 10 < n) by (nonlinear_arith)
                requires
                    n >= 10,
            ;
        }
        let mut s = usize_to_decimal(n / 10);
        push_char(&mut s, dec_digit_exec(n % 10));
        s
    }
}

} // verus!
