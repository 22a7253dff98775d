//! Command-line tokenising and colour parsing.
use vstd::prelude::*;
use crate::text::{chars_of, is_space, is_space_char};
use crate::types::TerminalColor;

verus! {

/// Where the tokeniser stands after reading a prefix of its input.
pub struct TokenizerState {
    pub tokens: Seq<Seq<char>>,
    pub current: Seq<char>,
    pub in_single_quote: bool,
    pub in_double_quote: bool,
    pub escape: bool,
    pub token_started: bool,
}

pub open spec fn tokenizer_start() -> TokenizerState {
    TokenizerState {
        tokens: seq![],
        current: seq![],
        in_single_quote: false,
        in_double_quote: false,
        escape: false,
        token_started: false,
    }
}

/// One character of shell-like input: a backslash takes the next character
/// literally, single quotes take everything up to the closing quote, double
/// quotes do the same but honour backslashes, and unquoted whitespace ends a
/// token that has started (so `""` yields an empty token).
pub open spec fn tokenizer_step(st: TokenizerState, c: char) -> TokenizerState {
    if st.escape {
        TokenizerState { current: st.current.push(c), escape: false, token_started: true, ..st }
    } else if st.in_single_quote {
        if c == '\'' {
            TokenizerState { in_single_quote: false, token_started: true, ..st }
        } else {
            TokenizerState { current: st.current.push(c), token_started: true, ..st }
        }
    } else if st.in_double_quote {
        if c == '"' {
            TokenizerState { in_double_quote: false, token_started: true, ..st }
        } else if c == '\\' {
            TokenizerState { escape: true, token_started: true, ..st }
        } else {
            TokenizerState { current: st.current.push(c), token_started: true, ..st }
        }
    } else if c == '\'' {
        TokenizerState { in_single_quote: true, token_started: true, ..st }
    } else if c == '"' {
        TokenizerState { in_double_quote: true, token_started: true, ..st }
    } else if c == '\\' {
        TokenizerState { escape: true, token_started: true, ..st }
    } else if is_space(c) {
        if st.token_started {
            TokenizerState {
                tokens: st.tokens.push(st.current),
                current: seq![],
                token_started: false,
                ..st
            }
        } else {
            st
        }
    } else {
        TokenizerState { current: st.current.push(c), token_started: true, ..st }
    }
}

/// The tokeniser's state after reading all of `cs`.
pub open spec fn tokenizer_run(cs: Seq<char>) -> TokenizerState
    decreases cs.len(),
{
    if cs.len() == 0 {
        tokenizer_start()
    } else {
        tokenizer_step(tokenizer_run(cs.drop_last()), cs.last())
    }
}

/// The tokens of `cs`: those completed, then the one under way if it started.
pub open spec fn tokens_of(cs: Seq<char>) -> Seq<Seq<char>> {
    let st = tokenizer_run(cs);
    if st.token_started {
        st.tokens.push(st.current)
    } else {
        st.tokens
    }
}

pub open spec fn views_of(v: Seq<String>) -> Seq<Seq<char>> {
    v.map_values(|t: String| t@)
}

/// Splits a command line into words, honouring quotes and backslash escapes.
pub fn tokenize_command(input: &str) -> (r: Vec<String>)
    ensures
        views_of(r@) == tokens_of(input@),
{
    let cs = chars_of(input);
    let mut tokens: Vec<String> = Vec::new();
    let mut current_token = String::new();
    let mut in_single_quote = false;
    let mut in_double_quote = false;
    let mut escape = false;
    let mut token_started = false;
    let mut i: usize = 0;
    while i < cs.len()
        invariant
            cs@ == input@,
            i <= cs@.len(),
            ({
                let st = tokenizer_run(cs@.subrange(0, i as int));
                &&& views_of(tokens@) == st.tokens
                &&& current_token@ == st.current
                &&& in_single_quote == st.in_single_quote
                &&& in_double_quote == st.in_double_quote
                &&& escape == st.escape
                &&& token_started == st.token_started
            }),
        decreases cs@.len() - i,
    {
        let c = cs[i];
        proof {
            let p = cs@.subrange(0, i as int + 1);
            assert(p.drop_last() =~= cs@.subrange(0, i as int));
            assert(p.last() == c);
        }
        if escape {
            current_token.push(c);
            escape = false;
            token_started = true;
        } else if in_single_quote {
            if c == '\'' {
                in_single_quote = false;
            } else {
                current_token.push(c);
            }
            token_started = true;
        } else if in_double_quote {
            if c == '"' {
                in_double_quote = false;
            } else if c == '\\' {
                escape = true;
            } else {
                current_token.push(c);
            }
            token_started = true;
        } else if c == '\'' {
            in_single_quote = true;
            token_started = true;
        } else if c == '"' {
            in_double_quote = true;
            token_started = true;
        } else if c == '\\' {
            escape = true;
            token_started = true;
        } else if is_space_char(c) {
            if token_started {
                let ghost before = tokens@;
                tokens.push(current_token);
                proof {
                    assert(views_of(tokens@) =~= views_of(before).push(
                        tokens@[tokens@.len() - 1]@,
                    ));
                }
                current_token = String::new();
                token_started = false;
            }
        } else {
            current_token.push(c);
            token_started = true;
        }
        i += 1;
    }
    assert(cs@.subrange(0, cs@.len() as int) =~= input@);
    if token_started {
        let ghost before = tokens@;
        tokens.push(current_token);
        assert(views_of(tokens@) =~= views_of(before).push(tokens@[tokens@.len() - 1]@));
    }
    tokens
}

/// The value of a hexadecimal digit, if `c` is one.
pub open spec fn hex_digit(c: char) -> Option<u8> {
    if '0' <= c && c <= '9' {
        Some((c as u32 - '0' as u32) as u8)
    } else if 'a' <= c && c <= 'f' {
        Some((c as u32 - 'a' as u32 + 10) as u8)
    } else if 'A' <= c && c <= 'F' {
        Some((c as u32 - 'A' as u32 + 10) as u8)
    } else {
        None
    }
}

/// The byte written by two characters in base 16. As with Rust's radix
/// parsing of an unsigned number, the first may be a `+` sign before a
/// single digit.
pub open spec fn hex_byte(a: char, b: char) -> Option<u8> {
    match (hex_digit(a), hex_digit(b)) {
        (Some(x), Some(y)) => Some((16 * x + y) as u8),
        (None, Some(y)) => if a == '+' { Some(y) } else { None },
        _ => None,
    }
}

/// `s` without its leading `#` characters.
pub open spec fn strip_hashes(s: Seq<char>) -> Seq<char>
    decreases s.len(),
{
    if s.len() > 0 && s[0] == '#' {
        strip_hashes(s.drop_first())
    } else {
        s
    }
}

/// The colour that `s` writes as `RRGGBB`, after any leading `#`.
pub open spec fn hex_color(s: Seq<char>) -> Option<TerminalColor> {
    let h = strip_hashes(s);
    if h.len() != 6 {
        None
    } else {
        match (hex_byte(h[0], h[1]), hex_byte(h[2], h[3]), hex_byte(h[4], h[5])) {
            (Some(r), Some(g), Some(b)) => Some(TerminalColor { r, g, b }),
            _ => None,
        }
    }
}

fn hex_digit_of(c: char) -> (r: Option<u8>)
    ensures
        r == hex_digit(c),
{
    if '0' <= c && c <= '9' {
        Some((c as u32 - '0' as u32) as u8)
    } else if 'a' <= c && c <= 'f' {
        Some((c as u32 - 'a' as u32 + 10) as u8)
    } else if 'A' <= c && c <= 'F' {
        Some((c as u32 - 'A' as u32 + 10) as u8)
    } else {
        None
    }
}

fn hex_byte_of(a: char, b: char) -> (r: Option<u8>)
    ensures
        r == hex_byte(a, b),
{
    match (hex_digit_of(a), hex_digit_of(b)) {
        (Some(x), Some(y)) => Some(16 * x + y),
        (None, Some(y)) => if a == '+' { Some(y) } else { None },
        _ => None,
    }
}

/// Parses a colour written `#RRGGBB` or `RRGGBB`.
pub fn parse_hex_color(hex: &str) -> (r: Option<TerminalColor>)
    ensures
        r == hex_color(hex@),
{
    let cs = chars_of(hex);
    let mut start: usize = 0;
    assert(cs@.subrange(0, cs@.len() as int) =~= cs@);
    while start < cs.len() && cs[start] == '#'
        invariant
            cs@ == hex@,
            start <= cs@.len(),
            strip_hashes(cs@) == strip_hashes(cs@.subrange(start as int, cs@.len() as int)),
        decreases cs@.len() - start,
    {
        let ghost rest = cs@.subrange(start as int, cs@.len() as int);
        assert(rest.drop_first() =~= cs@.subrange(start as int + 1, cs@.len() as int));
        start += 1;
    }
    let ghost h = cs@.subrange(start as int, cs@.len() as int);
    proof {
        assert(cs@.subrange(0, cs@.len() as int) =~= cs@);
        if start < cs@.len() {
            assert(h[0] != '#');
        }
    }
    assert(strip_hashes(hex@) == h);
    if cs.len() - start != 6 {
        return None;
    }
    let r = hex_byte_of(cs[start], cs[start + 1]);
    let g = hex_byte_of(cs[start + 2], cs[start + 3]);
    let b = hex_byte_of(cs[start + 4], cs[start + 5]);
    match (r, g, b) {
        (Some(r), Some(g), Some(b)) => Some(TerminalColor::from_rgb(r, g, b)),
        _ => None,
    }
}

/// `echo hi` splits into the words `echo` and `hi`.
pub proof fn lemma_tokens_echo_hi()
    ensures
        tokens_of("echo hi"@) == seq!["echo"@, "hi"@],
{
    reveal_strlit("echo hi");
    reveal_strlit("echo");
    reveal_strlit("hi");
    let s = "echo hi"@;
    assert(s =~= seq!['e', 'c', 'h', 'o', ' ', 'h', 'i']);
    let p1 = s.subrange(0, 1);
    let p2 = s.subrange(0, 2);
    let p3 = s.subrange(0, 3);
    let p4 = s.subrange(0, 4);
    let p5 = s.subrange(0, 5);
    let p6 = s.subrange(0, 6);
    assert(p1.drop_last() =~= s.subrange(0, 0));
    assert(p2.drop_last() =~= p1);
    assert(p3.drop_last() =~= p2);
    assert(p4.drop_last() =~= p3);
    assert(p5.drop_last() =~= p4);
    assert(p6.drop_last() =~= p5);
    assert(s.drop_last() =~= p6);
    assert(s.subrange(0, 0) =~= Seq::<char>::empty());
    let t0 = tokenizer_run(s.subrange(0, 0));
    assert(t0 == tokenizer_start());
    let t1 = tokenizer_run(p1);
    assert(p1.last() == 'e');
    assert(t1 == tokenizer_step(t0, 'e'));
    assert(t1.current =~= seq!['e'] && t1.tokens.len() == 0 && t1.token_started && !t1.escape
        && !t1.in_single_quote && !t1.in_double_quote);
    let t2 = tokenizer_run(p2);
    assert(t2 == tokenizer_step(t1, 'c'));
    assert(t2.current =~= seq!['e', 'c'] && t2.tokens.len() == 0 && t2.token_started && !t2.escape
        && !t2.in_single_quote && !t2.in_double_quote);
    let t3 = tokenizer_run(p3);
    assert(t3 == tokenizer_step(t2, 'h'));
    assert(t3.current =~= seq!['e', 'c', 'h'] && t3.tokens.len() == 0 && t3.token_started
        && !t3.escape && !t3.in_single_quote && !t3.in_double_quote);
    let t4 = tokenizer_run(p4);
    assert(t4 == tokenizer_step(t3, 'o'));
    assert(t4.current =~= seq!['e', 'c', 'h', 'o'] && t4.tokens.len() == 0 && t4.token_started
        && !t4.escape && !t4.in_single_quote && !t4.in_double_quote);
    let t5 = tokenizer_run(p5);
    assert(t5 == tokenizer_step(t4, ' '));
    assert(t5.tokens =~= seq![seq!['e', 'c', 'h', 'o']] && t5.current.len() == 0
        && !t5.token_started && !t5.escape && !t5.in_single_quote && !t5.in_double_quote);
    let t6 = tokenizer_run(p6);
    assert(t6 == tokenizer_step(t5, 'h'));
    assert(t6.current =~= seq!['h'] && t6.token_started && !t6.escape && !t6.in_single_quote
        && !t6.in_double_quote);
    let t = tokenizer_run(s);
    assert(t == tokenizer_step(t6, 'i'));
    assert(t.current =~= seq!['h', 'i'] && t.token_started);
    assert(t.tokens =~= seq![seq!['e', 'c', 'h', 'o']]);
    assert("echo"@ =~= seq!['e', 'c', 'h', 'o']);
    assert("hi"@ =~= seq!['h', 'i']);
    assert(tokens_of(s) =~= seq!["echo"@, "hi"@]);
}

} // verus!
