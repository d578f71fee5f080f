//! Tokenizing of line-oriented source text: whitespace-separated words, with
//! double-quoted stretches taken whole.
//!
//! The parser proper — turning a token list into an IR instruction — has to
//! read floating-point literals, which this library's verified code cannot
//! hold, so it lives with the unverified surroundings and consumes these
//! tokens; `ParseError` is the vocabulary it reports failures in.

use vstd::prelude::*;

use crate::ir::{Instr, InstrModel, OpKind, Operand, OperandModel};
use crate::strings;
use crate::symbol_table::names_view;

verus! {

/// Why a source line was rejected: a statement with the wrong number of
/// tokens, or one whose leading word (or operation name) is unknown.
#[derive(Debug)]
pub enum ParseError {
    WrongArgumentCount,
    UnknownInstruction(String),
}

/// Token separators: space and tab.
pub open spec fn is_space(c: char) -> bool {
    c == ' ' || c == '\t'
}

/// The first position at or after `i` holding a separator, or the end.
pub open spec fn word_end(s: Seq<char>, i: int) -> int
    decreases s.len() - i,
    when 0 <= i <= s.len()
{
    if i >= s.len() {
        i
    } else if is_space(s[i]) {
        i
    } else {
        word_end(s, i + 1)
    }
}

/// The first position at or after `i` holding a double quote, or the end.
pub open spec fn quote_end(s: Seq<char>, i: int) -> int
    decreases s.len() - i,
    when 0 <= i <= s.len()
{
    if i >= s.len() {
        i
    } else if s[i] == '"' {
        i
    } else {
        quote_end(s, i + 1)
    }
}

proof fn lemma_word_end(s: Seq<char>, i: int)
    requires
        0 <= i <= s.len(),
    ensures
        i <= word_end(s, i) <= s.len(),
        forall|k: int| i <= k < word_end(s, i) ==> !is_space(s[k]),
        word_end(s, i) < s.len() ==> is_space(s[word_end(s, i)]),
    decreases s.len() - i,
{
    if i < s.len() && !is_space(s[i]) {
        lemma_word_end(s, i + 1);
    }
}

proof fn lemma_quote_end(s: Seq<char>, i: int)
    requires
        0 <= i <= s.len(),
    ensures
        i <= quote_end(s, i) <= s.len(),
    decreases s.len() - i,
{
    if i < s.len() && s[i] != '"' {
        lemma_quote_end(s, i + 1);
    }
}

/// A scan that stopped at `j` with no separator before it found the word
/// end.
proof fn lemma_word_end_is(s: Seq<char>, i: int, j: int)
    requires
        0 <= i <= j <= s.len(),
        forall|k: int| i <= k < j ==> !is_space(s[k]),
        j < s.len() ==> is_space(s[j]),
    ensures
        word_end(s, i) == j,
    decreases j - i,
{
    if i < j {
        lemma_word_end_is(s, i + 1, j);
    }
}

/// A scan that stopped at `j` with no quote before it found the closing
/// quote (or the end).
proof fn lemma_quote_end_is(s: Seq<char>, i: int, j: int)
    requires
        0 <= i <= j <= s.len(),
        forall|k: int| i <= k < j ==> s[k] != '"',
        j < s.len() ==> s[j] == '"',
    ensures
        quote_end(s, i) == j,
    decreases j - i,
{
    if i < j {
        lemma_quote_end_is(s, i + 1, j);
    }
}

/// The tokens of `s` from position `i` on.  Separators are skipped; a
/// double quote opens a token that runs to the matching quote (or the end)
/// and is handed on re-wrapped in quotes; any other character opens a token
/// that runs to the next separator.
pub open spec fn spec_tokens_from(s: Seq<char>, i: int) -> Seq<Seq<char>>
    decreases s.len() - i,
    when 0 <= i <= s.len()
    via spec_tokens_from_dec
{
    if i >= s.len() {
        Seq::empty()
    } else if is_space(s[i]) {
        spec_tokens_from(s, i + 1)
    } else if s[i] == '"' {
        let e = quote_end(s, i + 1);
        let tok = seq!['"'] + s.subrange(i + 1, e) + seq!['"'];
        let next = if e < s.len() {
            e + 1
        } else {
            e
        };
        seq![tok] + spec_tokens_from(s, next)
    } else {
        let e = word_end(s, i);
        seq![s.subrange(i, e)] + spec_tokens_from(s, e)
    }
}

#[via_fn]
proof fn spec_tokens_from_dec(s: Seq<char>, i: int) {
    if 0 <= i && i < s.len() {
        if is_space(s[i]) {
        } else if s[i] == '"' {
            lemma_quote_end(s, i + 1);
        } else {
            lemma_word_end(s, i + 1);
        }
    }
}

/// The tokens of a whole line.
pub open spec fn spec_tokens(s: Seq<char>) -> Seq<Seq<char>> {
    spec_tokens_from(s, 0)
}

/// Splits a line into tokens, as `spec_tokens` describes.
pub fn tokenizer(input: &str) -> (r: Vec<String>)
    ensures
        names_view(r@) == spec_tokens(input@),
{
    let chars = strings::chars_of(input);
    let ghost s = input@;
    let n = chars.len();
    let mut tokens: Vec<String> = Vec::new();
    let mut i: usize = 0;
    while i < n
        invariant
            chars@ == s,
            n == s.len(),
            i <= n,
            spec_tokens(s) == names_view(tokens@) + spec_tokens_from(s, i as int),
        decreases n - i,
    {
        let c = chars[i];
        if c == ' ' || c == '\t' {
            i += 1;
        } else if c == '"' {
            let mut buf: Vec<char> = Vec::new();
            buf.push('"');
            let mut j: usize = i + 1;
            while j < n && chars[j] != '"'
                invariant
                    chars@ == s,
                    n == s.len(),
                    i < n,
                    s[i as int] == '"',
                    i + 1 <= j <= n,
                    buf@ == seq!['"'] + s.subrange(i as int + 1, j as int),
                    forall|k: int| i + 1 <= k < j ==> s[k] != '"',
                decreases n - j,
            {
                buf.push(chars[j]);
                j += 1;
            }
            proof {
                lemma_quote_end_is(s, i as int + 1, j as int);
            }
            buf.push('"');
            let ghost tok = seq!['"'] + s.subrange(i as int + 1, j as int) + seq!['"'];
            assert(buf@ =~= tok);
            let ghost names0 = names_view(tokens@);
            tokens.push(strings::string_from_chars(buf));
            let next: usize = if j < n {
                j + 1
            } else {
                j
            };
            proof {
                assert(names_view(tokens@) =~= names0.push(tok));
                assert(spec_tokens_from(s, i as int) == seq![tok] + spec_tokens_from(
                    s,
                    next as int,
                ));
                assert(names0 + (seq![tok] + spec_tokens_from(s, next as int)) =~= names0.push(
                    tok,
                ) + spec_tokens_from(s, next as int));
            }
            i = next;
        } else {
            let mut buf: Vec<char> = Vec::new();
            let mut j: usize = i;
            while j < n && chars[j] != ' ' && chars[j] != '\t'
                invariant
                    chars@ == s,
                    n == s.len(),
                    i <= j <= n,
                    buf@ == s.subrange(i as int, j as int),
                    forall|k: int| i <= k < j ==> !is_space(s[k]),
                decreases n - j,
            {
                buf.push(chars[j]);
                j += 1;
            }
            proof {
                lemma_word_end_is(s, i as int, j as int);
            }
            let ghost tok = s.subrange(i as int, j as int);
            let ghost names0 = names_view(tokens@);
            tokens.push(strings::string_from_chars(buf));
            proof {
                assert(names_view(tokens@) =~= names0.push(tok));
                assert(spec_tokens_from(s, i as int) == seq![tok] + spec_tokens_from(
                    s,
                    j as int,
                ));
                assert(names0 + (seq![tok] + spec_tokens_from(s, j as int)) =~= names0.push(tok)
                    + spec_tokens_from(s, j as int));
            }
            i = j;
        }
    }
    proof {
        assert(names_view(tokens@) + spec_tokens_from(s, n as int) =~= names_view(tokens@));
    }
    tokens
}

/// The first position at or after `i` holding a line break, or the end.
pub open spec fn nl_end(s: Seq<char>, i: int) -> int
    decreases s.len() - i,
    when 0 <= i <= s.len()
{
    if i >= s.len() {
        i
    } else if s[i] == '\n' {
        i
    } else {
        nl_end(s, i + 1)
    }
}

proof fn lemma_nl_end(s: Seq<char>, i: int)
    requires
        0 <= i <= s.len(),
    ensures
        i <= nl_end(s, i) <= s.len(),
    decreases s.len() - i,
{
    if i < s.len() && s[i] != '\n' {
        lemma_nl_end(s, i + 1);
    }
}

/// A scan that stopped at `j` with no line break before it found the line
/// end.
proof fn lemma_nl_end_is(s: Seq<char>, i: int, j: int)
    requires
        0 <= i <= j <= s.len(),
        forall|k: int| i <= k < j ==> s[k] != '\n',
        j < s.len() ==> s[j] == '\n',
    ensures
        nl_end(s, i) == j,
    decreases j - i,
{
    if i < j {
        lemma_nl_end_is(s, i + 1, j);
    }
}

/// One carriage return stripped off the end, so that lines broken with
/// `\r\n` read the same as lines broken with `\n` alone.
pub open spec fn strip_cr(t: Seq<char>) -> Seq<char> {
    if t.len() > 0 && t[t.len() - 1] == '\r' {
        t.drop_last()
    } else {
        t
    }
}

/// The lines of `s` from position `i` on: the stretches between line
/// breaks, each with a trailing carriage return stripped; a final line
/// break opens no further line.
pub open spec fn spec_lines_from(s: Seq<char>, i: int) -> Seq<Seq<char>>
    decreases s.len() - i,
    when 0 <= i <= s.len()
    via spec_lines_from_dec
{
    if i >= s.len() {
        Seq::empty()
    } else {
        let e = nl_end(s, i);
        let next = if e < s.len() {
            e + 1
        } else {
            e
        };
        seq![strip_cr(s.subrange(i, e))] + spec_lines_from(s, next)
    }
}

#[via_fn]
proof fn spec_lines_from_dec(s: Seq<char>, i: int) {
    if 0 <= i && i < s.len() {
        lemma_nl_end(s, i);
    }
}

/// The lines of a whole text.
pub open spec fn spec_lines(s: Seq<char>) -> Seq<Seq<char>> {
    spec_lines_from(s, 0)
}

/// Splits a text into lines, as `spec_lines` describes.
pub fn split_lines(code: &str) -> (r: Vec<String>)
    ensures
        names_view(r@) == spec_lines(code@),
{
    let chars = strings::chars_of(code);
    let ghost s = code@;
    let n = chars.len();
    let mut lines: Vec<String> = Vec::new();
    let mut i: usize = 0;
    while i < n
        invariant
            chars@ == s,
            n == s.len(),
            i <= n,
            spec_lines(s) == names_view(lines@) + spec_lines_from(s, i as int),
        decreases n - i,
    {
        let mut buf: Vec<char> = Vec::new();
        let mut j: usize = i;
        while j < n && chars[j] != '\n'
            invariant
                chars@ == s,
                n == s.len(),
                i <= j <= n,
                buf@ == s.subrange(i as int, j as int),
                forall|k: int| i <= k < j ==> s[k] != '\n',
            decreases n - j,
        {
            buf.push(chars[j]);
            j += 1;
        }
        proof {
            lemma_nl_end_is(s, i as int, j as int);
        }
        if buf.len() > 0 && buf[buf.len() - 1] == '\r' {
            buf.pop();
        }
        let ghost line = strip_cr(s.subrange(i as int, j as int));
        assert(buf@ =~= line);
        let ghost names0 = names_view(lines@);
        lines.push(strings::string_from_chars(buf));
        let next: usize = if j < n {
            j + 1
        } else {
            j
        };
        proof {
            assert(names_view(lines@) =~= names0.push(line));
            assert(spec_lines_from(s, i as int) == seq![line] + spec_lines_from(s, next as int));
            assert(names0 + (seq![line] + spec_lines_from(s, next as int)) =~= names0.push(line)
                + spec_lines_from(s, next as int));
        }
        i = next;
    }
    proof {
        assert(names_view(lines@) + spec_lines_from(s, n as int) =~= names_view(lines@));
    }
    lines
}

/// The mathematical shape of a `ParseError`.
pub enum ParseErrorModel {
    WrongArgumentCount,
    UnknownInstruction(Seq<char>),
}

impl View for ParseError {
    type V = ParseErrorModel;

    open spec fn view(&self) -> ParseErrorModel {
        match self {
            ParseError::WrongArgumentCount => ParseErrorModel::WrongArgumentCount,
            ParseError::UnknownInstruction(text) => ParseErrorModel::UnknownInstruction(text@),
        }
    }
}

/// `t` with every double quote removed, from position `i` on.
pub open spec fn without_quotes_from(t: Seq<char>, i: int) -> Seq<char>
    decreases t.len() - i,
    when 0 <= i <= t.len()
{
    if i >= t.len() {
        Seq::empty()
    } else if t[i] == '"' {
        without_quotes_from(t, i + 1)
    } else {
        seq![t[i]] + without_quotes_from(t, i + 1)
    }
}

/// `t` with every space turned into an underscore.
pub open spec fn underscored(t: Seq<char>) -> Seq<char> {
    t.map_values(|c: char| if c == ' ' { '_' } else { c })
}

/// How a token reads as an operand, given the numeric value (a double bit
/// pattern) that the surrounding program read out of it, if any: the word
/// `null`, a numeric literal, a quoted text with its quotes stripped, or a
/// variable name with spaces made harmless.
pub open spec fn spec_operand(t: Seq<char>, num: Option<u64>) -> OperandModel {
    if t == "null"@ {
        OperandModel::Null
    } else {
        match num {
            Some(bits) => OperandModel::Const(bits),
            None => if t.len() > 0 && t[0] == '"' {
                OperandModel::String(without_quotes_from(t, 0))
            } else {
                OperandModel::Var(underscored(t))
            },
        }
    }
}

/// The operation a token names, if any.
pub open spec fn spec_opkind(t: Seq<char>) -> Option<OpKind> {
    if t == "add"@ {
        Some(OpKind::Add)
    } else if t == "sub"@ {
        Some(OpKind::Sub)
    } else if t == "mul"@ {
        Some(OpKind::Mul)
    } else if t == "div"@ {
        Some(OpKind::Div)
    } else if t == "idiv"@ {
        Some(OpKind::Idiv)
    } else if t == "mod"@ {
        Some(OpKind::Mod)
    } else if t == "pow"@ {
        Some(OpKind::Pow)
    } else {
        None
    }
}

/// The tokens joined back into one line, separated by single spaces.
pub open spec fn spec_join_space(toks: Seq<Seq<char>>) -> Seq<char>
    decreases toks.len(),
{
    if toks.len() == 0 {
        Seq::empty()
    } else if toks.len() == 1 {
        toks[0]
    } else {
        toks[0] + seq![' '] + spec_join_space(toks.drop_first())
    }
}

/// How a token list reads as an instruction: a three-token `set`, a
/// five-token `op` with a known operation, or a reported failure — the
/// wrong token count, an unknown leading word, or (for `op`) an unknown
/// operation reported with the whole line rejoined.
pub open spec fn spec_line(toks: Seq<Seq<char>>, nums: Seq<Option<u64>>) -> Result<
    InstrModel,
    ParseErrorModel,
> {
    if toks.len() == 0 {
        Err(ParseErrorModel::WrongArgumentCount)
    } else if toks[0] == "set"@ {
        if toks.len() != 3 {
            Err(ParseErrorModel::WrongArgumentCount)
        } else {
            Ok(InstrModel::Assign(toks[1], spec_operand(toks[2], nums[2])))
        }
    } else if toks[0] == "op"@ {
        if toks.len() != 5 {
            Err(ParseErrorModel::WrongArgumentCount)
        } else {
            match spec_opkind(toks[1]) {
                Some(kind) => Ok(
                    InstrModel::Op(
                        toks[2],
                        kind,
                        spec_operand(toks[3], nums[3]),
                        spec_operand(toks[4], nums[4]),
                    ),
                ),
                None => Err(ParseErrorModel::UnknownInstruction(spec_join_space(toks))),
            }
        }
    } else {
        Err(ParseErrorModel::UnknownInstruction(toks[0]))
    }
}

/// The outcome of a parse, by shape.
pub open spec fn parse_result_view(r: Result<Instr, ParseError>) -> Result<
    InstrModel,
    ParseErrorModel,
> {
    match r {
        Ok(instr) => Ok(instr@),
        Err(e) => Err(e@),
    }
}

proof fn lemma_join_push(toks: Seq<Seq<char>>, x: Seq<char>)
    requires
        toks.len() >= 1,
    ensures
        spec_join_space(toks.push(x)) == spec_join_space(toks) + seq![' '] + x,
    decreases toks.len(),
{
    let p = toks.push(x);
    assert(p.drop_first() =~= toks.drop_first().push(x));
    if toks.len() == 1 {
        assert(spec_join_space(p.drop_first()) == x);
    } else {
        lemma_join_push(toks.drop_first(), x);
    }
}

/// Joins tokens with single spaces, as `spec_join_space` describes.
fn join_space(tokens: &Vec<String>) -> (r: String)
    ensures
        r@ == spec_join_space(names_view(tokens@)),
{
    let ghost toks = names_view(tokens@);
    let mut acc = String::new();
    if tokens.len() == 0 {
        return acc;
    }
    acc.append(tokens[0].as_str());
    let mut i: usize = 1;
    while i < tokens.len()
        invariant
            1 <= i <= tokens@.len(),
            toks == names_view(tokens@),
            acc@ == spec_join_space(toks.subrange(0, i as int)),
        decreases tokens@.len() - i,
    {
        acc.append(" ");
        acc.append(tokens[i].as_str());
        proof {
            reveal_strlit(" ");
            assert(" "@ =~= seq![' ']);
            assert(toks.subrange(0, i as int + 1) =~= toks.subrange(0, i as int).push(
                toks[i as int],
            ));
            lemma_join_push(toks.subrange(0, i as int), toks[i as int]);
            assert(acc@ =~= spec_join_space(toks.subrange(0, i as int)) + seq![' '] + toks[
                i as int
            ]);
        }
        i += 1;
    }
    proof {
        assert(toks.subrange(0, toks.len() as int) =~= toks);
    }
    acc
}

/// Reads one token as an operand.  `num` is the double bit pattern the
/// caller read out of the token, `None` when the token is not a numeric
/// literal; the caller owns that reading, and everything else about the
/// operand is pinned by `spec_operand`.
pub fn parse_operand(token: &str, num: Option<u64>) -> (r: Operand)
    ensures
        r@ == spec_operand(token@, num),
{
    if strings::str_eq(token, "null") {
        return Operand::Null;
    }
    match num {
        Some(bits) => Operand::Const(bits),
        None => {
            let chars = strings::chars_of(token);
            let ghost t = token@;
            let n = chars.len();
            if n > 0 && chars[0] == '"' {
                let mut buf: Vec<char> = Vec::new();
                let mut i: usize = 0;
                while i < n
                    invariant
                        chars@ == t,
                        n == t.len(),
                        i <= n,
                        without_quotes_from(t, 0) == buf@ + without_quotes_from(t, i as int),
                    decreases n - i,
                {
                    let c = chars[i];
                    if c != '"' {
                        buf.push(c);
                        proof {
                            assert(buf@ + without_quotes_from(t, i as int + 1) =~= (buf@.drop_last()
                                + (seq![t[i as int]] + without_quotes_from(t, i as int + 1))));
                        }
                    }
                    i += 1;
                }
                proof {
                    assert(buf@ + without_quotes_from(t, n as int) =~= buf@);
                }
                Operand::String(strings::string_from_chars(buf))
            } else {
                let mut buf: Vec<char> = Vec::new();
                let mut i: usize = 0;
                while i < n
                    invariant
                        chars@ == t,
                        n == t.len(),
                        i <= n,
                        buf@.len() == i,
                        forall|k: int|
                            0 <= k < i ==> buf@[k] == (if t[k] == ' ' {
                                '_'
                            } else {
                                t[k]
                            }),
                    decreases n - i,
                {
                    let c = chars[i];
                    if c == ' ' {
                        buf.push('_');
                    } else {
                        buf.push(c);
                    }
                    i += 1;
                }
                proof {
                    assert(buf@ =~= underscored(t));
                }
                Operand::Var(strings::string_from_chars(buf))
            }
        },
    }
}

/// Reads one tokenized line as an instruction.  `nums` holds, for each
/// token, the double bit pattern the caller read out of it (`None` when the
/// token is not a numeric literal); given that reading, the instruction —
/// or the reported failure — is pinned by `spec_line`.
pub fn parse_line_with(tokens: &Vec<String>, nums: &Vec<Option<u64>>) -> (r: Result<
    Instr,
    ParseError,
>)
    requires
        nums@.len() == tokens@.len(),
    ensures
        parse_result_view(r) == spec_line(names_view(tokens@), nums@),
{
    if tokens.len() == 0 {
        return Err(ParseError::WrongArgumentCount);
    }
    if strings::str_eq(tokens[0].as_str(), "set") {
        if tokens.len() != 3 {
            return Err(ParseError::WrongArgumentCount);
        }
        let var = tokens[1].clone();
        let oper = parse_operand(tokens[2].as_str(), nums[2]);
        Ok(Instr::Assign(var, oper))
    } else if strings::str_eq(tokens[0].as_str(), "op") {
        if tokens.len() != 5 {
            return Err(ParseError::WrongArgumentCount);
        }
        let kind = if strings::str_eq(tokens[1].as_str(), "add") {
            OpKind::Add
        } else if strings::str_eq(tokens[1].as_str(), "sub") {
            OpKind::Sub
        } else if strings::str_eq(tokens[1].as_str(), "mul") {
            OpKind::Mul
        } else if strings::str_eq(tokens[1].as_str(), "div") {
            OpKind::Div
        } else if strings::str_eq(tokens[1].as_str(), "idiv") {
            OpKind::Idiv
        } else if strings::str_eq(tokens[1].as_str(), "mod") {
            OpKind::Mod
        } else if strings::str_eq(tokens[1].as_str(), "pow") {
            OpKind::Pow
        } else {
            return Err(ParseError::UnknownInstruction(join_space(tokens)));
        };
        let var = tokens[2].clone();
        let left = parse_operand(tokens[3].as_str(), nums[3]);
        let right = parse_operand(tokens[4].as_str(), nums[4]);
        Ok(Instr::Op(var, kind, left, right))
    } else {
        Err(ParseError::UnknownInstruction(tokens[0].clone()))
    }
}

/// Reads a batch of tokenized lines as instructions, one outcome per line.
/// `num_lines` holds, line by line, the numeric reading of each token, as
/// `parse_line_with` takes it; given those readings every outcome is pinned
/// by `spec_line`.
pub fn parse_code_with(
    token_lines: &Vec<Vec<String>>,
    num_lines: &Vec<Vec<Option<u64>>>,
) -> (r: Vec<Result<Instr, ParseError>>)
    requires
        num_lines@.len() == token_lines@.len(),
        forall|i: int|
            0 <= i < token_lines@.len() ==> (#[trigger] num_lines@[i])@.len()
                == token_lines@[i]@.len(),
    ensures
        r@.len() == token_lines@.len(),
        forall|i: int|
            0 <= i < r@.len() ==> parse_result_view(#[trigger] r@[i]) == spec_line(
                names_view(token_lines@[i]@),
                num_lines@[i]@,
            ),
{
    let mut out: Vec<Result<Instr, ParseError>> = Vec::new();
    let mut i: usize = 0;
    while i < token_lines.len()
        invariant
            num_lines@.len() == token_lines@.len(),
            forall|k: int|
                0 <= k < token_lines@.len() ==> (#[trigger] num_lines@[k])@.len()
                    == token_lines@[k]@.len(),
            i <= token_lines@.len(),
            out@.len() == i,
            forall|k: int|
                0 <= k < i ==> parse_result_view(#[trigger] out@[k]) == spec_line(
                    names_view(token_lines@[k]@),
                    num_lines@[k]@,
                ),
        decreases token_lines@.len() - i,
    {
        out.push(parse_line_with(&token_lines[i], &num_lines[i]));
        i += 1;
    }
    out
}

} // verus!
