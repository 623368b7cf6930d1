//! The assembler's lexical front end: tokens, registers, immediates, labels.

use vstd::prelude::*;
use vstd::string::*;

verus! {

/// Whether a character is a word character in the Unicode sense of `\w`.
pub uninterp spec fn word_char(c: char) -> bool;

/// Relies on regex::Regex::new and Regex::is_match with the pattern `^\w$`:
/// whether the character is in regex's Unicode `\w` class, the class its word
/// boundary `\b` is drawn by. The result depends on the character alone.
#[verifier::external_body]
fn is_word_char(c: char) -> (r: bool)
    ensures
        r == word_char(c),
{
    let mut buf = [0u8; 4];
    regex::Regex::new(r"^\w$").unwrap().is_match(c.encode_utf8(&mut buf))
}

/// The characters with the Unicode `White_Space` property.
pub open spec fn white_space(c: char) -> bool {
    let u = c as u32;
    (0x9 <= u <= 0xd) || u == 0x20 || u == 0x85 || u == 0xa0 || u == 0x1680 || (0x2000 <= u
        <= 0x200a) || u == 0x2028 || u == 0x2029 || u == 0x202f || u == 0x205f || u == 0x3000
}

/// Relies on char::is_whitespace: true exactly for `White_Space` characters.
#[verifier::external_body]
fn is_space(c: char) -> (r: bool)
    ensures
        r == white_space(c),
{
    c.is_whitespace()
}

/// 0 for white space, 1 for word characters, 2 for all others.
pub open spec fn class_of(c: char) -> u8 {
    if white_space(c) {
        0
    } else if word_char(c) {
        1
    } else {
        2
    }
}

fn char_class(c: char) -> (r: u8)
    ensures
        r == class_of(c),
{
    if is_space(c) {
        0
    } else if is_word_char(c) {
        1
    } else {
        2
    }
}

/// The tokens of a text: maximal runs of word characters and maximal runs of
/// other characters that are not white space, in order.
pub open spec fn lexed(s: Seq<char>) -> Seq<Seq<char>>
    decreases s.len(),
{
    if s.len() == 0 {
        seq![]
    } else {
        let t = lexed(s.drop_last());
        let c = s.last();
        if class_of(c) == 0 {
            t
        } else if s.len() > 1 && class_of(s[s.len() - 2]) == class_of(c) {
            t.drop_last().push(t.last().push(c))
        } else {
            t.push(seq![c])
        }
    }
}

/// The tokens before the first comment marker `;`.
pub open spec fn before_comment(t: Seq<Seq<char>>) -> Seq<Seq<char>>
    decreases t.len(),
{
    if t.len() == 0 {
        t
    } else if t[0] == seq![';'] {
        seq![]
    } else {
        seq![t[0]] + before_comment(t.subrange(1, t.len() as int))
    }
}

pub open spec fn views(v: Seq<String>) -> Seq<Seq<char>> {
    v.map_values(|t: String| t@)
}

/// What `tokenize` returns for a line.
pub open spec fn tokens_of(s: Seq<char>) -> Option<Seq<Seq<char>>> {
    let t = before_comment(lexed(s));
    if t.len() == 0 { None } else { Some(t) }
}

fn lex_line(line: &str) -> (r: Vec<String>)
    ensures
        views(r@) == lexed(line@),
{
    let n = line.unicode_len();
    let ghost s = line@;
    let mut out: Vec<String> = Vec::new();
    let mut start: usize = 0;
    let mut prev: u8 = 0;
    let mut i: usize = 0;
    while i < n
        invariant
            n == s.len(),
            s == line@,
            start <= i <= n,
            i > 0 ==> prev == class_of(s[i - 1]),
            start < i ==> prev != 0,
            start == i ==> (i == 0 || prev == 0),
            start < i ==> views(out@).push(s.subrange(start as int, i as int)) == lexed(s.take(i as int)),
            start == i ==> views(out@) == lexed(s.take(i as int)),
        decreases n - i,
    {
        let c = line.get_char(i);
        let k = char_class(c);
        proof {
            let p = s.take(i as int + 1);
            assert(p.drop_last() =~= s.take(i as int));
            assert(p.last() == c);
            if i > 0 {
                assert(p[p.len() - 2] == s[i - 1]);
            }
        }
        if k == 0 {
            if start < i {
                let tok = line.substring_char(start, i).to_owned();
                proof {
                    assert(views(out@.push(tok)) =~= views(out@).push(tok@));
                }
                out.push(tok);
            }
            start = i + 1;
        } else if start < i && prev == k {
            proof {
                let v = views(out@).push(s.subrange(start as int, i as int));
                assert(s.subrange(start as int, i as int + 1) =~= s.subrange(start as int, i as int).push(c));
                assert(v.drop_last().push(v.last().push(c)) =~= views(out@).push(s.subrange(start as int, i as int + 1)));
            }
        } else {
            if start < i {
                let tok = line.substring_char(start, i).to_owned();
                proof {
                    assert(views(out@.push(tok)) =~= views(out@).push(tok@));
                }
                out.push(tok);
            }
            start = i;
            proof {
                assert(s.subrange(start as int, i as int + 1) =~= seq![c]);
            }
        }
        prev = k;
        i += 1;
    }
    proof {
        assert(s.take(n as int) =~= s);
    }
    if start < n {
        let tok = line.substring_char(start, n).to_owned();
        proof {
            assert(views(out@.push(tok)) =~= views(out@).push(tok@));
        }
        out.push(tok);
    }
    out
}

/// Splits a line into tokens: at white space, and between word characters
/// and other characters; the tokens from the first `;` on are a comment and
/// dropped. `None` when no token is left.
pub fn tokenize(line: &str) -> (r: Option<Vec<String>>)
    ensures
        match r {
            None => tokens_of(line@) is None,
            Some(v) => tokens_of(line@) == Some(views(v@)),
        },
{
    let mut toks = lex_line(line);
    let ghost t = views(toks@);
    let mut k: usize = 0;
    let mut found = false;
    proof {
        assert(t.take(0) =~= seq![]);
        assert(t.skip(0) =~= t);
    }
    while !found && k < toks.len()
        invariant
            t == views(toks@),
            k <= toks@.len(),
            found ==> k < t.len() && t[k as int] == seq![';'],
            before_comment(t) == t.take(k as int) + before_comment(t.skip(k as int)),
        decreases toks@.len() - k + (if found { 0int } else { 1int }),
    {
        let tok = toks[k].as_str();
        let is_comment = tok.unicode_len() == 1 && tok.get_char(0) == ';';
        proof {
            let rest = t.skip(k as int);
            assert(rest[0] == t[k as int]);
            if is_comment {
                assert(t[k as int] =~= seq![';']);
            } else {
                assert(t[k as int] != seq![';']);
            }
            assert(rest.subrange(1, rest.len() as int) =~= t.skip(k as int + 1));
            assert(t.take(k as int + 1) =~= t.take(k as int).push(t[k as int]));
        }
        if is_comment {
            found = true;
        } else {
            k += 1;
        }
    }
    proof {
        if !found {
            assert(t.skip(k as int) =~= seq![]);
        } else {
            assert(t.skip(k as int)[0] == t[k as int]);
        }
    }
    toks.truncate(k);
    proof {
        assert(views(toks@) =~= t.take(k as int));
    }
    if toks.len() == 0 {
        None
    } else {
        Some(toks)
    }
}

/// Whether a token is made of word characters only, and at least one.
pub open spec fn is_word_spec(t: Seq<char>) -> bool {
    t.len() > 0 && forall|i: int| 0 <= i < t.len() ==> word_char(#[trigger] t[i])
}

pub fn is_word(token: &str) -> (r: bool)
    ensures
        r == is_word_spec(token@),
{
    let n = token.unicode_len();
    let mut i: usize = 0;
    while i < n
        invariant
            n == token@.len(),
            i <= n,
            forall|j: int| 0 <= j < i ==> word_char(#[trigger] token@[j]),
        decreases n - i,
    {
        if !is_word_char(token.get_char(i)) {
            return false;
        }
        i += 1;
    }
    n > 0
}

/// Errors of the lexical layer.
#[derive(Debug, PartialEq, Eq)]
pub enum ParseLexemeError {
    EmptyToken,
    InvalidReg(String),
    InvalidImm(String),
}

/// The value of a digit character in bases up to 36; 36 for any other character.
pub open spec fn digit_value(c: char) -> nat {
    let u = c as u32;
    if 0x30 <= u <= 0x39 {
        (u - 0x30) as nat
    } else if 0x61 <= u <= 0x7a {
        (u - 0x61 + 10) as nat
    } else if 0x41 <= u <= 0x5a {
        (u - 0x41 + 10) as nat
    } else {
        36
    }
}

/// The value of a digit string in a base, most significant digit first.
pub open spec fn number_value(s: Seq<char>, base: nat) -> nat
    decreases s.len(),
{
    if s.len() == 0 {
        0
    } else {
        number_value(s.drop_last(), base) * base + digit_value(s.last())
    }
}

/// The word a non-empty string of digits of `base` stands for, if it fits.
pub open spec fn number_of(s: Seq<char>, base: nat) -> Option<u16> {
    if s.len() > 0 && (forall|i: int| 0 <= i < s.len() ==> digit_value(#[trigger] s[i]) < base)
        && number_value(s, base) < 0x10000 {
        Some(number_value(s, base) as u16)
    } else {
        None
    }
}

proof fn lemma_number_grows(s: Seq<char>, base: nat, j: int)
    requires
        base >= 1,
        0 <= j <= s.len(),
    ensures
        number_value(s.take(j), base) <= number_value(s, base),
    decreases s.len(),
{
    if j < s.len() {
        let p = s.drop_last();
        assert(p.take(j) =~= s.take(j));
        lemma_number_grows(p, base, j);
        let x = number_value(p, base);
        assert(x * base >= x) by (nonlinear_arith)
            requires
                base >= 1,
        ;
    } else {
        assert(s.take(j) =~= s);
    }
}

fn digit_of(c: char) -> (r: u32)
    ensures
        r == digit_value(c),
{
    let u = c as u32;
    if 0x30 <= u && u <= 0x39 {
        u - 0x30
    } else if 0x61 <= u && u <= 0x7a {
        u - 0x61 + 10
    } else if 0x41 <= u && u <= 0x5a {
        u - 0x41 + 10
    } else {
        36
    }
}

/// Reads the digits of `s` from character `from` on as a number in `base`.
fn parse_number(s: &str, from: usize, base: u32) -> (r: Option<u16>)
    requires
        2 <= base <= 16,
        from <= s@.len(),
    ensures
        r == number_of(s@.skip(from as int), base as nat),
{
    let n = s.unicode_len();
    let ghost d = s@.skip(from as int);
    if from == n {
        return None;
    }
    let mut acc: u32 = 0;
    let mut i: usize = from;
    while i < n
        invariant
            n == s@.len(),
            from < n,
            d == s@.skip(from as int),
            2 <= base <= 16,
            from <= i <= n,
            acc < 0x10000,
            acc == number_value(d.take(i - from), base as nat),
            forall|j: int| 0 <= j < i - from ==> digit_value(#[trigger] d[j]) < base,
        decreases n - i,
    {
        let c = s.get_char(i);
        let v = digit_of(c);
        proof {
            assert(d[i - from] == c);
            assert(d.take(i - from + 1).drop_last() =~= d.take(i - from));
        }
        if v >= base {
            return None;
        }
        proof {
            assert(acc * base <= 0xffff * 16) by (nonlinear_arith)
                requires
                    acc < 0x10000,
                    base <= 16,
            ;
        }
        let next = acc * base + v;
        if next >= 0x10000 {
            proof {
                lemma_number_grows(d, base as nat, i - from + 1);
            }
            return None;
        }
        acc = next;
        i += 1;
    }
    proof {
        assert(d.take(n - from) =~= d);
    }
    Some(acc as u16)
}

/// The register a token names: `sr`, `lr` and `pc` are 13, 14 and 15, and
/// `r` followed by decimal digits names the register with that number.
pub open spec fn reg_of(t: Seq<char>) -> Option<u16> {
    if t == seq!['s', 'r'] {
        Some(13)
    } else if t == seq!['l', 'r'] {
        Some(14)
    } else if t == seq!['p', 'c'] {
        Some(15)
    } else if t.len() >= 2 && t[0] == 'r' {
        number_of(t.skip(1), 10)
    } else {
        None
    }
}

fn is_pair(t: &str, a: char, b: char) -> (r: bool)
    ensures
        r == (t@ == seq![a, b]),
{
    if t.unicode_len() == 2 && t.get_char(0) == a && t.get_char(1) == b {
        assert(t@ =~= seq![a, b]);
        true
    } else {
        false
    }
}

/// Parses a register token; the number is not checked against the register count.
pub fn parse_reg(token: &str) -> (r: Result<u16, ParseLexemeError>)
    ensures
        match r {
            Ok(v) => reg_of(token@) == Some(v),
            Err(e) => reg_of(token@) is None && (e matches ParseLexemeError::InvalidReg(s) && s@ == token@),
        },
{
    let found = if is_pair(token, 's', 'r') {
        Some(13)
    } else if is_pair(token, 'l', 'r') {
        Some(14)
    } else if is_pair(token, 'p', 'c') {
        Some(15)
    } else if token.unicode_len() >= 2 && token.get_char(0) == 'r' {
        parse_number(token, 1, 10)
    } else {
        None
    };
    match found {
        Some(v) => Ok(v),
        None => Err(ParseLexemeError::InvalidReg(token.to_owned())),
    }
}

/// The base a prefix letter selects: `b`, `d`, `o`, `x`.
pub open spec fn base_of(c: char) -> nat {
    if c == 'b' {
        2
    } else if c == 'd' {
        10
    } else if c == 'o' {
        8
    } else if c == 'x' {
        16
    } else {
        0
    }
}

/// The word an immediate token stands for: `0`, a base letter, then digits of that base.
pub open spec fn imm_of(t: Seq<char>) -> Option<u16> {
    if t.len() >= 3 && t[0] == '0' && base_of(t[1]) != 0 {
        number_of(t.skip(2), base_of(t[1]))
    } else {
        None
    }
}

/// Parses an immediate token with a `0b`, `0d`, `0o` or `0x` prefix.
pub fn parse_imm(token: &str) -> (r: Result<u16, ParseLexemeError>)
    ensures
        match r {
            Ok(v) => imm_of(token@) == Some(v),
            Err(e) => imm_of(token@) is None && (e matches ParseLexemeError::InvalidImm(s) && s@ == token@),
        },
{
    let mut found: Option<u16> = None;
    if token.unicode_len() >= 3 && token.get_char(0) == '0' {
        let c = token.get_char(1);
        let base: u32 = if c == 'b' {
            2
        } else if c == 'd' {
            10
        } else if c == 'o' {
            8
        } else if c == 'x' {
            16
        } else {
            0
        };
        if base != 0 {
            found = parse_number(token, 2, base);
        }
    }
    match found {
        Some(v) => Ok(v),
        None => Err(ParseLexemeError::InvalidImm(token.to_owned())),
    }
}

/// One tokenized, non-blank line of a program.
#[derive(Debug)]
pub struct Line {
    pub tokens: Vec<String>,
}

pub open spec fn line_view(l: Line) -> Seq<Seq<char>> {
    views(l.tokens@)
}

pub open spec fn lines_view(ls: Seq<Line>) -> Seq<Seq<Seq<char>>> {
    ls.map_values(|l: Line| line_view(l))
}

/// A label declaration: a word followed by the symbol marker `:`.
pub open spec fn is_label(t: Seq<Seq<char>>) -> bool {
    t.len() == 2 && is_word_spec(t[0]) && t[1] == seq![':']
}

/// The lines that are not label declarations, in order.
pub open spec fn kept_lines(ls: Seq<Seq<Seq<char>>>) -> Seq<Seq<Seq<char>>>
    decreases ls.len(),
{
    if ls.len() == 0 {
        seq![]
    } else if is_label(ls.last()) {
        kept_lines(ls.drop_last())
    } else {
        kept_lines(ls.drop_last()).push(ls.last())
    }
}

/// Each label declaration in order, with the number of kept lines before it.
pub open spec fn labels_of(ls: Seq<Seq<Seq<char>>>) -> Seq<(Seq<char>, nat)>
    decreases ls.len(),
{
    if ls.len() == 0 {
        seq![]
    } else if is_label(ls.last()) {
        labels_of(ls.drop_last()).push((ls.last()[0], kept_lines(ls.drop_last()).len()))
    } else {
        labels_of(ls.drop_last())
    }
}

pub open spec fn symbols_view(v: Seq<(String, usize)>) -> Seq<(Seq<char>, nat)> {
    v.map_values(|p: (String, usize)| (p.0@, p.1 as nat))
}

fn is_label_line(l: &Line) -> (r: bool)
    ensures
        r == is_label(line_view(*l)),
{
    if l.tokens.len() != 2 {
        return false;
    }
    let second = l.tokens[1].as_str();
    let colon = second.unicode_len() == 1 && second.get_char(0) == ':';
    proof {
        if colon {
            assert(second@ =~= seq![':']);
        }
    }
    colon && is_word(l.tokens[0].as_str())
}

/// Removes the label declarations from `lines` and returns each label with
/// the index of the line it precedes among the lines that remain.
pub fn extract(lines: &mut Vec<Line>) -> (r: Vec<(String, usize)>)
    ensures
        lines_view(final(lines)@) == kept_lines(lines_view(old(lines)@)),
        symbols_view(r@) == labels_of(lines_view(old(lines)@)),
{
    let ghost orig = lines_view(lines@);
    let mut symbols: Vec<(String, usize)> = Vec::new();
    let mut i: usize = 0;
    let ghost mut k: int = 0;
    proof {
        assert(orig.take(0) =~= seq![]);
        assert(kept_lines(orig.take(0)) + orig.skip(0) =~= lines_view(lines@));
    }
    while i < lines.len()
        invariant
            0 <= k <= orig.len(),
            lines_view(lines@) == kept_lines(orig.take(k)) + orig.skip(k),
            i == kept_lines(orig.take(k)).len(),
            symbols_view(symbols@) == labels_of(orig.take(k)),
        decreases orig.len() - k,
    {
        proof {
            assert(lines_view(lines@)[i as int] == orig[k]);
            assert(orig.take(k + 1).drop_last() =~= orig.take(k));
            assert(orig.take(k + 1).last() == orig[k]);
        }
        if is_label_line(&lines[i]) {
            let name = lines[i].tokens[0].clone();
            proof {
                assert(name@ == orig[k][0]);
                assert(symbols_view(symbols@.push((name, i))) =~= symbols_view(symbols@).push((name@, i as nat)));
            }
            symbols.push((name, i));
            let ghost before = lines@;
            lines.remove(i);
            proof {
                let kk = kept_lines(orig.take(k));
                assert(lines_view(lines@) =~= lines_view(before).remove(i as int));
                assert((kk + orig.skip(k)).remove(i as int) =~= kk + orig.skip(k + 1));
                assert(kept_lines(orig.take(k + 1)) == kk);
                assert(lines_view(lines@) =~= kept_lines(orig.take(k + 1)) + orig.skip(k + 1));
            }
        } else {
            proof {
                assert(lines_view(lines@) =~= kept_lines(orig.take(k + 1)) + orig.skip(k + 1));
            }
            i += 1;
        }
        proof {
            k = k + 1;
        }
    }
    proof {
        assert(orig.skip(k).len() == 0);
        assert(orig.take(k) =~= orig);
        assert(lines_view(lines@) =~= kept_lines(orig));
    }
    symbols
}

} // verus!
