//! The assembler: instruction text to instructions, and whole programs to words.

use vstd::prelude::*;
use vstd::string::*;
use crate::add::Add;
use crate::inst::Instruction;
use crate::lex::{
    Line, extract, imm_of, is_word, is_word_spec, kept_lines, labels_of, lines_view, parse_imm,
    parse_reg, reg_of, symbols_view, tokenize, tokens_of, views,
};
use crate::load::Ldr;
use crate::machine::Op2;
use crate::mul::Mul;
use crate::shf::{Shf, ShfMode};
use crate::store::{Str, StrMode};
use crate::word::{sign_extend, sign_extended, lemma_sign_extend_value};
use crate::xor::Xor;

verus! {

/// Why a line is not an instruction.
#[derive(Clone, Copy, Debug, PartialEq, Eq, Structural)]
pub enum ParseInstructionError {
    /// The line holds no token.
    EmptyStr,
    /// Fewer operands than the instruction takes.
    MissingOps,
    /// More operands than the instruction takes.
    ExtraOps,
    /// The first token names no instruction.
    BadInstruction,
    /// The operands are not separated by `,`.
    ExpectedSep,
    /// An operand is malformed or out of range.
    InvalidOp,
    /// An operand names a label that was never declared.
    UnknownSymbol,
}

/// The mnemonics, numbered: 0 for none.
pub open spec fn mnemonic_kind(m: Seq<char>) -> u8 {
    if m == "add"@ {
        1
    } else if m == "mul"@ {
        2
    } else if m == "xor"@ {
        3
    } else if m == "lsr"@ {
        4
    } else if m == "asr"@ {
        5
    } else if m == "ror"@ {
        6
    } else if m == "lsl"@ {
        7
    } else if m == "asl"@ {
        8
    } else if m == "rol"@ {
        9
    } else if m == "str"@ {
        10
    } else if m == "ldr"@ {
        11
    } else if m == "push"@ {
        12
    } else if m == "pop"@ {
        13
    } else {
        0
    }
}

/// The number of tokens of an instruction of a kind, mnemonic included.
pub open spec fn arity(k: u8) -> nat {
    if k <= 9 {
        4
    } else if k <= 11 {
        5
    } else {
        2
    }
}

/// The binding of a name that was declared last, if any.
pub open spec fn last_binding(syms: Seq<(Seq<char>, nat)>, name: Seq<char>) -> Option<nat>
    decreases syms.len(),
{
    if syms.len() == 0 {
        None
    } else if syms.last().0 == name {
        Some(syms.last().1)
    } else {
        last_binding(syms.drop_last(), name)
    }
}

/// The byte offset from the word after line `index` to line `target`, if it
/// fits a 7-bit word offset.
pub open spec fn relative_offset(target: nat, index: nat) -> Option<u16> {
    let off = target - (index + 1);
    if -64 <= off <= 63 {
        Some(((2 * off + 0x10000) % 0x10000) as u16)
    } else {
        None
    }
}

/// The immediate a kind takes from the text value `v`.
pub open spec fn immediate_for(k: u8, v: u16) -> Option<u16> {
    if k == 1 {
        if v < 0x80 { Some(v) } else { None }
    } else if k == 2 || k == 3 {
        if v < 0x80 { Some(sign_extended(v as int, 7) as u16) } else { None }
    } else if k <= 9 {
        if v < 0x10 { Some(v) } else { None }
    } else {
        if v < 0x80 && v % 2 == 0 { Some(v) } else { None }
    }
}

/// The second operand a token stands for in an instruction of kind `k` on line `index`.
pub open spec fn operand_of(k: u8, t: Seq<char>, syms: Seq<(Seq<char>, nat)>, index: nat) -> Result<
    Op2,
    ParseInstructionError,
> {
    match reg_of(t) {
        Some(r) => if r < 16 { Ok(Op2::Reg(r)) } else { Err(ParseInstructionError::InvalidOp) },
        None => match imm_of(t) {
            Some(v) => match immediate_for(k, v) {
                Some(i) => Ok(Op2::Imm(i)),
                None => Err(ParseInstructionError::InvalidOp),
            },
            None => if (k == 10 || k == 11) && is_word_spec(t) {
                match last_binding(syms, t) {
                    Some(a) => match relative_offset(a, index) {
                        Some(i) => Ok(Op2::Imm(i)),
                        None => Err(ParseInstructionError::InvalidOp),
                    },
                    None => Err(ParseInstructionError::UnknownSymbol),
                }
            } else {
                Err(ParseInstructionError::InvalidOp)
            },
        },
    }
}

/// The instruction of kind `k` with first register `r` and second operand `op`.
pub open spec fn built(k: u8, r: u16, op: Op2) -> Instruction {
    if k == 1 {
        Instruction::Add(Add { op1: r, op2: op })
    } else if k == 2 {
        Instruction::Mul(Mul { op1: r, op2: op })
    } else if k == 3 {
        Instruction::Xor(Xor { op1: r, op2: op })
    } else if k <= 9 {
        Instruction::Shf(Shf { op1: r, op2: op, mode: shift_mode(k) })
    } else if k == 10 {
        Instruction::Str(Str { op1: r, op2: op, mode: StrMode::Str })
    } else if k == 11 {
        Instruction::Ldr(Ldr { op1: r, op2: op, pop: false })
    } else if k == 12 {
        Instruction::Str(Str { op1: r, op2: Op2::Reg(0), mode: StrMode::Push })
    } else {
        Instruction::Ldr(Ldr { op1: r, op2: Op2::Reg(0), pop: true })
    }
}

pub open spec fn shift_mode(k: u8) -> ShfMode {
    if k == 4 {
        ShfMode::Lsr
    } else if k == 5 {
        ShfMode::Asr
    } else if k == 6 {
        ShfMode::Ror
    } else if k == 7 {
        ShfMode::Lsl
    } else if k == 8 {
        ShfMode::Asl
    } else {
        ShfMode::Rol
    }
}

/// The instruction that the tokens of line `index` stand for. The forms are
/// `op rD, x` for the arithmetic, logic and shift mnemonics, `str rD, & x`,
/// `ldr rD, * x`, `push rD` and `pop rD`; `x` is a register, an immediate or,
/// for `str` and `ldr`, a label.
pub open spec fn parsed(t: Seq<Seq<char>>, syms: Seq<(Seq<char>, nat)>, index: nat) -> Result<
    Instruction,
    ParseInstructionError,
> {
    if t.len() == 0 {
        Err(ParseInstructionError::EmptyStr)
    } else if mnemonic_kind(t[0]) == 0 {
        Err(ParseInstructionError::BadInstruction)
    } else if t.len() < arity(mnemonic_kind(t[0])) {
        Err(ParseInstructionError::MissingOps)
    } else if t.len() > arity(mnemonic_kind(t[0])) {
        Err(ParseInstructionError::ExtraOps)
    } else {
        let k = mnemonic_kind(t[0]);
        match reg_of(t[1]) {
            Some(r) if r < 16 => if k >= 12 {
                Ok(built(k, r, Op2::Reg(0)))
            } else if t[2] != ","@ {
                Err(ParseInstructionError::ExpectedSep)
            } else if k == 10 && t[3] != "&"@ {
                Err(ParseInstructionError::InvalidOp)
            } else if k == 11 && t[3] != "*"@ {
                Err(ParseInstructionError::InvalidOp)
            } else {
                match operand_of(k, t[arity(k) - 1], syms, index) {
                    Ok(op) => Ok(built(k, r, op)),
                    Err(e) => Err(e),
                }
            },
            _ => Err(ParseInstructionError::InvalidOp),
        }
    }
}

/// Whether a text equals another.
fn same_text(t: &str, lit: &str) -> (r: bool)
    ensures
        r == (t@ == lit@),
{
    let n = t.unicode_len();
    if n != lit.unicode_len() {
        return false;
    }
    let mut i: usize = 0;
    while i < n
        invariant
            n == t@.len(),
            n == lit@.len(),
            i <= n,
            forall|j: int| 0 <= j < i ==> t@[j] == lit@[j],
        decreases n - i,
    {
        if t.get_char(i) != lit.get_char(i) {
            return false;
        }
        i += 1;
    }
    assert(t@ =~= lit@);
    true
}

fn mnemonic(m: &str) -> (r: u8)
    ensures
        r == mnemonic_kind(m@),
{
    if same_text(m, "add") {
        1
    } else if same_text(m, "mul") {
        2
    } else if same_text(m, "xor") {
        3
    } else if same_text(m, "lsr") {
        4
    } else if same_text(m, "asr") {
        5
    } else if same_text(m, "ror") {
        6
    } else if same_text(m, "lsl") {
        7
    } else if same_text(m, "asl") {
        8
    } else if same_text(m, "rol") {
        9
    } else if same_text(m, "str") {
        10
    } else if same_text(m, "ldr") {
        11
    } else if same_text(m, "push") {
        12
    } else if same_text(m, "pop") {
        13
    } else {
        0
    }
}

/// Looks a label up; the declaration made last wins.
pub fn resolve(symbols: &Vec<(String, usize)>, name: &str) -> (r: Option<usize>)
    ensures
        r matches Some(a) ==> last_binding(symbols_view(symbols@), name@) == Some(a as nat),
        r is None ==> last_binding(symbols_view(symbols@), name@) is None,
{
    let ghost s = symbols_view(symbols@);
    let mut i: usize = symbols.len();
    proof {
        assert(s.take(i as int) =~= s);
    }
    while i > 0
        invariant
            i <= symbols@.len(),
            s == symbols_view(symbols@),
            last_binding(s, name@) == last_binding(s.take(i as int), name@),
        decreases i,
    {
        proof {
            assert(s.take(i as int).drop_last() =~= s.take(i as int - 1));
        }
        if same_text(symbols[i - 1].0.as_str(), name) {
            return Some(symbols[i - 1].1);
        }
        i -= 1;
    }
    proof {
        assert(s.take(0) =~= seq![]);
    }
    None
}

fn relative(target: usize, index: usize) -> (r: Option<u16>)
    ensures
        r == relative_offset(target as nat, index as nat),
{
    if target > index {
        let off = target - index - 1;
        if off <= 63 { Some((2 * off) as u16) } else { None }
    } else {
        let gap = index - target;
        if gap <= 63 { Some((0x10000 - 2 * (gap + 1)) as u16) } else { None }
    }
}

fn immediate(k: u8, v: u16) -> (r: Option<u16>)
    requires
        1 <= k <= 11,
    ensures
        r == immediate_for(k, v),
{
    if k == 1 {
        if v < 0x80 { Some(v) } else { None }
    } else if k == 2 || k == 3 {
        if v < 0x80 {
            proof {
                vstd::arithmetic::power2::lemma2_to64();
                lemma_sign_extend_value(v, 7);
            }
            Some(sign_extend(v, 7))
        } else {
            None
        }
    } else if k <= 9 {
        if v < 0x10 { Some(v) } else { None }
    } else {
        if v < 0x80 && v % 2 == 0 { Some(v) } else { None }
    }
}

fn operand(k: u8, t: &str, symbols: &Vec<(String, usize)>, index: usize) -> (r: Result<Op2, ParseInstructionError>)
    requires
        1 <= k <= 11,
    ensures
        r == operand_of(k, t@, symbols_view(symbols@), index as nat),
{
    match parse_reg(t) {
        Ok(r) => if r < 16 { Ok(Op2::Reg(r)) } else { Err(ParseInstructionError::InvalidOp) },
        Err(_) => match parse_imm(t) {
            Ok(v) => match immediate(k, v) {
                Some(i) => Ok(Op2::Imm(i)),
                None => Err(ParseInstructionError::InvalidOp),
            },
            Err(_) => if (k == 10 || k == 11) && is_word(t) {
                match resolve(symbols, t) {
                    Some(a) => match relative(a, index) {
                        Some(i) => Ok(Op2::Imm(i)),
                        None => Err(ParseInstructionError::InvalidOp),
                    },
                    None => Err(ParseInstructionError::UnknownSymbol),
                }
            } else {
                Err(ParseInstructionError::InvalidOp)
            },
        },
    }
}

fn build(k: u8, r: u16, op: Op2) -> (i: Instruction)
    requires
        1 <= k <= 13,
    ensures
        i == built(k, r, op),
{
    if k == 1 {
        Instruction::Add(Add { op1: r, op2: op })
    } else if k == 2 {
        Instruction::Mul(Mul { op1: r, op2: op })
    } else if k == 3 {
        Instruction::Xor(Xor { op1: r, op2: op })
    } else if k <= 9 {
        let mode = if k == 4 {
            ShfMode::Lsr
        } else if k == 5 {
            ShfMode::Asr
        } else if k == 6 {
            ShfMode::Ror
        } else if k == 7 {
            ShfMode::Lsl
        } else if k == 8 {
            ShfMode::Asl
        } else {
            ShfMode::Rol
        };
        Instruction::Shf(Shf { op1: r, op2: op, mode })
    } else if k == 10 {
        Instruction::Str(Str { op1: r, op2: op, mode: StrMode::Str })
    } else if k == 11 {
        Instruction::Ldr(Ldr { op1: r, op2: op, pop: false })
    } else if k == 12 {
        Instruction::Str(Str { op1: r, op2: Op2::Reg(0), mode: StrMode::Push })
    } else {
        Instruction::Ldr(Ldr { op1: r, op2: Op2::Reg(0), pop: true })
    }
}

/// Parses the tokens of the instruction on line `index` of the program,
/// resolving labels against `symbols`.
pub fn parse_instruction(tokens: &Vec<String>, symbols: &Vec<(String, usize)>, index: usize) -> (r:
    Result<Instruction, ParseInstructionError>)
    ensures
        r == parsed(views(tokens@), symbols_view(symbols@), index as nat),
{
    let ghost t = views(tokens@);
    let n = tokens.len();
    if n == 0 {
        return Err(ParseInstructionError::EmptyStr);
    }
    proof {
        assert(t[0] == tokens@[0]@);
    }
    let k = mnemonic(tokens[0].as_str());
    if k == 0 {
        return Err(ParseInstructionError::BadInstruction);
    }
    let want: usize = if k <= 9 {
        4
    } else if k <= 11 {
        5
    } else {
        2
    };
    if n < want {
        return Err(ParseInstructionError::MissingOps);
    }
    if n > want {
        return Err(ParseInstructionError::ExtraOps);
    }
    proof {
        assert(t[1] == tokens@[1]@);
    }
    let r = match parse_reg(tokens[1].as_str()) {
        Ok(r) => r,
        Err(_) => {
            return Err(ParseInstructionError::InvalidOp);
        },
    };
    if r >= 16 {
        return Err(ParseInstructionError::InvalidOp);
    }
    if k >= 12 {
        return Ok(build(k, r, Op2::Reg(0)));
    }
    proof {
        assert(t[2] == tokens@[2]@);
        assert(t[want - 1] == tokens@[want - 1]@);
    }
    if !same_text(tokens[2].as_str(), ",") {
        return Err(ParseInstructionError::ExpectedSep);
    }
    if k == 10 {
        proof {
            assert(t[3] == tokens@[3]@);
        }
        if !same_text(tokens[3].as_str(), "&") {
            return Err(ParseInstructionError::InvalidOp);
        }
    }
    if k == 11 {
        proof {
            assert(t[3] == tokens@[3]@);
        }
        if !same_text(tokens[3].as_str(), "*") {
            return Err(ParseInstructionError::InvalidOp);
        }
    }
    match operand(k, tokens[want - 1].as_str(), symbols, index) {
        Ok(op) => Ok(build(k, r, op)),
        Err(e) => Err(e),
    }
}

/// The lower-case form of a text.
pub uninterp spec fn lower_of(s: Seq<char>) -> Seq<char>;

/// Relies on str::to_lowercase: the result depends on the text alone.
#[verifier::external_body]
fn lowercase(s: &str) -> (r: String)
    ensures
        r@ == lower_of(s@),
{
    s.to_lowercase()
}

/// The tokens of each source line that is not blank.
pub open spec fn program_lines(src: Seq<Seq<char>>) -> Seq<Seq<Seq<char>>>
    decreases src.len(),
{
    if src.len() == 0 {
        seq![]
    } else {
        match tokens_of(src.last()) {
            Some(t) => program_lines(src.drop_last()).push(t),
            None => program_lines(src.drop_last()),
        }
    }
}

/// The words of the first `n` instruction lines, or the first line that
/// fails with its index among the instruction lines.
pub open spec fn assembled_upto(
    lines: Seq<Seq<Seq<char>>>,
    syms: Seq<(Seq<char>, nat)>,
    n: nat,
) -> Result<Seq<u16>, (nat, ParseInstructionError)>
    decreases n,
{
    if n == 0 {
        Ok(seq![])
    } else {
        match assembled_upto(lines, syms, (n - 1) as nat) {
            Err(e) => Err(e),
            Ok(ws) => match parsed(lines[n - 1], syms, (n - 1) as nat) {
                Ok(i) => Ok(ws.push(i.encoded())),
                Err(e) => Err(((n - 1) as nat, e)),
            },
        }
    }
}

/// What assembling a program gives: labels are taken out, every other line
/// becomes one word.
pub open spec fn assembled(src: Seq<Seq<char>>) -> Result<Seq<u16>, (nat, ParseInstructionError)> {
    let ls = program_lines(src);
    assembled_upto(kept_lines(ls), labels_of(ls), kept_lines(ls).len())
}

/// Each source line lower-cased.
pub open spec fn lowered(src: Seq<Seq<char>>) -> Seq<Seq<char>> {
    src.map_values(|l: Seq<char>| lower_of(l))
}

proof fn lemma_failure_stays(
    lines: Seq<Seq<Seq<char>>>,
    syms: Seq<(Seq<char>, nat)>,
    m: nat,
    n: nat,
)
    requires
        m <= n,
        assembled_upto(lines, syms, m) is Err,
    ensures
        assembled_upto(lines, syms, n) == assembled_upto(lines, syms, m),
    decreases n,
{
    if n > m {
        lemma_failure_stays(lines, syms, m, (n - 1) as nat);
    }
}

/// Assembles a lower-case program, one source line per element; on failure
/// gives the index of the failing line among the instruction lines, and its error.
pub fn assemble_lines(source: &Vec<String>) -> (r: Result<Vec<u16>, (usize, ParseInstructionError)>)
    ensures
        match r {
            Ok(words) => assembled(views(source@)) == Ok::<Seq<u16>, (nat, ParseInstructionError)>(words@),
            Err((j, e)) => assembled(views(source@)) == Err::<Seq<u16>, (nat, ParseInstructionError)>((j as nat, e)),
        },
{
    let ghost src = views(source@);
    let mut lines: Vec<Line> = Vec::new();
    let mut i: usize = 0;
    while i < source.len()
        invariant
            i <= source@.len(),
            src == views(source@),
            lines_view(lines@) == program_lines(src.take(i as int)),
        decreases source@.len() - i,
    {
        proof {
            assert(src.take(i as int + 1).drop_last() =~= src.take(i as int));
            assert(src.take(i as int + 1).last() == source@[i as int]@);
        }
        match tokenize(source[i].as_str()) {
            Some(tokens) => {
                let ghost before = lines@;
                lines.push(Line { tokens });
                proof {
                    assert(lines_view(lines@) =~= lines_view(before).push(views(tokens@)));
                }
            },
            None => {},
        }
        i += 1;
    }
    proof {
        assert(src.take(source@.len() as int) =~= src);
    }
    let ghost ls = lines_view(lines@);
    let symbols = extract(&mut lines);
    let ghost kept = lines_view(lines@);
    let ghost syms = symbols_view(symbols@);
    let mut words: Vec<u16> = Vec::new();
    let mut j: usize = 0;
    while j < lines.len()
        invariant
            j <= lines@.len(),
            kept == lines_view(lines@),
            kept == kept_lines(ls),
            syms == symbols_view(symbols@),
            syms == labels_of(ls),
            ls == program_lines(src),
            src == views(source@),
            assembled_upto(kept, syms, j as nat) == Ok::<Seq<u16>, (nat, ParseInstructionError)>(words@),
        decreases lines@.len() - j,
    {
        proof {
            assert(kept[j as int] == views(lines@[j as int].tokens@));
        }
        match parse_instruction(&lines[j].tokens, &symbols, j) {
            Ok(inst) => {
                let w = inst.encode();
                words.push(w);
            },
            Err(e) => {
                proof {
                    assert(parsed(kept[j as int], syms, j as nat) == Err::<Instruction, ParseInstructionError>(e));
                    assert(assembled_upto(kept, syms, (j + 1) as nat) == Err::<Seq<u16>, (nat, ParseInstructionError)>(
                        (j as nat, e),
                    ));
                    lemma_failure_stays(kept, syms, (j + 1) as nat, kept.len());
                }
                return Err((j, e));
            },
        }
        j += 1;
    }
    Ok(words)
}

/// Lower-cases each line of a program, then assembles it as `assemble_lines` does.
pub fn assemble(source: &Vec<String>) -> (r: Result<Vec<u16>, (usize, ParseInstructionError)>)
    ensures
        match r {
            Ok(words) => assembled(lowered(views(source@))) == Ok::<Seq<u16>, (nat, ParseInstructionError)>(words@),
            Err((j, e)) => assembled(lowered(views(source@))) == Err::<Seq<u16>, (nat, ParseInstructionError)>(
                (j as nat, e),
            ),
        },
{
    let mut lower: Vec<String> = Vec::new();
    let mut i: usize = 0;
    while i < source.len()
        invariant
            i <= source@.len(),
            views(lower@) == lowered(views(source@)).take(i as int),
        decreases source@.len() - i,
    {
        let l = lowercase(source[i].as_str());
        proof {
            let src = views(source@);
            assert(src[i as int] == source@[i as int]@);
            assert(lowered(src)[i as int] == lower_of(src[i as int]));
            assert(views(lower@.push(l)) =~= views(lower@).push(l@));
            assert(lowered(src).take(i as int + 1) =~= lowered(src).take(i as int).push(lowered(src)[i as int]));
        }
        lower.push(l);
        i += 1;
    }
    proof {
        assert(views(lower@) =~= lowered(views(source@)));
    }
    assemble_lines(&lower)
}

} // verus!
