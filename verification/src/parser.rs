//! From source text to instructions: the three tokens of the language, and
//! the grammar that groups them into instructions.
use vstd::prelude::*;
use crate::instruction::{
    operand_kind, operand_kind_spec, views, CommandKind, ImpKind, Instruction, InstructionView, OperandKind,
    ParamKind, ParamView,
};
use crate::machine::wrap;

verus! {

/// The three significant symbols of a program's source text.
#[derive(Clone, Copy, Debug, PartialEq, Eq, Structural)]
pub enum Token {
    Space,
    Tab,
    LineFeed,
}

/// How the source text spells the three tokens.
#[derive(Clone, Copy, Debug, PartialEq, Eq, Structural)]
pub enum SourceType {
    /// A space, a tab and a line feed.
    Whitespace,
    /// The capital letters `S`, `T` and `L`.
    Mnemonic,
}

/// Why a source text is not a program.
#[derive(Clone, Copy, Debug, PartialEq, Eq, Structural)]
pub enum ParseErrorKind {
    /// The text ends inside the code of a family.
    UnrecognizedImp,
    /// No command of the family has the code that follows.
    UnrecognizedCommand,
    /// The text ends before the line feed that closes an operand.
    UnterminatedOperand,
}

/// The token that a byte of the source spells, if any.
pub open spec fn token_of(byte: u8, source_type: SourceType) -> Option<Token> {
    match source_type {
        SourceType::Whitespace => if byte == 32 {
            Some(Token::Space)
        } else if byte == 9 {
            Some(Token::Tab)
        } else if byte == 10 {
            Some(Token::LineFeed)
        } else {
            None
        },
        SourceType::Mnemonic => if byte == 83 {
            Some(Token::Space)
        } else if byte == 84 {
            Some(Token::Tab)
        } else if byte == 76 {
            Some(Token::LineFeed)
        } else {
            None
        },
    }
}

/// The tokens of a source text, in order; every other byte is dropped.
pub open spec fn tokens_of(source: Seq<u8>, source_type: SourceType) -> Seq<Token>
    decreases source.len(),
{
    if source.len() == 0 {
        Seq::empty()
    } else {
        match token_of(source.last(), source_type) {
            Some(t) => tokens_of(source.drop_last(), source_type).push(t),
            None => tokens_of(source.drop_last(), source_type),
        }
    }
}

pub open spec fn token_at(ts: Seq<Token>, p: int) -> Option<Token> {
    if 0 <= p < ts.len() {
        Some(ts[p])
    } else {
        None
    }
}

/// The family whose code starts at `p`, and the length of that code.
pub open spec fn imp_spec(a: Option<Token>, b: Option<Token>) -> Option<(ImpKind, int)> {
    match a {
        Some(Token::Space) => Some((ImpKind::Stack, 1)),
        Some(Token::LineFeed) => Some((ImpKind::Flow, 1)),
        Some(Token::Tab) => match b {
            Some(Token::Space) => Some((ImpKind::Arithmetic, 2)),
            Some(Token::Tab) => Some((ImpKind::Heap, 2)),
            Some(Token::LineFeed) => Some((ImpKind::IO, 2)),
            None => None,
        },
        None => None,
    }
}

/// The command of family `imp` whose code starts with the tokens `a` and
/// `b`, and the length of that code.
pub open spec fn command_spec(imp: ImpKind, a: Option<Token>, b: Option<Token>) -> Option<(CommandKind, int)> {
    match imp {
        ImpKind::Stack => match (a, b) {
            (Some(Token::Space), _) => Some((CommandKind::PushStack, 1)),
            (Some(Token::Tab), Some(Token::Space)) => Some((CommandKind::CopyNthStack, 2)),
            (Some(Token::Tab), Some(Token::LineFeed)) => Some((CommandKind::SlideNStack, 2)),
            (Some(Token::LineFeed), Some(Token::Space)) => Some((CommandKind::DuplicateStack, 2)),
            (Some(Token::LineFeed), Some(Token::Tab)) => Some((CommandKind::SwapStack, 2)),
            (Some(Token::LineFeed), Some(Token::LineFeed)) => Some((CommandKind::DiscardStack, 2)),
            _ => None,
        },
        ImpKind::Arithmetic => match (a, b) {
            (Some(Token::Space), Some(Token::Space)) => Some((CommandKind::Add, 2)),
            (Some(Token::Space), Some(Token::Tab)) => Some((CommandKind::Subtract, 2)),
            (Some(Token::Space), Some(Token::LineFeed)) => Some((CommandKind::Multiply, 2)),
            (Some(Token::Tab), Some(Token::Space)) => Some((CommandKind::IntegerDivision, 2)),
            (Some(Token::Tab), Some(Token::Tab)) => Some((CommandKind::Modulo, 2)),
            _ => None,
        },
        ImpKind::Heap => match a {
            Some(Token::Space) => Some((CommandKind::StoreHeap, 1)),
            Some(Token::Tab) => Some((CommandKind::RetrieveHeap, 1)),
            _ => None,
        },
        ImpKind::Flow => match (a, b) {
            (Some(Token::Space), Some(Token::Space)) => Some((CommandKind::Mark, 2)),
            (Some(Token::Space), Some(Token::Tab)) => Some((CommandKind::Call, 2)),
            (Some(Token::Space), Some(Token::LineFeed)) => Some((CommandKind::Jump, 2)),
            (Some(Token::Tab), Some(Token::Space)) => Some((CommandKind::JumpZero, 2)),
            (Some(Token::Tab), Some(Token::Tab)) => Some((CommandKind::JumpNegative, 2)),
            (Some(Token::Tab), Some(Token::LineFeed)) => Some((CommandKind::Return, 2)),
            (Some(Token::LineFeed), Some(Token::LineFeed)) => Some((CommandKind::Exit, 2)),
            _ => None,
        },
        ImpKind::IO => match (a, b) {
            (Some(Token::Space), Some(Token::Space)) => Some((CommandKind::OutCharacter, 2)),
            (Some(Token::Space), Some(Token::Tab)) => Some((CommandKind::OutInteger, 2)),
            (Some(Token::Tab), Some(Token::Space)) => Some((CommandKind::ReadCharacter, 2)),
            (Some(Token::Tab), Some(Token::Tab)) => Some((CommandKind::ReadInteger, 2)),
            _ => None,
        },
    }
}

/// The position of the first line feed at or after `p`.
pub open spec fn operand_end(ts: Seq<Token>, p: int) -> Option<int>
    decreases ts.len() - p,
{
    if p < 0 || p >= ts.len() {
        None
    } else if ts[p] == Token::LineFeed {
        Some(p)
    } else {
        operand_end(ts, p + 1)
    }
}

/// The bits that the tokens of an operand spell: a tab is `true`.
pub open spec fn bits_of(ts: Seq<Token>) -> Seq<bool> {
    Seq::new(ts.len(), |k: int| ts[k] == Token::Tab)
}

/// The number that binary digits denote, the most significant first.
pub open spec fn binary_value(bits: Seq<bool>) -> nat
    decreases bits.len(),
{
    if bits.len() == 0 {
        0
    } else {
        2 * binary_value(bits.drop_last()) + (if bits.last() { 1nat } else { 0nat })
    }
}

/// The number that the bits of a number operand denote: the first bit is
/// the sign, `true` for minus, the others the magnitude; the result is
/// wrapped into `i32`. No bits at all denote zero.
pub open spec fn number_of(bits: Seq<bool>) -> i32 {
    if bits.len() == 0 {
        0
    } else if bits[0] {
        wrap(-(binary_value(bits.skip(1)) as int))
    } else {
        wrap(binary_value(bits.skip(1)) as int)
    }
}

/// The instruction that starts at `p`, and the position just behind it.
pub open spec fn decode_one(ts: Seq<Token>, p: int) -> Result<(InstructionView, int), ParseErrorKind> {
    match imp_spec(token_at(ts, p), token_at(ts, p + 1)) {
        None => Err(ParseErrorKind::UnrecognizedImp),
        Some((imp, n)) => match command_spec(imp, token_at(ts, p + n), token_at(ts, p + n + 1)) {
            None => Err(ParseErrorKind::UnrecognizedCommand),
            Some((cmd, c)) => {
                let q = p + n + c;
                match operand_kind_spec(cmd) {
                    OperandKind::Nothing => Ok((InstructionView { imp, cmd, param: None }, q)),
                    OperandKind::Number => match operand_end(ts, q) {
                        None => Err(ParseErrorKind::UnterminatedOperand),
                        Some(e) => Ok(
                            (
                                InstructionView {
                                    imp,
                                    cmd,
                                    param: Some(ParamView::Number(number_of(bits_of(ts.subrange(q, e))))),
                                },
                                e + 1,
                            ),
                        ),
                    },
                    OperandKind::Label => match operand_end(ts, q) {
                        None => Err(ParseErrorKind::UnterminatedOperand),
                        Some(e) => Ok(
                            (
                                InstructionView {
                                    imp,
                                    cmd,
                                    param: Some(ParamView::Label(bits_of(ts.subrange(q, e)), None)),
                                },
                                e + 1,
                            ),
                        ),
                    },
                }
            },
        },
    }
}

/// `prefix` put before the instructions of `rest`; an error stays.
pub open spec fn prepend(
    prefix: Seq<InstructionView>,
    rest: Result<Seq<InstructionView>, ParseErrorKind>,
) -> Result<Seq<InstructionView>, ParseErrorKind> {
    match rest {
        Ok(tail) => Ok(prefix + tail),
        Err(e) => Err(e),
    }
}

/// The instructions from `p` to the end of the tokens, or the first error.
pub open spec fn decode_from(ts: Seq<Token>, p: int) -> Result<Seq<InstructionView>, ParseErrorKind>
    decreases ts.len() - p,
    via decode_from_decreases
{
    if p < 0 || p >= ts.len() {
        Ok(Seq::empty())
    } else {
        match decode_one(ts, p) {
            Err(e) => Err(e),
            Ok((i, q)) => prepend(seq![i], decode_from(ts, q)),
        }
    }
}

#[via_fn]
proof fn decode_from_decreases(ts: Seq<Token>, p: int) {
    if 0 <= p {
        lemma_decode_one_advances(ts, p);
    }
}

/// The program that a source text spells, labels not yet resolved.
pub open spec fn program_of(source: Seq<u8>, source_type: SourceType) -> Result<Seq<InstructionView>, ParseErrorKind> {
    decode_from(tokens_of(source, source_type), 0)
}

pub proof fn lemma_operand_end(ts: Seq<Token>, p: int)
    requires
        0 <= p,
    ensures
        match operand_end(ts, p) {
            Some(e) => p <= e < ts.len() && ts[e] == Token::LineFeed,
            None => true,
        },
    decreases ts.len() - p,
{
    if p < ts.len() && ts[p] != Token::LineFeed {
        lemma_operand_end(ts, p + 1);
    }
}

/// Every instruction takes at least one token and ends inside the text.
pub proof fn lemma_decode_one_advances(ts: Seq<Token>, p: int)
    requires
        0 <= p,
    ensures
        match decode_one(ts, p) {
            Ok((_, q)) => p < q <= ts.len(),
            Err(_) => true,
        },
{
    match imp_spec(token_at(ts, p), token_at(ts, p + 1)) {
        None => {},
        Some((imp, n)) => match command_spec(imp, token_at(ts, p + n), token_at(ts, p + n + 1)) {
            None => {},
            Some((cmd, c)) => {
                lemma_operand_end(ts, p + n + c);
            },
        },
    }
}

/// The spelling that a name stands for: `ws` for spaces, tabs and line
/// feeds, `stl` for the letters.
pub open spec fn source_type_named(name: Seq<u8>) -> Option<SourceType> {
    if name =~= seq![119u8, 115u8] {
        Some(SourceType::Whitespace)
    } else if name =~= seq![115u8, 116u8, 108u8] {
        Some(SourceType::Mnemonic)
    } else {
        None
    }
}

impl SourceType {
    /// The spelling that `name` stands for, if it is the name of one.
    pub fn from_name(name: &[u8]) -> (source_type: Option<SourceType>)
        ensures
            source_type == source_type_named(name@),
    {
        if name.len() == 2 && name[0] == 119 && name[1] == 115 {
            Some(SourceType::Whitespace)
        } else if name.len() == 3 && name[0] == 115 && name[1] == 116 && name[2] == 108 {
            Some(SourceType::Mnemonic)
        } else {
            proof {
                if name@ =~= seq![119u8, 115u8] {
                    assert(name@.len() == 2 && name@[0] == 119 && name@[1] == 115);
                }
                if name@ =~= seq![115u8, 116u8, 108u8] {
                    assert(name@.len() == 3 && name@[0] == 115 && name@[1] == 116 && name@[2] == 108);
                }
            }
            None
        }
    }
}

/// The token that a byte of the source spells, if any.
pub fn token(byte: u8, source_type: SourceType) -> (t: Option<Token>)
    ensures
        t == token_of(byte, source_type),
{
    match source_type {
        SourceType::Whitespace => if byte == 32 {
            Some(Token::Space)
        } else if byte == 9 {
            Some(Token::Tab)
        } else if byte == 10 {
            Some(Token::LineFeed)
        } else {
            None
        },
        SourceType::Mnemonic => if byte == 83 {
            Some(Token::Space)
        } else if byte == 84 {
            Some(Token::Tab)
        } else if byte == 76 {
            Some(Token::LineFeed)
        } else {
            None
        },
    }
}

/// The tokens of a source text.
pub fn tokenize(source: &[u8], source_type: SourceType) -> (tokens: Vec<Token>)
    ensures
        tokens@ == tokens_of(source@, source_type),
{
    let mut tokens: Vec<Token> = Vec::new();
    let mut k: usize = 0;
    while k < source.len()
        invariant
            k <= source.len(),
            tokens@ == tokens_of(source@.take(k as int), source_type),
        decreases source.len() - k,
    {
        assert(source@.take(k + 1).drop_last() =~= source@.take(k as int));
        match token(source[k], source_type) {
            Some(t) => {
                tokens.push(t);
            },
            None => {},
        }
        k += 1;
    }
    assert(source@.take(k as int) =~= source@);
    tokens
}

fn peek(tokens: &Vec<Token>, p: usize) -> (t: Option<Token>)
    ensures
        t == token_at(tokens@, p as int),
{
    if p < tokens.len() {
        Some(tokens[p])
    } else {
        None
    }
}

/// The token behind position `p`.
fn peek_after(tokens: &Vec<Token>, p: usize) -> (t: Option<Token>)
    ensures
        t == token_at(tokens@, p + 1),
{
    if p < tokens.len() {
        peek(tokens, p + 1)
    } else {
        None
    }
}

fn imp(a: Option<Token>, b: Option<Token>) -> (r: Option<(ImpKind, usize)>)
    ensures
        match r {
            Some((kind, n)) => imp_spec(a, b) == Some((kind, n as int)) && 1 <= n <= 2 && (n == 2 ==> b is Some)
                && a is Some,
            None => imp_spec(a, b) is None,
        },
{
    match a {
        Some(Token::Space) => Some((ImpKind::Stack, 1)),
        Some(Token::LineFeed) => Some((ImpKind::Flow, 1)),
        Some(Token::Tab) => match b {
            Some(Token::Space) => Some((ImpKind::Arithmetic, 2)),
            Some(Token::Tab) => Some((ImpKind::Heap, 2)),
            Some(Token::LineFeed) => Some((ImpKind::IO, 2)),
            None => None,
        },
        None => None,
    }
}

fn command(imp: ImpKind, a: Option<Token>, b: Option<Token>) -> (r: Option<(CommandKind, usize)>)
    ensures
        match r {
            Some((cmd, c)) => command_spec(imp, a, b) == Some((cmd, c as int)) && 1 <= c <= 2 && (c == 2 ==> b
                is Some) && a is Some,
            None => command_spec(imp, a, b) is None,
        },
{
    match imp {
        ImpKind::Stack => match (a, b) {
            (Some(Token::Space), _) => Some((CommandKind::PushStack, 1)),
            (Some(Token::Tab), Some(Token::Space)) => Some((CommandKind::CopyNthStack, 2)),
            (Some(Token::Tab), Some(Token::LineFeed)) => Some((CommandKind::SlideNStack, 2)),
            (Some(Token::LineFeed), Some(Token::Space)) => Some((CommandKind::DuplicateStack, 2)),
            (Some(Token::LineFeed), Some(Token::Tab)) => Some((CommandKind::SwapStack, 2)),
            (Some(Token::LineFeed), Some(Token::LineFeed)) => Some((CommandKind::DiscardStack, 2)),
            _ => None,
        },
        ImpKind::Arithmetic => match (a, b) {
            (Some(Token::Space), Some(Token::Space)) => Some((CommandKind::Add, 2)),
            (Some(Token::Space), Some(Token::Tab)) => Some((CommandKind::Subtract, 2)),
            (Some(Token::Space), Some(Token::LineFeed)) => Some((CommandKind::Multiply, 2)),
            (Some(Token::Tab), Some(Token::Space)) => Some((CommandKind::IntegerDivision, 2)),
            (Some(Token::Tab), Some(Token::Tab)) => Some((CommandKind::Modulo, 2)),
            _ => None,
        },
        ImpKind::Heap => match a {
            Some(Token::Space) => Some((CommandKind::StoreHeap, 1)),
            Some(Token::Tab) => Some((CommandKind::RetrieveHeap, 1)),
            _ => None,
        },
        ImpKind::Flow => match (a, b) {
            (Some(Token::Space), Some(Token::Space)) => Some((CommandKind::Mark, 2)),
            (Some(Token::Space), Some(Token::Tab)) => Some((CommandKind::Call, 2)),
            (Some(Token::Space), Some(Token::LineFeed)) => Some((CommandKind::Jump, 2)),
            (Some(Token::Tab), Some(Token::Space)) => Some((CommandKind::JumpZero, 2)),
            (Some(Token::Tab), Some(Token::Tab)) => Some((CommandKind::JumpNegative, 2)),
            (Some(Token::Tab), Some(Token::LineFeed)) => Some((CommandKind::Return, 2)),
            (Some(Token::LineFeed), Some(Token::LineFeed)) => Some((CommandKind::Exit, 2)),
            _ => None,
        },
        ImpKind::IO => match (a, b) {
            (Some(Token::Space), Some(Token::Space)) => Some((CommandKind::OutCharacter, 2)),
            (Some(Token::Space), Some(Token::Tab)) => Some((CommandKind::OutInteger, 2)),
            (Some(Token::Tab), Some(Token::Space)) => Some((CommandKind::ReadCharacter, 2)),
            (Some(Token::Tab), Some(Token::Tab)) => Some((CommandKind::ReadInteger, 2)),
            _ => None,
        },
    }
}

/// The position of the first line feed at or after `p`.
fn find_operand_end(tokens: &Vec<Token>, p: usize) -> (end: Option<usize>)
    requires
        p <= tokens.len(),
    ensures
        match end {
            Some(e) => operand_end(tokens@, p as int) == Some(e as int) && p <= e < tokens.len(),
            None => operand_end(tokens@, p as int) is None,
        },
{
    let mut k: usize = p;
    while k < tokens.len()
        invariant
            p <= k <= tokens.len(),
            operand_end(tokens@, p as int) == operand_end(tokens@, k as int),
        decreases tokens.len() - k,
    {
        if tokens[k] == Token::LineFeed {
            return Some(k);
        }
        k += 1;
    }
    None
}

/// The bits that the tokens from `from` up to `to` spell.
fn read_bits(tokens: &Vec<Token>, from: usize, to: usize) -> (bits: Vec<bool>)
    requires
        from <= to <= tokens.len(),
    ensures
        bits@ == bits_of(tokens@.subrange(from as int, to as int)),
{
    let mut bits: Vec<bool> = Vec::new();
    let mut k: usize = from;
    while k < to
        invariant
            from <= k <= to <= tokens.len(),
            bits@ == bits_of(tokens@.subrange(from as int, k as int)),
        decreases to - k,
    {
        bits.push(tokens[k] == Token::Tab);
        k += 1;
        assert(bits@ =~= bits_of(tokens@.subrange(from as int, k as int)));
    }
    bits
}

/// A multiple of 2^32 more or less does not change what a number wraps to.
proof fn lemma_wrap_shift(x: int, j: int)
    ensures
        wrap(x + 0x1_0000_0000 * j) == wrap(x),
{
    vstd::arithmetic::div_mod::lemma_mod_multiples_vanish(j, x, 0x1_0000_0000);
}

/// What a number wraps to differs from it by a multiple of 2^32.
proof fn lemma_wrap_offset(v: int) -> (k: int)
    ensures
        wrap(v) == v - 0x1_0000_0000 * k,
{
    vstd::arithmetic::div_mod::lemma_fundamental_div_mod(v, 0x1_0000_0000);
    if v % 0x1_0000_0000 > i32::MAX {
        v / 0x1_0000_0000 + 1
    } else {
        v / 0x1_0000_0000
    }
}

/// A magnitude may be wrapped after every digit, and before the sign is
/// applied: the result is the same.
proof fn lemma_wrap_step(v: int, bit: int)
    ensures
        wrap(2 * wrap(v) + bit) == wrap(2 * v + bit),
        wrap(-wrap(v)) == wrap(-v),
{
    let k = lemma_wrap_offset(v);
    lemma_wrap_shift(2 * v + bit, -2 * k);
    lemma_wrap_shift(-v, k);
}

/// The number that the bits of a number operand denote.
pub fn number_from_bits(bits: &Vec<bool>) -> (number: i32)
    ensures
        number == number_of(bits@),
{
    if bits.len() == 0 {
        return 0;
    }
    let ghost digits = bits@.skip(1);
    let mut acc: i32 = 0;
    let mut k: usize = 1;
    while k < bits.len()
        invariant
            1 <= k <= bits.len(),
            digits == bits@.skip(1),
            acc == wrap(binary_value(digits.take(k - 1)) as int),
        decreases bits.len() - k,
    {
        let bit: i32 = if bits[k] { 1 } else { 0 };
        proof {
            assert(digits.take(k as int).drop_last() =~= digits.take(k - 1));
            assert(digits.take(k as int).last() == bits@[k as int]);
            lemma_wrap_step(binary_value(digits.take(k - 1)) as int, bit as int);
        }
        acc = acc.wrapping_mul(2).wrapping_add(bit);
        k += 1;
    }
    assert(digits.take(k - 1) =~= digits);
    proof {
        lemma_wrap_step(binary_value(digits) as int, 0);
    }
    if bits[0] {
        0i32.wrapping_sub(acc)
    } else {
        acc
    }
}

/// Decodes the instruction that starts at `p`; gives it with the position
/// just behind it.
pub fn decode_instruction(tokens: &Vec<Token>, p: usize) -> (r: Result<(Instruction, usize), ParseErrorKind>)
    requires
        p < tokens.len(),
    ensures
        match r {
            Ok((instr, q)) => decode_one(tokens@, p as int) == Ok::<_, ParseErrorKind>((instr@, q as int)) && p < q
                <= tokens.len(),
            Err(e) => decode_one(tokens@, p as int) == Err::<(InstructionView, int), _>(e),
        },
{
    let (kind, n) = match imp(peek(tokens, p), peek_after(tokens, p)) {
        Some(found) => found,
        None => {
            return Err(ParseErrorKind::UnrecognizedImp);
        },
    };
    let at: usize = p + n;
    let (cmd, c) = match command(kind, peek(tokens, at), peek_after(tokens, at)) {
        Some(found) => found,
        None => {
            return Err(ParseErrorKind::UnrecognizedCommand);
        },
    };
    let q: usize = at + c;
    match operand_kind(cmd) {
        OperandKind::Nothing => Ok((Instruction { imp: kind, cmd, param: None }, q)),
        OperandKind::Number => match find_operand_end(tokens, q) {
            None => Err(ParseErrorKind::UnterminatedOperand),
            Some(e) => {
                let bits = read_bits(tokens, q, e);
                let number: i32 = number_from_bits(&bits);
                Ok((Instruction { imp: kind, cmd, param: Some(ParamKind::Number(number)) }, e + 1))
            },
        },
        OperandKind::Label => match find_operand_end(tokens, q) {
            None => Err(ParseErrorKind::UnterminatedOperand),
            Some(e) => {
                let bits = read_bits(tokens, q, e);
                Ok((Instruction { imp: kind, cmd, param: Some(ParamKind::Label(bits, None)) }, e + 1))
            },
        },
    }
}

/// A decoder over one source text: it gives the instructions one by one
/// and cannot be rewound.
pub struct Parser {
    tokens: Vec<Token>,
    position: usize,
}

impl Parser {
    /// The tokens of the source text.
    pub closed spec fn tokens(&self) -> Seq<Token> {
        self.tokens@
    }

    /// The position of the first token that has not been decoded.
    pub closed spec fn position(&self) -> int {
        self.position as int
    }

    /// The position is inside the tokens or at their end.
    pub open spec fn wf(&self) -> bool {
        0 <= self.position() <= self.tokens().len()
    }

    /// A decoder at the start of `source`.
    pub fn new(source: &[u8], source_type: SourceType) -> (parser: Parser)
        ensures
            parser.tokens() == tokens_of(source@, source_type),
            parser.position() == 0,
            parser.wf(),
    {
        Parser { tokens: tokenize(source, source_type), position: 0 }
    }

    /// Decodes the next instruction. `None` at the end of the text; after
    /// an error the decoder is at the end too.
    pub fn next_instruction(&mut self) -> (next: Option<Result<Instruction, ParseErrorKind>>)
        requires
            old(self).wf(),
        ensures
            final(self).wf(),
            final(self).tokens() == old(self).tokens(),
            match next {
                None => old(self).position() == old(self).tokens().len() && final(self).position() == old(
                    self,
                ).position(),
                Some(Ok(instr)) => old(self).position() < old(self).tokens().len() && decode_one(
                    old(self).tokens(),
                    old(self).position(),
                ) == Ok::<_, ParseErrorKind>((instr@, final(self).position())),
                Some(Err(e)) => old(self).position() < old(self).tokens().len() && decode_one(
                    old(self).tokens(),
                    old(self).position(),
                ) == Err::<(InstructionView, int), _>(e) && final(self).position() == old(self).tokens().len(),
            },
    {
        if self.position >= self.tokens.len() {
            return None;
        }
        match decode_instruction(&self.tokens, self.position) {
            Ok((instr, next)) => {
                self.position = next;
                Some(Ok(instr))
            },
            Err(e) => {
                self.position = self.tokens.len();
                Some(Err(e))
            },
        }
    }
}

/// Decodes a whole token sequence: its instructions, or the first error.
pub fn decode(tokens: &Vec<Token>) -> (r: Result<Vec<Instruction>, ParseErrorKind>)
    ensures
        match r {
            Ok(program) => decode_from(tokens@, 0) == Ok::<_, ParseErrorKind>(views(program@)),
            Err(e) => decode_from(tokens@, 0) == Err::<Seq<InstructionView>, _>(e),
        },
{
    let mut out: Vec<Instruction> = Vec::new();
    let mut p: usize = 0;
    assert(views(out@) =~= Seq::empty());
    assert(prepend(views(out@), decode_from(tokens@, 0)) == decode_from(tokens@, 0)) by {
        match decode_from(tokens@, 0) {
            Ok(tail) => {
                assert(views(out@) + tail =~= tail);
            },
            Err(_) => {},
        }
    }
    while p < tokens.len()
        invariant
            p <= tokens.len(),
            prepend(views(out@), decode_from(tokens@, p as int)) == decode_from(tokens@, 0),
        decreases tokens.len() - p,
    {
        match decode_instruction(tokens, p) {
            Err(e) => {
                return Err(e);
            },
            Ok((instr, q)) => {
                let ghost before = views(out@);
                out.push(instr);
                proof {
                    assert(views(out@) =~= before.push(instr@));
                    match decode_from(tokens@, q as int) {
                        Ok(tail) => {
                            assert(before + (seq![instr@] + tail) =~= before.push(instr@) + tail);
                        },
                        Err(_) => {},
                    }
                }
                p = q;
            },
        }
    }
    assert(views(out@) + Seq::<InstructionView>::empty() =~= views(out@));
    Ok(out)
}

/// Decodes a source text: its instructions, labels not yet resolved, or
/// the first error.
pub fn parse(source: &[u8], source_type: SourceType) -> (r: Result<Vec<Instruction>, ParseErrorKind>)
    ensures
        match r {
            Ok(program) => program_of(source@, source_type) == Ok::<_, ParseErrorKind>(views(program@)),
            Err(e) => program_of(source@, source_type) == Err::<Seq<InstructionView>, _>(e),
        },
{
    let tokens = tokenize(source, source_type);
    decode(&tokens)
}


/// Decoding is a function of the source text: the same text spells the
/// same program, or fails with the same error, every time.
pub proof fn lemma_decoding_deterministic(first: Seq<u8>, second: Seq<u8>, source_type: SourceType)
    requires
        first =~= second,
    ensures
        tokens_of(first, source_type) == tokens_of(second, source_type),
        program_of(first, source_type) == program_of(second, source_type),
{
}


} // verus!
