//! The x86 decoder: instruction boundaries, branch targets and control-flow
//! classes come from iced-x86; the stream, its tables and its listing are
//! built here.
use vstd::prelude::*;
use vstd::slice::slice_subrange;

use vstd::string::*;

use crate::deoptimizer::{AssemblySyntax, Deoptimizer};
use crate::format::{
    db_text, label_of, line_kind, misaligned_marker, push_label, to_db_mnemonic, Line, LineKind,
};
use crate::model::{concat_raw, views, InstrView, Instruction, MnemonicClass};
use crate::tables::{build_tables, known_of, AddressTables};

verus! {

/// What the decoder reports of the first instruction of a buffer.
#[derive(Clone, Copy, PartialEq, Eq, Structural, Debug)]
pub struct X86Fields {
    /// Bytes consumed.
    pub length: usize,
    pub op_count: u8,
    /// Zero when the instruction is no near branch.
    pub near_branch_target: u64,
    pub class: MnemonicClass,
    /// The bytes do not form a valid instruction.
    pub invalid: bool,
}

/// What iced-x86 decodes at the start of `data` for the given bitness and
/// instruction pointer.
pub uninterp spec fn x86_decoded(bitness: u32, data: Seq<u8>, ip: u64) -> X86Fields;

/// Relies on `iced_x86::Decoder::with_ip` and `Decoder::decode`: the first
/// instruction of a non-empty buffer takes at least one byte, at most
/// fifteen, and no more than the buffer holds. `with_ip` panics on a bitness
/// other than 16, 32 or 64. Returns, `ret`/`retf` and `jmp` are told apart
/// by mnemonic, conditional branches by flow control.
#[verifier::external_body]
fn decode_first(bitness: u32, data: &[u8], ip: u64) -> (r: X86Fields)
    requires
        bitness == 16 || bitness == 32 || bitness == 64,
        data@.len() > 0,
    ensures
        r == x86_decoded(bitness, data@, ip),
        1 <= r.length <= data@.len(),
        r.length <= 15,
{
    let mut decoder = iced_x86::Decoder::with_ip(bitness, data, ip, iced_x86::DecoderOptions::NONE);
    let inst = decoder.decode();
    let class = match (inst.mnemonic(), inst.flow_control()) {
        (iced_x86::Mnemonic::Ret, _) | (iced_x86::Mnemonic::Retf, _) => MnemonicClass::Return,
        (iced_x86::Mnemonic::Jmp, _) => MnemonicClass::Jump,
        (_, iced_x86::FlowControl::ConditionalBranch) => MnemonicClass::ConditionalBranch,
        _ => MnemonicClass::Other,
    };
    X86Fields {
        length: inst.len(),
        op_count: inst.op_count() as u8,
        near_branch_target: inst.near_branch_target(),
        class,
        invalid: inst.is_invalid(),
    }
}

/// The instruction that `f` describes, at `ip`, made of `raw`. A target of
/// zero means none; an invalid instruction is kept as plain bytes.
pub open spec fn x86_view(f: X86Fields, raw: Seq<u8>, ip: u64) -> InstrView {
    InstrView {
        address: ip,
        length: raw.len() as u8,
        raw,
        operand_count: if f.invalid {
            0
        } else {
            f.op_count
        },
        class: if f.invalid {
            MnemonicClass::Other
        } else {
            f.class
        },
        near_branch_target: if f.invalid || f.near_branch_target == 0 {
            None
        } else {
            Some(f.near_branch_target)
        },
    }
}

/// The decoded stream of `data` loaded at `ip`.
pub open spec fn x86_stream(bitness: u32, data: Seq<u8>, ip: u64) -> Seq<InstrView>
    decreases data.len(),
{
    let f = x86_decoded(bitness, data, ip);
    if data.len() == 0 || f.length < 1 || f.length > data.len() {
        Seq::empty()
    } else {
        seq![x86_view(f, data.subrange(0, f.length as int), ip)] + x86_stream(
            bitness,
            data.subrange(f.length as int, data.len() as int),
            ((ip + f.length) % 0x1_0000_0000_0000_0000) as u64,
        )
    }
}

/// What iced-x86's formatter for `syntax` (NASM, MASM, Intel or GAS) prints
/// for the instruction at the start of `data`.
pub uninterp spec fn x86_text(bitness: u32, data: Seq<u8>, ip: u64, syntax: AssemblySyntax) -> Seq<
    char,
>;

/// What iced-x86's Intel formatter, set up for the Keystone assembler,
/// prints for the instruction at the start of `data`.
pub uninterp spec fn x86_keystone_text(bitness: u32, data: Seq<u8>, ip: u64) -> Seq<char>;

/// Relies on `Formatter::format` of iced-x86's `NasmFormatter`,
/// `MasmFormatter`, `IntelFormatter` and `GasFormatter` (picked by
/// `syntax`; Keystone style has a wrapper of its own), on the instruction
/// that `Decoder::with_ip` and `Decoder::decode` read.
#[verifier::external_body]
fn format_first(bitness: u32, data: &[u8], ip: u64, syntax: AssemblySyntax) -> (r: String)
    requires
        bitness == 16 || bitness == 32 || bitness == 64,
        data@.len() > 0,
        syntax != AssemblySyntax::Keystone,
    ensures
        r@ == x86_text(bitness, data@, ip, syntax),
{
    let inst = iced_x86::Decoder::with_ip(bitness, data, ip, iced_x86::DecoderOptions::NONE).decode();
    let mut formatter: Box<dyn iced_x86::Formatter> = match syntax {
        AssemblySyntax::Nasm => Box::new(iced_x86::NasmFormatter::new()),
        AssemblySyntax::Masm => Box::new(iced_x86::MasmFormatter::new()),
        AssemblySyntax::Gas => Box::new(iced_x86::GasFormatter::new()),
        AssemblySyntax::Intel | AssemblySyntax::Keystone => Box::new(iced_x86::IntelFormatter::new()),
    };
    let mut out = String::new();
    formatter.format(&inst, &mut out);
    out
}

/// Relies on `Formatter::format` of iced-x86's `IntelFormatter` with
/// lower-case keywords, memory sizes always shown and `0x`-prefixed
/// hexadecimal, on the instruction that `Decoder::with_ip` and
/// `Decoder::decode` read.
#[verifier::external_body]
fn format_first_keystone(bitness: u32, data: &[u8], ip: u64) -> (r: String)
    requires
        bitness == 16 || bitness == 32 || bitness == 64,
        data@.len() > 0,
    ensures
        r@ == x86_keystone_text(bitness, data@, ip),
{
    let inst = iced_x86::Decoder::with_ip(bitness, data, ip, iced_x86::DecoderOptions::NONE).decode();
    let mut formatter = iced_x86::IntelFormatter::new();
    let options = iced_x86::Formatter::options_mut(&mut formatter);
    options.set_uppercase_keywords(false);
    options.set_memory_size_options(iced_x86::MemorySizeOptions::Always);
    options.set_hex_prefix("0x");
    options.set_hex_suffix("");
    let mut out = String::new();
    iced_x86::Formatter::format(&mut formatter, &inst, &mut out);
    out
}

/// The formatted text of `x` in `syntax`.
pub open spec fn x86_render(bitness: u32, x: InstrView, syntax: AssemblySyntax) -> Seq<char> {
    if syntax == AssemblySyntax::Keystone {
        x86_keystone_text(bitness, x.raw, x.address)
    } else {
        x86_text(bitness, x.raw, x.address, syntax)
    }
}

/// Length of the text before its first space.
pub open spec fn first_space(t: Seq<char>) -> nat
    decreases t.len(),
{
    if t.len() == 0 || t[0] == ' ' {
        0
    } else {
        1 + first_space(t.drop_first())
    }
}

/// The mnemonic of a formatted instruction: its text up to the first space.
pub open spec fn first_word(t: Seq<char>) -> Seq<char> {
    t.subrange(0, first_space(t) as int)
}

proof fn lemma_first_space(t: Seq<char>, i: int)
    requires
        0 <= i <= t.len(),
        forall|j: int| 0 <= j < i ==> t[j] != ' ',
        i == t.len() || t[i] == ' ',
    ensures
        first_space(t) == i,
    decreases i,
{
    if i > 0 {
        lemma_first_space(t.drop_first(), i - 1);
    }
}

pub open spec fn x86_invalid(bitness: u32, x: InstrView) -> bool {
    x86_decoded(bitness, x.raw, x.address).invalid
}

pub open spec fn x86_line_kind(bitness: u32, x: InstrView, known: Set<u64>) -> LineKind {
    kind_from(x, x86_invalid(bitness, x), known)
}

/// The text of `x`, given whether its bytes are invalid and its formatted
/// `text`: invalid bytes as a `db` line; a branch to a known instruction as
/// the mnemonic of `text` and that instruction's label; a branch elsewhere as
/// `text`, flagged; anything else as `text`.
pub open spec fn body_from(x: InstrView, invalid: bool, text: Seq<char>, known: Set<u64>) -> Seq<char> {
    if invalid {
        db_text(x.raw)
    } else {
        match x.near_branch_target {
            Some(t) => if known.contains(t) {
                first_word(text) + " "@ + label_of(t)
            } else {
                text + misaligned_marker()
            },
            None => text,
        }
    }
}

pub open spec fn kind_from(x: InstrView, invalid: bool, known: Set<u64>) -> LineKind {
    if invalid {
        LineKind::RawBytes
    } else {
        line_kind(x, known)
    }
}

pub open spec fn x86_body(bitness: u32, x: InstrView, known: Set<u64>, syntax: AssemblySyntax) -> Seq<
    char,
> {
    body_from(x, x86_invalid(bitness, x), x86_render(bitness, x, syntax), known)
}

pub open spec fn x86_line_text(bitness: u32, x: InstrView, known: Set<u64>, syntax: AssemblySyntax) -> Seq<
    char,
> {
    label_of(x.address) + ": "@ + x86_body(bitness, x, known, syntax)
}

fn first_word_of(t: &str) -> (r: &str)
    ensures
        r@ == first_word(t@),
{
    let n = t.unicode_len();
    let mut i: usize = 0;
    while i < n && t.get_char(i) != ' '
        invariant
            n == t@.len(),
            i <= n,
            forall|j: int| 0 <= j < i ==> t@[j] != ' ',
        decreases n - i,
    {
        i += 1;
    }
    proof {
        lemma_first_space(t@, i as int);
    }
    t.substring_char(0, i)
}

/// Builds the line of `x` from what the decoder and formatter said of it:
/// whether its bytes are invalid, and its formatted text.
pub fn line_from(x: &Instruction, invalid: bool, text: &str, tables: &AddressTables) -> (r: Line)
    ensures
        r.address == x.address,
        r.kind == kind_from(x@, invalid, tables.known_addresses@),
        r.text@ == label_of(x.address) + ": "@ + body_from(
            x@,
            invalid,
            text@,
            tables.known_addresses@,
        ),
{
    proof {
        reveal_strlit(": ");
        reveal_strlit(" ");
        reveal_strlit(" ; misaligned target");
    }
    let ghost known = tables.known_addresses@;
    let mut s = String::new();
    push_label(&mut s, x.address);
    s.append(": ");
    let kind;
    if invalid {
        let db = to_db_mnemonic(x.raw.as_slice());
        s.append(db.as_str());
        kind = LineKind::RawBytes;
    } else {
        match x.near_branch_target {
            Some(t) => {
                if tables.is_known_address(t) {
                    s.append(first_word_of(text));
                    s.append(" ");
                    push_label(&mut s, t);
                    kind = LineKind::Label(t);
                } else {
                    s.append(text);
                    s.append(" ; misaligned target");
                    kind = LineKind::Unresolved(t);
                }
            },
            None => {
                s.append(text);
                kind = LineKind::Plain;
            },
        }
    }
    assert(s@ =~= label_of(x.address) + ": "@ + body_from(x@, invalid, text@, known));
    Line { address: x.address, kind, text: s }
}

/// Renders one x86 instruction in `syntax` against the tables of its stream.
pub fn format_x86_line(x: &Instruction, bitness: u32, syntax: AssemblySyntax, tables: &AddressTables) -> (r: Line)
    requires
        bitness == 16 || bitness == 32 || bitness == 64,
        x.raw@.len() > 0,
    ensures
        r.address == x.address,
        r.kind == x86_line_kind(bitness, x@, tables.known_addresses@),
        r.text@ == x86_line_text(bitness, x@, tables.known_addresses@, syntax),
{
    let f = decode_first(bitness, x.raw.as_slice(), x.address);
    let text = if syntax == AssemblySyntax::Keystone {
        format_first_keystone(bitness, x.raw.as_slice(), x.address)
    } else {
        format_first(bitness, x.raw.as_slice(), x.address, syntax)
    };
    line_from(x, f.invalid, text.as_str(), tables)
}

/// Every instruction of a decoded stream holds at least one byte.
proof fn lemma_x86_raw_nonempty(bitness: u32, data: Seq<u8>, ip: u64)
    ensures
        forall|i: int| 0 <= i < x86_stream(bitness, data, ip).len() ==> (#[trigger] x86_stream(bitness, data, ip)[i]).raw.len() > 0,
    decreases data.len(),
{
    let f = x86_decoded(bitness, data, ip);
    if !(data.len() == 0 || f.length < 1 || f.length > data.len()) {
        let rest = data.subrange(f.length as int, data.len() as int);
        let next = ((ip + f.length) % 0x1_0000_0000_0000_0000) as u64;
        lemma_x86_raw_nonempty(bitness, rest, next);
        let s = x86_stream(bitness, data, ip);
        assert forall|i: int| 0 <= i < s.len() implies (#[trigger] s[i]).raw.len() > 0 by {
            if i > 0 {
                assert(s[i] == x86_stream(bitness, rest, next)[i - 1]);
            }
        }
    }
}

/// The instruction that decoder fields `f` describe, at `ip`, made of `raw`.
pub fn instruction_from_fields(f: X86Fields, raw: Vec<u8>, ip: u64) -> (r: Instruction)
    requires
        raw@.len() <= 255,
    ensures
        r@ == x86_view(f, raw@, ip),
{
    let target = if f.invalid || f.near_branch_target == 0 {
        None
    } else {
        Some(f.near_branch_target)
    };
    Instruction {
        address: ip,
        length: raw.len() as u8,
        raw,
        operand_count: if f.invalid {
            0
        } else {
            f.op_count
        },
        class: if f.invalid {
            MnemonicClass::Other
        } else {
            f.class
        },
        near_branch_target: target,
    }
}

/// Decodes an x86 buffer of the given bitness loaded at `start`.
pub fn decode_x86(code: &[u8], bitness: u32, start: u64) -> (r: Vec<Instruction>)
    requires
        bitness == 16 || bitness == 32 || bitness == 64,
        start + code@.len() <= u64::MAX,
    ensures
        views(r@) == x86_stream(bitness, code@, start),
        concat_raw(views(r@)) == code@,
{
    let n = code.len();
    let mut out: Vec<Instruction> = Vec::new();
    let mut off: usize = 0;
    proof {
        assert(code@.subrange(0, n as int) =~= code@);
        assert(views(out@) =~= Seq::<InstrView>::empty());
        assert(views(out@) + x86_stream(bitness, code@, start) =~= x86_stream(bitness, code@, start));
        assert(concat_raw(views(out@)) == Seq::<u8>::empty());
        assert(code@.subrange(0, 0) =~= Seq::<u8>::empty());
    }
    while off < n
        invariant
            n == code@.len(),
            start + n <= u64::MAX,
            bitness == 16 || bitness == 32 || bitness == 64,
            off <= n,
            views(out@) + x86_stream(bitness, code@.subrange(off as int, n as int), (start + off) as u64)
                == x86_stream(bitness, code@, start),
            concat_raw(views(out@)) == code@.subrange(0, off as int),
        decreases n - off,
    {
        let rest = slice_subrange(code, off, n);
        let ip = start + off as u64;
        let f = decode_first(bitness, rest, ip);
        let len = f.length;
        let mut raw: Vec<u8> = Vec::new();
        let mut i: usize = 0;
        while i < len
            invariant
                i <= len,
                len <= rest@.len(),
                raw@ == rest@.subrange(0, i as int),
            decreases len - i,
        {
            raw.push(rest[i]);
            i += 1;
        }
        let inst = instruction_from_fields(f, raw, ip);
        proof {
            let s = code@.subrange(off as int, n as int);
            assert(rest@ == s);
            assert(rest@.subrange(0, len as int) =~= inst.raw@);
            assert(inst@ == x86_view(f, s.subrange(0, len as int), ip));
            assert(s.subrange(len as int, s.len() as int) =~= code@.subrange(off + len, n as int));
            assert(((ip + len) % 0x1_0000_0000_0000_0000) as u64 == (start + off + len) as u64);
            let ghost old_out = views(out@);
            assert(views(out@.push(inst)) =~= old_out.push(inst@));
            assert(seq![inst@] + x86_stream(bitness, code@.subrange(off + len, n as int), (start + off + len) as u64) == x86_stream(bitness, s, ip));
            assert(old_out.push(inst@) + x86_stream(bitness, code@.subrange(off + len, n as int), (start + off + len) as u64) =~= old_out + (seq![inst@] + x86_stream(bitness, code@.subrange(off + len, n as int), (start + off + len) as u64)));
            assert(old_out.push(inst@).drop_last() =~= old_out);
            assert(code@.subrange(0, off + len) =~= code@.subrange(0, off as int) + inst.raw@);
        }
        out.push(inst);
        off += len;
    }
    proof {
        assert(code@.subrange(off as int, n as int) =~= Seq::<u8>::empty());
        assert(views(out@) + Seq::<InstrView>::empty() =~= views(out@));
        assert(code@.subrange(0, n as int) =~= code@);
    }
    out
}

impl Deoptimizer {
    /// Decodes an x86 buffer, builds its address tables and renders it one
    /// line per instruction in the selected syntax: branch targets inside
    /// the buffer become labels, others are flagged, and invalid bytes
    /// appear as `db` lines.
    pub fn disassemble_x86(&mut self, code: &[u8], bitness: u32, start: u64) -> (r: Vec<Line>)
        requires
            bitness == 16 || bitness == 32 || bitness == 64,
            start + code@.len() <= u64::MAX,
        ensures
            final(self).settings() == old(self).settings(),
            final(self).syntax == old(self).syntax,
            ({
                let s = x86_stream(bitness, code@, start);
                &&& concat_raw(s) == code@
                &&& r@.len() == s.len()
                &&& forall|i: int|
                    0 <= i < s.len() ==> {
                        &&& (#[trigger] r@[i]).address == s[i].address
                        &&& r@[i].kind == x86_line_kind(bitness, s[i], known_of(s))
                        &&& r@[i].text@ == x86_line_text(
                            bitness,
                            s[i],
                            known_of(s),
                            old(self).syntax,
                        )
                    }
            }),
    {
        let stream = decode_x86(code, bitness, start);
        let ghost s = views(stream@);
        proof {
            lemma_x86_raw_nonempty(bitness, code@, start);
        }
        let tables = build_tables(&stream);
        let syntax = self.syntax;
        let mut lines: Vec<Line> = Vec::new();
        let mut k: usize = 0;
        while k < stream.len()
            invariant
                bitness == 16 || bitness == 32 || bitness == 64,
                s == x86_stream(bitness, code@, start),
                views(stream@) == s,
                forall|i: int| 0 <= i < s.len() ==> (#[trigger] s[i]).raw.len() > 0,
                tables.describes(s),
                k <= stream@.len(),
                lines@.len() == k,
                forall|i: int|
                    0 <= i < k ==> {
                        &&& (#[trigger] lines@[i]).address == s[i].address
                        &&& lines@[i].kind == x86_line_kind(bitness, s[i], known_of(s))
                        &&& lines@[i].text@ == x86_line_text(bitness, s[i], known_of(s), syntax)
                    },
            decreases stream@.len() - k,
        {
            assert(stream@[k as int]@ == s[k as int]);
            lines.push(format_x86_line(&stream[k], bitness, syntax, &tables));
            k += 1;
        }
        self.tables = Some(tables);
        self.is_analyzed = true;
        lines
    }
}

} // verus!
