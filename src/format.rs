//! Rendering a buffer as assembly text, with symbolic labels for branch
//! targets that land on a known instruction.
use vstd::prelude::*;
use vstd::string::*;

use crate::deoptimizer::Deoptimizer;
use crate::model::{decode, decode_spec, views, InstrView, Instruction, MnemonicClass};
use crate::tables::{build_tables, exits_of, known_of, lemma_exits_are_known, targets_of, AddressTables};

verus! {

/// Upper-case hexadecimal digit of `d` (below 16).
pub open spec fn hex_char(d: int) -> char {
    if d < 10 {
        (d + 48) as char
    } else {
        (d + 55) as char
    }
}

/// The `n` low hexadecimal digits of `v`, most significant first.
pub open spec fn hex_fixed(v: nat, n: nat) -> Seq<char>
    decreases n,
{
    if n == 0 {
        Seq::empty()
    } else {
        hex_fixed(v / 16, (n - 1) as nat).push(hex_char((v % 16) as int))
    }
}

fn push_hex_digit(s: &mut String, d: u64)
    requires
        d < 16,
    ensures
        final(s)@ == old(s)@.push(hex_char(d as int)),
{
    match d {
        0 => {
            proof {
                reveal_strlit("0");
            }
            s.append("0");
        },
        1 => {
            proof {
                reveal_strlit("1");
            }
            s.append("1");
        },
        2 => {
            proof {
                reveal_strlit("2");
            }
            s.append("2");
        },
        3 => {
            proof {
                reveal_strlit("3");
            }
            s.append("3");
        },
        4 => {
            proof {
                reveal_strlit("4");
            }
            s.append("4");
        },
        5 => {
            proof {
                reveal_strlit("5");
            }
            s.append("5");
        },
        6 => {
            proof {
                reveal_strlit("6");
            }
            s.append("6");
        },
        7 => {
            proof {
                reveal_strlit("7");
            }
            s.append("7");
        },
        8 => {
            proof {
                reveal_strlit("8");
            }
            s.append("8");
        },
        9 => {
            proof {
                reveal_strlit("9");
            }
            s.append("9");
        },
        10 => {
            proof {
                reveal_strlit("A");
            }
            s.append("A");
        },
        11 => {
            proof {
                reveal_strlit("B");
            }
            s.append("B");
        },
        12 => {
            proof {
                reveal_strlit("C");
            }
            s.append("C");
        },
        13 => {
            proof {
                reveal_strlit("D");
            }
            s.append("D");
        },
        14 => {
            proof {
                reveal_strlit("E");
            }
            s.append("E");
        },
        _ => {
            proof {
                reveal_strlit("F");
            }
            s.append("F");
        },
    }
}

pub(crate) fn push_hex(s: &mut String, v: u64, n: u32)
    ensures
        final(s)@ == old(s)@ + hex_fixed(v as nat, n as nat),
    decreases n,
{
    if n > 0 {
        push_hex(s, v / 16, n - 1);
        push_hex_digit(s, v % 16);
        assert(s@ =~= old(s)@ + hex_fixed(v as nat, n as nat));
    } else {
        assert(s@ =~= old(s)@ + hex_fixed(v as nat, n as nat));
    }
}

/// `0x` and two digits per byte, separated by `, `.
pub open spec fn db_items(b: Seq<u8>) -> Seq<char>
    decreases b.len(),
{
    if b.len() == 0 {
        Seq::empty()
    } else if b.len() == 1 {
        "0x"@ + hex_fixed(b[0] as nat, 2)
    } else {
        db_items(b.drop_last()) + ", 0x"@ + hex_fixed(b.last() as nat, 2)
    }
}

/// The raw-bytes pseudo-instruction for `b`.
pub open spec fn db_text(b: Seq<u8>) -> Seq<char> {
    "db "@ + db_items(b)
}

/// Renders bytes as a `db` pseudo-instruction: `db 0x90, 0x0F`.
pub fn to_db_mnemonic(bytes: &[u8]) -> (r: String)
    ensures
        r@ == db_text(bytes@),
{
    proof {
        reveal_strlit("db ");
        reveal_strlit("0x");
        reveal_strlit(", 0x");
    }
    let mut s = String::from_str("db ");
    let mut i: usize = 0;
    while i < bytes.len()
        invariant
            i <= bytes@.len(),
            s@ == db_text(bytes@.subrange(0, i as int)),
        decreases bytes@.len() - i,
    {
        let ghost before = s@;
        if i == 0 {
            s.append("0x");
        } else {
            s.append(", 0x");
        }
        push_hex(&mut s, bytes[i] as u64, 2);
        proof {
            let p = bytes@.subrange(0, i + 1);
            assert(p.drop_last() =~= bytes@.subrange(0, i as int));
            assert(s@ =~= db_text(p));
        }
        i += 1;
    }
    assert(bytes@.subrange(0, i as int) =~= bytes@);
    s
}

/// The label of an address: `loc_` and sixteen digits.
pub open spec fn label_of(a: u64) -> Seq<char> {
    "loc_"@ + hex_fixed(a as nat, 16)
}

/// How a line renders its instruction.
#[derive(Clone, Copy, PartialEq, Eq, Structural, Debug)]
pub enum LineKind {
    /// No branch target.
    Plain,
    /// A branch whose target is a known instruction, shown as its label.
    Label(u64),
    /// A branch whose target is no known instruction: shown raw, flagged.
    Unresolved(u64),
    /// Bytes that do not form an instruction.
    RawBytes,
}

/// One rendered line.
pub struct Line {
    pub address: u64,
    pub kind: LineKind,
    pub text: String,
}

pub open spec fn line_kind(x: InstrView, known: Set<u64>) -> LineKind {
    match x.near_branch_target {
        Some(t) => if known.contains(t) {
            LineKind::Label(t)
        } else {
            LineKind::Unresolved(t)
        },
        None => LineKind::Plain,
    }
}

/// The marker appended to a branch whose target is not a known instruction.
pub open spec fn misaligned_marker() -> Seq<char> {
    " ; misaligned target"@
}

pub open spec fn target_text(t: u64, known: Set<u64>) -> Seq<char> {
    if known.contains(t) {
        label_of(t)
    } else {
        "0x"@ + hex_fixed(t as nat, 16) + misaligned_marker()
    }
}

pub open spec fn mnemonic_of(c: MnemonicClass) -> Seq<char> {
    match c {
        MnemonicClass::Return => "ret"@,
        MnemonicClass::Jump => "jmp"@,
        MnemonicClass::ConditionalBranch => "jcc"@,
        MnemonicClass::Other => "call"@,
    }
}

pub open spec fn body_text(x: InstrView, known: Set<u64>) -> Seq<char> {
    match x.near_branch_target {
        Some(t) => mnemonic_of(x.class) + " "@ + target_text(t, known),
        None => if x.class == MnemonicClass::Return {
            "ret"@
        } else {
            db_text(x.raw)
        },
    }
}

pub open spec fn line_text(x: InstrView, known: Set<u64>) -> Seq<char> {
    label_of(x.address) + ": "@ + body_text(x, known)
}

pub(crate) fn push_label(s: &mut String, a: u64)
    ensures
        final(s)@ == old(s)@ + label_of(a),
{
    proof {
        reveal_strlit("loc_");
    }
    s.append("loc_");
    push_hex(s, a, 16);
    assert(s@ =~= old(s)@ + label_of(a));
}

/// Renders one instruction against the known addresses of its stream.
pub fn format_instruction(x: &Instruction, tables: &AddressTables) -> (r: Line)
    ensures
        r.address == x.address,
        r.kind == line_kind(x@, tables.known_addresses@),
        r.text@ == line_text(x@, tables.known_addresses@),
{
    let ghost known = tables.known_addresses@;
    proof {
        reveal_strlit(": ");
        reveal_strlit("ret");
        reveal_strlit("jmp");
        reveal_strlit("jcc");
        reveal_strlit("call");
        reveal_strlit(" ");
        reveal_strlit("0x");
        reveal_strlit(" ; misaligned target");
    }
    let mut s = String::new();
    push_label(&mut s, x.address);
    s.append(": ");
    let ghost head = s@;
    let kind;
    match x.near_branch_target {
        Some(t) => {
            match x.class {
                MnemonicClass::Return => s.append("ret"),
                MnemonicClass::Jump => s.append("jmp"),
                MnemonicClass::ConditionalBranch => s.append("jcc"),
                MnemonicClass::Other => s.append("call"),
            }
            s.append(" ");
            if tables.is_known_address(t) {
                push_label(&mut s, t);
                kind = LineKind::Label(t);
            } else {
                s.append("0x");
                push_hex(&mut s, t, 16);
                s.append(" ; misaligned target");
                kind = LineKind::Unresolved(t);
            }
        },
        None => {
            if x.class == MnemonicClass::Return {
                s.append("ret");
            } else {
                let db = to_db_mnemonic(x.raw.as_slice());
                s.append(db.as_str());
            }
            kind = LineKind::Plain;
        },
    }
    assert(s@ =~= line_text(x@, known));
    Line { address: x.address, kind, text: s }
}

/// A branch whose target is not a known instruction is never shown as a
/// label: its line is flagged and its text ends with the marker.
pub proof fn lemma_unresolved_is_flagged(x: InstrView, known: Set<u64>)
    requires
        x.near_branch_target is Some,
        !known.contains(x.near_branch_target->Some_0),
    ensures
        line_kind(x, known) == LineKind::Unresolved(x.near_branch_target->Some_0),
        ({
            let text = line_text(x, known);
            let m = misaligned_marker();
            text.len() >= m.len() && text.subrange(text.len() - m.len(), text.len() as int) == m
        }),
{
    let t = x.near_branch_target->Some_0;
    let text = line_text(x, known);
    let m = misaligned_marker();
    assert(text =~= label_of(x.address) + ": "@ + mnemonic_of(x.class) + " "@ + "0x"@ + hex_fixed(
        t as nat,
        16,
    ) + m);
    assert(text.subrange(text.len() - m.len(), text.len() as int) =~= m);
}

/// Every branch target of a stream either is one of its known addresses and
/// is rendered as that address's label, or is not and is rendered flagged;
/// every control-flow exit is a known address.
pub proof fn lemma_table_soundness(s: Seq<InstrView>, i: int)
    requires
        0 <= i < s.len(),
        s[i].near_branch_target is Some,
    ensures
        targets_of(s).contains(s[i].near_branch_target->Some_0),
        exits_of(s).subset_of(known_of(s)),
        ({
            let t = s[i].near_branch_target->Some_0;
            if known_of(s).contains(t) {
                line_kind(s[i], known_of(s)) == LineKind::Label(t)
            } else {
                line_kind(s[i], known_of(s)) == LineKind::Unresolved(t)
            }
        }),
{
    lemma_exits_are_known(s);
}

fn copy_range(code: &[u8], lo: usize, hi: usize) -> (r: Vec<u8>)
    requires
        lo <= hi <= code@.len(),
    ensures
        r@ == code@.subrange(lo as int, hi as int),
{
    let mut out: Vec<u8> = Vec::new();
    let mut i: usize = lo;
    while i < hi
        invariant
            lo <= i <= hi,
            hi <= code@.len(),
            out@ == code@.subrange(lo as int, i as int),
        decreases hi - i,
    {
        out.push(code[i]);
        assert(code@.subrange(lo as int, i + 1) =~= out@);
        i += 1;
    }
    out
}

/// The whole words at the front of a buffer.
pub open spec fn whole_words(code: Seq<u8>) -> Seq<u8> {
    code.subrange(0, code.len() - code.len() % 4)
}

impl Deoptimizer {
    /// Renders `code`, loaded at `start`, as 32-bit words, one line per
    /// instruction (see [`Deoptimizer::disassemble_x86`] for x86). Branch
    /// targets that are known instructions become labels; others are
    /// flagged. Trailing bytes that do not make a whole instruction end the
    /// listing as one raw-bytes line, so every byte of `code` is shown.
    pub fn disassemble(&mut self, code: &[u8], start: u64) -> (r: Vec<Line>)
        requires
            start + code@.len() <= u64::MAX,
        ensures
            final(self).settings() == old(self).settings(),
            ({
                let s = decode_spec(whole_words(code@), start);
                let known = known_of(s);
                let full = code@.len() - code@.len() % 4;
                &&& r@.len() == s.len() + if code@.len() % 4 == 0 {
                    0int
                } else {
                    1int
                }
                &&& forall|i: int|
                    0 <= i < s.len() ==> {
                        &&& (#[trigger] r@[i]).address == s[i].address
                        &&& r@[i].kind == line_kind(s[i], known)
                        &&& r@[i].text@ == line_text(s[i], known)
                    }
                &&& code@.len() % 4 != 0 ==> {
                    let last = r@[r@.len() - 1];
                    &&& last.address == start + full
                    &&& last.kind == LineKind::RawBytes
                    &&& last.text@ == label_of((start + full) as u64) + ": "@ + db_text(
                        code@.subrange(full, code@.len() as int),
                    )
                }
            }),
    {
        let n = code.len();
        let full = n - n % 4;
        let words = copy_range(code, 0, full);
        let ghost s = decode_spec(whole_words(code@), start);
        assert(words@ == whole_words(code@));
        let stream: Vec<Instruction> = match decode(words.as_slice(), start) {
            Ok(v) => v,
            Err(_) => Vec::new(),
        };
        assert(views(stream@) =~= s);
        let tables = build_tables(&stream);
        let mut lines: Vec<Line> = Vec::new();
        let mut k: usize = 0;
        while k < stream.len()
            invariant
                views(stream@) == s,
                tables.describes(s),
                k <= stream@.len(),
                lines@.len() == k,
                forall|i: int|
                    0 <= i < k ==> {
                        &&& (#[trigger] lines@[i]).address == s[i].address
                        &&& lines@[i].kind == line_kind(s[i], known_of(s))
                        &&& lines@[i].text@ == line_text(s[i], known_of(s))
                    },
            decreases stream@.len() - k,
        {
            assert(stream@[k as int]@ == s[k as int]);
            lines.push(format_instruction(&stream[k], &tables));
            k += 1;
        }
        if n % 4 != 0 {
            proof {
                reveal_strlit(": ");
            }
            let tail = copy_range(code, full, n);
            let addr = start + full as u64;
            let mut text = String::new();
            push_label(&mut text, addr);
            text.append(": ");
            let db = to_db_mnemonic(tail.as_slice());
            text.append(db.as_str());
            lines.push(Line { address: addr, kind: LineKind::RawBytes, text });
        }
        self.tables = Some(tables);
        self.is_analyzed = true;
        lines
    }
}

} // verus!
