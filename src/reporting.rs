//! The text of the per-cycle reports; writing them out is left to callers.
use vstd::prelude::*;
use vstd::string::*;

use crate::format::{hex_fixed, push_hex};

verus! {

/// Decimal digit character of `d` (below 10).
pub open spec fn dec_char(d: int) -> char {
    (d + 48) as char
}

/// `n` in decimal without leading zeros.
pub open spec fn dec(n: nat) -> Seq<char>
    decreases n,
{
    if n < 10 {
        seq![dec_char(n as int)]
    } else {
        dec(n / 10).push(dec_char((n % 10) as int))
    }
}

/// The `k` low binary digits of `v`, most significant first.
pub open spec fn bin_fixed(v: nat, k: nat) -> Seq<char>
    decreases k,
{
    if k == 0 {
        Seq::empty()
    } else {
        bin_fixed(v / 2, (k - 1) as nat).push(if v % 2 == 1 { '1' } else { '0' })
    }
}

/// One report line for byte `b` at position `i`.
pub open spec fn byte_line(i: nat, b: u8) -> Seq<char> {
    "Instruction "@ + dec(i) + ": 0x"@ + hex_fixed(b as nat, 2) + " (Binary: "@ + bin_fixed(
        b as nat,
        8,
    ) + ")\n"@
}

/// The lines of the first `k` bytes of `s`.
pub open spec fn byte_lines(s: Seq<u8>, k: nat) -> Seq<char>
    decreases k,
{
    if k == 0 {
        Seq::empty()
    } else {
        byte_lines(s, (k - 1) as nat) + byte_line((k - 1) as nat, s[k - 1])
    }
}

/// The lines naming the first `k` applied transformations.
pub open spec fn name_lines(names: Seq<Seq<char>>, k: nat) -> Seq<char>
    decreases k,
{
    if k == 0 {
        Seq::empty()
    } else {
        name_lines(names, (k - 1) as nat) + "Applied Transformation: "@ + names[k - 1] + "\n"@
    }
}

pub open spec fn visualization_spec(s: Seq<u8>) -> Seq<char> {
    "Detailed Transformation Visualization\n=================================\n"@ + byte_lines(
        s,
        s.len(),
    )
}

pub open spec fn report_spec(names: Seq<Seq<char>>, before: Seq<u8>, after: Seq<u8>) -> Seq<char> {
    "Transformation Report\n====================\n"@ + name_lines(names, names.len())
        + "\nBefore Transformation:\n"@ + byte_lines(before, before.len())
        + "\nAfter Transformation:\n"@ + byte_lines(after, after.len())
}

fn push_dec_digit(s: &mut String, d: usize)
    requires
        d < 10,
    ensures
        final(s)@ == old(s)@.push(dec_char(d as int)),
{
    proof {
        reveal_strlit("0");
        reveal_strlit("1");
        reveal_strlit("2");
        reveal_strlit("3");
        reveal_strlit("4");
        reveal_strlit("5");
        reveal_strlit("6");
        reveal_strlit("7");
        reveal_strlit("8");
        reveal_strlit("9");
    }
    match d {
        0 => s.append("0"),
        1 => s.append("1"),
        2 => s.append("2"),
        3 => s.append("3"),
        4 => s.append("4"),
        5 => s.append("5"),
        6 => s.append("6"),
        7 => s.append("7"),
        8 => s.append("8"),
        _ => s.append("9"),
    }
}

fn push_dec(s: &mut String, n: usize)
    ensures
        final(s)@ == old(s)@ + dec(n as nat),
    decreases n,
{
    if n >= 10 {
        push_dec(s, n / 10);
    }
    push_dec_digit(s, n % 10);
    assert(s@ =~= old(s)@ + dec(n as nat));
}

fn push_bin(s: &mut String, v: u8, k: u32)
    ensures
        final(s)@ == old(s)@ + bin_fixed(v as nat, k as nat),
    decreases k,
{
    proof {
        reveal_strlit("0");
        reveal_strlit("1");
    }
    if k > 0 {
        push_bin(s, v / 2, k - 1);
        if v % 2 == 1 {
            s.append("1");
        } else {
            s.append("0");
        }
    }
    assert(s@ =~= old(s)@ + bin_fixed(v as nat, k as nat));
}

fn push_byte_lines(s: &mut String, bytes: &[u8])
    ensures
        final(s)@ == old(s)@ + byte_lines(bytes@, bytes@.len()),
{
    proof {
        reveal_strlit("Instruction ");
        reveal_strlit(": 0x");
        reveal_strlit(" (Binary: ");
        reveal_strlit(")\n");
    }
    let mut i: usize = 0;
    while i < bytes.len()
        invariant
            i <= bytes@.len(),
            s@ == old(s)@ + byte_lines(bytes@, i as nat),
        decreases bytes@.len() - i,
    {
        let ghost before = s@;
        s.append("Instruction ");
        push_dec(s, i);
        s.append(": 0x");
        push_hex(s, bytes[i] as u64, 2);
        s.append(" (Binary: ");
        push_bin(s, bytes[i], 8);
        s.append(")\n");
        assert(s@ =~= before + byte_line(i as nat, bytes@[i as int]));
        assert(s@ =~= old(s)@ + byte_lines(bytes@, (i + 1) as nat));
        i += 1;
    }
}

/// Renders the per-cycle byte listing.
pub struct VisualizationTool;

impl VisualizationTool {
    pub fn new() -> Self {
        VisualizationTool
    }

    /// The listing of `instructions`: a title, then one line per byte with
    /// its index, hexadecimal and binary forms.
    pub fn visualization_text(&self, instructions: &[u8]) -> (r: String)
        ensures
            r@ == visualization_spec(instructions@),
    {
        proof {
            reveal_strlit("Detailed Transformation Visualization\n=================================\n");
        }
        let mut s = String::from_str(
            "Detailed Transformation Visualization\n=================================\n",
        );
        push_byte_lines(&mut s, instructions);
        s
    }
}

/// Renders the per-cycle transformation report.
pub struct ReportingModule;

impl ReportingModule {
    pub fn new() -> Self {
        ReportingModule
    }

    /// The report: the applied transformations, then the bytes before and
    /// after, one line each.
    pub fn report_text(&self, transformations: &Vec<String>, before: &[u8], after: &[u8]) -> (r:
        String)
        ensures
            r@ == report_spec(transformations@.map_values(|t: String| t@), before@, after@),
    {
        let ghost names = transformations@.map_values(|t: String| t@);
        proof {
            reveal_strlit("Transformation Report\n====================\n");
            reveal_strlit("Applied Transformation: ");
            reveal_strlit("\n");
            reveal_strlit("\nBefore Transformation:\n");
            reveal_strlit("\nAfter Transformation:\n");
        }
        let mut s = String::from_str("Transformation Report\n====================\n");
        let ghost head = s@;
        let mut i: usize = 0;
        while i < transformations.len()
            invariant
                names == transformations@.map_values(|t: String| t@),
                i <= transformations@.len(),
                s@ == head + name_lines(names, i as nat),
            decreases transformations@.len() - i,
        {
            s.append("Applied Transformation: ");
            s.append(transformations[i].as_str());
            s.append("\n");
            assert(s@ =~= head + name_lines(names, (i + 1) as nat));
            i += 1;
        }
        s.append("\nBefore Transformation:\n");
        push_byte_lines(&mut s, before);
        s.append("\nAfter Transformation:\n");
        push_byte_lines(&mut s, after);
        assert(s@ =~= report_spec(names, before@, after@));
        s
    }
}

} // verus!
