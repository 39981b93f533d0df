//! The alternative analyses and optimizations that work on raw bytes.
use std::collections::HashMap;
use vstd::prelude::*;
use vstd::string::*;

use crate::gadgets::{add_one_each, add_one_in_place};

verus! {

broadcast use vstd::std_specs::hash::group_hash_axioms;

pub struct ConvexOptimization;

impl ConvexOptimization {
    pub fn new() -> Self {
        ConvexOptimization
    }

    /// Adds one to every byte, wrapping.
    pub fn optimize(&self, instructions: &mut Vec<u8>)
        ensures
            final(instructions)@ == add_one_each(old(instructions)@),
    {
        add_one_in_place(instructions);
    }
}

pub struct DynamicProgramming;

impl DynamicProgramming {
    pub fn new() -> Self {
        DynamicProgramming
    }

    /// Adds one to every byte, wrapping.
    pub fn optimize(&self, instructions: &mut Vec<u8>)
        ensures
            final(instructions)@ == add_one_each(old(instructions)@),
    {
        add_one_in_place(instructions);
    }
}

pub struct LinearProgramming;

impl LinearProgramming {
    pub fn new() -> Self {
        LinearProgramming
    }

    /// Adds one to every byte, wrapping.
    pub fn optimize(&self, instructions: &mut Vec<u8>)
        ensures
            final(instructions)@ == add_one_each(old(instructions)@),
    {
        add_one_in_place(instructions);
    }
}

pub struct AlgebraicSimplification;

impl AlgebraicSimplification {
    pub fn new() -> Self {
        AlgebraicSimplification
    }

    /// Adds one to every byte, wrapping.
    pub fn simplify(&self, instructions: &mut Vec<u8>)
        ensures
            final(instructions)@ == add_one_each(old(instructions)@),
    {
        add_one_in_place(instructions);
    }
}

/// Lower-case hexadecimal digit of `d` (below 16).
pub open spec fn lower_hex_char(d: int) -> char {
    if d < 10 {
        (d + 48) as char
    } else {
        (d + 87) as char
    }
}

/// `v` in lower-case hexadecimal without leading zeros (`0` for zero).
pub open spec fn lower_hex(v: nat) -> Seq<char>
    decreases v,
{
    if v < 16 {
        seq![lower_hex_char(v as int)]
    } else {
        lower_hex(v / 16).push(lower_hex_char((v % 16) as int))
    }
}

fn push_lower_digit(s: &mut String, d: u8)
    requires
        d < 16,
    ensures
        final(s)@ == old(s)@.push(lower_hex_char(d as int)),
{
    match d {
        0 => {
            proof {
                reveal_strlit("0");
            }
            s.append("0");
        },
        1 => {
            proof {
                reveal_strlit("1");
            }
            s.append("1");
        },
        2 => {
            proof {
                reveal_strlit("2");
            }
            s.append("2");
        },
        3 => {
            proof {
                reveal_strlit("3");
            }
            s.append("3");
        },
        4 => {
            proof {
                reveal_strlit("4");
            }
            s.append("4");
        },
        5 => {
            proof {
                reveal_strlit("5");
            }
            s.append("5");
        },
        6 => {
            proof {
                reveal_strlit("6");
            }
            s.append("6");
        },
        7 => {
            proof {
                reveal_strlit("7");
            }
            s.append("7");
        },
        8 => {
            proof {
                reveal_strlit("8");
            }
            s.append("8");
        },
        9 => {
            proof {
                reveal_strlit("9");
            }
            s.append("9");
        },
        10 => {
            proof {
                reveal_strlit("a");
            }
            s.append("a");
        },
        11 => {
            proof {
                reveal_strlit("b");
            }
            s.append("b");
        },
        12 => {
            proof {
                reveal_strlit("c");
            }
            s.append("c");
        },
        13 => {
            proof {
                reveal_strlit("d");
            }
            s.append("d");
        },
        14 => {
            proof {
                reveal_strlit("e");
            }
            s.append("e");
        },
        _ => {
            proof {
                reveal_strlit("f");
            }
            s.append("f");
        },
    }
}

/// A byte in lower-case hexadecimal without leading zeros.
pub fn byte_to_hex(b: u8) -> (r: String)
    ensures
        r@ == lower_hex(b as nat),
{
    let mut s = String::new();
    if b >= 16 {
        push_lower_digit(&mut s, b / 16);
        proof {
            assert(lower_hex((b / 16) as nat) == seq![lower_hex_char((b / 16) as int)]);
        }
    }
    push_lower_digit(&mut s, b % 16);
    assert(s@ =~= lower_hex(b as nat));
    s
}

pub struct AbstractInterpretation;

impl AbstractInterpretation {
    pub fn new() -> Self {
        AbstractInterpretation
    }

    /// Each byte in lower-case hexadecimal, in order.
    pub fn analyze(&self, instructions: &[u8]) -> (r: Vec<String>)
        ensures
            r@.len() == instructions@.len(),
            forall|i: int| 0 <= i < r@.len() ==> (#[trigger] r@[i])@ == lower_hex(instructions@[i] as nat),
    {
        let mut out: Vec<String> = Vec::new();
        let mut i: usize = 0;
        while i < instructions.len()
            invariant
                i <= instructions@.len(),
                out@.len() == i,
                forall|j: int| 0 <= j < i ==> (#[trigger] out@[j])@ == lower_hex(instructions@[j] as nat),
            decreases instructions@.len() - i,
        {
            out.push(byte_to_hex(instructions[i]));
            i += 1;
        }
        out
    }
}

/// One more sighting of `x`, counted modulo 256.
pub open spec fn bump(m: Map<u8, u8>, x: u8) -> Map<u8, u8> {
    if m.contains_key(x) {
        m.insert(x, ((m[x] + 1) % 256) as u8)
    } else {
        m.insert(x, 1)
    }
}

/// Counts over the first `k` adjacent pairs of `s`: each pair counts both
/// of its bytes once.
pub open spec fn pair_counts(s: Seq<u8>, k: nat) -> Map<u8, u8>
    decreases k,
{
    if k == 0 {
        Map::empty()
    } else {
        bump(bump(pair_counts(s, (k - 1) as nat), s[k - 1]), s[k as int])
    }
}

fn bump_count(m: &mut HashMap<u8, u8>, x: u8)
    ensures
        final(m)@ == bump(old(m)@, x),
{
    let next: u8 = match m.get(&x) {
        Some(c) => c.wrapping_add(1),
        None => 1,
    };
    m.insert(x, next);
}

pub struct MarkovChains;

impl MarkovChains {
    pub fn new() -> Self {
        MarkovChains
    }

    /// For every byte, how many times it occurs across all adjacent pairs
    /// (a byte inside the buffer belongs to two pairs), modulo 256.
    pub fn analyze(&self, instructions: &[u8]) -> (r: HashMap<u8, u8>)
        ensures
            r@ == pair_counts(
                instructions@,
                if instructions@.len() == 0 {
                    0nat
                } else {
                    (instructions@.len() - 1) as nat
                },
            ),
    {
        let mut m: HashMap<u8, u8> = HashMap::new();
        let n = instructions.len();
        if n == 0 {
            return m;
        }
        let mut k: usize = 0;
        while k + 1 < n
            invariant
                n == instructions@.len(),
                n > 0,
                k + 1 <= n,
                m@ == pair_counts(instructions@, k as nat),
            decreases n - k,
        {
            bump_count(&mut m, instructions[k]);
            bump_count(&mut m, instructions[k + 1]);
            k += 1;
        }
        m
    }
}

#[verifier::external_type_specification]
#[verifier::external_body]
#[verifier::reject_recursive_types(N)]
#[verifier::reject_recursive_types(E)]
#[verifier::reject_recursive_types(Ty)]
#[verifier::reject_recursive_types(Ix)]
pub struct ExGraph<N, E, Ty, Ix>(petgraph::Graph<N, E, Ty, Ix>);

#[verifier::external_type_specification]
#[verifier::external_body]
pub struct ExDirected(petgraph::Directed);

/// The node weights of a graph, in the order the nodes were added.
pub uninterp spec fn graph_nodes(g: petgraph::Graph<u8, ()>) -> Seq<u8>;

/// Relies on `petgraph::Graph::new`: a graph without nodes.
#[verifier::external_body]
fn empty_graph() -> (r: petgraph::Graph<u8, ()>)
    ensures
        graph_nodes(r) == Seq::<u8>::empty(),
{
    petgraph::Graph::new()
}

/// Relies on `petgraph::Graph::add_node`: the weight becomes the last node.
/// It panics when the graph already holds `u32::MAX` nodes, the end marker
/// of the default index type.
#[verifier::external_body]
fn add_graph_node(g: &mut petgraph::Graph<u8, ()>, weight: u8)
    requires
        graph_nodes(*old(g)).len() < u32::MAX,
    ensures
        graph_nodes(*final(g)) == graph_nodes(*old(g)).push(weight),
{
    g.add_node(weight);
}

/// Builds a graph with one node per byte.
pub struct GraphTheory;

impl GraphTheory {
    pub fn new() -> Self {
        GraphTheory
    }

    /// One node per byte, weighted by the byte, in buffer order; no edges
    /// are added.
    pub fn analyze(&self, instructions: &[u8]) -> (r: petgraph::Graph<u8, ()>)
        requires
            instructions@.len() < u32::MAX,
        ensures
            graph_nodes(r) == instructions@,
    {
        let mut g = empty_graph();
        let mut i: usize = 0;
        while i < instructions.len()
            invariant
                i <= instructions@.len(),
                instructions@.len() < u32::MAX,
                graph_nodes(g) == instructions@.subrange(0, i as int),
            decreases instructions@.len() - i,
        {
            add_graph_node(&mut g, instructions[i]);
            assert(instructions@.subrange(0, i + 1) =~= instructions@.subrange(0, i as int).push(
                instructions@[i as int],
            ));
            i += 1;
        }
        assert(instructions@.subrange(0, i as int) =~= instructions@);
        g
    }
}

/// Turns bytes into a feature vector for prediction.
pub struct MachineLearning;

impl MachineLearning {
    pub fn new() -> Self {
        MachineLearning
    }
}

/// Frequency spectrum of a byte buffer.
pub struct FourierTransform;

impl FourierTransform {
    pub fn new() -> Self {
        FourierTransform
    }
}

/// Pattern search over the bytes rendered in hexadecimal.
pub struct SymbolicExecution;

impl SymbolicExecution {
    pub fn new() -> Self {
        SymbolicExecution
    }
}

} // verus!
