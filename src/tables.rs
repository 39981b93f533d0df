//! The address tables that one scan over a decoded stream produces.
use std::collections::HashSet;
use vstd::prelude::*;

use crate::model::{views, InstrView, Instruction, MnemonicClass};

verus! {

broadcast use vstd::std_specs::hash::group_hash_axioms;

/// Start addresses of the instructions of `s`.
pub open spec fn known_of(s: Seq<InstrView>) -> Set<u64> {
    Set::new(|a: u64| exists|i: int| 0 <= i < s.len() && (#[trigger] s[i]).address == a)
}

/// Near-branch targets named by the instructions of `s`.
pub open spec fn targets_of(s: Seq<InstrView>) -> Set<u64> {
    Set::new(
        |a: u64| exists|i: int| 0 <= i < s.len() && (#[trigger] s[i]).near_branch_target == Some(a),
    )
}

/// Whether control does not fall through past `x`.
pub open spec fn is_exit(x: InstrView) -> bool {
    x.class == MnemonicClass::Return || x.class == MnemonicClass::Jump
}

/// Addresses of the returns and unconditional jumps of `s`.
pub open spec fn exits_of(s: Seq<InstrView>) -> Set<u64> {
    Set::new(
        |a: u64| exists|i: int| 0 <= i < s.len() && is_exit(#[trigger] s[i]) && s[i].address == a,
    )
}

/// Lookup sets over one decoded stream.
pub struct AddressTables {
    pub known_addresses: HashSet<u64>,
    pub branch_targets: HashSet<u64>,
    pub control_flow_exits: HashSet<u64>,
    /// The control-flow exits again, in stream order.
    pub exit_list: Vec<u64>,
}

impl AddressTables {
    /// The tables describe exactly the stream `s`.
    pub open spec fn describes(&self, s: Seq<InstrView>) -> bool {
        &&& self.known_addresses@ == known_of(s)
        &&& self.branch_targets@ == targets_of(s)
        &&& self.control_flow_exits@ == exits_of(s)
        &&& forall|a: u64| #[trigger] exits_of(s).contains(a) <==> self.exit_list@.contains(a)
    }

    pub fn is_known_address(&self, addr: u64) -> (r: bool)
        ensures
            r == self.known_addresses@.contains(addr),
    {
        self.known_addresses.contains(&addr)
    }

    pub fn is_branch_target(&self, addr: u64) -> (r: bool)
        ensures
            r == self.branch_targets@.contains(addr),
    {
        self.branch_targets.contains(&addr)
    }

    pub fn is_control_flow_exit(&self, addr: u64) -> (r: bool)
        ensures
            r == self.control_flow_exits@.contains(addr),
    {
        self.control_flow_exits.contains(&addr)
    }
}

/// Builds the three tables in one pass over the stream.
pub fn build_tables(stream: &Vec<Instruction>) -> (r: AddressTables)
    ensures
        r.describes(views(stream@)),
        r.control_flow_exits@.subset_of(r.known_addresses@),
{
    let mut known: HashSet<u64> = HashSet::new();
    let mut targets: HashSet<u64> = HashSet::new();
    let mut exits: HashSet<u64> = HashSet::new();
    let mut exit_list: Vec<u64> = Vec::new();
    let mut k: usize = 0;
    while k < stream.len()
        invariant
            k <= stream@.len(),
            known@ == known_of(views(stream@.subrange(0, k as int))),
            targets@ == targets_of(views(stream@.subrange(0, k as int))),
            exits@ == exits_of(views(stream@.subrange(0, k as int))),
            forall|a: u64| #[trigger] exits@.contains(a) <==> exit_list@.contains(a),
        decreases stream@.len() - k,
    {
        let inst = &stream[k];
        known.insert(inst.address);
        match inst.near_branch_target {
            Some(t) => {
                targets.insert(t);
            },
            None => {},
        }
        if inst.class == MnemonicClass::Return || inst.class == MnemonicClass::Jump {
            exits.insert(inst.address);
            let ghost before = exit_list@;
            exit_list.push(inst.address);
            proof {
                assert forall|a: u64| #[trigger] exit_list@.contains(a) <==> (before.contains(a) || a
                    == inst.address) by {
                    if before.contains(a) {
                        let j = choose|j: int| 0 <= j < before.len() && before[j] == a;
                        assert(exit_list@[j] == a);
                    }
                    if a == inst.address {
                        assert(exit_list@[before.len() as int] == a);
                    }
                    if exit_list@.contains(a) && a != inst.address {
                        let j = choose|j: int| 0 <= j < exit_list@.len() && exit_list@[j] == a;
                        assert(j < before.len());
                        assert(before[j] == a);
                    }
                }
            }
        }
        proof {
            let p = views(stream@.subrange(0, k as int));
            let q = views(stream@.subrange(0, k + 1));
            assert(q.drop_last() =~= p);
            assert(q[k as int] == stream@[k as int]@);
            assert forall|j: int| 0 <= j < k implies #[trigger] q[j] == p[j] by {}
            assert(known@ =~= known_of(q)) by {
                assert forall|a: u64| known_of(q).contains(a) implies known@.contains(a) by {
                    let i = choose|i: int| 0 <= i < q.len() && (#[trigger] q[i]).address == a;
                    if i < k {
                        assert(p[i].address == a);
                    }
                }
                assert forall|a: u64| known@.contains(a) implies known_of(q).contains(a) by {
                    if a != inst.address {
                        let i = choose|i: int| 0 <= i < p.len() && (#[trigger] p[i]).address == a;
                        assert(q[i].address == a);
                    }
                }
            }
            assert(targets@ =~= targets_of(q)) by {
                assert forall|a: u64| targets_of(q).contains(a) implies targets@.contains(a) by {
                    let i = choose|i: int|
                        0 <= i < q.len() && (#[trigger] q[i]).near_branch_target == Some(a);
                    if i < k {
                        assert(p[i].near_branch_target == Some(a));
                    }
                }
                assert forall|a: u64| targets@.contains(a) implies targets_of(q).contains(a) by {
                    if inst.near_branch_target != Some(a) {
                        let i = choose|i: int|
                            0 <= i < p.len() && (#[trigger] p[i]).near_branch_target == Some(a);
                        assert(q[i].near_branch_target == Some(a));
                    }
                }
            }
            assert(exits@ =~= exits_of(q)) by {
                assert forall|a: u64| exits_of(q).contains(a) implies exits@.contains(a) by {
                    let i = choose|i: int|
                        0 <= i < q.len() && is_exit(#[trigger] q[i]) && q[i].address == a;
                    if i < k {
                        assert(is_exit(p[i]) && p[i].address == a);
                    }
                }
                assert forall|a: u64| exits@.contains(a) implies exits_of(q).contains(a) by {
                    if !(is_exit(q[k as int]) && a == inst.address) {
                        let i = choose|i: int|
                            0 <= i < p.len() && is_exit(#[trigger] p[i]) && p[i].address == a;
                        assert(is_exit(q[i]) && q[i].address == a);
                    }
                }
            }
        }
        k += 1;
    }
    assert(stream@.subrange(0, k as int) =~= stream@);
    proof {
        lemma_exits_are_known(views(stream@));
    }
    AddressTables {
        known_addresses: known,
        branch_targets: targets,
        control_flow_exits: exits,
        exit_list,
    }
}

/// Every control-flow exit of a stream is also one of its known addresses.
pub proof fn lemma_exits_are_known(s: Seq<InstrView>)
    ensures
        exits_of(s).subset_of(known_of(s)),
{
    assert forall|a: u64| exits_of(s).contains(a) implies known_of(s).contains(a) by {
        let i = choose|i: int| 0 <= i < s.len() && is_exit(#[trigger] s[i]) && s[i].address == a;
        assert(s[i].address == a);
    }
}

} // verus!
