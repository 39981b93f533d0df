use deoptimizer::arm::{ArmAnalyzer, ArmDeoptimizer, ArmDeoptimizerError, ArmEncoder, ArmTransform};
use deoptimizer::gadgets::{AvailableTransforms, LOGICAL_INVERSE, LOGICAL_PARTITIONING};
use deoptimizer::math::{AbstractInterpretation, ConvexOptimization, MarkovChains};
use deoptimizer::plugin::{load_example_plugins, PluginManager};
use deoptimizer::reporting::{ReportingModule, VisualizationTool};
use deoptimizer::riscv::{RiscVAnalyzer, RiscVDeoptimizer, RiscVDeoptimizerError};

#[test]
fn arm_gadget_values() {
    let mut v = vec![0x00u8, 0x01, 0xFF, 0x55];
    ArmTransform::arithmetic_partitioning(&mut v);
    assert_eq!(v, vec![0x01, 0x02, 0x00, 0x56]);
    let mut v = vec![0x00u8, 0x0F];
    ArmTransform::logical_inverse(&mut v);
    assert_eq!(v, vec![0xFF, 0xF0]);
    let mut v = vec![0x00u8, 0xFF];
    ArmTransform::logical_partitioning(&mut v);
    assert_eq!(v, vec![0x55, 0xAA]);
    let mut v = vec![0x00u8, 0x10];
    ArmTransform::offset_mutation(&mut v);
    assert_eq!(v, vec![0xFF, 0x0F]);
    let mut v = vec![1u8, 2, 3];
    ArmTransform::register_swap(&mut v);
    assert_eq!(v, vec![2, 1, 3]);
}

#[test]
fn arm_flattening_layout() {
    let mut v = vec![0xAAu8, 0xBB];
    ArmTransform::control_flow_flattening(&mut v);
    assert_eq!(v, vec![0x00, 0xAA, 0x00, 0xBB, 0x01]);
}

#[test]
fn arm_analyzer_words() {
    let mut a = ArmAnalyzer::new();
    assert!(a.analyze(&[0x78, 0x56, 0x34, 0x12, 0x01, 0, 0, 0]).is_ok());
    assert_eq!(a.instructions.len(), 2);
    assert_eq!(a.instructions[0].opcode, 0x1234_5678);
    assert_eq!(a.instructions[1].opcode, 1);
    assert!(a.analyze(&[]).is_err());
    assert!(a.analyze(&[1, 2, 3, 4, 5]).is_err());
    assert_eq!(a.instructions.len(), 2);
}

#[test]
fn arm_deoptimizer_pass() {
    let mut d = ArmDeoptimizer::new();
    assert_eq!(d.analyze(&[1, 2, 3]).unwrap_err(), ArmDeoptimizerError::InvalidInstruction);
    d.set_transform_gadgets(AvailableTransforms::from_bits(LOGICAL_INVERSE | LOGICAL_PARTITIONING));
    let mut v = vec![0x00u8, 0xFF];
    assert!(d.transform(&mut v).is_ok());
    // logical inverse comes first in priority and is the only gadget applied
    assert_eq!(v, vec![0xFF, 0x00]);
    assert_eq!(d.encode(&v).unwrap(), v);
    assert_eq!(ArmEncoder::encode(&vec![7, 8]).unwrap(), vec![7, 8]);
    d.set_transform_gadgets(AvailableTransforms::none());
    let mut w = vec![9u8, 8, 7];
    d.transform(&mut w).unwrap();
    assert_eq!(w, vec![9, 8, 7]);
}

#[test]
fn riscv_deoptimizer_pass() {
    let mut a = RiscVAnalyzer::new();
    assert!(a.analyze(&[0x13, 0, 0, 0]).is_ok());
    assert_eq!(a.instructions[0].opcode, 0x13);
    let mut d = RiscVDeoptimizer::new();
    assert_eq!(d.analyze(&[]).unwrap_err(), RiscVDeoptimizerError::InvalidInstruction);
    let mut v = vec![0x00u8, 0x01];
    d.transform(&mut v).unwrap();
    // all gadgets: +1, invert, ^0x55, -1, swap
    // every gadget enabled: each instruction gets arithmetic partitioning only
    assert_eq!(v, vec![0x01, 0x02]);
}

#[test]
fn example_plugins_compose() {
    let mut m = PluginManager::new();
    load_example_plugins(&mut m);
    let mut v = vec![0x00u8, 0x10];
    m.apply_transformations(&mut v);
    assert_eq!(v, vec![0xAA, 0xBA]);
    let empty = PluginManager::new();
    let mut w = vec![3u8, 4];
    empty.apply_transformations(&mut w);
    assert_eq!(w, vec![3, 4]);
    assert!(m.run_analyses(&[1, 2]).is_ok());
}

#[test]
fn byte_analyses() {
    let mut v = vec![0xFFu8, 1];
    ConvexOptimization::new().optimize(&mut v);
    assert_eq!(v, vec![0x00, 2]);
    let hex = AbstractInterpretation::new().analyze(&[0x00, 0x0A, 0xAB]);
    assert_eq!(hex, vec!["0".to_string(), "a".to_string(), "ab".to_string()]);
    let m = MarkovChains::new().analyze(&[1, 2, 1]);
    assert_eq!(m.get(&1), Some(&2));
    assert_eq!(m.get(&2), Some(&2));
    assert!(MarkovChains::new().analyze(&[5]).is_empty());
}

#[test]
fn report_and_visualization_text() {
    let v = VisualizationTool::new().visualization_text(&[0x90, 0x0A]);
    assert_eq!(
        v,
        "Detailed Transformation Visualization\n=================================\n\
         Instruction 0: 0x90 (Binary: 10010000)\nInstruction 1: 0x0A (Binary: 00001010)\n"
    );
    let names = vec!["Test Transformation".to_string()];
    let before: Vec<u8> = (0..11).collect();
    let r = ReportingModule::new().report_text(&names, &before, &[0xFF]);
    assert!(r.starts_with("Transformation Report\n====================\nApplied Transformation: Test Transformation\n\nBefore Transformation:\nInstruction 0: 0x00 (Binary: 00000000)\n"));
    assert!(r.contains("Instruction 10: 0x0A (Binary: 00001010)\n"));
    assert!(r.ends_with("\nAfter Transformation:\nInstruction 0: 0xFF (Binary: 11111111)\n"));
    assert_eq!(r, {
        let mut expect = String::from("Transformation Report\n====================\n");
        expect.push_str("Applied Transformation: Test Transformation\n");
        expect.push_str("\nBefore Transformation:\n");
        for (i, b) in before.iter().enumerate() {
            expect.push_str(&format!("Instruction {}: {:#04X} (Binary: {:08b})\n", i, b, b));
        }
        expect.push_str("\nAfter Transformation:\nInstruction 0: 0xFF (Binary: 11111111)\n");
        expect
    });
}

#[test]
fn graph_has_one_node_per_byte() {
    let g = deoptimizer::math::GraphTheory::new().analyze(&[7, 7, 9]);
    assert_eq!(g.node_count(), 3);
    assert_eq!(g.edge_count(), 0);
    assert_eq!(g[petgraph::graph::NodeIndex::new(2)], 9);
    assert_eq!(g[petgraph::graph::NodeIndex::new(0)], 7);
}

#[test]
fn analyzer_rebuilds_from_scratch() {
    let mut a = ArmAnalyzer::new();
    a.analyze(&[1, 0, 0, 0]).unwrap();
    a.analyze(&[2, 0, 0, 0]).unwrap();
    assert_eq!(a.instructions.len(), 1);
    assert_eq!(a.instructions[0].opcode, 2);
    assert_eq!(a.analyze(&[]).unwrap_err(), "Binary data is empty.");
    assert_eq!(a.analyze(&[1, 2]).unwrap_err(), "Incomplete instruction data.");
    assert_eq!(a.instructions.len(), 1);
    let mut r = RiscVAnalyzer::new();
    r.analyze(&[1, 0, 0, 0, 2, 0, 0, 0]).unwrap();
    r.analyze(&[3, 0, 0, 0]).unwrap();
    assert_eq!(r.instructions.len(), 1);
    assert_eq!(r.instructions[0].opcode, 3);
}

#[test]
fn one_gadget_per_word() {
    let mut d = ArmDeoptimizer::new();
    let mut v = vec![0x00u8, 0x01, 0x02, 0x03, 0x10, 0x20];
    d.transform(&mut v).unwrap();
    assert_eq!(v, vec![0x01, 0x02, 0x03, 0x04, 0x11, 0x21]);
    d.set_transform_gadgets(AvailableTransforms::from_bits(0x10));
    let mut v = vec![1u8, 2, 3, 4, 5];
    d.transform(&mut v).unwrap();
    // register swap needs two bytes: the lone last byte is left alone
    assert_eq!(v, vec![2, 1, 4, 3, 5]);
}
