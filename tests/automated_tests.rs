use deoptimizer::arm::ArmTransform;
use deoptimizer::plugin::{PluginManager, TransformationPlugin};
use deoptimizer::riscv::RiscVTransform;

struct TestTransformationPlugin;

impl TransformationPlugin for TestTransformationPlugin {
    fn name(&self) -> &str {
        "Test Transformation"
    }

    fn transform(&self, instructions: &mut Vec<u8>) {
        for i in 0..instructions.len() {
            instructions[i] = instructions[i].wrapping_add(1);
        }
    }
}

#[test]
fn test_transformation_plugin() {
    let mut instructions = vec![0x90; 10];
    let mut plugin_manager = PluginManager::new();
    plugin_manager.load_transformation_plugin(Box::new(TestTransformationPlugin));
    plugin_manager.apply_transformations(&mut instructions);
    for instruction in instructions {
        assert_eq!(instruction, 0x91);
    }
}

#[test]
fn test_arm_transforms() {
    let input = vec![0x00u8, 0x01, 0x02, 0x03];
    let mut instructions = input.clone();
    ArmTransform::arithmetic_partitioning(&mut instructions);
    assert_eq!(instructions[0], 0x01);
    for (instruction, before) in instructions.iter().zip(&input) {
        assert_eq!(*instruction, before.wrapping_add(1));
    }

    let mut instructions = input.clone();
    ArmTransform::logical_inverse(&mut instructions);
    for (instruction, before) in instructions.iter().zip(&input) {
        assert_eq!(*instruction, !(*before));
    }

    let mut instructions = input.clone();
    ArmTransform::offset_mutation(&mut instructions);
    assert_eq!(instructions[0], 0xFF);
    for (instruction, before) in instructions.iter().zip(&input) {
        assert_eq!(*instruction, before.wrapping_sub(1));
    }

    let mut instructions = vec![0x00, 0x01, 0x02, 0x03];
    ArmTransform::register_swap(&mut instructions);
    assert_eq!(instructions, vec![0x01, 0x00, 0x03, 0x02]);
}

#[test]
fn test_riscv_transforms() {
    let input = vec![0x00u8, 0x01, 0x02, 0x03];
    let mut instructions = input.clone();
    RiscVTransform::arithmetic_partitioning(&mut instructions);
    assert_eq!(instructions[0], 0x01);
    for (instruction, before) in instructions.iter().zip(&input) {
        assert_eq!(*instruction, before.wrapping_add(1));
    }

    let mut instructions = input.clone();
    RiscVTransform::logical_inverse(&mut instructions);
    for (instruction, before) in instructions.iter().zip(&input) {
        assert_eq!(*instruction, !(*before));
    }

    let mut instructions = input.clone();
    RiscVTransform::offset_mutation(&mut instructions);
    assert_eq!(instructions[0], 0xFF);
    for (instruction, before) in instructions.iter().zip(&input) {
        assert_eq!(*instruction, before.wrapping_sub(1));
    }

    let mut instructions = vec![0x00, 0x01, 0x02, 0x03];
    RiscVTransform::register_swap(&mut instructions);
    assert_eq!(instructions, vec![0x01, 0x00, 0x03, 0x02]);
}
