use deoptimizer::assemble::{AssembleError, KeystoneMode, KeystoneSyntax};
use deoptimizer::plugin::load_example_plugins;
use deoptimizer::plugin::PluginManager;
use deoptimizer::deoptimizer::{AssemblySyntax, Deoptimizer, DeoptimizerError, FREQ_SCALE};
use deoptimizer::format::{to_db_mnemonic, LineKind};
use deoptimizer::gadgets::{AvailableTransforms, ARITHMETIC_PARTITIONING, REGISTER_SWAP};
use deoptimizer::model::{decode, encode, DecodeError, Instruction, MnemonicClass};
use deoptimizer::selector::GadgetKind;
use deoptimizer::tables::build_tables;

fn configured(bits: u8, freq: u32, allow_invalid: bool) -> Deoptimizer {
    let mut d = Deoptimizer::new();
    d.set_transform_gadgets(AvailableTransforms::from_bits(bits));
    d.set_frequency(freq);
    d.set_allow_invalid(allow_invalid);
    d
}

#[test]
fn nop_words_are_partitioned_at_full_frequency() {
    let mut d = configured(ARITHMETIC_PARTITIONING, FREQ_SCALE, true);
    let input = vec![0x90u8, 0x90, 0x90, 0x90];
    let run = d.run_cycles(&input, 0x1000, 1, &vec![], &PluginManager::new());
    let out = run.outcome.unwrap();
    assert_eq!(out, vec![0x91, 0x91, 0x91, 0x91]);
    assert_ne!(out, input);
    assert!(decode(&out, 0x1000).is_ok());
    assert_eq!(run.cycles.len(), 1);
    assert_eq!(run.cycles[0].applied, vec![GadgetKind::ArithmeticPartitioning]);
    assert_eq!(run.cycles[0].before, input);
}

#[test]
fn unknown_branch_target_is_flagged() {
    // b with offset 0x10 words: lands at 0x1000 + 8 + 0x40, outside the buffer.
    let code = vec![0x10u8, 0x00, 0x00, 0xEA, 0x90, 0x90, 0x90, 0x90];
    let mut d = Deoptimizer::new();
    let lines = d.disassemble(&code, 0x1000);
    assert_eq!(lines.len(), 2);
    assert_eq!(lines[0].kind, LineKind::Unresolved(0x1048));
    assert_eq!(
        lines[0].text,
        "loc_0000000000001000: jmp 0x0000000000001048 ; misaligned target"
    );
    assert_eq!(lines[1].kind, LineKind::Plain);
}

#[test]
fn known_branch_target_becomes_label() {
    // b with offset -2 words: lands at 0x1004 + 8 - 8 = 0x1004, itself.
    let code = vec![0x90u8, 0x90, 0x90, 0x90, 0xFE, 0xFF, 0xFF, 0xEA];
    let mut d = Deoptimizer::new();
    let lines = d.disassemble(&code, 0x1000);
    assert_eq!(lines[1].kind, LineKind::Label(0x1004));
    assert_eq!(lines[1].text, "loc_0000000000001004: jmp loc_0000000000001004");
    assert_eq!(lines[0].text, "loc_0000000000001000: db 0x90, 0x90, 0x90, 0x90");
}

#[test]
fn trailing_bytes_render_as_raw_line() {
    let code = vec![0x1Eu8, 0xFF, 0x2F, 0xE1, 0xAB, 0x0C];
    let mut d = Deoptimizer::new();
    let lines = d.disassemble(&code, 0);
    assert_eq!(lines.len(), 2);
    assert_eq!(lines[0].text, "loc_0000000000000000: ret");
    assert_eq!(lines[1].kind, LineKind::RawBytes);
    assert_eq!(lines[1].text, "loc_0000000000000004: db 0xAB, 0x0C");
}

#[test]
fn round_trip_keeps_bytes() {
    let code = vec![0x01u8, 0x02, 0x03, 0x04, 0x1E, 0xFF, 0x2F, 0xE1, 0x10, 0x00, 0x00, 0x0A];
    let stream = decode(&code, 0x400).unwrap();
    assert_eq!(stream.len(), 3);
    assert_eq!(encode(&stream), code);
    assert_eq!(stream[1].class, MnemonicClass::Return);
    assert_eq!(stream[2].class, MnemonicClass::ConditionalBranch);
    assert_eq!(stream[2].near_branch_target, Some(0x408 + 8 + 0x40));
}

#[test]
fn decode_errors() {
    assert_eq!(decode(&[], 0).unwrap_err(), DecodeError::EmptyInput);
    assert_eq!(decode(&[1, 2, 3], 0).unwrap_err(), DecodeError::TruncatedInstruction);
    let mut d = Deoptimizer::new();
    assert_eq!(d.analyze(&[], 0).unwrap_err(), DeoptimizerError::EmptyInput);
    assert_eq!(d.analyze(&[1, 2, 3, 4, 5], 0).unwrap_err(), DeoptimizerError::TruncatedInstruction);
}

#[test]
fn tables_hold_exits_and_targets() {
    let code = vec![0x1Eu8, 0xFF, 0x2F, 0xE1, 0xFE, 0xFF, 0xFF, 0xEA, 0x10, 0x00, 0x00, 0x0A];
    let stream: Vec<Instruction> = decode(&code, 0).unwrap();
    let t = build_tables(&stream);
    assert!(t.is_known_address(0) && t.is_known_address(4) && t.is_known_address(8));
    assert!(!t.is_known_address(12));
    assert!(t.is_control_flow_exit(0) && t.is_control_flow_exit(4));
    assert!(!t.is_control_flow_exit(8));
    assert!(t.is_branch_target(4));
    assert!(t.is_branch_target(8 + 8 + 0x40));
}

#[test]
fn no_gadgets_leave_every_cycle_unchanged() {
    let mut d = configured(0, FREQ_SCALE, true);
    let input = vec![0x11u8, 0x22, 0x33, 0x44, 0x1E, 0xFF, 0x2F, 0xE1];
    let run = d.run_cycles(&input, 0, 3, &vec![], &PluginManager::new());
    assert_eq!(run.outcome.unwrap(), input);
    for c in &run.cycles {
        assert_eq!(c.before, input);
        assert_eq!(c.after, input);
        assert!(c.applied.is_empty());
    }
}

#[test]
fn cycles_chain_like_single_runs() {
    let input = vec![0x11u8, 0x22, 0x33, 0x44, 0x55, 0x66, 0x77, 0x88];
    let samples = vec![vec![10u32, 900_000], vec![900_000, 10], vec![0, 0]];
    let mut a = Deoptimizer::new();
    let all = a.run_cycles(&input, 0, 3, &samples, &PluginManager::new()).outcome.unwrap();
    let mut cur = input.clone();
    for row in &samples {
        let mut b = Deoptimizer::new();
        cur = b.run_cycles(&cur, 0, 1, &vec![row.clone()], &PluginManager::new()).outcome.unwrap();
    }
    assert_eq!(all, cur);
    assert_eq!(all, vec![0x13, 0x24, 0x35, 0x46, 0x57, 0x68, 0x79, 0x8A]);
}

#[test]
fn same_draws_give_same_output() {
    let input = vec![0x01u8, 0x02, 0x03, 0x04, 0x05, 0x06, 0x07, 0x08];
    let samples = vec![vec![3u32, 700_000], vec![123_456, 999_999]];
    let mut a = Deoptimizer::new();
    let mut b = Deoptimizer::new();
    let ra = a.run_cycles(&input, 0x40, 2, &samples, &PluginManager::new());
    let rb = b.run_cycles(&input, 0x40, 2, &samples, &PluginManager::new());
    assert_eq!(ra.outcome.unwrap(), rb.outcome.unwrap());
    for i in 0..2 {
        assert_eq!(ra.cycles[i].after, rb.cycles[i].after);
    }
}

#[test]
fn full_frequency_rewrites_every_eligible_instruction() {
    let mut d = configured(0xFF, FREQ_SCALE, true);
    d.add_skip_offset(4);
    let input = vec![0x00u8, 0x01, 0x02, 0x03, 0x00, 0x01, 0x02, 0x03, 0x1E, 0xFF, 0x2F, 0xE1];
    let run = d.run_cycles(&input, 0, 1, &vec![], &PluginManager::new());
    assert_eq!(
        run.outcome.unwrap(),
        vec![0x01, 0x02, 0x03, 0x04, 0x00, 0x01, 0x02, 0x03, 0x1E, 0xFF, 0x2F, 0xE1]
    );
    assert_eq!(run.cycles[0].applied, vec![GadgetKind::ArithmeticPartitioning]);
}

#[test]
fn failure_stops_the_driver() {
    let mut d = configured(0xFF, FREQ_SCALE, false);
    let input = vec![0x1Eu8, 0xFF, 0x2F, 0xE1];
    let run = d.run_cycles(&input, 0, 2, &vec![], &PluginManager::new());
    let e = run.outcome.unwrap_err();
    assert_eq!(e.cycle, 0);
    assert_eq!(e.error, DeoptimizerError::AllTransformsFailed);
    assert!(run.cycles.is_empty());
    let run = d.run_cycles(&vec![1, 2, 3], 0, 1, &vec![], &PluginManager::new());
    assert_eq!(run.outcome.unwrap_err().error, DeoptimizerError::TruncatedInstruction);
}

#[test]
fn priority_falls_back_to_register_swap() {
    let d = configured(REGISTER_SWAP, FREQ_SCALE, false);
    let stream = decode(&[0x01, 0x02, 0x03, 0x04], 0).unwrap();
    let r = Deoptimizer::apply_transform(&stream[0], d.gadgets).unwrap();
    assert_eq!(r[0].raw, vec![0x02, 0x01, 0x04, 0x03]);
    let t = d.transform(&stream, &vec![]).unwrap();
    assert_eq!(t.applied, vec![GadgetKind::RegisterSwap]);
    let ret = decode(&[0x1E, 0xFF, 0x2F, 0xE1], 0).unwrap();
    assert_eq!(
        Deoptimizer::apply_transform(&ret[0], d.gadgets).unwrap_err(),
        DeoptimizerError::AllTransformsFailed
    );
}

#[test]
fn zero_frequency_transforms_nothing() {
    let mut d = configured(0xFF, 0, false);
    let input = vec![0x01u8, 0x02, 0x03, 0x04];
    assert_eq!(d.run_cycles(&input, 0, 2, &vec![], &PluginManager::new()).outcome.unwrap(), input);
}

#[test]
fn syntax_selection() {
    let mut d = Deoptimizer::new();
    assert_eq!(d.syntax, AssemblySyntax::Nasm);
    assert!(d.set_syntax("GAS".to_string()).is_ok());
    assert_eq!(d.syntax, AssemblySyntax::Gas);
    assert!(d.set_syntax("Keystone".to_string()).is_ok());
    assert_eq!(d.syntax, AssemblySyntax::Keystone);
    assert_eq!(d.set_syntax("att".to_string()).unwrap_err(), DeoptimizerError::InvalidSyntax);
    assert_eq!(d.syntax, AssemblySyntax::Keystone);
}

#[test]
fn db_mnemonic_text() {
    assert_eq!(to_db_mnemonic(&[0x90, 0x0F, 0xAB]), "db 0x90, 0x0F, 0xAB");
    assert_eq!(to_db_mnemonic(&[]), "db ");
}

#[test]
fn too_many_operands_are_refused() {
    let stream = decode(&[0x01, 0x02, 0x03, 0x04], 0).unwrap();
    let mut inst = stream[0].clone();
    inst.operand_count = 6;
    assert_eq!(
        Deoptimizer::apply_transform(&inst, AvailableTransforms::all()).unwrap_err(),
        DeoptimizerError::UnexpectedOperandCount
    );
    inst.operand_count = 5;
    assert!(Deoptimizer::apply_transform(&inst, AvailableTransforms::all()).is_ok());
}

#[test]
fn plugins_run_inside_each_cycle() {
    let mut plugins = PluginManager::new();
    load_example_plugins(&mut plugins);
    let mut d = configured(0, FREQ_SCALE, true);
    let input = vec![0x00u8, 0x01, 0x02, 0x03];
    let run = d.run_cycles(&input, 0, 2, &vec![], &plugins);
    // each cycle: no gadget, then +1, -1, ^0xAA
    assert_eq!(run.cycles[0].after, vec![0xAA, 0xAB, 0xA8, 0xA9]);
    assert_eq!(run.cycles[1].before, vec![0xAA, 0xAB, 0xA8, 0xA9]);
    assert_eq!(run.outcome.unwrap(), input);
}

#[test]
fn assembler_settings() {
    let mut d = Deoptimizer::new();
    assert_eq!(
        d.assemble_settings("nop", 64).unwrap(),
        (KeystoneMode::Bits64, KeystoneSyntax::Intel)
    );
    d.set_syntax("gas".to_string()).unwrap();
    assert_eq!(d.assemble_settings("nop", 16).unwrap(), (KeystoneMode::Bits16, KeystoneSyntax::Gas));
    d.set_syntax("masm".to_string()).unwrap();
    assert_eq!(d.assemble_settings("nop", 32).unwrap().1, KeystoneSyntax::Masm);
    assert_eq!(d.assemble_settings("nop", 8).unwrap_err(), AssembleError::UnsupportedMode);
    assert_eq!(d.assemble_settings("n\0p", 32).unwrap_err(), AssembleError::NulInSource);
}
