use deoptimizer::plugin::PluginManager;
use deoptimizer::deoptimizer::{Architecture, Deoptimizer, DeoptimizerError, FREQ_SCALE};
use deoptimizer::gadgets::{AvailableTransforms, ARITHMETIC_PARTITIONING};
use deoptimizer::selector::GadgetKind;
use deoptimizer::format::LineKind;
use deoptimizer::model::{encode, MnemonicClass};
use deoptimizer::tables::build_tables;
use deoptimizer::x86::{decode_x86, instruction_from_fields, line_from, X86Fields};

#[test]
fn x86_boundaries_and_classes() {
    // nop; jmp $; jne +0x10; ret
    let code = vec![0x90u8, 0xEB, 0xFE, 0x75, 0x10, 0xC3];
    let stream = decode_x86(&code, 64, 0x1000);
    assert_eq!(stream.len(), 4);
    assert_eq!(stream[1].address, 0x1001);
    assert_eq!(stream[1].class, MnemonicClass::Jump);
    assert_eq!(stream[1].near_branch_target, Some(0x1001));
    assert_eq!(stream[2].class, MnemonicClass::ConditionalBranch);
    assert_eq!(stream[2].near_branch_target, Some(0x1005 + 0x10));
    assert_eq!(stream[3].class, MnemonicClass::Return);
    assert_eq!(encode(&stream), code);
}

#[test]
fn x86_listing_labels_and_flags() {
    let code = vec![0x90u8, 0xEB, 0xFE, 0x75, 0x10, 0xC3];
    let mut d = Deoptimizer::new();
    let lines = d.disassemble_x86(&code, 64, 0x1000);
    assert_eq!(lines.len(), 4);
    assert_eq!(lines[0].text, "loc_0000000000001000: nop");
    assert_eq!(lines[0].kind, LineKind::Plain);
    assert_eq!(lines[1].kind, LineKind::Label(0x1001));
    assert_eq!(lines[1].text, "loc_0000000000001001: jmp loc_0000000000001001");
    assert_eq!(lines[2].kind, LineKind::Unresolved(0x1015));
    assert!(lines[2].text.ends_with(" ; misaligned target"));
    assert_eq!(lines[3].text, "loc_0000000000001005: ret");
    assert_eq!(d.get_random_cfe_addr().is_some(), true);
    let a = d.get_random_cfe_addr().unwrap();
    assert!(a == 0x1001 || a == 0x1005);
}

#[test]
fn x86_truncated_tail_is_raw_bytes() {
    // ret, then the first two bytes of a five-byte jmp
    let code = vec![0xC3u8, 0xE9, 0x00];
    let stream = decode_x86(&code, 32, 0);
    assert_eq!(encode(&stream), code);
    let mut d = Deoptimizer::new();
    let lines = d.disassemble_x86(&code, 32, 0);
    assert_eq!(lines.last().unwrap().text, "loc_0000000000000001: db 0xE9, 0x00");
    assert_eq!(lines.last().unwrap().kind, LineKind::RawBytes);
}

#[test]
fn random_exit_needs_analysis() {
    let d = Deoptimizer::new();
    assert_eq!(d.get_random_cfe_addr(), None);
    let mut d = Deoptimizer::new();
    d.disassemble_x86(&[0x90, 0x90], 64, 0);
    assert_eq!(d.get_random_cfe_addr(), None);
}

#[test]
fn x86_listing_follows_syntax() {
    // mov eax, 1
    let code = vec![0xB8u8, 0x01, 0x00, 0x00, 0x00];
    let mut d = Deoptimizer::new();
    let nasm = d.disassemble_x86(&code, 32, 0);
    assert!(nasm[0].text.starts_with("loc_0000000000000000: mov"));
    assert!(nasm[0].text.contains("eax") && !nasm[0].text.contains('%'));
    d.set_syntax("gas".to_string()).unwrap();
    let gas = d.disassemble_x86(&code, 32, 0);
    assert!(gas[0].text.contains("%eax"));
    d.set_syntax("keystone".to_string()).unwrap();
    let ks = d.disassemble_x86(&code, 32, 0);
    assert!(ks[0].text.contains("eax"));
    assert_ne!(gas[0].text, nasm[0].text);
}

#[test]
fn x86_nops_each_partitioned() {
    let mut d = Deoptimizer::new();
    d.set_architecture(Architecture::X86 { bitness: 64 }).unwrap();
    d.set_transform_gadgets(AvailableTransforms::from_bits(ARITHMETIC_PARTITIONING));
    d.set_frequency(FREQ_SCALE);
    d.set_allow_invalid(true);
    let input = vec![0x90u8, 0x90, 0x90, 0x90];
    let run = d.run_cycles(&input, 0x1000, 1, &vec![], &PluginManager::new());
    let out = run.outcome.unwrap();
    assert_eq!(out, vec![0x91, 0x91, 0x91, 0x91]);
    assert_eq!(run.cycles[0].applied, vec![GadgetKind::ArithmeticPartitioning; 4]);
    let again = decode_x86(&out, 64, 0x1000);
    assert_eq!(again.len(), 4);
    let lines = d.disassemble_x86(&out, 64, 0x1000);
    assert!(lines.iter().all(|l| l.kind != LineKind::RawBytes));
}

#[test]
fn x86_branches_stop_a_strict_pass() {
    let mut d = Deoptimizer::new();
    d.set_architecture(Architecture::X86 { bitness: 32 }).unwrap();
    d.set_frequency(FREQ_SCALE);
    let run = d.run_cycles(&vec![0xC3], 0, 1, &vec![], &PluginManager::new());
    assert_eq!(run.outcome.unwrap_err().error, DeoptimizerError::AllTransformsFailed);
    d.set_allow_invalid(true);
    let run = d.run_cycles(&vec![0xC3], 0, 1, &vec![], &PluginManager::new());
    assert_eq!(run.outcome.unwrap(), vec![0xC3]);
}

#[test]
fn unsupported_bitness_is_refused() {
    let mut d = Deoptimizer::new();
    assert_eq!(
        d.set_architecture(Architecture::X86 { bitness: 8 }).unwrap_err(),
        DeoptimizerError::UnsupportedArchitecture
    );
    assert_eq!(d.arch, Architecture::Arm32);
}

#[test]
fn log_accumulates_across_cycles() {
    let mut d = Deoptimizer::new();
    d.set_architecture(Architecture::X86 { bitness: 64 }).unwrap();
    d.set_frequency(FREQ_SCALE);
    d.set_allow_invalid(true);
    // nop; ret: only the nop is rewritten, once per cycle
    let run = d.run_cycles(&vec![0x90, 0xC3], 0, 3, &vec![], &PluginManager::new());
    assert_eq!(run.cycles.len(), 3);
    assert_eq!(run.log, vec![GadgetKind::ArithmeticPartitioning; 3]);
    assert_eq!(run.outcome.unwrap(), vec![0x93, 0xC3]);
}

#[test]
fn x86_no_gadgets_is_identity() {
    let mut d = Deoptimizer::new();
    d.set_architecture(Architecture::X86 { bitness: 64 }).unwrap();
    d.set_transform_gadgets(AvailableTransforms::none());
    d.set_allow_invalid(true);
    let input = vec![0x48u8, 0x89, 0xD8, 0xEB, 0xFE, 0xC3, 0x0F];
    let run = d.run_cycles(&input, 0x400, 4, &vec![], &PluginManager::new());
    assert_eq!(run.outcome.unwrap(), input);
    assert!(run.log.is_empty());
}

#[test]
fn line_from_formatted_text() {
    let fields = X86Fields {
        length: 2,
        op_count: 1,
        near_branch_target: 0x20,
        class: MnemonicClass::Jump,
        invalid: false,
    };
    let jmp = instruction_from_fields(fields, vec![0xEB, 0x1E], 0x0);
    assert_eq!(jmp.near_branch_target, Some(0x20));
    assert_eq!(jmp.length, 2);
    let target = instruction_from_fields(
        X86Fields { length: 1, op_count: 0, near_branch_target: 0, class: MnemonicClass::Other, invalid: false },
        vec![0x90],
        0x20,
    );
    assert_eq!(target.near_branch_target, None);
    let tables = build_tables(&vec![jmp.clone(), target.clone()]);
    let l = line_from(&jmp, false, "jmp short 0000000000000020h", &tables);
    assert_eq!(l.text, "loc_0000000000000000: jmp loc_0000000000000020");
    assert_eq!(l.kind, LineKind::Label(0x20));
    let lonely = build_tables(&vec![jmp.clone()]);
    let l = line_from(&jmp, false, "jmp short 0000000000000020h", &lonely);
    assert_eq!(l.text, "loc_0000000000000000: jmp short 0000000000000020h ; misaligned target");
    let l = line_from(&target, true, "(bad)", &tables);
    assert_eq!(l.text, "loc_0000000000000020: db 0x90");
    assert_eq!(l.kind, LineKind::RawBytes);
    let bad = instruction_from_fields(
        X86Fields { length: 1, op_count: 3, near_branch_target: 0x40, class: MnemonicClass::Jump, invalid: true },
        vec![0x0F],
        0x5,
    );
    assert_eq!(bad.class, MnemonicClass::Other);
    assert_eq!(bad.near_branch_target, None);
    assert_eq!(bad.operand_count, 0);
}
