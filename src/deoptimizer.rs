//! The orchestrator: analyze, transform and encode one buffer, and the
//! driver that repeats that pass over several cycles.
use std::collections::HashSet;
use vstd::prelude::*;

use crate::gadgets::{copy_bytes, has_bit, AvailableTransforms, ARITHMETIC_PARTITIONING, LOGICAL_INVERSE, LOGICAL_PARTITIONING, OFFSET_MUTATION, REGISTER_SWAP};
use crate::model::{concat_raw, decode, decode_spec, encode, lemma_round_trip, views, DecodeError, InstrView, Instruction};
use crate::selector::{copy_instruction, gadget_output, select_spec, select_transform, GadgetKind};
use crate::tables::{build_tables, AddressTables};
use crate::plugin::{apply_all, PluginManager, TransformationPlugin};
use crate::x86::{decode_x86, x86_stream};

verus! {

broadcast use vstd::std_specs::hash::group_hash_axioms;

/// A frequency is given in parts per million of instructions.
pub const FREQ_SCALE: u32 = 1_000_000;

/// The assembly syntaxes that the formatter can be asked for.
#[derive(Clone, Copy, PartialEq, Eq, Structural, Debug)]
pub enum AssemblySyntax {
    Keystone,
    Nasm,
    Masm,
    Intel,
    Gas,
}

#[derive(Clone, Copy, PartialEq, Eq, Structural, Debug)]
pub enum DeoptimizerError {
    EmptyInput,
    TruncatedInstruction,
    InvalidSyntax,
    AllTransformsFailed,
    UnsupportedArchitecture,
    /// An instruction claims more operands than any instruction has.
    UnexpectedOperandCount,
    /// The bytes a cycle produced no longer fit the address space from the
    /// start address on.
    EncodingFailure,
}

/// The most operands an instruction has.
pub const MAX_OPERANDS: u8 = 5;

/// The instruction set a buffer is decoded as.
#[derive(Clone, Copy, PartialEq, Eq, Structural, Debug)]
pub enum Architecture {
    /// Fixed 32-bit little-endian words.
    Arm32,
    /// Variable-length x86 code of the given bitness (16, 32 or 64).
    X86 { bitness: u32 },
}

pub open spec fn arch_ok(a: Architecture) -> bool {
    match a {
        Architecture::Arm32 => true,
        Architecture::X86 { bitness } => bitness == 16 || bitness == 32 || bitness == 64,
    }
}

/// The decoded stream of `b` loaded at `start`.
pub open spec fn stream_spec(a: Architecture, b: Seq<u8>, start: u64) -> Seq<InstrView> {
    match a {
        Architecture::Arm32 => decode_spec(b, start),
        Architecture::X86 { bitness } => x86_stream(bitness, b, start),
    }
}

/// Whether `b` is cut short inside an instruction.
pub open spec fn truncated(a: Architecture, b: Seq<u8>) -> bool {
    a == Architecture::Arm32 && b.len() % 4 != 0
}

/// Relies on `rand::Rng::gen_range` over `rand::thread_rng()`: a value of
/// the half-open range, which must not be empty (it panics on an empty one).
#[verifier::external_body]
fn random_index(n: usize) -> (r: usize)
    requires
        n > 0,
    ensures
        r < n,
{
    rand::Rng::gen_range(&mut rand::thread_rng(), 0..n)
}

/// The part of the configuration that decides what a pass does.
pub struct Settings {
    pub arch: Architecture,
    pub bits: u8,
    pub freq: u32,
    pub allow_invalid: bool,
    pub skip: Set<u64>,
}

/// Whether a draw of `sample` lets an instruction be transformed.
pub open spec fn drawn(freq: u32, sample: u32) -> bool {
    freq >= FREQ_SCALE || sample % FREQ_SCALE < freq
}

pub open spec fn eligible(c: Settings, x: InstrView, sample: u32) -> bool {
    !c.skip.contains(x.address) && drawn(c.freq, sample)
}

/// The gadget applied to `x` in a pass, if any.
pub open spec fn chosen(c: Settings, x: InstrView, sample: u32) -> Option<GadgetKind> {
    if eligible(c, x, sample) {
        select_spec(c.bits, x)
    } else {
        None
    }
}

/// `x` does not stop the pass: it is left alone, rewritten, or may pass
/// through unmodified.
pub open spec fn step_ok(c: Settings, x: InstrView, sample: u32) -> bool {
    !(eligible(c, x, sample) && select_spec(c.bits, x) is None && !c.allow_invalid)
}

pub open spec fn step_out(c: Settings, x: InstrView, sample: u32) -> InstrView {
    match chosen(c, x, sample) {
        Some(k) => gadget_output(k, x),
        None => x,
    }
}

/// The draw for the `i`-th instruction; a missing draw counts as zero.
pub open spec fn sample_at(samples: Seq<u32>, i: int) -> u32 {
    if 0 <= i < samples.len() {
        samples[i]
    } else {
        0
    }
}

pub open spec fn pass_ok(c: Settings, s: Seq<InstrView>, samples: Seq<u32>) -> bool {
    forall|i: int| 0 <= i < s.len() ==> step_ok(c, #[trigger] s[i], sample_at(samples, i))
}

pub open spec fn pass_out(c: Settings, s: Seq<InstrView>, samples: Seq<u32>) -> Seq<InstrView> {
    Seq::new(s.len(), |i: int| step_out(c, s[i], sample_at(samples, i)))
}

/// The gadgets applied in a pass, in stream order.
pub open spec fn applied_spec(c: Settings, s: Seq<InstrView>, samples: Seq<u32>) -> Seq<GadgetKind>
    decreases s.len(),
{
    if s.len() == 0 {
        Seq::empty()
    } else {
        applied_spec(c, s.drop_last(), samples) + match chosen(
            c,
            s.last(),
            sample_at(samples, s.len() - 1),
        ) {
            Some(k) => seq![k],
            None => Seq::empty(),
        }
    }
}

/// One cycle on a buffer: decode, transform, encode.
pub open spec fn cycle_spec(c: Settings, b: Seq<u8>, start: u64, samples: Seq<u32>) -> Result<
    Seq<u8>,
    DeoptimizerError,
> {
    if b.len() == 0 {
        Err(DeoptimizerError::EmptyInput)
    } else if truncated(c.arch, b) {
        Err(DeoptimizerError::TruncatedInstruction)
    } else if !pass_ok(c, stream_spec(c.arch, b, start), samples) {
        Err(DeoptimizerError::AllTransformsFailed)
    } else {
        Ok(concat_raw(pass_out(c, stream_spec(c.arch, b, start), samples)))
    }
}

/// The draws of cycle `i`; a missing row holds none.
pub open spec fn row(rows: Seq<Seq<u32>>, i: int) -> Seq<u32> {
    if 0 <= i < rows.len() {
        rows[i]
    } else {
        Seq::empty()
    }
}

/// Why a run stopped: the index of the failing cycle and its error.
#[derive(Clone, Copy, PartialEq, Eq, Structural, Debug)]
pub struct CycleError {
    pub cycle: u32,
    pub error: DeoptimizerError,
}

/// One cycle followed by the plugins `ps`, in order, on its bytes; the
/// result must still fit the address space from `start` on.
pub open spec fn cycle_full(
    c: Settings,
    b: Seq<u8>,
    start: u64,
    samples: Seq<u32>,
    ps: Seq<Box<dyn TransformationPlugin>>,
) -> Result<Seq<u8>, DeoptimizerError> {
    match cycle_spec(c, b, start, samples) {
        Ok(b2) => {
            let b3 = apply_all(ps, b2);
            if start + b3.len() <= u64::MAX {
                Ok(b3)
            } else {
                Err(DeoptimizerError::EncodingFailure)
            }
        },
        Err(e) => Err(e),
    }
}

/// `k` cycles in a row, each fed with the previous one's output.
#[verifier::opaque]
pub open spec fn run_spec(
    c: Settings,
    b: Seq<u8>,
    start: u64,
    rows: Seq<Seq<u32>>,
    ps: Seq<Box<dyn TransformationPlugin>>,
    k: nat,
) -> Result<
    Seq<u8>,
    (int, DeoptimizerError),
>
    decreases k,
{
    if k == 0 {
        Ok(b)
    } else {
        match run_spec(c, b, start, rows, ps, (k - 1) as nat) {
            Ok(b1) => match cycle_full(c, b1, start, row(rows, k - 1), ps) {
                Ok(b2) => Ok(b2),
                Err(e) => Err((k - 1, e)),
            },
            Err(e) => Err(e),
        }
    }
}

/// The outcome of a transform pass.
pub struct Transformed {
    pub instructions: Vec<Instruction>,
    pub applied: Vec<GadgetKind>,
}

/// What one completed cycle did.
pub struct CycleResult {
    pub cycle_index: u32,
    pub applied: Vec<GadgetKind>,
    pub before: Vec<u8>,
    pub after: Vec<u8>,
}

/// What a run of the driver leaves: the completed cycles, in order, and
/// either the final bytes or the first failure.
pub struct CycleRun {
    pub cycles: Vec<CycleResult>,
    /// Every gadget applied, over all completed cycles, in order.
    pub log: Vec<GadgetKind>,
    pub outcome: Result<Vec<u8>, CycleError>,
}

/// The gadgets of the first `k` cycles, one cycle after another.
pub open spec fn log_of(cycles: Seq<CycleResult>, k: nat) -> Seq<GadgetKind>
    decreases k,
{
    if k == 0 || k > cycles.len() {
        Seq::empty()
    } else {
        log_of(cycles, (k - 1) as nat) + cycles[k - 1].applied@
    }
}

/// The deoptimizer of the reference backend.
pub struct Deoptimizer {
    pub arch: Architecture,
    /// Immediate partitioning length.
    pub ipl: u32,
    /// Deoptimization frequency, in parts per million.
    pub freq: u32,
    pub allow_invalid: bool,
    pub skip_offsets: HashSet<u64>,
    pub gadgets: AvailableTransforms,
    pub syntax: AssemblySyntax,
    /// Whether the tables below describe the last buffer analyzed.
    pub is_analyzed: bool,
    pub tables: Option<AddressTables>,
}

impl Deoptimizer {
    pub open spec fn settings(&self) -> Settings {
        Settings {
            arch: self.arch,
            bits: self.gadgets.bits,
            freq: self.freq,
            allow_invalid: self.allow_invalid,
            skip: self.skip_offsets@,
        }
    }

    /// The architecture setting is one this deoptimizer can decode.
    pub open spec fn wf(&self) -> bool {
        arch_ok(self.arch)
    }

    /// 32-bit words, half of the instructions, every gadget, no skipped
    /// address, NASM.
    pub fn new() -> (r: Self)
        ensures
            r.wf(),
            r.arch == Architecture::Arm32,
            r.ipl == 1,
            r.freq == FREQ_SCALE / 2,
            !r.allow_invalid,
            r.skip_offsets@ == Set::<u64>::empty(),
            r.gadgets.bits == 0xff,
            r.syntax == AssemblySyntax::Nasm,
            !r.is_analyzed,
            r.tables is None,
    {
        Deoptimizer {
            arch: Architecture::Arm32,
            ipl: 1,
            freq: FREQ_SCALE / 2,
            allow_invalid: false,
            skip_offsets: HashSet::new(),
            gadgets: AvailableTransforms::all(),
            syntax: AssemblySyntax::Nasm,
            is_analyzed: false,
            tables: None,
        }
    }

    /// Selects the instruction set; an x86 bitness other than 16, 32 or 64
    /// is refused and the setting is left as it was.
    pub fn set_architecture(&mut self, arch: Architecture) -> (r: Result<(), DeoptimizerError>)
        requires
            old(self).wf(),
        ensures
            final(self).wf(),
            r is Ok <==> arch_ok(arch),
            r is Err ==> r == Err::<(), DeoptimizerError>(DeoptimizerError::UnsupportedArchitecture)
                && final(self).settings() == old(self).settings(),
            r is Ok ==> final(self).settings() == (Settings { arch, ..old(self).settings() }),
            final(self).syntax == old(self).syntax,
    {
        let ok = match arch {
            Architecture::Arm32 => true,
            Architecture::X86 { bitness } => bitness == 16 || bitness == 32 || bitness == 64,
        };
        if ok {
            self.arch = arch;
            Ok(())
        } else {
            Err(DeoptimizerError::UnsupportedArchitecture)
        }
    }

    pub fn set_frequency(&mut self, freq: u32)
        ensures
            final(self).arch == old(self).arch,
            final(self).freq == freq,
            final(self).settings() == (Settings { freq, ..old(self).settings() }),
            final(self).syntax == old(self).syntax,
    {
        self.freq = freq;
    }

    pub fn set_transform_gadgets(&mut self, gadgets: AvailableTransforms)
        ensures
            final(self).arch == old(self).arch,
            final(self).settings() == (Settings { bits: gadgets.bits, ..old(self).settings() }),
            final(self).syntax == old(self).syntax,
    {
        self.gadgets = gadgets;
    }

    pub fn set_allow_invalid(&mut self, allow: bool)
        ensures
            final(self).arch == old(self).arch,
            final(self).settings() == (Settings { allow_invalid: allow, ..old(self).settings() }),
            final(self).syntax == old(self).syntax,
    {
        self.allow_invalid = allow;
    }

    pub fn add_skip_offset(&mut self, addr: u64)
        ensures
            final(self).arch == old(self).arch,
            final(self).settings() == (Settings {
                skip: old(self).settings().skip.insert(addr),
                ..old(self).settings()
            }),
            final(self).syntax == old(self).syntax,
    {
        self.skip_offsets.insert(addr);
    }

    /// Decodes the buffer as the selected architecture and builds its
    /// address tables; the decoded stream is what [`Deoptimizer::transform`]
    /// takes.
    pub fn analyze(&mut self, code: &[u8], start: u64) -> (r: Result<Vec<Instruction>, DeoptimizerError>)
        requires
            old(self).wf(),
            start + code@.len() <= u64::MAX,
        ensures
            final(self).wf(),
            final(self).settings() == old(self).settings(),
            final(self).syntax == old(self).syntax,
            code@.len() == 0 <==> r == Err::<Vec<Instruction>, DeoptimizerError>(
                DeoptimizerError::EmptyInput,
            ),
            (code@.len() > 0 && truncated(old(self).arch, code@)) <==> r == Err::<
                Vec<Instruction>,
                DeoptimizerError,
            >(DeoptimizerError::TruncatedInstruction),
            r is Ok <==> (code@.len() > 0 && !truncated(old(self).arch, code@)),
            r is Ok ==> {
                let s = stream_spec(old(self).arch, code@, start);
                &&& views(r->Ok_0@) == s
                &&& concat_raw(s) == code@
                &&& final(self).is_analyzed
                &&& final(self).tables matches Some(t) && t.describes(s)
            },
    {
        if code.len() == 0 {
            return Err(DeoptimizerError::EmptyInput);
        }
        let stream = match self.arch {
            Architecture::Arm32 => match decode(code, start) {
                Err(DecodeError::EmptyInput) => {
                    return Err(DeoptimizerError::EmptyInput);
                },
                Err(DecodeError::TruncatedInstruction) => {
                    return Err(DeoptimizerError::TruncatedInstruction);
                },
                Ok(v) => {
                    proof {
                        lemma_round_trip(code@, start);
                    }
                    v
                },
            },
            Architecture::X86 { bitness } => decode_x86(code, bitness, start),
        };
        self.tables = Some(build_tables(&stream));
        self.is_analyzed = true;
        Ok(stream)
    }

    /// Tries the enabled gadgets on `inst` in priority order. An
    /// instruction with more than five operands is refused.
    pub fn apply_transform(inst: &Instruction, gadgets: AvailableTransforms) -> (r: Result<
        Vec<Instruction>,
        DeoptimizerError,
    >)
        ensures
            inst.operand_count > MAX_OPERANDS ==> r == Err::<Vec<Instruction>, DeoptimizerError>(
                DeoptimizerError::UnexpectedOperandCount,
            ),
            inst.operand_count <= MAX_OPERANDS ==> {
                &&& r is Err <==> select_spec(gadgets.bits, inst@) is None
                &&& r is Err ==> r == Err::<Vec<Instruction>, DeoptimizerError>(
                    DeoptimizerError::AllTransformsFailed,
                )
                &&& r is Ok ==> r->Ok_0@.len() == 1 && r->Ok_0@[0]@ == gadget_output(
                    select_spec(gadgets.bits, inst@)->Some_0,
                    inst@,
                )
            },
    {
        if inst.operand_count > MAX_OPERANDS {
            return Err(DeoptimizerError::UnexpectedOperandCount);
        }
        match select_transform(inst, gadgets) {
            Some((_, v)) => Ok(v),
            None => Err(DeoptimizerError::AllTransformsFailed),
        }
    }

    /// One transform pass. `samples[i]` is the draw for the `i`-th
    /// instruction.
    pub fn transform(&self, stream: &Vec<Instruction>, samples: &Vec<u32>) -> (r: Result<
        Transformed,
        DeoptimizerError,
    >)
        ensures
            r is Ok <==> pass_ok(self.settings(), views(stream@), samples@),
            r is Err ==> r == Err::<Transformed, DeoptimizerError>(
                DeoptimizerError::AllTransformsFailed,
            ),
            r is Ok ==> {
                &&& views(r->Ok_0.instructions@) == pass_out(
                    self.settings(),
                    views(stream@),
                    samples@,
                )
                &&& r->Ok_0.applied@ == applied_spec(self.settings(), views(stream@), samples@)
            },
    {
        let ghost c = self.settings();
        let ghost s = views(stream@);
        let mut out: Vec<Instruction> = Vec::new();
        let mut applied: Vec<GadgetKind> = Vec::new();
        let mut k: usize = 0;
        while k < stream.len()
            invariant
                c == self.settings(),
                s == views(stream@),
                k <= stream@.len(),
                out@.len() == k,
                forall|j: int| 0 <= j < k ==> (#[trigger] out@[j])@ == step_out(c, s[j], sample_at(samples@, j)),
                forall|j: int| 0 <= j < k ==> step_ok(c, #[trigger] s[j], sample_at(samples@, j)),
                applied@ == applied_spec(c, s.subrange(0, k as int), samples@),
            decreases stream@.len() - k,
        {
            let x = &stream[k];
            let sample: u32 = if k < samples.len() {
                samples[k]
            } else {
                0
            };
            let ghost prev = s.subrange(0, k as int);
            proof {
                assert(s.subrange(0, k + 1).drop_last() =~= prev);
                assert(s[k as int] == x@);
            }
            let is_eligible = !self.skip_offsets.contains(&x.address) && (self.freq >= FREQ_SCALE
                || sample % FREQ_SCALE < self.freq);
            if is_eligible {
                match select_transform(x, self.gadgets) {
                    Some((kind, v)) => {
                        let mut v = v;
                        let y = v.pop();
                        match y {
                            Some(y) => {
                                out.push(y);
                            },
                            None => {},
                        }
                        applied.push(kind);
                    },
                    None => {
                        if self.allow_invalid {
                            out.push(copy_instruction(x));
                        } else {
                            assert(!step_ok(c, s[k as int], sample_at(samples@, k as int)));
                            return Err(DeoptimizerError::AllTransformsFailed);
                        }
                    },
                }
            } else {
                out.push(copy_instruction(x));
            }
            k += 1;
        }
        proof {
            assert(s.subrange(0, k as int) =~= s);
            assert(views(out@) =~= pass_out(c, s, samples@));
        }
        Ok(Transformed { instructions: out, applied })
    }

    /// One full cycle on `code`: analyze, transform, encode. Returns the new
    /// bytes and the gadgets applied, in stream order.
    pub fn run_cycle(&mut self, code: &Vec<u8>, start: u64, samples: &Vec<u32>) -> (r: Result<
        (Vec<u8>, Vec<GadgetKind>),
        DeoptimizerError,
    >)
        requires
            old(self).wf(),
            start + code@.len() <= u64::MAX,
        ensures
            final(self).wf(),
            final(self).settings() == old(self).settings(),
            final(self).syntax == old(self).syntax,
            r is Ok ==> r->Ok_0.0@.len() == code@.len(),
            (old(self).gadgets.bits == 0 && old(self).allow_invalid && code@.len() > 0
                && !truncated(old(self).arch, code@)) ==> r is Ok && r->Ok_0.0@ == code@,
            r is Ok <==> cycle_spec(old(self).settings(), code@, start, samples@) is Ok,
            r is Err ==> r->Err_0 == cycle_spec(old(self).settings(), code@, start, samples@)->Err_0,
            r is Ok ==> {
                &&& cycle_spec(old(self).settings(), code@, start, samples@) == Ok::<
                    Seq<u8>,
                    DeoptimizerError,
                >(r->Ok_0.0@)
                &&& r->Ok_0.1@ == applied_spec(
                    old(self).settings(),
                    stream_spec(old(self).arch, code@, start),
                    samples@,
                )
            },
    {
        let stream = self.analyze(code.as_slice(), start)?;
        let t = self.transform(&stream, samples)?;
        let bytes = self.encode(&t);
        proof {
            lemma_pass_keeps_length(self.settings(), views(stream@), samples@);
            if self.gadgets.bits == 0 && self.allow_invalid {
                lemma_empty_mask_pass(self.settings(), views(stream@), samples@);
            }
        }
        Ok((bytes, t.applied))
    }

    /// Runs `cycle_count` cycles, each on the previous one's output; cycle
    /// `i` draws from `samples[i]`, and after its gadget pass the plugins
    /// run on its bytes, in registration order. Stops at the first failing
    /// cycle; the cycles completed before it stay in the result.
    pub fn run_cycles(
        &mut self,
        code: &Vec<u8>,
        start: u64,
        cycle_count: u32,
        samples: &Vec<Vec<u32>>,
        plugins: &PluginManager,
    ) -> (r: CycleRun)
        requires
            old(self).wf(),
            start + code@.len() <= u64::MAX,
        ensures
            final(self).wf(),
            final(self).settings() == old(self).settings(),
            final(self).syntax == old(self).syntax,
            ({
                let c = old(self).settings();
                let rows = rows_of(samples@);
                let ps = plugins.plugins();
                &&& r.outcome is Ok ==> {
                    &&& run_spec(c, code@, start, rows, ps, cycle_count as nat) == Ok::<
                        Seq<u8>,
                        (int, DeoptimizerError),
                    >(r.outcome->Ok_0@)
                    &&& r.cycles@.len() == cycle_count
                }
                &&& r.outcome is Err ==> {
                    &&& run_spec(c, code@, start, rows, ps, cycle_count as nat) == Err::<
                        Seq<u8>,
                        (int, DeoptimizerError),
                    >((r.outcome->Err_0.cycle as int, r.outcome->Err_0.error))
                    &&& r.cycles@.len() == r.outcome->Err_0.cycle
                }
                &&& r.log@ == log_of(r.cycles@, r.cycles@.len())
                &&& (c.bits == 0 && c.allow_invalid && ps == Seq::<
                    Box<dyn TransformationPlugin>,
                >::empty() && code@.len() > 0 && !truncated(c.arch, code@)) ==> r.outcome is Ok
                    && r.outcome->Ok_0@ == code@
                &&& forall|i: int|
                    0 <= i < r.cycles@.len() ==> {
                        &&& (#[trigger] r.cycles@[i]).cycle_index == i
                        &&& run_spec(c, code@, start, rows, ps, i as nat) == Ok::<
                            Seq<u8>,
                            (int, DeoptimizerError),
                        >(r.cycles@[i].before@)
                        &&& run_spec(c, code@, start, rows, ps, (i + 1) as nat) == Ok::<
                            Seq<u8>,
                            (int, DeoptimizerError),
                        >(r.cycles@[i].after@)
                        &&& r.cycles@[i].applied@ == applied_spec(
                            c,
                            stream_spec(c.arch, r.cycles@[i].before@, start),
                            row(rows, i),
                        )
                    }
            }),
    {
        let ghost c = self.settings();
        let ghost rows = rows_of(samples@);
        let ghost ps = plugins.plugins();
        proof {
            lemma_run_step(c, code@, start, rows, ps, 0);
        }
        let mut cycles: Vec<CycleResult> = Vec::new();
        let mut log: Vec<GadgetKind> = Vec::new();
        let mut cur = copy_bytes(code);
        let empty: Vec<u32> = Vec::new();
        let mut i: u32 = 0;
        while i < cycle_count
            invariant
                c == self.settings(),
                c == old(self).settings(),
                self.wf(),
                rows == rows_of(samples@),
                ps == plugins.plugins(),
                self.syntax == old(self).syntax,
                i <= cycle_count,
                start + cur@.len() <= u64::MAX,
                empty@.len() == 0,
                run_spec(c, code@, start, rows, ps, i as nat) == Ok::<Seq<u8>, (int, DeoptimizerError)>(
                    cur@,
                ),
                cycles@.len() == i,
                log@ == log_of(cycles@, i as nat),
                (c.bits == 0 && c.allow_invalid && ps == Seq::<Box<dyn TransformationPlugin>>::empty()
                    && code@.len() > 0 && !truncated(c.arch, code@)) ==> cur@ == code@,
                forall|j: int|
                    0 <= j < i ==> {
                        &&& (#[trigger] cycles@[j]).cycle_index == j
                        &&& run_spec(c, code@, start, rows, ps, j as nat) == Ok::<
                            Seq<u8>,
                            (int, DeoptimizerError),
                        >(cycles@[j].before@)
                        &&& run_spec(c, code@, start, rows, ps, (j + 1) as nat) == Ok::<
                            Seq<u8>,
                            (int, DeoptimizerError),
                        >(cycles@[j].after@)
                        &&& cycles@[j].applied@ == applied_spec(
                            c,
                            stream_spec(c.arch, cycles@[j].before@, start),
                            row(rows, j),
                        )
                    },
            decreases cycle_count - i,
        {
            let row_samples: &Vec<u32> = if (i as usize) < samples.len() {
                &samples[i as usize]
            } else {
                &empty
            };
            assert(row_samples@ == row(rows, i as int));
            let step = match self.run_cycle(&cur, start, row_samples) {
                Ok((bytes, applied)) => {
                    let mut bytes = bytes;
                    plugins.apply_transformations(&mut bytes);
                    if bytes.len() as u64 <= u64::MAX - start {
                        Ok((bytes, applied))
                    } else {
                        Err(DeoptimizerError::EncodingFailure)
                    }
                },
                Err(e) => Err(e),
            };
            match step {
                Ok((next, applied)) => {
                    proof {
                        lemma_run_step(c, code@, start, rows, ps, i as nat);
                    }
                    let before = copy_bytes(&cur);
                    let after = copy_bytes(&next);
                    let ghost old_cycles = cycles@;
                    let ghost old_log = log@;
                    let mut j: usize = 0;
                    while j < applied.len()
                        invariant
                            j <= applied@.len(),
                            log@ == old_log + applied@.subrange(0, j as int),
                        decreases applied@.len() - j,
                    {
                        log.push(applied[j]);
                        assert(old_log + applied@.subrange(0, j + 1) =~= log@);
                        j += 1;
                    }
                    assert(applied@.subrange(0, j as int) =~= applied@);
                    cycles.push(CycleResult { cycle_index: i, applied, before, after });
                    proof {
                        let ghost cs = cycles@;
                        assert forall|k: nat| k <= i implies log_of(cs, k) == log_of(old_cycles, k) by {
                            lemma_log_prefix(old_cycles, cs, k);
                        }
                    }
                    cur = next;
                },
                Err(e) => {
                    proof {
                        lemma_run_step(c, code@, start, rows, ps, i as nat);
                        lemma_failure_persists(c, code@, start, rows, ps, (i + 1) as nat, cycle_count as nat);
                    }
                    return CycleRun { cycles, log, outcome: Err(CycleError { cycle: i, error: e }) };
                },
            }
            i += 1;
        }
        CycleRun { cycles, log, outcome: Ok(cur) }
    }

    /// A control-flow exit of the last buffer analyzed, picked at random;
    /// `None` before any analysis or when that buffer has no exit.
    pub fn get_random_cfe_addr(&self) -> (r: Option<u64>)
        ensures
            r is None <==> (self.tables is None || self.tables->Some_0.exit_list@.len() == 0),
            r is Some ==> self.tables->Some_0.exit_list@.contains(r->Some_0),
    {
        match &self.tables {
            Some(t) => {
                let n = t.exit_list.len();
                if n == 0 {
                    None
                } else {
                    let i = random_index(n);
                    Some(t.exit_list[i])
                }
            },
            None => None,
        }
    }

    /// The bytes of a transformed stream.
    pub fn encode(&self, t: &Transformed) -> (r: Vec<u8>)
        ensures
            r@ == concat_raw(views(t.instructions@)),
    {
        encode(&t.instructions)
    }
}

/// The draw rows handed to the driver, as sequences.
pub open spec fn rows_of(v: Seq<Vec<u32>>) -> Seq<Seq<u32>> {
    v.map_values(|r: Vec<u32>| r@)
}

proof fn lemma_concat_len(s: Seq<InstrView>)
    requires
        forall|i: int| 0 <= i < s.len() ==> (#[trigger] s[i]).raw.len() == 4,
    ensures
        concat_raw(s).len() == 4 * s.len(),
    decreases s.len(),
{
    if s.len() > 0 {
        lemma_concat_len(s.drop_last());
    }
}

/// Running one cycle more: the last cycle runs on what the others left.
pub proof fn lemma_run_step(
    c: Settings,
    b: Seq<u8>,
    start: u64,
    rows: Seq<Seq<u32>>,
    ps: Seq<Box<dyn TransformationPlugin>>,
    k: nat,
)
    ensures
        run_spec(c, b, start, rows, ps, 0) == Ok::<Seq<u8>, (int, DeoptimizerError)>(b),
        run_spec(c, b, start, rows, ps, k + 1) == match run_spec(c, b, start, rows, ps, k) {
            Ok(b1) => match cycle_full(c, b1, start, row(rows, k as int), ps) {
                Ok(b2) => Ok(b2),
                Err(e) => Err((k as int, e)),
            },
            Err(e) => Err(e),
        },
{
    reveal_with_fuel(run_spec, 2);
}

/// A pass keeps the length of every instruction, so the encoded stream is
/// as long as before.
pub proof fn lemma_pass_keeps_length(c: Settings, s: Seq<InstrView>, samples: Seq<u32>)
    ensures
        concat_raw(pass_out(c, s, samples)).len() == concat_raw(s).len(),
    decreases s.len(),
{
    if s.len() > 0 {
        let t = s.drop_last();
        lemma_pass_keeps_length(c, t, samples);
        assert(pass_out(c, s, samples).drop_last() =~= pass_out(c, t, samples));
    }
}

proof fn lemma_log_prefix(a: Seq<CycleResult>, b: Seq<CycleResult>, k: nat)
    requires
        k <= a.len() <= b.len(),
        forall|j: int| 0 <= j < a.len() ==> #[trigger] a[j] == b[j],
    ensures
        log_of(b, k) == log_of(a, k),
    decreases k,
{
    if k > 0 {
        lemma_log_prefix(a, b, (k - 1) as nat);
        assert(a[k - 1] == b[k - 1]);
    }
}

/// Once a run has failed, running further cycles reports the same failure.
pub proof fn lemma_failure_persists(
    c: Settings,
    b: Seq<u8>,
    start: u64,
    rows: Seq<Seq<u32>>,
    ps: Seq<Box<dyn TransformationPlugin>>,
    i: nat,
    k: nat,
)
    requires
        run_spec(c, b, start, rows, ps, i) is Err,
        i <= k,
    ensures
        run_spec(c, b, start, rows, ps, k) == run_spec(c, b, start, rows, ps, i),
    decreases k - i,
{
    if k > i {
        lemma_failure_persists(c, b, start, rows, ps, i, (k - 1) as nat);
        lemma_run_step(c, b, start, rows, ps, (k - 1) as nat);
    }
}

/// With no gadget enabled and invalid instructions allowed through, a pass
/// succeeds and leaves every instruction as it was.
pub proof fn lemma_empty_mask_pass(c: Settings, s: Seq<InstrView>, samples: Seq<u32>)
    requires
        c.bits == 0,
        c.allow_invalid,
    ensures
        pass_ok(c, s, samples),
        pass_out(c, s, samples) == s,
        applied_spec(c, s, samples) == Seq::<GadgetKind>::empty(),
    decreases s.len(),
{
    assert(!has_bit(0, ARITHMETIC_PARTITIONING)) by (bit_vector);
    assert(!has_bit(0, LOGICAL_INVERSE)) by (bit_vector);
    assert(!has_bit(0, LOGICAL_PARTITIONING)) by (bit_vector);
    assert(!has_bit(0, OFFSET_MUTATION)) by (bit_vector);
    assert(!has_bit(0, REGISTER_SWAP)) by (bit_vector);
    assert(pass_out(c, s, samples) =~= s);
    if s.len() > 0 {
        lemma_empty_mask_pass(c, s.drop_last(), samples);
    }
}

/// An instruction that no gadget was applied to comes out of a pass with
/// the same bytes, address and shape.
pub proof fn lemma_untouched_kept(c: Settings, s: Seq<InstrView>, samples: Seq<u32>, i: int)
    requires
        0 <= i < s.len(),
        chosen(c, s[i], sample_at(samples, i)) is None,
    ensures
        pass_out(c, s, samples)[i] == s[i],
{
}

/// With no gadget enabled, invalid instructions allowed through and no
/// plugin, every cycle hands back the bytes it was given.
pub proof fn lemma_no_gadgets_is_identity(
    c: Settings,
    b: Seq<u8>,
    start: u64,
    rows: Seq<Seq<u32>>,
    ps: Seq<Box<dyn TransformationPlugin>>,
    k: nat,
)
    requires
        c.arch == Architecture::Arm32,
        c.bits == 0,
        c.allow_invalid,
        ps == Seq::<Box<dyn TransformationPlugin>>::empty(),
        b.len() > 0,
        b.len() % 4 == 0,
        start + b.len() <= u64::MAX,
    ensures
        run_spec(c, b, start, rows, ps, k) == Ok::<Seq<u8>, (int, DeoptimizerError)>(b),
    decreases k,
{
    lemma_run_step(c, b, start, rows, ps, 0);
    if k > 0 {
        lemma_no_gadgets_is_identity(c, b, start, rows, ps, (k - 1) as nat);
        lemma_run_step(c, b, start, rows, ps, (k - 1) as nat);
        lemma_empty_mask_pass(c, decode_spec(b, start), row(rows, k - 1));
        lemma_round_trip(b, start);
    }
}

/// At full frequency with every gadget enabled, each instruction that is not
/// skipped and that a gadget can rewrite gets exactly one gadget, the first
/// in priority order.
pub proof fn lemma_full_frequency(c: Settings, s: Seq<InstrView>, samples: Seq<u32>, i: int)
    requires
        c.freq >= FREQ_SCALE,
        c.bits == 0xff,
        0 <= i < s.len(),
        !c.skip.contains(s[i].address),
        s[i].class == crate::model::MnemonicClass::Other,
        s[i].raw.len() > 0,
    ensures
        chosen(c, s[i], sample_at(samples, i)) == Some(GadgetKind::ArithmeticPartitioning),
        step_ok(c, s[i], sample_at(samples, i)),
        pass_out(c, s, samples)[i] == gadget_output(GadgetKind::ArithmeticPartitioning, s[i]),
{
    assert(has_bit(0xff, ARITHMETIC_PARTITIONING)) by (bit_vector);
}

/// Running `k + 1` cycles equals running `k` cycles and then, by hand, one
/// more cycle on their output with the next row of draws.
pub proof fn lemma_cycle_chaining(
    c: Settings,
    b: Seq<u8>,
    start: u64,
    rows: Seq<Seq<u32>>,
    ps: Seq<Box<dyn TransformationPlugin>>,
    k: nat,
)
    ensures
        run_spec(c, b, start, rows, ps, k + 1) == match run_spec(c, b, start, rows, ps, k) {
            Ok(b1) => match run_spec(c, b1, start, seq![row(rows, k as int)], ps, 1) {
                Ok(b2) => Ok(b2),
                Err((_, e)) => Err((k as int, e)),
            },
            Err(e) => Err(e),
        },
{
    lemma_run_step(c, b, start, rows, ps, k);
    let r = run_spec(c, b, start, rows, ps, k);
    if let Ok(b1) = r {
        let one = seq![row(rows, k as int)];
        lemma_run_step(c, b1, start, one, ps, 0);
        assert(row(one, 0) == row(rows, k as int));
    }
}

/// Two runs with the same settings, input, start address and draws give
/// the same result for every cycle.
pub proof fn lemma_deterministic(
    c1: Settings,
    c2: Settings,
    b: Seq<u8>,
    start: u64,
    rows: Seq<Seq<u32>>,
    ps: Seq<Box<dyn TransformationPlugin>>,
    k: nat,
)
    requires
        c1 == c2,
    ensures
        run_spec(c1, b, start, rows, ps, k) == run_spec(c2, b, start, rows, ps, k),
{
}

} // verus!
