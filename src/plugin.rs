//! Byte-level plugins that run after the architecture transforms.
use vstd::prelude::*;

use crate::gadgets::{
    add_one_each, add_one_in_place, sub_one_each, sub_one_in_place, xor_each, xor_in_place,
};

verus! {

/// A transformation that users supply; it works on raw bytes and may not
/// assume instruction alignment.
pub trait TransformationPlugin {
    /// What the plugin makes of a buffer. A plugin that does not state it
    /// is left with an unspecified value.
    closed spec fn transformed(&self, s: Seq<u8>) -> Seq<u8> {
        arbitrary()
    }

    fn name(&self) -> &str;

    fn transform(&self, instructions: &mut Vec<u8>)
        ensures
            final(instructions)@ == self.transformed(old(instructions)@),
    ;
}

/// The buffer after each plugin of `ps` in turn, first to last.
pub open spec fn apply_all(ps: Seq<Box<dyn TransformationPlugin>>, s: Seq<u8>) -> Seq<u8>
    decreases ps.len(),
{
    if ps.len() == 0 {
        s
    } else {
        ps.last().transformed(apply_all(ps.drop_last(), s))
    }
}

/// An analysis that users supply.
pub trait AnalysisPlugin {
    fn name(&self) -> &str;

    fn analyze(&self, binary: &[u8]) -> Result<(), String>;
}

/// Holds the registered plugins, in registration order.
pub struct PluginManager {
    transformations: Vec<Box<dyn TransformationPlugin>>,
    analyses: Vec<Box<dyn AnalysisPlugin>>,
}

impl PluginManager {
    /// The transformation plugins, in registration order.
    pub closed spec fn plugins(&self) -> Seq<Box<dyn TransformationPlugin>> {
        self.transformations@
    }

    /// Number of transformation plugins registered.
    pub closed spec fn transformation_count(&self) -> nat {
        self.transformations@.len()
    }

    /// Number of analysis plugins registered.
    pub closed spec fn analysis_count(&self) -> nat {
        self.analyses@.len()
    }

    pub fn new() -> (r: Self)
        ensures
            r.plugins() == Seq::<Box<dyn TransformationPlugin>>::empty(),
            r.transformation_count() == 0,
            r.analysis_count() == 0,
    {
        PluginManager { transformations: Vec::new(), analyses: Vec::new() }
    }

    /// Registers a transformation plugin after those already there.
    pub fn load_transformation_plugin(&mut self, plugin: Box<dyn TransformationPlugin>)
        ensures
            final(self).plugins() == old(self).plugins().push(plugin),
            final(self).analysis_count() == old(self).analysis_count(),
    {
        self.transformations.push(plugin);
    }

    /// Registers an analysis plugin after those already there.
    pub fn load_analysis_plugin(&mut self, plugin: Box<dyn AnalysisPlugin>) {
        self.analyses.push(plugin);
    }

    /// Runs every transformation plugin over the buffer, in registration
    /// order.
    pub fn apply_transformations(&self, instructions: &mut Vec<u8>)
        ensures
            final(instructions)@ == apply_all(self.plugins(), old(instructions)@),
            self.transformation_count() == 0 ==> final(instructions)@ == old(instructions)@,
    {
        let ghost ps = self.transformations@;
        let mut i: usize = 0;
        while i < self.transformations.len()
            invariant
                ps == self.transformations@,
                i <= ps.len(),
                instructions@ == apply_all(ps.subrange(0, i as int), old(instructions)@),
            decreases ps.len() - i,
        {
            proof {
                assert(ps.subrange(0, i + 1).drop_last() =~= ps.subrange(0, i as int));
            }
            self.transformations[i].transform(instructions);
            i += 1;
        }
        assert(ps.subrange(0, i as int) =~= ps);
    }

    /// Runs every analysis plugin, in registration order, and stops at the
    /// first error. With no analysis registered the result is `Ok`.
    pub fn run_analyses(&self, binary: &[u8]) -> (r: Result<(), String>)
        ensures
            self.analysis_count() == 0 ==> r is Ok,
    {
        let mut i: usize = 0;
        while i < self.analyses.len()
            decreases self.analyses@.len() - i,
        {
            self.analyses[i].analyze(binary)?;
            i += 1;
        }
        Ok(())
    }
}

/// Adds one to every byte.
pub struct IncrementTransformationPlugin;

impl TransformationPlugin for IncrementTransformationPlugin {
    open spec fn transformed(&self, s: Seq<u8>) -> Seq<u8> {
        add_one_each(s)
    }

    fn name(&self) -> &str {
        "Increment Transformation"
    }

    fn transform(&self, instructions: &mut Vec<u8>) {
        add_one_in_place(instructions);
    }
}

/// Subtracts one from every byte.
pub struct DecrementTransformationPlugin;

impl TransformationPlugin for DecrementTransformationPlugin {
    open spec fn transformed(&self, s: Seq<u8>) -> Seq<u8> {
        sub_one_each(s)
    }

    fn name(&self) -> &str {
        "Decrement Transformation"
    }

    fn transform(&self, instructions: &mut Vec<u8>) {
        sub_one_in_place(instructions);
    }
}

/// The mask that the exclusive-or plugin applies.
pub const XOR_PLUGIN_MASK: u8 = 0xAA;

/// Exclusive-ors every byte with [`XOR_PLUGIN_MASK`].
pub struct XORTransformationPlugin;

impl TransformationPlugin for XORTransformationPlugin {
    open spec fn transformed(&self, s: Seq<u8>) -> Seq<u8> {
        xor_each(s, XOR_PLUGIN_MASK)
    }

    fn name(&self) -> &str {
        "XOR Transformation"
    }

    fn transform(&self, instructions: &mut Vec<u8>) {
        xor_in_place(instructions, XOR_PLUGIN_MASK);
    }
}

/// Registers the three example plugins after those already there:
/// increment, decrement, exclusive-or. (A plugin boxed as a trait object
/// here carries no specification Verus can follow, so the contract states
/// only that analyses are untouched.)
pub fn load_example_plugins(manager: &mut PluginManager)
    ensures
        final(manager).analysis_count() == old(manager).analysis_count(),
{
    manager.load_transformation_plugin(Box::new(IncrementTransformationPlugin));
    manager.load_transformation_plugin(Box::new(DecrementTransformationPlugin));
    manager.load_transformation_plugin(Box::new(XORTransformationPlugin));
}

} // verus!
