//! How listing text is handed back to the Keystone assembler.
use vstd::prelude::*;
use vstd::string::*;

use crate::deoptimizer::{AssemblySyntax, Deoptimizer};

verus! {

/// The x86 modes the assembler is opened in.
#[derive(Clone, Copy, PartialEq, Eq, Structural, Debug)]
pub enum KeystoneMode {
    Bits16,
    Bits32,
    Bits64,
}

/// The input syntaxes the assembler is set to.
#[derive(Clone, Copy, PartialEq, Eq, Structural, Debug)]
pub enum KeystoneSyntax {
    Intel,
    Masm,
    Gas,
}

/// Why a listing cannot be handed to the assembler.
#[derive(Clone, Copy, PartialEq, Eq, Structural, Debug)]
pub enum AssembleError {
    /// The bitness is not 16, 32 or 64.
    UnsupportedMode,
    /// The text holds a NUL character, which the engine cannot take.
    NulInSource,
}

pub open spec fn mode_of(bitness: u32) -> Option<KeystoneMode> {
    if bitness == 16 {
        Some(KeystoneMode::Bits16)
    } else if bitness == 32 {
        Some(KeystoneMode::Bits32)
    } else if bitness == 64 {
        Some(KeystoneMode::Bits64)
    } else {
        None
    }
}

/// The assembler syntax for a listing syntax: NASM and Keystone-style
/// listings are read as Intel syntax.
pub open spec fn keystone_syntax(s: AssemblySyntax) -> KeystoneSyntax {
    match s {
        AssemblySyntax::Masm => KeystoneSyntax::Masm,
        AssemblySyntax::Gas => KeystoneSyntax::Gas,
        _ => KeystoneSyntax::Intel,
    }
}

fn has_nul(code: &str) -> (r: bool)
    ensures
        r == code@.contains('\0'),
{
    let n = code.unicode_len();
    let mut i: usize = 0;
    while i < n
        invariant
            n == code@.len(),
            i <= n,
            forall|j: int| 0 <= j < i ==> code@[j] != '\0',
        decreases n - i,
    {
        if code.get_char(i) == '\0' {
            assert(code@[i as int] == '\0');
            return true;
        }
        i += 1;
    }
    false
}

impl Deoptimizer {
    /// The mode and input syntax to assemble `code` with, for the given
    /// bitness and the selected listing syntax; refused when the bitness is
    /// unsupported or the text holds a NUL character.
    pub fn assemble_settings(&self, code: &str, bitness: u32) -> (r: Result<
        (KeystoneMode, KeystoneSyntax),
        AssembleError,
    >)
        ensures
            mode_of(bitness) is None <==> r == Err::<(KeystoneMode, KeystoneSyntax), AssembleError>(
                AssembleError::UnsupportedMode,
            ),
            (mode_of(bitness) is Some && code@.contains('\0')) <==> r == Err::<
                (KeystoneMode, KeystoneSyntax),
                AssembleError,
            >(AssembleError::NulInSource),
            r is Ok ==> r->Ok_0 == (mode_of(bitness)->Some_0, keystone_syntax(self.syntax)),
    {
        let mode = if bitness == 16 {
            KeystoneMode::Bits16
        } else if bitness == 32 {
            KeystoneMode::Bits32
        } else if bitness == 64 {
            KeystoneMode::Bits64
        } else {
            return Err(AssembleError::UnsupportedMode);
        };
        if has_nul(code) {
            return Err(AssembleError::NulInSource);
        }
        let syntax = match self.syntax {
            AssemblySyntax::Masm => KeystoneSyntax::Masm,
            AssemblySyntax::Gas => KeystoneSyntax::Gas,
            _ => KeystoneSyntax::Intel,
        };
        Ok((mode, syntax))
    }
}

} // verus!
