//! Choosing the output syntax by name.
use vstd::prelude::*;
use vstd::string::*;

use crate::deoptimizer::{AssemblySyntax, Deoptimizer, DeoptimizerError};

verus! {

/// What `str::to_lowercase` makes of a string.
pub uninterp spec fn lower_of(s: Seq<char>) -> Seq<char>;

/// Relies on `str::to_lowercase`: the result depends on the characters
/// alone, and an empty string stays empty.
#[verifier::external_body]
fn lowercase(s: &str) -> (r: String)
    ensures
        r@ == lower_of(s@),
        s@.len() == 0 ==> r@.len() == 0,
{
    s.to_lowercase()
}

/// The syntax that a lower-case name selects.
pub open spec fn syntax_named(name: Seq<char>) -> Option<AssemblySyntax> {
    if name == "keystone"@ {
        Some(AssemblySyntax::Keystone)
    } else if name == "nasm"@ {
        Some(AssemblySyntax::Nasm)
    } else if name == "masm"@ {
        Some(AssemblySyntax::Masm)
    } else if name == "intel"@ {
        Some(AssemblySyntax::Intel)
    } else if name == "gas"@ {
        Some(AssemblySyntax::Gas)
    } else {
        None
    }
}

fn same_chars(a: &str, b: &str) -> (r: bool)
    ensures
        r == (a@ == b@),
{
    let n = a.unicode_len();
    if n != b.unicode_len() {
        return false;
    }
    let mut i: usize = 0;
    while i < n
        invariant
            n == a@.len(),
            n == b@.len(),
            i <= n,
            forall|j: int| 0 <= j < i ==> a@[j] == b@[j],
        decreases n - i,
    {
        if a.get_char(i) != b.get_char(i) {
            return false;
        }
        i += 1;
    }
    assert(a@ =~= b@);
    true
}

/// Picks the syntax for an already lower-cased name.
pub fn syntax_from_lower(name: &str) -> (r: Option<AssemblySyntax>)
    ensures
        r == syntax_named(name@),
{
    if same_chars(name, "keystone") {
        Some(AssemblySyntax::Keystone)
    } else if same_chars(name, "nasm") {
        Some(AssemblySyntax::Nasm)
    } else if same_chars(name, "masm") {
        Some(AssemblySyntax::Masm)
    } else if same_chars(name, "intel") {
        Some(AssemblySyntax::Intel)
    } else if same_chars(name, "gas") {
        Some(AssemblySyntax::Gas)
    } else {
        None
    }
}

impl Deoptimizer {
    /// Selects the output syntax by name, ignoring case; an unknown name is
    /// refused and the syntax is left as it was.
    pub fn set_syntax(&mut self, syntax: String) -> (r: Result<(), DeoptimizerError>)
        ensures
            final(self).settings() == old(self).settings(),
            r is Ok <==> syntax_named(lower_of(syntax@)) is Some,
            r is Ok ==> final(self).syntax == syntax_named(lower_of(syntax@))->Some_0,
            r is Err ==> r == Err::<(), DeoptimizerError>(DeoptimizerError::InvalidSyntax)
                && final(self).syntax == old(self).syntax,
    {
        let lower = lowercase(syntax.as_str());
        match syntax_from_lower(lower.as_str()) {
            Some(s) => {
                self.syntax = s;
                Ok(())
            },
            None => Err(DeoptimizerError::InvalidSyntax),
        }
    }
}

} // verus!
