//! The shells that the shell extension supports.

use vstd::prelude::*;

verus! {

/// A shell kind.
#[derive(Debug, Clone, Copy, PartialEq, Eq, Structural)]
pub enum Kind {
    Bash,
    Fish,
}

impl Kind {
    pub open spec fn name_spec(self) -> Seq<char> {
        match self {
            Kind::Bash => "bash"@,
            Kind::Fish => "fish"@,
        }
    }

    /// The shell's name.
    pub fn name(&self) -> (r: &'static str)
        ensures
            r@ == self.name_spec(),
    {
        match self {
            Kind::Bash => "bash",
            Kind::Fish => "fish",
        }
    }

    /// The shell's name, as an owned string.
    pub fn to_string(&self) -> (r: String)
        ensures
            r@ == self.name_spec(),
    {
        self.name().to_owned()
    }
}

impl Default for Kind {
    fn default() -> (r: Kind)
        ensures
            r == Kind::Bash,
    {
        Kind::Bash
    }
}

} // verus!
