//! The integral families the native library evaluates, and their names.

use vstd::prelude::*;
use vstd::string::StringExecFns;

verus! {

/// One-electron operators over a pair of shells.
#[derive(Clone, Copy, Debug, PartialEq, Eq, Structural)]
pub enum IJOPT {
    Ovlp,
    Kinetic,
    Nuclear,
}

/// One-electron operators over a pair of shells, differentiated once with
/// respect to the first centre.
#[derive(Clone, Copy, Debug, PartialEq, Eq, Structural)]
pub enum IJIPOPT {
    IPOvlp,
    IPKin,
    IPNuc,
    IPRInv,
}

/// An integral family: what one optimizer is built for and what one request
/// evaluates.
#[derive(Clone, Copy, Debug, PartialEq, Eq, Structural)]
pub enum IntegralFamily {
    /// Two-centre two-electron repulsion.
    Int2c2e,
    /// Three-centre two-electron repulsion.
    Int3c2e,
    /// Four-centre two-electron repulsion.
    Int2e,
    /// A one-electron operator.
    Int1e(IJOPT),
    /// The gradient of a one-electron operator.
    Int1eIp(IJIPOPT),
}

impl IntegralFamily {
    /// Number of shell indices that a request of this family takes.
    pub open spec fn arity(self) -> nat {
        match self {
            IntegralFamily::Int2c2e => 2,
            IntegralFamily::Int3c2e => 3,
            IntegralFamily::Int2e => 4,
            IntegralFamily::Int1e(_) => 2,
            IntegralFamily::Int1eIp(_) => 2,
        }
    }

    /// Number of blocks in the output: three for a gradient, one for x, y and
    /// z each, and one otherwise.
    pub open spec fn blocks(self) -> nat {
        match self {
            IntegralFamily::Int1eIp(_) => 3,
            _ => 1,
        }
    }

    /// Number of shell indices that a request of this family takes.
    pub fn centers(self) -> (n: usize)
        ensures
            n == self.arity(),
    {
        match self {
            IntegralFamily::Int2c2e => 2,
            IntegralFamily::Int3c2e => 3,
            IntegralFamily::Int2e => 4,
            IntegralFamily::Int1e(_) => 2,
            IntegralFamily::Int1eIp(_) => 2,
        }
    }

    /// Number of blocks in the output.
    pub fn output_blocks(self) -> (n: usize)
        ensures
            n == self.blocks(),
    {
        match self {
            IntegralFamily::Int1eIp(_) => 3,
            _ => 1,
        }
    }
}

/// The lower-case form of a string, as `str::to_lowercase` gives it.
pub uninterp spec fn lowercase(name: Seq<char>) -> Seq<char>;

/// `str::to_lowercase`: the string with every character replaced by its
/// lower-case form. The result depends on the characters alone.
#[verifier::external_body]
fn to_lowercase(name: &String) -> (lower: String)
    ensures
        lower@ == lowercase(name@),
{
    name.to_lowercase()
}

impl IJOPT {
    /// The operator that a lower-case name stands for.
    pub open spec fn named(lower: Seq<char>) -> Option<IJOPT> {
        if lower == "ovlp"@ {
            Some(IJOPT::Ovlp)
        } else if lower == "kinetic"@ {
            Some(IJOPT::Kinetic)
        } else if lower == "nuclear"@ {
            Some(IJOPT::Nuclear)
        } else {
            None
        }
    }

    /// Reads an operator from a name that is already in lower case.
    pub fn from_lowercase(lower: &String) -> (op: Option<IJOPT>)
        ensures
            op == Self::named(lower@),
    {
        if *lower == String::from_str("ovlp") {
            Some(IJOPT::Ovlp)
        } else if *lower == String::from_str("kinetic") {
            Some(IJOPT::Kinetic)
        } else if *lower == String::from_str("nuclear") {
            Some(IJOPT::Nuclear)
        } else {
            None
        }
    }

    /// Reads an operator from its name, in any mix of upper and lower case.
    pub fn from_name(name: &String) -> (op: Option<IJOPT>)
        ensures
            op == Self::named(lowercase(name@)),
    {
        let lower = to_lowercase(name);
        Self::from_lowercase(&lower)
    }
}

impl IJIPOPT {
    /// The operator that a lower-case name stands for.
    pub open spec fn named(lower: Seq<char>) -> Option<IJIPOPT> {
        if lower == "ipovlp"@ {
            Some(IJIPOPT::IPOvlp)
        } else if lower == "ipkin"@ {
            Some(IJIPOPT::IPKin)
        } else if lower == "ipnuc"@ {
            Some(IJIPOPT::IPNuc)
        } else if lower == "iprinv"@ {
            Some(IJIPOPT::IPRInv)
        } else {
            None
        }
    }

    /// Reads an operator from a name that is already in lower case.
    pub fn from_lowercase(lower: &String) -> (op: Option<IJIPOPT>)
        ensures
            op == Self::named(lower@),
    {
        if *lower == String::from_str("ipovlp") {
            Some(IJIPOPT::IPOvlp)
        } else if *lower == String::from_str("ipkin") {
            Some(IJIPOPT::IPKin)
        } else if *lower == String::from_str("ipnuc") {
            Some(IJIPOPT::IPNuc)
        } else if *lower == String::from_str("iprinv") {
            Some(IJIPOPT::IPRInv)
        } else {
            None
        }
    }

    /// Reads an operator from its name, in any mix of upper and lower case.
    pub fn from_name(name: &String) -> (op: Option<IJIPOPT>)
        ensures
            op == Self::named(lowercase(name@)),
    {
        let lower = to_lowercase(name);
        Self::from_lowercase(&lower)
    }
}

} // verus!
