use vstd::prelude::*;

verus! {

/// A system package that the host distribution can install.
#[derive(Clone, Copy, Debug, PartialEq, Eq, Structural, Hash)]
pub enum Package {
    BuildEssential,
    Python2,
    Python2Dev,
    PipPy2,
    Python3,
    Python3Dev,
    PipPy3,
    Git,
    Mercurial,
    Https,
}

} // verus!
