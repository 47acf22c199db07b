//! The stages in which the bridge works each frame, and their order. Host
//! systems hook in before or after a stage.

use vstd::prelude::*;

verus! {

/// The stage of the bridge at startup.
#[derive(Clone, Copy, Debug, PartialEq, Eq, Structural, Hash)]
pub enum EguiStartupSet {
    /// Sets up UI contexts for the windows that are there.
    InitContexts,
}

/// The stages of the bridge in each frame.
#[derive(Clone, Copy, Debug, PartialEq, Eq, Structural, Hash)]
pub enum EguiSet {
    /// Sets up UI contexts for newly created render targets.
    InitContexts,
    /// Reads the host's input and writes it into the input buffers.
    ProcessInput,
    /// Begins the pass of each UI context.
    BeginPass,
    /// Files what the pass left: primitives, texture changes, platform
    /// output.
    ProcessOutput,
}

impl EguiSet {
    /// The place of a stage in the frame, counted from 0.
    pub open spec fn rank(self) -> nat {
        match self {
            EguiSet::InitContexts => 0,
            EguiSet::ProcessInput => 1,
            EguiSet::BeginPass => 2,
            EguiSet::ProcessOutput => 3,
        }
    }

    /// Whether this stage is over before `other` begins.
    pub fn runs_before(self, other: EguiSet) -> (before: bool)
        ensures
            before == (self.rank() < other.rank()),
    {
        match (self, other) {
            (EguiSet::InitContexts, EguiSet::ProcessInput) => true,
            (EguiSet::InitContexts, EguiSet::BeginPass) => true,
            (EguiSet::InitContexts, EguiSet::ProcessOutput) => true,
            (EguiSet::ProcessInput, EguiSet::BeginPass) => true,
            (EguiSet::ProcessInput, EguiSet::ProcessOutput) => true,
            (EguiSet::BeginPass, EguiSet::ProcessOutput) => true,
            _ => false,
        }
    }

    /// The stage that has to be over before this one begins; `None` for the
    /// first stage.
    pub fn after(self) -> (stage: Option<EguiSet>)
        ensures
            match stage {
                Some(earlier) => earlier.rank() + 1 == self.rank(),
                None => self.rank() == 0,
            },
    {
        match self {
            EguiSet::InitContexts => None,
            EguiSet::ProcessInput => Some(EguiSet::InitContexts),
            EguiSet::BeginPass => Some(EguiSet::ProcessInput),
            EguiSet::ProcessOutput => Some(EguiSet::BeginPass),
        }
    }
}

} // verus!
