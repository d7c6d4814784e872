//! What the rules read of a movie.

use vstd::prelude::*;

verus! {

/// The sandbox that a movie runs in.
#[derive(Debug, Clone, Copy, PartialEq, Eq, Structural)]
pub enum SandboxType {
    Remote,
    LocalWithFile,
    LocalWithNetwork,
    LocalTrusted,
    Application,
}

/// A movie.
#[derive(Debug, Clone, Copy, PartialEq, Eq, Structural)]
pub struct SwfMovie {
    pub version: u8,
    pub is_action_script_3: bool,
    pub sandbox_type: SandboxType,
}

} // verus!
