use vstd::prelude::*;

verus! {

/// The commands the bot answers.
#[derive(Debug, Clone, Copy, PartialEq, Eq, Structural)]
pub enum Command {
    /// Display this text.
    Help,
    /// Status info.
    Status,
    /// Check for available package updates.
    Updates,
    /// Smartools check.
    SmartCheck,
    /// Run a short SMART self-test on all drives.
    SmartTestShort,
    /// Run a long SMART self-test on all drives.
    SmartTestLong,
    /// Run btrfs scrub on all mounted filesystems.
    Scrub,
}

} // verus!
