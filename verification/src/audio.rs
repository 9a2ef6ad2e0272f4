//! Audio configuration.

use crate::plugin::Plugin;
use vstd::prelude::*;

verus! {

/// Initialises the audio engine and registers the audio manager.
pub struct AudioPlugin;

impl Plugin for AudioPlugin {
    /// The name this plugin reports.
    open spec fn spec_name(&self) -> Seq<char> {
        "gur_audio"@
    }

    /// The plugin's unique name.
    fn name(&self) -> (n: &'static str)
        ensures
            n@ == "gur_audio"@,
    {
        "gur_audio"
    }
}

} // verus!
