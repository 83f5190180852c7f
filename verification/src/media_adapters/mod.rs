//! Where messages come from.

pub mod slack;

use vstd::prelude::*;

verus! {

/// The chat services that messages can be read from.
#[derive(Clone, Copy, Debug, PartialEq, Eq, Structural)]
pub enum MediaAdapterKind {
    Slack,
}

/// The message source that `name` selects: `slack` is the only one; any
/// other name is not found.
pub fn get_adapter(name: &str) -> (res: Result<MediaAdapterKind, String>)
    ensures
        match res {
            Ok(kind) => name@ == "slack"@ && kind == MediaAdapterKind::Slack,
            Err(msg) => name@ != "slack"@ && msg@ == "No Adapter Found"@,
        },
{
    if String::from_str(name) == String::from_str("slack") {
        Ok(MediaAdapterKind::Slack)
    } else {
        Err(String::from_str("No Adapter Found"))
    }
}

} // verus!
