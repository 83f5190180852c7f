//! Where records are saved.

pub mod google_sheets;

use vstd::prelude::*;

verus! {

/// The storage media that records can be saved to.
#[derive(Clone, Copy, Debug, PartialEq, Eq, Structural)]
pub enum StorageAdapterKind {
    GoogleSheets,
}

/// The storage that `name` selects: `google_sheets` is the only one; any
/// other name is not found.
pub fn get_adapter(name: &str) -> (res: Result<StorageAdapterKind, String>)
    ensures
        match res {
            Ok(kind) => name@ == "google_sheets"@ && kind == StorageAdapterKind::GoogleSheets,
            Err(msg) => name@ != "google_sheets"@ && msg@ == "No adapter found"@,
        },
{
    if String::from_str(name) == String::from_str("google_sheets") {
        Ok(StorageAdapterKind::GoogleSheets)
    } else {
        Err(String::from_str("No adapter found"))
    }
}

} // verus!
