//! What reading a store's backing file can yield, and how the usage store
//! recovers from a file that is absent or unreadable.

use vstd::prelude::*;
use crate::usage::DailyUsage;

verus! {

/// The outcome of reading one store's backing file.
#[derive(Clone, Debug)]
pub enum Stored<T> {
    /// There is no file to read.
    Missing,
    /// The file is there but does not hold a valid value.
    Corrupt,
    /// The file holds this value.
    Present(T),
}

/// The usage records to work on: those read from the file, in their order,
/// or none when the file is absent or does not parse.
pub fn load_usage(stored: Stored<Vec<DailyUsage>>) -> (r: Vec<DailyUsage>)
    ensures
        match stored {
            Stored::Present(v) => r@ == v@,
            _ => r@.len() == 0,
        },
{
    match stored {
        Stored::Present(v) => v,
        _ => Vec::new(),
    }
}

} // verus!
