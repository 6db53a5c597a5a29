use vstd::prelude::*;

verus! {

/// A priced asset: fetches its current price from a market source and
/// appends it to that asset's record file. Implementors live outside the
/// library, next to their market and file I/O; nothing is promised of
/// these methods here.
pub trait Pricing {
    fn fetch_price(&mut self) -> Result<(), String>;

    fn save_to_file(&self) -> Result<(), String>;

    fn name(&self) -> &str;
}

} // verus!
