//! The one persisted entity: how many roots of unity the figure shows.

use vstd::prelude::*;

verus! {

/// The value `roots` takes on first launch, and the value every decoder
/// falls back to when a stored payload is absent or malformed.
pub const DEFAULT_ROOTS: u8 = 3;

/// Persisted application state: the number of points drawn each frame.
///
/// The count is not range-checked here; a count of zero simply yields an
/// empty figure.
#[derive(Clone, Copy, Debug, PartialEq, Eq, Structural)]
pub struct CoinFlipVisualizer {
    pub roots: u8,
}

impl Default for CoinFlipVisualizer {
    /// A fresh state draws `DEFAULT_ROOTS` points.
    fn default() -> (s: Self)
        ensures
            s.roots == DEFAULT_ROOTS,
    {
        CoinFlipVisualizer { roots: DEFAULT_ROOTS }
    }
}

} // verus!
