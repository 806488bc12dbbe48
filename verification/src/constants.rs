//! The constants section of a document.
use vstd::prelude::*;
use crate::fill::{fill_text, CafFill, FillSegmentModel};

verus! {

/// The constants section. It reserves its place in a document: so far it
/// holds nothing but the fill in front of it.
#[derive(Debug, Clone, PartialEq)]
pub struct CafConstants {
    pub start_fill: CafFill,
}

impl View for CafConstants {
    type V = Seq<FillSegmentModel>;

    open spec fn view(&self) -> Seq<FillSegmentModel> {
        self.start_fill@
    }
}

impl Default for CafConstants {
    fn default() -> (r: Self)
        ensures
            r@ == Seq::<FillSegmentModel>::empty(),
    {
        CafConstants { start_fill: CafFill::new() }
    }
}

impl CafConstants {
    /// Appends the section's fill to `out`.
    pub fn write_to(&self, out: &mut Vec<u8>)
        ensures
            final(out)@ == old(out)@ + fill_text(self@),
    {
        self.start_fill.write_to(out);
    }

    /// Whether two sections are the same but for their fill. A section holds
    /// nothing else, so any two are.
    pub fn eq_ignore_whitespace(&self, _other: &CafConstants) -> (r: bool)
        ensures
            r,
    {
        true
    }
}

} // verus!
