//! A diary entry as the client builds it; the store adds its id and time.
use vstd::prelude::*;
use crate::rating::rating_in_range;

verus! {

pub struct DiaryEntry {
    /// The mood rating, from 1 to 100.
    pub feeling_quant: u8,
    /// One word for the mood, in lower case.
    pub feeling_word: String,
    /// Free text, possibly empty, possibly over several lines.
    pub freeform_text: String,
}

impl DiaryEntry {
    /// Every stored entry carries a rating in range and a word.
    pub open spec fn wf(&self) -> bool {
        &&& rating_in_range(self.feeling_quant as int)
        &&& self.feeling_word@.len() > 0
    }
}

} // verus!
