//! The batch wrapper handed to the transport for one upload POST.

use vstd::prelude::*;

verus! {

use crate::model::UploadRecord;

/// One batch of upload records.
pub struct BatchUpload {
    pub records: Vec<UploadRecord>,
}

impl BatchUpload {
    pub fn new(records: Vec<UploadRecord>) -> (r: Self)
        ensures
            r.records == records,
    {
        Self { records }
    }

    pub fn is_empty(&self) -> (r: bool)
        ensures
            r == (self.records@.len() == 0),
    {
        self.records.len() == 0
    }
}

} // verus!
