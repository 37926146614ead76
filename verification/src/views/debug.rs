//! The view of the log.
use std::collections::VecDeque;
use vstd::prelude::*;

use crate::logger::Record;

verus! {

/// The view of the log: the newest records, the newest first.
#[derive(Debug, Clone, Copy, Default)]
pub struct DebugView;

impl DebugView {
    /// The records that fit into a view `height` lines high: the newest
    /// ones, the newest first.
    pub fn lines(records: &VecDeque<Record>, height: u16) -> (shown: Vec<&Record>)
        ensures
            shown@.len() == (if records@.len() <= height {
                records@.len()
            } else {
                height as nat
            }),
            forall|i: int|
                0 <= i < shown@.len() ==> *(#[trigger] shown@[i]) == records@[records@.len() - 1
                    - i],
    {
        let mut shown: Vec<&Record> = Vec::new();
        let count = records.len();
        let mut i: usize = 0;
        while i < count && i < height as usize
            invariant
                count == records@.len(),
                i <= count,
                i <= height,
                shown@.len() == i,
                forall|k: int|
                    0 <= k < i ==> *(#[trigger] shown@[k]) == records@[records@.len() - 1 - k],
            decreases count - i,
        {
            shown.push(&records[count - 1 - i]);
            i += 1;
        }
        shown
    }
}

} // verus!
