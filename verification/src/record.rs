//! The change record: one unit of version history as reported by the tool.

use vstd::prelude::*;

verus! {

/// One change of the repository, in the order the tool reported it.
///
/// Never constructed with an empty `change_id` or `commit_id`; candidates
/// missing either are dropped before a record is made.  A blank description
/// or author is replaced by its placeholder literal.
#[derive(Debug, PartialEq)]
pub struct JJChange {
    pub change_id: String,
    pub commit_id: String,
    pub description: String,
    pub author: String,
    pub timestamp: String,
}

/// Mathematical model of a change record: each field as its character
/// sequence.
pub ghost struct ChangeData {
    pub change_id: Seq<char>,
    pub commit_id: Seq<char>,
    pub description: Seq<char>,
    pub author: Seq<char>,
    pub timestamp: Seq<char>,
}

impl ChangeData {
    /// The record invariant: the two identifiers are never empty.
    pub open spec fn wf(self) -> bool {
        self.change_id.len() > 0 && self.commit_id.len() > 0
    }
}

impl View for JJChange {
    type V = ChangeData;

    open spec fn view(&self) -> ChangeData {
        ChangeData {
            change_id: self.change_id@,
            commit_id: self.commit_id@,
            description: self.description@,
            author: self.author@,
            timestamp: self.timestamp@,
        }
    }
}

/// The models of a vector of records.
pub open spec fn record_views(vs: Seq<JJChange>) -> Seq<ChangeData> {
    vs.map_values(|c: JJChange| c@)
}

} // verus!
