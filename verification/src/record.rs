//! One metadata entry of the tree.
use vstd::prelude::*;

verus! {

/// The identity of one metadata entry: whose it is, which attribute, and the
/// four-character code of the attribute's kind.
#[derive(Debug)]
pub struct Record {
    pub file_name: String,
    pub structure_type: String,
    pub structure_id: usize,
}

/// What a `Record` holds, as mathematical values.
pub struct RecordModel {
    pub file_name: Seq<char>,
    pub structure_type: Seq<char>,
    pub structure_id: usize,
}

impl View for Record {
    type V = RecordModel;

    open spec fn view(&self) -> RecordModel {
        RecordModel {
            file_name: self.file_name@,
            structure_type: self.structure_type@,
            structure_id: self.structure_id,
        }
    }
}

impl Record {
    pub fn new(file_name: String, structure_type: String, structure_id: usize) -> (r: Self)
        ensures
            r.file_name == file_name,
            r.structure_type == structure_type,
            r.structure_id == structure_id,
    {
        Record { file_name, structure_type, structure_id }
    }
}

} // verus!
