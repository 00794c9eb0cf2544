//! The notes as records of a table: one record for each note, with the title
//! in the first column and the text in the second.
use crate::Note;
use vstd::prelude::*;

verus! {

/// The record of a note: its title, then its text.
pub open spec fn record_of(note: Note) -> Seq<String> {
    seq![note.title, note.tidied_note]
}

/// The records of `notes`, in the same order.
pub fn to_records(notes: Vec<Note>) -> (records: Vec<[String; 2]>)
    ensures
        records@.len() == notes@.len(),
        forall|i: int| 0 <= i < records@.len() ==> (#[trigger] records@[i])@ == record_of(notes@[i]),
{
    let mut records: Vec<[String; 2]> = Vec::new();
    for note in it: notes.into_iter()
        invariant
            it.seq() == notes@,
            records@.len() == it.index(),
            forall|i: int|
                0 <= i < records@.len() ==> (#[trigger] records@[i])@ == record_of(notes@[i]),
    {
        let record = [note.title, note.tidied_note];
        assert(record@ =~= record_of(note));
        records.push(record);
    }
    records
}

} // verus!
