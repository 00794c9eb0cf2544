//! Notes from the clippings file of an e-reader.
//!
//! The file holds one entry after another, each with the title of a book, a
//! line that says where in the book the entry was taken, and the text. The
//! parser keeps the title and the text of each entry and drops the rest.
use vstd::prelude::*;

pub mod app_config;
pub mod connect;
pub mod csv_writer;
pub mod markers;
pub mod my_clippings_parser;
pub mod text;

verus! {

/// What a note says, as texts.
pub ghost struct NoteText {
    pub title: Seq<char>,
    pub body: Seq<char>,
}

/// Representation of a note.
#[derive(Debug)]
pub struct Note {
    /// Title of the book.
    pub title: String,
    /// Tidied content of the note.
    pub tidied_note: String,
}

impl View for Note {
    type V = NoteText;

    open spec fn view(&self) -> NoteText {
        NoteText { title: self.title@, body: self.tidied_note@ }
    }
}

impl Note {
    /// A note has a title and a text: neither is empty.
    pub open spec fn wf(&self) -> bool {
        self.title@.len() > 0 && self.tidied_note@.len() > 0
    }
}

/// What each of `notes` says, in the same order.
pub open spec fn note_texts(notes: Seq<Note>) -> Seq<NoteText> {
    Seq::new(notes.len(), |i: int| notes[i]@)
}

} // verus!
