//! What is sent to the flashcard application to have it create one card for
//! each note, and how its answer is judged.
//!
//! The application speaks JSON over HTTP. This module builds the request as
//! plain values and reads the answer from plain values; sending the one and
//! receiving the other is left to the caller.
use crate::NoteText;
use vstd::prelude::*;

verus! {

/// The answer of the application: for each card that was asked for, its
/// identifier, or nothing where the card was not created; or an error.
#[derive(Debug)]
pub struct ApiResponse {
    pub result: Vec<Option<usize>>,
    pub error: Option<String>,
}

/// The request to create cards.
#[derive(Debug)]
pub struct AddNotes {
    pub action: String,
    pub version: usize,
    pub params: Notes,
}

/// The cards of a request.
#[derive(Debug)]
pub struct Notes {
    pub notes: Vec<Note>,
}

/// One card that the application is asked to create.
#[derive(Debug)]
pub struct Note {
    pub deck_name: String,
    pub model_name: String,
    pub fields: Fields,
    pub options: Options,
}

/// The two sides of a card.
#[derive(Debug)]
pub struct Fields {
    pub recto: String,
    pub verso: String,
}

/// How the application treats a card that it already has.
#[derive(Debug)]
pub struct Options {
    pub allow_duplicate: bool,
    pub duplicate_scope: String,
}

/// Why no answer, or not the expected one, came back for a request.
#[derive(Debug)]
pub enum ConnectError {
    /// The application answered with an error, in its own words.
    Api(String),
    /// The application created another number of cards than it was asked for.
    NotesNotCreated,
}

/// What a card holds, as texts.
pub ghost struct Card {
    pub deck_name: Seq<char>,
    pub model_name: Seq<char>,
    pub recto: Seq<char>,
    pub verso: Seq<char>,
    pub allow_duplicate: bool,
    pub duplicate_scope: Seq<char>,
}

impl View for Note {
    type V = Card;

    open spec fn view(&self) -> Card {
        Card {
            deck_name: self.deck_name@,
            model_name: self.model_name@,
            recto: self.fields.recto@,
            verso: self.fields.verso@,
            allow_duplicate: self.options.allow_duplicate,
            duplicate_scope: self.options.duplicate_scope@,
        }
    }
}

/// The card for a note: the title on the front, the text on the back, in the
/// deck of the e-reader, and welcome even if the deck has the same card already.
pub open spec fn card_of(note: NoteText) -> Card {
    Card {
        deck_name: "Kindle"@,
        model_name: "Basique"@,
        recto: note.title,
        verso: note.body,
        allow_duplicate: true,
        duplicate_scope: "deck"@,
    }
}

/// The cards for `notes`, in the same order.
pub open spec fn cards_of(notes: Seq<crate::Note>) -> Seq<Card> {
    Seq::new(notes.len(), |i: int| card_of(notes[i]@))
}

/// What each of `cards` holds, in the same order.
pub open spec fn card_texts(cards: Seq<Note>) -> Seq<Card> {
    Seq::new(cards.len(), |i: int| cards[i]@)
}

/// The test that `created_count` counts by.
pub open spec fn is_created() -> spec_fn(Option<usize>) -> bool {
    |entry: Option<usize>| entry is Some
}

/// The number of cards that an answer reports as created.
pub open spec fn created_count(result: Seq<Option<usize>>) -> nat {
    result.filter(is_created()).len()
}

/// The outcome that an answer means for a request of `notes_count` cards: the
/// error of the application if it gave one, else success where it created
/// exactly as many cards as were asked for.
pub open spec fn outcome_of(response: ApiResponse, notes_count: usize) -> Result<(), ConnectError> {
    match response.error {
        Some(error) => Err(ConnectError::Api(error)),
        None => if created_count(response.result@) == notes_count {
            Ok(())
        } else {
            Err(ConnectError::NotesNotCreated)
        },
    }
}

impl ConnectError {
    /// The error in words.
    pub open spec fn spec_message(&self) -> Seq<char> {
        match self {
            ConnectError::Api(error) => error@,
            ConnectError::NotesNotCreated => "Some notes could not be created"@,
        }
    }

    /// The error in words: those of the application where it gave the error.
    pub fn message(&self) -> (text: String)
        ensures
            text@ == self.spec_message(),
    {
        match self {
            ConnectError::Api(error) => error.clone(),
            ConnectError::NotesNotCreated => "Some notes could not be created".to_owned(),
        }
    }
}

/// The card that the application is asked to create for `note`.
pub fn fill_note_api_params(note: crate::Note) -> (card: Note)
    ensures
        card@ == card_of(note@),
{
    let fields = Fields { recto: note.title, verso: note.tidied_note };
    Note {
        deck_name: "Kindle".to_owned(),
        model_name: "Basique".to_owned(),
        fields,
        options: Options { allow_duplicate: true, duplicate_scope: "deck".to_owned() },
    }
}

/// The request that asks for one card for each of `notes`, in their order.
pub fn add_notes_request(notes: Vec<crate::Note>) -> (request: AddNotes)
    ensures
        request.action@ == "addNotes"@,
        request.version == 6,
        card_texts(request.params.notes@) == cards_of(notes@),
{
    let mut cards: Vec<Note> = Vec::new();
    for note in it: notes.into_iter()
        invariant
            it.seq() == notes@,
            cards@.len() == it.index(),
            forall|i: int| 0 <= i < cards@.len() ==> (#[trigger] cards@[i])@ == card_of(notes@[i]@),
    {
        cards.push(fill_note_api_params(note));
    }
    assert(card_texts(cards@) =~= cards_of(notes@));
    AddNotes { action: "addNotes".to_owned(), version: 6, params: Notes { notes: cards } }
}

/// What the answer `response` means for a request of `notes_count` cards.
pub fn add_notes_outcome(response: ApiResponse, notes_count: usize) -> (outcome: Result<
    (),
    ConnectError,
>)
    ensures
        outcome == outcome_of(response, notes_count),
{
    match response.error {
        Some(error) => Err(ConnectError::Api(error)),
        None => {
            let mut created: usize = 0;
            let mut i: usize = 0;
            proof {
                reveal(Seq::filter);
                assert(response.result@.take(0) =~= Seq::<Option<usize>>::empty());
            }
            while i < response.result.len()
                invariant
                    i <= response.result@.len(),
                    created <= i,
                    created == created_count(response.result@.take(i as int)),
                decreases response.result@.len() - i,
            {
                proof {
                    reveal(Seq::filter);
                    assert(response.result@.take(i + 1).drop_last() =~= response.result@.take(
                        i as int,
                    ));
                }
                if response.result[i].is_some() {
                    created = created + 1;
                }
                i = i + 1;
            }
            assert(response.result@.take(i as int) =~= response.result@);
            if created == notes_count {
                Ok(())
            } else {
                Err(ConnectError::NotesNotCreated)
            }
        },
    }
}

} // verus!
