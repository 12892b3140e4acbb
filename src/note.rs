use vstd::prelude::*;

verus! {

/// One user-authored note: an identifier assigned by the store, a title,
/// a body and the time of its last update.
#[derive(Clone, Debug, PartialEq, Eq)]
pub struct Note {
    pub id: u32,
    pub title: String,
    pub body: String,
    pub time: String,
}

/// The mathematical value of a note: its id and the characters of its text fields.
pub struct NoteV {
    pub id: u32,
    pub title: Seq<char>,
    pub body: Seq<char>,
    pub time: Seq<char>,
}

impl View for Note {
    type V = NoteV;

    open spec fn view(&self) -> NoteV {
        NoteV { id: self.id, title: self.title@, body: self.body@, time: self.time@ }
    }
}

/// The values of a sequence of notes, in order.
pub open spec fn notes_view(s: Seq<Note>) -> Seq<NoteV> {
    s.map_values(|n: Note| n@)
}

impl Note {
    /// A note with the given fields.
    pub fn new(id: u32, title: String, body: String, time: String) -> (r: Note)
        ensures
            r@ == (NoteV { id, title: title@, body: body@, time: time@ }),
    {
        Note { id, title, body, time }
    }

    /// A note with the same value as this one.
    pub fn duplicate(&self) -> (r: Note)
        ensures
            r@ == self@,
    {
        Note {
            id: self.id,
            title: self.title.clone(),
            body: self.body.clone(),
            time: self.time.clone(),
        }
    }
}

} // verus!
