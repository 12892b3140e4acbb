//! A note-keeping store: a collection of notes held in insertion order, with
//! the operations that add, remove, modify and list them. Reading and writing
//! the backing file is left to the caller; every operation here works on the
//! collection in memory.

mod clock;
pub mod laws;
pub mod note;
pub mod render;
pub mod store;

pub use note::{Note, NoteV};
pub use render::list_notes;
pub use store::{
    add_note, add_note_at, loaded_or_empty, modify_note, modify_note_at, next_id, remove_note,
};
