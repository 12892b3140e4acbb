use vstd::prelude::*;
use crate::note::{Note, NoteV, notes_view};
use crate::clock::local_timestamp;

verus! {

/// Some note of the collection carries the id.
pub open spec fn contains_id(s: Seq<NoteV>, id: u32) -> bool {
    exists|i: int| 0 <= i < s.len() && #[trigger] s[i].id == id
}

/// No two notes of the collection share an id.
pub open spec fn ids_unique(s: Seq<NoteV>) -> bool {
    forall|i: int, j: int|
        0 <= i < s.len() && 0 <= j < s.len() && i != j ==> #[trigger] s[i].id != #[trigger] s[j].id
}

/// The ids grow strictly along the collection.
pub open spec fn ids_increasing(s: Seq<NoteV>) -> bool {
    forall|i: int, j: int| 0 <= i < j < s.len() ==> #[trigger] s[i].id < #[trigger] s[j].id
}

/// The largest id of the collection, 0 when it is empty.
pub open spec fn max_id(s: Seq<NoteV>) -> nat
    decreases s.len(),
{
    if s.len() == 0 {
        0
    } else {
        let m = max_id(s.drop_last());
        if s.last().id > m {
            s.last().id as nat
        } else {
            m
        }
    }
}

/// The id that the next added note receives, while one is left below the bound of `u32`.
pub open spec fn spec_next_id(s: Seq<NoteV>) -> Option<u32> {
    if max_id(s) < u32::MAX {
        Some((max_id(s) + 1) as u32)
    } else {
        None
    }
}

/// The collection with every note of the given id left out, order kept.
pub open spec fn without_id(s: Seq<NoteV>, id: u32) -> Seq<NoteV>
    decreases s.len(),
{
    if s.len() == 0 {
        s
    } else {
        let rest = without_id(s.drop_last(), id);
        if s.last().id == id {
            rest
        } else {
            rest.push(s.last())
        }
    }
}

/// `k` is the position of the first note that carries the id.
pub open spec fn first_with_id(s: Seq<NoteV>, id: u32, k: int) -> bool {
    &&& 0 <= k < s.len()
    &&& s[k].id == id
    &&& forall|j: int| 0 <= j < k ==> #[trigger] s[j].id != id
}

/// A note after a modification: each supplied field replaced, the time refreshed.
pub open spec fn revised(n: NoteV, title: Option<String>, body: Option<String>, time: Seq<char>) -> NoteV {
    NoteV {
        id: n.id,
        title: match title {
            Some(t) => t@,
            None => n.title,
        },
        body: match body {
            Some(b) => b@,
            None => n.body,
        },
        time,
    }
}

/// The largest id bounds every id, is carried by some note when there is one,
/// and fits in `u32`.
pub proof fn lemma_max_id_bounds(s: Seq<NoteV>)
    ensures
        forall|i: int| 0 <= i < s.len() ==> #[trigger] s[i].id <= max_id(s),
        s.len() > 0 ==> contains_id(s, max_id(s) as u32),
        max_id(s) <= u32::MAX,
    decreases s.len(),
{
    if s.len() > 0 {
        let p = s.drop_last();
        lemma_max_id_bounds(p);
        assert forall|i: int| 0 <= i < s.len() implies #[trigger] s[i].id <= max_id(s) by {
            if i < s.len() - 1 {
                assert(s[i] == p[i]);
            }
        }
        if s.last().id > max_id(p) || p.len() == 0 {
            assert(s[s.len() - 1].id == max_id(s));
        } else {
            let w = choose|i: int| 0 <= i < p.len() && #[trigger] p[i].id == max_id(p);
            assert(s[w] == p[w]);
        }
    }
}

/// What is left after leaving out an id carries it no more, and has lost
/// nothing else: no note is left out when none carries the id.
pub proof fn lemma_without_id(s: Seq<NoteV>, id: u32)
    ensures
        !contains_id(without_id(s, id), id),
        without_id(s, id).len() <= s.len(),
        !contains_id(s, id) ==> without_id(s, id) == s,
        forall|i: int| 0 <= i < without_id(s, id).len() ==> s.contains(#[trigger] without_id(s, id)[i]),
    decreases s.len(),
{
    if s.len() > 0 {
        let p = s.drop_last();
        lemma_without_id(p, id);
        let w = without_id(s, id);
        let wp = without_id(p, id);
        if contains_id(w, id) {
            let i = choose|i: int| 0 <= i < w.len() && #[trigger] w[i].id == id;
            if i < wp.len() {
                assert(wp[i] == w[i]);
            }
        }
        if !contains_id(s, id) {
            assert forall|i: int| 0 <= i < p.len() implies #[trigger] p[i].id != id by {
                assert(s[i] == p[i]);
            }
            assert(s.last().id != id) by {
                assert(s[s.len() - 1] == s.last());
            }
            assert(p.push(s.last()) =~= s);
        }
        assert forall|i: int| 0 <= i < w.len() implies s.contains(#[trigger] w[i]) by {
            if i < wp.len() {
                assert(wp[i] == w[i]);
                let k = choose|k: int| 0 <= k < p.len() && p[k] == wp[i];
                assert(s[k] == p[k]);
            } else {
                assert(w[i] == s[s.len() - 1]);
            }
        }
    }
}

/// With unique ids, leaving out an id that is present removes exactly one note.
pub proof fn lemma_without_present_id_len(s: Seq<NoteV>, id: u32)
    requires
        ids_unique(s),
        contains_id(s, id),
    ensures
        without_id(s, id).len() == s.len() - 1,
    decreases s.len(),
{
    let p = s.drop_last();
    assert(ids_unique(p)) by {
        assert forall|i: int, j: int|
            0 <= i < p.len() && 0 <= j < p.len() && i != j implies #[trigger] p[i].id != #[trigger] p[j].id by {
            assert(s[i] == p[i] && s[j] == p[j]);
        }
    }
    if s.last().id == id {
        assert forall|i: int| 0 <= i < p.len() implies #[trigger] p[i].id != id by {
            assert(s[i] == p[i]);
            assert(s[s.len() - 1].id == id);
        }
        lemma_without_id(p, id);
    } else {
        let k = choose|k: int| 0 <= k < s.len() && #[trigger] s[k].id == id;
        assert(k < s.len() - 1);
        assert(p[k] == s[k]);
        lemma_without_present_id_len(p, id);
    }
}

/// The next id of a collection with a new note at its end.
pub fn next_id(notes: &Vec<Note>) -> (r: Option<u32>)
    ensures
        r == spec_next_id(notes_view(notes@)),
{
    let ghost s = notes_view(notes@);
    let mut m: u32 = 0;
    let mut i: usize = 0;
    while i < notes.len()
        invariant
            0 <= i <= notes.len(),
            s == notes_view(notes@),
            m as nat == max_id(s.take(i as int)),
        decreases notes.len() - i,
    {
        assert(s.take(i + 1).drop_last() =~= s.take(i as int));
        if notes[i].id > m {
            m = notes[i].id;
        }
        i = i + 1;
    }
    assert(s.take(i as int) =~= s);
    if m < u32::MAX {
        Some(m + 1)
    } else {
        None
    }
}

/// Appends a note with the given title, body and time under the next id, and
/// returns that id; returns `None` and leaves the collection as it was when
/// the largest id is already `u32::MAX`.
pub fn add_note_at(notes: &mut Vec<Note>, title: String, body: String, time: String) -> (r: Option<u32>)
    ensures
        r == spec_next_id(notes_view(old(notes)@)),
        r matches Some(id) ==> notes_view(final(notes)@) == notes_view(old(notes)@).push(
            NoteV { id, title: title@, body: body@, time: time@ },
        ),
        r is None ==> final(notes)@ == old(notes)@,
{
    match next_id(notes) {
        Some(id) => {
            let ghost before = notes_view(notes@);
            notes.push(Note::new(id, title, body, time));
            assert(notes_view(notes@) =~= before.push(NoteV { id, title: title@, body: body@, time: time@ }));
            Some(id)
        },
        None => None,
    }
}

/// Appends a note with the given title and body, stamped with the local time,
/// under the next id, and returns that id; `None` as for `add_note_at`.
pub fn add_note(notes: &mut Vec<Note>, title: String, body: String) -> (r: Option<u32>)
    ensures
        r == spec_next_id(notes_view(old(notes)@)),
        r matches Some(id) ==> {
            let s = notes_view(final(notes)@);
            &&& s.len() == old(notes)@.len() + 1
            &&& s.drop_last() == notes_view(old(notes)@)
            &&& s.last().id == id
            &&& s.last().title == title@
            &&& s.last().body == body@
        },
        r is None ==> final(notes)@ == old(notes)@,
{
    let time = local_timestamp();
    let r = add_note_at(notes, title, body, time);
    proof {
        if r is Some {
            assert(notes_view(notes@).drop_last() =~= notes_view(old(notes)@));
        }
    }
    r
}

/// Leaves out every note that carries the id, order kept, and tells whether
/// any did; when none did the collection stays as it was.
pub fn remove_note(notes: &mut Vec<Note>, id: u32) -> (r: bool)
    ensures
        r == contains_id(notes_view(old(notes)@), id),
        notes_view(final(notes)@) == without_id(notes_view(old(notes)@), id),
        !r ==> final(notes)@ == old(notes)@,
{
    let ghost s = notes_view(notes@);
    let mut kept: Vec<Note> = Vec::new();
    let mut found = false;
    let mut i: usize = 0;
    while i < notes.len()
        invariant
            0 <= i <= notes.len(),
            s == notes_view(notes@),
            notes_view(kept@) == without_id(s.take(i as int), id),
            found == contains_id(s.take(i as int), id),
        decreases notes.len() - i,
    {
        let ghost t = s.take(i + 1);
        assert(t.drop_last() =~= s.take(i as int));
        assert(t.last() == s[i as int]);
        if notes[i].id == id {
            found = true;
            assert(t[i as int].id == id);
        } else {
            let ghost before = notes_view(kept@);
            kept.push(notes[i].duplicate());
            assert(notes_view(kept@) =~= before.push(s[i as int]));
        }
        proof {
            if contains_id(t, id) && notes[i as int].id != id {
                let k = choose|k: int| 0 <= k < t.len() && #[trigger] t[k].id == id;
                assert(s.take(i as int)[k] == t[k]);
            }
            if contains_id(s.take(i as int), id) {
                let k = choose|k: int| 0 <= k < i && #[trigger] s.take(i as int)[k].id == id;
                assert(s.take(i as int)[k] == t[k]);
            }
        }
        i = i + 1;
    }
    assert(s.take(i as int) =~= s);
    if found {
        *notes = kept;
    } else {
        proof {
            lemma_without_id(s, id);
        }
    }
    found
}

/// Revises the first note that carries the id: the title and the body are
/// replaced where a new one is supplied, and the time is set in every case.
/// Tells whether such a note was there; when none was the collection stays as it was.
pub fn modify_note_at(
    notes: &mut Vec<Note>,
    id: u32,
    title: Option<String>,
    body: Option<String>,
    time: String,
) -> (r: bool)
    ensures
        r == contains_id(notes_view(old(notes)@), id),
        r ==> exists|k: int|
            first_with_id(notes_view(old(notes)@), id, k) && notes_view(final(notes)@)
                == notes_view(old(notes)@).update(k, revised(notes_view(old(notes)@)[k], title, body, time@)),
        !r ==> final(notes)@ == old(notes)@,
{
    let ghost s = notes_view(notes@);
    let mut i: usize = 0;
    while i < notes.len()
        invariant
            0 <= i <= notes.len(),
            notes@ == old(notes)@,
            s == notes_view(notes@),
            forall|j: int| 0 <= j < i ==> #[trigger] s[j].id != id,
        decreases notes.len() - i,
    {
        if notes[i].id == id {
            let new_title = match title {
                Some(t) => t,
                None => notes[i].title.clone(),
            };
            let new_body = match body {
                Some(b) => b,
                None => notes[i].body.clone(),
            };
            let n = Note::new(id, new_title, new_body, time);
            notes.set(i, n);
            assert(first_with_id(s, id, i as int));
            assert(s[i as int].id == id);
            assert(notes_view(notes@) =~= s.update(i as int, revised(s[i as int], title, body, time@)));
            return true;
        }
        i = i + 1;
    }
    false
}

/// Revises the first note that carries the id as `modify_note_at` does,
/// stamped with the local time.
pub fn modify_note(notes: &mut Vec<Note>, id: u32, title: Option<String>, body: Option<String>) -> (r: bool)
    ensures
        r == contains_id(notes_view(old(notes)@), id),
        r ==> exists|k: int, time: Seq<char>|
            first_with_id(notes_view(old(notes)@), id, k) && notes_view(final(notes)@)
                == notes_view(old(notes)@).update(k, revised(notes_view(old(notes)@)[k], title, body, time)),
        !r ==> final(notes)@ == old(notes)@,
{
    let time = local_timestamp();
    modify_note_at(notes, id, title, body, time)
}

/// The collection that was read, or an empty one where none could be read or
/// what was read did not parse.
pub fn loaded_or_empty(loaded: Option<Vec<Note>>) -> (r: Vec<Note>)
    ensures
        r@ == match loaded {
            Some(v) => v@,
            None => Seq::<Note>::empty(),
        },
{
    match loaded {
        Some(v) => v,
        None => Vec::new(),
    }
}

} // verus!
