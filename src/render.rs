use vstd::prelude::*;
use crate::note::{Note, NoteV, notes_view};

verus! {

/// The character of a decimal digit.
pub open spec fn digit_char(d: nat) -> char {
    if d == 0 { '0' }
    else if d == 1 { '1' }
    else if d == 2 { '2' }
    else if d == 3 { '3' }
    else if d == 4 { '4' }
    else if d == 5 { '5' }
    else if d == 6 { '6' }
    else if d == 7 { '7' }
    else if d == 8 { '8' }
    else { '9' }
}

/// The decimal writing of a number, without leading zeros.
pub open spec fn decimal(n: nat) -> Seq<char>
    decreases n,
{
    if n < 10 {
        seq![digit_char(n)]
    } else {
        decimal(n / 10).push(digit_char(n % 10))
    }
}

/// The line that shows one note.
pub open spec fn note_line(n: NoteV) -> Seq<char> {
    "ID: "@ + decimal(n.id as nat) + ", Title: "@ + n.title + ", Body: "@ + n.body
        + ", Recent Update: "@ + n.time + "\n"@
}

/// The lines of all notes, in collection order.
pub open spec fn note_lines(s: Seq<NoteV>) -> Seq<char>
    decreases s.len(),
{
    if s.len() == 0 {
        Seq::empty()
    } else {
        note_lines(s.drop_last()) + note_line(s.last())
    }
}

/// What the listing of a collection shows: one line per note, or a notice
/// that there are none.
pub open spec fn listing(s: Seq<NoteV>) -> Seq<char> {
    if s.len() == 0 {
        "No notes found!\n"@
    } else {
        note_lines(s)
    }
}

fn digit_str(d: u32) -> (r: &'static str)
    requires
        d < 10,
    ensures
        r@ == seq![digit_char(d as nat)],
{
    proof {
        reveal_strlit("0");
        reveal_strlit("1");
        reveal_strlit("2");
        reveal_strlit("3");
        reveal_strlit("4");
        reveal_strlit("5");
        reveal_strlit("6");
        reveal_strlit("7");
        reveal_strlit("8");
        reveal_strlit("9");
    }
    if d == 0 { "0" }
    else if d == 1 { "1" }
    else if d == 2 { "2" }
    else if d == 3 { "3" }
    else if d == 4 { "4" }
    else if d == 5 { "5" }
    else if d == 6 { "6" }
    else if d == 7 { "7" }
    else if d == 8 { "8" }
    else { "9" }
}

/// Appends the decimal writing of `n`.
fn push_decimal(out: &mut String, n: u32)
    ensures
        final(out)@ == old(out)@ + decimal(n as nat),
    decreases n,
{
    if n >= 10 {
        push_decimal(out, n / 10);
        out.append(digit_str(n % 10));
        assert(decimal(n as nat) == decimal((n / 10) as nat).push(digit_char((n % 10) as nat)));
        assert(final(out)@ =~= old(out)@ + decimal(n as nat));
    } else {
        out.append(digit_str(n));
    }
}

/// Appends the line that shows the note.
fn push_note_line(out: &mut String, n: &Note)
    ensures
        final(out)@ == old(out)@ + note_line(n@),
{
    out.append("ID: ");
    push_decimal(out, n.id);
    out.append(", Title: ");
    out.append(n.title.as_str());
    out.append(", Body: ");
    out.append(n.body.as_str());
    out.append(", Recent Update: ");
    out.append(n.time.as_str());
    out.append("\n");
    assert(final(out)@ =~= old(out)@ + note_line(n@));
}

/// The text that lists the collection: each note on a line of its own, in
/// order, or a notice when there is none.
pub fn list_notes(notes: &Vec<Note>) -> (r: String)
    ensures
        r@ == listing(notes_view(notes@)),
{
    let ghost s = notes_view(notes@);
    let mut out = String::new();
    if notes.len() == 0 {
        out.append("No notes found!\n");
        return out;
    }
    let mut i: usize = 0;
    while i < notes.len()
        invariant
            0 <= i <= notes.len(),
            s == notes_view(notes@),
            out@ == note_lines(s.take(i as int)),
        decreases notes.len() - i,
    {
        assert(s.take(i + 1).drop_last() =~= s.take(i as int));
        push_note_line(&mut out, &notes[i]);
        i = i + 1;
    }
    assert(s.take(i as int) =~= s);
    out
}

} // verus!
