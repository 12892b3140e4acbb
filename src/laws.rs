use vstd::prelude::*;
use crate::note::NoteV;
use crate::store::{
    contains_id, ids_increasing, ids_unique, lemma_max_id_bounds, lemma_without_id,
    lemma_without_present_id_len, max_id, revised, spec_next_id, without_id,
};

verus! {

/// Ids of a collection that holds exactly 1, 2, ..., n in order.
pub open spec fn ids_count_up(s: Seq<NoteV>) -> bool {
    forall|i: int| 0 <= i < s.len() ==> #[trigger] s[i].id == i + 1
}

/// Adding to a collection whose ids count up from 1 assigns the next number
/// of the count, and the ids still count up afterwards: from an empty
/// collection, successive adds assign 1, 2, 3, ... in call order.
pub proof fn law_adds_count_up(s: Seq<NoteV>, n: NoteV)
    requires
        ids_count_up(s),
        s.len() < u32::MAX,
        spec_next_id(s) == Some(n.id),
    ensures
        n.id == s.len() + 1,
        ids_count_up(s.push(n)),
{
    lemma_count_up_max(s);
    assert forall|i: int| 0 <= i < s.push(n).len() implies #[trigger] s.push(n)[i].id == i + 1 by {
        if i < s.len() {
            assert(s.push(n)[i] == s[i]);
        }
    }
}

proof fn lemma_count_up_max(s: Seq<NoteV>)
    requires
        ids_count_up(s),
    ensures
        max_id(s) == s.len(),
    decreases s.len(),
{
    if s.len() > 0 {
        let p = s.drop_last();
        assert(ids_count_up(p)) by {
            assert forall|i: int| 0 <= i < p.len() implies #[trigger] p[i].id == i + 1 by {
                assert(p[i] == s[i]);
            }
        }
        lemma_count_up_max(p);
        assert(s[s.len() - 1].id == s.len());
    }
}

/// In a collection whose ids grow along it, the next id is the last id plus one.
pub proof fn law_next_id_follows_last(s: Seq<NoteV>)
    requires
        ids_increasing(s),
        s.len() > 0,
    ensures
        max_id(s) == s.last().id,
{
    lemma_max_id_bounds(s);
    let w = choose|i: int| 0 <= i < s.len() && #[trigger] s[i].id == max_id(s) as u32;
    assert(s[s.len() - 1] == s.last());
    if w < s.len() - 1 {
        assert(s[w].id < s[s.len() - 1].id);
    }
}

/// Adding under the next id keeps the ids unique, and keeps them growing
/// along the collection.
pub proof fn law_add_keeps_ids(s: Seq<NoteV>, n: NoteV)
    requires
        spec_next_id(s) == Some(n.id),
    ensures
        ids_unique(s) ==> ids_unique(s.push(n)),
        ids_increasing(s) ==> ids_increasing(s.push(n)),
{
    lemma_max_id_bounds(s);
    let t = s.push(n);
    assert forall|i: int| 0 <= i < s.len() implies #[trigger] t[i].id < n.id by {
        assert(t[i] == s[i]);
    }
    assert(t[t.len() - 1] == n);
    if ids_unique(s) {
        assert forall|i: int, j: int|
            0 <= i < t.len() && 0 <= j < t.len() && i != j implies #[trigger] t[i].id != #[trigger] t[j].id by {
            if i < s.len() && j < s.len() {
                assert(t[i] == s[i] && t[j] == s[j]);
            }
        }
    }
    if ids_increasing(s) {
        assert forall|i: int, j: int| 0 <= i < j < t.len() implies #[trigger] t[i].id < #[trigger] t[j].id by {
            if j < s.len() {
                assert(t[i] == s[i] && t[j] == s[j]);
            }
        }
    }
}

/// Modifying a note keeps its id, so the ids stay unique, and keep growing
/// along the collection.
pub proof fn law_modify_keeps_ids(s: Seq<NoteV>, k: int, title: Option<String>, body: Option<String>, time: Seq<char>)
    requires
        0 <= k < s.len(),
    ensures
        ids_unique(s) ==> ids_unique(s.update(k, revised(s[k], title, body, time))),
        ids_increasing(s) ==> ids_increasing(s.update(k, revised(s[k], title, body, time))),
{
    let t = s.update(k, revised(s[k], title, body, time));
    assert forall|i: int| 0 <= i < s.len() implies #[trigger] t[i].id == s[i].id by {}
}

/// Removing an id that is not present leaves the collection unchanged.
pub proof fn law_remove_absent(s: Seq<NoteV>, id: u32)
    requires
        !contains_id(s, id),
    ensures
        without_id(s, id) == s,
{
    lemma_without_id(s, id);
}

/// Removing an id that is present, from a collection with unique ids, leaves
/// one note fewer and none that carries the id.
pub proof fn law_remove_present(s: Seq<NoteV>, id: u32)
    requires
        ids_unique(s),
        contains_id(s, id),
    ensures
        without_id(s, id).len() == s.len() - 1,
        !contains_id(without_id(s, id), id),
{
    lemma_without_id(s, id);
    lemma_without_present_id_len(s, id);
}

/// Removing keeps the ids unique, and keeps them growing along the collection.
pub proof fn law_remove_keeps_ids(s: Seq<NoteV>, id: u32)
    ensures
        ids_unique(s) ==> ids_unique(without_id(s, id)),
        ids_increasing(s) ==> ids_increasing(without_id(s, id)),
    decreases s.len(),
{
    if s.len() > 0 {
        let p = s.drop_last();
        let wp = without_id(p, id);
        let w = without_id(s, id);
        law_remove_keeps_ids(p, id);
        lemma_without_id(p, id);
        if s.last().id != id {
            assert(w == wp.push(s.last()));
            assert(w[w.len() - 1] == s.last());
            assert forall|i: int| 0 <= i < wp.len() implies #[trigger] w[i] == wp[i] && p.contains(
                wp[i],
            ) by {}
            if ids_unique(s) {
                assert(ids_unique(p)) by {
                    assert forall|i: int, j: int|
                        0 <= i < p.len() && 0 <= j < p.len() && i != j implies #[trigger] p[i].id
                        != #[trigger] p[j].id by {
                        assert(s[i] == p[i] && s[j] == p[j]);
                    }
                }
                assert forall|i: int, j: int|
                    0 <= i < w.len() && 0 <= j < w.len() && i != j implies #[trigger] w[i].id
                    != #[trigger] w[j].id by {
                    if i < wp.len() && j < wp.len() {
                    } else if i < wp.len() {
                        let k = choose|k: int| 0 <= k < p.len() && p[k] == wp[i];
                        assert(s[k] == p[k]);
                        assert(s[s.len() - 1] == s.last());
                    } else if j < wp.len() {
                        let k = choose|k: int| 0 <= k < p.len() && p[k] == wp[j];
                        assert(s[k] == p[k]);
                        assert(s[s.len() - 1] == s.last());
                    }
                }
            }
            if ids_increasing(s) {
                assert(ids_increasing(p)) by {
                    assert forall|i: int, j: int| 0 <= i < j < p.len() implies #[trigger] p[i].id
                        < #[trigger] p[j].id by {
                        assert(s[i] == p[i] && s[j] == p[j]);
                    }
                }
                assert forall|i: int, j: int| 0 <= i < j < w.len() implies #[trigger] w[i].id
                    < #[trigger] w[j].id by {
                    if j < wp.len() {
                    } else {
                        let k = choose|k: int| 0 <= k < p.len() && p[k] == wp[i];
                        assert(s[k] == p[k]);
                        assert(s[s.len() - 1] == s.last());
                    }
                }
            }
        } else {
            if ids_unique(s) {
                assert(ids_unique(p)) by {
                    assert forall|i: int, j: int|
                        0 <= i < p.len() && 0 <= j < p.len() && i != j implies #[trigger] p[i].id
                        != #[trigger] p[j].id by {
                        assert(s[i] == p[i] && s[j] == p[j]);
                    }
                }
            }
            if ids_increasing(s) {
                assert(ids_increasing(p)) by {
                    assert forall|i: int, j: int| 0 <= i < j < p.len() implies #[trigger] p[i].id
                        < #[trigger] p[j].id by {
                        assert(s[i] == p[i] && s[j] == p[j]);
                    }
                }
            }
        }
    }
}

} // verus!
