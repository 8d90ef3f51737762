//! Properties of the store's operations, stated over the same spec
//! functions its contracts use and proved once and for all.
use vstd::prelude::*;

use crate::store::TodoView;
use crate::store::has_id;
use crate::store::index_of_id;
use crate::store::lemma_index_of_id;
use crate::store::lemma_index_of_id_absent;
use crate::store::lemma_index_of_id_at;
use crate::store::spec_add;
use crate::store::spec_remove;
use crate::store::spec_toggle;

verus! {

/// The store a run of adds builds out of the empty one, one item per text.
pub open spec fn after_adds(texts: Seq<Seq<char>>) -> Seq<TodoView>
    decreases texts.len(),
{
    if texts.len() == 0 {
        Seq::empty()
    } else {
        spec_add(after_adds(texts.drop_last()), texts.last())
    }
}

/// A run of adds into an empty store yields exactly one item per text, in
/// insertion order, each still incomplete, with ids `1 ..= n` — so all ids
/// are distinct.
pub proof fn lemma_adds_from_empty(texts: Seq<Seq<char>>)
    requires
        texts.len() <= u32::MAX,
    ensures
        after_adds(texts).len() == texts.len(),
        forall|i: int| 0 <= i < texts.len() ==> #[trigger] after_adds(texts)[i].text == texts[i],
        forall|i: int| 0 <= i < texts.len() ==> !(#[trigger] after_adds(texts)[i].complete),
        forall|i: int| 0 <= i < texts.len() ==> #[trigger] after_adds(texts)[i].id == i + 1,
        forall|i: int, j: int|
            0 <= i < texts.len() && 0 <= j < texts.len() && i != j
                ==> after_adds(texts)[i].id != after_adds(texts)[j].id,
    decreases texts.len(),
{
    if texts.len() > 0 {
        lemma_adds_from_empty(texts.drop_last());
        assert(forall|i: int|
            0 <= i < texts.len() - 1
                ==> #[trigger] after_adds(texts)[i] == after_adds(texts.drop_last())[i]);
        assert(forall|i: int|
            0 <= i < texts.len() - 1 ==> #[trigger] texts.drop_last()[i] == texts[i]);
    }
}

/// Toggling the same id twice gives back the sequence that was there
/// before the first toggle, whether or not the id is present.
pub proof fn lemma_double_toggle(s: Seq<TodoView>, id: u32)
    ensures
        spec_toggle(spec_toggle(s, id), id) == s,
{
    if has_id(s, id) {
        lemma_index_of_id(s, id);
        let i = index_of_id(s, id);
        let s1 = spec_toggle(s, id);
        assert(forall|j: int| 0 <= j < i ==> s1[j].id != id);
        lemma_index_of_id_at(s1, id, i);
        assert(spec_toggle(s1, id) =~= s);
    }
}

/// Removing an id carried by exactly one item shortens the sequence by
/// one, and no remaining item carries that id.
pub proof fn lemma_remove_eliminates(s: Seq<TodoView>, id: u32)
    requires
        has_id(s, id),
        forall|i: int, j: int|
            0 <= i < s.len() && 0 <= j < s.len() && s[i].id == id && s[j].id == id ==> i == j,
    ensures
        spec_remove(s, id).len() == s.len() - 1,
        !has_id(spec_remove(s, id), id),
{
    lemma_index_of_id(s, id);
    let i = index_of_id(s, id);
    let r = s.remove(i);
    assert(forall|j: int| 0 <= j < i ==> #[trigger] r[j] == s[j]);
    assert(forall|j: int| i <= j < r.len() ==> #[trigger] r[j] == s[j + 1]);
    assert(forall|j: int| 0 <= j < r.len() ==> r[j].id != id) by {
        assert forall|j: int| 0 <= j < r.len() implies r[j].id != id by {
            if j < i {
                assert(r[j] == s[j]);
            } else {
                assert(r[j] == s[j + 1]);
            }
        }
    }
    lemma_index_of_id_absent(r, id);
}

} // verus!
