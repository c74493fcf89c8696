//! Deep merge of one JSON object into another.

use vstd::prelude::*;
use crate::logging::json::{
    distinct_keys, has_key, position, value_at, well_formed, Json, Members,
};

verus! {

/// What `overlay` makes of `base`: two objects merge member by member,
/// anything else is replaced by `overlay`.
pub open spec fn merge_value(base: Json, overlay: Json) -> Json
    decreases overlay, 1int,
{
    if base is Object && overlay is Object {
        Json::Object(merge_members(base->Object_0, overlay->Object_0))
    } else {
        overlay
    }
}

/// The member of `base` at `i` after the merge: its key stays, and its value
/// is merged with the one that `overlay` has under that key, if it has one.
pub open spec fn merged_member(base: Members, overlay: Members, i: int) -> (Seq<char>, Json)
    decreases overlay, 0int,
{
    let key = base[i].0;
    if has_key(overlay, key) {
        (key, merge_value(base[i].1, value_at(overlay, key)))
    } else {
        base[i]
    }
}

/// The members of `overlay` whose keys `base` lacks, in `overlay`'s order.
pub open spec fn new_members(base: Members, overlay: Members) -> Members
    decreases overlay.len(),
{
    if overlay.len() == 0 {
        Members::empty()
    } else if has_key(base, overlay.last().0) {
        new_members(base, overlay.drop_last())
    } else {
        new_members(base, overlay.drop_last()).push(overlay.last())
    }
}

/// `base` with `overlay` merged into it: the members of `base` keep their
/// places, each merged with its counterpart in `overlay`, and the members
/// that only `overlay` has follow in `overlay`'s order.
pub open spec fn merge_members(base: Members, overlay: Members) -> Members
    decreases overlay, 1int,
{
    Seq::new(base.len(), |i: int| merged_member(base, overlay, i)) + new_members(base, overlay)
}

/// The value that the merge of `overlay` into `base` holds under `key`: the
/// value of `base` where only `base` has the key, that of `overlay` where only
/// `overlay` has it, and the two merged where both do.
pub open spec fn merged_at(base: Members, overlay: Members, key: Seq<char>) -> Json {
    if !has_key(overlay, key) {
        value_at(base, key)
    } else if has_key(base, key) {
        merge_value(value_at(base, key), value_at(overlay, key))
    } else {
        value_at(overlay, key)
    }
}

/// `acc` after one member of an overlay, `key` with `value`, was merged into
/// it.
pub open spec fn absorb(acc: Members, key: Seq<char>, value: Json) -> Members {
    if has_key(acc, key) {
        acc.update(position(acc, key), (key, merge_value(value_at(acc, key), value)))
    } else {
        acc.push((key, value))
    }
}

/// Among distinct keys, a key is found where it stands.
pub(crate) proof fn lemma_position(members: Members, i: int)
    requires
        distinct_keys(members),
        0 <= i < members.len(),
    ensures
        has_key(members, members[i].0),
        position(members, members[i].0) == i,
        value_at(members, members[i].0) == members[i].1,
{
    let key = members[i].0;
    assert(has_key(members, key));
    let p = position(members, key);
    assert(0 <= p < members.len() && members[p].0 == key);
    if p < i {
        assert(members[p].0 != members[i].0);
    } else if i < p {
        assert(members[i].0 != members[p].0);
    }
}

/// A key that is found stands at its position.
proof fn lemma_found(members: Members, key: Seq<char>)
    requires
        has_key(members, key),
    ensures
        0 <= position(members, key) < members.len(),
        members[position(members, key)].0 == key,
{
}

/// A prefix of distinct keys has distinct keys, finds the keys that it
/// holds where the whole does, and lacks the key that follows it.
proof fn lemma_prefix(members: Members, n: int)
    requires
        distinct_keys(members),
        0 <= n <= members.len(),
    ensures
        distinct_keys(members.take(n)),
        forall|key: Seq<char>| #[trigger]
            has_key(members.take(n), key) ==> has_key(members, key) && value_at(
                members.take(n),
                key,
            ) == value_at(members, key) && position(members, key) < n,
        forall|key: Seq<char>|
            has_key(members, key) && position(members, key) < n ==> #[trigger] has_key(
                members.take(n),
                key,
            ),
{
    let prefix = members.take(n);
    assert forall|i: int, j: int| 0 <= i < j < prefix.len() implies (#[trigger] prefix[i]).0 != (
    #[trigger] prefix[j]).0 by {
        assert(prefix[i] == members[i]);
        assert(prefix[j] == members[j]);
    }
    assert forall|key: Seq<char>| #[trigger] has_key(prefix, key) implies has_key(members, key)
        && value_at(prefix, key) == value_at(members, key) && position(members, key) < n by {
        let p = position(prefix, key);
        assert(prefix[p] == members[p]);
        lemma_position(prefix, p);
        lemma_position(members, p);
    }
    assert forall|key: Seq<char>| has_key(members, key) && position(members, key) < n implies #[trigger] has_key(
        prefix,
        key,
    ) by {
        let p = position(members, key);
        assert(prefix[p] == members[p]);
    }
}

/// What the members that only the overlay has are: each stands in the
/// overlay with the same value and is missing from the base, none occurs
/// twice, and none of the overlay's is left out.
proof fn lemma_new_members(base: Members, overlay: Members)
    requires
        distinct_keys(overlay),
    ensures
        distinct_keys(new_members(base, overlay)),
        forall|key: Seq<char>| #[trigger]
            has_key(new_members(base, overlay), key) <==> has_key(overlay, key) && !has_key(
                base,
                key,
            ),
        forall|key: Seq<char>| #[trigger]
            has_key(new_members(base, overlay), key) ==> value_at(new_members(base, overlay), key)
                == value_at(overlay, key),
    decreases overlay.len(),
{
    let fresh = new_members(base, overlay);
    if overlay.len() > 0 {
        let n = overlay.len() - 1;
        let rest = overlay.drop_last();
        let last = overlay.last();
        let before = new_members(base, rest);
        assert(rest == overlay.take(n));
        lemma_prefix(overlay, n);
        lemma_new_members(base, rest);
        lemma_position(overlay, n);
        assert(!has_key(rest, last.0));
        assert(!has_key(before, last.0));
        if has_key(base, last.0) {
            assert(fresh == before);
            assert forall|key: Seq<char>| has_key(overlay, key) && !has_key(base, key) implies has_key(
                rest,
                key,
            ) by {
                let p = position(overlay, key);
                assert(p != n);
            }
        } else {
            assert(fresh == before.push(last));
            assert forall|i: int, j: int| 0 <= i < j < fresh.len() implies (#[trigger] fresh[i]).0
                != (#[trigger] fresh[j]).0 by {
                if j < before.len() {
                    assert(fresh[i] == before[i] && fresh[j] == before[j]);
                } else {
                    assert(fresh[i] == before[i]);
                    assert(has_key(before, before[i].0));
                }
            }
            assert forall|key: Seq<char>| #[trigger] has_key(fresh, key) implies has_key(
                overlay,
                key,
            ) && !has_key(base, key) && value_at(fresh, key) == value_at(overlay, key) by {
                let p = position(fresh, key);
                lemma_position(fresh, p);
                if p < before.len() {
                    assert(fresh[p] == before[p]);
                    lemma_position(before, p);
                }
            }
            assert forall|key: Seq<char>| has_key(overlay, key) && !has_key(base, key) implies #[trigger] has_key(
                fresh,
                key,
            ) by {
                let p = position(overlay, key);
                if p == n {
                    assert(fresh[before.len() as int] == last);
                } else {
                    assert(has_key(rest, key));
                    assert(has_key(before, key));
                    let q = position(before, key);
                    assert(fresh[q] == before[q]);
                }
            }
        }
    } else {
        assert(fresh =~= Members::empty());
    }
}

/// Merging an overlay member by member, first to last, is merging it whole:
/// absorbing the member at `i` into the merge of the `i` members before it
/// gives the merge of the first `i + 1`.
pub(crate) proof fn lemma_merge_step(base: Members, overlay: Members, i: int)
    requires
        distinct_keys(overlay),
        0 <= i < overlay.len(),
        has_key(merge_members(base, overlay.take(i)), overlay[i].0) ==> distinct_keys(
            merge_members(base, overlay.take(i)),
        ),
    ensures
        merge_members(base, overlay.take(i + 1)) == absorb(
            merge_members(base, overlay.take(i)),
            overlay[i].0,
            overlay[i].1,
        ),
{
    let done = overlay.take(i);
    let next = overlay.take(i + 1);
    let key = overlay[i].0;
    let value = overlay[i].1;
    let acc = merge_members(base, done);
    let fresh = new_members(base, done);
    let target = merge_members(base, next);
    lemma_prefix(overlay, i);
    lemma_prefix(overlay, i + 1);
    lemma_position(overlay, i);
    lemma_new_members(base, done);
    assert(!has_key(done, key));
    assert(has_key(next, key));
    assert(value_at(next, key) == value);
    assert(next.drop_last() == done);
    assert(next.last() == overlay[i]);
    assert forall|other: Seq<char>| other != key implies (has_key(next, other) <==> has_key(
        done,
        other,
    )) && (has_key(done, other) ==> value_at(next, other) == value_at(done, other)) by {
        if has_key(next, other) {
            lemma_found(overlay, other);
            assert(position(overlay, other) != i);
            assert(has_key(done, other));
        }
        if has_key(done, other) {
            assert(has_key(overlay, other));
            assert(has_key(next, other));
        }
    }
    assert forall|j: int| 0 <= j < base.len() && base[j].0 != key implies merged_member(
        base,
        next,
        j,
    ) == merged_member(base, done, j) by {}
    if has_key(acc, key) {
        let p = position(acc, key);
        lemma_found(acc, key);
        if p >= base.len() {
            assert(acc[p] == fresh[p - base.len()]);
            assert(has_key(fresh, key));
        }
        assert(acc[p] == merged_member(base, done, p));
        assert(base[p].0 == key);
        assert(has_key(base, key));
        assert(acc[p] == base[p]);
        assert forall|j: int| 0 <= j < base.len() && j != p implies base[j].0 != key by {
            assert(acc[j].0 == base[j].0);
            if j < p {
                assert(acc[j].0 != acc[p].0);
            } else {
                assert(acc[p].0 != acc[j].0);
            }
        }
        assert(target =~= absorb(acc, key, value));
    } else {
        if has_key(base, key) {
            let q = position(base, key);
            lemma_found(base, key);
            assert(acc[q].0 == key);
        }
        assert forall|j: int| 0 <= j < base.len() implies base[j].0 != key by {
            if base[j].0 == key {
                assert(has_key(base, key));
            }
        }
        assert(new_members(base, next) == fresh.push(overlay[i]));
        assert(overlay[i] == (key, value));
        assert(target =~= absorb(acc, key, value));
    }
}

/// What a merge holds. The merge of `overlay` into `base` has the keys of
/// both and no others, each once. The keys of `base` stand first and in their
/// old places. Under a key that only one of the two has, it holds that one's
/// value; under a key that both have, it holds the two values merged: a
/// merged object where both are objects, the value of `overlay` otherwise.
pub proof fn lemma_merge_members(base: Members, overlay: Members)
    requires
        distinct_keys(base),
        distinct_keys(overlay),
    ensures
        distinct_keys(merge_members(base, overlay)),
        merge_members(base, overlay).len() >= base.len(),
        forall|i: int|
            0 <= i < base.len() ==> (#[trigger] merge_members(base, overlay)[i]).0 == base[i].0,
        forall|key: Seq<char>| #[trigger]
            has_key(merge_members(base, overlay), key) <==> has_key(base, key) || has_key(
                overlay,
                key,
            ),
        forall|key: Seq<char>| #[trigger]
            has_key(merge_members(base, overlay), key) ==> value_at(
                merge_members(base, overlay),
                key,
            ) == merged_at(base, overlay, key),
{
    let merged = merge_members(base, overlay);
    let fresh = new_members(base, overlay);
    lemma_new_members(base, overlay);
    assert forall|i: int, j: int| 0 <= i < j < merged.len() implies (#[trigger] merged[i]).0 != (
    #[trigger] merged[j]).0 by {
        if j < base.len() {
            assert(base[i].0 != base[j].0);
        } else if i < base.len() {
            assert(merged[j] == fresh[j - base.len()]);
            assert(has_key(fresh, merged[j].0));
            if merged[i].0 == merged[j].0 {
                assert(base[i].0 == merged[j].0);
                assert(has_key(base, merged[j].0));
            }
        } else {
            assert(merged[i] == fresh[i - base.len()]);
            assert(merged[j] == fresh[j - base.len()]);
        }
    }
    assert forall|key: Seq<char>| #[trigger] has_key(merged, key) implies (has_key(base, key)
        || has_key(overlay, key)) && value_at(merged, key) == merged_at(base, overlay, key) by {
        let p = position(merged, key);
        lemma_position(merged, p);
        if p < base.len() {
            lemma_position(base, p);
            assert(merged[p] == merged_member(base, overlay, p));
        } else {
            assert(merged[p] == fresh[p - base.len()]);
            lemma_position(fresh, p - base.len());
        }
    }
    assert forall|key: Seq<char>| has_key(base, key) || has_key(overlay, key) implies #[trigger] has_key(
        merged,
        key,
    ) by {
        if has_key(base, key) {
            let p = position(base, key);
            assert(merged[p].0 == key);
        } else {
            assert(has_key(fresh, key));
            let q = position(fresh, key);
            assert(merged[base.len() + q] == fresh[q]);
        }
    }
}

/// Merging a well-formed document into itself changes nothing.
pub proof fn lemma_merge_self(doc: Json)
    requires
        well_formed(doc),
    ensures
        merge_value(doc, doc) == doc,
    decreases doc,
{
    if let Json::Object(members) = doc {
        let fresh = new_members(members, members);
        lemma_new_members(members, members);
        if fresh.len() > 0 {
            assert(has_key(fresh, fresh[0].0));
        }
        assert forall|i: int| 0 <= i < members.len() implies merged_member(members, members, i)
            == members[i] by {
            lemma_position(members, i);
            assert(well_formed(members[i].1));
            assert(decreases_to!(members => members[i]));
            assert(decreases_to!(members[i] => members[i].1));
            lemma_merge_self(members[i].1);
        }
        assert(merge_members(members, members) =~= members);
    }
}

/// Merging the same overlay a second time changes nothing, and a merge of
/// well-formed documents is well formed.
pub proof fn lemma_merge_twice(base: Json, overlay: Json)
    requires
        well_formed(base),
        well_formed(overlay),
    ensures
        merge_value(merge_value(base, overlay), overlay) == merge_value(base, overlay),
        well_formed(merge_value(base, overlay)),
    decreases overlay,
{
    if let Json::Object(over) = overlay {
        if let Json::Object(under) = base {
            let once = merge_members(under, over);
            let fresh = new_members(under, over);
            lemma_merge_members(under, over);
            lemma_new_members(under, over);
            assert forall|i: int| 0 <= i < once.len() implies well_formed((#[trigger] once[i]).1)
                && merged_member(once, over, i) == once[i] by {
                let key = once[i].0;
                if i < under.len() {
                    assert(once[i] == merged_member(under, over, i));
                    assert(well_formed(under[i].1));
                    if has_key(over, key) {
                        let p = position(over, key);
                        assert(well_formed(over[p].1));
                        assert(decreases_to!(over => over[p]));
                        assert(decreases_to!(over[p] => over[p].1));
                        lemma_merge_twice(under[i].1, over[p].1);
                    }
                } else {
                    assert(once[i] == fresh[i - under.len()]);
                    lemma_position(fresh, i - under.len());
                    assert(has_key(fresh, key));
                    let p = position(over, key);
                    assert(well_formed(over[p].1));
                    assert(decreases_to!(over => over[p]));
                    assert(decreases_to!(over[p] => over[p].1));
                    lemma_merge_self(over[p].1);
                }
            }
            let again = new_members(once, over);
            lemma_new_members(once, over);
            if again.len() > 0 {
                assert(has_key(again, again[0].0));
            }
            assert(merge_members(once, over) =~= once);
        } else {
            lemma_merge_self(overlay);
        }
    }
}

/// Merging is idempotent in the overlay: once `overlay` has been merged into
/// `base`, merging it again changes nothing.
pub proof fn lemma_merge_idempotent(base: Members, overlay: Members)
    requires
        well_formed(Json::Object(base)),
        well_formed(Json::Object(overlay)),
    ensures
        merge_members(merge_members(base, overlay), overlay) == merge_members(base, overlay),
        well_formed(Json::Object(merge_members(base, overlay))),
{
    lemma_merge_twice(Json::Object(base), Json::Object(overlay));
}

} // verus!
