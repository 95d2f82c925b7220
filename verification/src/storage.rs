//! Ordering the texture files of the store by name, and keeping one file
//! per id.
use vstd::prelude::*;
use crate::text::text_lt;
use crate::file::DefinitionFile;

verus! {

/// Entries ascending by name (equal names in any order).
pub open spec fn sorted_by_name<T>(s: Seq<(T, String)>) -> bool {
    forall|i: int, j: int| 0 <= i < j < s.len() ==> !text_lt(#[trigger] s[j].1@, #[trigger] s[i].1@)
}

/// Sorts entries by their names, in the order of strings.
pub fn sort_by_name<T>(entries: Vec<(T, String)>) -> (r: Vec<(T, String)>)
    ensures
        r@.to_multiset() == entries@.to_multiset(),
        sorted_by_name(r@),
{
    broadcast use vstd::seq_lib::group_to_multiset_ensures;

    let mut rest = entries;
    let ghost all = rest@;
    let mut out: Vec<(T, String)> = Vec::new();
    while rest.len() > 0
        invariant
            out@.to_multiset().add(rest@.to_multiset()) == all.to_multiset(),
            sorted_by_name(out@),
        decreases rest.len(),
    {
        let ghost before = rest@;
        let item = rest.remove(0);
        let n = out.len();
        let mut i: usize = 0;
        while i < n && !crate::text::str_lt(item.1.as_str(), out[i].1.as_str())
            invariant
                0 <= i <= n,
                n == out.len(),
                forall|j: int| 0 <= j < i ==> !text_lt(item.1@, #[trigger] out@[j].1@),
            decreases n - i,
        {
            i += 1;
        }
        let ghost old_out = out@;
        proof {
            vstd::seq_lib::to_multiset_insert(old_out, i as int, item);
            assert forall|a: int, b: int| 0 <= a < b < old_out.len() + 1 implies !text_lt(
                #[trigger] old_out.insert(i as int, item)[b].1@,
                #[trigger] old_out.insert(i as int, item)[a].1@,
            ) by {
                let s = old_out.insert(i as int, item);
                if a == i && b > i {
                    if text_lt(s[b].1@, item.1@) {
                        crate::text::lemma_text_lt_transitive(s[b].1@, item.1@, old_out[i as int].1@);
                        assert(old_out[b - 1] == s[b]);
                        if b - 1 > i {
                            assert(!text_lt(old_out[b - 1].1@, old_out[i as int].1@));
                        } else {
                            crate::text::lemma_text_lt_irreflexive(old_out[i as int].1@);
                        }
                    }
                } else if b == i && a < i {
                    assert(s[a] == old_out[a]);
                } else if a < i && b > i {
                    assert(s[a] == old_out[a]);
                    assert(s[b] == old_out[b - 1]);
                } else if a > i {
                    assert(s[a] == old_out[a - 1]);
                    assert(s[b] == old_out[b - 1]);
                } else {
                    assert(s[a] == old_out[a]);
                    assert(s[b] == old_out[b]);
                }
            }
            assert(before.remove(0) == rest@);
        }
        out.insert(i, item);
        proof {
            broadcast use vstd::multiset::group_multiset_axioms;

            assert(before[0] == item);
            assert(before.contains(item));
            assert(out@ == old_out.insert(i as int, item));
            assert(rest@ == before.remove(0));
            before.to_multiset_ensures();
            assert(rest@.to_multiset() == before.to_multiset().remove(before[0]));
            assert(out@.to_multiset() == old_out.to_multiset().insert(item));
            assert(before.to_multiset().count(item) > 0);
            assert(out@.to_multiset().add(rest@.to_multiset()) =~= old_out.to_multiset().add(
                before.to_multiset(),
            ));
        }
    }
    proof {
        assert(rest@.to_multiset() =~= vstd::multiset::Multiset::empty());
    }
    out
}

/// Whether some entry before position `i` has the id of entry `i`.
pub open spec fn id_seen_before(s: Seq<(DefinitionFile, String)>, i: int) -> bool {
    exists|j: int| 0 <= j < i && #[trigger] s[j].0.spec_id() == s[i].0.spec_id()
}

/// The entries whose id no earlier entry has, in order.
pub open spec fn first_of_each_id(s: Seq<(DefinitionFile, String)>) -> Seq<(DefinitionFile, String)>
    decreases s.len(),
{
    if s.len() == 0 {
        Seq::empty()
    } else if id_seen_before(s, s.len() - 1) {
        first_of_each_id(s.drop_last())
    } else {
        first_of_each_id(s.drop_last()).push(s.last())
    }
}

/// The entries whose id an earlier entry already has, in order.
pub open spec fn later_of_each_id(s: Seq<(DefinitionFile, String)>) -> Seq<(DefinitionFile, String)>
    decreases s.len(),
{
    if s.len() == 0 {
        Seq::empty()
    } else if id_seen_before(s, s.len() - 1) {
        later_of_each_id(s.drop_last()).push(s.last())
    } else {
        later_of_each_id(s.drop_last())
    }
}

/// Splits the files, in their order, into the first file of each id, which
/// are kept, and the later files with an id already kept, which are skipped.
pub fn keep_first_of_each_id(files: Vec<(DefinitionFile, String)>) -> (r: (
    Vec<(DefinitionFile, String)>,
    Vec<(DefinitionFile, String)>,
))
    ensures
        r.0@ == first_of_each_id(files@),
        r.1@ == later_of_each_id(files@),
{
    let ghost all = files@;
    let mut rest = files;
    let mut kept: Vec<(DefinitionFile, String)> = Vec::new();
    let mut skipped: Vec<(DefinitionFile, String)> = Vec::new();
    let mut seen: Vec<u128> = Vec::new();
    let n = rest.len();
    let mut i: usize = 0;
    while i < n
        invariant
            i <= n,
            n == all.len(),
            rest@ == all.skip(i as int),
            kept@ == first_of_each_id(all.take(i as int)),
            skipped@ == later_of_each_id(all.take(i as int)),
            forall|x: u128| seen@.contains(x) <==> exists|j: int| 0 <= j < i && #[trigger] all[j].0.spec_id() == x,
        decreases n - i,
    {
        assert(rest@[0] == all[i as int]);
        let entry = rest.remove(0);
        assert(rest@ =~= all.skip(i + 1));
        let id = entry.0.id();
        let mut k: usize = 0;
        let mut found = false;
        while k < seen.len()
            invariant
                k <= seen.len(),
                found <==> exists|m: int| 0 <= m < k && seen@[m] == id,
            decreases seen.len() - k,
        {
            if seen[k] == id {
                found = true;
            }
            k += 1;
        }
        let ghost pre = all.take(i + 1);
        assert(pre.drop_last() =~= all.take(i as int));
        assert(pre.last() == entry);
        proof {
            if found {
                let m = choose|m: int| 0 <= m < seen.len() && seen@[m] == id;
                assert(seen@.contains(id));
                let j = choose|j: int| 0 <= j < i && #[trigger] all[j].0.spec_id() == id;
                assert(pre[j] == all[j]);
                assert(id_seen_before(pre, i as int));
            } else {
                assert(!seen@.contains(id));
                assert forall|j: int| 0 <= j < i implies #[trigger] pre[j].0.spec_id() != pre[i as int].0.spec_id() by {
                    assert(pre[j] == all[j]);
                }
                assert(!id_seen_before(pre, i as int));
            }
        }
        let ghost seen0 = seen@;
        if found {
            skipped.push(entry);
        } else {
            seen.push(id);
            kept.push(entry);
        }
        proof {
            assert forall|x: u128| seen@.contains(x) <==> exists|j: int| 0 <= j < i + 1 && #[trigger] all[j].0.spec_id() == x by {
                if found {
                    assert(seen@ == seen0);
                    if all[i as int].0.spec_id() == x {
                        let m = choose|m: int| 0 <= m < seen0.len() && seen0[m] == id;
                        assert(seen0.contains(x));
                    }
                } else {
                    assert(seen@ == seen0.push(id));
                    if x == id {
                        assert(seen@[seen0.len() as int] == id);
                        assert(all[i as int].0.spec_id() == x);
                    } else {
                        assert(seen@.contains(x) ==> seen0.contains(x));
                        assert(seen0.contains(x) ==> seen@.contains(x)) by {
                            if seen0.contains(x) {
                                let m = choose|m: int| 0 <= m < seen0.len() && seen0[m] == x;
                                assert(seen@[m] == x);
                            }
                        }
                    }
                }
            }
        }
        i += 1;
    }
    assert(all.take(n as int) =~= all);
    (kept, skipped)
}

} // verus!
