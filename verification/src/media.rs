//! Entries of the media tree, as plain values, and their order.

use crate::order::{human_order, lemma_natural_order_total, natural_order, Order};
use vstd::prelude::*;
use vstd::utf8::encode_utf8;

verus! {

/// What kind of file an entry of the media tree is.
#[derive(Clone, Copy, Debug, PartialEq, Eq, Structural)]
pub enum FileType {
    Directory,
    Video,
    Image,
    Subtitles,
    Other,
}

/// One entry of the media tree.
///
/// Identifiers are hierarchical: the identifier of a child starts with that
/// of its parent. `prefix` is the start that the identifier of a video shares
/// with the files that belong to it, such as its poster and its subtitles.
#[derive(Debug)]
pub struct MediaEntry {
    pub id: String,
    pub parent_id: String,
    pub title: String,
    pub file_type: FileType,
    pub dlna_class: String,
    pub prefix: String,
}

/// What a [`MediaEntry`] holds, as mathematical values.
pub ghost struct EntryView {
    pub id: Seq<char>,
    pub parent_id: Seq<char>,
    pub title: Seq<char>,
    pub file_type: FileType,
    pub dlna_class: Seq<char>,
    pub prefix: Seq<char>,
}

impl View for MediaEntry {
    type V = EntryView;

    open spec fn view(&self) -> EntryView {
        EntryView {
            id: self.id@,
            parent_id: self.parent_id@,
            title: self.title@,
            file_type: self.file_type,
            dlna_class: self.dlna_class@,
            prefix: self.prefix@,
        }
    }
}

/// The views of a sequence of entries, in the same order.
pub open spec fn entry_views(entries: Seq<MediaEntry>) -> Seq<EntryView> {
    Seq::new(entries.len(), |i: int| entries[i]@)
}

/// The UTF-8 bytes of an entry's identifier, by which entries are ordered.
pub open spec fn id_bytes(e: EntryView) -> Seq<u8> {
    encode_utf8(e.id)
}

/// `x` comes strictly before `y` in the natural order of their identifiers.
pub open spec fn comes_before(x: EntryView, y: EntryView) -> bool {
    natural_order(id_bytes(x), id_bytes(y)) == Order::Less
}

/// Where `x` goes into the sorted sequence `t`: behind every entry that
/// does not come after it, so that entries that compare equal keep the
/// order in which they arrived.
pub open spec fn insertion_point(t: Seq<EntryView>, x: EntryView) -> int
    decreases t.len(),
{
    if t.len() > 0 && comes_before(x, t.last()) {
        insertion_point(t.drop_last(), x)
    } else {
        t.len() as int
    }
}

/// The entries of `s` in the natural order of their identifiers, those that
/// compare equal in the order in which `s` holds them.
pub open spec fn natural_sort(s: Seq<EntryView>) -> Seq<EntryView>
    decreases s.len(),
{
    if s.len() == 0 {
        s
    } else {
        let t = natural_sort(s.drop_last());
        t.insert(insertion_point(t, s.last()), s.last())
    }
}

/// Sorting keeps the number of entries.
pub proof fn lemma_natural_sort_len(s: Seq<EntryView>)
    ensures
        natural_sort(s).len() == s.len(),
    decreases s.len(),
{
    if s.len() > 0 {
        lemma_natural_sort_len(s.drop_last());
        lemma_insertion_point(natural_sort(s.drop_last()), s.last());
    }
}

/// Sorts entries into the natural order of their identifiers.
pub fn sort_entries(entries: &mut Vec<MediaEntry>)
    ensures
        entry_views(final(entries)@) == natural_sort(entry_views(old(entries)@)),
{
    let ghost before = entry_views(entries@);
    let n: usize = entries.len();
    let mut i: usize = 0;
    assert(before.take(0) =~= Seq::<EntryView>::empty());
    while i < n
        invariant
            i <= n,
            n == entries@.len(),
            before.len() == n,
            entry_views(entries@).take(i as int) == natural_sort(before.take(i as int)),
            entry_views(entries@).skip(i as int) == before.skip(i as int),
        decreases n - i,
    {
        let ghost now = entry_views(entries@);
        let ghost sorted = now.take(i as int);
        let ghost x = now[i as int];
        let mut p: usize = i;
        assert(sorted.take(i as int) =~= sorted);
        while p > 0 && matches!(
            human_order(entries[i].id.as_str(), entries[p - 1].id.as_str()),
            Order::Less
        )
            invariant
                p <= i < n,
                n == entries@.len(),
                now == entry_views(entries@),
                sorted == now.take(i as int),
                x == now[i as int],
                insertion_point(sorted, x) == insertion_point(sorted.take(p as int), x),
            decreases p,
        {
            assert(sorted.take(p as int).last() == now[p - 1]);
            assert(sorted.take(p as int).drop_last() =~= sorted.take(p - 1));
            p -= 1;
        }
        proof {
            if p > 0 {
                assert(sorted.take(p as int).last() == now[p - 1]);
            }
            assert(insertion_point(sorted, x) == p);
            assert(before.skip(i as int)[0] == now.skip(i as int)[0]);
            assert(before.take(i + 1).drop_last() =~= before.take(i as int));
            assert(before.take(i + 1).last() == x);
        }
        let entry = entries.remove(i);
        entries.insert(p, entry);
        proof {
            let after = entry_views(entries@);
            assert(after.take(i + 1) =~= sorted.insert(p as int, x));
            assert(after.skip(i + 1) =~= before.skip(i + 1)) by {
                assert forall|k: int| 0 <= k < n - i - 1 implies #[trigger] after.skip(i + 1)[k]
                    == before.skip(i + 1)[k] by {
                    assert(before.skip(i as int)[k + 1] == now.skip(i as int)[k + 1]);
                }
            }
        }
        i += 1;
    }
    assert(entry_views(entries@).take(n as int) =~= entry_views(entries@));
    assert(before.take(n as int) =~= before);
}

/// No entry of `s` comes before an entry that stands before it.
pub open spec fn ordered(s: Seq<EntryView>) -> bool {
    forall|i: int, j: int| 0 <= i < j < s.len() ==> !comes_before(#[trigger] s[j], #[trigger] s[i])
}

/// What the insertion point is: `x` comes before every entry from there on,
/// and not before the entry in front of it.
pub proof fn lemma_insertion_point(t: Seq<EntryView>, x: EntryView)
    ensures
        0 <= insertion_point(t, x) <= t.len(),
        forall|j: int| insertion_point(t, x) <= j < t.len() ==> comes_before(x, #[trigger] t[j]),
        insertion_point(t, x) > 0 ==> !comes_before(x, t[insertion_point(t, x) - 1]),
    decreases t.len(),
{
    if t.len() > 0 && comes_before(x, t.last()) {
        lemma_insertion_point(t.drop_last(), x);
        let p = insertion_point(t, x);
        assert forall|j: int| p <= j < t.len() implies comes_before(x, #[trigger] t[j]) by {
            if j < t.len() - 1 {
                assert(t.drop_last()[j] == t[j]);
            }
        }
        if p > 0 {
            assert(t.drop_last()[p - 1] == t[p - 1]);
        }
    }
}

/// Putting an entry at its insertion point keeps an ordered sequence
/// ordered.
pub proof fn lemma_insert_keeps_ordered(t: Seq<EntryView>, x: EntryView)
    requires
        ordered(t),
    ensures
        ordered(t.insert(insertion_point(t, x), x)),
{
    let p = insertion_point(t, x);
    let u = t.insert(p, x);
    lemma_insertion_point(t, x);
    assert forall|i: int, j: int| 0 <= i < j < u.len() implies !comes_before(
        #[trigger] u[j],
        #[trigger] u[i],
    ) by {
        let xi = id_bytes(x);
        if j == p {
            // u[j] is x, u[i] stands before the insertion point
            let e = t[i];
            if i < p - 1 {
                assert(!comes_before(t[p - 1], t[i]));
            }
            lemma_natural_order_total(xi, id_bytes(t[p - 1]), id_bytes(e));
            lemma_natural_order_total(id_bytes(t[p - 1]), xi, id_bytes(e));
            lemma_natural_order_total(id_bytes(e), id_bytes(t[p - 1]), xi);
            lemma_natural_order_total(xi, id_bytes(e), id_bytes(t[p - 1]));
        } else if i == p {
            // u[i] is x, u[j] stands behind the insertion point
            let e = t[j - 1];
            assert(comes_before(x, e));
            lemma_natural_order_total(xi, id_bytes(e), xi);
        } else {
            let ti = if i < p {
                i
            } else {
                i - 1
            };
            let tj = if j < p {
                j
            } else {
                j - 1
            };
            assert(u[i] == t[ti] && u[j] == t[tj]);
            assert(!comes_before(t[tj], t[ti]));
        }
    }
}

/// The sorted entries are in order: none comes before one that stands
/// before it.
pub proof fn lemma_natural_sort_ordered(s: Seq<EntryView>)
    ensures
        ordered(natural_sort(s)),
    decreases s.len(),
{
    if s.len() > 0 {
        lemma_natural_sort_ordered(s.drop_last());
        lemma_insert_keeps_ordered(natural_sort(s.drop_last()), s.last());
    }
}

/// Sorting neither adds nor loses an entry: the sorted entries are those of
/// `s`, each as often as `s` holds it.
pub proof fn lemma_natural_sort_permutes(s: Seq<EntryView>)
    ensures
        natural_sort(s).to_multiset() == s.to_multiset(),
    decreases s.len(),
{
    broadcast use vstd::seq_lib::group_to_multiset_ensures;

    if s.len() > 0 {
        let t = natural_sort(s.drop_last());
        lemma_natural_sort_permutes(s.drop_last());
        lemma_insertion_point(t, s.last());
        assert(s =~= s.drop_last().push(s.last()));
        assert(t.insert(insertion_point(t, s.last()), s.last()).to_multiset()
            =~= t.to_multiset().insert(s.last()));
        assert(s.to_multiset() =~= s.drop_last().to_multiset().insert(s.last()));
    }
}

/// Entries that are in order already stay as they are.
pub proof fn lemma_natural_sort_of_ordered(s: Seq<EntryView>)
    requires
        ordered(s),
    ensures
        natural_sort(s) == s,
    decreases s.len(),
{
    if s.len() > 0 {
        let t = s.drop_last();
        assert(ordered(t)) by {
            assert forall|i: int, j: int| 0 <= i < j < t.len() implies !comes_before(
                #[trigger] t[j],
                #[trigger] t[i],
            ) by {
                assert(!comes_before(s[j], s[i]));
            }
        }
        lemma_natural_sort_of_ordered(t);
        if t.len() > 0 {
            assert(!comes_before(s[s.len() - 1], s[s.len() - 2]));
        }
        assert(t.insert(t.len() as int, s.last()) =~= s);
    }
}

} // verus!
