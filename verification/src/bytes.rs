use vstd::prelude::*;

verus! {

/// The sequence of byte strings that a list of byte vectors holds.
pub open spec fn byte_strings(list: Seq<Vec<u8>>) -> Seq<Seq<u8>> {
    list.map_values(|b: Vec<u8>| b@)
}

/// Byte-wise equality of two byte strings.
pub fn bytes_eq(a: &[u8], b: &[u8]) -> (equal: bool)
    ensures
        equal == (a@ == b@),
{
    if a.len() != b.len() {
        return false;
    }
    let mut i: usize = 0;
    while i < a.len()
        invariant
            a.len() == b.len(),
            0 <= i <= a.len(),
            forall|k: int| 0 <= k < i ==> a@[k] == b@[k],
        decreases a.len() - i,
    {
        if a[i] != b[i] {
            return false;
        }
        i = i + 1;
    }
    assert(a@ =~= b@);
    true
}

/// Whether `list` holds a byte string equal to `item`.
pub fn list_contains(list: &Vec<Vec<u8>>, item: &[u8]) -> (found: bool)
    ensures
        found == byte_strings(list@).contains(item@),
{
    let mut i: usize = 0;
    while i < list.len()
        invariant
            0 <= i <= list.len(),
            forall|k: int| 0 <= k < i ==> list@[k]@ != item@,
        decreases list.len() - i,
    {
        if bytes_eq(list[i].as_slice(), item) {
            assert(byte_strings(list@)[i as int] == item@);
            return true;
        }
        i = i + 1;
    }
    assert forall|k: int| 0 <= k < byte_strings(list@).len() implies byte_strings(list@)[k] != item@ by {
        assert(byte_strings(list@)[k] == list@[k]@);
    }
    false
}

/// A fresh copy of a byte string.
pub fn copy_bytes(b: &[u8]) -> (copy: Vec<u8>)
    ensures
        copy@ == b@,
{
    vstd::slice::slice_to_vec(b)
}

/// A fresh copy of a list of byte strings.
pub fn copy_byte_strings(list: &Vec<Vec<u8>>) -> (copy: Vec<Vec<u8>>)
    ensures
        byte_strings(copy@) == byte_strings(list@),
{
    let mut copy: Vec<Vec<u8>> = Vec::new();
    let mut i: usize = 0;
    while i < list.len()
        invariant
            0 <= i <= list.len(),
            copy@.len() == i,
            forall|k: int| 0 <= k < i ==> copy@[k]@ == list@[k]@,
        decreases list.len() - i,
    {
        copy.push(copy_bytes(list[i].as_slice()));
        i = i + 1;
    }
    assert(byte_strings(copy@) =~= byte_strings(list@));
    copy
}

/// Holds of the byte strings other than `item`.
pub open spec fn differs_from(item: Seq<u8>) -> spec_fn(Seq<u8>) -> bool {
    |y: Seq<u8>| y != item
}

/// Holds of the byte strings that occur in `members`.
pub open spec fn member_of(members: Seq<Seq<u8>>) -> spec_fn(Seq<u8>) -> bool {
    |y: Seq<u8>| members.contains(y)
}

/// The list without any occurrence of `item`, order kept.
pub open spec fn without(list: Seq<Seq<u8>>, item: Seq<u8>) -> Seq<Seq<u8>> {
    list.filter(differs_from(item))
}

/// The entries of `list` that occur in `members`, order and repetitions kept.
pub open spec fn members_of(list: Seq<Seq<u8>>, members: Seq<Seq<u8>>) -> Seq<Seq<u8>> {
    list.filter(member_of(members))
}

/// A copy of `list` without any occurrence of `item`.
pub fn remove_all(list: &Vec<Vec<u8>>, item: &[u8]) -> (kept: Vec<Vec<u8>>)
    ensures
        byte_strings(kept@) == without(byte_strings(list@), item@),
{
    let ghost all = byte_strings(list@);
    let ghost pred = differs_from(item@);
    let mut kept: Vec<Vec<u8>> = Vec::new();
    let mut i: usize = 0;
    while i < list.len()
        invariant
            0 <= i <= list.len(),
            all == byte_strings(list@),
            pred == differs_from(item@),
            byte_strings(kept@) == all.take(i as int).filter(pred),
        decreases list.len() - i,
    {
        proof {
            assert(all.take(i + 1).drop_last() =~= all.take(i as int));
            reveal_with_fuel(Seq::<_>::filter, 1);
        }
        if !bytes_eq(list[i].as_slice(), item) {
            kept.push(copy_bytes(list[i].as_slice()));
            proof {
                assert(byte_strings(kept@) =~= all.take(i as int).filter(pred).push(list@[i as int]@));
            }
        }
        i = i + 1;
    }
    assert(all.take(i as int) =~= all);
    kept
}

/// How many entries of `list` occur in `members`, repetitions counted.
pub fn count_members(list: &Vec<Vec<u8>>, members: &Vec<Vec<u8>>) -> (count: usize)
    ensures
        count == members_of(byte_strings(list@), byte_strings(members@)).len(),
{
    let ghost all = byte_strings(list@);
    let ghost ms = byte_strings(members@);
    let ghost pred = member_of(ms);
    let mut count: usize = 0;
    let mut i: usize = 0;
    while i < list.len()
        invariant
            0 <= i <= list.len(),
            all == byte_strings(list@),
            ms == byte_strings(members@),
            pred == member_of(ms),
            count == all.take(i as int).filter(pred).len(),
            count <= i,
        decreases list.len() - i,
    {
        proof {
            assert(all.take(i + 1).drop_last() =~= all.take(i as int));
            reveal_with_fuel(Seq::<_>::filter, 1);
        }
        if list_contains(members, list[i].as_slice()) {
            count = count + 1;
        }
        i = i + 1;
    }
    assert(all.take(i as int) =~= all);
    count
}

/// Filtering keeps a list free of duplicates.
pub proof fn lemma_filter_no_duplicates(s: Seq<Seq<u8>>, pred: spec_fn(Seq<u8>) -> bool)
    requires
        s.no_duplicates(),
    ensures
        s.filter(pred).no_duplicates(),
    decreases s.len(),
{
    reveal_with_fuel(Seq::<_>::filter, 1);
    if s.len() > 0 {
        let sub = s.drop_last();
        assert(sub.no_duplicates()) by {
            assert forall|i: int, j: int| 0 <= i < sub.len() && 0 <= j < sub.len() && i != j implies sub[i]
                != sub[j] by {
                assert(sub[i] == s[i] && sub[j] == s[j]);
            }
        }
        lemma_filter_no_duplicates(sub, pred);
        if pred(s.last()) {
            let f = sub.filter(pred);
            if f.contains(s.last()) {
                sub.lemma_filter_contains_rev(pred, s.last());
                let k = choose|k: int| 0 <= k < sub.len() && sub[k] == s.last();
                assert(s[k] == s[s.len() - 1]);
            }
            let pushed = f.push(s.last());
            assert forall|i: int, j: int| 0 <= i < pushed.len() && 0 <= j < pushed.len() && i != j implies pushed[i]
                != pushed[j] by {
                if i == f.len() as int {
                    assert(pushed[j] == f[j]);
                    assert(f.contains(f[j]));
                } else if j == f.len() as int {
                    assert(pushed[i] == f[i]);
                    assert(f.contains(f[i]));
                }
            }
        }
    }
}

/// Appending an absent entry keeps a list free of duplicates.
pub proof fn lemma_push_absent_no_duplicates(s: Seq<Seq<u8>>, x: Seq<u8>)
    requires
        s.no_duplicates(),
        !s.contains(x),
    ensures
        s.push(x).no_duplicates(),
{
    let pushed = s.push(x);
    assert forall|i: int, j: int| 0 <= i < pushed.len() && 0 <= j < pushed.len() && i != j implies pushed[i]
        != pushed[j] by {
        if i == s.len() as int {
            assert(pushed[j] == s[j]);
        } else if j == s.len() as int {
            assert(pushed[i] == s[i]);
        }
    }
}

/// Removing one entry keeps every other entry.
pub proof fn lemma_without_keeps(list: Seq<Seq<u8>>, removed: Seq<u8>, other: Seq<u8>)
    requires
        list.contains(other),
        other != removed,
    ensures
        without(list, removed).contains(other),
        without(list, removed).len() > 0,
{
    broadcast use vstd::seq_lib::group_filter_ensures;

    let pred = differs_from(removed);
    let i = choose|i: int| 0 <= i < list.len() && list[i] == other;
    assert(pred(list[i]));
    assert(list.filter(pred).contains(list[i]));
}

} // verus!
