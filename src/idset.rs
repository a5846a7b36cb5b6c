//! Sets of users kept by the bot (those who opted in to being renamed, and
//! those who are blacklisted), each stored as a list of user ids without
//! duplicates.

use vstd::prelude::*;
use crate::text::{decimal, parse_u64, push_decimal, split_words, str_views, u64_value, words};

verus! {

/// The list with `id` added: unchanged where it is already there, else
/// with `id` at its end.
pub open spec fn with_id(s: Seq<u64>, id: u64) -> Seq<u64> {
    if s.contains(id) {
        s
    } else {
        s.push(id)
    }
}

/// Whether an id is other than `id`.
pub open spec fn other_than(id: u64) -> spec_fn(u64) -> bool {
    |x: u64| x != id
}

/// The list with `id` removed: every other id, in order.
pub open spec fn without_id(s: Seq<u64>, id: u64) -> Seq<u64> {
    s.filter(other_than(id))
}

/// The ids that the words `ws` name, in order and each once; words that
/// are no number are passed over.
pub open spec fn ids_in(ws: Seq<Seq<char>>) -> Seq<u64>
    decreases ws.len(),
{
    if ws.len() == 0 {
        Seq::empty()
    } else {
        let prev = ids_in(ws.drop_last());
        match u64_value(ws.last()) {
            Some(v) => with_id(prev, v),
            None => prev,
        }
    }
}

/// The ids written in decimal, each on a line of its own.
pub open spec fn ids_data(s: Seq<u64>) -> Seq<char>
    decreases s.len(),
{
    if s.len() == 0 {
        Seq::empty()
    } else {
        ids_data(s.drop_last()) + decimal(s.last() as nat) + seq!['\n']
    }
}

proof fn lemma_with_id_unique(s: Seq<u64>, id: u64)
    requires
        s.no_duplicates(),
    ensures
        with_id(s, id).no_duplicates(),
{
    if !s.contains(id) {
        let t = s.push(id);
        assert forall|i: int, j: int| 0 <= i < t.len() && 0 <= j < t.len() && i != j implies t[i]
            != t[j] by {
            if i < s.len() && j < s.len() {
                assert(t[i] == s[i] && t[j] == s[j]);
            } else if i < s.len() {
                assert(t[i] == s[i]);
            } else if j < s.len() {
                assert(t[j] == s[j]);
            }
        }
    }
}

proof fn lemma_without_id_unique(s: Seq<u64>, id: u64)
    requires
        s.no_duplicates(),
    ensures
        without_id(s, id).no_duplicates(),
        !without_id(s, id).contains(id),
        !s.contains(id) ==> without_id(s, id) == s,
        forall|x: u64| x != id ==> (without_id(s, id).contains(x) <==> s.contains(x)),
    decreases s.len(),
{
    let f = other_than(id);
    if s.len() > 0 {
        let t = s.drop_last();
        assert(s == t.push(s.last()));
        assert(t.no_duplicates());
        lemma_without_id_unique(t, id);
        t.lemma_filter_push(s.last(), f);
        assert(!t.contains(s.last())) by {
            if t.contains(s.last()) {
                let k = choose|k: int| 0 <= k < t.len() && t[k] == s.last();
                assert(s[k] == s[s.len() - 1]);
            }
        }
        if s.last() != id {
            let o = without_id(t, id);
            assert(without_id(s, id) == o.push(s.last()));
            assert(!o.contains(s.last()));
            lemma_with_id_unique(o, s.last());
            assert forall|x: u64| x != id implies (without_id(s, id).contains(x) <==> s.contains(
                x,
            )) by {
                let p = o.push(s.last());
                if x == s.last() {
                    assert(p[o.len() as int] == x);
                    assert(s[s.len() - 1] == x);
                } else {
                    if s.contains(x) {
                        let k = choose|k: int| 0 <= k < s.len() && s[k] == x;
                        assert(t[k] == x);
                        assert(t.contains(x));
                        assert(o.contains(x));
                        let m = choose|m: int| 0 <= m < o.len() && o[m] == x;
                        assert(p[m] == x);
                    }
                    if p.contains(x) {
                        let k = choose|k: int| 0 <= k < p.len() && p[k] == x;
                        assert(k < o.len());
                        assert(o[k] == x);
                        assert(o.contains(x));
                        assert(t.contains(x));
                        let m = choose|m: int| 0 <= m < t.len() && t[m] == x;
                        assert(s[m] == x);
                    }
                }
            }
        } else {
            assert(s.contains(id));
            assert forall|x: u64| x != id implies (without_id(s, id).contains(x) <==> s.contains(
                x,
            )) by {
                if s.contains(x) {
                    let k = choose|k: int| 0 <= k < s.len() && s[k] == x;
                    assert(t[k] == x);
                }
            }
        }
    } else {
        assert(without_id(s, id) == Seq::<u64>::empty());
    }
}

/// Adding and removing are idempotent: adding (opting in) a user already in
/// the list leaves it unchanged, and the list never holds an id twice;
/// removing (opting out) a user not in the list leaves it unchanged.
pub proof fn lemma_insert_remove_idempotent(s: Seq<u64>, id: u64)
    requires
        s.no_duplicates(),
    ensures
        s.contains(id) ==> with_id(s, id) == s,
        with_id(s, id).no_duplicates(),
        with_id(with_id(s, id), id) == with_id(s, id),
        with_id(s, id).contains(id),
        !s.contains(id) ==> without_id(s, id) == s,
        without_id(s, id).no_duplicates(),
        without_id(without_id(s, id), id) == without_id(s, id),
        !without_id(s, id).contains(id),
{
    lemma_with_id_unique(s, id);
    lemma_without_id_unique(s, id);
    lemma_without_id_unique(without_id(s, id), id);
    assert(with_id(s, id).contains(id)) by {
        if !s.contains(id) {
            assert(s.push(id)[s.len() as int] == id);
        }
    }
}

/// Whether user `id` is in the list.
pub fn contains_id(ids: &Vec<u64>, id: u64) -> (r: bool)
    ensures
        r == ids@.contains(id),
{
    let mut i: usize = 0;
    while i < ids.len()
        invariant
            i <= ids@.len(),
            forall|j: int| 0 <= j < i ==> ids@[j] != id,
        decreases ids@.len() - i,
    {
        if ids[i] == id {
            assert(ids@[i as int] == id);
            return true;
        }
        i = i + 1;
    }
    false
}

/// Adds user `id` to the list, unless it is there already.
pub fn insert_id(ids: &mut Vec<u64>, id: u64)
    ensures
        final(ids)@ == with_id(old(ids)@, id),
        old(ids)@.no_duplicates() ==> final(ids)@.no_duplicates(),
{
    proof {
        if old(ids)@.no_duplicates() {
            lemma_with_id_unique(old(ids)@, id);
        }
    }
    if !contains_id(ids, id) {
        ids.push(id);
    }
}

/// Removes user `id` from the list, where it is there.
pub fn remove_id(ids: &mut Vec<u64>, id: u64)
    ensures
        final(ids)@ == without_id(old(ids)@, id),
        old(ids)@.no_duplicates() ==> final(ids)@.no_duplicates(),
{
    let ghost f = other_than(id);
    proof {
        if old(ids)@.no_duplicates() {
            lemma_without_id_unique(old(ids)@, id);
        }
    }
    let mut kept: Vec<u64> = Vec::new();
    let mut i: usize = 0;
    while i < ids.len()
        invariant
            i <= ids@.len(),
            ids@ == old(ids)@,
            f == other_than(id),
            kept@ == ids@.subrange(0, i as int).filter(f),
        decreases ids@.len() - i,
    {
        let ghost before = ids@.subrange(0, i as int);
        proof {
            before.lemma_filter_push(ids@[i as int], f);
        }
        assert(ids@.subrange(0, i + 1) == before.push(ids@[i as int]));
        if ids[i] != id {
            kept.push(ids[i]);
        }
        i = i + 1;
    }
    assert(ids@.subrange(0, ids@.len() as int) == ids@);
    *ids = kept;
}

/// Reads the list from its stored text: the numbers among its words, each
/// once, in order; other words are passed over.
pub fn parse_ids(text: &str) -> (r: Vec<u64>)
    ensures
        r@ == ids_in(words(text@)),
        r@.no_duplicates(),
{
    let ws = split_words(text);
    let ghost all = str_views(ws@);
    let mut r: Vec<u64> = Vec::new();
    let mut i: usize = 0;
    while i < ws.len()
        invariant
            i <= ws@.len(),
            all == str_views(ws@),
            all == words(text@),
            r@ == ids_in(all.subrange(0, i as int)),
            r@.no_duplicates(),
        decreases ws@.len() - i,
    {
        let ghost part = all.subrange(0, i + 1);
        assert(part.drop_last() == all.subrange(0, i as int));
        assert(part.last() == ws@[i as int]@);
        match parse_u64(ws[i]) {
            Some(v) => insert_id(&mut r, v),
            None => {},
        }
        i = i + 1;
    }
    assert(all.subrange(0, ws@.len() as int) == all);
    r
}

/// The text that stores the list: each id in decimal on a line of its own.
pub fn ids_text(ids: &Vec<u64>) -> (r: String)
    ensures
        r@ == ids_data(ids@),
{
    let mut r = String::new();
    let mut i: usize = 0;
    while i < ids.len()
        invariant
            i <= ids@.len(),
            r@ == ids_data(ids@.subrange(0, i as int)),
        decreases ids@.len() - i,
    {
        let ghost part = ids@.subrange(0, i + 1);
        assert(part.drop_last() == ids@.subrange(0, i as int));
        push_decimal(&mut r, ids[i]);
        r.append("\n");
        proof {
            reveal_strlit("\n");
        }
        i = i + 1;
    }
    assert(ids@.subrange(0, ids@.len() as int) == ids@);
    r
}

} // verus!
