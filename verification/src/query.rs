//! Optional, named query parameters and their canonical serialization.
//!
//! A [`QueryParams`] value keeps its parameters in insertion order with unique
//! keys; assigning a key that is already present replaces its value in place,
//! so the serialized form is deterministic.  Serializing an empty set of
//! parameters yields nothing at all, not an empty string.

use crate::encode::{
    lemma_pct_no_separators, lemma_unpct_pct, percent_encode, push_char, spec_pct, spec_unpct,
};
use vstd::prelude::*;
use vstd::utf8::{decode_utf8, encode_utf8, encode_utf8_decode_utf8};

verus! {

/// One `key=value` pair, both sides percent-encoded on serialization.
pub type SpecPair = (Seq<char>, Seq<char>);

/// True when no two pairs share a key.
pub open spec fn spec_keys_unique(m: Seq<SpecPair>) -> bool {
    forall|i: int, j: int| 0 <= i < j < m.len() ==> m[i].0 != m[j].0
}

/// The pairs after assigning `v` to `k`: the pair with key `k` is replaced in
/// place if one exists, otherwise a new pair is appended.
pub open spec fn spec_set(m: Seq<SpecPair>, k: Seq<char>, v: Seq<char>) -> Seq<SpecPair> {
    if exists|i: int| 0 <= i < m.len() && m[i].0 == k {
        let i = choose|i: int| 0 <= i < m.len() && m[i].0 == k;
        m.update(i, (k, v))
    } else {
        m.push((k, v))
    }
}

/// The serialized form of one pair.
pub open spec fn spec_pair_string(p: SpecPair) -> Seq<char> {
    spec_pct(p.0) + seq!['='] + spec_pct(p.1)
}

/// The serialized form of a pair sequence: pairs in order, joined by `&`.
pub open spec fn spec_query_string(m: Seq<SpecPair>) -> Seq<char>
    decreases m.len(),
{
    if m.len() == 0 {
        Seq::empty()
    } else if m.len() == 1 {
        spec_pair_string(m[0])
    } else {
        spec_query_string(m.drop_last()) + seq!['&'] + spec_pair_string(m.last())
    }
}

/// Each serialized pair holds at least its `=`, so the query string over at
/// least one pair is never empty.
pub proof fn lemma_query_string_nonempty(m: Seq<SpecPair>)
    requires
        m.len() > 0,
    ensures
        spec_query_string(m).len() > 0,
    decreases m.len(),
{
    if m.len() > 1 {
        lemma_query_string_nonempty(m.drop_last());
    }
}

/// The position of the last occurrence of `c` in `s`, or -1 when none.
pub open spec fn last_sep(s: Seq<char>, c: char) -> int
    decreases s.len(),
{
    if s.len() == 0 {
        -1
    } else if s.last() == c {
        s.len() - 1
    } else {
        last_sep(s.drop_last(), c)
    }
}

pub proof fn lemma_last_sep_absent(t: Seq<char>, c: char)
    requires
        forall|i: int| 0 <= i < t.len() ==> t[i] != c,
    ensures
        last_sep(t, c) == -1,
    decreases t.len(),
{
    if t.len() > 0 {
        lemma_last_sep_absent(t.drop_last(), c);
    }
}

pub proof fn lemma_last_sep_append(s: Seq<char>, t: Seq<char>, c: char)
    requires
        forall|i: int| 0 <= i < t.len() ==> t[i] != c,
    ensures
        last_sep(s + t, c) == last_sep(s, c),
    decreases t.len(),
{
    if t.len() == 0 {
        assert(s + t =~= s);
    } else {
        assert((s + t).drop_last() =~= s + t.drop_last());
        lemma_last_sep_append(s, t.drop_last(), c);
    }
}

/// The pair a serialized `key=value` stands for: both sides of its last
/// `=`, percent-decoded and read back as characters.
pub open spec fn spec_unpair(s: Seq<char>) -> SpecPair {
    let e = last_sep(s, '=');
    (
        decode_utf8(spec_unpct(s.take(e))),
        decode_utf8(spec_unpct(s.subrange(e + 1, s.len() as int))),
    )
}

/// The pairs a serialized query string stands for: one per `&`-delimited
/// part.
pub open spec fn spec_unquery(s: Seq<char>) -> Seq<SpecPair>
    decreases s.len(),
{
    if s.len() == 0 {
        Seq::empty()
    } else {
        let a = last_sep(s, '&');
        if 0 <= a && a < s.len() {
            spec_unquery(s.take(a)).push(spec_unpair(s.subrange(a + 1, s.len() as int)))
        } else {
            seq![spec_unpair(s)]
        }
    }
}

/// One serialized pair reads back as itself, and holds no `&`.
proof fn lemma_unpair_pair(p: SpecPair)
    ensures
        spec_unpair(spec_pair_string(p)) == p,
        forall|i: int|
            0 <= i < spec_pair_string(p).len() ==> (#[trigger] spec_pair_string(p)[i]) != '&',
{
    let ek = spec_pct(p.0);
    let ev = spec_pct(p.1);
    let s = spec_pair_string(p);
    lemma_pct_no_separators(encode_utf8(p.0));
    lemma_pct_no_separators(encode_utf8(p.1));
    lemma_last_sep_append(ek + seq!['='], ev, '=');
    assert(s =~= (ek + seq!['=']) + ev);
    assert((ek + seq!['=']).last() == '=');
    assert(last_sep(s, '=') == ek.len());
    assert(s.take(ek.len() as int) =~= ek);
    assert(s.subrange(ek.len() as int + 1, s.len() as int) =~= ev);
    lemma_unpct_pct(encode_utf8(p.0));
    lemma_unpct_pct(encode_utf8(p.1));
    encode_utf8_decode_utf8(p.0);
    encode_utf8_decode_utf8(p.1);
    assert(spec_unpair(s).0 == p.0);
    assert(spec_unpair(s).1 == p.1);
}

/// Law: serialization loses nothing: splitting the serialized query string
/// at `&` and `=` and percent-decoding the parts gives back exactly the
/// serialized pairs, keys and values alike, in order.
pub proof fn lemma_unquery_query(m: Seq<SpecPair>)
    requires
        m.len() > 0,
    ensures
        spec_unquery(spec_query_string(m)) == m,
    decreases m.len(),
{
    let s = spec_query_string(m);
    if m.len() == 1 {
        lemma_unpair_pair(m[0]);
        lemma_last_sep_absent(s, '&');
        assert(spec_unquery(s) =~= m);
    } else {
        let front = spec_query_string(m.drop_last());
        let tail = spec_pair_string(m.last());
        lemma_unpair_pair(m.last());
        lemma_unquery_query(m.drop_last());
        assert(s =~= (front + seq!['&']) + tail);
        lemma_last_sep_append(front + seq!['&'], tail, '&');
        assert((front + seq!['&']).last() == '&');
        assert(last_sep(s, '&') == front.len());
        assert(s.take(front.len() as int) =~= front);
        assert(s.subrange(front.len() as int + 1, s.len() as int) =~= tail);
        assert(spec_unquery(s) =~= m);
    }
}

/// Named string parameters in insertion order, keys unique.
pub struct QueryParams {
    pairs: Vec<(String, String)>,
}

impl View for QueryParams {
    type V = Seq<SpecPair>;

    closed spec fn view(&self) -> Seq<SpecPair> {
        Seq::new(self.pairs@.len(), |i: int| (self.pairs@[i].0@, self.pairs@[i].1@))
    }
}

impl QueryParams {
    /// An empty set of parameters.
    pub fn new() -> (r: QueryParams)
        ensures
            r@ == Seq::<SpecPair>::empty(),
            spec_keys_unique(r@),
    {
        let r = QueryParams { pairs: Vec::new() };
        proof {
            assert(r@ =~= Seq::<SpecPair>::empty());
        }
        r
    }

    /// Assign `value` to `key`; the last assignment to a key wins.
    pub fn set(&mut self, key: &str, value: String)
        requires
            spec_keys_unique(old(self)@),
        ensures
            final(self)@ == spec_set(old(self)@, key@, value@),
            spec_keys_unique(final(self)@),
    {
        let n = self.pairs.len();
        let k = key.to_owned();
        let mut j: usize = 0;
        while j < n
            invariant
                n == self.pairs@.len(),
                j <= n,
                k@ == key@,
                *self == *old(self),
                spec_keys_unique(self@),
                forall|t: int| 0 <= t < j ==> self@[t].0 != key@,
            decreases n - j,
        {
            if self.pairs[j].0 == k {
                assert(self@[j as int].0 == key@);
                self.pairs[j] = (k, value);
                proof {
                    let ghost i0 = choose|i: int|
                        0 <= i < old(self)@.len() && old(self)@[i].0 == key@;
                    assert(old(self)@[j as int].0 == key@);
                    assert(i0 == j as int);
                    assert(self@ =~= spec_set(old(self)@, key@, value@));
                    assert forall|a: int, b: int| 0 <= a < b < self@.len() implies self@[a].0
                        != self@[b].0 by {
                        assert(old(self)@[a].0 != old(self)@[b].0);
                    }
                }
                return ;
            }
            j = j + 1;
        }
        self.pairs.push((k, value));
        proof {
            assert(!(exists|i: int| 0 <= i < old(self)@.len() && old(self)@[i].0 == key@));
            assert(self@ =~= old(self)@.push((key@, value@)));
            assert forall|a: int, b: int| 0 <= a < b < self@.len() implies self@[a].0 != self@[b].0
            by {
                if b < old(self)@.len() {
                    assert(old(self)@[a].0 != old(self)@[b].0);
                } else {
                    assert(self@[b] == (key@, value@));
                    assert(old(self)@[a].0 != key@);
                }
            }
        }
    }

    /// How many parameters are set.
    pub fn len(&self) -> (r: usize)
        ensures
            r == self@.len(),
    {
        self.pairs.len()
    }

    /// A copy of these parameters.
    pub fn duplicate(&self) -> (r: QueryParams)
        ensures
            r@ == self@,
    {
        let n = self.pairs.len();
        let mut pairs: Vec<(String, String)> = Vec::new();
        let mut j: usize = 0;
        while j < n
            invariant
                n == self.pairs@.len(),
                j <= n,
                pairs@.len() == j,
                forall|t: int| 0 <= t < j ==> pairs@[t].0@ == self@[t].0 && pairs@[t].1@
                    == self@[t].1,
            decreases n - j,
        {
            let k = self.pairs[j].0.clone();
            let v = self.pairs[j].1.clone();
            pairs.push((k, v));
            j = j + 1;
        }
        let r = QueryParams { pairs };
        proof {
            assert(r@ =~= self@);
        }
        r
    }

    /// Serialize the parameters, or nothing when none are set.
    pub fn serialize(&self) -> (r: Option<String>)
        ensures
            self@.len() == 0 ==> r is None,
            self@.len() > 0 ==> (r matches Some(s) && s@ == spec_query_string(self@)),
    {
        let n = self.pairs.len();
        if n == 0 {
            return None;
        }
        let mut out = String::new();
        proof {
            assert(self@.take(0) =~= Seq::<SpecPair>::empty());
        }
        let mut j: usize = 0;
        while j < n
            invariant
                n == self.pairs@.len(),
                j <= n,
                out@ == spec_query_string(self@.take(j as int)),
            decreases n - j,
        {
            proof {
                assert(self@.take(j + 1).drop_last() =~= self@.take(j as int));
                assert(self@.take(j + 1).last() == self@[j as int]);
            }
            if j > 0 {
                push_char(&mut out, '&');
            }
            let ek = percent_encode(self.pairs[j].0.as_str());
            out.append(ek.as_str());
            push_char(&mut out, '=');
            let ev = percent_encode(self.pairs[j].1.as_str());
            out.append(ev.as_str());
            proof {
                assert(out@ =~= spec_query_string(self@.take(j + 1)));
            }
            j = j + 1;
        }
        proof {
            assert(self@.take(n as int) =~= self@);
        }
        Some(out)
    }
}

/// Law: after an assignment the keys stay unique, the assigned key holds the
/// last-assigned value, and every pair under another key is untouched.
pub proof fn lemma_set_last_write(m: Seq<SpecPair>, k: Seq<char>, v: Seq<char>)
    requires
        spec_keys_unique(m),
    ensures
        spec_keys_unique(spec_set(m, k, v)),
        exists|i: int|
            0 <= i < spec_set(m, k, v).len() && spec_set(m, k, v)[i] == ((k, v)),
        forall|i: int|
            0 <= i < spec_set(m, k, v).len() && spec_set(m, k, v)[i].0 != k ==> m.contains(
                spec_set(m, k, v)[i],
            ),
{
    let r = spec_set(m, k, v);
    if exists|i: int| 0 <= i < m.len() && m[i].0 == k {
        let i0 = choose|i: int| 0 <= i < m.len() && m[i].0 == k;
        assert(r == m.update(i0, (k, v)));
        assert(r[i0] == ((k, v)));
        assert forall|a: int, b: int| 0 <= a < b < r.len() implies r[a].0 != r[b].0 by {
            assert(m[a].0 != m[b].0);
        }
        assert forall|i: int| 0 <= i < r.len() && r[i].0 != k implies m.contains(r[i]) by {
            assert(r[i] == m[i]);
            assert(m.contains(m[i]));
        }
    } else {
        assert(r == m.push((k, v)));
        assert(r[m.len() as int] == ((k, v)));
        assert forall|a: int, b: int| 0 <= a < b < r.len() implies r[a].0 != r[b].0 by {
            if b < m.len() {
                assert(m[a].0 != m[b].0);
            } else {
                assert(r[b] == ((k, v)));
                assert(m[a].0 != k);
            }
        }
        assert forall|i: int| 0 <= i < r.len() && r[i].0 != k implies m.contains(r[i]) by {
            assert(i < m.len());
            assert(m.contains(m[i]));
        }
    }
}

} // verus!
