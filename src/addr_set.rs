//! A set of addresses, held as a vector of strings, and the order of their
//! bytes in which they are listed a page at a time.

use vstd::prelude::*;
use vstd::utf8::{encode_utf8, encode_utf8_decode_utf8};

verus! {

/// A finite set of addresses.
pub struct AddrSet {
    items: Vec<String>,
}

/// `a` stands at some position of `items`.
pub open spec fn holds(items: Seq<String>, a: Seq<char>) -> bool {
    exists|i: int| 0 <= i < items.len() && (#[trigger] items[i])@ == a
}

/// `a` and `b` agree before position `k`, where `a` has a smaller byte or
/// ends while `b` goes on.
pub open spec fn lex_lt_at(a: Seq<u8>, b: Seq<u8>, k: int) -> bool {
    &&& 0 <= k <= a.len()
    &&& k <= b.len()
    &&& forall|j: int| 0 <= j < k ==> a[j] == b[j]
    &&& (k < a.len() && k < b.len() && a[k] < b[k]) || (k == a.len() && k < b.len())
}

/// `a` comes before `b` in lexicographic byte order.
pub open spec fn lex_lt(a: Seq<u8>, b: Seq<u8>) -> bool {
    exists|k: int| lex_lt_at(a, b, k)
}

/// Address `a` comes before address `b` in the order of their UTF-8 bytes.
pub open spec fn addr_lt(a: Seq<char>, b: Seq<char>) -> bool {
    lex_lt(encode_utf8(a), encode_utf8(b))
}

/// `a` comes after `start`, where there is one.
pub open spec fn comes_after(a: Seq<char>, start: Option<Seq<char>>) -> bool {
    match start {
        Some(s) => addr_lt(s, a),
        None => true,
    }
}

/// A position where `a` comes first shows that it comes first.
proof fn lemma_lex_lt_witness(a: Seq<u8>, b: Seq<u8>, k: int)
    requires
        lex_lt_at(a, b, k),
    ensures
        lex_lt(a, b),
{
}

pub proof fn lemma_lex_lt_irreflexive(a: Seq<u8>)
    ensures
        !lex_lt(a, a),
{
}

pub proof fn lemma_lex_lt_transitive(a: Seq<u8>, b: Seq<u8>, c: Seq<u8>)
    requires
        lex_lt(a, b),
        lex_lt(b, c),
    ensures
        lex_lt(a, c),
{
    let k1 = choose|k: int| lex_lt_at(a, b, k);
    let k2 = choose|k: int| lex_lt_at(b, c, k);
    if k1 < k2 {
        lemma_lex_lt_witness(a, c, k1);
    } else if k2 < k1 {
        lemma_lex_lt_witness(a, c, k2);
    } else {
        lemma_lex_lt_witness(a, c, k1);
    }
}

pub proof fn lemma_lex_lt_total(a: Seq<u8>, b: Seq<u8>)
    requires
        a != b,
    ensures
        lex_lt(a, b) || lex_lt(b, a),
{
    if forall|j: int| 0 <= j < a.len() && j < b.len() ==> a[j] == b[j] {
        if a.len() < b.len() {
            lemma_lex_lt_witness(a, b, a.len() as int);
        } else if b.len() < a.len() {
            lemma_lex_lt_witness(b, a, b.len() as int);
        } else {
            assert(a =~= b);
        }
    } else {
        let d = choose|j: int| 0 <= j < a.len() && j < b.len() && a[j] != b[j];
        lemma_first_difference(a, b, d);
    }
}

proof fn lemma_first_difference(a: Seq<u8>, b: Seq<u8>, d: int)
    requires
        0 <= d < a.len(),
        d < b.len(),
        a[d] != b[d],
    ensures
        lex_lt(a, b) || lex_lt(b, a),
    decreases d,
{
    if exists|j: int| 0 <= j < d && a[j] != b[j] {
        let j = choose|j: int| 0 <= j < d && a[j] != b[j];
        lemma_first_difference(a, b, j);
    } else if a[d] < b[d] {
        lemma_lex_lt_witness(a, b, d);
    } else {
        lemma_lex_lt_witness(b, a, d);
    }
}

/// The order on addresses is a strict total order.
pub proof fn lemma_addr_order(a: Seq<char>, b: Seq<char>, c: Seq<char>)
    ensures
        !addr_lt(a, a),
        addr_lt(a, b) && addr_lt(b, c) ==> addr_lt(a, c),
        a != b ==> addr_lt(a, b) || addr_lt(b, a),
{
    lemma_lex_lt_irreflexive(encode_utf8(a));
    if addr_lt(a, b) && addr_lt(b, c) {
        lemma_lex_lt_transitive(encode_utf8(a), encode_utf8(b), encode_utf8(c));
    }
    if a != b {
        encode_utf8_decode_utf8(a);
        encode_utf8_decode_utf8(b);
        lemma_lex_lt_total(encode_utf8(a), encode_utf8(b));
    }
}

/// Whether `a` comes before `b` in lexicographic byte order.
pub fn bytes_less(a: &[u8], b: &[u8]) -> (r: bool)
    ensures
        r == lex_lt(a@, b@),
{
    let mut i: usize = 0;
    while i < a.len() && i < b.len() && a[i] == b[i]
        invariant
            i <= a@.len(),
            i <= b@.len(),
            forall|j: int| 0 <= j < i ==> a@[j] == b@[j],
        decreases a@.len() - i,
    {
        i = i + 1;
    }
    let r = if i < a.len() && i < b.len() {
        a[i] < b[i]
    } else {
        i == a.len() && i < b.len()
    };
    proof {
        if r {
            lemma_lex_lt_witness(a@, b@, i as int);
        } else if lex_lt(a@, b@) {
            let k = choose|k: int| lex_lt_at(a@, b@, k);
            assert(k == i);
        }
    }
    r
}

/// Whether address `a` comes before address `b`.
pub fn addr_less(a: &String, b: &String) -> (r: bool)
    ensures
        r == addr_lt(a@, b@),
{
    bytes_less(a.as_str().as_bytes(), b.as_str().as_bytes())
}

/// `r` is a page of `set`: up to `limit` of its addresses that come after
/// `start`, in ascending order, with none left out before the last.
pub open spec fn is_page(set: Set<Seq<char>>, start: Option<Seq<char>>, limit: nat, r: Seq<String>) -> bool {
    &&& r.len() <= limit
    &&& forall|i: int| 0 <= i < r.len() ==> set.contains(#[trigger] r[i]@) && comes_after(r[i]@, start)
    &&& forall|i: int, j: int| 0 <= i < j < r.len() ==> addr_lt(#[trigger] r[i]@, #[trigger] r[j]@)
    &&& forall|x: Seq<char>|
        #[trigger] set.contains(x) && comes_after(x, start) ==> (exists|i: int|
            0 <= i < r.len() && (#[trigger] r[i])@ == x) || (r.len() == limit && (limit > 0 ==> addr_lt(
            r.last()@,
            x,
        )))
}

/// The address that `a` holds, if any.
pub open spec fn opt_view(a: Option<&String>) -> Option<Seq<char>> {
    match a {
        Some(s) => Some(s@),
        None => None,
    }
}

impl View for AddrSet {
    type V = Set<Seq<char>>;

    closed spec fn view(&self) -> Set<Seq<char>> {
        Set::new(|a: Seq<char>| holds(self.items@, a))
    }
}

impl AddrSet {
    /// The empty set.
    pub fn new() -> (s: AddrSet)
        ensures
            s@ == Set::<Seq<char>>::empty(),
    {
        let s = AddrSet { items: Vec::new() };
        assert(s@ =~= Set::<Seq<char>>::empty());
        s
    }

    /// The set of the addresses in `v`.
    pub fn from_vec(v: &Vec<String>) -> (s: AddrSet)
        ensures
            s@ == Set::new(|a: Seq<char>| holds(v@, a)),
    {
        let mut s = AddrSet::new();
        s.insert_all(v);
        assert(s@ =~= Set::new(|a: Seq<char>| holds(v@, a)));
        s
    }

    /// Whether `a` is in the set.
    pub fn contains(&self, a: &String) -> (b: bool)
        ensures
            b == self@.contains(a@),
    {
        let mut i: usize = 0;
        while i < self.items.len()
            invariant
                i <= self.items@.len(),
                forall|j: int| 0 <= j < i ==> (#[trigger] self.items@[j])@ != a@,
            decreases self.items@.len() - i,
        {
            if self.items[i] == *a {
                assert(holds(self.items@, a@));
                return true;
            }
            i = i + 1;
        }
        false
    }

    /// Whether the set is empty.
    pub fn is_empty(&self) -> (b: bool)
        ensures
            b == (self@ == Set::<Seq<char>>::empty()),
    {
        if self.items.len() == 0 {
            assert(self@ =~= Set::<Seq<char>>::empty());
            true
        } else {
            assert(self@.contains(self.items@[0]@));
            false
        }
    }

    /// Adds `a`; adding an address already there changes nothing.
    pub fn insert(&mut self, a: &String)
        ensures
            final(self)@ == old(self)@.insert(a@),
    {
        if !self.contains(a) {
            let ghost before = self.items@;
            self.items.push(a.clone());
            assert forall|x: Seq<char>| holds(self.items@, x) <== (holds(before, x) || x == a@) by {
                if holds(before, x) {
                    let i = choose|i: int| 0 <= i < before.len() && (#[trigger] before[i])@ == x;
                    assert(self.items@[i] == before[i]);
                }
                if x == a@ {
                    assert(self.items@[before.len() as int]@ == a@);
                }
            }
            assert forall|x: Seq<char>| holds(self.items@, x) ==> (holds(before, x) || x == a@) by {
                if holds(self.items@, x) {
                    let i = choose|i: int| 0 <= i < self.items@.len() && (#[trigger] self.items@[i])@ == x;
                    if i < before.len() {
                        assert(before[i] == self.items@[i]);
                    }
                }
            }
        }
        assert(self@ =~= old(self)@.insert(a@));
    }

    /// Adds every address of `v`.
    pub fn insert_all(&mut self, v: &Vec<String>)
        ensures
            final(self)@ == old(self)@.union(Set::new(|a: Seq<char>| holds(v@, a))),
    {
        let mut i: usize = 0;
        while i < v.len()
            invariant
                i <= v@.len(),
                self@ == old(self)@.union(Set::new(|a: Seq<char>| holds(v@.take(i as int), a))),
            decreases v@.len() - i,
        {
            let ghost prev = self@;
            self.insert(&v[i]);
            proof {
                assert(v@.take(i + 1) =~= v@.take(i as int).push(v@[i as int]));
                let s_next = Set::new(|a: Seq<char>| holds(v@.take(i + 1), a));
                let s_prev = Set::new(|a: Seq<char>| holds(v@.take(i as int), a));
                assert forall|a: Seq<char>| s_next.contains(a) <==> s_prev.insert(v@[i as int]@).contains(a) by {
                    lemma_holds_push(v@.take(i as int), v@[i as int], a);
                }
                assert(s_next =~= s_prev.insert(v@[i as int]@));
                assert(self@ =~= old(self)@.union(s_next));
            }
            i = i + 1;
        }
        assert(v@.take(v@.len() as int) =~= v@);
    }

    /// Removes `a`; removing an address not there changes nothing.
    pub fn remove(&mut self, a: &String)
        ensures
            final(self)@ == old(self)@.remove(a@),
    {
        let mut kept: Vec<String> = Vec::new();
        let mut i: usize = 0;
        while i < self.items.len()
            invariant
                i <= self.items@.len(),
                forall|x: Seq<char>| #[trigger] holds(kept@, x) <==> (x != a@ && holds(self.items@.take(i as int), x)),
            decreases self.items@.len() - i,
        {
            let ghost before = kept@;
            let ghost pre = self.items@.take(i as int);
            let ghost next = self.items@.take(i + 1);
            assert(next =~= pre.push(self.items@[i as int]));
            let keep = !(self.items[i] == *a);
            if keep {
                kept.push(self.items[i].clone());
            }
            proof {
                assert forall|x: Seq<char>| #[trigger] holds(kept@, x) <==> (x != a@ && holds(next, x)) by {
                    assert(holds(before, x) <==> (x != a@ && holds(pre, x)));
                    lemma_holds_push(pre, self.items@[i as int], x);
                    if keep {
                        lemma_holds_push(before, self.items@[i as int], x);
                    }
                }
            }
            i = i + 1;
        }
        assert(self.items@.take(self.items@.len() as int) =~= self.items@);
        self.items = kept;
        assert(self@ =~= old(self)@.remove(a@));
    }

    /// Removes every address of `v`.
    pub fn remove_all(&mut self, v: &Vec<String>)
        ensures
            final(self)@ == old(self)@.difference(Set::new(|a: Seq<char>| holds(v@, a))),
    {
        let mut i: usize = 0;
        while i < v.len()
            invariant
                i <= v@.len(),
                self@ == old(self)@.difference(Set::new(|a: Seq<char>| holds(v@.take(i as int), a))),
            decreases v@.len() - i,
        {
            self.remove(&v[i]);
            proof {
                assert(v@.take(i + 1) =~= v@.take(i as int).push(v@[i as int]));
                assert forall|a: Seq<char>| holds(v@.take(i + 1), a) <==> (holds(v@.take(i as int), a) || a == v@[i as int]@) by {
                    lemma_holds_push(v@.take(i as int), v@[i as int], a);
                }
                assert(self@ =~= old(self)@.difference(Set::new(|a: Seq<char>| holds(v@.take(i + 1), a))));
            }
            i = i + 1;
        }
        assert(v@.take(v@.len() as int) =~= v@);
    }

    /// The position of the least address after `cursor`, if any.
    fn least_after(&self, cursor: Option<&String>) -> (r: Option<usize>)
        ensures
            r matches Some(i) ==> {
                &&& i < self.items@.len()
                &&& comes_after(self.items@[i as int]@, opt_view(cursor))
                &&& forall|j: int|
                    0 <= j < self.items@.len() && comes_after(#[trigger] self.items@[j]@, opt_view(cursor))
                        ==> self.items@[j]@ == self.items@[i as int]@ || addr_lt(
                        self.items@[i as int]@,
                        self.items@[j]@,
                    )
            },
            r is None ==> forall|j: int|
                0 <= j < self.items@.len() ==> !comes_after(#[trigger] self.items@[j]@, opt_view(cursor)),
    {
        let mut best: Option<usize> = None;
        let mut i: usize = 0;
        while i < self.items.len()
            invariant
                i <= self.items@.len(),
                best matches Some(b) ==> {
                    &&& b < i
                    &&& comes_after(self.items@[b as int]@, opt_view(cursor))
                    &&& forall|j: int|
                        0 <= j < i && comes_after(#[trigger] self.items@[j]@, opt_view(cursor))
                            ==> self.items@[j]@ == self.items@[b as int]@ || addr_lt(
                            self.items@[b as int]@,
                            self.items@[j]@,
                        )
                },
                best is None ==> forall|j: int|
                    0 <= j < i ==> !comes_after(#[trigger] self.items@[j]@, opt_view(cursor)),
            decreases self.items@.len() - i,
        {
            let after = match cursor {
                Some(c) => addr_less(c, &self.items[i]),
                None => true,
            };
            if after {
                let better = match best {
                    Some(b) => addr_less(&self.items[i], &self.items[b]),
                    None => true,
                };
                proof {
                    if let Some(b) = best {
                        let x = self.items@[i as int]@;
                        let y = self.items@[b as int]@;
                        assert forall|j: int|
                            0 <= j < i + 1 && comes_after(#[trigger] self.items@[j]@, opt_view(cursor))
                                implies if better {
                                    self.items@[j]@ == x || addr_lt(x, self.items@[j]@)
                                } else {
                                    self.items@[j]@ == y || addr_lt(y, self.items@[j]@)
                                } by {
                            let z = self.items@[j]@;
                            lemma_addr_order(x, y, z);
                            lemma_addr_order(y, x, z);
                        }
                    }
                }
                if better {
                    best = Some(i);
                }
            }
            i = i + 1;
        }
        best
    }

    /// Up to `limit` addresses of the set that come after `start_after`
    /// (all of them where there is none), in ascending byte order, from
    /// the least on.
    pub fn page_after(&self, start_after: Option<&String>, limit: usize) -> (r: Vec<String>)
        ensures
            is_page(self@, opt_view(start_after), limit as nat, r@),
    {
        let mut out: Vec<String> = Vec::new();
        let mut cursor: Option<&String> = start_after;
        let mut exhausted = false;
        while out.len() < limit && !exhausted
            invariant
                exhausted ==> forall|x: Seq<char>|
                    #[trigger] self@.contains(x) && comes_after(x, opt_view(start_after)) ==> !comes_after(
                        x,
                        opt_view(cursor),
                    ),
                out@.len() <= limit,
                forall|i: int|
                    0 <= i < out@.len() ==> self@.contains(#[trigger] out@[i]@) && comes_after(
                        out@[i]@,
                        opt_view(start_after),
                    ),
                forall|i: int, j: int| 0 <= i < j < out@.len() ==> addr_lt(#[trigger] out@[i]@, #[trigger] out@[j]@),
                out@.len() == 0 ==> opt_view(cursor) == opt_view(start_after),
                out@.len() > 0 ==> opt_view(cursor) == Some(out@.last()@),
                forall|x: Seq<char>|
                    #[trigger] self@.contains(x) && comes_after(x, opt_view(start_after)) && !comes_after(
                        x,
                        opt_view(cursor),
                    ) ==> exists|i: int| 0 <= i < out@.len() && (#[trigger] out@[i])@ == x,
            decreases limit - out@.len() + if exhausted { 0int } else { 1int },
        {
            match self.least_after(cursor) {
                None => {
                    proof {
                        assert forall|x: Seq<char>|
                            #[trigger] self@.contains(x) && comes_after(x, opt_view(start_after))
                                implies !comes_after(x, opt_view(cursor)) by {
                            let j = choose|j: int| 0 <= j < self.items@.len() && (#[trigger] self.items@[j])@ == x;
                            assert(!comes_after(self.items@[j]@, opt_view(cursor)));
                        }
                    }
                    exhausted = true;
                },
                Some(k) => {
                    let ghost old_out = out@;
                    let ghost old_cursor = opt_view(cursor);
                    let ghost x = self.items@[k as int]@;
                    proof {
                        assert(holds(self.items@, x));
                        if out@.len() > 0 {
                            lemma_addr_order(opt_view(start_after)->0, out@.last()@, x);
                            assert(out@.last() == out@[out@.len() - 1]);
                        }
                    }
                    out.push(self.items[k].clone());
                    cursor = Some(&self.items[k]);
                    proof {
                        assert(out@.last()@ == x);
                        assert forall|i: int, j: int| 0 <= i < j < out@.len() implies addr_lt(
                            #[trigger] out@[i]@,
                            #[trigger] out@[j]@,
                        ) by {
                            if j == out@.len() - 1 && i < j {
                                assert(out@[i] == old_out[i]);
                                if i < old_out.len() - 1 {
                                    lemma_addr_order(old_out[i]@, old_out.last()@, x);
                                }
                            } else {
                                assert(out@[i] == old_out[i] && out@[j] == old_out[j]);
                            }
                        }
                        assert forall|i: int| 0 <= i < out@.len() implies self@.contains(
                            #[trigger] out@[i]@,
                        ) && comes_after(out@[i]@, opt_view(start_after)) by {
                            if i < old_out.len() {
                                assert(out@[i] == old_out[i]);
                            }
                        }
                        assert forall|y: Seq<char>|
                            #[trigger] self@.contains(y) && comes_after(y, opt_view(start_after))
                                && !comes_after(y, opt_view(cursor)) implies exists|i: int|
                            0 <= i < out@.len() && (#[trigger] out@[i])@ == y by {
                            if comes_after(y, old_cursor) {
                                let j = choose|j: int| 0 <= j < self.items@.len() && (#[trigger] self.items@[j])@ == y;
                                assert(comes_after(self.items@[j]@, old_cursor));
                                assert(y == x);
                                assert(out@[out@.len() - 1]@ == y);
                            } else {
                                let i = choose|i: int| 0 <= i < old_out.len() && (#[trigger] old_out[i])@ == y;
                                assert(out@[i] == old_out[i]);
                            }
                        }
                    }
                },
            }
        }
        proof {
            assert forall|x: Seq<char>|
                #[trigger] self@.contains(x) && comes_after(x, opt_view(start_after)) implies (exists|i: int|
                0 <= i < out@.len() && (#[trigger] out@[i])@ == x) || (out@.len() == limit && (limit > 0
                ==> addr_lt(out@.last()@, x))) by {
                if comes_after(x, opt_view(cursor)) && out@.len() == 0 {
                    assert(opt_view(cursor) == opt_view(start_after));
                }
            }
        }
        out
    }

    /// The addresses, in the order they were added.
    pub fn to_vec(&self) -> (v: Vec<String>)
        ensures
            Set::new(|a: Seq<char>| holds(v@, a)) == self@,
    {
        let v = self.items.clone();
        assert(v@ =~= self.items@);
        assert(Set::new(|a: Seq<char>| holds(v@, a)) =~= self@);
        v
    }
}

proof fn lemma_holds_push(s: Seq<String>, e: String, x: Seq<char>)
    ensures
        holds(s.push(e), x) <==> (holds(s, x) || e@ == x),
{
    if holds(s, x) {
        let j = choose|j: int| 0 <= j < s.len() && (#[trigger] s[j])@ == x;
        assert(s.push(e)[j] == s[j]);
    }
    if e@ == x {
        assert(s.push(e)[s.len() as int] == e);
    }
    if holds(s.push(e), x) {
        let j = choose|j: int| 0 <= j < s.push(e).len() && (#[trigger] s.push(e)[j])@ == x;
        if j < s.len() {
            assert(s.push(e)[j] == s[j]);
        }
    }
}

} // verus!
