//! The order in which listings name keys: by their UTF-8 bytes, which is
//! the order of their code points.
use vstd::prelude::*;
use vstd::utf8::{encode_utf8, encode_utf8_decode_utf8};
use crate::model::{key_views, lists_exactly};

verus! {

/// `a` comes before `b` byte by byte, a proper prefix first.
pub open spec fn bytes_less(a: Seq<u8>, b: Seq<u8>) -> bool
    decreases a.len(),
{
    if b.len() == 0 {
        false
    } else if a.len() == 0 {
        true
    } else if a[0] != b[0] {
        a[0] < b[0]
    } else {
        bytes_less(a.drop_first(), b.drop_first())
    }
}

/// Key `a` comes before key `b`.
pub open spec fn key_less(a: Seq<char>, b: Seq<char>) -> bool {
    bytes_less(encode_utf8(a), encode_utf8(b))
}

/// Each key of `q` comes before every later one.
pub open spec fn ascending(q: Seq<Seq<char>>) -> bool {
    forall|i: int, j: int| 0 <= i < j < q.len() ==> #[trigger] key_less(q[i], q[j])
}

/// The keys of `s` in key order.
pub open spec fn sorted_listing(s: Set<Seq<char>>) -> Seq<Seq<char>> {
    choose|q: Seq<Seq<char>>| ascending(q) && q.to_set() == s
}

/// The entries of `q` from `offset` on, `size` at most.
pub open spec fn window<A>(q: Seq<A>, offset: int, size: int) -> Seq<A> {
    let lo = if offset < q.len() { offset } else { q.len() as int };
    let hi = if offset + size < q.len() { offset + size } else { q.len() as int };
    q.subrange(lo, hi)
}

proof fn lemma_bytes_less_irreflexive(a: Seq<u8>)
    ensures
        !bytes_less(a, a),
    decreases a.len(),
{
    if a.len() > 0 {
        lemma_bytes_less_irreflexive(a.drop_first());
    }
}

proof fn lemma_bytes_less_transitive(a: Seq<u8>, b: Seq<u8>, c: Seq<u8>)
    requires
        bytes_less(a, b),
        bytes_less(b, c),
    ensures
        bytes_less(a, c),
    decreases a.len(),
{
    if a.len() > 0 && b.len() > 0 && c.len() > 0 && a[0] == b[0] && b[0] == c[0] {
        lemma_bytes_less_transitive(a.drop_first(), b.drop_first(), c.drop_first());
    }
}

proof fn lemma_bytes_less_total(a: Seq<u8>, b: Seq<u8>)
    requires
        a != b,
    ensures
        bytes_less(a, b) || bytes_less(b, a),
    decreases a.len(),
{
    if a.len() > 0 && b.len() > 0 && a[0] == b[0] {
        assert(a.drop_first() != b.drop_first()) by {
            if a.drop_first() == b.drop_first() {
                assert(a =~= seq![a[0]] + a.drop_first());
                assert(b =~= seq![b[0]] + b.drop_first());
            }
        }
        lemma_bytes_less_total(a.drop_first(), b.drop_first());
    } else if a.len() == 0 && b.len() == 0 {
        assert(a =~= b);
    }
}

/// No key comes before itself.
pub proof fn lemma_key_less_irreflexive(a: Seq<char>)
    ensures
        !key_less(a, a),
{
    lemma_bytes_less_irreflexive(encode_utf8(a));
}

/// Coming before is transitive.
pub proof fn lemma_key_less_transitive(a: Seq<char>, b: Seq<char>, c: Seq<char>)
    requires
        key_less(a, b),
        key_less(b, c),
    ensures
        key_less(a, c),
{
    lemma_bytes_less_transitive(encode_utf8(a), encode_utf8(b), encode_utf8(c));
}

/// Of two different keys, one comes before the other.
pub proof fn lemma_key_less_total(a: Seq<char>, b: Seq<char>)
    requires
        a != b,
    ensures
        key_less(a, b) || key_less(b, a),
{
    encode_utf8_decode_utf8(a);
    encode_utf8_decode_utf8(b);
    lemma_bytes_less_total(encode_utf8(a), encode_utf8(b));
}

/// An ascending sequence names no key twice.
pub proof fn lemma_ascending_no_duplicates(q: Seq<Seq<char>>)
    requires
        ascending(q),
    ensures
        q.no_duplicates(),
{
    assert forall|i: int, j: int| 0 <= i < q.len() && 0 <= j < q.len() && i != j implies q[i] != q[j] by {
        if i < j {
            assert(key_less(q[i], q[j]));
        } else {
            assert(key_less(q[j], q[i]));
        }
        lemma_key_less_irreflexive(q[i]);
    }
}

/// Two ascending sequences of the same keys are the same sequence.
pub proof fn lemma_ascending_unique(p: Seq<Seq<char>>, q: Seq<Seq<char>>)
    requires
        ascending(p),
        ascending(q),
        p.to_set() == q.to_set(),
    ensures
        p == q,
    decreases p.len(),
{
    if p.len() == 0 {
        if q.len() > 0 {
            assert(q.to_set().contains(q[0]));
        }
        assert(p =~= q);
    } else {
        assert(p.to_set().contains(p[0]));
        assert(q.contains(p[0]));
        let m = choose|m: int| 0 <= m < q.len() && q[m] == p[0];
        assert(p.contains(q[0])) by {
            assert(q.to_set().contains(q[0]));
        }
        let k = choose|k: int| 0 <= k < p.len() && p[k] == q[0];
        if p[0] != q[0] {
            assert(k > 0 && m > 0);
            assert(key_less(p[0], p[k]));
            assert(key_less(q[0], q[m]));
            lemma_key_less_transitive(p[0], q[0], p[0]);
            lemma_key_less_irreflexive(p[0]);
        }
        lemma_ascending_no_duplicates(p);
        lemma_ascending_no_duplicates(q);
        let p1 = p.drop_first();
        let q1 = q.drop_first();
        assert forall|x: Seq<char>| p1.to_set().contains(x) <==> q1.to_set().contains(x) by {
            if p1.to_set().contains(x) {
                let i = choose|i: int| 0 <= i < p1.len() && p1[i] == x;
                assert(p[i + 1] == x);
                assert(p.to_set().contains(x));
                assert(q.contains(x));
                let j = choose|j: int| 0 <= j < q.len() && q[j] == x;
                assert(j != 0);
                assert(q1[j - 1] == x);
            }
            if q1.to_set().contains(x) {
                let j = choose|j: int| 0 <= j < q1.len() && q1[j] == x;
                assert(q[j + 1] == x);
                assert(q.to_set().contains(x));
                assert(p.contains(x));
                let i = choose|i: int| 0 <= i < p.len() && p[i] == x;
                assert(i != 0);
                assert(p1[i - 1] == x);
            }
        }
        assert(p1.to_set() =~= q1.to_set());
        assert(ascending(p1)) by {
            assert forall|i: int, j: int| 0 <= i < j < p1.len() implies #[trigger] key_less(p1[i], p1[j]) by {
                assert(key_less(p[i + 1], p[j + 1]));
            }
        }
        assert(ascending(q1)) by {
            assert forall|i: int, j: int| 0 <= i < j < q1.len() implies #[trigger] key_less(q1[i], q1[j]) by {
                assert(key_less(q[i + 1], q[j + 1]));
            }
        }
        lemma_ascending_unique(p1, q1);
        assert(p =~= q) by {
            assert forall|i: int| 0 <= i < p.len() implies p[i] == q[i] by {
                if i > 0 {
                    assert(p[i] == p1[i - 1]);
                    assert(q[i] == q1[i - 1]);
                }
            }
        }
    }
}

/// An ascending sequence of the keys of `s` is the sorted listing of `s`.
pub proof fn lemma_sorted_listing(q: Seq<Seq<char>>, s: Set<Seq<char>>)
    requires
        ascending(q),
        q.to_set() == s,
    ensures
        sorted_listing(s) == q,
{
    let p = sorted_listing(s);
    assert(ascending(p) && p.to_set() == s);
    lemma_ascending_unique(p, q);
}

/// Inserting `x` at `j`, after every key before it and before every key from
/// `j` on, keeps a sequence ascending.
proof fn lemma_insert_ascending(q: Seq<Seq<char>>, j: int, x: Seq<char>)
    requires
        ascending(q),
        0 <= j <= q.len(),
        forall|p: int| 0 <= p < j ==> #[trigger] key_less(q[p], x),
        forall|p: int| j <= p < q.len() ==> #[trigger] key_less(x, q[p]),
    ensures
        ascending(q.insert(j, x)),
{
    let n = q.insert(j, x);
    assert forall|a: int, b: int| 0 <= a < b < n.len() implies #[trigger] key_less(n[a], n[b]) by {
        if b < j {
            assert(key_less(q[a], q[b]));
        } else if b == j {
            assert(key_less(q[a], x));
        } else if a < j {
            assert(key_less(q[a], q[b - 1]));
        } else if a == j {
            assert(key_less(x, q[b - 1]));
        } else {
            assert(key_less(q[a - 1], q[b - 1]));
        }
    }
}

proof fn lemma_key_views_push(q: Seq<String>, x: String)
    ensures
        key_views(q.push(x)) == key_views(q).push(x@),
{
    assert(key_views(q.push(x)) =~= key_views(q).push(x@));
}

proof fn lemma_to_set_push<A>(q: Seq<A>, x: A)
    ensures
        q.push(x).to_set() == q.to_set().insert(x),
{
    assert(q.push(x) =~= q.insert(q.len() as int, x));
    lemma_to_set_insert(q, q.len() as int, x);
}

proof fn lemma_to_set_insert<A>(q: Seq<A>, j: int, x: A)
    requires
        0 <= j <= q.len(),
    ensures
        q.insert(j, x).to_set() == q.to_set().insert(x),
{
    let n = q.insert(j, x);
    assert forall|y: A| n.contains(y) <==> q.contains(y) || y == x by {
        if n.contains(y) {
            let p = choose|p: int| 0 <= p < n.len() && n[p] == y;
            if p < j {
                assert(q[p] == y);
            } else if p > j {
                assert(q[p - 1] == y);
            }
        }
        if q.contains(y) {
            let p = choose|p: int| 0 <= p < q.len() && q[p] == y;
            if p < j {
                assert(n[p] == y);
            } else {
                assert(n[p + 1] == y);
            }
        }
        if y == x {
            assert(n[j] == y);
        }
    }
    assert(n.to_set() =~= q.to_set().insert(x));
}

/// Whether key `a` comes before key `b`.
pub fn key_before(a: &String, b: &String) -> (r: bool)
    ensures
        r == key_less(a@, b@),
{
    let x = a.as_str().as_bytes();
    let y = b.as_str().as_bytes();
    let mut i: usize = 0;
    assert(x@.subrange(0, x@.len() as int) =~= x@);
    assert(y@.subrange(0, y@.len() as int) =~= y@);
    while i < x.len() && i < y.len()
        invariant
            i <= x@.len(),
            i <= y@.len(),
            x@ == encode_utf8(a@),
            y@ == encode_utf8(b@),
            bytes_less(x@, y@) == bytes_less(
                x@.subrange(i as int, x@.len() as int),
                y@.subrange(i as int, y@.len() as int),
            ),
        decreases x@.len() - i,
    {
        let p = x[i];
        let q = y[i];
        if p != q {
            return p < q;
        }
        assert(x@.subrange(i as int, x@.len() as int).drop_first() =~= x@.subrange(i + 1, x@.len() as int));
        assert(y@.subrange(i as int, y@.len() as int).drop_first() =~= y@.subrange(i + 1, y@.len() as int));
        i = i + 1;
    }
    i < y.len()
}

/// The keys of `keys` in key order.
pub fn sort_keys(keys: &Vec<String>) -> (r: Vec<String>)
    requires
        key_views(keys@).no_duplicates(),
    ensures
        ascending(key_views(r@)),
        lists_exactly(r@, key_views(keys@).to_set()),
        key_views(r@) == sorted_listing(key_views(keys@).to_set()),
{
    let mut out: Vec<String> = Vec::new();
    let mut i: usize = 0;
    while i < keys.len()
        invariant
            i <= keys@.len(),
            out@.len() == i,
            key_views(keys@).no_duplicates(),
            ascending(key_views(out@)),
            key_views(out@).to_set() == key_views(keys@.take(i as int)).to_set(),
        decreases keys@.len() - i,
    {
        let k = keys[i].clone();
        assert(k == keys@[i as int]);
        let ghost before = key_views(out@);
        assert(!before.to_set().contains(k@)) by {
            if before.to_set().contains(k@) {
                assert(key_views(keys@.take(i as int)).contains(k@));
                let p = choose|p: int| 0 <= p < i && key_views(keys@.take(i as int))[p] == k@;
                assert(key_views(keys@)[p] == key_views(keys@)[i as int]);
            }
        }
        let mut j: usize = 0;
        let mut found = false;
        while j < out.len() && !found
            invariant
                j <= out@.len(),
                key_views(out@) == before,
                forall|p: int| 0 <= p < j ==> #[trigger] key_less(before[p], k@),
                found ==> j < out@.len() && !key_less(before[j as int], k@),
            decreases out@.len() - j + (if found { 0int } else { 1int }),
        {
            if key_before(&out[j], &k) {
                j = j + 1;
            } else {
                found = true;
            }
        }
        assert forall|p: int| j <= p < before.len() implies #[trigger] key_less(k@, before[p]) by {
            assert(before.to_set().contains(before[j as int]));
            assert(before[j as int] != k@);
            lemma_key_less_total(before[j as int], k@);
            if p > j {
                assert(key_less(before[j as int], before[p]));
                lemma_key_less_transitive(k@, before[j as int], before[p]);
            }
        }
        proof {
            lemma_insert_ascending(before, j as int, k@);
        }
        out.insert(j, k);
        assert(key_views(out@) =~= before.insert(j as int, k@));
        assert(keys@.take(i + 1) =~= keys@.take(i as int).push(keys@[i as int]));
        assert(key_views(keys@.take(i + 1)) =~= key_views(keys@.take(i as int)).push(k@));
        proof {
            lemma_key_views_push(keys@.take(i as int), k);
            lemma_to_set_push(key_views(keys@.take(i as int)), k@);
            lemma_to_set_insert(before, j as int, k@);
        }
        i = i + 1;
    }
    assert(keys@.take(keys@.len() as int) =~= keys@);
    proof {
        lemma_ascending_no_duplicates(key_views(out@));
        lemma_sorted_listing(key_views(out@), key_views(keys@).to_set());
    }
    out
}

/// The entries of `keys` from `offset` on, `size` at most.
pub fn take_window(keys: &Vec<String>, offset: i64, size: i64) -> (r: Vec<String>)
    requires
        offset >= 0,
        size >= 0,
    ensures
        key_views(r@) == window(key_views(keys@), offset as int, size as int),
{
    let len = keys.len();
    let lo: usize = if (offset as u64) < (len as u64) { offset as usize } else { len };
    let hi: usize = if (offset as u128) + (size as u128) < (len as u128) {
        ((offset as u128) + (size as u128)) as usize
    } else {
        len
    };
    let mut out: Vec<String> = Vec::new();
    let mut i: usize = lo;
    while i < hi
        invariant
            lo <= i <= hi,
            hi <= keys@.len(),
            key_views(out@) == key_views(keys@).subrange(lo as int, i as int),
        decreases hi - i,
    {
        let k = keys[i].clone();
        assert(k == keys@[i as int]);
        let ghost old_out = out@;
        out.push(k);
        proof {
            lemma_key_views_push(old_out, k);
        }
        assert(key_views(out@) =~= key_views(keys@).subrange(lo as int, i + 1));
        i = i + 1;
    }
    assert(key_views(out@) =~= window(key_views(keys@), offset as int, size as int));
    out
}

} // verus!
