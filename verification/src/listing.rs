//! The order of a directory listing.
//!
//! Directories come before files; within each, the entries stand by name, in
//! the order of the names' bytes.

use vstd::prelude::*;
use vstd::utf8::encode_utf8;

verus! {

/// One entry of a directory listing.
#[derive(Debug, PartialEq, Eq)]
pub struct FileEntry {
    pub name: String,
    pub path: String,
    pub content: Option<String>,
    pub is_dir: bool,
}

/// How one entry stands to another in a listing.
#[derive(Debug, Clone, Copy, PartialEq, Eq, Structural)]
pub enum Precedence {
    Before,
    Same,
    After,
}

/// How the bytes `a` stand to the bytes `b`: the first byte in which they
/// differ decides; where neither has one, the shorter comes first.
pub open spec fn byte_order(a: Seq<u8>, b: Seq<u8>) -> Precedence
    decreases a.len(),
{
    if a.len() == 0 {
        if b.len() == 0 {
            Precedence::Same
        } else {
            Precedence::Before
        }
    } else if b.len() == 0 {
        Precedence::After
    } else if a[0] < b[0] {
        Precedence::Before
    } else if a[0] > b[0] {
        Precedence::After
    } else {
        byte_order(a.drop_first(), b.drop_first())
    }
}

/// How an entry with these properties stands to another.
pub open spec fn entry_order(
    a_is_dir: bool,
    a_name: Seq<u8>,
    b_is_dir: bool,
    b_name: Seq<u8>,
) -> Precedence {
    if a_is_dir != b_is_dir {
        if a_is_dir {
            Precedence::Before
        } else {
            Precedence::After
        }
    } else {
        byte_order(a_name, b_name)
    }
}

/// How the bytes of one name stand to those of another.
pub fn compare_bytes(a: &[u8], b: &[u8]) -> (r: Precedence)
    ensures
        r == byte_order(a@, b@),
{
    let mut i: usize = 0;
    assert(a@.skip(0) =~= a@);
    assert(b@.skip(0) =~= b@);
    while i < a.len() && i < b.len()
        invariant
            i <= a.len(),
            i <= b.len(),
            byte_order(a@, b@) == byte_order(a@.skip(i as int), b@.skip(i as int)),
        decreases a.len() - i,
    {
        proof {
            assert(a@.skip(i as int).drop_first() =~= a@.skip(i as int + 1));
            assert(b@.skip(i as int).drop_first() =~= b@.skip(i as int + 1));
        }
        if a[i] < b[i] {
            return Precedence::Before;
        }
        if a[i] > b[i] {
            return Precedence::After;
        }
        i = i + 1;
    }
    if i < b.len() {
        Precedence::Before
    } else if i < a.len() {
        Precedence::After
    } else {
        Precedence::Same
    }
}

/// How one entry stands to another in a listing.
pub fn compare_entries(a: &FileEntry, b: &FileEntry) -> (r: Precedence)
    ensures
        r == entry_order(a.is_dir, encode_utf8(a.name@), b.is_dir, encode_utf8(b.name@)),
{
    if a.is_dir != b.is_dir {
        if a.is_dir {
            Precedence::Before
        } else {
            Precedence::After
        }
    } else {
        compare_bytes(a.name.as_str().as_bytes(), b.name.as_str().as_bytes())
    }
}

/// The order of bytes turns round with its arguments, and two byte strings
/// stand the same only where they are equal.
pub proof fn lemma_byte_order_turns(a: Seq<u8>, b: Seq<u8>)
    ensures
        byte_order(a, b) == Precedence::Before <==> byte_order(b, a) == Precedence::After,
        byte_order(a, b) == Precedence::Same <==> a == b,
    decreases a.len(),
{
    if a.len() > 0 && b.len() > 0 {
        lemma_byte_order_turns(a.drop_first(), b.drop_first());
        if a[0] == b[0] && a.drop_first() == b.drop_first() {
            assert(a =~= seq![a[0]] + a.drop_first());
            assert(b =~= seq![b[0]] + b.drop_first());
        }
    } else if a.len() == 0 && b.len() == 0 {
        assert(a =~= b);
    }
}

/// The order of bytes is transitive.
pub proof fn lemma_byte_order_chains(a: Seq<u8>, b: Seq<u8>, c: Seq<u8>)
    requires
        byte_order(a, b) == Precedence::Before,
        byte_order(b, c) == Precedence::Before,
    ensures
        byte_order(a, c) == Precedence::Before,
    decreases a.len(),
{
    if a.len() > 0 && b.len() > 0 && c.len() > 0 {
        if a[0] == b[0] && b[0] == c[0] {
            lemma_byte_order_chains(a.drop_first(), b.drop_first(), c.drop_first());
        }
    }
}


/// How the entry `a` stands to the entry `b`.
pub open spec fn order_of(a: FileEntry, b: FileEntry) -> Precedence {
    entry_order(a.is_dir, encode_utf8(a.name@), b.is_dir, encode_utf8(b.name@))
}

/// Whether no entry of `s` stands after a later one.
pub open spec fn in_order(s: Seq<FileEntry>) -> bool {
    forall|i: int, j: int| 0 <= i < j < s.len() ==> order_of(s[i], s[j]) != Precedence::After
}

/// The listing `s`, which is in order, with `x` put in: `x` goes behind
/// every entry that does not stand after it.
pub open spec fn put_in(s: Seq<FileEntry>, x: FileEntry) -> Seq<FileEntry>
    decreases s.len(),
{
    if s.len() > 0 && order_of(s.last(), x) == Precedence::After {
        put_in(s.drop_last(), x).push(s.last())
    } else {
        s.push(x)
    }
}

/// The entries of `s` in the order of a listing. Entries that stand the same
/// keep the order in which they came.
pub open spec fn listed(s: Seq<FileEntry>) -> Seq<FileEntry>
    decreases s.len(),
{
    if s.len() == 0 {
        Seq::empty()
    } else {
        put_in(listed(s.drop_last()), s.last())
    }
}

/// The order of entries turns round with its arguments.
pub proof fn lemma_order_turns(a: FileEntry, b: FileEntry)
    ensures
        order_of(a, b) == Precedence::Before <==> order_of(b, a) == Precedence::After,
        order_of(a, b) == Precedence::Same <==> order_of(b, a) == Precedence::Same,
{
    lemma_byte_order_turns(encode_utf8(a.name@), encode_utf8(b.name@));
    lemma_byte_order_turns(encode_utf8(b.name@), encode_utf8(a.name@));
}

/// Where `a` does not stand after `b`, nor `b` after `c`, `a` does not stand
/// after `c`.
pub proof fn lemma_order_chains(a: FileEntry, b: FileEntry, c: FileEntry)
    requires
        order_of(a, b) != Precedence::After,
        order_of(b, c) != Precedence::After,
    ensures
        order_of(a, c) != Precedence::After,
{
    let x = encode_utf8(a.name@);
    let y = encode_utf8(b.name@);
    let z = encode_utf8(c.name@);
    lemma_byte_order_turns(x, y);
    lemma_byte_order_turns(y, z);
    lemma_byte_order_turns(x, z);
    lemma_byte_order_turns(y, x);
    lemma_byte_order_turns(z, y);
    if a.is_dir == b.is_dir && b.is_dir == c.is_dir {
        if byte_order(x, y) == Precedence::Before && byte_order(y, z) == Precedence::Before {
            lemma_byte_order_chains(x, y, z);
        }
    }
}

/// Putting an entry into a listing at the place where it belongs.
proof fn lemma_put_in_place(s: Seq<FileEntry>, x: FileEntry, p: int)
    requires
        0 <= p <= s.len(),
        forall|k: int| p <= k < s.len() ==> order_of(s[k], x) == Precedence::After,
        p > 0 ==> order_of(s[p - 1], x) != Precedence::After,
    ensures
        put_in(s, x) == s.insert(p, x),
    decreases s.len() - p,
{
    if p == s.len() {
        assert(s.insert(p, x) =~= s.push(x));
    } else {
        let shorter = s.drop_last();
        assert(order_of(s[s.len() - 1], x) == Precedence::After);
        assert forall|k: int| p <= k < shorter.len() implies order_of(shorter[k], x)
            == Precedence::After by {
            assert(shorter[k] == s[k]);
        }
        if p > 0 {
            assert(shorter[p - 1] == s[p - 1]);
        }
        lemma_put_in_place(shorter, x, p);
        assert(shorter.insert(p, x).push(s.last()) =~= s.insert(p, x));
    }
}

/// An entry that is put into a listing stands where it belongs: the result
/// holds the same entries and the new one, and is in order where the listing
/// was.
pub proof fn lemma_put_in(s: Seq<FileEntry>, x: FileEntry)
    requires
        in_order(s),
    ensures
        in_order(put_in(s, x)),
        put_in(s, x).to_multiset() == s.to_multiset().insert(x),
        put_in(s, x).len() == s.len() + 1,
    decreases s.len(),
{
    broadcast use vstd::seq_lib::group_to_multiset_ensures;

    if s.len() > 0 && order_of(s.last(), x) == Precedence::After {
        let shorter = s.drop_last();
        let last = s.last();
        assert forall|i: int, j: int| 0 <= i < j < shorter.len() implies order_of(
            shorter[i],
            shorter[j],
        ) != Precedence::After by {
            assert(shorter[i] == s[i] && shorter[j] == s[j]);
        }
        lemma_put_in(shorter, x);
        let inner = put_in(shorter, x);
        let r = inner.push(last);
        assert(s =~= shorter.push(last));
        assert forall|i: int, j: int| 0 <= i < j < r.len() implies order_of(r[i], r[j])
            != Precedence::After by {
            if j < inner.len() {
                assert(r[i] == inner[i] && r[j] == inner[j]);
            } else {
                assert(r[j] == last);
                assert(r[i] == inner[i]);
                // Every entry of `inner` is `x` or an entry of `shorter`.
                assert(inner.to_multiset().count(inner[i]) > 0);
                if inner[i] == x {
                    lemma_order_turns(last, x);
                } else {
                    assert(shorter.to_multiset().count(inner[i]) > 0);
                    let k = choose|k: int| 0 <= k < shorter.len() && shorter[k] == inner[i];
                    assert(s[k] == inner[i]);
                    assert(order_of(s[k], s[s.len() - 1]) != Precedence::After);
                }
            }
        }
    } else {
        let r = s.push(x);
        assert forall|i: int, j: int| 0 <= i < j < r.len() implies order_of(r[i], r[j])
            != Precedence::After by {
            if j < s.len() {
                assert(r[i] == s[i] && r[j] == s[j]);
            } else {
                assert(r[i] == s[i]);
                if i < s.len() - 1 {
                    assert(order_of(s[i], s[s.len() - 1]) != Precedence::After);
                    lemma_order_chains(s[i], s.last(), x);
                }
            }
        }
    }
}

/// A listing is in order and holds the entries it was made of, each as often
/// as it was given.
pub proof fn lemma_listed(s: Seq<FileEntry>)
    ensures
        in_order(listed(s)),
        listed(s).to_multiset() == s.to_multiset(),
        listed(s).len() == s.len(),
    decreases s.len(),
{
    broadcast use vstd::seq_lib::group_to_multiset_ensures;

    if s.len() > 0 {
        lemma_listed(s.drop_last());
        lemma_put_in(listed(s.drop_last()), s.last());
        assert(s =~= s.drop_last().push(s.last()));
    }
}

/// Puts the entries in the order of a listing.
pub fn sort_entries(entries: Vec<FileEntry>) -> (r: Vec<FileEntry>)
    ensures
        r@ == listed(entries@),
{
    let mut input = entries;
    let mut out: Vec<FileEntry> = Vec::new();
    let ghost total = input@;
    let ghost mut done: int = 0;
    assert(total.take(0) =~= Seq::<FileEntry>::empty());
    assert(total.skip(0) =~= total);
    while input.len() > 0
        invariant
            0 <= done <= total.len(),
            input@ == total.skip(done),
            out@ == listed(total.take(done)),
        decreases input.len(),
    {
        let x = input.remove(0);
        proof {
            lemma_listed(total.take(done));
            assert(x == total[done]);
            assert(total.take(done + 1).drop_last() =~= total.take(done));
            assert(total.take(done + 1).last() == total[done]);
            assert(input@ =~= total.skip(done + 1));
        }
        let mut p: usize = out.len();
        while p > 0 && is_after(&out[p - 1], &x)
            invariant
                p <= out.len(),
                forall|k: int| p <= k < out.len() ==> order_of(out@[k], x) == Precedence::After,
            decreases p,
        {
            p = p - 1;
        }
        proof {
            lemma_put_in_place(out@, x, p as int);
        }
        out.insert(p, x);
        proof {
            done = done + 1;
        }
    }
    assert(total.take(done) =~= total);
    out
}

/// Whether `a` stands after `b`.
pub fn is_after(a: &FileEntry, b: &FileEntry) -> (r: bool)
    ensures
        r == (order_of(*a, *b) == Precedence::After),
{
    match compare_entries(a, b) {
        Precedence::After => true,
        _ => false,
    }
}

} // verus!
