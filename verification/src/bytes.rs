//! Small verified helpers on byte vectors.

use vstd::prelude::*;

verus! {

/// Content equality of two byte vectors.
pub fn bytes_eq(a: &Vec<u8>, b: &Vec<u8>) -> (r: bool)
    ensures
        r == (a@ == b@),
{
    let r = a == b;
    proof {
        if a@.len() == b@.len() && (forall|i: int| 0 <= i < a@.len() ==> a@[i] == b@[i]) {
            assert(a@ =~= b@);
        }
    }
    r
}

/// A fresh vector holding `v[from..to]`.
pub fn bytes_range(v: &Vec<u8>, from: usize, to: usize) -> (r: Vec<u8>)
    requires
        0 <= from <= to <= v@.len(),
    ensures
        r@ == v@.subrange(from as int, to as int),
{
    let mut r: Vec<u8> = Vec::new();
    let mut i: usize = from;
    while i < to
        invariant
            from <= i <= to <= v@.len(),
            r@ == v@.subrange(from as int, i as int),
        decreases to - i,
    {
        r.push(v[i]);
        proof {
            assert(r@ =~= v@.subrange(from as int, i as int + 1));
        }
        i += 1;
    }
    r
}

/// A fresh copy of `v`.
pub fn bytes_clone(v: &Vec<u8>) -> (r: Vec<u8>)
    ensures
        r@ == v@,
{
    let r = bytes_range(v, 0, v.len());
    proof {
        assert(v@.subrange(0, v@.len() as int) =~= v@);
    }
    r
}

/// `a` followed by `b`.
pub fn bytes_concat(a: &Vec<u8>, b: &Vec<u8>) -> (r: Vec<u8>)
    ensures
        r@ == a@ + b@,
{
    let mut r = bytes_clone(a);
    let mut i: usize = 0;
    while i < b.len()
        invariant
            0 <= i <= b@.len(),
            r@ == a@ + b@.subrange(0, i as int),
        decreases b@.len() - i,
    {
        r.push(b[i]);
        proof {
            assert(r@ =~= a@ + b@.subrange(0, i as int + 1));
        }
        i += 1;
    }
    proof {
        assert(a@ + b@.subrange(0, b@.len() as int) =~= a@ + b@);
    }
    r
}

/// A fresh copy of a vector of byte vectors, equal element by element.
pub fn bytes_vec_clone(v: &Vec<Vec<u8>>) -> (r: Vec<Vec<u8>>)
    ensures
        r@.len() == v@.len(),
        forall|i: int| 0 <= i < v@.len() ==> #[trigger] r@[i]@ == v@[i]@,
{
    let mut r: Vec<Vec<u8>> = Vec::new();
    let mut i: usize = 0;
    while i < v.len()
        invariant
            0 <= i <= v@.len(),
            r@.len() == i,
            forall|j: int| 0 <= j < i ==> #[trigger] r@[j]@ == v@[j]@,
        decreases v@.len() - i,
    {
        r.push(bytes_clone(&v[i]));
        i += 1;
    }
    r
}

/// Index of the first occurrence of `sep` in `s`.
pub open spec fn first_index_of(s: Seq<u8>, sep: u8) -> Option<int>
    decreases s.len(),
{
    if s.len() == 0 {
        None
    } else if s[0] == sep {
        Some(0int)
    } else {
        match first_index_of(s.drop_first(), sep) {
            None => None,
            Some(i) => Some(i + 1),
        }
    }
}

/// What [`first_index_of`] returns: the first occurrence, or a guarantee
/// that the byte does not occur.
pub proof fn lemma_first_index_of(s: Seq<u8>, sep: u8)
    ensures
        match first_index_of(s, sep) {
            Some(i) => {
                &&& 0 <= i < s.len()
                &&& s[i] == sep
                &&& forall|j: int| 0 <= j < i ==> s[j] != sep
            },
            None => forall|j: int| 0 <= j < s.len() ==> s[j] != sep,
        },
    decreases s.len(),
{
    if s.len() != 0 && s[0] != sep {
        lemma_first_index_of(s.drop_first(), sep);
        assert forall|j: int| 1 <= j < s.len() implies s[j] == s.drop_first()[j - 1] by {
            assert(s.drop_first()[j - 1] == s[j]);
        }
    }
}

/// The converse: knowing where the first occurrence is pins
/// [`first_index_of`] down.
pub proof fn lemma_first_index_at(s: Seq<u8>, sep: u8, i: int)
    requires
        0 <= i < s.len(),
        s[i] == sep,
        forall|j: int| 0 <= j < i ==> s[j] != sep,
    ensures
        first_index_of(s, sep) == Some(i),
    decreases i,
{
    if i > 0 {
        assert forall|j: int| 0 <= j < i - 1 implies s.drop_first()[j] != sep by {
            assert(s.drop_first()[j] == s[j + 1]);
        }
        assert(s.drop_first()[i - 1] == s[i]);
        lemma_first_index_at(s.drop_first(), sep, i - 1);
    }
}

/// And absence pins it to `None`.
pub proof fn lemma_first_index_none(s: Seq<u8>, sep: u8)
    requires
        forall|j: int| 0 <= j < s.len() ==> s[j] != sep,
    ensures
        first_index_of(s, sep) is None,
    decreases s.len(),
{
    if s.len() != 0 {
        assert forall|j: int| 0 <= j < s.drop_first().len() implies s.drop_first()[j] != sep by {
            assert(s.drop_first()[j] == s[j + 1]);
        }
        lemma_first_index_none(s.drop_first(), sep);
    }
}

/// `s` split at every occurrence of `sep`: the segments between
/// separators, in order, empty segments kept.
pub open spec fn spec_split(s: Seq<u8>, sep: u8) -> Seq<Seq<u8>>
    decreases s.len(),
{
    match first_index_of(s, sep) {
        None => seq![s],
        Some(i) => if 0 <= i < s.len() {
            seq![s.subrange(0, i)] + spec_split(s.skip(i + 1), sep)
        } else {
            seq![s]
        },
    }
}

/// Split `v` at every occurrence of `sep`.
pub fn split_bytes(v: &Vec<u8>, sep: u8) -> (r: Vec<Vec<u8>>)
    ensures
        r@.len() == spec_split(v@, sep).len(),
        forall|i: int| 0 <= i < r@.len() ==> #[trigger] r@[i]@ == spec_split(v@, sep)[i],
{
    let n = v.len();
    let mut parts: Vec<Vec<u8>> = Vec::new();
    let mut start: usize = 0;
    let mut j: usize = 0;
    proof {
        assert(v@.skip(0) =~= v@);
    }
    while j < n
        invariant
            0 <= start <= j <= n,
            n == v@.len(),
            forall|k: int| start <= k < j ==> v@[k] != sep,
            ({
                let rest = spec_split(v@.skip(start as int), sep);
                &&& spec_split(v@, sep).len() == parts@.len() + rest.len()
                &&& (forall|i: int|
                    0 <= i < parts@.len() ==> #[trigger] parts@[i]@ == spec_split(v@, sep)[i])
                &&& (forall|i: int|
                    0 <= i < rest.len() ==> #[trigger] rest[i] == spec_split(v@, sep)[
                        parts@.len() + i
                    ])
            }),
        decreases n - j,
    {
        if v[j] == sep {
            let part = bytes_range(v, start, j);
            proof {
                let tail = v@.skip(start as int);
                let rest = spec_split(tail, sep);
                let tail2 = v@.skip(j as int + 1);
                let rest2 = spec_split(tail2, sep);
                assert forall|k: int| 0 <= k < j - start implies tail[k] != sep by {
                    assert(tail[k] == v@[start + k]);
                }
                assert(tail[j - start] == v@[j as int]);
                lemma_first_index_at(tail, sep, j - start);
                assert(tail.skip(j - start + 1) =~= tail2);
                assert(rest =~= seq![tail.subrange(0, j - start)] + rest2);
                assert(part@ =~= tail.subrange(0, j - start));
                assert(rest[0] == part@);
                assert(part@ == spec_split(v@, sep)[parts@.len() as int]);
                assert forall|i: int|
                    0 <= i < rest2.len() implies #[trigger] rest2[i] == spec_split(v@, sep)[
                    parts@.len() + 1 + i] by {
                    assert(rest2[i] == rest[i + 1]);
                }
            }
            parts.push(part);
            start = j + 1;
        }
        j += 1;
    }
    let last = bytes_range(v, start, n);
    let ghost pre = parts@;
    proof {
        let tail = v@.skip(start as int);
        assert forall|k: int| 0 <= k < tail.len() implies tail[k] != sep by {
            assert(tail[k] == v@[start + k]);
        }
        lemma_first_index_none(tail, sep);
        assert(tail =~= v@.subrange(start as int, n as int));
        assert(spec_split(tail, sep) == seq![tail]);
        assert(last@ == tail);
        assert(spec_split(v@.skip(start as int), sep)[0] == tail);
        assert(last@ == spec_split(v@, sep)[pre.len() as int]);
    }
    parts.push(last);
    proof {
        assert forall|i: int|
            0 <= i < parts@.len() implies #[trigger] parts@[i]@ == spec_split(v@, sep)[i] by {
            if i < pre.len() {
                assert(parts@[i] == pre[i]);
            } else {
                assert(parts@[i] == last);
            }
        }
    }
    parts
}

/// Whether `v` contains an element whose content equals `x`.
pub open spec fn spec_contains_bytes(v: Seq<Vec<u8>>, x: Seq<u8>) -> bool {
    exists|i: int| 0 <= i < v.len() && #[trigger] v[i]@ == x
}

/// Exec mirror of [`spec_contains_bytes`].
pub fn contains_bytes(v: &Vec<Vec<u8>>, x: &Vec<u8>) -> (r: bool)
    ensures
        r == spec_contains_bytes(v@, x@),
{
    let mut i: usize = 0;
    while i < v.len()
        invariant
            0 <= i <= v@.len(),
            forall|j: int| 0 <= j < i ==> #[trigger] v@[j]@ != x@,
        decreases v@.len() - i,
    {
        if bytes_eq(&v[i], x) {
            return true;
        }
        i += 1;
    }
    false
}

} // verus!
