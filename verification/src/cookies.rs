//! The cookie-header parser the service uses: entries separated by `&`,
//! each `name=value`; an entry without a value is dropped rather than
//! refused, of an entry with several `=` the first two segments count,
//! and of entries sharing a name the last one wins.

use vstd::prelude::*;

use crate::bytes::{bytes_clone, bytes_eq, spec_split, split_bytes};

verus! {

/// The (name, value) pairs of a cookie string.
pub open spec fn pairs_of(parts: Seq<Seq<u8>>) -> Seq<(Seq<u8>, Seq<u8>)>
    decreases parts.len(),
{
    if parts.len() == 0 {
        Seq::empty()
    } else {
        let rest = pairs_of(parts.drop_first());
        let kv = spec_split(parts[0], 0x3d);
        if kv.len() >= 2 {
            seq![(kv[0], kv[1])] + rest
        } else {
            rest
        }
    }
}

/// What parsing a cookie string yields.
pub open spec fn spec_parse_cookies(s: Seq<u8>) -> Seq<(Seq<u8>, Seq<u8>)> {
    pairs_of(spec_split(s, 0x26))
}

/// The parsed cookies, in order of appearance.
#[derive(Debug)]
pub struct CookieJar {
    pub pairs: Vec<(Vec<u8>, Vec<u8>)>,
}

impl CookieJar {
    /// The pairs, as the mathematical pair sequence.
    pub open spec fn view_pairs(self) -> Seq<(Seq<u8>, Seq<u8>)> {
        self.pairs@.map_values(|p: (Vec<u8>, Vec<u8>)| (p.0@, p.1@))
    }

    /// The value of the last cookie named `name`: a later entry with the
    /// same name overrides an earlier one.
    pub fn get(&self, name: &Vec<u8>) -> (r: Option<Vec<u8>>)
        ensures
            r is Some <==> exists|i: int|
                0 <= i < self.view_pairs().len() && (#[trigger] self.view_pairs()[i]).0 == name@,
            r matches Some(v) ==> exists|i: int|
                0 <= i < self.view_pairs().len() && (#[trigger] self.view_pairs()[i]).0 == name@
                    && self.view_pairs()[i].1 == v@ && (forall|j: int|
                    i < j < self.view_pairs().len() ==> (#[trigger] self.view_pairs()[j]).0
                        != name@),
    {
        let n = self.pairs.len();
        let mut i: usize = n;
        while i > 0
            invariant
                0 <= i <= n,
                n == self.pairs@.len(),
                forall|j: int| i <= j < n ==> (#[trigger] self.view_pairs()[j]).0 != name@,
            decreases i,
        {
            let k = i - 1;
            if bytes_eq(&self.pairs[k].0, name) {
                let v = bytes_clone(&self.pairs[k].1);
                proof {
                    assert(self.view_pairs()[k as int].0 == name@);
                    assert(self.view_pairs()[k as int].1 == v@);
                }
                return Some(v);
            }
            proof {
                assert(self.view_pairs()[k as int].0 == self.pairs@[k as int].0@);
            }
            i = k;
        }
        None
    }
}

/// Parse a cookie string into its (name, value) pairs.
pub fn parse(cookies: &Vec<u8>) -> (r: CookieJar)
    ensures
        r.view_pairs() == spec_parse_cookies(cookies@),
{
    let parts = split_bytes(cookies, 0x26);
    let ghost full = spec_split(cookies@, 0x26);
    let n = parts.len();
    let mut jar: Vec<(Vec<u8>, Vec<u8>)> = Vec::new();
    let mut i: usize = 0;
    proof {
        assert(parts@.map_values(|p: Vec<u8>| p@) =~= full) by {
            assert forall|k: int|
                0 <= k < parts@.len() implies parts@.map_values(|p: Vec<u8>| p@)[k] == full[k] by {
                assert(parts@[k]@ == full[k]);
            }
        }
        assert(full.skip(0) =~= full);
    }
    while i < n
        invariant
            0 <= i <= n,
            n == parts@.len(),
            n == full.len(),
            forall|k: int| 0 <= k < n ==> #[trigger] parts@[k]@ == full[k],
            pairs_of(full) == jar@.map_values(|p: (Vec<u8>, Vec<u8>)| (p.0@, p.1@)) + pairs_of(
                full.skip(i as int),
            ),
        decreases n - i,
    {
        let ghost tail = full.skip(i as int);
        let ghost done = jar@.map_values(|p: (Vec<u8>, Vec<u8>)| (p.0@, p.1@));
        let mut kv = split_bytes(&parts[i], 0x3d);
        proof {
            assert(tail[0] == full[i as int]);
            assert(tail.drop_first() =~= full.skip(i as int + 1));
            assert(parts@[i as int]@ == full[i as int]);
        }
        if kv.len() >= 2 {
            let name = kv.remove(0);
            let value = kv.remove(0);
            proof {
                let skv = spec_split(full[i as int], 0x3d);
                assert(name@ == skv[0]);
                assert(value@ == skv[1]);
                assert(pairs_of(tail) =~= seq![(skv[0], skv[1])] + pairs_of(
                    full.skip(i as int + 1),
                ));
            }
            jar.push((name, value));
            proof {
                assert(jar@.map_values(|p: (Vec<u8>, Vec<u8>)| (p.0@, p.1@)) =~= done.push(
                    (spec_split(full[i as int], 0x3d)[0], spec_split(full[i as int], 0x3d)[1]),
                ));
                assert((done + pairs_of(tail)) =~= (jar@.map_values(
                    |p: (Vec<u8>, Vec<u8>)| (p.0@, p.1@),
                ) + pairs_of(full.skip(i as int + 1))));
            }
        } else {
            proof {
                let skv = spec_split(full[i as int], 0x3d);
                assert(skv.len() < 2);
                assert(pairs_of(tail) =~= pairs_of(full.skip(i as int + 1)));
            }
        }
        i += 1;
    }
    proof {
        assert(full.skip(n as int).len() == 0);
        assert(pairs_of(full.skip(n as int)) =~= Seq::<(Seq<u8>, Seq<u8>)>::empty());
        assert(pairs_of(full) =~= jar@.map_values(|p: (Vec<u8>, Vec<u8>)| (p.0@, p.1@)));
    }
    CookieJar { pairs: jar }
}

} // verus!
