//! An ordered multimap of header names to values.
//!
//! Response and request headers are held as an ordered list of
//! (name, value) pairs: one name may carry several values, and the order of
//! entries is the order in which they will be handed to the host. Names and
//! values are byte strings; whether an entry is representable by the host
//! header encoding is a separate question answered at translation time.

use vstd::prelude::*;

verus! {

/// One header field: a name and one value for it.
#[derive(Debug)]
pub struct HeaderEntry {
    pub name: Vec<u8>,
    pub value: Vec<u8>,
}

impl View for HeaderEntry {
    type V = (Seq<u8>, Seq<u8>);

    open spec fn view(&self) -> (Seq<u8>, Seq<u8>) {
        (self.name@, self.value@)
    }
}

/// Whether some entry of `s` carries the name `name`.
pub open spec fn has_name(s: Seq<(Seq<u8>, Seq<u8>)>, name: Seq<u8>) -> bool {
    exists|i: int| 0 <= i < s.len() && s[i].0 == name
}

/// The entries of `s` whose name is not `name`, in their original order.
pub open spec fn without_name(s: Seq<(Seq<u8>, Seq<u8>)>, name: Seq<u8>) -> Seq<
    (Seq<u8>, Seq<u8>),
>
    decreases s.len(),
{
    if s.len() == 0 {
        s
    } else if s.last().0 == name {
        without_name(s.drop_last(), name)
    } else {
        without_name(s.drop_last(), name).push(s.last())
    }
}

/// The entries of `base` whose name appears nowhere in `fresh`, in their
/// original order.
pub open spec fn without_names(
    base: Seq<(Seq<u8>, Seq<u8>)>,
    fresh: Seq<(Seq<u8>, Seq<u8>)>,
) -> Seq<(Seq<u8>, Seq<u8>)>
    decreases base.len(),
{
    if base.len() == 0 {
        base
    } else if has_name(fresh, base.last().0) {
        without_names(base.drop_last(), fresh)
    } else {
        without_names(base.drop_last(), fresh).push(base.last())
    }
}

/// Compare two byte strings.
pub fn bytes_eq(a: &[u8], b: &[u8]) -> (r: bool)
    ensures
        r == (a@ == b@),
{
    if a.len() != b.len() {
        return false;
    }
    let mut i: usize = 0;
    while i < a.len()
        invariant
            i <= a@.len(),
            a@.len() == b@.len(),
            forall|j: int| 0 <= j < i ==> a@[j] == b@[j],
        decreases a@.len() - i,
    {
        if a[i] != b[i] {
            return false;
        }
        i += 1;
    }
    proof {
        assert(a@ =~= b@);
    }
    true
}

/// Copy a byte buffer.
pub fn copy_bytes(v: &Vec<u8>) -> (r: Vec<u8>)
    ensures
        r@ == v@,
{
    let mut r: Vec<u8> = Vec::new();
    let mut i: usize = 0;
    while i < v.len()
        invariant
            i <= v@.len(),
            r@ == v@.subrange(0, i as int),
        decreases v@.len() - i,
    {
        r.push(v[i]);
        assert(r@ =~= v@.subrange(0, i + 1));
        i += 1;
    }
    assert(r@ =~= v@);
    r
}

/// An ordered header multimap. Entry order is the order of emission to the
/// host; inserting places the (single) new value at the end, appending
/// leaves existing values for the same name intact.
pub struct HeaderMap {
    pub entries: Vec<HeaderEntry>,
}

impl View for HeaderMap {
    type V = Seq<(Seq<u8>, Seq<u8>)>;

    open spec fn view(&self) -> Seq<(Seq<u8>, Seq<u8>)> {
        self.entries@.map_values(|e: HeaderEntry| e@)
    }
}

impl HeaderMap {
    pub fn new() -> (r: HeaderMap)
        ensures
            r@ == Seq::<(Seq<u8>, Seq<u8>)>::empty(),
    {
        let r = HeaderMap { entries: Vec::new() };
        proof {
            assert(r@ =~= Seq::<(Seq<u8>, Seq<u8>)>::empty());
        }
        r
    }

    /// Append a value for a name, leaving any entry with the same name
    /// intact.
    pub fn append(&mut self, name: Vec<u8>, value: Vec<u8>)
        ensures
            final(self)@ == old(self)@.push((name@, value@)),
    {
        let ghost pre = self@;
        let ghost n = name@;
        let ghost v = value@;
        self.entries.push(HeaderEntry { name, value });
        proof {
            assert(self@ =~= pre.push((n, v)));
        }
    }

    /// Insert a value for a name, dropping every previous value held under
    /// the same name; the new entry stands at the end.
    pub fn insert(&mut self, name: Vec<u8>, value: Vec<u8>)
        ensures
            final(self)@ == without_name(old(self)@, name@).push((name@, value@)),
    {
        let ghost all = self@;
        let mut kept: Vec<HeaderEntry> = Vec::new();
        let mut i: usize = 0;
        while i < self.entries.len()
            invariant
                i <= self@.len(),
                self@ == all,
                kept@.map_values(|e: HeaderEntry| e@) == without_name(
                    all.subrange(0, i as int),
                    name@,
                ),
            decreases self@.len() - i,
        {
            let ghost pre = all.subrange(0, i as int);
            proof {
                assert(all.subrange(0, i + 1).drop_last() =~= pre);
                assert(all.subrange(0, i + 1).last() == all[i as int]);
            }
            if !bytes_eq(self.entries[i].name.as_slice(), name.as_slice()) {
                let e = HeaderEntry {
                    name: copy_bytes(&self.entries[i].name),
                    value: copy_bytes(&self.entries[i].value),
                };
                kept.push(e);
                proof {
                    assert(kept@.map_values(|x: HeaderEntry| x@) =~= without_name(pre, name@).push(
                        all[i as int],
                    ));
                }
            }
            i += 1;
        }
        proof {
            assert(all.subrange(0, all.len() as int) =~= all);
        }
        let ghost n = name@;
        let ghost v = value@;
        kept.push(HeaderEntry { name, value });
        self.entries = kept;
        proof {
            assert(self@ =~= without_name(all, n).push((n, v)));
        }
    }

    /// Whether some entry carries this name.
    pub fn contains_name(&self, name: &[u8]) -> (r: bool)
        ensures
            r == has_name(self@, name@),
    {
        let mut i: usize = 0;
        while i < self.entries.len()
            invariant
                i <= self@.len(),
                forall|j: int| 0 <= j < i ==> self@[j].0 != name@,
            decreases self@.len() - i,
        {
            if bytes_eq(self.entries[i].name.as_slice(), name) {
                proof {
                    assert(self@[i as int].0 == name@);
                }
                return true;
            }
            i += 1;
        }
        false
    }

    /// How many entries the map holds.
    pub fn len(&self) -> (r: usize)
        ensures
            r == self@.len(),
    {
        self.entries.len()
    }

    /// Merge another map in, emptying it: every name that `other` carries
    /// loses all its old values here, then all of `other`'s entries are
    /// appended in their order.
    pub fn extend_take(&mut self, other: &mut HeaderMap)
        ensures
            final(self)@ == without_names(old(self)@, old(other)@) + old(other)@,
            final(other)@ == Seq::<(Seq<u8>, Seq<u8>)>::empty(),
    {
        let ghost all = self@;
        let ghost fresh = other@;
        let mut kept: Vec<HeaderEntry> = Vec::new();
        let mut i: usize = 0;
        while i < self.entries.len()
            invariant
                i <= self@.len(),
                self@ == all,
                other@ == fresh,
                kept@.map_values(|e: HeaderEntry| e@) == without_names(
                    all.subrange(0, i as int),
                    fresh,
                ),
            decreases self@.len() - i,
        {
            let ghost pre = all.subrange(0, i as int);
            proof {
                assert(all.subrange(0, i + 1).drop_last() =~= pre);
                assert(all.subrange(0, i + 1).last() == all[i as int]);
            }
            if !other.contains_name(self.entries[i].name.as_slice()) {
                let e = HeaderEntry {
                    name: copy_bytes(&self.entries[i].name),
                    value: copy_bytes(&self.entries[i].value),
                };
                kept.push(e);
                proof {
                    assert(kept@.map_values(|x: HeaderEntry| x@) =~= without_names(
                        pre,
                        fresh,
                    ).push(all[i as int]));
                }
            }
            i += 1;
        }
        proof {
            assert(all.subrange(0, all.len() as int) =~= all);
        }
        let mut j: usize = 0;
        while j < other.entries.len()
            invariant
                j <= other@.len(),
                other@ == fresh,
                kept@.map_values(|e: HeaderEntry| e@) == without_names(all, fresh) + fresh.subrange(
                    0,
                    j as int,
                ),
            decreases other@.len() - j,
        {
            let ghost pre = kept@.map_values(|e: HeaderEntry| e@);
            let e = HeaderEntry {
                name: copy_bytes(&other.entries[j].name),
                value: copy_bytes(&other.entries[j].value),
            };
            kept.push(e);
            proof {
                assert(kept@.map_values(|x: HeaderEntry| x@) =~= pre.push(fresh[j as int]));
                assert(without_names(all, fresh) + fresh.subrange(0, j + 1) =~= (without_names(
                    all,
                    fresh,
                ) + fresh.subrange(0, j as int)).push(fresh[j as int]));
            }
            j += 1;
        }
        proof {
            assert(fresh.subrange(0, fresh.len() as int) =~= fresh);
        }
        self.entries = kept;
        let empty: Vec<HeaderEntry> = Vec::new();
        other.entries = empty;
        proof {
            assert(other@ =~= Seq::<(Seq<u8>, Seq<u8>)>::empty());
        }
    }
}

} // verus!
