//! Parameters by name: a list of names and values that is kept in the order
//! of the names, each name once.

use vstd::prelude::*;
use vstd::string::StringSliceAdditionalSpecFns;
use vstd::utf8::encode_utf8;

verus! {

/// Whether bytes come before other bytes in the order of dictionaries: at
/// the first place where they differ the lesser byte decides, and what ends
/// first comes first.
pub open spec fn bytes_less(a: Seq<u8>, b: Seq<u8>) -> bool
    decreases a.len(),
{
    if b.len() == 0 {
        false
    } else if a.len() == 0 {
        true
    } else if a[0] != b[0] {
        a[0] < b[0]
    } else {
        bytes_less(a.drop_first(), b.drop_first())
    }
}

/// The order is transitive.
pub proof fn lemma_less_transitive(a: Seq<u8>, b: Seq<u8>, c: Seq<u8>)
    requires
        bytes_less(a, b),
        bytes_less(b, c),
    ensures
        bytes_less(a, c),
    decreases a.len(),
{
    if a.len() > 0 && a[0] == b[0] && b[0] == c[0] {
        lemma_less_transitive(a.drop_first(), b.drop_first(), c.drop_first());
    }
}

/// Nothing comes before itself.
pub proof fn lemma_less_irreflexive(a: Seq<u8>)
    ensures
        !bytes_less(a, a),
    decreases a.len(),
{
    if a.len() > 0 {
        lemma_less_irreflexive(a.drop_first());
    }
}

/// Of two different texts one comes before the other, and never both.
pub proof fn lemma_less_total(a: Seq<u8>, b: Seq<u8>)
    ensures
        a == b || bytes_less(a, b) || bytes_less(b, a),
        !(bytes_less(a, b) && bytes_less(b, a)),
        !bytes_less(a, a),
    decreases a.len(),
{
    lemma_less_irreflexive(a);
    if a.len() > 0 && b.len() > 0 {
        lemma_less_total(a.drop_first(), b.drop_first());
        if a[0] == b[0] && a.drop_first() == b.drop_first() {
            assert(a.len() == b.len()) by {
                assert(a.drop_first().len() == a.len() - 1);
                assert(b.drop_first().len() == b.len() - 1);
            }
            assert forall|i: int| 0 <= i < a.len() implies a[i] == b[i] by {
                if i > 0 {
                    assert(a[i] == a.drop_first()[i - 1]);
                    assert(b[i] == b.drop_first()[i - 1]);
                }
            }
            assert(a =~= b);
        }
    } else if a.len() == 0 && b.len() == 0 {
        assert(a =~= b);
    }
}

/// How two texts stand to each other.
#[derive(Clone, Copy, Debug, PartialEq, Eq, Structural)]
pub enum Order {
    Before,
    Same,
    After,
}

/// Compares two texts byte by byte.
pub fn compare(a: &str, b: &str) -> (order: Order)
    ensures
        order == (if bytes_less(a.spec_bytes(), b.spec_bytes()) {
            Order::Before
        } else if a.spec_bytes() == b.spec_bytes() {
            Order::Same
        } else {
            Order::After
        }),
{
    let x: &[u8] = a.as_bytes();
    let y: &[u8] = b.as_bytes();
    let mut i: usize = 0;
    proof {
        assert(x@.skip(0) =~= x@);
        assert(y@.skip(0) =~= y@);
    }
    while i < x.len() && i < y.len()
        invariant
            i <= x.len(),
            i <= y.len(),
            x@ == a.spec_bytes(),
            y@ == b.spec_bytes(),
            x@.take(i as int) == y@.take(i as int),
            bytes_less(x@, y@) == bytes_less(x@.skip(i as int), y@.skip(i as int)),
        decreases x.len() - i,
    {
        proof {
            assert(x@.skip(i as int).drop_first() =~= x@.skip(i + 1));
            assert(y@.skip(i as int).drop_first() =~= y@.skip(i + 1));
            assert(x@.skip(i as int)[0] == x@[i as int]);
            assert(y@.skip(i as int)[0] == y@[i as int]);
        }
        if x[i] < y[i] {
            return Order::Before;
        }
        if x[i] > y[i] {
            proof {
                assert(x@ != y@);
            }
            return Order::After;
        }
        proof {
            assert(x@.take(i + 1) =~= x@.take(i as int).push(x@[i as int]));
            assert(y@.take(i + 1) =~= y@.take(i as int).push(y@[i as int]));
        }
        i = i + 1;
    }
    proof {
        if i == x.len() && i == y.len() {
            assert(x@.take(i as int) =~= x@);
            assert(y@.take(i as int) =~= y@);
        } else if i == x.len() {
            assert(x@.skip(i as int).len() == 0);
            assert(y@.skip(i as int).len() > 0);
            assert(x@.len() != y@.len());
        } else {
            assert(y@.skip(i as int).len() == 0);
            assert(x@.len() != y@.len());
        }
    }
    if x.len() < y.len() {
        Order::Before
    } else if x.len() == y.len() {
        Order::Same
    } else {
        Order::After
    }
}

/// The bytes of the name of an entry.
pub open spec fn name_bytes(entry: (String, String)) -> Seq<u8> {
    encode_utf8(entry.0@)
}

/// Whether the entries stand in the order of their names, each name once.
pub open spec fn in_order(entries: Seq<(String, String)>) -> bool {
    forall|i: int, j: int|
        0 <= i < j < entries.len() ==> bytes_less(name_bytes(entries[i]), name_bytes(entries[j]))
}

/// Whether `place` is where a name belongs among entries in order: the
/// names before it come before the name, the names from it on do not.
pub open spec fn is_place(entries: Seq<(String, String)>, name: Seq<u8>, place: int) -> bool {
    &&& 0 <= place <= entries.len()
    &&& forall|k: int| 0 <= k < place ==> bytes_less(name_bytes(#[trigger] entries[k]), name)
    &&& forall|k: int|
        place <= k < entries.len() ==> !bytes_less(name_bytes(#[trigger] entries[k]), name)
}

/// Where a name belongs among entries in order.
pub open spec fn place_of(entries: Seq<(String, String)>, name: Seq<u8>) -> int {
    choose|place: int| is_place(entries, name, place)
}

/// A name has one place and no other.
pub proof fn lemma_place_is_unique(entries: Seq<(String, String)>, name: Seq<u8>, place: int)
    requires
        is_place(entries, name, place),
    ensures
        place_of(entries, name) == place,
{
    let other = place_of(entries, name);
    if other < place {
        assert(bytes_less(name_bytes(entries[other]), name));
    }
    if other > place {
        assert(bytes_less(name_bytes(entries[place]), name));
    }
}

/// Parameters in the order of their names.
#[derive(Clone, Debug, PartialEq, Eq)]
pub struct SortedParams {
    entries: Vec<(String, String)>,
}

impl SortedParams {
    /// The entries, in order.
    pub closed spec fn entries(&self) -> Seq<(String, String)> {
        self.entries@
    }

    pub open spec fn well_formed(&self) -> bool {
        in_order(self.entries())
    }

    pub fn new() -> (params: SortedParams)
        ensures
            params.well_formed(),
            params.entries() == Seq::<(String, String)>::empty(),
    {
        SortedParams { entries: Vec::new() }
    }

    pub fn len(&self) -> (len: usize)
        ensures
            len == self.entries().len(),
    {
        self.entries.len()
    }

    /// The entries, in the order of their names.
    pub fn as_vec(&self) -> (entries: &Vec<(String, String)>)
        ensures
            entries@ == self.entries(),
    {
        &self.entries
    }

    fn find(&self, name: &str) -> (place: usize)
        requires
            self.well_formed(),
        ensures
            is_place(self.entries(), name.spec_bytes(), place as int),
            place_of(self.entries(), name.spec_bytes()) == place,
    {
        let mut i: usize = 0;
        while i < self.entries.len()
            invariant
                i <= self.entries.len(),
                self.well_formed(),
                forall|k: int|
                    0 <= k < i ==> bytes_less(
                        name_bytes(#[trigger] self.entries@[k]),
                        name.spec_bytes(),
                    ),
            decreases self.entries.len() - i,
        {
            match compare(self.entries[i].0.as_str(), name) {
                Order::Before => {},
                _ => {
                    proof {
                        let here = name_bytes(self.entries@[i as int]);
                        assert forall|k: int| i <= k < self.entries@.len() implies !bytes_less(
                            name_bytes(#[trigger] self.entries@[k]),
                            name.spec_bytes(),
                        ) by {
                            if k > i && bytes_less(name_bytes(self.entries@[k]), name.spec_bytes()) {
                                lemma_less_transitive(
                                    here,
                                    name_bytes(self.entries@[k]),
                                    name.spec_bytes(),
                                );
                            }
                        }
                        lemma_place_is_unique(self.entries(), name.spec_bytes(), i as int);
                    }
                    return i;
                },
            }
            i = i + 1;
        }
        proof {
            lemma_place_is_unique(self.entries(), name.spec_bytes(), i as int);
        }
        i
    }

    /// The value under a name, if there is one.
    pub fn get(&self, name: &str) -> (value: Option<&String>)
        requires
            self.well_formed(),
        ensures
            ({
                let place = place_of(self.entries(), name.spec_bytes());
                if place < self.entries().len() && self.entries()[place].0@ == name@ {
                    value == Some(&self.entries()[place].1)
                } else {
                    value is None && forall|k: int|
                        0 <= k < self.entries().len() ==> (#[trigger] self.entries()[k]).0@ != name@
                }
            }),
    {
        let place: usize = self.find(name);
        proof {
            vstd::utf8::encode_utf8_decode_utf8(name@);
            if place < self.entries.len() {
                vstd::utf8::encode_utf8_decode_utf8(self.entries@[place as int].0@);
            }
            assert forall|k: int|
                0 <= k < self.entries().len() && k != place implies (#[trigger] self.entries()[k]).0@
                != name@ by {
                lemma_less_total(name.spec_bytes(), name.spec_bytes());
                if k < place {
                } else {
                    let here = name_bytes(self.entries()[place as int]);
                    lemma_less_total(here, name.spec_bytes());
                    if self.entries()[k].0@ == name@ {
                        assert(bytes_less(here, name_bytes(self.entries()[k])));
                    }
                }
            }
        }
        if place < self.entries.len() {
            match compare(self.entries[place].0.as_str(), name) {
                Order::Same => Some(&self.entries[place].1),
                _ => None,
            }
        } else {
            None
        }
    }

    /// Puts a value under a name: in place of the value that was there, or
    /// else where the name belongs. Returns the value that was there.
    pub fn insert(&mut self, name: String, value: String) -> (was: Option<String>)
        requires
            old(self).well_formed(),
        ensures
            final(self).well_formed(),
            ({
                let place = place_of(old(self).entries(), encode_utf8(name@));
                if place < old(self).entries().len() && old(self).entries()[place].0@ == name@ {
                    was == Some(old(self).entries()[place].1)
                        && final(self).entries() == old(self).entries().update(
                        place,
                        (name, value),
                    )
                } else {
                    was is None && final(self).entries() == old(self).entries().insert(
                        place,
                        (name, value),
                    )
                }
            }),
    {
        let place: usize = self.find(name.as_str());
        let ghost before = self.entries@;
        let ghost new_bytes = encode_utf8(name@);
        proof {
            vstd::utf8::encode_utf8_decode_utf8(name@);
            if place < self.entries.len() {
                vstd::utf8::encode_utf8_decode_utf8(self.entries@[place as int].0@);
            }
        }
        let same: bool = place < self.entries.len() && match compare(
            self.entries[place].0.as_str(),
            name.as_str(),
        ) {
            Order::Same => true,
            _ => false,
        };
        if same {
            let mut entry: (String, String) = (name, value);
            std::mem::swap(&mut entry, &mut self.entries[place]);
            proof {
                assert(self.entries@ =~= before.update(place as int, (name, value)));
                assert forall|i: int, j: int| 0 <= i < j < self.entries@.len() implies bytes_less(
                    name_bytes(self.entries@[i]),
                    name_bytes(self.entries@[j]),
                ) by {
                    assert(bytes_less(name_bytes(before[i]), name_bytes(before[j])));
                }
            }
            Some(entry.1)
        } else {
            self.entries.insert(place, (name, value));
            proof {
                assert forall|i: int, j: int| 0 <= i < j < self.entries@.len() implies bytes_less(
                    name_bytes(self.entries@[i]),
                    name_bytes(self.entries@[j]),
                ) by {
                    if j < place {
                        assert(bytes_less(name_bytes(before[i]), name_bytes(before[j])));
                    } else if j == place {
                        assert(bytes_less(name_bytes(before[i]), new_bytes));
                    } else if i < place {
                        assert(bytes_less(name_bytes(before[i]), name_bytes(before[j - 1])));
                    } else if i == place {
                        let here = name_bytes(before[place as int]);
                        lemma_less_total(here, new_bytes);
                        assert(!bytes_less(here, new_bytes));
                        if j - 1 > place {
                            assert(bytes_less(here, name_bytes(before[j - 1])));
                            lemma_less_transitive(new_bytes, here, name_bytes(before[j - 1]));
                        }
                    } else {
                        assert(bytes_less(name_bytes(before[i - 1]), name_bytes(before[j - 1])));
                    }
                }
            }
            None
        }
    }
}

} // verus!
