use vstd::prelude::*;

use crate::error::BridgeError;
use crate::marshal::{check_text, text_ok};

verus! {

// The host hands a workload its configuration as a set of named text values
// with take-semantics: reading a name removes it, so a later read of the
// same name is structurally incapable of returning a stale value.

/// No two entries share a name.
pub open spec fn keys_distinct(s: Seq<(Vec<u8>, Vec<u8>)>) -> bool {
    forall|i: int, j: int| 0 <= i < j < s.len() ==> s[i].0@ != s[j].0@
}

/// Every name and every value may cross the boundary as text.
pub open spec fn entries_text_ok(s: Seq<(Vec<u8>, Vec<u8>)>) -> bool {
    forall|i: int| 0 <= i < s.len() ==> text_ok(#[trigger] s[i].0@) && text_ok(s[i].1@)
}

/// The name-to-value mapping that a sequence of entries describes.
pub open spec fn map_of(s: Seq<(Vec<u8>, Vec<u8>)>) -> Map<Seq<u8>, Seq<u8>>
    decreases s.len(),
{
    if s.len() == 0 {
        Map::empty()
    } else {
        map_of(s.drop_last()).insert(s.last().0@, s.last().1@)
    }
}

/// A name is in the mapping exactly when some entry carries it.
pub proof fn lemma_map_of_contains(s: Seq<(Vec<u8>, Vec<u8>)>, k: Seq<u8>)
    ensures
        map_of(s).contains_key(k) <==> exists|i: int| 0 <= i < s.len() && s[i].0@ == k,
    decreases s.len(),
{
    if s.len() > 0 {
        lemma_map_of_contains(s.drop_last(), k);
        if s.last().0@ == k {
            assert(s[s.len() - 1].0@ == k);
        } else {
            if map_of(s).contains_key(k) {
                let i = choose|i: int| 0 <= i < s.drop_last().len() && s.drop_last()[i].0@ == k;
                assert(s[i].0@ == k);
            }
            if exists|i: int| 0 <= i < s.len() && s[i].0@ == k {
                let i = choose|i: int| 0 <= i < s.len() && s[i].0@ == k;
                assert(i < s.len() - 1);
                assert(s.drop_last()[i].0@ == k);
            }
        }
    }
}

/// With distinct names, the mapping sends each entry's name to its value.
pub proof fn lemma_map_of_value(s: Seq<(Vec<u8>, Vec<u8>)>, i: int)
    requires
        keys_distinct(s),
        0 <= i < s.len(),
    ensures
        map_of(s).contains_key(s[i].0@),
        map_of(s)[s[i].0@] == s[i].1@,
    decreases s.len(),
{
    if i == s.len() - 1 {
    } else {
        assert(keys_distinct(s.drop_last()));
        assert(s.drop_last()[i] == s[i]);
        lemma_map_of_value(s.drop_last(), i);
        assert(s[i].0@ != s.last().0@);
    }
}

/// With distinct names, removing one entry removes exactly its name from
/// the mapping.
pub proof fn lemma_map_of_remove(s: Seq<(Vec<u8>, Vec<u8>)>, i: int)
    requires
        keys_distinct(s),
        0 <= i < s.len(),
    ensures
        map_of(s.remove(i)) == map_of(s).remove(s[i].0@),
    decreases s.len(),
{
    let k = s[i].0@;
    if i == s.len() - 1 {
        assert(s.remove(i) =~= s.drop_last());
        lemma_map_of_contains(s.drop_last(), k);
        assert(!map_of(s.drop_last()).contains_key(k));
        assert(map_of(s.drop_last()).insert(k, s.last().1@).remove(k) =~= map_of(s.drop_last()));
    } else {
        let t = s.remove(i);
        assert(t.len() == s.len() - 1);
        assert(t.last() == s.last());
        assert(t.drop_last() =~= s.drop_last().remove(i));
        assert(keys_distinct(s.drop_last()));
        lemma_map_of_remove(s.drop_last(), i);
        assert(s.drop_last()[i] == s[i]);
        assert(k != s.last().0@);
        assert(map_of(t) == map_of(s.drop_last()).remove(k).insert(s.last().0@, s.last().1@));
        assert(map_of(s.drop_last()).remove(k).insert(s.last().0@, s.last().1@) =~= map_of(
            s.drop_last(),
        ).insert(s.last().0@, s.last().1@).remove(k));
    }
}

/// Decide whether two byte strings are equal.
pub fn bytes_eq(a: &Vec<u8>, b: &Vec<u8>) -> (r: bool)
    ensures
        r == (a@ == b@),
{
    if a.len() != b.len() {
        return false;
    }
    let n = a.len();
    let mut i: usize = 0;
    while i < n
        invariant
            n == a@.len(),
            n == b@.len(),
            i <= n,
            forall|j: int| 0 <= j < i ==> a@[j] == b@[j],
        decreases n - i,
    {
        if a[i] != b[i] {
            return false;
        }
        i = i + 1;
    }
    proof {
        assert(a@ =~= b@);
    }
    true
}

/// The host-side option table of one workload context, with take-semantics.
pub struct OptionRegistry {
    entries: Vec<(Vec<u8>, Vec<u8>)>,
}

impl View for OptionRegistry {
    type V = Map<Seq<u8>, Seq<u8>>;

    closed spec fn view(&self) -> Map<Seq<u8>, Seq<u8>> {
        map_of(self.entries@)
    }
}

impl OptionRegistry {
    /// The registry's internal well-formedness: distinct names, and every
    /// name and value fit to cross the boundary.
    pub closed spec fn inv(self) -> bool {
        keys_distinct(self.entries@) && entries_text_ok(self.entries@)
    }

    /// Build a registry from the entries the host supplies, validating them
    /// once here rather than at every later read.
    pub fn from_entries(entries: Vec<(Vec<u8>, Vec<u8>)>) -> (r: Result<OptionRegistry,
        BridgeError>)
        ensures
            match r {
                Ok(reg) => {
                    &&& entries_text_ok(entries@)
                    &&& keys_distinct(entries@)
                    &&& reg.inv()
                    &&& reg@ == map_of(entries@)
                },
                Err(BridgeError::InvalidText) => !entries_text_ok(entries@),
                Err(BridgeError::DuplicateOptionName) => entries_text_ok(entries@)
                    && !keys_distinct(entries@),
                Err(_) => false,
            },
    {
        let n = entries.len();
        let mut i: usize = 0;
        while i < n
            invariant
                n == entries@.len(),
                i <= n,
                forall|j: int| 0 <= j < i ==> text_ok(#[trigger] entries@[j].0@),
                forall|j: int| 0 <= j < i ==> text_ok(#[trigger] entries@[j].1@),
            decreases n - i,
        {
            let ok_name = check_text(&entries[i].0);
            let ok_value = check_text(&entries[i].1);
            if !ok_name || !ok_value {
                return Err(BridgeError::InvalidText);
            }
            assert(text_ok(entries@[i as int].0@) && text_ok(entries@[i as int].1@));
            i = i + 1;
        }
        let mut i: usize = 0;
        while i < n
            invariant
                n == entries@.len(),
                i <= n,
                entries_text_ok(entries@),
                forall|p: int, q: int| 0 <= p < q < i ==> entries@[p].0@ != entries@[q].0@,
            decreases n - i,
        {
            let mut j: usize = 0;
            while j < i
                invariant
                    n == entries@.len(),
                    i < n,
                    j <= i,
                    entries_text_ok(entries@),
                    forall|p: int| 0 <= p < j ==> entries@[p].0@ != entries@[i as int].0@,
                decreases i - j,
            {
                if bytes_eq(&entries[j].0, &entries[i].0) {
                    return Err(BridgeError::DuplicateOptionName);
                }
                j = j + 1;
            }
            i = i + 1;
        }
        Ok(OptionRegistry { entries })
    }

    /// Take the value configured under `name` out of the registry.
    ///
    /// The first take of a configured name yields its value; the name is
    /// removed either way, so no later take can see it again.
    pub fn take(&mut self, name: &Vec<u8>) -> (r: Option<Vec<u8>>)
        requires
            old(self).inv(),
        ensures
            final(self).inv(),
            final(self)@ == old(self)@.remove(name@),
            match r {
                Some(v) => {
                    &&& old(self)@.contains_key(name@)
                    &&& v@ == old(self)@[name@]
                    &&& text_ok(v@)
                },
                None => !old(self)@.contains_key(name@),
            },
    {
        let n = self.entries.len();
        let mut i: usize = 0;
        while i < n
            invariant
                self == old(self),
                n == self.entries@.len(),
                i <= n,
                keys_distinct(self.entries@),
                entries_text_ok(self.entries@),
                forall|j: int| 0 <= j < i ==> self.entries@[j].0@ != name@,
            decreases n - i,
        {
            if bytes_eq(&self.entries[i].0, name) {
                let ghost before = self.entries@;
                let pair = self.entries.remove(i);
                proof {
                    lemma_map_of_value(before, i as int);
                    lemma_map_of_remove(before, i as int);
                    assert forall|p: int, q: int|
                        0 <= p < q < self.entries@.len() implies self.entries@[p].0@
                        != self.entries@[q].0@ by {
                        assert(self.entries@[p] == if p < i {
                            before[p]
                        } else {
                            before[p + 1]
                        });
                        assert(self.entries@[q] == if q < i {
                            before[q]
                        } else {
                            before[q + 1]
                        });
                    }
                    assert forall|p: int|
                        0 <= p < self.entries@.len() implies text_ok(
                        #[trigger] self.entries@[p].0@,
                    ) && text_ok(self.entries@[p].1@) by {
                        assert(self.entries@[p] == if p < i {
                            before[p]
                        } else {
                            before[p + 1]
                        });
                    }
                }
                return Some(pair.1);
            }
            i = i + 1;
        }
        proof {
            lemma_map_of_contains(self.entries@, name@);
            assert(old(self)@.remove(name@) =~= old(self)@);
        }
        None
    }
}

} // verus!
