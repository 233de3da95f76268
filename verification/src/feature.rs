//! Geographic features: a global identifier, a closed/open flag and tags.

use vstd::prelude::*;

verus! {

/// One tag of a feature: a key, a value, and the value parsed as a 64-bit
/// float where it is numeric.
///
/// The library holds no floating-point code, so the caller supplies
/// `numeric_value`: the IEEE 754 bit pattern that parsing `value` as a
/// 64-bit float yields, or `None` where the value does not parse.  Numeric
/// tag tests read this field and nothing else of the value.
#[derive(Debug)]
pub struct Tag {
    pub key: String,
    pub value: String,
    pub numeric_value: Option<u64>,
}

/// A feature to be styled: a way or area with tags.
#[derive(Debug)]
pub struct Feature {
    /// Globally unique identifier, used as the deterministic sort tie-break
    /// and in diagnostics.
    pub global_id: u64,
    /// Whether the way's geometry is closed.
    pub closed: bool,
    pub tags: Vec<Tag>,
}

/// The first tag with the given key, if any.
pub open spec fn spec_tag_lookup(tags: Seq<Tag>, key: Seq<char>) -> Option<Tag>
    decreases tags.len(),
{
    if tags.len() == 0 {
        None
    } else if tags[0].key@ == key {
        Some(tags[0])
    } else {
        spec_tag_lookup(tags.drop_first(), key)
    }
}

impl Feature {
    /// The first tag with the given key, if any.
    pub fn lookup_tag<'a>(&'a self, key: &String) -> (r: Option<&'a Tag>)
        ensures
            match r {
                Some(t) => spec_tag_lookup(self.tags@, key@) == Some(*t),
                None => spec_tag_lookup(self.tags@, key@) is None,
            },
    {
        let n = self.tags.len();
        let mut i: usize = 0;
        proof {
            assert(self.tags@.skip(0) =~= self.tags@);
        }
        while i < n
            invariant
                i <= n,
                n == self.tags@.len(),
                spec_tag_lookup(self.tags@, key@) == spec_tag_lookup(self.tags@.skip(i as int), key@),
            decreases n - i,
        {
            let t = &self.tags[i];
            proof {
                assert(self.tags@.skip(i as int)[0] == self.tags@[i as int]);
            }
            if t.key == *key {
                return Some(t);
            }
            proof {
                assert(self.tags@.skip(i as int).drop_first() =~= self.tags@.skip(i + 1));
            }
            i = i + 1;
        }
        proof {
            assert(self.tags@.skip(n as int).len() == 0);
        }
        None
    }
}

} // verus!
