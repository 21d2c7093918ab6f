//! Model metadata and the flags a user can set on a model.
use vstd::prelude::*;
use vstd::string::*;
use crate::command::strs;

verus! {

/// A set of model flags, `Printed` and `Favorite`, held as bits.
#[derive(Clone, Copy, Debug, PartialEq, Eq, Structural)]
pub struct ModelFlags {
    bits: u32,
}

pub open spec fn printed_name() -> Seq<char> {
    "Printed"@
}

pub open spec fn favorite_name() -> Seq<char> {
    "Favorite"@
}

/// The bits of a flag set that holds `Printed` when `printed` and `Favorite` when
/// `favorite`.
pub open spec fn bits_of(printed: bool, favorite: bool) -> u32 {
    (if printed {
        1u32
    } else {
        0u32
    }) | (if favorite {
        2u32
    } else {
        0u32
    })
}

/// The names of the flags in a set, `Printed` before `Favorite`.
pub open spec fn names_of(printed: bool, favorite: bool) -> Seq<Seq<char>> {
    (if printed {
        seq![printed_name()]
    } else {
        Seq::empty()
    }) + (if favorite {
        seq![favorite_name()]
    } else {
        Seq::empty()
    })
}

proof fn lemma_push_contains(s: Seq<Seq<char>>, x: Seq<char>, y: Seq<char>)
    ensures
        s.push(x).contains(y) == (s.contains(y) || x == y),
{
    let t = s.push(x);
    if s.contains(y) {
        let j = choose|j: int| 0 <= j < s.len() && s[j] == y;
        assert(t[j] == y);
    }
    if x == y {
        assert(t[s.len() as int] == y);
    }
    if t.contains(y) {
        let j = choose|j: int| 0 <= j < t.len() && t[j] == y;
        if j < s.len() {
            assert(s[j] == y);
        }
    }
}

impl ModelFlags {
    pub closed spec fn spec_bits(&self) -> u32 {
        self.bits
    }

    pub open spec fn has_printed(&self) -> bool {
        self.spec_bits() & 1 == 1
    }

    pub open spec fn has_favorite(&self) -> bool {
        self.spec_bits() & 2 == 2
    }

    /// The set with no flag.
    pub fn empty() -> (r: ModelFlags)
        ensures
            r.spec_bits() == 0,
    {
        ModelFlags { bits: 0 }
    }

    /// The set that holds `Printed` alone.
    pub fn printed() -> (r: ModelFlags)
        ensures
            r.spec_bits() == 1,
    {
        ModelFlags { bits: 1 }
    }

    /// The set that holds `Favorite` alone.
    pub fn favorite() -> (r: ModelFlags)
        ensures
            r.spec_bits() == 2,
    {
        ModelFlags { bits: 2 }
    }

    pub fn bits(&self) -> (r: u32)
        ensures
            r == self.spec_bits(),
    {
        self.bits
    }

    /// Whether every flag of `other` is in this set.
    pub fn contains(&self, other: ModelFlags) -> (r: bool)
        ensures
            r == (self.spec_bits() & other.spec_bits() == other.spec_bits()),
    {
        self.bits & other.bits == other.bits
    }

    /// Adds the flags of `other` to this set.
    pub fn insert(&mut self, other: ModelFlags)
        ensures
            final(self).spec_bits() == old(self).spec_bits() | other.spec_bits(),
    {
        self.bits = self.bits | other.bits;
    }

    /// The names of the flags in this set, `Printed` before `Favorite`.
    pub fn names(&self) -> (r: Vec<String>)
        ensures
            strs(r@) == names_of(self.has_printed(), self.has_favorite()),
    {
        let mut r: Vec<String> = Vec::new();
        if self.contains(ModelFlags::printed()) {
            r.push(String::from_str("Printed"));
        }
        if self.contains(ModelFlags::favorite()) {
            r.push(String::from_str("Favorite"));
        }
        assert(strs(r@) =~= names_of(self.has_printed(), self.has_favorite()));
        r
    }

    /// The set of the flags named in `names`; a name that is no flag's is ignored.
    pub fn from_names(names: &Vec<String>) -> (r: ModelFlags)
        ensures
            r.spec_bits() == bits_of(
                strs(names@).contains(printed_name()),
                strs(names@).contains(favorite_name()),
            ),
    {
        let ghost ns = strs(names@);
        let printed = String::from_str("Printed");
        let favorite = String::from_str("Favorite");
        let mut r = ModelFlags::empty();
        let mut seen_printed = false;
        let mut seen_favorite = false;
        let mut i: usize = 0;
        assert(bits_of(false, false) == 0) by (bit_vector);
        while i < names.len()
            invariant
                ns == strs(names@),
                printed@ == printed_name(),
                favorite@ == favorite_name(),
                0 <= i <= names@.len(),
                seen_printed == ns.take(i as int).contains(printed_name()),
                seen_favorite == ns.take(i as int).contains(favorite_name()),
                r.spec_bits() == bits_of(seen_printed, seen_favorite),
            decreases names@.len() - i,
        {
            let ghost prefix = ns.take(i as int);
            assert(ns.take(i + 1) =~= prefix.push(names@[i as int]@));
            if names[i] == printed {
                r.insert(ModelFlags::printed());
                proof {
                    assert(bits_of(seen_printed, seen_favorite) | 1 == bits_of(true, seen_favorite))
                        by (bit_vector);
                }
                seen_printed = true;
            } else if names[i] == favorite {
                r.insert(ModelFlags::favorite());
                proof {
                    assert(bits_of(seen_printed, seen_favorite) | 2 == bits_of(seen_printed, true))
                        by (bit_vector);
                }
                seen_favorite = true;
            }
            proof {
                reveal_strlit("Printed");
                reveal_strlit("Favorite");
                assert(printed_name().len() != favorite_name().len());
                lemma_push_contains(prefix, names@[i as int]@, printed_name());
                lemma_push_contains(prefix, names@[i as int]@, favorite_name());
            }
            i += 1;
        }
        assert(ns.take(names@.len() as int) =~= ns);
        r
    }
}

impl Default for ModelFlags {
    /// The set with no flag.
    fn default() -> (r: ModelFlags)
        ensures
            r.spec_bits() == 0,
    {
        ModelFlags::empty()
    }
}

/// The metadata of one model in the library.
pub struct Model {
    pub id: i64,
    pub name: String,
    pub link: Option<String>,
    pub description: Option<String>,
    pub added: String,
    pub last_modified: String,
    pub flags: ModelFlags,
    pub unique_global_id: String,
}

} // verus!
