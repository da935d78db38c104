//! The names that the destination directory already holds.

use vstd::prelude::*;

verus! {

/// The set of the names in `names`.
pub open spec fn name_set(names: Seq<String>) -> Set<Seq<char>> {
    Set::new(|name: Seq<char>| exists|i: int| 0 <= i < names.len() && (#[trigger] names[i])@ == name)
}

/// Whether `entry` is an entry whose name was decoded, and that name is
/// `name`.
pub open spec fn decodes_to(entry: Option<String>, name: Seq<char>) -> bool {
    entry matches Some(decoded) && decoded@ == name
}

/// The set of the names in `entries` that could be decoded: an entry whose
/// name could not be decoded is `None` and adds nothing.
pub open spec fn decoded_names(entries: Seq<Option<String>>) -> Set<Seq<char>> {
    Set::new(|name: Seq<char>| exists|i: int| 0 <= i < entries.len() && #[trigger] decodes_to(entries[i], name))
}

/// The file names found in the destination directory, as a set.
pub struct LocalInventory {
    names: Vec<String>,
}

impl View for LocalInventory {
    type V = Set<Seq<char>>;

    closed spec fn view(&self) -> Set<Seq<char>> {
        name_set(self.names@)
    }
}

impl LocalInventory {
    /// The inventory of a directory that holds files of these names.
    pub fn from_names(names: Vec<String>) -> (inventory: LocalInventory)
        ensures
            inventory@ == name_set(names@),
    {
        LocalInventory { names }
    }

    /// The inventory of a directory, from its entries as they were read:
    /// an entry whose name could be decoded, or `None` for one whose name
    /// could not, which is passed over.
    pub fn from_entries(entries: Vec<Option<String>>) -> (inventory: LocalInventory)
        ensures
            inventory@ == decoded_names(entries@),
    {
        let mut names: Vec<String> = Vec::new();
        let mut i: usize = 0;
        while i < entries.len()
            invariant
                i <= entries.len(),
                name_set(names@) == decoded_names(entries@.take(i as int)),
            decreases entries.len() - i,
        {
            let ghost before = names@;
            match &entries[i] {
                Some(decoded) => {
                    names.push(decoded.clone());
                },
                None => {},
            }
            assert forall|name: Seq<char>|
                name_set(names@).contains(name) <==> decoded_names(entries@.take(i + 1)).contains(name) by {
                lemma_one_more_entry(entries@, i as int, before, names@, name);
            }
            assert(name_set(names@) =~= decoded_names(entries@.take(i + 1)));
            i += 1;
        }
        assert(entries@.take(i as int) =~= entries@);
        LocalInventory { names }
    }

    /// Whether the directory holds a file of this name.
    pub fn contains(&self, name: &String) -> (present: bool)
        ensures
            present == self@.contains(name@),
    {
        let mut i: usize = 0;
        while i < self.names.len()
            invariant
                i <= self.names.len(),
                forall|j: int| 0 <= j < i ==> (#[trigger] self.names[j])@ != name@,
            decreases self.names.len() - i,
        {
            if self.names[i] == *name {
                return true;
            }
            i += 1;
        }
        false
    }
}

/// Reading one more entry adds its name to the set if it was decoded, and
/// nothing else.
proof fn lemma_one_more_entry(
    entries: Seq<Option<String>>,
    i: int,
    before: Seq<String>,
    after: Seq<String>,
    name: Seq<char>,
)
    requires
        0 <= i < entries.len(),
        name_set(before) == decoded_names(entries.take(i)),
        match entries[i] {
            Some(decoded) => after == before.push(decoded),
            None => after == before,
        },
    ensures
        name_set(after).contains(name) <==> decoded_names(entries.take(i + 1)).contains(name),
{
    let shorter = entries.take(i);
    let longer = entries.take(i + 1);
    if name_set(after).contains(name) {
        let k = choose|k: int| 0 <= k < after.len() && (#[trigger] after[k])@ == name;
        if k < before.len() {
            assert(before[k]@ == name);
            assert(name_set(before).contains(name));
            let j = choose|j: int| 0 <= j < shorter.len() && #[trigger] decodes_to(shorter[j], name);
            assert(decodes_to(longer[j], name));
        } else {
            assert(decodes_to(longer[i], name));
        }
    }
    if decoded_names(longer).contains(name) {
        let j = choose|j: int| 0 <= j < longer.len() && #[trigger] decodes_to(longer[j], name);
        if j < i {
            assert(decodes_to(shorter[j], name));
            assert(decoded_names(shorter).contains(name));
            let k = choose|k: int| 0 <= k < before.len() && (#[trigger] before[k])@ == name;
            assert(after[k] == before[k]);
        } else {
            assert(after[before.len() as int]@ == name);
        }
    }
}

} // verus!
