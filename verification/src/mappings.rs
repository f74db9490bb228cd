//! The mapping store: the rule table in force, keyed by topic.

use vstd::prelude::*;

pub mod load;
pub mod mapping;

use mapping::{Mapping, MappingModel};

verus! {

/// The model of a table held as key/rule pairs.
pub open spec fn spec_table_of(v: Seq<(String, Mapping)>) -> Seq<(Seq<char>, MappingModel)> {
    v.map_values(|p: (String, Mapping)| (p.0@, p.1@))
}

/// The rule under the first entry keyed `key`, if any.
pub open spec fn spec_table_get(
    table: Seq<(Seq<char>, MappingModel)>,
    key: Seq<char>,
) -> Option<MappingModel>
    decreases table.len(),
{
    if table.len() == 0 {
        None
    } else if table[0].0 == key {
        Some(table[0].1)
    } else {
        spec_table_get(table.drop_first(), key)
    }
}

/// The rule table in force, together with the directory it is loaded from.
/// The table is replaced wholesale on reload and never mutated in place.
pub struct MappingConfig {
    /// The root of the mapping directory tree.
    pub path: String,
    mappings: Vec<(String, Mapping)>,
}

impl View for MappingConfig {
    type V = Seq<(Seq<char>, MappingModel)>;

    closed spec fn view(&self) -> Seq<(Seq<char>, MappingModel)> {
        spec_table_of(self.mappings@)
    }
}

impl MappingConfig {
    /// The root of the mapping directory tree, as contracts see it.
    pub closed spec fn spec_path(&self) -> Seq<char> {
        self.path@
    }

    /// An empty table rooted at `path`.
    pub fn create(path: String) -> (r: Self)
        ensures
            r.spec_path() == path@,
            r@ =~= Seq::<(Seq<char>, MappingModel)>::empty(),
    {
        MappingConfig { path, mappings: Vec::new() }
    }

    /// The rule subscribed under `key`, if any.
    pub fn get_mapping<'a>(&'a self, key: &String) -> (r: Option<&'a Mapping>)
        ensures
            match r {
                Some(m) => spec_table_get(self@, key@) == Some(m@),
                None => spec_table_get(self@, key@) is None,
            },
    {
        let ghost table = self@;
        let mut i: usize = 0;
        proof {
            assert(table.skip(0) =~= table);
        }
        while i < self.mappings.len()
            invariant
                table == self@,
                table.len() == self.mappings@.len(),
                forall|j: int| 0 <= j < table.len()
                    ==> #[trigger] table[j] == (self.mappings@[j].0@, self.mappings@[j].1@),
                i <= self.mappings@.len(),
                spec_table_get(table, key@) == spec_table_get(table.skip(i as int), key@),
            decreases self.mappings@.len() - i,
        {
            proof {
                assert(table.skip(i as int)[0] == table[i as int]);
                assert(table.skip(i as int).drop_first() =~= table.skip(i as int + 1));
            }
            let entry = &self.mappings[i];
            if entry.0.eq(key) {
                return Some(&entry.1);
            }
            i = i + 1;
        }
        None
    }

    /// The topics of the table, in table order.
    pub fn get_topics(&self) -> (r: Vec<String>)
        ensures
            r@.map_values(|s: String| s@) == self@.map_values(
                |p: (Seq<char>, MappingModel)| p.0,
            ),
    {
        let mut r: Vec<String> = Vec::new();
        let mut i: usize = 0;
        proof {
            assert(r@.map_values(|s: String| s@) =~= Seq::<Seq<char>>::empty());
        }
        while i < self.mappings.len()
            invariant
                i <= self.mappings@.len(),
                r@.len() == i,
                forall|j: int| 0 <= j < i ==> #[trigger] r@[j]@ == self@[j].0,
            decreases self.mappings@.len() - i,
        {
            r.push(self.mappings[i].0.clone());
            i = i + 1;
        }
        proof {
            assert(r@.map_values(|s: String| s@) =~= self@.map_values(
                |p: (Seq<char>, MappingModel)| p.0,
            ));
        }
        r
    }
}

} // verus!
