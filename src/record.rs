use vstd::prelude::*;

verus! {

/// A record to be registered with the server: a named, typed value with an
/// optional alias and key/value metadata.
#[derive(Debug, Clone)]
pub struct Record {
    /// The record name (e.g. `"DEV:AI:1"`).
    pub name: String,
    /// The record type (e.g. `"ai"`, `"bo"`).
    pub rtype: String,
    /// An optional alias name for this record.
    pub alias: Option<String>,
    /// Key/value metadata, in the order in which it is uploaded.
    pub properties: Vec<(String, String)>,
}

/// Whether no two properties share a key.
pub open spec fn keys_unique(p: Seq<(String, String)>) -> bool {
    forall|i: int, j: int| 0 <= i < j < p.len() ==> #[trigger] p[i].0@ != #[trigger] p[j].0@
}

impl Record {
    /// Whether the record is well formed: name and type are non-empty and
    /// property keys are unique.
    pub open spec fn wf(&self) -> bool {
        &&& self.name@.len() > 0
        &&& self.rtype@.len() > 0
        &&& keys_unique(self.properties@)
    }

    /// Create a new record with the given name and type, no alias, and no properties.
    pub fn new(name: String, rtype: String) -> (r: Record)
        ensures
            r.name == name,
            r.rtype == rtype,
            r.alias is None,
            r.properties@.len() == 0,
            name@.len() > 0 && rtype@.len() > 0 ==> r.wf(),
    {
        Record { name, rtype, alias: None, properties: Vec::new() }
    }

    /// Sets the value of property `key`: an existing entry keeps its place and
    /// takes the new value, otherwise the entry is appended.
    pub fn set_property(&mut self, key: String, value: String)
        ensures
            final(self).name == old(self).name,
            final(self).rtype == old(self).rtype,
            final(self).alias == old(self).alias,
            (exists|i: int| 0 <= i < old(self).properties@.len() && #[trigger] old(self).properties@[i].0@ == key@)
                ==> (exists|i: int| 0 <= i < old(self).properties@.len() && old(self).properties@[i].0@ == key@
                    && #[trigger] final(self).properties@ == old(self).properties@.update(i, (old(self).properties@[i].0, value))),
            (forall|i: int| 0 <= i < old(self).properties@.len() ==> #[trigger] old(self).properties@[i].0@ != key@)
                ==> final(self).properties@ == old(self).properties@.push((key, value)),
            keys_unique(old(self).properties@) ==> keys_unique(final(self).properties@),
    {
        let mut i: usize = 0;
        while i < self.properties.len()
            invariant
                self.properties == old(self).properties,
                self.name == old(self).name,
                self.rtype == old(self).rtype,
                self.alias == old(self).alias,
                0 <= i <= self.properties@.len(),
                forall|j: int| 0 <= j < i ==> #[trigger] self.properties@[j].0@ != key@,
            decreases self.properties@.len() - i,
        {
            if self.properties[i].0 == key {
                let ghost before = self.properties@;
                let k = self.properties[i].0.clone();
                self.properties.set(i, (k, value));
                assert(self.properties@ == before.update(i as int, (before[i as int].0, value)));
                assert(keys_unique(before) ==> keys_unique(self.properties@)) by {
                    if keys_unique(before) {
                        assert forall|a: int, b: int| 0 <= a < b < self.properties@.len() implies
                            #[trigger] self.properties@[a].0@ != #[trigger] self.properties@[b].0@ by {
                            assert(before[a].0@ != before[b].0@);
                        }
                    }
                }
                return;
            }
            i += 1;
        }
        let ghost before = self.properties@;
        self.properties.push((key, value));
        assert(keys_unique(before) ==> keys_unique(self.properties@)) by {
            if keys_unique(before) {
                assert forall|a: int, b: int| 0 <= a < b < self.properties@.len() implies
                    #[trigger] self.properties@[a].0@ != #[trigger] self.properties@[b].0@ by {
                    if b < before.len() {
                        assert(before[a].0@ != before[b].0@);
                    } else {
                        assert(before[a].0@ != key@);
                    }
                }
            }
        }
    }
}

} // verus!
