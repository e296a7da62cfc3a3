//! A header mapping: one value per name, names compared byte for byte, a
//! later value for a name replacing the earlier one.

use vstd::prelude::*;
use crate::text::bytes_equal;

verus! {

/// A header name with its value.
pub type Field = (Seq<u8>, Seq<u8>);

/// The mapping that a list of fields stands for. Where a name occurs more
/// than once, its first field counts.
pub open spec fn fields_map(p: Seq<Field>) -> Map<Seq<u8>, Seq<u8>>
    decreases p.len(),
{
    if p.len() == 0 {
        Map::empty()
    } else {
        fields_map(p.skip(1)).insert(p[0].0, p[0].1)
    }
}

/// No name occurs in two fields.
pub open spec fn distinct_names(p: Seq<Field>) -> bool {
    forall|i: int, j: int| 0 <= i < j < p.len() ==> p[i].0 != p[j].0
}

/// The index of the first field named `name`, or `p.len()` where no field
/// has that name.
pub open spec fn name_index(p: Seq<Field>, name: Seq<u8>) -> nat
    decreases p.len(),
{
    if p.len() > 0 && p[0].0 != name {
        1 + name_index(p.skip(1), name)
    } else {
        0
    }
}

/// `p` with `value` set for `name`: in the place of the first field of that
/// name, or at the end where there is none.
pub open spec fn put(p: Seq<Field>, name: Seq<u8>, value: Seq<u8>) -> Seq<Field> {
    if name_index(p, name) < p.len() {
        p.update(name_index(p, name) as int, (name, value))
    } else {
        p.push((name, value))
    }
}

pub proof fn lemma_name_index(p: Seq<Field>, name: Seq<u8>)
    ensures
        name_index(p, name) <= p.len(),
        name_index(p, name) < p.len() ==> p[name_index(p, name) as int].0 == name,
        forall|j: int| 0 <= j < name_index(p, name) ==> p[j].0 != name,
    decreases p.len(),
{
    if p.len() > 0 && p[0].0 != name {
        lemma_name_index(p.skip(1), name);
        assert forall|j: int| 0 <= j < name_index(p, name) implies p[j].0 != name by {
            if j > 0 {
                assert(p[j] == p.skip(1)[j - 1]);
            }
        }
    }
}

/// Setting a value is an insertion into the mapping, and keeps the names
/// distinct.
pub proof fn lemma_put(p: Seq<Field>, name: Seq<u8>, value: Seq<u8>)
    ensures
        fields_map(put(p, name, value)) == fields_map(p).insert(name, value),
        distinct_names(p) ==> distinct_names(put(p, name, value)),
{
    lemma_name_index(p, name);
    if name_index(p, name) < p.len() {
        lemma_replace(p, name, value, name_index(p, name) as int);
    } else {
        lemma_push(p, name, value);
    }
}

/// A field whose name no earlier field has decides what the mapping holds
/// for that name; a name that no field has is absent.
pub proof fn lemma_lookup(p: Seq<Field>, name: Seq<u8>, i: int)
    requires
        0 <= i <= p.len(),
        forall|j: int| 0 <= j < i ==> p[j].0 != name,
        i < p.len() ==> p[i].0 == name,
    ensures
        i < p.len() ==> fields_map(p).contains_key(name) && fields_map(p)[name] == p[i].1,
        i == p.len() ==> !fields_map(p).contains_key(name),
    decreases p.len(),
{
    if p.len() > 0 && i > 0 {
        assert(p[0].0 != name);
        assert forall|j: int| 0 <= j < i - 1 implies p.skip(1)[j].0 != name by {
            assert(p.skip(1)[j] == p[j + 1]);
        }
        lemma_lookup(p.skip(1), name, i - 1);
    }
}

/// Replacing the value of the first field that has a name is an insertion
/// into the mapping.
pub proof fn lemma_replace(p: Seq<Field>, name: Seq<u8>, value: Seq<u8>, i: int)
    requires
        0 <= i < p.len(),
        forall|j: int| 0 <= j < i ==> p[j].0 != name,
        p[i].0 == name,
    ensures
        fields_map(p.update(i, (name, value))) == fields_map(p).insert(name, value),
    decreases p.len(),
{
    let q = p.update(i, (name, value));
    if i == 0 {
        assert(q.skip(1) =~= p.skip(1));
        assert(fields_map(q) =~= fields_map(p).insert(name, value));
    } else {
        assert(p[0].0 != name);
        assert forall|j: int| 0 <= j < i - 1 implies p.skip(1)[j].0 != name by {
            assert(p.skip(1)[j] == p[j + 1]);
        }
        lemma_replace(p.skip(1), name, value, i - 1);
        assert(q.skip(1) =~= p.skip(1).update(i - 1, (name, value)));
        assert(fields_map(q) =~= fields_map(p).insert(name, value));
    }
}

/// Adding a field with a name that no field has is an insertion into the
/// mapping.
pub proof fn lemma_push(p: Seq<Field>, name: Seq<u8>, value: Seq<u8>)
    requires
        forall|j: int| 0 <= j < p.len() ==> p[j].0 != name,
    ensures
        fields_map(p.push((name, value))) == fields_map(p).insert(name, value),
    decreases p.len(),
{
    let q = p.push((name, value));
    if p.len() == 0 {
        reveal_with_fuel(fields_map, 2);
        assert(q.skip(1) =~= p);
        assert(fields_map(q) =~= fields_map(p).insert(name, value));
    } else {
        assert(p[0].0 != name);
        assert forall|j: int| 0 <= j < p.len() - 1 implies p.skip(1)[j].0 != name by {
            assert(p.skip(1)[j] == p[j + 1]);
        }
        lemma_push(p.skip(1), name, value);
        assert(q.skip(1) =~= p.skip(1).push((name, value)));
        assert(fields_map(q) =~= fields_map(p).insert(name, value));
    }
}

/// The headers of a request or of a response.
#[derive(Debug)]
pub struct Headers {
    entries: Vec<(Vec<u8>, Vec<u8>)>,
}

impl View for Headers {
    type V = Map<Seq<u8>, Seq<u8>>;

    open spec fn view(&self) -> Map<Seq<u8>, Seq<u8>> {
        fields_map(self.fields())
    }
}

impl Headers {
    /// The fields in the order in which their names first came.
    pub closed spec fn fields(&self) -> Seq<Field> {
        Seq::new(self.entries@.len(), |i: int| (self.entries@[i].0@, self.entries@[i].1@))
    }

    /// No name occurs in two fields: what `new` establishes and `insert`
    /// keeps.
    pub open spec fn wf(&self) -> bool {
        distinct_names(self.fields())
    }

    pub fn new() -> (r: Self)
        ensures
            r.wf(),
            r.fields() == Seq::<Field>::empty(),
            r@ == Map::<Seq<u8>, Seq<u8>>::empty(),
    {
        let r = Headers { entries: Vec::new() };
        proof {
            assert(r.fields() =~= Seq::<Field>::empty());
        }
        r
    }

    /// The number of fields.
    pub fn len(&self) -> (n: usize)
        ensures
            n == self.fields().len(),
    {
        self.entries.len()
    }

    /// The name and the value of the field at `i`.
    pub fn field(&self, i: usize) -> (r: (&Vec<u8>, &Vec<u8>))
        requires
            i < self.fields().len(),
        ensures
            (r.0@, r.1@) == self.fields()[i as int],
    {
        let e = &self.entries[i];
        (&e.0, &e.1)
    }

    /// The index of the field named `name`, or the number of fields where
    /// there is none.
    fn index_of(&self, name: &[u8]) -> (i: usize)
        ensures
            i == name_index(self.fields(), name@),
            i <= self.fields().len(),
    {
        let mut i: usize = 0;
        while i < self.entries.len()
            invariant
                i <= self.entries.len(),
                self.entries@.len() == self.fields().len(),
                forall|j: int| 0 <= j < i ==> self.fields()[j].0 != name@,
            decreases self.entries.len() - i,
        {
            if bytes_equal(self.entries[i].0.as_slice(), name) {
                proof {
                    assert(self.fields()[i as int].0 == name@);
                    lemma_name_index(self.fields(), name@);
                }
                return i;
            }
            assert(self.fields()[i as int].0 != name@);
            i += 1;
        }
        proof {
            lemma_name_index(self.fields(), name@);
        }
        i
    }

    /// The value held for `name`.
    pub fn get(&self, name: &[u8]) -> (r: Option<&Vec<u8>>)
        ensures
            match r {
                Some(v) => self@.contains_key(name@) && self@[name@] == v@,
                None => !self@.contains_key(name@),
            },
    {
        let i = self.index_of(name);
        proof {
            lemma_name_index(self.fields(), name@);
            lemma_lookup(self.fields(), name@, i as int);
        }
        if i < self.entries.len() {
            Some(&self.entries[i].1)
        } else {
            None
        }
    }

    /// Sets the value for `name`, in place of the one it had.
    pub fn insert(&mut self, name: Vec<u8>, value: Vec<u8>)
        ensures
            final(self).fields() == put(old(self).fields(), name@, value@),
            final(self)@ == old(self)@.insert(name@, value@),
            old(self).wf() ==> final(self).wf(),
    {
        proof {
            lemma_put(self.fields(), name@, value@);
        }
        let i = self.index_of(name.as_slice());
        let ghost before = self.fields();
        if i < self.entries.len() {
            self.entries.set(i, (name, value));
            proof {
                assert(self.fields() =~= before.update(i as int, (name@, value@)));
            }
        } else {
            self.entries.push((name, value));
            proof {
                assert(self.fields() =~= before.push((name@, value@)));
            }
        }
    }
}

} // verus!
