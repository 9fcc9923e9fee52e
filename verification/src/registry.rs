//! A collection of values that are found by name.
use vstd::prelude::*;

verus! {

/// Values by name. No two values have the same name.
pub struct Registry<V> {
    names: Vec<String>,
    /// The values, each in the place of its name.
    values: Vec<V>,
}

impl<V> View for Registry<V> {
    type V = Map<Seq<char>, V>;

    closed spec fn view(&self) -> Map<Seq<char>, V> {
        Map::new(
            |name: Seq<char>| exists|i: int| is_at(self.names@, i, name),
            |name: Seq<char>| self.values@[choose|i: int| is_at(self.names@, i, name)],
        )
    }
}

/// Whether the name stands at that place.
spec fn is_at(names: Seq<String>, i: int, name: Seq<char>) -> bool {
    0 <= i < names.len() && names[i]@ == name
}

/// Whether no name occurs twice.
spec fn are_distinct(names: Seq<String>) -> bool {
    forall|i: int, j: int|
        0 <= i < names.len() && 0 <= j < names.len() && (#[trigger] names[i])@ == (
        #[trigger] names[j])@ ==> i == j
}

impl<V> Registry<V> {
    /// No name occurs twice, and each has a value.
    #[verifier::type_invariant]
    spec fn well_formed(self) -> bool {
        &&& self.names@.len() == self.values@.len()
        &&& are_distinct(self.names@)
    }

    /// The value of the name that stands at a place is the value at that place.
    proof fn view_at(self, i: int)
        requires
            are_distinct(self.names@),
            0 <= i < self.names@.len(),
        ensures
            self@.contains_key(self.names@[i]@),
            self@[self.names@[i]@] == self.values@[i],
    {
        let name = self.names@[i]@;
        assert(is_at(self.names@, i, name));
        let j = choose|j: int| is_at(self.names@, j, name);
        assert(is_at(self.names@, j, name));
        assert(i == j);
    }

    /// Every name has a place.
    proof fn place_of(self, name: Seq<char>) -> (i: int)
        requires
            are_distinct(self.names@),
            self@.contains_key(name),
        ensures
            is_at(self.names@, i, name),
            self@[name] == self.values@[i],
    {
        let i = choose|i: int| is_at(self.names@, i, name);
        assert(is_at(self.names@, i, name));
        self.view_at(i);
        i
    }

    /// A registry without values.
    pub fn new() -> (r: Registry<V>)
        ensures
            r@ == Map::<Seq<char>, V>::empty(),
    {
        let r = Registry { names: Vec::new(), values: Vec::new() };
        assert(r@ =~= Map::<Seq<char>, V>::empty()) by {
            assert forall|name: Seq<char>| !(#[trigger] r@.contains_key(name)) by {
                assert(forall|i: int| !is_at(r.names@, i, name));
            }
        }
        r
    }

    /// Where the value of that name stands.
    fn position(&self, name: &str) -> (r: Option<usize>)
        ensures
            match r {
                Some(i) => is_at(self.names@, i as int, name@),
                None => forall|i: int| !is_at(self.names@, i, name@),
            },
            r is Some <==> self@.contains_key(name@),
    {
        let wanted = name.to_owned();
        let mut i: usize = 0;
        while i < self.names.len()
            invariant
                i <= self.names.len(),
                wanted@ == name@,
                forall|j: int| 0 <= j < i ==> !is_at(self.names@, j, name@),
            decreases self.names.len() - i,
        {
            if self.names[i] == wanted {
                assert(is_at(self.names@, i as int, name@));
                return Some(i);
            }
            i = i + 1;
        }
        None
    }

    /// The value of that name.
    pub fn get(&self, name: &str) -> (r: Option<&V>)
        ensures
            match r {
                Some(value) => self@.contains_key(name@) && *value == self@[name@],
                None => !self@.contains_key(name@),
            },
    {
        proof {
            use_type_invariant(self);
        }
        match self.position(name) {
            Some(i) => {
                proof {
                    self.view_at(i as int);
                }
                Some(&self.values[i])
            },
            None => None,
        }
    }

    /// The value of that name, to be changed in its place.
    pub fn get_mut(&mut self, name: &str) -> (r: Option<&mut V>)
        ensures
            match r {
                Some(value) => {
                    &&& old(self)@.contains_key(name@)
                    &&& *value == old(self)@[name@]
                    &&& final(self)@ == old(self)@.insert(name@, *final(value))
                },
                None => {
                    &&& !old(self)@.contains_key(name@)
                    &&& final(self)@ == old(self)@
                },
            },
    {
        proof {
            use_type_invariant(&*self);
        }
        match self.position(name) {
            Some(i) => {
                proof {
                    self.view_at(i as int);
                    replaced_value(*self, i as int);
                }
                Some(&mut self.values[i])
            },
            None => None,
        }
    }

    /// Takes the value of that name out.
    pub fn remove(&mut self, name: &str) -> (r: Option<V>)
        ensures
            final(self)@ == old(self)@.remove(name@),
            match r {
                Some(value) => old(self)@.contains_key(name@) && value == old(self)@[name@],
                None => !old(self)@.contains_key(name@),
            },
    {
        proof {
            use_type_invariant(&*self);
        }
        let ghost before = *self;
        match self.position(name) {
            Some(i) => {
                proof {
                    before.view_at(i as int);
                }
                let mut rest: Registry<V> = Registry { names: Vec::new(), values: Vec::new() };
                std::mem::swap(&mut rest, self);
                let Registry { mut names, mut values } = rest;
                names.remove(i);
                let value = values.remove(i);
                *self = Registry { names, values };
                proof {
                    taken_out(before, *self, i as int);
                }
                Some(value)
            },
            None => {
                assert(self@ =~= before@.remove(name@));
                None
            },
        }
    }

    /// Puts a value in, and takes the one out that had that name before.
    pub fn insert(&mut self, name: String, value: V) -> (r: Option<V>)
        ensures
            final(self)@ == old(self)@.insert(name@, value),
            match r {
                Some(value) => old(self)@.contains_key(name@) && value == old(self)@[name@],
                None => !old(self)@.contains_key(name@),
            },
    {
        let ghost start = *self;
        let replaced = self.remove(name.as_str());
        proof {
            use_type_invariant(&*self);
        }
        let ghost before = *self;
        let ghost key = name@;
        assert forall|i: int| 0 <= i < before.names@.len() implies (
        #[trigger] before.names@[i])@ != key by {
            before.view_at(i);
        }
        let mut rest: Registry<V> = Registry { names: Vec::new(), values: Vec::new() };
        std::mem::swap(&mut rest, self);
        let Registry { mut names, mut values } = rest;
        names.push(name);
        values.push(value);
        *self = Registry { names, values };
        proof {
            assert(self.names@.drop_last() =~= before.names@);
            assert(self.values@.drop_last() =~= before.values@);
            put_in(before, *self);
            assert(self@ =~= start@.insert(key, value));
        }
        replaced
    }
}

/// Another value in some place is another value for the name there, and nothing else.
proof fn replaced_value<V>(before: Registry<V>, i: int)
    requires
        before.well_formed(),
        0 <= i < before.names@.len(),
    ensures
        forall|after: Registry<V>|
            after.names == before.names && after.values@ == before.values@.update(
                i,
                after.values@[i],
            ) ==> #[trigger] after@ == before@.insert(before.names@[i]@, after.values@[i]),
{
    assert forall|after: Registry<V>|
        after.names == before.names && after.values@ == before.values@.update(
            i,
            after.values@[i],
        ) implies #[trigger] after@ == before@.insert(before.names@[i]@, after.values@[i]) by {
        let name = before.names@[i]@;
        after.view_at(i);
        assert forall|other: Seq<char>| other != name implies (
        #[trigger] after@.contains_key(other) <==> before@.contains_key(other)) && (
        before@.contains_key(other) ==> after@[other] == before@[other]) by {
            if before@.contains_key(other) {
                let j = before.place_of(other);
                after.view_at(j);
            }
        }
        assert(after@ =~= before@.insert(name, after.values@[i]));
    }
}

/// Without what stands in some place, the name there has no value, and the others have theirs.
proof fn taken_out<V>(before: Registry<V>, after: Registry<V>, i: int)
    requires
        before.well_formed(),
        0 <= i < before.names@.len(),
        after.names@ == before.names@.remove(i),
        after.values@ == before.values@.remove(i),
    ensures
        are_distinct(after.names@),
        after@ == before@.remove(before.names@[i]@),
{
    let name = before.names@[i]@;
    assert forall|k: int| 0 <= k < after.names@.len() implies #[trigger] after.names@[k]
        == before.names@[if k < i { k } else { k + 1 }] by {}
    assert(are_distinct(after.names@));
    assert forall|other: Seq<char>| other != name implies (
    #[trigger] after@.contains_key(other) <==> before@.contains_key(other)) && (
    before@.contains_key(other) ==> after@[other] == before@[other]) by {
        if before@.contains_key(other) {
            let j = before.place_of(other);
            let k = if j < i { j } else { j - 1 };
            assert(after.names@[k] == before.names@[j]);
            after.view_at(k);
        }
        if after@.contains_key(other) {
            let k = after.place_of(other);
            before.view_at(if k < i { k } else { k + 1 });
        }
    }
    if after@.contains_key(name) {
        let k = after.place_of(name);
        let j = if k < i { k } else { k + 1 };
        assert(before.names@[j]@ == before.names@[i]@);
    }
    assert(after@ =~= before@.remove(name));
}

/// With one more name and value at the end, that name has that value, and the others have theirs.
proof fn put_in<V>(before: Registry<V>, after: Registry<V>)
    requires
        before.well_formed(),
        after.well_formed(),
        after.names@.len() == before.names@.len() + 1,
        after.names@.drop_last() == before.names@,
        after.values@.drop_last() == before.values@,
    ensures
        after@ == before@.insert(after.names@.last()@, after.values@.last()),
{
    let last = before.names@.len() as int;
    let name = after.names@[last]@;
    after.view_at(last);
    assert forall|j: int| 0 <= j < last implies #[trigger] before.names@[j] == after.names@[j]
        && before.values@[j] == after.values@[j] by {
        assert(after.names@.drop_last()[j] == after.names@[j]);
        assert(after.values@.drop_last()[j] == after.values@[j]);
    }
    assert forall|other: Seq<char>| other != name implies (
    #[trigger] after@.contains_key(other) <==> before@.contains_key(other)) && (
    before@.contains_key(other) ==> after@[other] == before@[other]) by {
        if before@.contains_key(other) {
            let j = before.place_of(other);
            assert(before.names@[j] == after.names@[j]);
            after.view_at(j);
        }
        if after@.contains_key(other) {
            let k = after.place_of(other);
            assert(before.names@[k] == after.names@[k]);
            before.view_at(k);
        }
    }
    assert(after@ =~= before@.insert(name, after.values@.last()));
}

} // verus!
