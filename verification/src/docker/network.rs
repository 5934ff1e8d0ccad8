//! Network naming and the idempotent create-network rule. Each host carries
//! one bridge network, named `TFBNetwork`; creating it when it already
//! exists must return the existing id, never a second network.

use vstd::prelude::*;

verus! {

/// How containers reach each other: a private bridge network, or the host's
/// own stack.
#[derive(Clone, Copy, Debug, PartialEq, Eq, Structural)]
pub enum NetworkMode {
    Bridge,
    Host,
}

/// First id registered under `name`, if any.
pub open spec fn spec_lookup(entries: Seq<(Seq<char>, Seq<char>)>, name: Seq<char>) -> Option<
    Seq<char>,
>
    decreases entries.len(),
{
    if entries.len() == 0 {
        None
    } else if entries[0].0 == name {
        Some(entries[0].1)
    } else {
        spec_lookup(entries.drop_first(), name)
    }
}

/// The inspect-fast-path create: an existing name keeps its table and id; a
/// missing one is appended with the fresh id.
pub open spec fn spec_create(
    entries: Seq<(Seq<char>, Seq<char>)>,
    name: Seq<char>,
    fresh: Seq<char>,
) -> (Seq<(Seq<char>, Seq<char>)>, Seq<char>) {
    match spec_lookup(entries, name) {
        Some(id) => (entries, id),
        None => (entries.push((name, fresh)), fresh),
    }
}

proof fn lemma_lookup_after_push(
    entries: Seq<(Seq<char>, Seq<char>)>,
    name: Seq<char>,
    fresh: Seq<char>,
)
    requires
        spec_lookup(entries, name) is None,
    ensures
        spec_lookup(entries.push((name, fresh)), name) == Some(fresh),
    decreases entries.len(),
{
    if entries.len() == 0 {
        assert(entries.push((name, fresh))[0] == (name, fresh));
    } else {
        assert(entries.push((name, fresh)).drop_first() =~= entries.drop_first().push(
            (name, fresh),
        ));
        lemma_lookup_after_push(entries.drop_first(), name, fresh);
    }
}

/// Creating the named network twice yields the same id: the second call
/// takes the inspect fast path and returns what the first created, whatever
/// fresh id the daemon would have handed out.
pub proof fn lemma_create_network_idempotent(
    entries: Seq<(Seq<char>, Seq<char>)>,
    name: Seq<char>,
    fresh1: Seq<char>,
    fresh2: Seq<char>,
)
    ensures
        ({
            let first = spec_create(entries, name, fresh1);
            let second = spec_create(first.0, name, fresh2);
            second.1 == first.1 && second.0 == first.0
        }),
{
    match spec_lookup(entries, name) {
        Some(id) => {
        },
        None => {
            lemma_lookup_after_push(entries, name, fresh1);
        },
    }
}

/// The networks a Docker host is known to carry: name–id pairs, in the order
/// they were created.
#[derive(Clone, Debug)]
pub struct NetworkTable {
    pub entries: Vec<(String, String)>,
}

impl NetworkTable {
    pub open spec fn view_entries(self) -> Seq<(Seq<char>, Seq<char>)> {
        self.entries.deep_view()
    }

    pub fn new() -> (r: Self)
        ensures
            r.view_entries() =~= Seq::<(Seq<char>, Seq<char>)>::empty(),
    {
        NetworkTable { entries: Vec::new() }
    }

    /// The id of the named network, if the host has it.
    pub fn lookup(&self, name: &str) -> (r: Option<String>)
        ensures
            r.deep_view() == spec_lookup(self.view_entries(), name@),
    {
        let mut i: usize = 0;
        proof {
            assert(self.view_entries().skip(0) =~= self.view_entries());
        }
        while i < self.entries.len()
            invariant
                0 <= i <= self.entries.len(),
                self.entries@.len() == self.view_entries().len(),
                spec_lookup(self.view_entries(), name@) == spec_lookup(
                    self.view_entries().skip(i as int),
                    name@,
                ),
            decreases self.entries.len() - i,
        {
            proof {
                assert(self.view_entries()[i as int] == (
                    self.entries@[i as int].0@,
                    self.entries@[i as int].1@,
                ));
                assert(self.view_entries().skip(i as int)[0] == self.view_entries()[i as int]);
                assert(self.view_entries().skip(i as int).drop_first()
                    =~= self.view_entries().skip(i as int + 1));
            }
            if crate::text::str_eq(self.entries[i].0.as_str(), name) {
                return Some(self.entries[i].1.clone());
            }
            i = i + 1;
        }
        proof {
            assert(self.view_entries().skip(self.view_entries().len() as int) =~= Seq::<
                (Seq<char>, Seq<char>),
            >::empty());
        }
        None
    }

    /// Idempotent create, via the inspect fast path: an existing name keeps
    /// its id; only a missing one is created, under the fresh id the daemon
    /// hands out.
    pub fn create_network(&mut self, name: &str, fresh_id: &str) -> (r: String)
        ensures
            ({
                let c = spec_create(old(self).view_entries(), name@, fresh_id@);
                final(self).view_entries() == c.0 && r@ == c.1
            }),
    {
        match self.lookup(name) {
            Some(id) => id,
            None => {
                let ghost old_e = self.view_entries();
                self.entries.push((String::from_str(name), String::from_str(fresh_id)));
                proof {
                    assert(self.view_entries() =~= old_e.push((name@, fresh_id@)));
                }
                String::from_str(fresh_id)
            },
        }
    }
}

} // verus!
