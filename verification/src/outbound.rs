//! Outbound backends and the name-to-backend registry.
//!
//! The registry is built once at startup and read-only afterwards; a lookup
//! succeeds exactly for names that were registered.

use vstd::prelude::*;

use crate::rules::str_eq;

verus! {

/// The capability every pluggable backend offers: naming, datagram support,
/// dialing, and liveness. Backend-tunnel kinds outside this crate implement
/// it; the library itself routes by name and leaves dialing to the caller.
pub trait Proxy {
    fn name(&self) -> &'static str;

    fn udp(&self) -> bool;

    fn dial(&self) -> Result<(), &'static str>;

    fn alive(&self) -> bool;
}

/// The backend that connects straight to the destination.
pub struct Direct {
    name: String,
}

impl Direct {
    /// The backend's registered name.
    pub closed spec fn name_spec(self) -> Seq<char> {
        self.name@
    }

    /// A direct backend registered under `name`.
    pub fn new(name: &str) -> (r: Direct)
        ensures
            r.name_spec() == name@,
    {
        Direct { name: name.to_owned() }
    }

    /// The backend's name.
    pub fn name(&self) -> (r: String)
        ensures
            r@ == self.name_spec(),
    {
        self.name.clone()
    }

    /// The direct backend supports datagram flows.
    pub fn udp(&self) -> (r: bool)
        ensures
            r == true,
    {
        true
    }

    /// The direct backend is always considered alive.
    pub fn alive(&self) -> (r: bool)
        ensures
            r == true,
    {
        true
    }
}

/// The closed set of backend implementations the library itself carries.
/// Other kinds share the `Proxy` capability and are dialed outside.
pub enum Outbound {
    Direct(Direct),
}

impl Outbound {
    /// The backend's registered name.
    pub open spec fn name_spec(self) -> Seq<char> {
        match self {
            Outbound::Direct(d) => d.name_spec(),
        }
    }

    /// Whether the backend supports datagram flows.
    pub fn udp(&self) -> (r: bool)
        ensures
            r == true,
    {
        match self {
            Outbound::Direct(d) => d.udp(),
        }
    }
}

/// A name was not registered.
#[derive(Clone, Copy, PartialEq, Eq, Structural, Debug)]
pub struct NotFoundError;

/// A name was registered twice.
#[derive(Clone, Copy, PartialEq, Eq, Structural, Debug)]
pub struct DuplicateNameError;

/// The immutable name-to-backend table.
pub struct Registry {
    entries: Vec<(String, Outbound)>,
}

impl Registry {
    /// The registered pairs, in registration order.
    pub closed spec fn entries_seq(self) -> Seq<(String, Outbound)> {
        self.entries@
    }

    /// Registered names are unique.
    pub open spec fn wf(self) -> bool {
        forall|i: int, j: int|
            0 <= i < j < self.entries_seq().len() ==> self.entries_seq()[i].0@
                != self.entries_seq()[j].0@
    }

    /// The backend registered under `name`, if any.
    pub open spec fn find_spec(self, name: Seq<char>) -> Option<Outbound> {
        Self::find_in(self.entries_seq(), name)
    }

    pub open spec fn find_in(entries: Seq<(String, Outbound)>, name: Seq<char>) -> Option<
        Outbound,
    >
        decreases entries.len(),
    {
        if entries.len() == 0 {
            None
        } else if entries[0].0@ == name {
            Some(entries[0].1)
        } else {
            Self::find_in(entries.subrange(1, entries.len() as int), name)
        }
    }

    /// An empty registry.
    pub fn new() -> (r: Registry)
        ensures
            r.entries_seq() == Seq::<(String, Outbound)>::empty(),
            r.wf(),
    {
        Registry { entries: Vec::new() }
    }

    /// Register a backend; fails exactly when the name is already present.
    pub fn register(&mut self, name: String, outbound: Outbound) -> (r: Result<
        (),
        DuplicateNameError,
    >)
        requires
            old(self).wf(),
        ensures
            final(self).wf(),
            match old(self).find_spec(name@) {
                Some(_) => r is Err && *final(self) == *old(self),
                None => r is Ok && final(self).entries_seq() == old(self).entries_seq().push(
                    (name, outbound),
                ),
            },
    {
        if self.contains(name.as_str()) {
            return Err(DuplicateNameError);
        }
        proof {
            lemma_find_in_none_no_name(self.entries_seq(), name@);
        }
        let ghost before = self.entries_seq();
        self.entries.push((name, outbound));
        proof {
            assert forall|i: int, j: int|
                0 <= i < j < self.entries_seq().len() implies self.entries_seq()[i].0@
                != self.entries_seq()[j].0@ by {
                if j < before.len() {
                } else {
                    assert(self.entries_seq()[i] == before[i]);
                }
            }
        }
        Ok(())
    }

    /// Whether a backend is registered under `name`.
    pub fn contains(&self, name: &str) -> (r: bool)
        ensures
            r == (self.find_spec(name@) is Some),
    {
        let ghost whole = self.entries_seq();
        let mut i: usize = 0;
        proof {
            assert(whole.subrange(0, whole.len() as int) =~= whole);
        }
        while i < self.entries.len()
            invariant
                i <= whole.len(),
                self.entries_seq() == whole,
                Self::find_in(whole, name@) == Self::find_in(
                    whole.subrange(i as int, whole.len() as int),
                    name@,
                ),
            decreases whole.len() - i,
        {
            let ghost rest = whole.subrange(i as int, whole.len() as int);
            proof {
                assert(rest[0] == whole[i as int]);
                assert(rest.subrange(1, rest.len() as int) =~= whole.subrange(
                    i + 1,
                    whole.len() as int,
                ));
            }
            if str_eq(self.entries[i].0.as_str(), name) {
                return true;
            }
            i = i + 1;
        }
        false
    }

    /// Look a backend up by name; fails exactly for unregistered names.
    pub fn lookup(&self, name: &str) -> (r: Result<&Outbound, NotFoundError>)
        ensures
            match r {
                Ok(o) => self.find_spec(name@) == Some(*o),
                Err(_) => self.find_spec(name@) is None,
            },
    {
        let ghost whole = self.entries_seq();
        let mut i: usize = 0;
        proof {
            assert(whole.subrange(0, whole.len() as int) =~= whole);
        }
        while i < self.entries.len()
            invariant
                i <= whole.len(),
                self.entries_seq() == whole,
                Self::find_in(whole, name@) == Self::find_in(
                    whole.subrange(i as int, whole.len() as int),
                    name@,
                ),
            decreases whole.len() - i,
        {
            let ghost rest = whole.subrange(i as int, whole.len() as int);
            proof {
                assert(rest[0] == whole[i as int]);
                assert(rest.subrange(1, rest.len() as int) =~= whole.subrange(
                    i + 1,
                    whole.len() as int,
                ));
            }
            if str_eq(self.entries[i].0.as_str(), name) {
                return Ok(&self.entries[i].1);
            }
            i = i + 1;
        }
        Err(NotFoundError)
    }
}

/// If a name is absent from the registry, no entry carries it.
proof fn lemma_find_in_none_no_name(entries: Seq<(String, Outbound)>, name: Seq<char>)
    requires
        Registry::find_in(entries, name) is None,
    ensures
        forall|i: int| 0 <= i < entries.len() ==> entries[i].0@ != name,
    decreases entries.len(),
{
    if entries.len() > 0 {
        let rest = entries.subrange(1, entries.len() as int);
        lemma_find_in_none_no_name(rest, name);
        assert forall|i: int| 0 <= i < entries.len() implies entries[i].0@ != name by {
            if i > 0 {
                assert(entries[i] == rest[i - 1]);
            }
        }
    }
}

} // verus!
