//! The registry: the algorithms that a process can use, each under its name.
//!
//! A registry always holds the identity. Further algorithms are added while
//! the process starts; nothing is ever removed or replaced.

use crate::compressor::{Compressor, IdentityCompressor, TransformError, IDENTITY};
use crate::text::{is_token, str_eq, token};
use vstd::prelude::*;

verus! {

/// Why an algorithm was not added to a registry.
#[derive(Debug, Clone, Copy, PartialEq, Eq)]
pub enum RegistryError {
    /// The name is empty, or holds a character that a name cannot hold.
    InvalidName,
    /// The registry already holds an algorithm of that name.
    Duplicate,
}

/// What stands behind a name: the built-in identity, or an algorithm that
/// was handed in.
enum Implementation {
    Identity(IdentityCompressor),
    Plugin(Box<dyn Compressor>),
}

/// One algorithm of a registry, with the name it was registered under.
pub struct Entry {
    name: &'static str,
    implementation: Implementation,
}

impl Entry {
    /// The name is a token, and it is "identity" exactly for the built-in
    /// identity.
    #[verifier::type_invariant]
    spec fn valid(&self) -> bool {
        &&& is_token(self.name@)
        &&& self.implementation is Identity <==> self.name@ == IDENTITY@
    }

    /// The name, in contracts.
    pub closed spec fn spec_name(&self) -> &'static str {
        self.name
    }

    /// Whether this is the algorithm that leaves bytes as they are.
    pub open spec fn is_identity(&self) -> bool {
        self.name()@ == IDENTITY@
    }

    /// The entry of an algorithm that was handed in.
    fn plugin(name: &'static str, capability: Box<dyn Compressor>) -> (entry: Entry)
        requires
            is_token(name@),
            name@ != IDENTITY@,
        ensures
            entry.name() == name,
    {
        Entry { name, implementation: Implementation::Plugin(capability) }
    }

    /// The name under which the algorithm was registered.
    #[verifier::when_used_as_spec(spec_name)]
    pub fn name(&self) -> (name: &'static str)
        ensures
            name == self.spec_name(),
            is_token(name@),
    {
        proof {
            use_type_invariant(self);
        }
        self.name
    }

    /// Compresses `input`. The identity returns a copy of it; of any other
    /// algorithm the outcome is whatever its implementation returns.
    pub fn compress(&self, input: &[u8]) -> (outcome: Result<Vec<u8>, TransformError>)
        ensures
            self.is_identity() ==> (outcome matches Ok(bytes) && bytes@ == input@),
    {
        proof {
            use_type_invariant(self);
        }
        match &self.implementation {
            Implementation::Identity(identity) => identity.compress(input),
            Implementation::Plugin(plugin) => plugin.compress(input),
        }
    }

    /// Decompresses `input`, of which the caller takes no more than `limit`
    /// bytes. The identity returns a copy of `input`, whatever the limit; of
    /// any other algorithm the outcome is whatever its implementation
    /// returns.
    pub fn decompress(&self, input: &[u8], limit: usize) -> (outcome: Result<
        Vec<u8>,
        TransformError,
    >)
        ensures
            self.is_identity() ==> (outcome matches Ok(bytes) && bytes@ == input@),
    {
        proof {
            use_type_invariant(self);
        }
        match &self.implementation {
            Implementation::Identity(identity) => identity.decompress(input, limit),
            Implementation::Plugin(plugin) => plugin.decompress(input, limit),
        }
    }
}

/// The first of `entries` that is named `name`.
pub open spec fn find_entry(entries: Seq<Entry>, name: Seq<char>) -> Option<Entry>
    decreases entries.len(),
{
    if entries.len() == 0 {
        None
    } else if entries.first().name()@ == name {
        Some(entries.first())
    } else {
        find_entry(entries.drop_first(), name)
    }
}

/// The names of `entries`, in their order.
pub open spec fn entry_names(entries: Seq<Entry>) -> Seq<Seq<char>> {
    Seq::new(entries.len(), |i: int| entries[i].name()@)
}

/// What `register_as` answers for `name` where the names in `taken` are
/// already registered. The name of the identity always counts as taken.
pub open spec fn registration(taken: Seq<Seq<char>>, name: Seq<char>) -> Result<(), RegistryError> {
    if !is_token(name) {
        Err(RegistryError::InvalidName)
    } else if name == IDENTITY@ || taken.contains(name) {
        Err(RegistryError::Duplicate)
    } else {
        Ok(())
    }
}

/// The algorithms of a process, each under its name.
pub struct Registry {
    entries: Vec<Entry>,
}

impl Registry {
    /// The entries in the order of their registration.
    pub closed spec fn entries(&self) -> Seq<Entry> {
        self.entries@
    }

    /// The registered names, in the order of their registration.
    pub open spec fn names(&self) -> Seq<Seq<char>> {
        entry_names(self.entries())
    }

    /// Whether an algorithm is registered under `name`.
    pub open spec fn contains(&self, name: Seq<char>) -> bool {
        self.names().contains(name)
    }

    /// The entry registered under `name`.
    pub open spec fn lookup(&self, name: Seq<char>) -> Option<Entry> {
        find_entry(self.entries(), name)
    }

    /// The first entry is the identity, and no name is registered twice.
    /// This holds of every registry that `new` made, whatever was registered
    /// since.
    pub open spec fn wf(&self) -> bool {
        &&& self.names().len() > 0
        &&& self.names()[0] == IDENTITY@
        &&& self.names().no_duplicates()
    }

    /// A registry that holds the identity and nothing else.
    pub fn new() -> (registry: Registry)
        ensures
            registry.names() == seq![IDENTITY@],
            registry.wf(),
    {
        proof {
            lemma_identity_is_token();
        }
        let mut entries: Vec<Entry> = Vec::new();
        entries.push(
            Entry { name: IDENTITY, implementation: Implementation::Identity(IdentityCompressor {  }) },
        );
        let registry = Registry { entries };
        registry
    }

    /// The identity: the algorithm to fall back on, whatever is registered.
    pub fn identity(&self) -> (identity: IdentityCompressor)
        ensures
            identity == (IdentityCompressor {  }),
    {
        IdentityCompressor {  }
    }

    /// Looks `name` up, letter for letter.
    pub fn get(&self, name: &str) -> (found: Option<&Entry>)
        ensures
            match found {
                Some(entry) => self.lookup(name@) == Some(*entry),
                None => self.lookup(name@) is None,
            },
    {
        let mut i: usize = 0;
        assert(self.entries@.skip(0) == self.entries@);
        while i < self.entries.len()
            invariant
                i <= self.entries.len(),
                self.lookup(name@) == find_entry(self.entries@.skip(i as int), name@),
            decreases self.entries.len() - i,
        {
            if str_eq(self.entries[i].name, name) {
                return Some(&self.entries[i]);
            }
            assert(self.entries@.skip(i as int).drop_first() == self.entries@.skip(i + 1));
            i = i + 1;
        }
        None
    }

    /// Adds `capability` under the name that it gives itself.
    ///
    /// The name is asked for once, here. It decides what happens, as
    /// `register_as` says for each name.
    pub fn register(&mut self, capability: Box<dyn Compressor>) -> (result: Result<
        (),
        RegistryError,
    >)
        ensures
            exists|name: Seq<char>| #[trigger] registered(*old(self), name, *final(self), result),
            old(self).wf() ==> final(self).wf(),
    {
        let name = capability.name();
        self.register_as(name, capability)
    }

    /// Adds `capability` under `name`, unless `name` is no token or is taken
    /// already. Where it is not added the registry stays as it was.
    pub fn register_as(&mut self, name: &'static str, capability: Box<dyn Compressor>) -> (result:
        Result<(), RegistryError>)
        ensures
            registered(*old(self), name@, *final(self), result),
            old(self).wf() ==> final(self).wf(),
    {
        if !token(name) {
            return Err(RegistryError::InvalidName);
        }
        proof {
            self.lemma_lookup(name@);
        }
        if str_eq(name, IDENTITY) || self.get(name).is_some() {
            return Err(RegistryError::Duplicate);
        }
        let entry = Entry::plugin(name, capability);
        self.entries.push(entry);
        assert(self.entries().drop_last() =~= old(self).entries());
        assert(self.names() =~= old(self).names().push(name@));
        Ok(())
    }

    /// Every entry of a well-formed registry is found under its name, and
    /// the identity is among them.
    pub proof fn lemma_finds_each(&self, i: int)
        requires
            self.wf(),
            0 <= i < self.entries().len(),
        ensures
            self.lookup(self.names()[i]) == Some(self.entries()[i]),
            self.lookup(IDENTITY@) == Some(self.entries()[0]),
    {
        let names = self.names();
        assert forall|j: int| 0 <= j < i implies (#[trigger] self.entries()[j]).name()@
            != self.entries()[i].name()@ by {
            assert(names[j] != names[i]);
        }
        lemma_find_first(self.entries(), i);
        lemma_find_first(self.entries(), 0);
    }

    /// `lookup` finds an entry exactly for the registered names, and the
    /// entry that it finds has the name that was asked for.
    pub proof fn lemma_lookup(&self, name: Seq<char>)
        ensures
            self.lookup(name) is Some <==> self.contains(name),
            self.lookup(name) matches Some(entry) ==> entry.name()@ == name && self.entries().contains(
                entry,
            ),
    {
        lemma_find_entry(self.entries(), name);
    }
}

/// How `register_as` leaves a registry: `after` and `result` for the registry
/// `before` and the name. Where the algorithm is added it becomes the last
/// entry, and the entries before it stay as they were.
pub open spec fn registered(
    before: Registry,
    name: Seq<char>,
    after: Registry,
    result: Result<(), RegistryError>,
) -> bool {
    &&& result == registration(before.names(), name)
    &&& result is Ok ==> {
        &&& after.names() == before.names().push(name)
        &&& after.entries().drop_last() == before.entries()
    }
    &&& result is Err ==> after == before
}

/// `find_entry` finds an entry exactly for the names of `entries`, and the
/// entry that it finds is one of them and has the name that was asked for.
pub proof fn lemma_find_entry(entries: Seq<Entry>, name: Seq<char>)
    ensures
        find_entry(entries, name) is Some <==> entry_names(entries).contains(name),
        find_entry(entries, name) matches Some(entry) ==> entry.name()@ == name && entries.contains(
            entry,
        ),
    decreases entries.len(),
{
    let names = entry_names(entries);
    if entries.len() == 0 {
    } else if entries.first().name()@ == name {
        assert(names[0] == name);
    } else {
        let rest = entries.drop_first();
        lemma_find_entry(rest, name);
        let rest_names = entry_names(rest);
        if rest_names.contains(name) {
            let i = choose|i: int| 0 <= i < rest_names.len() && rest_names[i] == name;
            assert(names[i + 1] == name);
        }
        if names.contains(name) {
            let i = choose|i: int| 0 <= i < names.len() && names[i] == name;
            assert(rest_names[i - 1] == name);
        }
    }
}

/// The entry at `i` is found under its name where no entry before it has
/// that name.
proof fn lemma_find_first(entries: Seq<Entry>, i: int)
    requires
        0 <= i < entries.len(),
        forall|j: int| 0 <= j < i ==> (#[trigger] entries[j]).name()@ != entries[i].name()@,
    ensures
        find_entry(entries, entries[i].name()@) == Some(entries[i]),
    decreases i,
{
    if i > 0 {
        lemma_find_first(entries.drop_first(), i - 1);
    }
}

/// The name of the identity is a token.
pub proof fn lemma_identity_is_token()
    ensures
        is_token(IDENTITY@),
{
    reveal_strlit("identity");
}

} // verus!
