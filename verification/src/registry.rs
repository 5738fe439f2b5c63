//! The registry of commands: each name with the description of its command.

use vstd::prelude::*;
use crate::order::{
    compare_names, lemma_name_before_asymmetric, lemma_name_before_transitive,
    lemma_name_order_after, name_before, NameOrder,
};

verus! {

/// Whether each name comes before all that follow it in the sequence.
pub open spec fn increasing(names: Seq<Seq<char>>) -> bool {
    forall|i: int, j: int| 0 <= i < j < names.len() ==> name_before(names[i], names[j])
}

/// The map that takes each of `names` to the description at the same
/// position of `commands`.
pub open spec fn registry_map(names: Seq<Seq<char>>, commands: Seq<clap::Command>) -> Map<
    Seq<char>,
    clap::Command,
> {
    Map::new(|name: Seq<char>| names.contains(name), |name: Seq<char>| commands[names.index_of(name)])
}

/// The names of the map are the names of the sequence.
pub proof fn lemma_names_are_the_domain(names: Seq<Seq<char>>, commands: Seq<clap::Command>)
    ensures
        registry_map(names, commands).dom() == names.to_set(),
{
}

/// In an increasing sequence no name occurs twice.
pub proof fn lemma_increasing_no_duplicates(names: Seq<Seq<char>>)
    requires
        increasing(names),
    ensures
        names.no_duplicates(),
{
    assert forall|i: int, j: int|
        0 <= i < names.len() && 0 <= j < names.len() && i != j implies names[i] != names[j] by {
        if i < j {
            lemma_name_before_asymmetric(names[i], names[j]);
        } else {
            lemma_name_before_asymmetric(names[j], names[i]);
        }
    }
}

/// In a sequence without duplicates a name is found where it stands.
proof fn lemma_index_of(names: Seq<Seq<char>>, i: int)
    requires
        names.no_duplicates(),
        0 <= i < names.len(),
    ensures
        names.contains(names[i]),
        names.index_of(names[i]) == i,
{
}

/// Putting a new name at any place of the sequences adds it to the map.
proof fn lemma_map_insert(
    names: Seq<Seq<char>>,
    commands: Seq<clap::Command>,
    i: int,
    name: Seq<char>,
    command: clap::Command,
)
    requires
        names.no_duplicates(),
        names.len() == commands.len(),
        0 <= i <= names.len(),
        !names.contains(name),
    ensures
        names.insert(i, name).no_duplicates(),
        registry_map(names.insert(i, name), commands.insert(i, command)) == registry_map(
            names,
            commands,
        ).insert(name, command),
{
    let names2 = names.insert(i, name);
    let left = registry_map(names2, commands.insert(i, command));
    let right = registry_map(names, commands).insert(name, command);
    assert forall|n: Seq<char>| left.dom().contains(n) <==> right.dom().contains(n) by {
        if names.contains(n) {
            let at = names.index_of(n);
            assert(names2[if at < i { at } else { at + 1 }] == n);
        }
        if n == name {
            assert(names2[i] == n);
        }
    }
    assert forall|n: Seq<char>| left.dom().contains(n) implies left[n] == right[n] by {
        let at = names2.index_of(n);
        if at != i {
            lemma_index_of(names, if at < i { at } else { at - 1 });
        }
    }
}

/// Replacing the description at one place replaces it in the map.
proof fn lemma_map_update(
    names: Seq<Seq<char>>,
    commands: Seq<clap::Command>,
    i: int,
    command: clap::Command,
)
    requires
        names.no_duplicates(),
        names.len() == commands.len(),
        0 <= i < names.len(),
    ensures
        registry_map(names, commands.update(i, command)) == registry_map(names, commands).insert(
            names[i],
            command,
        ),
{
    let left = registry_map(names, commands.update(i, command));
    let right = registry_map(names, commands).insert(names[i], command);
    assert forall|n: Seq<char>| left.dom().contains(n) implies left[n] == right[n] by {
        let a = names.index_of(n);
        lemma_index_of(names, a);
    }
}

/// Putting a name between those before it and those after it keeps the
/// sequence increasing.
proof fn lemma_insert_increasing(names: Seq<Seq<char>>, i: int, name: Seq<char>)
    requires
        increasing(names),
        0 <= i <= names.len(),
        forall|j: int| 0 <= j < i ==> name_before(#[trigger] names[j], name),
        forall|j: int| i <= j < names.len() ==> name_before(name, #[trigger] names[j]),
    ensures
        increasing(names.insert(i, name)),
{
}

/// A name with the description of its command.
struct Entry {
    name: String,
    command: clap::Command,
}

/// A map from command names to descriptions, kept in the order of the names.
pub struct CommandRegistry {
    entries: Vec<Entry>,
}

impl View for CommandRegistry {
    type V = Map<Seq<char>, clap::Command>;

    open spec fn view(&self) -> Map<Seq<char>, clap::Command> {
        registry_map(self.names(), self.descriptions())
    }
}

impl Clone for CommandRegistry {
    /// A registry with the same names and descriptions.
    fn clone(&self) -> (r: Self)
        ensures
            r.names() == self.names(),
            r.descriptions() == self.descriptions(),
            r@ == self@,
    {
        proof {
            use_type_invariant(self);
        }
        let mut entries: Vec<Entry> = Vec::new();
        let mut i: usize = 0;
        while i < self.entries.len()
            invariant
                i <= self.entries@.len(),
                entries@.len() == i,
                forall|k: int|
                    0 <= k < i ==> (#[trigger] entries@[k]).name@ == self.entries@[k].name@
                        && entries@[k].command == self.entries@[k].command,
            decreases self.entries@.len() - i,
        {
            let entry = &self.entries[i];
            entries.push(Entry { name: entry.name.clone(), command: entry.command.clone() });
            i += 1;
        }
        assert(Seq::new(entries@.len(), |k: int| entries@[k].name@) =~= self.names());
        CommandRegistry { entries }
    }
}

impl CommandRegistry {
    /// The registered names, in the order in which the registry keeps them.
    pub closed spec fn names(&self) -> Seq<Seq<char>> {
        Seq::new(self.entries@.len(), |i: int| self.entries@[i].name@)
    }

    /// The descriptions, each at the position of its name in `names`.
    pub closed spec fn descriptions(&self) -> Seq<clap::Command> {
        Seq::new(self.entries@.len(), |i: int| self.entries@[i].command)
    }

    #[verifier::type_invariant]
    spec fn names_increase(&self) -> bool {
        increasing(self.names())
    }

    /// An empty registry.
    pub fn new() -> (r: Self)
        ensures
            r@ == Map::<Seq<char>, clap::Command>::empty(),
            r.names() == Seq::<Seq<char>>::empty(),
    {
        CommandRegistry { entries: Vec::new() }
    }

    /// The number of registered commands.
    pub fn len(&self) -> (n: usize)
        ensures
            n == self.names().len(),
            self.descriptions().len() == n,
            increasing(self.names()),
    {
        proof {
            use_type_invariant(self);
        }
        self.entries.len()
    }

    /// Looks for `name` among the registered names: `Ok` with its position,
    /// or `Err` with the position at which it would have to be put.
    fn search(&self, name: &str) -> (r: Result<usize, usize>)
        ensures
            increasing(self.names()),
            match r {
                Ok(i) => i < self.names().len() && self.names()[i as int] == name@,
                Err(i) => {
                    &&& i <= self.names().len()
                    &&& !self.names().contains(name@)
                    &&& forall|j: int| 0 <= j < i ==> name_before(#[trigger] self.names()[j], name@)
                    &&& forall|j: int|
                        i <= j < self.names().len() ==> name_before(
                            name@,
                            #[trigger] self.names()[j],
                        )
                },
            },
    {
        proof {
            use_type_invariant(self);
        }
        let mut lo: usize = 0;
        let mut hi: usize = self.entries.len();
        while lo < hi
            invariant
                lo <= hi <= self.entries@.len(),
                self.names().len() == self.entries@.len(),
                increasing(self.names()),
                forall|j: int| 0 <= j < lo ==> name_before(#[trigger] self.names()[j], name@),
                forall|j: int|
                    hi <= j < self.names().len() ==> name_before(name@, #[trigger] self.names()[j]),
            decreases hi - lo,
        {
            let mid = lo + (hi - lo) / 2;
            match compare_names(self.entries[mid].name.as_str(), name) {
                NameOrder::Same => {
                    return Ok(mid);
                },
                NameOrder::Before => {
                    assert forall|j: int| 0 <= j < mid + 1 implies name_before(
                        #[trigger] self.names()[j],
                        name@,
                    ) by {
                        if j < mid {
                            lemma_name_before_transitive(
                                self.names()[j],
                                self.names()[mid as int],
                                name@,
                            );
                        }
                    }
                    lo = mid + 1;
                },
                NameOrder::After => {
                    proof {
                        lemma_name_order_after(self.names()[mid as int], name@);
                    }
                    assert forall|j: int| mid <= j < self.names().len() implies name_before(
                        name@,
                        #[trigger] self.names()[j],
                    ) by {
                        if mid < j {
                            lemma_name_before_transitive(
                                name@,
                                self.names()[mid as int],
                                self.names()[j],
                            );
                        }
                    }
                    hi = mid;
                },
            }
        }
        assert forall|j: int| 0 <= j < self.names().len() implies self.names()[j] != name@ by {
            if j < lo {
                lemma_name_before_asymmetric(self.names()[j], name@);
            } else {
                lemma_name_before_asymmetric(name@, self.names()[j]);
            }
        }
        Err(lo)
    }

    /// Whether a command is registered under `name`.
    pub fn contains_key(&self, name: &str) -> (r: bool)
        ensures
            r == self@.dom().contains(name@),
    {
        match self.search(name) {
            Ok(_) => true,
            Err(_) => false,
        }
    }

    /// The description of the command registered under `name`.
    pub fn get(&self, name: &str) -> (r: Option<&clap::Command>)
        ensures
            match r {
                Some(command) => self@.dom().contains(name@) && *command == self@[name@],
                None => !self@.dom().contains(name@),
            },
    {
        match self.search(name) {
            Ok(i) => {
                proof {
                    lemma_increasing_no_duplicates(self.names());
                    lemma_index_of(self.names(), i as int);
                }
                Some(&self.entries[i].command)
            },
            Err(_) => None,
        }
    }

    /// The name at position `i` in the order of the names, with the
    /// description registered under it; `None` from the number of
    /// registered commands on.
    pub fn entry(&self, i: usize) -> (r: Option<(&str, &clap::Command)>)
        ensures
            increasing(self.names()),
            match r {
                Some((name, command)) => {
                    &&& i < self.names().len()
                    &&& name@ == self.names()[i as int]
                    &&& *command == self.descriptions()[i as int]
                    &&& *command == self@[name@]
                },
                None => i >= self.names().len(),
            },
    {
        proof {
            use_type_invariant(self);
        }
        if i < self.entries.len() {
            proof {
                lemma_increasing_no_duplicates(self.names());
                lemma_index_of(self.names(), i as int);
            }
            Some((self.entries[i].name.as_str(), &self.entries[i].command))
        } else {
            None
        }
    }

    /// Registers `command` under `name` and returns the description that
    /// was registered under that name before, if there was one.
    pub fn insert(&mut self, name: &str, command: clap::Command) -> (r: Option<clap::Command>)
        ensures
            final(self)@ == old(self)@.insert(name@, command),
            r == if old(self)@.dom().contains(name@) {
                Some(old(self)@[name@])
            } else {
                None::<clap::Command>
            },
            increasing(final(self).names()),
            old(self)@.dom().contains(name@) ==> final(self).names() == old(self).names(),
            !old(self)@.dom().contains(name@) ==> exists|i: int|
                0 <= i <= old(self).names().len() && final(self).names() == #[trigger] old(
                    self,
                ).names().insert(i, name@),
    {
        let found = self.search(name);
        proof {
            lemma_increasing_no_duplicates(self.names());
        }
        let ghost names = self.names();
        let ghost commands = self.descriptions();
        let mut entries: Vec<Entry> = Vec::new();
        core::mem::swap(&mut self.entries, &mut entries);
        let previous = match found {
            Ok(i) => {
                let mut command = command;
                core::mem::swap(&mut entries[i].command, &mut command);
                Some(command)
            },
            Err(i) => {
                entries.insert(i, Entry { name: name.to_owned(), command });
                None
            },
        };
        proof {
            let names2 = Seq::new(entries@.len(), |k: int| entries@[k].name@);
            match found {
                Ok(i) => {
                    lemma_index_of(names, i as int);
                    lemma_map_update(names, commands, i as int, command);
                    assert(names2 =~= names);
                },
                Err(i) => {
                    lemma_map_insert(names, commands, i as int, name@, command);
                    lemma_insert_increasing(names, i as int, name@);
                    assert(names2 =~= names.insert(i as int, name@));
                },
            }
        }
        core::mem::swap(&mut self.entries, &mut entries);
        previous
    }
}

} // verus!
