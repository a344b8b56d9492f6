//! The registry of templates: names, each with the directory of its
//! template and an optional description.

use vstd::prelude::*;
use vstd::string::*;
use crate::text::{same_text, texts};

verus! {

/// What the registry records of a template.
#[derive(Clone, Debug, PartialEq, Eq)]
pub struct RegistryInfo {
    pub description: Option<String>,
    pub path: String,
}

/// A name with its record.
#[derive(Clone, Debug, PartialEq, Eq)]
pub struct RegistryEntry {
    pub name: String,
    pub info: RegistryInfo,
}

/// The registered templates, in the order of their registration. No name
/// stands in it twice.
#[derive(Debug, PartialEq, Eq)]
pub struct Registry {
    entries: Vec<RegistryEntry>,
}

/// What became of a request to register a template.
#[derive(Clone, Copy, Debug, PartialEq, Eq, Structural)]
pub enum Registration {
    /// The name was new and has been added.
    Added,
    /// The name was taken and its record has been replaced.
    Overwritten,
    /// The name was taken and its record has been kept.
    AlreadyRegistered,
}

/// A name that the registry does not hold.
#[derive(Clone, Debug, PartialEq, Eq)]
pub struct NotRegistered {
    pub name: String,
}

/// The names of a run of entries, in order.
pub open spec fn entry_names(entries: Seq<RegistryEntry>) -> Seq<Seq<char>> {
    Seq::new(entries.len(), |i: int| entries[i].name@)
}

/// No two entries bear the same name.
pub open spec fn distinct_names(entries: Seq<RegistryEntry>) -> bool {
    forall|i: int, j: int|
        0 <= i < j < entries.len() ==> (#[trigger] entries[i]).name@ != (#[trigger] entries[j]).name@
}

/// How a registered template is listed: its name, then its description if
/// it has one, then its path.
pub open spec fn listed(name: Seq<char>, info: RegistryInfo) -> Seq<char> {
    match info.description {
        Some(description) => name + ":\n\tdescription: "@ + description@ + "\n\tpath: "@
            + info.path@,
        None => name + ":\n\tpath: "@ + info.path@,
    }
}

/// A template that asks to be registered.
#[derive(Clone, Debug, PartialEq, Eq)]
pub struct Candidate {
    pub name: String,
    pub info: RegistryInfo,
}

/// What becomes of a request to register `name`.
pub open spec fn outcome_of(
    records: Map<Seq<char>, RegistryInfo>,
    name: Seq<char>,
    overwrite: bool,
) -> Registration {
    if !records.contains_key(name) {
        Registration::Added
    } else if overwrite {
        Registration::Overwritten
    } else {
        Registration::AlreadyRegistered
    }
}

/// The records after a request to register `name` with `info`.
pub open spec fn registered(
    records: Map<Seq<char>, RegistryInfo>,
    name: Seq<char>,
    info: RegistryInfo,
    overwrite: bool,
) -> Map<Seq<char>, RegistryInfo> {
    if outcome_of(records, name, overwrite) == Registration::AlreadyRegistered {
        records
    } else {
        records.insert(name, info)
    }
}

/// The records after the candidates have asked in turn, with what became
/// of each request.
pub open spec fn registered_all(
    records: Map<Seq<char>, RegistryInfo>,
    candidates: Seq<Candidate>,
    overwrite: bool,
) -> (Map<Seq<char>, RegistryInfo>, Seq<Registration>)
    decreases candidates.len(),
{
    if candidates.len() == 0 {
        (records, Seq::empty())
    } else {
        let (before, outcomes) = registered_all(records, candidates.drop_last(), overwrite);
        let last = candidates.last();
        (
            registered(before, last.name@, last.info, overwrite),
            outcomes.push(outcome_of(before, last.name@, overwrite)),
        )
    }
}

/// The order of the names after the candidates have asked in turn: a name
/// that is new when its turn comes is put at the end, and no other name
/// moves.
pub open spec fn named_all(
    names: Seq<Seq<char>>,
    records: Map<Seq<char>, RegistryInfo>,
    candidates: Seq<Candidate>,
    overwrite: bool,
) -> Seq<Seq<char>>
    decreases candidates.len(),
{
    if candidates.len() == 0 {
        names
    } else {
        let before = named_all(names, records, candidates.drop_last(), overwrite);
        let held = registered_all(records, candidates.drop_last(), overwrite).0;
        if held.contains_key(candidates.last().name@) {
            before
        } else {
            before.push(candidates.last().name@)
        }
    }
}

/// The order of the names without one of them: its place is closed up, and
/// an order that does not hold it stays as it is.
pub open spec fn without_name(names: Seq<Seq<char>>, name: Seq<char>) -> Seq<Seq<char>> {
    if names.contains(name) {
        names.remove(names.index_of(name))
    } else {
        names
    }
}

/// The order of the names after the first `count` of `gone` have left in
/// turn.
pub open spec fn names_without(names: Seq<Seq<char>>, gone: Seq<Seq<char>>, count: int) -> Seq<
    Seq<char>,
>
    decreases count,
{
    if count <= 0 {
        names
    } else {
        without_name(names_without(names, gone, count - 1), gone[count - 1])
    }
}

/// The records without the first `count` of the names.
pub open spec fn without_names(
    records: Map<Seq<char>, RegistryInfo>,
    names: Seq<Seq<char>>,
    count: int,
) -> Map<Seq<char>, RegistryInfo>
    decreases count,
{
    if count <= 0 {
        records
    } else {
        without_names(records, names, count - 1).remove(names[count - 1])
    }
}

/// The first of the names that is not there when its turn to leave comes,
/// the names before it having left: its place, or the count of the names
/// where each is there in its turn.
pub open spec fn first_missing(
    records: Map<Seq<char>, RegistryInfo>,
    names: Seq<Seq<char>>,
    place: int,
) -> bool {
    &&& 0 <= place <= names.len()
    &&& forall|i: int|
        0 <= i < place ==> without_names(records, names, i).contains_key(#[trigger] names[i])
    &&& place < names.len() ==> !without_names(records, names, place).contains_key(names[place])
}

/// How many of the requests have changed the registry.
pub open spec fn changes(outcomes: Seq<Registration>) -> nat
    decreases outcomes.len(),
{
    if outcomes.len() == 0 {
        0
    } else if outcomes.last() == Registration::AlreadyRegistered {
        changes(outcomes.drop_last())
    } else {
        changes(outcomes.drop_last()) + 1
    }
}

/// Counts the requests that have changed the registry.
pub fn count_changes(outcomes: &Vec<Registration>) -> (count: usize)
    ensures
        count == changes(outcomes@),
{
    let mut count: usize = 0;
    let mut next: usize = 0;
    assert(outcomes@.take(0) =~= Seq::<Registration>::empty());
    while next < outcomes.len()
        invariant
            next <= outcomes@.len(),
            count <= next,
            count == changes(outcomes@.take(next as int)),
        decreases outcomes@.len() - next,
    {
        proof {
            let taken = outcomes@.take(next + 1);
            assert(taken.drop_last() =~= outcomes@.take(next as int));
            assert(taken.last() == outcomes@[next as int]);
        }
        if outcomes[next].has_changed() {
            count += 1;
        }
        next += 1;
    }
    assert(outcomes@.take(next as int) =~= outcomes@);
    count
}

/// How a name is reported that a run asks for and the registry does not
/// hold: the name between apostrophes.
pub open spec fn missing_text(name: Seq<char>) -> Seq<char> {
    "Template '"@ + name + "' not found in registry"@
}

/// How a name is reported that was to be removed and is not registered:
/// the name between backticks.
pub open spec fn removal_text(name: Seq<char>) -> Seq<char> {
    "Template `"@ + name + "` not found in registry"@
}

/// What is said of a registration, with the name it was asked for.
pub open spec fn registration_text(outcome: Registration, name: Seq<char>) -> Seq<char> {
    match outcome {
        Registration::Added => "Adding template `"@ + name + "`"@,
        Registration::Overwritten => "Overwriting template `"@ + name + "`"@,
        Registration::AlreadyRegistered => "Template `"@ + name
            + "` already registered - not adding"@,
    }
}

/// The name that a template is registered under: the one its manifest
/// gives, or else the name of its directory.
pub open spec fn name_of(configured: Option<String>, directory: Seq<char>) -> Seq<char> {
    match configured {
        Some(name) => name@,
        None => directory,
    }
}

impl NotRegistered {
    /// The report of a failed lookup in one line.
    pub fn describe(&self) -> (text: String)
        ensures
            text@ == missing_text(self.name@),
    {
        let mut text = "Template '".to_owned();
        text.append(self.name.as_str());
        text.append("' not found in registry");
        text
    }

    /// The report of a failed removal in one line.
    pub fn describe_removal(&self) -> (text: String)
        ensures
            text@ == removal_text(self.name@),
    {
        let mut text = "Template `".to_owned();
        text.append(self.name.as_str());
        text.append("` not found in registry");
        text
    }
}

impl Registration {
    /// What is said of the registration of `name`.
    pub fn describe(&self, name: &str) -> (text: String)
        ensures
            text@ == registration_text(*self, name@),
    {
        match self {
            Registration::Added => {
                let mut text = "Adding template `".to_owned();
                text.append(name);
                text.append("`");
                text
            },
            Registration::Overwritten => {
                let mut text = "Overwriting template `".to_owned();
                text.append(name);
                text.append("`");
                text
            },
            Registration::AlreadyRegistered => {
                let mut text = "Template `".to_owned();
                text.append(name);
                text.append("` already registered - not adding");
                text
            },
        }
    }

    /// Whether the registry has changed.
    pub fn has_changed(&self) -> (changed: bool)
        ensures
            changed == (*self != Registration::AlreadyRegistered),
    {
        match self {
            Registration::AlreadyRegistered => false,
            _ => true,
        }
    }
}

/// Gives the name that a template is registered under: the one its
/// manifest gives, or else the name of its directory.
pub fn registered_name(configured: Option<String>, directory: &str) -> (name: String)
    ensures
        name@ == name_of(configured, directory@),
{
    match configured {
        Some(name) => name,
        None => directory.to_owned(),
    }
}

impl RegistryInfo {
    /// The lines under which the template is listed.
    pub fn describe(&self, name: &str) -> (text: String)
        ensures
            text@ == listed(name@, *self),
    {
        let mut text = name.to_owned();
        match &self.description {
            Some(description) => {
                text.append(":\n\tdescription: ");
                text.append(description.as_str());
                text.append("\n\tpath: ");
            },
            None => {
                text.append(":\n\tpath: ");
            },
        }
        text.append(self.path.as_str());
        text
    }
}

impl View for Registry {
    type V = Map<Seq<char>, RegistryInfo>;

    /// The record of each registered name.
    closed spec fn view(&self) -> Map<Seq<char>, RegistryInfo> {
        Map::new(
            |name: Seq<char>| entry_names(self.entries@).contains(name),
            |name: Seq<char>| self.entries@[entry_names(self.entries@).index_of(name)].info,
        )
    }
}

impl Registry {
    #[verifier::type_invariant]
    spec fn well_formed(self) -> bool {
        distinct_names(self.entries@)
    }

    /// The registered names in the order of their registration.
    pub closed spec fn names(&self) -> Seq<Seq<char>> {
        entry_names(self.entries@)
    }

    /// A registry without templates.
    pub fn new() -> (registry: Registry)
        ensures
            registry@ == Map::<Seq<char>, RegistryInfo>::empty(),
            registry.names() == Seq::<Seq<char>>::empty(),
    {
        let registry = Registry { entries: Vec::new() };
        assert(registry@ =~= Map::<Seq<char>, RegistryInfo>::empty());
        assert(registry.names() =~= Seq::<Seq<char>>::empty());
        registry
    }

    /// The number of registered templates.
    pub fn len(&self) -> (count: usize)
        ensures
            count == self.names().len(),
            count == self@.dom().len(),
    {
        proof {
            use_type_invariant(self);
            self.domain_is_names();
            entry_names(self.entries@).unique_seq_to_set();
        }
        self.entries.len()
    }

    /// Whether no template is registered.
    pub fn is_empty(&self) -> (empty: bool)
        ensures
            empty == (self.names().len() == 0),
            empty == (self@ == Map::<Seq<char>, RegistryInfo>::empty()),
    {
        proof {
            self.domain_is_names();
            if self.entries@.len() == 0 {
                assert(self@ =~= Map::<Seq<char>, RegistryInfo>::empty());
            } else {
                assert(entry_names(self.entries@)[0] == self.entries@[0].name@);
                assert(self@.dom().contains(self.entries@[0].name@));
            }
        }
        self.entries.len() == 0
    }

    /// The entries in the order of their registration.
    pub fn entries(&self) -> (entries: &Vec<RegistryEntry>)
        ensures
            entry_names(entries@) == self.names(),
            distinct_names(entries@),
            forall|i: int|
                0 <= i < entries@.len() ==> self@.contains_key(#[trigger] entries@[i].name@)
                    && self@[entries@[i].name@] == entries@[i].info,
    {
        proof {
            use_type_invariant(self);
            assert forall|i: int| 0 <= i < self.entries@.len() implies self@.contains_key(
                #[trigger] self.entries@[i].name@,
            ) && self@[self.entries@[i].name@] == self.entries@[i].info by {
                self.entry_is_mapped(i);
            }
        }
        &self.entries
    }

    /// What a listing of the registry shows: one text for each template in
    /// the order of registration.
    pub fn listing(&self) -> (shown: Vec<String>)
        ensures
            shown@.len() == self.names().len(),
            forall|i: int|
                0 <= i < shown@.len() ==> self@.contains_key(self.names()[i]) && (
                #[trigger] shown@[i])@ == listed(self.names()[i], self@[self.names()[i]]),
    {
        proof {
            use_type_invariant(self);
        }
        let mut shown: Vec<String> = Vec::new();
        let mut next: usize = 0;
        while next < self.entries.len()
            invariant
                next <= self.entries@.len(),
                self.well_formed(),
                shown@.len() == next,
                forall|i: int|
                    0 <= i < next ==> self@.contains_key(self.names()[i]) && (#[trigger] shown@[i])@
                        == listed(self.names()[i], self@[self.names()[i]]),
            decreases self.entries@.len() - next,
        {
            let entry = &self.entries[next];
            proof {
                self.entry_is_mapped(next as int);
            }
            shown.push(entry.info.describe(entry.name.as_str()));
            next += 1;
        }
        shown
    }

    /// The record of a name, if the name is registered.
    pub fn lookup(&self, name: &str) -> (found: Option<&RegistryInfo>)
        ensures
            match found {
                Some(info) => self@.contains_key(name@) && *info == self@[name@],
                None => !self@.contains_key(name@),
            },
    {
        match self.position(name) {
            Some(at) => {
                proof {
                    use_type_invariant(self);
                    self.entry_is_mapped(at as int);
                }
                Some(&self.entries[at].info)
            },
            None => None,
        }
    }

    /// Registers a template. A new name is added at the end. A name that is
    /// taken has its record replaced where `overwrite` is set, and is left
    /// alone where it is not.
    pub fn register(&mut self, name: String, info: RegistryInfo, overwrite: bool) -> (outcome:
        Registration)
        ensures
            outcome == outcome_of(old(self)@, name@, overwrite),
            final(self)@ == registered(old(self)@, name@, info, overwrite),
            final(self).names() == (if outcome == Registration::Added {
                old(self).names().push(name@)
            } else {
                old(self).names()
            }),
    {
        proof {
            use_type_invariant(&*self);
        }
        let ghost before = *self;
        match self.position(name.as_str()) {
            Some(at) => {
                proof {
                    before.entry_is_mapped(at as int);
                }
                if overwrite {
                    let mut entries: Vec<RegistryEntry> = Vec::new();
                    std::mem::swap(&mut entries, &mut self.entries);
                    entries.set(at, RegistryEntry { name, info });
                    proof {
                        assert(entry_names(entries@) =~= entry_names(before.entries@));
                        assert forall|i: int, j: int| 0 <= i < j < entries@.len() implies (
                        #[trigger] entries@[i]).name@ != (#[trigger] entries@[j]).name@ by {
                            assert(entry_names(entries@)[i] == entry_names(before.entries@)[i]);
                            assert(entry_names(entries@)[j] == entry_names(before.entries@)[j]);
                            assert(before.entries@[i].name@ != before.entries@[j].name@);
                        }
                    }
                    self.entries = entries;
                    proof {
                        assert forall|key: Seq<char>| #[trigger]
                            self@.contains_key(key) implies before@.contains_key(key) && self@[key]
                            == before@.insert(name@, info)[key] by {
                            let i = entry_names(self.entries@).index_of(key);
                            self.entry_is_mapped(i);
                            before.entry_is_mapped(i);
                        }
                        assert forall|key: Seq<char>| #[trigger]
                            before@.contains_key(key) implies self@.contains_key(key) by {
                            let i = entry_names(before.entries@).index_of(key);
                            before.entry_is_mapped(i);
                            self.entry_is_mapped(i);
                        }
                        assert(self@ =~= before@.insert(name@, info));
                    }
                    Registration::Overwritten
                } else {
                    Registration::AlreadyRegistered
                }
            },
            None => {
                let mut entries: Vec<RegistryEntry> = Vec::new();
                std::mem::swap(&mut entries, &mut self.entries);
                entries.push(RegistryEntry { name, info });
                proof {
                    assert(entry_names(entries@) =~= entry_names(before.entries@).push(name@));
                    assert forall|i: int, j: int| 0 <= i < j < entries@.len() implies (
                    #[trigger] entries@[i]).name@ != (#[trigger] entries@[j]).name@ by {
                        if j < before.entries@.len() {
                            assert(before.entries@[i].name@ != before.entries@[j].name@);
                        } else {
                            assert(entry_names(before.entries@)[i] == before.entries@[i].name@);
                        }
                    }
                }
                self.entries = entries;
                proof {
                    let last = self.entries@.len() - 1;
                    assert forall|key: Seq<char>| #[trigger]
                        self@.contains_key(key) implies before@.insert(name@, info).contains_key(
                        key,
                    ) && self@[key] == before@.insert(name@, info)[key] by {
                        let i = entry_names(self.entries@).index_of(key);
                        self.entry_is_mapped(i);
                        if i != last {
                            assert(self.entries@[i] == before.entries@[i]);
                            before.entry_is_mapped(i);
                        }
                    }
                    assert forall|key: Seq<char>| #[trigger]
                        before@.insert(name@, info).contains_key(key) implies self@.contains_key(
                        key,
                    ) by {
                        if key == name@ {
                            assert(entry_names(self.entries@)[last] == key);
                        } else {
                            let i = entry_names(before.entries@).index_of(key);
                            assert(entry_names(self.entries@)[i] == key);
                        }
                    }
                    assert(self@ =~= before@.insert(name@, info));
                }
                Registration::Added
            },
        }
    }

    /// Registers the candidates in turn, each as [`Registry::register`]
    /// does, and says what became of each request.
    pub fn register_all(&mut self, candidates: Vec<Candidate>, overwrite: bool) -> (outcomes: Vec<
        Registration,
    >)
        ensures
            (final(self)@, outcomes@) == registered_all(old(self)@, candidates@, overwrite),
            final(self).names() == named_all(
                old(self).names(),
                old(self)@,
                candidates@,
                overwrite,
            ),
    {
        let mut outcomes: Vec<Registration> = Vec::new();
        let ghost asked = candidates@;
        assert(asked.take(0) =~= Seq::<Candidate>::empty());
        for candidate in iter: candidates
            invariant
                iter.seq() == asked,
                (self@, outcomes@) == registered_all(
                    old(self)@,
                    asked.take(iter.index()),
                    overwrite,
                ),
                self.names() == named_all(
                    old(self).names(),
                    old(self)@,
                    asked.take(iter.index()),
                    overwrite,
                ),
        {
            proof {
                let taken = asked.take(iter.index() + 1);
                assert(taken.drop_last() =~= asked.take(iter.index()));
                assert(taken.last() == candidate);
            }
            let Candidate { name, info } = candidate;
            let outcome = self.register(name, info, overwrite);
            outcomes.push(outcome);
        }
        assert(asked.take(asked.len() as int) =~= asked);
        outcomes
    }

    /// Takes a name out of the registry and says whether it was there.
    pub fn remove(&mut self, name: &str) -> (removed: bool)
        ensures
            removed == old(self)@.contains_key(name@),
            final(self)@ == old(self)@.remove(name@),
            final(self).names() == without_name(old(self).names(), name@),
    {
        proof {
            use_type_invariant(&*self);
            self.domain_is_names();
        }
        let ghost before = *self;
        match self.position(name) {
            Some(at) => {
                proof {
                    before.entry_is_mapped(at as int);
                }
                let mut entries: Vec<RegistryEntry> = Vec::new();
                std::mem::swap(&mut entries, &mut self.entries);
                entries.remove(at);
                proof {
                    assert(entry_names(entries@) =~= entry_names(before.entries@).remove(
                        at as int,
                    ));
                    assert forall|i: int, j: int| 0 <= i < j < entries@.len() implies (
                    #[trigger] entries@[i]).name@ != (#[trigger] entries@[j]).name@ by {
                        let bi = if i < at { i } else { i + 1 };
                        let bj = if j < at { j } else { j + 1 };
                        assert(before.entries@[bi].name@ != before.entries@[bj].name@);
                    }
                }
                self.entries = entries;
                proof {
                    assert forall|key: Seq<char>| #[trigger]
                        self@.contains_key(key) implies before@.remove(name@).contains_key(key)
                        && self@[key] == before@.remove(name@)[key] by {
                        let i = entry_names(self.entries@).index_of(key);
                        self.entry_is_mapped(i);
                        let bi = if i < at { i } else { i + 1 };
                        assert(self.entries@[i] == before.entries@[bi]);
                        before.entry_is_mapped(bi);
                        assert(before.entries@[bi].name@ != before.entries@[at as int].name@);
                    }
                    assert forall|key: Seq<char>| #[trigger]
                        before@.remove(name@).contains_key(key) implies self@.contains_key(
                        key,
                    ) by {
                        let bi = entry_names(before.entries@).index_of(key);
                        let i = if bi < at { bi } else { bi - 1 };
                        assert(entry_names(self.entries@)[i] == key);
                    }
                    assert(self@ =~= before@.remove(name@));
                }
                true
            },
            None => {
                proof {
                    assert(before@.remove(name@) =~= before@);
                }
                false
            },
        }
    }

    /// Takes the names out of the registry in turn and stops at the first
    /// that is not there. The names before it stay removed. Gives the
    /// number of names removed and, where it stopped, the missing name.
    pub fn remove_each(&mut self, names: &Vec<String>) -> (res: (usize, Option<NotRegistered>))
        ensures
            first_missing(old(self)@, texts(names@), res.0 as int),
            final(self)@ == without_names(old(self)@, texts(names@), res.0 as int),
            final(self).names() == names_without(
                old(self).names(),
                texts(names@),
                res.0 as int,
            ),
            res.1 is Some <==> res.0 < names@.len(),
            res.1 matches Some(missing) ==> missing.name@ == names@[res.0 as int]@,
    {
        let mut next: usize = 0;
        while next < names.len()
            invariant
                next <= names@.len(),
                self@ == without_names(old(self)@, texts(names@), next as int),
                self.names() == names_without(old(self).names(), texts(names@), next as int),
                forall|i: int|
                    0 <= i < next ==> without_names(old(self)@, texts(names@), i).contains_key(
                        #[trigger] texts(names@)[i],
                    ),
            decreases names@.len() - next,
        {
            if !self.remove(names[next].as_str()) {
                return (next, Some(NotRegistered { name: names[next].clone() }));
            }
            next += 1;
        }
        (next, None)
    }

    /// Takes every name out of the registry.
    pub fn clear(&mut self)
        ensures
            final(self)@ == Map::<Seq<char>, RegistryInfo>::empty(),
            final(self).names() == Seq::<Seq<char>>::empty(),
    {
        self.entries = Vec::new();
        assert(self@ =~= Map::<Seq<char>, RegistryInfo>::empty());
        assert(self.names() =~= Seq::<Seq<char>>::empty());
    }

    /// Where in the order of registration a name stands.
    fn position(&self, name: &str) -> (place: Option<usize>)
        ensures
            match place {
                Some(at) => at < self.entries@.len() && self.entries@[at as int].name@ == name@,
                None => !self@.contains_key(name@),
            },
    {
        let mut at: usize = 0;
        while at < self.entries.len()
            invariant
                at <= self.entries@.len(),
                forall|i: int| 0 <= i < at ==> self.entries@[i].name@ != name@,
            decreases self.entries@.len() - at,
        {
            if same_text(self.entries[at].name.as_str(), name) {
                return Some(at);
            }
            at += 1;
        }
        proof {
            if self@.contains_key(name@) {
                let i = entry_names(self.entries@).index_of(name@);
                assert(entry_names(self.entries@)[i] == self.entries@[i].name@);
            }
        }
        None
    }

    /// The domain of the view is the set of the names.
    proof fn domain_is_names(self)
        ensures
            self@.dom() =~= entry_names(self.entries@).to_set(),
            self.well_formed() ==> entry_names(self.entries@).no_duplicates(),
    {
        assert forall|key: Seq<char>| #[trigger]
            entry_names(self.entries@).to_set().contains(key) == self@.dom().contains(key) by {}
    }

    /// The entry at `i` is what the view holds under its name.
    proof fn entry_is_mapped(self, i: int)
        requires
            self.well_formed(),
            0 <= i < self.entries@.len(),
        ensures
            self@.contains_key(self.entries@[i].name@),
            self@[self.entries@[i].name@] == self.entries@[i].info,
            entry_names(self.entries@).index_of(self.entries@[i].name@) == i,
    {
        let names = entry_names(self.entries@);
        assert(names[i] == self.entries@[i].name@);
        let found = names.index_of(self.entries@[i].name@);
        assert(names[found] == self.entries@[found].name@);
    }
}

/// Resolves the template that a run names: the directory registered under
/// `template_name`, or the name back where the registry does not hold it.
pub fn render_registered_template(registry: &Registry, template_name: &str) -> (res: Result<
    String,
    NotRegistered,
>)
    ensures
        match res {
            Ok(path) => registry@.contains_key(template_name@) && path@
                == registry@[template_name@].path@,
            Err(missing) => !registry@.contains_key(template_name@) && missing.name@
                == template_name@,
        },
{
    match registry.lookup(template_name) {
        Some(info) => Ok(info.path.clone()),
        None => Err(NotRegistered { name: template_name.to_owned() }),
    }
}

} // verus!
