//! Profiles: named sets of Git settings and exclude patterns to apply to a
//! repository.

use vstd::prelude::*;
use vstd::string::*;

use crate::application::lookup;
use crate::exclude::{File, Node, NodeView};
use crate::rule::ProfileRef;
use crate::text::str_eq;

verus! {

/// `entries` with `value` under `key`: in place of the first entry of that key,
/// or appended when there is none.
pub open spec fn insert_entry<V>(entries: Seq<(Seq<char>, V)>, key: Seq<char>, value: V) -> Seq<(Seq<char>, V)>
    decreases entries.len(),
{
    if entries.len() == 0 {
        seq![(key, value)]
    } else if entries[0].0 == key {
        entries.update(0, (key, value))
    } else {
        seq![entries[0]] + insert_entry(entries.drop_first(), key, value)
    }
}

/// Git settings by dotted key, such as `user.name`.
#[derive(Debug, Default)]
pub struct Configs {
    entries: Vec<(String, String)>,
}

impl View for Configs {
    type V = Seq<(Seq<char>, Seq<char>)>;

    closed spec fn view(&self) -> Seq<(Seq<char>, Seq<char>)> {
        self.entries@.map_values(|e: (String, String)| (e.0@, e.1@))
    }
}

impl Configs {
    /// No setting.
    pub fn new() -> (r: Configs)
        ensures
            r@ == Seq::<(Seq<char>, Seq<char>)>::empty(),
    {
        let r = Configs { entries: Vec::new() };
        assert(r@ =~= Seq::<(Seq<char>, Seq<char>)>::empty());
        r
    }

    /// Sets `key` to `value`, in place of any value it had.
    pub fn insert(&mut self, key: String, value: String)
        ensures
            final(self)@ == insert_entry(old(self)@, key@, value@),
    {
        let ghost k = key@;
        let ghost v = value@;
        let n = self.entries.len();
        let mut i: usize = 0;
        while i < n
            invariant
                n == self.entries@.len(),
                n == self@.len(),
                self@ == old(self)@,
                k == key@,
                v == value@,
                i <= n,
                forall|j: int| 0 <= j < i ==> self@[j].0 != k,
            decreases n - i,
        {
            assert(self@[i as int] == (self.entries@[i as int].0@, self.entries@[i as int].1@));
            if str_eq(self.entries[i].0.as_str(), key.as_str()) {
                proof {
                    lemma_insert_at(self@, i as int, k, v);
                }
                self.entries.set(i, (key, value));
                assert(self@ =~= old(self)@.update(i as int, (k, v)));
                return;
            }
            i = i + 1;
        }
        proof {
            lemma_insert_new(self@, k, v);
        }
        self.entries.push((key, value));
        assert(self@ =~= old(self)@.push((k, v)));
    }

    /// The value of `key`.
    pub fn get(&self, key: &str) -> (r: Option<&String>)
        ensures
            match r {
                Some(v) => lookup(self@, key@) == Some(v@),
                None => lookup(self@, key@) is None,
            },
    {
        let n = self.entries.len();
        let mut i: usize = 0;
        assert(self@.skip(0) =~= self@);
        while i < n
            invariant
                n == self.entries@.len(),
                n == self@.len(),
                i <= n,
                lookup(self@, key@) == lookup(self@.skip(i as int), key@),
            decreases n - i,
        {
            assert(self@.skip(i as int).drop_first() =~= self@.skip(i + 1));
            assert(self@.skip(i as int)[0] == (self.entries@[i as int].0@, self.entries@[i as int].1@));
            if str_eq(self.entries[i].0.as_str(), key) {
                return Some(&self.entries[i].1);
            }
            i = i + 1;
        }
        None
    }

    /// The number of settings.
    pub fn len(&self) -> (r: usize)
        ensures
            r == self@.len(),
    {
        self.entries.len()
    }

    /// The setting at `index`, in the order they were first set.
    pub fn entry(&self, index: usize) -> (r: (&String, &String))
        requires
            index < self@.len(),
        ensures
            (r.0@, r.1@) == self@[index as int],
    {
        let e = &self.entries[index];
        (&e.0, &e.1)
    }
}

proof fn lemma_insert_at<V>(entries: Seq<(Seq<char>, V)>, i: int, k: Seq<char>, v: V)
    requires
        0 <= i < entries.len(),
        entries[i].0 == k,
        forall|j: int| 0 <= j < i ==> entries[j].0 != k,
    ensures
        insert_entry(entries, k, v) == entries.update(i, (k, v)),
    decreases i,
{
    if i > 0 {
        lemma_insert_at(entries.drop_first(), i - 1, k, v);
        assert(seq![entries[0]] + entries.drop_first().update(i - 1, (k, v)) =~= entries.update(i, (k, v)));
    }
}

proof fn lemma_insert_new<V>(entries: Seq<(Seq<char>, V)>, k: Seq<char>, v: V)
    requires
        forall|j: int| 0 <= j < entries.len() ==> entries[j].0 != k,
    ensures
        insert_entry(entries, k, v) == entries.push((k, v)),
    decreases entries.len(),
{
    if entries.len() > 0 {
        lemma_insert_new(entries.drop_first(), k, v);
        assert(seq![entries[0]] + entries.drop_first().push((k, v)) =~= entries.push((k, v)));
    } else {
        assert(seq![(k, v)] =~= entries.push((k, v)));
    }
}

/// A value among a profile's settings as the configuration writes them: text, a
/// table of named values, or a value of another kind, which holds no setting.
#[derive(Debug)]
pub enum ConfigValue {
    Text(String),
    Table(Vec<(String, ConfigValue)>),
    Other,
}

/// The key of an entry named `name` in a table under `key`: `key.name`, or the
/// empty key when the name is empty.
pub open spec fn child_key(key: Seq<char>, name: Seq<char>) -> Seq<char> {
    if name.len() == 0 {
        name
    } else {
        key + "."@ + name
    }
}

/// The settings that value `v` under `key` holds, in order: text under its dotted
/// key, tables entry by entry.
pub open spec fn flatten(v: ConfigValue, key: Seq<char>) -> Seq<(Seq<char>, Seq<char>)>
    decreases v,
{
    match v {
        ConfigValue::Text(s) => seq![(key, s@)],
        ConfigValue::Table(t) => flatten_table(t@, key),
        ConfigValue::Other => Seq::empty(),
    }
}

pub open spec fn flatten_table(entries: Seq<(String, ConfigValue)>, key: Seq<char>) -> Seq<(Seq<char>, Seq<char>)>
    decreases entries,
{
    if entries.len() == 0 {
        Seq::empty()
    } else {
        flatten_table(entries.drop_last(), key) + flatten(entries.last().1, child_key(key, entries.last().0@))
    }
}

/// `entries` after each of `settings` is set in turn.
pub open spec fn insert_all(entries: Seq<(Seq<char>, Seq<char>)>, settings: Seq<(Seq<char>, Seq<char>)>) -> Seq<(Seq<char>, Seq<char>)>
    decreases settings.len(),
{
    if settings.len() == 0 {
        entries
    } else {
        insert_entry(insert_all(entries, settings.drop_last()), settings.last().0, settings.last().1)
    }
}

proof fn lemma_insert_all_concat(
    entries: Seq<(Seq<char>, Seq<char>)>,
    a: Seq<(Seq<char>, Seq<char>)>,
    b: Seq<(Seq<char>, Seq<char>)>,
)
    ensures
        insert_all(entries, a + b) == insert_all(insert_all(entries, a), b),
    decreases b.len(),
{
    if b.len() == 0 {
        assert(a + b =~= a);
    } else {
        lemma_insert_all_concat(entries, a, b.drop_last());
        assert((a + b).drop_last() =~= a + b.drop_last());
        assert((a + b).last() == b.last());
    }
}

impl Configs {
    /// Sets each setting that `input` holds under `current_key`, in order.
    pub fn extend_from_toml(&mut self, input: &ConfigValue, current_key: &str)
        ensures
            final(self)@ == insert_all(old(self)@, flatten(*input, current_key@)),
        decreases input,
    {
        match input {
            ConfigValue::Text(v) => {
                let ghost before = self@;
                self.insert(current_key.to_owned(), v.clone());
                let ghost one = seq![(current_key@, v@)];
                assert(one.drop_last() =~= Seq::<(Seq<char>, Seq<char>)>::empty());
                assert(insert_all(before, one) == insert_entry(insert_all(before, one.drop_last()), current_key@, v@));
            },
            ConfigValue::Table(t) => {
                let n = t.len();
                let mut i: usize = 0;
                assert(t@.take(0) =~= Seq::<(String, ConfigValue)>::empty());
                while i < n
                    invariant
                        n == t@.len(),
                        i <= n,
                        *input == ConfigValue::Table(*t),
                        self@ == insert_all(old(self)@, flatten_table(t@.take(i as int), current_key@)),
                    decreases n - i,
                {
                    let entry = &t[i];
                    let key = if entry.0.as_str().unicode_len() == 0 {
                        entry.0.clone()
                    } else {
                        let mut k = current_key.to_owned();
                        k.append(".");
                        k.append(entry.0.as_str());
                        k
                    };
                    let ghost before = self@;
                    proof {
                        assert(decreases_to!(*input => (*input)->Table_0));
                        assert((*input)->Table_0 == *t);
                        assert(decreases_to!(*t => t@));
                        assert(decreases_to!(t@ => t@[i as int]));
                        assert(decreases_to!(t@[i as int] => t@[i as int].1));
                        assert(*entry == t@[i as int]);
                        assert(decreases_to!(*input => entry.1));
                    }
                    self.extend_from_toml(&entry.1, key.as_str());
                    proof {
                        let prefix = t@.take(i as int);
                        assert(t@.take(i + 1).drop_last() =~= prefix);
                        assert(t@.take(i + 1).last() == t@[i as int]);
                        lemma_insert_all_concat(
                            old(self)@,
                            flatten_table(prefix, current_key@),
                            flatten(entry.1, key@),
                        );
                    }
                    i = i + 1;
                }
                assert(t@.take(n as int) =~= t@);
            },
            ConfigValue::Other => {},
        }
    }
}

/// `nodes` after adding an exclusion for each pattern of `patterns` in turn,
/// skipping those already there.
pub open spec fn add_excludes(nodes: Seq<NodeView>, patterns: Seq<Seq<char>>) -> Seq<NodeView>
    decreases patterns.len(),
{
    if patterns.len() == 0 {
        nodes
    } else {
        let before = add_excludes(nodes, patterns.drop_last());
        let node = NodeView::Exclude(patterns.last());
        if before.contains(node) {
            before
        } else {
            before.push(node)
        }
    }
}

/// A profile: exclude patterns and Git settings.
#[derive(Debug, Default)]
pub struct Profile {
    pub excludes: Vec<String>,
    pub configs: Configs,
}

impl Profile {
    /// Adds this profile's exclude patterns to `exclude`, each unless it is there
    /// already; the settings to write are [`Profile::configs`].
    pub fn apply(&self, exclude: &mut File)
        ensures
            final(exclude)@ == add_excludes(old(exclude)@, self.excludes@.map_values(|s: String| s@)),
    {
        let ghost patterns = self.excludes@.map_values(|s: String| s@);
        let n = self.excludes.len();
        let mut i: usize = 0;
        while i < n
            invariant
                n == self.excludes@.len(),
                patterns == self.excludes@.map_values(|s: String| s@),
                i <= n,
                exclude@ == add_excludes(old(exclude)@, patterns.take(i as int)),
            decreases n - i,
        {
            assert(patterns.take(i + 1).drop_last() =~= patterns.take(i as int));
            assert(patterns.take(i + 1).last() == self.excludes@[i as int]@);
            exclude.add_or_noop(Node::Exclude(self.excludes[i].clone()));
            i = i + 1;
        }
        assert(patterns.take(n as int) =~= patterns);
    }
}

/// Profiles by name.
#[derive(Debug, Default)]
pub struct Profiles {
    entries: Vec<(String, Profile)>,
}

impl View for Profiles {
    type V = Seq<Seq<char>>;

    /// The names of the profiles, in order.
    closed spec fn view(&self) -> Seq<Seq<char>> {
        self.entries@.map_values(|e: (String, Profile)| e.0@)
    }
}

/// The index of the first name in `names` equal to `name`.
pub open spec fn index_of(names: Seq<Seq<char>>, name: Seq<char>) -> Option<int>
    decreases names.len(),
{
    if names.len() == 0 {
        None
    } else if names[0] == name {
        Some(0)
    } else {
        match index_of(names.drop_first(), name) {
            Some(i) => Some(i + 1),
            None => None,
        }
    }
}

impl Profiles {
    /// No profile.
    pub fn new() -> (r: Profiles)
        ensures
            r@ == Seq::<Seq<char>>::empty(),
    {
        let r = Profiles { entries: Vec::new() };
        assert(r@ =~= Seq::<Seq<char>>::empty());
        r
    }

    /// The profile at `index`, with its name.
    pub fn entry(&self, index: usize) -> (r: (&str, &Profile))
        requires
            index < self@.len(),
        ensures
            r.0@ == self@[index as int],
            *r.1 == self.profile_at(index as int),
    {
        let e = &self.entries[index];
        (e.0.as_str(), &e.1)
    }

    pub closed spec fn profile_at(&self, index: int) -> Profile {
        self.entries@[index].1
    }

    /// The number of profiles.
    pub fn len(&self) -> (r: usize)
        ensures
            r == self@.len(),
    {
        self.entries.len()
    }

    /// Adds `profile` under `name`, in place of any profile of that name.
    pub fn insert(&mut self, name: String, profile: Profile)
        ensures
            final(self)@ == if old(self)@.contains(name@) {
                old(self)@
            } else {
                old(self)@.push(name@)
            },
            index_of(final(self)@, name@) matches Some(i) && final(self).profile_at(i) == profile,
            forall|j: int|
                0 <= j < old(self)@.len() && old(self)@[j] != name@ ==> final(self).profile_at(j)
                    == old(self).profile_at(j),
    {
        let ghost k = name@;
        let n = self.entries.len();
        let mut i: usize = 0;
        while i < n
            invariant
                n == self.entries@.len(),
                n == self@.len(),
                self@ == old(self)@,
                self.entries@ == old(self).entries@,
                k == name@,
                i <= n,
                forall|j: int| 0 <= j < i ==> self@[j] != k,
            decreases n - i,
        {
            assert(self@[i as int] == self.entries@[i as int].0@);
            if str_eq(self.entries[i].0.as_str(), name.as_str()) {
                self.entries.set(i, (name, profile));
                assert(self@ =~= old(self)@);
                assert(old(self)@[i as int] == k);
                proof {
                    lemma_index_found(self@, i as int, k);
                }
                return;
            }
            i = i + 1;
        }
        assert(!old(self)@.contains(k));
        self.entries.push((name, profile));
        assert(self@ =~= old(self)@.push(k));
        proof {
            lemma_index_found(self@, n as int, k);
        }
    }

    /// The profile that `r` names, with its name.
    pub fn resolve(&self, r: &ProfileRef) -> (res: Option<(&str, &Profile)>)
        ensures
            match index_of(self@, r.name@) {
                Some(i) => res matches Some((n, p)) && n@ == r.name@ && *p == self.profile_at(i),
                None => res is None,
            },
    {
        let n = self.entries.len();
        let mut i: usize = 0;
        while i < n
            invariant
                n == self.entries@.len(),
                n == self@.len(),
                i <= n,
                forall|j: int| 0 <= j < i ==> self@[j] != r.name@,
            decreases n - i,
        {
            assert(self@[i as int] == self.entries@[i as int].0@);
            if str_eq(self.entries[i].0.as_str(), r.name.as_str()) {
                proof {
                    lemma_index_found(self@, i as int, r.name@);
                }
                return Some((self.entries[i].0.as_str(), &self.entries[i].1));
            }
            i = i + 1;
        }
        proof {
            lemma_index_absent(self@, r.name@);
        }
        None
    }
}

proof fn lemma_index_found(names: Seq<Seq<char>>, i: int, name: Seq<char>)
    requires
        0 <= i < names.len(),
        names[i] == name,
        forall|j: int| 0 <= j < i ==> names[j] != name,
    ensures
        index_of(names, name) == Some(i),
    decreases i,
{
    if i > 0 {
        lemma_index_found(names.drop_first(), i - 1, name);
    }
}

proof fn lemma_index_absent(names: Seq<Seq<char>>, name: Seq<char>)
    requires
        forall|j: int| 0 <= j < names.len() ==> names[j] != name,
    ensures
        index_of(names, name) is None,
    decreases names.len(),
{
    if names.len() > 0 {
        lemma_index_absent(names.drop_first(), name);
    }
}

} // verus!
