//! The runtime's component tables: commands with their aliases, priority
//! ordered hooks and message handlers, adapters and database drivers, the
//! rules that refuse name conflicts, and the removal of everything a plugin
//! registered.
use vstd::prelude::*;

use crate::event::{Event, EventType};
use crate::hook::HookType;
use crate::keyed::Keyed;
use crate::text::{owned, push_str, str_eq, views};

verus! {

/// A registered command: the plugin that registered it and its handler.
pub struct CommandEntry<H> {
    pub plugin_name: String,
    pub handler: H,
}

/// The first conflict an alias list runs into: an alias that is already a
/// command, or already an alias.
pub open spec fn alias_conflict<H>(
    cmds: Map<Seq<char>, CommandEntry<H>>,
    als: Map<Seq<char>, String>,
    list: Seq<Seq<char>>,
) -> Option<Seq<char>>
    decreases list.len(),
{
    if list.len() == 0 {
        None
    } else if cmds.contains_key(list[0]) {
        Some("alias '"@ + list[0] + "' clashes with an existing command"@)
    } else if als.contains_key(list[0]) {
        Some("alias '"@ + list[0] + "' is already registered"@)
    } else {
        alias_conflict(cmds, als, list.drop_first())
    }
}

/// Why registering command `name` with aliases `list` is refused, if it is:
/// the name is a command already, or an alias already, or an alias conflicts.
pub open spec fn command_conflict<H>(
    cmds: Map<Seq<char>, CommandEntry<H>>,
    als: Map<Seq<char>, String>,
    name: Seq<char>,
    list: Seq<Seq<char>>,
) -> Option<Seq<char>> {
    if cmds.contains_key(name) {
        Some("command '"@ + name + "' already registered by plugin '"@ + cmds[name].plugin_name@ + "'"@)
    } else if als.contains_key(name) {
        Some("command '"@ + name + "' clashes with an existing alias"@)
    } else {
        alias_conflict(cmds, als, list)
    }
}

/// The alias table after mapping every alias of `list` to `name`.
pub open spec fn with_aliases(als: Map<Seq<char>, String>, list: Seq<Seq<char>>, name: String) -> Map<Seq<char>, String>
    decreases list.len(),
{
    if list.len() == 0 {
        als
    } else {
        with_aliases(als, list.drop_last(), name).insert(list.last(), name)
    }
}

/// The command a name resolves to: itself if it is a command, else the
/// command it is an alias of (if that command exists).
pub open spec fn resolve<H>(cmds: Map<Seq<char>, CommandEntry<H>>, als: Map<Seq<char>, String>, n: Seq<char>) -> Option<Seq<char>> {
    if cmds.contains_key(n) {
        Some(n)
    } else if als.contains_key(n) && cmds.contains_key(als[n]@) {
        Some(als[n]@)
    } else {
        None
    }
}

/// The commands registered by plugin `p`.
pub open spec fn commands_of<H>(cmds: Map<Seq<char>, CommandEntry<H>>, p: Seq<char>) -> Set<Seq<char>> {
    Set::new(|k: Seq<char>| cmds.contains_key(k) && cmds[k].plugin_name@ == p)
}

/// The aliases that point at a command of plugin `p`.
pub open spec fn aliases_of<H>(cmds: Map<Seq<char>, CommandEntry<H>>, als: Map<Seq<char>, String>, p: Seq<char>) -> Set<Seq<char>> {
    Set::new(|a: Seq<char>| als.contains_key(a) && commands_of(cmds, p).contains(als[a]@))
}

/// Commands by canonical name, and aliases mapping to canonical names.
pub struct CommandTable<H> {
    commands: Keyed<CommandEntry<H>>,
    aliases: Keyed<String>,
}

impl<H> CommandTable<H> {
    /// Registered commands by name.
    pub closed spec fn commands(&self) -> Map<Seq<char>, CommandEntry<H>> {
        self.commands.view()
    }

    /// Registered aliases, each mapped to a canonical command name.
    pub closed spec fn aliases(&self) -> Map<Seq<char>, String> {
        self.aliases.view()
    }

    /// An empty table.
    pub fn new() -> (t: CommandTable<H>)
        ensures
            t.commands() == Map::<Seq<char>, CommandEntry<H>>::empty(),
            t.aliases() == Map::<Seq<char>, String>::empty(),
    {
        CommandTable { commands: Keyed::new(), aliases: Keyed::new() }
    }

    /// The first conflict of the alias list, per [`alias_conflict`].
    fn first_alias_conflict(&self, list: &Vec<String>) -> (r: Option<String>)
        ensures
            match (r, alias_conflict(self.commands(), self.aliases(), views_of(list@))) {
                (Some(a), Some(b)) => a@ == b,
                (None, None) => true,
                _ => false,
            },
    {
        let mut i: usize = 0;
        assert(views_of(list@).skip(0) == views_of(list@));
        while i < list.len()
            invariant
                i <= list@.len(),
                alias_conflict(self.commands(), self.aliases(), views_of(list@))
                    == alias_conflict(self.commands(), self.aliases(), views_of(list@).skip(i as int)),
            decreases list.len() - i,
        {
            let a = list[i].as_str();
            let ghost rest = views_of(list@).skip(i as int);
            assert(rest[0] == list@[i as int]@);
            assert(rest.drop_first() == views_of(list@).skip(i as int + 1));
            if self.commands.contains(a) {
                let mut m = owned("alias '");
                push_str(&mut m, a);
                push_str(&mut m, "' clashes with an existing command");
                return Some(m);
            }
            if self.aliases.contains(a) {
                let mut m = owned("alias '");
                push_str(&mut m, a);
                push_str(&mut m, "' is already registered");
                return Some(m);
            }
            i = i + 1;
        }
        assert(views_of(list@).skip(i as int).len() == 0);
        None
    }

    /// Registers command `name` with `aliases` for plugin `plugin_name`. A
    /// name that is taken is refused, never overwritten: the table stays as it
    /// was and the conflict is described.
    pub fn register(&mut self, plugin_name: &str, name: String, aliases: Vec<String>, handler: H) -> (r: Result<(), String>)
        ensures
            match command_conflict(old(self).commands(), old(self).aliases(), name@, views_of(aliases@)) {
                Some(msg) => r matches Err(e) && e@ == msg && final(self).commands() == old(self).commands()
                    && final(self).aliases() == old(self).aliases(),
                None => r is Ok && final(self).commands().remove(name@) == old(self).commands()
                    && final(self).commands().contains_key(name@)
                    && final(self).commands()[name@].plugin_name@ == plugin_name@
                    && final(self).commands()[name@].handler == handler
                    && final(self).aliases() == with_aliases(old(self).aliases(), views_of(aliases@), name),
            },
    {
        if let Some(entry) = self.commands.get(name.as_str()) {
            let mut m = owned("command '");
            push_str(&mut m, name.as_str());
            push_str(&mut m, "' already registered by plugin '");
            push_str(&mut m, entry.plugin_name.as_str());
            push_str(&mut m, "'");
            return Err(m);
        }
        if self.aliases.contains(name.as_str()) {
            let mut m = owned("command '");
            push_str(&mut m, name.as_str());
            push_str(&mut m, "' clashes with an existing alias");
            return Err(m);
        }
        if let Some(m) = self.first_alias_conflict(&aliases) {
            return Err(m);
        }
        let ghost als0 = self.aliases();
        let mut i: usize = 0;
        while i < aliases.len()
            invariant
                i <= aliases@.len(),
                self.aliases() == with_aliases(als0, views_of(aliases@).take(i as int), name),
                self.commands() == old(self).commands(),
            decreases aliases.len() - i,
        {
            assert(views_of(aliases@).take(i as int + 1).drop_last() == views_of(aliases@).take(i as int));
            self.aliases.insert(owned(aliases[i].as_str()), name.clone());
            i = i + 1;
        }
        assert(views_of(aliases@).take(i as int) == views_of(aliases@));
        let ghost cmds0 = self.commands();
        let ghost n = name@;
        self.commands.insert(name, CommandEntry { plugin_name: owned(plugin_name), handler });
        assert(self.commands().remove(n) =~= cmds0);
        Ok(())
    }

    /// The handler a name resolves to (see [`resolve`]).
    pub fn lookup(&self, name: &str) -> (r: Option<&H>)
        ensures
            match resolve(self.commands(), self.aliases(), name@) {
                Some(c) => r matches Some(h) && *h == self.commands()[c].handler,
                None => r is None,
            },
    {
        if let Some(e) = self.commands.get(name) {
            return Some(&e.handler);
        }
        match self.aliases.get(name) {
            Some(canonical) => match self.commands.get(canonical.as_str()) {
                Some(e) => Some(&e.handler),
                None => None,
            },
            None => None,
        }
    }

    /// Removes every command of plugin `p` and every alias pointing at one.
    pub fn remove_plugin(&mut self, p: &str)
        ensures
            final(self).commands() == old(self).commands().remove_keys(commands_of(old(self).commands(), p@)),
            final(self).aliases() == old(self).aliases().remove_keys(
                aliases_of(old(self).commands(), old(self).aliases(), p@),
            ),
    {
        let ghost cmds0 = self.commands();
        let ghost als0 = self.aliases();
        let doomed = names_where_plugin(&self.commands, p);
        let mut i: usize = 0;
        while i < doomed.len()
            invariant
                i <= doomed@.len(),
                forall|j: int| 0 <= j < doomed@.len() ==> commands_of(cmds0, p@).contains(#[trigger] doomed@[j]@),
                forall|k: Seq<char>| commands_of(cmds0, p@).contains(k) ==> exists|j: int| 0 <= j < doomed@.len() && (#[trigger] doomed@[j])@ == k,
                self.commands() == cmds0.remove_keys(Set::new(|k: Seq<char>| exists|j: int| 0 <= j < i && (#[trigger] doomed@[j])@ == k)),
                self.aliases() == als0,
            decreases doomed.len() - i,
        {
            self.commands.remove(doomed[i].as_str());
            assert(self.commands() =~= cmds0.remove_keys(Set::new(|k: Seq<char>| exists|j: int| 0 <= j < i + 1 && (#[trigger] doomed@[j])@ == k)));
            i = i + 1;
        }
        assert(Set::new(|k: Seq<char>| exists|j: int| 0 <= j < i && (#[trigger] doomed@[j])@ == k) =~= commands_of(cmds0, p@));
        let gone = aliases_pointing_into(&self.aliases, &doomed);
        let mut i: usize = 0;
        while i < gone.len()
            invariant
                i <= gone@.len(),
                forall|j: int| 0 <= j < gone@.len() ==> aliases_of(cmds0, als0, p@).contains(#[trigger] gone@[j]@),
                forall|k: Seq<char>| aliases_of(cmds0, als0, p@).contains(k) ==> exists|j: int| 0 <= j < gone@.len() && (#[trigger] gone@[j])@ == k,
                self.aliases() == als0.remove_keys(Set::new(|k: Seq<char>| exists|j: int| 0 <= j < i && (#[trigger] gone@[j])@ == k)),
                self.commands() == cmds0.remove_keys(commands_of(cmds0, p@)),
            decreases gone.len() - i,
        {
            self.aliases.remove(gone[i].as_str());
            assert(self.aliases() =~= als0.remove_keys(Set::new(|k: Seq<char>| exists|j: int| 0 <= j < i + 1 && (#[trigger] gone@[j])@ == k)));
            i = i + 1;
        }
        assert(Set::new(|k: Seq<char>| exists|j: int| 0 <= j < i && (#[trigger] gone@[j])@ == k) =~= aliases_of(cmds0, als0, p@));
    }

    /// The registered command names, each once.
    pub fn names(&self) -> (r: Vec<String>)
        ensures
            forall|i: int| 0 <= i < r@.len() ==> self.commands().contains_key(#[trigger] r@[i]@),
            forall|k: Seq<char>| self.commands().contains_key(k) ==> exists|i: int| 0 <= i < r@.len() && (#[trigger] r@[i])@ == k,
    {
        self.commands.keys()
    }
}

/// The characters of each string.
pub open spec fn views_of(v: Seq<String>) -> Seq<Seq<char>> {
    v.map_values(|s: String| s@)
}

/// The names of the commands registered by plugin `p`.
fn names_where_plugin<H>(cmds: &Keyed<CommandEntry<H>>, p: &str) -> (r: Vec<String>)
    ensures
        forall|j: int| 0 <= j < r@.len() ==> commands_of(cmds.view(), p@).contains(#[trigger] r@[j]@),
        forall|k: Seq<char>| commands_of(cmds.view(), p@).contains(k) ==> exists|j: int| 0 <= j < r@.len() && (#[trigger] r@[j])@ == k,
{
    let es = cmds.as_slice();
    proof {
        cmds.lemma_entries();
    }
    let mut r: Vec<String> = Vec::new();
    let mut i: usize = 0;
    while i < es.len()
        invariant
            i <= es@.len(),
            es@ == cmds.entries(),
            crate::keyed::unique_keys(cmds.entries()),
            cmds.view() == crate::keyed::entries_map(cmds.entries()),
            forall|j: int| 0 <= j < es@.len() ==> (#[trigger] cmds.view().contains_key(es@[j].0@)) && cmds.view()[es@[j].0@] == es@[j].1,
            forall|j: int| 0 <= j < r@.len() ==> commands_of(cmds.view(), p@).contains(#[trigger] r@[j]@),
            forall|j: int| #![trigger es@[j]] 0 <= j < i && es@[j].1.plugin_name@ == p@ ==> exists|o: int| 0 <= o < r@.len() && (#[trigger] r@[o])@ == es@[j].0@,
        decreases es.len() - i,
    {
        assert(cmds.view().contains_key(es@[i as int].0@));
        if str_eq(es[i].1.plugin_name.as_str(), p) {
            let ghost r0 = r@;
            r.push(owned(es[i].0.as_str()));
            assert forall|j: int| #![trigger es@[j]] 0 <= j < i + 1 && es@[j].1.plugin_name@ == p@ implies exists|o: int| 0 <= o < r@.len() && (#[trigger] r@[o])@ == es@[j].0@ by {
                if j == i {
                    assert(r@[r@.len() - 1]@ == es@[j].0@);
                } else {
                    let o = choose|o: int| 0 <= o < r0.len() && (#[trigger] r0[o])@ == es@[j].0@;
                    assert(r@[o] == r0[o]);
                }
            }
        }
        i = i + 1;
    }
    proof {
        assert forall|k: Seq<char>| commands_of(cmds.view(), p@).contains(k) implies exists|j: int| 0 <= j < r@.len() && (#[trigger] r@[j])@ == k by {
            let j = choose|j: int| 0 <= j < es@.len() && (#[trigger] es@[j]).0@ == k;
            assert(cmds.view()[es@[j].0@] == es@[j].1);
        }
    }
    r
}

/// The aliases whose canonical command is one of `doomed`.
fn aliases_pointing_into(als: &Keyed<String>, doomed: &Vec<String>) -> (r: Vec<String>)
    ensures
        forall|j: int| 0 <= j < r@.len() ==> als.view().contains_key(#[trigger] r@[j]@)
            && (exists|o: int| 0 <= o < doomed@.len() && (#[trigger] doomed@[o])@ == als.view()[r@[j]@]@),
        forall|k: Seq<char>| als.view().contains_key(k) && (exists|o: int| 0 <= o < doomed@.len() && (#[trigger] doomed@[o])@ == als.view()[k]@)
            ==> exists|j: int| 0 <= j < r@.len() && (#[trigger] r@[j])@ == k,
{
    let es = als.as_slice();
    proof {
        als.lemma_entries();
    }
    let mut r: Vec<String> = Vec::new();
    let mut i: usize = 0;
    while i < es.len()
        invariant
            i <= es@.len(),
            es@ == als.entries(),
            crate::keyed::unique_keys(als.entries()),
            als.view() == crate::keyed::entries_map(als.entries()),
            forall|j: int| 0 <= j < es@.len() ==> (#[trigger] als.view().contains_key(es@[j].0@)) && als.view()[es@[j].0@] == es@[j].1,
            forall|j: int| 0 <= j < r@.len() ==> als.view().contains_key(#[trigger] r@[j]@)
                && (exists|o: int| 0 <= o < doomed@.len() && (#[trigger] doomed@[o])@ == als.view()[r@[j]@]@),
            forall|j: int| #![trigger es@[j]] 0 <= j < i && (exists|o: int| 0 <= o < doomed@.len() && (#[trigger] doomed@[o])@ == es@[j].1@)
                ==> exists|q: int| 0 <= q < r@.len() && (#[trigger] r@[q])@ == es@[j].0@,
        decreases es.len() - i,
    {
        assert(als.view().contains_key(es@[i as int].0@));
        let mut hit = false;
        let mut o: usize = 0;
        while o < doomed.len()
            invariant
                o <= doomed@.len(),
                i < es@.len(),
                hit ==> exists|q: int| 0 <= q < doomed@.len() && (#[trigger] doomed@[q])@ == es@[i as int].1@,
                !hit ==> forall|q: int| 0 <= q < o ==> (#[trigger] doomed@[q])@ != es@[i as int].1@,
            decreases doomed.len() - o,
        {
            if !hit && str_eq(doomed[o].as_str(), es[i].1.as_str()) {
                hit = true;
            }
            o = o + 1;
        }
        if hit {
            let ghost r0 = r@;
            r.push(owned(es[i].0.as_str()));
            assert forall|j: int| #![trigger es@[j]] 0 <= j < i + 1 && (exists|q: int| 0 <= q < doomed@.len() && (#[trigger] doomed@[q])@ == es@[j].1@)
                implies exists|q: int| 0 <= q < r@.len() && (#[trigger] r@[q])@ == es@[j].0@ by {
                if j == i {
                    assert(r@[r@.len() - 1]@ == es@[j].0@);
                } else {
                    let q = choose|q: int| 0 <= q < r0.len() && (#[trigger] r0[q])@ == es@[j].0@;
                    assert(r@[q] == r0[q]);
                }
            }
        }
        i = i + 1;
    }
    proof {
        assert forall|k: Seq<char>| als.view().contains_key(k) && (exists|o: int| 0 <= o < doomed@.len() && (#[trigger] doomed@[o])@ == als.view()[k]@)
            implies exists|j: int| 0 <= j < r@.len() && (#[trigger] r@[j])@ == k by {
            let j = choose|j: int| 0 <= j < es@.len() && (#[trigger] es@[j]).0@ == k;
            assert(als.view()[es@[j].0@] == es@[j].1);
        }
    }
    r
}

} // verus!

verus! {

/// A priority-ordered component: a hook or a message handler.
pub struct Ranked<K, H> {
    pub name: String,
    pub plugin_name: String,
    pub priority: u32,
    /// What kind of component it is (a hook's type; nothing for handlers).
    pub kind: K,
    pub item: H,
}

/// Whether the entries run in ascending priority order.
pub open spec fn sorted_by_priority<K, H>(s: Seq<Ranked<K, H>>) -> bool {
    forall|i: int, j: int| 0 <= i < j < s.len() ==> s[i].priority <= s[j].priority
}

/// Whether no two entries share a name.
pub open spec fn unique_names<K, H>(s: Seq<Ranked<K, H>>) -> bool {
    forall|i: int, j: int| 0 <= i < j < s.len() ==> s[i].name@ != s[j].name@
}

/// Whether `pos` is where an entry of priority `p` goes: after every entry of
/// priority at most `p`, before every entry of greater priority.
pub open spec fn slot_for<K, H>(s: Seq<Ranked<K, H>>, p: u32, pos: int) -> bool {
    &&& 0 <= pos <= s.len()
    &&& forall|i: int| 0 <= i < pos ==> (#[trigger] s[i]).priority <= p
    &&& forall|i: int| pos <= i < s.len() ==> (#[trigger] s[i]).priority > p
}

/// The message for a component name that is already taken.
pub open spec fn duplicate_message(what: Seq<char>, name: Seq<char>, owner: Seq<char>) -> Seq<char> {
    what + " '"@ + name + "' already registered by plugin '"@ + owner + "'"@
}

/// The entries not registered by plugin `p`, in order.
pub open spec fn ranked_without<K, H>(s: Seq<Ranked<K, H>>, p: Seq<char>) -> Seq<Ranked<K, H>> {
    s.filter(|e: Ranked<K, H>| e.plugin_name@ != p)
}

/// The adapters not registered by plugin `p`, in order.
pub open spec fn adapters_without<A>(s: Seq<(String, A)>, p: Seq<char>) -> Seq<(String, A)> {
    s.filter(|e: (String, A)| e.0@ != p)
}

/// Components kept in ascending priority order (registration order among
/// equal priorities), with unique names.
pub struct PriorityList<K, H> {
    entries: Vec<Ranked<K, H>>,
}

impl<K, H> PriorityList<K, H> {
    #[verifier::type_invariant]
    spec fn inv(self) -> bool {
        &&& sorted_by_priority(self.entries@)
        &&& unique_names(self.entries@)
    }

    /// The entries in the order they run.
    pub closed spec fn entries(&self) -> Seq<Ranked<K, H>> {
        self.entries@
    }

    /// An empty list.
    pub fn new() -> (l: PriorityList<K, H>)
        ensures
            l.entries().len() == 0,
    {
        PriorityList { entries: Vec::new() }
    }

    /// The number of entries.
    pub fn len(&self) -> (n: usize)
        ensures
            n == self.entries().len(),
    {
        self.entries.len()
    }

    /// The entry at position `i`.
    pub fn get(&self, i: usize) -> (e: &Ranked<K, H>)
        requires
            i < self.entries().len(),
        ensures
            *e == self.entries()[i as int],
    {
        &self.entries[i]
    }

    /// The list is always sorted by priority and has unique names.
    pub fn check_order(&self) -> (r: bool)
        ensures
            r,
            sorted_by_priority(self.entries()),
            unique_names(self.entries()),
    {
        proof {
            use_type_invariant(self);
        }
        true
    }

    /// Registers a component. A taken name is refused (the list is unchanged
    /// and `what 'name' already registered by plugin 'owner'` describes it);
    /// otherwise the component goes after every entry of priority at most its
    /// own, keeping the list sorted.
    pub fn register(&mut self, what: &str, plugin_name: &str, name: String, priority: u32, kind: K, item: H) -> (r: Result<(), String>)
        ensures
            (exists|i: int| 0 <= i < old(self).entries().len() && (#[trigger] old(self).entries()[i]).name@ == name@) ==> {
                let i = choose|i: int| 0 <= i < old(self).entries().len() && (#[trigger] old(self).entries()[i]).name@ == name@;
                &&& r matches Err(m) && m@ == duplicate_message(what@, name@, old(self).entries()[i].plugin_name@)
                &&& final(self).entries() == old(self).entries()
            },
            !(exists|i: int| 0 <= i < old(self).entries().len() && (#[trigger] old(self).entries()[i]).name@ == name@) ==> {
                &&& r is Ok
                &&& exists|pos: int| slot_for(old(self).entries(), priority, pos)
                    && final(self).entries().len() == old(self).entries().len() + 1
                    && final(self).entries().take(pos) == old(self).entries().take(pos)
                    && final(self).entries().skip(pos + 1) == old(self).entries().skip(pos)
                    && final(self).entries()[pos].name@ == name@
                    && final(self).entries()[pos].plugin_name@ == plugin_name@
                    && final(self).entries()[pos].priority == priority
                    && final(self).entries()[pos].kind == kind
                    && final(self).entries()[pos].item == item
            },
    {
        proof {
            use_type_invariant(&*self);
        }
        let mut i: usize = 0;
        while i < self.entries.len()
            invariant
                i <= self.entries@.len(),
                unique_names(self.entries@),
                forall|j: int| 0 <= j < i ==> (#[trigger] self.entries@[j]).name@ != name@,
            decreases self.entries.len() - i,
        {
            if str_eq(self.entries[i].name.as_str(), name.as_str()) {
                let ghost c = choose|c: int| 0 <= c < self.entries@.len() && (#[trigger] self.entries@[c]).name@ == name@;
                assert(c == i) by {
                    if c < i {
                    } else if c > i {
                        assert(self.entries@[i as int].name@ != self.entries@[c].name@);
                    }
                }
                let mut m = owned(what);
                push_str(&mut m, " '");
                push_str(&mut m, name.as_str());
                push_str(&mut m, "' already registered by plugin '");
                push_str(&mut m, self.entries[i].plugin_name.as_str());
                push_str(&mut m, "'");
                return Err(m);
            }
            i = i + 1;
        }
        let mut pos: usize = 0;
        while pos < self.entries.len() && self.entries[pos].priority <= priority
            invariant
                pos <= self.entries@.len(),
                forall|j: int| 0 <= j < pos ==> (#[trigger] self.entries@[j]).priority <= priority,
            decreases self.entries.len() - pos,
        {
            pos = pos + 1;
        }
        let ghost s0 = self.entries@;
        assert(slot_for(s0, priority, pos as int)) by {
            assert forall|j: int| pos <= j < s0.len() implies (#[trigger] s0[j]).priority > priority by {
                assert(s0[pos as int].priority > priority);
                assert(s0[pos as int].priority <= s0[j].priority);
            }
        }
        let mut es: Vec<Ranked<K, H>> = Vec::new();
        std::mem::swap(&mut es, &mut self.entries);
        let e = Ranked { name, plugin_name: owned(plugin_name), priority, kind, item };
        let ghost eg = e;
        es.insert(pos, e);
        assert(es@[pos as int] == eg);
        proof {
            let t = es@;
            assert(t.take(pos as int) =~= s0.take(pos as int));
            assert(t.skip(pos as int + 1) =~= s0.skip(pos as int));
            assert forall|a: int, b: int| 0 <= a < b < t.len() implies t[a].priority <= t[b].priority by {
                let a2 = if a < pos { a } else { a - 1 };
                let b2 = if b <= pos { b } else { b - 1 };
                if a != pos && b != pos {
                    assert(t[a] == s0[a2] && t[b] == s0[b2]);
                } else if a == pos {
                    assert(t[b] == s0[b2]);
                } else {
                    assert(t[a] == s0[a2]);
                }
            }
            assert forall|a: int, b: int| 0 <= a < b < t.len() implies t[a].name@ != t[b].name@ by {
                let a2 = if a < pos { a } else { a - 1 };
                let b2 = if b <= pos { b } else { b - 1 };
                if a != pos && b != pos {
                    assert(t[a] == s0[a2] && t[b] == s0[b2]);
                } else if a == pos {
                    assert(t[b] == s0[b2]);
                } else {
                    assert(t[a] == s0[a2]);
                }
            }
        }
        self.entries = es;
        assert(self.entries@.take(pos as int) == s0.take(pos as int));
        assert(self.entries@.skip(pos as int + 1) == s0.skip(pos as int));
        assert(slot_for(old(self).entries(), priority, pos as int));
        Ok(())
    }

    /// Removes every entry of plugin `p`, keeping the others in order.
    pub fn remove_plugin(&mut self, p: &str)
        ensures
            final(self).entries() == ranked_without(old(self).entries(), p@),
    {
        proof {
            use_type_invariant(&*self);
        }
        let mut es: Vec<Ranked<K, H>> = Vec::new();
        std::mem::swap(&mut es, &mut self.entries);
        let ghost s0 = es@;
        let ghost pred = |e: Ranked<K, H>| e.plugin_name@ != p@;
        let mut out: Vec<Ranked<K, H>> = Vec::new();
        let mut rev: Vec<Ranked<K, H>> = Vec::new();
        while es.len() > 0
            invariant
                rev@.len() + es@.len() == s0.len(),
                forall|j: int| 0 <= j < es@.len() ==> es@[j] == s0[j],
                forall|j: int| 0 <= j < rev@.len() ==> rev@[j] == s0[s0.len() - 1 - j],
            decreases es.len(),
        {
            let e = es.pop().unwrap();
            rev.push(e);
        }
        let n = rev.len();
        let mut i: usize = 0;
        assert(s0.take(0).filter(pred) =~= Seq::<Ranked<K, H>>::empty()) by {
            reveal(Seq::filter);
        }
        while rev.len() > 0
            invariant
                n == s0.len(),
                i + rev@.len() == n,
                forall|j: int| 0 <= j < rev@.len() ==> rev@[j] == s0[s0.len() - 1 - j],
                sorted_by_priority(s0),
                unique_names(s0),
                out@ == s0.take(i as int).filter(pred),
                sorted_by_priority(out@),
                unique_names(out@),
                forall|j: int| #![trigger out@[j]] 0 <= j < out@.len() ==> exists|m: int| 0 <= m < i && (#[trigger] s0[m]) == out@[j],
                pred == (|e: Ranked<K, H>| e.plugin_name@ != p@),
            decreases rev.len(),
        {
            let e = rev.pop().unwrap();
            assert(e == s0[i as int]);
            proof {
                reveal(Seq::filter);
                assert(s0.take(i as int + 1).drop_last() == s0.take(i as int));
                assert(s0.take(i as int + 1).last() == s0[i as int]);
            }
            if !str_eq(e.plugin_name.as_str(), p) {
                let ghost out0 = out@;
                out.push(e);
                proof {
                    assert forall|a: int, b: int| 0 <= a < b < out@.len() implies out@[a].priority <= out@[b].priority && out@[a].name@ != out@[b].name@ by {
                        if b == out@.len() - 1 {
                            let m = choose|m: int| 0 <= m < i && (#[trigger] s0[m]) == out0[a];
                            assert(s0[m].priority <= s0[i as int].priority);
                            assert(s0[m].name@ != s0[i as int].name@);
                        } else {
                            assert(out@[a] == out0[a] && out@[b] == out0[b]);
                        }
                    }
                    assert forall|j: int| #![trigger out@[j]] 0 <= j < out@.len() implies exists|m: int| 0 <= m < i + 1 && (#[trigger] s0[m]) == out@[j] by {
                        if j == out@.len() - 1 {
                            assert(s0[i as int] == out@[j]);
                        } else {
                            let m = choose|m: int| 0 <= m < i && (#[trigger] s0[m]) == out0[j];
                            assert(s0[m] == out@[j]);
                        }
                    }
                }
            }
            i = i + 1;
        }
        assert(s0.take(n as int) == s0);
        self.entries = out;
    }
}

/// Which dispatch phase hooks are asked about.
#[derive(Clone, Copy, Debug, PartialEq, Eq)]
pub enum HookPhase {
    BeforeCommand,
    AfterCommand,
    Main,
}

/// Whether a hook of type `ht` runs in `phase` for an event of kind `et`
/// carrying command `cmd` (if any).
pub open spec fn hook_applies(ht: HookType, phase: HookPhase, cmd: Option<Seq<char>>, et: EventType) -> bool {
    match (ht, phase) {
        (HookType::BeforeCommand, HookPhase::BeforeCommand) => true,
        (HookType::AfterCommand, HookPhase::AfterCommand) => true,
        (HookType::BeforeNamedCommand(n), HookPhase::BeforeCommand) => cmd == Some(n@),
        (HookType::AfterNamedCommand(n), HookPhase::AfterCommand) => cmd == Some(n@),
        (HookType::Event(e), HookPhase::Main) => e.same_kind(et),
        (HookType::All, HookPhase::Main) => true,
        _ => false,
    }
}

/// Hooks run only in their own phase: command hooks (named or not) before or
/// after the command as their kind says, event hooks and catch-all hooks in
/// the main phase.
pub proof fn lemma_hooks_run_in_their_phase(ht: HookType, phase: HookPhase, cmd: Option<Seq<char>>, et: EventType)
    ensures
        hook_applies(ht, phase, cmd, et) && (ht is BeforeCommand || ht is BeforeNamedCommand) ==> phase
            == HookPhase::BeforeCommand,
        hook_applies(ht, phase, cmd, et) && (ht is AfterCommand || ht is AfterNamedCommand) ==> phase
            == HookPhase::AfterCommand,
        hook_applies(ht, phase, cmd, et) && (ht is Event || ht is All) ==> phase == HookPhase::Main,
{
}

/// A hook for a named command runs, in its phase, exactly for an event
/// carrying that command and for no other; a hook for any command runs for
/// every event of its phase; a catch-all hook runs for every event of the
/// main phase, and an event hook for every event of its kind.
pub proof fn lemma_hooks_run_for_their_events(n: String, cmd: Option<Seq<char>>, e: EventType, et: EventType)
    ensures
        hook_applies(HookType::BeforeNamedCommand(n), HookPhase::BeforeCommand, cmd, et) <==> cmd == Some(n@),
        hook_applies(HookType::AfterNamedCommand(n), HookPhase::AfterCommand, cmd, et) <==> cmd == Some(n@),
        hook_applies(HookType::BeforeCommand, HookPhase::BeforeCommand, cmd, et),
        hook_applies(HookType::AfterCommand, HookPhase::AfterCommand, cmd, et),
        hook_applies(HookType::All, HookPhase::Main, cmd, et),
        hook_applies(HookType::Event(e), HookPhase::Main, cmd, et) <==> e.same_kind(et),
{
}

/// Decides [`hook_applies`].
pub fn hook_applies_exec(ht: &HookType, phase: HookPhase, cmd: Option<&str>, et: &EventType) -> (r: bool)
    ensures
        r == hook_applies(*ht, phase, match cmd {
            Some(c) => Some(c@),
            None => None,
        }, *et),
{
    match (ht, phase) {
        (HookType::BeforeCommand, HookPhase::BeforeCommand) => true,
        (HookType::AfterCommand, HookPhase::AfterCommand) => true,
        (HookType::BeforeNamedCommand(n), HookPhase::BeforeCommand) => match cmd {
            Some(c) => str_eq(c, n.as_str()),
            None => false,
        },
        (HookType::AfterNamedCommand(n), HookPhase::AfterCommand) => match cmd {
            Some(c) => str_eq(c, n.as_str()),
            None => false,
        },
        (HookType::Event(e), HookPhase::Main) => e.is_same(et),
        (HookType::All, HookPhase::Main) => true,
        _ => false,
    }
}

/// The name of the command an event carries, if any.
pub open spec fn event_command_name(e: Event) -> Option<Seq<char>> {
    match e.command {
        Some(c) => Some(c.cmd@),
        None => None,
    }
}

impl<H> PriorityList<HookType, H> {
    /// The positions of the hooks that run for `event` in `phase`, in the
    /// order they run.
    pub fn matching(&self, phase: HookPhase, event: &Event) -> (r: Vec<usize>)
        ensures
            forall|j: int| 0 <= j < r@.len() ==> (#[trigger] r@[j]) < self.entries().len()
                && hook_applies(self.entries()[r@[j] as int].kind, phase, event_command_name(*event), event.event_type),
            forall|a: int, b: int| 0 <= a < b < r@.len() ==> r@[a] < r@[b],
            forall|i: int| 0 <= i < self.entries().len()
                && hook_applies(#[trigger] self.entries()[i].kind, phase, event_command_name(*event), event.event_type)
                ==> exists|j: int| 0 <= j < r@.len() && r@[j] == i,
    {
        let cmd: Option<&str> = match &event.command {
            Some(c) => Some(c.cmd.as_str()),
            None => None,
        };
        let mut r: Vec<usize> = Vec::new();
        let mut i: usize = 0;
        while i < self.entries.len()
            invariant
                i <= self.entries@.len(),
                (match cmd {
                    Some(c) => Some(c@),
                    None => None,
                }) == event_command_name(*event),
                forall|j: int| 0 <= j < r@.len() ==> (#[trigger] r@[j]) < i
                    && hook_applies(self.entries@[r@[j] as int].kind, phase, event_command_name(*event), event.event_type),
                forall|a: int, b: int| 0 <= a < b < r@.len() ==> r@[a] < r@[b],
                forall|k: int| 0 <= k < i
                    && hook_applies(#[trigger] self.entries@[k].kind, phase, event_command_name(*event), event.event_type)
                    ==> exists|j: int| 0 <= j < r@.len() && r@[j] == k,
            decreases self.entries.len() - i,
        {
            if hook_applies_exec(&self.entries[i].kind, phase, cmd, &event.event_type) {
                let ghost r0 = r@;
                r.push(i);
                assert forall|k: int| 0 <= k < i + 1
                    && hook_applies(#[trigger] self.entries@[k].kind, phase, event_command_name(*event), event.event_type)
                    implies exists|j: int| 0 <= j < r@.len() && r@[j] == k by {
                    if k == i {
                        assert(r@[r@.len() - 1] == k);
                    } else {
                        let j = choose|j: int| 0 <= j < r0.len() && r0[j] == k;
                        assert(r@[j] == k);
                    }
                }
            }
            i = i + 1;
        }
        r
    }
}

/// Adapters in registration order (a plugin may register several).
pub struct AdapterList<A> {
    entries: Vec<(String, A)>,
}

impl<A> AdapterList<A> {
    /// The adapters with the plugins that registered them, in order.
    pub closed spec fn entries(&self) -> Seq<(String, A)> {
        self.entries@
    }

    /// An empty list.
    pub fn new() -> (l: AdapterList<A>)
        ensures
            l.entries().len() == 0,
    {
        AdapterList { entries: Vec::new() }
    }

    /// Appends an adapter registered by `plugin_name`.
    pub fn register(&mut self, plugin_name: &str, adapter: A)
        ensures
            final(self).entries().len() == old(self).entries().len() + 1,
            final(self).entries().drop_last() == old(self).entries(),
            final(self).entries().last().0@ == plugin_name@,
            final(self).entries().last().1 == adapter,
    {
        self.entries.push((owned(plugin_name), adapter));
        assert(self.entries@.drop_last() =~= old(self).entries@);
    }

    /// The number of adapters.
    pub fn len(&self) -> (n: usize)
        ensures
            n == self.entries().len(),
    {
        self.entries.len()
    }

    /// The adapter at position `i`.
    pub fn get(&self, i: usize) -> (a: &(String, A))
        requires
            i < self.entries().len(),
        ensures
            *a == self.entries()[i as int],
    {
        &self.entries[i]
    }

    /// The first adapter registered by plugin `name`.
    pub fn find(&self, name: &str) -> (r: Option<usize>)
        ensures
            match r {
                Some(i) => i < self.entries().len() && self.entries()[i as int].0@ == name@
                    && forall|j: int| 0 <= j < i ==> (#[trigger] self.entries()[j]).0@ != name@,
                None => forall|j: int| 0 <= j < self.entries().len() ==> (#[trigger] self.entries()[j]).0@ != name@,
            },
    {
        let mut i: usize = 0;
        while i < self.entries.len()
            invariant
                i <= self.entries@.len(),
                forall|j: int| 0 <= j < i ==> (#[trigger] self.entries@[j]).0@ != name@,
            decreases self.entries.len() - i,
        {
            if str_eq(self.entries[i].0.as_str(), name) {
                return Some(i);
            }
            i = i + 1;
        }
        None
    }

    /// Removes every adapter of plugin `p`, keeping the others in order.
    pub fn remove_plugin(&mut self, p: &str)
        ensures
            final(self).entries() == adapters_without(old(self).entries(), p@),
    {
        let mut es: Vec<(String, A)> = Vec::new();
        std::mem::swap(&mut es, &mut self.entries);
        let ghost s0 = es@;
        let ghost pred = |e: (String, A)| e.0@ != p@;
        let mut out: Vec<(String, A)> = Vec::new();
        let mut rev: Vec<(String, A)> = Vec::new();
        while es.len() > 0
            invariant
                rev@.len() + es@.len() == s0.len(),
                forall|j: int| 0 <= j < es@.len() ==> es@[j] == s0[j],
                forall|j: int| 0 <= j < rev@.len() ==> rev@[j] == s0[s0.len() - 1 - j],
            decreases es.len(),
        {
            let e = es.pop().unwrap();
            rev.push(e);
        }
        let n = rev.len();
        let mut i: usize = 0;
        assert(s0.take(0).filter(pred) =~= Seq::<(String, A)>::empty()) by {
            reveal(Seq::filter);
        }
        while rev.len() > 0
            invariant
                n == s0.len(),
                i + rev@.len() == n,
                forall|j: int| 0 <= j < rev@.len() ==> rev@[j] == s0[s0.len() - 1 - j],
                out@ == s0.take(i as int).filter(pred),
                pred == (|e: (String, A)| e.0@ != p@),
            decreases rev.len(),
        {
            let e = rev.pop().unwrap();
            assert(e == s0[i as int]);
            proof {
                reveal(Seq::filter);
                assert(s0.take(i as int + 1).drop_last() == s0.take(i as int));
                assert(s0.take(i as int + 1).last() == s0[i as int]);
            }
            if !str_eq(e.0.as_str(), p) {
                out.push(e);
            }
            i = i + 1;
        }
        assert(s0.take(n as int) == s0);
        self.entries = out;
    }
}

impl<A> AdapterList<A> {
    /// The adapter an event is handed to directly instead of going through the
    /// bot: the first adapter registered by the plugin the event targets, if
    /// it targets one and that plugin registered an adapter.
    pub fn direct_route(&self, event: &Event) -> (r: Option<usize>)
        ensures
            match event.target_plugin {
                Some(t) => match r {
                    Some(i) => i < self.entries().len() && self.entries()[i as int].0@ == t@ && forall|j: int|
                        0 <= j < i ==> (#[trigger] self.entries()[j]).0@ != t@,
                    None => forall|j: int| 0 <= j < self.entries().len() ==> (#[trigger] self.entries()[j]).0@ != t@,
                },
                None => r is None,
            },
    {
        match &event.target_plugin {
            Some(t) => self.find(t.as_str()),
            None => None,
        }
    }
}

/// What dispatch an event of a given kind gets after the main hooks.
#[derive(Clone, Copy, Debug, PartialEq, Eq)]
pub enum Dispatch {
    /// Resolve and run the command.
    Command,
    /// Run the message handlers.
    Message,
    /// Nothing beyond hooks and plugin notification.
    Nothing,
}

/// The dispatch for an event kind.
pub open spec fn dispatch_of(et: EventType) -> Dispatch {
    match et {
        EventType::Command => Dispatch::Command,
        EventType::Message => Dispatch::Message,
        _ => Dispatch::Nothing,
    }
}

/// Decides [`dispatch_of`].
pub fn dispatch_for(et: &EventType) -> (d: Dispatch)
    ensures
        d == dispatch_of(*et),
{
    match et {
        EventType::Command => Dispatch::Command,
        EventType::Message => Dispatch::Message,
        _ => Dispatch::Nothing,
    }
}

/// The arguments a command handler sees: the (possibly hook-rewritten)
/// arguments of the event's command, or nothing.
pub fn command_args(event: &Event) -> (a: String)
    ensures
        a@ == match event.command {
            Some(c) => c.args@,
            None => Seq::<char>::empty(),
        },
{
    match &event.command {
        Some(c) => c.args.clone(),
        None => String::new(),
    }
}

/// Name conflicts recorded while a plugin loads.
pub struct ConflictLog {
    entries: Vec<String>,
}

impl ConflictLog {
    /// The recorded conflicts, oldest first.
    pub closed spec fn entries(&self) -> Seq<String> {
        self.entries@
    }

    /// An empty log.
    pub fn new() -> (l: ConflictLog)
        ensures
            l.entries().len() == 0,
    {
        ConflictLog { entries: Vec::new() }
    }

    /// Forgets everything recorded (a plugin load begins).
    pub fn begin(&mut self)
        ensures
            final(self).entries().len() == 0,
    {
        self.entries.clear();
    }

    /// Records a conflict.
    pub fn record(&mut self, msg: String)
        ensures
            final(self).entries() == old(self).entries().push(msg),
    {
        self.entries.push(msg);
    }

    /// Hands out everything recorded and forgets it.
    pub fn take(&mut self) -> (r: Vec<String>)
        ensures
            r@ == old(self).entries(),
            final(self).entries().len() == 0,
    {
        let mut out: Vec<String> = Vec::new();
        std::mem::swap(&mut out, &mut self.entries);
        out
    }
}

/// Whether a plugin that recorded `conflicts` while loading is refused.
pub fn conflicts_verdict(conflicts: &Vec<String>) -> (r: Result<(), crate::error::PluginError>)
    ensures
        r == (if conflicts@.len() == 0 {
            Ok::<(), crate::error::PluginError>(())
        } else {
            Err(crate::error::PluginError::ComponentConflict)
        }),
{
    if conflicts.len() == 0 {
        Ok(())
    } else {
        Err(crate::error::PluginError::ComponentConflict)
    }
}

} // verus!

verus! {

/// Every component table of the runtime.
pub struct Registry<C, K, M, A, D> {
    pub commands: CommandTable<C>,
    pub hooks: PriorityList<HookType, K>,
    pub message_handlers: PriorityList<(), M>,
    pub adapters: AdapterList<A>,
    /// Database drivers by the name of the plugin that registered them.
    pub databases: Keyed<D>,
    pub conflicts: ConflictLog,
}

impl<C, K, M, A, D> Registry<C, K, M, A, D> {
    /// Empty tables.
    pub fn new() -> (r: Registry<C, K, M, A, D>)
        ensures
            r.commands.commands() == Map::<Seq<char>, CommandEntry<C>>::empty(),
            r.commands.aliases() == Map::<Seq<char>, String>::empty(),
            r.hooks.entries().len() == 0,
            r.message_handlers.entries().len() == 0,
            r.adapters.entries().len() == 0,
            r.databases.view() == Map::<Seq<char>, D>::empty(),
            r.conflicts.entries().len() == 0,
    {
        Registry {
            commands: CommandTable::new(),
            hooks: PriorityList::new(),
            message_handlers: PriorityList::new(),
            adapters: AdapterList::new(),
            databases: Keyed::new(),
            conflicts: ConflictLog::new(),
        }
    }

    /// Drops every command (with its aliases), hook, message handler, adapter
    /// and database driver registered under plugin `p`; everything else stays.
    pub fn remove_plugin_components(&mut self, p: &str)
        ensures
            final(self).commands.commands() == old(self).commands.commands().remove_keys(
                commands_of(old(self).commands.commands(), p@),
            ),
            final(self).commands.aliases() == old(self).commands.aliases().remove_keys(
                aliases_of(old(self).commands.commands(), old(self).commands.aliases(), p@),
            ),
            final(self).hooks.entries() == ranked_without(old(self).hooks.entries(), p@),
            final(self).message_handlers.entries() == ranked_without(old(self).message_handlers.entries(), p@),
            final(self).adapters.entries() == adapters_without(old(self).adapters.entries(), p@),
            final(self).databases.view() == old(self).databases.view().remove(p@),
            final(self).conflicts.entries() == old(self).conflicts.entries(),
    {
        self.commands.remove_plugin(p);
        self.hooks.remove_plugin(p);
        self.message_handlers.remove_plugin(p);
        self.adapters.remove_plugin(p);
        let _ = self.databases.remove(p);
    }
}

/// Registering a command without conflict makes its name and each of its
/// aliases resolve to it.
pub proof fn lemma_registered_resolves<H>(
    cmds: Map<Seq<char>, CommandEntry<H>>,
    als: Map<Seq<char>, String>,
    name: String,
    list: Seq<Seq<char>>,
    entry: CommandEntry<H>,
)
    requires
        command_conflict(cmds, als, name@, list) is None,
    ensures
        resolve(cmds.insert(name@, entry), with_aliases(als, list, name), name@) == Some(name@),
        forall|i: int| 0 <= i < list.len() ==> resolve(
            cmds.insert(name@, entry),
            with_aliases(als, list, name),
            #[trigger] list[i],
        ) == Some(name@),
{
    lemma_with_aliases_maps(als, list, name);
    lemma_no_alias_conflict(cmds, als, list);
    assert forall|i: int| 0 <= i < list.len() implies resolve(
        cmds.insert(name@, entry),
        with_aliases(als, list, name),
        #[trigger] list[i],
    ) == Some(name@) by {
        assert(!cmds.contains_key(list[i]));
    }
}

/// An alias list without conflict names no existing command or alias.
pub proof fn lemma_no_alias_conflict<H>(cmds: Map<Seq<char>, CommandEntry<H>>, als: Map<Seq<char>, String>, list: Seq<Seq<char>>)
    requires
        alias_conflict(cmds, als, list) is None,
    ensures
        forall|i: int| 0 <= i < list.len() ==> !cmds.contains_key(#[trigger] list[i]) && !als.contains_key(list[i]),
    decreases list.len(),
{
    if list.len() > 0 {
        lemma_no_alias_conflict(cmds, als, list.drop_first());
        assert forall|i: int| 0 <= i < list.len() implies !cmds.contains_key(#[trigger] list[i]) && !als.contains_key(list[i]) by {
            if i > 0 {
                assert(list[i] == list.drop_first()[i - 1]);
            }
        }
    }
}

/// After mapping `list` to `name`, every alias of `list` maps to `name`.
pub proof fn lemma_with_aliases_maps(als: Map<Seq<char>, String>, list: Seq<Seq<char>>, name: String)
    ensures
        forall|i: int| 0 <= i < list.len() ==> with_aliases(als, list, name).contains_key(#[trigger] list[i])
            && with_aliases(als, list, name)[list[i]] == name,
        forall|k: Seq<char>| !list.contains(k) ==> with_aliases(als, list, name).contains_key(k) == als.contains_key(k)
            && (als.contains_key(k) ==> with_aliases(als, list, name)[k] == als[k]),
    decreases list.len(),
{
    if list.len() > 0 {
        let l0 = list.drop_last();
        lemma_with_aliases_maps(als, l0, name);
        assert forall|i: int| 0 <= i < list.len() implies with_aliases(als, list, name).contains_key(#[trigger] list[i])
            && with_aliases(als, list, name)[list[i]] == name by {
            if i < list.len() - 1 {
                assert(list[i] == l0[i]);
            }
        }
        assert forall|k: Seq<char>| !list.contains(k) implies with_aliases(als, list, name).contains_key(k) == als.contains_key(k)
            && (als.contains_key(k) ==> with_aliases(als, list, name)[k] == als[k]) by {
            assert(k != list.last()) by {
                assert(list[list.len() - 1] == list.last());
            }
            if l0.contains(k) {
                let j = choose|j: int| 0 <= j < l0.len() && l0[j] == k;
                assert(list[j] == k);
            }
        }
    }
}

/// Once a plugin's components are removed, none of its commands, aliases
/// into its commands, hooks, message handlers, adapters or database driver
/// remain, and every component of another plugin is still there.
pub proof fn lemma_removal_complete<C, K, M, A, D>(
    cmds: Map<Seq<char>, CommandEntry<C>>,
    als: Map<Seq<char>, String>,
    hooks: Seq<Ranked<HookType, K>>,
    handlers: Seq<Ranked<(), M>>,
    adapters: Seq<(String, A)>,
    dbs: Map<Seq<char>, D>,
    p: Seq<char>,
)
    ensures
        forall|k: Seq<char>| #[trigger] cmds.remove_keys(commands_of(cmds, p)).contains_key(k)
            ==> cmds[k].plugin_name@ != p,
        forall|k: Seq<char>| cmds.contains_key(k) && cmds[k].plugin_name@ != p
            ==> #[trigger] cmds.remove_keys(commands_of(cmds, p)).contains_key(k)
            && cmds.remove_keys(commands_of(cmds, p))[k] == cmds[k],
        forall|a: Seq<char>| #[trigger] als.remove_keys(aliases_of(cmds, als, p)).contains_key(a)
            ==> !commands_of(cmds, p).contains(als[a]@),
        forall|i: int| 0 <= i < ranked_without(hooks, p).len()
            ==> (#[trigger] ranked_without(hooks, p)[i]).plugin_name@ != p,
        forall|i: int| 0 <= i < ranked_without(handlers, p).len()
            ==> (#[trigger] ranked_without(handlers, p)[i]).plugin_name@ != p,
        forall|i: int| 0 <= i < adapters_without(adapters, p).len()
            ==> (#[trigger] adapters_without(adapters, p)[i]).0@ != p,
        !dbs.remove(p).contains_key(p),
{
    hooks.filter_lemma(|e: Ranked<HookType, K>| e.plugin_name@ != p);
    handlers.filter_lemma(|e: Ranked<(), M>| e.plugin_name@ != p);
    adapters.filter_lemma(|e: (String, A)| e.0@ != p);
}

} // verus!
