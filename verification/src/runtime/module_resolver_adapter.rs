//! An in-memory resolver of pre-loaded modules, keyed by each
//! module's own identity: the address and name that its self handle
//! points at.  Inserting a module under an identity already held
//! replaces the earlier binding and hands it back.

use crate::module::AdamantCompiledModule;
use crate::transaction::Address;
use vstd::prelude::*;

verus! {

/// The identity of a module: its address and its name.
#[derive(Clone, Debug, PartialEq, Eq)]
pub struct ModuleId {
    /// The module's address.
    pub address: Address,
    /// The module's name.
    pub name: String,
}

/// The key an identity stands for: the address bytes and the name.
pub open spec fn id_key(id: ModuleId) -> (Seq<u8>, Seq<char>) {
    (id.address.0@, id.name@)
}

/// The identity a module's self handle points at, when the handle,
/// its address and its name are all in bounds.
pub open spec fn spec_self_id(m: AdamantCompiledModule) -> Option<(Seq<u8>, Seq<char>)> {
    let i = m.self_module_handle_idx.0 as int;
    if i < m.module_handles@.len() {
        let h = m.module_handles@[i];
        if (h.address.0 as int) < m.address_identifiers@.len() && (h.name.0 as int) < m.identifiers@.len() {
            Some((m.address_identifiers@[h.address.0 as int].0@, m.identifiers@[h.name.0 as int]@))
        } else {
            None
        }
    } else {
        None
    }
}

impl ModuleId {
    /// An identity from an address and a name.
    pub fn new(address: Address, name: String) -> (r: Self)
        ensures
            r.address == address,
            r.name@ == name@,
    {
        ModuleId { address, name }
    }

    /// The identity a module's self handle points at, or `None` when
    /// the handle, its address or its name is out of bounds.
    pub fn from_module(module: &AdamantCompiledModule) -> (r: Option<ModuleId>)
        ensures
            match spec_self_id(*module) {
                None => r is None,
                Some(k) => r is Some && id_key(r->0) == k,
            },
    {
        let i = module.self_module_handle_idx.0 as usize;
        if i >= module.module_handles.len() {
            return None;
        }
        let h = module.module_handles[i];
        let a = h.address.0 as usize;
        let n = h.name.0 as usize;
        if a >= module.address_identifiers.len() || n >= module.identifiers.len() {
            return None;
        }
        Some(ModuleId { address: module.address_identifiers[a], name: module.identifiers[n].clone() })
    }

    /// Whether two identities are the same.
    pub fn same_as(&self, other: &ModuleId) -> (r: bool)
        ensures
            r == (id_key(*self) == id_key(*other)),
    {
        let mut i: usize = 0;
        while i < 32
            invariant
                i <= 32,
                self.address.0@.len() == 32,
                other.address.0@.len() == 32,
                forall|j: int| 0 <= j < i ==> self.address.0@[j] == other.address.0@[j],
            decreases 32 - i,
        {
            if self.address.0[i] != other.address.0[i] {
                return false;
            }
            i = i + 1;
        }
        assert(self.address.0@ =~= other.address.0@);
        self.name == other.name
    }
}

/// A module's self handle is out of bounds, so it has no identity to
/// be keyed by.
#[derive(Debug, Clone, Copy, PartialEq, Eq, Structural)]
pub struct MalformedSelfHandle;

/// The map that a list of bindings stands for, later bindings
/// replacing earlier ones under the same key.
pub open spec fn entries_map(s: Seq<(ModuleId, AdamantCompiledModule)>) -> Map<(Seq<u8>, Seq<char>), AdamantCompiledModule>
    decreases s.len(),
{
    if s.len() == 0 {
        Map::empty()
    } else {
        entries_map(s.drop_last()).insert(id_key(s.last().0), s.last().1)
    }
}

/// No key is bound twice.
pub open spec fn keys_distinct(s: Seq<(ModuleId, AdamantCompiledModule)>) -> bool {
    forall|i: int, j: int| 0 <= i < j < s.len() ==> id_key(#[trigger] s[i].0) != id_key(#[trigger] s[j].0)
}

/// The map that inserting the modules one after the other gives,
/// each under its self identity.
pub open spec fn modules_map(s: Seq<AdamantCompiledModule>) -> Map<(Seq<u8>, Seq<char>), AdamantCompiledModule>
    decreases s.len(),
{
    if s.len() == 0 {
        Map::empty()
    } else {
        modules_map(s.drop_last()).insert(spec_self_id(s.last())->0, s.last())
    }
}

/// Whether every module has an identity.
pub open spec fn all_have_ids(s: Seq<AdamantCompiledModule>) -> bool {
    forall|i: int| 0 <= i < s.len() ==> (#[trigger] spec_self_id(s[i])) is Some
}

/// The keys of distinct bindings: a key is bound exactly where some
/// binding holds it, to that binding's module.
proof fn lemma_entries_map(s: Seq<(ModuleId, AdamantCompiledModule)>, k: (Seq<u8>, Seq<char>))
    requires
        keys_distinct(s),
    ensures
        entries_map(s).dom().contains(k) <==> exists|j: int| 0 <= j < s.len() && id_key(#[trigger] s[j].0) == k,
        forall|j: int| 0 <= j < s.len() && id_key(#[trigger] s[j].0) == k ==> entries_map(s)[k] == s[j].1,
    decreases s.len(),
{
    if s.len() > 0 {
        let pre = s.drop_last();
        assert(keys_distinct(pre)) by {
            assert forall|i: int, j: int| 0 <= i < j < pre.len() implies id_key(#[trigger] pre[i].0) != id_key(#[trigger] pre[j].0) by {
                assert(pre[i] == s[i] && pre[j] == s[j]);
            }
        }
        lemma_entries_map(pre, k);
        let last = s.len() - 1;
        assert(s.last() == s[last]);
        if entries_map(s).dom().contains(k) {
            if k != id_key(s.last().0) {
                let j = choose|j: int| 0 <= j < pre.len() && id_key(#[trigger] pre[j].0) == k;
                assert(pre[j] == s[j]);
            }
        }
        if exists|j: int| 0 <= j < s.len() && id_key(#[trigger] s[j].0) == k {
            let j = choose|j: int| 0 <= j < s.len() && id_key(#[trigger] s[j].0) == k;
            if j < last {
                assert(pre[j] == s[j]);
            }
        }
        assert forall|j: int| 0 <= j < s.len() && id_key(#[trigger] s[j].0) == k implies entries_map(s)[k] == s[j].1 by {
            if j < last {
                assert(pre[j] == s[j]);
                assert(id_key(s[j].0) != id_key(s[last].0));
            }
        }
    }
}

/// Distinct bindings stand for a finite map with one key each.
proof fn lemma_entries_len(s: Seq<(ModuleId, AdamantCompiledModule)>)
    requires
        keys_distinct(s),
    ensures
        entries_map(s).dom().finite(),
        entries_map(s).len() == s.len(),
    decreases s.len(),
{
    if s.len() > 0 {
        let pre = s.drop_last();
        assert(keys_distinct(pre)) by {
            assert forall|i: int, j: int| 0 <= i < j < pre.len() implies id_key(#[trigger] pre[i].0) != id_key(#[trigger] pre[j].0) by {
                assert(pre[i] == s[i] && pre[j] == s[j]);
            }
        }
        lemma_entries_len(pre);
        let k = id_key(s.last().0);
        lemma_entries_map(pre, k);
        assert(!entries_map(pre).dom().contains(k)) by {
            if entries_map(pre).dom().contains(k) {
                let j = choose|j: int| 0 <= j < pre.len() && id_key(#[trigger] pre[j].0) == k;
                assert(pre[j] == s[j]);
                assert(s.last() == s[s.len() - 1]);
            }
        }
        assert(entries_map(s).dom() == entries_map(pre).dom().insert(k));
    }
}

/// Modules held under their self identities.
pub struct LoadedModulesResolver {
    modules: Vec<(ModuleId, AdamantCompiledModule)>,
}

impl View for LoadedModulesResolver {
    type V = Map<(Seq<u8>, Seq<char>), AdamantCompiledModule>;

    closed spec fn view(&self) -> Self::V {
        entries_map(self.modules@)
    }
}

impl LoadedModulesResolver {
    /// No identity is bound twice.
    #[verifier::type_invariant]
    closed spec fn keys_unique(&self) -> bool {
        keys_distinct(self.modules@)
    }

    /// The position of the binding of `id`, if there is one.
    fn find(&self, id: &ModuleId) -> (r: Option<usize>)
        ensures
            match r {
                Some(j) => j < self.modules@.len() && id_key(self.modules@[j as int].0) == id_key(*id),
                None => forall|j: int| 0 <= j < self.modules@.len() ==> id_key(#[trigger] self.modules@[j].0) != id_key(*id),
            },
    {
        let mut i: usize = 0;
        while i < self.modules.len()
            invariant
                i <= self.modules@.len(),
                forall|j: int| 0 <= j < i ==> id_key(#[trigger] self.modules@[j].0) != id_key(*id),
            decreases self.modules@.len() - i,
        {
            if self.modules[i].0.same_as(id) {
                return Some(i);
            }
            i = i + 1;
        }
        None
    }

    /// A resolver holding no module.
    pub fn new() -> (r: Self)
        ensures
            r@ == Map::<(Seq<u8>, Seq<char>), AdamantCompiledModule>::empty(),
    {
        LoadedModulesResolver { modules: Vec::new() }
    }

    /// A resolver holding no module, with room for `n`.
    pub fn with_capacity(n: usize) -> (r: Self)
        ensures
            r@ == Map::<(Seq<u8>, Seq<char>), AdamantCompiledModule>::empty(),
    {
        LoadedModulesResolver { modules: Vec::with_capacity(n) }
    }

    /// Inserts a module under its self identity, handing back the
    /// module that was bound there before; a module whose self handle
    /// is out of bounds is refused and nothing changes.
    pub fn insert(&mut self, module: AdamantCompiledModule) -> (r: Result<Option<AdamantCompiledModule>, MalformedSelfHandle>)
        ensures
            match spec_self_id(module) {
                None => r == Err::<Option<AdamantCompiledModule>, MalformedSelfHandle>(MalformedSelfHandle) && final(self)@ == old(self)@,
                Some(k) => r == Ok::<Option<AdamantCompiledModule>, MalformedSelfHandle>(
                    if old(self)@.contains_key(k) { Some(old(self)@[k]) } else { None },
                ) && final(self)@ == old(self)@.insert(k, module),
            },
    {
        proof {
            use_type_invariant(&*self);
        }
        let id = match ModuleId::from_module(&module) {
            None => return Err(MalformedSelfHandle),
            Some(id) => id,
        };
        let ghost k = id_key(id);
        let ghost s = self.modules@;
        let found = self.find(&id);
        let mut entries: Vec<(ModuleId, AdamantCompiledModule)> = Vec::new();
        std::mem::swap(&mut entries, &mut self.modules);
        assert(entries@ == s);
        match found {
            Some(j) => {
                entries.insert(j, (id, module));
                let n = entries.len();
                assert(j + 1 < n);
                let (_, previous) = entries.remove(j + 1);
                proof {
                    let s2 = entries@;
                    assert(s2 =~= s.update(j as int, (id, module)));
                    assert(previous == s[j as int].1);
                    assert(keys_distinct(s2)) by {
                        assert forall|a: int, b: int| 0 <= a < b < s2.len() implies id_key(#[trigger] s2[a].0) != id_key(#[trigger] s2[b].0) by {
                            assert(id_key(s2[a].0) == id_key(s[a].0));
                            assert(id_key(s2[b].0) == id_key(s[b].0));
                        }
                    }
                    lemma_entries_map(s, k);
                    assert(entries_map(s)[k] == previous);
                    assert(entries_map(s2) =~= entries_map(s).insert(k, module)) by {
                        assert forall|k2: (Seq<u8>, Seq<char>)| #[trigger] entries_map(s2).dom().contains(k2) <==> entries_map(s).insert(k, module).dom().contains(k2) by {
                            lemma_entries_map(s, k2);
                            lemma_entries_map(s2, k2);
                            if exists|x: int| 0 <= x < s.len() && id_key(#[trigger] s[x].0) == k2 {
                                let x = choose|x: int| 0 <= x < s.len() && id_key(#[trigger] s[x].0) == k2;
                                assert(id_key(s2[x].0) == k2);
                            }
                            if exists|x: int| 0 <= x < s2.len() && id_key(#[trigger] s2[x].0) == k2 {
                                let x = choose|x: int| 0 <= x < s2.len() && id_key(#[trigger] s2[x].0) == k2;
                                assert(id_key(s[x].0) == k2);
                            }
                        }
                        assert forall|k2: (Seq<u8>, Seq<char>)| #[trigger] entries_map(s2).dom().contains(k2) implies entries_map(s2)[k2] == entries_map(s).insert(k, module)[k2] by {
                            lemma_entries_map(s, k2);
                            lemma_entries_map(s2, k2);
                            let x = choose|x: int| 0 <= x < s2.len() && id_key(#[trigger] s2[x].0) == k2;
                            if x != j {
                                assert(s2[x] == s[x]);
                                assert(id_key(s[x].0) == k2);
                            } else {
                                assert(s2[x].1 == module);
                            }
                        }
                    }
                }
                self.modules = entries;
                Ok(Some(previous))
            },
            None => {
                entries.push((id, module));
                proof {
                    let s2 = entries@;
                    assert(s2.drop_last() =~= s);
                    assert(keys_distinct(s2)) by {
                        assert forall|a: int, b: int| 0 <= a < b < s2.len() implies id_key(#[trigger] s2[a].0) != id_key(#[trigger] s2[b].0) by {
                            if b == s.len() {
                                assert(s2[a] == s[a]);
                            } else {
                                assert(s2[a] == s[a] && s2[b] == s[b]);
                            }
                        }
                    }
                    lemma_entries_map(s, k);
                }
                self.modules = entries;
                Ok(None)
            },
        }
    }

    /// A resolver holding the modules, inserted one after the other;
    /// refused when some module's self handle is out of bounds.
    pub fn from_modules(modules: Vec<AdamantCompiledModule>) -> (r: Result<Self, MalformedSelfHandle>)
        ensures
            match r {
                Ok(res) => all_have_ids(modules@) && res@ == modules_map(modules@),
                Err(e) => !all_have_ids(modules@),
            },
    {
        let ghost all = modules@;
        let mut rest = modules;
        let mut resolver = Self::with_capacity(rest.len());
        let ghost mut done: nat = 0;
        assert(all.subrange(0, 0) =~= Seq::<AdamantCompiledModule>::empty());
        while rest.len() > 0
            invariant
                all == modules@,
                done <= all.len(),
                rest@ == all.subrange(done as int, all.len() as int),
                all_have_ids(all.subrange(0, done as int)),
                resolver@ == modules_map(all.subrange(0, done as int)),
            decreases rest@.len(),
        {
            let module = rest.remove(0);
            proof {
                assert(module == all[done as int]);
            }
            match resolver.insert(module) {
                Err(e) => {
                    proof {
                        assert(spec_self_id(all[done as int]) is None);
                        assert(!all_have_ids(all));
                    }
                    return Err(e);
                },
                Ok(_) => {},
            }
            proof {
                let pre = all.subrange(0, done as int);
                let post = all.subrange(0, done as int + 1);
                assert(post.drop_last() =~= pre);
                assert(post.last() == all[done as int]);
                assert(all_have_ids(post)) by {
                    assert forall|i: int| 0 <= i < post.len() implies (#[trigger] spec_self_id(post[i])) is Some by {
                        if i < pre.len() {
                            assert(post[i] == pre[i]);
                        }
                    }
                }
                done = done + 1;
                assert(rest@ =~= all.subrange(done as int, all.len() as int));
            }
        }
        assert(all.subrange(0, all.len() as int) =~= all);
        Ok(resolver)
    }

    /// The module bound to `id`, if any.
    pub fn resolve(&self, id: &ModuleId) -> (r: Option<&AdamantCompiledModule>)
        ensures
            match r {
                Some(m) => self@.contains_key(id_key(*id)) && *m == self@[id_key(*id)],
                None => !self@.contains_key(id_key(*id)),
            },
    {
        proof {
            use_type_invariant(self);
            lemma_entries_map(self.modules@, id_key(*id));
        }
        match self.find(id) {
            Some(j) => Some(&self.modules[j].1),
            None => None,
        }
    }

    /// The number of modules held.
    pub fn len(&self) -> (r: usize)
        ensures
            r == self@.len(),
    {
        proof {
            use_type_invariant(self);
            lemma_entries_len(self.modules@);
        }
        self.modules.len()
    }

    /// Whether no module is held.
    pub fn is_empty(&self) -> (r: bool)
        ensures
            r == (self@.len() == 0),
    {
        proof {
            use_type_invariant(self);
            lemma_entries_len(self.modules@);
        }
        self.modules.len() == 0
    }
}

} // verus!
