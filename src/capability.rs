//! Capability definitions and the registry of known capabilities.
//!
//! A capability that the registry does not hold is unknown and must be denied.
use vstd::prelude::*;

verus! {

/// Describes one expected argument of a capability; purely descriptive.
pub struct CapabilityParam {
    pub name: String,
    pub param_type: String,
    pub required: bool,
}

/// A named operation that the system can be asked to execute.
pub struct Capability {
    pub name: String,
    pub description: String,
    pub enabled: bool,
    pub parameters: Vec<CapabilityParam>,
}

/// The capability `c` with its `enabled` flag set to `e` and every other field kept.
pub open spec fn with_enabled(c: Capability, e: bool) -> Capability {
    Capability { enabled: e, ..c }
}

impl Capability {
    /// An enabled capability with no parameters.
    pub fn new(name: &str, description: &str) -> (r: Capability)
        ensures
            r.name@ == name@,
            r.description@ == description@,
            r.enabled,
            r.parameters@.len() == 0,
    {
        Capability {
            name: name.to_owned(),
            description: description.to_owned(),
            enabled: true,
            parameters: Vec::new(),
        }
    }

    pub fn with_params(self, params: Vec<CapabilityParam>) -> (r: Capability)
        ensures
            r.name == self.name,
            r.description == self.description,
            r.enabled == self.enabled,
            r.parameters == params,
    {
        let mut c = self;
        c.parameters = params;
        c
    }

    pub fn disable(&mut self)
        ensures
            *final(self) == with_enabled(*old(self), false),
    {
        self.enabled = false;
    }

    pub fn enable(&mut self)
        ensures
            *final(self) == with_enabled(*old(self), true),
    {
        self.enabled = true;
    }
}

/// No two capabilities of `caps` share a name.
pub open spec fn names_unique(caps: Seq<Capability>) -> bool {
    forall|i: int, j: int|
        0 <= i < caps.len() && 0 <= j < caps.len() && i != j ==> caps[i].name@ != caps[j].name@
}

/// The registry: at most one capability per name.
pub struct CapabilityRegistry {
    capabilities: Vec<Capability>,
}

impl CapabilityRegistry {
    pub closed spec fn wf(&self) -> bool {
        names_unique(self.capabilities@)
    }

    /// Some position of the capability named `n`.
    closed spec fn index_of(&self, n: Seq<char>) -> int {
        choose|i: int| 0 <= i < self.capabilities@.len() && self.capabilities@[i].name@ == n
    }

    /// The registry as a mapping from capability name to capability.
    pub closed spec fn view(&self) -> Map<Seq<char>, Capability> {
        Map::new(
            |n: Seq<char>| exists|i: int| 0 <= i < self.capabilities@.len() && self.capabilities@[i].name@ == n,
            |n: Seq<char>| self.capabilities@[self.index_of(n)],
        )
    }

    proof fn lemma_at(&self, i: int)
        requires
            self.wf(),
            0 <= i < self.capabilities@.len(),
        ensures
            self@.contains_key(self.capabilities@[i].name@),
            self@[self.capabilities@[i].name@] == self.capabilities@[i],
    {
        let n = self.capabilities@[i].name@;
        assert(self@.dom().contains(n));
        let k = self.index_of(n);
        assert(self.capabilities@[k].name@ == n);
    }

    fn find(&self, name: &String) -> (r: Option<usize>)
        requires
            self.wf(),
        ensures
            match r {
                Some(i) => i < self.capabilities@.len() && self.capabilities@[i as int].name@ == name@,
                None => !self@.contains_key(name@),
            },
    {
        let mut i: usize = 0;
        while i < self.capabilities.len()
            invariant
                i <= self.capabilities@.len(),
                forall|j: int| 0 <= j < i ==> self.capabilities@[j].name@ != name@,
            decreases self.capabilities@.len() - i,
        {
            if self.capabilities[i].name == *name {
                return Some(i);
            }
            i += 1;
        }
        None
    }

    /// An empty registry.
    pub fn new() -> (r: CapabilityRegistry)
        ensures
            r.wf(),
            r@ == Map::<Seq<char>, Capability>::empty(),
    {
        let r = CapabilityRegistry { capabilities: Vec::new() };
        assert(r@ =~= Map::<Seq<char>, Capability>::empty());
        r
    }

    /// Inserts `capability`, replacing any capability of the same name.
    pub fn register(&mut self, capability: Capability)
        requires
            old(self).wf(),
        ensures
            final(self).wf(),
            final(self)@ == old(self)@.insert(capability.name@, capability),
    {
        let ghost c = capability;
        let ghost before = self.capabilities@;
        let ghost mut idx: int = 0;
        match self.find(&capability.name) {
            Some(i) => {
                proof {
                    idx = i as int;
                }
                self.capabilities.set(i, capability);
            },
            None => {
                proof {
                    idx = before.len() as int;
                }
                self.capabilities.push(capability);
            },
        }
        let ghost after = self.capabilities@;
        assert(after[idx] == c);
        assert forall|j: int| 0 <= j < after.len() && j != idx implies #[trigger] after[j] == before[j]
            && before[j].name@ != c.name@ by {
            if before.len() == after.len() {
                assert(before[j].name@ != before[idx].name@);
            } else {
                old(self).lemma_at(j);
            }
        }
        assert forall|n: Seq<char>| #[trigger] self@.contains_key(n) implies old(self)@.insert(c.name@, c).contains_key(n)
            && self@[n] == old(self)@.insert(c.name@, c)[n] by {
            let k = self.index_of(n);
            self.lemma_at(k);
            if n != c.name@ {
                old(self).lemma_at(k);
            }
        }
        assert forall|n: Seq<char>| #[trigger] old(self)@.insert(c.name@, c).contains_key(n) implies self@.contains_key(n) by {
            if n == c.name@ {
                self.lemma_at(idx);
            } else {
                let k = old(self).index_of(n);
                self.lemma_at(k);
            }
        }
        assert(self@ =~= old(self)@.insert(c.name@, c));
    }

    /// The capability named `name`, if registered.
    pub fn get(&self, name: &str) -> (r: Option<&Capability>)
        requires
            self.wf(),
        ensures
            match r {
                Some(c) => self@.contains_key(name@) && *c == self@[name@],
                None => !self@.contains_key(name@),
            },
    {
        match self.find(&name.to_owned()) {
            Some(i) => {
                proof {
                    self.lemma_at(i as int);
                }
                Some(&self.capabilities[i])
            },
            None => None,
        }
    }

    pub fn is_registered(&self, name: &str) -> (r: bool)
        requires
            self.wf(),
        ensures
            r == self@.contains_key(name@),
    {
        match self.find(&name.to_owned()) {
            Some(i) => {
                proof {
                    self.lemma_at(i as int);
                }
                true
            },
            None => false,
        }
    }

    /// Whether `name` is registered and enabled; an unregistered name is not enabled.
    pub fn is_enabled(&self, name: &str) -> (r: bool)
        requires
            self.wf(),
        ensures
            r == (self@.contains_key(name@) && self@[name@].enabled),
    {
        match self.get(name) {
            Some(c) => c.enabled,
            None => false,
        }
    }

    /// Every registered capability, once each, in no promised order.
    pub fn list(&self) -> (r: Vec<&Capability>)
        requires
            self.wf(),
        ensures
            r@.len() == self@.dom().len(),
            forall|i: int| 0 <= i < r@.len() ==> self@.contains_key(#[trigger] r@[i].name@) && self@[r@[i].name@] == *r@[i],
            forall|n: Seq<char>| #[trigger] self@.contains_key(n) ==> exists|i: int| 0 <= i < r@.len() && r@[i].name@ == n,
            forall|i: int, j: int| 0 <= i < r@.len() && 0 <= j < r@.len() && i != j ==> r@[i].name@ != r@[j].name@,
    {
        let mut r: Vec<&Capability> = Vec::new();
        let mut i: usize = 0;
        while i < self.capabilities.len()
            invariant
                self.wf(),
                i <= self.capabilities@.len(),
                r@.len() == i,
                forall|j: int| 0 <= j < i ==> *r@[j] == self.capabilities@[j],
            decreases self.capabilities@.len() - i,
        {
            r.push(&self.capabilities[i]);
            i += 1;
        }
        proof {
            assert forall|k: int| 0 <= k < r@.len() implies self@.contains_key(#[trigger] r@[k].name@) && self@[r@[k].name@] == *r@[k] by {
                self.lemma_at(k);
            }
            assert forall|n: Seq<char>| #[trigger] self@.contains_key(n) implies exists|k: int| 0 <= k < r@.len() && r@[k].name@ == n by {
                let k = self.index_of(n);
                assert(r@[k].name@ == n);
            }
            self.lemma_dom_len();
        }
        r
    }

    proof fn lemma_dom_len(&self)
        requires
            self.wf(),
        ensures
            self@.dom().len() == self.capabilities@.len(),
    {
        let names = self.capabilities@.map_values(|c: Capability| c.name@);
        assert forall|i: int, j: int| 0 <= i < names.len() && 0 <= j < names.len() && i != j implies names[i] != names[j] by {}
        names.unique_seq_to_set();
        assert(self@.dom() =~= names.to_set()) by {
            assert forall|n: Seq<char>| self@.dom().contains(n) implies names.to_set().contains(n) by {
                let k = self.index_of(n);
                assert(names[k] == n);
            }
        }
    }

    /// Sets `enabled` on the capability named `name`; false when none is registered.
    pub fn enable(&mut self, name: &str) -> (r: bool)
        requires
            old(self).wf(),
        ensures
            final(self).wf(),
            r == old(self)@.contains_key(name@),
            final(self)@ == (if r { old(self)@.insert(name@, with_enabled(old(self)@[name@], true)) } else { old(self)@ }),
    {
        self.set_enabled(name, true)
    }

    /// Clears `enabled` on the capability named `name`; false when none is registered.
    pub fn disable(&mut self, name: &str) -> (r: bool)
        requires
            old(self).wf(),
        ensures
            final(self).wf(),
            r == old(self)@.contains_key(name@),
            final(self)@ == (if r { old(self)@.insert(name@, with_enabled(old(self)@[name@], false)) } else { old(self)@ }),
    {
        self.set_enabled(name, false)
    }

    fn set_enabled(&mut self, name: &str, e: bool) -> (r: bool)
        requires
            old(self).wf(),
        ensures
            final(self).wf(),
            r == old(self)@.contains_key(name@),
            final(self)@ == (if r { old(self)@.insert(name@, with_enabled(old(self)@[name@], e)) } else { old(self)@ }),
    {
        match self.find(&name.to_owned()) {
            Some(i) => {
                proof {
                    self.lemma_at(i as int);
                }
                let mut c = self.capabilities.remove(i);
                if e {
                    c.enable();
                } else {
                    c.disable();
                }
                self.capabilities.insert(i, c);
                proof {
                    assert(self.capabilities@ =~= old(self).capabilities@.update(i as int, c));
                    self.lemma_update_same_name(*old(self), i as int);
                }
                true
            },
            None => false,
        }
    }

    /// Replacing a capability by one of the same name updates the view at that name.
    proof fn lemma_update_same_name(&self, before: CapabilityRegistry, i: int)
        requires
            before.wf(),
            0 <= i < before.capabilities@.len(),
            self.capabilities@ == before.capabilities@.update(i, self.capabilities@[i]),
            self.capabilities@[i].name@ == before.capabilities@[i].name@,
        ensures
            self.wf(),
            self@ == before@.insert(self.capabilities@[i].name@, self.capabilities@[i]),
    {
        let c = self.capabilities@[i];
        assert forall|a: int, b: int| 0 <= a < self.capabilities@.len() && 0 <= b < self.capabilities@.len() && a != b
            implies self.capabilities@[a].name@ != self.capabilities@[b].name@ by {
            assert(before.capabilities@[a].name@ != before.capabilities@[b].name@);
        }
        assert forall|n: Seq<char>| #[trigger] self@.contains_key(n) implies before@.insert(c.name@, c).contains_key(n)
            && self@[n] == before@.insert(c.name@, c)[n] by {
            let k = self.index_of(n);
            self.lemma_at(k);
            if n != c.name@ {
                before.lemma_at(k);
            }
        }
        assert forall|n: Seq<char>| #[trigger] before@.insert(c.name@, c).contains_key(n) implies self@.contains_key(n) by {
            if n == c.name@ {
                self.lemma_at(i);
            } else {
                let k = before.index_of(n);
                self.lemma_at(k);
            }
        }
        assert(self@ =~= before@.insert(c.name@, c));
    }
}

impl Default for CapabilityRegistry {
    fn default() -> (r: CapabilityRegistry)
        ensures
            r.wf(),
            r@ == Map::<Seq<char>, Capability>::empty(),
    {
        CapabilityRegistry::new()
    }
}

} // verus!
