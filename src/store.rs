//! The module registry: which module serves each host slug.
use vstd::prelude::*;
use crate::errors::RouteError;
use crate::keyed::{find_key, keyed_map, keys_unique, lemma_key_index, lemma_keyed_push, lemma_keyed_update};
use crate::loader::ModuleSpecifier;

verus! {

#[derive(Debug)]
pub struct Store {
    store: Vec<(String, ModuleSpecifier)>,
}

impl View for Store {
    type V = Map<Seq<char>, Seq<char>>;

    closed spec fn view(&self) -> Map<Seq<char>, Seq<char>> {
        keyed_map(self.store@).map_values(|m: ModuleSpecifier| m@)
    }
}

impl Store {
    pub closed spec fn wf(&self) -> bool {
        keys_unique(self.store@)
    }

    /// An empty registry.
    pub fn new() -> (r: Store)
        ensures
            r.wf(),
            r@ == Map::<Seq<char>, Seq<char>>::empty(),
    {
        let r = Store { store: Vec::new() };
        assert(r@ =~= Map::<Seq<char>, Seq<char>>::empty());
        r
    }

    /// Registers `module` for `host_slug`, replacing any earlier one.
    pub fn register_module(&mut self, host_slug: String, module: ModuleSpecifier)
        requires
            old(self).wf(),
        ensures
            final(self).wf(),
            final(self)@ == old(self)@.insert(host_slug@, module@),
    {
        let ghost m = module@;
        match find_key(&self.store, host_slug.as_str()) {
            Some(i) => {
                proof {
                    lemma_keyed_update(self.store@, i as int, module);
                }
                let ghost s0 = self.store@;
                let key = self.store[i].0.clone();
                self.store.set(i, (key, module));
                assert(self.store@ == s0.update(i as int, (s0[i as int].0, module)));
            },
            None => {
                proof {
                    lemma_keyed_push(self.store@, host_slug, module);
                }
                self.store.push((host_slug, module));
            },
        }
        assert(self@ =~= old(self)@.insert(host_slug@, m));
    }

    /// The module registered for `hostname`.
    pub fn hostslug_to_module(&self, hostname: String) -> (r: Result<ModuleSpecifier, RouteError>)
        requires
            self.wf(),
        ensures
            match r {
                Ok(m) => self@.contains_key(hostname@) && m@ == self@[hostname@],
                Err(e) => !self@.contains_key(hostname@) && e == RouteError::NoSuchTenant,
            },
    {
        match find_key(&self.store, hostname.as_str()) {
            Some(i) => {
                proof {
                    lemma_key_index(self.store@, i as int);
                }
                Ok(self.store[i].1.clone())
            },
            None => Err(RouteError::NoSuchTenant),
        }
    }
}

} // verus!
