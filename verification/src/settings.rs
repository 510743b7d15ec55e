//! The API-key setting and its in-memory mirror.
//!
//! One value lives in two places: a durable row in the settings table and
//! an in-memory copy read on hot paths.  Writes go through to the durable
//! side first and only then refresh the memory side, so the memory side
//! never shows a value that was not persisted; here the two sides are one
//! structure and every operation keeps them equal.

use vstd::prelude::*;

verus! {

/// The mathematical value of the pair of stores.
pub ghost struct SettingsView {
    pub durable: Option<Seq<char>>,
    pub cached: Option<Seq<char>>,
}

impl SettingsView {
    /// The write-through discipline: memory mirrors storage.
    pub open spec fn wf(self) -> bool {
        self.cached == self.durable
    }
}

/// The API-key cache: the durable settings row and its in-memory mirror.
pub struct SettingsCache {
    durable: Option<String>,
    cached: Option<String>,
}

impl View for SettingsCache {
    type V = SettingsView;

    closed spec fn view(&self) -> SettingsView {
        SettingsView {
            durable: match self.durable {
                Some(ref s) => Some(s@),
                None => None,
            },
            cached: match self.cached {
                Some(ref s) => Some(s@),
                None => None,
            },
        }
    }
}

impl SettingsCache {
    /// Loads the cache at startup from the durable value.
    pub fn load(durable: Option<String>) -> (s: SettingsCache)
        ensures
            s@.wf(),
            s@.durable == match durable {
                Some(v) => Some::<Seq<char>>(v@),
                None => None::<Seq<char>>,
            },
    {
        let copy = match &durable {
            Some(v) => Some(v.clone()),
            None => None,
        };
        SettingsCache { durable, cached: copy }
    }

    /// The cached value, without touching storage.
    pub fn get_cached_key(&self) -> (r: Option<String>)
        ensures
            r matches Some(v) ==> self@.cached == Some(v@),
            r is None ==> self@.cached is None,
    {
        match &self.cached {
            Some(v) => Some(v.clone()),
            None => None,
        }
    }

    /// Whether a key is present.
    pub fn has_key(&self) -> (r: bool)
        ensures
            r == (self@.cached is Some),
    {
        match &self.cached {
            Some(_) => true,
            None => false,
        }
    }

    /// Stores a key: the durable side first, then the mirror.
    pub fn set_key(&mut self, value: String)
        requires
            old(self)@.wf(),
        ensures
            final(self)@.wf(),
            final(self)@.durable == Some(value@),
            final(self)@.cached == Some(value@),
    {
        self.durable = Some(value.clone());
        self.cached = Some(value);
    }

    /// Removes the key from both sides.
    pub fn delete_key(&mut self)
        requires
            old(self)@.wf(),
        ensures
            final(self)@.wf(),
            final(self)@.durable is None,
            final(self)@.cached is None,
    {
        self.durable = None;
        self.cached = None;
    }
}

} // verus!
