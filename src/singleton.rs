//! Singletons: at most one window per name, found again rather than
//! launched anew.

use vstd::prelude::*;
use crate::config::SingletonConfig;
use crate::matcher::{PatternError, WindowMatcher, WindowMatcherCache, find_window_by_matcher, window_search};
use crate::niri::Window;
use crate::rules::{singleton_pattern, singleton_pattern_text};
use crate::scratchpads::{lemma_other_slots, lemma_slot_prefix, lemma_slot_push, other_slots, slot_of, window_exists};
use crate::text::str_eq;

verus! {

/// Where a toggled singleton's window comes from.
#[derive(Clone, Copy, Debug, PartialEq, Eq, Structural)]
pub enum SingletonSource {
    /// The window bound to the name still exists.
    Bound(u64),
    /// A live window matches the singleton's pattern.
    Found(u64),
    /// No window: launch the command and wait for one.
    Launch,
}

/// The window bound to each singleton name.
pub struct SingletonManager {
    bound: Vec<(String, u64)>,
}

impl View for SingletonManager {
    type V = Seq<(String, u64)>;

    closed spec fn view(&self) -> Seq<(String, u64)> {
        self.bound@
    }
}

pub open spec fn pattern_matcher(c: SingletonConfig, pattern: Seq<char>) -> bool {
    pattern == singleton_pattern_text(
        match c.app_id {
            Some(a) => Some(a@),
            None => None,
        },
        c.command@,
    )
}

impl SingletonManager {
    pub fn new() -> (r: SingletonManager)
        ensures
            r@ == Seq::<(String, u64)>::empty(),
    {
        SingletonManager { bound: Vec::new() }
    }

    /// Window bound to `name`.
    pub fn bound(&self, name: &str) -> (r: Option<u64>)
        ensures
            r == slot_of(self@, name@),
    {
        let mut i: usize = 0;
        while i < self.bound.len()
            invariant
                i <= self@.len(),
                slot_of(self@.take(i as int), name@) is None,
            decreases self.bound.len() - i,
        {
            assert(self@.take(i + 1).drop_last() =~= self@.take(i as int));
            if str_eq(self.bound[i].0.as_str(), name) {
                proof {
                    lemma_slot_prefix::<u64>(self@, i + 1, name@);
                }
                return Some(self.bound[i].1);
            }
            i += 1;
        }
        assert(self@.take(self@.len() as int) =~= self@);
        None
    }

    /// Forgets the window of `name`; no other name changes.
    pub fn unbind(&mut self, name: &str)
        ensures
            slot_of(final(self)@, name@) is None,
            forall|n: Seq<char>| n != name@ ==> slot_of(final(self)@, n) == #[trigger] slot_of(old(self)@, n),
    {
        let ghost m = self@;
        let mut r: Vec<(String, u64)> = Vec::new();
        let mut i: usize = 0;
        while i < self.bound.len()
            invariant
                i <= self@.len(),
                m == self@,
                r@ == other_slots(m.take(i as int), name@),
            decreases self.bound.len() - i,
        {
            assert(m.take(i + 1).drop_last() =~= m.take(i as int));
            if !str_eq(self.bound[i].0.as_str(), name) {
                r.push((self.bound[i].0.clone(), self.bound[i].1));
            }
            i += 1;
        }
        assert(m.take(m.len() as int) =~= m);
        self.bound = r;
        proof {
            lemma_other_slots::<u64>(m, name@, name@);
            assert forall|n: Seq<char>| n != name@ implies slot_of(self@, n) == #[trigger] slot_of(m, n) by {
                lemma_other_slots::<u64>(m, name@, n);
            }
        }
    }

    /// Binds window `id` to `name`; no other name changes.
    pub fn bind(&mut self, name: &str, id: u64)
        ensures
            slot_of(final(self)@, name@) == Some(id),
            forall|n: Seq<char>| n != name@ ==> slot_of(final(self)@, n) == #[trigger] slot_of(old(self)@, n),
    {
        self.unbind(name);
        let ghost mid = self@;
        let e = (name.to_owned(), id);
        self.bound.push(e);
        proof {
            assert forall|n: Seq<char>| n != name@ implies slot_of(self@, n) == #[trigger] slot_of(old(self)@, n) by {
                lemma_slot_push::<u64>(mid, e, n);
            }
            lemma_slot_push::<u64>(mid, e, name@);
        }
    }

    /// First step of a toggle of `name`: its bound window when that still
    /// lives, else the first live window its pattern matches, else a launch.
    pub fn source(&self, name: &str, config: &SingletonConfig, windows: &Vec<Window>, cache: &mut WindowMatcherCache) -> (r: Result<SingletonSource, PatternError>)
        requires
            old(cache).wf(),
        ensures
            final(cache).wf(),
            match slot_of(self@, name@) {
                Some(id) if window_exists(windows@, id) => r == Ok::<SingletonSource, PatternError>(SingletonSource::Bound(id)),
                _ => exists|p: Vec<String>|
                    p@.len() == 1 && #[trigger] pattern_matcher(*config, p@[0]@) && match window_search(windows@, WindowMatcher { app_id: Some(p), title: None }, 0) {
                        Some(Some(i)) => r == Ok::<SingletonSource, PatternError>(SingletonSource::Found(windows@[i].id)),
                        Some(None) => r == Ok::<SingletonSource, PatternError>(SingletonSource::Launch),
                        None => r is Err,
                    },
            },
    {
        if let Some(id) = self.bound(name) {
            if crate::niri::find_window_index(windows, id).is_some() {
                return Ok(SingletonSource::Bound(id));
            }
        }
        let mut ps: Vec<String> = Vec::new();
        ps.push(singleton_pattern(config));
        let matcher = WindowMatcher::new(Some(ps), None);
        let r = match find_window_by_matcher(windows, &matcher, cache) {
            Ok(Some(i)) => Ok(SingletonSource::Found(windows[i].id)),
            Ok(None) => Ok(SingletonSource::Launch),
            Err(e) => Err(e),
        };
        proof {
            let p = matcher.app_id->Some_0;
            assert(p@.len() == 1 && pattern_matcher(*config, p@[0]@));
        }
        r
    }
}

} // verus!
