//! The keys that are physically held.

use std::collections::HashSet;

use vstd::prelude::*;

verus! {

broadcast use vstd::std_specs::hash::group_hash_axioms;

/// Answers which keys are held right now. A key that the app believes is down but that is absent
/// here has been released, or its device removed, and is stale.
pub trait HeldKeys {
    /// The held keys, as virtual-key codes.
    fn held_vks(&self) -> (r: HashSet<u32>);
}

impl<H: HeldKeys + ?Sized> HeldKeys for Box<H> {
    fn held_vks(&self) -> (r: HashSet<u32>)
        ensures
            call_ensures(H::held_vks, (&**self,), r),
    {
        (**self).held_vks()
    }
}

/// Reports no key at all, for where no capture backend is available: every key that the app asks
/// about then reads as stale.
pub struct NoHeldKeys;

impl HeldKeys for NoHeldKeys {
    fn held_vks(&self) -> (r: HashSet<u32>)
        ensures
            r@ == Set::<u32>::empty(),
    {
        HashSet::new()
    }
}

/// The keys that the portal backend tracks: the compositor reports when the chord goes down and
/// up.
pub struct PortalHeld {
    pub keys: HashSet<u32>,
}

impl PortalHeld {
    /// The keys that are down.
    pub open spec fn held(&self) -> Set<u32> {
        self.keys@
    }

    /// Starts with no key held.
    pub fn new() -> (r: PortalHeld)
        ensures
            r.held() == Set::<u32>::empty(),
            r.keys@ == Set::<u32>::empty(),
    {
        PortalHeld { keys: HashSet::new() }
    }

    /// Drops several keys.
    pub fn drop_keys(&mut self, keys: &Vec<u32>)
        ensures
            final(self).held() == old(self).held().difference(keys@.to_set()),
            forall|key: u32| #[trigger]
                final(self).keys@.contains(key) <==> old(self).keys@.contains(key)
                    && !keys@.contains(key),
    {
        let mut i: usize = 0;
        assert(self.held().difference(keys@.take(0).to_set()) =~= self.held());
        while i < keys.len()
            invariant
                i <= keys.len(),
                self.held() == old(self).held().difference(keys@.take(i as int).to_set()),
            decreases keys.len() - i,
        {
            self.set(keys[i], false);
            proof {
                keys@.take(i as int).lemma_push_to_set_commute(keys@[i as int]);
                assert(keys@.take(i + 1) =~= keys@.take(i as int).push(keys@[i as int]));
                assert(self.held() =~= old(self).held().difference(keys@.take(i + 1).to_set()));
            }
            i += 1;
        }
        assert(keys@.take(i as int) =~= keys@);
    }

    /// Notes that a key went down or up.
    pub fn set(&mut self, vk: u32, press: bool)
        ensures
            final(self).held() == if press {
                old(self).held().insert(vk)
            } else {
                old(self).held().remove(vk)
            },
            forall|key: u32| #[trigger]
                final(self).keys@.contains(key) <==> if key == vk {
                    press
                } else {
                    old(self).keys@.contains(key)
                },
    {
        if press {
            self.keys.insert(vk);
        } else {
            self.keys.remove(&vk);
        }
    }
}

impl HeldKeys for PortalHeld {
    fn held_vks(&self) -> (r: HashSet<u32>)
        ensures
            r@ == self.held(),
            r@ == self.keys@,
    {
        let mut copy: HashSet<u32> = HashSet::new();
        let keys = self.keys.iter();
        let ghost all: Seq<u32> = vstd::std_specs::iter::IteratorSpec::remaining(&keys).unref();
        for key in it: keys
            invariant
                it.seq().unref() == all,
                copy@ == all.take(it.index() as int).to_set(),
        {
            proof {
                let at = it.index() as int;
                all.take(at).lemma_push_to_set_commute(all[at]);
                assert(all.take(at + 1) =~= all.take(at).push(all[at]));
                assert(all[at] == *key);
            }
            copy.insert(*key);
        }
        assert(all.take(all.len() as int) =~= all);
        copy
    }
}

/// The handle of a capture backend that started, or of none.
pub enum Held<H> {
    Backend(H),
    Off(NoHeldKeys),
}

impl<H: HeldKeys> HeldKeys for Held<H> {
    fn held_vks(&self) -> (r: HashSet<u32>)
        ensures
            match *self {
                Held::Backend(backend) => call_ensures(H::held_vks, (&backend,), r),
                Held::Off(_) => r@ == Set::<u32>::empty(),
            },
    {
        match self {
            Held::Backend(backend) => backend.held_vks(),
            Held::Off(none) => none.held_vks(),
        }
    }
}

impl<H: HeldKeys> Held<H> {
    /// Whether a backend started.
    pub fn is_backend(&self) -> (r: bool)
        ensures
            r == (self is Backend),
    {
        match self {
            Held::Backend(_) => true,
            Held::Off(_) => false,
        }
    }
}

/// The keys that the portal backend reports are those that it noted as down.
pub proof fn law_noted_keys_are_held(held: PortalHeld, vk: u32)
    ensures
        held.held().contains(vk) == held.keys@.contains(vk),
{
}

} // verus!
