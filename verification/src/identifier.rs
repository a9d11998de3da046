use vstd::prelude::*;

verus! {

/// The mathematical state of the allocator: the rolling counter and, for every
/// 16-bit identifier, whether it is currently held.
pub ghost struct AllocView {
    pub current: u16,
    pub used: Seq<bool>,
}

impl AllocView {
    pub open spec fn wf(self) -> bool {
        self.used.len() == 0x10000
    }

    /// The identifier an allocation will try next: the counter incremented
    /// with wrap-around, skipping 0, which MQTT reserves.
    pub open spec fn candidate(self) -> u16 {
        if self.current == 0xFFFF {
            1
        } else {
            (self.current + 1) as u16
        }
    }

    /// Releasing clears one bit and leaves the counter alone.
    pub open spec fn release(self, id: u16) -> AllocView {
        AllocView { current: self.current, used: self.used.update(id as int, false) }
    }

    /// Allocating tests the candidate bit: taken means failure, free means
    /// the bit is set and the counter advances.
    pub open spec fn next(self) -> (AllocView, Option<u16>) {
        let cand = self.candidate();
        if self.used[cand as int] {
            (self, None)
        } else {
            (AllocView { current: cand, used: self.used.update(cand as int, true) }, Some(cand))
        }
    }
}

/// A pool of the 65,535 usable packet identifiers: a rolling counter plus one
/// bit per identifier, allocation and release both constant-time.
pub struct PacketIdentifier {
    identifier: u16,
    used: Vec<bool>,
}

impl View for PacketIdentifier {
    type V = AllocView;

    closed spec fn view(&self) -> AllocView {
        AllocView { current: self.identifier, used: self.used@ }
    }
}

impl PacketIdentifier {
    pub open spec fn wf(self) -> bool {
        self@.wf()
    }

    /// The identifier most recently allocated (0 on a fresh pool).
    pub fn value(&self) -> (r: u16)
        ensures
            r == self@.current,
    {
        self.identifier
    }

    /// Return an identifier to the pool.
    pub fn release(&mut self, id: u16)
        requires
            old(self).wf(),
        ensures
            final(self).wf(),
            final(self)@ == old(self)@.release(id),
    {
        let i = id as usize;
        self.used[i] = false;
        assert(final(self)@.used =~= old(self)@.release(id).used);
    }

    /// Allocate the next identifier, failing if it is still held.
    pub fn next(&mut self) -> (r: Option<u16>)
        requires
            old(self).wf(),
        ensures
            final(self).wf(),
            final(self)@ == old(self)@.next().0,
            r == old(self)@.next().1,
            r matches Some(id) ==> 1 <= id,
    {
        let cand: u16 = if self.identifier == 0xFFFF {
            1
        } else {
            self.identifier + 1
        };
        let i = cand as usize;
        if self.used[i] {
            None
        } else {
            self.used[i] = true;
            self.identifier = cand;
            assert(final(self)@.used =~= old(self)@.next().0.used);
            Some(cand)
        }
    }
}

impl Default for PacketIdentifier {
    /// A fresh pool: counter at 0, every identifier free.
    fn default() -> (r: PacketIdentifier)
        ensures
            r.wf(),
            r@.current == 0,
            forall|j: int| 0 <= j < 0x10000 ==> !r@.used[j],
    {
        let mut used: Vec<bool> = Vec::new();
        let mut i: usize = 0;
        while i < 0x10000
            invariant
                i <= 0x10000,
                used@.len() == i,
                forall|j: int| 0 <= j < i ==> !used@[j],
            decreases 0x10000 - i,
        {
            used.push(false);
            i = i + 1;
        }
        PacketIdentifier { identifier: 0, used }
    }
}

/// After a release of identifier i, an allocation whose counter has reached
/// the position just before i succeeds and returns i.
pub proof fn law_release_then_next(v: AllocView, i: u16)
    requires
        v.wf(),
        v.candidate() == i,
    ensures
        v.release(i).next().1 == Some(i),
        v.release(i).next().0.current == i,
{
}

/// An allocation never hands out the reserved identifier 0, whatever the
/// state of the pool.
pub proof fn law_zero_never_allocated(v: AllocView)
    requires
        v.wf(),
    ensures
        v.next().1 != Some(0u16),
{
}

} // verus!
