use vstd::prelude::*;

verus! {

/// Counts the jobs that are past the building stage, against a fixed
/// number of permits.
pub struct CreationPermits {
    permits: usize,
    in_flight: usize,
}

impl CreationPermits {
    pub closed spec fn permits_view(&self) -> nat {
        self.permits as nat
    }

    pub closed spec fn in_flight_view(&self) -> nat {
        self.in_flight as nat
    }

    pub closed spec fn wf(&self) -> bool {
        self.in_flight <= self.permits
    }

    pub fn new(permits: usize) -> (r: CreationPermits)
        ensures
            r.wf(),
            r.permits_view() == permits,
            r.in_flight_view() == 0,
    {
        CreationPermits { permits, in_flight: 0 }
    }

    pub fn in_flight(&self) -> (r: usize)
        ensures
            r == self.in_flight_view(),
    {
        self.in_flight
    }

    pub fn available(&self) -> (r: usize)
        requires
            self.wf(),
        ensures
            r == self.permits_view() - self.in_flight_view(),
    {
        self.permits - self.in_flight
    }

    /// Takes a permit when one is free; a `false` means the caller must wait.
    pub fn try_acquire(&mut self) -> (r: bool)
        requires
            old(self).wf(),
        ensures
            final(self).wf(),
            final(self).permits_view() == old(self).permits_view(),
            r == (old(self).in_flight_view() < old(self).permits_view()),
            r ==> final(self).in_flight_view() == old(self).in_flight_view() + 1,
            !r ==> final(self).in_flight_view() == old(self).in_flight_view(),
    {
        if self.in_flight < self.permits {
            self.in_flight = self.in_flight + 1;
            true
        } else {
            false
        }
    }

    /// Gives a permit back; returning more than were taken is ignored.
    pub fn release(&mut self)
        requires
            old(self).wf(),
        ensures
            final(self).wf(),
            final(self).permits_view() == old(self).permits_view(),
            final(self).in_flight_view() == if old(self).in_flight_view() > 0 {
                old(self).in_flight_view() - 1
            } else {
                0
            },
    {
        if self.in_flight > 0 {
            self.in_flight = self.in_flight - 1;
        }
    }

    /// However acquisitions and releases interleave, no more jobs than there
    /// are permits are ever admitted at once.
    pub proof fn lemma_admission_bound(&self)
        requires
            self.wf(),
        ensures
            self.in_flight_view() <= self.permits_view(),
    {
    }
}

/// The shared/exclusive lock that keeps job creation and cluster
/// rescheduling apart: many creations hold it shared, a reschedule holds it
/// alone. A reschedule first announces itself; from then on no new shared
/// hold is granted, so the holders drain and the reschedule gets its turn.
pub struct RescheduleLock {
    readers: usize,
    writer: bool,
    writers_waiting: usize,
}

impl RescheduleLock {
    pub closed spec fn readers_view(&self) -> nat {
        self.readers as nat
    }

    pub closed spec fn writer_view(&self) -> bool {
        self.writer
    }

    /// How many reschedules have announced themselves and not yet got the lock.
    pub closed spec fn waiting_view(&self) -> nat {
        self.writers_waiting as nat
    }

    pub closed spec fn wf(&self) -> bool {
        !(self.writer && self.readers > 0)
    }

    /// Whether `try_read` grants a shared hold in this state.
    pub open spec fn read_granted(&self) -> bool {
        !self.writer_view() && self.waiting_view() == 0 && self.readers_view() < usize::MAX
    }

    /// Whether `try_write` grants the exclusive hold in this state.
    pub open spec fn write_granted(&self) -> bool {
        !self.writer_view() && self.readers_view() == 0 && self.waiting_view() > 0
    }

    pub fn new() -> (r: RescheduleLock)
        ensures
            r.wf(),
            r.readers_view() == 0,
            !r.writer_view(),
            r.waiting_view() == 0,
    {
        RescheduleLock { readers: 0, writer: false, writers_waiting: 0 }
    }

    /// Takes a shared hold unless a reschedule holds the lock or waits for it.
    pub fn try_read(&mut self) -> (r: bool)
        requires
            old(self).wf(),
        ensures
            final(self).wf(),
            final(self).writer_view() == old(self).writer_view(),
            final(self).waiting_view() == old(self).waiting_view(),
            r == old(self).read_granted(),
            r ==> final(self).readers_view() == old(self).readers_view() + 1,
            !r ==> final(self).readers_view() == old(self).readers_view(),
    {
        if !self.writer && self.writers_waiting == 0 && self.readers < usize::MAX {
            self.readers = self.readers + 1;
            true
        } else {
            false
        }
    }

    /// Releases a shared hold.
    pub fn release_read(&mut self)
        requires
            old(self).wf(),
        ensures
            final(self).wf(),
            final(self).writer_view() == old(self).writer_view(),
            final(self).waiting_view() == old(self).waiting_view(),
            final(self).readers_view() == if old(self).readers_view() > 0 {
                old(self).readers_view() - 1
            } else {
                0
            },
    {
        if self.readers > 0 {
            self.readers = self.readers - 1;
        }
    }

    /// Announces a reschedule that wants the exclusive hold; `false` when
    /// no more can wait.
    pub fn request_write(&mut self) -> (r: bool)
        requires
            old(self).wf(),
        ensures
            final(self).wf(),
            final(self).writer_view() == old(self).writer_view(),
            final(self).readers_view() == old(self).readers_view(),
            r == (old(self).waiting_view() < usize::MAX),
            r ==> final(self).waiting_view() == old(self).waiting_view() + 1,
            !r ==> final(self).waiting_view() == old(self).waiting_view(),
    {
        if self.writers_waiting < usize::MAX {
            self.writers_waiting = self.writers_waiting + 1;
            true
        } else {
            false
        }
    }

    /// Gives an announced reschedule the exclusive hold once nobody holds
    /// the lock.
    pub fn try_write(&mut self) -> (r: bool)
        requires
            old(self).wf(),
        ensures
            final(self).wf(),
            final(self).readers_view() == old(self).readers_view(),
            r == old(self).write_granted(),
            r ==> final(self).writer_view() && final(self).waiting_view() == old(self).waiting_view() - 1,
            !r ==> final(self).writer_view() == old(self).writer_view() && final(self).waiting_view()
                == old(self).waiting_view(),
    {
        if !self.writer && self.readers == 0 && self.writers_waiting > 0 {
            self.writer = true;
            self.writers_waiting = self.writers_waiting - 1;
            true
        } else {
            false
        }
    }

    /// Releases the exclusive hold.
    pub fn release_write(&mut self)
        requires
            old(self).wf(),
        ensures
            final(self).wf(),
            final(self).readers_view() == old(self).readers_view(),
            final(self).waiting_view() == old(self).waiting_view(),
            !final(self).writer_view(),
    {
        self.writer = false;
    }

    /// A waiting reschedule is never starved: while one waits, no shared hold
    /// is granted, so the holders only leave; once they have, and no other
    /// reschedule holds the lock, the waiting one gets it.
    pub proof fn lemma_writer_proceeds(&self)
        requires
            self.wf(),
            self.waiting_view() > 0,
        ensures
            !self.read_granted(),
            self.write_granted() <==> !self.writer_view() && self.readers_view() == 0,
    {
    }
}

/// The creation permits and the reschedule lock together: a request is
/// admitted only when it gets everything it asks for, and otherwise holds
/// nothing.
pub struct AdmissionState {
    pub permits: CreationPermits,
    pub lock: RescheduleLock,
}

impl AdmissionState {
    pub open spec fn wf(&self) -> bool {
        self.permits.wf() && self.lock.wf()
    }

    pub fn new(max_creating_jobs: usize) -> (r: AdmissionState)
        ensures
            r.wf(),
            r.permits.permits_view() == max_creating_jobs,
            r.permits.in_flight_view() == 0,
            r.lock.readers_view() == 0,
            !r.lock.writer_view(),
            r.lock.waiting_view() == 0,
    {
        AdmissionState { permits: CreationPermits::new(max_creating_jobs), lock: RescheduleLock::new() }
    }

    /// Takes a shared hold on the reschedule lock, and a creation permit when
    /// `with_permit`; on refusal nothing is taken and the caller must wait.
    pub fn try_enter(&mut self, with_permit: bool) -> (r: bool)
        requires
            old(self).wf(),
        ensures
            final(self).wf(),
            final(self).permits.permits_view() == old(self).permits.permits_view(),
            final(self).lock.writer_view() == old(self).lock.writer_view(),
            final(self).lock.waiting_view() == old(self).lock.waiting_view(),
            r == ((!with_permit || old(self).permits.in_flight_view() < old(self).permits.permits_view())
                && !old(self).lock.writer_view() && old(self).lock.waiting_view() == 0
                && old(self).lock.readers_view() < usize::MAX),
            r ==> final(self).lock.readers_view() == old(self).lock.readers_view() + 1
                && final(self).permits.in_flight_view() == old(self).permits.in_flight_view() + if with_permit {
                1nat
            } else {
                0nat
            },
            !r ==> final(self).lock.readers_view() == old(self).lock.readers_view()
                && final(self).permits.in_flight_view() == old(self).permits.in_flight_view(),
    {
        if with_permit && !self.permits.try_acquire() {
            return false;
        }
        if self.lock.try_read() {
            true
        } else {
            if with_permit {
                self.permits.release();
            }
            false
        }
    }

    /// Gives back what `try_enter` took.
    pub fn leave(&mut self, with_permit: bool)
        requires
            old(self).wf(),
        ensures
            final(self).wf(),
            final(self).permits.permits_view() == old(self).permits.permits_view(),
            final(self).lock.writer_view() == old(self).lock.writer_view(),
            final(self).lock.waiting_view() == old(self).lock.waiting_view(),
            final(self).lock.readers_view() == if old(self).lock.readers_view() > 0 {
                old(self).lock.readers_view() - 1
            } else {
                0
            },
            final(self).permits.in_flight_view() == if with_permit && old(self).permits.in_flight_view() > 0 {
                old(self).permits.in_flight_view() - 1
            } else {
                old(self).permits.in_flight_view() as int
            },
    {
        self.lock.release_read();
        if with_permit {
            self.permits.release();
        }
    }
}

} // verus!
