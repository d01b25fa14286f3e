//! A cap on simultaneously live connections, shared by the frontends.
//!
//! Every accepted client holds a database session for as long as it is
//! connected, and a session may own a thread and an open file. So the number
//! of clients is capped where they are accepted. A connection's seat is
//! released when its [`ConnectionSlot`] is dropped; over the cap a connection
//! is refused at once rather than queued.
use std::sync::atomic::{AtomicUsize, Ordering};
use std::sync::Arc;
use vstd::prelude::*;

verus! {

/// A change of the number of live connections.
#[derive(Clone, Copy, Debug, PartialEq, Eq, Structural)]
pub enum SeatChange {
    /// Take a seat, below the cap if there is one.
    Take(Option<usize>),
    /// Give a seat back.
    Release,
}

/// The number of live connections after the change; `None` where a seat is
/// refused.
pub open spec fn seats(change: SeatChange, live: usize) -> Option<usize> {
    match change {
        SeatChange::Take(None) => Some(live.wrapping_add(1)),
        SeatChange::Take(Some(limit)) => if live < limit {
            Some((live + 1) as usize)
        } else {
            None
        },
        SeatChange::Release => Some(live.wrapping_sub(1)),
    }
}

/// The number of live connections after the change.
pub fn seats_after(change: SeatChange, live: usize) -> (r: Option<usize>)
    ensures
        r == seats(change, live),
    no_unwind
{
    match change {
        SeatChange::Take(limit) => match limit {
            None => if live == usize::MAX {
                Some(0)
            } else {
                Some(live + 1)
            },
            Some(limit) => if live < limit {
                Some(live + 1)
            } else {
                None
            },
        },
        SeatChange::Release => if live == 0 {
            Some(usize::MAX)
        } else {
            Some(live - 1)
        },
    }
}

/// The number that a counter was made with.
pub uninterp spec fn started_at(counter: AtomicUsize) -> usize;

/// `AtomicUsize::new` makes a counter that starts at the given number. Where
/// it stands later is up to its holders.
#[verifier::external_body]
fn new_counter(start: usize) -> (r: AtomicUsize)
    ensures
        started_at(r) == start,
{
    AtomicUsize::new(start)
}

/// `answer` is what a counter answers to a change: the number that it stood
/// at, as `Ok` where the change was made and as `Err` where it was refused.
pub open spec fn is_answer(change: SeatChange, answer: Result<usize, usize>) -> bool {
    match answer {
        Ok(live) => seats(change, live) is Some,
        Err(live) => seats(change, live) is None,
    }
}

/// `AtomicUsize::fetch_update` replaces the counter by what [`seats_after`]
/// makes of it, in one step, and hands back what it was: as `Ok` where there
/// was a new value, as `Err` where there was none. What it was is up to the
/// other holders of the counter.
#[verifier::external_body]
fn change_seats(counter: &AtomicUsize, change: SeatChange) -> (r: Result<usize, usize>)
    ensures
        is_answer(change, r),
    opens_invariants none
    no_unwind
{
    counter.fetch_update(Ordering::AcqRel, Ordering::Acquire, |live| seats_after(change, live))
}

/// A cap on live connections. Every clone shares one counter.
#[derive(Clone, Debug)]
pub struct ConnectionLimiter {
    /// `None` means unlimited.
    pub limit: Option<usize>,
    pub live: Arc<AtomicUsize>,
}

/// A live connection's seat. Dropping it releases the seat.
#[derive(Debug)]
pub struct ConnectionSlot {
    pub live: Arc<AtomicUsize>,
}

impl ConnectionLimiter {
    /// A limiter of at most `max` connections; 0 means unlimited. None is
    /// seated yet.
    pub fn new(max: usize) -> (r: ConnectionLimiter)
        ensures
            r.limit == if max > 0 {
                Some(max)
            } else {
                None
            },
            started_at(*r.live) == 0,
    {
        let limit: Option<usize> = if max > 0 {
            Some(max)
        } else {
            None
        };
        ConnectionLimiter { limit, live: Arc::new(new_counter(0)) }
    }

    /// A limiter that refuses nobody. It still counts.
    pub fn unlimited() -> (r: ConnectionLimiter)
        ensures
            r.limit is None,
            started_at(*r.live) == 0,
    {
        Self::new(0)
    }

    /// The cap, if there is one.
    pub fn limit(&self) -> (r: Option<usize>)
        ensures
            r == self.limit,
    {
        self.limit
    }

    /// How many connections hold a slot right now.
    pub fn live(&self) -> (r: usize) {
        self.live.load(Ordering::Acquire)
    }

    /// The change that a connection asks for: a seat, below this limiter's
    /// cap if it has one.
    pub fn wanted(&self) -> (r: SeatChange)
        ensures
            r == SeatChange::Take(self.limit),
    {
        SeatChange::Take(self.limit)
    }

    /// Asks the counter for a seat, and takes it where there is one. Which
    /// number the counter stood at is up to the other holders.
    pub fn ask(&self) -> (r: Result<usize, usize>)
        ensures
            is_answer(SeatChange::Take(self.limit), r),
    {
        change_seats(&*self.live, self.wanted())
    }

    /// A slot for one connection, where the cap is not reached. Nobody sees a
    /// count above the cap at any moment.
    pub fn try_acquire(&self) -> (r: Option<ConnectionSlot>)
        ensures
            exists|answer: Result<usize, usize>|
                #[trigger] is_answer(SeatChange::Take(self.limit), answer) && (answer is Ok
                    <==> r is Some),
            self.limit is None ==> r is Some,
            r matches Some(slot) ==> slot.live == self.live,
    {
        let answer = self.ask();
        assert(is_answer(SeatChange::Take(self.limit), answer));
        self.seated(answer)
    }

    /// The slot for a seat that was taken, or none for a seat that was
    /// refused.
    pub fn seated(&self, answer: Result<usize, usize>) -> (r: Option<ConnectionSlot>)
        ensures
            match answer {
                Ok(_) => r matches Some(slot) && slot.live == self.live,
                Err(_) => r is None,
            },
    {
        match answer {
            Ok(_) => Some(ConnectionSlot { live: self.live.clone() }),
            Err(_) => None,
        }
    }
}

impl Default for ConnectionLimiter {
    fn default() -> (r: ConnectionLimiter)
        ensures
            r.limit is None,
            started_at(*r.live) == 0,
    {
        Self::unlimited()
    }
}

impl ConnectionSlot {
    /// The change that the end of a connection makes: its seat goes back.
    pub fn released(&self) -> (r: SeatChange)
        ensures
            r == SeatChange::Release,
        opens_invariants none
        no_unwind
    {
        SeatChange::Release
    }

    /// Gives the seat back. That is never refused.
    fn give_back(&self) -> (r: Result<usize, usize>)
        ensures
            is_answer(SeatChange::Release, r),
            r is Ok,
        opens_invariants none
        no_unwind
    {
        change_seats(&*self.live, self.released())
    }
}

impl Drop for ConnectionSlot {
    fn drop(&mut self)
        opens_invariants none
        no_unwind
    {
        let _ = self.give_back();
    }
}

/// The count never passes the cap.
pub proof fn law_count_stays_below_the_cap(limit: usize, live: usize)
    requires
        live <= limit,
    ensures
        seats(SeatChange::Take(Some(limit)), live) matches Some(after) ==> after == live + 1
            && after <= limit,
        seats(SeatChange::Take(Some(limit)), live) is None <==> live == limit,
{
}

/// A released seat is as if it had never been taken.
pub proof fn law_release_undoes_take(limit: Option<usize>, live: usize)
    ensures
        seats(SeatChange::Take(limit), live) matches Some(after) ==> seats(
            SeatChange::Release,
            after,
        ) == Some(live),
{
}

/// A counter refuses a seat exactly where it stands at the cap or above, and
/// gives one exactly where it stands below.
pub proof fn law_refused_exactly_at_the_cap(limit: usize, answer: Result<usize, usize>)
    requires
        is_answer(SeatChange::Take(Some(limit)), answer),
    ensures
        match answer {
            Ok(live) => live < limit,
            Err(live) => live >= limit,
        },
{
}

/// Without a cap nobody is refused.
pub proof fn law_unlimited_refuses_nobody(live: usize)
    ensures
        seats(SeatChange::Take(None), live) is Some,
{
}

/// A counter, and the number of slots that were handed out and not dropped.
pub struct Tally {
    pub live: usize,
    pub slots: nat,
}

/// What the holders of a counter do. Each is one step of the counter, on
/// whatever thread it is done.
pub enum SeatEvent {
    /// A connection asks for a seat.
    Asked,
    /// A slot is dropped.
    Dropped,
}

impl Tally {
    /// The event can happen: only a slot that is there is dropped, and there
    /// are never as many slots as there are numbers.
    pub open spec fn allows(self, event: SeatEvent) -> bool {
        match event {
            SeatEvent::Asked => self.slots < usize::MAX,
            SeatEvent::Dropped => self.slots > 0,
        }
    }

    /// The tally after the event, under a cap if there is one.
    pub open spec fn after(self, limit: Option<usize>, event: SeatEvent) -> Tally {
        match event {
            SeatEvent::Asked => match seats(SeatChange::Take(limit), self.live) {
                Some(live) => Tally { live, slots: self.slots + 1 },
                None => self,
            },
            SeatEvent::Dropped => match seats(SeatChange::Release, self.live) {
                Some(live) => Tally { live, slots: (self.slots - 1) as nat },
                None => self,
            },
        }
    }

    /// The counter tells the number of slots, which the cap bounds.
    pub open spec fn agrees(self, limit: Option<usize>) -> bool {
        &&& self.live == self.slots
        &&& limit matches Some(cap) ==> self.live <= cap
    }
}

/// The tally after a series of events.
pub open spec fn tally_after(tally: Tally, limit: Option<usize>, events: Seq<SeatEvent>) -> Tally
    decreases events.len(),
{
    if events.len() == 0 {
        tally
    } else {
        tally_after(tally, limit, events.drop_last()).after(limit, events.last())
    }
}

/// Each event of a series can happen when it comes.
pub open spec fn tally_allows(tally: Tally, limit: Option<usize>, events: Seq<SeatEvent>) -> bool
    decreases events.len(),
{
    events.len() == 0 || {
        &&& tally_allows(tally, limit, events.drop_last())
        &&& tally_after(tally, limit, events.drop_last()).allows(events.last())
    }
}

/// Of a new limiter, whoever asks for seats and drops slots in whatever
/// order: the counter stands at the number of slots that were handed out and
/// not dropped, it never passes the cap, and the next to ask is refused
/// exactly where it has reached the cap.
pub proof fn law_count_is_that_of_the_slots(
    limiter: ConnectionLimiter,
    events: Seq<SeatEvent>,
)
    requires
        started_at(*limiter.live) == 0,
        tally_allows(
            Tally { live: started_at(*limiter.live), slots: 0 },
            limiter.limit,
            events,
        ),
    ensures
        ({
            let now = tally_after(
                Tally { live: started_at(*limiter.live), slots: 0 },
                limiter.limit,
                events,
            );
            &&& now.agrees(limiter.limit)
            &&& seats(SeatChange::Take(limiter.limit), now.live) is None <==> limiter.limit
                == Some(now.live)
        }),
    decreases events.len(),
{
    if events.len() > 0 {
        law_count_is_that_of_the_slots(limiter, events.drop_last());
    }
}

/// A seat is taken below the cap, and refused at it and above; without a cap
/// none is refused. A seat that is given back is one less.
pub proof fn law_seats_by_number(change: SeatChange, live: usize, r: Option<usize>)
    requires
        call_ensures(seats_after, (change, live), r),
        live < usize::MAX,
    ensures
        change matches SeatChange::Take(None) ==> r is Some && r->0 == live + 1,
        change matches SeatChange::Take(Some(limit)) ==> {
            &&& live < limit ==> r is Some && r->0 == live + 1
            &&& live >= limit ==> r is None
        },
        change is Release && live > 0 ==> r is Some && r->0 == live - 1,
{
}

/// A limiter of no connections at most is one without a limit.
pub proof fn law_limit_is_as_asked(max: usize, r: ConnectionLimiter)
    requires
        call_ensures(ConnectionLimiter::new, (max,), r),
    ensures
        max == 0 ==> r.limit is None,
        max > 0 ==> r.limit == Some(max),
        started_at(*r.live) == 0,
{
}

} // verus!
