//! The participant-registration store: a flat list of events, each a
//! name, a date and a participant list.  Event ids are the positions
//! in the store, handed out contiguously from zero — the next id is
//! always the current size, so the key space never has holes.

use vstd::prelude::*;

verus! {

/// Someone registered for an event.
pub struct Participant {
    pub address: String,
}

impl View for Participant {
    type V = Seq<char>;

    open spec fn view(&self) -> Seq<char> {
        self.address@
    }
}

impl Clone for Participant {
    fn clone(&self) -> (r: Self)
        ensures
            r == *self,
    {
        Participant { address: self.address.clone() }
    }
}

/// A stored event.
pub struct Event {
    pub name: String,
    pub date: String,
    pub participants: Vec<Participant>,
}

/// Mathematical image of an [`Event`].
#[verifier::ext_equal]
pub struct EventView {
    pub name: Seq<char>,
    pub date: Seq<char>,
    pub participants: Seq<Seq<char>>,
}

impl View for Event {
    type V = EventView;

    open spec fn view(&self) -> EventView {
        EventView {
            name: self.name@,
            date: self.date@,
            participants: self.participants@.map_values(|p: Participant| p@),
        }
    }
}

impl Clone for Event {
    fn clone(&self) -> (r: Self)
        ensures
            r@ == self@,
    {
        let participants = self.participants.clone();
        proof {
            assert(participants@ =~= self.participants@);
        }
        Event { name: self.name.clone(), date: self.date.clone(), participants }
    }
}

/// Failures of the store's operations.
#[derive(Clone, Copy, PartialEq, Eq, Structural, Debug)]
pub enum EventError {
    NoSuchEvent,
    JoinError,
    CancelJoinError,
    GetEventsError,
    AlreadyJoined,
    AlreadyExists,
}

/// True when some stored event carries this name and date.
pub open spec fn has_event_named(s: Seq<Event>, name: Seq<char>, date: Seq<char>) -> bool {
    exists|i: int| 0 <= i < s.len() && s[i]@.name == name && s[i]@.date == date
}

/// True when `addr` stands in the participant list of `e`.
pub open spec fn event_has_participant(e: EventView, addr: Seq<char>) -> bool {
    e.participants.contains(addr)
}

/// Index of the first participant carrying `addr`, when one is there.
fn position_of_addr(v: &Vec<Participant>, addr: &String) -> (r: Option<usize>)
    ensures
        match r {
            Some(i) => {
                &&& i < v@.len()
                &&& v@[i as int]@ == addr@
                &&& forall|j: int| 0 <= j < i ==> #[trigger] v@[j]@ != addr@
            },
            None => forall|j: int| 0 <= j < v@.len() ==> #[trigger] v@[j]@ != addr@,
        },
{
    let n = v.len();
    let mut i: usize = 0;
    while i < n
        invariant
            n == v@.len(),
            i <= n,
            forall|j: int| 0 <= j < i ==> #[trigger] v@[j]@ != addr@,
        decreases n - i,
    {
        if v[i].address == *addr {
            return Some(i);
        }
        i += 1;
    }
    None
}

/// The store.
pub struct EventStore {
    pub events: Vec<Event>,
}

impl EventStore {
    pub fn new() -> (s: EventStore)
        ensures
            s.events@.len() == 0,
    {
        EventStore { events: Vec::new() }
    }

    /// Store a new event under the next id, unless an event with the
    /// same name and date already exists.
    pub fn create_event(&mut self, name: String, date: String) -> (r: Result<(), EventError>)
        ensures
            r is Ok <==> !has_event_named(old(self).events@, name@, date@),
            r is Err ==> r == Err::<(), EventError>(EventError::AlreadyExists) && *final(self)
                == *old(self),
            r is Ok ==> {
                &&& final(self).events@.len() == old(self).events@.len() + 1
                &&& forall|j: int|
                    0 <= j < old(self).events@.len() ==> #[trigger] final(self).events@[j] == old(
                        self,
                    ).events@[j]
                &&& final(self).events@.last()@ == (EventView {
                    name: name@,
                    date: date@,
                    participants: Seq::<Seq<char>>::empty(),
                })
            },
    {
        let n = self.events.len();
        let mut i: usize = 0;
        while i < n
            invariant
                n == self.events@.len(),
                i <= n,
                forall|j: int|
                    0 <= j < i ==> !(#[trigger] self.events@[j]@.name == name@
                        && self.events@[j]@.date == date@),
            decreases n - i,
        {
            if self.events[i].name == name && self.events[i].date == date {
                return Err(EventError::AlreadyExists);
            }
            i += 1;
        }
        let new_event = Event { name, date, participants: Vec::new() };
        proof {
            assert(new_event@ =~= (EventView {
                name: new_event.name@,
                date: new_event.date@,
                participants: Seq::<Seq<char>>::empty(),
            }));
        }
        self.events.push(new_event);
        Ok(())
    }

    /// Register `participant_address` for the event `event_id`, unless
    /// the event is unknown or the address already joined.
    pub fn join_event(&mut self, event_id: u64, participant_address: String) -> (r: Result<
        (),
        EventError,
    >)
        ensures
            event_id >= old(self).events@.len() ==> r == Err::<(), EventError>(
                EventError::NoSuchEvent,
            ) && *final(self) == *old(self),
            event_id < old(self).events@.len() && event_has_participant(
                old(self).events@[event_id as int]@,
                participant_address@,
            ) ==> r == Err::<(), EventError>(EventError::AlreadyJoined) && *final(self) == *old(
                self,
            ),
            r is Ok <==> event_id < old(self).events@.len() && !event_has_participant(
                old(self).events@[event_id as int]@,
                participant_address@,
            ),
            r is Ok ==> {
                &&& final(self).events@.len() == old(self).events@.len()
                &&& forall|j: int|
                    0 <= j < old(self).events@.len() && j != event_id as int
                        ==> #[trigger] final(self).events@[j] == old(self).events@[j]
                &&& final(self).events@[event_id as int]@ == (EventView {
                    name: old(self).events@[event_id as int]@.name,
                    date: old(self).events@[event_id as int]@.date,
                    participants: old(self).events@[event_id as int]@.participants.push(
                        participant_address@,
                    ),
                })
            },
    {
        if event_id >= self.events.len() as u64 {
            return Err(EventError::NoSuchEvent);
        }
        let k = event_id as usize;
        let mut event = self.events[k].clone();
        match position_of_addr(&event.participants, &participant_address) {
            Some(i) => {
                proof {
                    assert(event@.participants[i as int] == event.participants@[i as int]@);
                }
                Err(EventError::AlreadyJoined)
            },
            None => {
                proof {
                    assert forall|j: int|
                        0 <= j < event@.participants.len()
                        implies #[trigger] event@.participants[j] != participant_address@ by {
                        assert(event@.participants[j] == event.participants@[j]@);
                    }
                }
                event.participants.push(Participant { address: participant_address });
                proof {
                    assert(event@.participants =~= old(self).events@[event_id
                        as int]@.participants.push(event.participants@.last()@));
                }
                self.events.set(k, event);
                Ok(())
            },
        }
    }

    /// Withdraw `participant_address` from the event `event_id`: the
    /// first matching entry leaves the participant list.
    pub fn cancel_join_event(&mut self, event_id: u64, participant_address: String) -> (r: Result<
        (),
        EventError,
    >)
        ensures
            event_id >= old(self).events@.len() ==> r == Err::<(), EventError>(
                EventError::NoSuchEvent,
            ) && *final(self) == *old(self),
            event_id < old(self).events@.len() && !event_has_participant(
                old(self).events@[event_id as int]@,
                participant_address@,
            ) ==> r == Err::<(), EventError>(EventError::CancelJoinError) && *final(self) == *old(
                self,
            ),
            r is Ok <==> event_id < old(self).events@.len() && event_has_participant(
                old(self).events@[event_id as int]@,
                participant_address@,
            ),
            r is Ok ==> {
                &&& final(self).events@.len() == old(self).events@.len()
                &&& forall|j: int|
                    0 <= j < old(self).events@.len() && j != event_id as int
                        ==> #[trigger] final(self).events@[j] == old(self).events@[j]
                &&& final(self).events@[event_id as int]@.name == old(
                    self,
                ).events@[event_id as int]@.name
                &&& final(self).events@[event_id as int]@.date == old(
                    self,
                ).events@[event_id as int]@.date
                &&& exists|k: int|
                    {
                        &&& 0 <= k < old(self).events@[event_id as int]@.participants.len()
                        &&& #[trigger] old(self).events@[event_id as int]@.participants[k]
                            == participant_address@
                        &&& forall|j: int|
                            0 <= j < k ==> old(self).events@[event_id as int]@.participants[j]
                                != participant_address@
                        &&& final(self).events@[event_id as int]@.participants == old(
                            self,
                        ).events@[event_id as int]@.participants.remove(k)
                    }
            },
    {
        if event_id >= self.events.len() as u64 {
            return Err(EventError::NoSuchEvent);
        }
        let k = event_id as usize;
        let mut event = self.events[k].clone();
        match position_of_addr(&event.participants, &participant_address) {
            None => {
                proof {
                    assert forall|j: int|
                        0 <= j < self.events@[event_id as int]@.participants.len()
                        implies #[trigger] self.events@[event_id as int]@.participants[j]
                        != participant_address@ by {
                        assert(self.events@[event_id as int]@.participants[j]
                            == event.participants@[j]@);
                    }
                }
                Err(EventError::CancelJoinError)
            },
            Some(i) => {
                let ghost pre = event@;
                event.participants.remove(i);
                proof {
                    assert(event@.participants =~= pre.participants.remove(i as int));
                    assert(pre.participants[i as int] == participant_address@);
                    assert(forall|j: int|
                        0 <= j < i as int ==> pre.participants[j] != participant_address@);
                }
                self.events.set(k, event);
                Ok(())
            },
        }
    }

    /// Every stored event, in id order.
    pub fn get_stored_events(&self) -> (r: Vec<Event>)
        ensures
            r@.len() == self.events@.len(),
            forall|i: int| 0 <= i < r@.len() ==> #[trigger] r@[i]@ == self.events@[i]@,
    {
        let n = self.events.len();
        let mut out: Vec<Event> = Vec::new();
        let mut i: usize = 0;
        while i < n
            invariant
                n == self.events@.len(),
                i <= n,
                out@.len() == i,
                forall|j: int| 0 <= j < i ==> #[trigger] out@[j]@ == self.events@[j]@,
            decreases n - i,
        {
            out.push(self.events[i].clone());
            i += 1;
        }
        out
    }

    /// The event stored under `event_id`, when one exists.
    pub fn get_event_by_id(&self, event_id: u64) -> (r: Option<Event>)
        ensures
            match r {
                Some(e) => event_id < self.events@.len() && e@ == self.events@[event_id as int]@,
                None => event_id >= self.events@.len(),
            },
    {
        if event_id >= self.events.len() as u64 {
            return None;
        }
        Some(self.events[event_id as usize].clone())
    }

    /// The participant addresses of the event `event_id`, when it exists.
    pub fn get_participants_of_event(&self, event_id: u64) -> (r: Option<Vec<String>>)
        ensures
            match r {
                Some(addrs) => {
                    &&& event_id < self.events@.len()
                    &&& addrs@.len() == self.events@[event_id as int]@.participants.len()
                    &&& forall|i: int|
                        0 <= i < addrs@.len() ==> #[trigger] addrs@[i]@ == self.events@[event_id
                            as int]@.participants[i]
                },
                None => event_id >= self.events@.len(),
            },
    {
        if event_id >= self.events.len() as u64 {
            return None;
        }
        let event = &self.events[event_id as usize];
        let n = event.participants.len();
        let mut out: Vec<String> = Vec::new();
        let mut i: usize = 0;
        while i < n
            invariant
                n == event.participants@.len(),
                i <= n,
                out@.len() == i,
                forall|j: int| 0 <= j < i ==> #[trigger] out@[j]@ == event.participants@[j]@,
            decreases n - i,
        {
            out.push(event.participants[i].address.clone());
            i += 1;
        }
        proof {
            assert forall|i: int|
                0 <= i < out@.len() implies #[trigger] out@[i]@ == self.events@[event_id
                as int]@.participants[i] by {
                assert(self.events@[event_id as int]@.participants[i] == event.participants@[i]@);
            }
        }
        Some(out)
    }

    /// Replace the whole store with events fetched elsewhere,
    /// re-keyed contiguously from zero in the given order.
    pub fn replace_events(&mut self, events: Vec<Event>)
        ensures
            final(self).events == events,
    {
        self.events = events;
    }
}

} // verus!
