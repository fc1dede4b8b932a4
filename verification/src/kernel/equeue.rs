//! Event queues (the guest's kqueue): events are triggered into a queue and handed out in
//! the order they came, at most a requested number at a time.
use vstd::prelude::*;
use std::collections::VecDeque;

verus! {

/// Event filter types.
#[derive(Debug, Clone, Copy, PartialEq, Eq, Structural)]
pub enum EventFilter {
    /// User-defined event.
    User,
    /// File descriptor event.
    Read,
    /// Write event.
    Write,
    /// Timer event.
    Timer,
    /// Graphics core event.
    GraphicsCore,
    /// Display event (VSync).
    Display,
    /// Hid (input) event.
    Hid,
}

/// The raw filter value of each filter type.
pub open spec fn filter_value(f: EventFilter) -> i16 {
    match f {
        EventFilter::User => -11i16,
        EventFilter::Read => -1i16,
        EventFilter::Write => -2i16,
        EventFilter::Timer => -7i16,
        EventFilter::GraphicsCore => -13i16,
        EventFilter::Display => -14i16,
        EventFilter::Hid => -15i16,
    }
}

impl EventFilter {
    /// The raw filter value, as stored in `Event::filter`.
    pub fn value(self) -> (r: i16)
        ensures
            r == filter_value(self),
    {
        match self {
            EventFilter::User => -11,
            EventFilter::Read => -1,
            EventFilter::Write => -2,
            EventFilter::Timer => -7,
            EventFilter::GraphicsCore => -13,
            EventFilter::Display => -14,
            EventFilter::Hid => -15,
        }
    }

    /// The filter type with the given raw value, if there is one.
    pub fn from_value(v: i16) -> (r: Option<EventFilter>)
        ensures
            r matches Some(f) ==> filter_value(f) == v,
            r is None ==> forall|f: EventFilter| filter_value(f) != v,
    {
        if v == -11 {
            Some(EventFilter::User)
        } else if v == -1 {
            Some(EventFilter::Read)
        } else if v == -2 {
            Some(EventFilter::Write)
        } else if v == -7 {
            Some(EventFilter::Timer)
        } else if v == -13 {
            Some(EventFilter::GraphicsCore)
        } else if v == -14 {
            Some(EventFilter::Display)
        } else if v == -15 {
            Some(EventFilter::Hid)
        } else {
            None
        }
    }
}

/// An event that can be triggered or waited on.
#[derive(Debug, Clone, Copy, PartialEq, Eq, Structural)]
pub struct Event {
    /// Event identifier.
    pub ident: u64,
    /// Event filter type (a raw `EventFilter` value).
    pub filter: i16,
    /// Filter flags.
    pub flags: u16,
    /// Filter-specific flags.
    pub fflags: u32,
    /// Data associated with the event.
    pub data: i64,
    /// User data pointer.
    pub udata: u64,
}

/// The longest a wait on an empty queue sleeps: 16 ms, in nanoseconds.
pub const MAX_WAIT_SLEEP_NANOS: u64 = 16_000_000;

/// An event queue.
pub struct EventQueue {
    /// Queue name.
    pub name: String,
    /// Pending triggered events, oldest first.
    events: VecDeque<Event>,
}

impl EventQueue {
    /// The pending events, oldest first.
    pub closed spec fn pending(&self) -> Seq<Event> {
        self.events@
    }

    /// The queue's name.
    pub closed spec fn queue_name(&self) -> Seq<char> {
        self.name@
    }

    pub fn new(name: &str) -> (r: Self)
        ensures
            r.queue_name() == name@,
            r.pending() == Seq::<Event>::empty(),
    {
        EventQueue { name: String::from_str(name), events: VecDeque::new() }
    }

    /// Registers an event to watch. Registration records nothing: only triggered events are
    /// handed out.
    pub fn add_event(&self, event: Event) {
    }

    /// Triggers an event: it joins the end of the pending queue.
    pub fn trigger_event(&mut self, event: Event)
        ensures
            final(self).pending() == old(self).pending().push(event),
            final(self).queue_name() == old(self).queue_name(),
    {
        self.events.push_back(event);
    }

    /// How long a wait with this timeout sleeps before it looks at the queue: nothing when
    /// events are pending or no timeout is given, else the timeout capped at 16 ms.
    pub fn wait_sleep_nanos(&self, timeout_nanos: Option<u64>) -> (r: Option<u64>)
        ensures
            self.pending().len() > 0 ==> r is None,
            self.pending().len() == 0 ==> match timeout_nanos {
                None => r is None,
                Some(t) => r == Some(if t < MAX_WAIT_SLEEP_NANOS {
                    t
                } else {
                    MAX_WAIT_SLEEP_NANOS
                }),
            },
    {
        if self.events.len() == 0 {
            match timeout_nanos {
                Some(t) => {
                    if t < MAX_WAIT_SLEEP_NANOS {
                        Some(t)
                    } else {
                        Some(MAX_WAIT_SLEEP_NANOS)
                    }
                },
                None => None,
            }
        } else {
            None
        }
    }

    /// Takes the oldest pending events, at most `max_events` of them, in the order they were
    /// triggered; the rest stay pending.
    pub fn wait(&mut self, max_events: usize) -> (r: Vec<Event>)
        ensures
            r@.len() == if old(self).pending().len() < max_events {
                old(self).pending().len()
            } else {
                max_events as nat
            },
            r@ == old(self).pending().take(r@.len() as int),
            final(self).pending() == old(self).pending().skip(r@.len() as int),
            final(self).queue_name() == old(self).queue_name(),
    {
        let count: usize = if self.events.len() < max_events {
            self.events.len()
        } else {
            max_events
        };
        let mut out: Vec<Event> = Vec::new();
        let mut i: usize = 0;
        while i < count
            invariant
                i <= count,
                count <= old(self).pending().len(),
                out@ == old(self).pending().take(i as int),
                self.events@ == old(self).pending().skip(i as int),
                self.name@ == old(self).name@,
            decreases count - i,
        {
            let e = self.events.pop_front();
            match e {
                Some(ev) => {
                    out.push(ev);
                },
                None => {},
            }
            proof {
                assert(out@ =~= old(self).pending().take(i + 1));
                assert(self.events@ =~= old(self).pending().skip(i + 1));
            }
            i = i + 1;
        }
        out
    }

    /// Number of pending events.
    pub fn pending_count(&self) -> (r: usize)
        ensures
            r == self.pending().len(),
    {
        self.events.len()
    }
}

} // verus!
