//! Admitting connections to a route that may run only so many agent processes.
//!
//! A WebSocket upgrade is answered before the agent is launched. Its slot is reserved across that
//! gap, and only one upgrade at a time may stand in it, so that the reservation can only belong
//! to that upgrade.

use vstd::prelude::*;
use crate::text::to_ascii_lower;

verus! {

/// The slots for agent processes of one route.
#[derive(Debug)]
pub struct AdmissionState {
    /// How many slots there are.
    pub capacity: usize,
    /// How many are held, apart from the reserved one.
    pub held: usize,
    /// The upgrade for which a slot is reserved.
    pub reservation: Option<u64>,
    /// The number that the next reservation will get.
    pub next_reservation: u64,
}

/// An [`AdmissionState`] over numbers.
#[verifier::ext_equal]
pub struct AdmissionView {
    pub capacity: nat,
    pub held: nat,
    pub reservation: Option<nat>,
    pub next_reservation: nat,
}

impl View for AdmissionState {
    type V = AdmissionView;

    open spec fn view(&self) -> AdmissionView {
        AdmissionView {
            capacity: self.capacity as nat,
            held: self.held as nat,
            reservation: match self.reservation {
                Some(id) => Some(id as nat),
                None => None,
            },
            next_reservation: self.next_reservation as nat,
        }
    }
}

/// What the slots of a route are asked for.
pub enum Ask {
    /// A slot for an HTTP connection, or for an agent that came without one.
    Acquire,
    /// A slot for a WebSocket upgrade.
    Reserve,
    /// The end of a reservation whose upgrade was refused.
    Cancel { id: nat },
    /// The reserved slot, for the agent that is being launched.
    Claim,
    /// The end of a process.
    Release,
}

impl AdmissionView {
    /// How many slots are taken, the reserved one among them.
    pub open spec fn taken(self) -> nat {
        self.held + if self.reservation is Some {
            1nat
        } else {
            0nat
        }
    }

    /// How many slots are free.
    pub open spec fn available(self) -> int {
        self.capacity - self.taken()
    }

    /// Whether no more slots are taken than there are, and the reservation's number was given out.
    pub open spec fn is_sound(self) -> bool {
        &&& self.taken() <= self.capacity
        &&& match self.reservation {
            Some(id) => id < self.next_reservation,
            None => true,
        }
    }

    /// The slots after `ask` was answered.
    pub open spec fn after(self, ask: Ask) -> AdmissionView {
        match ask {
            Ask::Acquire => if self.available() > 0 {
                AdmissionView { held: self.held + 1, ..self }
            } else {
                self
            },
            Ask::Reserve => if self.reservation is None && self.available() > 0 {
                AdmissionView {
                    reservation: Some(self.next_reservation),
                    next_reservation: self.next_reservation + 1,
                    ..self
                }
            } else {
                self
            },
            Ask::Cancel { id } => if self.reservation == Some(id) {
                AdmissionView { reservation: None, ..self }
            } else {
                self
            },
            Ask::Claim => if self.reservation is Some {
                AdmissionView { reservation: None, held: self.held + 1, ..self }
            } else {
                self
            },
            Ask::Release => if self.held > 0 {
                AdmissionView { held: (self.held - 1) as nat, ..self }
            } else {
                self
            },
        }
    }

    /// The slots after all `asks`.
    pub open spec fn after_all(self, asks: Seq<Ask>) -> AdmissionView
        decreases asks.len(),
    {
        if asks.len() == 0 {
            self
        } else {
            self.after_all(asks.drop_last()).after(asks.last())
        }
    }
}

/// The slots of a route on which nothing runs.
pub open spec fn vacant(capacity: nat) -> AdmissionView {
    AdmissionView { capacity, held: 0, reservation: None, next_reservation: 0 }
}

/// Whatever a route is asked for, it never gives out more slots than it has.
pub proof fn law_admission_stays_within_capacity(capacity: nat, asks: Seq<Ask>)
    ensures
        vacant(capacity).after_all(asks).is_sound(),
        vacant(capacity).after_all(asks).capacity == capacity,
    decreases asks.len(),
{
    if asks.len() > 0 {
        law_admission_stays_within_capacity(capacity, asks.drop_last());
    }
}

/// A reservation that was cancelled or claimed never comes back: its number cancels nothing that
/// is reserved later.
pub proof fn law_spent_reservations_stay_spent(state: AdmissionView, asks: Seq<Ask>, id: nat)
    requires
        state.is_sound(),
        id < state.next_reservation,
        state.reservation != Some(id),
    ensures
        state.after_all(asks).reservation != Some(id),
        state.after_all(asks.push(Ask::Cancel { id })) == state.after_all(asks),
        state.after_all(asks).next_reservation >= state.next_reservation,
    decreases asks.len(),
{
    assert(asks.push(Ask::Cancel { id }).drop_last() =~= asks);
    if asks.len() > 0 {
        law_spent_reservations_stay_spent(state, asks.drop_last(), id);
    }
}

/// A reservation that is cancelled leaves the slots as they were; one that is claimed and then
/// released does too.
pub proof fn law_reservations_give_back_their_slot(state: AdmissionView)
    requires
        state.is_sound(),
        state.reservation is None,
        state.available() > 0,
    ensures
        ({
            let reserved = state.after(Ask::Reserve);
            let cancelled = reserved.after(Ask::Cancel { id: state.next_reservation });
            let ended = reserved.after(Ask::Claim).after(Ask::Release);
            &&& reserved.available() == state.available() - 1
            &&& reserved.after(Ask::Claim).available() == state.available() - 1
            &&& cancelled.taken() == state.taken()
            &&& ended.taken() == state.taken()
        }),
{
}

/// The answer to an upgrade that asks for a slot.
#[derive(Debug, Clone, Copy, PartialEq, Eq, Structural)]
pub enum Reservation {
    /// Another upgrade stands between its answer and its agent's launch: wait for it.
    Pending,
    /// No slot is free.
    Exhausted,
    /// A slot is reserved under this number.
    Reserved(u64),
}

impl AdmissionState {
    /// A route that may run `max_processes` agents.
    pub fn new(max_processes: usize) -> (r: AdmissionState)
        ensures
            r@ == vacant(max_processes as nat),
            r@.is_sound(),
    {
        AdmissionState {
            capacity: max_processes,
            held: 0,
            reservation: None,
            next_reservation: 0,
        }
    }

    /// How many slots are free.
    pub fn available_permits(&self) -> (r: usize)
        requires
            self@.is_sound(),
        ensures
            r == self@.available(),
    {
        match self.reservation {
            Some(_) => self.capacity - self.held - 1,
            None => self.capacity - self.held,
        }
    }

    /// Takes a free slot, if there is one.
    pub fn try_acquire(&mut self) -> (r: bool)
        requires
            old(self)@.is_sound(),
        ensures
            final(self)@ == old(self)@.after(Ask::Acquire),
            final(self)@.is_sound(),
            r == (old(self)@.available() > 0),
    {
        if self.available_permits() == 0 {
            return false;
        }
        self.held = self.held + 1;
        true
    }

    /// Gives back a held slot.
    pub fn release(&mut self)
        requires
            old(self)@.is_sound(),
            old(self)@.held > 0,
        ensures
            final(self)@ == old(self)@.after(Ask::Release),
            final(self)@.is_sound(),
    {
        self.held = self.held - 1;
    }

    /// Reserves a free slot for a WebSocket upgrade, if no other upgrade holds a reservation.
    pub fn reserve_websocket(&mut self) -> (r: Reservation)
        requires
            old(self)@.is_sound(),
            old(self).next_reservation < u64::MAX,
        ensures
            final(self)@ == old(self)@.after(Ask::Reserve),
            final(self)@.is_sound(),
            r == if old(self)@.reservation is Some {
                Reservation::Pending
            } else if old(self)@.available() == 0 {
                Reservation::Exhausted
            } else {
                Reservation::Reserved(old(self).next_reservation)
            },
    {
        if self.reservation.is_some() {
            return Reservation::Pending;
        }
        if self.available_permits() == 0 {
            return Reservation::Exhausted;
        }
        let id: u64 = self.next_reservation;
        self.next_reservation = id + 1;
        self.reservation = Some(id);
        Reservation::Reserved(id)
    }

    /// Gives back the slot that is reserved under `id`, if it still is.
    pub fn cancel_websocket_reservation(&mut self, id: u64)
        requires
            old(self)@.is_sound(),
        ensures
            final(self)@ == old(self)@.after(Ask::Cancel { id: id as nat }),
            final(self)@.is_sound(),
    {
        match self.reservation {
            Some(current) => {
                if current == id {
                    self.reservation = None;
                }
            },
            None => {},
        }
    }

    /// Turns the reserved slot into a held one, and tells whether there was one.
    pub fn take_websocket_reservation(&mut self) -> (r: bool)
        requires
            old(self)@.is_sound(),
        ensures
            final(self)@ == old(self)@.after(Ask::Claim),
            final(self)@.is_sound(),
            r == (old(self)@.reservation is Some),
    {
        match self.reservation {
            Some(_) => {
                self.reservation = None;
                self.held = self.held + 1;
                true
            },
            None => false,
        }
    }

    /// Finds the slot for an agent that is being launched: the one that its HTTP request brought,
    /// else the reserved one, else a free one. Tells whether there is one.
    pub fn slot_for_launch(&mut self, brought: bool) -> (r: bool)
        requires
            old(self)@.is_sound(),
        ensures
            final(self)@ == if brought {
                old(self)@
            } else if old(self)@.reservation is Some {
                old(self)@.after(Ask::Claim)
            } else {
                old(self)@.after(Ask::Acquire)
            },
            final(self)@.is_sound(),
            r == (brought || old(self)@.reservation is Some || old(self)@.available() > 0),
    {
        brought || self.take_websocket_reservation() || self.try_acquire()
    }
}

/// What a request asks of a route's slots.
#[derive(Debug, Clone, Copy, PartialEq, Eq, Structural)]
pub enum ConnectionKind {
    /// The first request of an HTTP connection: it needs a slot before it is passed on.
    InitialHttp,
    /// A WebSocket upgrade: it needs a reservation.
    WebSocket {
        /// Whether it comes by an extended `CONNECT` of HTTP/2.
        http2: bool,
    },
    /// Anything else: it is passed on.
    Other,
}

/// What the slots need to know of a request.
#[derive(Debug, Clone)]
pub struct RequestShape {
    /// Whether the method is `POST`.
    pub is_post: bool,
    /// Whether the method is `CONNECT`.
    pub is_connect: bool,
    /// Whether the request came over HTTP/2.
    pub is_http2: bool,
    /// Whether there is an `Acp-Connection-Id` header.
    pub has_connection_id: bool,
    /// The value of the `Upgrade` header, if there is one and it is text.
    pub upgrade: Option<String>,
}

/// Whether a request asks for a WebSocket by its `Upgrade` header.
pub open spec fn upgrades_to_websocket(shape: RequestShape) -> bool {
    match shape.upgrade {
        Some(value) => crate::text::ascii_lower(value@) == "websocket"@,
        None => false,
    }
}

/// What a request asks of a route's slots.
pub fn connection_kind(shape: &RequestShape) -> (r: ConnectionKind)
    ensures
        r == if shape.is_post && !shape.has_connection_id {
            ConnectionKind::InitialHttp
        } else if upgrades_to_websocket(*shape) || (shape.is_connect && shape.is_http2) {
            ConnectionKind::WebSocket { http2: shape.is_connect && shape.is_http2 }
        } else {
            ConnectionKind::Other
        },
{
    let http2 = shape.is_connect && shape.is_http2;
    let http1 = match &shape.upgrade {
        Some(value) => crate::text::same(to_ascii_lower(value.as_str()).as_str(), "websocket"),
        None => false,
    };
    if shape.is_post && !shape.has_connection_id {
        ConnectionKind::InitialHttp
    } else if http1 || http2 {
        ConnectionKind::WebSocket { http2 }
    } else {
        ConnectionKind::Other
    }
}

/// Whether an upgrade that was answered with `status` was accepted; if not, its reservation is
/// cancelled.
pub fn upgrade_accepted(status: u16, http2: bool) -> (r: bool)
    ensures
        r == if http2 {
            200 <= status <= 299
        } else {
            status == 101
        },
{
    if http2 {
        200 <= status && status <= 299
    } else {
        status == 101
    }
}

/// The HTTP status and body for a connection that finds no free slot.
pub fn process_capacity_exhausted() -> (r: (u16, &'static str))
    ensures
        r.0 == 503,
        r.1@ == "agent process capacity exhausted\n"@,
{
    (503, "agent process capacity exhausted\n")
}

/// A slot is given as long as fewer than the capacity are held or reserved, and none beyond. A
/// reservation holds one slot, and only one is open at a time; each has a number of its own.
pub proof fn law_slots_are_given_while_there_are_any(state: AdmissionView)
    requires
        state.is_sound(),
    ensures
        ({
            let free = state.capacity - state.held - if state.reservation is Some {
                1int
            } else {
                0int
            };
            let acquired = state.after(Ask::Acquire);
            let reserved = state.after(Ask::Reserve);
            let claimed = state.after(Ask::Claim);
            let released = state.after(Ask::Release);
            &&& state.available() == free
            &&& free >= 0
            &&& free > 0 ==> acquired.held == state.held + 1
            &&& free == 0 ==> acquired == state
            &&& acquired.reservation == state.reservation
            &&& acquired.capacity == state.capacity
            &&& free > 0 && state.reservation is None ==> reserved.reservation == Some(
                state.next_reservation,
            ) && reserved.next_reservation > state.next_reservation
            &&& free == 0 || state.reservation is Some ==> reserved == state
            &&& reserved.held == state.held
            &&& state.reservation is Some ==> claimed.held == state.held + 1
                && claimed.reservation is None
            &&& state.reservation is None ==> claimed == state
            &&& state.held > 0 ==> released.held + 1 == state.held
            &&& released.reservation == state.reservation
            &&& released.capacity == state.capacity
        }),
        forall|id: nat|
            #![trigger state.after(Ask::Cancel { id })]
            state.after(Ask::Cancel { id }).held == state.held && (state.after(
                Ask::Cancel { id },
            ).reservation is None <==> state.reservation is None || state.reservation == Some(id)),
{
}

/// A daemon without connections has all its slots free.
pub proof fn law_vacant_slots_are_all_free(capacity: nat)
    ensures
        vacant(capacity).available() == capacity,
        vacant(capacity).held == 0,
        vacant(capacity).reservation is None,
{
}

/// States with the same view agree on everything.
pub proof fn law_admission_views_hold_every_field(a: AdmissionState, b: AdmissionState)
    requires
        a@ == b@,
    ensures
        a.capacity == b.capacity,
        a.held == b.held,
        a.reservation is Some == b.reservation is Some,
        a.reservation is Some ==> a.reservation->Some_0 == b.reservation->Some_0,
        a.next_reservation == b.next_reservation,
{
}

/// A request is for a WebSocket exactly if it asks to be upgraded to one, in whatever case.
pub proof fn law_websocket_upgrades_are_known_in_any_case(shape: RequestShape)
    ensures
        upgrades_to_websocket(shape) <==> shape.upgrade is Some && crate::text::same_letters(
            shape.upgrade->Some_0@,
            seq!['w', 'e', 'b', 's', 'o', 'c', 'k', 'e', 't'],
        ),
{
    reveal_strlit("websocket");
    let word = "websocket"@;
    assert(word =~= seq!['w', 'e', 'b', 's', 'o', 'c', 'k', 'e', 't']);
    crate::text::law_lower_case_changes_capitals_only(word);
    assert(crate::text::ascii_lower(word) =~= word);
    if shape.upgrade is Some {
        crate::text::law_lower_case_forgets_case_only(shape.upgrade->Some_0@, word);
    }
}

/// A request opens a connection by posting without one, or is for a WebSocket by asking for an
/// upgrade or by connecting over HTTP/2; a connection of its own goes before either. An upgrade was
/// accepted by the status that its protocol has for that.
pub proof fn law_requests_are_told_apart(
    shape: &RequestShape,
    kind: ConnectionKind,
    status: u16,
    http2: bool,
    accepted: bool,
)
    requires
        call_ensures(connection_kind, (shape,), kind),
        call_ensures(upgrade_accepted, (status, http2), accepted),
    ensures
        kind is InitialHttp <==> shape.is_post && !shape.has_connection_id,
        shape.is_connect && shape.is_http2 && !shape.is_post ==> kind is WebSocket && kind->http2,
        kind is WebSocket ==> (kind->http2 <==> shape.is_connect && shape.is_http2),
        kind is WebSocket && !kind->http2 ==> shape.upgrade is Some,
        !shape.is_post && shape.upgrade is None && !(shape.is_connect && shape.is_http2) ==> kind
            is Other,
        shape.is_post && shape.has_connection_id && shape.upgrade is None && !shape.is_connect
            ==> kind is Other,
        accepted && !http2 ==> status == 101,
        accepted && http2 ==> 200 <= status < 300,
        !http2 && status == 101 ==> accepted,
        http2 && 200 <= status && status < 300 ==> accepted,
{
}

/// A slot is given exactly while one is neither held nor reserved, and giving one back frees it
/// again; at most one is reserved at a time, and it is held once it is claimed.
pub proof fn law_slots_are_counted(
    acquired: &mut AdmissionState,
    given: bool,
    released: &mut AdmissionState,
    claimed: &mut AdmissionState,
    had: bool,
    reserved: &mut AdmissionState,
    reservation: Reservation,
)
    requires
        call_ensures(AdmissionState::try_acquire, (acquired,), given),
        call_ensures(AdmissionState::release, (released,), ()),
        call_ensures(AdmissionState::take_websocket_reservation, (claimed,), had),
        call_ensures(AdmissionState::reserve_websocket, (reserved,), reservation),
        old(acquired)@.is_sound(),
        old(released)@.held > 0,
        old(reserved)@.is_sound(),
    ensures
        given <==> old(acquired)@.held + (if old(acquired)@.reservation is Some {
            1int
        } else {
            0int
        }) < old(acquired)@.capacity,
        final(acquired)@.held == old(acquired)@.held + (if given {
            1int
        } else {
            0int
        }),
        final(acquired)@.reservation == old(acquired)@.reservation,
        final(released)@.held == old(released)@.held - 1,
        had <==> old(claimed)@.reservation is Some,
        final(claimed)@.reservation is None,
        final(claimed)@.held == old(claimed)@.held + (if had {
            1int
        } else {
            0int
        }),
        reservation is Pending <==> old(reserved)@.reservation is Some,
        reservation is Reserved ==> final(reserved)@.reservation is Some && old(reserved)@.reservation is None && old(reserved)@.held < old(reserved)@.capacity,
        reservation is Exhausted <==> old(reserved)@.reservation is None && old(reserved)@.held
            == old(reserved)@.capacity,
        final(reserved)@.held == old(reserved)@.held,
{
}

/// A launch runs in the slot it brought, else in the reserved one, else in a free one, and in none
/// exactly if there is none of these.
pub proof fn law_launches_need_a_slot(state: &mut AdmissionState, brought: bool, r: bool)
    requires
        call_ensures(AdmissionState::slot_for_launch, (state, brought), r),
        old(state)@.is_sound(),
    ensures
        !r <==> !brought && old(state)@.reservation is None && old(state)@.held == old(state)@.capacity,
        brought ==> final(state)@ == old(state)@,
        !brought && r ==> final(state)@.held == old(state)@.held + 1,
        !brought && old(state)@.reservation is Some ==> final(state)@.reservation is None,
        !r ==> final(state)@ == old(state)@,
{
}

/// A route without a free slot answers that its service is not available.
pub proof fn law_full_routes_are_unavailable(r: (u16, &'static str))
    requires
        call_ensures(process_capacity_exhausted, (), r),
    ensures
        r.0 == 503,
        r.1@ == "agent process capacity exhausted\n"@,
{
}

} // verus!
