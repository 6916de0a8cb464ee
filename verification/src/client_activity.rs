//! Who is there: when each client last gave a sign of a human, and which clients are parked on
//! another tab because they did not.
use crate::text;
use crate::time;
use crate::time::Duration;
use std::collections::HashMap;
use vstd::prelude::*;

verus! {

broadcast use vstd::std_specs::hash::group_hash_axioms;

/// What is known of the clients of one session.
pub struct ClientActivity {
    /// When each client last sent input.
    last_input: HashMap<u16, Duration>,
    /// The parked clients, and the tab that each was on.
    parked: HashMap<u16, usize>,
}

impl ClientActivity {
    /// When each client last sent input.
    pub closed spec fn inputs(&self) -> Map<u16, Duration> {
        self.last_input@
    }

    /// The parked clients, and the tab that each was on.
    pub closed spec fn tabs_left(&self) -> Map<u16, usize> {
        self.parked@
    }

    /// Only so many clients are known, and only so many parked.
    pub proof fn lemma_finite(&self)
        ensures
            self.inputs().dom().finite(),
            self.tabs_left().dom().finite(),
    {
    }

    pub fn new() -> (activity: Self)
        ensures
            activity.inputs() == Map::<u16, Duration>::empty(),
            activity.tabs_left() == Map::<u16, usize>::empty(),
    {
        ClientActivity { last_input: HashMap::new(), parked: HashMap::new() }
    }

    /// A client has given a sign of a human.
    pub fn record_input(&mut self, client_id: u16, now: Duration)
        ensures
            final(self).inputs() == old(self).inputs().insert(client_id, now),
            final(self).tabs_left() == old(self).tabs_left(),
    {
        self.last_input.insert(client_id, now);
    }

    /// A client has attached: it starts out as just active.
    pub fn seed(&mut self, client_id: u16, now: Duration)
        ensures
            final(self).inputs() == old(self).inputs().insert(client_id, now),
            final(self).tabs_left() == old(self).tabs_left(),
    {
        self.record_input(client_id, now);
    }

    /// Forget everything about a client.
    pub fn forget(&mut self, client_id: u16)
        ensures
            final(self).inputs() == old(self).inputs().remove(client_id),
            final(self).tabs_left() == tabs_after(
                old(self).tabs_left(),
                ActivityEvent::Forget(client_id),
            ),
            final(self).tabs_left().len() == count_after(
                old(self).tabs_left(),
                ActivityEvent::Forget(client_id),
            ),
    {
        proof {
            lemma_count_after(self.parked@, ActivityEvent::Forget(client_id));
        }
        self.last_input.remove(&client_id);
        self.parked.remove(&client_id);
    }

    /// How long each of the clients has been idle; a client of which nothing is known is left out.
    pub fn idle_for_many(&self, client_ids: &[u16], now: Duration) -> (idle: HashMap<u16, Duration>)
        ensures
            forall|c: u16| #[trigger]
                idle@.contains_key(c) <==> client_ids@.contains(c) && self.inputs().contains_key(c),
            forall|c: u16| #[trigger]
                idle@.contains_key(c) ==> idle@[c].nanoseconds() == time::elapsed(
                    self.inputs()[c].nanoseconds(),
                    now.nanoseconds(),
                ),
    {
        let mut idle: HashMap<u16, Duration> = HashMap::new();
        let mut i: usize = 0;
        while i < client_ids.len()
            invariant
                i <= client_ids@.len(),
                forall|c: u16| #[trigger]
                    idle@.contains_key(c) <==> client_ids@.take(i as int).contains(c)
                        && self.inputs().contains_key(c),
                forall|c: u16| #[trigger]
                    idle@.contains_key(c) ==> idle@[c].nanoseconds() == time::elapsed(
                        self.inputs()[c].nanoseconds(),
                        now.nanoseconds(),
                    ),
            decreases client_ids@.len() - i,
        {
            let client_id: u16 = client_ids[i];
            let ghost before = idle@;
            if let Some(last) = self.last_input.get(&client_id) {
                idle.insert(client_id, now.elapsed_since(last));
            }
            proof {
                let now_seen = client_ids@.take(i + 1);
                let seen = client_ids@.take(i as int);
                assert(now_seen =~= seen.push(client_id));
                assert forall|c: u16| now_seen.contains(c) <==> seen.contains(c) || c == client_id by {
                    if seen.contains(c) {
                        let k = choose|k: int| 0 <= k < seen.len() && seen[k] == c;
                        assert(now_seen[k] == c);
                    }
                    if c == client_id {
                        assert(now_seen[i as int] == c);
                    }
                }
                assert forall|c: u16| #[trigger] idle@.contains_key(c) <==> now_seen.contains(c)
                    && self.inputs().contains_key(c) by {
                    assert(before.contains_key(c) <==> seen.contains(c)
                        && self.inputs().contains_key(c));
                }
            }
            i += 1;
        }
        assert(client_ids@.take(i as int) =~= client_ids@);
        idle
    }

    /// A client has been parked; remember the tab that it was on.
    pub fn park(&mut self, client_id: u16, previous_tab_id: usize)
        ensures
            final(self).inputs() == old(self).inputs(),
            final(self).tabs_left() == tabs_after(
                old(self).tabs_left(),
                ActivityEvent::Park(client_id, previous_tab_id),
            ),
            final(self).tabs_left().len() == count_after(
                old(self).tabs_left(),
                ActivityEvent::Park(client_id, previous_tab_id),
            ),
    {
        proof {
            lemma_count_after(self.parked@, ActivityEvent::Park(client_id, previous_tab_id));
        }
        self.parked.insert(client_id, previous_tab_id);
    }

    /// Whether a client is parked.
    pub fn is_parked(&self, client_id: u16) -> (b: bool)
        ensures
            b == self.tabs_left().contains_key(client_id),
    {
        self.parked.contains_key(&client_id)
    }

    /// A client is no longer parked: the tab that it goes back to, if it was parked at all. It
    /// counts as input.
    pub fn unpark(&mut self, client_id: u16, now: Duration) -> (tab: Option<usize>)
        ensures
            final(self).inputs() == old(self).inputs().insert(client_id, now),
            final(self).tabs_left() == tabs_after(
                old(self).tabs_left(),
                ActivityEvent::Unpark(client_id),
            ),
            final(self).tabs_left().len() == count_after(
                old(self).tabs_left(),
                ActivityEvent::Unpark(client_id),
            ),
            tab == (if old(self).tabs_left().contains_key(client_id) {
                Some(old(self).tabs_left()[client_id])
            } else {
                None
            }),
    {
        proof {
            lemma_count_after(self.parked@, ActivityEvent::Unpark(client_id));
        }
        self.last_input.insert(client_id, now);
        self.parked.remove(&client_id)
    }

    /// How many clients are parked.
    pub fn parked_client_count(&self) -> (n: usize)
        ensures
            n == self.tabs_left().len(),
    {
        self.parked.len()
    }
}

impl Default for ClientActivity {
    fn default() -> (activity: Self)
        ensures
            activity.inputs() == Map::<u16, Duration>::empty(),
            activity.tabs_left() == Map::<u16, usize>::empty(),
    {
        ClientActivity::new()
    }
}

/// Something that concerns one client.
pub enum ActivityEvent {
    Input(u16),
    Park(u16, usize),
    Unpark(u16),
    Forget(u16),
}

/// Whether an event parks, unparks or forgets a client.
pub open spec fn moves(event: ActivityEvent, client: u16) -> bool {
    match event {
        ActivityEvent::Input(_) => false,
        ActivityEvent::Park(c, _) => c == client,
        ActivityEvent::Unpark(c) => c == client,
        ActivityEvent::Forget(c) => c == client,
    }
}

/// How many clients are parked after an event.
pub open spec fn count_after(tabs: Map<u16, usize>, event: ActivityEvent) -> int {
    match event {
        ActivityEvent::Input(_) => tabs.len() as int,
        ActivityEvent::Park(c, _) => if tabs.contains_key(c) {
            tabs.len() as int
        } else {
            tabs.len() as int + 1
        },
        ActivityEvent::Unpark(c) => if tabs.contains_key(c) {
            tabs.len() - 1
        } else {
            tabs.len() as int
        },
        ActivityEvent::Forget(c) => if tabs.contains_key(c) {
            tabs.len() - 1
        } else {
            tabs.len() as int
        },
    }
}

/// The parked clients and their tabs after an event.
pub open spec fn tabs_after(tabs: Map<u16, usize>, event: ActivityEvent) -> Map<u16, usize> {
    match event {
        ActivityEvent::Input(_) => tabs,
        ActivityEvent::Park(c, tab) => tabs.insert(c, tab),
        ActivityEvent::Unpark(c) => tabs.remove(c),
        ActivityEvent::Forget(c) => tabs.remove(c),
    }
}

/// The parked clients and their tabs after a row of events.
pub open spec fn tabs_after_all(tabs: Map<u16, usize>, events: Seq<ActivityEvent>) -> Map<
    u16,
    usize,
>
    decreases events.len(),
{
    if events.len() == 0 {
        tabs
    } else {
        tabs_after(tabs_after_all(tabs, events.drop_last()), events.last())
    }
}

/// A parked client goes back to exactly the tab that it left, whatever the other clients do in
/// between and whatever input it sends itself, as long as it is not parked again, unparked or
/// forgotten; and a client that was unparked or forgotten is not parked.
pub proof fn law_parked_client_goes_back(
    tabs: Map<u16, usize>,
    client: u16,
    tab: usize,
    events: Seq<ActivityEvent>,
)
    requires
        forall|i: int| 0 <= i < events.len() ==> !moves(#[trigger] events[i], client),
    ensures
        ({
            let now = tabs_after_all(tabs_after(tabs, ActivityEvent::Park(client, tab)), events);
            &&& now.contains_key(client)
            &&& now[client] == tab
            &&& !tabs_after(now, ActivityEvent::Unpark(client)).contains_key(client)
            &&& !tabs_after(now, ActivityEvent::Forget(client)).contains_key(client)
        }),
    decreases events.len(),
{
    if events.len() > 0 {
        law_parked_client_goes_back(tabs, client, tab, events.drop_last());
        assert(!moves(events[events.len() - 1], client));
    }
}

/// What happens to one client leaves the parking of every other one as it is, and changes the
/// number of parked clients by that one client at most.
pub proof fn law_other_clients_stay_parked(
    tabs: Map<u16, usize>,
    event: ActivityEvent,
    other: u16,
)
    requires
        !moves(event, other),
        tabs.dom().finite(),
    ensures
        tabs_after(tabs, event).contains_key(other) == tabs.contains_key(other),
        tabs.contains_key(other) ==> tabs_after(tabs, event)[other] == tabs[other],
        tabs_after(tabs, event).len() == count_after(tabs, event),
{
    lemma_count_after(tabs, event);
}

proof fn lemma_count_after(tabs: Map<u16, usize>, event: ActivityEvent)
    requires
        tabs.dom().finite(),
    ensures
        tabs_after(tabs, event).len() == count_after(tabs, event),
{
    match event {
        ActivityEvent::Input(_) => {},
        ActivityEvent::Park(c, tab) => {
            assert(tabs.insert(c, tab).dom() =~= tabs.dom().insert(c));
        },
        ActivityEvent::Unpark(c) => {
            assert(tabs.remove(c).dom() =~= tabs.dom().remove(c));
        },
        ActivityEvent::Forget(c) => {
            assert(tabs.remove(c).dom() =~= tabs.dom().remove(c));
        },
    }
}

// ---------------------------------------------------------------------------------------------
// spans for people
// ---------------------------------------------------------------------------------------------

/// A span as a human would say it: `12s`, `4m`, `2h 10m`, `3d 4h`. The largest unit that is not
/// zero, and for hours and days the next smaller one where that is not zero.
pub open spec fn human(secs: nat) -> Seq<char> {
    let minutes = secs / 60;
    let hours = secs / 3600;
    let days = secs / 86400;
    if secs < 60 {
        text::dec(secs) + "s"@
    } else if minutes < 60 {
        text::dec(minutes) + "m"@
    } else if hours < 24 {
        if minutes % 60 == 0 {
            text::dec(hours) + "h"@
        } else {
            text::dec(hours) + "h "@ + text::dec(minutes % 60) + "m"@
        }
    } else if hours % 24 == 0 {
        text::dec(days) + "d"@
    } else {
        text::dec(days) + "d "@ + text::dec(hours % 24) + "h"@
    }
}

/// A span is shown to within its smaller unit. Below a minute that is the second, below an hour the
/// minute; from then on it is shown in hours and minutes, and from a day on in days and hours, the
/// smaller of the two left out where it is zero.
pub proof fn law_span_is_shown_to_its_smaller_unit(secs: nat, large: nat, small: nat)
    ensures
        secs < 60 ==> human(secs) == text::dec(secs) + "s"@,
        1 <= large < 60 && large * 60 <= secs < large * 60 + 60 ==> human(secs) == text::dec(large)
            + "m"@,
        1 <= large < 24 && large * 3600 <= secs < large * 3600 + 60 ==> human(secs) == text::dec(
            large,
        ) + "h"@,
        1 <= large < 24 && 0 < small < 60 && large * 3600 + small * 60 <= secs < large * 3600
            + small * 60 + 60 ==> human(secs) == text::dec(large) + "h "@ + text::dec(small) + "m"@,
        1 <= large && large * 86400 <= secs < large * 86400 + 3600 ==> human(secs) == text::dec(
            large,
        ) + "d"@,
        1 <= large && 0 < small < 24 && large * 86400 + small * 3600 <= secs < large * 86400
            + small * 3600 + 3600 ==> human(secs) == text::dec(large) + "d "@ + text::dec(small)
            + "h"@,
{
    if 1 <= large < 24 && large * 3600 <= secs < large * 3600 + 3600 {
        lemma_hours_and_minutes(secs, large);
    }
    if 1 <= large && large * 86400 <= secs < large * 86400 + 86400 {
        lemma_days_and_hours(secs, large);
    }
}

proof fn lemma_hours_and_minutes(secs: nat, hours: nat)
    requires
        1 <= hours < 24,
        hours * 3600 <= secs < hours * 3600 + 3600,
    ensures
        secs / 3600 == hours,
        (secs / 60) % 60 == (secs - hours * 3600) / 60,
        60 <= secs / 60,
{
}

proof fn lemma_days_and_hours(secs: nat, days: nat)
    requires
        1 <= days,
        days * 86400 <= secs < days * 86400 + 86400,
    ensures
        secs / 86400 == days,
        (secs / 3600) % 24 == (secs - days * 86400) / 3600,
        24 <= secs / 3600,
{
}

/// A span as a human would say it.
pub fn humanise(duration: Duration) -> (s: String)
    ensures
        s@ == human(duration.seconds()),
{
    let total_secs: u64 = duration.as_secs();
    if total_secs < 60 {
        return text::decimal(total_secs).concat("s");
    }
    let minutes: u64 = total_secs / 60;
    if minutes < 60 {
        return text::decimal(minutes).concat("m");
    }
    let hours: u64 = minutes / 60;
    let minutes: u64 = minutes % 60;
    if hours < 24 {
        return if minutes == 0 {
            text::decimal(hours).concat("h")
        } else {
            text::decimal(hours).concat("h ").concat(text::decimal(minutes).as_str()).concat("m")
        };
    }
    let days: u64 = hours / 24;
    let hours: u64 = hours % 24;
    if hours == 0 {
        text::decimal(days).concat("d")
    } else {
        text::decimal(days).concat("d ").concat(text::decimal(hours).as_str()).concat("h")
    }
}

/// A client is idle since its last sign of a human, and no other client is touched by it. A client
/// of which nothing is known, or that is not asked for, is left out.
pub proof fn law_idle_since_the_last_input(
    activity: &mut ClientActivity,
    client: u16,
    at: Duration,
    ids: &[u16],
    now: Duration,
    idle: HashMap<u16, Duration>,
    other: u16,
)
    requires
        call_ensures(ClientActivity::record_input, (activity, client, at), ()),
        call_ensures(ClientActivity::idle_for_many, (&*final(activity), ids, now), idle),
    ensures
        idle@.contains_key(client) <==> ids@.contains(client),
        idle@.contains_key(client) && at.nanoseconds() <= now.nanoseconds() ==> at.nanoseconds()
            + idle@[client].nanoseconds() == now.nanoseconds(),
        other != client ==> (idle@.contains_key(other) <==> ids@.contains(other) && old(
            activity,
        ).inputs().contains_key(other)),
        other != client && idle@.contains_key(other) && old(activity).inputs()[other].nanoseconds()
            <= now.nanoseconds() ==> old(activity).inputs()[other].nanoseconds()
            + idle@[other].nanoseconds() == now.nanoseconds(),
        final(activity).tabs_left() == old(activity).tabs_left(),
{
}

/// A client that is parked and then unparked goes back to the tab that it left, is then no longer
/// parked, and counts as active at that moment; one that was not parked goes nowhere.
pub proof fn law_unparked_client_goes_back(
    parking: &mut ClientActivity,
    leaving: &mut ClientActivity,
    client: u16,
    tab: usize,
    now: Duration,
    back: Option<usize>,
    during: bool,
    after: bool,
)
    requires
        call_ensures(ClientActivity::park, (parking, client, tab), ()),
        call_ensures(ClientActivity::is_parked, (&*final(parking), client), during),
        call_ensures(ClientActivity::unpark, (leaving, client, now), back),
        call_ensures(ClientActivity::is_parked, (&*final(leaving), client), after),
    ensures
        during,
        !after,
        old(leaving).tabs_left() == final(parking).tabs_left() ==> back == Some(tab),
        back is Some <==> old(leaving).tabs_left().contains_key(client),
        final(leaving).inputs().contains_key(client) && final(leaving).inputs()[client] == now,
        final(parking).inputs() == old(parking).inputs(),
{
}

/// A client that is forgotten is neither parked nor known to have been active; every other client
/// is what it was. A client that attaches counts as active from then on.
pub proof fn law_forgotten_client_is_unknown(
    gone: &mut ClientActivity,
    come: &mut ClientActivity,
    client: u16,
    now: Duration,
    other: u16,
)
    requires
        call_ensures(ClientActivity::forget, (gone, client), ()),
        call_ensures(ClientActivity::seed, (come, client, now), ()),
    ensures
        !final(gone).inputs().contains_key(client),
        !final(gone).tabs_left().contains_key(client),
        other != client ==> (final(gone).inputs().contains_key(other) <==> old(
            gone,
        ).inputs().contains_key(other)) && (final(gone).tabs_left().contains_key(other) <==> old(
            gone,
        ).tabs_left().contains_key(other)),
        final(come).inputs().contains_key(client) && final(come).inputs()[client] == now,
        final(come).tabs_left() == old(come).tabs_left(),
{
}

/// As many clients are parked as have a tab to go back to; a span is shown by its whole seconds.
pub proof fn law_parked_clients_are_counted(
    activity: ClientActivity,
    n: usize,
    span: Duration,
    shown: String,
)
    requires
        call_ensures(ClientActivity::parked_client_count, (&activity,), n),
        call_ensures(humanise, (span,), shown),
    ensures
        n == activity.tabs_left().dom().len(),
        shown@ == human(span.nanoseconds() / 1_000_000_000),
{
}

/// At first no client is known and none is parked.
pub proof fn law_at_first_nobody_is_known(activity: ClientActivity, client: u16)
    requires
        call_ensures(ClientActivity::new, (), activity),
    ensures
        !activity.inputs().contains_key(client) && !activity.tabs_left().contains_key(client),
{
}

} // verus!
