//! The notification side of the relay: which messages of a scan are new and
//! are forwarded to the owner, and how the point of the last scan moves.
use vstd::prelude::*;
use crate::message::{Instant, Message};

verus! {

/// The pause between two scans, in seconds.
pub const POLL_INTERVAL_SECS: u64 = 15;

/// Whether the poller still scans.
#[derive(Clone, Copy, Debug, PartialEq, Eq, Structural)]
pub enum PollerState {
    Running,
    Stopped,
}

/// The poller: its state, and the instant at which its last scan ended.
#[derive(Clone, Copy, Debug, PartialEq, Eq, Structural)]
pub struct Poller {
    pub state: PollerState,
    pub last_check: Instant,
}

/// A message with this timestamp is new: the timestamp is well formed and
/// does not lie before the last scan.
pub open spec fn is_due(stamp: Option<Instant>, last_check: Instant) -> bool {
    stamp matches Some(t) && !t.earlier_than(last_check)
}

/// The new messages among `messages`, in their order.
pub open spec fn due_messages(messages: Seq<Message>, last_check: Instant) -> Seq<Message> {
    messages.filter(|m: Message| is_due(m.instant(), last_check))
}

/// The messages that one slot contributes to a scan: the new ones of its
/// listing, and none where the listing failed.
pub open spec fn slot_forwarded(listing: Result<Vec<Message>, String>, last_check: Instant) -> Seq<
    Message,
> {
    match listing {
        Ok(messages) => due_messages(messages@, last_check),
        Err(_) => Seq::empty(),
    }
}

/// The messages that a whole scan forwards: those of each slot, slot after slot.
pub open spec fn scan_forwarded(
    listings: Seq<Result<Vec<Message>, String>>,
    last_check: Instant,
) -> Seq<Message>
    decreases listings.len(),
{
    if listings.len() == 0 {
        Seq::empty()
    } else {
        scan_forwarded(listings.drop_last(), last_check) + slot_forwarded(
            listings.last(),
            last_check,
        )
    }
}

/// The messages among `messages` whose timestamp is not well formed, in their order.
pub open spec fn unreadable(messages: Seq<Message>) -> Seq<Message> {
    messages.filter(|m: Message| m.instant() is None)
}

/// The messages of one slot whose timestamp is not well formed.
pub open spec fn slot_unreadable(listing: Result<Vec<Message>, String>) -> Seq<Message> {
    match listing {
        Ok(messages) => unreadable(messages@),
        Err(_) => Seq::empty(),
    }
}

/// The messages of a whole scan whose timestamp is not well formed.
pub open spec fn scan_unreadable(listings: Seq<Result<Vec<Message>, String>>) -> Seq<Message>
    decreases listings.len(),
{
    if listings.len() == 0 {
        Seq::empty()
    } else {
        scan_unreadable(listings.drop_last()) + slot_unreadable(listings.last())
    }
}

/// What a scan gives: the texts to forward to the owner, in order, and for
/// each message that was skipped for its timestamp the error of the parse.
pub struct Scan {
    pub texts: Vec<String>,
    pub failures: Vec<chrono::format::ParseError>,
}

/// `texts` holds the rich rendering of each of `messages`, in the same order.
pub open spec fn renders(texts: Seq<String>, messages: Seq<Message>) -> bool {
    texts.len() == messages.len() && forall|i: int|
        0 <= i < texts.len() ==> (#[trigger] texts[i])@ == messages[i].html_text()
}

/// Tells whether a message is new, from what parsing its timestamp gave.
pub fn is_new(stamp: Option<Instant>, last_check: Instant) -> (r: bool)
    ensures
        r == is_due(stamp, last_check),
{
    match stamp {
        Some(t) => !t.is_before(&last_check),
        None => false,
    }
}

impl Poller {
    /// The poller after a scan that ended at `now`.
    pub open spec fn finished(self, now: Instant) -> Poller {
        Poller { state: self.state, last_check: now }
    }

    /// A running poller that takes `now` for the end of its last scan.
    pub fn new(now: Instant) -> (r: Poller)
        ensures
            r == (Poller { state: PollerState::Running, last_check: now }),
    {
        Poller { state: PollerState::Running, last_check: now }
    }

    /// Starts an iteration: looks at the stop signal, and says whether a scan
    /// is to follow. Once stopped the poller stays stopped.
    pub fn begin_iteration(&mut self, should_stop: bool) -> (go_on: bool)
        ensures
            go_on == (!should_stop && old(self).state == PollerState::Running),
            final(self).last_check == old(self).last_check,
            final(self).state == (if go_on {
                PollerState::Running
            } else {
                PollerState::Stopped
            }),
    {
        if should_stop || self.state == PollerState::Stopped {
            self.state = PollerState::Stopped;
            false
        } else {
            true
        }
    }

    /// The scan of one slot, from what the gateway listed for it.
    pub fn scan_slot(&self, listing: &Result<Vec<Message>, String>) -> (r: Scan)
        ensures
            renders(r.texts@, slot_forwarded(*listing, self.last_check)),
            r.failures@.len() == slot_unreadable(*listing).len(),
    {
        let mut texts: Vec<String> = Vec::new();
        let mut failures: Vec<chrono::format::ParseError> = Vec::new();
        match listing {
            Ok(messages) => {
                let mut i: usize = 0;
                while i < messages.len()
                    invariant
                        i <= messages@.len(),
                        renders(texts@, due_messages(messages@.take(i as int), self.last_check)),
                        failures@.len() == unreadable(messages@.take(i as int)).len(),
                    decreases messages@.len() - i,
                {
                    let stamp = match messages[i].datetime() {
                        Ok(t) => Some(t),
                        Err(e) => {
                            failures.push(e);
                            None
                        },
                    };
                    proof {
                        reveal(Seq::filter);
                        assert(messages@.take(i + 1).drop_last() =~= messages@.take(i as int));
                    }
                    if is_new(stamp, self.last_check) {
                        texts.push(messages[i].to_html());
                    }
                    i = i + 1;
                }
                assert(messages@.take(i as int) =~= messages@);
            },
            Err(_) => {},
        }
        Scan { texts, failures }
    }

    /// Ends a scan at `now`, whatever the slots gave.
    pub fn finish_iteration(&mut self, now: Instant)
        ensures
            *final(self) == old(self).finished(now),
    {
        self.last_check = now;
    }
}

/// The scan of one iteration, once the iteration has begun. `listings` holds
/// what the gateway listed for each slot, in the order of the slots; `now` is
/// the instant at which the scan ends. A running poller forwards the new
/// messages of all slots in order and moves its instant to `now`, whatever
/// the slots gave. A stopped poller forwards nothing and keeps its instant.
pub fn check_sms_task(
    poller: &mut Poller,
    listings: &Vec<Result<Vec<Message>, String>>,
    now: Instant,
) -> (r: Scan)
    ensures
        old(poller).state == PollerState::Stopped ==> r.texts@.len() == 0 && r.failures@.len() == 0
            && *final(poller) == *old(poller),
        old(poller).state == PollerState::Running ==> renders(
            r.texts@,
            scan_forwarded(listings@, old(poller).last_check),
        ) && r.failures@.len() == scan_unreadable(listings@).len() && *final(poller) == old(
            poller,
        ).finished(now),
{
    let mut texts: Vec<String> = Vec::new();
    let mut failures: Vec<chrono::format::ParseError> = Vec::new();
    if poller.state == PollerState::Stopped {
        return Scan { texts, failures };
    }
    let mut i: usize = 0;
    while i < listings.len()
        invariant
            i <= listings@.len(),
            *poller == *old(poller),
            renders(texts@, scan_forwarded(listings@.take(i as int), poller.last_check)),
            failures@.len() == scan_unreadable(listings@.take(i as int)).len(),
        decreases listings@.len() - i,
    {
        let found = poller.scan_slot(&listings[i]);
        let mut found_texts = found.texts;
        let mut found_failures = found.failures;
        proof {
            assert(listings@.take(i + 1).drop_last() =~= listings@.take(i as int));
        }
        texts.append(&mut found_texts);
        failures.append(&mut found_failures);
        i = i + 1;
    }
    assert(listings@.take(i as int) =~= listings@);
    poller.finish_iteration(now);
    Scan { texts, failures }
}

/// Filtering keeps order and splits over concatenation: the new messages of
/// two listings in a row are those of the first, then those of the second.
pub proof fn lemma_due_messages_concat(a: Seq<Message>, b: Seq<Message>, last_check: Instant)
    ensures
        due_messages(a + b, last_check) == due_messages(a, last_check) + due_messages(
            b,
            last_check,
        ),
{
    Seq::filter_distributes_over_add(a, b, |m: Message| is_due(m.instant(), last_check));
}

/// A message is forwarded once if its timestamp is well formed and does not
/// lie before the last scan, and not at all otherwise.
pub proof fn lemma_due_messages_single(m: Message, last_check: Instant)
    ensures
        is_due(m.instant(), last_check) ==> due_messages(seq![m], last_check) == seq![m],
        !is_due(m.instant(), last_check) ==> due_messages(seq![m], last_check) == Seq::<
            Message,
        >::empty(),
{
    reveal(Seq::filter);
    let pred = |m: Message| is_due(m.instant(), last_check);
    assert(seq![m].drop_last() =~= Seq::<Message>::empty());
    assert(seq![m].drop_last().filter(pred) =~= Seq::<Message>::empty());
    assert(seq![m].filter(pred) =~= if pred(m) {
        seq![m]
    } else {
        Seq::<Message>::empty()
    });
}

/// Every forwarded message stands in the listing.
pub proof fn lemma_forwarded_come_from_listing(messages: Seq<Message>, last_check: Instant)
    ensures
        forall|i: int|
            0 <= i < due_messages(messages, last_check).len() ==> messages.contains(
                #[trigger] due_messages(messages, last_check)[i],
            ),
    decreases messages.len(),
{
    reveal(Seq::filter);
    if messages.len() > 0 {
        let rest = messages.drop_last();
        lemma_forwarded_come_from_listing(rest, last_check);
        let d = due_messages(messages, last_check);
        let dr = due_messages(rest, last_check);
        assert forall|i: int| 0 <= i < d.len() implies messages.contains(#[trigger] d[i]) by {
            if i < dr.len() {
                assert(d[i] == dr[i]);
                assert(rest.contains(dr[i]));
                let j = choose|j: int| 0 <= j < rest.len() && rest[j] == dr[i];
                assert(messages[j] == dr[i]);
            } else {
                assert(messages[messages.len() - 1] == d[i]);
            }
        }
    }
}

/// Every forwarded message is one of the listing and is new; every new
/// message of the listing is forwarded; nothing is added.
pub proof fn lemma_forwarded_are_the_new(messages: Seq<Message>, last_check: Instant)
    ensures
        forall|m: Message| #[trigger]
            due_messages(messages, last_check).contains(m) <==> messages.contains(m) && is_due(
                m.instant(),
                last_check,
            ),
        due_messages(messages, last_check).len() <= messages.len(),
{
    let pred = |m: Message| is_due(m.instant(), last_check);
    let d = due_messages(messages, last_check);
    messages.lemma_filter_len(pred);
    lemma_forwarded_come_from_listing(messages, last_check);
    assert forall|m: Message| #[trigger]
        d.contains(m) <==> messages.contains(m) && is_due(m.instant(), last_check) by {
        if d.contains(m) {
            let i = choose|i: int| 0 <= i < d.len() && d[i] == m;
            messages.lemma_filter_pred(pred, i);
            assert(messages.contains(d[i]));
        }
        if messages.contains(m) && pred(m) {
            let i = choose|i: int| 0 <= i < messages.len() && messages[i] == m;
            messages.lemma_filter_contains(pred, i);
        }
    }
}

/// The instant of the last scan never moves back as long as the clock that
/// gives `now` does not.
pub proof fn lemma_last_check_advances(poller: Poller, now: Instant)
    requires
        !now.earlier_than(poller.last_check),
    ensures
        !poller.finished(now).last_check.earlier_than(poller.last_check),
        poller.finished(now).last_check == now,
{
}

} // verus!
