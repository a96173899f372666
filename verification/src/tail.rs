//! The tail loop: from a checkpoint to the newest build, again and again.

use std::time::Duration;
use vstd::prelude::*;
use crate::model::{distinct_uuids, uuids, Build, DecodeError};
use crate::scanner::{fresh_builds, lemma_fresh_builds_are_new, PageRequest, Scanner, PAGE_SIZE};

verus! {

/// What the caller does once it has forwarded the builds of a step.
#[derive(Debug, Clone, Copy, PartialEq, Eq)]
pub enum Next {
    /// Ask for the next page at once.
    Continue,
    /// Wait for the poll interval, then ask again.
    Sleep,
    /// Stop: there is no build to start from, or the request failed for good.
    Fatal,
}

/// The answer of the tail loop to one page.
pub struct Step {
    /// The builds to hand to the consumer, in order.
    pub forward: Vec<Build>,
    /// What to do after that.
    pub next: Next,
}

/// What a tail loop holds, as plain values.
#[verifier::ext_equal]
pub struct TailState {
    /// The uuid at which the scan under way stops; `None` before the first
    /// build is known.
    pub since: Option<Seq<char>>,
    /// The first uuid that the scan under way has come upon.
    pub candidate: Option<Seq<char>>,
    /// The offset of the scan under way.
    pub offset: int,
    /// The builds that the scan under way has come upon.
    pub emitted: Seq<Build>,
}

/// The uuid of the newest build of `page`, the answer to the request for one row.
pub open spec fn latest_uuid(page: Seq<Result<Build, DecodeError>>) -> Option<Seq<char>> {
    if page.len() > 0 && page.last() is Ok {
        Some(page.last()->Ok_0.uuid@)
    } else {
        None
    }
}

/// The number of builds at the head of `builds` that come before the one with
/// uuid `since`: all of them where there is none.
pub open spec fn checkpoint_index(builds: Seq<Build>, since: Seq<char>) -> int
    decreases builds.len(),
{
    if builds.len() == 0 || builds.first().uuid@ == since {
        0
    } else {
        1 + checkpoint_index(builds.drop_first(), since)
    }
}

/// Up to `checkpoint_index` no build carries the uuid `since`, and the build at
/// it, if there is one, does.
pub proof fn lemma_checkpoint_index_stops(builds: Seq<Build>, since: Seq<char>)
    ensures
        0 <= checkpoint_index(builds, since) <= builds.len(),
        forall|i: int|
            0 <= i < checkpoint_index(builds, since) ==> (#[trigger] builds[i]).uuid@ != since,
        checkpoint_index(builds, since) < builds.len() ==> builds[checkpoint_index(
            builds,
            since,
        )].uuid@ == since,
    decreases builds.len(),
{
    if builds.len() > 0 && builds.first().uuid@ != since {
        let rest = builds.drop_first();
        lemma_checkpoint_index_stops(rest, since);
        assert forall|i: int| 0 <= i < checkpoint_index(builds, since) implies (#[trigger] builds[i]).uuid@
            != since by {
            if i > 0 {
                assert(rest[i - 1].uuid@ != since);
            }
        }
    }
}

/// What a tail loop forwards in one step is new to its scan, holds no uuid
/// twice, and does not hold the checkpoint.
pub proof fn lemma_forwarded_is_newer(state: TailState, page: Seq<Result<Build, DecodeError>>)
    requires
        state.since is Some,
    ensures
        distinct_uuids(forwarded(state, page)),
        uuids(forwarded(state, page)).disjoint(uuids(state.emitted)),
        !uuids(forwarded(state, page)).contains(state.since->Some_0),
{
    let since = state.since->Some_0;
    let fresh = fresh_builds(uuids(state.emitted), page);
    let ahead = forwarded(state, page);
    lemma_fresh_builds_are_new(uuids(state.emitted), page);
    lemma_checkpoint_index_stops(fresh, since);
    assert forall|i: int| 0 <= i < ahead.len() implies #[trigger] ahead[i] == fresh[i] by {}
    assert forall|u: Seq<char>| uuids(ahead).contains(u) implies uuids(fresh).contains(u) && u != since by {
        let i = choose|i: int| 0 <= i < ahead.len() && #[trigger] ahead[i].uuid@ == u;
        assert(fresh[i].uuid@ == u);
    }
}

/// `checkpoint_index` is the one place at which a walk over `builds` stops.
pub proof fn lemma_checkpoint_index(builds: Seq<Build>, since: Seq<char>, k: int)
    requires
        0 <= k <= builds.len(),
        forall|i: int| 0 <= i < k ==> (#[trigger] builds[i]).uuid@ != since,
        k < builds.len() ==> builds[k].uuid@ == since,
    ensures
        checkpoint_index(builds, since) == k,
    decreases builds.len(),
{
    if builds.len() > 0 && k > 0 {
        let rest = builds.drop_first();
        assert(builds[0].uuid@ != since);
        assert forall|i: int| 0 <= i < k - 1 implies (#[trigger] rest[i]).uuid@ != since by {
            assert(builds[i + 1].uuid@ != since);
        }
        lemma_checkpoint_index(rest, since, k - 1);
    }
}

/// The state after `page` has answered the request of `state`.
pub open spec fn state_after(state: TailState, page: Seq<Result<Build, DecodeError>>) -> TailState {
    match state.since {
        None => match latest_uuid(page) {
            Some(uuid) => TailState { since: Some(uuid), candidate: None, offset: 0, emitted: Seq::empty() },
            None => state,
        },
        Some(since) => {
            let fresh = fresh_builds(uuids(state.emitted), page);
            let candidate = if state.candidate is None && fresh.len() > 0 {
                Some(fresh[0].uuid@)
            } else {
                state.candidate
            };
            if checkpoint_index(fresh, since) < fresh.len() {
                TailState { since: candidate, candidate: None, offset: 0, emitted: Seq::empty() }
            } else {
                TailState {
                    since: Some(since),
                    candidate,
                    offset: state.offset + page.len(),
                    emitted: state.emitted + fresh,
                }
            }
        },
    }
}

/// The builds that go to the consumer when `page` answers the request of
/// `state`: none while the first build is looked for; then the new builds of
/// the page that come before the checkpoint.
pub open spec fn forwarded(state: TailState, page: Seq<Result<Build, DecodeError>>) -> Seq<Build> {
    match state.since {
        None => Seq::empty(),
        Some(since) => {
            let fresh = fresh_builds(uuids(state.emitted), page);
            fresh.take(checkpoint_index(fresh, since))
        },
    }
}

/// What follows when `page` answers the request of `state`.
pub open spec fn next_after(state: TailState, page: Seq<Result<Build, DecodeError>>) -> Next {
    match state.since {
        None => if latest_uuid(page) is Some {
            Next::Sleep
        } else {
            Next::Fatal
        },
        Some(since) => {
            let fresh = fresh_builds(uuids(state.emitted), page);
            if checkpoint_index(fresh, since) < fresh.len() {
                Next::Sleep
            } else {
                Next::Continue
            }
        },
    }
}

/// A scan that has not met its checkpoint on `page` asks next for the rows
/// behind those of `page`, however many of them are builds.
pub proof fn lemma_offset_counts_rows(state: TailState, page: Seq<Result<Build, DecodeError>>)
    requires
        state.since is Some,
        next_after(state, page) == Next::Continue,
    ensures
        state_after(state, page).offset == state.offset + page.len(),
        state_after(state, page).since == state.since,
{
}

/// While no build is known, a page that ends in a build makes that build the
/// checkpoint, and nothing is forwarded.
pub proof fn lemma_bootstrap(state: TailState, page: Seq<Result<Build, DecodeError>>)
    requires
        state.since is None,
        page.len() > 0,
        page.last() is Ok,
    ensures
        forwarded(state, page).len() == 0,
        next_after(state, page) == Next::Sleep,
        state_after(state, page).since == Some(page.last()->Ok_0.uuid@),
{
}

/// A scan whose first page holds the checkpoint at place `k` among its new
/// builds forwards the `k` builds before it and no other, and the first build
/// it met is the next checkpoint.
pub proof fn lemma_catch_up(state: TailState, page: Seq<Result<Build, DecodeError>>, k: int)
    requires
        state.since is Some,
        state.candidate is None,
        0 <= k < fresh_builds(uuids(state.emitted), page).len(),
        fresh_builds(uuids(state.emitted), page)[k].uuid@ == state.since->Some_0,
        forall|i: int|
            0 <= i < k ==> (#[trigger] fresh_builds(uuids(state.emitted), page)[i]).uuid@
                != state.since->Some_0,
    ensures
        forwarded(state, page) == fresh_builds(uuids(state.emitted), page).take(k),
        next_after(state, page) == Next::Sleep,
        state_after(state, page).since == Some(fresh_builds(uuids(state.emitted), page)[0].uuid@),
{
    lemma_checkpoint_index(fresh_builds(uuids(state.emitted), page), state.since->Some_0, k);
}

/// The text of an optional string.
pub open spec fn text(name: Option<String>) -> Option<Seq<char>> {
    match name {
        Some(s) => Some(s@),
        None => None,
    }
}

/// A tail loop over the listing: it looks up the newest build once, then scans
/// from the top down to the build it stopped at last time, as often as asked.
pub struct Tail {
    loop_delay: Duration,
    since: Option<String>,
    candidate: Option<String>,
    scanner: Scanner,
}

impl View for Tail {
    type V = TailState;

    closed spec fn view(&self) -> TailState {
        TailState {
            since: text(self.since),
            candidate: text(self.candidate),
            offset: self.scanner.offset() as int,
            emitted: self.scanner.emitted(),
        }
    }
}

impl Tail {
    /// The poll interval that the loop was made with.
    pub closed spec fn delay(&self) -> Duration {
        self.loop_delay
    }

    /// A tail loop that stops its first scan at `since`, or that starts from the
    /// newest build where `since` is `None`.
    pub fn new(loop_delay: Duration, since: Option<String>) -> (tail: Tail)
        ensures
            tail.delay() == loop_delay,
            tail@ == (TailState { since: text(since), candidate: None, offset: 0, emitted: Seq::empty() }),
    {
        Tail { loop_delay, since, candidate: None, scanner: Scanner::new() }
    }

    /// The time to wait after a step that ends in `Next::Sleep`.
    pub fn loop_delay(&self) -> (delay: Duration)
        ensures
            delay == self.delay(),
    {
        self.loop_delay
    }

    /// The uuid at which the scan under way stops.
    pub fn since(&self) -> (since: Option<String>)
        ensures
            text(since) == self@.since,
    {
        match &self.since {
            Some(uuid) => Some(uuid.clone()),
            None => None,
        }
    }

    /// The request to send next: the newest row alone while no build is known,
    /// the next page of the scan after that.
    pub fn request(&self) -> (request: PageRequest)
        ensures
            self@.since is None ==> request.skip == 0 && request.limit == 1,
            self@.since is Some ==> request.skip == self@.offset && request.limit == PAGE_SIZE,
    {
        match &self.since {
            None => PageRequest { skip: 0, limit: 1 },
            Some(_) => self.scanner.request(),
        }
    }

    /// Takes the news that `request()` has failed for good: the loop ends there,
    /// and nothing it holds changes.
    pub fn on_failure(&mut self) -> (next: Next)
        ensures
            final(self)@ == old(self)@,
            final(self).delay() == old(self).delay(),
            next == Next::Fatal,
    {
        Next::Fatal
    }

    /// Takes the page that answered `request()`.
    pub fn on_page(&mut self, page: Vec<Result<Build, DecodeError>>) -> (step: Step)
        requires
            old(self)@.since is Some ==> old(self)@.offset + page.len() <= u32::MAX,
        ensures
            final(self)@ == state_after(old(self)@, page@),
            step.forward@ == forwarded(old(self)@, page@),
            step.next == next_after(old(self)@, page@),
            final(self).delay() == old(self).delay(),
    {
        let mut page = page;
        let mut forward: Vec<Build> = Vec::new();
        let since = match &self.since {
            None => {
                let next = match page.pop() {
                    Some(Ok(build)) => {
                        self.since = Some(build.uuid);
                        self.candidate = None;
                        self.scanner = Scanner::new();
                        Next::Sleep
                    },
                    _ => Next::Fatal,
                };
                return Step { forward, next };
            },
            Some(uuid) => uuid.clone(),
        };
        let fresh = self.scanner.absorb(page);
        let ghost builds = fresh@;
        let mut candidate = self.candidate.take();
        let ghost first = text(candidate);
        let ghost mut stop: int = 0;
        let mut reached = false;
        for build in it: fresh.into_iter()
            invariant
                it.seq() == builds,
                0 <= stop <= builds.len(),
                !reached ==> stop == it.index(),
                reached ==> stop < builds.len() && builds[stop].uuid@ == since@,
                forward@ == builds.take(stop),
                forall|i: int| 0 <= i < stop ==> (#[trigger] builds[i]).uuid@ != since@,
                text(candidate) == if first is None && (stop > 0 || reached) {
                    Some(builds[0].uuid@)
                } else {
                    first
                },
        {
            if !reached {
                if candidate.is_none() {
                    candidate = Some(build.uuid.clone());
                }
                if build.uuid == since {
                    reached = true;
                } else {
                    forward.push(build);
                    proof {
                        stop = stop + 1;
                    }
                }
            }
        }
        proof {
            lemma_checkpoint_index(builds, since@, stop);
        }
        if reached {
            self.since = candidate;
            self.scanner = Scanner::new();
            Step { forward, next: Next::Sleep }
        } else {
            self.candidate = candidate;
            Step { forward, next: Next::Continue }
        }
    }
}

} // verus!
