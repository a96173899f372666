//! The forward scan over the pages of the listing.

use vstd::prelude::*;
use crate::model::{Build, DecodeError, uuids, distinct_uuids};

verus! {

/// The number of rows that one request of a scan asks for.
pub const PAGE_SIZE: u32 = 20;

/// The builds that a scan forwards out of `page` when it has seen the uuids in
/// `known` before: the decoded rows, in order, whose uuid is neither in `known`
/// nor on an earlier row of the page.
pub open spec fn fresh_builds(known: Set<Seq<char>>, page: Seq<Result<Build, DecodeError>>) -> Seq<Build>
    decreases page.len(),
{
    if page.len() == 0 {
        Seq::empty()
    } else {
        let before = fresh_builds(known, page.drop_last());
        match page.last() {
            Ok(build) => if known.contains(build.uuid@) || uuids(before).contains(build.uuid@) {
                before
            } else {
                before.push(build)
            },
            Err(_) => before,
        }
    }
}

/// What a scan forwards is new: no uuid of `known`, and none twice.
pub proof fn lemma_fresh_builds_are_new(known: Set<Seq<char>>, page: Seq<Result<Build, DecodeError>>)
    ensures
        distinct_uuids(fresh_builds(known, page)),
        uuids(fresh_builds(known, page)).disjoint(known),
    decreases page.len(),
{
    if page.len() > 0 {
        lemma_fresh_builds_are_new(known, page.drop_last());
    }
}

/// What a scan that starts with nothing forwards over `pages`, taken in order.
pub open spec fn scan(pages: Seq<Seq<Result<Build, DecodeError>>>) -> Seq<Build>
    decreases pages.len(),
{
    if pages.len() == 0 {
        Seq::empty()
    } else {
        let before = scan(pages.drop_last());
        before + fresh_builds(uuids(before), pages.last())
    }
}

/// Whatever the pages hold, and however rows move between them, a scan forwards
/// no uuid twice.
pub proof fn lemma_scan_never_repeats(pages: Seq<Seq<Result<Build, DecodeError>>>)
    ensures
        distinct_uuids(scan(pages)),
    decreases pages.len(),
{
    if pages.len() > 0 {
        let before = scan(pages.drop_last());
        let fresh = fresh_builds(uuids(before), pages.last());
        lemma_scan_never_repeats(pages.drop_last());
        lemma_fresh_builds_are_new(uuids(before), pages.last());
        assert forall|i: int, j: int| 0 <= i < j < (before + fresh).len() implies
            #[trigger] (before + fresh)[i].uuid@ != #[trigger] (before + fresh)[j].uuid@ by {
            if i < before.len() && j >= before.len() {
                assert(uuids(before).contains(before[i].uuid@));
                assert(uuids(fresh).contains(fresh[j - before.len()].uuid@));
            }
        }
    }
}

/// The request for one page of the listing.
#[derive(Debug, Clone, Copy, PartialEq, Eq)]
pub struct PageRequest {
    /// The number of rows to pass over.
    pub skip: u32,
    /// The largest number of rows to return.
    pub limit: u32,
}

/// The uuids in `names` are those of `builds`, one for one.
spec fn names_of(names: Seq<String>, builds: Seq<Build>) -> bool {
    &&& names.len() == builds.len()
    &&& forall|i: int| 0 <= i < names.len() ==> (#[trigger] names[i])@ == builds[i].uuid@
}

/// Whether `uuid` is one of `names`.
fn contains(names: &Vec<String>, uuid: &String, Ghost(builds): Ghost<Seq<Build>>) -> (found: bool)
    requires
        names_of(names@, builds),
    ensures
        found == uuids(builds).contains(uuid@),
{
    let mut i: usize = 0;
    while i < names.len()
        invariant
            i <= names.len(),
            names_of(names@, builds),
            forall|k: int| 0 <= k < i ==> (#[trigger] builds[k]).uuid@ != uuid@,
        decreases names.len() - i,
    {
        if names[i] == *uuid {
            assert(builds[i as int].uuid@ == uuid@);
            return true;
        }
        i += 1;
    }
    false
}

/// A scan of the listing from its start: the offset of the next page and the
/// builds forwarded so far.
pub struct Scanner {
    offset: u32,
    known_builds: Vec<String>,
    emitted: Ghost<Seq<Build>>,
}

impl Scanner {
    /// The number of rows that the pages taken so far held.
    pub closed spec fn offset(&self) -> u32 {
        self.offset
    }

    /// The builds forwarded so far, in order.
    pub closed spec fn emitted(&self) -> Seq<Build> {
        self.emitted@
    }

    #[verifier::type_invariant]
    spec fn inv(&self) -> bool {
        &&& names_of(self.known_builds@, self.emitted@)
        &&& distinct_uuids(self.emitted@)
    }

    /// A scan that has taken no page yet.
    pub fn new() -> (scanner: Scanner)
        ensures
            scanner.offset() == 0,
            scanner.emitted() == Seq::<Build>::empty(),
    {
        Scanner { offset: 0, known_builds: Vec::new(), emitted: Ghost(Seq::empty()) }
    }

    /// The request for the next page: `PAGE_SIZE` rows from the offset on.
    pub fn request(&self) -> (request: PageRequest)
        ensures
            request.skip == self.offset(),
            request.limit == PAGE_SIZE,
    {
        PageRequest { skip: self.offset, limit: PAGE_SIZE }
    }

    /// Takes the page that answered `request()`, and returns the
    /// builds to forward. The offset moves on by the number of rows, decoded or
    /// not; no build is forwarded twice by one scan.
    pub fn absorb(&mut self, page: Vec<Result<Build, DecodeError>>) -> (fresh: Vec<Build>)
        requires
            old(self).offset() + page.len() <= u32::MAX,
        ensures
            final(self).offset() == old(self).offset() + page.len(),
            fresh@ == fresh_builds(uuids(old(self).emitted()), page@),
            final(self).emitted() == old(self).emitted() + fresh@,
            distinct_uuids(final(self).emitted()),
    {
        let mut taken = Scanner::new();
        std::mem::swap(self, &mut taken);
        proof {
            use_type_invariant(&taken);
        }
        let Scanner { offset, known_builds, emitted } = taken;
        let mut known_builds = known_builds;
        let ghost before = emitted@;
        let ghost rows = page@;
        let count = page.len();
        let mut fresh: Vec<Build> = Vec::new();
        for row in it: page.into_iter()
            invariant
                it.seq() == rows,
                fresh@ == fresh_builds(uuids(before), rows.take(it.index())),
                names_of(known_builds@, before + fresh@),
                distinct_uuids(before + fresh@),
        {
            assert(rows.take(it.index() + 1).drop_last() == rows.take(it.index()));
            assert(rows.take(it.index() + 1).last() == row);
            match row {
                Ok(build) => {
                    let found = contains(&known_builds, &build.uuid, Ghost(before + fresh@));
                    proof {
                        lemma_uuids_concat(before, fresh@);
                    }
                    if !found {
                        assert((before + fresh@).push(build) == before + fresh@.push(build));
                        known_builds.push(build.uuid.clone());
                        fresh.push(build);
                    }
                },
                Err(_) => {},
            }
        }
        assert(rows.take(rows.len() as int) == rows);
        *self = Scanner { offset: offset + count as u32, known_builds, emitted: Ghost(before + fresh@) };
        fresh
    }
}

/// The uuids of two runs of builds together.
pub proof fn lemma_uuids_concat(first: Seq<Build>, second: Seq<Build>)
    ensures
        uuids(first + second) == uuids(first).union(uuids(second)),
{
    let both = first + second;
    assert forall|u: Seq<char>| uuids(both).contains(u) <==> uuids(first).union(uuids(second)).contains(u) by {
        if uuids(both).contains(u) {
            let i = choose|i: int| 0 <= i < both.len() && #[trigger] both[i].uuid@ == u;
            if i < first.len() {
                assert(first[i].uuid@ == u);
            } else {
                assert(second[i - first.len()].uuid@ == u);
            }
        }
        if uuids(first).contains(u) {
            let i = choose|i: int| 0 <= i < first.len() && #[trigger] first[i].uuid@ == u;
            assert(both[i].uuid@ == u);
        }
        if uuids(second).contains(u) {
            let i = choose|i: int| 0 <= i < second.len() && #[trigger] second[i].uuid@ == u;
            assert(both[i + first.len()].uuid@ == u);
        }
    }
    assert(uuids(both) =~= uuids(first).union(uuids(second)));
}

} // verus!
