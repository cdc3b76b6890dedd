use vstd::prelude::*;

use crate::checker::ListingError;

verus! {

/// What the prober does next while it walks the checked libraries.
#[derive(Clone, Copy, Debug, PartialEq, Eq, Structural)]
pub enum ProbeAction {
    /// Request the contents of this library and report the status.
    FetchLibrary(u64),
    /// The walk is over, with this verdict.
    Finish(bool),
}

/// The action once the first `checked` libraries answered with 200.
pub open spec fn walk_next(ids: Seq<u64>, checked: int) -> ProbeAction {
    if checked < ids.len() {
        ProbeAction::FetchLibrary(ids[checked])
    } else {
        ProbeAction::Finish(true)
    }
}

/// One answer during a walk: 200 moves on to the next library, anything
/// else (or a failed request, `None`) ends the walk with a `down` verdict.
pub open spec fn walk_step(ids: Seq<u64>, checked: int, status: Option<u16>) -> (int, ProbeAction) {
    if status == Some(200u16) {
        (checked + 1, walk_next(ids, checked + 1))
    } else {
        (checked, ProbeAction::Finish(false))
    }
}

/// The walk after the answers `statuses`, each one fed while a library was
/// being requested.
pub open spec fn walk_run(ids: Seq<u64>, statuses: Seq<Option<u16>>) -> (int, ProbeAction)
    decreases statuses.len(),
{
    if statuses.len() == 0 {
        (0, walk_next(ids, 0))
    } else {
        let prev = walk_run(ids, statuses.drop_last());
        if prev.1 is FetchLibrary {
            walk_step(ids, prev.0, statuses.last())
        } else {
            prev
        }
    }
}

/// The first action of a probe, from the answer to the base request
/// (`None` where it failed) and the outcome of the library listing: `down`
/// unless the base answered 200 and the listing gave ids, else the walk over
/// those ids begins.
pub open spec fn probe_start(base_status: Option<u16>, listing: Result<Seq<u64>, ListingError>) -> ProbeAction {
    if base_status != Some(200u16) {
        ProbeAction::Finish(false)
    } else {
        match listing {
            Err(_) => ProbeAction::Finish(false),
            Ok(ids) => walk_next(ids, 0),
        }
    }
}

/// Where a probe stands after the base answer, the listing outcome and
/// the answers `statuses` to the library requests made so far.
pub open spec fn probe_verdict(
    base_status: Option<u16>,
    listing: Result<Seq<u64>, ListingError>,
    statuses: Seq<Option<u16>>,
) -> ProbeAction {
    if base_status != Some(200u16) || listing is Err {
        ProbeAction::Finish(false)
    } else {
        walk_run(listing->Ok_0, statuses).1
    }
}

/// The sequential check of every matched library: each is requested in
/// turn, and the first answer other than 200 ends the walk.
pub struct LibraryWalk {
    pub ids: Vec<u64>,
    pub checked: usize,
}

impl LibraryWalk {
    pub open spec fn wf(&self) -> bool {
        self.checked <= self.ids@.len()
    }

    /// Starts the walk over `ids`, with the first action.
    pub fn new(ids: Vec<u64>) -> (r: (LibraryWalk, ProbeAction))
        ensures
            r.0.ids@ == ids@,
            r.0.checked == 0,
            r.0.wf(),
            r.1 == walk_next(ids@, 0),
    {
        let first = if ids.len() > 0 {
            ProbeAction::FetchLibrary(ids[0])
        } else {
            ProbeAction::Finish(true)
        };
        (LibraryWalk { ids, checked: 0 }, first)
    }

    /// Starts a probe once the base request and the listing have been
    /// answered: the walk over the listed ids when both succeeded, with its
    /// first action, else a `down` verdict.
    pub fn start_probe(base_status: Option<u16>, listing: Result<Vec<u64>, ListingError>) -> (r: (
        LibraryWalk,
        ProbeAction,
    ))
        ensures
            r.0.wf(),
            r.0.checked == 0,
            r.1 == probe_start(
                base_status,
                match listing {
                    Ok(ids) => Ok::<Seq<u64>, ListingError>(ids@),
                    Err(e) => Err::<Seq<u64>, ListingError>(e),
                },
            ),
            base_status == Some(200u16) && listing is Ok ==> r.0.ids@ == listing->Ok_0@,
    {
        let base_ok = match base_status {
            Some(s) => s == 200,
            None => false,
        };
        if !base_ok {
            return (LibraryWalk { ids: Vec::new(), checked: 0 }, ProbeAction::Finish(false));
        }
        match listing {
            Err(_) => (LibraryWalk { ids: Vec::new(), checked: 0 }, ProbeAction::Finish(false)),
            Ok(ids) => LibraryWalk::new(ids),
        }
    }

    /// Takes the answer to the pending library request (`None` where the
    /// request failed) and says what comes next.
    pub fn check_libraries_enum_status(&mut self, status: Option<u16>) -> (r: ProbeAction)
        requires
            old(self).checked < old(self).ids@.len(),
        ensures
            final(self).ids@ == old(self).ids@,
            final(self).wf(),
            (final(self).checked as int, r) == walk_step(
                old(self).ids@,
                old(self).checked as int,
                status,
            ),
    {
        let n = self.ids.len();
        let ok = match status {
            Some(s) => s == 200,
            None => false,
        };
        if !ok {
            return ProbeAction::Finish(false);
        }
        self.checked = self.checked + 1;
        if self.checked < n {
            ProbeAction::FetchLibrary(self.ids[self.checked])
        } else {
            ProbeAction::Finish(true)
        }
    }
}

/// A walk requests the libraries one by one in order: while every answer so
/// far is 200 and libraries remain, the next one requested is the one after
/// those answered; once every library answered 200 the verdict is `up`; and
/// one answer other than 200 makes it `down`.
pub proof fn lemma_walk_verdict(ids: Seq<u64>, statuses: Seq<Option<u16>>)
    requires
        statuses.len() <= ids.len(),
    ensures
        (forall|i: int| 0 <= i < statuses.len() ==> statuses[i] == Some(200u16)) ==> walk_run(
            ids,
            statuses,
        ) == (statuses.len() as int, walk_next(ids, statuses.len() as int)),
        (forall|i: int| 0 <= i < statuses.len() ==> statuses[i] == Some(200u16))
            && statuses.len() == ids.len() ==> walk_run(ids, statuses).1 == ProbeAction::Finish(
            true,
        ),
        (exists|i: int| 0 <= i < statuses.len() && statuses[i] != Some(200u16)) ==> walk_run(
            ids,
            statuses,
        ).1 == ProbeAction::Finish(false),
    decreases statuses.len(),
{
    if statuses.len() > 0 {
        let prefix = statuses.drop_last();
        lemma_walk_verdict(ids, prefix);
        if exists|i: int| 0 <= i < statuses.len() && statuses[i] != Some(200u16) {
            let i = choose|i: int| 0 <= i < statuses.len() && statuses[i] != Some(200u16);
            if i < prefix.len() {
                assert(prefix[i] != Some(200u16));
            }
        }
        if forall|i: int| 0 <= i < statuses.len() ==> statuses[i] == Some(200u16) {
            assert forall|j: int| 0 <= j < prefix.len() implies prefix[j] == Some(200u16) by {
                assert(prefix[j] == statuses[j]);
            }
        }
    }
}

/// A probe is `up` exactly when the base request answered 200, the listing
/// gave ids, and the request for each of those ids answered 200; an answer
/// other than 200 to any of the three kinds of request, or a failed listing,
/// makes it `down`.
pub proof fn lemma_probe_verdict(
    base_status: Option<u16>,
    listing: Result<Seq<u64>, ListingError>,
    statuses: Seq<Option<u16>>,
)
    requires
        listing is Ok ==> statuses.len() <= listing->Ok_0.len(),
    ensures
        probe_verdict(base_status, listing, Seq::empty()) == probe_start(base_status, listing),
        probe_verdict(base_status, listing, statuses) == ProbeAction::Finish(true) <==> {
            &&& base_status == Some(200u16)
            &&& listing is Ok
            &&& statuses.len() == listing->Ok_0.len()
            &&& forall|i: int| 0 <= i < statuses.len() ==> statuses[i] == Some(200u16)
        },
        base_status != Some(200u16) || listing is Err || (exists|i: int|
            0 <= i < statuses.len() && statuses[i] != Some(200u16)) ==> probe_verdict(
            base_status,
            listing,
            statuses,
        ) == ProbeAction::Finish(false),
{
    if base_status == Some(200u16) && listing is Ok {
        let ids = listing->Ok_0;
        lemma_walk_verdict(ids, statuses);
        if !(forall|i: int| 0 <= i < statuses.len() ==> statuses[i] == Some(200u16)) {
            let i = choose|i: int| !(0 <= i < statuses.len() ==> statuses[i] == Some(200u16));
            assert(statuses[i] != Some(200u16));
        }
    }
}

} // verus!
