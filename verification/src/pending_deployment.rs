//! Bookkeeping of artifact deployments.
//!
//! The host asks for a deployment and gets its answer at once; the worker
//! confirms later. The table in between records, for every artifact that was
//! ever asked for, where its deployment stands, so that a repeated request
//! is not issued twice and "is this artifact ready" has one answer.

use crate::errors::{ExecutionError, ExecutionErrorView};
use crate::types::{
    ArtifactId, ArtifactIdView, DeploymentStatus, DeploymentStatusView, clone_bytes,
};
use vstd::prelude::*;
use vstd::slice::*;

verus! {

/// What the table holds for one artifact.
pub struct DeploymentRecord {
    /// The deployment arguments of the request that led to the status.
    pub spec: Seq<u8>,
    pub status: DeploymentStatusView,
}

/// The status of an artifact, if it was ever asked for.
pub open spec fn status_of(
    table: Map<ArtifactIdView, DeploymentRecord>,
    artifact: ArtifactIdView,
) -> Option<DeploymentStatusView> {
    if table.dom().contains(artifact) {
        Some(table[artifact].status)
    } else {
        None
    }
}

/// Whether asking for the artifact starts a new deployment: it does unless
/// one is pending or has succeeded.
pub open spec fn begin_issues(
    table: Map<ArtifactIdView, DeploymentRecord>,
    artifact: ArtifactIdView,
) -> bool {
    match status_of(table, artifact) {
        Some(DeploymentStatusView::Pending) => false,
        Some(DeploymentStatusView::Active) => false,
        _ => true,
    }
}

/// The status that asking for the artifact reports.
pub open spec fn begin_status(
    table: Map<ArtifactIdView, DeploymentRecord>,
    artifact: ArtifactIdView,
) -> DeploymentStatusView {
    if begin_issues(table, artifact) {
        DeploymentStatusView::Pending
    } else {
        table[artifact].status
    }
}

/// The table after asking for the artifact.
pub open spec fn after_begin(
    table: Map<ArtifactIdView, DeploymentRecord>,
    artifact: ArtifactIdView,
    spec: Seq<u8>,
) -> Map<ArtifactIdView, DeploymentRecord> {
    if begin_issues(table, artifact) {
        table.insert(artifact, DeploymentRecord { spec, status: DeploymentStatusView::Pending })
    } else {
        table
    }
}

/// What became of a reported deployment outcome.
#[derive(Clone, Copy, Debug, PartialEq, Eq, Structural)]
pub enum CompletionReport {
    /// The pending deployment took the outcome.
    Applied,
    /// The artifact was never asked for; nothing changed.
    UnknownArtifact,
    /// The deployment had already ended; nothing changed.
    AlreadyTerminal,
}

/// The status that an outcome leads to.
pub open spec fn status_for(outcome: Result<(), ExecutionErrorView>) -> DeploymentStatusView {
    match outcome {
        Ok(_) => DeploymentStatusView::Active,
        Err(e) => DeploymentStatusView::Failed(e),
    }
}

/// What reporting an outcome for the artifact does.
pub open spec fn complete_report(
    table: Map<ArtifactIdView, DeploymentRecord>,
    artifact: ArtifactIdView,
) -> CompletionReport {
    match status_of(table, artifact) {
        None => CompletionReport::UnknownArtifact,
        Some(DeploymentStatusView::Pending) => CompletionReport::Applied,
        Some(_) => CompletionReport::AlreadyTerminal,
    }
}

/// The table after reporting an outcome for the artifact.
pub open spec fn after_complete(
    table: Map<ArtifactIdView, DeploymentRecord>,
    artifact: ArtifactIdView,
    outcome: Result<(), ExecutionErrorView>,
) -> Map<ArtifactIdView, DeploymentRecord> {
    if complete_report(table, artifact) == CompletionReport::Applied {
        table.insert(
            artifact,
            DeploymentRecord { spec: table[artifact].spec, status: status_for(outcome) },
        )
    } else {
        table
    }
}

/// The model of an outcome handed to [`PendingDeployments::complete`].
pub open spec fn outcome_view(outcome: Result<(), ExecutionError>) -> Result<
    (),
    ExecutionErrorView,
> {
    match outcome {
        Ok(_) => Ok(()),
        Err(e) => Err(e@),
    }
}

/// The model of what [`PendingDeployments::status`] returns.
pub open spec fn status_view(s: Option<DeploymentStatus>) -> Option<DeploymentStatusView> {
    match s {
        Some(s) => Some(s@),
        None => None,
    }
}

#[derive(Debug)]
struct Entry {
    artifact: ArtifactId,
    spec: Vec<u8>,
    status: DeploymentStatus,
}

spec fn record_of(e: Entry) -> DeploymentRecord {
    DeploymentRecord { spec: e.spec@, status: e.status@ }
}

spec fn distinct(es: Seq<Entry>) -> bool {
    forall|i: int, j: int|
        0 <= i < es.len() && 0 <= j < es.len() && i != j ==> (#[trigger] es[i]).artifact@ != (
        #[trigger] es[j]).artifact@
}

spec fn listed(es: Seq<Entry>, k: ArtifactIdView) -> bool {
    exists|i: int| 0 <= i < es.len() && (#[trigger] es[i]).artifact@ == k
}

spec fn index_of(es: Seq<Entry>, k: ArtifactIdView) -> int {
    choose|i: int| 0 <= i < es.len() && (#[trigger] es[i]).artifact@ == k
}

spec fn table_of(es: Seq<Entry>) -> Map<ArtifactIdView, DeploymentRecord> {
    Map::new(|k: ArtifactIdView| listed(es, k), |k: ArtifactIdView| record_of(es[index_of(es, k)]))
}

proof fn lemma_table_at(es: Seq<Entry>, i: int)
    requires
        distinct(es),
        0 <= i < es.len(),
    ensures
        listed(es, es[i].artifact@),
        index_of(es, es[i].artifact@) == i,
        table_of(es).dom().contains(es[i].artifact@),
        table_of(es)[es[i].artifact@] == record_of(es[i]),
{
    let k = es[i].artifact@;
    assert(0 <= i < es.len() && es[i].artifact@ == k);
    let j = index_of(es, k);
    assert(0 <= j < es.len() && es[j].artifact@ == k);
}

proof fn lemma_table_absent(es: Seq<Entry>, k: ArtifactIdView)
    requires
        forall|i: int| 0 <= i < es.len() ==> (#[trigger] es[i]).artifact@ != k,
    ensures
        !listed(es, k),
        !table_of(es).dom().contains(k),
{
}

proof fn lemma_table_update(es: Seq<Entry>, i: int, x: Entry)
    requires
        distinct(es),
        0 <= i < es.len(),
        x.artifact@ == es[i].artifact@,
    ensures
        distinct(es.update(i, x)),
        table_of(es.update(i, x)) == table_of(es).insert(x.artifact@, record_of(x)),
{
    let es2 = es.update(i, x);
    assert forall|a: int, b: int| 0 <= a < es2.len() && 0 <= b < es2.len() && a != b implies (
    #[trigger] es2[a]).artifact@ != (#[trigger] es2[b]).artifact@ by {
        assert(es2[a].artifact@ == es[a].artifact@);
        assert(es2[b].artifact@ == es[b].artifact@);
    }
    let want = table_of(es).insert(x.artifact@, record_of(x));
    assert forall|k: ArtifactIdView| listed(es2, k) == listed(es, k) by {
        if listed(es, k) {
            let j = index_of(es, k);
            assert(es2[j].artifact@ == k);
        }
        if listed(es2, k) {
            let j = index_of(es2, k);
            assert(es[j].artifact@ == k);
        }
    }
    lemma_table_at(es, i);
    assert forall|k: ArtifactIdView| #[trigger] want.dom().contains(k) implies table_of(es2)[k]
        == want[k] by {
        assert(listed(es, k));
        let j = index_of(es, k);
        lemma_table_at(es, j);
        lemma_table_at(es2, j);
    }
    assert(table_of(es2) =~= want);
}

proof fn lemma_table_push(es: Seq<Entry>, x: Entry)
    requires
        distinct(es),
        !listed(es, x.artifact@),
    ensures
        distinct(es.push(x)),
        table_of(es.push(x)) == table_of(es).insert(x.artifact@, record_of(x)),
{
    let es2 = es.push(x);
    let n = es.len() as int;
    assert forall|a: int, b: int| 0 <= a < es2.len() && 0 <= b < es2.len() && a != b implies (
    #[trigger] es2[a]).artifact@ != (#[trigger] es2[b]).artifact@ by {
        if a < n {
            assert(es2[a] == es[a]);
        }
        if b < n {
            assert(es2[b] == es[b]);
        }
    }
    let want = table_of(es).insert(x.artifact@, record_of(x));
    assert forall|k: ArtifactIdView| listed(es2, k) == (listed(es, k) || k == x.artifact@) by {
        if listed(es, k) {
            let j = index_of(es, k);
            assert(es2[j].artifact@ == k);
        }
        if k == x.artifact@ {
            assert(es2[n].artifact@ == k);
        }
        if listed(es2, k) {
            let j = index_of(es2, k);
            if j < n {
                assert(es[j].artifact@ == k);
            }
        }
    }
    assert forall|k: ArtifactIdView| #[trigger] want.dom().contains(k) implies table_of(es2)[k]
        == want[k] by {
        if k == x.artifact@ {
            lemma_table_at(es2, n);
        } else {
            assert(listed(es, k));
            let j = index_of(es, k);
            lemma_table_at(es, j);
            assert(es2[j] == es[j]);
            lemma_table_at(es2, j);
        }
    }
    assert(table_of(es2) =~= want);
}

/// The table of deployments, keyed by artifact.
#[derive(Debug)]
pub struct PendingDeployments {
    entries: Vec<Entry>,
}

impl View for PendingDeployments {
    type V = Map<ArtifactIdView, DeploymentRecord>;

    closed spec fn view(&self) -> Map<ArtifactIdView, DeploymentRecord> {
        table_of(self.entries@)
    }
}

impl PendingDeployments {
    /// No artifact is recorded twice. Every table this module hands out is
    /// well formed, and every operation keeps it so.
    pub closed spec fn wf(&self) -> bool {
        distinct(self.entries@)
    }

    /// An empty table.
    pub fn new() -> (r: Self)
        ensures
            r.wf(),
            r@ == Map::<ArtifactIdView, DeploymentRecord>::empty(),
    {
        let r = PendingDeployments { entries: Vec::new() };
        assert(r@ =~= Map::<ArtifactIdView, DeploymentRecord>::empty());
        r
    }

    fn find(&self, artifact: &ArtifactId) -> (r: Option<usize>)
        requires
            self.wf(),
        ensures
            match r {
                Some(i) => i < self.entries@.len() && self.entries@[i as int].artifact@
                    == artifact@,
                None => !listed(self.entries@, artifact@),
            },
    {
        let mut i: usize = 0;
        while i < self.entries.len()
            invariant
                self.wf(),
                i <= self.entries@.len(),
                forall|j: int| 0 <= j < i ==> (#[trigger] self.entries@[j]).artifact@ != artifact@,
            decreases self.entries@.len() - i,
        {
            if self.entries[i].artifact.same(artifact) {
                return Some(i);
            }
            i += 1;
        }
        proof {
            lemma_table_absent(self.entries@, artifact@);
        }
        None
    }

    /// Where the deployment of the artifact stands; `None` if it was never
    /// asked for.
    pub fn status(&self, artifact: &ArtifactId) -> (r: Option<DeploymentStatus>)
        requires
            self.wf(),
        ensures
            status_view(r) == status_of(self@, artifact@),
    {
        match self.find(artifact) {
            Some(i) => {
                proof {
                    lemma_table_at(self.entries@, i as int);
                }
                Some(self.entries[i].status.clone())
            },
            None => None,
        }
    }

    /// Whether the artifact is deployed and confirmed.
    pub fn is_active(&self, artifact: &ArtifactId) -> (r: bool)
        requires
            self.wf(),
        ensures
            r == (status_of(self@, artifact@) == Some(DeploymentStatusView::Active)),
    {
        match self.find(artifact) {
            Some(i) => {
                proof {
                    lemma_table_at(self.entries@, i as int);
                }
                self.entries[i].status.is_active()
            },
            None => false,
        }
    }

    /// Whether [`begin`](Self::begin) for the artifact would start a new
    /// deployment, for which a request has to go to the worker.
    pub fn needs_request(&self, artifact: &ArtifactId) -> (r: bool)
        requires
            self.wf(),
        ensures
            r == begin_issues(self@, artifact@),
    {
        match self.find(artifact) {
            Some(i) => {
                proof {
                    lemma_table_at(self.entries@, i as int);
                }
                match &self.entries[i].status {
                    DeploymentStatus::Failed(_) => true,
                    _ => false,
                }
            },
            None => true,
        }
    }

    /// Asks for the deployment of the artifact and reports where it stands.
    /// A deployment that is pending or has succeeded is left as it is; for an
    /// artifact that is new or whose deployment failed, a new one starts.
    pub fn begin(&mut self, artifact: &ArtifactId, spec: &[u8]) -> (r: DeploymentStatus)
        requires
            old(self).wf(),
        ensures
            final(self).wf(),
            r@ == begin_status(old(self)@, artifact@),
            final(self)@ == after_begin(old(self)@, artifact@, spec@),
    {
        match self.find(artifact) {
            Some(i) => {
                proof {
                    lemma_table_at(self.entries@, i as int);
                }
                let retry: bool = match &self.entries[i].status {
                    DeploymentStatus::Failed(_) => true,
                    _ => false,
                };
                if retry {
                    let entry = Entry {
                        artifact: artifact.clone(),
                        spec: slice_to_vec(spec),
                        status: DeploymentStatus::Pending,
                    };
                    proof {
                        lemma_table_update(self.entries@, i as int, entry);
                    }
                    self.entries.set(i, entry);
                    DeploymentStatus::Pending
                } else {
                    self.entries[i].status.clone()
                }
            },
            None => {
                let entry = Entry {
                    artifact: artifact.clone(),
                    spec: slice_to_vec(spec),
                    status: DeploymentStatus::Pending,
                };
                proof {
                    lemma_table_push(self.entries@, entry);
                }
                self.entries.push(entry);
                DeploymentStatus::Pending
            },
        }
    }

    /// Reports how the pending deployment of the artifact ended. For an
    /// artifact that was never asked for, or whose deployment has already
    /// ended, nothing changes and the report says so.
    pub fn complete(&mut self, artifact: &ArtifactId, outcome: Result<(), ExecutionError>) -> (r:
        CompletionReport)
        requires
            old(self).wf(),
        ensures
            final(self).wf(),
            r == complete_report(old(self)@, artifact@),
            final(self)@ == after_complete(old(self)@, artifact@, outcome_view(outcome)),
    {
        match self.find(artifact) {
            Some(i) => {
                proof {
                    lemma_table_at(self.entries@, i as int);
                }
                let pending: bool = match &self.entries[i].status {
                    DeploymentStatus::Pending => true,
                    _ => false,
                };
                if pending {
                    let status = match outcome {
                        Ok(_) => DeploymentStatus::Active,
                        Err(e) => DeploymentStatus::Failed(e),
                    };
                    let entry = Entry {
                        artifact: artifact.clone(),
                        spec: clone_bytes(&self.entries[i].spec),
                        status,
                    };
                    proof {
                        lemma_table_update(self.entries@, i as int, entry);
                    }
                    self.entries.set(i, entry);
                    CompletionReport::Applied
                } else {
                    CompletionReport::AlreadyTerminal
                }
            },
            None => CompletionReport::UnknownArtifact,
        }
    }

    /// Records an artifact that the worker reports as deployed, whatever the
    /// table held for it.
    pub fn restore(&mut self, artifact: &ArtifactId, spec: &[u8])
        requires
            old(self).wf(),
        ensures
            final(self).wf(),
            final(self)@ == old(self)@.insert(
                artifact@,
                DeploymentRecord { spec: spec@, status: DeploymentStatusView::Active },
            ),
    {
        let entry = Entry {
            artifact: artifact.clone(),
            spec: slice_to_vec(spec),
            status: DeploymentStatus::Active,
        };
        match self.find(artifact) {
            Some(i) => {
                proof {
                    lemma_table_update(self.entries@, i as int, entry);
                }
                self.entries.set(i, entry);
            },
            None => {
                proof {
                    lemma_table_push(self.entries@, entry);
                }
                self.entries.push(entry);
            },
        }
    }
}

/// Asking twice for an artifact before its deployment ends reports the same
/// status both times, starts at most one deployment, and leaves the table as
/// the first request left it.
pub proof fn lemma_begin_is_idempotent(
    table: Map<ArtifactIdView, DeploymentRecord>,
    artifact: ArtifactIdView,
    spec: Seq<u8>,
    again: Seq<u8>,
)
    ensures
        begin_status(after_begin(table, artifact, spec), artifact) == begin_status(
            table,
            artifact,
        ),
        !begin_issues(after_begin(table, artifact, spec), artifact),
        after_begin(after_begin(table, artifact, spec), artifact, again) == after_begin(
            table,
            artifact,
            spec,
        ),
{
}

/// A request or an outcome for one artifact leaves every other artifact's
/// record as it was.
pub proof fn lemma_other_artifacts_untouched(
    table: Map<ArtifactIdView, DeploymentRecord>,
    artifact: ArtifactIdView,
    other: ArtifactIdView,
    spec: Seq<u8>,
    outcome: Result<(), ExecutionErrorView>,
)
    requires
        other != artifact,
    ensures
        status_of(after_begin(table, artifact, spec), other) == status_of(table, other),
        status_of(after_complete(table, artifact, outcome), other) == status_of(table, other),
{
}

/// An outcome moves a pending deployment to `Active` or `Failed` and nothing
/// else: an ended deployment keeps its status whatever is reported later,
/// and an artifact never asked for stays unknown.
pub proof fn lemma_complete_only_ends_pending(
    table: Map<ArtifactIdView, DeploymentRecord>,
    artifact: ArtifactIdView,
    outcome: Result<(), ExecutionErrorView>,
)
    ensures
        status_of(table, artifact) == Some(DeploymentStatusView::Pending) ==> status_of(
            after_complete(table, artifact, outcome),
            artifact,
        ) == Some(status_for(outcome)),
        status_of(table, artifact) != Some(DeploymentStatusView::Pending) ==> after_complete(
            table,
            artifact,
            outcome,
        ) == table,
        !(status_for(outcome) is Pending),
{
}

} // verus!
