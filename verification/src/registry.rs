//! The registry: the list of pacts that is being served.
//!
//! A request works on a snapshot, a handle to the list as it was when the request came in.
//! A reload builds a new list and publishes it whole; the lists behind earlier snapshots stay
//! as they are.

use crate::loading::{errors_in, loaded_or_errors, pacts_in, Loaded, PactError};
use crate::model::Pact;
use crate::source::PactSource;
use std::sync::Arc;
use vstd::prelude::*;

verus! {

/// A pact with the source it was loaded from.
pub type Entry = (Pact, PactSource);

/// A handle to a list of pacts that does not change.
pub type Snapshot = Arc<Vec<Entry>>;

/// Calls `Arc::clone`, which gives another handle to the same value.
#[verifier::external_body]
fn share(handle: &Snapshot) -> (other: Snapshot)
    ensures
        other@ == handle@,
{
    Arc::clone(handle)
}

/// The list of pacts that is being served.
pub struct Registry {
    current: Snapshot,
}

impl View for Registry {
    type V = Seq<Entry>;

    closed spec fn view(&self) -> Seq<Entry> {
        self.current@
    }
}

impl Registry {
    /// What a snapshot of the registry holds: the list that is being served.
    pub open spec fn snapshot_of(self) -> Seq<Entry> {
        self@
    }

    /// What the registry serves once a list has been published: that list, whole.
    pub open spec fn after_publish(self, list: Seq<Entry>) -> Seq<Entry> {
        list
    }

    /// A registry that serves the list.
    pub fn new(entries: Vec<Entry>) -> (registry: Registry)
        ensures
            registry@ == entries@,
    {
        Registry { current: Arc::new(entries) }
    }

    /// A handle to the list that is being served now.
    pub fn snapshot(&self) -> (snapshot: Snapshot)
        ensures
            snapshot@ == self.snapshot_of(),
    {
        share(&self.current)
    }

    /// Serves another list from now on.
    pub fn publish(&mut self, new_list: Snapshot)
        ensures
            final(self)@ == old(self).after_publish(new_list@),
    {
        self.current = new_list;
    }

    /// Takes in what a reload found. Where every document loaded, the pacts found are served
    /// from now on, and their number is handed back. Where one failed, the list stays as it is
    /// and the errors are handed back.
    pub fn reload(&mut self, loaded: Vec<Loaded>) -> (outcome: Result<usize, Vec<PactError>>)
        ensures
            match outcome {
                Ok(count) => errors_in(loaded@).len() == 0 && final(self)@ == pacts_in(loaded@)
                    && count == pacts_in(loaded@).len(),
                Err(errors) => errors.deep_view().len() > 0 && errors.deep_view() == errors_in(
                    loaded@,
                ) && final(self)@ == old(self)@,
            },
    {
        match loaded_or_errors(loaded) {
            Ok(pacts) => {
                let count = pacts.len();
                self.publish(Arc::new(pacts));
                Ok(count)
            },
            Err(errors) => Err(errors),
        }
    }
}

/// The number of interactions in a list of pacts.
pub open spec fn interaction_count(entries: Seq<Entry>) -> nat
    decreases entries.len(),
{
    if entries.len() == 0 {
        0
    } else {
        interaction_count(entries.drop_last()) + entries.last().0.interactions@.len()
    }
}

/// Counts the interactions in a list of pacts, for the log. `None` where the number does not
/// fit the machine word.
pub fn count_interactions(entries: &Vec<Entry>) -> (count: Option<usize>)
    ensures
        match count {
            Some(count) => count == interaction_count(entries@),
            None => interaction_count(entries@) > usize::MAX,
        },
{
    let mut count: usize = 0;
    for i in 0..entries.len()
        invariant
            count == interaction_count(entries@.take(i as int)),
    {
        assert(entries@.take(i + 1).drop_last() =~= entries@.take(i as int));
        let more = entries[i].0.interactions.len();
        if more > usize::MAX - count {
            proof {
                lemma_count_grows(entries@, i + 1);
            }
            return None;
        }
        count = count + more;
    }
    assert(entries@.take(entries@.len() as int) =~= entries@);
    Some(count)
}

/// The pacts of a list hold at least as many interactions as the first few of them.
pub proof fn lemma_count_grows(entries: Seq<Entry>, n: int)
    requires
        0 <= n <= entries.len(),
    ensures
        interaction_count(entries.take(n)) <= interaction_count(entries),
    decreases entries.len() - n,
{
    if n == entries.len() {
        assert(entries.take(n) =~= entries);
    } else {
        assert(entries.take(n + 1).drop_last() =~= entries.take(n));
        lemma_count_grows(entries, n + 1);
    }
}

/// Publishing the snapshot of a registry changes nothing: the registry serves the list that
/// it served before.
pub proof fn lemma_publishing_the_snapshot_changes_nothing(registry: Registry)
    ensures
        registry.after_publish(registry.snapshot_of()) == registry@,
{
}

/// What a watcher reports of the files it watches, once things have been quiet for a while.
#[derive(Clone, Copy, Debug, PartialEq, Eq)]
pub enum ChangeKind {
    /// Something changed, and the changes have stopped.
    Any,
    /// Something keeps changing.
    AnyContinuous,
}

/// How long the files have to be quiet before a change is reported, in seconds.
pub const QUIET_SECONDS: u64 = 1;

/// Whether a batch of reports calls for a reload: one of them says that changes have stopped.
pub fn should_reload(changes: &Vec<ChangeKind>) -> (reload: bool)
    ensures
        reload == exists|i: int| 0 <= i < changes@.len() && changes@[i] == ChangeKind::Any,
{
    for i in 0..changes.len()
        invariant
            forall|j: int| 0 <= j < i ==> changes@[j] != ChangeKind::Any,
    {
        match changes[i] {
            ChangeKind::Any => {
                return true;
            },
            ChangeKind::AnyContinuous => {},
        }
    }
    false
}

} // verus!
