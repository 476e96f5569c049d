use vstd::prelude::*;

use crate::repository::same_id;
use crate::{ActionId, NULL_ACTION_ID};

verus! {

/// The best observation recorded for one root action: at which depth, with which score.
#[derive(Clone, Copy, Debug)]
pub struct ScoreEntry {
    pub root_action_id: ActionId,
    pub depth: i32,
    pub score: i128,
}

/// No root action has two entries.
pub open spec fn unique_roots(b: Seq<ScoreEntry>) -> bool {
    forall|i: int, j: int|
        0 <= i < j < b.len() ==> #[trigger] b[i].root_action_id != #[trigger] b[j].root_action_id
}

/// Whether `b` has an entry for `root`.
pub open spec fn has_root(b: Seq<ScoreEntry>, root: ActionId) -> bool {
    exists|i: int| 0 <= i < b.len() && #[trigger] b[i].root_action_id == root
}

/// The position of the entry for `root`, when there is one.
pub open spec fn root_index(b: Seq<ScoreEntry>, root: ActionId) -> int {
    choose|i: int| 0 <= i < b.len() && #[trigger] b[i].root_action_id == root
}

/// A new observation replaces a recorded one when it is shallower or scores strictly higher.
pub open spec fn improves(e: ScoreEntry, depth: int, score: int) -> bool {
    depth < e.depth || score > e.score
}

/// The scoreboard after observing `score` at `depth` under `root`: a new
/// entry at the end for a new root, the entry replaced in place when the
/// observation improves on it, and the scoreboard unchanged otherwise.
pub open spec fn spec_record(b: Seq<ScoreEntry>, root: ActionId, depth: i32, score: i128) -> Seq<
    ScoreEntry,
> {
    let e = ScoreEntry { root_action_id: root, depth, score };
    if has_root(b, root) {
        let i = root_index(b, root);
        if improves(b[i], depth as int, score as int) {
            b.update(i, e)
        } else {
            b
        }
    } else {
        b.push(e)
    }
}

/// Entry `k` has the highest score, and every earlier entry scores strictly less.
pub open spec fn is_first_best(b: Seq<ScoreEntry>, k: int) -> bool {
    &&& 0 <= k < b.len()
    &&& forall|j: int| 0 <= j < b.len() ==> #[trigger] b[j].score <= b[k].score
    &&& forall|j: int| 0 <= j < k ==> #[trigger] b[j].score < b[k].score
}

/// Per root action, the best observation seen during one search, in the
/// order in which root actions were first seen.
pub struct Scoreboard {
    entries: Vec<ScoreEntry>,
}

impl View for Scoreboard {
    type V = Seq<ScoreEntry>;

    closed spec fn view(&self) -> Seq<ScoreEntry> {
        self.entries@
    }
}

impl Scoreboard {
    /// An empty scoreboard.
    pub fn new() -> (r: Scoreboard)
        ensures
            r@ == Seq::<ScoreEntry>::empty(),
    {
        Scoreboard { entries: Vec::new() }
    }

    /// The entries, in the order in which their root actions were first seen.
    pub fn entries(&self) -> (r: &Vec<ScoreEntry>)
        ensures
            r@ == self@,
    {
        &self.entries
    }

    /// Records that a state under `root_action_id` at `depth` scored `score`.
    pub fn record(&mut self, root_action_id: ActionId, depth: i32, score: i128)
        requires
            unique_roots(old(self)@),
        ensures
            unique_roots(final(self)@),
            final(self)@ == spec_record(old(self)@, root_action_id, depth, score),
    {
        let ghost b = self.entries@;
        let mut i: usize = 0;
        while i < self.entries.len()
            invariant
                self.entries@ == b,
                b == old(self)@,
                unique_roots(b),
                i <= b.len(),
                forall|j: int| 0 <= j < i ==> b[j].root_action_id != root_action_id,
            decreases b.len() - i,
        {
            if same_id(&self.entries[i].root_action_id, &root_action_id) {
                assert(has_root(b, root_action_id));
                assert(root_index(b, root_action_id) == i);
                let e = self.entries[i];
                assert(e == b[i as int]);
                if depth < e.depth || score > e.score {
                    self.entries.set(i, ScoreEntry { root_action_id, depth, score });
                    assert(self.entries@ == b.update(i as int, ScoreEntry { root_action_id, depth, score }));
                } else {
                    assert(!improves(b[i as int], depth as int, score as int));
                }
                return;
            }
            i = i + 1;
        }
        assert(!has_root(b, root_action_id));
        self.entries.push(ScoreEntry { root_action_id, depth, score });
    }

    /// The root action with the highest recorded score, the first one seen
    /// among equals; the null action when nothing was recorded.
    pub fn best_action(&self) -> (r: ActionId)
        ensures
            self@.len() == 0 ==> r == NULL_ACTION_ID,
            self@.len() > 0 ==> exists|k: int| is_first_best(self@, k) && r == self@[k].root_action_id,
    {
        if self.entries.len() == 0 {
            return NULL_ACTION_ID;
        }
        let mut best: usize = 0;
        let mut i: usize = 1;
        while i < self.entries.len()
            invariant
                1 <= i <= self@.len(),
                best < i,
                forall|j: int| 0 <= j < i ==> #[trigger] self@[j].score <= self@[best as int].score,
                forall|j: int| 0 <= j < best ==> #[trigger] self@[j].score < self@[best as int].score,
            decreases self@.len() - i,
        {
            if self.entries[i].score > self.entries[best].score {
                best = i;
            }
            i = i + 1;
        }
        assert(is_first_best(self@, best as int));
        self.entries[best].root_action_id
    }
}

/// Recording an observation never leaves a root action with a strictly lower
/// score at an equal or greater depth than it had: every root action keeps
/// its place, and its entry either stays, becomes shallower, or scores higher.
pub proof fn lemma_record_never_regresses(
    b: Seq<ScoreEntry>,
    root: ActionId,
    depth: i32,
    score: i128,
)
    requires
        unique_roots(b),
    ensures
        ({
            let n = spec_record(b, root, depth, score);
            &&& n.len() >= b.len()
            &&& forall|i: int|
                0 <= i < b.len() ==> {
                    &&& #[trigger] n[i].root_action_id == b[i].root_action_id
                    &&& !(n[i].score < b[i].score && n[i].depth >= b[i].depth)
                    &&& (n[i].depth < b[i].depth || n[i].score > b[i].score || n[i] == b[i])
                }
        }),
{
    if has_root(b, root) {
        let i = root_index(b, root);
        assert(b[i].root_action_id == root);
    }
}

} // verus!
