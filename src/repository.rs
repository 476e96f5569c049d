use vstd::prelude::*;

use crate::models::{Action, ActionModel, LearntSpell, Order, Rest, UnlearntSpell};
use crate::{ActionId, REST_ID};

verus! {

/// Whether two identifiers are the same.
pub fn same_id(a: &ActionId, b: &ActionId) -> (r: bool)
    ensures
        r == (*a == *b),
{
    a.0 == b.0 && a.1 == b.1
}

/// The list `v` with `id` added at the end, unless it is already there.
pub open spec fn listed_with(v: Seq<ActionId>, id: ActionId) -> Seq<ActionId> {
    if v.contains(id) {
        v
    } else {
        v.push(id)
    }
}

/// The list `v` with `id` taken out, the others keeping their order.
pub open spec fn listed_without(v: Seq<ActionId>, id: ActionId) -> Seq<ActionId> {
    if v.contains(id) {
        v.remove(v.index_of(id))
    } else {
        v
    }
}

/// The mathematical model of a repository: the action stored under each
/// identifier, the identifiers in the order they were first added, and the
/// identifiers of the orders and of the learnt spells, each in the order
/// they became of that kind.
pub ghost struct RepoModel {
    pub actions: Map<ActionId, ActionModel>,
    pub ids: Seq<ActionId>,
    pub orders: Seq<ActionId>,
    pub learnt_spells: Seq<ActionId>,
}

/// The repository with nothing stored.
pub open spec fn empty_model() -> RepoModel {
    RepoModel {
        actions: Map::empty(),
        ids: Seq::empty(),
        orders: Seq::empty(),
        learnt_spells: Seq::empty(),
    }
}

/// The repository `r` after storing `a` under `id`, replacing what was stored there.
pub open spec fn put_model(r: RepoModel, id: ActionId, a: ActionModel) -> RepoModel {
    RepoModel {
        actions: r.actions.insert(id, a),
        ids: if r.actions.contains_key(id) {
            r.ids
        } else {
            r.ids.push(id)
        },
        orders: if a is Brew {
            listed_with(r.orders, id)
        } else {
            listed_without(r.orders, id)
        },
        learnt_spells: if a is Cast {
            listed_with(r.learnt_spells, id)
        } else {
            listed_without(r.learnt_spells, id)
        },
    }
}

/// Whether the list `v` holds `id`.
spec fn lists(v: Seq<ActionId>, id: ActionId) -> bool {
    v.contains(id)
}

/// Removes `id` from a list without repeats, keeping the order of the rest.
fn remove_id(v: &mut Vec<ActionId>, id: ActionId)
    requires
        old(v)@.no_duplicates(),
    ensures
        final(v)@.no_duplicates(),
        forall|x: ActionId| final(v)@.contains(x) <==> (old(v)@.contains(x) && x != id),
        final(v)@ == listed_without(old(v)@, id),
{
    let mut i: usize = 0;
    while i < v.len()
        invariant
            v@ == old(v)@,
            v@.no_duplicates(),
            i <= v@.len(),
            forall|j: int| 0 <= j < i ==> v@[j] != id,
        decreases v@.len() - i,
    {
        if same_id(&v[i], &id) {
            let ghost before = v@;
            proof {
                let j = before.index_of(id);
                assert(before.contains(id));
                assert(before[j] == id);
                assert(j == i);
            }
            v.remove(i);
            assert forall|x: ActionId| v@.contains(x) <==> (before.contains(x) && x != id) by {
                if v@.contains(x) {
                    let k = choose|k: int| 0 <= k < v@.len() && v@[k] == x;
                    if k < i {
                        assert(before[k] == x);
                    } else {
                        assert(before[k + 1] == x);
                    }
                    assert(x != id);
                }
                if before.contains(x) && x != id {
                    let k = choose|k: int| 0 <= k < before.len() && before[k] == x;
                    if k < i {
                        assert(v@[k] == x);
                    } else {
                        assert(k != i);
                        assert(v@[k - 1] == x);
                    }
                }
            }
            return;
        }
        i = i + 1;
    }
    assert(!v@.contains(id));
}

/// Adds `id` at the end of a list without repeats, unless it is already there.
fn push_id(v: &mut Vec<ActionId>, id: ActionId)
    requires
        old(v)@.no_duplicates(),
    ensures
        final(v)@.no_duplicates(),
        final(v)@ == listed_with(old(v)@, id),
        forall|x: ActionId| final(v)@.contains(x) <==> (old(v)@.contains(x) || x == id),
{
    let mut i: usize = 0;
    while i < v.len()
        invariant
            v@ == old(v)@,
            v@.no_duplicates(),
            i <= v@.len(),
            forall|j: int| 0 <= j < i ==> v@[j] != id,
        decreases v@.len() - i,
    {
        if same_id(&v[i], &id) {
            return;
        }
        i = i + 1;
    }
    assert(!v@.contains(id));
    let ghost before = v@;
    v.push(id);
    assert forall|x: ActionId| v@.contains(x) <==> (before.contains(x) || x == id) by {
        if before.contains(x) {
            let k = choose|k: int| 0 <= k < before.len() && before[k] == x;
            assert(v@[k] == x);
        }
        if x == id {
            assert(v@[before.len() as int] == x);
        }
        if v@.contains(x) && x != id {
            let k = choose|k: int| 0 <= k < v@.len() && v@[k] == x;
            assert(before[k] == x);
        }
    }
}

/// The actions available in one turn, keyed by identifier, with the
/// identifiers of the orders and of the learnt spells listed apart.
pub struct ActionsRepository {
    actions: Vec<(ActionId, Action)>,
    orders: Vec<ActionId>,
    learnt_spells: Vec<ActionId>,
    model: Ghost<Map<ActionId, ActionModel>>,
}

impl View for ActionsRepository {
    type V = Map<ActionId, ActionModel>;

    closed spec fn view(&self) -> Map<ActionId, ActionModel> {
        self.model@
    }
}

impl ActionsRepository {
    /// The entries, the model and the two lists agree: identifiers are
    /// unique, and each list holds exactly the identifiers of its kind.
    pub closed spec fn wf(&self) -> bool {
        let a = self.actions@;
        let m = self.model@;
        &&& forall|i: int, j: int| 0 <= i < j < a.len() ==> a[i].0 != a[j].0
        &&& forall|i: int|
            0 <= i < a.len() ==> m.contains_key(#[trigger] a[i].0) && m[a[i].0] == a[i].1@
        &&& forall|id: ActionId| m.contains_key(id) ==> exists|i: int| 0 <= i < a.len() && a[i].0 == id
        &&& self.orders@.no_duplicates()
        &&& forall|id: ActionId| lists(self.orders@, id) <==> (m.contains_key(id) && m[id] is Brew)
        &&& self.learnt_spells@.no_duplicates()
        &&& forall|id: ActionId| lists(self.learnt_spells@, id) <==> (m.contains_key(id) && m[id] is Cast)
    }

    /// The model of the repository.
    pub open spec fn spec_model(&self) -> RepoModel {
        RepoModel {
            actions: self@,
            ids: self.spec_ids(),
            orders: self.spec_order_ids(),
            learnt_spells: self.spec_learnt_spell_ids(),
        }
    }

    /// What a well-formed repository guarantees: each identifier is listed
    /// once, exactly the stored ones, and the order and learnt-spell lists
    /// hold exactly the identifiers of the orders and of the learnt spells.
    pub proof fn lemma_wf(&self)
        requires
            self.wf(),
        ensures
            self.spec_ids().no_duplicates(),
            forall|id: ActionId| #[trigger] self.spec_ids().contains(id) <==> self@.contains_key(id),
            self.spec_order_ids().no_duplicates(),
            forall|id: ActionId|
                #[trigger] self.spec_order_ids().contains(id) <==> (self@.contains_key(id)
                    && self@[id] is Brew),
            self.spec_learnt_spell_ids().no_duplicates(),
            forall|id: ActionId|
                #[trigger] self.spec_learnt_spell_ids().contains(id) <==> (self@.contains_key(id)
                    && self@[id] is Cast),
    {
        let ids = self.spec_ids();
        let a = self.actions@;
        assert forall|id: ActionId| ids.contains(id) <==> self@.contains_key(id) by {
            if ids.contains(id) {
                let k = choose|k: int| 0 <= k < ids.len() && ids[k] == id;
                assert(a[k].0 == id);
            }
            if self@.contains_key(id) {
                let k = choose|k: int| 0 <= k < a.len() && a[k].0 == id;
                assert(ids[k] == id);
            }
        }
        assert forall|i: int, j: int| 0 <= i < ids.len() && 0 <= j < ids.len() && i != j implies ids[i]
            != ids[j] by {
            if i < j {
                assert(a[i].0 != a[j].0);
            } else {
                assert(a[j].0 != a[i].0);
            }
        }
        assert forall|id: ActionId|
            #[trigger] self.spec_order_ids().contains(id) <==> (self@.contains_key(id) && self@[id] is Brew) by {
            assert(lists(self.orders@, id) <==> (self@.contains_key(id) && self@[id] is Brew));
        }
        assert forall|id: ActionId|
            #[trigger] self.spec_learnt_spell_ids().contains(id) <==> (self@.contains_key(id)
                && self@[id] is Cast) by {
            assert(lists(self.learnt_spells@, id) <==> (self@.contains_key(id) && self@[id] is Cast));
        }
    }

    /// Identifiers of all actions, in the order they were first added.
    pub closed spec fn spec_ids(&self) -> Seq<ActionId> {
        self.actions@.map_values(|e: (ActionId, Action)| e.0)
    }

    /// Identifiers of the orders, in the order they were first added as orders.
    pub closed spec fn spec_order_ids(&self) -> Seq<ActionId> {
        self.orders@
    }

    /// Identifiers of the learnt spells, in the order they were first added as such.
    pub closed spec fn spec_learnt_spell_ids(&self) -> Seq<ActionId> {
        self.learnt_spells@
    }

    /// An empty repository.
    pub fn new() -> (r: ActionsRepository)
        ensures
            r.wf(),
            r.spec_model() == empty_model(),
    {
        let r = ActionsRepository {
            actions: Vec::new(),
            orders: Vec::new(),
            learnt_spells: Vec::new(),
            model: Ghost(Map::empty()),
        };
        assert(r.spec_ids() =~= Seq::<ActionId>::empty());
        assert(r@ =~= Map::<ActionId, ActionModel>::empty());
        r
    }

    /// The position of `id` among the entries, if it is there.
    fn find_index(&self, id: &ActionId) -> (r: Option<usize>)
        requires
            self.wf(),
        ensures
            match r {
                Some(i) => i < self.actions@.len() && self.actions@[i as int].0 == *id,
                None => forall|j: int| 0 <= j < self.actions@.len() ==> self.actions@[j].0 != *id,
            },
            r.is_some() == self@.contains_key(*id),
    {
        let mut i: usize = 0;
        while i < self.actions.len()
            invariant
                self.wf(),
                i <= self.actions@.len(),
                forall|j: int| 0 <= j < i ==> self.actions@[j].0 != *id,
            decreases self.actions@.len() - i,
        {
            if same_id(&self.actions[i].0, id) {
                assert(self.model@.contains_key(self.actions@[i as int].0));
                return Some(i);
            }
            i = i + 1;
        }
        None
    }

    /// Stores `action` under `id`, replacing what was stored there before.
    fn put(&mut self, id: ActionId, action: Action)
        requires
            old(self).wf(),
        ensures
            final(self).wf(),
            final(self).spec_model() == put_model(old(self).spec_model(), id, action@),
    {
        let ghost old_ids = self.spec_ids();
        let ghost a0 = self.actions@;
        let ghost m0 = self.model@;
        let ghost o0 = self.orders@;
        let ghost l0 = self.learnt_spells@;
        match self.find_index(&id) {
            Some(i) => {
                self.actions.set(i, (id, action));
                assert(self.spec_ids() =~= old_ids);
                assert(m0.contains_key(id));
            },
            None => {
                self.actions.push((id, action));
                assert(self.spec_ids() =~= old_ids.push(id));
                assert(!m0.contains_key(id));
            },
        }
        self.model = Ghost(self.model@.insert(id, action@));
        if action.is_brew() {
            push_id(&mut self.orders, id);
        } else {
            remove_id(&mut self.orders, id);
        }
        if action.is_cast() {
            push_id(&mut self.learnt_spells, id);
        } else {
            remove_id(&mut self.learnt_spells, id);
        }
        proof {
            let a = self.actions@;
            let m = self.model@;
            assert forall|i: int| 0 <= i < a.len() implies m.contains_key(#[trigger] a[i].0) && m[a[i].0]
                == a[i].1@ by {
                if i < a0.len() && a0[i].0 != id {
                    assert(a[i] == a0[i]);
                }
            }
            assert forall|x: ActionId| m.contains_key(x) implies exists|i: int|
                0 <= i < a.len() && a[i].0 == x by {
                if x == id {
                    if m0.contains_key(id) {
                        let k = choose|k: int| 0 <= k < a0.len() && a0[k].0 == id;
                        assert(a[k].0 == x);
                    } else {
                        assert(a[a0.len() as int].0 == x);
                    }
                } else {
                    let k = choose|k: int| 0 <= k < a0.len() && a0[k].0 == x;
                    assert(a[k].0 == x);
                }
            }
            assert forall|x: ActionId| lists(self.orders@, x) <==> (m.contains_key(x) && m[x] is Brew) by {
                if x != id {
                    assert(lists(o0, x) <==> (m0.contains_key(x) && m0[x] is Brew));
                }
            }
            assert forall|x: ActionId|
                lists(self.learnt_spells@, x) <==> (m.contains_key(x) && m[x] is Cast) by {
                if x != id {
                    assert(lists(l0, x) <==> (m0.contains_key(x) && m0[x] is Cast));
                }
            }
            assert forall|i: int, j: int| 0 <= i < j < a.len() implies a[i].0 != a[j].0 by {
                if j < a0.len() {
                    assert(a[i].0 == a0[i].0);
                    assert(a[j].0 == a0[j].0);
                }
            }
        }
    }
    /// Adds an order under `id`, replacing what was stored there.
    pub fn add_order(&mut self, id: ActionId, order: Order)
        requires
            old(self).wf(),
        ensures
            final(self).wf(),
            final(self).spec_model() == put_model(old(self).spec_model(), id, ActionModel::Brew(order@)),
    {
        self.put(id, Action::Brew(order));
    }

    /// Adds a spell already known under `id`, replacing what was stored there.
    pub fn add_learnt_spell(&mut self, id: ActionId, spell: LearntSpell)
        requires
            old(self).wf(),
        ensures
            final(self).wf(),
            final(self).spec_model() == put_model(old(self).spec_model(), id, ActionModel::Cast(spell@)),
    {
        self.put(id, Action::Cast(spell));
    }

    /// Adds a spell that can be unlocked under `id`, replacing what was stored there.
    pub fn add_unlearnt_spell(&mut self, id: ActionId, spell: UnlearntSpell)
        requires
            old(self).wf(),
        ensures
            final(self).wf(),
            final(self).spec_model() == put_model(old(self).spec_model(), id, ActionModel::Learn(spell@)),
    {
        self.put(id, Action::Learn(spell));
    }

    /// Adds the action that rests, under its reserved identifier.
    pub fn add_rest(&mut self)
        requires
            old(self).wf(),
        ensures
            final(self).wf(),
            final(self).spec_model() == put_model(old(self).spec_model(), REST_ID, ActionModel::Rest),
    {
        self.put(REST_ID, Action::Rest(Rest::new()));
    }

    /// The action stored under `id`, if any.
    pub fn get_action(&self, id: &ActionId) -> (r: Option<&Action>)
        requires
            self.wf(),
        ensures
            r.is_some() == self@.contains_key(*id),
            r.is_some() ==> r.unwrap()@ == self@[*id],
    {
        match self.find_index(id) {
            Some(i) => Some(&self.actions[i].1),
            None => None,
        }
    }

    /// The number of actions stored.
    pub fn action_count(&self) -> (r: usize)
        ensures
            r == self.spec_ids().len(),
    {
        self.actions.len()
    }

    /// The identifiers of all actions, in the order they were first added.
    pub fn get_action_ids(&self) -> (r: Vec<&ActionId>)
        requires
            self.wf(),
        ensures
            r@.len() == self.spec_ids().len(),
            forall|i: int| 0 <= i < r@.len() ==> *r@[i] == self.spec_ids()[i],
            self.spec_ids().no_duplicates(),
            forall|id: ActionId| #[trigger] self.spec_ids().contains(id) <==> self@.contains_key(id),
    {
        proof {
            self.lemma_wf();
        }
        let mut r: Vec<&ActionId> = Vec::new();
        let mut i: usize = 0;
        while i < self.actions.len()
            invariant
                i <= self.actions@.len(),
                r@.len() == i,
                forall|j: int| 0 <= j < i ==> *r@[j] == self.spec_ids()[j],
            decreases self.actions@.len() - i,
        {
            r.push(&self.actions[i].0);
            i = i + 1;
        }
        r
    }

    /// The identifiers of the orders.
    pub fn get_order_ids(&self) -> (r: &Vec<ActionId>)
        requires
            self.wf(),
        ensures
            r@ == self.spec_order_ids(),
            r@.no_duplicates(),
            forall|id: ActionId| #[trigger] r@.contains(id) <==> (self@.contains_key(id) && self@[id] is Brew),
    {
        proof {
            self.lemma_wf();
        }
        &self.orders
    }

    /// The identifiers of the learnt spells.
    pub fn get_learnt_spell_ids(&self) -> (r: &Vec<ActionId>)
        requires
            self.wf(),
        ensures
            r@ == self.spec_learnt_spell_ids(),
            r@.no_duplicates(),
            forall|id: ActionId| #[trigger] r@.contains(id) <==> (self@.contains_key(id) && self@[id] is Cast),
    {
        proof {
            self.lemma_wf();
        }
        &self.learnt_spells
    }
}

} // verus!
