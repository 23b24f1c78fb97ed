use vstd::prelude::*;
use crate::schema::{ActionHash, AgentPubKey, AnyLinkableHash, EntryTypes, LinkTypes, Timestamp};

verus! {

/// Most actions that one store holds.
pub const MAX_ACTIONS: usize = 0x7FFF_FFFF;

/// What an action does; every action is immutable once stored.
#[derive(Clone, Debug, PartialEq, Eq)]
pub enum Action {
    /// The package an agent presents before it joins.
    AgentValidationPkg,
    /// An agent joins; `prev_action` must be its validation package.
    CreateAgent { agent: AgentPubKey, prev_action: ActionHash },
    Create { entry: EntryTypes },
    /// A successor of `original_action_address`.
    Update { original_action_address: ActionHash, entry: EntryTypes },
    /// A tombstone of `deletes_address`.
    Delete { deletes_address: ActionHash },
    CreateLink { base_address: AnyLinkableHash, target_address: ActionHash, link_type: LinkTypes },
    /// Removal of the edge that `link_add_address` created.
    DeleteLink { link_add_address: ActionHash },
}

/// An action with its author and the author's clock.
#[derive(Clone, Debug, PartialEq, Eq)]
pub struct SignedAction {
    pub author: AgentPubKey,
    pub timestamp: Timestamp,
    pub action: Action,
}

/// An entry-bearing action as a caller sees it.
#[derive(Clone, Debug, PartialEq, Eq)]
pub struct Record {
    pub action_hash: ActionHash,
    pub author: AgentPubKey,
    pub timestamp: Timestamp,
    pub entry: EntryTypes,
}

/// A live edge of the link index.
#[derive(Clone, Copy, Debug, PartialEq, Eq, Structural)]
pub struct Link {
    pub base_address: AnyLinkableHash,
    pub target_address: ActionHash,
    pub link_type: LinkTypes,
    pub author: AgentPubKey,
    pub timestamp: Timestamp,
    pub create_link_hash: ActionHash,
}

/// A successor of an action, with the time it was authored.
#[derive(Clone, Copy, Debug, PartialEq, Eq, Structural)]
pub struct UpdateRef {
    pub action_hash: ActionHash,
    pub timestamp: Timestamp,
}

/// The history of one entry-bearing action.
#[derive(Clone, Debug, PartialEq, Eq)]
pub struct RecordDetails {
    pub record: Record,
    pub updates: Vec<UpdateRef>,
    pub deletes: Vec<ActionHash>,
}

/// The append-only content store and link index: the action at position `i`
/// has the address `ActionHash(i)`.
pub struct Store {
    actions: Vec<SignedAction>,
}

/// Whether `h` names a stored action.
pub open spec fn exists_at(s: Seq<SignedAction>, h: ActionHash) -> bool {
    (h.0 as int) < s.len()
}

/// The entry that the action at `h` carries, if it exists and carries one.
pub open spec fn entry_at(s: Seq<SignedAction>, h: ActionHash) -> Option<EntryTypes> {
    if exists_at(s, h) {
        match s[h.0 as int].action {
            Action::Create { entry } => Some(entry),
            Action::Update { entry, .. } => Some(entry),
            _ => None,
        }
    } else {
        None
    }
}

pub open spec fn is_tombstone_of(a: SignedAction, h: ActionHash) -> bool {
    match a.action {
        Action::Delete { deletes_address } => deletes_address == h,
        _ => false,
    }
}

/// Whether a tombstone of `h` has been stored.
pub open spec fn is_deleted(s: Seq<SignedAction>, h: ActionHash) -> bool {
    exists|i: int| 0 <= i < s.len() && #[trigger] is_tombstone_of(s[i], h)
}

/// Whether a point lookup of `h` finds a record.
pub open spec fn is_live(s: Seq<SignedAction>, h: ActionHash) -> bool {
    entry_at(s, h) is Some && !is_deleted(s, h)
}

/// `r` is the record of the entry-bearing action at `h`.
pub open spec fn record_of(r: Record, s: Seq<SignedAction>, h: ActionHash) -> bool {
    &&& entry_at(s, h) is Some
    &&& r.action_hash == h
    &&& r.author == s[h.0 as int].author
    &&& r.timestamp == s[h.0 as int].timestamp
    &&& r.entry.same_as(&entry_at(s, h)->Some_0)
}

/// The tombstones of `h` among the first `n` actions, in store order.
pub open spec fn deletes_upto(s: Seq<SignedAction>, h: ActionHash, n: int) -> Seq<ActionHash>
    decreases n,
{
    if n <= 0 {
        Seq::empty()
    } else {
        let p = deletes_upto(s, h, n - 1);
        if is_tombstone_of(s[n - 1], h) {
            p.push(ActionHash((n - 1) as u64))
        } else {
            p
        }
    }
}

pub open spec fn is_update_of(a: SignedAction, h: ActionHash) -> bool {
    match a.action {
        Action::Update { original_action_address, .. } => original_action_address == h,
        _ => false,
    }
}

/// The successors of `h` among the first `n` actions, in store order.
pub open spec fn updates_upto(s: Seq<SignedAction>, h: ActionHash, n: int) -> Seq<UpdateRef>
    decreases n,
{
    if n <= 0 {
        Seq::empty()
    } else {
        let p = updates_upto(s, h, n - 1);
        if is_update_of(s[n - 1], h) {
            p.push(UpdateRef { action_hash: ActionHash((n - 1) as u64), timestamp: s[n - 1].timestamp })
        } else {
            p
        }
    }
}

pub open spec fn updates_of(s: Seq<SignedAction>, h: ActionHash) -> Seq<UpdateRef> {
    updates_upto(s, h, s.len() as int)
}

pub open spec fn is_link_removal_of(a: SignedAction, i: int) -> bool {
    match a.action {
        Action::DeleteLink { link_add_address } => link_add_address.0 as int == i,
        _ => false,
    }
}

/// Whether the edge created at position `i` has been removed.
pub open spec fn link_removed(s: Seq<SignedAction>, i: int) -> bool {
    exists|j: int| 0 <= j < s.len() && #[trigger] is_link_removal_of(s[j], i)
}

/// The edge that the action at `i` creates, whether or not it was removed.
pub open spec fn link_at(s: Seq<SignedAction>, i: int) -> Option<Link> {
    match s[i].action {
        Action::CreateLink { base_address, target_address, link_type } => Some(Link {
            base_address,
            target_address,
            link_type,
            author: s[i].author,
            timestamp: s[i].timestamp,
            create_link_hash: ActionHash(i as u64),
        }),
        _ => None,
    }
}

pub open spec fn is_live_link(s: Seq<SignedAction>, i: int, base: AnyLinkableHash, t: LinkTypes) -> bool {
    &&& link_at(s, i) is Some
    &&& link_at(s, i)->Some_0.base_address == base
    &&& link_at(s, i)->Some_0.link_type == t
    &&& !link_removed(s, i)
}

/// The live edges of kind `t` from `base` among the first `n` actions, in store order.
pub open spec fn links_upto(s: Seq<SignedAction>, base: AnyLinkableHash, t: LinkTypes, n: int) -> Seq<Link>
    decreases n,
{
    if n <= 0 {
        Seq::empty()
    } else {
        let p = links_upto(s, base, t, n - 1);
        if is_live_link(s, n - 1, base, t) {
            p.push(link_at(s, n - 1)->Some_0)
        } else {
            p
        }
    }
}

/// All live edges of kind `t` from `base`, in store order.
pub open spec fn links_of(s: Seq<SignedAction>, base: AnyLinkableHash, t: LinkTypes) -> Seq<Link> {
    links_upto(s, base, t, s.len() as int)
}

/// Every address that an action refers to back was stored before it.
pub open spec fn refers_back(a: SignedAction, i: int) -> bool {
    match a.action {
        Action::CreateAgent { prev_action, .. } => (prev_action.0 as int) < i,
        Action::Update { original_action_address, .. } => (original_action_address.0 as int) < i,
        Action::Delete { deletes_address } => (deletes_address.0 as int) < i,
        Action::DeleteLink { link_add_address } => (link_add_address.0 as int) < i,
        Action::CreateLink { base_address, target_address, .. } => {
            &&& (target_address.0 as int) < i
            &&& match base_address {
                AnyLinkableHash::Action(b) => (b.0 as int) < i,
                _ => true,
            }
        },
        _ => true,
    }
}

pub open spec fn store_wf(s: Seq<SignedAction>) -> bool {
    &&& s.len() <= MAX_ACTIONS
    &&& forall|i: int| 0 <= i < s.len() ==> #[trigger] refers_back(s[i], i)
}

/// A tombstone of `h` stands among the first `n` actions exactly when the
/// listed tombstones are not empty.
pub proof fn lemma_deletes_upto(s: Seq<SignedAction>, h: ActionHash, n: int)
    requires
        0 <= n <= s.len(),
    ensures
        (deletes_upto(s, h, n).len() > 0) == (exists|i: int| 0 <= i < n && #[trigger] is_tombstone_of(s[i], h)),
    decreases n,
{
    if n > 0 {
        lemma_deletes_upto(s, h, n - 1);
        if is_tombstone_of(s[n - 1], h) {
        } else {
            assert forall|i: int| 0 <= i < n && #[trigger] is_tombstone_of(s[i], h) implies i < n - 1 by {}
        }
    }
}

impl View for Store {
    type V = Seq<SignedAction>;

    closed spec fn view(&self) -> Seq<SignedAction> {
        self.actions@
    }
}

impl Store {
    pub open spec fn wf(&self) -> bool {
        store_wf(self@)
    }

    pub fn new() -> (r: Store)
        ensures
            r.wf(),
            r@ == Seq::<SignedAction>::empty(),
    {
        Store { actions: Vec::new() }
    }

    pub fn len(&self) -> (r: usize)
        ensures
            r == self@.len(),
    {
        self.actions.len()
    }

    /// Whether `n` more actions fit.
    pub fn has_room_for(&self, n: usize) -> (r: bool)
        requires
            self.wf(),
        ensures
            r == (self@.len() + n <= MAX_ACTIONS),
    {
        n <= MAX_ACTIONS - self.actions.len()
    }

    /// The action stored at `h`, valid or not deleted alike.
    pub fn action(&self, h: ActionHash) -> (r: Option<&SignedAction>)
        ensures
            r is Some == exists_at(self@, h),
            r is Some ==> *r->Some_0 == self@[h.0 as int],
    {
        if h.0 < self.actions.len() as u64 {
            Some(&self.actions[h.0 as usize])
        } else {
            None
        }
    }

    /// The entry that the action at `h` carries.
    pub fn entry(&self, h: ActionHash) -> (r: Option<&EntryTypes>)
        ensures
            r is Some == entry_at(self@, h) is Some,
            r is Some ==> *r->Some_0 == entry_at(self@, h)->Some_0,
    {
        match self.action(h) {
            Some(a) => match &a.action {
                Action::Create { entry } => Some(entry),
                Action::Update { entry, .. } => Some(entry),
                _ => None,
            },
            None => None,
        }
    }

    pub fn deleted(&self, h: ActionHash) -> (r: bool)
        ensures
            r == is_deleted(self@, h),
    {
        let mut i: usize = 0;
        while i < self.actions.len()
            invariant
                i <= self.actions.len(),
                forall|j: int| 0 <= j < i ==> !#[trigger] is_tombstone_of(self@[j], h),
            decreases self.actions.len() - i,
        {
            match &self.actions[i].action {
                Action::Delete { deletes_address } => {
                    if *deletes_address == h {
                        assert(is_tombstone_of(self@[i as int], h));
                        return true;
                    }
                },
                _ => {},
            }
            i = i + 1;
        }
        false
    }

    fn record_at(&self, h: ActionHash) -> (r: Option<Record>)
        ensures
            r is Some == (entry_at(self@, h) is Some),
            r is Some ==> record_of(r->Some_0, self@, h),
    {
        match self.action(h) {
            Some(a) => match &a.action {
                Action::Create { entry } => Some(
                    Record { action_hash: h, author: a.author, timestamp: a.timestamp, entry: entry.duplicate() },
                ),
                Action::Update { entry, .. } => Some(
                    Record { action_hash: h, author: a.author, timestamp: a.timestamp, entry: entry.duplicate() },
                ),
                _ => None,
            },
            None => None,
        }
    }

    /// Point lookup: the record at `h`, unless it is absent, carries no entry or
    /// has been deleted.
    pub fn get(&self, h: ActionHash) -> (r: Option<Record>)
        ensures
            r is Some == is_live(self@, h),
            r is Some ==> record_of(r->Some_0, self@, h),
    {
        if self.deleted(h) {
            None
        } else {
            self.record_at(h)
        }
    }

    /// The record at `h` with every successor and tombstone ever stored against it.
    pub fn get_details(&self, h: ActionHash) -> (r: Option<RecordDetails>)
        requires
            self.wf(),
        ensures
            r is Some == (entry_at(self@, h) is Some),
            r is Some ==> {
                &&& record_of(r->Some_0.record, self@, h)
                &&& r->Some_0.updates@ == updates_of(self@, h)
                &&& r->Some_0.deletes@ == deletes_upto(self@, h, self@.len() as int)
                &&& (r->Some_0.deletes@.len() > 0) == is_deleted(self@, h)
            },
    {
        let record = match self.record_at(h) {
            Some(r) => r,
            None => return None,
        };
        let mut updates: Vec<UpdateRef> = Vec::new();
        let mut deletes: Vec<ActionHash> = Vec::new();
        let mut i: usize = 0;
        while i < self.actions.len()
            invariant
                i <= self.actions.len(),
                self.actions.len() <= MAX_ACTIONS,
                updates@ == updates_upto(self@, h, i as int),
                deletes@ == deletes_upto(self@, h, i as int),
            decreases self.actions.len() - i,
        {
            let a = &self.actions[i];
            match &a.action {
                Action::Update { original_action_address, .. } => {
                    if *original_action_address == h {
                        updates.push(UpdateRef { action_hash: ActionHash(i as u64), timestamp: a.timestamp });
                    }
                },
                Action::Delete { deletes_address } => {
                    if *deletes_address == h {
                        deletes.push(ActionHash(i as u64));
                    }
                },
                _ => {},
            }
            i = i + 1;
        }
        proof {
            lemma_deletes_upto(self@, h, self@.len() as int);
        }
        Some(RecordDetails { record, updates, deletes })
    }

    /// Whether the edge created at position `i` has been removed.
    fn link_is_removed(&self, i: usize) -> (r: bool)
        ensures
            r == link_removed(self@, i as int),
    {
        let mut j: usize = 0;
        while j < self.actions.len()
            invariant
                j <= self.actions.len(),
                forall|k: int| 0 <= k < j ==> !#[trigger] is_link_removal_of(self@[k], i as int),
            decreases self.actions.len() - j,
        {
            match &self.actions[j].action {
                Action::DeleteLink { link_add_address } => {
                    if link_add_address.0 == i as u64 {
                        assert(is_link_removal_of(self@[j as int], i as int));
                        return true;
                    }
                },
                _ => {},
            }
            j = j + 1;
        }
        false
    }

    /// All live edges of kind `t` from `base`, in the order they were stored.
    pub fn get_links(&self, base: AnyLinkableHash, t: LinkTypes) -> (r: Vec<Link>)
        requires
            self.wf(),
        ensures
            r@ == links_of(self@, base, t),
    {
        let mut out: Vec<Link> = Vec::new();
        let mut i: usize = 0;
        while i < self.actions.len()
            invariant
                i <= self.actions.len(),
                self.actions.len() <= MAX_ACTIONS,
                out@ == links_upto(self@, base, t, i as int),
            decreases self.actions.len() - i,
        {
            let a = &self.actions[i];
            match &a.action {
                Action::CreateLink { base_address, target_address, link_type } => {
                    if *base_address == base && *link_type == t && !self.link_is_removed(i) {
                        out.push(Link {
                            base_address: *base_address,
                            target_address: *target_address,
                            link_type: *link_type,
                            author: a.author,
                            timestamp: a.timestamp,
                            create_link_hash: ActionHash(i as u64),
                        });
                    }
                },
                _ => {},
            }
            i = i + 1;
        }
        out
    }

    /// Whether every address that `a` refers back to is already stored.
    pub fn references_exist(&self, a: &SignedAction) -> (r: bool)
        ensures
            r == refers_back(*a, self@.len() as int),
    {
        let n = self.actions.len() as u64;
        match &a.action {
            Action::CreateAgent { prev_action, .. } => prev_action.0 < n,
            Action::Update { original_action_address, .. } => original_action_address.0 < n,
            Action::Delete { deletes_address } => deletes_address.0 < n,
            Action::DeleteLink { link_add_address } => link_add_address.0 < n,
            Action::CreateLink { base_address, target_address, .. } => {
                target_address.0 < n && match base_address {
                    AnyLinkableHash::Action(b) => b.0 < n,
                    _ => true,
                }
            },
            _ => true,
        }
    }

    /// Appends an action whose back references are already stored.
    pub(crate) fn append(&mut self, a: SignedAction) -> (r: ActionHash)
        requires
            old(self).wf(),
            old(self)@.len() < MAX_ACTIONS,
            refers_back(a, old(self)@.len() as int),
        ensures
            final(self).wf(),
            final(self)@ == old(self)@.push(a),
            r == ActionHash(old(self)@.len() as u64),
    {
        let h = ActionHash(self.actions.len() as u64);
        self.actions.push(a);
        proof {
            assert forall|i: int| 0 <= i < self.actions@.len() implies #[trigger] refers_back(self.actions@[i], i) by {
                if i < old(self)@.len() {
                    assert(self.actions@[i] == old(self)@[i]);
                }
            }
        }
        h
    }
}

} // verus!
