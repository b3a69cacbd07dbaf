use vstd::prelude::*;
use crate::table::{IndexTable, RootTable};
use crate::types::{
    be32_at, keccak256_of, spec_destination_and_nonce, DbError, H256, MessageModel, Proof,
    RawCommittedMessage, Record, SignedUpdate, SignedUpdateWithMeta, Update, UpdateMeta, NomadMessage,
    MESSAGE_HEADER_LEN,
};

verus! {

/// Milliseconds between two lookups of a caller that waits for a leaf.
pub const LEAF_POLL_INTERVAL_MS: u64 = 100;

/// What a store holds, table by table.
pub struct DbModel {
    /// Leaf hash by leaf index.
    pub leaves_by_index: Map<u64, Seq<u8>>,
    /// Leaf hash by destination and nonce.
    pub leaves_by_nonce: Map<u64, Seq<u8>>,
    /// Committed message by leaf hash.
    pub messages: Map<Seq<u8>, MessageModel>,
    /// Signed update by its previous root.
    pub updates: Map<Seq<u8>, SignedUpdate>,
    /// Previous root by new root.
    pub previous_roots: Map<Seq<u8>, Seq<u8>>,
    /// Update metadata by new root.
    pub update_meta: Map<Seq<u8>, UpdateMeta>,
    /// Proof by leaf index.
    pub proofs: Map<u64, Proof>,
    /// Locally produced update by previous root.
    pub produced_updates: Map<Seq<u8>, SignedUpdate>,
    pub latest_leaf_index: Option<u32>,
    pub latest_root: Option<Seq<u8>>,
    pub prover_latest_committed: Option<Seq<u8>>,
}

/// The store with nothing written.
pub open spec fn empty_model() -> DbModel {
    DbModel {
        leaves_by_index: Map::empty(),
        leaves_by_nonce: Map::empty(),
        messages: Map::empty(),
        updates: Map::empty(),
        previous_roots: Map::empty(),
        update_meta: Map::empty(),
        proofs: Map::empty(),
        produced_updates: Map::empty(),
        latest_leaf_index: None,
        latest_root: None,
        prover_latest_committed: None,
    }
}

/// The all-zero hash.
pub open spec fn zero_root() -> Seq<u8> {
    Seq::new(32, |i: int| 0u8)
}

/// Whether the bytes of a committed message hold a whole message header.
pub open spec fn decodes(m: MessageModel) -> bool {
    m.message.len() >= MESSAGE_HEADER_LEN
}

/// The destination-and-nonce key of an encoded message.
pub open spec fn message_key(m: MessageModel) -> u64 {
    spec_destination_and_nonce(be32_at(m.message, 40), be32_at(m.message, 36))
}

/// The latest leaf index after a message with index `incoming` arrives:
/// set when unset, advanced when `incoming` directly follows it, kept otherwise.
pub open spec fn next_latest_leaf_index(latest: Option<u32>, incoming: u32) -> Option<u32> {
    match latest {
        None => Some(incoming),
        Some(idx) => if idx as int + 1 == incoming as int {
            Some(incoming)
        } else {
            Some(idx)
        },
    }
}

/// The latest root after an update arrives: set when unset, advanced when the
/// update builds on it, kept otherwise.
pub open spec fn next_latest_root(latest: Option<Seq<u8>>, u: Update) -> Option<Seq<u8>> {
    match latest {
        None => Some(u.new_root@),
        Some(root) => if root == u.previous_root@ {
            Some(u.new_root@)
        } else {
            Some(root)
        },
    }
}

/// The store after a message is recorded under its three keys.
pub open spec fn stored_message(d: DbModel, m: MessageModel) -> DbModel {
    let leaf = keccak256_of(m.message);
    DbModel {
        leaves_by_nonce: d.leaves_by_nonce.insert(message_key(m), leaf),
        leaves_by_index: d.leaves_by_index.insert(m.leaf_index as u64, leaf),
        messages: d.messages.insert(leaf, m),
        ..d
    }
}

/// The store after a message arrives through the sequential path: the
/// pointer moves by its rule, then the message is recorded if it decodes.
pub open spec fn latest_message_stored(d: DbModel, m: MessageModel) -> DbModel {
    let moved = DbModel {
        latest_leaf_index: next_latest_leaf_index(d.latest_leaf_index, m.leaf_index),
        ..d
    };
    if decodes(m) {
        stored_message(moved, m)
    } else {
        moved
    }
}

/// The store after each message of `s`, in order, arrives through the
/// sequential path.
pub open spec fn messages_stored(d: DbModel, s: Seq<MessageModel>) -> DbModel
    decreases s.len(),
{
    if s.len() == 0 {
        d
    } else {
        latest_message_stored(messages_stored(d, s.drop_last()), s.last())
    }
}

/// The store after an update is recorded by previous root, with the link
/// from its new root back to its previous root.
pub open spec fn stored_update(d: DbModel, u: SignedUpdate) -> DbModel {
    DbModel {
        updates: d.updates.insert(u.update.previous_root@, u),
        previous_roots: d.previous_roots.insert(u.update.new_root@, u.update.previous_root@),
        ..d
    }
}

/// The store after an update arrives through the chaining path.
pub open spec fn latest_update_stored(d: DbModel, u: SignedUpdate) -> DbModel {
    stored_update(
        DbModel { latest_root: next_latest_root(d.latest_root, u.update), ..d },
        u,
    )
}

/// The store after an update's metadata is recorded by its new root.
pub open spec fn stored_update_meta(d: DbModel, u: SignedUpdateWithMeta) -> DbModel {
    DbModel {
        update_meta: d.update_meta.insert(u.signed_update.update.new_root@, u.metadata),
        ..d
    }
}

/// The store after each update of `s`, in order, is recorded with its metadata.
pub open spec fn updates_and_meta_stored(d: DbModel, s: Seq<SignedUpdateWithMeta>) -> DbModel
    decreases s.len(),
{
    if s.len() == 0 {
        d
    } else {
        let before = updates_and_meta_stored(d, s.drop_last());
        stored_update_meta(latest_update_stored(before, s.last().signed_update), s.last())
    }
}

/// The leaf stored at a leaf index.
pub open spec fn leaf_at(d: DbModel, index: u32) -> Option<Seq<u8>> {
    if d.leaves_by_index.contains_key(index as u64) {
        Some(d.leaves_by_index[index as u64])
    } else {
        None
    }
}

/// The message whose leaf is `leaf`.
pub open spec fn message_of_leaf(d: DbModel, leaf: Seq<u8>) -> Option<MessageModel> {
    if d.messages.contains_key(leaf) {
        Some(d.messages[leaf])
    } else {
        None
    }
}

/// The message at a leaf index, through its leaf.
pub open spec fn message_at_index(d: DbModel, index: u32) -> Option<MessageModel> {
    match leaf_at(d, index) {
        Some(leaf) => message_of_leaf(d, leaf),
        None => None,
    }
}

/// The message sent to `destination` with `nonce`, through its leaf.
pub open spec fn message_at_nonce(d: DbModel, destination: u32, nonce: u32) -> Option<
    MessageModel,
> {
    let key = spec_destination_and_nonce(destination, nonce);
    if d.leaves_by_nonce.contains_key(key) {
        message_of_leaf(d, d.leaves_by_nonce[key])
    } else {
        None
    }
}

/// The update whose previous root is `root`.
pub open spec fn update_from(d: DbModel, root: Seq<u8>) -> Option<SignedUpdate> {
    if d.updates.contains_key(root) {
        Some(d.updates[root])
    } else {
        None
    }
}

/// The update whose new root is `root`, through the link back to its previous root.
pub open spec fn update_to(d: DbModel, root: Seq<u8>) -> Option<SignedUpdate> {
    if d.previous_roots.contains_key(root) {
        update_from(d, d.previous_roots[root])
    } else {
        None
    }
}

/// Whether the store looks never written: no update from the zero root and
/// no leaf at index zero.
pub open spec fn model_is_empty(d: DbModel) -> bool {
    !d.updates.contains_key(zero_root()) && !d.leaves_by_index.contains_key(0)
}

/// The view of an optional message.
pub open spec fn message_view(r: Option<RawCommittedMessage>) -> Option<MessageModel> {
    match r {
        Some(m) => Some(m@),
        None => None,
    }
}

/// The view of an optional hash.
pub open spec fn hash_view(r: Option<H256>) -> Option<Seq<u8>> {
    match r {
        Some(h) => Some(h@),
        None => None,
    }
}

} // verus!

verus! {

/// A store for the records of one entity (one home), with the keys by which
/// each is looked up and the pointers to the latest contiguous facts.
pub struct NomadDB {
    entity: String,
    leaves_by_index: IndexTable<H256>,
    leaves_by_nonce: IndexTable<H256>,
    messages: RootTable<RawCommittedMessage>,
    updates: RootTable<SignedUpdate>,
    previous_roots: RootTable<H256>,
    update_meta: RootTable<UpdateMeta>,
    proofs: IndexTable<Proof>,
    produced_updates: RootTable<SignedUpdate>,
    latest_leaf_index: Option<u32>,
    latest_root: Option<H256>,
    prover_latest_committed: Option<H256>,
}

/// What the waiter for a leaf does next.
pub enum LeafPoll {
    /// The leaf is there: hand it to the waiter.
    Ready(H256),
    /// Not yet: look again after the poll interval.
    Wait,
}

impl View for NomadDB {
    type V = DbModel;

    closed spec fn view(&self) -> DbModel {
        DbModel {
            leaves_by_index: self.leaves_by_index@,
            leaves_by_nonce: self.leaves_by_nonce@,
            messages: self.messages@,
            updates: self.updates@,
            previous_roots: self.previous_roots@,
            update_meta: self.update_meta@,
            proofs: self.proofs@,
            produced_updates: self.produced_updates@,
            latest_leaf_index: self.latest_leaf_index,
            latest_root: hash_view(self.latest_root),
            prover_latest_committed: hash_view(self.prover_latest_committed),
        }
    }
}

impl NomadDB {
    pub closed spec fn wf(&self) -> bool {
        &&& self.leaves_by_index.wf()
        &&& self.leaves_by_nonce.wf()
        &&& self.messages.wf()
        &&& self.updates.wf()
        &&& self.previous_roots.wf()
        &&& self.update_meta.wf()
        &&& self.proofs.wf()
        &&& self.produced_updates.wf()
    }

    /// The name of the entity whose records this store holds.
    pub closed spec fn spec_entity(&self) -> Seq<char> {
        self.entity@
    }

    /// The leaf indices held, in ascending order.
    pub closed spec fn leaf_indices(&self) -> Seq<u64> {
        self.leaves_by_index.keys()
    }

    /// A store for `entity` with nothing written.
    pub fn new(entity: &str) -> (r: NomadDB)
        ensures
            r.wf(),
            r@ == empty_model(),
            r.spec_entity() == entity@,
    {
        let r = NomadDB {
            entity: entity.to_string(),
            leaves_by_index: IndexTable::new(),
            leaves_by_nonce: IndexTable::new(),
            messages: RootTable::new(),
            updates: RootTable::new(),
            previous_roots: RootTable::new(),
            update_meta: RootTable::new(),
            proofs: IndexTable::new(),
            produced_updates: RootTable::new(),
            latest_leaf_index: None,
            latest_root: None,
            prover_latest_committed: None,
        };
        assert(r@ =~= empty_model());
        r
    }

    /// The entity whose records this store holds.
    pub fn entity(&self) -> (r: &str)
        ensures
            r@ == self.spec_entity(),
    {
        self.entity.as_str()
    }

    /// Whether no update from the zero root and no leaf at index zero is stored.
    pub fn is_empty(&self) -> (r: bool)
        requires
            self.wf(),
        ensures
            r == model_is_empty(self@),
    {
        let no_updates = self.update_by_previous_root(H256::zero()).is_none();
        let no_messages = self.leaf_by_leaf_index(0).is_none();
        proof {
            assert(zero_root() =~= Seq::new(32, |i: int| 0u8));
        }
        no_updates && no_messages
    }

    /// Records a committed message by destination and nonce, by leaf index,
    /// and by leaf, in that order. Fails, writing nothing, when its bytes do
    /// not hold a message header.
    pub fn store_raw_committed_message(&mut self, message: &RawCommittedMessage) -> (r: Result<
        (),
        DbError,
    >)
        requires
            old(self).wf(),
        ensures
            final(self).wf(),
            final(self).spec_entity() == old(self).spec_entity(),
            decodes(message@) ==> r is Ok && final(self)@ == stored_message(old(self)@, message@),
            !decodes(message@) ==> r == Err::<(), DbError>(DbError::MessageDecode) && final(self)@
                == old(self)@,
    {
        let parsed = match NomadMessage::read_from(message.message.as_slice()) {
            Ok(parsed) => parsed,
            Err(e) => {
                return Err(e);
            },
        };
        let destination_and_nonce = parsed.destination_and_nonce();
        let leaf = message.leaf();
        self.store_leaf(message.leaf_index, destination_and_nonce, leaf);
        self.messages.insert(leaf, message.duplicate());
        proof {
            assert(destination_and_nonce == message_key(message@));
            assert(self@ =~= stored_message(old(self)@, message@));
        }
        Ok(())
    }

    fn store_leaf(&mut self, leaf_index: u32, destination_and_nonce: u64, leaf: H256)
        requires
            old(self).wf(),
        ensures
            final(self).wf(),
            final(self).entity == old(self).entity,
            final(self).messages == old(self).messages,
            final(self)@ == (DbModel {
                leaves_by_nonce: old(self)@.leaves_by_nonce.insert(destination_and_nonce, leaf@),
                leaves_by_index: old(self)@.leaves_by_index.insert(leaf_index as u64, leaf@),
                ..old(self)@
            }),
    {
        self.leaves_by_nonce.insert(destination_and_nonce, leaf);
        self.leaves_by_index.insert(leaf_index as u64, leaf);
    }

    /// Stores a message, first moving the latest leaf index when the message
    /// directly follows it (or when none is set). The pointer rule applies
    /// even where the message then fails to decode.
    pub fn store_latest_message(&mut self, message: &RawCommittedMessage) -> (r: Result<
        (),
        DbError,
    >)
        requires
            old(self).wf(),
        ensures
            final(self).wf(),
            final(self).spec_entity() == old(self).spec_entity(),
            final(self)@ == latest_message_stored(old(self)@, message@),
            r is Ok <==> decodes(message@),
            r is Err ==> r == Err::<(), DbError>(DbError::MessageDecode),
    {
        match self.retrieve_latest_leaf_index() {
            Some(idx) => {
                if message.leaf_index > 0 && idx == message.leaf_index - 1 {
                    self.update_latest_leaf_index(message.leaf_index);
                }
            },
            None => self.update_latest_leaf_index(message.leaf_index),
        }
        let ghost moved = self@;
        assert(moved =~= (DbModel {
            latest_leaf_index: next_latest_leaf_index(old(self)@.latest_leaf_index, message.leaf_index),
            ..old(self)@
        }));
        self.store_raw_committed_message(message)
    }

    /// Stores each message in order through the sequential path; stops at
    /// the first that fails to decode, keeping what was stored before it.
    pub fn store_messages(&mut self, messages: &[RawCommittedMessage]) -> (r: Result<(), DbError>)
        requires
            old(self).wf(),
        ensures
            final(self).wf(),
            final(self).spec_entity() == old(self).spec_entity(),
            r is Ok <==> forall|i: int| 0 <= i < messages@.len() ==> decodes(#[trigger] messages@[i]@),
            r is Ok ==> final(self)@ == messages_stored(
                old(self)@,
                messages@.map_values(|m: RawCommittedMessage| m@),
            ),
            r is Err ==> r == Err::<(), DbError>(DbError::MessageDecode) && exists|k: int|
                0 <= k < messages@.len() && !decodes(messages@[k]@) && (forall|i: int|
                    0 <= i < k ==> decodes(#[trigger] messages@[i]@)) && final(self)@
                    == messages_stored(
                    old(self)@,
                    messages@.map_values(|m: RawCommittedMessage| m@).take(k + 1),
                ),
    {
        let ghost views = messages@.map_values(|m: RawCommittedMessage| m@);
        let mut i: usize = 0;
        while i < messages.len()
            invariant
                0 <= i <= messages@.len(),
                views == messages@.map_values(|m: RawCommittedMessage| m@),
                self.wf(),
                self.spec_entity() == old(self).spec_entity(),
                forall|j: int| 0 <= j < i ==> decodes(#[trigger] messages@[j]@),
                self@ == messages_stored(old(self)@, views.take(i as int)),
            decreases messages@.len() - i,
        {
            let res = self.store_latest_message(&messages[i]);
            proof {
                assert(views.take(i + 1).drop_last() =~= views.take(i as int));
                assert(views.take(i + 1).last() == messages@[i as int]@);
            }
            if res.is_err() {
                return Err(DbError::MessageDecode);
            }
            i = i + 1;
        }
        assert(views.take(messages@.len() as int) =~= views);
        Ok(())
    }

    /// Sets the latest known leaf index.
    pub fn update_latest_leaf_index(&mut self, leaf_index: u32)
        requires
            old(self).wf(),
        ensures
            final(self).wf(),
            final(self).spec_entity() == old(self).spec_entity(),
            final(self)@ == (DbModel { latest_leaf_index: Some(leaf_index), ..old(self)@ }),
    {
        self.latest_leaf_index = Some(leaf_index);
    }

    /// The latest known leaf index, if one was set.
    pub fn retrieve_latest_leaf_index(&self) -> (r: Option<u32>)
        ensures
            r == self@.latest_leaf_index,
    {
        self.latest_leaf_index
    }

    /// The message whose leaf is `leaf`.
    pub fn message_by_leaf(&self, leaf: H256) -> (r: Option<RawCommittedMessage>)
        requires
            self.wf(),
        ensures
            message_view(r) == message_of_leaf(self@, leaf@),
    {
        self.messages.get(&leaf)
    }

    /// The leaf stored at `leaf_index`.
    pub fn leaf_by_leaf_index(&self, leaf_index: u32) -> (r: Option<H256>)
        requires
            self.wf(),
        ensures
            hash_view(r) == leaf_at(self@, leaf_index),
    {
        self.leaves_by_index.get(leaf_index as u64)
    }

    /// The leaf of the message sent to `destination` with `nonce`.
    pub fn leaf_by_nonce(&self, destination: u32, nonce: u32) -> (r: Option<H256>)
        requires
            self.wf(),
        ensures
            match r {
                Some(h) => self@.leaves_by_nonce.contains_key(
                    spec_destination_and_nonce(destination, nonce),
                ) && h@ == self@.leaves_by_nonce[spec_destination_and_nonce(destination, nonce)],
                None => !self@.leaves_by_nonce.contains_key(
                    spec_destination_and_nonce(destination, nonce),
                ),
            },
    {
        let key = crate::types::destination_and_nonce(destination, nonce);
        self.leaves_by_nonce.get(key)
    }

    /// The message sent to `destination` with `nonce`.
    pub fn message_by_nonce(&self, destination: u32, nonce: u32) -> (r: Option<RawCommittedMessage>)
        requires
            self.wf(),
        ensures
            message_view(r) == message_at_nonce(self@, destination, nonce),
    {
        match self.leaf_by_nonce(destination, nonce) {
            None => None,
            Some(leaf) => self.message_by_leaf(leaf),
        }
    }

    /// The message at leaf index `index`.
    pub fn message_by_leaf_index(&self, index: u32) -> (r: Option<RawCommittedMessage>)
        requires
            self.wf(),
        ensures
            message_view(r) == message_at_index(self@, index),
    {
        match self.leaf_by_leaf_index(index) {
            None => None,
            Some(leaf) => self.message_by_leaf(leaf),
        }
    }
}

} // verus!

verus! {

impl NomadDB {
    fn store_latest_root(&mut self, root: H256)
        requires
            old(self).wf(),
        ensures
            final(self).wf(),
            final(self).spec_entity() == old(self).spec_entity(),
            final(self)@ == (DbModel { latest_root: Some(root@), ..old(self)@ }),
    {
        self.latest_root = Some(root);
    }

    /// The root at the tip of the contiguous chain of updates, if one was set.
    pub fn retrieve_latest_root(&self) -> (r: Option<H256>)
        ensures
            hash_view(r) == self@.latest_root,
    {
        self.latest_root
    }

    /// Records each update in order through the chaining path, each followed
    /// by its metadata.
    pub fn store_updates_and_meta(&mut self, updates: &[SignedUpdateWithMeta])
        requires
            old(self).wf(),
        ensures
            final(self).wf(),
            final(self).spec_entity() == old(self).spec_entity(),
            final(self)@ == updates_and_meta_stored(old(self)@, updates@),
    {
        let mut i: usize = 0;
        while i < updates.len()
            invariant
                0 <= i <= updates@.len(),
                self.wf(),
                self.spec_entity() == old(self).spec_entity(),
                self@ == updates_and_meta_stored(old(self)@, updates@.take(i as int)),
            decreases updates@.len() - i,
        {
            let update_with_meta = &updates[i];
            self.store_latest_update(&update_with_meta.signed_update);
            self.store_update_metadata(update_with_meta);
            proof {
                assert(updates@.take(i + 1).drop_last() =~= updates@.take(i as int));
            }
            i = i + 1;
        }
        assert(updates@.take(updates@.len() as int) =~= updates@);
    }

    /// Records an update's metadata by the update's new root.
    pub fn store_update_metadata(&mut self, update_with_meta: &SignedUpdateWithMeta)
        requires
            old(self).wf(),
        ensures
            final(self).wf(),
            final(self).spec_entity() == old(self).spec_entity(),
            final(self)@ == stored_update_meta(old(self)@, *update_with_meta),
    {
        let new_root = update_with_meta.signed_update.update.new_root;
        self.update_meta.insert(new_root, update_with_meta.metadata);
        assert(self@ =~= stored_update_meta(old(self)@, *update_with_meta));
    }

    /// The metadata of the update whose new root is `new_root`.
    pub fn retrieve_update_metadata(&self, new_root: H256) -> (r: Option<UpdateMeta>)
        requires
            self.wf(),
        ensures
            match r {
                Some(m) => self@.update_meta.contains_key(new_root@) && m == self@.update_meta[new_root@],
                None => !self@.update_meta.contains_key(new_root@),
            },
    {
        self.update_meta.get(&new_root)
    }

    /// Stores an update, first moving the latest root when the update builds
    /// on it (or when none is set).
    pub fn store_latest_update(&mut self, update: &SignedUpdate)
        requires
            old(self).wf(),
        ensures
            final(self).wf(),
            final(self).spec_entity() == old(self).spec_entity(),
            final(self)@ == latest_update_stored(old(self)@, *update),
    {
        match self.retrieve_latest_root() {
            Some(root) => {
                if root.same_as(&update.update.previous_root) {
                    self.store_latest_root(update.update.new_root);
                }
            },
            None => self.store_latest_root(update.update.new_root),
        }
        let ghost moved = self@;
        assert(moved =~= (DbModel {
            latest_root: next_latest_root(old(self)@.latest_root, update.update),
            ..old(self)@
        }));
        self.store_update(update);
    }

    /// Records an update by its previous root, and links its new root back
    /// to its previous root.
    pub fn store_update(&mut self, update: &SignedUpdate)
        requires
            old(self).wf(),
        ensures
            final(self).wf(),
            final(self).spec_entity() == old(self).spec_entity(),
            final(self)@ == stored_update(old(self)@, *update),
    {
        self.updates.insert(update.update.previous_root, *update);
        self.previous_roots.insert(update.update.new_root, update.update.previous_root);
        assert(self@ =~= stored_update(old(self)@, *update));
    }

    /// The update whose previous root is `previous_root`.
    pub fn update_by_previous_root(&self, previous_root: H256) -> (r: Option<SignedUpdate>)
        requires
            self.wf(),
        ensures
            r == update_from(self@, previous_root@),
    {
        self.updates.get(&previous_root)
    }

    /// The update whose new root is `new_root`, found through the link back
    /// to its previous root.
    pub fn update_by_new_root(&self, new_root: H256) -> (r: Option<SignedUpdate>)
        requires
            self.wf(),
        ensures
            r == update_to(self@, new_root@),
    {
        match self.previous_roots.get(&new_root) {
            Some(previous_root) => self.update_by_previous_root(previous_root),
            None => None,
        }
    }

    /// Every stored leaf, in ascending order of leaf index.
    pub fn leaf_iterator(&self) -> (r: Vec<H256>)
        requires
            self.wf(),
        ensures
            r@.len() == self.leaf_indices().len(),
            forall|i: int|
                0 <= i < r@.len() ==> (#[trigger] r@[i])@ == self@.leaves_by_index[self.leaf_indices()[i]],
            forall|i: int, j: int|
                0 <= i < j < self.leaf_indices().len() ==> self.leaf_indices()[i]
                    < self.leaf_indices()[j],
            forall|k: u64| self@.leaves_by_index.contains_key(k) <==> self.leaf_indices().contains(k),
    {
        self.leaves_by_index.values()
    }

    /// Records a proof by leaf index, whatever else is stored.
    pub fn store_proof(&mut self, leaf_index: u32, proof: &Proof)
        requires
            old(self).wf(),
        ensures
            final(self).wf(),
            final(self).spec_entity() == old(self).spec_entity(),
            final(self)@ == (DbModel {
                proofs: old(self)@.proofs.insert(leaf_index as u64, *proof),
                ..old(self)@
            }),
    {
        self.proofs.insert(leaf_index as u64, *proof);
    }

    /// The proof stored for `leaf_index`.
    pub fn proof_by_leaf_index(&self, leaf_index: u32) -> (r: Option<Proof>)
        requires
            self.wf(),
        ensures
            match r {
                Some(p) => self@.proofs.contains_key(leaf_index as u64) && p
                    == self@.proofs[leaf_index as u64],
                None => !self@.proofs.contains_key(leaf_index as u64),
            },
    {
        self.proofs.get(leaf_index as u64)
    }

    /// One step of waiting for the leaf at `leaf_index`: hand it over when it
    /// is stored, else wait one poll interval and look again.
    pub fn wait_for_leaf(&self, leaf_index: u32) -> (r: LeafPoll)
        requires
            self.wf(),
        ensures
            match r {
                LeafPoll::Ready(h) => leaf_at(self@, leaf_index) == Some(h@),
                LeafPoll::Wait => leaf_at(self@, leaf_index) is None,
            },
    {
        match self.leaf_by_leaf_index(leaf_index) {
            Some(leaf) => LeafPoll::Ready(leaf),
            None => LeafPoll::Wait,
        }
    }

    /// Keeps a locally produced update for `previous_root`, replacing any
    /// kept before.
    pub fn store_produced_update(&mut self, previous_root: H256, update: &SignedUpdate)
        requires
            old(self).wf(),
        ensures
            final(self).wf(),
            final(self).spec_entity() == old(self).spec_entity(),
            final(self)@ == (DbModel {
                produced_updates: old(self)@.produced_updates.insert(previous_root@, *update),
                ..old(self)@
            }),
    {
        self.produced_updates.insert(previous_root, *update);
    }

    /// The locally produced update kept for `previous_root`.
    pub fn retrieve_produced_update(&self, previous_root: H256) -> (r: Option<SignedUpdate>)
        requires
            self.wf(),
        ensures
            match r {
                Some(u) => self@.produced_updates.contains_key(previous_root@) && u
                    == self@.produced_updates[previous_root@],
                None => !self@.produced_updates.contains_key(previous_root@),
            },
    {
        self.produced_updates.get(&previous_root)
    }

    /// Sets the root up to which the prover holds every leaf and proof.
    pub fn store_prover_latest_committed(&mut self, root: H256)
        requires
            old(self).wf(),
        ensures
            final(self).wf(),
            final(self).spec_entity() == old(self).spec_entity(),
            final(self)@ == (DbModel { prover_latest_committed: Some(root@), ..old(self)@ }),
    {
        self.prover_latest_committed = Some(root);
    }

    /// The root up to which the prover holds every leaf and proof, if set.
    pub fn retrieve_prover_latest_committed(&self) -> (r: Option<H256>)
        ensures
            hash_view(r) == self@.prover_latest_committed,
    {
        self.prover_latest_committed
    }
}

} // verus!
