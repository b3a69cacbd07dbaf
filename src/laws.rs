use vstd::prelude::*;
use crate::db::{
    decodes, empty_model, latest_message_stored, latest_update_stored, leaf_at, message_at_index,
    message_at_nonce, message_of_leaf, model_is_empty, stored_message, update_from, update_to,
    zero_root, DbModel,
};
use crate::types::{
    be32_at, be32_bytes, encode_message, keccak256_of, MessageModel,
    NomadMessage, Proof, SignedUpdate,
};

verus! {

/// A message that was stored can be read back by its leaf index, by its leaf,
/// and by the destination and nonce written in it.
pub proof fn lemma_message_round_trip(d: DbModel, m: MessageModel)
    requires
        decodes(m),
    ensures
        message_at_index(stored_message(d, m), m.leaf_index) == Some(m),
        message_of_leaf(stored_message(d, m), keccak256_of(m.message)) == Some(m),
        message_at_nonce(stored_message(d, m), be32_at(m.message, 40), be32_at(m.message, 36))
            == Some(m),
{
}

/// Four bytes written big-endian read back as the same integer.
pub proof fn lemma_be32_round_trip(v: u32)
    ensures
        be32_at(be32_bytes(v), 0) == v,
{
    let s = be32_bytes(v);
    assert(s[0] == (v >> 24u32) as u8 && s[1] == (v >> 16u32) as u8 && s[2] == (v >> 8u32) as u8
        && s[3] == v as u8);
    assert(((((v >> 24u32) as u8) as u32) << 24u32) | ((((v >> 16u32) as u8) as u32) << 16u32) | (
    (((v >> 8u32) as u8) as u32) << 8u32) | ((v as u8) as u32) == v) by (bit_vector);
}

/// The encoding of a message holds a whole header, and its destination and
/// nonce are read back from it.
pub proof fn lemma_encoded_message_key(nm: NomadMessage, leaf_index: u32, committed_root: Seq<u8>)
    ensures
        decodes(
            MessageModel { leaf_index, committed_root, message: encode_message(nm) },
        ),
        be32_at(encode_message(nm), 40) == nm.destination,
        be32_at(encode_message(nm), 36) == nm.nonce,
{
    let e = encode_message(nm);
    let pre = be32_bytes(nm.origin) + nm.sender@;
    lemma_be32_round_trip(nm.nonce);
    lemma_be32_round_trip(nm.destination);
    assert(nm.sender@.len() == 32);
    assert(nm.recipient@.len() == 32);
    assert(pre.len() == 36);
    assert(e.subrange(36, 40) =~= be32_bytes(nm.nonce));
    assert(e.subrange(40, 44) =~= be32_bytes(nm.destination));
    assert(be32_at(e, 36) == be32_at(e.subrange(36, 40), 0));
    assert(be32_at(e, 40) == be32_at(e.subrange(40, 44), 0));
}

/// A message built by encoding a message `nm` and then stored can be read
/// back by `nm`'s destination and nonce.
pub proof fn lemma_encoded_message_found_by_nonce(
    d: DbModel,
    nm: NomadMessage,
    leaf_index: u32,
    committed_root: Seq<u8>,
)
    ensures
        message_at_nonce(
            stored_message(
                d,
                MessageModel { leaf_index, committed_root, message: encode_message(nm) },
            ),
            nm.destination,
            nm.nonce,
        ) == Some(MessageModel { leaf_index, committed_root, message: encode_message(nm) }),
{
    lemma_encoded_message_key(nm, leaf_index, committed_root);
    lemma_message_round_trip(
        d,
        MessageModel { leaf_index, committed_root, message: encode_message(nm) },
    );
}

/// A message that directly follows the latest leaf index moves it onto itself.
pub proof fn lemma_contiguous_message_advances(d: DbModel, m: MessageModel)
    requires
        d.latest_leaf_index is Some,
        d.latest_leaf_index->Some_0 as int + 1 == m.leaf_index as int,
    ensures
        latest_message_stored(d, m).latest_leaf_index == Some(m.leaf_index),
{
}

/// A message that leaves a gap after the latest leaf index does not move it,
/// yet is stored and can be read back by its index.
pub proof fn lemma_gap_keeps_pointer(d: DbModel, m: MessageModel)
    requires
        decodes(m),
        d.latest_leaf_index is Some,
        d.latest_leaf_index->Some_0 as int + 1 != m.leaf_index as int,
    ensures
        latest_message_stored(d, m).latest_leaf_index == d.latest_leaf_index,
        message_at_index(latest_message_stored(d, m), m.leaf_index) == Some(m),
{
}

/// With no latest root, a first update sets it to its new root; a second
/// update that does not build on that root leaves it there, and is still
/// found by its previous root and, through the back link, by its new root.
pub proof fn lemma_update_chain(d: DbModel, first: SignedUpdate, second: SignedUpdate)
    requires
        d.latest_root is None,
        second.update.previous_root@ != first.update.new_root@,
    ensures
        latest_update_stored(d, first).latest_root == Some(first.update.new_root@),
        latest_update_stored(latest_update_stored(d, first), second).latest_root == Some(
            first.update.new_root@,
        ),
        update_from(
            latest_update_stored(latest_update_stored(d, first), second),
            second.update.previous_root@,
        ) == Some(second),
        update_to(
            latest_update_stored(latest_update_stored(d, first), second),
            second.update.new_root@,
        ) == Some(second),
{
}

/// A stored proof is read back by its leaf index, whatever messages and
/// updates the store holds.
pub proof fn lemma_proof_independent(d: DbModel, leaf_index: u32, p: Proof)
    ensures
        (DbModel { proofs: d.proofs.insert(leaf_index as u64, p), ..d }).proofs[leaf_index as u64]
            == p,
        (DbModel { proofs: d.proofs.insert(leaf_index as u64, p), ..d }).messages == d.messages,
        (DbModel { proofs: d.proofs.insert(leaf_index as u64, p), ..d }).updates == d.updates,
{
}

/// A store with nothing written is empty; writing the message at leaf index
/// zero, or an update from the zero root, makes it non-empty.
pub proof fn lemma_emptiness(m: MessageModel, u: SignedUpdate)
    ensures
        model_is_empty(empty_model()),
        decodes(m) && m.leaf_index == 0 ==> !model_is_empty(latest_message_stored(empty_model(), m)),
        u.update.previous_root@ == zero_root() ==> !model_is_empty(
            latest_update_stored(empty_model(), u),
        ),
{
}

/// Once a message is stored, the leaf at its index is its leaf, so a waiter
/// for that index is handed it at its next look.
pub proof fn lemma_waiter_sees_stored_leaf(d: DbModel, m: MessageModel)
    requires
        decodes(m),
    ensures
        leaf_at(latest_message_stored(d, m), m.leaf_index) == Some(keccak256_of(m.message)),
{
}

/// Storing the same message a second time changes nothing: neither what is
/// read at its index nor the latest leaf index.
pub proof fn lemma_reingestion_idempotent(d: DbModel, m: MessageModel)
    ensures
        latest_message_stored(latest_message_stored(d, m), m) == latest_message_stored(d, m),
{
    let once = latest_message_stored(d, m);
    let twice = latest_message_stored(once, m);
    assert(twice.leaves_by_index =~= once.leaves_by_index);
    assert(twice.leaves_by_nonce =~= once.leaves_by_nonce);
    assert(twice.messages =~= once.messages);
}

} // verus!
