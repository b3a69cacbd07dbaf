use vstd::prelude::*;
use tiny_keccak::Hasher;

verus! {

/// Size in bytes of the fixed header of an encoded message: origin, sender,
/// nonce, destination and recipient, before the body.
pub const MESSAGE_HEADER_LEN: usize = 76;

/// A 32-byte hash (a leaf, a root), held as its bytes in order.
#[derive(Clone, Copy, Debug, PartialEq, Eq, Default)]
pub struct H256(pub [u8; 32]);

impl View for H256 {
    type V = Seq<u8>;

    open spec fn view(&self) -> Seq<u8> {
        self.0@
    }
}

/// Byte `i` (0 = most significant) of the big-endian form of `v`.
pub open spec fn be_byte(v: u64, i: int) -> u8 {
    ((v >> ((7 - i) * 8) as u64) & 0xff) as u8
}

impl H256 {
    /// The hash whose 32 bytes are all zero.
    pub fn zero() -> (r: H256)
        ensures
            r@ == Seq::new(32, |i: int| 0u8),
    {
        let r = H256([0u8; 32]);
        assert(r@ =~= Seq::new(32, |i: int| 0u8));
        r
    }

    /// The hash holding `v` big-endian in its last eight bytes, zero before.
    pub fn from_low_u64_be(v: u64) -> (r: H256)
        ensures
            r@.len() == 32,
            forall|i: int| 0 <= i < 24 ==> r@[i] == 0u8,
            forall|i: int| 0 <= i < 8 ==> r@[24 + i] == be_byte(v, i),
    {
        let mut a = [0u8; 32];
        let mut i: usize = 0;
        while i < 8
            invariant
                0 <= i <= 8,
                forall|j: int| 0 <= j < 24 ==> a@[j] == 0u8,
                forall|j: int| 0 <= j < i ==> a@[24 + j] == be_byte(v, j),
            decreases 8 - i,
        {
            let shift: u64 = ((7 - i) * 8) as u64;
            a[24 + i] = ((v >> shift) & 0xff) as u8;
            i = i + 1;
        }
        H256(a)
    }

    /// Whether the two hashes hold the same bytes.
    pub fn same_as(&self, other: &H256) -> (r: bool)
        ensures
            r == (self@ == other@),
    {
        let mut i: usize = 0;
        while i < 32
            invariant
                0 <= i <= 32,
                self@.len() == 32,
                other@.len() == 32,
                forall|j: int| 0 <= j < i ==> self@[j] == other@[j],
            decreases 32 - i,
        {
            if self.0[i] != other.0[i] {
                return false;
            }
            i = i + 1;
        }
        assert(self@ =~= other@);
        true
    }
}

/// The Keccak-256 digest of a byte string.
pub uninterp spec fn keccak256_of(data: Seq<u8>) -> Seq<u8>;

/// Relies on tiny_keccak's `Keccak::v256` hasher (`update`, then `finalize`
/// into 32 bytes): the result is the Keccak-256 digest of `data`.
#[verifier::external_body]
pub(crate) fn keccak256(data: &[u8]) -> (r: H256)
    ensures
        r@ == keccak256_of(data@),
{
    let mut hasher = tiny_keccak::Keccak::v256();
    hasher.update(data);
    let mut out = [0u8; 32];
    hasher.finalize(&mut out);
    H256(out)
}

/// The four big-endian bytes of `v`.
pub open spec fn be32_bytes(v: u32) -> Seq<u8> {
    seq![(v >> 24u32) as u8, (v >> 16u32) as u8, (v >> 8u32) as u8, v as u8]
}

/// The `u32` read big-endian from `s` at `off`.
pub open spec fn be32_at(s: Seq<u8>, off: int) -> u32 {
    ((s[off] as u32) << 24u32) | ((s[off + 1] as u32) << 16u32) | ((s[off + 2] as u32) << 8u32)
        | (s[off + 3] as u32)
}

/// The key that indexes a message by its destination and nonce.
pub open spec fn spec_destination_and_nonce(destination: u32, nonce: u32) -> u64 {
    ((destination as u64) << 32u64) | (nonce as u64)
}

/// Destination domain in the high 32 bits, nonce in the low 32 bits.
pub fn destination_and_nonce(destination: u32, nonce: u32) -> (r: u64)
    ensures
        r == spec_destination_and_nonce(destination, nonce),
{
    ((destination as u64) << 32u64) | (nonce as u64)
}

/// Errors of the store.
#[derive(Clone, Copy, Debug, PartialEq, Eq)]
pub enum DbError {
    /// The bytes of a message are too short to hold a message header.
    MessageDecode,
}

/// A cross-chain message as its sender wrote it.
#[derive(Clone, Debug, PartialEq, Eq)]
pub struct NomadMessage {
    pub origin: u32,
    pub sender: H256,
    pub nonce: u32,
    pub destination: u32,
    pub recipient: H256,
    pub body: Vec<u8>,
}

/// The encoded form of a message: origin, sender, nonce, destination and
/// recipient (integers big-endian), then the body.
pub open spec fn encode_message(m: NomadMessage) -> Seq<u8> {
    be32_bytes(m.origin) + m.sender@ + be32_bytes(m.nonce) + be32_bytes(m.destination)
        + m.recipient@ + m.body@
}

/// What a well-formed encoding says of the message's fixed fields.
pub open spec fn decodes_header(bytes: Seq<u8>, m: NomadMessage) -> bool {
    &&& bytes.len() >= 76
    &&& m.origin == be32_at(bytes, 0)
    &&& m.sender@ == bytes.subrange(4, 36)
    &&& m.nonce == be32_at(bytes, 36)
    &&& m.destination == be32_at(bytes, 40)
    &&& m.recipient@ == bytes.subrange(44, 76)
    &&& m.body@ == bytes.subrange(76, bytes.len() as int)
}

fn push_be32(out: &mut Vec<u8>, v: u32)
    ensures
        final(out)@ == old(out)@ + be32_bytes(v),
{
    out.push((v >> 24u32) as u8);
    out.push((v >> 16u32) as u8);
    out.push((v >> 8u32) as u8);
    out.push(v as u8);
    assert(final(out)@ =~= old(out)@ + be32_bytes(v));
}

fn push_hash(out: &mut Vec<u8>, h: &H256)
    ensures
        final(out)@ == old(out)@ + h@,
{
    let mut i: usize = 0;
    while i < 32
        invariant
            0 <= i <= 32,
            h@.len() == 32,
            out@ == old(out)@ + h@.subrange(0, i as int),
        decreases 32 - i,
    {
        out.push(h.0[i]);
        assert(h@.subrange(0, i + 1) =~= h@.subrange(0, i as int).push(h@[i as int]));
        i = i + 1;
    }
    assert(h@.subrange(0, 32) =~= h@);
}

fn read_be32(bytes: &[u8], off: usize) -> (r: u32)
    requires
        off + 4 <= bytes@.len(),
    ensures
        r == be32_at(bytes@, off as int),
{
    ((bytes[off] as u32) << 24u32) | ((bytes[off + 1] as u32) << 16u32) | ((bytes[off + 2] as u32)
        << 8u32) | (bytes[off + 3] as u32)
}

fn read_hash(bytes: &[u8], off: usize) -> (r: H256)
    requires
        off + 32 <= bytes@.len(),
    ensures
        r@ == bytes@.subrange(off as int, off + 32),
{
    let n = bytes.len();
    let mut a = [0u8; 32];
    let mut i: usize = 0;
    while i < 32
        invariant
            0 <= i <= 32,
            n == bytes@.len(),
            off + 32 <= bytes@.len(),
            forall|j: int| 0 <= j < i ==> a@[j] == bytes@[off + j],
        decreases 32 - i,
    {
        a[i] = bytes[off + i];
        i = i + 1;
    }
    assert(a@ =~= bytes@.subrange(off as int, off + 32));
    H256(a)
}

impl NomadMessage {
    /// The message's encoded bytes.
    pub fn to_vec(&self) -> (r: Vec<u8>)
        ensures
            r@ == encode_message(*self),
    {
        let mut out: Vec<u8> = Vec::new();
        push_be32(&mut out, self.origin);
        push_hash(&mut out, &self.sender);
        push_be32(&mut out, self.nonce);
        push_be32(&mut out, self.destination);
        push_hash(&mut out, &self.recipient);
        let mut i: usize = 0;
        while i < self.body.len()
            invariant
                0 <= i <= self.body@.len(),
                out@ == be32_bytes(self.origin) + self.sender@ + be32_bytes(self.nonce)
                    + be32_bytes(self.destination) + self.recipient@ + self.body@.subrange(
                    0,
                    i as int,
                ),
            decreases self.body@.len() - i,
        {
            out.push(self.body[i]);
            assert(self.body@.subrange(0, i + 1) =~= self.body@.subrange(0, i as int).push(
                self.body@[i as int],
            ));
            i = i + 1;
        }
        assert(self.body@.subrange(0, self.body@.len() as int) =~= self.body@);
        out
    }

    /// Reads a message from its encoded bytes; fails when they are shorter
    /// than the header.
    pub fn read_from(bytes: &[u8]) -> (r: Result<NomadMessage, DbError>)
        ensures
            bytes@.len() < MESSAGE_HEADER_LEN ==> r == Err::<NomadMessage, DbError>(
                DbError::MessageDecode,
            ),
            bytes@.len() >= MESSAGE_HEADER_LEN ==> r is Ok && decodes_header(bytes@, r->Ok_0),
    {
        if bytes.len() < MESSAGE_HEADER_LEN {
            return Err(DbError::MessageDecode);
        }
        let origin = read_be32(bytes, 0);
        let sender = read_hash(bytes, 4);
        let nonce = read_be32(bytes, 36);
        let destination = read_be32(bytes, 40);
        let recipient = read_hash(bytes, 44);
        let mut body: Vec<u8> = Vec::new();
        let mut i: usize = 76;
        while i < bytes.len()
            invariant
                76 <= i <= bytes@.len(),
                body@ == bytes@.subrange(76, i as int),
            decreases bytes@.len() - i,
        {
            body.push(bytes[i]);
            assert(bytes@.subrange(76, i + 1) =~= bytes@.subrange(76, i as int).push(
                bytes@[i as int],
            ));
            i = i + 1;
        }
        Ok(NomadMessage { origin, sender, nonce, destination, recipient, body })
    }

    /// The key that indexes this message by destination and nonce.
    pub fn destination_and_nonce(&self) -> (r: u64)
        ensures
            r == spec_destination_and_nonce(self.destination, self.nonce),
    {
        destination_and_nonce(self.destination, self.nonce)
    }

    /// The leaf of this message: the Keccak-256 digest of its encoding.
    pub fn to_leaf(&self) -> (r: H256)
        ensures
            r@ == keccak256_of(encode_message(*self)),
    {
        let bytes = self.to_vec();
        keccak256(bytes.as_slice())
    }
}

} // verus!

verus! {

/// A value that can be copied out of a table whole.
pub trait Record: Sized + View {
    /// A copy with the same view.
    fn duplicate(&self) -> (r: Self)
        ensures
            r@ == self@,
    ;
}

impl Record for H256 {
    fn duplicate(&self) -> (r: H256) {
        *self
    }
}

/// A message as the home contract committed it: its place in the message
/// tree, the tree's root when it was committed, and its encoded bytes.
#[derive(Clone, Debug, PartialEq, Eq)]
pub struct RawCommittedMessage {
    pub leaf_index: u32,
    pub committed_root: H256,
    pub message: Vec<u8>,
}

/// What a committed message holds.
pub struct MessageModel {
    pub leaf_index: u32,
    pub committed_root: Seq<u8>,
    pub message: Seq<u8>,
}

impl View for RawCommittedMessage {
    type V = MessageModel;

    open spec fn view(&self) -> MessageModel {
        MessageModel {
            leaf_index: self.leaf_index,
            committed_root: self.committed_root@,
            message: self.message@,
        }
    }
}

impl Record for RawCommittedMessage {
    fn duplicate(&self) -> (r: RawCommittedMessage) {
        let mut message: Vec<u8> = Vec::new();
        let mut i: usize = 0;
        while i < self.message.len()
            invariant
                0 <= i <= self.message@.len(),
                message@ == self.message@.subrange(0, i as int),
            decreases self.message@.len() - i,
        {
            message.push(self.message[i]);
            assert(self.message@.subrange(0, i + 1) =~= self.message@.subrange(0, i as int).push(
                self.message@[i as int],
            ));
            i = i + 1;
        }
        assert(self.message@.subrange(0, self.message@.len() as int) =~= self.message@);
        RawCommittedMessage {
            leaf_index: self.leaf_index,
            committed_root: self.committed_root,
            message,
        }
    }
}

impl RawCommittedMessage {
    /// The leaf of this message: the Keccak-256 digest of its bytes.
    pub fn leaf(&self) -> (r: H256)
        ensures
            r@ == keccak256_of(self.message@),
    {
        keccak256(self.message.as_slice())
    }
}

/// A transition of the message tree's root.
#[derive(Clone, Copy, Debug, PartialEq, Eq)]
pub struct Update {
    pub home_domain: u32,
    pub previous_root: H256,
    pub new_root: H256,
}

/// An update with its signer's 65-byte signature (r, s, v).
#[derive(Clone, Copy, Debug, PartialEq, Eq)]
pub struct SignedUpdate {
    pub update: Update,
    pub signature: [u8; 65],
}

impl View for SignedUpdate {
    type V = SignedUpdate;

    open spec fn view(&self) -> SignedUpdate {
        *self
    }
}

impl Record for SignedUpdate {
    fn duplicate(&self) -> (r: SignedUpdate) {
        *self
    }
}

/// Where and when an update was seen on chain.
#[derive(Clone, Copy, Debug, PartialEq, Eq)]
pub struct UpdateMeta {
    pub block_number: u64,
    pub timestamp: Option<u64>,
}

impl View for UpdateMeta {
    type V = UpdateMeta;

    open spec fn view(&self) -> UpdateMeta {
        *self
    }
}

impl Record for UpdateMeta {
    fn duplicate(&self) -> (r: UpdateMeta) {
        *self
    }
}

/// A signed update with what was seen of it on chain.
#[derive(Clone, Copy, Debug, PartialEq, Eq)]
pub struct SignedUpdateWithMeta {
    pub signed_update: SignedUpdate,
    pub metadata: UpdateMeta,
}

/// A merkle inclusion proof: the leaf, its index and the sibling path.
#[derive(Clone, Copy, Debug, PartialEq, Eq)]
pub struct Proof {
    pub leaf: H256,
    pub index: usize,
    pub path: [H256; 32],
}

/// The proof kept for a leaf of the message tree.
pub type NomadProof = Proof;

impl View for Proof {
    type V = Proof;

    open spec fn view(&self) -> Proof {
        *self
    }
}

impl Record for Proof {
    fn duplicate(&self) -> (r: Proof) {
        *self
    }
}

} // verus!
