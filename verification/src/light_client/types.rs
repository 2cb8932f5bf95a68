//! Data model of the light client: byte strings of fixed width, validators,
//! commits, headers and light blocks, with the mathematical view of each.

use vstd::prelude::*;

verus! {

/// Height of a block in the chain.
pub type Height = u64;

/// Tells whether two byte arrays of the same width hold the same bytes.
pub fn bytes_match<const N: usize>(a: &[u8; N], b: &[u8; N]) -> (same: bool)
    ensures
        same == (*a == *b),
{
    let mut i: usize = 0;
    while i < N
        invariant
            i <= N,
            forall|k: int| 0 <= k < i ==> a[k] == b[k],
        decreases N - i,
    {
        if a[i] != b[i] {
            return false;
        }
        i += 1;
    }
    assert(*a =~= *b);
    true
}

/// Copies a vector of plain values.
pub fn copy_of<T: Copy>(items: &Vec<T>) -> (copy: Vec<T>)
    ensures
        copy@ == items@,
{
    let mut copy: Vec<T> = Vec::new();
    let mut i: usize = 0;
    while i < items.len()
        invariant
            i <= items.len(),
            copy@ == items@.take(i as int),
        decreases items.len() - i,
    {
        copy.push(items[i]);
        i += 1;
    }
    assert(copy@ =~= items@);
    copy
}

/// A 32-byte digest: the hash of a header or of a validator set.
#[derive(Clone, Copy, Debug, PartialEq, Eq)]
pub struct Digest {
    pub bytes: [u8; 32],
}

impl Digest {
    /// The digest that holds `bytes`.
    pub fn new(bytes: [u8; 32]) -> (digest: Self)
        ensures
            digest.bytes == bytes,
    {
        Digest { bytes }
    }

    /// Tells whether the two digests are the same.
    pub fn matches(&self, other: &Digest) -> (same: bool)
        ensures
            same == (*self == *other),
    {
        bytes_match(&self.bytes, &other.bytes)
    }
}

/// The 20-byte address of a validator.
#[derive(Clone, Copy, Debug, PartialEq, Eq)]
pub struct Address {
    pub bytes: [u8; 20],
}

impl Address {
    /// The address that holds `bytes`.
    pub fn new(bytes: [u8; 20]) -> (address: Self)
        ensures
            address.bytes == bytes,
    {
        Address { bytes }
    }

    /// Tells whether the two addresses are the same.
    pub fn matches(&self, other: &Address) -> (same: bool)
        ensures
            same == (*self == *other),
    {
        bytes_match(&self.bytes, &other.bytes)
    }
}

/// The 20-byte identifier of a peer.
#[derive(Clone, Copy, Debug, PartialEq, Eq)]
pub struct PeerId {
    pub bytes: [u8; 20],
}

impl PeerId {
    /// The identifier that holds `bytes`.
    pub fn new(bytes: [u8; 20]) -> (peer: Self)
        ensures
            peer.bytes == bytes,
    {
        PeerId { bytes }
    }

    /// Tells whether the two identifiers are the same.
    pub fn matches(&self, other: &PeerId) -> (same: bool)
        ensures
            same == (*self == *other),
    {
        bytes_match(&self.bytes, &other.bytes)
    }
}

/// A 32-byte public key.
#[derive(Clone, Copy, Debug, PartialEq, Eq)]
pub struct PublicKey {
    pub bytes: [u8; 32],
}

/// A 64-byte signature.
#[derive(Clone, Copy, Debug, PartialEq, Eq)]
pub struct Signature {
    pub bytes: [u8; 64],
}

/// A point in time, in nanoseconds since the Unix epoch.
#[derive(Clone, Copy, Debug, PartialEq, Eq, Structural)]
pub struct Time(pub u64);

/// A span of time, in nanoseconds.
#[derive(Clone, Copy, Debug, PartialEq, Eq, Structural)]
pub struct Duration(pub u64);

/// A validator: who it is, how much it weighs, and the key it signs with.
#[derive(Clone, Copy, Debug, PartialEq, Eq)]
pub struct Validator {
    pub address: Address,
    pub voting_power: u64,
    pub pubkey: PublicKey,
}

/// Sum of the voting power of all validators in `vals`.
pub open spec fn total_power(vals: Seq<Validator>) -> nat
    decreases vals.len(),
{
    if vals.len() == 0 {
        0
    } else {
        total_power(vals.drop_last()) + vals.last().voting_power as nat
    }
}

/// `i` is the first position in `vals` whose validator has `address`.
pub open spec fn first_at(vals: Seq<Validator>, address: Address, i: int) -> bool {
    &&& 0 <= i < vals.len()
    &&& vals[i].address == address
    &&& forall|j: int| 0 <= j < i ==> (#[trigger] vals[j]).address != address
}

/// The first position in `vals` whose validator has `address`, if any.
pub open spec fn position_of(vals: Seq<Validator>, address: Address) -> Option<int> {
    if exists|i: int| first_at(vals, address, i) {
        Some(choose|i: int| first_at(vals, address, i))
    } else {
        None
    }
}

/// The first validator in `vals` with `address`, if any.
pub open spec fn lookup(vals: Seq<Validator>, address: Address) -> Option<Validator> {
    match position_of(vals, address) {
        Some(i) => Some(vals[i]),
        None => None,
    }
}

/// Two first positions of one address coincide.
pub proof fn lemma_first_at_unique(vals: Seq<Validator>, address: Address, i: int, j: int)
    requires
        first_at(vals, address, i),
        first_at(vals, address, j),
    ensures
        i == j,
{
    if i < j {
        assert(vals[i].address != address);
    } else if j < i {
        assert(vals[j].address != address);
    }
}

/// What `position_of` answers, spelled out.
pub proof fn lemma_position_of(vals: Seq<Validator>, address: Address)
    ensures
        match position_of(vals, address) {
            Some(i) => first_at(vals, address, i),
            None => forall|j: int| 0 <= j < vals.len() ==> (#[trigger] vals[j]).address != address,
        },
{
    if exists|i: int| first_at(vals, address, i) {
    } else {
        assert forall|j: int| 0 <= j < vals.len() implies (#[trigger] vals[j]).address
            != address by {
            if vals[j].address == address {
                lemma_some_first_at(vals, address, j);
            }
        }
    }
}

/// Where an address occurs at all, it has a first position.
proof fn lemma_some_first_at(vals: Seq<Validator>, address: Address, j: int)
    requires
        0 <= j < vals.len(),
        vals[j].address == address,
    ensures
        exists|i: int| first_at(vals, address, i),
    decreases j,
{
    if forall|k: int| 0 <= k < j ==> (#[trigger] vals[k]).address != address {
        assert(first_at(vals, address, j));
    } else {
        let k = choose|k: int| 0 <= k < j && (#[trigger] vals[k]).address == address;
        lemma_some_first_at(vals, address, k);
    }
}

/// The power of a prefix is at most that of the whole.
pub proof fn lemma_total_power_prefix(vals: Seq<Validator>, n: int)
    requires
        0 <= n <= vals.len(),
    ensures
        total_power(vals.take(n)) <= total_power(vals),
    decreases vals.len() - n,
{
    if n == vals.len() {
        assert(vals.take(n) =~= vals);
    } else {
        lemma_total_power_prefix(vals, n + 1);
        assert(vals.take(n + 1).drop_last() =~= vals.take(n));
    }
}

/// An ordered set of validators whose total voting power fits in 64 bits.
#[derive(Debug, PartialEq, Eq)]
pub struct ValidatorSet {
    validators: Vec<Validator>,
}

impl View for ValidatorSet {
    type V = Seq<Validator>;

    closed spec fn view(&self) -> Seq<Validator> {
        self.validators@
    }
}

impl Clone for ValidatorSet {
    fn clone(&self) -> (copy: Self)
        ensures
            copy@ == self@,
    {
        proof {
            use_type_invariant(self);
        }
        ValidatorSet { validators: copy_of(&self.validators) }
    }
}

impl ValidatorSet {
    #[verifier::type_invariant]
    spec fn bounded(self) -> bool {
        total_power(self.validators@) <= u64::MAX
    }

    /// Builds the set from its validators, in their order. Refuses a set
    /// whose total voting power does not fit in 64 bits.
    pub fn new(validators: Vec<Validator>) -> (set: Option<ValidatorSet>)
        ensures
            set is Some <==> total_power(validators@) <= u64::MAX,
            set matches Some(s) ==> s@ == validators@,
    {
        let mut sum: u64 = 0;
        let mut i: usize = 0;
        while i < validators.len()
            invariant
                i <= validators.len(),
                sum == total_power(validators@.take(i as int)),
            decreases validators.len() - i,
        {
            proof {
                assert(validators@.take(i + 1).drop_last() =~= validators@.take(i as int));
            }
            let power: u64 = validators[i].voting_power;
            if power > u64::MAX - sum {
                proof {
                    lemma_total_power_prefix(validators@, i + 1);
                }
                return None;
            }
            sum = sum + power;
            i += 1;
        }
        proof {
            assert(validators@.take(i as int) =~= validators@);
        }
        Some(ValidatorSet { validators })
    }

    /// The validators, in the set's order.
    pub fn validators(&self) -> (vals: &Vec<Validator>)
        ensures
            vals@ == self@,
    {
        &self.validators
    }

    /// Number of validators in the set.
    pub fn len(&self) -> (n: usize)
        ensures
            n == self@.len(),
    {
        self.validators.len()
    }

    /// Total voting power of the set.
    pub fn total_power(&self) -> (total: u64)
        ensures
            total == total_power(self@),
    {
        proof {
            use_type_invariant(self);
        }
        let mut sum: u64 = 0;
        let mut i: usize = 0;
        while i < self.validators.len()
            invariant
                i <= self.validators.len(),
                sum == total_power(self.validators@.take(i as int)),
                total_power(self.validators@) <= u64::MAX,
            decreases self.validators.len() - i,
        {
            proof {
                assert(self.validators@.take(i + 1).drop_last() =~= self.validators@.take(
                    i as int,
                ));
                lemma_total_power_prefix(self.validators@, i + 1);
            }
            sum = sum + self.validators[i].voting_power;
            i += 1;
        }
        proof {
            assert(self.validators@.take(i as int) =~= self.validators@);
        }
        sum
    }

    /// Position of the first validator with `address`, if any.
    pub fn position(&self, address: &Address) -> (found: Option<usize>)
        ensures
            match found {
                Some(i) => position_of(self@, *address) == Some(i as int),
                None => position_of(self@, *address) is None,
            },
    {
        let mut i: usize = 0;
        while i < self.validators.len()
            invariant
                i <= self.validators.len(),
                forall|j: int| 0 <= j < i ==> (#[trigger] self.validators@[j]).address != *address,
            decreases self.validators.len() - i,
        {
            if self.validators[i].address.matches(address) {
                proof {
                    assert(first_at(self@, *address, i as int));
                    lemma_position_of(self@, *address);
                    lemma_first_at_unique(
                        self@,
                        *address,
                        i as int,
                        position_of(self@, *address)->0,
                    );
                }
                return Some(i);
            }
            i += 1;
        }
        proof {
            lemma_position_of(self@, *address);
        }
        None
    }

    /// The first validator with `address`, if any.
    pub fn validator(&self, address: &Address) -> (found: Option<Validator>)
        ensures
            found == lookup(self@, *address),
    {
        match self.position(address) {
            Some(i) => {
                proof {
                    lemma_position_of(self@, *address);
                }
                Some(self.validators[i])
            },
            None => None,
        }
    }
}

/// Identifies the block a commit is for.
#[derive(Clone, Copy, Debug, PartialEq, Eq)]
pub struct BlockId {
    pub hash: Digest,
}

/// One validator's entry in a commit.
#[derive(Clone, Copy, Debug, PartialEq, Eq)]
pub enum CommitSig {
    /// No signature was received from the validator at this position.
    Absent,
    /// The validator signed for the block.
    Commit { validator_address: Address, timestamp: Time, signature: Signature },
    /// The validator signed for nil.
    Nil { validator_address: Address, timestamp: Time, signature: Signature },
}

impl CommitSig {
    /// The signer's address, where there is a signature.
    pub open spec fn signer(self) -> Option<Address> {
        match self {
            CommitSig::Absent => None,
            CommitSig::Commit { validator_address, .. } => Some(validator_address),
            CommitSig::Nil { validator_address, .. } => Some(validator_address),
        }
    }

    /// Tells whether the entry holds no signature.
    pub fn is_absent(&self) -> (absent: bool)
        ensures
            absent == (*self is Absent),
    {
        match self {
            CommitSig::Absent => true,
            _ => false,
        }
    }

    /// Tells whether the entry is a signature for the block.
    pub fn is_commit(&self) -> (commit: bool)
        ensures
            commit == (*self is Commit),
    {
        match self {
            CommitSig::Commit { .. } => true,
            _ => false,
        }
    }

    /// Tells whether the entry is a signature for nil.
    pub fn is_nil(&self) -> (nil: bool)
        ensures
            nil == (*self is Nil),
    {
        match self {
            CommitSig::Nil { .. } => true,
            _ => false,
        }
    }

    /// The signer's address, where there is a signature.
    pub fn validator_address(&self) -> (address: Option<Address>)
        ensures
            address == self.signer(),
    {
        match self {
            CommitSig::Absent => None,
            CommitSig::Commit { validator_address, .. } => Some(*validator_address),
            CommitSig::Nil { validator_address, .. } => Some(*validator_address),
        }
    }
}

/// The precommits gathered for a block, one entry per validator, in the
/// validators' order.
#[derive(Debug, PartialEq, Eq)]
pub struct Commit {
    pub height: Height,
    pub round: u32,
    pub block_id: BlockId,
    pub signatures: Vec<CommitSig>,
}

/// Mathematical view of a [`Commit`].
pub struct CommitView {
    pub height: Height,
    pub round: u32,
    pub block_id: BlockId,
    pub signatures: Seq<CommitSig>,
}

impl Clone for Commit {
    fn clone(&self) -> (copy: Self)
        ensures
            copy@ == self@,
    {
        Commit {
            height: self.height,
            round: self.round,
            block_id: self.block_id,
            signatures: copy_of(&self.signatures),
        }
    }
}

impl View for Commit {
    type V = CommitView;

    open spec fn view(&self) -> CommitView {
        CommitView {
            height: self.height,
            round: self.round,
            block_id: self.block_id,
            signatures: self.signatures@,
        }
    }
}

/// A block header, as far as the light client reads it.
#[derive(Debug, PartialEq, Eq)]
pub struct Header {
    pub chain_id: Vec<u8>,
    pub height: Height,
    pub time: Time,
    pub last_commit_hash: Digest,
    pub validators_hash: Digest,
    pub next_validators_hash: Digest,
    pub app_hash: Digest,
}

/// Mathematical view of a [`Header`].
pub struct HeaderView {
    pub chain_id: Seq<u8>,
    pub height: Height,
    pub time: Time,
    pub last_commit_hash: Digest,
    pub validators_hash: Digest,
    pub next_validators_hash: Digest,
    pub app_hash: Digest,
}

impl Clone for Header {
    fn clone(&self) -> (copy: Self)
        ensures
            copy@ == self@,
    {
        Header {
            chain_id: copy_of(&self.chain_id),
            height: self.height,
            time: self.time,
            last_commit_hash: self.last_commit_hash,
            validators_hash: self.validators_hash,
            next_validators_hash: self.next_validators_hash,
            app_hash: self.app_hash,
        }
    }
}

impl View for Header {
    type V = HeaderView;

    open spec fn view(&self) -> HeaderView {
        HeaderView {
            chain_id: self.chain_id@,
            height: self.height,
            time: self.time,
            last_commit_hash: self.last_commit_hash,
            validators_hash: self.validators_hash,
            next_validators_hash: self.next_validators_hash,
            app_hash: self.app_hash,
        }
    }
}

/// A header with the commit that signs it.
#[derive(Debug, PartialEq, Eq)]
pub struct SignedHeader {
    pub header: Header,
    pub commit: Commit,
}

/// Mathematical view of a [`SignedHeader`].
pub struct SignedHeaderView {
    pub header: HeaderView,
    pub commit: CommitView,
}

impl Clone for SignedHeader {
    fn clone(&self) -> (copy: Self)
        ensures
            copy@ == self@,
    {
        SignedHeader { header: self.header.clone(), commit: self.commit.clone() }
    }
}

impl View for SignedHeader {
    type V = SignedHeaderView;

    open spec fn view(&self) -> SignedHeaderView {
        SignedHeaderView { header: self.header@, commit: self.commit@ }
    }
}

/// A signed header with the validator set of its height and of the next,
/// and the peer that supplied it.
#[derive(Debug, PartialEq, Eq)]
pub struct LightBlock {
    pub signed_header: SignedHeader,
    pub validators: ValidatorSet,
    pub next_validators: ValidatorSet,
    pub provider: PeerId,
}

/// Mathematical view of a [`LightBlock`].
pub struct LightBlockView {
    pub signed_header: SignedHeaderView,
    pub validators: Seq<Validator>,
    pub next_validators: Seq<Validator>,
    pub provider: PeerId,
}

impl Clone for LightBlock {
    fn clone(&self) -> (copy: Self)
        ensures
            copy@ == self@,
    {
        LightBlock {
            signed_header: self.signed_header.clone(),
            validators: self.validators.clone(),
            next_validators: self.next_validators.clone(),
            provider: self.provider,
        }
    }
}

impl View for LightBlock {
    type V = LightBlockView;

    open spec fn view(&self) -> LightBlockView {
        LightBlockView {
            signed_header: self.signed_header@,
            validators: self.validators@,
            next_validators: self.next_validators@,
            provider: self.provider,
        }
    }
}

impl LightBlockView {
    /// Height of the block's header.
    pub open spec fn height(self) -> Height {
        self.signed_header.header.height
    }
}

impl LightBlock {
    /// The light block made of its parts.
    pub fn new(
        signed_header: SignedHeader,
        validators: ValidatorSet,
        next_validators: ValidatorSet,
        provider: PeerId,
    ) -> (block: Self)
        ensures
            block.signed_header == signed_header,
            block.validators == validators,
            block.next_validators == next_validators,
            block.provider == provider,
    {
        LightBlock { signed_header, validators, next_validators, provider }
    }

    /// Height of the block's header.
    pub fn height(&self) -> (h: Height)
        ensures
            h == self@.height(),
    {
        self.signed_header.header.height
    }
}

/// The product of two 64-bit numbers fits in 128 bits.
pub proof fn lemma_product_fits(a: u64, b: u64)
    ensures
        a * b <= u128::MAX,
{
    assert(a * b <= 0xffff_ffff_ffff_ffff * 0xffff_ffff_ffff_ffff) by (nonlinear_arith)
        requires
            0 <= a <= 0xffff_ffff_ffff_ffff,
            0 <= b <= 0xffff_ffff_ffff_ffff,
    ;
}

/// A fraction between one third and one: the least share of a trusted
/// validator set that must have signed a header for it to be trusted.
#[derive(Clone, Copy, Debug, PartialEq, Eq)]
pub struct TrustThreshold {
    numerator: u64,
    denominator: u64,
}

impl TrustThreshold {
    #[verifier::type_invariant]
    spec fn in_range(self) -> bool {
        self.wf()
    }

    /// Numerator of the fraction.
    pub closed spec fn num(self) -> nat {
        self.numerator as nat
    }

    /// Denominator of the fraction.
    pub closed spec fn den(self) -> nat {
        self.denominator as nat
    }

    /// The fraction `n / d`.
    pub closed spec fn fraction(n: u64, d: u64) -> TrustThreshold {
        TrustThreshold { numerator: n, denominator: d }
    }

    /// What a fraction is made of: `fraction(n, d)` has the numerator `n`
    /// and the denominator `d`.
    pub proof fn lemma_fraction(n: u64, d: u64)
        ensures
            Self::fraction(n, d).num() == n,
            Self::fraction(n, d).den() == d,
    {
    }

    /// The fraction lies between one third and one.
    pub open spec fn wf(self) -> bool {
        &&& self.den() > 0
        &&& self.num() <= self.den()
        &&& 3 * self.num() >= self.den()
    }

    /// `tallied` out of `total` reaches the threshold. Nothing reaches it
    /// where there is no power at all.
    pub open spec fn met_by(self, tallied: nat, total: nat) -> bool {
        total > 0 && tallied * self.den() >= total * self.num()
    }

    /// The fraction `numerator / denominator`, where it lies between one
    /// third and one.
    pub fn new(numerator: u64, denominator: u64) -> (threshold: Option<TrustThreshold>)
        ensures
            threshold is Some <==> denominator > 0 && numerator <= denominator && 3 * numerator
                >= denominator,
            threshold matches Some(t) ==> t == Self::fraction(numerator, denominator) && t.num()
                == numerator && t.den() == denominator,
    {
        if denominator > 0 && numerator <= denominator && (numerator as u128) * 3
            >= denominator as u128 {
            Some(TrustThreshold { numerator, denominator })
        } else {
            None
        }
    }

    /// One third, the canonical threshold.
    pub fn one_third() -> (threshold: TrustThreshold)
        ensures
            threshold == Self::fraction(1, 3),
            threshold.num() == 1,
            threshold.den() == 3,
    {
        TrustThreshold { numerator: 1, denominator: 3 }
    }

    /// Two thirds, against which a header's own signers are measured.
    pub fn two_thirds() -> (threshold: TrustThreshold)
        ensures
            threshold == Self::fraction(2, 3),
            threshold.num() == 2,
            threshold.den() == 3,
    {
        TrustThreshold { numerator: 2, denominator: 3 }
    }

    /// Numerator of the fraction.
    pub fn numerator(&self) -> (n: u64)
        ensures
            n == self.num(),
    {
        self.numerator
    }

    /// Denominator of the fraction.
    pub fn denominator(&self) -> (d: u64)
        ensures
            d == self.den(),
    {
        self.denominator
    }

    /// Tells whether `tallied` out of `total` reaches the threshold.
    pub fn is_enough_power(&self, tallied: u64, total: u64) -> (enough: bool)
        ensures
            enough == self.met_by(tallied as nat, total as nat),
    {
        proof {
            lemma_product_fits(tallied, self.denominator);
            lemma_product_fits(total, self.numerator);
        }
        total > 0 && (tallied as u128) * (self.denominator as u128) >= (total as u128) * (
        self.numerator as u128)
    }

}

impl Default for TrustThreshold {
    fn default() -> (threshold: TrustThreshold)
        ensures
            threshold == TrustThreshold::fraction(1, 3),
            threshold.num() == 1,
            threshold.den() == 3,
    {
        TrustThreshold::one_third()
    }
}

/// `tallied` out of `total` is strictly more than two thirds.
pub open spec fn more_than_two_thirds(tallied: nat, total: nat) -> bool {
    tallied * 3 > total * 2
}

/// Tells whether `tallied` out of `total` is strictly more than two thirds.
pub fn exceeds_two_thirds(tallied: u64, total: u64) -> (enough: bool)
    ensures
        enough == more_than_two_thirds(tallied as nat, total as nat),
{
    (tallied as u128) * 3 > (total as u128) * 2
}

/// How the light client is told to verify.
#[derive(Clone, Copy, Debug, PartialEq, Eq)]
pub struct Options {
    /// Least share of the trusted validators that must have signed.
    pub trust_threshold: TrustThreshold,
    /// How long a trusted block stays usable as an anchor.
    pub trusting_period: Duration,
    /// How far ahead of the local clock a header's time may lie.
    pub clock_drift: Duration,
}

/// State of a block in the light store.
#[derive(Clone, Copy, Debug, PartialEq, Eq, Structural)]
pub enum Status {
    /// Fetched, not yet verified.
    Unverified,
    /// Verified, not yet trusted.
    Verified,
    /// Trusted: may anchor further verification.
    Trusted,
    /// Verification failed.
    Failed,
}

impl Status {
    /// A block in state `self` may pass to state `next`: forward along
    /// `Unverified`, `Verified`, `Trusted`, or to `Failed` while it is not
    /// trusted. `Trusted` and `Failed` are final for the block.
    pub open spec fn may_become(self, next: Status) -> bool {
        self == next || match self {
            Status::Unverified => true,
            Status::Verified => next is Trusted || next is Failed,
            Status::Trusted => false,
            Status::Failed => false,
        }
    }

    /// Tells whether a block in state `self` may pass to state `next`.
    pub fn can_become(&self, next: Status) -> (allowed: bool)
        ensures
            allowed == self.may_become(next),
    {
        match (*self, next) {
            (Status::Unverified, _) => true,
            (Status::Verified, Status::Unverified) => false,
            (Status::Verified, _) => true,
            (Status::Trusted, Status::Trusted) => true,
            (Status::Trusted, _) => false,
            (Status::Failed, Status::Failed) => true,
            (Status::Failed, _) => false,
        }
    }
}

} // verus!
