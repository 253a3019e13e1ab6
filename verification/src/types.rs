//! The plain-value data model: addresses, committee members and committees.

use vstd::prelude::*;
use rand::RngExt;

verus! {

/// Byte-for-byte copy of a byte vector, with the copy's contents known.
pub fn dup_bytes(v: &Vec<u8>) -> (r: Vec<u8>)
    ensures
        r@ == v@,
{
    let mut r: Vec<u8> = Vec::new();
    let mut i: usize = 0;
    while i < v.len()
        invariant
            i <= v.len(),
            r@ =~= v@.take(i as int),
        decreases v.len() - i,
    {
        r.push(v[i]);
        i += 1;
    }
    proof {
        assert(r@ =~= v@);
    }
    r
}

/// A 20-byte account or contract address.
#[derive(Debug, Clone, PartialEq, Eq)]
pub struct Address {
    pub bytes: Vec<u8>,
}

impl View for Address {
    type V = Seq<u8>;

    open spec fn view(&self) -> Seq<u8> {
        self.bytes@
    }
}

impl Address {
    /// A valid address is exactly 20 bytes long.
    pub open spec fn wf(&self) -> bool {
        self@.len() == 20
    }

    /// Wrap raw bytes as an address; rejects any length other than 20.
    pub fn from_bytes(bytes: Vec<u8>) -> (r: Option<Address>)
        ensures
            match r {
                Some(a) => a.wf() && a@ == bytes@,
                None => bytes@.len() != 20,
            },
    {
        if bytes.len() == 20 {
            Some(Address { bytes })
        } else {
            None
        }
    }

    /// A copy of this address with the same bytes.
    pub fn dup(&self) -> (r: Address)
        ensures
            r@ == self@,
    {
        Address { bytes: dup_bytes(&self.bytes) }
    }

    /// The all-zero address.
    pub fn zero() -> (r: Address)
        ensures
            r.wf(),
            forall|i: int| 0 <= i < 20 ==> r@[i] == 0u8,
    {
        let mut bytes: Vec<u8> = Vec::new();
        let mut i: usize = 0;
        while i < 20
            invariant
                i <= 20,
                bytes@.len() == i,
                forall|j: int| 0 <= j < i ==> bytes@[j] == 0u8,
            decreases 20 - i,
        {
            bytes.push(0u8);
            i += 1;
        }
        Address { bytes }
    }
}

/// A committee participant's public material. Immutable once constructed;
/// equality is byte-wise over the fields.
#[derive(Debug, Clone, PartialEq, Eq)]
pub struct CommitteeMember {
    /// Signing key, an opaque byte blob.
    pub sig_key: Vec<u8>,
    /// Diffie-Hellman key, an opaque byte blob.
    pub dh_key: Vec<u8>,
    /// DKG key, an opaque byte blob.
    pub dkg_key: Vec<u8>,
    /// Network address string.
    pub network_address: String,
    /// Batch-poster address string.
    pub batch_poster_address: String,
    /// The address derived from the signing key.
    pub sig_key_address: Address,
}

impl CommitteeMember {
    pub open spec fn wf(&self) -> bool {
        self.sig_key_address.wf()
    }

    /// Assemble a member from its parts.
    pub fn new(
        sig_key: Vec<u8>,
        dh_key: Vec<u8>,
        dkg_key: Vec<u8>,
        network_address: String,
        batch_poster_address: String,
        sig_key_address: Address,
    ) -> (r: CommitteeMember)
        requires
            sig_key_address.wf(),
        ensures
            r.wf(),
            r.sig_key@ == sig_key@,
            r.dh_key@ == dh_key@,
            r.dkg_key@ == dkg_key@,
            r.network_address@ == network_address@,
            r.batch_poster_address@ == batch_poster_address@,
            r.sig_key_address@ == sig_key_address@,
    {
        CommitteeMember {
            sig_key,
            dh_key,
            dkg_key,
            network_address,
            batch_poster_address,
            sig_key_address,
        }
    }
}

/// Relies on `rand::rng` and `rand::RngExt::random`: 32 bytes drawn from the
/// thread-local generator. Nothing is promised of their values.
#[verifier::external_body]
fn random_bytes32() -> (r: Vec<u8>)
    ensures
        r@.len() == 32,
{
    let mut rng = rand::rng();
    rng.random::<[u8; 32]>().to_vec()
}

/// Relies on `rand::rng` and `rand::RngExt::random`: one port number drawn from
/// the thread-local generator. Nothing is promised of its value.
#[verifier::external_body]
fn random_u16() -> u16 {
    let mut rng = rand::rng();
    rng.random::<u16>()
}

/// Append the decimal digits of `v`, most significant first.
fn push_decimal(s: &mut String, v: u16) {
    let mut digits: Vec<u16> = Vec::new();
    let mut x: u16 = v;
    if x == 0 {
        s.append("0");
        return;
    }
    while x > 0
        decreases x,
    {
        digits.push(x % 10);
        x = x / 10;
    }
    let mut i: usize = digits.len();
    while i > 0
        invariant
            i <= digits.len(),
        decreases i,
    {
        i = i - 1;
        let digit = digits[i];
        if digit == 0 {
            s.append("0");
        } else if digit == 1 {
            s.append("1");
        } else if digit == 2 {
            s.append("2");
        } else if digit == 3 {
            s.append("3");
        } else if digit == 4 {
            s.append("4");
        } else if digit == 5 {
            s.append("5");
        } else if digit == 6 {
            s.append("6");
        } else if digit == 7 {
            s.append("7");
        } else if digit == 8 {
            s.append("8");
        } else {
            s.append("9");
        }
    }
}

/// A loopback address with a decimal port, `127.0.0.1:<port>`.
fn loopback_with_port(port: u16) -> (r: String) {
    let mut s = String::from_str("127.0.0.1:");
    push_decimal(&mut s, port);
    s
}

impl CommitteeMember {
    /// A member with freshly drawn key material, loopback network addresses
    /// on random ports, and the zero signing address.
    pub fn random() -> (r: CommitteeMember)
        ensures
            r.wf(),
            r.sig_key@.len() == 32,
            r.dh_key@.len() == 32,
            r.dkg_key@.len() == 32,
    {
        CommitteeMember {
            sig_key: random_bytes32(),
            dh_key: random_bytes32(),
            dkg_key: random_bytes32(),
            network_address: loopback_with_port(random_u16()),
            batch_poster_address: loopback_with_port(random_u16()),
            sig_key_address: Address::zero(),
        }
    }
}

/// All members of a sequence are well formed.
pub open spec fn members_wf(ms: Seq<CommitteeMember>) -> bool {
    forall|i: int| 0 <= i < ms.len() ==> (#[trigger] ms[i]).wf()
}

/// An identified, time-scoped set of committee members. Created exactly once
/// per successful registration; never mutated after creation.
#[derive(Debug, Clone, PartialEq, Eq)]
pub struct Committee {
    /// Monotonically increasing id assigned by the contract, starting at 0.
    pub id: u64,
    /// The block in which the registering transaction landed.
    pub registered_block_number: u64,
    /// When the committee becomes active.
    pub effective_timestamp: u64,
    /// The ordered member list.
    pub members: Vec<CommitteeMember>,
}

impl Committee {
    pub open spec fn wf(&self) -> bool {
        members_wf(self.members@)
    }
}

} // verus!
