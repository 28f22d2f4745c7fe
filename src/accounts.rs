//! Accounts: a secp256k1 secret key and the address derived from it; the
//! provisioning of fresh accounts and the import of the funder's key.

use crate::error::{ConfigIssue, DtpError};
use ethers::signers::{LocalWallet, Signer};
use vstd::prelude::*;

verus! {

/// Big-endian value of a byte string.
pub open spec fn be_value(s: Seq<u8>) -> nat
    decreases s.len(),
{
    if s.len() == 0 {
        0
    } else {
        be_value(s.drop_last()) * 256 + s.last() as nat
    }
}

/// Order of the secp256k1 group.
pub open spec fn curve_order() -> nat {
    0xFFFF_FFFF_FFFF_FFFF_FFFF_FFFF_FFFF_FFFE_BAAE_DCE6_AF48_A03B_BFD2_5E8C_D036_4141nat
}

/// A secret key: 32 big-endian bytes of a scalar in `1 .. curve_order()`.
pub open spec fn valid_secret(k: Seq<u8>) -> bool {
    k.len() == 32 && 0 < be_value(k) && be_value(k) < curve_order()
}

/// The address of the account whose secret key is `k`: the last 20 bytes of
/// the Keccak-256 digest of its uncompressed public key.
pub uninterp spec fn key_address(k: Seq<u8>) -> Seq<u8>;

/// A 20-byte account address.
#[derive(Clone, Copy, Debug, PartialEq, Eq)]
pub struct Address {
    pub bytes: [u8; 20],
}

/// An ephemeral account.
#[derive(Debug)]
pub struct Account {
    secret: [u8; 32],
    address: Address,
}

impl Account {
    /// The address is the one derived from the secret key, which is valid.
    #[verifier::type_invariant]
    spec fn derived(&self) -> bool {
        valid_secret(self.secret@) && self.address.bytes@ == key_address(self.secret@)
    }

    /// The address is the one derived from the secret key.
    pub open spec fn wf(&self) -> bool {
        valid_secret(self.secret_view()) && self.address_view().bytes@ == key_address(
            self.secret_view(),
        )
    }

    pub closed spec fn secret_view(&self) -> Seq<u8> {
        self.secret@
    }

    pub closed spec fn address_view(&self) -> Address {
        self.address
    }

    pub fn secret(&self) -> (r: [u8; 32])
        ensures
            r@ == self.secret_view(),
            valid_secret(r@),
    {
        proof {
            use_type_invariant(self);
        }
        self.secret
    }

    pub fn address(&self) -> (r: Address)
        ensures
            r == self.address_view(),
            r.bytes@ == key_address(self.secret_view()),
    {
        proof {
            use_type_invariant(self);
        }
        self.address
    }
}

/// Relies on `LocalWallet::from_bytes` of ethers: it accepts exactly the
/// 32-byte big-endian scalars in `1 .. curve_order()` and derives the address
/// from the key alone.
#[verifier::external_body]
fn signer_address(secret: &[u8; 32]) -> (r: Option<Address>)
    ensures
        r is Some <==> valid_secret(secret@),
        r matches Some(a) ==> a.bytes@ == key_address(secret@),
{
    LocalWallet::from_bytes(secret).ok().map(|w| Address { bytes: w.address().0 })
}

/// Relies on `LocalWallet::new` of ethers, drawing from the thread-local
/// cryptographic generator: the key is a random non-zero scalar.
#[verifier::external_body]
fn random_secret() -> (r: [u8; 32])
    ensures
        valid_secret(r@),
{
    LocalWallet::new(&mut ethers::core::rand::thread_rng()).signer().to_bytes().into()
}

/// Whether two addresses hold the same bytes.
pub fn same_address(a: &Address, b: &Address) -> (r: bool)
    ensures
        r == (a.bytes@ == b.bytes@),
{
    let mut i: usize = 0;
    while i < 20
        invariant
            i <= 20,
            forall|k: int| 0 <= k < i ==> a.bytes@[k] == b.bytes@[k],
        decreases 20 - i,
    {
        if a.bytes[i] != b.bytes[i] {
            return false;
        }
        i += 1;
    }
    assert(a.bytes@ =~= b.bytes@);
    true
}

/// No two of the accounts share an address.
pub open spec fn distinct_addresses(accts: Seq<Account>) -> bool {
    forall|i: int, j: int|
        0 <= i < j < accts.len() ==> #[trigger] accts[i].address_view().bytes@ != #[trigger] accts[j].address_view().bytes@
}

/// No two of the keys give one address.
pub open spec fn distinct_key_addresses(keys: Seq<[u8; 32]>) -> bool {
    forall|i: int, j: int|
        0 <= i < j < keys.len() ==> #[trigger] key_address(keys[i]@) != #[trigger] key_address(keys[j]@)
}

/// Turns secret keys into accounts, in the order given. Every key must be
/// valid, and no two keys may give one address.
pub fn provision(secrets: &Vec<[u8; 32]>) -> (r: Result<Vec<Account>, DtpError>)
    ensures
        (exists|i: int| 0 <= i < secrets@.len() && !valid_secret(#[trigger] secrets@[i]@)) ==> r
            == Err::<Vec<Account>, DtpError>(
            DtpError::Configuration(ConfigIssue::MalformedPrivateKey),
        ),
        (forall|i: int| 0 <= i < secrets@.len() ==> valid_secret(#[trigger] secrets@[i]@))
            && !distinct_key_addresses(secrets@) ==> r == Err::<Vec<Account>, DtpError>(
            DtpError::DuplicateAddress,
        ),
        (forall|i: int| 0 <= i < secrets@.len() ==> valid_secret(#[trigger] secrets@[i]@))
            && distinct_key_addresses(secrets@) ==> r is Ok,
        r matches Ok(v) ==> {
            &&& v@.len() == secrets@.len()
            &&& distinct_addresses(v@)
            &&& forall|i: int|
                0 <= i < v@.len() ==> (#[trigger] v@[i]).wf() && v@[i].secret_view()
                    == secrets@[i]@
        },
{
    let mut accts: Vec<Account> = Vec::new();
    let mut i: usize = 0;
    while i < secrets.len()
        invariant
            i <= secrets@.len(),
            accts@.len() == i,
            forall|k: int|
                0 <= k < i ==> (#[trigger] accts@[k]).wf() && accts@[k].secret_view()
                    == secrets@[k]@,
        decreases secrets@.len() - i,
    {
        match signer_address(&secrets[i]) {
            Some(address) => {
                accts.push(Account { secret: secrets[i], address });
            },
            None => {
                return Err(DtpError::Configuration(ConfigIssue::MalformedPrivateKey));
            },
        }
        i += 1;
    }
    assert forall|m: int| 0 <= m < secrets@.len() implies valid_secret(#[trigger] secrets@[m]@) by {
        assert(accts@[m].wf());
    }
    let mut j: usize = 1;
    while j < accts.len()
        invariant
            1 <= j,
            j <= accts@.len() || accts@.len() == 0,
            accts@.len() == secrets@.len(),
            forall|m: int| 0 <= m < secrets@.len() ==> valid_secret(#[trigger] secrets@[m]@),
            forall|k: int|
                0 <= k < accts@.len() ==> (#[trigger] accts@[k]).wf() && accts@[k].secret_view()
                    == secrets@[k]@,
            forall|a: int, b: int|
                0 <= a < b < j && b < accts@.len() ==> #[trigger] key_address(secrets@[a]@) != #[trigger] key_address(secrets@[b]@),
        decreases accts@.len() - j,
    {
        let mut k: usize = 0;
        while k < j
            invariant
                k <= j,
                j < accts@.len(),
                accts@.len() == secrets@.len(),
                forall|m: int| 0 <= m < secrets@.len() ==> valid_secret(#[trigger] secrets@[m]@),
                forall|m: int|
                    0 <= m < accts@.len() ==> (#[trigger] accts@[m]).wf()
                        && accts@[m].secret_view() == secrets@[m]@,
                forall|a: int| 0 <= a < k ==> #[trigger] key_address(secrets@[a]@) != key_address(secrets@[j as int]@),
            decreases j - k,
        {
            if same_address(&accts[k].address, &accts[j].address) {
                assert(key_address(secrets@[k as int]@) == key_address(secrets@[j as int]@));
                return Err(DtpError::DuplicateAddress);
            }
            k += 1;
        }
        j += 1;
    }
    Ok(accts)
}

/// Creates `n` fresh accounts from random keys, in the order they were drawn.
/// A clash of two addresses, which is astronomically unlikely, is reported
/// rather than hidden.
pub fn generate(n: usize) -> (r: Result<Vec<Account>, DtpError>)
    ensures
        n <= 1 ==> r is Ok,
        match r {
            Ok(v) => v@.len() == n && distinct_addresses(v@) && forall|i: int|
                0 <= i < v@.len() ==> (#[trigger] v@[i]).wf(),
            Err(e) => e == DtpError::DuplicateAddress,
        },
{
    let mut secrets: Vec<[u8; 32]> = Vec::new();
    let mut i: usize = 0;
    while i < n
        invariant
            i <= n,
            secrets@.len() == i,
            forall|k: int| 0 <= k < i ==> valid_secret(#[trigger] secrets@[k]@),
        decreases n - i,
    {
        secrets.push(random_secret());
        i += 1;
    }
    provision(&secrets)
}

/// Value of a hexadecimal digit, or -1 for any other character.
pub open spec fn nibble_value(c: char) -> int {
    if '0' <= c && c <= '9' {
        c as int - '0' as int
    } else if 'a' <= c && c <= 'f' {
        c as int - 'a' as int + 10
    } else if 'A' <= c && c <= 'F' {
        c as int - 'A' as int + 10
    } else {
        -1
    }
}

/// The text without a leading `0x` or `0X`.
pub open spec fn strip_hex_prefix(s: Seq<char>) -> Seq<char> {
    if s.len() >= 2 && s[0] == '0' && (s[1] == 'x' || s[1] == 'X') {
        s.subrange(2, s.len() as int)
    } else {
        s
    }
}

/// The bytes that a hexadecimal text spells, two digits a byte, after an
/// optional `0x` prefix; `None` for an odd length or a character that is not
/// a hexadecimal digit.
pub open spec fn hex_decoded(s: Seq<char>) -> Option<Seq<u8>> {
    let t = strip_hex_prefix(s);
    if s.len() % 2 == 0 && forall|i: int| 0 <= i < t.len() ==> nibble_value(#[trigger] t[i]) >= 0 {
        Some(Seq::new((t.len() / 2) as nat, |i: int| (nibble_value(t[2 * i]) * 16 + nibble_value(t[2 * i + 1])) as u8))
    } else {
        None
    }
}

/// Relies on `hex::decode` as ethers re-exports it (the const-hex crate): it
/// refuses an odd length, drops one `0x` or `0X` prefix and reads two digits
/// of either case a byte.
#[verifier::external_body]
fn decode_hex(s: &str) -> (r: Option<Vec<u8>>)
    ensures
        r is None <==> hex_decoded(s@) is None,
        r matches Some(b) ==> hex_decoded(s@) == Some(b@),
{
    ethers::utils::hex::decode(s).ok()
}

/// Imports the funder's account from its secret key written in hexadecimal.
pub fn funder_from_hex(key: &str) -> (r: Result<Account, DtpError>)
    ensures
        r is Ok <==> (hex_decoded(key@) matches Some(b) && valid_secret(b)),
        r matches Ok(a) ==> a.wf() && hex_decoded(key@) == Some(a.secret_view()),
        r matches Err(e) ==> e == DtpError::Configuration(ConfigIssue::MalformedPrivateKey),
{
    let bytes = match decode_hex(key) {
        Some(b) => b,
        None => {
            return Err(DtpError::Configuration(ConfigIssue::MalformedPrivateKey));
        },
    };
    if bytes.len() != 32 {
        return Err(DtpError::Configuration(ConfigIssue::MalformedPrivateKey));
    }
    let mut secret = [0u8; 32];
    let mut i: usize = 0;
    while i < 32
        invariant
            i <= 32,
            bytes@.len() == 32,
            forall|k: int| 0 <= k < i ==> secret@[k] == bytes@[k],
        decreases 32 - i,
    {
        secret[i] = bytes[i];
        i += 1;
    }
    assert(secret@ =~= bytes@);
    match signer_address(&secret) {
        Some(address) => Ok(Account { secret, address }),
        None => Err(DtpError::Configuration(ConfigIssue::MalformedPrivateKey)),
    }
}

} // verus!
