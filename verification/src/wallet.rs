//! The wallet context a registry classifies devices against, and the
//! persisted per-device configuration.
//!
//! A wallet supplies the set of master-key fingerprints that count as signers,
//! the alias table loaded for them, and any previously stored per-fingerprint
//! device tokens used to re-register a spending policy without user
//! interaction. A `HardwareWalletConfig` is one such stored token, carried as
//! the lowercase hex encoding of its 32 bytes.

use vstd::prelude::*;

use crate::aliases::AliasMap;
use crate::chain::Fingerprint;
use crate::hw::{device_kind_name, DeviceKind};

verus! {

/// The lowercase hex digit of a value below 16.
pub open spec fn hex_digit(n: u8) -> char
    recommends
        n < 16,
{
    if n < 10 {
        ((n + 0x30) as u8) as char
    } else {
        ((n + 0x57) as u8) as char
    }
}

/// The lowercase hex encoding of a byte string: two digits per byte, high
/// digit first.
pub open spec fn hex_of_bytes(bs: Seq<u8>) -> Seq<char>
    decreases bs.len(),
{
    if bs.len() == 0 {
        Seq::empty()
    } else {
        seq![hex_digit(bs[0] / 16), hex_digit(bs[0] % 16)] + hex_of_bytes(bs.drop_first())
    }
}

/// The value of one hex digit, upper or lower case; `None` for any other
/// character.
pub open spec fn hex_val(c: char) -> Option<u8> {
    let n = c as u32;
    if 0x30 <= n && n <= 0x39 {
        Some((n - 0x30) as u8)
    } else if 0x41 <= n && n <= 0x46 {
        Some((n - 0x41 + 10) as u8)
    } else if 0x61 <= n && n <= 0x66 {
        Some((n - 0x61 + 10) as u8)
    } else {
        None
    }
}

/// A well-formed hex string: even length, every character a hex digit.
pub open spec fn is_hex_str(s: Seq<char>) -> bool {
    s.len() % 2 == 0 && forall|i: int| 0 <= i < s.len() ==> (#[trigger] hex_val(s[i])) is Some
}

/// The bytes a hex string stands for (meaningful when `is_hex_str`).
pub open spec fn bytes_of_hex(s: Seq<char>) -> Seq<u8>
    decreases s.len(),
{
    if s.len() < 2 {
        Seq::empty()
    } else {
        seq![
            (hex_val(s[0])->0 * 16 + hex_val(s[1])->0) as u8,
        ] + bytes_of_hex(s.skip(2))
    }
}

/// An encoded byte string is well-formed hex of twice the length.
pub proof fn lemma_hex_of_bytes_wf(bs: Seq<u8>)
    ensures
        hex_of_bytes(bs).len() == 2 * bs.len(),
        is_hex_str(hex_of_bytes(bs)),
    decreases bs.len(),
{
    if bs.len() > 0 {
        lemma_hex_of_bytes_wf(bs.drop_first());
    }
}

/// Decoding inverts encoding.
pub proof fn lemma_bytes_of_hex_of_bytes(bs: Seq<u8>)
    ensures
        bytes_of_hex(hex_of_bytes(bs)) == bs,
    decreases bs.len(),
{
    if bs.len() == 0 {
        assert(bytes_of_hex(hex_of_bytes(bs)) =~= bs);
    } else {
        lemma_bytes_of_hex_of_bytes(bs.drop_first());
        lemma_hex_of_bytes_wf(bs.drop_first());
        let s = hex_of_bytes(bs);
        assert(s.skip(2) =~= hex_of_bytes(bs.drop_first()));
        assert(hex_val(s[0]) == Some((bs[0] / 16) as u8));
        assert(hex_val(s[1]) == Some((bs[0] % 16) as u8));
        assert((hex_val(s[0])->0 * 16 + hex_val(s[1])->0) as u8 == bs[0]);
        assert(bytes_of_hex(s) =~= bs);
    }
}

/// The decoding of a well-formed hex string has half its length.
pub proof fn lemma_bytes_of_hex_len(s: Seq<char>)
    ensures
        bytes_of_hex(s).len() == s.len() / 2,
    decreases s.len(),
{
    if s.len() >= 2 {
        lemma_bytes_of_hex_len(s.skip(2));
    }
}

/// Relies on hex::encode: the lowercase hex encoding of the bytes, two digits
/// per byte, high digit first.
#[verifier::external_body]
fn hex_encode(bytes: &[u8]) -> (r: String)
    ensures
        r@ == hex_of_bytes(bytes@),
{
    hex::encode(bytes)
}

/// Relies on hex::decode: yields the decoded bytes exactly for an even-length
/// string of (upper or lower case) hex digits, and an error otherwise.
#[verifier::external_body]
fn hex_decode(text: &str) -> (r: Option<Vec<u8>>)
    ensures
        r is Some <==> is_hex_str(text@),
        r matches Some(v) ==> v@ == bytes_of_hex(text@),
{
    hex::decode(text).ok()
}

/// The persisted configuration of one signing device: its kind's display
/// name, its master-key fingerprint, and the registration token the device
/// returned when the wallet's policy was enrolled, hex-encoded.
#[derive(Debug)]
pub struct HardwareWalletConfig {
    pub kind: String,
    pub fingerprint: Fingerprint,
    pub token: String,
}

impl HardwareWalletConfig {
    /// The token field holds well-formed hex for exactly 32 bytes.
    pub open spec fn wf(self) -> bool {
        is_hex_str(self.token@) && self.token@.len() == 64
    }

    pub fn new(kind: &DeviceKind, fingerprint: Fingerprint, token: &[u8; 32]) -> (r:
        HardwareWalletConfig)
        ensures
            r.kind@ == device_kind_name(*kind),
            r.fingerprint == fingerprint,
            r.token@ == hex_of_bytes(token@),
            r.wf(),
    {
        proof {
            lemma_hex_of_bytes_wf(token@);
        }
        HardwareWalletConfig { kind: kind.name(), fingerprint, token: hex_encode(token.as_slice()) }
    }

    /// Whether the stored token is well-formed; callers of `token` test this
    /// on configurations that were not built by `new` (say, read back from
    /// disk).
    pub fn token_valid(&self) -> (r: bool)
        ensures
            r == self.wf(),
    {
        let bytes = hex_decode(self.token.as_str());
        proof {
            lemma_bytes_of_hex_len(self.token@);
        }
        match bytes {
            Some(v) => v.len() == 32,
            None => false,
        }
    }

    /// The decoded registration token.
    pub fn token(&self) -> (r: Vec<u8>)
        requires
            self.wf(),
        ensures
            r@ == bytes_of_hex(self.token@),
            r@.len() == 32,
    {
        proof {
            lemma_bytes_of_hex_len(self.token@);
        }
        match hex_decode(self.token.as_str()) {
            Some(v) => v,
            None => unreached(),
        }
    }
}

/// The wallet context: read-only data the registry classifies devices
/// against.
#[derive(Debug)]
pub struct Wallet {
    /// The wallet's display name.
    pub name: String,
    /// The wallet's spending-policy descriptor, in its text form.
    pub main_descriptor: String,
    /// The master-key fingerprints that count as signers for this wallet.
    pub keys: Vec<Fingerprint>,
    /// The alias table persisted for this wallet's keys.
    pub keys_aliases: AliasMap,
    /// Stored per-fingerprint device tokens.
    pub hardware_wallets: Vec<HardwareWalletConfig>,
}

impl Wallet {
    /// The wallet's signer fingerprints.
    pub fn descriptor_keys(&self) -> (r: &Vec<Fingerprint>)
        ensures
            r@ == self.keys@,
    {
        &self.keys
    }

    /// Whether `fp` is one of the wallet's signer keys.
    pub fn has_key(&self, fp: Fingerprint) -> (r: bool)
        ensures
            r == self.keys@.contains(fp),
    {
        let mut i: usize = 0;
        while i < self.keys.len()
            invariant
                i <= self.keys.len(),
                forall|j: int| 0 <= j < i ==> self.keys@[j] != fp,
            decreases self.keys.len() - i,
        {
            if self.keys[i] == fp {
                return true;
            }
            i += 1;
        }
        false
    }

    /// The stored device configuration for `fp`: the first one carrying that
    /// fingerprint, if any.
    pub fn hw_config(&self, fp: Fingerprint) -> (r: Option<&HardwareWalletConfig>)
        ensures
            r matches Some(c) ==> c.fingerprint == fp && self.hardware_wallets@.contains(*c),
            r is None ==> forall|j: int|
                0 <= j < self.hardware_wallets@.len() ==> (#[trigger] self.hardware_wallets@[j]).fingerprint != fp,
    {
        let mut i: usize = 0;
        while i < self.hardware_wallets.len()
            invariant
                i <= self.hardware_wallets.len(),
                forall|j: int|
                    0 <= j < i ==> (#[trigger] self.hardware_wallets@[j]).fingerprint != fp,
            decreases self.hardware_wallets.len() - i,
        {
            if self.hardware_wallets[i].fingerprint == fp {
                return Some(&self.hardware_wallets[i]);
            }
            i += 1;
        }
        None
    }
}

} // verus!
