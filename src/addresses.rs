use bitcoin::util::bip32::{ChildNumber, ExtendedPrivKey, ExtendedPubKey};
use crate::mnemonic::{mnemonic_seed, Mnemonic};
use crate::path::{purpose_kind, DerivationPath, ScriptKind, HARDENED_BIT};
use vstd::prelude::*;

verus! {

/// The most child numbers a BIP-32 path can hold: an extended key records its
/// depth in one byte.
pub const MAX_PATH_DEPTH: usize = 255;

/// The compressed public key that BIP-32 derives along `path` from the mainnet
/// master key of `seed`, or `None` where bitcoin reports a failure.
pub uninterp spec fn bip32_public_key(seed: Seq<u8>, path: Seq<u32>) -> Option<Seq<u8>>;

/// The mainnet native-segwit (P2WPKH) address of a public key, as text.
pub uninterp spec fn p2wpkh_address(key: Seq<u8>) -> Option<Seq<char>>;

/// The mainnet wrapped-segwit (P2SH-P2WPKH) address of a public key, as text.
pub uninterp spec fn p2shwpkh_address(key: Seq<u8>) -> Option<Seq<char>>;

/// The mainnet legacy (P2PKH) address of a public key, as text.
pub uninterp spec fn p2pkh_address(key: Seq<u8>) -> Option<Seq<char>>;

/// Relies on `bitcoin::util::bip32`: `ExtendedPrivKey::new_master` on mainnet,
/// `derive_priv` along the child numbers (through `From<u32> for ChildNumber`)
/// and the public key of `ExtendedPubKey::from_priv`, serialized compressed.
/// The result depends on the seed and the path alone (the secp256k1 context
/// only carries out the arithmetic). Each child step adds one to the key's
/// depth, a `u8`, so the path holds at most `MAX_PATH_DEPTH` child numbers.
#[verifier::external_body]
fn derive_public_key(seed: &[u8], path: &[u32]) -> (r: Option<Vec<u8>>)
    requires
        path@.len() <= MAX_PATH_DEPTH,
    ensures
        r matches Some(k) ==> bip32_public_key(seed@, path@) == Some(k@),
        r is None ==> bip32_public_key(seed@, path@) is None,
{
    let secp = bitcoin::secp256k1::Secp256k1::new();
    let path: Vec<ChildNumber> = path.iter().copied().map(ChildNumber::from).collect();
    match ExtendedPrivKey::new_master(bitcoin::Network::Bitcoin, seed) {
        Ok(master) => match master.derive_priv(&secp, &path) {
            Ok(child) => Some(ExtendedPubKey::from_priv(&secp, &child).public_key.serialize().to_vec()),
            Err(_) => None,
        },
        Err(_) => None,
    }
}

/// Relies on `bitcoin::util::address::Address::p2wpkh` on mainnet and its
/// `Display`, with the key read by `PublicKey::from_slice`.
#[verifier::external_body]
fn encode_p2wpkh(key: &[u8]) -> (r: Option<String>)
    ensures
        r matches Some(a) ==> p2wpkh_address(key@) == Some(a@),
        r is None ==> p2wpkh_address(key@) is None,
{
    match bitcoin::PublicKey::from_slice(key) {
        Ok(pk) => match bitcoin::Address::p2wpkh(&pk, bitcoin::Network::Bitcoin) {
            Ok(address) => Some(address.to_string()),
            Err(_) => None,
        },
        Err(_) => None,
    }
}

/// Relies on `bitcoin::util::address::Address::p2shwpkh` on mainnet and its
/// `Display`, with the key read by `PublicKey::from_slice`.
#[verifier::external_body]
fn encode_p2shwpkh(key: &[u8]) -> (r: Option<String>)
    ensures
        r matches Some(a) ==> p2shwpkh_address(key@) == Some(a@),
        r is None ==> p2shwpkh_address(key@) is None,
{
    match bitcoin::PublicKey::from_slice(key) {
        Ok(pk) => match bitcoin::Address::p2shwpkh(&pk, bitcoin::Network::Bitcoin) {
            Ok(address) => Some(address.to_string()),
            Err(_) => None,
        },
        Err(_) => None,
    }
}

/// Relies on `bitcoin::util::address::Address::p2pkh` on mainnet and its
/// `Display`, with the key read by `PublicKey::from_slice`.
#[verifier::external_body]
fn encode_p2pkh(key: &[u8]) -> (r: Option<String>)
    ensures
        r matches Some(a) ==> p2pkh_address(key@) == Some(a@),
        r is None ==> p2pkh_address(key@) is None,
{
    match bitcoin::PublicKey::from_slice(key) {
        Ok(pk) => Some(bitcoin::Address::p2pkh(&pk, bitcoin::Network::Bitcoin).to_string()),
        Err(_) => None,
    }
}

/// The encoding that a script type calls for.
pub open spec fn encoded_address(kind: ScriptKind, key: Seq<u8>) -> Option<Seq<char>> {
    match kind {
        ScriptKind::NativeSegwit => p2wpkh_address(key),
        ScriptKind::WrappedSegwit => p2shwpkh_address(key),
        ScriptKind::Legacy => p2pkh_address(key),
    }
}

/// The address that a seed controls at a path: the path's purpose picks the
/// encoding of the key derived along it. `None` for an unsupported purpose, a
/// path deeper than `MAX_PATH_DEPTH`, or where the outside derivation fails.
pub open spec fn address_at(seed: Seq<u8>, path: Seq<u32>) -> Option<Seq<char>> {
    match purpose_kind(path) {
        None => None,
        Some(kind) => if path.len() > MAX_PATH_DEPTH {
            None
        } else {
            match bip32_public_key(seed, path) {
                None => None,
                Some(key) => encoded_address(kind, key),
            }
        },
    }
}

/// Why addresses could not be derived.
#[derive(Clone, Debug)]
pub enum DerivationError {
    /// An address generator was built without any path.
    EmptyPathSet,
    /// The path's first child number is not hardened 44, 49 or 84.
    UnsupportedDerivationPath(DerivationPath),
    /// The path holds more than `MAX_PATH_DEPTH` child numbers.
    PathTooDeep(DerivationPath),
    /// The key derivation or address encoding for the path failed.
    KeyDerivation(DerivationPath),
}

/// `e` is the error that derivation at `path` reports.
pub open spec fn failure_at(e: DerivationError, seed: Seq<u8>, path: Seq<u32>) -> bool {
    match e {
        DerivationError::EmptyPathSet => false,
        DerivationError::UnsupportedDerivationPath(p) => p@ == path && purpose_kind(path) is None,
        DerivationError::PathTooDeep(p) => {
            &&& p@ == path
            &&& purpose_kind(path) is Some
            &&& path.len() > MAX_PATH_DEPTH
        },
        DerivationError::KeyDerivation(p) => {
            &&& p@ == path
            &&& purpose_kind(path) is Some
            &&& path.len() <= MAX_PATH_DEPTH
            &&& address_at(seed, path) is None
        },
    }
}

/// One derived address: the mnemonic, the path, and the address text.
#[derive(Clone, Debug)]
pub struct Address {
    pub mnemonic: String,
    pub derivation_path: DerivationPath,
    pub address: String,
}

impl View for Address {
    type V = (Seq<char>, Seq<u32>, Seq<char>);

    open spec fn view(&self) -> (Seq<char>, Seq<u32>, Seq<char>) {
        (self.mnemonic@, self.derivation_path@, self.address@)
    }
}

/// What `generate` returns for the given paths and phrase: one address per
/// path in order, or the failure at the first path that has no address.
pub open spec fn generation_outcome(
    paths: Seq<DerivationPath>,
    phrase: Seq<char>,
    r: Result<Vec<Address>, DerivationError>,
) -> bool {
    let seed = mnemonic_seed(phrase);
    &&& r is Ok <==> forall|i: int| 0 <= i < paths.len() ==> address_at(seed, #[trigger] paths[i]@) is Some
    &&& r matches Ok(v) ==> {
        &&& v@.len() == paths.len()
        &&& forall|i: int| 0 <= i < paths.len() ==> #[trigger] v@[i]@ == (phrase, paths[i]@, address_at(seed, paths[i]@)->Some_0)
    }
    &&& r matches Err(e) ==> exists|i: int| {
        &&& 0 <= i < paths.len()
        &&& failure_at(e, seed, #[trigger] paths[i]@)
        &&& forall|j: int| 0 <= j < i ==> address_at(seed, #[trigger] paths[j]@) is Some
    }
}

/// Two errors of the same kind, about paths with the same child numbers.
pub open spec fn same_failure(e1: DerivationError, e2: DerivationError) -> bool {
    match (e1, e2) {
        (DerivationError::EmptyPathSet, DerivationError::EmptyPathSet) => true,
        (
            DerivationError::UnsupportedDerivationPath(p),
            DerivationError::UnsupportedDerivationPath(q),
        ) => p@ == q@,
        (DerivationError::PathTooDeep(p), DerivationError::PathTooDeep(q)) => p@ == q@,
        (DerivationError::KeyDerivation(p), DerivationError::KeyDerivation(q)) => p@ == q@,
        _ => false,
    }
}

/// Derivation is deterministic: two results of `generate` for the same paths
/// and phrase hold the same addresses, in the same order, or fail with the same
/// error at the same path.
pub proof fn lemma_generation_deterministic(
    paths: Seq<DerivationPath>,
    phrase: Seq<char>,
    r1: Result<Vec<Address>, DerivationError>,
    r2: Result<Vec<Address>, DerivationError>,
)
    requires
        generation_outcome(paths, phrase, r1),
        generation_outcome(paths, phrase, r2),
    ensures
        r1 is Ok <==> r2 is Ok,
        r1 matches Ok(v1) ==> (r2 matches Ok(v2) ==> v1@.len() == v2@.len() && forall|i: int|
            0 <= i < v1@.len() ==> #[trigger] v1@[i]@ == v2@[i]@),
        r1 matches Err(e1) ==> (r2 matches Err(e2) ==> same_failure(e1, e2)),
{
    let seed = mnemonic_seed(phrase);
    if let Err(e1) = r1 {
        if let Err(e2) = r2 {
            let i1 = choose|i: int|
                {
                    &&& 0 <= i < paths.len()
                    &&& failure_at(e1, seed, #[trigger] paths[i]@)
                    &&& forall|j: int| 0 <= j < i ==> address_at(seed, #[trigger] paths[j]@) is Some
                };
            let i2 = choose|i: int|
                {
                    &&& 0 <= i < paths.len()
                    &&& failure_at(e2, seed, #[trigger] paths[i]@)
                    &&& forall|j: int| 0 <= j < i ==> address_at(seed, #[trigger] paths[j]@) is Some
                };
            assert(address_at(seed, paths[i1]@) is None);
            assert(address_at(seed, paths[i2]@) is None);
            assert(i1 == i2);
        }
    }
}

/// The purpose picks the encoding. Where derivation succeeds, the address for
/// a path whose first child number is hardened 84 is the native-segwit (P2WPKH)
/// encoding of the key derived along it, for 49 the wrapped-segwit
/// (P2SH-P2WPKH) one and for 44 the legacy (P2PKH) one. A path with any other
/// first child number makes derivation fail, and when every path before it
/// derives, the error is `UnsupportedDerivationPath` naming that path.
pub proof fn lemma_purpose_picks_encoding(
    paths: Seq<DerivationPath>,
    phrase: Seq<char>,
    r: Result<Vec<Address>, DerivationError>,
    i: int,
)
    requires
        generation_outcome(paths, phrase, r),
        0 <= i < paths.len(),
    ensures
        ({
            let seed = mnemonic_seed(phrase);
            let path = paths[i]@;
            &&& (r is Ok && path.len() > 0 && path[0] == HARDENED_BIT + 84) ==> {
                &&& bip32_public_key(seed, path) is Some
                &&& p2wpkh_address(bip32_public_key(seed, path)->Some_0) == Some(r->Ok_0@[i].address@)
            }
            &&& (r is Ok && path.len() > 0 && path[0] == HARDENED_BIT + 49) ==> {
                &&& bip32_public_key(seed, path) is Some
                &&& p2shwpkh_address(bip32_public_key(seed, path)->Some_0) == Some(r->Ok_0@[i].address@)
            }
            &&& (r is Ok && path.len() > 0 && path[0] == HARDENED_BIT + 44) ==> {
                &&& bip32_public_key(seed, path) is Some
                &&& p2pkh_address(bip32_public_key(seed, path)->Some_0) == Some(r->Ok_0@[i].address@)
            }
            &&& purpose_kind(path) is None ==> r is Err
            &&& (purpose_kind(path) is None && forall|j: int| 0 <= j < i ==> address_at(seed, #[trigger] paths[j]@) is Some)
                ==> (r matches Err(DerivationError::UnsupportedDerivationPath(p)) && p@ == path)
        }),
{
    let seed = mnemonic_seed(phrase);
    let path = paths[i]@;
    if let Ok(v) = r {
        assert(v@[i]@ == (phrase, path, address_at(seed, path)->Some_0));
        assert(address_at(seed, path) is Some);
    }
    if purpose_kind(path) is None && forall|j: int| 0 <= j < i ==> address_at(seed, #[trigger] paths[j]@) is Some {
        assert(address_at(seed, path) is None);
        if let Err(e) = r {
            let k = choose|k: int|
                {
                    &&& 0 <= k < paths.len()
                    &&& failure_at(e, seed, #[trigger] paths[k]@)
                    &&& forall|j: int| 0 <= j < k ==> address_at(seed, #[trigger] paths[j]@) is Some
                };
            assert(address_at(seed, paths[k]@) is None);
            assert(k == i);
        }
    }
}

/// Turns a mnemonic into the addresses that it controls at a fixed, non-empty
/// set of derivation paths.
pub struct AddressGenerator {
    derivation_paths: Vec<DerivationPath>,
}

impl AddressGenerator {
    #[verifier::type_invariant]
    spec fn non_empty(self) -> bool {
        self.derivation_paths@.len() > 0
    }

    /// The derivation paths, in order.
    pub closed spec fn paths(&self) -> Seq<DerivationPath> {
        self.derivation_paths@
    }

    /// A generator for the given paths; `EmptyPathSet` when there are none.
    pub fn new(derivation_paths: Vec<DerivationPath>) -> (r: Result<AddressGenerator, DerivationError>)
        ensures
            r is Ok <==> derivation_paths@.len() > 0,
            r matches Ok(g) ==> g.paths() == derivation_paths@,
            r matches Err(e) ==> e is EmptyPathSet,
    {
        if derivation_paths.len() == 0 {
            Err(DerivationError::EmptyPathSet)
        } else {
            Ok(AddressGenerator { derivation_paths })
        }
    }

    /// The path set is never empty.
    pub fn path_count(&self) -> (r: usize)
        ensures
            r == self.paths().len(),
            r > 0,
    {
        proof {
            use_type_invariant(self);
        }
        self.derivation_paths.len()
    }

    /// The address at one path, for the given seed.
    fn address_for(&self, seed: &Vec<u8>, path: &DerivationPath) -> (r: Result<String, DerivationError>)
        ensures
            r matches Ok(a) ==> address_at(seed@, path@) == Some(a@),
            r matches Err(e) ==> failure_at(e, seed@, path@) && address_at(seed@, path@) is None,
    {
        let kind = match path.script_kind() {
            Some(kind) => kind,
            None => {
                return Err(DerivationError::UnsupportedDerivationPath(path.clone_path()));
            },
        };
        if path.children().len() > MAX_PATH_DEPTH {
            return Err(DerivationError::PathTooDeep(path.clone_path()));
        }
        let key = match derive_public_key(seed.as_slice(), path.children().as_slice()) {
            Some(key) => key,
            None => {
                return Err(DerivationError::KeyDerivation(path.clone_path()));
            },
        };
        let encoded = match kind {
            ScriptKind::NativeSegwit => encode_p2wpkh(key.as_slice()),
            ScriptKind::WrappedSegwit => encode_p2shwpkh(key.as_slice()),
            ScriptKind::Legacy => encode_p2pkh(key.as_slice()),
        };
        match encoded {
            Some(a) => Ok(a),
            None => Err(DerivationError::KeyDerivation(path.clone_path())),
        }
    }

    /// The addresses that `mnemonic` controls: one per path, in path order.
    /// Fails at the first path whose purpose is unsupported or whose
    /// derivation fails.
    pub fn generate(&self, mnemonic: Mnemonic) -> (r: Result<Vec<Address>, DerivationError>)
        ensures
            generation_outcome(self.paths(), mnemonic@, r),
    {
        let seed = mnemonic.to_seed();
        let ghost paths = self.paths();
        let mut addresses: Vec<Address> = Vec::new();
        let mut i: usize = 0;
        while i < self.derivation_paths.len()
            invariant
                paths == self.paths(),
                seed@ == mnemonic_seed(mnemonic@),
                i <= paths.len(),
                addresses@.len() == i,
                forall|j: int| 0 <= j < i ==> address_at(seed@, #[trigger] paths[j]@) is Some,
                forall|j: int| 0 <= j < i ==> #[trigger] addresses@[j]@ == (mnemonic@, paths[j]@, address_at(seed@, paths[j]@)->Some_0),
            decreases paths.len() - i,
        {
            let path = &self.derivation_paths[i];
            match self.address_for(&seed, path) {
                Ok(address) => {
                    let phrase = mnemonic.phrase().to_string();
                    addresses.push(Address {
                        mnemonic: phrase,
                        derivation_path: path.clone_path(),
                        address,
                    });
                },
                Err(e) => {
                    return Err(e);
                },
            }
            i = i + 1;
        }
        Ok(addresses)
    }
}

} // verus!
