use vstd::prelude::*;

verus! {

/// The bit that marks a hardened child number.
pub const HARDENED_BIT: u32 = 0x8000_0000;

/// The script type that a path's purpose selects.
#[derive(Clone, Copy, Debug, PartialEq, Eq, Structural)]
pub enum ScriptKind {
    /// Purpose 44: pay-to-pubkey-hash.
    Legacy,
    /// Purpose 49: pay-to-witness-pubkey-hash nested in pay-to-script-hash.
    WrappedSegwit,
    /// Purpose 84: pay-to-witness-pubkey-hash.
    NativeSegwit,
}

/// A hierarchical-deterministic derivation path, held as raw child numbers:
/// a hardened child `i'` is `i` with `HARDENED_BIT` set.
#[derive(Clone, Debug, PartialEq, Eq)]
pub struct DerivationPath {
    children: Vec<u32>,
}

pub open spec fn is_hardened(n: u32) -> bool {
    n >= HARDENED_BIT
}

pub open spec fn child_index(n: u32) -> u32 {
    if is_hardened(n) { (n - HARDENED_BIT) as u32 } else { n }
}

/// The script type chosen by the first child number, when it is one of the
/// three hardened purposes.
pub open spec fn purpose_kind(children: Seq<u32>) -> Option<ScriptKind> {
    if children.len() == 0 {
        None
    } else if children[0] == HARDENED_BIT + 84 {
        Some(ScriptKind::NativeSegwit)
    } else if children[0] == HARDENED_BIT + 49 {
        Some(ScriptKind::WrappedSegwit)
    } else if children[0] == HARDENED_BIT + 44 {
        Some(ScriptKind::Legacy)
    } else {
        None
    }
}

/// The decimal digit `d` as a character.
pub open spec fn digit_char(d: nat) -> char {
    seq!['0', '1', '2', '3', '4', '5', '6', '7', '8', '9'][d as int]
}

/// `n` written in decimal, without leading zeros.
pub open spec fn decimal(n: nat) -> Seq<char>
    decreases n,
{
    if n < 10 {
        seq![digit_char(n)]
    } else {
        decimal(n / 10) + seq![digit_char(n % 10)]
    }
}

/// One child number as text: its index, then `'` when hardened.
pub open spec fn child_text(n: u32) -> Seq<char> {
    if is_hardened(n) {
        decimal(child_index(n) as nat) + seq!['\'']
    } else {
        decimal(n as nat)
    }
}

/// The text of a path: `m`, then `/` and each child number in turn.
pub open spec fn path_text(children: Seq<u32>) -> Seq<char>
    decreases children.len(),
{
    if children.len() == 0 {
        seq!['m']
    } else {
        path_text(children.drop_last()) + seq!['/'] + child_text(children.last())
    }
}

/// What bitcoin's BIP-32 path parser makes of a text: the raw child numbers,
/// or `None` where it refuses the text.
pub uninterp spec fn parsed_path(s: Seq<char>) -> Option<Seq<u32>>;

/// Why a derivation path text was refused.
#[derive(Clone, Debug, PartialEq, Eq, Structural)]
pub enum PathError {
    InvalidFormat,
    /// The text at this position of a list was refused.
    InvalidPathAt(usize),
}

/// Relies on `bitcoin::util::bip32::DerivationPath::from_str`, read back
/// through `From<ChildNumber> for u32`: a result that depends on the text alone.
#[verifier::external_body]
fn parse_bip32_path(s: &str) -> (r: Option<Vec<u32>>)
    ensures
        r matches Some(v) ==> parsed_path(s@) == Some(v@),
        r is None ==> parsed_path(s@) is None,
{
    match <bitcoin::util::bip32::DerivationPath as std::str::FromStr>::from_str(s) {
        Ok(p) => Some(p.as_ref().iter().copied().map(u32::from).collect()),
        Err(_) => None,
    }
}

fn digit_text(d: u32) -> (r: &'static str)
    requires
        d < 10,
    ensures
        r@ == seq![digit_char(d as nat)],
{
    let digits = "0123456789";
    proof {
        reveal_strlit("0123456789");
    }
    digits.substring_char(d as usize, d as usize + 1)
}

fn append_decimal(out: &mut String, n: u32)
    ensures
        final(out)@ == old(out)@ + decimal(n as nat),
    decreases n,
{
    if n >= 10 {
        append_decimal(out, n / 10);
    }
    out.append(digit_text(n % 10));
    proof {
        assert(n < 10 ==> n % 10 == n);
    }
}

impl View for DerivationPath {
    type V = Seq<u32>;

    closed spec fn view(&self) -> Seq<u32> {
        self.children@
    }
}

impl DerivationPath {
    /// A path made of the given raw child numbers.
    pub fn from_children(children: Vec<u32>) -> (r: DerivationPath)
        ensures
            r@ == children@,
    {
        DerivationPath { children }
    }

    /// A copy of the path.
    pub fn clone_path(&self) -> (r: DerivationPath)
        ensures
            r@ == self@,
    {
        DerivationPath { children: self.children.clone() }
    }

    /// The raw child numbers, root first.
    pub fn children(&self) -> (r: &Vec<u32>)
        ensures
            r@ == self@,
    {
        &self.children
    }

    /// Parses the usual text form (`m/84'/0'/0'/0/0`) with bitcoin's BIP-32
    /// path parser.
    pub fn parse(s: &str) -> (r: Result<DerivationPath, PathError>)
        ensures
            r is Ok <==> parsed_path(s@) is Some,
            r matches Ok(p) ==> Some(p@) == parsed_path(s@),
    {
        match parse_bip32_path(s) {
            Some(children) => Ok(DerivationPath { children }),
            None => Err(PathError::InvalidFormat),
        }
    }

    /// The path as text: `m`, then `/` and each child number, hardened ones
    /// marked with `'`.
    pub fn to_text(&self) -> (r: String)
        ensures
            r@ == path_text(self@),
    {
        let mut out = String::from_str("m");
        proof {
            reveal_strlit("m");
        }
        let mut i: usize = 0;
        while i < self.children.len()
            invariant
                i <= self@.len(),
                out@ == path_text(self@.subrange(0, i as int)),
            decreases self@.len() - i,
        {
            let n = self.children[i];
            proof {
                let next = self@.subrange(0, i as int + 1);
                assert(next.drop_last() =~= self@.subrange(0, i as int));
            }
            out.append("/");
            if n >= HARDENED_BIT {
                append_decimal(&mut out, n - HARDENED_BIT);
                out.append("'");
            } else {
                append_decimal(&mut out, n);
            }
            proof {
                reveal_strlit("/");
                reveal_strlit("'");
            }
            i = i + 1;
        }
        proof {
            assert(self@.subrange(0, self@.len() as int) =~= self@);
        }
        out
    }

    /// The script type that the path's first child number selects, or `None`
    /// when it is not hardened 44, 49 or 84 (or the path is empty).
    pub fn script_kind(&self) -> (r: Option<ScriptKind>)
        ensures
            r == purpose_kind(self@),
    {
        if self.children.len() == 0 {
            None
        } else {
            let first = self.children[0];
            if first == HARDENED_BIT + 84 {
                Some(ScriptKind::NativeSegwit)
            } else if first == HARDENED_BIT + 49 {
                Some(ScriptKind::WrappedSegwit)
            } else if first == HARDENED_BIT + 44 {
                Some(ScriptKind::Legacy)
            } else {
                None
            }
        }
    }
}

/// Parses each text of a list into a derivation path, in order; fails with
/// the position of the first text that the parser refuses.
pub fn parse_derivation_paths(raw: &Vec<String>) -> (r: Result<Vec<DerivationPath>, PathError>)
    ensures
        r is Ok <==> forall|i: int| 0 <= i < raw@.len() ==> parsed_path(#[trigger] raw@[i]@) is Some,
        r matches Ok(paths) ==> paths@.len() == raw@.len() && forall|i: int|
            0 <= i < raw@.len() ==> Some(#[trigger] paths@[i]@) == parsed_path(raw@[i]@),
        r matches Err(e) ==> e matches PathError::InvalidPathAt(k) && k < raw@.len()
            && parsed_path(raw@[k as int]@) is None
            && forall|i: int| 0 <= i < k ==> parsed_path(#[trigger] raw@[i]@) is Some,
{
    let mut paths: Vec<DerivationPath> = Vec::new();
    let mut i: usize = 0;
    while i < raw.len()
        invariant
            i <= raw@.len(),
            paths@.len() == i,
            forall|j: int| 0 <= j < i ==> parsed_path(#[trigger] raw@[j]@) is Some,
            forall|j: int| 0 <= j < i ==> Some(#[trigger] paths@[j]@) == parsed_path(raw@[j]@),
        decreases raw@.len() - i,
    {
        match DerivationPath::parse(raw[i].as_str()) {
            Ok(p) => paths.push(p),
            Err(_) => {
                return Err(PathError::InvalidPathAt(i));
            },
        }
        i = i + 1;
    }
    Ok(paths)
}

} // verus!
