use vstd::prelude::*;

verus! {

/// Number of words in the BIP-39 English list.
pub const WORD_LIST_LEN: usize = 2048;

/// Whether bip39 accepts a phrase: 12 to 24 known English words (a multiple
/// of three), split on whitespace, whose checksum bits match.
pub uninterp spec fn mnemonic_accepted(phrase: Seq<char>) -> bool;

/// The 512-bit seed of an accepted phrase, with the empty passphrase.
pub uninterp spec fn mnemonic_seed(phrase: Seq<char>) -> Seq<u8>;

/// The word at position `i` of the BIP-39 English list.
pub uninterp spec fn english_word(i: int) -> Seq<char>;

pub open spec fn is_word_char(c: char) -> bool {
    'a' <= c && c <= 'z'
}

pub open spec fn is_english_word(w: Seq<char>) -> bool {
    exists|i: int| 0 <= i < WORD_LIST_LEN && english_word(i) == w
}

/// Words joined by single spaces.
pub open spec fn join_words(ws: Seq<Seq<char>>) -> Seq<char>
    decreases ws.len(),
{
    if ws.len() == 0 {
        seq![]
    } else if ws.len() == 1 {
        ws[0]
    } else {
        join_words(ws.drop_last()) + seq![' '] + ws.last()
    }
}

/// A word sequence with one more word has its text after a space.
pub(crate) proof fn lemma_join_push(ws: Seq<Seq<char>>, w: Seq<char>)
    ensures
        join_words(ws.push(w)) == if ws.len() == 0 {
            w
        } else {
            join_words(ws) + seq![' '] + w
        },
{
    assert(ws.push(w).drop_last() =~= ws);
}

/// Extending the last word extends the text by the same character.
proof fn lemma_join_extend_last(ws: Seq<Seq<char>>, c: char)
    requires
        ws.len() > 0,
    ensures
        join_words(ws.drop_last().push(ws.last().push(c))) == join_words(ws) + seq![c],
{
    let p = ws.drop_last();
    let x = ws.last();
    assert(ws =~= p.push(x));
    lemma_join_push(p, x.push(c));
    lemma_join_push(p, x);
    if p.len() == 0 {
        assert(x.push(c) =~= x + seq![c]);
    } else {
        assert(join_words(p) + seq![' '] + x.push(c) =~= join_words(p) + seq![' '] + x + seq![c]);
    }
}

/// The characters that `char::is_whitespace` accepts: Unicode White_Space.
pub open spec fn is_separator(c: char) -> bool {
    ||| c == ' '
    ||| ('\t' <= c && c <= '\r')
    ||| c == '\u{85}'
    ||| c == '\u{a0}'
    ||| c == '\u{1680}'
    ||| ('\u{2000}' <= c && c <= '\u{200a}')
    ||| c == '\u{2028}'
    ||| c == '\u{2029}'
    ||| c == '\u{202f}'
    ||| c == '\u{205f}'
    ||| c == '\u{3000}'
}

/// The words of a text: its maximal runs of non-whitespace characters, in order.
pub open spec fn words_of(s: Seq<char>) -> Seq<Seq<char>>
    decreases s.len(),
{
    if s.len() == 0 {
        seq![]
    } else {
        let init = s.drop_last();
        let c = s.last();
        let w = words_of(init);
        if is_separator(c) {
            w
        } else if init.len() > 0 && !is_separator(init.last()) {
            w.drop_last().push(w.last().push(c))
        } else {
            w.push(seq![c])
        }
    }
}

/// The normal form of a phrase: its words joined by single spaces.
pub open spec fn normalized(s: Seq<char>) -> Seq<char> {
    join_words(words_of(s))
}

fn is_separator_char(c: char) -> (r: bool)
    ensures
        r == is_separator(c),
{
    c == ' ' || ('\t' <= c && c <= '\r') || c == '\u{85}' || c == '\u{a0}' || c == '\u{1680}'
        || ('\u{2000}' <= c && c <= '\u{200a}') || c == '\u{2028}' || c == '\u{2029}' || c == '\u{202f}'
        || c == '\u{205f}' || c == '\u{3000}'
}

/// The words of `s` joined by single spaces.
pub fn normalize_phrase(s: &str) -> (r: String)
    ensures
        r@ == normalized(s@),
{
    let n = s.unicode_len();
    let mut out = String::new();
    let ghost mut ws: Seq<Seq<char>> = seq![];
    let mut prev_separator = true;
    let mut has_word = false;
    let mut i: usize = 0;
    while i < n
        invariant
            n == s@.len(),
            i <= n,
            ws == words_of(s@.subrange(0, i as int)),
            out@ == join_words(ws),
            prev_separator <==> (i == 0 || is_separator(s@[i - 1])),
            has_word <==> ws.len() > 0,
            !prev_separator ==> ws.len() > 0,
        decreases n - i,
    {
        let c = s.get_char(i);
        let separator = is_separator_char(c);
        proof {
            let next = s@.subrange(0, i as int + 1);
            assert(next.drop_last() =~= s@.subrange(0, i as int));
            assert(next.last() == c);
            if i > 0 {
                assert(next.drop_last().last() == s@[i - 1]);
            }
        }
        if !separator {
            let piece = s.substring_char(i, i + 1);
            proof {
                assert(piece@ =~= seq![c]);
            }
            if prev_separator {
                proof {
                    lemma_join_push(ws, seq![c]);
                    reveal_strlit(" ");
                }
                if has_word {
                    out.append(" ");
                }
                out.append(piece);
                proof {
                    if ws.len() == 0 {
                        assert(out@ =~= seq![c]);
                    }
                    ws = ws.push(seq![c]);
                }
            } else {
                proof {
                    lemma_join_extend_last(ws, c);
                }
                out.append(piece);
                proof {
                    ws = ws.drop_last().push(ws.last().push(c));
                }
            }
            has_word = true;
        }
        prev_separator = separator;
        i = i + 1;
    }
    proof {
        assert(s@.subrange(0, n as int) =~= s@);
    }
    out
}

/// The word counts that BIP-39 defines.
pub open spec fn valid_word_count(n: int) -> bool {
    12 <= n <= 24 && n % 3 == 0
}

/// Relies on `bip39::Language::word_list` for English: 2048 distinct words of
/// lower-case letters.
#[verifier::external_body]
pub(crate) fn english_words() -> (r: Vec<&'static str>)
    ensures
        r@.len() == WORD_LIST_LEN,
        forall|i: int| 0 <= i < r@.len() ==> #[trigger] r@[i]@ == english_word(i),
        forall|i: int, j: int|
            0 <= i < j < r@.len() ==> #[trigger] r@[i]@ != #[trigger] r@[j]@,
        forall|i: int, k: int|
            0 <= i < r@.len() && 0 <= k < r@[i]@.len() ==> is_word_char(#[trigger] r@[i]@[k]),
        forall|i: int| 0 <= i < r@.len() ==> #[trigger] r@[i]@.len() > 0,
{
    bip39::Language::English.word_list().to_vec()
}

/// Relies on `bip39::Mnemonic::parse_normalized`: whether it returns `Ok`.
#[verifier::external_body]
fn phrase_is_accepted(s: &str) -> (r: bool)
    ensures
        r == mnemonic_accepted(s@),
{
    bip39::Mnemonic::parse_normalized(s).is_ok()
}

/// Relies on `bip39::Mnemonic::to_seed_normalized` with the empty passphrase,
/// on the mnemonic that `parse_normalized` reads from the phrase: 64 bytes that
/// depend on the phrase alone.
#[verifier::external_body]
fn phrase_seed(phrase: &str) -> (r: Vec<u8>)
    requires
        mnemonic_accepted(phrase@),
    ensures
        r@ == mnemonic_seed(phrase@),
        r@.len() == 64,
{
    match bip39::Mnemonic::parse_normalized(phrase) {
        Ok(m) => m.to_seed_normalized("").to_vec(),
        Err(_) => Vec::new(),
    }
}

/// Relies on `bip39::Mnemonic::generate_in` (English, entropy from rand's
/// thread-local generator) and on its `Display`: `None` exactly for a word
/// count that BIP-39 does not define; otherwise that many English words joined
/// by single spaces, which `parse_normalized` accepts.
#[verifier::external_body]
fn generate_english_phrase(word_count: usize) -> (r: Option<String>)
    ensures
        r is Some <==> valid_word_count(word_count as int),
        r matches Some(s) ==> mnemonic_accepted(s@),
        r matches Some(s) ==> exists|ws: Seq<Seq<char>>|
            {
                &&& ws.len() == word_count
                &&& s@ == join_words(ws)
                &&& forall|k: int| 0 <= k < ws.len() ==> is_english_word(#[trigger] ws[k])
            },
{
    match bip39::Mnemonic::generate_in(bip39::Language::English, word_count) {
        Ok(m) => Some(m.to_string()),
        Err(_) => None,
    }
}

/// Why a phrase is not a mnemonic.
#[derive(Clone, Debug, PartialEq, Eq, Structural)]
pub enum MnemonicError {
    /// The word count is not one that BIP-39 defines.
    BadWordCount(usize),
    /// Unknown words, a wrong word count or a failed checksum.
    Invalid,
}

/// A BIP-39 recovery phrase that has passed validation.
#[derive(Debug)]
pub struct Mnemonic {
    phrase: String,
}

impl View for Mnemonic {
    type V = Seq<char>;

    closed spec fn view(&self) -> Seq<char> {
        self.phrase@
    }
}

impl Clone for Mnemonic {
    fn clone(&self) -> (r: Self)
        ensures
            r@ == self@,
    {
        proof {
            use_type_invariant(self);
        }
        Mnemonic { phrase: self.phrase.clone() }
    }
}

impl Mnemonic {
    #[verifier::type_invariant]
    spec fn accepted(self) -> bool {
        mnemonic_accepted(self.phrase@)
    }

    /// Normalizes a phrase (its words joined by single spaces) and validates
    /// it: `Ok` exactly when bip39 accepts the normal form, which the
    /// mnemonic then holds.
    pub fn parse_normalized(s: &str) -> (r: Result<Mnemonic, MnemonicError>)
        ensures
            r is Ok <==> mnemonic_accepted(normalized(s@)),
            r matches Ok(m) ==> m@ == normalized(s@) && m@ == join_words(words_of(s@)),
            r matches Err(e) ==> e == MnemonicError::Invalid,
    {
        Mnemonic::from_phrase(normalize_phrase(s))
    }

    /// Validates a phrase that is already single-spaced, and keeps it as it is.
    pub(crate) fn from_phrase(phrase: String) -> (r: Result<Mnemonic, MnemonicError>)
        ensures
            r is Ok <==> mnemonic_accepted(phrase@),
            r matches Ok(m) ==> m@ == phrase@,
            r matches Err(e) ==> e == MnemonicError::Invalid,
    {
        if phrase_is_accepted(phrase.as_str()) {
            Ok(Mnemonic { phrase })
        } else {
            Err(MnemonicError::Invalid)
        }
    }

    /// The phrase.
    pub fn phrase(&self) -> (r: &str)
        ensures
            r@ == self@,
    {
        self.phrase.as_str()
    }

    /// The 64-byte seed, with the empty passphrase.
    pub fn to_seed(&self) -> (r: Vec<u8>)
        ensures
            r@ == mnemonic_seed(self@),
            r@.len() == 64,
    {
        proof {
            use_type_invariant(self);
        }
        phrase_seed(self.phrase.as_str())
    }
}

/// Draws random mnemonics of a fixed word count.
pub struct MnemonicGenerator {
    number_of_words: usize,
}

impl MnemonicGenerator {
    pub fn new(number_of_words: usize) -> (r: Self)
        ensures
            r.number_of_words() == number_of_words,
    {
        MnemonicGenerator { number_of_words }
    }

    pub closed spec fn number_of_words(&self) -> usize {
        self.number_of_words
    }

    /// A fresh random mnemonic of the configured word count, or
    /// `BadWordCount` when BIP-39 defines no such count.
    pub fn generate(&self) -> (r: Result<Mnemonic, MnemonicError>)
        ensures
            r is Ok <==> valid_word_count(self.number_of_words() as int),
            r matches Err(e) ==> e == MnemonicError::BadWordCount(self.number_of_words()),
            r matches Ok(m) ==> mnemonic_accepted(m@),
            r matches Ok(m) ==> exists|ws: Seq<Seq<char>>|
                {
                    &&& ws.len() == self.number_of_words()
                    &&& m@ == join_words(ws)
                    &&& forall|k: int| 0 <= k < ws.len() ==> is_english_word(#[trigger] ws[k])
                },
    {
        match generate_english_phrase(self.number_of_words) {
            Some(phrase) => Ok(Mnemonic { phrase }),
            None => Err(MnemonicError::BadWordCount(self.number_of_words)),
        }
    }
}

} // verus!
