use crate::mnemonic::{
    english_word, english_words, join_words, lemma_join_push, mnemonic_accepted, Mnemonic, WORD_LIST_LEN,
};
use itertools::Itertools;
use vstd::prelude::*;

verus! {

/// The `k`-element selections from `s`, each in the order of `s`, listed in
/// lexicographic order of positions.
pub open spec fn combinations<T>(s: Seq<T>, k: nat) -> Seq<Seq<T>>
    decreases s.len(),
{
    if k == 0 {
        seq![seq![]]
    } else if s.len() == 0 {
        seq![]
    } else {
        combinations(s.drop_first(), (k - 1) as nat).map_values(|c: Seq<T>| seq![s[0]] + c)
            + combinations(s.drop_first(), k)
    }
}

/// The positions `0..n`.
pub open spec fn positions(n: nat) -> Seq<usize> {
    Seq::new(n, |i: int| i as usize)
}

/// Relies on itertools' `Itertools::combinations` over `0..n`: the `k`-element
/// selections of positions, in lexicographic order.
#[verifier::external_body]
fn position_combinations(n: usize, k: usize) -> (r: Vec<Vec<usize>>)
    ensures
        r@.map_values(|c: Vec<usize>| c@) == combinations(positions(n as nat), k as nat),
{
    (0..n).combinations(k).collect()
}

/// `c` repeated `times` times, one copy after another.
pub open spec fn repeated(c: Seq<Seq<char>>, times: nat) -> Seq<Seq<char>>
    decreases times,
{
    if times == 0 {
        seq![]
    } else {
        repeated(c, (times - 1) as nat) + c
    }
}

/// The English words at the given positions.
pub open spec fn words_at(c: Seq<usize>) -> Seq<Seq<char>> {
    c.map_values(|i: usize| english_word(i as int))
}

/// The candidate phrase of one selection: its words repeated to fill the
/// phrase, joined by single spaces.
pub open spec fn candidate_phrase(c: Seq<usize>, times: nat) -> Seq<char> {
    join_words(repeated(words_at(c), times))
}

/// The candidate phrases of a sweep, one per selection, in order.
pub open spec fn candidate_phrases(combination: nat, mnemonic_size: nat) -> Seq<Seq<char>> {
    combinations(positions(WORD_LIST_LEN as nat), combination).map_values(
        |c: Seq<usize>| candidate_phrase(c, mnemonic_size / combination),
    )
}

/// The phrases among `s` that bip39 accepts, in order.
pub open spec fn accepted_phrases(s: Seq<Seq<char>>) -> Seq<Seq<char>>
    decreases s.len(),
{
    if s.len() == 0 {
        seq![]
    } else if mnemonic_accepted(s.last()) {
        accepted_phrases(s.drop_last()).push(s.last())
    } else {
        accepted_phrases(s.drop_last())
    }
}

/// The combination sizes that a sweep supports.
pub open spec fn supported_combination(combination: int) -> bool {
    combination == 1 || combination == 2
}

/// Why a sweep configuration was refused.
#[derive(Clone, Copy, Debug, PartialEq, Eq, Structural)]
pub enum CombinationError {
    /// Only selections of one or two words are supported.
    UnsupportedCombinationSize(usize),
}

/// Accepts combination sizes 1 and 2 and refuses any other.
pub fn check_combination_size(combination_size: usize) -> (r: Result<(), CombinationError>)
    ensures
        r is Ok <==> supported_combination(combination_size as int),
        r matches Err(e) ==> e == CombinationError::UnsupportedCombinationSize(combination_size),
{
    if combination_size == 1 || combination_size == 2 {
        Ok(())
    } else {
        Err(CombinationError::UnsupportedCombinationSize(combination_size))
    }
}

/// The mnemonics of a combinatorial sweep, and how many candidates failed
/// validation.
pub struct CombinationSweep {
    pub mnemonics: Vec<Mnemonic>,
    pub discarded: usize,
}

pub open spec fn mnemonic_views(v: Seq<Mnemonic>) -> Seq<Seq<char>> {
    v.map_values(|m: Mnemonic| m@)
}

/// The words of a selection repeated `times` times, joined by single spaces.
pub fn repeat_phrase(words: &Vec<&str>, times: usize) -> (r: String)
    ensures
        r@ == join_words(repeated(words@.map_values(|w: &str| w@), times as nat)),
{
    let ghost c = words@.map_values(|w: &str| w@);
    let ghost mut ws: Seq<Seq<char>> = seq![];
    let mut out = String::new();
    let mut started = false;
    let mut t: usize = 0;
    while t < times
        invariant
            t <= times,
            c == words@.map_values(|w: &str| w@),
            ws == repeated(c, t as nat),
            out@ == join_words(ws),
            started <==> ws.len() > 0,
        decreases times - t,
    {
        let mut j: usize = 0;
        while j < words.len()
            invariant
                j <= words@.len(),
                c == words@.map_values(|w: &str| w@),
                ws == repeated(c, t as nat) + c.subrange(0, j as int),
                out@ == join_words(ws),
                started <==> ws.len() > 0,
            decreases words@.len() - j,
        {
            let w = words[j];
            proof {
                lemma_join_push(ws, w@);
                reveal_strlit(" ");
            }
            if started {
                out.append(" ");
            }
            out.append(w);
            started = true;
            proof {
                assert(c.subrange(0, j as int + 1) =~= c.subrange(0, j as int).push(w@));
                ws = ws.push(w@);
            }
            j = j + 1;
        }
        proof {
            assert(c.subrange(0, c.len() as int) =~= c);
            assert(repeated(c, (t + 1) as nat) == repeated(c, t as nat) + c);
        }
        t = t + 1;
    }
    out
}

/// What a sweep returns: the accepted candidate phrases in order, the count
/// of the others, over a word list of distinct words.
pub open spec fn sweep_outcome(combination: nat, mnemonic_size: nat, r: CombinationSweep) -> bool {
    let candidates = candidate_phrases(combination, mnemonic_size);
    &&& mnemonic_views(r.mnemonics@) == accepted_phrases(candidates)
    &&& r.mnemonics@.len() + r.discarded == candidates.len()
    &&& forall|i: int, j: int|
        0 <= i < j < WORD_LIST_LEN ==> #[trigger] english_word(i) != #[trigger] english_word(j)
}

/// Every selection has `k` members, all drawn from `s`.
proof fn lemma_combination_members<T>(s: Seq<T>, k: nat, i: int)
    requires
        0 <= i < combinations(s, k).len(),
    ensures
        combinations(s, k)[i].len() == k,
        forall|j: int| 0 <= j < k ==> s.contains(#[trigger] combinations(s, k)[i][j]),
    decreases s.len(),
{
    if k > 0 && s.len() > 0 {
        let tail = s.drop_first();
        let a = combinations(tail, (k - 1) as nat);
        let b = combinations(tail, k);
        let head = a.map_values(|c: Seq<T>| seq![s[0]] + c);
        assert(combinations(s, k) == head + b);
        if i < head.len() {
            lemma_combination_members(tail, (k - 1) as nat, i);
            let c = combinations(s, k)[i];
            assert(c == seq![s[0]] + a[i]);
            assert forall|j: int| 0 <= j < k implies s.contains(#[trigger] c[j]) by {
                if j == 0 {
                    assert(s[0] == c[0]);
                } else {
                    assert(tail.contains(a[i][j - 1]));
                    let m = choose|m: int| 0 <= m < tail.len() && tail[m] == a[i][j - 1];
                    assert(s[m + 1] == c[j]);
                }
            }
        } else {
            lemma_combination_members(tail, k, i - head.len());
            let c = combinations(s, k)[i];
            assert(c == b[i - head.len()]);
            assert forall|j: int| 0 <= j < k implies s.contains(#[trigger] c[j]) by {
                assert(tail.contains(c[j]));
                let m = choose|m: int| 0 <= m < tail.len() && tail[m] == c[j];
                assert(s[m + 1] == c[j]);
            }
        }
    }
}

/// Over increasing positions, every selection is increasing.
proof fn lemma_combination_increasing(s: Seq<usize>, k: nat, i: int)
    requires
        0 <= i < combinations(s, k).len(),
        forall|a: int, b: int| 0 <= a < b < s.len() ==> s[a] < s[b],
    ensures
        forall|a: int, b: int|
            0 <= a < b < combinations(s, k)[i].len() ==> combinations(s, k)[i][a] < combinations(s, k)[i][b],
    decreases s.len(),
{
    lemma_combination_members(s, k, i);
    if k > 0 && s.len() > 0 {
        let tail = s.drop_first();
        let a = combinations(tail, (k - 1) as nat);
        let b = combinations(tail, k);
        let head = a.map_values(|c: Seq<usize>| seq![s[0]] + c);
        assert(combinations(s, k) == head + b);
        if i < head.len() {
            lemma_combination_increasing(tail, (k - 1) as nat, i);
            lemma_combination_members(tail, (k - 1) as nat, i);
            let c = combinations(s, k)[i];
            assert(c == seq![s[0]] + a[i]);
            assert forall|x: int, y: int| 0 <= x < y < c.len() implies c[x] < c[y] by {
                if x == 0 {
                    assert(tail.contains(a[i][y - 1]));
                    let m = choose|m: int| 0 <= m < tail.len() && tail[m] == a[i][y - 1];
                    assert(s[m + 1] == c[y]);
                } else {
                    assert(c[x] == a[i][x - 1] && c[y] == a[i][y - 1]);
                }
            }
        } else {
            lemma_combination_increasing(tail, k, i - head.len());
            assert(combinations(s, k)[i] == b[i - head.len()]);
        }
    }
}

proof fn lemma_accepted_phrases_contains(s: Seq<Seq<char>>, p: Seq<char>)
    requires
        accepted_phrases(s).contains(p),
    ensures
        s.contains(p),
        mnemonic_accepted(p),
    decreases s.len(),
{
    let init = s.drop_last();
    let a = accepted_phrases(init);
    if a.contains(p) {
        lemma_accepted_phrases_contains(init, p);
        let m = choose|m: int| 0 <= m < init.len() && init[m] == p;
        assert(s[m] == p);
    } else {
        let k = choose|k: int| 0 <= k < accepted_phrases(s).len() && accepted_phrases(s)[k] == p;
        if mnemonic_accepted(s.last()) {
            if k < a.len() {
                assert(a[k] == p);
            }
            assert(s[s.len() - 1] == p);
        } else {
            assert(a[k] == p);
        }
    }
}

/// Sweeps every selection of `combination` words of the English list: each
/// selection's words are repeated `mnemonic_size / combination` times and
/// joined, and the phrase is kept when bip39 accepts it and counted as
/// discarded otherwise.
pub fn combination_mnemonics(combination: usize, mnemonic_size: usize) -> (r: CombinationSweep)
    requires
        supported_combination(combination as int),
    ensures
        sweep_outcome(combination as nat, mnemonic_size as nat, r),
{
    let words = english_words();
    let times = mnemonic_size / combination;
    let combos = position_combinations(WORD_LIST_LEN, combination);
    let ghost all = combinations(positions(WORD_LIST_LEN as nat), combination as nat);
    let ghost candidates = candidate_phrases(combination as nat, mnemonic_size as nat);
    proof {
        assert(combos@.map_values(|c: Vec<usize>| c@).len() == all.len());
    }
    let mut mnemonics: Vec<Mnemonic> = Vec::new();
    let mut discarded: usize = 0;
    let mut n: usize = 0;
    while n < combos.len()
        invariant
            n <= combos@.len(),
            combos@.len() == all.len() == candidates.len(),
            combos@.map_values(|c: Vec<usize>| c@) == all,
            all == combinations(positions(WORD_LIST_LEN as nat), combination as nat),
            candidates == candidate_phrases(combination as nat, mnemonic_size as nat),
            times == mnemonic_size / combination,
            supported_combination(combination as int),
            words@.len() == WORD_LIST_LEN,
            forall|i: int| 0 <= i < words@.len() ==> #[trigger] words@[i]@ == english_word(i),
            mnemonic_views(mnemonics@) == accepted_phrases(candidates.subrange(0, n as int)),
            mnemonics@.len() + discarded == n,
        decreases combos@.len() - n,
    {
        let c = &combos[n];
        proof {
            assert(all[n as int] == c@);
            lemma_combination_members(positions(WORD_LIST_LEN as nat), combination as nat, n as int);
        }
        let mut selected: Vec<&str> = Vec::new();
        let mut j: usize = 0;
        while j < c.len()
            invariant
                j <= c@.len(),
                c@ == all[n as int],
                forall|m: int| 0 <= m < c@.len() ==> positions(WORD_LIST_LEN as nat).contains(#[trigger] c@[m]),
                words@.len() == WORD_LIST_LEN,
                forall|i: int| 0 <= i < words@.len() ==> #[trigger] words@[i]@ == english_word(i),
                selected@.map_values(|w: &str| w@) == words_at(c@.subrange(0, j as int)),
            decreases c@.len() - j,
        {
            let pos = c[j];
            proof {
                assert(positions(WORD_LIST_LEN as nat).contains(c@[j as int]));
                let m = choose|m: int| 0 <= m < WORD_LIST_LEN && positions(WORD_LIST_LEN as nat)[m] == pos;
            }
            let ghost before = selected@;
            selected.push(words[pos]);
            proof {
                assert(selected@.map_values(|w: &str| w@) =~= before.map_values(|w: &str| w@).push(english_word(pos as int)));
                assert(c@.subrange(0, j as int + 1) =~= c@.subrange(0, j as int).push(pos));
                assert(words_at(c@.subrange(0, j as int + 1)) =~= words_at(c@.subrange(0, j as int)).push(english_word(pos as int)));
            }
            j = j + 1;
        }
        proof {
            assert(c@.subrange(0, c@.len() as int) =~= c@);
        }
        let phrase = repeat_phrase(&selected, times);
        proof {
            assert(candidates[n as int] == candidate_phrase(c@, times as nat));
            assert(phrase@ == candidates[n as int]);
            assert(candidates.subrange(0, n as int + 1).drop_last() =~= candidates.subrange(0, n as int));
        }
        match Mnemonic::from_phrase(phrase) {
            Ok(m) => {
                let ghost before = mnemonics@;
                mnemonics.push(m);
                proof {
                    assert(mnemonic_views(mnemonics@) =~= mnemonic_views(before).push(m@));
                }
            },
            Err(_) => {
                discarded = discarded + 1;
            },
        }
        n = n + 1;
    }
    proof {
        assert(candidates.subrange(0, candidates.len() as int) =~= candidates);
        assert forall|i: int, j: int|
            0 <= i < j < WORD_LIST_LEN implies #[trigger] english_word(i) != #[trigger] english_word(j) by {
            assert(words@[i]@ != words@[j]@);
        }
    }
    CombinationSweep { mnemonics, discarded }
}

/// A sweep over pairs that fills twelve-word phrases yields only phrases made
/// of two distinct English words, alternating, six times over; and every
/// phrase it yields passes bip39's checksum, so a pair whose repeated phrase
/// fails it is absent.
pub proof fn lemma_pair_sweep_phrases(r: CombinationSweep, p: Seq<char>)
    requires
        sweep_outcome(2, 12, r),
        mnemonic_views(r.mnemonics@).contains(p),
    ensures
        mnemonic_accepted(p),
        exists|i: int, j: int|
            {
                &&& 0 <= i < j < WORD_LIST_LEN
                &&& english_word(i) != english_word(j)
                &&& p == join_words(repeated(seq![english_word(i), english_word(j)], 6))
            },
{
    let candidates = candidate_phrases(2, 12);
    let all = combinations(positions(WORD_LIST_LEN as nat), 2);
    lemma_accepted_phrases_contains(candidates, p);
    let k = choose|k: int| 0 <= k < candidates.len() && candidates[k] == p;
    let c = all[k];
    lemma_combination_members(positions(WORD_LIST_LEN as nat), 2, k);
    lemma_combination_increasing(positions(WORD_LIST_LEN as nat), 2, k);
    assert(p == candidate_phrase(c, 6));
    let i = c[0] as int;
    let j = c[1] as int;
    assert(positions(WORD_LIST_LEN as nat).contains(c[0]));
    assert(positions(WORD_LIST_LEN as nat).contains(c[1]));
    assert(0 <= i < j < WORD_LIST_LEN);
    assert(words_at(c) =~= seq![english_word(i), english_word(j)]);
}

} // verus!
