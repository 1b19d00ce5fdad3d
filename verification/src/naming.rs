//! The session namer: starting from a desired base name, the first candidate
//! of `base`, `base-1`, `base-2`, … that is not already taken is chosen.
//! A pigeonhole argument — all candidates are pairwise distinct — bounds the
//! search by the number of taken names.
use vstd::prelude::*;

use vstd::arithmetic::div_mod::lemma_fundamental_div_mod;
use vstd::set_lib::lemma_len_subset;

verus! {

/// The decimal digit character for `d`.
pub open spec fn digit_char(d: nat) -> char {
    if d == 0 {
        '0'
    } else if d == 1 {
        '1'
    } else if d == 2 {
        '2'
    } else if d == 3 {
        '3'
    } else if d == 4 {
        '4'
    } else if d == 5 {
        '5'
    } else if d == 6 {
        '6'
    } else if d == 7 {
        '7'
    } else if d == 8 {
        '8'
    } else {
        '9'
    }
}

/// The decimal digits of `n`, most significant first, without leading
/// zeros (a single `'0'` for zero).
pub open spec fn dec_digits(n: nat) -> Seq<char>
    decreases n,
{
    if n < 10 {
        seq![digit_char(n)]
    } else {
        dec_digits(n / 10).push(digit_char(n % 10))
    }
}

proof fn lemma_dec_digits_len(n: nat)
    ensures
        dec_digits(n).len() >= 1,
        n >= 10 ==> dec_digits(n).len() >= 2,
    decreases n,
{
    if n >= 10 {
        lemma_dec_digits_len(n / 10);
    }
}

proof fn lemma_dec_injective(a: nat, b: nat)
    requires
        dec_digits(a) == dec_digits(b),
    ensures
        a == b,
    decreases a,
{
    lemma_dec_digits_len(a);
    lemma_dec_digits_len(b);
    if a < 10 && b < 10 {
        assert(dec_digits(a)[0] == digit_char(a));
        assert(dec_digits(b)[0] == digit_char(b));
    } else if a < 10 {
        assert(dec_digits(a).len() == 1);
        assert(false);
    } else if b < 10 {
        assert(dec_digits(b).len() == 1);
        assert(false);
    } else {
        assert(dec_digits(a).last() == digit_char(a % 10));
        assert(dec_digits(b).last() == digit_char(b % 10));
        assert(a % 10 == b % 10);
        assert(dec_digits(a).drop_last() =~= dec_digits(a / 10));
        assert(dec_digits(b).drop_last() =~= dec_digits(b / 10));
        lemma_dec_injective(a / 10, b / 10);
        lemma_fundamental_div_mod(a as int, 10);
        lemma_fundamental_div_mod(b as int, 10);
    }
}

/// Candidate number `i` for base name `base`: the base itself first, then
/// `base-1`, `base-2`, and so on.
pub open spec fn candidate_name(base: Seq<char>, i: nat) -> Seq<char> {
    if i == 0 {
        base
    } else {
        base + "-"@ + dec_digits(i)
    }
}

proof fn lemma_candidate_injective(base: Seq<char>, i: nat, j: nat)
    requires
        i != j,
    ensures
        candidate_name(base, i) != candidate_name(base, j),
{
    reveal_strlit("-");
    lemma_dec_digits_len(i);
    lemma_dec_digits_len(j);
    if i == 0 || j == 0 {
        assert(candidate_name(base, i).len() != candidate_name(base, j).len());
    } else {
        if candidate_name(base, i) == candidate_name(base, j) {
            assert(candidate_name(base, i).skip(base.len() as int + 1) =~= dec_digits(i));
            assert(candidate_name(base, j).skip(base.len() as int + 1) =~= dec_digits(j));
            lemma_dec_injective(i, j);
            assert(false);
        }
    }
}

/// Pigeonhole: when every candidate below `m` is taken, there are at least
/// `m` taken names, because candidates are pairwise distinct.
proof fn lemma_candidate_pigeonhole(base: Seq<char>, taken: Seq<Seq<char>>, m: nat)
    requires
        forall|j: nat| j < m ==> taken.contains(#[trigger] candidate_name(base, j)),
    ensures
        m <= taken.len(),
{
    broadcast use vstd::seq_lib::seq_to_set_is_finite;

    let cands = Seq::new(m, |j: int| candidate_name(base, j as nat));
    assert forall|p: int, q: int| 0 <= p < cands.len() && 0 <= q < cands.len() && p != q
        implies cands[p] != cands[q] by {
        lemma_candidate_injective(base, p as nat, q as nat);
    }
    assert(cands.no_duplicates());
    cands.unique_seq_to_set();
    assert forall|x: Seq<char>| cands.to_set().contains(x) implies taken.to_set().contains(
        x,
    ) by {
        let idx = choose|idx: int| 0 <= idx < cands.len() && cands[idx] == x;
        assert(taken.contains(candidate_name(base, idx as nat)));
    }
    assert(cands.to_set().subset_of(taken.to_set()));
    lemma_len_subset(cands.to_set(), taken.to_set());
    taken.lemma_cardinality_of_set();
}

/// The one-character string for decimal digit `d`.
fn digit_string(d: u64) -> (r: String)
    requires
        d < 10,
    ensures
        r@ == seq![digit_char(d as nat)],
{
    let s: &str = if d == 0 {
        "0"
    } else if d == 1 {
        "1"
    } else if d == 2 {
        "2"
    } else if d == 3 {
        "3"
    } else if d == 4 {
        "4"
    } else if d == 5 {
        "5"
    } else if d == 6 {
        "6"
    } else if d == 7 {
        "7"
    } else if d == 8 {
        "8"
    } else {
        "9"
    };
    proof {
        reveal_strlit("0");
        reveal_strlit("1");
        reveal_strlit("2");
        reveal_strlit("3");
        reveal_strlit("4");
        reveal_strlit("5");
        reveal_strlit("6");
        reveal_strlit("7");
        reveal_strlit("8");
        reveal_strlit("9");
        assert(s@ =~= seq![digit_char(d as nat)]);
    }
    s.to_owned()
}

/// The decimal representation of `n`, matching `dec_digits`.
pub fn u64_to_string(n: u64) -> (r: String)
    ensures
        r@ == dec_digits(n as nat),
    decreases n,
{
    if n < 10 {
        digit_string(n)
    } else {
        let rest = u64_to_string(n / 10);
        let d = digit_string(n % 10);
        let out = rest.concat(d.as_str());
        proof {
            assert(dec_digits((n / 10) as nat) + seq![digit_char((n % 10) as nat)] =~= dec_digits(
                (n / 10) as nat,
            ).push(digit_char((n % 10) as nat)));
        }
        out
    }
}

/// Candidate number `i` for base name `base`, matching `candidate_name`.
pub fn candidate(base: &String, i: u64) -> (r: String)
    ensures
        r@ == candidate_name(base@, i as nat),
{
    if i == 0 {
        base.clone()
    } else {
        let mut s = base.clone();
        s.append("-");
        let digits = u64_to_string(i);
        s.append(digits.as_str());
        s
    }
}

/// True when `s` is one of the names in `taken`.
pub fn contains_name(taken: &Vec<String>, s: &String) -> (r: bool)
    ensures
        r == taken.deep_view().contains(s@),
{
    let mut k: usize = 0;
    while k < taken.len()
        invariant
            0 <= k <= taken@.len(),
            taken.deep_view().len() == taken@.len(),
            forall|j: int| 0 <= j < k ==> taken.deep_view()[j] != s@,
        decreases taken@.len() - k,
    {
        if taken[k] == *s {
            proof {
                assert(taken.deep_view()[k as int] == s@);
            }
            return true;
        }
        k = k + 1;
    }
    proof {
        assert(!taken.deep_view().contains(s@));
    }
    false
}

/// `name` is the first of the candidates `base`, `base-1`, `base-2`, …
/// that is not among `taken`.
pub open spec fn is_first_free_name(name: Seq<char>, base: Seq<char>, taken: Seq<Seq<char>>) -> bool {
    exists|i: nat|
        name == candidate_name(base, i) && !taken.contains(candidate_name(base, i)) && forall|
            j: nat,
        | j < i ==> taken.contains(#[trigger] candidate_name(base, j))
}

/// The first of the candidates `base`, `base-1`, `base-2`, … that is not
/// among `taken`: every candidate before the returned one is taken, and the
/// returned one is free.
pub fn unique_name(base: &String, taken: &Vec<String>) -> (r: String)
    requires
        taken@.len() < u64::MAX,
    ensures
        !taken.deep_view().contains(r@),
        is_first_free_name(r@, base@, taken.deep_view()),
{
    let ghost tv = taken.deep_view();
    proof {
        assert(tv.len() == taken@.len());
    }
    let mut i: u64 = 0;
    loop
        invariant
            tv == taken.deep_view(),
            tv.len() == taken@.len(),
            taken@.len() < u64::MAX,
            i as nat <= tv.len(),
            forall|j: nat| j < i as nat ==> tv.contains(#[trigger] candidate_name(base@, j)),
        decreases tv.len() + 1 - i,
    {
        let cand = candidate(base, i);
        if !contains_name(taken, &cand) {
            proof {
                let ghost w = i as nat;
                assert(cand@ == candidate_name(base@, w) && !tv.contains(
                    candidate_name(base@, w),
                ) && forall|j: nat| j < w ==> tv.contains(#[trigger] candidate_name(base@, j)));
            }
            return cand;
        }
        proof {
            assert forall|j: nat| j < (i + 1) as nat implies tv.contains(
                #[trigger] candidate_name(base@, j),
            ) by {
                if j == i as nat {
                    assert(tv.contains(cand@));
                }
            }
            lemma_candidate_pigeonhole(base@, tv, (i + 1) as nat);
        }
        i = i + 1;
    }
}

} // verus!
