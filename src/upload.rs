//! Naming of uploaded files: a name already taken in the destination
//! directory gets the first free numeric suffix before its extension.
use vstd::prelude::*;
use vstd::set_lib::lemma_len_subset;
use crate::policy::{extension, extension_exec, stem, stem_exec};
use crate::text::{decimal, lemma_decimal_injective, push_decimal, str_eq};

verus! {

/// The name `name` takes with the suffix `k`: `report.txt` becomes
/// `report_1.txt` for `k == 1`, and a name without extension gets the
/// suffix at its end.
pub open spec fn suffixed(name: Seq<char>, k: nat) -> Seq<char> {
    match extension(name) {
        None => name + "_"@ + decimal(k),
        Some(e) => stem(name) + "_"@ + decimal(k) + "."@ + e,
    }
}

pub open spec fn is_taken(existing: Seq<String>, name: Seq<char>) -> bool {
    exists|i: int| 0 <= i < existing.len() && existing[i]@ == name
}

/// The name an upload of `name` is stored under, given the names already in
/// the directory: `name` itself when free, else its first free suffix.
pub open spec fn upload_name_ok(existing: Seq<String>, name: Seq<char>, r: Seq<char>) -> bool {
    if !is_taken(existing, name) {
        r == name
    } else {
        exists|k: nat|
            #![trigger suffixed(name, k)]
            {
                &&& k >= 1
                &&& r == suffixed(name, k)
                &&& !is_taken(existing, r)
                &&& forall|j: nat| 1 <= j < k ==> is_taken(existing, #[trigger] suffixed(name, j))
            }
    }
}

proof fn lemma_suffixed_injective(name: Seq<char>, a: nat, b: nat)
    requires
        suffixed(name, a) == suffixed(name, b),
    ensures
        a == b,
{
    let pre = match extension(name) {
        None => name + "_"@,
        Some(e) => stem(name) + "_"@,
    };
    let tail = match extension(name) {
        None => Seq::<char>::empty(),
        Some(e) => "."@ + e,
    };
    assert(suffixed(name, a) =~= pre + decimal(a) + tail);
    assert(suffixed(name, b) =~= pre + decimal(b) + tail);
    let p = pre.len() as int;
    let sa = suffixed(name, a);
    assert(decimal(a).len() == decimal(b).len());
    assert(decimal(a) =~= sa.subrange(p, p + decimal(a).len()));
    assert(decimal(b) =~= sa.subrange(p, p + decimal(b).len()));
    lemma_decimal_injective(a, b);
}

/// Only as many suffixes as there are names can be taken.
proof fn lemma_taken_bound(existing: Seq<String>, name: Seq<char>, k: nat)
    requires
        forall|j: nat| 1 <= j <= k ==> is_taken(existing, #[trigger] suffixed(name, j)),
    ensures
        k <= existing.len(),
{
    let cands = Seq::new(k, |i: int| suffixed(name, (i + 1) as nat));
    let names = existing.map_values(|s: String| s@);
    assert forall|i: int, j: int| 0 <= i < cands.len() && 0 <= j < cands.len() && i != j implies cands[i]
        != cands[j] by {
        if cands[i] == cands[j] {
            lemma_suffixed_injective(name, (i + 1) as nat, (j + 1) as nat);
        }
    }
    assert(cands.no_duplicates());
    cands.unique_seq_to_set();
    names.lemma_cardinality_of_set();
    assert(names.len() == existing.len());
    assert(names.to_set().finite()) by {
        broadcast use vstd::seq_lib::seq_to_set_is_finite;
    }
    assert forall|c: Seq<char>| cands.to_set().contains(c) implies names.to_set().contains(c) by {
        let i = choose|i: int| 0 <= i < cands.len() && cands[i] == c;
        assert(cands[i] == suffixed(name, (i + 1) as nat));
        assert(is_taken(existing, suffixed(name, (i + 1) as nat)));
        let t = choose|t: int| 0 <= t < existing.len() && existing[t]@ == suffixed(name, (i + 1) as nat);
        assert(names[t] == c);
    }
    lemma_len_subset(cands.to_set(), names.to_set());
}

fn taken(existing: &Vec<String>, name: &str) -> (r: bool)
    ensures
        r == is_taken(existing@, name@),
{
    let mut i: usize = 0;
    while i < existing.len()
        invariant
            i <= existing@.len(),
            forall|k: int| 0 <= k < i ==> existing@[k]@ != name@,
        decreases existing@.len() - i,
    {
        if str_eq(existing[i].as_str(), name) {
            return true;
        }
        i = i + 1;
    }
    false
}

fn suffixed_exec(name: &str, k: u64) -> (r: String)
    ensures
        r@ == suffixed(name@, k as nat),
{
    match extension_exec(name) {
        None => {
            let mut s = String::from_str(name);
            s.append("_");
            push_decimal(&mut s, k);
            s
        },
        Some(e) => {
            let mut s = String::from_str(stem_exec(name));
            s.append("_");
            push_decimal(&mut s, k);
            s.append(".");
            s.append(e);
            assert(s@ =~= stem(name@) + "_"@ + decimal(k as nat) + "."@ + e@);
            s
        },
    }
}

/// The name under which an upload of `name` is stored in a directory that
/// already holds the names `existing`.
pub fn unique_file_name(name: &str, existing: &Vec<String>) -> (r: String)
    requires
        existing@.len() < u64::MAX,
    ensures
        upload_name_ok(existing@, name@, r@),
{
    if !taken(existing, name) {
        return String::from_str(name);
    }
    let mut k: u64 = 1;
    loop
        invariant
            1 <= k,
            k <= existing@.len() + 1,
            existing@.len() < u64::MAX,
            is_taken(existing@, name@),
            forall|j: nat| 1 <= j < k ==> is_taken(existing@, #[trigger] suffixed(name@, j)),
        decreases existing@.len() + 1 - k,
    {
        let candidate = suffixed_exec(name, k);
        if !taken(existing, candidate.as_str()) {
            assert(is_taken(existing@, name@));
            assert(candidate@ == suffixed(name@, k as nat));
            return candidate;
        }
        proof {
            assert forall|j: nat| 1 <= j <= k implies is_taken(existing@, #[trigger] suffixed(name@, j)) by {
                if j == k {
                    assert(candidate@ == suffixed(name@, j));
                }
            }
            lemma_taken_bound(existing@, name@, k as nat);
        }
        k = k + 1;
    }
}

} // verus!
