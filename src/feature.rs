use vstd::prelude::*;

use crate::host::Platform;
use crate::text::{lower_of, lowercase, text_eq};

verus! {

/// One condition of a directive: a key, the values it accepts, and whether it is negated.
#[derive(Debug, Clone)]
pub struct FeatureClause {
    pub negated: bool,
    pub key: String,
    pub values: Vec<String>,
}

/// What a clause's key tests.
#[derive(Clone, Copy, Debug, PartialEq, Eq)]
pub enum Key {
    Os,
    Bit,
    Family,
    Arch,
    Endian,
    Feature,
    Unknown,
}

/// The key that a lower-case key name stands for.
pub open spec fn key_of(low: Seq<char>) -> Key {
    if low == "os"@ {
        Key::Os
    } else if low == "bit"@ {
        Key::Bit
    } else if low == "family"@ || low == "platform"@ {
        Key::Family
    } else if low == "arch"@ {
        Key::Arch
    } else if low == "endian"@ {
        Key::Endian
    } else if low == "feature"@ || low == "feat"@ {
        Key::Feature
    } else {
        Key::Unknown
    }
}

pub open spec fn clause_key(c: FeatureClause) -> Key {
    key_of(lower_of(c.key@))
}

/// The platform fact that a key compares against.
pub open spec fn fact(k: Key, pl: Platform) -> Seq<char> {
    match k {
        Key::Os => pl.os@,
        Key::Bit => pl.bit@,
        Key::Family => pl.family@,
        Key::Arch => pl.arch@,
        _ => pl.endian@,
    }
}

/// The texts of a list of strings.
pub open spec fn texts(v: Seq<String>) -> Seq<Seq<char>> {
    v.map_values(|s: String| s@)
}

/// The lower-case texts of a list of strings.
pub open spec fn lows(v: Seq<String>) -> Seq<Seq<char>> {
    v.map_values(|s: String| lower_of(s@))
}

/// Whether some string of `v`, in lower case, is `t`.
pub open spec fn low_in(v: Seq<String>, t: Seq<char>) -> bool {
    exists|i: int| 0 <= i < v.len() && lower_of(#[trigger] v[i]@) == t
}

/// Whether some value, in lower case, equals some enabled feature in lower case.
pub open spec fn shares_feature(values: Seq<String>, enabled: Seq<String>) -> bool {
    exists|j: int| 0 <= j < enabled.len() && low_in(values, lower_of(#[trigger] enabled[j]@))
}

/// Whether a clause holds. A feature clause with no feature enabled at all is false,
/// negated or not.
pub open spec fn clause_holds(c: FeatureClause, enabled: Seq<String>, pl: Platform) -> bool {
    match clause_key(c) {
        Key::Feature => if enabled.len() == 0 {
            false
        } else {
            c.negated != shares_feature(c.values@, enabled)
        },
        Key::Unknown => false,
        k => c.negated != low_in(c.values@, lower_of(fact(k, pl))),
    }
}

/// The feature names that the first `k` clauses mention, in lower case and in order.
pub open spec fn recorded(cs: Seq<FeatureClause>, k: int) -> Seq<Seq<char>>
    decreases k,
{
    if k <= 0 {
        Seq::empty()
    } else if clause_key(cs[k - 1]) == Key::Feature {
        recorded(cs, k - 1) + lows(cs[k - 1].values@)
    } else {
        recorded(cs, k - 1)
    }
}

/// The first clause from `k` on whose key is unknown, or the length.
pub open spec fn first_unknown(cs: Seq<FeatureClause>, k: int) -> int
    decreases cs.len() - k,
{
    if k >= cs.len() {
        cs.len() as int
    } else if clause_key(cs[k]) == Key::Unknown {
        k
    } else {
        first_unknown(cs, k + 1)
    }
}

/// The key that a key name stands for, in any case.
pub fn key_kind(low: &str) -> (r: Key)
    ensures
        r == key_of(low@),
{
    if text_eq(low, "os") {
        Key::Os
    } else if text_eq(low, "bit") {
        Key::Bit
    } else if text_eq(low, "family") || text_eq(low, "platform") {
        Key::Family
    } else if text_eq(low, "arch") {
        Key::Arch
    } else if text_eq(low, "endian") {
        Key::Endian
    } else if text_eq(low, "feature") || text_eq(low, "feat") {
        Key::Feature
    } else {
        Key::Unknown
    }
}

/// Whether the platform fact `val` is among the values, in any case; inverted by `neg`.
pub fn check_feature_val(val: &str, values: &Vec<String>, neg: bool) -> (r: bool)
    ensures
        r == (neg != low_in(values@, lower_of(val@))),
{
    let target = lowercase(val);
    let mut found = false;
    let mut i: usize = 0;
    while i < values.len()
        invariant
            i <= values@.len(),
            target@ == lower_of(val@),
            found == exists|k: int| 0 <= k < i && lower_of(#[trigger] values@[k]@) == target@,
        decreases values@.len() - i,
    {
        let low = lowercase(values[i].as_str());
        if text_eq(low.as_str(), target.as_str()) {
            found = true;
        }
        i = i + 1;
    }
    neg != found
}

/// Records every value of a feature clause in `feats`, in lower case, then says whether
/// any of them is enabled; inverted by `neg`. With no feature enabled at all, false.
pub fn check_feature_list(
    enabled: &Vec<String>,
    values: &Vec<String>,
    neg: bool,
    feats: &mut Vec<String>,
) -> (r: bool)
    ensures
        texts(final(feats)@) == texts(old(feats)@) + lows(values@),
        r == if enabled@.len() == 0 {
            false
        } else {
            neg != shares_feature(values@, enabled@)
        },
{
    let mut low_values: Vec<String> = Vec::new();
    let mut i: usize = 0;
    while i < values.len()
        invariant
            i <= values@.len(),
            texts(feats@) == texts(old(feats)@) + lows(values@.take(i as int)),
            texts(low_values@) == lows(values@.take(i as int)),
        decreases values@.len() - i,
    {
        let low = lowercase(values[i].as_str());
        let copy = low.clone();
        let ghost prev = feats@;
        let ghost prev_low = low_values@;
        feats.push(low);
        low_values.push(copy);
        proof {
            assert(values@.take(i + 1) =~= values@.take(i as int).push(values@[i as int]));
            assert(texts(prev.push(low)) =~= texts(prev).push(low@));
            assert(texts(prev_low.push(copy)) =~= texts(prev_low).push(copy@));
            assert(lows(values@.take(i + 1)) =~= lows(values@.take(i as int)).push(
                lower_of(values@[i as int]@),
            ));
            assert(texts(feats@) =~= texts(old(feats)@) + lows(values@.take(i + 1)));
            assert(texts(low_values@) =~= lows(values@.take(i + 1)));
        }
        i = i + 1;
    }
    assert(values@.take(i as int) =~= values@);
    if enabled.len() == 0 {
        return false;
    }
    let mut found = false;
    let mut j: usize = 0;
    while j < enabled.len()
        invariant
            j <= enabled@.len(),
            texts(low_values@) == lows(values@),
            low_values@.len() == values@.len(),
            found == exists|k: int| 0 <= k < j && low_in(values@, lower_of(#[trigger] enabled@[k]@)),
        decreases enabled@.len() - j,
    {
        let e = lowercase(enabled[j].as_str());
        let mut m: usize = 0;
        let mut hit = false;
        while m < low_values.len()
            invariant
                m <= low_values@.len(),
                low_values@.len() == values@.len(),
                texts(low_values@) == lows(values@),
                e@ == lower_of(enabled@[j as int]@),
                hit == exists|k: int| 0 <= k < m && lower_of(#[trigger] values@[k]@) == e@,
            decreases low_values@.len() - m,
        {
            assert(texts(low_values@)[m as int] == lows(values@)[m as int]);
            if text_eq(low_values[m].as_str(), e.as_str()) {
                hit = true;
            }
            m = m + 1;
        }
        if hit {
            found = true;
        }
        j = j + 1;
    }
    neg != found
}

/// Evaluates the clauses of a directive: true when every clause holds. Every clause is
/// evaluated, so that `feats` receives, in lower case, each feature name that a clause
/// mentions. An unknown key ends the evaluation with that key as the error.
pub fn process_feature(
    clauses: &Vec<FeatureClause>,
    enabled: &Vec<String>,
    platform: &Platform,
    feats: &mut Vec<String>,
) -> (r: Result<bool, String>)
    ensures
        ({
            let u = first_unknown(clauses@, 0);
            &&& texts(final(feats)@) == texts(old(feats)@) + recorded(clauses@, u)
            &&& u < clauses@.len() ==> (r matches Err(e) && e@ == lower_of(clauses@[u].key@))
            &&& u >= clauses@.len() ==> r == Ok::<bool, String>(
                forall|i: int|
                    0 <= i < clauses@.len() ==> #[trigger] clause_holds(
                        clauses@[i],
                        enabled@,
                        *platform,
                    ),
            )
        }),
{
    let mut ok = true;
    let mut k: usize = 0;
    while k < clauses.len()
        invariant
            k <= clauses@.len(),
            first_unknown(clauses@, 0) == first_unknown(clauses@, k as int),
            texts(feats@) == texts(old(feats)@) + recorded(clauses@, k as int),
            ok == forall|i: int| 0 <= i < k ==> #[trigger] clause_holds(clauses@[i], enabled@, *platform),
        decreases clauses@.len() - k,
    {
        let c = &clauses[k];
        let name = lowercase(c.key.as_str());
        let kind = key_kind(name.as_str());
        let pass = match kind {
            Key::Os => check_feature_val(platform.os.as_str(), &c.values, c.negated),
            Key::Bit => check_feature_val(platform.bit.as_str(), &c.values, c.negated),
            Key::Family => check_feature_val(platform.family.as_str(), &c.values, c.negated),
            Key::Arch => check_feature_val(platform.arch.as_str(), &c.values, c.negated),
            Key::Endian => check_feature_val(platform.endian.as_str(), &c.values, c.negated),
            Key::Feature => check_feature_list(enabled, &c.values, c.negated, feats),
            Key::Unknown => {
                return Err(name);
            },
        };
        proof {
            assert(texts(feats@) =~= texts(old(feats)@) + recorded(clauses@, k + 1));
            assert(pass == clause_holds(clauses@[k as int], enabled@, *platform));
        }
        ok = ok && pass;
        k = k + 1;
    }
    Ok(ok)
}

/// A feature clause is false when no feature is enabled at all, negated or not.
pub proof fn law_no_features_enabled(c: FeatureClause, pl: Platform)
    requires
        clause_key(c) == Key::Feature,
    ensures
        !clause_holds(c, Seq::empty(), pl),
{
}

/// Every value of every feature clause before the first unknown key is recorded, in
/// lower case, whatever the clauses evaluate to.
pub proof fn law_feature_values_recorded(cs: Seq<FeatureClause>, k: int, i: int)
    requires
        0 <= k < first_unknown(cs, 0),
        clause_key(cs[k]) == Key::Feature,
        0 <= i < cs[k].values@.len(),
    ensures
        recorded(cs, first_unknown(cs, 0)).contains(lower_of(cs[k].values@[i]@)),
{
    lemma_first_unknown_bound(cs, 0);
    lemma_recorded_keeps(cs, k, i, first_unknown(cs, 0));
}

proof fn lemma_first_unknown_bound(cs: Seq<FeatureClause>, k: int)
    requires
        0 <= k,
    ensures
        first_unknown(cs, k) <= cs.len(),
        k <= cs.len() ==> k <= first_unknown(cs, k),
    decreases cs.len() - k,
{
    if k < cs.len() && clause_key(cs[k]) != Key::Unknown {
        lemma_first_unknown_bound(cs, k + 1);
    }
}

proof fn lemma_recorded_keeps(cs: Seq<FeatureClause>, k: int, i: int, n: int)
    requires
        0 <= k < n <= cs.len(),
        clause_key(cs[k]) == Key::Feature,
        0 <= i < cs[k].values@.len(),
    ensures
        recorded(cs, n).contains(lower_of(cs[k].values@[i]@)),
    decreases n,
{
    let x = lower_of(cs[k].values@[i]@);
    if n == k + 1 {
        let before = recorded(cs, k);
        assert(recorded(cs, n) == before + lows(cs[k].values@));
        assert((before + lows(cs[k].values@))[before.len() + i] == x);
    } else {
        lemma_recorded_keeps(cs, k, i, n - 1);
        let prev = recorded(cs, n - 1);
        let j = choose|j: int| 0 <= j < prev.len() && prev[j] == x;
        if clause_key(cs[n - 1]) == Key::Feature {
            assert((prev + lows(cs[n - 1].values@))[j] == x);
        }
    }
}

} // verus!
