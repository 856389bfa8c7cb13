//! What the dashboard's endpoints compute from the loaded changes: the
//! overview's totals and per-tag and per-feature counts, and the change
//! list's limit and tag filter.

use vstd::prelude::*;
use crate::monitor::features::{HitView, hit_views, total_additions, total_deletions};
use crate::monitor::git::{ChangeEntry, EntryView, entry_views};
use crate::text::{
    chars_eq, chars_lt, chars_of, lemma_seq_lt_irreflexive, lemma_seq_lt_total,
    lemma_seq_lt_transitive, seq_lt, string_of, sviews, views,
};

verus! {

/// How often `k` occurs in `keys`.
pub open spec fn occ(keys: Seq<Seq<char>>, k: Seq<char>) -> nat
    decreases keys.len(),
{
    if keys.len() == 0 {
        0
    } else {
        occ(keys.drop_last(), k) + if keys.last() == k {
            1nat
        } else {
            0nat
        }
    }
}

pub proof fn lemma_occ_bound(keys: Seq<Seq<char>>, k: Seq<char>)
    ensures
        occ(keys, k) <= keys.len(),
    decreases keys.len(),
{
    if keys.len() > 0 {
        lemma_occ_bound(keys.drop_last(), k);
    }
}

/// `ks` and `cs` count `keys`: the keys in the order of `str`, each once,
/// with how often it occurs, and every key that occurs among them.
pub open spec fn tally(ks: Seq<Seq<char>>, cs: Seq<u64>, keys: Seq<Seq<char>>) -> bool {
    &&& ks.len() == cs.len()
    &&& forall|a: int, b: int| 0 <= a < b < ks.len() ==> seq_lt(#[trigger] ks[a], #[trigger] ks[b])
    &&& forall|a: int| 0 <= a < ks.len() ==> #[trigger] cs[a] == occ(keys, ks[a]) && cs[a] > 0
    &&& forall|k: Seq<char>| occ(keys, k) > 0 ==> ks.contains(k)
}

pub open spec fn pair_views(v: Seq<(String, u64)>) -> Seq<(Seq<char>, u64)> {
    v.map_values(|p: (String, u64)| (p.0@, p.1))
}

/// `r` counts `keys`, as a `BTreeMap` from key to count would list them.
pub open spec fn counted(r: Seq<(Seq<char>, u64)>, keys: Seq<Seq<char>>) -> bool {
    tally(r.map_values(|p: (Seq<char>, u64)| p.0), r.map_values(|p: (Seq<char>, u64)| p.1), keys)
}

/// Counts the keys (`counted`).
pub fn count_keys(keys: &Vec<String>) -> (r: Vec<(String, u64)>)
    ensures
        counted(pair_views(r@), sviews(keys@)),
{
    let ghost all = sviews(keys@);
    let mut ks: Vec<Vec<char>> = Vec::new();
    let mut cs: Vec<u64> = Vec::new();
    let mut i: usize = 0;
    assert(tally(views(ks@), cs@, all.take(0))) by {
        assert(all.take(0) =~= Seq::<Seq<char>>::empty());
    }
    while i < keys.len()
        invariant
            i <= keys@.len(),
            all == sviews(keys@),
            tally(views(ks@), cs@, all.take(i as int)),
        decreases keys.len() - i,
    {
        let x = chars_of(keys[i].as_str());
        let ghost p = all.take(i as int);
        let ghost p1 = all.take(i + 1);
        let ghost o = views(ks@);
        let ghost oc = cs@;
        proof {
            assert(p1.drop_last() =~= p);
            assert(p1.last() == x@);
            assert forall|k: Seq<char>| occ(p1, k) == occ(p, k) + if x@ == k {
                1nat
            } else {
                0nat
            } by {}
        }
        let mut j: usize = 0;
        while j < ks.len() && chars_lt(&ks[j], &x)
            invariant
                j <= ks@.len(),
                o == views(ks@),
                forall|q: int| 0 <= q < j ==> seq_lt(#[trigger] o[q], x@),
            decreases ks@.len() - j,
        {
            assert(o[j as int] == ks@[j as int]@);
            j = j + 1;
        }
        let found = j < ks.len() && chars_eq(&ks[j], &x);
        proof {
            if j < ks@.len() {
                assert(o[j as int] == ks@[j as int]@);
            }
        }
        if found {
            proof {
                lemma_occ_bound(p, x@);
            }
            let c = cs[j] + 1;
            cs.set(j, c);
            proof {
                assert forall|a: int| 0 <= a < o.len() && a != j implies o[a] != x@ by {
                    if a < j {
                        assert(seq_lt(o[a], o[j as int]));
                    } else {
                        assert(seq_lt(o[j as int], o[a]));
                    }
                    lemma_seq_lt_irreflexive(o[a]);
                }
                assert forall|k: Seq<char>| occ(p1, k) > 0 implies o.contains(k) by {
                    if k == x@ {
                        assert(o[j as int] == k);
                    }
                }
            }
        } else {
            proof {
                if j < ks@.len() {
                    lemma_seq_lt_total(o[j as int], x@);
                }
                assert forall|a: int| 0 <= a < o.len() implies o[a] != x@ by {
                    if a < j {
                        lemma_seq_lt_irreflexive(x@);
                    } else {
                        if a > j {
                            lemma_seq_lt_transitive(x@, o[j as int], o[a]);
                        }
                        lemma_seq_lt_irreflexive(x@);
                    }
                }
                if occ(p, x@) > 0 {
                    assert(o.contains(x@));
                    let a = choose|a: int| 0 <= a < o.len() && o[a] == x@;
                    assert(false);
                }
            }
            let xk = x.clone();
            ks.insert(j, xk);
            cs.insert(j, 1);
            proof {
                let n = views(ks@);
                assert(n =~= o.insert(j as int, x@));
                assert forall|a: int, b: int| 0 <= a < b < n.len() implies seq_lt(
                    #[trigger] n[a],
                    #[trigger] n[b],
                ) by {
                    if b == j {
                        assert(n[a] == o[a]);
                    } else if a == j {
                        assert(n[b] == o[b - 1]);
                        if b - 1 > j {
                            assert(seq_lt(o[j as int], o[b - 1]));
                            lemma_seq_lt_transitive(x@, o[j as int], o[b - 1]);
                        }
                    } else if a < j && b > j {
                        assert(n[a] == o[a]);
                        assert(n[b] == o[b - 1]);
                    } else if b < j {
                        assert(n[a] == o[a] && n[b] == o[b]);
                    } else {
                        assert(n[a] == o[a - 1] && n[b] == o[b - 1]);
                    }
                }
                assert forall|a: int| 0 <= a < n.len() implies #[trigger] cs@[a] == occ(p1, n[a])
                    && cs@[a] > 0 by {
                    if a < j {
                        assert(n[a] == o[a] && cs@[a] == oc[a]);
                    } else if a > j {
                        assert(n[a] == o[a - 1] && cs@[a] == oc[a - 1]);
                    }
                }
                assert forall|k: Seq<char>| occ(p1, k) > 0 implies n.contains(k) by {
                    if k == x@ {
                        assert(n[j as int] == k);
                    } else {
                        assert(o.contains(k));
                        let a = choose|a: int| 0 <= a < o.len() && o[a] == k;
                        if a < j {
                            assert(n[a] == k);
                        } else {
                            assert(n[a + 1] == k);
                        }
                    }
                }
            }
        }
        i = i + 1;
    }
    assert(all.take(keys@.len() as int) =~= all);
    let mut out: Vec<(String, u64)> = Vec::new();
    let mut m: usize = 0;
    while m < ks.len()
        invariant
            m <= ks@.len(),
            ks@.len() == cs@.len(),
            pair_views(out@) == Seq::new(m as nat, |a: int| (views(ks@)[a], cs@[a])),
        decreases ks@.len() - m,
    {
        let s = string_of(&ks[m]);
        let ghost before = pair_views(out@);
        assert(views(ks@)[m as int] == ks@[m as int]@);
        out.push((s, cs[m]));
        assert(pair_views(out@) =~= before.push((views(ks@)[m as int], cs@[m as int])));
        assert(pair_views(out@) =~= Seq::new((m + 1) as nat, |a: int| (views(ks@)[a], cs@[a])));
        m = m + 1;
    }
    proof {
        let r = pair_views(out@);
        assert(r.map_values(|p: (Seq<char>, u64)| p.0) =~= views(ks@));
        assert(r.map_values(|p: (Seq<char>, u64)| p.1) =~= cs@);
    }
    out
}

/// The tags of all changes, in order.
pub open spec fn all_tags(es: Seq<EntryView>) -> Seq<Seq<char>>
    decreases es.len(),
{
    if es.len() == 0 {
        Seq::empty()
    } else {
        all_tags(es.drop_last()) + es.last().impact.tags
    }
}

/// The ids of the features that the changes touch, in order.
pub open spec fn all_feature_ids(es: Seq<EntryView>) -> Seq<Seq<char>>
    decreases es.len(),
{
    if es.len() == 0 {
        Seq::empty()
    } else {
        all_feature_ids(es.drop_last()) + es.last().impact.features.map_values(|h: HitView| h.id)
    }
}

proof fn lemma_totals_grow(es: Seq<EntryView>, i: int)
    requires
        0 <= i <= es.len(),
    ensures
        total_additions(es.take(i)) <= total_additions(es),
        total_deletions(es.take(i)) <= total_deletions(es),
    decreases es.len() - i,
{
    if i < es.len() {
        lemma_totals_grow(es, i + 1);
        assert(es.take(i + 1).drop_last() =~= es.take(i));
    } else {
        assert(es.take(i) =~= es);
    }
}

/// Whether the line counts of all changes add up within `u64`, as the
/// overview asks.
pub fn change_totals_fit(changes: &[ChangeEntry]) -> (r: bool)
    ensures
        r == (total_additions(entry_views(changes@)) <= u64::MAX && total_deletions(
            entry_views(changes@),
        ) <= u64::MAX),
{
    let ghost es = entry_views(changes@);
    let mut add: u64 = 0;
    let mut del: u64 = 0;
    let mut i: usize = 0;
    assert(es.take(0) =~= Seq::<EntryView>::empty());
    while i < changes.len()
        invariant
            i <= changes@.len(),
            es == entry_views(changes@),
            add == total_additions(es.take(i as int)),
            del == total_deletions(es.take(i as int)),
        decreases changes.len() - i,
    {
        assert(es.take(i + 1).drop_last() =~= es.take(i as int));
        assert(es.take(i + 1).last() == changes@[i as int]@);
        let a = add.checked_add(changes[i].additions as u64);
        let d = del.checked_add(changes[i].deletions as u64);
        match (a, d) {
            (Some(x), Some(y)) => {
                add = x;
                del = y;
            },
            _ => {
                proof {
                    lemma_totals_grow(es, i + 1);
                }
                return false;
            },
        }
        i = i + 1;
    }
    assert(es.take(changes@.len() as int) =~= es);
    true
}

/// The overview's figures over the loaded changes.
pub struct OverviewCounts {
    pub commit_count: usize,
    pub additions: u64,
    pub deletions: u64,
    /// Each tag with the number of its occurrences, in key order.
    pub area_counts: Vec<(String, u64)>,
    /// Each touched feature id with the number of its hits, in key order.
    pub feature_counts: Vec<(String, u64)>,
    /// How many distinct features were touched.
    pub features_touched: usize,
}

pub fn overview_counts(changes: &[ChangeEntry]) -> (r: OverviewCounts)
    requires
        total_additions(entry_views(changes@)) <= u64::MAX,
        total_deletions(entry_views(changes@)) <= u64::MAX,
    ensures
        r.commit_count == changes@.len(),
        r.additions == total_additions(entry_views(changes@)),
        r.deletions == total_deletions(entry_views(changes@)),
        counted(pair_views(r.area_counts@), all_tags(entry_views(changes@))),
        counted(pair_views(r.feature_counts@), all_feature_ids(entry_views(changes@))),
        r.features_touched == r.feature_counts@.len(),
{
    let ghost es = entry_views(changes@);
    let mut add: u64 = 0;
    let mut del: u64 = 0;
    let mut tags: Vec<String> = Vec::new();
    let mut ids: Vec<String> = Vec::new();
    let mut i: usize = 0;
    assert(es.take(0) =~= Seq::<EntryView>::empty());
    while i < changes.len()
        invariant
            i <= changes@.len(),
            es == entry_views(changes@),
            total_additions(es) <= u64::MAX,
            total_deletions(es) <= u64::MAX,
            add == total_additions(es.take(i as int)),
            del == total_deletions(es.take(i as int)),
            sviews(tags@) == all_tags(es.take(i as int)),
            sviews(ids@) == all_feature_ids(es.take(i as int)),
        decreases changes.len() - i,
    {
        let c = &changes[i];
        proof {
            assert(es.take(i + 1).drop_last() =~= es.take(i as int));
            assert(es.take(i + 1).last() == c@);
            lemma_totals_grow(es, i + 1);
        }
        add = add + c.additions as u64;
        del = del + c.deletions as u64;
        let mut k: usize = 0;
        let ghost t0 = sviews(tags@);
        while k < c.impact.tags.len()
            invariant
                k <= c.impact.tags@.len(),
                sviews(tags@) == t0 + sviews(c.impact.tags@).take(k as int),
            decreases c.impact.tags@.len() - k,
        {
            let t = c.impact.tags[k].clone();
            let ghost before = sviews(tags@);
            assert(sviews(c.impact.tags@)[k as int] == t@);
            tags.push(t);
            assert(sviews(tags@) =~= before.push(sviews(c.impact.tags@)[k as int]));
            assert(sviews(tags@) =~= t0 + sviews(c.impact.tags@).take(k + 1));
            k = k + 1;
        }
        assert(sviews(c.impact.tags@).take(c.impact.tags@.len() as int) =~= c@.impact.tags);
        let mut f: usize = 0;
        let ghost f0 = sviews(ids@);
        let ghost hid = c@.impact.features.map_values(|h: HitView| h.id);
        while f < c.impact.features.len()
            invariant
                f <= c.impact.features@.len(),
                hid == hit_views(c.impact.features@).map_values(|h: HitView| h.id),
                sviews(ids@) == f0 + hid.take(f as int),
            decreases c.impact.features@.len() - f,
        {
            let id = c.impact.features[f].id.clone();
            let ghost before = sviews(ids@);
            assert(hid[f as int] == c.impact.features@[f as int].id@);
            assert(hid[f as int] == id@);
            ids.push(id);
            assert(sviews(ids@) =~= before.push(hid[f as int]));
            assert(sviews(ids@) =~= f0 + hid.take(f + 1));
            f = f + 1;
        }
        assert(hid.take(c.impact.features@.len() as int) =~= hid);
        i = i + 1;
    }
    assert(es.take(changes@.len() as int) =~= es);
    let area_counts = count_keys(&tags);
    let feature_counts = count_keys(&ids);
    let touched = feature_counts.len();
    OverviewCounts {
        commit_count: changes.len(),
        additions: add,
        deletions: del,
        area_counts,
        feature_counts,
        features_touched: touched,
    }
}

/// How many changes the list endpoint loads: the requested number, else
/// the default, kept within 1 and 300.
pub fn changes_limit(requested: Option<usize>, default: usize) -> (r: usize)
    ensures
        r == ({
            let n = match requested {
                Some(n) => n,
                None => default,
            };
            if n < 1 {
                1
            } else if n > 300 {
                300
            } else {
                n
            }
        }),
{
    let n = match requested {
        Some(n) => n,
        None => default,
    };
    if n < 1 {
        1
    } else if n > 300 {
        300
    } else {
        n
    }
}

/// The changes from `es` that carry tag `t`, in order.
pub open spec fn with_tag(es: Seq<EntryView>, t: Seq<char>) -> Seq<EntryView>
    decreases es.len(),
{
    if es.len() == 0 {
        Seq::empty()
    } else {
        (if es[0].impact.tags.contains(t) {
            seq![es[0]]
        } else {
            Seq::empty()
        }) + with_tag(es.drop_first(), t)
    }
}

/// The changes that carry `tag` among their tags, in order; all of them
/// when no tag is asked for.
pub open spec fn tagged(es: Seq<EntryView>, tag: Option<Seq<char>>) -> Seq<EntryView> {
    match tag {
        None => es,
        Some(t) => with_tag(es, t),
    }
}

fn has_tag(c: &ChangeEntry, t: &Vec<char>) -> (r: bool)
    ensures
        r == c@.impact.tags.contains(t@),
{
    let mut k: usize = 0;
    while k < c.impact.tags.len()
        invariant
            k <= c.impact.tags@.len(),
            forall|q: int| 0 <= q < k ==> c@.impact.tags[q] != t@,
        decreases c.impact.tags@.len() - k,
    {
        assert(c@.impact.tags[k as int] == c.impact.tags@[k as int]@);
        if chars_eq(&chars_of(c.impact.tags[k].as_str()), t) {
            return true;
        }
        k = k + 1;
    }
    false
}

/// The change list, narrowed to `tag` (`tagged`).
pub fn keep_tagged(changes: Vec<ChangeEntry>, tag: Option<&str>) -> (r: Vec<ChangeEntry>)
    ensures
        entry_views(r@) == tagged(
            entry_views(changes@),
            match tag {
                Some(t) => Some(t@),
                None => None,
            },
        ),
{
    let t = match tag {
        None => return changes,
        Some(t) => chars_of(t),
    };
    let ghost es = entry_views(changes@);
    let mut rest = changes;
    let mut kept: Vec<ChangeEntry> = Vec::new();
    assert(with_tag(es, t@) =~= entry_views(kept@) + with_tag(entry_views(rest@), t@));
    while rest.len() > 0
        invariant
            with_tag(es, t@) == entry_views(kept@) + with_tag(entry_views(rest@), t@),
        decreases rest.len(),
    {
        let ghost rv = entry_views(rest@);
        let c = rest.remove(0);
        assert(entry_views(rest@) =~= rv.drop_first());
        assert(rv[0] == c@);
        let keep = has_tag(&c, &t);
        let ghost kv = entry_views(kept@);
        if keep {
            kept.push(c);
            assert(entry_views(kept@) =~= kv.push(rv[0]));
            assert(entry_views(kept@) + with_tag(entry_views(rest@), t@) =~= kv + (seq![rv[0]]
                + with_tag(rv.drop_first(), t@)));
        } else {
            assert(seq![] + with_tag(rv.drop_first(), t@) =~= with_tag(rv.drop_first(), t@));
        }
    }
    assert(entry_views(kept@) + with_tag(entry_views(rest@), t@) =~= entry_views(kept@));
    kept
}

} // verus!
