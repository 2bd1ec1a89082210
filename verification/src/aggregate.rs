use vstd::prelude::*;

use crate::platform::{label_chars, platform_order, PlatformArch};
use crate::text::{join_all, join_with_spec, str_views};
use crate::url::{extract_build_number, extract_spec};

verus! {

/// The build number a hit URL carries, when it has one that fits.
pub open spec fn hit_number(url: Seq<char>) -> Option<u32> {
    match extract_spec(url) {
        Some(n) => if n < 0x1_0000_0000 {
            Some(n as u32)
        } else {
            None
        },
        None => None,
    }
}

/// The winning hit for target `p` among `found`, in arrival order: the
/// first hit holds the slot, and only a strictly greater build number
/// takes it over.
pub open spec fn best_hit(found: Seq<(String, PlatformArch)>, p: PlatformArch) -> Option<
    (Seq<char>, u32),
>
    decreases found.len(),
{
    if found.len() == 0 {
        None
    } else {
        let prev = best_hit(found.drop_last(), p);
        let last = found.last();
        if last.1 == p {
            match hit_number(last.0@) {
                Some(n) => match prev {
                    None => Some((last.0@, n)),
                    Some(pr) => if n > pr.1 {
                        Some((last.0@, n))
                    } else {
                        prev
                    },
                },
                None => prev,
            }
        } else {
            prev
        }
    }
}

/// Whether `e` is a hit for target `p` with a readable build number.
pub open spec fn is_hit_for(e: (String, PlatformArch), p: PlatformArch) -> bool {
    e.1 == p && hit_number(e.0@) is Some
}

/// Aggregation keeps the maximum: the winning hit for a target is a real
/// hit of the input, and no hit of that target carries a greater build
/// number — in whatever order the hits arrived.
pub proof fn lemma_aggregation_max_wins(found: Seq<(String, PlatformArch)>, p: PlatformArch)
    ensures
        best_hit(found, p) is Some <==> exists|i: int|
            0 <= i < found.len() && is_hit_for(#[trigger] found[i], p),
        match best_hit(found, p) {
            Some(hit) => (exists|i: int|
                0 <= i < found.len() && (#[trigger] found[i]).1 == p && found[i].0@ == hit.0
                    && hit_number(found[i].0@) == Some(hit.1)) && (forall|j: int|
                0 <= j < found.len() && is_hit_for(#[trigger] found[j], p) ==> hit_number(
                    found[j].0@,
                ).unwrap() <= hit.1),
            None => true,
        },
    decreases found.len(),
{
    if found.len() > 0 {
        let t = found.drop_last();
        lemma_aggregation_max_wins(t, p);
        assert forall|i: int| 0 <= i < t.len() implies #[trigger] found[i] == t[i] by {}
        assert(found[found.len() - 1] == found.last());
        if best_hit(found, p) is Some {
            let hit = best_hit(found, p).unwrap();
            if found.last().1 == p && hit_number(found.last().0@) is Some {
                let n = hit_number(found.last().0@).unwrap();
                match best_hit(t, p) {
                    None => {
                        assert(found[found.len() - 1].0@ == hit.0);
                    },
                    Some(pr) => {
                        if n > pr.1 {
                            assert(found[found.len() - 1].0@ == hit.0);
                        } else {
                            let i = choose|i: int|
                                0 <= i < t.len() && (#[trigger] t[i]).1 == p && t[i].0@ == hit.0
                                    && hit_number(t[i].0@) == Some(hit.1);
                            assert(found[i].1 == p && found[i].0@ == hit.0);
                        }
                    },
                }
            } else {
                let i = choose|i: int|
                    0 <= i < t.len() && (#[trigger] t[i]).1 == p && t[i].0@ == hit.0 && hit_number(
                        t[i].0@,
                    ) == Some(hit.1);
                assert(found[i].1 == p && found[i].0@ == hit.0);
            }
        }
        if exists|i: int| 0 <= i < found.len() && is_hit_for(#[trigger] found[i], p) {
            let i = choose|i: int| 0 <= i < found.len() && is_hit_for(#[trigger] found[i], p);
            if i < found.len() - 1 {
                assert(is_hit_for(t[i], p));
            }
            assert(best_hit(found, p) is Some);
        }
    }
}

/// The aggregated outcome of a run: for each target that had any hit, the
/// URL with the highest embedded build number, keyed by the target's label;
/// a lone `unknown` entry when nothing at all was found; and the run's
/// version and source tags, kept apart from the per-target entries.
pub struct AggregatedResult {
    pub entries: Vec<(String, String)>,
    pub version: String,
    pub source: String,
}

/// The views of a sequence of key-value string pairs.
pub open spec fn pair_views(s: Seq<(String, String)>) -> Seq<(Seq<char>, Seq<char>)> {
    s.map_values(|e: (String, String)| (e.0@, e.1@))
}

/// The aggregated entries over the targets of `order`, in that order: a
/// `(label, winning URL)` pair for each target with a winner.
pub open spec fn entries_for(
    found: Seq<(String, PlatformArch)>,
    order: Seq<PlatformArch>,
) -> Seq<(Seq<char>, Seq<char>)>
    decreases order.len(),
{
    if order.len() == 0 {
        Seq::empty()
    } else {
        let rest = entries_for(found, order.drop_last());
        match best_hit(found, order.last()) {
            Some(hit) => rest.push((label_chars(order.last()), hit.0)),
            None => rest,
        }
    }
}

/// The aggregated entries of a run, targets in canonical order.
pub open spec fn entries_spec(found: Seq<(String, PlatformArch)>) -> Seq<(Seq<char>, Seq<char>)> {
    entries_for(found, platform_order())
}

/// The entries actually emitted: the aggregated entries, or the designated
/// `unknown` placeholder when the run found nothing, so that the result is
/// never empty.
pub open spec fn result_entries_spec(found: Seq<(String, PlatformArch)>) -> Seq<
    (Seq<char>, Seq<char>),
> {
    if entries_spec(found).len() == 0 {
        seq![("unknown"@, "unknown"@)]
    } else {
        entries_spec(found)
    }
}

/// The aggregated entries over distinct targets carry distinct keys, each
/// the label of one of those targets.
proof fn lemma_entries_for_keys(found: Seq<(String, PlatformArch)>, order: Seq<PlatformArch>)
    requires
        order.no_duplicates(),
    ensures
        forall|k: int|
            0 <= k < entries_for(found, order).len() ==> exists|m: int|
                0 <= m < order.len() && (#[trigger] entries_for(found, order)[k]).0 == label_chars(
                    order[m],
                ),
        forall|i: int, j: int|
            0 <= i < j < entries_for(found, order).len() ==> entries_for(found, order)[i].0
                != entries_for(found, order)[j].0,
    decreases order.len(),
{
    if order.len() > 0 {
        let t = order.drop_last();
        lemma_entries_for_keys(found, t);
        let rest = entries_for(found, t);
        let whole = entries_for(found, order);
        assert forall|m: int| 0 <= m < t.len() implies #[trigger] order[m] == t[m] by {}
        if best_hit(found, order.last()) is Some {
            assert(whole == rest.push((label_chars(order.last()), best_hit(
                found,
                order.last(),
            ).unwrap().0)));
            assert forall|k: int| 0 <= k < whole.len() implies exists|m: int|
                0 <= m < order.len() && (#[trigger] whole[k]).0 == label_chars(order[m]) by {
                if k < rest.len() {
                    assert(whole[k] == rest[k]);
                    assert(exists|m: int|
                        0 <= m < t.len() && (#[trigger] rest[k]).0 == label_chars(t[m]));
                    let m2 = choose|m: int|
                        0 <= m < t.len() && (#[trigger] rest[k]).0 == label_chars(t[m]);
                    assert(whole[k].0 == label_chars(order[m2]));
                } else {
                    assert(whole[k].0 == label_chars(order[order.len() - 1]));
                }
            }
            assert forall|i: int, j: int| 0 <= i < j < whole.len() implies whole[i].0
                != whole[j].0 by {
                if j < rest.len() {
                    assert(whole[i] == rest[i] && whole[j] == rest[j]);
                } else {
                    assert(whole[i] == rest[i]);
                    assert(whole[j].0 == label_chars(order.last()));
                    let m = choose|m: int|
                        0 <= m < t.len() && (#[trigger] rest[i]).0 == label_chars(t[m]);
                    assert(order[m] != order[order.len() - 1]);
                    crate::platform::lemma_labels_injective(order[m], order[order.len() - 1]);
                }
            }
        } else {
            assert(whole == rest);
            assert forall|k: int| 0 <= k < whole.len() implies exists|m: int|
                0 <= m < order.len() && (#[trigger] whole[k]).0 == label_chars(order[m]) by {
                let m2 = choose|m: int|
                    0 <= m < t.len() && (#[trigger] rest[k]).0 == label_chars(t[m]);
                assert(whole[k].0 == label_chars(order[m2]));
            }
        }
    }
}

/// One URL per target: the emitted entries never repeat a key, whatever
/// was found.
pub proof fn lemma_one_url_per_target(found: Seq<(String, PlatformArch)>)
    ensures
        forall|i: int, j: int|
            0 <= i < j < result_entries_spec(found).len() ==> result_entries_spec(found)[i].0
                != result_entries_spec(found)[j].0,
{
    assert(platform_order().no_duplicates());
    lemma_entries_for_keys(found, platform_order());
}

/// The winning hit for one target, walking the hits in arrival order.
pub fn best_for_platform(found: &Vec<(String, PlatformArch)>, p: PlatformArch) -> (r: Option<
    (String, u32),
>)
    ensures
        match r {
            Some(b) => best_hit(found@, p) == Some((b.0@, b.1)),
            None => best_hit(found@, p) is None,
        },
{
    let mut best: Option<(String, u32)> = None;
    let mut i: usize = 0;
    proof {
        assert(found@.take(0) =~= Seq::<(String, PlatformArch)>::empty());
    }
    while i < found.len()
        invariant
            0 <= i <= found@.len(),
            match best {
                Some(b) => best_hit(found@.take(i as int), p) == Some((b.0@, b.1)),
                None => best_hit(found@.take(i as int), p) is None,
            },
        decreases found@.len() - i,
    {
        proof {
            assert(found@.take(i + 1).drop_last() =~= found@.take(i as int));
            assert(found@.take(i + 1).last() == found@[i as int]);
        }
        let matches_p = found[i].1 == p;
        if matches_p {
            match extract_build_number(found[i].0.as_str()) {
                Some(n) => {
                    let take = match &best {
                        Some(b) => n > b.1,
                        None => true,
                    };
                    if take {
                        best = Some((found[i].0.clone(), n));
                    }
                },
                None => {},
            }
        }
        i += 1;
    }
    proof {
        assert(found@.take(found@.len() as int) =~= found@);
    }
    best
}

/// Aggregates the hits of a run: per target the URL with the highest build
/// number, the `unknown` placeholder when nothing was found, and the joined
/// version list and source tag as metadata.
pub fn get_latest_urls(
    found: &Vec<(String, PlatformArch)>,
    versions: &Vec<String>,
    source: &str,
) -> (r: AggregatedResult)
    ensures
        pair_views(r.entries@) == result_entries_spec(found@),
        r.entries@.len() >= 1,
        r.version@ == join_with_spec(str_views(versions@), ", "@),
        r.source@ == source@,
{
    let order = PlatformArch::all();
    let mut entries: Vec<(String, String)> = Vec::new();
    let mut k: usize = 0;
    proof {
        assert(platform_order().take(0) =~= Seq::<PlatformArch>::empty());
        assert(pair_views(entries@) =~= entries_for(found@, platform_order().take(0)));
    }
    while k < order.len()
        invariant
            order@ == platform_order(),
            0 <= k <= order@.len(),
            pair_views(entries@) == entries_for(found@, platform_order().take(k as int)),
        decreases order@.len() - k,
    {
        proof {
            assert(platform_order().take(k + 1).drop_last() =~= platform_order().take(k as int));
            assert(platform_order().take(k + 1).last() == platform_order()[k as int]);
        }
        let p = order[k];
        match best_for_platform(found, p) {
            Some(b) => {
                let label = String::from_str(p.to_string());
                entries.push((label, b.0));
                proof {
                    assert(pair_views(entries@) =~= pair_views(entries@.drop_last()).push(
                        (label_chars(p), entries@.last().1@),
                    ));
                }
            },
            None => {},
        }
        k += 1;
    }
    proof {
        assert(platform_order().take(platform_order().len() as int) =~= platform_order());
    }
    if entries.len() == 0 {
        let key = String::from_str("unknown");
        let val = String::from_str("unknown");
        entries.push((key, val));
        proof {
            assert(pair_views(entries@) =~= seq![("unknown"@, "unknown"@)]);
        }
    }
    let version = join_all(versions, ", ");
    let source_owned = String::from_str(source);
    AggregatedResult { entries, version, source: source_owned }
}

impl AggregatedResult {
    /// The result as one keyed list, version and source folded in behind
    /// the per-target entries — the shape the spreadsheet endpoint takes.
    pub fn to_entries(&self) -> (r: Vec<(String, String)>)
        ensures
            pair_views(r@) == pair_views(self.entries@) + seq![
                ("version"@, self.version@),
                ("source"@, self.source@),
            ],
    {
        let mut out: Vec<(String, String)> = Vec::new();
        let mut i: usize = 0;
        while i < self.entries.len()
            invariant
                0 <= i <= self.entries@.len(),
                out@ == self.entries@.take(i as int),
            decreases self.entries@.len() - i,
        {
            proof {
                assert(self.entries@.take(i + 1).drop_last() =~= self.entries@.take(i as int));
            }
            let key = self.entries[i].0.clone();
            let val = self.entries[i].1.clone();
            out.push((key, val));
            i += 1;
        }
        proof {
            assert(self.entries@.take(self.entries@.len() as int) =~= self.entries@);
        }
        let vkey = String::from_str("version");
        let skey = String::from_str("source");
        out.push((vkey, self.version.clone()));
        out.push((skey, self.source.clone()));
        proof {
            assert(pair_views(out@) =~= pair_views(self.entries@) + seq![
                ("version"@, self.version@),
                ("source"@, self.source@),
            ]);
        }
        out
    }
}

/// The targets of `platforms` that have no hit yet in `found`.
pub fn missing_platforms(platforms: &Vec<PlatformArch>, found: &Vec<(String, PlatformArch)>) -> (r:
    Vec<PlatformArch>)
    ensures
        r@ == platforms@.filter(|p: PlatformArch| best_hit(found@, p) is None),
{
    let mut out: Vec<PlatformArch> = Vec::new();
    let mut i: usize = 0;
    proof {
        reveal(Seq::filter);
        assert(platforms@.take(0) =~= Seq::<PlatformArch>::empty());
        assert(out@ =~= platforms@.take(0).filter(
            |p: PlatformArch| best_hit(found@, p) is None,
        ));
    }
    while i < platforms.len()
        invariant
            0 <= i <= platforms@.len(),
            out@ == platforms@.take(i as int).filter(
                |p: PlatformArch| best_hit(found@, p) is None,
            ),
        decreases platforms@.len() - i,
    {
        proof {
            reveal(Seq::filter);
            assert(platforms@.take(i + 1).drop_last() =~= platforms@.take(i as int));
            assert(platforms@.take(i + 1).last() == platforms@[i as int]);
        }
        let p = platforms[i];
        match best_for_platform(found, p) {
            None => {
                out.push(p);
            },
            Some(_) => {},
        }
        i += 1;
    }
    proof {
        assert(platforms@.take(platforms@.len() as int) =~= platforms@);
    }
    out
}

} // verus!
