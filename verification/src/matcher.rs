use crate::record::App;
use crate::text::{eq_ignore_case, lowercase, path_stem, stem_of, str_eq};
use vstd::prelude::*;

verus! {

/// The identity-match policy between one catalog record and a raw OS-reported
/// identifier, in precedence order: exact equality with the record's name,
/// case-insensitive equality with the name, case-insensitive equality with the
/// filename stem of the record's desktop-entry path.
pub open spec fn app_matches(app: App, raw: Seq<char>) -> bool {
    ||| app.name@ == raw
    ||| eq_ignore_case(app.name@, raw)
    ||| eq_ignore_case(stem_of(app.app_desktop_path@), raw)
}

/// Whether `app` is identified by the raw identifier `app_name`, by name or by
/// the stem of its desktop-entry file.
pub fn match_app_name(app: &App, app_name: &str) -> (r: bool)
    ensures
        r == app_matches(*app, app_name@),
{
    if str_eq(app.name.as_str(), app_name) {
        return true;
    }
    let lowered_name = lowercase(app.name.as_str());
    let lowered_raw = lowercase(app_name);
    if str_eq(lowered_name.as_str(), lowered_raw.as_str()) {
        return true;
    }
    let stem = path_stem(app.app_desktop_path.as_str());
    let lowered_stem = lowercase(stem.as_str());
    str_eq(lowered_stem.as_str(), lowered_raw.as_str())
}

/// The first catalog entry that the raw identifier matches, in catalog order;
/// ties are broken by that order alone.
pub open spec fn first_match(catalog: Seq<App>, raw: Seq<char>) -> Option<App>
    decreases catalog.len(),
{
    if catalog.len() == 0 {
        None
    } else if app_matches(catalog[0], raw) {
        Some(catalog[0])
    } else {
        first_match(catalog.drop_first(), raw)
    }
}

/// Resolve one raw identifier against the catalog: the first matching entry
/// wins, and the absence of a match is reported as `None`.
pub fn find_matching_app(catalog: &Vec<App>, app_name: &str) -> (r: Option<App>)
    ensures
        r == first_match(catalog@, app_name@),
{
    let mut i: usize = 0;
    proof {
        assert(catalog@.skip(0) =~= catalog@);
    }
    while i < catalog.len()
        invariant
            i <= catalog@.len(),
            first_match(catalog@, app_name@) == first_match(catalog@.skip(i as int), app_name@),
        decreases catalog@.len() - i,
    {
        if match_app_name(&catalog[i], app_name) {
            return Some(catalog[i].clone());
        }
        proof {
            assert(catalog@.skip(i as int).drop_first() =~= catalog@.skip(i as int + 1));
        }
        i += 1;
    }
    None
}

/// A raw identifier resolves to no record exactly when no catalog entry at
/// all matches it.
pub proof fn lemma_first_match_none(catalog: Seq<App>, raw: Seq<char>)
    ensures
        (first_match(catalog, raw) is None) <==> (forall|i: int|
            0 <= i < catalog.len() ==> !app_matches(#[trigger] catalog[i], raw)),
    decreases catalog.len(),
{
    if catalog.len() == 0 {
    } else if app_matches(catalog[0], raw) {
    } else {
        let tail = catalog.drop_first();
        lemma_first_match_none(tail, raw);
        if forall|i: int| 0 <= i < catalog.len() ==> !app_matches(#[trigger] catalog[i], raw) {
            assert(forall|i: int|
                0 <= i < tail.len() ==> !app_matches(#[trigger] tail[i], raw)) by {
                assert(forall|i: int|
                    0 <= i < tail.len() ==> tail[i] == #[trigger] catalog[i + 1]);
            }
        }
        if forall|i: int| 0 <= i < tail.len() ==> !app_matches(#[trigger] tail[i], raw) {
            assert(forall|i: int|
                0 <= i < catalog.len() ==> !app_matches(#[trigger] catalog[i], raw)) by {
                assert(forall|i: int|
                    1 <= i < catalog.len() ==> #[trigger] catalog[i] == tail[i - 1]);
            }
        }
    }
}

/// First match wins: when the entry at `k` matches the raw identifier and no
/// earlier entry does, resolution returns exactly that entry — the documented
/// tie-break under ambiguity is catalog order.
pub proof fn lemma_first_match_wins(catalog: Seq<App>, raw: Seq<char>, k: int)
    requires
        0 <= k < catalog.len(),
        app_matches(catalog[k], raw),
        forall|j: int| 0 <= j < k ==> !app_matches(#[trigger] catalog[j], raw),
    ensures
        first_match(catalog, raw) == Some(catalog[k]),
    decreases catalog.len(),
{
    if k == 0 {
    } else {
        let tail = catalog.drop_first();
        assert(forall|j: int| 0 <= j < k - 1 ==> !app_matches(#[trigger] tail[j], raw)) by {
            assert(forall|j: int| 0 <= j < k - 1 ==> #[trigger] tail[j] == catalog[j + 1]);
        }
        lemma_first_match_wins(tail, raw, k - 1);
    }
}

/// The views of a sequence of strings.
pub open spec fn views_of(ids: Seq<String>) -> Seq<Seq<char>> {
    ids.map_values(|s: String| s@)
}

/// The identifiers with every repeated occurrence removed: each identifier
/// keeps its first position.
pub open spec fn dedup_firsts(ids: Seq<Seq<char>>) -> Seq<Seq<char>>
    decreases ids.len(),
{
    if ids.len() == 0 {
        ids
    } else if ids.drop_last().contains(ids.last()) {
        dedup_firsts(ids.drop_last())
    } else {
        dedup_firsts(ids.drop_last()).push(ids.last())
    }
}

/// Deduplication keeps the set of identifiers: one occurs among the
/// deduplicated identifiers exactly when it occurs among the originals.
pub proof fn lemma_dedup_firsts_membership(ids: Seq<Seq<char>>, x: Seq<char>)
    ensures
        dedup_firsts(ids).contains(x) <==> ids.contains(x),
    decreases ids.len(),
{
    if ids.len() > 0 {
        let front = ids.drop_last();
        let last = ids.last();
        lemma_dedup_firsts_membership(front, x);
        assert(ids =~= front.push(last));
        vstd::seq_lib::lemma_seq_contains_after_push(front, last, x);
        if !front.contains(last) {
            vstd::seq_lib::lemma_seq_contains_after_push(dedup_firsts(front), last, x);
        }
    }
}

/// Duplicates collapse: the deduplicated identifiers are pairwise distinct,
/// so each raw identifier is resolved at most once.
pub proof fn lemma_dedup_firsts_distinct(ids: Seq<Seq<char>>)
    ensures
        forall|i: int, j: int|
            0 <= i < j < dedup_firsts(ids).len() ==> dedup_firsts(ids)[i] != dedup_firsts(ids)[j],
    decreases ids.len(),
{
    if ids.len() > 0 {
        let front = ids.drop_last();
        let last = ids.last();
        lemma_dedup_firsts_distinct(front);
        if !front.contains(last) {
            lemma_dedup_firsts_membership(front, last);
            let with_last = dedup_firsts(front).push(last);
            assert forall|i: int, j: int|
                0 <= i < j < with_last.len() implies with_last[i] != with_last[j] by {
                let d = dedup_firsts(front);
                if j < d.len() {
                    assert(with_last[i] == d[i] && with_last[j] == d[j]);
                } else {
                    assert(with_last[i] == d[i]);
                    if d[i] == last {
                        assert(d.contains(last));
                    }
                }
            }
        }
    }
}

/// The catalog entries matched by the raw identifiers, in identifier order:
/// each identifier contributes its first matching entry, or nothing.
pub open spec fn resolve_running(catalog: Seq<App>, ids: Seq<Seq<char>>) -> Seq<App>
    decreases ids.len(),
{
    if ids.len() == 0 {
        Seq::empty()
    } else {
        let rest = resolve_running(catalog, ids.drop_last());
        match first_match(catalog, ids.last()) {
            Some(app) => rest.push(app),
            None => rest,
        }
    }
}

/// Each identifier contributes at most one record: the resolved running set
/// is never longer than the identifier list it was resolved from.
pub proof fn lemma_resolve_running_len(catalog: Seq<App>, ids: Seq<Seq<char>>)
    ensures
        resolve_running(catalog, ids).len() <= ids.len(),
    decreases ids.len(),
{
    if ids.len() > 0 {
        lemma_resolve_running_len(catalog, ids.drop_last());
    }
}

/// Whether one of the first `k` strings of `ids` equals `s`.
fn string_in_prefix(ids: &Vec<String>, k: usize, s: &str) -> (r: bool)
    requires
        k <= ids@.len(),
    ensures
        r == exists|j: int| 0 <= j < k && #[trigger] ids@[j]@ == s@,
{
    let mut j: usize = 0;
    while j < k
        invariant
            k <= ids@.len(),
            j <= k,
            forall|t: int| 0 <= t < j ==> #[trigger] ids@[t]@ != s@,
        decreases k - j,
    {
        if str_eq(ids[j].as_str(), s) {
            return true;
        }
        j += 1;
    }
    false
}

/// Map every distinct raw identifier through the matcher against the catalog
/// and keep the entries that matched: duplicate identifiers collapse to the
/// single record (or nothing) that their first occurrence resolved to.
pub fn resolve_running_apps(catalog: &Vec<App>, ids: &Vec<String>) -> (r: Vec<App>)
    ensures
        r@ == resolve_running(catalog@, dedup_firsts(views_of(ids@))),
{
    let mut out: Vec<App> = Vec::new();
    let mut i: usize = 0;
    while i < ids.len()
        invariant
            i <= ids@.len(),
            out@ == resolve_running(catalog@, dedup_firsts(views_of(ids@.take(i as int)))),
        decreases ids@.len() - i,
    {
        let ghost prefix = views_of(ids@.take(i as int));
        let ghost raw = ids@[i as int]@;
        proof {
            assert(views_of(ids@.take(i as int + 1)) =~= prefix.push(raw));
            assert(prefix.push(raw).drop_last() =~= prefix);
            assert(dedup_firsts(prefix).push(raw).drop_last() =~= dedup_firsts(prefix));
        }
        let seen = string_in_prefix(ids, i, ids[i].as_str());
        proof {
            assert(seen == prefix.contains(raw)) by {
                if seen {
                    let j = choose|j: int| 0 <= j < i && ids@[j]@ == ids@[i as int]@;
                    assert(prefix[j] == raw);
                }
                if prefix.contains(raw) {
                    let j = choose|j: int| 0 <= j < prefix.len() && prefix[j] == raw;
                    assert(ids@[j]@ == ids@[i as int]@);
                }
            }
        }
        if !seen {
            match find_matching_app(catalog, ids[i].as_str()) {
                Some(app) => out.push(app),
                None => {},
            }
        }
        i += 1;
    }
    proof {
        assert(ids@.take(ids@.len() as int) =~= ids@);
    }
    out
}

} // verus!
