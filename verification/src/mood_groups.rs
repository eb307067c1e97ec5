//! Virtual mood groups and atomic mood tags for advanced search.
//!
//! Tracks store atomic tags; product groups (joy, dance, ...) are a static
//! catalog, each listing tag ids. Searching for a group expands it to its tags
//! with OR semantics. Groups may overlap on purpose.

use vstd::prelude::*;

use crate::text::{str_eq, string_from_chars, chars_of, views};

verus! {

/// Views of a sequence of string slices.
pub open spec fn sviews(v: Seq<&str>) -> Seq<Seq<char>> {
    v.map_values(|s: &str| s@)
}

/// Mood labels the analyser emits today.
pub open spec fn oximedia_tags() -> Seq<Seq<char>> {
    seq![
        "happy"@,
        "excited"@,
        "calm"@,
        "peaceful"@,
        "angry"@,
        "tense"@,
        "sad"@,
        "melancholic"@,
    ]
}

/// Product mood group ids.
pub open spec fn group_ids() -> Seq<Seq<char>> {
    seq!["joy"@, "sadness"@, "dance"@, "work"@, "romance"@, "anger"@]
}

/// Tags of each group, in the order of `group_ids()`.
pub open spec fn group_tags() -> Seq<Seq<Seq<char>>> {
    seq![
        seq!["happy"@, "excited"@],
        seq!["sad"@, "melancholic"@],
        seq!["excited"@, "happy"@, "tense"@, "angry"@],
        seq!["calm"@, "peaceful"@],
        seq!["peaceful"@, "calm"@, "melancholic"@],
        seq!["angry"@, "tense"@],
    ]
}

/// Display clusters: two tags of one cluster are never shown together.
pub open spec fn display_clusters() -> Seq<Seq<Seq<char>>> {
    seq![
        seq!["happy"@, "excited"@],
        seq!["calm"@, "peaceful"@],
        seq!["angry"@, "tense"@],
        seq!["sad"@, "melancholic"@],
    ]
}

pub fn oximedia_mood_tag_ids() -> (r: Vec<&'static str>)
    ensures
        sviews(r@) == oximedia_tags(),
{
    let r = vec!["happy", "excited", "calm", "peaceful", "angry", "tense", "sad", "melancholic"];
    assert(sviews(r@) =~= oximedia_tags());
    r
}

pub fn mood_group_ids() -> (r: Vec<&'static str>)
    ensures
        sviews(r@) == group_ids(),
{
    let r = vec!["joy", "sadness", "dance", "work", "romance", "anger"];
    assert(sviews(r@) =~= group_ids());
    r
}

fn display_clusters_exec() -> (r: Vec<Vec<&'static str>>)
    ensures
        r@.len() == display_clusters().len(),
        forall|i: int| 0 <= i < r@.len() ==> sviews(#[trigger] r@[i]@) == display_clusters()[i],
{
    let r = vec![
        vec!["happy", "excited"],
        vec!["calm", "peaceful"],
        vec!["angry", "tense"],
        vec!["sad", "melancholic"],
    ];
    assert(sviews(r@[0]@) =~= display_clusters()[0]);
    assert(sviews(r@[1]@) =~= display_clusters()[1]);
    assert(sviews(r@[2]@) =~= display_clusters()[2]);
    assert(sviews(r@[3]@) =~= display_clusters()[3]);
    r
}

/// A virtual mood group and the atomic tags it stands for.
pub struct MoodGroup {
    pub id: &'static str,
    pub tags: Vec<&'static str>,
}

/// The group catalog.
pub fn mood_groups() -> (r: Vec<MoodGroup>)
    ensures
        r@.len() == group_ids().len(),
        forall|i: int|
            0 <= i < r@.len() ==> (#[trigger] r@[i]).id@ == group_ids()[i] && sviews(r@[i].tags@)
                == group_tags()[i],
{
    let r = vec![
        MoodGroup { id: "joy", tags: vec!["happy", "excited"] },
        MoodGroup { id: "sadness", tags: vec!["sad", "melancholic"] },
        MoodGroup { id: "dance", tags: vec!["excited", "happy", "tense", "angry"] },
        MoodGroup { id: "work", tags: vec!["calm", "peaceful"] },
        MoodGroup { id: "romance", tags: vec!["peaceful", "calm", "melancholic"] },
        MoodGroup { id: "anger", tags: vec!["angry", "tense"] },
    ];
    assert(sviews(r@[0].tags@) =~= group_tags()[0]);
    assert(sviews(r@[1].tags@) =~= group_tags()[1]);
    assert(sviews(r@[2].tags@) =~= group_tags()[2]);
    assert(sviews(r@[3].tags@) =~= group_tags()[3]);
    assert(sviews(r@[4].tags@) =~= group_tags()[4]);
    assert(sviews(r@[5].tags@) =~= group_tags()[5]);
    r
}

/// `id` is one of the given string slices.
fn strs_contain(v: &Vec<&'static str>, id: &str) -> (r: bool)
    ensures
        r == sviews(v@).contains(id@),
{
    let mut i: usize = 0;
    while i < v.len()
        invariant
            i <= v@.len(),
            forall|k: int| 0 <= k < i ==> v@[k]@ != id@,
        decreases v.len() - i,
    {
        if str_eq(v[i], id) {
            assert(sviews(v@)[i as int] == id@);
            return true;
        }
        i += 1;
    }
    assert(!sviews(v@).contains(id@)) by {
        if sviews(v@).contains(id@) {
            let k = choose|k: int| 0 <= k < sviews(v@).len() && sviews(v@)[k] == id@;
            assert(v@[k]@ == id@);
        }
    }
    false
}

pub fn is_oximedia_mood_tag(id: &str) -> (r: bool)
    ensures
        r == oximedia_tags().contains(id@),
{
    let tags = oximedia_mood_tag_ids();
    strs_contain(&tags, id)
}

pub fn is_valid_mood_group(id: &str) -> (r: bool)
    ensures
        r == group_ids().contains(id@),
{
    let ids = mood_group_ids();
    strs_contain(&ids, id)
}

/// Index of the first group named `id`.
pub open spec fn group_index(id: Seq<char>) -> Option<int> {
    group_ids().index_of_first(id)
}

pub fn lookup_mood_group(id: &str) -> (r: Option<MoodGroup>)
    ensures
        match r {
            Some(g) => group_index(id@) matches Some(k) && g.id@ == group_ids()[k] && sviews(
                g.tags@,
            ) == group_tags()[k],
            None => group_index(id@) is None,
        },
{
    let mut groups = mood_groups();
    let mut i: usize = 0;
    while i < groups.len()
        invariant
            i <= groups@.len(),
            groups@.len() == group_ids().len(),
            forall|k: int|
                0 <= k < groups@.len() ==> (#[trigger] groups@[k]).id@ == group_ids()[k] && sviews(
                    groups@[k].tags@,
                ) == group_tags()[k],
            forall|k: int| 0 <= k < i ==> group_ids()[k] != id@,
        decreases groups.len() - i,
    {
        if str_eq(groups[i].id, id) {
            assert(group_ids().contains(id@));
            assert(group_index(id@) == Some(i as int)) by {
                group_ids().index_of_first_ensures(id@);
            }
            let g = groups.remove(i);
            return Some(g);
        }
        i += 1;
    }
    assert(group_index(id@) is None) by {
        group_ids().index_of_first_ensures(id@);
    }
    None
}

/// Tags named by the group catalog.
pub open spec fn catalog_tag(id: Seq<char>) -> bool {
    exists|g: int| 0 <= g < group_tags().len() && (#[trigger] group_tags()[g]).contains(id)
}

/// Known tag ids: analyser labels plus any catalog-only tags.
pub fn is_known_mood_tag(id: &str) -> (r: bool)
    ensures
        r == (oximedia_tags().contains(id@) || catalog_tag(id@)),
{
    if is_oximedia_mood_tag(id) {
        return true;
    }
    let groups = mood_groups();
    let mut i: usize = 0;
    while i < groups.len()
        invariant
            i <= groups@.len(),
            groups@.len() == group_ids().len(),
            forall|k: int|
                0 <= k < groups@.len() ==> (#[trigger] groups@[k]).id@ == group_ids()[k] && sviews(
                    groups@[k].tags@,
                ) == group_tags()[k],
            forall|k: int| 0 <= k < i ==> !(#[trigger] group_tags()[k]).contains(id@),
        decreases groups.len() - i,
    {
        if strs_contain(&groups[i].tags, id) {
            assert(group_tags()[i as int].contains(id@));
            return true;
        }
        i += 1;
    }
    false
}

/// Append the members of `tags` that `out` does not hold yet, in order.
pub open spec fn push_new(out: Seq<Seq<char>>, tags: Seq<Seq<char>>) -> Seq<Seq<char>>
    decreases tags.len(),
{
    if tags.len() == 0 {
        out
    } else {
        let o = push_new(out, tags.drop_last());
        if o.contains(tags.last()) {
            o
        } else {
            o.push(tags.last())
        }
    }
}

/// Tags of the given groups, duplicates dropped, first occurrence first.
pub open spec fn expand_spec(gids: Seq<Seq<char>>) -> Seq<Seq<char>>
    decreases gids.len(),
{
    if gids.len() == 0 {
        Seq::empty()
    } else {
        let prev = expand_spec(gids.drop_last());
        match group_index(gids.last()) {
            Some(k) => push_new(prev, group_tags()[k]),
            None => prev,
        }
    }
}

/// Valid group id (`groups`) or known tag id (`!groups`).
pub open spec fn valid_id(groups: bool, id: Seq<char>) -> bool {
    if groups {
        valid_group(id)
    } else {
        known_tag(id)
    }
}

/// The first id in `ids` that is not valid.
pub open spec fn first_invalid(ids: Seq<Seq<char>>, groups: bool) -> Option<Seq<char>>
    decreases ids.len(),
{
    if ids.len() == 0 {
        None
    } else {
        match first_invalid(ids.drop_last(), groups) {
            Some(x) => Some(x),
            None => if valid_id(groups, ids.last()) {
                None
            } else {
                Some(ids.last())
            },
        }
    }
}

pub open spec fn valid_group(id: Seq<char>) -> bool {
    group_ids().contains(id)
}

pub open spec fn known_tag(id: Seq<char>) -> bool {
    oximedia_tags().contains(id) || catalog_tag(id)
}

/// `"<prefix>`<id>`"`.
pub open spec fn quoted_msg(prefix: Seq<char>, id: Seq<char>) -> Seq<char> {
    prefix + id + "`"@
}

/// `prefix` followed by `` `id` ``.
fn quoted(prefix: &str, id: &str) -> (r: String)
    ensures
        r@ == quoted_msg(prefix@, id@),
{
    let s = String::from_str(prefix);
    let s = s.concat(id);
    s.concat("`")
}

/// Add the members of `tags` that `out` lacks.
fn push_new_exec(out: &mut Vec<String>, tags: &Vec<&'static str>)
    ensures
        views(final(out)@) == push_new(views(old(out)@), sviews(tags@)),
{
    let ghost start = views(out@);
    let mut i: usize = 0;
    while i < tags.len()
        invariant
            i <= tags@.len(),
            views(out@) == push_new(start, sviews(tags@).take(i as int)),
        decreases tags.len() - i,
    {
        assert(sviews(tags@).take(i + 1).drop_last() =~= sviews(tags@).take(i as int));
        let tag = tags[i];
        let present = strings_contain(out, tag);
        if !present {
            let ghost old_out = out@;
            out.push(String::from_str(tag));
            assert(views(out@) =~= views(old_out).push(tag@));
        }
        i += 1;
    }
    assert(sviews(tags@).take(tags@.len() as int) =~= sviews(tags@));
}

/// `id` is one of the given strings.
pub fn strings_contain(v: &Vec<String>, id: &str) -> (r: bool)
    ensures
        r == views(v@).contains(id@),
{
    let mut i: usize = 0;
    while i < v.len()
        invariant
            i <= v@.len(),
            forall|k: int| 0 <= k < i ==> v@[k]@ != id@,
        decreases v.len() - i,
    {
        if str_eq(v[i].as_str(), id) {
            assert(views(v@)[i as int] == id@);
            return true;
        }
        i += 1;
    }
    assert(!views(v@).contains(id@)) by {
        if views(v@).contains(id@) {
            let k = choose|k: int| 0 <= k < views(v@).len() && views(v@)[k] == id@;
            assert(v@[k]@ == id@);
        }
    }
    false
}

/// Expand virtual group ids to deduplicated atomic tag ids (stable order).
pub fn expand_mood_groups(group_ids_in: &[String]) -> (r: Result<Vec<String>, String>)
    ensures
        group_ids_in@.len() == 0 ==> r is Err && r->Err_0@ == "expected at least one mood group"@,
        group_ids_in@.len() > 0 ==> match first_invalid(views(group_ids_in@), true) {
            Some(bad) => r is Err && r->Err_0@ == quoted_msg("unknown mood group `"@, bad),
            None => r is Ok && views(r->Ok_0@) == expand_spec(views(group_ids_in@)),
        },
{
    if group_ids_in.len() == 0 {
        return Err(String::from_str("expected at least one mood group"));
    }
    let mut out: Vec<String> = Vec::new();
    let mut i: usize = 0;
    while i < group_ids_in.len()
        invariant
            i <= group_ids_in@.len(),
            first_invalid(views(group_ids_in@).take(i as int), true) is None,
            views(out@) == expand_spec(views(group_ids_in@).take(i as int)),
        decreases group_ids_in.len() - i,
    {
        let ghost ids = views(group_ids_in@);
        assert(ids.take(i + 1).drop_last() =~= ids.take(i as int));
        assert(ids.take(i + 1).last() == group_ids_in@[i as int]@);
        let gid = group_ids_in[i].as_str();
        proof {
            group_ids().index_of_first_ensures(gid@);
        }
        match lookup_mood_group(gid) {
            Some(g) => {
                push_new_exec(&mut out, &g.tags);
            },
            None => {
                assert(first_invalid(ids.take(i + 1), true) == Some(gid@));
                proof {
                    lemma_first_invalid_prefix(ids, i as int + 1, true);
                }
                return Err(quoted("unknown mood group `", gid));
            },
        }
        i += 1;
    }
    assert(views(group_ids_in@).take(group_ids_in@.len() as int) =~= views(group_ids_in@));
    Ok(out)
}

/// Once an invalid id shows up in a prefix, it stays the first invalid one.
proof fn lemma_first_invalid_prefix(ids: Seq<Seq<char>>, n: int, groups: bool)
    requires
        0 <= n <= ids.len(),
        first_invalid(ids.take(n), groups) is Some,
    ensures
        first_invalid(ids, groups) == first_invalid(ids.take(n), groups),
    decreases ids.len() - n,
{
    if n < ids.len() {
        assert(ids.take(n + 1).drop_last() =~= ids.take(n));
        lemma_first_invalid_prefix(ids, n + 1, groups);
    } else {
        assert(ids.take(n) =~= ids);
    }
}

/// Ids of `ids`, duplicates dropped, first occurrence first.
pub open spec fn dedupe_ids(ids: Seq<Seq<char>>) -> Seq<Seq<char>> {
    push_new(Seq::empty(), ids)
}

/// Validate ids (groups or tags), keeping each once in first-seen order.
fn normalize_ids(ids: &[String], groups: bool) -> (r: Result<Vec<String>, String>)
    requires
        ids@.len() > 0,
    ensures
        match first_invalid(views(ids@), groups) {
            Some(bad) => r is Err && r->Err_0@ == quoted_msg(
                if groups {
                    "unknown mood group `"@
                } else {
                    "unknown mood tag `"@
                },
                bad,
            ),
            None => r is Ok && views(r->Ok_0@) == dedupe_ids(views(ids@)),
        },
{
    let mut out: Vec<String> = Vec::new();
    let mut i: usize = 0;
    while i < ids.len()
        invariant
            i <= ids@.len(),
            first_invalid(views(ids@).take(i as int), groups) is None,
            views(out@) == dedupe_ids(views(ids@).take(i as int)),
        decreases ids.len() - i,
    {
        let ghost vs = views(ids@);
        assert(vs.take(i + 1).drop_last() =~= vs.take(i as int));
        assert(vs.take(i + 1).last() == ids@[i as int]@);
        let id = ids[i].as_str();
        let ok = if groups {
            is_valid_mood_group(id)
        } else {
            is_known_mood_tag(id)
        };
        if !ok {
            assert(first_invalid(vs.take(i + 1), groups) == Some(id@));
            proof {
                lemma_first_invalid_prefix(vs, i as int + 1, groups);
            }
            if groups {
                return Err(quoted("unknown mood group `", id));
            } else {
                return Err(quoted("unknown mood tag `", id));
            }
        }
        if !strings_contain(&out, id) {
            let ghost old_out = out@;
            out.push(String::from_str(id));
            assert(views(out@) =~= views(old_out).push(id@));
        }
        i += 1;
    }
    assert(views(ids@).take(ids@.len() as int) =~= views(ids@));
    Ok(out)
}

/// Validate mood-group ids for `mood_group` filters.
pub fn normalize_mood_groups(group_ids_in: &[String]) -> (r: Result<Vec<String>, String>)
    ensures
        group_ids_in@.len() == 0 ==> r is Err && r->Err_0@ == "expected at least one mood group"@,
        group_ids_in@.len() > 0 ==> match first_invalid(views(group_ids_in@), true) {
            Some(bad) => r is Err && r->Err_0@ == quoted_msg("unknown mood group `"@, bad),
            None => r is Ok && views(r->Ok_0@) == dedupe_ids(views(group_ids_in@)),
        },
{
    if group_ids_in.len() == 0 {
        return Err(String::from_str("expected at least one mood group"));
    }
    normalize_ids(group_ids_in, true)
}

/// Validate atomic mood-tag ids for direct `mood_tag` filters.
pub fn normalize_mood_tags(tag_ids: &[String]) -> (r: Result<Vec<String>, String>)
    ensures
        tag_ids@.len() == 0 ==> r is Err && r->Err_0@ == "expected at least one mood tag"@,
        tag_ids@.len() > 0 ==> match first_invalid(views(tag_ids@), false) {
            Some(bad) => r is Err && r->Err_0@ == quoted_msg("unknown mood tag `"@, bad),
            None => r is Ok && views(r->Ok_0@) == dedupe_ids(views(tag_ids@)),
        },
{
    if tag_ids.len() == 0 {
        return Err(String::from_str("expected at least one mood tag"));
    }
    normalize_ids(tag_ids, false)
}


/// Index of the first display cluster holding `tag`.
pub open spec fn cluster_of(tag: Seq<char>) -> Option<int>
    decreases 0nat,
{
    cluster_from(tag, 0)
}

pub open spec fn cluster_from(tag: Seq<char>, k: int) -> Option<int>
    decreases display_clusters().len() - k,
{
    if k < 0 || k >= display_clusters().len() {
        None
    } else if display_clusters()[k].contains(tag) {
        Some(k)
    } else {
        cluster_from(tag, k + 1)
    }
}

pub fn mood_display_cluster(tag: &str) -> (r: Option<usize>)
    ensures
        match r {
            Some(k) => cluster_of(tag@) == Some(k as int),
            None => cluster_of(tag@) is None,
        },
{
    let clusters = display_clusters_exec();
    let mut k: usize = 0;
    while k < clusters.len()
        invariant
            k <= clusters@.len(),
            clusters@.len() == display_clusters().len(),
            forall|i: int|
                0 <= i < clusters@.len() ==> sviews(#[trigger] clusters@[i]@)
                    == display_clusters()[i],
            cluster_of(tag@) == cluster_from(tag@, k as int),
        decreases clusters.len() - k,
    {
        if strs_contain(&clusters[k], tag) {
            return Some(k);
        }
        k += 1;
    }
    None
}

/// The analyser labels among `ranked`, in order.
pub open spec fn oximedia_only(ranked: Seq<Seq<char>>) -> Seq<Seq<char>>
    decreases ranked.len(),
{
    if ranked.len() == 0 {
        Seq::empty()
    } else {
        let prev = oximedia_only(ranked.drop_last());
        if oximedia_tags().contains(ranked.last()) {
            prev.push(ranked.last())
        } else {
            prev
        }
    }
}

/// Top tags by rank: unknown labels are dropped before the limit applies.
pub fn top_oximedia_mood_tags_from_ranked(ranked: &[String], limit: usize) -> (r: Vec<String>)
    ensures
        views(r@) == oximedia_only(views(ranked@)).take(
            if limit < oximedia_only(views(ranked@)).len() {
                limit as int
            } else {
                oximedia_only(views(ranked@)).len() as int
            },
        ),
{
    let mut known: Vec<String> = Vec::new();
    let mut i: usize = 0;
    while i < ranked.len()
        invariant
            i <= ranked@.len(),
            views(known@) == oximedia_only(views(ranked@).take(i as int)),
        decreases ranked.len() - i,
    {
        assert(views(ranked@).take(i + 1).drop_last() =~= views(ranked@).take(i as int));
        let t = ranked[i].as_str();
        if is_oximedia_mood_tag(t) {
            let ghost old_known = known@;
            known.push(String::from_str(t));
            assert(views(known@) =~= views(old_known).push(t@));
        }
        i += 1;
    }
    assert(views(ranked@).take(ranked@.len() as int) =~= views(ranked@));
    let mut out: Vec<String> = Vec::new();
    let mut j: usize = 0;
    while j < known.len() && j < limit
        invariant
            j <= known@.len(),
            j <= limit,
            views(out@) == views(known@).take(j as int),
        decreases known.len() - j,
    {
        let ghost old_out = out@;
        let c = known[j].clone();
        out.push(c);
        assert(out@ == old_out.push(known@[j as int]));
        assert(views(out@) =~= views(old_out).push(known@[j as int]@));
        assert(views(known@).take(j + 1) =~= views(known@).take(j as int).push(known@[j as int]@));
        j += 1;
    }
    out
}

/// State of the distinct-cluster pick after a prefix of the candidates:
/// picked tags, used clusters, and whether the limit was reached.
pub open spec fn pick_state(cands: Seq<(Seq<char>, bool)>, limit: nat) -> (
    Seq<Seq<char>>,
    Set<int>,
    bool,
)
    decreases cands.len(),
{
    if cands.len() == 0 {
        (Seq::empty(), Set::empty(), false)
    } else {
        let (out, used, done) = pick_state(cands.drop_last(), limit);
        let (t, eligible) = cands.last();
        if done || !oximedia_tags().contains(t) || !eligible {
            (out, used, done)
        } else {
            match cluster_of(t) {
                Some(k) => if used.contains(k) {
                    (out, used, done)
                } else {
                    (out.push(t), used.insert(k), out.len() + 1 >= limit)
                },
                None => (out.push(t), used, out.len() + 1 >= limit),
            }
        }
    }
}

proof fn lemma_pick_done(cs: Seq<(Seq<char>, bool)>, n: int, limit: nat)
    requires
        0 <= n <= cs.len(),
        pick_state(cs.take(n), limit).2,
    ensures
        pick_state(cs, limit) == pick_state(cs.take(n), limit),
    decreases cs.len() - n,
{
    if n < cs.len() {
        assert(cs.take(n + 1).drop_last() =~= cs.take(n));
        lemma_pick_done(cs, n + 1, limit);
    } else {
        assert(cs.take(n) =~= cs);
    }
}

pub open spec fn cviews_pairs(v: Seq<(String, bool)>) -> Seq<(Seq<char>, bool)> {
    v.map_values(|p: (String, bool)| (p.0@, p.1))
}

/// Pick ranked mood tags for display: analyser labels only, only those that
/// clear the score threshold (`.1`), at most one per display cluster, and
/// stop once `limit` tags are picked (at least one is picked when any
/// qualifies).
pub fn pick_distinct_mood_tags(cands: &[(String, bool)], limit: usize) -> (r: Vec<String>)
    ensures
        views(r@) == pick_state(cviews_pairs(cands@), limit as nat).0,
{
    let mut out: Vec<String> = Vec::new();
    let mut used: Vec<usize> = Vec::new();
    let mut i: usize = 0;
    let ghost mut used_set: Set<int> = Set::empty();
    while i < cands.len()
        invariant
            i <= cands@.len(),
            pick_state(cviews_pairs(cands@).take(i as int), limit as nat) == (
                views(out@),
                used_set,
                false,
            ),
            forall|k: int| #[trigger] used_set.contains(k) <==> exists|j: int|
                0 <= j < used@.len() && used@[j] as int == k,
            out@.len() < usize::MAX,
        decreases cands.len() - i,
    {
        let ghost cs = cviews_pairs(cands@);
        assert(cs.take(i + 1).drop_last() =~= cs.take(i as int));
        assert(cs.take(i + 1).last() == (cands@[i as int].0@, cands@[i as int].1));
        let t = cands[i].0.as_str();
        let eligible = cands[i].1;
        if eligible && is_oximedia_mood_tag(t) {
            let cl = mood_display_cluster(t);
            let mut take = true;
            match cl {
                Some(k) => {
                    let mut u: usize = 0;
                    while u < used.len()
                        invariant_except_break
                            take,
                        invariant
                            u <= used@.len(),
                            forall|j: int| 0 <= j < u ==> used@[j] != k,
                        ensures
                            take ==> forall|j: int| 0 <= j < used@.len() ==> used@[j] != k,
                            !take ==> exists|j: int| 0 <= j < used@.len() && used@[j] == k,
                        decreases used.len() - u,
                    {
                        if used[u] == k {
                            take = false;
                            break;
                        }
                        u += 1;
                    }
                    if take {
                        assert(!used_set.contains(k as int));
                        let ghost old_used = used@;
                        used.push(k);
                        proof {
                            used_set = used_set.insert(k as int);
                        }
                        assert forall|q: int| #[trigger] used_set.contains(q) <==> exists|j: int|
                            0 <= j < used@.len() && used@[j] as int == q by {
                            if used_set.contains(q) && q != k {
                                let j = choose|j: int|
                                    0 <= j < old_used.len() && old_used[j] as int == q;
                                assert(used@[j] as int == q);
                            }
                            if q == k {
                                assert(used@[used@.len() - 1] as int == q);
                            }
                            if exists|j: int| 0 <= j < used@.len() && used@[j] as int == q {
                                let j = choose|j: int| 0 <= j < used@.len() && used@[j] as int == q;
                                if j < old_used.len() {
                                    assert(old_used[j] as int == q);
                                }
                            }
                        }
                    } else {
                        assert(used_set.contains(k as int));
                    }
                },
                None => {},
            }
            if take {
                let ghost old_out = out@;
                out.push(String::from_str(t));
                assert(views(out@) =~= views(old_out).push(t@));
                if out.len() >= limit {
                    proof {
                        lemma_pick_done(cviews_pairs(cands@), i as int + 1, limit as nat);
                    }
                    return out;
                }
            }
        }
        i += 1;
    }
    assert(cviews_pairs(cands@).take(cands@.len() as int) =~= cviews_pairs(cands@));
    out
}


proof fn lemma_push_new(out: Seq<Seq<char>>, tags: Seq<Seq<char>>)
    ensures
        push_new(out, tags).len() >= out.len(),
        forall|i: int| 0 <= i < out.len() ==> push_new(out, tags)[i] == out[i],
        forall|x: Seq<char>| #[trigger] push_new(out, tags).contains(x) <==> (out.contains(x) || tags.contains(x)),
        out.no_duplicates() ==> push_new(out, tags).no_duplicates(),
    decreases tags.len(),
{
    if tags.len() > 0 {
        lemma_push_new(out, tags.drop_last());
        let o = push_new(out, tags.drop_last());
        assert forall|x: Seq<char>| #[trigger] push_new(out, tags).contains(x) <==> (out.contains(x)
            || tags.contains(x)) by {
            if tags.drop_last().contains(x) {
                let k = choose|k: int| 0 <= k < tags.drop_last().len() && tags.drop_last()[k] == x;
                assert(tags[k] == x);
            }
            if tags.contains(x) && x != tags.last() {
                let k = choose|k: int| 0 <= k < tags.len() && tags[k] == x;
                assert(tags.drop_last()[k] == x);
            }
            if !o.contains(tags.last()) {
                assert(o.push(tags.last()).last() == tags.last());
                if o.push(tags.last()).contains(x) && x != tags.last() {
                    let k = choose|k: int| 0 <= k < o.push(tags.last()).len() && o.push(tags.last())[k] == x;
                    assert(o[k] == x);
                }
                if o.contains(x) {
                    let k = choose|k: int| 0 <= k < o.len() && o[k] == x;
                    assert(o.push(tags.last())[k] == x);
                }
            }
        }
    }
}

/// Group `id` exists and lists tag `x`.
pub open spec fn group_lists(id: Seq<char>, x: Seq<char>) -> bool {
    match group_index(id) {
        Some(k) => group_tags()[k].contains(x),
        None => false,
    }
}

/// Expanding mood groups lists every tag of every requested (known) group,
/// lists nothing else, and lists no tag twice.
pub proof fn law_expand_mood_groups(gids: Seq<Seq<char>>)
    ensures
        expand_spec(gids).no_duplicates(),
        forall|x: Seq<char>| #[trigger] expand_spec(gids).contains(x) <==> exists|i: int|
            0 <= i < gids.len() && #[trigger] group_lists(gids[i], x),
    decreases gids.len(),
{
    if gids.len() > 0 {
        law_expand_mood_groups(gids.drop_last());
        let prev = expand_spec(gids.drop_last());
        group_ids().index_of_first_ensures(gids.last());
        match group_index(gids.last()) {
            Some(k) => lemma_push_new(prev, group_tags()[k]),
            None => {},
        }
        assert forall|x: Seq<char>| #[trigger] expand_spec(gids).contains(x) <==> exists|i: int|
            0 <= i < gids.len() && #[trigger] group_lists(gids[i], x) by {
            if exists|i: int|
                0 <= i < gids.drop_last().len() && #[trigger] group_lists(gids.drop_last()[i], x) {
                let i = choose|i: int|
                    0 <= i < gids.drop_last().len() && #[trigger] group_lists(gids.drop_last()[i], x);
                assert(gids[i] == gids.drop_last()[i]);
            }
            if exists|i: int|
                0 <= i < gids.len() && #[trigger] group_lists(gids[i], x) {
                let i = choose|i: int|
                    0 <= i < gids.len() && #[trigger] group_lists(gids[i], x);
                if i < gids.len() - 1 {
                    assert(gids.drop_last()[i] == gids[i]);
                }
            }
            if expand_spec(gids).contains(x) && !prev.contains(x) {
                assert(group_lists(gids[gids.len() - 1], x));
            }
        }
    }
}

/// Normalizing ids keeps each valid id once, in first-seen order.
pub proof fn law_dedupe_ids(ids: Seq<Seq<char>>)
    ensures
        dedupe_ids(ids).no_duplicates(),
        forall|x: Seq<char>| #[trigger] dedupe_ids(ids).contains(x) <==> ids.contains(x),
{
    lemma_push_new(Seq::empty(), ids);
}

/// The display pick never shows two tags of one cluster, shows only
/// analyser labels that cleared the threshold, and stops at the limit (one
/// tag at least once any qualifies).
pub proof fn law_pick_distinct(cs: Seq<(Seq<char>, bool)>, limit: nat)
    ensures
        ({
            let (out, used, done) = pick_state(cs, limit);
            &&& forall|i: int| 0 <= i < out.len() ==> oximedia_tags().contains(#[trigger] out[i])
            &&& forall|i: int| 0 <= i < out.len() ==> exists|j: int| 0 <= j < cs.len() && cs[j] == (#[trigger] out[i], true)
            &&& forall|i: int, j: int|
                0 <= i < j < out.len() ==> !((#[trigger] cluster_of(out[i])) is Some && cluster_of(out[i]) == #[trigger] cluster_of(out[j]))
            &&& out.len() <= if limit == 0 { 1 } else { limit }
            &&& forall|k: int| #[trigger] used.contains(k) <==> exists|i: int| 0 <= i < out.len() && cluster_of(out[i]) == Some(k)
            &&& (!done ==> out.len() < limit || out.len() == 0)
        }),
    decreases cs.len(),
{
    if cs.len() > 0 {
        law_pick_distinct(cs.drop_last(), limit);
        let (out, used, done) = pick_state(cs.drop_last(), limit);
        let (t, e) = cs.last();
        assert forall|i: int| 0 <= i < out.len() implies exists|j: int| 0 <= j < cs.len() && cs[j] == (#[trigger] out[i], true) by {
            let j = choose|j: int| 0 <= j < cs.drop_last().len() && cs.drop_last()[j] == (out[i], true);
            assert(cs[j] == (out[i], true));
        }
        let (o2, u2, d2) = pick_state(cs, limit);
        if !(done || !oximedia_tags().contains(t) || !e) {
            match cluster_of(t) {
                Some(k) => {
                    if !used.contains(k) {
                        assert(o2 == out.push(t));
                        assert(cs[cs.len() - 1] == (t, true));
                        assert forall|i: int| 0 <= i < o2.len() implies exists|j: int| 0 <= j < cs.len() && cs[j] == (#[trigger] o2[i], true) by {
                            if i < out.len() {
                                assert(o2[i] == out[i]);
                            } else {
                                assert(o2[i] == t);
                            }
                        }
                        assert forall|q: int| #[trigger] u2.contains(q) <==> exists|i: int| 0 <= i < o2.len() && cluster_of(o2[i]) == Some(q) by {
                            if exists|i: int| 0 <= i < o2.len() && cluster_of(o2[i]) == Some(q) {
                                let i = choose|i: int| 0 <= i < o2.len() && cluster_of(o2[i]) == Some(q);
                                if i < out.len() {
                                    assert(o2[i] == out[i]);
                                }
                            }
                            if q == k {
                                assert(o2[out.len() as int] == t);
                            } else if used.contains(q) {
                                let i = choose|i: int| 0 <= i < out.len() && cluster_of(out[i]) == Some(q);
                                assert(o2[i] == out[i]);
                            }
                        }
                        assert forall|i: int, j: int|
                            0 <= i < j < o2.len() implies !((#[trigger] cluster_of(o2[i])) is Some && cluster_of(o2[i]) == #[trigger] cluster_of(o2[j])) by {
                            if j == out.len() {
                                assert(o2[j] == t);
                                assert(o2[i] == out[i]);
                                if cluster_of(o2[i]) == Some(k) {
                                    assert(used.contains(k));
                                }
                            } else {
                                assert(o2[i] == out[i]);
                                assert(o2[j] == out[j]);
                            }
                        }
                    }
                },
                None => {
                    assert(o2 == out.push(t));
                    assert(cs[cs.len() - 1] == (t, true));
                    assert forall|i: int| 0 <= i < o2.len() implies exists|j: int| 0 <= j < cs.len() && cs[j] == (#[trigger] o2[i], true) by {
                        if i < out.len() {
                            assert(o2[i] == out[i]);
                        } else {
                            assert(o2[i] == t);
                        }
                    }
                    assert forall|q: int| #[trigger] u2.contains(q) <==> exists|i: int| 0 <= i < o2.len() && cluster_of(o2[i]) == Some(q) by {
                        if exists|i: int| 0 <= i < o2.len() && cluster_of(o2[i]) == Some(q) {
                            let i = choose|i: int| 0 <= i < o2.len() && cluster_of(o2[i]) == Some(q);
                            if i < out.len() {
                                assert(o2[i] == out[i]);
                            }
                        }
                        if used.contains(q) {
                            let i = choose|i: int| 0 <= i < out.len() && cluster_of(out[i]) == Some(q);
                            assert(o2[i] == out[i]);
                        }
                    }
                    assert forall|i: int, j: int|
                        0 <= i < j < o2.len() implies !((#[trigger] cluster_of(o2[i])) is Some && cluster_of(o2[i]) == #[trigger] cluster_of(o2[j])) by {
                        if j == out.len() {
                            assert(o2[j] == t);
                        } else {
                            assert(o2[i] == out[i]);
                            assert(o2[j] == out[j]);
                        }
                    }
                },
            }
        }
    }
}

/// Every analyser mood tag is reachable through at least one mood group.
pub proof fn law_every_tag_in_a_group(t: Seq<char>)
    requires
        oximedia_tags().contains(t),
    ensures
        exists|g: int| 0 <= g < group_tags().len() && (#[trigger] group_tags()[g]).contains(t),
{
    let k = choose|k: int| 0 <= k < oximedia_tags().len() && oximedia_tags()[k] == t;
    if k <= 1 {
        assert(group_tags()[0][k] == t);
    } else if k <= 3 {
        assert(group_tags()[3][k - 2] == t);
    } else if k <= 5 {
        assert(group_tags()[5][k - 4] == t);
    } else {
        assert(group_tags()[1][k - 6] == t);
    }
}

/// The mood catalog: the analyser's labels, the product groups with the
/// tags each one expands to (joy: happy, excited; sadness: sad,
/// melancholic; dance: excited, happy, tense, angry; work: calm, peaceful;
/// romance: peaceful, calm, melancholic; anger: angry, tense), and the
/// display clusters.
pub proof fn law_mood_catalog()
    ensures
        oximedia_tags() == seq![
            "happy"@,
            "excited"@,
            "calm"@,
            "peaceful"@,
            "angry"@,
            "tense"@,
            "sad"@,
            "melancholic"@,
        ],
        group_ids() == seq!["joy"@, "sadness"@, "dance"@, "work"@, "romance"@, "anger"@],
        group_tags() == seq![
            seq!["happy"@, "excited"@],
            seq!["sad"@, "melancholic"@],
            seq!["excited"@, "happy"@, "tense"@, "angry"@],
            seq!["calm"@, "peaceful"@],
            seq!["peaceful"@, "calm"@, "melancholic"@],
            seq!["angry"@, "tense"@],
        ],
        display_clusters() == seq![
            seq!["happy"@, "excited"@],
            seq!["calm"@, "peaceful"@],
            seq!["angry"@, "tense"@],
            seq!["sad"@, "melancholic"@],
        ],
{
}

/// Every tag a group lists is an analyser label, and every analyser label
/// is listed by some group: searching by groups can reach every tag.
pub proof fn law_groups_cover_labels(x: Seq<char>)
    ensures
        (exists|k: int| 0 <= k < group_tags().len() && #[trigger] group_tags()[k].contains(x))
            <==> oximedia_tags().contains(x),
{
    let o = oximedia_tags();
    let g = group_tags();
    if o.contains(x) {
        let i = choose|i: int| 0 <= i < o.len() && o[i] == x;
        if i == 0 || i == 1 {
            assert(g[0][i] == x);
            assert(g[0].contains(x));
        } else if i == 2 {
            assert(g[3][0] == x);
            assert(g[3].contains(x));
        } else if i == 3 {
            assert(g[3][1] == x);
            assert(g[3].contains(x));
        } else if i == 4 {
            assert(g[5][0] == x);
            assert(g[5].contains(x));
        } else if i == 5 {
            assert(g[5][1] == x);
            assert(g[5].contains(x));
        } else {
            assert(g[1][i - 6] == x);
            assert(g[1].contains(x));
        }
    }
    if exists|k: int| 0 <= k < g.len() && #[trigger] g[k].contains(x) {
        let k = choose|k: int| 0 <= k < g.len() && #[trigger] g[k].contains(x);
        let j = choose|j: int| 0 <= j < g[k].len() && g[k][j] == x;
        if k == 0 {
            assert(o[j] == x);
        } else if k == 1 {
            assert(o[j + 6] == x);
        } else if k == 2 {
            if j == 0 { assert(o[1] == x); } else if j == 1 { assert(o[0] == x); } else if j == 2 { assert(o[5] == x); } else { assert(o[4] == x); }
        } else if k == 3 {
            if j == 0 { assert(o[2] == x); } else { assert(o[3] == x); }
        } else if k == 4 {
            if j == 0 { assert(o[3] == x); } else if j == 1 { assert(o[2] == x); } else { assert(o[7] == x); }
        } else {
            if j == 0 { assert(o[4] == x); } else { assert(o[5] == x); }
        }
    }
}

} // verus!
