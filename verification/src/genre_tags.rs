//! Atomic genre resolution for multi-value tags: an OpenSubsonic `genres[]`
//! array wins; otherwise the legacy `genre` string is split on `;`, `/` and
//! `,` (in that order), each piece trimmed, empties dropped and duplicates
//! (ignoring ASCII case) removed, first spelling kept.

use vstd::prelude::*;

use crate::text::{
    lemma_trim_idempotent, lemma_trim_is_subrange, no_char, split_char,
    chars_eq, chars_of, cviews, lower, lower_chars, split_all, split_chars, string_from_chars,
    opt_str_view, trim, trim_chars, trim_string, views,
};
use crate::json::{
    json_get, json_parse, json_view, json_views, lemma_json_views_index, member, parse_json,
    JsonValue, JsonView,
};

verus! {

/// The separators, applied one after the other.
pub open spec fn genre_separators() -> Seq<char> {
    seq![';', '/', ',']
}

/// Keep the first spelling of every genre (case-insensitive for ASCII),
/// trimming each candidate and dropping empty ones.
pub open spec fn dedupe_spec(gs: Seq<Seq<char>>) -> Seq<Seq<char>>
    decreases gs.len(),
{
    if gs.len() == 0 {
        Seq::empty()
    } else {
        let prev = dedupe_spec(gs.drop_last());
        let t = trim(gs.last());
        if t.len() == 0 || exists|k: int| 0 <= k < prev.len() && lower(prev[k]) == lower(t) {
            prev
        } else {
            prev.push(t)
        }
    }
}

/// What `split_genre_tags` returns for `raw`.
pub open spec fn split_genre_spec(raw: Seq<char>) -> Seq<Seq<char>> {
    let t = trim(raw);
    if t.len() == 0 {
        Seq::empty()
    } else {
        dedupe_spec(split_all(split_all(split_all(seq![t], ';'), '/'), ','))
    }
}

/// One entry of a server's `genres[]` array, as far as genre resolution
/// reads it: an object whose `name` is a string, a bare string, or anything
/// else (ignored).
#[derive(Debug, PartialEq, Eq)]
pub enum GenreItem {
    Named(String),
    Bare(String),
    Other,
}

/// The trimmed, non-empty names carried by the array entries, in order.
pub open spec fn item_names(items: Seq<GenreItem>) -> Seq<Seq<char>>
    decreases items.len(),
{
    if items.len() == 0 {
        Seq::empty()
    } else {
        let prev = item_names(items.drop_last());
        match items.last() {
            GenreItem::Named(s) => if trim(s@).len() > 0 { prev.push(trim(s@)) } else { prev },
            GenreItem::Bare(s) => if trim(s@).len() > 0 { prev.push(trim(s@)) } else { prev },
            GenreItem::Other => prev,
        }
    }
}

/// What the `genres[]` array yields: `None` when it is empty or names nothing.
pub open spec fn array_genres_spec(items: Seq<GenreItem>) -> Option<Seq<Seq<char>>> {
    if items.len() == 0 || item_names(items).len() == 0 {
        None
    } else {
        Some(dedupe_spec(item_names(items)))
    }
}

/// Split every piece on `sep`.
fn split_all_exec(ps: &Vec<Vec<char>>, sep: char) -> (r: Vec<Vec<char>>)
    ensures
        cviews(r@) == split_all(cviews(ps@), sep),
{
    let mut out: Vec<Vec<char>> = Vec::new();
    let mut i: usize = 0;
    while i < ps.len()
        invariant
            i <= ps@.len(),
            cviews(out@) == split_all(cviews(ps@).take(i as int), sep),
        decreases ps.len() - i,
    {
        let mut pieces = split_chars(&ps[i], sep);
        let ghost before = cviews(out@);
        let ghost pv = cviews(pieces@);
        out.append(&mut pieces);
        assert(cviews(out@) =~= before + pv);
        assert(cviews(ps@).take(i + 1).drop_last() =~= cviews(ps@).take(i as int));
        i += 1;
    }
    assert(cviews(ps@).take(ps@.len() as int) =~= cviews(ps@));
    out
}

/// Is `key` among the keys seen so far?
fn key_seen(seen: &Vec<Vec<char>>, key: &Vec<char>) -> (r: bool)
    ensures
        r == exists|k: int| 0 <= k < seen@.len() && seen@[k]@ == key@,
{
    let mut i: usize = 0;
    while i < seen.len()
        invariant
            i <= seen@.len(),
            forall|k: int| 0 <= k < i ==> seen@[k]@ != key@,
        decreases seen.len() - i,
    {
        if chars_eq(&seen[i], key) {
            return true;
        }
        i += 1;
    }
    false
}

/// Trim, drop empties and drop ASCII-case-insensitive duplicates.
fn dedupe_chars(gs: &Vec<Vec<char>>) -> (r: Vec<Vec<char>>)
    ensures
        cviews(r@) == dedupe_spec(cviews(gs@)),
{
    let mut out: Vec<Vec<char>> = Vec::new();
    let mut seen: Vec<Vec<char>> = Vec::new();
    let mut i: usize = 0;
    while i < gs.len()
        invariant
            i <= gs@.len(),
            cviews(out@) == dedupe_spec(cviews(gs@).take(i as int)),
            seen@.len() == out@.len(),
            forall|k: int| 0 <= k < seen@.len() ==> seen@[k]@ == lower(out@[k]@),
        decreases gs.len() - i,
    {
        let ghost prev = cviews(out@);
        assert(cviews(gs@).take(i + 1).drop_last() =~= cviews(gs@).take(i as int));
        let t = trim_chars(&gs[i]);
        if t.len() > 0 {
            let key = lower_chars(&t);
            let dup = key_seen(&seen, &key);
            assert(dup == exists|k: int| 0 <= k < prev.len() && lower(prev[k]) == lower(t@)) by {
                if dup {
                    let k = choose|k: int| 0 <= k < seen@.len() && seen@[k]@ == key@;
                    assert(lower(prev[k]) == lower(t@));
                }
                if exists|k: int| 0 <= k < prev.len() && lower(prev[k]) == lower(t@) {
                    let k = choose|k: int| 0 <= k < prev.len() && lower(prev[k]) == lower(t@);
                    assert(seen@[k]@ == key@);
                }
            }
            if !dup {
                out.push(t);
                seen.push(key);
                assert(cviews(out@) =~= prev.push(trim(gs@[i as int]@)));
            }
        }
        i += 1;
    }
    assert(cviews(gs@).take(gs@.len() as int) =~= cviews(gs@));
    out
}

/// Owned strings from character vectors.
fn to_strings(v: &Vec<Vec<char>>) -> (r: Vec<String>)
    ensures
        views(r@) == cviews(v@),
{
    let mut out: Vec<String> = Vec::new();
    let mut i: usize = 0;
    while i < v.len()
        invariant
            i <= v@.len(),
            views(out@) == cviews(v@).take(i as int),
        decreases v.len() - i,
    {
        let s = string_from_chars(v[i].as_slice());
        assert(s@ == v@[i as int]@);
        let ghost old_out = out@;
        out.push(s);
        assert(out@ == old_out.push(s));
        assert(views(out@) =~= views(old_out).push(s@));
        assert(cviews(v@).take(i + 1) =~= cviews(v@).take(i as int).push(v@[i as int]@));
        i += 1;
    }
    assert(cviews(v@).take(v@.len() as int) =~= cviews(v@));
    out
}

/// Fallback split when the server sent no `genres[]` array (legacy Subsonic).
pub fn split_genre_tags(raw: &str) -> (r: Vec<String>)
    ensures
        views(r@) == split_genre_spec(raw@),
{
    let cs = chars_of(raw);
    let t = trim_chars(&cs);
    if t.len() == 0 {
        let empty: Vec<String> = Vec::new();
        assert(views(empty@) =~= Seq::<Seq<char>>::empty());
        return empty;
    }
    let mut parts: Vec<Vec<char>> = Vec::new();
    parts.push(t);
    assert(cviews(parts@) =~= seq![trim(raw@)]);
    let a = split_all_exec(&parts, ';');
    let b = split_all_exec(&a, '/');
    let c = split_all_exec(&b, ',');
    let d = dedupe_chars(&c);
    to_strings(&d)
}

/// Genres named by a `genres[]` array; `None` when it names nothing.
pub fn genres_from_items(items: &[GenreItem]) -> (r: Option<Vec<String>>)
    ensures
        match r {
            Some(v) => array_genres_spec(items@) == Some(views(v@)),
            None => array_genres_spec(items@) is None,
        },
{
    if items.len() == 0 {
        return None;
    }
    let mut names: Vec<Vec<char>> = Vec::new();
    let mut i: usize = 0;
    while i < items.len()
        invariant
            i <= items@.len(),
            cviews(names@) == item_names(items@.take(i as int)),
        decreases items.len() - i,
    {
        assert(items@.take(i + 1).drop_last() =~= items@.take(i as int));
        let ghost prev = cviews(names@);
        match &items[i] {
            GenreItem::Named(s) => {
                let t = trim_chars(&chars_of(s.as_str()));
                if t.len() > 0 {
                    names.push(t);
                    assert(cviews(names@) =~= prev.push(trim(s@)));
                }
            },
            GenreItem::Bare(s) => {
                let t = trim_chars(&chars_of(s.as_str()));
                if t.len() > 0 {
                    names.push(t);
                    assert(cviews(names@) =~= prev.push(trim(s@)));
                }
            },
            GenreItem::Other => {},
        }
        i += 1;
    }
    assert(items@.take(items@.len() as int) =~= items@);
    if names.len() == 0 {
        return None;
    }
    let d = dedupe_chars(&names);
    Some(to_strings(&d))
}

/// The name an array entry carries before trimming, if any.
pub open spec fn item_key(it: GenreItem) -> Option<Seq<char>> {
    match it {
        GenreItem::Named(s) => Some(s@),
        GenreItem::Bare(s) => Some(s@),
        GenreItem::Other => None,
    }
}

/// The trimmed, non-empty names among the keys, in order.
pub open spec fn key_names(keys: Seq<Option<Seq<char>>>) -> Seq<Seq<char>>
    decreases keys.len(),
{
    if keys.len() == 0 {
        Seq::empty()
    } else {
        let prev = key_names(keys.drop_last());
        match keys.last() {
            Some(s) => if trim(s).len() > 0 { prev.push(trim(s)) } else { prev },
            None => prev,
        }
    }
}

/// Source priority over the entries' names: a `genres[]` array that names
/// something wins (deduplicated), else the split `genre` string.
pub open spec fn keys_genres_spec(keys: Option<Seq<Option<Seq<char>>>>, genre: Option<Seq<char>>) -> Seq<
    Seq<char>,
> {
    match keys {
        Some(ks) if ks.len() > 0 && key_names(ks).len() > 0 => dedupe_spec(key_names(ks)),
        _ => match genre {
            Some(g) => split_genre_spec(g),
            None => Seq::empty(),
        },
    }
}

proof fn lemma_item_names_keys(items: Seq<GenreItem>)
    ensures
        item_names(items) == key_names(items.map_values(|it: GenreItem| item_key(it))),
    decreases items.len(),
{
    if items.len() > 0 {
        lemma_item_names_keys(items.drop_last());
        assert(items.map_values(|it: GenreItem| item_key(it)).drop_last() =~= items.drop_last().map_values(
            |it: GenreItem| item_key(it),
        ));
    }
}

/// The name a JSON array entry carries: the string `name` member of an
/// object, or the entry itself when it is a string.
pub open spec fn json_item_key(j: JsonView) -> Option<Seq<char>> {
    match j {
        JsonView::Object(_) => match json_get(j, "name"@) {
            Some(JsonView::Text(s)) => Some(s),
            _ => None,
        },
        JsonView::Text(s) => Some(s),
        _ => None,
    }
}

/// The entries' names of a JSON array; `None` for anything else.
pub open spec fn json_array_keys(j: Option<JsonView>) -> Option<Seq<Option<Seq<char>>>> {
    match j {
        Some(JsonView::Array(xs)) => Some(xs.map_values(|x: JsonView| json_item_key(x))),
        _ => None,
    }
}

/// The entries of a JSON `genres[]` array; `None` when the value is no array.
pub fn genre_items_of_json(v: &JsonValue) -> (r: Option<Vec<GenreItem>>)
    ensures
        match json_array_keys(Some(json_view(*v))) {
            Some(ks) => r is Some && r->0@.map_values(|it: GenreItem| item_key(it)) == ks,
            None => r is None,
        },
{
    match v {
        JsonValue::Array(entries) => {
            proof {
                lemma_json_views_index(entries@);
            }
            let ghost xs = json_views(entries@);
            let mut out: Vec<GenreItem> = Vec::new();
            let mut i: usize = 0;
            while i < entries.len()
                invariant
                    i <= entries@.len(),
                    xs == json_views(entries@),
                    xs.len() == entries@.len(),
                    forall|k: int| 0 <= k < entries@.len() ==> #[trigger] xs[k] == json_view(entries@[k]),
                    out@.map_values(|it: GenreItem| item_key(it)) == xs.take(i as int).map_values(
                        |x: JsonView| json_item_key(x),
                    ),
                decreases entries.len() - i,
            {
                let item = match &entries[i] {
                    JsonValue::Object(fields) => match member(fields, "name") {
                        Some(JsonValue::Text(s)) => GenreItem::Named(s.clone()),
                        _ => GenreItem::Other,
                    },
                    JsonValue::Text(s) => GenreItem::Bare(s.clone()),
                    _ => GenreItem::Other,
                };
                proof {
                    assert(xs[i as int] == json_view(entries@[i as int]));
                    assert(item_key(item) == json_item_key(xs[i as int]));
                }
                let ghost before = out@;
                out.push(item);
                proof {
                    assert(out@.map_values(|it: GenreItem| item_key(it)) =~= before.map_values(
                        |it: GenreItem| item_key(it),
                    ).push(item_key(item)));
                    assert(xs.take(i + 1).map_values(|x: JsonView| json_item_key(x)) =~= xs.take(
                        i as int,
                    ).map_values(|x: JsonView| json_item_key(x)).push(json_item_key(xs[i as int])));
                }
                i += 1;
            }
            proof {
                assert(xs.take(i as int) =~= xs);
            }
            Some(out)
        },
        _ => None,
    }
}

fn genres_from_sources(genres: Option<&[GenreItem]>, genre: Option<&str>) -> (r: Vec<String>)
    ensures
        views(r@) == keys_genres_spec(
            match genres {
                Some(g) => Some(g@.map_values(|it: GenreItem| item_key(it))),
                None => None,
            },
            opt_str_view(genre),
        ),
{
    if let Some(items) = genres {
        proof {
            lemma_item_names_keys(items@);
        }
        if let Some(v) = genres_from_items(items) {
            return v;
        }
    }
    match genre {
        Some(g) => split_genre_tags(g),
        None => {
            let empty: Vec<String> = Vec::new();
            assert(views(empty@) =~= Seq::<Seq<char>>::empty());
            empty
        },
    }
}

/// The names of a payload's `genres[]` member, when the payload is an
/// object whose `genres` member is an array.
pub open spec fn payload_keys(payload: JsonView) -> Option<Seq<Option<Seq<char>>>> {
    json_array_keys(json_get(payload, "genres"@))
}

fn opt_items_of(v: Option<&JsonValue>) -> (r: Option<Vec<GenreItem>>)
    ensures
        match r {
            Some(items) => v is Some && json_array_keys(Some(json_view(*v->0))) == Some(
                items@.map_values(|it: GenreItem| item_key(it)),
            ),
            None => v is None || json_array_keys(Some(json_view(*v->0))) is None,
        },
{
    match v {
        Some(x) => genre_items_of_json(x),
        None => None,
    }
}

fn get_member<'a>(v: &'a JsonValue, key: &str) -> (r: Option<&'a JsonValue>)
    ensures
        match r {
            Some(x) => json_get(json_view(*v), key@) == Some(json_view(*x)),
            None => json_get(json_view(*v), key@) is None,
        },
{
    match v {
        JsonValue::Object(fields) => member(fields, key),
        _ => None,
    }
}

/// Source priority (`genres[]` of the parsed payload first, else the split
/// `genre` string).
pub fn genres_for_track_value(raw_json: &JsonValue, genre: Option<&str>) -> (r: Vec<String>)
    ensures
        views(r@) == keys_genres_spec(payload_keys(json_view(*raw_json)), opt_str_view(genre)),
{
    let items = opt_items_of(get_member(raw_json, "genres"));
    match items {
        Some(v) => genres_from_sources(Some(v.as_slice()), genre),
        None => genres_from_sources(None, genre),
    }
}

/// The entries' names of the text of `json_extract(raw_json, '$.genres')`:
/// blank or unparsable text, or a value that is no array, names nothing.
pub open spec fn extracted_keys(genres_json: Option<Seq<char>>) -> Option<Seq<Option<Seq<char>>>> {
    match genres_json {
        Some(t) => if trim(t).len() > 0 {
            json_array_keys(json_parse(trim(t)))
        } else {
            None
        },
        None => None,
    }
}

/// Backfill path: the entries of `json_extract(raw_json, '$.genres')` when
/// that text parses to an array, else the `genre` string.
pub fn genres_for_track_extracted(genres_json: Option<&str>, genre: Option<&str>) -> (r: Vec<String>)
    ensures
        views(r@) == keys_genres_spec(extracted_keys(opt_str_view(genres_json)), opt_str_view(genre)),
{
    let items = match genres_json {
        Some(text) => {
            let t = trim_string(text);
            if t.as_str().unicode_len() == 0 {
                None
            } else {
                match parse_json(t.as_str()) {
                    Some(v) => genre_items_of_json(&v),
                    None => None,
                }
            }
        },
        None => None,
    };
    match items {
        Some(v) => genres_from_sources(Some(v.as_slice()), genre),
        None => genres_from_sources(None, genre),
    }
}

/// The entries' names of a raw track payload text.
pub open spec fn raw_payload_keys(raw_json: Seq<char>) -> Option<Seq<Option<Seq<char>>>> {
    match json_parse(raw_json) {
        Some(j) => payload_keys(j),
        None => None,
    }
}

/// Genres of a raw track payload: as `genres_for_track_value` when the text
/// parses, else the split `genre` string.
pub fn genres_for_track_raw_json(raw_json: &str, genre: Option<&str>) -> (r: Vec<String>)
    ensures
        views(r@) == keys_genres_spec(raw_payload_keys(raw_json@), opt_str_view(genre)),
{
    match parse_json(raw_json) {
        Some(v) => genres_for_track_value(&v, genre),
        None => genres_from_sources(None, genre),
    }
}


proof fn lemma_split_char_pieces(s: Seq<char>, c: char, d: char)
    ensures
        forall|i: int|
            0 <= i < split_char(s, c).len() ==> no_char(#[trigger] split_char(s, c)[i], c),
        no_char(s, d) ==> forall|i: int|
            0 <= i < split_char(s, c).len() ==> no_char(#[trigger] split_char(s, c)[i], d),
    decreases s.len(),
{
    if s.len() > 0 {
        lemma_split_char_pieces(s.drop_last(), c, d);
        crate::text::lemma_split_char_nonempty(s.drop_last(), c);
        let r = split_char(s.drop_last(), c);
        if s.last() != c {
            let q = r.last().push(s.last());
            assert(no_char(q, c));
            if no_char(s, d) {
                assert(no_char(s.drop_last(), d));
                assert(no_char(q, d));
            }
        }
    }
}

proof fn lemma_split_all_pieces(ps: Seq<Seq<char>>, c: char, d: char)
    ensures
        forall|i: int|
            0 <= i < split_all(ps, c).len() ==> no_char(#[trigger] split_all(ps, c)[i], c),
        (forall|j: int| 0 <= j < ps.len() ==> no_char(#[trigger] ps[j], d)) ==> forall|i: int|
            0 <= i < split_all(ps, c).len() ==> no_char(#[trigger] split_all(ps, c)[i], d),
    decreases ps.len(),
{
    if ps.len() > 0 {
        lemma_split_all_pieces(ps.drop_last(), c, d);
        lemma_split_char_pieces(ps.last(), c, d);
        let a = split_all(ps.drop_last(), c);
        let b = split_char(ps.last(), c);
        assert forall|i: int| 0 <= i < split_all(ps, c).len() implies no_char(
            #[trigger] split_all(ps, c)[i],
            c,
        ) by {
            if i < a.len() {
                assert(split_all(ps, c)[i] == a[i]);
            } else {
                assert(split_all(ps, c)[i] == b[i - a.len()]);
            }
        }
        if forall|j: int| 0 <= j < ps.len() ==> no_char(#[trigger] ps[j], d) {
            assert forall|j: int| 0 <= j < ps.drop_last().len() implies no_char(
                #[trigger] ps.drop_last()[j],
                d,
            ) by {
                assert(ps.drop_last()[j] == ps[j]);
            }
            assert(no_char(ps[ps.len() - 1], d));
            assert forall|i: int| 0 <= i < split_all(ps, c).len() implies no_char(
                #[trigger] split_all(ps, c)[i],
                d,
            ) by {
                if i < a.len() {
                    assert(split_all(ps, c)[i] == a[i]);
                } else {
                    assert(split_all(ps, c)[i] == b[i - a.len()]);
                }
            }
        }
    }
}

/// Every kept genre is the trimmed form of some candidate; kept genres are
/// non-empty, already trimmed and pairwise different ignoring ASCII case.
proof fn lemma_dedupe_shape(gs: Seq<Seq<char>>)
    ensures
        forall|i: int|
            0 <= i < dedupe_spec(gs).len() ==> exists|m: int|
                0 <= m < gs.len() && #[trigger] dedupe_spec(gs)[i] == trim(gs[m]),
        forall|i: int|
            0 <= i < dedupe_spec(gs).len() ==> #[trigger] dedupe_spec(gs)[i].len() > 0 && trim(
                dedupe_spec(gs)[i],
            ) == dedupe_spec(gs)[i],
        forall|i: int, j: int|
            0 <= i < j < dedupe_spec(gs).len() ==> lower(#[trigger] dedupe_spec(gs)[i]) != lower(
                #[trigger] dedupe_spec(gs)[j],
            ),
    decreases gs.len(),
{
    if gs.len() > 0 {
        let prev_in = gs.drop_last();
        lemma_dedupe_shape(prev_in);
        let prev = dedupe_spec(prev_in);
        let t = trim(gs.last());
        lemma_trim_idempotent(gs.last());
        assert forall|i: int| 0 <= i < dedupe_spec(gs).len() implies exists|m: int|
            0 <= m < gs.len() && #[trigger] dedupe_spec(gs)[i] == trim(gs[m]) by {
            if i < prev.len() {
                let m = choose|m: int| 0 <= m < prev_in.len() && prev[i] == trim(prev_in[m]);
                assert(prev_in[m] == gs[m]);
            } else {
                assert(dedupe_spec(gs)[i] == trim(gs[gs.len() - 1]));
            }
        }
    }
}

pub open spec fn genre_clean(r: Seq<Seq<char>>) -> bool {
    &&& forall|i: int|
        0 <= i < r.len() ==> #[trigger] r[i].len() > 0 && trim(r[i]) == r[i] && no_char(r[i], ';')
            && no_char(r[i], '/') && no_char(r[i], ',')
    &&& forall|i: int, j: int| 0 <= i < j < r.len() ==> lower(#[trigger] r[i]) != lower(#[trigger] r[j])
}

/// Splitting a genre string yields non-empty, trimmed genres that hold none
/// of the separators `;`, `/`, `,`, and no two of which differ only in ASCII
/// case.
pub proof fn law_split_genre_tags_clean(raw: Seq<char>)
    ensures
        genre_clean(split_genre_spec(raw)),
{
    let t = trim(raw);
    if t.len() > 0 {
        let p0: Seq<Seq<char>> = seq![t];
        let p1 = split_all(p0, ';');
        let p2 = split_all(p1, '/');
        let p3 = split_all(p2, ',');
        lemma_split_all_pieces(p0, ';', ';');
        lemma_split_all_pieces(p1, '/', ';');
        lemma_split_all_pieces(p1, '/', '/');
        lemma_split_all_pieces(p2, ',', ';');
        lemma_split_all_pieces(p2, ',', '/');
        lemma_split_all_pieces(p2, ',', ',');
        lemma_dedupe_shape(p3);
        let d = dedupe_spec(p3);
        assert forall|i: int| 0 <= i < d.len() implies no_char(#[trigger] d[i], ';') && no_char(
            d[i],
            '/',
        ) && no_char(d[i], ',') by {
            let m = choose|m: int| 0 <= m < p3.len() && d[i] == trim(p3[m]);
            lemma_trim_is_subrange(p3[m]);
            let (a, b) = choose|a: int, b: int|
                0 <= a <= b <= p3[m].len() && trim(p3[m]) == p3[m].subrange(a, b);
            assert forall|k: int| 0 <= k < d[i].len() implies d[i][k] == p3[m][a + k] by {}
        }
    }
}

/// The genres read from a `genres[]` array are non-empty, trimmed and no
/// two of them differ only in ASCII case.
pub proof fn law_array_genres_distinct(items: Seq<GenreItem>)
    ensures
        array_genres_spec(items) matches Some(r) ==> (forall|i: int|
            0 <= i < r.len() ==> #[trigger] r[i].len() > 0 && trim(r[i]) == r[i]) && (forall|
            i: int,
            j: int,
        | 0 <= i < j < r.len() ==> lower(#[trigger] r[i]) != lower(#[trigger] r[j])),
{
    lemma_dedupe_shape(item_names(items));
}

} // verus!
