//! Compilation detection for browse filters: the OpenSubsonic compilation
//! flags in an entity's `raw_json` (`compilation`, `isCompilation`, or
//! `releaseTypes` holding `Compilation`), plus the "Various Artists" label
//! heuristic, and the album-artist display rule in SQL and in Rust.

use vstd::prelude::*;

use crate::text::{chars_of, contains_chars, lower, lower_chars, trim, trim_chars, contains_seq, string_from_chars};

verus! {

pub open spec fn raw_json_sql_spec(a: Seq<char>) -> Seq<char> {
    "(EXISTS ( SELECT 1 WHERE json_extract("@ + a
        + ".raw_json, '$.compilation') IN (1, '1', 'true', 'TRUE') ) OR EXISTS ( SELECT 1 WHERE json_extract("@
        + a
        + ".raw_json, '$.isCompilation') IN (1, '1', 'true', 'TRUE') ) OR EXISTS ( SELECT 1 FROM json_each(COALESCE(json_extract("@
        + a + ".raw_json, '$.releaseTypes'), '[]')) AS rt WHERE lower(rt.value) = 'compilation' ))"@
}

/// SQL predicate on any row with a `raw_json` column (album or track). Each
/// probe sits in `EXISTS` so that rows without the flag stay false rather
/// than unknown.
pub fn compilation_raw_json_sql(table_alias: &str) -> (r: String)
    ensures
        r@ == raw_json_sql_spec(table_alias@),
{
    let s = String::from_str("(EXISTS ( SELECT 1 WHERE json_extract(");
    let s = s.concat(table_alias);
    let s = s.concat(
        ".raw_json, '$.compilation') IN (1, '1', 'true', 'TRUE') ) OR EXISTS ( SELECT 1 WHERE json_extract(",
    );
    let s = s.concat(table_alias);
    let s = s.concat(
        ".raw_json, '$.isCompilation') IN (1, '1', 'true', 'TRUE') ) OR EXISTS ( SELECT 1 FROM json_each(COALESCE(json_extract(",
    );
    let s = s.concat(table_alias);
    s.concat(".raw_json, '$.releaseTypes'), '[]')) AS rt WHERE lower(rt.value) = 'compilation' ))")
}

/// The values a JSON flag probe counts as set: the integer 1 (what
/// `json_extract` yields for a JSON `true`) and the texts '1', 'true' and
/// 'TRUE'.
pub open spec fn truthy_flag_values() -> Seq<char> {
    "1, '1', 'true', 'TRUE'"@
}

/// The probe of one JSON flag `key` of the row's raw document.
pub open spec fn flag_probe(a: Seq<char>, key: Seq<char>) -> Seq<char> {
    "EXISTS ( SELECT 1 WHERE json_extract("@ + a + ".raw_json, '$."@ + key + "') IN ("@
        + truthy_flag_values() + ") )"@
}

/// The probe of the row's release types for `Compilation`, in any case.
pub open spec fn release_type_probe(a: Seq<char>) -> Seq<char> {
    "EXISTS ( SELECT 1 FROM json_each(COALESCE(json_extract("@ + a
        + ".raw_json, '$.releaseTypes'), '[]')) AS rt WHERE lower(rt.value) = 'compilation' )"@
}

/// The raw-document predicate is exactly three probes OR-ed together: the
/// `compilation` flag, the `isCompilation` flag (each set when it holds the
/// JSON `true`, read back as the integer 1, or '1', 'true', 'TRUE'), and a
/// `Compilation` release type.
pub proof fn law_raw_json_probes(a: Seq<char>)
    ensures
        raw_json_sql_spec(a) == "("@ + flag_probe(a, "compilation"@) + " OR "@ + flag_probe(
            a,
            "isCompilation"@,
        ) + " OR "@ + release_type_probe(a) + ")"@,
{
    reveal_strlit("(EXISTS ( SELECT 1 WHERE json_extract(");
    reveal_strlit(".raw_json, '$.compilation') IN (1, '1', 'true', 'TRUE') ) OR EXISTS ( SELECT 1 WHERE json_extract(");
    reveal_strlit(".raw_json, '$.isCompilation') IN (1, '1', 'true', 'TRUE') ) OR EXISTS ( SELECT 1 FROM json_each(COALESCE(json_extract(");
    reveal_strlit(".raw_json, '$.releaseTypes'), '[]')) AS rt WHERE lower(rt.value) = 'compilation' ))");
    reveal_strlit("1, '1', 'true', 'TRUE'");
    reveal_strlit("EXISTS ( SELECT 1 WHERE json_extract(");
    reveal_strlit(".raw_json, '$.");
    reveal_strlit("') IN (");
    reveal_strlit(") )");
    reveal_strlit("compilation");
    reveal_strlit("isCompilation");
    reveal_strlit(" OR ");
    reveal_strlit("(");
    reveal_strlit(")");
    reveal_strlit("EXISTS ( SELECT 1 FROM json_each(COALESCE(json_extract(");
    reveal_strlit(".raw_json, '$.releaseTypes'), '[]')) AS rt WHERE lower(rt.value) = 'compilation' )");
    assert(raw_json_sql_spec(a) =~= "("@ + flag_probe(a, "compilation"@) + " OR "@ + flag_probe(
        a,
        "isCompilation"@,
    ) + " OR "@ + release_type_probe(a) + ")"@);
}

pub open spec fn va_like_spec(column: Seq<char>) -> Seq<char> {
    "lower(trim(coalesce("@ + column + ", ''))) LIKE '%various artists%'"@
}

fn various_artists_like_sql(column: &str) -> (r: String)
    ensures
        r@ == va_like_spec(column@),
{
    let s = String::from_str("lower(trim(coalesce(");
    let s = s.concat(column);
    s.concat(", ''))) LIKE '%various artists%'")
}

pub open spec fn display_artist_like_spec(a: Seq<char>) -> Seq<char> {
    "lower(trim(coalesce(json_extract("@ + a
        + ".raw_json, '$.displayArtist'), ''))) LIKE '%various artists%'"@
}

/// The parts of the full compilation predicate, OR-ed together.
pub open spec fn predicate_parts(
    a: Seq<char>,
    artist: Option<Seq<char>>,
    album_artist: Option<Seq<char>>,
) -> Seq<Seq<char>> {
    let base = seq![raw_json_sql_spec(a), display_artist_like_spec(a)];
    let with_artist = match artist {
        Some(c) => base.push(va_like_spec(c)),
        None => base,
    };
    match album_artist {
        Some(c) => with_artist.push(va_like_spec(c)),
        None => with_artist,
    }
}

/// `parts` joined with `" OR "`.
pub open spec fn join_or(parts: Seq<Seq<char>>) -> Seq<char>
    decreases parts.len(),
{
    if parts.len() == 0 {
        Seq::empty()
    } else if parts.len() == 1 {
        parts[0]
    } else {
        join_or(parts.drop_last()) + " OR "@ + parts.last()
    }
}

pub open spec fn opt_view(o: Option<&str>) -> Option<Seq<char>> {
    match o {
        Some(s) => Some(s@),
        None => None,
    }
}

/// Full compilation predicate for browse filters: JSON flags plus "Various
/// Artists" labels on the display artist and the given artist columns.
pub fn compilation_predicate_sql(
    table_alias: &str,
    artist_column: Option<&str>,
    album_artist_column: Option<&str>,
) -> (r: String)
    ensures
        r@ == "("@ + join_or(
            predicate_parts(table_alias@, opt_view(artist_column), opt_view(album_artist_column)),
        ) + ")"@,
{
    let ghost parts = predicate_parts(
        table_alias@,
        opt_view(artist_column),
        opt_view(album_artist_column),
    );
    let ghost base = seq![raw_json_sql_spec(table_alias@), display_artist_like_spec(table_alias@)];
    let mut s = String::from_str("(");
    let first = compilation_raw_json_sql(table_alias);
    s.append(first.as_str());
    s.append(" OR ");
    let disp = String::from_str("lower(trim(coalesce(json_extract(").concat(table_alias).concat(
        ".raw_json, '$.displayArtist'), ''))) LIKE '%various artists%'",
    );
    s.append(disp.as_str());
    assert(base.drop_last() =~= seq![raw_json_sql_spec(table_alias@)]);
    assert(join_or(base.drop_last()) == raw_json_sql_spec(table_alias@));
    assert(join_or(base) == raw_json_sql_spec(table_alias@) + " OR "@ + display_artist_like_spec(
        table_alias@,
    ));
    assert(s@ =~= "("@ + join_or(base));
    let ghost mut sofar = base;
    if let Some(col) = artist_column {
        s.append(" OR ");
        let v = various_artists_like_sql(col);
        s.append(v.as_str());
        proof {
            assert(sofar.push(va_like_spec(col@)).drop_last() =~= sofar);
            assert(s@ =~= "("@ + (join_or(sofar) + " OR "@ + va_like_spec(col@)));
            sofar = sofar.push(va_like_spec(col@));
        }
    }
    assert(s@ == "("@ + join_or(sofar));
    if let Some(col) = album_artist_column {
        s.append(" OR ");
        let v = various_artists_like_sql(col);
        s.append(v.as_str());
        proof {
            assert(sofar.push(va_like_spec(col@)).drop_last() =~= sofar);
            assert(s@ =~= "("@ + (join_or(sofar) + " OR "@ + va_like_spec(col@)));
            sofar = sofar.push(va_like_spec(col@));
        }
    }
    assert(sofar == parts);
    s.append(")");
    s
}

/// The SQL label tests look for the same phrase as `various_artists_label`:
/// the trimmed, lower-cased column contains "various artists".
pub proof fn law_va_sql_uses_label_phrase(a: Seq<char>, column: Seq<char>)
    ensures
        va_like_spec(column) == "lower(trim(coalesce("@ + column + ", ''))) LIKE '%"@ + "various artists"@
            + "%'"@,
        display_artist_like_spec(a) == "lower(trim(coalesce(json_extract("@ + a
            + ".raw_json, '$.displayArtist'), ''))) LIKE '%"@ + "various artists"@ + "%'"@,
{
    reveal_strlit("lower(trim(coalesce(");
    reveal_strlit(", ''))) LIKE '%various artists%'");
    reveal_strlit(", ''))) LIKE '%");
    reveal_strlit("various artists");
    reveal_strlit("%'");
    reveal_strlit("lower(trim(coalesce(json_extract(");
    reveal_strlit(".raw_json, '$.displayArtist'), ''))) LIKE '%various artists%'");
    reveal_strlit(".raw_json, '$.displayArtist'), ''))) LIKE '%");
    assert(va_like_spec(column) =~= "lower(trim(coalesce("@ + column + ", ''))) LIKE '%"@ + "various artists"@
        + "%'"@);
    assert(display_artist_like_spec(a) =~= "lower(trim(coalesce(json_extract("@ + a
        + ".raw_json, '$.displayArtist'), ''))) LIKE '%"@ + "various artists"@ + "%'"@);
}

/// A label reads as "Various Artists" (trimmed, ASCII case ignored).
pub fn various_artists_label(s: &str) -> (r: bool)
    ensures
        r == contains_seq(lower(trim(s@)), "various artists"@),
{
    let k = lower_chars(&trim_chars(&chars_of(s)));
    let needle = chars_of("various artists");
    contains_chars(&k, &needle)
}

pub open spec fn display_artist_sql_spec(a: Seq<char>) -> Seq<char> {
    "CASE WHEN trim(coalesce("@ + a + ".album_artist, '')) != '' THEN trim("@ + a
        + ".album_artist) ELSE NULLIF(trim(coalesce("@ + a + ".artist, '')), '') END"@
}

/// SQL mirror of [`pick_album_group_artist`] for track-grouped browse
/// subqueries.
pub fn sql_track_group_display_artist(alias: &str) -> (r: String)
    ensures
        r@ == display_artist_sql_spec(alias@),
{
    let s = String::from_str("CASE WHEN trim(coalesce(");
    let s = s.concat(alias);
    let s = s.concat(".album_artist, '')) != '' THEN trim(");
    let s = s.concat(alias);
    let s = s.concat(".album_artist) ELSE NULLIF(trim(coalesce(");
    let s = s.concat(alias);
    s.concat(".artist, '')), '') END")
}

/// The album-artist display rule: a non-empty (trimmed) album artist wins;
/// otherwise the trimmed track artist when it is not blank.
pub open spec fn pick_artist_spec(track: Option<Seq<char>>, album: Option<Seq<char>>) -> Option<
    Seq<char>,
> {
    let aa = match album {
        Some(a) => trim(a),
        None => Seq::empty(),
    };
    if aa.len() > 0 {
        Some(aa)
    } else {
        match track {
            Some(t) => if trim(t).len() > 0 {
                Some(trim(t))
            } else {
                None
            },
            None => None,
        }
    }
}

pub open spec fn opt_sview(o: Option<String>) -> Option<Seq<char>> {
    match o {
        Some(s) => Some(s@),
        None => None,
    }
}

/// Row-mapper form of the album-artist display rule, the mirror of
/// [`sql_track_group_display_artist`].
pub fn pick_album_group_artist(track_artist: Option<String>, album_artist: Option<String>) -> (r:
    Option<String>)
    ensures
        opt_sview(r) == pick_artist_spec(opt_sview(track_artist), opt_sview(album_artist)),
{
    let aa = match &album_artist {
        Some(a) => trim_chars(&chars_of(a.as_str())),
        None => Vec::new(),
    };
    if aa.len() > 0 {
        return Some(string_from_chars(&aa));
    }
    match track_artist {
        Some(t) => {
            let tt = trim_chars(&chars_of(t.as_str()));
            if tt.len() > 0 {
                Some(string_from_chars(&tt))
            } else {
                None
            }
        },
        None => None,
    }
}

} // verus!
