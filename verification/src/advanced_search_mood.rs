//! Mood filters of advanced search: `mood_group` and `mood_tag` clauses
//! become an `EXISTS` over the track's mood-tag facts, with one bound
//! parameter per tag.

use vstd::prelude::*;
use crate::advanced_search::{json_to_string_list, string_list_spec, ClauseValue, LibraryFilterClause};
use crate::filter::{
    bad_value_text, frag_view, value_view, values_view, FilterError, FilterOp, SqlFragment, SqlValue,
    SqlValueView,
};
use crate::mood_groups::{
    dedupe_ids, expand_mood_groups, expand_spec, first_invalid, normalize_mood_groups,
    normalize_mood_tags, quoted_msg,
};
use crate::text::{str_eq, views};

verus! {

/// `n` placeholders joined by `", "`.
pub open spec fn placeholders(n: nat) -> Seq<char>
    decreases n,
{
    if n == 0 {
        Seq::empty()
    } else if n == 1 {
        "?"@
    } else {
        placeholders((n - 1) as nat) + ", ?"@
    }
}

pub open spec fn mood_exists_sql(n: nat) -> Seq<char> {
    "EXISTS (SELECT 1 FROM track_fact mf WHERE mf.server_id = t.server_id AND mf.track_id = t.id AND mf.fact_kind = 'mood_tag' AND mf.value_text IN ("@
        + placeholders(n) + "))"@
}

pub open spec fn text_values(tags: Seq<Seq<char>>) -> Seq<SqlValueView> {
    tags.map_values(|t: Seq<char>| SqlValueView::Text(t))
}

pub open spec fn mood_frag(tags: Seq<Seq<char>>) -> (Seq<char>, Seq<SqlValueView>) {
    (mood_exists_sql(tags.len()), text_values(tags))
}

/// `EXISTS` over the mood-tag facts of the track, one parameter per tag.
pub fn mood_tag_exists_fragment(tags: &[String]) -> (r: SqlFragment)
    ensures
        frag_view(r) == mood_frag(views(tags@)),
{
    let mut ph = String::new();
    let mut params: Vec<SqlValue> = Vec::new();
    let mut i: usize = 0;
    while i < tags.len()
        invariant
            i <= tags@.len(),
            ph@ == placeholders(i as nat),
            values_view(params@) == text_values(views(tags@.take(i as int))),
        decreases tags.len() - i,
    {
        if i == 0 {
            ph.append("?");
        } else {
            ph.append(", ?");
        }
        params.push(SqlValue::Text(tags[i].clone()));
        assert(views(tags@.take(i + 1)) =~= views(tags@.take(i as int)).push(tags@[i as int]@));
        assert(values_view(params@) =~= values_view(params@.drop_last()).push(
            value_view(params@.last()),
        ));
        assert(text_values(views(tags@.take(i + 1))) =~= text_values(views(tags@.take(i as int))).push(
            SqlValueView::Text(tags@[i as int]@),
        ));
        i += 1;
    }
    assert(tags@.take(i as int) =~= tags@);
    let sql = String::from_str(
        "EXISTS (SELECT 1 FROM track_fact mf WHERE mf.server_id = t.server_id AND mf.track_id = t.id AND mf.fact_kind = 'mood_tag' AND mf.value_text IN (",
    ).concat(ph.as_str()).concat("))");
    SqlFragment { sql, params }
}

pub open spec fn mood_clause_spec(field: Seq<char>, op: FilterOp, v: Option<ClauseValue>) -> Result<
    Option<(Seq<char>, Seq<SqlValueView>)>,
    Seq<char>,
> {
    match string_list_spec(field, op, v) {
        Err(m) => Err(m),
        Ok(ids) => if field == "mood_group"@ {
            if ids.len() == 0 {
                Err(bad_value_text(field, "expected at least one mood group"@))
            } else {
                match first_invalid(ids, true) {
                    Some(bad) => Err(bad_value_text(field, quoted_msg("unknown mood group `"@, bad))),
                    None => Ok(Some(mood_frag(expand_spec(ids)))),
                }
            }
        } else {
            if ids.len() == 0 {
                Err(bad_value_text(field, "expected at least one mood tag"@))
            } else {
                match first_invalid(ids, false) {
                    Some(bad) => Err(bad_value_text(field, quoted_msg("unknown mood tag `"@, bad))),
                    None => Ok(Some(mood_frag(dedupe_ids(ids)))),
                }
            }
        },
    }
}

pub open spec fn opt_frag_result_view(r: Result<Option<SqlFragment>, String>) -> Result<
    Option<(Seq<char>, Seq<SqlValueView>)>,
    Seq<char>,
> {
    match r {
        Ok(Some(f)) => Ok(Some(frag_view(f))),
        Ok(None) => Ok(None),
        Err(m) => Err(m@),
    }
}

fn bad_value_message(field: &String, detail: String) -> (r: String)
    ensures
        r@ == bad_value_text(field@, detail@),
{
    FilterError::BadValue { field: field.clone(), detail }.message()
}

/// Resolve a `mood_group` clause (groups expanded to their atomic tags) or a
/// `mood_tag` clause (tags checked and deduplicated) to its `EXISTS`
/// fragment.
pub fn resolve_mood_clause(c: &LibraryFilterClause) -> (r: Result<Option<SqlFragment>, String>)
    requires
        c.field@ == "mood_group"@ || c.field@ == "mood_tag"@,
    ensures
        opt_frag_result_view(r) == mood_clause_spec(c.field@, c.op, c.value),
{
    let ids = json_to_string_list(c.field.as_str(), c.op, c.value.as_ref())?;
    if str_eq(c.field.as_str(), "mood_group") {
        match normalize_mood_groups(&ids) {
            Ok(_) => {},
            Err(detail) => return Err(bad_value_message(&c.field, detail)),
        }
        let tags = match expand_mood_groups(&ids) {
            Ok(t) => t,
            Err(detail) => return Err(bad_value_message(&c.field, detail)),
        };
        Ok(Some(mood_tag_exists_fragment(&tags)))
    } else {
        let tags = match normalize_mood_tags(&ids) {
            Ok(t) => t,
            Err(detail) => return Err(bad_value_message(&c.field, detail)),
        };
        Ok(Some(mood_tag_exists_fragment(&tags)))
    }
}

} // verus!
