//! Advanced search: the request model and the SQL pieces built from it.
//! Every filter clause is resolved through the filter registry to a WHERE
//! fragment whose text holds only builder-supplied column expressions; every
//! value is bound as a parameter. Running the queries is left to the caller.

use vstd::prelude::*;
use crate::advanced_search_mood::{mood_clause_spec, opt_frag_result_view, resolve_mood_clause};
use crate::mood_groups::strings_contain;
use crate::filter::{
    bad_value_text, compare_fragment, frag_view, lookup_spec, not_queryable_text, op_wire,
    unknown_field_text,
    unsupported_op_text, validate_for_entity, value_view, EntityKind, FilterError, FilterOp,
    SqlFragment, SqlValue, SqlValueView, values_view,
};
use crate::text::{
    chars_of, contains_chars, contains_seq, count_char, decimal_i64, join_sep, join_strings, lemma_count_char_concat, opt_str_view,
    opt_string_view, push_i64, str_eq, trim, trim_string, views,
};

verus! {

/// The value side of a filter clause as it arrives in the request: the JSON
/// kinds the builder tells apart.
#[derive(Debug, Clone, PartialEq, Eq)]
pub enum ClauseValue {
    Null,
    Bool(bool),
    /// A number, with its value when it is an integer that fits `i64`.
    Number(Option<i64>),
    Text(String),
    Array(Vec<ArrayItem>),
    Object,
}

/// One element of an array value: a string, or anything else.
#[derive(Debug, Clone, PartialEq, Eq)]
pub enum ArrayItem {
    Text(String),
    Other,
}

/// One filter clause of a request.
#[derive(Debug, Clone, PartialEq, Eq)]
pub struct LibraryFilterClause {
    pub field: String,
    pub op: FilterOp,
    pub value: Option<ClauseValue>,
    pub value_to: Option<ClauseValue>,
}

/// Sort direction.
#[derive(Debug, Clone, Copy, PartialEq, Eq, Structural)]
pub enum SortDir {
    Asc,
    Desc,
}

/// One sort key of a request.
#[derive(Debug, Clone, PartialEq, Eq)]
pub struct LibrarySortClause {
    pub field: String,
    pub dir: SortDir,
}

/// An advanced search request.
#[derive(Debug, Clone, PartialEq, Eq)]
pub struct LibraryAdvancedSearchRequest {
    pub server_id: String,
    pub library_scope: Option<String>,
    pub query: Option<String>,
    pub entity_types: Vec<EntityKind>,
    pub filters: Vec<LibraryFilterClause>,
    pub starred_only: Option<bool>,
    pub sort: Vec<LibrarySortClause>,
    pub limit: u32,
    pub offset: u32,
    pub skip_totals: bool,
}

// ── values ─────────────────────────────────────────────────────────────

pub open spec fn text_value_spec(field: Seq<char>, v: Option<ClauseValue>) -> Result<
    Seq<char>,
    Seq<char>,
> {
    match v {
        Some(ClauseValue::Text(s)) => Ok(s@),
        _ => Err(bad_value_text(field, "expected a string value"@)),
    }
}

pub open spec fn opt_clause(v: Option<&ClauseValue>) -> Option<ClauseValue> {
    match v {
        Some(x) => Some(*x),
        None => None,
    }
}

/// A string value, bound as text.
pub fn json_to_text(field: &str, v: Option<&ClauseValue>) -> (r: Result<SqlValue, String>)
    ensures
        match text_value_spec(field@, opt_clause(v)) {
            Ok(s) => r is Ok && value_view(r->Ok_0) == SqlValueView::Text(s),
            Err(m) => r is Err && r->Err_0@ == m,
        },
{
    match v {
        Some(ClauseValue::Text(s)) => Ok(SqlValue::Text(s.clone())),
        _ => Err(
            FilterError::BadValue {
                field: String::from_str(field),
                detail: String::from_str("expected a string value"),
            }.message(),
        ),
    }
}

pub open spec fn opt_int_spec(field: Seq<char>, v: Option<ClauseValue>) -> Result<
    Option<i64>,
    Seq<char>,
> {
    match v {
        None => Ok(None),
        Some(ClauseValue::Null) => Ok(None),
        Some(ClauseValue::Number(n)) => match n {
            Some(i) => Ok(Some(i)),
            None => Err(bad_value_text(field, "expected an integer value"@)),
        },
        _ => Err(bad_value_text(field, "expected a numeric value"@)),
    }
}

pub open spec fn opt_int_view(o: Option<i64>) -> Option<SqlValueView> {
    match o {
        Some(i) => Some(SqlValueView::Integer(i)),
        None => None,
    }
}

pub open spec fn opt_value_view(o: Option<SqlValue>) -> Option<SqlValueView> {
    match o {
        Some(v) => Some(value_view(v)),
        None => None,
    }
}

/// An optional integer value: absent or `null` gives `None`, an integer is
/// bound as an integer, anything else is a bad value.
pub fn json_to_opt_i64(field: &str, v: Option<&ClauseValue>) -> (r: Result<Option<SqlValue>, String>)
    ensures
        match opt_int_spec(field@, opt_clause(v)) {
            Ok(o) => r is Ok && opt_value_view(r->Ok_0) == opt_int_view(o),
            Err(m) => r is Err && r->Err_0@ == m,
        },
{
    match v {
        None => Ok(None),
        Some(ClauseValue::Null) => Ok(None),
        Some(ClauseValue::Number(n)) => match n {
            Some(i) => Ok(Some(SqlValue::Integer(*i))),
            None => Err(
                FilterError::BadValue {
                    field: String::from_str(field),
                    detail: String::from_str("expected an integer value"),
                }.message(),
            ),
        },
        _ => Err(
            FilterError::BadValue {
                field: String::from_str(field),
                detail: String::from_str("expected a numeric value"),
            }.message(),
        ),
    }
}

pub open spec fn item_text(it: ArrayItem) -> Seq<char> {
    match it {
        ArrayItem::Text(s) => s@,
        ArrayItem::Other => Seq::empty(),
    }
}

pub open spec fn all_text(items: Seq<ArrayItem>) -> bool {
    forall|i: int| 0 <= i < items.len() ==> items[i] is Text
}

pub open spec fn string_list_spec(field: Seq<char>, op: FilterOp, v: Option<ClauseValue>) -> Result<
    Seq<Seq<char>>,
    Seq<char>,
> {
    match op {
        FilterOp::Eq => match text_value_spec(field, v) {
            Ok(s) => Ok(seq![s]),
            Err(m) => Err(m),
        },
        FilterOp::In => match v {
            Some(ClauseValue::Array(items)) => if items@.len() == 0 {
                Err(bad_value_text(field, "operator `in` requires a non-empty array"@))
            } else if all_text(items@) {
                Ok(items@.map_values(|it: ArrayItem| item_text(it)))
            } else {
                Err(bad_value_text(field, "expected an array of strings"@))
            },
            _ => Err(bad_value_text(field, "operator `in` requires an array value"@)),
        },
        _ => Err(unsupported_op_text(field, op_wire(op))),
    }
}

/// The list of ids a mood clause names: one string for `eq`, a non-empty
/// array of strings for `in`.
pub fn json_to_string_list(field: &str, op: FilterOp, v: Option<&ClauseValue>) -> (r: Result<
    Vec<String>,
    String,
>)
    ensures
        match string_list_spec(field@, op, opt_clause(v)) {
            Ok(ids) => r is Ok && views(r->Ok_0@) == ids,
            Err(m) => r is Err && r->Err_0@ == m,
        },
{
    match op {
        FilterOp::Eq => match v {
            Some(ClauseValue::Text(s)) => {
                let out = vec![s.clone()];
                assert(views(out@) =~= seq![s@]);
                Ok(out)
            },
            _ => Err(
                FilterError::BadValue {
                    field: String::from_str(field),
                    detail: String::from_str("expected a string value"),
                }.message(),
            ),
        },
        FilterOp::In => match v {
            Some(ClauseValue::Array(items)) => {
                if items.len() == 0 {
                    return Err(
                        FilterError::BadValue {
                            field: String::from_str(field),
                            detail: String::from_str("operator `in` requires a non-empty array"),
                        }.message(),
                    );
                }
                let mut out: Vec<String> = Vec::new();
                let mut i: usize = 0;
                while i < items.len()
                    invariant
                        opt_clause(v) == Some(ClauseValue::Array(*items)),
                        op == FilterOp::In,
                        items@.len() > 0,
                        i <= items@.len(),
                        all_text(items@.take(i as int)),
                        views(out@) == items@.take(i as int).map_values(|it: ArrayItem| item_text(it)),
                    decreases items.len() - i,
                {
                    match &items[i] {
                        ArrayItem::Text(s) => {
                            out.push(s.clone());
                        },
                        ArrayItem::Other => {
                            assert(items@[i as int] is Other);
                            assert(!all_text(items@));
                            return Err(
                                FilterError::BadValue {
                                    field: String::from_str(field),
                                    detail: String::from_str("expected an array of strings"),
                                }.message(),
                            );
                        },
                    }
                    assert(items@.take(i + 1).map_values(|it: ArrayItem| item_text(it))
                        =~= items@.take(i as int).map_values(|it: ArrayItem| item_text(it)).push(
                        item_text(items@[i as int]),
                    ));
                    assert(views(out@) =~= views(out@.drop_last()).push(out@.last()@));
                    i += 1;
                }
                assert(items@.take(i as int) =~= items@);
                Ok(out)
            },
            _ => Err(
                FilterError::BadValue {
                    field: String::from_str(field),
                    detail: String::from_str("operator `in` requires an array value"),
                }.message(),
            ),
        },
        _ => Err(FilterError::UnsupportedOp { field: String::from_str(field), op: op.as_str() }.message()),
    }
}

// ── clause resolution ──────────────────────────────────────────────────

pub open spec fn compare_suffix(op: FilterOp) -> Seq<char> {
    match op {
        FilterOp::Eq => " = ?"@,
        FilterOp::Gte => " >= ?"@,
        _ => " <= ?"@,
    }
}

pub open spec fn missing_value_text(field: Seq<char>, op: FilterOp) -> Seq<char> {
    bad_value_text(field, "operator `"@ + op_wire(op) + "` requires a value"@)
}

/// What a comparison on a trusted column `col` yields.
pub open spec fn compare_spec(
    field: Seq<char>,
    col: Seq<char>,
    op: FilterOp,
    value: Option<SqlValueView>,
    value_to: Option<SqlValueView>,
) -> Result<(Seq<char>, Seq<SqlValueView>), Seq<char>> {
    match op {
        FilterOp::Eq | FilterOp::Gte | FilterOp::Lte => match value {
            Some(v) => Ok((col + compare_suffix(op), seq![v])),
            None => Err(missing_value_text(field, op)),
        },
        FilterOp::Between => match (value, value_to) {
            (Some(lo), Some(hi)) => Ok((col + " BETWEEN ? AND ?"@, seq![lo, hi])),
            (None, _) => Err(missing_value_text(field, op)),
            (Some(_), None) => Err(bad_value_text(field, "operator `between` requires `valueTo`"@)),
        },
        FilterOp::IsTrue => Ok((col + " IS NOT NULL"@, Seq::empty())),
        FilterOp::Fts | FilterOp::In => Err(unsupported_op_text(field, op_wire(op))),
    }
}

pub open spec fn frag_result_view(r: Result<SqlFragment, String>) -> Result<
    (Seq<char>, Seq<SqlValueView>),
    Seq<char>,
> {
    match r {
        Ok(f) => Ok(frag_view(f)),
        Err(m) => Err(m@),
    }
}

/// A comparison fragment, its error as the message the search reports.
fn compare_text(
    field: &str,
    col: &str,
    op: FilterOp,
    value: Option<SqlValue>,
    value_to: Option<SqlValue>,
) -> (r: Result<SqlFragment, String>)
    ensures
        frag_result_view(r) == compare_spec(
            field@,
            col@,
            op,
            opt_value_view(value),
            opt_value_view(value_to),
        ),
{
    match compare_fragment(field, col, op, value, value_to) {
        Ok(f) => {
            proof {
                assert(frag_view(f).1 =~= compare_spec(
                    field@,
                    col@,
                    op,
                    opt_value_view(value),
                    opt_value_view(value_to),
                )->Ok_0.1);
            }
            Ok(f)
        },
        Err(e) => Err(e.message()),
    }
}

/// A numeric comparison: both value sides read as optional integers.
pub open spec fn numeric_spec(
    field: Seq<char>,
    col: Seq<char>,
    op: FilterOp,
    value: Option<ClauseValue>,
    value_to: Option<ClauseValue>,
) -> Result<Option<(Seq<char>, Seq<SqlValueView>)>, Seq<char>> {
    match opt_int_spec(field, value) {
        Err(m) => Err(m),
        Ok(a) => match opt_int_spec(field, value_to) {
            Err(m) => Err(m),
            Ok(b) => match compare_spec(field, col, op, opt_int_view(a), opt_int_view(b)) {
                Ok(f) => Ok(Some(f)),
                Err(m) => Err(m),
            },
        },
    }
}

fn numeric_fragment(
    field: &str,
    col: &str,
    op: FilterOp,
    value: Option<&ClauseValue>,
    value_to: Option<&ClauseValue>,
) -> (r: Result<Option<SqlFragment>, String>)
    ensures
        opt_frag_result_view(r) == numeric_spec(
            field@,
            col@,
            op,
            opt_clause(value),
            opt_clause(value_to),
        ),
{
    let lo = json_to_opt_i64(field, value)?;
    let hi = json_to_opt_i64(field, value_to)?;
    match compare_text(field, col, op, lo, hi) {
        Ok(f) => Ok(Some(f)),
        Err(m) => Err(m),
    }
}

/// The column a v1 field reads on an entity's table.
pub open spec fn clause_column(field: Seq<char>, entity: EntityKind) -> Option<Seq<char>> {
    if field == "genre"@ && entity == EntityKind::Track {
        Some("t.genre"@)
    } else if field == "genre"@ && entity == EntityKind::Album {
        Some("a.genre"@)
    } else if field == "year"@ && entity == EntityKind::Track {
        Some("t.year"@)
    } else if field == "year"@ && entity == EntityKind::Album {
        Some("a.year"@)
    } else if field == "starred"@ && entity == EntityKind::Track {
        Some("t.starred_at"@)
    } else if field == "starred"@ && entity == EntityKind::Album {
        Some("a.starred_at"@)
    } else {
        None
    }
}

/// What one scalar clause resolves to on `entity`: a fragment, `None` when
/// the field is known but does not route there, or the error message.
pub open spec fn resolve_clause_spec(c: LibraryFilterClause, entity: EntityKind, bpm_col: Seq<char>) -> Result<
    Option<(Seq<char>, Seq<SqlValueView>)>,
    Seq<char>,
> {
    let field = c.field@;
    match lookup_spec(field) {
        None => Err(unknown_field_text(field)),
        Some(f) => if !f.ops.contains(c.op) {
            Err(unsupported_op_text(field, op_wire(c.op)))
        } else if !f.entities.contains(entity) {
            Ok(None)
        } else if field == "bpm"@ && entity == EntityKind::Track {
            numeric_spec(field, bpm_col, c.op, c.value, c.value_to)
        } else if field == "starred"@ && entity == EntityKind::Artist {
            Ok(None)
        } else if (field == "mood_group"@ || field == "mood_tag"@) && entity == EntityKind::Track {
            mood_clause_spec(field, c.op, c.value)
        } else if field == "text"@ {
            Ok(None)
        } else {
            match clause_column(field, entity) {
                None => Err(not_queryable_text(field)),
                Some(col) => if field == "genre"@ {
                    match text_value_spec(field, c.value) {
                        Ok(s) => Ok(Some((col + " = ? COLLATE NOCASE"@, seq![SqlValueView::Text(s)]))),
                        Err(m) => Err(m),
                    }
                } else if field == "starred"@ {
                    Ok(Some((col + " IS NOT NULL"@, Seq::empty())))
                } else {
                    numeric_spec(field, col, c.op, c.value, c.value_to)
                },
            }
        },
    }
}

fn column_for(field: &str, entity: EntityKind) -> (r: Option<&'static str>)
    ensures
        match clause_column(field@, entity) {
            Some(c) => r is Some && r->0@ == c,
            None => r is None,
        },
{
    let track = entity == EntityKind::Track;
    let album = entity == EntityKind::Album;
    if str_eq(field, "genre") && track {
        Some("t.genre")
    } else if str_eq(field, "genre") && album {
        Some("a.genre")
    } else if str_eq(field, "year") && track {
        Some("t.year")
    } else if str_eq(field, "year") && album {
        Some("a.year")
    } else if str_eq(field, "starred") && track {
        Some("t.starred_at")
    } else if str_eq(field, "starred") && album {
        Some("a.starred_at")
    } else {
        None
    }
}

/// Resolve one scalar clause to a WHERE fragment for `entity`. `bpm_col` is
/// the expression that resolves a track's bpm from its stored sources.
/// `Ok(None)` means the field is known but does not route to `entity`.
pub fn resolve_clause(c: &LibraryFilterClause, entity: EntityKind, bpm_col: &str) -> (r: Result<
    Option<SqlFragment>,
    String,
>)
    ensures
        opt_frag_result_view(r) == resolve_clause_spec(*c, entity, bpm_col@),
{
    let field = c.field.as_str();
    let applies = match validate_for_entity(field, c.op, entity) {
        Ok(a) => a,
        Err(e) => return Err(e.message()),
    };
    if !applies {
        return Ok(None);
    }
    if str_eq(field, "bpm") && entity == EntityKind::Track {
        return numeric_fragment(field, bpm_col, c.op, c.value.as_ref(), c.value_to.as_ref());
    }
    if str_eq(field, "starred") && entity == EntityKind::Artist {
        return Ok(None);
    }
    if (str_eq(field, "mood_group") || str_eq(field, "mood_tag")) && entity == EntityKind::Track {
        return resolve_mood_clause(c);
    }
    if str_eq(field, "text") {
        return Ok(None);
    }
    let col = match column_for(field, entity) {
        Some(col) => col,
        None => return Err(FilterError::NotQueryable(c.field.clone()).message()),
    };
    if str_eq(field, "genre") {
        let v = json_to_text(field, c.value.as_ref())?;
        let frag = SqlFragment { sql: String::from_str(col).concat(" = ? COLLATE NOCASE"), params: vec![v] };
        proof {
            assert(frag_view(frag).1 =~= seq![SqlValueView::Text(text_value_spec(field@, c.value)->Ok_0)]);
        }
        return Ok(Some(frag));
    }
    if str_eq(field, "starred") {
        let frag = SqlFragment { sql: String::from_str(col).concat(" IS NOT NULL"), params: Vec::new() };
        proof {
            assert(frag_view(frag).1 =~= Seq::<SqlValueView>::empty());
        }
        return Ok(Some(frag));
    }
    numeric_fragment(field, col, c.op, c.value.as_ref(), c.value_to.as_ref())
}

/// Values never reach the SQL text: two clauses on the same field with the
/// same operator that both resolve to a fragment with the same number of
/// bound values resolve to the same SQL text.
pub proof fn law_sql_text_independent_of_values(
    c1: LibraryFilterClause,
    c2: LibraryFilterClause,
    entity: EntityKind,
    bpm_col: Seq<char>,
)
    requires
        c1.field@ == c2.field@,
        c1.op == c2.op,
        resolve_clause_spec(c1, entity, bpm_col) matches Ok(Some(f1)) && resolve_clause_spec(
            c2,
            entity,
            bpm_col,
        ) matches Ok(Some(f2)) && f1.1.len() == f2.1.len(),
    ensures
        resolve_clause_spec(c1, entity, bpm_col)->Ok_0->Some_0.0 == resolve_clause_spec(
            c2,
            entity,
            bpm_col,
        )->Ok_0->Some_0.0,
{
}

/// Mood filters join through the track's facts, so album and artist rows
/// for them are derived from tracks.
pub fn scalar_requires_track_derived_entities(scalar: &[LibraryFilterClause]) -> (r: bool)
    ensures
        r == exists|i: int|
            0 <= i < scalar@.len() && (#[trigger] scalar@[i].field@ == "mood_group"@
                || scalar@[i].field@ == "mood_tag"@),
{
    let mut i: usize = 0;
    while i < scalar.len()
        invariant
            i <= scalar@.len(),
            forall|k: int|
                0 <= k < i ==> !(#[trigger] scalar@[k].field@ == "mood_group"@ || scalar@[k].field@
                    == "mood_tag"@),
        decreases scalar.len() - i,
    {
        let f = scalar[i].field.as_str();
        if str_eq(f, "mood_group") || str_eq(f, "mood_tag") {
            return true;
        }
        i += 1;
    }
    false
}

// ── WHERE assembly ─────────────────────────────────────────────────────

/// `AND`-joined WHERE clauses and their positional parameters, kept in
/// lockstep so anonymous `?` placeholders bind left to right.
pub struct WhereBuilder {
    pub clauses: Vec<String>,
    pub params: Vec<SqlValue>,
}

/// Placeholders over all clauses.
pub open spec fn placeholder_total(clauses: Seq<Seq<char>>) -> nat
    decreases clauses.len(),
{
    if clauses.len() == 0 {
        0
    } else {
        placeholder_total(clauses.drop_last()) + count_char(clauses.last(), '?')
    }
}

impl WhereBuilder {
    pub open spec fn clause_views(&self) -> Seq<Seq<char>> {
        views(self.clauses@)
    }

    pub open spec fn param_views(&self) -> Seq<SqlValueView> {
        values_view(self.params@)
    }

    /// Every placeholder in the clauses has its parameter, and no more.
    pub open spec fn in_lockstep(&self) -> bool {
        placeholder_total(self.clause_views()) == self.params@.len()
    }

    pub fn new() -> (r: Self)
        ensures
            r.clause_views() == Seq::<Seq<char>>::empty(),
            r.param_views() == Seq::<SqlValueView>::empty(),
    {
        let r = WhereBuilder { clauses: Vec::new(), params: Vec::new() };
        proof {
            assert(r.clause_views() =~= Seq::<Seq<char>>::empty());
            assert(r.param_views() =~= Seq::<SqlValueView>::empty());
        }
        r
    }

    /// Add a resolved fragment with its parameters.
    pub fn push(&mut self, frag: SqlFragment)
        ensures
            final(self).clause_views() == old(self).clause_views().push(frag.sql@),
            final(self).param_views() == old(self).param_views() + values_view(frag.params@),
    {
        let SqlFragment { sql, params } = frag;
        self.push_params_owned(sql, params);
    }

    /// Add a clause that binds nothing.
    pub fn push_raw(&mut self, sql: &str)
        ensures
            final(self).clause_views() == old(self).clause_views().push(sql@),
            final(self).param_views() == old(self).param_views(),
    {
        self.clauses.push(String::from_str(sql));
        proof {
            assert(views(self.clauses@) =~= views(old(self).clauses@).push(sql@));
        }
    }

    /// Add a clause with one parameter.
    pub fn push_param(&mut self, sql: &str, param: SqlValue)
        ensures
            final(self).clause_views() == old(self).clause_views().push(sql@),
            final(self).param_views() == old(self).param_views().push(value_view(param)),
    {
        self.clauses.push(String::from_str(sql));
        self.params.push(param);
        proof {
            assert(views(self.clauses@) =~= views(old(self).clauses@).push(sql@));
            assert(values_view(self.params@) =~= values_view(old(self).params@).push(
                value_view(param),
            ));
        }
    }

    /// Add a clause with its parameters, in order.
    pub fn push_params(&mut self, sql: &str, params: Vec<SqlValue>)
        ensures
            final(self).clause_views() == old(self).clause_views().push(sql@),
            final(self).param_views() == old(self).param_views() + values_view(params@),
    {
        self.push_params_owned(String::from_str(sql), params);
    }

    fn push_params_owned(&mut self, sql: String, params: Vec<SqlValue>)
        ensures
            final(self).clause_views() == old(self).clause_views().push(sql@),
            final(self).param_views() == old(self).param_views() + values_view(params@),
    {
        let ghost sv = sql@;
        self.clauses.push(sql);
        let mut more = params;
        self.params.append(&mut more);
        proof {
            assert(views(self.clauses@) =~= views(old(self).clauses@).push(sv));
            assert(values_view(self.params@) =~= values_view(old(self).params@) + values_view(
                params@,
            ));
        }
    }

    /// The clauses joined with `AND`.
    pub fn where_sql(&self) -> (r: String)
        ensures
            r@ == join_sep(self.clause_views(), " AND "@),
    {
        join_strings(self.clauses.as_slice(), " AND ")
    }
}

proof fn lemma_join_placeholders(parts: Seq<Seq<char>>)
    ensures
        count_char(join_sep(parts, " AND "@), '?') == placeholder_total(parts),
    decreases parts.len(),
{
    if parts.len() == 0 {
        assert(count_char(Seq::<char>::empty(), '?') == 0);
    } else if parts.len() == 1 {
        assert(parts.drop_last() =~= Seq::<Seq<char>>::empty());
        assert(placeholder_total(parts.drop_last()) == 0);
    } else {
        lemma_join_placeholders(parts.drop_last());
        let a = join_sep(parts.drop_last(), " AND "@);
        lemma_count_char_concat(a, " AND "@, '?');
        lemma_count_char_concat(a + " AND "@, parts.last(), '?');
        assert(count_char(" AND "@, '?') == 0) by {
            reveal_strlit(" AND ");
            reveal_with_fuel(count_char, 6);
        }
        assert(join_sep(parts, " AND "@) == a + " AND "@ + parts.last());
    }
}

/// Pushing a clause whose placeholders match its parameters keeps the
/// builder in lockstep.
pub proof fn law_push_keeps_lockstep(
    before: Seq<Seq<char>>,
    before_params: nat,
    sql: Seq<char>,
    n_params: nat,
)
    requires
        placeholder_total(before) == before_params,
        count_char(sql, '?') == n_params,
    ensures
        placeholder_total(before.push(sql)) == before_params + n_params,
{
    assert(before.push(sql).drop_last() =~= before);
}

/// A builder in lockstep produces a WHERE text with exactly one `?` per
/// bound parameter.
pub proof fn law_where_placeholders_match_params(b: WhereBuilder)
    requires
        b.in_lockstep(),
    ensures
        count_char(join_sep(b.clause_views(), " AND "@), '?') == b.params@.len(),
{
    lemma_join_placeholders(b.clause_views());
}

// ── small helpers ──────────────────────────────────────────────────────

pub open spec fn trimmed_nonempty_spec(s: Option<Seq<char>>) -> Option<Seq<char>> {
    match s {
        Some(x) => if trim(x).len() > 0 {
            Some(trim(x))
        } else {
            None
        },
        None => None,
    }
}

/// The trimmed text, or `None` when nothing is left.
pub fn trimmed_nonempty(s: Option<&str>) -> (r: Option<String>)
    ensures
        opt_string_view(r) == trimmed_nonempty_spec(opt_str_view(s)),
{
    match s {
        Some(x) => {
            let t = trim_string(x);
            if t.as_str().unicode_len() > 0 {
                Some(t)
            } else {
                None
            }
        },
        None => None,
    }
}

/// The sortable fields of each entity and the trusted column expression
/// each sorts by.
pub open spec fn sort_column_spec(field: Seq<char>, entity: EntityKind) -> Option<Seq<char>> {
    match entity {
        EntityKind::Track => if field == "title"@ {
            Some("t.title COLLATE NOCASE"@)
        } else if field == "year"@ {
            Some("t.year"@)
        } else if field == "duration"@ {
            Some("t.duration_sec"@)
        } else if field == "artist"@ {
            Some("t.artist COLLATE NOCASE"@)
        } else if field == "album"@ {
            Some("t.album COLLATE NOCASE"@)
        } else if field == "track_number"@ {
            Some("t.track_number"@)
        } else if field == "play_count"@ {
            Some("t.play_count"@)
        } else {
            None
        },
        EntityKind::Album => if field == "name"@ {
            Some("a.name COLLATE NOCASE"@)
        } else if field == "year"@ {
            Some("a.year"@)
        } else if field == "artist"@ {
            Some("a.artist COLLATE NOCASE"@)
        } else {
            None
        },
        EntityKind::Artist => if field == "name"@ {
            Some("ar.name COLLATE NOCASE"@)
        } else {
            None
        },
    }
}

/// The table alias each entity's queries read from.
pub open spec fn entity_alias(entity: EntityKind) -> Seq<char> {
    match entity {
        EntityKind::Track => "t"@,
        EntityKind::Album => "a"@,
        EntityKind::Artist => "ar"@,
    }
}

/// Text fields sort case-insensitively.
pub open spec fn sorts_as_text(field: Seq<char>) -> bool {
    field == "title"@ || field == "artist"@ || field == "album"@ || field == "name"@
}

/// Each sortable field sorts by the column that holds it: the entity's
/// alias, a dot and the field's own name (durations are stored in seconds,
/// `_sec`), text columns compared without case.
pub proof fn law_sort_column_names_the_field(field: Seq<char>, entity: EntityKind)
    ensures
        match sort_column_spec(field, entity) {
            Some(c) => c == entity_alias(entity) + "."@ + field + (if sorts_as_text(field) {
                " COLLATE NOCASE"@
            } else if field == "duration"@ {
                "_sec"@
            } else {
                Seq::<char>::empty()
            }),
            None => true,
        },
{
    reveal_strlit("t");
    reveal_strlit("a");
    reveal_strlit("ar");
    reveal_strlit(".");
    reveal_strlit(" COLLATE NOCASE");
    reveal_strlit("_sec");
    reveal_strlit("title");
    reveal_strlit("year");
    reveal_strlit("duration");
    reveal_strlit("artist");
    reveal_strlit("album");
    reveal_strlit("track_number");
    reveal_strlit("play_count");
    reveal_strlit("name");
    reveal_strlit("t.title COLLATE NOCASE");
    reveal_strlit("t.year");
    reveal_strlit("t.duration_sec");
    reveal_strlit("t.artist COLLATE NOCASE");
    reveal_strlit("t.album COLLATE NOCASE");
    reveal_strlit("t.track_number");
    reveal_strlit("t.play_count");
    reveal_strlit("a.name COLLATE NOCASE");
    reveal_strlit("a.year");
    reveal_strlit("a.artist COLLATE NOCASE");
    reveal_strlit("ar.name COLLATE NOCASE");
    match sort_column_spec(field, entity) {
        Some(c) => {
            let suffix = if sorts_as_text(field) {
                " COLLATE NOCASE"@
            } else if field == "duration"@ {
                "_sec"@
            } else {
                Seq::<char>::empty()
            };
            let lhs = entity_alias(entity) + "."@ + field + suffix;
            if entity == EntityKind::Track {
                if field == "title"@ {
                    assert(c =~= lhs);
                } else if field == "year"@ {
                    assert("year"@[0] != "name"@[0]);
                    assert(c =~= lhs);
                } else if field == "duration"@ {
                    assert(c =~= lhs);
                } else if field == "artist"@ {
                    assert(c =~= lhs);
                } else if field == "album"@ {
                    assert(c =~= lhs);
                } else if field == "track_number"@ {
                    assert(c =~= lhs);
                } else {
                    assert(c =~= lhs);
                }
            } else if entity == EntityKind::Album {
                if field == "name"@ {
                    assert(c =~= lhs);
                } else if field == "year"@ {
                    assert("year"@[0] != "name"@[0]);
                    assert(c =~= lhs);
                } else {
                    assert(c =~= lhs);
                }
            } else {
                assert(c =~= lhs);
            }
        },
        None => {},
    }
}

/// The sortable fields: title, year, duration, artist, album, track number
/// and play count for tracks; name, year and artist for albums; name for
/// artists. Any other field is ignored.
pub proof fn law_sortable_fields(field: Seq<char>, entity: EntityKind)
    ensures
        sort_column_spec(field, entity) is Some <==> match entity {
            EntityKind::Track => field == "title"@ || field == "year"@ || field == "duration"@
                || field == "artist"@ || field == "album"@ || field == "track_number"@
                || field == "play_count"@,
            EntityKind::Album => field == "name"@ || field == "year"@ || field == "artist"@,
            EntityKind::Artist => field == "name"@,
        },
{
}

/// Allow-list of sortable fields; unknown ones are ignored.
pub fn sort_column(field: &str, entity: EntityKind) -> (r: Option<&'static str>)
    ensures
        match sort_column_spec(field@, entity) {
            Some(c) => r is Some && r->0@ == c,
            None => r is None,
        },
{
    match entity {
        EntityKind::Track => if str_eq(field, "title") {
            Some("t.title COLLATE NOCASE")
        } else if str_eq(field, "year") {
            Some("t.year")
        } else if str_eq(field, "duration") {
            Some("t.duration_sec")
        } else if str_eq(field, "artist") {
            Some("t.artist COLLATE NOCASE")
        } else if str_eq(field, "album") {
            Some("t.album COLLATE NOCASE")
        } else if str_eq(field, "track_number") {
            Some("t.track_number")
        } else if str_eq(field, "play_count") {
            Some("t.play_count")
        } else {
            None
        },
        EntityKind::Album => if str_eq(field, "name") {
            Some("a.name COLLATE NOCASE")
        } else if str_eq(field, "year") {
            Some("a.year")
        } else if str_eq(field, "artist") {
            Some("a.artist COLLATE NOCASE")
        } else {
            None
        },
        EntityKind::Artist => if str_eq(field, "name") {
            Some("ar.name COLLATE NOCASE")
        } else {
            None
        },
    }
}

pub open spec fn dir_text(d: SortDir) -> Seq<char> {
    match d {
        SortDir::Asc => "ASC"@,
        SortDir::Desc => "DESC"@,
    }
}

/// A one-clause sort orders by the clause's own field, in the direction it
/// asks for (`ASC` ascending, `DESC` descending); a field that cannot be
/// sorted on leaves the default order.
pub proof fn law_single_sort_orders_by_field(c: LibrarySortClause, entity: EntityKind)
    ensures
        sort_column_spec(c.field@, entity) is None ==> order_clause_spec(seq![c], entity) is None,
        sort_column_spec(c.field@, entity) is Some ==> order_clause_spec(seq![c], entity) == Some(
            "ORDER BY "@ + entity_alias(entity) + "."@ + c.field@ + (if sorts_as_text(c.field@) {
                " COLLATE NOCASE"@
            } else if c.field@ == "duration"@ {
                "_sec"@
            } else {
                Seq::<char>::empty()
            }) + " "@ + (match c.dir {
                SortDir::Asc => "ASC"@,
                SortDir::Desc => "DESC"@,
            }),
        ),
{
    law_sort_column_names_the_field(c.field@, entity);
    let sort = seq![c];
    assert(sort.drop_last() =~= Seq::<LibrarySortClause>::empty());
    assert(sort.last() == c);
    assert(order_keys(sort.drop_last(), entity) == Seq::<Seq<char>>::empty());
    let keys = order_keys(sort, entity);
    if sort_column_spec(c.field@, entity) is Some {
        assert(keys.len() == 1);
        assert(join_sep(keys, ", "@) == keys[0]);
    }
}

/// The `column DIR` keys of the sortable clauses, in request order.
pub open spec fn order_keys(sort: Seq<LibrarySortClause>, entity: EntityKind) -> Seq<Seq<char>>
    decreases sort.len(),
{
    if sort.len() == 0 {
        Seq::empty()
    } else {
        let prev = order_keys(sort.drop_last(), entity);
        match sort_column_spec(sort.last().field@, entity) {
            Some(col) => prev.push(col + " "@ + dir_text(sort.last().dir)),
            None => prev,
        }
    }
}

pub open spec fn order_clause_spec(sort: Seq<LibrarySortClause>, entity: EntityKind) -> Option<
    Seq<char>,
> {
    let keys = order_keys(sort, entity);
    if keys.len() == 0 {
        None
    } else {
        Some("ORDER BY "@ + join_sep(keys, ", "@))
    }
}

/// `ORDER BY` over the sortable clauses, or `None` when none applies (the
/// caller then uses its default order).
pub fn order_clause(sort: &[LibrarySortClause], entity: EntityKind) -> (r: Option<String>)
    ensures
        opt_string_view(r) == order_clause_spec(sort@, entity),
{
    let mut keys: Vec<String> = Vec::new();
    let mut i: usize = 0;
    while i < sort.len()
        invariant
            i <= sort@.len(),
            views(keys@) == order_keys(sort@.take(i as int), entity),
        decreases sort.len() - i,
    {
        assert(sort@.take(i + 1).drop_last() =~= sort@.take(i as int));
        if let Some(col) = sort_column(sort[i].field.as_str(), entity) {
            let dir = match sort[i].dir {
                SortDir::Asc => "ASC",
                SortDir::Desc => "DESC",
            };
            keys.push(String::from_str(col).concat(" ").concat(dir));
            assert(views(keys@) =~= views(keys@.drop_last()).push(keys@.last()@));
        }
        i += 1;
    }
    assert(sort@.take(i as int) =~= sort@);
    if keys.len() == 0 {
        None
    } else {
        Some(String::from_str("ORDER BY ").concat(join_strings(keys.as_slice(), ", ").as_str()))
    }
}

pub open spec fn clamp_spec(x: int, lo: int, hi: int) -> int {
    if x < lo {
        lo
    } else if x > hi {
        hi
    } else {
        x
    }
}

/// Rows needed to serve the page: `limit + offset`, saturating.
pub open spec fn page_need(limit: u32, offset: u32) -> int {
    if limit + offset > u32::MAX {
        u32::MAX as int
    } else {
        limit + offset
    }
}

/// How many FTS hits a track search ranks before the page is cut: twenty
/// per row needed, between 256 and 10,000.
pub fn fts_candidate_pool_size(limit: u32, offset: u32) -> (r: i64)
    ensures
        r == clamp_spec(page_need(limit, offset) * 20, 256, 10_000),
{
    let need = limit.saturating_add(offset) as i64;
    let scaled = need * 20;
    if scaled < 256 {
        256
    } else if scaled > 10_000 {
        10_000
    } else {
        scaled
    }
}

/// How many FTS hits an album or artist search scans before deduplicating:
/// eight per row needed, between 64 and 2,000.
pub fn fts_dedupe_pool_size(limit: u32, offset: u32) -> (r: i64)
    ensures
        r == clamp_spec(page_need(limit, offset) * 8, 64, 2_000),
{
    let need = limit.saturating_add(offset) as i64;
    let scaled = need * 8;
    if scaled < 64 {
        64
    } else if scaled > 2_000 {
        2_000
    } else {
        scaled
    }
}

pub open spec fn scope_bind_spec(server_id: Seq<char>, scope: Option<Seq<char>>) -> Seq<SqlValueView> {
    match scope {
        Some(s) => if trim(s).len() > 0 {
            seq![SqlValueView::Text(server_id), SqlValueView::Text(s)]
        } else {
            seq![SqlValueView::Text(server_id)]
        },
        None => seq![SqlValueView::Text(server_id)],
    }
}

/// Parameters of the scoped FTS subquery after its `MATCH`: the server id,
/// then the library scope when one is given.
pub fn scoped_fts_subquery_bind(server_id: &str, library_scope: Option<&str>) -> (r: Vec<SqlValue>)
    ensures
        values_view(r@) == scope_bind_spec(server_id@, opt_str_view(library_scope)),
{
    let mut params: Vec<SqlValue> = vec![SqlValue::Text(String::from_str(server_id))];
    if let Some(scope) = library_scope {
        let t = trim_string(scope);
        if t.as_str().unicode_len() > 0 {
            params.push(SqlValue::Text(String::from_str(scope)));
        }
    }
    proof {
        assert(values_view(params@) =~= scope_bind_spec(server_id@, opt_str_view(library_scope)));
    }
    params
}

pub open spec fn scope_and(scope: Option<Seq<char>>, scope_sql: Seq<char>) -> Seq<char> {
    match scope {
        Some(_) => " AND "@ + scope_sql,
        None => Seq::empty(),
    }
}

pub open spec fn fts_rowid_subquery_spec(pool: i64, scope: Option<Seq<char>>, scope_sql: Seq<char>) -> Seq<
    char,
> {
    "SELECT f.rowid FROM track_fts f JOIN track t_fts ON t_fts.rowid = f.rowid WHERE track_fts MATCH ? AND t_fts.server_id = ? AND t_fts.deleted = 0"@
        + scope_and(scope, scope_sql) + " ORDER BY bm25(track_fts) LIMIT "@ + decimal_i64(pool)
}

/// FTS rowid pick scoped to the server (and the library folder when one is
/// given), best-ranked first, at most `pool` rows. `scope_sql` is the scope
/// test on the `t_fts` alias.
pub fn scoped_fts_rowid_subquery_sql(pool: i64, library_scope: Option<&str>, scope_sql: &str) -> (r:
    String)
    ensures
        r@ == fts_rowid_subquery_spec(pool, opt_str_view(library_scope), scope_sql@),
{
    let mut sql = String::from_str(
        "SELECT f.rowid FROM track_fts f JOIN track t_fts ON t_fts.rowid = f.rowid WHERE track_fts MATCH ? AND t_fts.server_id = ? AND t_fts.deleted = 0",
    );
    if library_scope.is_some() {
        sql.append(" AND ");
        sql.append(scope_sql);
    }
    sql.append(" ORDER BY bm25(track_fts) LIMIT ");
    push_i64(&mut sql, pool);
    sql
}

pub open spec fn fts_pick_join_spec(pool: i64, scope: Option<Seq<char>>, scope_sql: Seq<char>) -> Seq<
    char,
> {
    "track t INNER JOIN (SELECT f.rowid, bm25(track_fts) AS fts_rank FROM track_fts f JOIN track t_fts ON t_fts.rowid = f.rowid WHERE track_fts MATCH ? AND t_fts.server_id = ? AND t_fts.deleted = 0"@
        + scope_and(scope, scope_sql) + " ORDER BY fts_rank LIMIT "@ + decimal_i64(pool)
        + ") fts_pick ON t.rowid = fts_pick.rowid"@
}

/// The `FROM` of a ranked track search: tracks joined to their FTS pick,
/// which carries the rank the default order uses.
pub fn scoped_fts_pick_join_sql(pool: i64, library_scope: Option<&str>, scope_sql: &str) -> (r: String)
    ensures
        r@ == fts_pick_join_spec(pool, opt_str_view(library_scope), scope_sql@),
{
    let mut sql = String::from_str(
        "track t INNER JOIN (SELECT f.rowid, bm25(track_fts) AS fts_rank FROM track_fts f JOIN track t_fts ON t_fts.rowid = f.rowid WHERE track_fts MATCH ? AND t_fts.server_id = ? AND t_fts.deleted = 0",
    );
    if library_scope.is_some() {
        sql.append(" AND ");
        sql.append(scope_sql);
    }
    sql.append(" ORDER BY fts_rank LIMIT ");
    push_i64(&mut sql, pool);
    sql.append(") fts_pick ON t.rowid = fts_pick.rowid");
    sql
}

// ── applied filters and scalar clauses ─────────────────────────────────

/// The names held by a list of strings, as a set.
pub open spec fn name_set(v: Seq<String>) -> Set<Seq<char>> {
    Set::new(|s: Seq<char>| views(v).contains(s))
}

/// Record that a filter took effect; each name is kept once: a name
/// already listed leaves the list as it is, a new one goes at the end.
pub fn insert_applied(applied: &mut Vec<String>, name: &str)
    ensures
        name_set(final(applied)@) == name_set(old(applied)@).insert(name@),
        views(final(applied)@) == (if views(old(applied)@).contains(name@) {
            views(old(applied)@)
        } else {
            views(old(applied)@).push(name@)
        }),
        views(old(applied)@).no_duplicates() ==> views(final(applied)@).no_duplicates(),
{
    if !strings_contain(applied, name) {
        applied.push(String::from_str(name));
        proof {
            assert(views(applied@) =~= views(old(applied)@).push(name@));
        }
    }
    proof {
        assert forall|x: Seq<char>| name_set(applied@).contains(x) == name_set(old(applied)@).insert(name@).contains(x) by {
            if x == name@ {
                if !views(applied@).contains(name@) {
                    assert(views(applied@).last() == name@);
                }
            }
            if views(applied@).contains(x) && x != name@ && !views(old(applied)@).contains(x) {
                let k = choose|k: int| 0 <= k < views(applied@).len() && views(applied@)[k] == x;
                assert(k < views(old(applied)@).len());
                assert(views(old(applied)@)[k] == x);
            }
            if views(old(applied)@).contains(x) {
                let k = choose|k: int| 0 <= k < views(old(applied)@).len() && views(old(applied)@)[k] == x;
                assert(views(applied@)[k] == x);
            }
        }
        assert(name_set(applied@) =~= name_set(old(applied)@).insert(name@));
    }
}

/// The clauses at the given positions, in that order.
pub open spec fn pick(filters: Seq<LibraryFilterClause>, idx: Seq<usize>) -> Seq<LibraryFilterClause> {
    idx.map_values(|i: usize| filters[i as int])
}

pub open spec fn indices_in(idx: Seq<usize>, n: nat) -> bool {
    forall|k: int| 0 <= k < idx.len() ==> (#[trigger] idx[k]) < n
}

/// The resolved fragments of clauses in order, each with its field name,
/// or the first clause's error.
pub open spec fn resolve_all_spec(cs: Seq<LibraryFilterClause>, entity: EntityKind, bpm_col: Seq<char>) -> Result<
    Seq<(Seq<char>, (Seq<char>, Seq<SqlValueView>))>,
    Seq<char>,
>
    decreases cs.len(),
{
    if cs.len() == 0 {
        Ok(Seq::empty())
    } else {
        match resolve_all_spec(cs.drop_last(), entity, bpm_col) {
            Err(m) => Err(m),
            Ok(prev) => match resolve_clause_spec(cs.last(), entity, bpm_col) {
                Err(m) => Err(m),
                Ok(None) => Ok(prev),
                Ok(Some(f)) => Ok(prev.push((cs.last().field@, f))),
            },
        }
    }
}

pub open spec fn frag_sqls(fs: Seq<(Seq<char>, (Seq<char>, Seq<SqlValueView>))>) -> Seq<Seq<char>> {
    fs.map_values(|f: (Seq<char>, (Seq<char>, Seq<SqlValueView>))| f.1.0)
}

pub open spec fn frag_params(fs: Seq<(Seq<char>, (Seq<char>, Seq<SqlValueView>))>) -> Seq<SqlValueView>
    decreases fs.len(),
{
    if fs.len() == 0 {
        Seq::empty()
    } else {
        frag_params(fs.drop_last()) + fs.last().1.1
    }
}

pub open spec fn frag_fields(fs: Seq<(Seq<char>, (Seq<char>, Seq<SqlValueView>))>) -> Set<Seq<char>> {
    Set::new(|s: Seq<char>| exists|k: int| 0 <= k < fs.len() && (#[trigger] fs[k]).0 == s)
}

proof fn lemma_resolve_all_err_extends(cs: Seq<LibraryFilterClause>, j: int, entity: EntityKind, bpm_col: Seq<char>)
    requires
        0 <= j <= cs.len(),
        resolve_all_spec(cs.take(j), entity, bpm_col) is Err,
    ensures
        resolve_all_spec(cs, entity, bpm_col) == resolve_all_spec(cs.take(j), entity, bpm_col),
    decreases cs.len() - j,
{
    if j < cs.len() {
        assert(cs.take(j + 1).drop_last() =~= cs.take(j));
        lemma_resolve_all_err_extends(cs, j + 1, entity, bpm_col);
    } else {
        assert(cs.take(j) =~= cs);
    }
}

/// The fields recorded while resolving clauses in order until the first
/// one that cannot be resolved.
pub open spec fn partial_fields(cs: Seq<LibraryFilterClause>, entity: EntityKind, bpm_col: Seq<char>) -> Set<
    Seq<char>,
>
    decreases cs.len(),
{
    match resolve_all_spec(cs, entity, bpm_col) {
        Ok(fs) => frag_fields(fs),
        Err(_) => if cs.len() == 0 {
            Set::empty()
        } else {
            partial_fields(cs.drop_last(), entity, bpm_col)
        },
    }
}

proof fn lemma_partial_fields_extends(cs: Seq<LibraryFilterClause>, j: int, entity: EntityKind, bpm_col: Seq<char>)
    requires
        0 <= j <= cs.len(),
        resolve_all_spec(cs.take(j), entity, bpm_col) is Err,
    ensures
        partial_fields(cs, entity, bpm_col) == partial_fields(cs.take(j), entity, bpm_col),
    decreases cs.len() - j,
{
    if j < cs.len() {
        assert(cs.take(j + 1).drop_last() =~= cs.take(j));
        lemma_partial_fields_extends(cs, j + 1, entity, bpm_col);
    } else {
        assert(cs.take(j) =~= cs);
    }
}

/// Resolve the chosen scalar clauses for `entity`, in order, pushing each
/// fragment that applies and recording its field as applied. Stops at the
/// first clause that cannot be resolved.
pub fn push_scalar_clauses(
    w: &mut WhereBuilder,
    applied: &mut Vec<String>,
    filters: &[LibraryFilterClause],
    scalar: &[usize],
    entity: EntityKind,
    bpm_col: &str,
) -> (r: Result<(), String>)
    requires
        indices_in(scalar@, filters@.len()),
    ensures
        views(old(applied)@).no_duplicates() ==> views(final(applied)@).no_duplicates(),
        match resolve_all_spec(pick(filters@, scalar@), entity, bpm_col@) {
            Err(m) => {
                &&& r is Err
                &&& r->Err_0@ == m
                &&& name_set(final(applied)@) == name_set(old(applied)@).union(
                    partial_fields(pick(filters@, scalar@), entity, bpm_col@),
                )
            },
            Ok(fs) => {
                &&& r is Ok
                &&& final(w).clause_views() == old(w).clause_views() + frag_sqls(fs)
                &&& final(w).param_views() == old(w).param_views() + frag_params(fs)
                &&& name_set(final(applied)@) == name_set(old(applied)@).union(frag_fields(fs))
            },
        },
{
    let ghost cs = pick(filters@, scalar@);
    let ghost mut fs: Seq<(Seq<char>, (Seq<char>, Seq<SqlValueView>))> = Seq::empty();
    let mut i: usize = 0;
    proof {
        assert(cs.take(0) =~= Seq::<LibraryFilterClause>::empty());
        assert(old(w).clause_views() + frag_sqls(fs) =~= old(w).clause_views());
        assert(old(w).param_views() + frag_params(fs) =~= old(w).param_views());
        assert(name_set(old(applied)@).union(frag_fields(fs)) =~= name_set(old(applied)@));
    }
    while i < scalar.len()
        invariant
            i <= scalar@.len(),
            cs == pick(filters@, scalar@),
            indices_in(scalar@, filters@.len()),
            resolve_all_spec(cs.take(i as int), entity, bpm_col@) == Ok::<
                Seq<(Seq<char>, (Seq<char>, Seq<SqlValueView>))>,
                Seq<char>,
            >(fs),
            w.clause_views() == old(w).clause_views() + frag_sqls(fs),
            w.param_views() == old(w).param_views() + frag_params(fs),
            name_set(applied@) == name_set(old(applied)@).union(frag_fields(fs)),
            views(old(applied)@).no_duplicates() ==> views(applied@).no_duplicates(),
        decreases scalar.len() - i,
    {
        let c = &filters[scalar[i]];
        proof {
            assert(cs.take(i + 1).drop_last() =~= cs.take(i as int));
            assert(cs.take(i + 1).last() == *c);
        }
        match resolve_clause(c, entity, bpm_col) {
            Err(m) => {
                proof {
                    lemma_resolve_all_err_extends(cs, i + 1, entity, bpm_col@);
                    let t1 = cs.take(i + 1);
                    assert(t1.drop_last() =~= cs.take(i as int));
                    assert(resolve_all_spec(t1, entity, bpm_col@) is Err);
                    assert(partial_fields(cs.take(i as int), entity, bpm_col@) == frag_fields(fs));
                    assert(partial_fields(t1, entity, bpm_col@) == partial_fields(t1.drop_last(), entity, bpm_col@));
                    assert(partial_fields(t1, entity, bpm_col@) == frag_fields(fs));
                    lemma_partial_fields_extends(cs, i + 1, entity, bpm_col@);
                }
                return Err(m);
            },
            Ok(None) => {},
            Ok(Some(frag)) => {
                let ghost entry = (c.field@, frag_view(frag));
                let ghost w0 = w.clause_views();
                let ghost p0 = w.param_views();
                let ghost a0 = name_set(applied@);
                insert_applied(applied, c.field.as_str());
                w.push(frag);
                proof {
                    let nfs = fs.push(entry);
                    assert(frag_sqls(nfs) =~= frag_sqls(fs).push(entry.1.0));
                    assert(nfs.drop_last() =~= fs);
                    assert(frag_params(nfs) == frag_params(fs) + entry.1.1);
                    assert(w.clause_views() =~= old(w).clause_views() + frag_sqls(nfs));
                    assert(w.param_views() =~= old(w).param_views() + frag_params(nfs));
                    assert forall|x: Seq<char>| frag_fields(nfs).contains(x) == (frag_fields(fs).contains(x) || x == entry.0) by {
                        if frag_fields(nfs).contains(x) {
                            let k = choose|k: int| 0 <= k < nfs.len() && (#[trigger] nfs[k]).0 == x;
                            if k < fs.len() {
                                assert(fs[k].0 == x);
                            }
                        }
                        if frag_fields(fs).contains(x) {
                            let k = choose|k: int| 0 <= k < fs.len() && (#[trigger] fs[k]).0 == x;
                            assert(nfs[k].0 == x);
                        }
                        if x == entry.0 {
                            assert(nfs[fs.len() as int].0 == x);
                        }
                    }
                    assert(name_set(applied@) =~= name_set(old(applied)@).union(frag_fields(nfs)));
                    fs = nfs;
                }
            },
        }
        i += 1;
    }
    proof {
        assert(cs.take(i as int) =~= cs);
    }
    Ok(())
}

// ── request ────────────────────────────────────────────────────────────

/// The text to search for: the trimmed `query`, else the first `text`
/// clause whose value is a string (trimmed, ignored when blank).
pub open spec fn text_input_spec(query: Option<Seq<char>>, filters: Seq<LibraryFilterClause>) -> Option<
    Seq<char>,
>
    decreases filters.len(),
{
    if filters.len() == 0 {
        trimmed_nonempty_spec(query)
    } else {
        let prev = text_input_spec(query, filters.drop_last());
        let c = filters.last();
        if c.field@ == "text"@ && prev is None {
            match c.value {
                Some(ClauseValue::Text(s)) => trimmed_nonempty_spec(Some(s@)),
                _ => prev,
            }
        } else {
            prev
        }
    }
}

/// Positions of the scalar (non-`text`) clauses, in order.
pub open spec fn scalar_indices(filters: Seq<LibraryFilterClause>) -> Seq<usize>
    decreases filters.len(),
{
    if filters.len() == 0 {
        Seq::empty()
    } else {
        let prev = scalar_indices(filters.drop_last());
        if filters.last().field@ == "text"@ {
            prev
        } else {
            prev.push((filters.len() - 1) as usize)
        }
    }
}

/// The error a scalar clause fails the request with, if any: an unknown
/// field, or an operator the field does not declare.
pub open spec fn clause_check(c: LibraryFilterClause) -> Option<Seq<char>> {
    match lookup_spec(c.field@) {
        None => Some(unknown_field_text(c.field@)),
        Some(f) => if !f.ops.contains(c.op) {
            Some(unsupported_op_text(c.field@, op_wire(c.op)))
        } else {
            None
        },
    }
}

/// The first scalar clause's error, in request order.
pub open spec fn first_clause_error(filters: Seq<LibraryFilterClause>) -> Option<Seq<char>>
    decreases filters.len(),
{
    if filters.len() == 0 {
        None
    } else {
        match first_clause_error(filters.drop_last()) {
            Some(m) => Some(m),
            None => if filters.last().field@ == "text"@ {
                None
            } else {
                clause_check(filters.last())
            },
        }
    }
}

/// A request split into its search text and its scalar clauses.
pub struct SearchInput {
    pub text: Option<String>,
    /// Positions of the scalar clauses in the request's filters.
    pub scalar: Vec<usize>,
}

/// Split the request into the text to search for and the scalar clauses,
/// and check every scalar clause up front: an unknown field or an operator
/// the registry does not declare fails the whole request, whatever entities
/// are asked for.
pub fn split_search_request(query: Option<&str>, filters: &[LibraryFilterClause]) -> (r: Result<
    SearchInput,
    String,
>)
    ensures
        match first_clause_error(filters@) {
            Some(m) => r is Err && r->Err_0@ == m,
            None => {
                &&& r is Ok
                &&& opt_string_view(r->Ok_0.text) == text_input_spec(opt_str_view(query), filters@)
                &&& r->Ok_0.scalar@ == scalar_indices(filters@)
            },
        },
{
    let mut text_input = trimmed_nonempty(query);
    let mut scalar: Vec<usize> = Vec::new();
    let mut i: usize = 0;
    while i < filters.len()
        invariant
            i <= filters@.len(),
            opt_string_view(text_input) == text_input_spec(opt_str_view(query), filters@.take(i as int)),
            scalar@ == scalar_indices(filters@.take(i as int)),
        decreases filters.len() - i,
    {
        proof {
            assert(filters@.take(i + 1).drop_last() =~= filters@.take(i as int));
        }
        let c = &filters[i];
        if str_eq(c.field.as_str(), "text") {
            if text_input.is_none() {
                if let Some(ClauseValue::Text(s)) = &c.value {
                    text_input = trimmed_nonempty(Some(s.as_str()));
                }
            }
        } else {
            scalar.push(i);
        }
        i += 1;
    }
    proof {
        assert(filters@.take(i as int) =~= filters@);
    }
    let mut j: usize = 0;
    while j < filters.len()
        invariant
            j <= filters@.len(),
            first_clause_error(filters@.take(j as int)) is None,
        decreases filters.len() - j,
    {
        proof {
            assert(filters@.take(j + 1).drop_last() =~= filters@.take(j as int));
        }
        let c = &filters[j];
        if !str_eq(c.field.as_str(), "text") {
            match validate_for_entity(c.field.as_str(), c.op, EntityKind::Track) {
                Ok(_) => {},
                Err(e) => {
                    proof {
                        lemma_first_error_extends(filters@, j + 1);
                    }
                    return Err(e.message());
                },
            }
        }
        j += 1;
    }
    proof {
        assert(filters@.take(j as int) =~= filters@);
    }
    Ok(SearchInput { text: text_input, scalar })
}

proof fn lemma_first_error_extends(filters: Seq<LibraryFilterClause>, j: int)
    requires
        0 <= j <= filters.len(),
        first_clause_error(filters.take(j)) is Some,
    ensures
        first_clause_error(filters) == first_clause_error(filters.take(j)),
    decreases filters.len() - j,
{
    if j < filters.len() {
        assert(filters.take(j + 1).drop_last() =~= filters.take(j));
        lemma_first_error_extends(filters, j + 1);
    } else {
        assert(filters.take(j) =~= filters);
    }
}

// ── per-entity queries ─────────────────────────────────────────────────

/// Expressions of the library schema that the builders splice in.
pub struct SearchSql {
    /// Library-scope test on the `t` alias.
    pub scope_eq_t: String,
    /// Library-scope test on the `t_fts` alias of the FTS subqueries.
    pub scope_eq_fts: String,
    /// A track's bpm resolved from its stored sources, on the `t` alias.
    pub bpm_t: String,
}

/// A WHERE and the ORDER BY of one entity query.
pub struct EntityQuery {
    pub where_clause: WhereBuilder,
    pub order: String,
}

/// The FTS pick a ranked track search joins.
pub struct FtsPick {
    /// The `FROM` of the query, tracks joined to their pick.
    pub from: String,
    /// The `MATCH` expression, bound first.
    pub match_query: String,
    /// Parameters of the pick after its `MATCH`.
    pub binds: Vec<SqlValue>,
}

/// The track query: its WHERE and ORDER BY, whether the bpm column must be
/// the resolved one, and the FTS pick when the search has text.
pub struct TrackQuery {
    pub where_clause: WhereBuilder,
    pub order: String,
    pub resolved_bpm: bool,
    pub fts: Option<FtsPick>,
}

pub open spec fn scope_of(req: LibraryAdvancedSearchRequest) -> Option<Seq<char>> {
    trimmed_nonempty_spec(opt_string_view(req.library_scope))
}

pub open spec fn scope_clause(scope: Option<Seq<char>>, sql: Seq<char>) -> Seq<Seq<char>> {
    match scope {
        Some(_) => seq![sql],
        None => Seq::empty(),
    }
}

pub open spec fn scope_param(scope: Option<Seq<char>>) -> Seq<SqlValueView> {
    match scope {
        Some(s) => seq![SqlValueView::Text(s)],
        None => Seq::empty(),
    }
}

pub open spec fn starred_only(req: LibraryAdvancedSearchRequest) -> bool {
    req.starred_only == Some(true)
}

pub open spec fn when_clause(b: bool, sql: Seq<char>) -> Seq<Seq<char>> {
    if b {
        seq![sql]
    } else {
        Seq::empty()
    }
}

pub open spec fn when_name(b: bool, name: Seq<char>) -> Set<Seq<char>> {
    if b {
        set![name]
    } else {
        Set::empty()
    }
}

pub open spec fn opt_text_param(o: Option<Seq<char>>) -> Seq<SqlValueView> {
    match o {
        Some(s) => seq![SqlValueView::Text(s)],
        None => Seq::empty(),
    }
}

pub open spec fn order_or(sort: Seq<LibrarySortClause>, entity: EntityKind, default: Seq<char>) -> Seq<
    char,
> {
    match order_clause_spec(sort, entity) {
        Some(o) => o,
        None => default,
    }
}

pub open spec fn scalar_of(req: LibraryAdvancedSearchRequest, scalar: Seq<usize>) -> Seq<LibraryFilterClause> {
    pick(req.filters@, scalar)
}

fn order_or_default(sort: &[LibrarySortClause], entity: EntityKind, default: &str) -> (r: String)
    ensures
        r@ == order_or(sort@, entity, default@),
{
    match order_clause(sort, entity) {
        Some(o) => o,
        None => String::from_str(default),
    }
}

fn push_scope(w: &mut WhereBuilder, scope: &Option<String>, sql: &str)
    ensures
        final(w).clause_views() == old(w).clause_views() + scope_clause(opt_string_view(*scope), sql@),
        final(w).param_views() == old(w).param_views() + scope_param(opt_string_view(*scope)),
{
    match scope {
        Some(s) => {
            w.push_param(sql, SqlValue::Text(s.clone()));
        },
        None => {},
    }
    proof {
        assert(w.clause_views() =~= old(w).clause_views() + scope_clause(opt_string_view(*scope), sql@));
        assert(w.param_views() =~= old(w).param_views() + scope_param(opt_string_view(*scope)));
    }
}

fn push_like(w: &mut WhereBuilder, applied: &mut Vec<String>, like: Option<&str>, sql: &str)
    ensures
        views(old(applied)@).no_duplicates() ==> views(final(applied)@).no_duplicates(),
        final(w).clause_views() == old(w).clause_views() + when_clause(like is Some, sql@),
        final(w).param_views() == old(w).param_views() + opt_text_param(opt_str_view(like)),
        name_set(final(applied)@) == name_set(old(applied)@).union(when_name(like is Some, "text"@)),
{
    match like {
        Some(p) => {
            w.push_param(sql, SqlValue::Text(String::from_str(p)));
            insert_applied(applied, "text");
        },
        None => {},
    }
    proof {
        assert(w.clause_views() =~= old(w).clause_views() + when_clause(like is Some, sql@));
        assert(w.param_views() =~= old(w).param_views() + opt_text_param(opt_str_view(like)));
        assert(name_set(applied@) =~= name_set(old(applied)@).union(when_name(like is Some, "text"@)));
    }
}

fn push_starred(w: &mut WhereBuilder, applied: &mut Vec<String>, starred: Option<bool>, sql: &str)
    ensures
        views(old(applied)@).no_duplicates() ==> views(final(applied)@).no_duplicates(),
        final(w).clause_views() == old(w).clause_views() + when_clause(starred == Some(true), sql@),
        final(w).param_views() == old(w).param_views(),
        name_set(final(applied)@) == name_set(old(applied)@).union(
            when_name(starred == Some(true), "starred"@),
        ),
{
    if starred == Some(true) {
        w.push_raw(sql);
        insert_applied(applied, "starred");
    }
    proof {
        assert(w.clause_views() =~= old(w).clause_views() + when_clause(starred == Some(true), sql@));
        assert(name_set(applied@) =~= name_set(old(applied)@).union(
            when_name(starred == Some(true), "starred"@),
        ));
    }
}

/// Some scalar clause filters on bpm.
pub open spec fn filters_bpm(cs: Seq<LibraryFilterClause>) -> bool {
    exists|k: int| 0 <= k < cs.len() && (#[trigger] cs[k]).field@ == "bpm"@
}

fn any_bpm(filters: &[LibraryFilterClause], scalar: &[usize]) -> (r: bool)
    requires
        indices_in(scalar@, filters@.len()),
    ensures
        r == filters_bpm(pick(filters@, scalar@)),
{
    let mut i: usize = 0;
    while i < scalar.len()
        invariant
            i <= scalar@.len(),
            indices_in(scalar@, filters@.len()),
            forall|k: int| 0 <= k < i ==> (#[trigger] pick(filters@, scalar@)[k]).field@ != "bpm"@,
        decreases scalar.len() - i,
    {
        if str_eq(filters[scalar[i]].field.as_str(), "bpm") {
            assert(pick(filters@, scalar@)[i as int].field@ == "bpm"@);
            return true;
        }
        i += 1;
    }
    false
}

pub open spec fn track_base_clauses(scope: Option<Seq<char>>, sql: SearchSql) -> Seq<Seq<char>> {
    seq!["t.deleted = 0"@, "t.server_id = ?"@] + scope_clause(scope, sql.scope_eq_t@)
}

pub open spec fn track_base_params(req: LibraryAdvancedSearchRequest) -> Seq<SqlValueView> {
    seq![SqlValueView::Text(req.server_id@)] + scope_param(scope_of(req))
}

/// The track query of a request. `scalar` are the positions of its scalar
/// clauses, `fts_query` the prefix-match expression of its text when it
/// has one.
pub fn build_track_query(
    req: &LibraryAdvancedSearchRequest,
    scalar: &[usize],
    fts_query: Option<String>,
    sql: &SearchSql,
    limit: u32,
    offset: u32,
    applied: &mut Vec<String>,
) -> (r: Result<TrackQuery, String>)
    requires
        indices_in(scalar@, req.filters@.len()),
    ensures
        views(old(applied)@).no_duplicates() ==> views(final(applied)@).no_duplicates(),
        match resolve_all_spec(scalar_of(*req, scalar@), EntityKind::Track, sql.bpm_t@) {
            Err(m) => {
                &&& r is Err
                &&& r->Err_0@ == m
                &&& name_set(final(applied)@) == name_set(old(applied)@).union(
                    partial_fields(scalar_of(*req, scalar@), EntityKind::Track, sql.bpm_t@),
                )
            },
            Ok(fs) => {
                let q = r->Ok_0;
                &&& r is Ok
                &&& q.where_clause.clause_views() == track_base_clauses(scope_of(*req), *sql)
                    + frag_sqls(fs) + when_clause(starred_only(*req), "t.starred_at IS NOT NULL"@)
                &&& q.where_clause.param_views() == track_base_params(*req) + frag_params(fs)
                &&& q.resolved_bpm == filters_bpm(scalar_of(*req, scalar@))
                &&& name_set(final(applied)@) == name_set(old(applied)@).union(frag_fields(fs)).union(
                    when_name(starred_only(*req), "starred"@),
                ).union(when_name(fts_query is Some, "text"@))
                &&& match fts_query {
                    Some(m) => {
                        &&& q.fts is Some
                        &&& q.fts->0.from@ == fts_pick_join_spec(
                            clamp_spec(page_need(limit, offset) * 20, 256, 10_000) as i64,
                            scope_of(*req),
                            sql.scope_eq_fts@,
                        )
                        &&& q.fts->0.match_query@ == m@
                        &&& values_view(q.fts->0.binds@) == scope_bind_spec(req.server_id@, scope_of(*req))
                        &&& q.order@ == order_or(req.sort@, EntityKind::Track, "ORDER BY fts_pick.fts_rank"@)
                    },
                    None => {
                        &&& q.fts is None
                        &&& q.order@ == order_or(
                            req.sort@,
                            EntityKind::Track,
                            "ORDER BY t.title COLLATE NOCASE ASC, t.id ASC"@,
                        )
                    },
                }
            },
        },
{
    let scope = trimmed_nonempty(opt_as_str(&req.library_scope));
    let mut w = WhereBuilder::new();
    w.push_raw("t.deleted = 0");
    w.push_param("t.server_id = ?", SqlValue::Text(req.server_id.clone()));
    push_scope(&mut w, &scope, sql.scope_eq_t.as_str());
    let ghost base_c = w.clause_views();
    let ghost base_p = w.param_views();
    proof {
        assert(base_c =~= track_base_clauses(scope_of(*req), *sql));
        assert(base_p =~= track_base_params(*req));
    }
    push_scalar_clauses(&mut w, applied, req.filters.as_slice(), scalar, EntityKind::Track, sql.bpm_t.as_str())?;
    push_starred(&mut w, applied, req.starred_only, "t.starred_at IS NOT NULL");
    let resolved_bpm = any_bpm(req.filters.as_slice(), scalar);
    match fts_query {
        Some(m) => {
            insert_applied(applied, "text");
            let pool = fts_candidate_pool_size(limit, offset);
            let from = scoped_fts_pick_join_sql(pool, opt_as_str(&scope), sql.scope_eq_fts.as_str());
            let binds = scoped_fts_subquery_bind(req.server_id.as_str(), opt_as_str(&scope));
            let order = order_or_default(req.sort.as_slice(), EntityKind::Track, "ORDER BY fts_pick.fts_rank");
            Ok(TrackQuery { where_clause: w, order, resolved_bpm, fts: Some(FtsPick { from, match_query: m, binds }) })
        },
        None => {
            let order = order_or_default(
                req.sort.as_slice(),
                EntityKind::Track,
                "ORDER BY t.title COLLATE NOCASE ASC, t.id ASC",
            );
            Ok(TrackQuery { where_clause: w, order, resolved_bpm, fts: None })
        },
    }
}

fn opt_as_str(o: &Option<String>) -> (r: Option<&str>)
    ensures
        opt_str_view(r) == opt_string_view(*o),
{
    match o {
        Some(s) => Some(s.as_str()),
        None => None,
    }
}

/// The album-table query: albums of the server, by name when the search
/// has text (`like` is its contains pattern), with the scalar clauses that
/// route to albums. The library scope does not narrow the album table.
pub fn build_album_table_query(
    req: &LibraryAdvancedSearchRequest,
    scalar: &[usize],
    like: Option<&str>,
    sql: &SearchSql,
    applied: &mut Vec<String>,
) -> (r: Result<EntityQuery, String>)
    requires
        indices_in(scalar@, req.filters@.len()),
    ensures
        views(old(applied)@).no_duplicates() ==> views(final(applied)@).no_duplicates(),
        match resolve_all_spec(scalar_of(*req, scalar@), EntityKind::Album, sql.bpm_t@) {
            Err(m) => {
                &&& r is Err
                &&& r->Err_0@ == m
                &&& name_set(final(applied)@) == name_set(old(applied)@).union(when_name(like is Some, "text"@)).union(
                    partial_fields(scalar_of(*req, scalar@), EntityKind::Album, sql.bpm_t@),
                )
            },
            Ok(fs) => {
                &&& r is Ok
                &&& r->Ok_0.where_clause.clause_views() == seq!["a.server_id = ?"@] + when_clause(
                    like is Some,
                    "a.name LIKE ? ESCAPE '\\'"@,
                ) + frag_sqls(fs) + when_clause(starred_only(*req), "a.starred_at IS NOT NULL"@)
                &&& r->Ok_0.where_clause.param_views() == seq![SqlValueView::Text(req.server_id@)]
                    + opt_text_param(opt_str_view(like)) + frag_params(fs)
                &&& r->Ok_0.order@ == order_or(
                    req.sort@,
                    EntityKind::Album,
                    "ORDER BY a.name COLLATE NOCASE ASC, a.id ASC"@,
                )
                &&& name_set(final(applied)@) == name_set(old(applied)@).union(
                    when_name(like is Some, "text"@),
                ).union(frag_fields(fs)).union(when_name(starred_only(*req), "starred"@))
            },
        },
{
    let mut w = WhereBuilder::new();
    w.push_param("a.server_id = ?", SqlValue::Text(req.server_id.clone()));
    push_like(&mut w, applied, like, "a.name LIKE ? ESCAPE '\\'");
    push_scalar_clauses(&mut w, applied, req.filters.as_slice(), scalar, EntityKind::Album, sql.bpm_t.as_str())?;
    push_starred(&mut w, applied, req.starred_only, "a.starred_at IS NOT NULL");
    let order = order_or_default(req.sort.as_slice(), EntityKind::Album, "ORDER BY a.name COLLATE NOCASE ASC, a.id ASC");
    proof {
        assert(w.clause_views() =~= seq!["a.server_id = ?"@] + when_clause(like is Some, "a.name LIKE ? ESCAPE '\\'"@)
            + frag_sqls(resolve_all_spec(scalar_of(*req, scalar@), EntityKind::Album, sql.bpm_t@)->Ok_0)
            + when_clause(starred_only(*req), "a.starred_at IS NOT NULL"@));
        assert(w.param_views() =~= seq![SqlValueView::Text(req.server_id@)] + opt_text_param(opt_str_view(like))
            + frag_params(resolve_all_spec(scalar_of(*req, scalar@), EntityKind::Album, sql.bpm_t@)->Ok_0));
    }
    Ok(EntityQuery { where_clause: w, order })
}

pub open spec fn album_from_tracks_base(scope: Option<Seq<char>>, sql: SearchSql) -> Seq<Seq<char>> {
    seq![
        "t.deleted = 0"@,
        "t.server_id = ?"@,
        "t.album_id IS NOT NULL AND t.album_id != ''"@,
        "NOT EXISTS (SELECT 1 FROM album a WHERE a.server_id = t.server_id AND a.id = t.album_id)"@,
    ] + scope_clause(scope, sql.scope_eq_t@)
}

/// Album rows derived from the server's tracks for albums the album table
/// lacks, grouped by album id; `like` matches the album title.
pub fn build_album_from_tracks_query(
    req: &LibraryAdvancedSearchRequest,
    scalar: &[usize],
    like: Option<&str>,
    sql: &SearchSql,
    applied: &mut Vec<String>,
) -> (r: Result<EntityQuery, String>)
    requires
        indices_in(scalar@, req.filters@.len()),
    ensures
        views(old(applied)@).no_duplicates() ==> views(final(applied)@).no_duplicates(),
        match resolve_all_spec(scalar_of(*req, scalar@), EntityKind::Track, sql.bpm_t@) {
            Err(m) => {
                &&& r is Err
                &&& r->Err_0@ == m
                &&& name_set(final(applied)@) == name_set(old(applied)@).union(when_name(like is Some, "text"@)).union(
                    partial_fields(scalar_of(*req, scalar@), EntityKind::Track, sql.bpm_t@),
                )
            },
            Ok(fs) => {
                &&& r is Ok
                &&& r->Ok_0.where_clause.clause_views() == album_from_tracks_base(scope_of(*req), *sql)
                    + when_clause(like is Some, "t.album LIKE ? ESCAPE '\\'"@) + frag_sqls(fs)
                    + when_clause(starred_only(*req), "t.starred_at IS NOT NULL"@)
                &&& r->Ok_0.where_clause.param_views() == track_base_params(*req) + opt_text_param(
                    opt_str_view(like),
                ) + frag_params(fs)
                &&& r->Ok_0.order@ == order_or(
                    req.sort@,
                    EntityKind::Album,
                    "ORDER BY MAX(t.album) COLLATE NOCASE ASC, t.album_id ASC"@,
                )
                &&& name_set(final(applied)@) == name_set(old(applied)@).union(
                    when_name(like is Some, "text"@),
                ).union(frag_fields(fs)).union(when_name(starred_only(*req), "starred"@))
            },
        },
{
    let scope = trimmed_nonempty(opt_as_str(&req.library_scope));
    let mut w = WhereBuilder::new();
    w.push_raw("t.deleted = 0");
    w.push_param("t.server_id = ?", SqlValue::Text(req.server_id.clone()));
    w.push_raw("t.album_id IS NOT NULL AND t.album_id != ''");
    w.push_raw("NOT EXISTS (SELECT 1 FROM album a WHERE a.server_id = t.server_id AND a.id = t.album_id)");
    push_scope(&mut w, &scope, sql.scope_eq_t.as_str());
    push_like(&mut w, applied, like, "t.album LIKE ? ESCAPE '\\'");
    push_scalar_clauses(&mut w, applied, req.filters.as_slice(), scalar, EntityKind::Track, sql.bpm_t.as_str())?;
    push_starred(&mut w, applied, req.starred_only, "t.starred_at IS NOT NULL");
    let order = order_or_default(
        req.sort.as_slice(),
        EntityKind::Album,
        "ORDER BY MAX(t.album) COLLATE NOCASE ASC, t.album_id ASC",
    );
    proof {
        let fs = resolve_all_spec(scalar_of(*req, scalar@), EntityKind::Track, sql.bpm_t@)->Ok_0;
        assert(w.clause_views() =~= album_from_tracks_base(scope_of(*req), *sql) + when_clause(
            like is Some,
            "t.album LIKE ? ESCAPE '\\'"@,
        ) + frag_sqls(fs) + when_clause(starred_only(*req), "t.starred_at IS NOT NULL"@));
        assert(w.param_views() =~= track_base_params(*req) + opt_text_param(opt_str_view(like))
            + frag_params(fs));
    }
    Ok(EntityQuery { where_clause: w, order })
}

/// The artist-table query: artists of the server, by name when the search
/// has text, with the scalar clauses that route to artists.
pub fn build_artist_table_query(
    req: &LibraryAdvancedSearchRequest,
    scalar: &[usize],
    like: Option<&str>,
    sql: &SearchSql,
    applied: &mut Vec<String>,
) -> (r: Result<EntityQuery, String>)
    requires
        indices_in(scalar@, req.filters@.len()),
    ensures
        views(old(applied)@).no_duplicates() ==> views(final(applied)@).no_duplicates(),
        match resolve_all_spec(scalar_of(*req, scalar@), EntityKind::Artist, sql.bpm_t@) {
            Err(m) => {
                &&& r is Err
                &&& r->Err_0@ == m
                &&& name_set(final(applied)@) == name_set(old(applied)@).union(when_name(like is Some, "text"@)).union(
                    partial_fields(scalar_of(*req, scalar@), EntityKind::Artist, sql.bpm_t@),
                )
            },
            Ok(fs) => {
                &&& r is Ok
                &&& r->Ok_0.where_clause.clause_views() == seq!["ar.server_id = ?"@] + when_clause(
                    like is Some,
                    "ar.name LIKE ? ESCAPE '\\'"@,
                ) + frag_sqls(fs)
                &&& r->Ok_0.where_clause.param_views() == seq![SqlValueView::Text(req.server_id@)]
                    + opt_text_param(opt_str_view(like)) + frag_params(fs)
                &&& r->Ok_0.order@ == order_or(
                    req.sort@,
                    EntityKind::Artist,
                    "ORDER BY ar.name COLLATE NOCASE ASC, ar.id ASC"@,
                )
                &&& name_set(final(applied)@) == name_set(old(applied)@).union(
                    when_name(like is Some, "text"@),
                ).union(frag_fields(fs))
            },
        },
{
    let mut w = WhereBuilder::new();
    w.push_param("ar.server_id = ?", SqlValue::Text(req.server_id.clone()));
    push_like(&mut w, applied, like, "ar.name LIKE ? ESCAPE '\\'");
    push_scalar_clauses(&mut w, applied, req.filters.as_slice(), scalar, EntityKind::Artist, sql.bpm_t.as_str())?;
    let order = order_or_default(req.sort.as_slice(), EntityKind::Artist, "ORDER BY ar.name COLLATE NOCASE ASC, ar.id ASC");
    proof {
        let fs = resolve_all_spec(scalar_of(*req, scalar@), EntityKind::Artist, sql.bpm_t@)->Ok_0;
        assert(w.clause_views() =~= seq!["ar.server_id = ?"@] + when_clause(like is Some, "ar.name LIKE ? ESCAPE '\\'"@)
            + frag_sqls(fs));
        assert(w.param_views() =~= seq![SqlValueView::Text(req.server_id@)] + opt_text_param(opt_str_view(like))
            + frag_params(fs));
    }
    Ok(EntityQuery { where_clause: w, order })
}

pub open spec fn artist_from_tracks_base(scope: Option<Seq<char>>, sql: SearchSql) -> Seq<Seq<char>> {
    seq![
        "t.deleted = 0"@,
        "t.server_id = ?"@,
        "t.artist_id IS NOT NULL AND t.artist_id != ''"@,
        "NOT EXISTS (SELECT 1 FROM artist ar WHERE ar.server_id = t.server_id AND ar.id = t.artist_id)"@,
    ] + scope_clause(scope, sql.scope_eq_t@)
}

/// Artist rows derived from the server's tracks for artists the artist
/// table lacks, grouped by artist id; `like` matches the artist name.
pub fn build_artist_from_tracks_query(
    req: &LibraryAdvancedSearchRequest,
    scalar: &[usize],
    like: Option<&str>,
    sql: &SearchSql,
    applied: &mut Vec<String>,
) -> (r: Result<EntityQuery, String>)
    requires
        indices_in(scalar@, req.filters@.len()),
    ensures
        views(old(applied)@).no_duplicates() ==> views(final(applied)@).no_duplicates(),
        match resolve_all_spec(scalar_of(*req, scalar@), EntityKind::Track, sql.bpm_t@) {
            Err(m) => {
                &&& r is Err
                &&& r->Err_0@ == m
                &&& name_set(final(applied)@) == name_set(old(applied)@).union(when_name(like is Some, "text"@)).union(
                    partial_fields(scalar_of(*req, scalar@), EntityKind::Track, sql.bpm_t@),
                )
            },
            Ok(fs) => {
                &&& r is Ok
                &&& r->Ok_0.where_clause.clause_views() == artist_from_tracks_base(scope_of(*req), *sql)
                    + when_clause(like is Some, "t.artist LIKE ? ESCAPE '\\'"@) + frag_sqls(fs)
                &&& r->Ok_0.where_clause.param_views() == track_base_params(*req) + opt_text_param(
                    opt_str_view(like),
                ) + frag_params(fs)
                &&& r->Ok_0.order@ == order_or(
                    req.sort@,
                    EntityKind::Artist,
                    "ORDER BY MAX(t.artist) COLLATE NOCASE ASC, t.artist_id ASC"@,
                )
                &&& name_set(final(applied)@) == name_set(old(applied)@).union(
                    when_name(like is Some, "text"@),
                ).union(frag_fields(fs))
            },
        },
{
    let scope = trimmed_nonempty(opt_as_str(&req.library_scope));
    let mut w = WhereBuilder::new();
    w.push_raw("t.deleted = 0");
    w.push_param("t.server_id = ?", SqlValue::Text(req.server_id.clone()));
    w.push_raw("t.artist_id IS NOT NULL AND t.artist_id != ''");
    w.push_raw("NOT EXISTS (SELECT 1 FROM artist ar WHERE ar.server_id = t.server_id AND ar.id = t.artist_id)");
    push_scope(&mut w, &scope, sql.scope_eq_t.as_str());
    push_like(&mut w, applied, like, "t.artist LIKE ? ESCAPE '\\'");
    push_scalar_clauses(&mut w, applied, req.filters.as_slice(), scalar, EntityKind::Track, sql.bpm_t.as_str())?;
    let order = order_or_default(
        req.sort.as_slice(),
        EntityKind::Artist,
        "ORDER BY MAX(t.artist) COLLATE NOCASE ASC, t.artist_id ASC",
    );
    proof {
        let fs = resolve_all_spec(scalar_of(*req, scalar@), EntityKind::Track, sql.bpm_t@)->Ok_0;
        assert(w.clause_views() =~= artist_from_tracks_base(scope_of(*req), *sql) + when_clause(
            like is Some,
            "t.artist LIKE ? ESCAPE '\\'"@,
        ) + frag_sqls(fs));
        assert(w.param_views() =~= track_base_params(*req) + opt_text_param(opt_str_view(like))
            + frag_params(fs));
    }
    Ok(EntityQuery { where_clause: w, order })
}

pub open spec fn fts_in_clause(pool: i64, scope: Option<Seq<char>>, sql: SearchSql) -> Seq<char> {
    "t.rowid IN ("@ + fts_rowid_subquery_spec(pool, scope, sql.scope_eq_fts@) + ")"@
}

pub open spec fn fts_in_params(fts: Seq<char>, req: LibraryAdvancedSearchRequest) -> Seq<SqlValueView> {
    seq![SqlValueView::Text(fts)] + scope_bind_spec(req.server_id@, scope_of(req))
}

pub open spec fn dedupe_pool(limit: u32, offset: u32) -> i64 {
    clamp_spec(page_need(limit, offset) * 8, 64, 2_000) as i64
}

fn push_fts_in(
    w: &mut WhereBuilder,
    req: &LibraryAdvancedSearchRequest,
    scope: &Option<String>,
    fts: &str,
    sql: &SearchSql,
    limit: u32,
    offset: u32,
)
    requires
        opt_string_view(*scope) == scope_of(*req),
    ensures
        final(w).clause_views() == old(w).clause_views().push(
            fts_in_clause(dedupe_pool(limit, offset), scope_of(*req), *sql),
        ),
        final(w).param_views() == old(w).param_views() + fts_in_params(fts@, *req),
{
    let pool = fts_dedupe_pool_size(limit, offset);
    let sub = scoped_fts_rowid_subquery_sql(pool, opt_as_str(scope), sql.scope_eq_fts.as_str());
    let clause = String::from_str("t.rowid IN (").concat(sub.as_str()).concat(")");
    let mut params: Vec<SqlValue> = vec![SqlValue::Text(String::from_str(fts))];
    let mut binds = scoped_fts_subquery_bind(req.server_id.as_str(), opt_as_str(scope));
    let ghost b0 = binds@;
    params.append(&mut binds);
    proof {
        assert(values_view(params@) =~= fts_in_params(fts@, *req));
    }
    w.push_params(clause.as_str(), params);
}

/// The album search by text when the album table has no match: the FTS
/// hits of the server's tracks (at most the dedupe pool, best first) that
/// carry an album id, with the scalar clauses on tracks. The caller keeps
/// the first row of each album.
pub fn build_album_fts_query(
    req: &LibraryAdvancedSearchRequest,
    scalar: &[usize],
    fts: &str,
    sql: &SearchSql,
    limit: u32,
    offset: u32,
    applied: &mut Vec<String>,
) -> (r: Result<WhereBuilder, String>)
    requires
        indices_in(scalar@, req.filters@.len()),
    ensures
        views(old(applied)@).no_duplicates() ==> views(final(applied)@).no_duplicates(),
        match resolve_all_spec(scalar_of(*req, scalar@), EntityKind::Track, sql.bpm_t@) {
            Err(m) => {
                &&& r is Err
                &&& r->Err_0@ == m
                &&& name_set(final(applied)@) == name_set(old(applied)@).insert("text"@).union(
                    partial_fields(scalar_of(*req, scalar@), EntityKind::Track, sql.bpm_t@),
                )
            },
            Ok(fs) => {
                &&& r is Ok
                &&& r->Ok_0.clause_views() == seq![
                    fts_in_clause(dedupe_pool(limit, offset), scope_of(*req), *sql),
                    "t.deleted = 0"@,
                    "t.server_id = ?"@,
                    "t.album_id IS NOT NULL AND t.album_id != ''"@,
                ] + scope_clause(scope_of(*req), sql.scope_eq_t@) + frag_sqls(fs) + when_clause(
                    starred_only(*req),
                    "t.starred_at IS NOT NULL"@,
                )
                &&& r->Ok_0.param_views() == fts_in_params(fts@, *req) + track_base_params(*req)
                    + frag_params(fs)
                &&& name_set(final(applied)@) == name_set(old(applied)@).insert("text"@).union(
                    frag_fields(fs),
                ).union(when_name(starred_only(*req), "starred"@))
            },
        },
{
    insert_applied(applied, "text");
    let scope = trimmed_nonempty(opt_as_str(&req.library_scope));
    let mut w = WhereBuilder::new();
    push_fts_in(&mut w, req, &scope, fts, sql, limit, offset);
    w.push_raw("t.deleted = 0");
    w.push_param("t.server_id = ?", SqlValue::Text(req.server_id.clone()));
    w.push_raw("t.album_id IS NOT NULL AND t.album_id != ''");
    push_scope(&mut w, &scope, sql.scope_eq_t.as_str());
    push_scalar_clauses(&mut w, applied, req.filters.as_slice(), scalar, EntityKind::Track, sql.bpm_t.as_str())?;
    push_starred(&mut w, applied, req.starred_only, "t.starred_at IS NOT NULL");
    proof {
        let fs = resolve_all_spec(scalar_of(*req, scalar@), EntityKind::Track, sql.bpm_t@)->Ok_0;
        assert(w.clause_views() =~= seq![
            fts_in_clause(dedupe_pool(limit, offset), scope_of(*req), *sql),
            "t.deleted = 0"@,
            "t.server_id = ?"@,
            "t.album_id IS NOT NULL AND t.album_id != ''"@,
        ] + scope_clause(scope_of(*req), sql.scope_eq_t@) + frag_sqls(fs) + when_clause(
            starred_only(*req),
            "t.starred_at IS NOT NULL"@,
        ));
        assert(w.param_views() =~= fts_in_params(fts@, *req) + track_base_params(*req) + frag_params(fs));
    }
    Ok(w)
}

/// The artist search by text when the artist table has no match: as for
/// albums, keyed by artist id, without the starred filter.
pub fn build_artist_fts_query(
    req: &LibraryAdvancedSearchRequest,
    scalar: &[usize],
    fts: &str,
    sql: &SearchSql,
    limit: u32,
    offset: u32,
    applied: &mut Vec<String>,
) -> (r: Result<WhereBuilder, String>)
    requires
        indices_in(scalar@, req.filters@.len()),
    ensures
        views(old(applied)@).no_duplicates() ==> views(final(applied)@).no_duplicates(),
        match resolve_all_spec(scalar_of(*req, scalar@), EntityKind::Track, sql.bpm_t@) {
            Err(m) => {
                &&& r is Err
                &&& r->Err_0@ == m
                &&& name_set(final(applied)@) == name_set(old(applied)@).insert("text"@).union(
                    partial_fields(scalar_of(*req, scalar@), EntityKind::Track, sql.bpm_t@),
                )
            },
            Ok(fs) => {
                &&& r is Ok
                &&& r->Ok_0.clause_views() == seq![
                    fts_in_clause(dedupe_pool(limit, offset), scope_of(*req), *sql),
                    "t.deleted = 0"@,
                    "t.server_id = ?"@,
                    "t.artist_id IS NOT NULL AND t.artist_id != ''"@,
                ] + scope_clause(scope_of(*req), sql.scope_eq_t@) + frag_sqls(fs)
                &&& r->Ok_0.param_views() == fts_in_params(fts@, *req) + track_base_params(*req)
                    + frag_params(fs)
                &&& name_set(final(applied)@) == name_set(old(applied)@).insert("text"@).union(
                    frag_fields(fs),
                )
            },
        },
{
    insert_applied(applied, "text");
    let scope = trimmed_nonempty(opt_as_str(&req.library_scope));
    let mut w = WhereBuilder::new();
    push_fts_in(&mut w, req, &scope, fts, sql, limit, offset);
    w.push_raw("t.deleted = 0");
    w.push_param("t.server_id = ?", SqlValue::Text(req.server_id.clone()));
    w.push_raw("t.artist_id IS NOT NULL AND t.artist_id != ''");
    push_scope(&mut w, &scope, sql.scope_eq_t.as_str());
    push_scalar_clauses(&mut w, applied, req.filters.as_slice(), scalar, EntityKind::Track, sql.bpm_t.as_str())?;
    proof {
        let fs = resolve_all_spec(scalar_of(*req, scalar@), EntityKind::Track, sql.bpm_t@)->Ok_0;
        assert(w.clause_views() =~= seq![
            fts_in_clause(dedupe_pool(limit, offset), scope_of(*req), *sql),
            "t.deleted = 0"@,
            "t.server_id = ?"@,
            "t.artist_id IS NOT NULL AND t.artist_id != ''"@,
        ] + scope_clause(scope_of(*req), sql.scope_eq_t@) + frag_sqls(fs));
        assert(w.param_views() =~= fts_in_params(fts@, *req) + track_base_params(*req) + frag_params(fs));
    }
    Ok(w)
}

// ── FTS dedupe and paging ──────────────────────────────────────────────

/// Positions of the first row of each key, in row order.
pub open spec fn first_rows(keys: Seq<Seq<char>>) -> Seq<int>
    decreases keys.len(),
{
    if keys.len() == 0 {
        Seq::empty()
    } else {
        let prev = first_rows(keys.drop_last());
        if keys.drop_last().contains(keys.last()) {
            prev
        } else {
            prev.push(keys.len() - 1)
        }
    }
}

pub proof fn lemma_first_rows_prefix(keys: Seq<Seq<char>>, j: int)
    requires
        0 <= j <= keys.len(),
    ensures
        first_rows(keys.take(j)).len() <= first_rows(keys).len(),
        first_rows(keys).take(first_rows(keys.take(j)).len() as int) == first_rows(keys.take(j)),
    decreases keys.len() - j,
{
    if j == keys.len() {
        assert(keys.take(j) =~= keys);
        assert(first_rows(keys).take(first_rows(keys).len() as int) =~= first_rows(keys));
    } else {
        lemma_first_rows_prefix(keys, j + 1);
        assert(keys.take(j + 1).drop_last() =~= keys.take(j));
        let a = first_rows(keys.take(j));
        let b = first_rows(keys.take(j + 1));
        assert(b.take(a.len() as int) =~= a);
        assert(first_rows(keys).take(a.len() as int) =~= b.take(a.len() as int));
    }
}

/// Every kept row position points into the rows.
pub proof fn lemma_first_rows_in_range(keys: Seq<Seq<char>>)
    ensures
        forall|k: int| 0 <= k < first_rows(keys).len() ==> 0 <= #[trigger] first_rows(keys)[k] < keys.len(),
    decreases keys.len(),
{
    if keys.len() > 0 {
        let prev = keys.drop_last();
        lemma_first_rows_in_range(prev);
        assert forall|k: int| 0 <= k < first_rows(keys).len() implies 0 <= #[trigger] first_rows(keys)[k] < keys.len() by {
            if k < first_rows(prev).len() {
                assert(first_rows(keys)[k] == first_rows(prev)[k]);
            }
        }
    }
}

/// The page of a deduplicated FTS result: `rows` are the positions, in
/// row order, of the first row of each key, at most `max(need, 1)` of them;
/// the page is `offset` rows in, `limit` long; the total is their count
/// unless totals are skipped.
pub open spec fn dedupe_rows_spec(keys: Seq<Seq<char>>, need: nat) -> Seq<int> {
    let cap: int = if need == 0 { 1 } else { need as int };
    if first_rows(keys).len() <= cap {
        first_rows(keys)
    } else {
        first_rows(keys).take(cap)
    }
}

pub open spec fn page_of(rows: Seq<int>, offset: nat, limit: nat) -> Seq<int> {
    if offset >= rows.len() {
        Seq::empty()
    } else if offset + limit >= rows.len() {
        rows.subrange(offset as int, rows.len() as int)
    } else {
        rows.subrange(offset as int, (offset + limit) as int)
    }
}

fn keys_contain(keys: &[String], upto: usize, key: &str) -> (r: bool)
    requires
        upto <= keys@.len(),
    ensures
        r == views(keys@).take(upto as int).contains(key@),
{
    let mut i: usize = 0;
    while i < upto
        invariant
            i <= upto <= keys@.len(),
            forall|k: int| 0 <= k < i ==> keys@[k]@ != key@,
        decreases upto - i,
    {
        if str_eq(keys[i].as_str(), key) {
            assert(views(keys@).take(upto as int)[i as int] == key@);
            return true;
        }
        i += 1;
    }
    assert(!views(keys@).take(upto as int).contains(key@)) by {
        if views(keys@).take(upto as int).contains(key@) {
            let k = choose|k: int| 0 <= k < upto && views(keys@).take(upto as int)[k] == key@;
            assert(keys@[k]@ == key@);
        }
    }
    false
}

/// Deduplicate FTS rows by their key (album or artist id), keeping the
/// first row of each and stopping once `need` rows are kept (at least
/// one); then cut the page. Returns the page's row positions and the total.
pub fn dedupe_page(keys: &[String], need: u32, offset: u32, limit: u32, skip_totals: bool) -> (r: (
    Vec<usize>,
    u32,
))
    ensures
        r.0@.map_values(|i: usize| i as int) == page_of(
            dedupe_rows_spec(views(keys@), need as nat),
            offset as nat,
            limit as nat,
        ),
        r.1 == (if skip_totals {
            0
        } else {
            dedupe_rows_spec(views(keys@), need as nat).len()
        }),
        forall|k: int| 0 <= k < r.0@.len() ==> #[trigger] r.0@[k] < keys@.len(),
{
    let ghost ks = views(keys@);
    let cap: u32 = if need == 0 { 1 } else { need };
    let mut kept: Vec<usize> = Vec::new();
    let mut i: usize = 0;
    loop
        invariant_except_break
            i <= keys@.len(),
            ks == views(keys@),
            cap >= 1,
            cap == (if need == 0 { 1 } else { need }),
            kept@.map_values(|x: usize| x as int) == first_rows(ks.take(i as int)),
            kept@.len() < cap,
        ensures
            ks == views(keys@),
            kept@.map_values(|x: usize| x as int) == dedupe_rows_spec(ks, need as nat),
            kept@.len() <= cap,
        decreases keys.len() - i,
    {
        if i >= keys.len() {
            proof {
                assert(ks.take(i as int) =~= ks);
                assert(first_rows(ks) == kept@.map_values(|x: usize| x as int));
                assert(first_rows(ks).len() < cap);
                assert(dedupe_rows_spec(ks, need as nat) =~= first_rows(ks));
            }
            break;
        }
        proof {
            assert(ks.take(i + 1).drop_last() =~= ks.take(i as int));
            assert(ks.take(i + 1).last() == keys@[i as int]@);
        }
        if !keys_contain(keys, i, keys[i].as_str()) {
            kept.push(i);
            proof {
                assert(kept@.map_values(|x: usize| x as int) =~= first_rows(ks.take(i as int)).push(i as int));
            }
            if kept.len() >= cap as usize {
                proof {
                    lemma_first_rows_prefix(ks, i + 1);
                    assert(kept@.len() == cap);
                    assert(dedupe_rows_spec(ks, need as nat) =~= first_rows(ks).take(cap as int));
                }
                break;
            }
        }
        i += 1;
    }
    let total: u32 = if skip_totals { 0 } else { kept.len() as u32 };
    let mut page: Vec<usize> = Vec::new();
    let n = kept.len();
    let start: usize = if (offset as usize) < n { offset as usize } else { n };
    let end: usize = if (limit as usize) < n - start { start + limit as usize } else { n };
    let mut j: usize = start;
    while j < end
        invariant
            start <= j <= end <= n,
            n == kept@.len(),
            page@.map_values(|x: usize| x as int) == kept@.map_values(|x: usize| x as int).subrange(
                start as int,
                j as int,
            ),
        decreases end - j,
    {
        let ghost before = page@;
        page.push(kept[j]);
        proof {
            let km = kept@.map_values(|x: usize| x as int);
            assert(page@.map_values(|x: usize| x as int) =~= before.map_values(|x: usize| x as int).push(
                kept@[j as int] as int,
            ));
            assert(km.subrange(start as int, j + 1) =~= km.subrange(start as int, j as int).push(km[j as int]));
        }
        j += 1;
    }
    proof {
        let rows = kept@.map_values(|x: usize| x as int);
        assert(page@.map_values(|x: usize| x as int) =~= page_of(rows, offset as nat, limit as nat));
        lemma_first_rows_in_range(ks);
        assert forall|k: int| 0 <= k < page@.len() implies #[trigger] page@[k] < keys@.len() by {
            assert(page@.map_values(|x: usize| x as int)[k] == rows[start + k]);
            assert(rows[start + k] == dedupe_rows_spec(ks, need as nat)[start + k]);
            assert(dedupe_rows_spec(ks, need as nat)[start + k] == first_rows(ks)[start + k]);
        }
    }
    (page, total)
}

// ── running the request ────────────────────────────────────────────────

/// What a request asks for, once checked.
pub struct SearchPlan {
    pub input: SearchInput,
    /// The page size, clamped to `1..=page_limit_max`.
    pub limit: u32,
    pub want_artists: bool,
    pub want_albums: bool,
    pub want_tracks: bool,
}

impl SearchPlan {
    /// Whether any query runs: a text input that the full-text index cannot
    /// match (too short) answers with empty pages, zero totals and no
    /// applied filters.
    pub fn runs(&self, text_meets_min_len: bool) -> (r: bool)
        ensures
            r == (self.input.text is None || text_meets_min_len),
    {
        self.input.text.is_none() || text_meets_min_len
    }
}

fn wants(kinds: &Vec<EntityKind>, k: EntityKind) -> (r: bool)
    ensures
        r == kinds@.contains(k),
{
    let mut i: usize = 0;
    while i < kinds.len()
        invariant
            i <= kinds@.len(),
            forall|j: int| 0 <= j < i ==> kinds@[j] != k,
        decreases kinds.len() - i,
    {
        if kinds[i] == k {
            return true;
        }
        i += 1;
    }
    false
}

/// Check a request and work out what it asks for: its text and scalar
/// clauses (an unknown field or undeclared operator fails it), the page
/// size and the entities to query. Entities not asked for stay empty.
pub fn plan_advanced_search(req: &LibraryAdvancedSearchRequest, page_limit_max: u32) -> (r: Result<
    SearchPlan,
    String,
>)
    requires
        page_limit_max >= 1,
    ensures
        match first_clause_error(req.filters@) {
            Some(m) => r is Err && r->Err_0@ == m,
            None => {
                let p = r->Ok_0;
                &&& r is Ok
                &&& opt_string_view(p.input.text) == text_input_spec(
                    opt_string_view(req.query),
                    req.filters@,
                )
                &&& p.input.scalar@ == scalar_indices(req.filters@)
                &&& p.limit == clamp_spec(req.limit as int, 1, page_limit_max as int)
                &&& p.want_artists == req.entity_types@.contains(EntityKind::Artist)
                &&& p.want_albums == req.entity_types@.contains(EntityKind::Album)
                &&& p.want_tracks == req.entity_types@.contains(EntityKind::Track)
            },
        },
{
    let input = split_search_request(opt_as_str(&req.query), req.filters.as_slice())?;
    let limit = if req.limit < 1 {
        1
    } else if req.limit > page_limit_max {
        page_limit_max
    } else {
        req.limit
    };
    Ok(SearchPlan {
        input,
        limit,
        want_artists: wants(&req.entity_types, EntityKind::Artist),
        want_albums: wants(&req.entity_types, EntityKind::Album),
        want_tracks: wants(&req.entity_types, EntityKind::Track),
    })
}

/// Every scalar position indexes the request's filters.
pub proof fn lemma_scalar_indices_in(filters: Seq<LibraryFilterClause>)
    ensures
        indices_in(scalar_indices(filters), filters.len()),
    decreases filters.len(),
{
    if filters.len() > 0 {
        lemma_scalar_indices_in(filters.drop_last());
    }
}

/// Where an album or artist search reads its rows.
#[derive(Debug, Clone, Copy, PartialEq, Eq, Structural)]
pub enum EntitySource {
    /// The entity's own table.
    Table,
    /// Text search over tracks, one row per entity.
    Fts,
    /// Rows derived from tracks, grouped by entity.
    FromTracks,
}

pub open spec fn table_matched(table: Option<(usize, u32)>) -> bool {
    match table {
        Some((rows, total)) => rows > 0 || total > 0,
        None => false,
    }
}

pub open spec fn table_empty(table: Option<(usize, u32)>) -> bool {
    match table {
        Some((rows, total)) => rows == 0 && total == 0,
        None => false,
    }
}

/// The source to read next. `table` is what the table query gave, rows
/// and total, once it ran. The table is tried first unless a mood filter
/// forces track-derived rows; when it matched nothing the search falls back
/// to the FTS pick when the text has one, else to rows derived from tracks.
pub fn next_entity_source(track_derived: bool, table: Option<(usize, u32)>, has_fts: bool) -> (r:
    EntitySource)
    ensures
        !track_derived && table is None ==> r == EntitySource::Table,
        !track_derived && table_matched(table) ==> r == EntitySource::Table,
        (track_derived || table_empty(table)) ==> r == (if has_fts {
            EntitySource::Fts
        } else {
            EntitySource::FromTracks
        }),
{
    if !track_derived {
        match table {
            None => return EntitySource::Table,
            Some((rows, total)) => {
                if rows > 0 || total > 0 {
                    return EntitySource::Table;
                }
            },
        }
    }
    if has_fts {
        EntitySource::Fts
    } else {
        EntitySource::FromTracks
    }
}

/// Exact totals on FTS matches stop counting here.
pub const FTS_MATCH_COUNT_CAP: i64 = 10_001;

pub open spec fn count_sql_spec(from: Seq<char>, where_sql: Seq<char>) -> (Seq<char>, bool) {
    if contains_seq(from, "track_fts"@) {
        (
            "SELECT COUNT(*) FROM (SELECT 1 FROM "@ + from + " WHERE "@ + where_sql + " LIMIT ?)"@,
            true,
        )
    } else {
        ("SELECT COUNT(*) FROM "@ + from + " WHERE "@ + where_sql, false)
    }
}

/// The COUNT for a query's full match total, and whether it binds the cap
/// as its last parameter (FTS matches are counted up to
/// `FTS_MATCH_COUNT_CAP` only).
pub fn count_query(from: &str, where_sql: &str) -> (r: (String, bool))
    ensures
        (r.0@, r.1) == count_sql_spec(from@, where_sql@),
{
    let hay = chars_of(from);
    let needle = chars_of("track_fts");
    if contains_chars(hay.as_slice(), needle.as_slice()) {
        let s = String::from_str("SELECT COUNT(*) FROM (SELECT 1 FROM ").concat(from).concat(" WHERE ").concat(
            where_sql,
        ).concat(" LIMIT ?)");
        (s, true)
    } else {
        let s = String::from_str("SELECT COUNT(*) FROM ").concat(from).concat(" WHERE ").concat(where_sql);
        (s, false)
    }
}

/// A COUNT result as a total: negatives read as zero, the rest as `u32`.
pub fn count_total(n: i64) -> (r: u32)
    ensures
        r == (if n < 0 {
            0
        } else {
            n as u32
        }),
{
    if n < 0 {
        0
    } else {
        n as u32
    }
}

pub open spec fn page_sql_spec(
    cols: Seq<char>,
    from: Seq<char>,
    where_sql: Seq<char>,
    group: Option<Seq<char>>,
    order: Seq<char>,
) -> Seq<char> {
    "SELECT "@ + cols + " FROM "@ + from + " WHERE "@ + where_sql + (match group {
        Some(g) => " "@ + g,
        None => Seq::empty(),
    }) + " "@ + order + " LIMIT ? OFFSET ?"@
}

/// The paged SELECT; it binds the WHERE's parameters, then limit and offset.
pub fn page_query(cols: &str, from: &str, where_sql: &str, group: Option<&str>, order: &str) -> (r: String)
    ensures
        r@ == page_sql_spec(cols@, from@, where_sql@, opt_str_view(group), order@),
{
    let mut s = String::from_str("SELECT ").concat(cols).concat(" FROM ").concat(from).concat(" WHERE ").concat(
        where_sql,
    );
    if let Some(g) = group {
        s.append(" ");
        s.append(g);
    }
    s.concat(" ").concat(order).concat(" LIMIT ? OFFSET ?")
}

/// A bound value, copied.
pub fn copy_value(v: &SqlValue) -> (r: SqlValue)
    ensures
        r == *v,
{
    match v {
        SqlValue::Null => SqlValue::Null,
        SqlValue::Integer(i) => SqlValue::Integer(*i),
        SqlValue::Text(s) => SqlValue::Text(s.clone()),
    }
}

fn extend_values(out: &mut Vec<SqlValue>, vs: &[SqlValue])
    ensures
        final(out)@ == old(out)@ + vs@,
{
    let mut i: usize = 0;
    while i < vs.len()
        invariant
            i <= vs@.len(),
            out@ == old(out)@ + vs@.take(i as int),
        decreases vs.len() - i,
    {
        out.push(copy_value(&vs[i]));
        proof {
            assert(vs@.take(i + 1) =~= vs@.take(i as int).push(vs@[i as int]));
        }
        i += 1;
    }
    proof {
        assert(vs@.take(i as int) =~= vs@);
    }
}

/// Parameters of a paged query: its prefix (the FTS `MATCH` and pick
/// parameters of a ranked track search, else nothing), the WHERE's
/// parameters, then limit and offset when `paged`.
pub fn bind_params(prefix: &[SqlValue], where_params: &[SqlValue], limit: u32, offset: u32, paged: bool) -> (r:
    Vec<SqlValue>)
    ensures
        r@ == prefix@ + where_params@ + (if paged {
            seq![SqlValue::Integer(limit as i64), SqlValue::Integer(offset as i64)]
        } else {
            Seq::empty()
        }),
{
    let mut out: Vec<SqlValue> = Vec::new();
    extend_values(&mut out, prefix);
    extend_values(&mut out, where_params);
    if paged {
        out.push(SqlValue::Integer(limit as i64));
        out.push(SqlValue::Integer(offset as i64));
    }
    proof {
        assert(out@ =~= prefix@ + where_params@ + (if paged {
            seq![SqlValue::Integer(limit as i64), SqlValue::Integer(offset as i64)]
        } else {
            Seq::empty()
        }));
    }
    out
}

} // verus!
