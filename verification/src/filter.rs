//! Filter field registry for advanced search: which fields exist, which
//! entities each one routes to, which operators it declares, and how a
//! comparison clause becomes a parameterised SQL fragment.

use vstd::prelude::*;

use crate::text::str_eq;

verus! {

#[derive(Debug, Clone, Copy, PartialEq, Eq, Hash, Structural)]
pub enum EntityKind {
    Track,
    Album,
    Artist,
}

#[derive(Debug, Clone, Copy, PartialEq, Eq, Hash, Structural)]
pub enum FilterOp {
    /// Full-text match; only valid on the `text` field.
    Fts,
    Eq,
    /// Membership in a list of values.
    In,
    Gte,
    Lte,
    Between,
    /// Boolean field: the value side is ignored, presence means `IS NOT NULL`.
    IsTrue,
}

/// Wire spelling of an operator.
pub open spec fn op_wire(op: FilterOp) -> Seq<char> {
    match op {
        FilterOp::Fts => "fts"@,
        FilterOp::Eq => "eq"@,
        FilterOp::In => "in"@,
        FilterOp::Gte => "gte"@,
        FilterOp::Lte => "lte"@,
        FilterOp::Between => "between"@,
        FilterOp::IsTrue => "is_true"@,
    }
}

/// Operator named by a wire spelling, if any.
pub open spec fn wire_op(w: Seq<char>) -> Option<FilterOp> {
    if w == "fts"@ {
        Some(FilterOp::Fts)
    } else if w == "eq"@ {
        Some(FilterOp::Eq)
    } else if w == "in"@ {
        Some(FilterOp::In)
    } else if w == "gte"@ {
        Some(FilterOp::Gte)
    } else if w == "lte"@ {
        Some(FilterOp::Lte)
    } else if w == "between"@ {
        Some(FilterOp::Between)
    } else if w == "is_true"@ {
        Some(FilterOp::IsTrue)
    } else {
        None
    }
}

impl FilterOp {
    /// Wire spelling, also used in error messages.
    pub fn as_str(self) -> (r: &'static str)
        ensures
            r@ == op_wire(self),
    {
        match self {
            FilterOp::Fts => "fts",
            FilterOp::Eq => "eq",
            FilterOp::In => "in",
            FilterOp::Gte => "gte",
            FilterOp::Lte => "lte",
            FilterOp::Between => "between",
            FilterOp::IsTrue => "is_true",
        }
    }

    /// Parse a wire operator; operators the builder does not implement
    /// (`neq`, `contains`, `is_false`, ...) give `None`.
    pub fn from_wire(wire: &str) -> (r: Option<FilterOp>)
        ensures
            r == wire_op(wire@),
    {
        if str_eq(wire, "fts") {
            Some(FilterOp::Fts)
        } else if str_eq(wire, "eq") {
            Some(FilterOp::Eq)
        } else if str_eq(wire, "in") {
            Some(FilterOp::In)
        } else if str_eq(wire, "gte") {
            Some(FilterOp::Gte)
        } else if str_eq(wire, "lte") {
            Some(FilterOp::Lte)
        } else if str_eq(wire, "between") {
            Some(FilterOp::Between)
        } else if str_eq(wire, "is_true") {
            Some(FilterOp::IsTrue)
        } else {
            None
        }
    }
}

#[derive(Debug, Clone, Copy, PartialEq, Eq, Hash, Structural)]
pub enum FilterStatus {
    /// Built into the SQL builder.
    V1,
    /// Schema and builder present, hidden from the first UI.
    SchemaV1UiLater,
    /// Reserved column, no builder yet.
    Planned,
    /// Out of scope.
    Future,
}

/// One registered filter field.
#[derive(Debug)]
pub struct FilterField {
    pub id: &'static str,
    pub entities: Vec<EntityKind>,
    pub ops: Vec<FilterOp>,
    pub status: FilterStatus,
}

/// What a filter field is, mathematically.
pub struct FieldView {
    pub id: Seq<char>,
    pub entities: Seq<EntityKind>,
    pub ops: Seq<FilterOp>,
    pub status: FilterStatus,
}

impl View for FilterField {
    type V = FieldView;

    open spec fn view(&self) -> FieldView {
        FieldView { id: self.id@, entities: self.entities@, ops: self.ops@, status: self.status }
    }
}

pub open spec fn fv(
    id: Seq<char>,
    entities: Seq<EntityKind>,
    ops: Seq<FilterOp>,
    status: FilterStatus,
) -> FieldView {
    FieldView { id, entities, ops, status }
}

/// The registry, in order.
pub open spec fn registry() -> Seq<FieldView> {
    seq![
        fv(
            "text"@,
            seq![EntityKind::Track, EntityKind::Album, EntityKind::Artist],
            seq![FilterOp::Fts],
            FilterStatus::V1,
        ),
        fv("genre"@, seq![EntityKind::Track, EntityKind::Album], seq![FilterOp::Eq], FilterStatus::V1),
        fv(
            "year"@,
            seq![EntityKind::Track, EntityKind::Album],
            seq![FilterOp::Gte, FilterOp::Lte, FilterOp::Between],
            FilterStatus::V1,
        ),
        fv(
            "starred"@,
            seq![EntityKind::Track, EntityKind::Album, EntityKind::Artist],
            seq![FilterOp::IsTrue],
            FilterStatus::V1,
        ),
        fv(
            "user_rating"@,
            seq![EntityKind::Track],
            seq![FilterOp::Gte, FilterOp::Eq],
            FilterStatus::Planned,
        ),
        fv(
            "suffix"@,
            seq![EntityKind::Track],
            seq![FilterOp::Eq, FilterOp::In],
            FilterStatus::Planned,
        ),
        fv(
            "bit_rate"@,
            seq![EntityKind::Track],
            seq![FilterOp::Gte, FilterOp::Lte, FilterOp::Between],
            FilterStatus::Planned,
        ),
        fv(
            "bpm"@,
            seq![EntityKind::Track],
            seq![FilterOp::Gte, FilterOp::Lte, FilterOp::Between],
            FilterStatus::V1,
        ),
        fv(
            "mood_group"@,
            seq![EntityKind::Track],
            seq![FilterOp::Eq, FilterOp::In],
            FilterStatus::SchemaV1UiLater,
        ),
        fv(
            "mood_tag"@,
            seq![EntityKind::Track],
            seq![FilterOp::Eq, FilterOp::In],
            FilterStatus::SchemaV1UiLater,
        ),
    ]
}

pub open spec fn registry_ids() -> Seq<Seq<char>> {
    registry().map_values(|f: FieldView| f.id)
}

/// The field registered under `id`.
pub open spec fn lookup_spec(id: Seq<char>) -> Option<FieldView> {
    match registry_ids().index_of_first(id) {
        Some(k) => Some(registry()[k]),
        None => None,
    }
}

/// The registry. Adding a row here is all it takes to expose a new filter
/// field.
pub fn filter_field_registry() -> (r: Vec<FilterField>)
    ensures
        r@.len() == registry().len(),
        forall|i: int| 0 <= i < r@.len() ==> (#[trigger] r@[i])@ == registry()[i],
{
    let r = vec![
        FilterField {
            id: "text",
            entities: vec![EntityKind::Track, EntityKind::Album, EntityKind::Artist],
            ops: vec![FilterOp::Fts],
            status: FilterStatus::V1,
        },
        FilterField {
            id: "genre",
            entities: vec![EntityKind::Track, EntityKind::Album],
            ops: vec![FilterOp::Eq],
            status: FilterStatus::V1,
        },
        FilterField {
            id: "year",
            entities: vec![EntityKind::Track, EntityKind::Album],
            ops: vec![FilterOp::Gte, FilterOp::Lte, FilterOp::Between],
            status: FilterStatus::V1,
        },
        FilterField {
            id: "starred",
            entities: vec![EntityKind::Track, EntityKind::Album, EntityKind::Artist],
            ops: vec![FilterOp::IsTrue],
            status: FilterStatus::V1,
        },
        FilterField {
            id: "user_rating",
            entities: vec![EntityKind::Track],
            ops: vec![FilterOp::Gte, FilterOp::Eq],
            status: FilterStatus::Planned,
        },
        FilterField {
            id: "suffix",
            entities: vec![EntityKind::Track],
            ops: vec![FilterOp::Eq, FilterOp::In],
            status: FilterStatus::Planned,
        },
        FilterField {
            id: "bit_rate",
            entities: vec![EntityKind::Track],
            ops: vec![FilterOp::Gte, FilterOp::Lte, FilterOp::Between],
            status: FilterStatus::Planned,
        },
        FilterField {
            id: "bpm",
            entities: vec![EntityKind::Track],
            ops: vec![FilterOp::Gte, FilterOp::Lte, FilterOp::Between],
            status: FilterStatus::V1,
        },
        FilterField {
            id: "mood_group",
            entities: vec![EntityKind::Track],
            ops: vec![FilterOp::Eq, FilterOp::In],
            status: FilterStatus::SchemaV1UiLater,
        },
        FilterField {
            id: "mood_tag",
            entities: vec![EntityKind::Track],
            ops: vec![FilterOp::Eq, FilterOp::In],
            status: FilterStatus::SchemaV1UiLater,
        },
    ];
    assert(r@[0]@.entities =~= registry()[0].entities);
    assert(r@[0]@.ops =~= registry()[0].ops);
    assert(r@[1]@.entities =~= registry()[1].entities);
    assert(r@[1]@.ops =~= registry()[1].ops);
    assert(r@[2]@.entities =~= registry()[2].entities);
    assert(r@[2]@.ops =~= registry()[2].ops);
    assert(r@[3]@.entities =~= registry()[3].entities);
    assert(r@[3]@.ops =~= registry()[3].ops);
    assert(r@[4]@.entities =~= registry()[4].entities);
    assert(r@[4]@.ops =~= registry()[4].ops);
    assert(r@[5]@.entities =~= registry()[5].entities);
    assert(r@[5]@.ops =~= registry()[5].ops);
    assert(r@[6]@.entities =~= registry()[6].entities);
    assert(r@[6]@.ops =~= registry()[6].ops);
    assert(r@[7]@.entities =~= registry()[7].entities);
    assert(r@[7]@.ops =~= registry()[7].ops);
    assert(r@[8]@.entities =~= registry()[8].entities);
    assert(r@[8]@.ops =~= registry()[8].ops);
    assert(r@[9]@.entities =~= registry()[9].entities);
    assert(r@[9]@.ops =~= registry()[9].ops);
    r
}

/// The field registered under `id`, if any.
pub fn lookup(id: &str) -> (r: Option<FilterField>)
    ensures
        match r {
            Some(f) => lookup_spec(id@) == Some(f@),
            None => lookup_spec(id@) is None,
        },
{
    let mut reg = filter_field_registry();
    let mut i: usize = 0;
    while i < reg.len()
        invariant
            i <= reg@.len(),
            reg@.len() == registry().len(),
            forall|k: int| 0 <= k < reg@.len() ==> (#[trigger] reg@[k])@ == registry()[k],
            forall|k: int| 0 <= k < i ==> registry_ids()[k] != id@,
        decreases reg.len() - i,
    {
        if str_eq(reg[i].id, id) {
            proof {
                assert(registry_ids()[i as int] == id@);
                registry_ids().index_of_first_ensures(id@);
            }
            let f = reg.remove(i);
            return Some(f);
        }
        i += 1;
    }
    proof {
        registry_ids().index_of_first_ensures(id@);
    }
    None
}

/// `x` is in `v`.
fn entity_in(v: &Vec<EntityKind>, x: EntityKind) -> (r: bool)
    ensures
        r == v@.contains(x),
{
    let mut i: usize = 0;
    while i < v.len()
        invariant
            i <= v@.len(),
            forall|k: int| 0 <= k < i ==> v@[k] != x,
        decreases v.len() - i,
    {
        if v[i] == x {
            return true;
        }
        i += 1;
    }
    false
}

/// `x` is in `v`.
fn op_in(v: &Vec<FilterOp>, x: FilterOp) -> (r: bool)
    ensures
        r == v@.contains(x),
{
    let mut i: usize = 0;
    while i < v.len()
        invariant
            i <= v@.len(),
            forall|k: int| 0 <= k < i ==> v@[k] != x,
        decreases v.len() - i,
    {
        if v[i] == x {
            return true;
        }
        i += 1;
    }
    false
}

/// A field applies to an entity when it routes there; a clause on a field
/// that does not route to the queried entity is skipped, not an error.
pub fn applies_to(field: &FilterField, entity: EntityKind) -> (r: bool)
    ensures
        r == field@.entities.contains(entity),
{
    entity_in(&field.entities, entity)
}

/// Why a filter clause could not be turned into SQL.
#[derive(Debug, Clone, PartialEq, Eq)]
pub enum FilterError {
    /// The field is not in the registry.
    UnknownField(String),
    /// The field is registered but has no SQL builder yet.
    NotQueryable(String),
    /// The operator is not declared for the field.
    UnsupportedOp { field: String, op: &'static str },
    /// The value side is missing or of the wrong type.
    BadValue { field: String, detail: String },
}

/// `ids` joined with `", "`.
pub open spec fn join_ids(ids: Seq<Seq<char>>) -> Seq<char>
    decreases ids.len(),
{
    if ids.len() == 0 {
        Seq::empty()
    } else if ids.len() == 1 {
        ids[0]
    } else {
        join_ids(ids.drop_last()) + ", "@ + ids.last()
    }
}

pub open spec fn unknown_field_text(field: Seq<char>) -> Seq<char> {
    "unknown filter field `"@ + field + "` (known: "@ + join_ids(registry_ids()) + ")"@
}

pub open spec fn not_queryable_text(field: Seq<char>) -> Seq<char> {
    "filter field `"@ + field + "` is registered but not queryable in v1"@
}

pub open spec fn unsupported_op_text(field: Seq<char>, op: Seq<char>) -> Seq<char> {
    "operator `"@ + op + "` is not supported for filter field `"@ + field + "`"@
}

pub open spec fn bad_value_text(field: Seq<char>, detail: Seq<char>) -> Seq<char> {
    "bad value for filter field `"@ + field + "`: "@ + detail
}

/// The human-readable message of an error.
pub open spec fn error_message(e: FilterError) -> Seq<char> {
    match e {
        FilterError::UnknownField(f) => unknown_field_text(f@),
        FilterError::NotQueryable(f) => not_queryable_text(f@),
        FilterError::UnsupportedOp { field, op } => unsupported_op_text(field@, op@),
        FilterError::BadValue { field, detail } => bad_value_text(field@, detail@),
    }
}

impl FilterError {
    /// Human-readable message (what the search command reports).
    pub fn message(&self) -> (r: String)
        ensures
            r@ == error_message(*self),
    {
        match self {
            FilterError::UnknownField(field) => {
                let reg = filter_field_registry();
                let mut known = String::new();
                let mut i: usize = 0;
                while i < reg.len()
                    invariant
                        i <= reg@.len(),
                        reg@.len() == registry().len(),
                        forall|k: int| 0 <= k < reg@.len() ==> (#[trigger] reg@[k])@ == registry()[k],
                        known@ == join_ids(registry_ids().take(i as int)),
                    decreases reg.len() - i,
                {
                    assert(registry_ids().take(i + 1).drop_last() =~= registry_ids().take(i as int));
                    if i > 0 {
                        known.append(", ");
                    }
                    known.append(reg[i].id);
                    i += 1;
                }
                assert(registry_ids().take(registry().len() as int) =~= registry_ids());
                let s = String::from_str("unknown filter field `");
                let s = s.concat(field.as_str());
                let s = s.concat("` (known: ");
                let s = s.concat(known.as_str());
                s.concat(")")
            },
            FilterError::NotQueryable(field) => {
                let s = String::from_str("filter field `");
                let s = s.concat(field.as_str());
                s.concat("` is registered but not queryable in v1")
            },
            FilterError::UnsupportedOp { field, op } => {
                let s = String::from_str("operator `");
                let s = s.concat(op);
                let s = s.concat("` is not supported for filter field `");
                let s = s.concat(field.as_str());
                s.concat("`")
            },
            FilterError::BadValue { field, detail } => {
                let s = String::from_str("bad value for filter field `");
                let s = s.concat(field.as_str());
                let s = s.concat("`: ");
                s.concat(detail.as_str())
            },
        }
    }
}

/// Check that `field_id` is registered and declares `op`; `Ok(true)` when
/// it routes to `entity`, `Ok(false)` when it does not (skip, not error).
pub fn validate_for_entity(field_id: &str, op: FilterOp, entity: EntityKind) -> (r: Result<
    bool,
    FilterError,
>)
    ensures
        match lookup_spec(field_id@) {
            None => r is Err && r->Err_0 is UnknownField && r->Err_0->UnknownField_0@ == field_id@,
            Some(f) => if !f.ops.contains(op) {
                &&& r is Err
                &&& r->Err_0 is UnsupportedOp
                &&& r->Err_0->UnsupportedOp_field@ == field_id@
                &&& r->Err_0->op@ == op_wire(op)
            } else {
                r == Ok::<bool, FilterError>(f.entities.contains(entity))
            },
        },
{
    let field = match lookup(field_id) {
        Some(f) => f,
        None => return Err(FilterError::UnknownField(String::from_str(field_id))),
    };
    if !op_in(&field.ops, op) {
        return Err(FilterError::UnsupportedOp { field: String::from_str(field_id), op: op.as_str() });
    }
    Ok(applies_to(&field, entity))
}

/// A value bound to a `?` placeholder.
#[derive(Debug, Clone, PartialEq, Eq)]
pub enum SqlValue {
    Null,
    Integer(i64),
    Text(String),
}

/// A WHERE-clause snippet and the values it binds, left to right. `sql`
/// only ever holds builder-supplied column expressions and operators.
#[derive(Debug, PartialEq)]
pub struct SqlFragment {
    pub sql: String,
    pub params: Vec<SqlValue>,
}

/// What a bound value is, mathematically.
pub enum SqlValueView {
    Null,
    Integer(i64),
    Text(Seq<char>),
}

pub open spec fn value_view(v: SqlValue) -> SqlValueView {
    match v {
        SqlValue::Null => SqlValueView::Null,
        SqlValue::Integer(i) => SqlValueView::Integer(i),
        SqlValue::Text(s) => SqlValueView::Text(s@),
    }
}

pub open spec fn values_view(vs: Seq<SqlValue>) -> Seq<SqlValueView> {
    vs.map_values(|v: SqlValue| value_view(v))
}

/// A fragment as its SQL text and the views of its bound values.
pub open spec fn frag_view(f: SqlFragment) -> (Seq<char>, Seq<SqlValueView>) {
    (f.sql@, values_view(f.params@))
}

/// The error for a missing value side.
pub open spec fn missing_value(field: Seq<char>, op: FilterOp, e: FilterError) -> bool {
    &&& e is BadValue
    &&& e->BadValue_field@ == field
    &&& e->BadValue_detail@ == "operator `"@ + op_wire(op) + "` requires a value"@
}

/// Build a comparison fragment for a trusted column expression `col`.
/// `eq`/`gte`/`lte`/`between` bind their operands, `is_true` ignores them and
/// tests `IS NOT NULL`; `between` is inclusive on both ends.
pub fn compare_fragment(
    field: &str,
    col: &str,
    op: FilterOp,
    value: Option<SqlValue>,
    value_to: Option<SqlValue>,
) -> (r: Result<SqlFragment, FilterError>)
    ensures
        match op {
            FilterOp::Eq | FilterOp::Gte | FilterOp::Lte => match value {
                Some(v) => r is Ok && r->Ok_0.sql@ == col@ + (match op {
                    FilterOp::Eq => " = ?"@,
                    FilterOp::Gte => " >= ?"@,
                    _ => " <= ?"@,
                }) && r->Ok_0.params@ == seq![v],
                None => r is Err && missing_value(field@, op, r->Err_0),
            },
            FilterOp::Between => match (value, value_to) {
                (Some(lo), Some(hi)) => r is Ok && r->Ok_0.sql@ == col@ + " BETWEEN ? AND ?"@
                    && r->Ok_0.params@ == seq![lo, hi],
                (None, _) => r is Err && missing_value(field@, op, r->Err_0),
                (Some(_), None) => r is Err && r->Err_0 is BadValue && r->Err_0->BadValue_field@ == field@
                    && r->Err_0->BadValue_detail@ == "operator `between` requires `valueTo`"@,
            },
            FilterOp::IsTrue => r is Ok && r->Ok_0.sql@ == col@ + " IS NOT NULL"@
                && r->Ok_0.params@.len() == 0,
            FilterOp::Fts | FilterOp::In => r is Err && r->Err_0 is UnsupportedOp
                && r->Err_0->UnsupportedOp_field@ == field@ && r->Err_0->op@ == op_wire(op),
        },
{
    match op {
        FilterOp::Eq | FilterOp::Gte | FilterOp::Lte => {
            let v = match value {
                Some(v) => v,
                None => return Err(missing_value_error(field, op)),
            };
            let suffix = match op {
                FilterOp::Eq => " = ?",
                FilterOp::Gte => " >= ?",
                _ => " <= ?",
            };
            let sql = String::from_str(col).concat(suffix);
            Ok(SqlFragment { sql, params: vec![v] })
        },
        FilterOp::Between => {
            let lo = match value {
                Some(v) => v,
                None => return Err(missing_value_error(field, op)),
            };
            let hi = match value_to {
                Some(v) => v,
                None => {
                    return Err(
                        FilterError::BadValue {
                            field: String::from_str(field),
                            detail: String::from_str("operator `between` requires `valueTo`"),
                        },
                    )
                },
            };
            let sql = String::from_str(col).concat(" BETWEEN ? AND ?");
            Ok(SqlFragment { sql, params: vec![lo, hi] })
        },
        FilterOp::IsTrue => {
            let sql = String::from_str(col).concat(" IS NOT NULL");
            Ok(SqlFragment { sql, params: Vec::new() })
        },
        FilterOp::Fts | FilterOp::In => Err(
            FilterError::UnsupportedOp { field: String::from_str(field), op: op.as_str() },
        ),
    }
}

fn missing_value_error(field: &str, op: FilterOp) -> (e: FilterError)
    ensures
        missing_value(field@, op, e),
{
    let detail = String::from_str("operator `").concat(op.as_str()).concat("` requires a value");
    FilterError::BadValue { field: String::from_str(field), detail }
}


/// Parsing the wire spelling of an operator gives the operator back.
pub proof fn law_op_wire_roundtrip(op: FilterOp)
    ensures
        wire_op(op_wire(op)) == Some(op),
{
    reveal_strlit("fts");
    reveal_strlit("eq");
    reveal_strlit("in");
    reveal_strlit("gte");
    reveal_strlit("lte");
    reveal_strlit("between");
    reveal_strlit("is_true");
    assert("fts"@[0] == 'f' && "fts"@.len() == 3);
    assert("eq"@[0] == 'e' && "eq"@.len() == 2);
    assert("in"@[0] == 'i' && "in"@.len() == 2);
    assert("gte"@[0] == 'g' && "gte"@.len() == 3);
    assert("lte"@[0] == 'l' && "lte"@.len() == 3);
    assert("between"@[0] == 'b' && "between"@.len() == 7);
    assert("is_true"@[0] == 'i' && "is_true"@.len() == 7);
}

/// No two registry rows share an id.
pub proof fn law_registry_ids_distinct()
    ensures
        registry_ids().no_duplicates(),
{
    reveal_strlit("text");
    reveal_strlit("genre");
    reveal_strlit("year");
    reveal_strlit("starred");
    reveal_strlit("user_rating");
    reveal_strlit("suffix");
    reveal_strlit("bit_rate");
    reveal_strlit("bpm");
    reveal_strlit("mood_group");
    reveal_strlit("mood_tag");
    let ids = registry_ids();
    assert forall|i: int, j: int| 0 <= i < ids.len() && 0 <= j < ids.len() && i != j implies ids[i]
        != ids[j] by {
        if ids[i] == ids[j] {
            assert(ids[i].len() == ids[j].len());
            assert(ids[i][0] == ids[j][0]);
            if ids[i].len() > 1 {
                assert(ids[i][1] == ids[j][1]);
            }
            if ids[i].len() > 5 {
                assert(ids[i][5] == ids[j][5]);
            }
        }
    }
}

/// Every registered field resolves through `lookup` to its own row.
pub proof fn law_lookup_registered(k: int)
    requires
        0 <= k < registry().len(),
    ensures
        lookup_spec(registry()[k].id) == Some(registry()[k]),
{
    law_registry_ids_distinct();
    let ids = registry_ids();
    assert(ids[k] == registry()[k].id);
    ids.index_of_first_ensures(registry()[k].id);
}

/// A field that takes a range (`between`) also takes either bound alone
/// (`gte` and `lte`).
pub proof fn law_range_fields_take_both_bounds(id: Seq<char>)
    ensures
        match lookup_spec(id) {
            Some(f) => f.ops.contains(FilterOp::Between) ==> f.ops.contains(FilterOp::Gte)
                && f.ops.contains(FilterOp::Lte),
            None => true,
        },
{
    registry_ids().index_of_first_ensures(id);
    match registry_ids().index_of_first(id) {
        Some(k) => {
            let f = registry()[k];
            if f.ops.contains(FilterOp::Between) {
                if f.ops == seq![FilterOp::Gte, FilterOp::Lte, FilterOp::Between] {
                    assert(f.ops[0] == FilterOp::Gte);
                    assert(f.ops[1] == FilterOp::Lte);
                } else {
                    let j = choose|j: int| 0 <= j < f.ops.len() && f.ops[j] == FilterOp::Between;
                    assert(f.ops[j] == FilterOp::Between);
                }
            }
        },
        None => {},
    }
}

/// Every row of the registry: its id, the entities it routes to, the
/// operators it declares and its status.
pub proof fn law_registry_rows()
    ensures
        registry() == seq![
            FieldView {
                id: "text"@,
                entities: seq![EntityKind::Track, EntityKind::Album, EntityKind::Artist],
                ops: seq![FilterOp::Fts],
                status: FilterStatus::V1,
            },
            FieldView {
                id: "genre"@,
                entities: seq![EntityKind::Track, EntityKind::Album],
                ops: seq![FilterOp::Eq],
                status: FilterStatus::V1,
            },
            FieldView {
                id: "year"@,
                entities: seq![EntityKind::Track, EntityKind::Album],
                ops: seq![FilterOp::Gte, FilterOp::Lte, FilterOp::Between],
                status: FilterStatus::V1,
            },
            FieldView {
                id: "starred"@,
                entities: seq![EntityKind::Track, EntityKind::Album, EntityKind::Artist],
                ops: seq![FilterOp::IsTrue],
                status: FilterStatus::V1,
            },
            FieldView {
                id: "user_rating"@,
                entities: seq![EntityKind::Track],
                ops: seq![FilterOp::Gte, FilterOp::Eq],
                status: FilterStatus::Planned,
            },
            FieldView {
                id: "suffix"@,
                entities: seq![EntityKind::Track],
                ops: seq![FilterOp::Eq, FilterOp::In],
                status: FilterStatus::Planned,
            },
            FieldView {
                id: "bit_rate"@,
                entities: seq![EntityKind::Track],
                ops: seq![FilterOp::Gte, FilterOp::Lte, FilterOp::Between],
                status: FilterStatus::Planned,
            },
            FieldView {
                id: "bpm"@,
                entities: seq![EntityKind::Track],
                ops: seq![FilterOp::Gte, FilterOp::Lte, FilterOp::Between],
                status: FilterStatus::V1,
            },
            FieldView {
                id: "mood_group"@,
                entities: seq![EntityKind::Track],
                ops: seq![FilterOp::Eq, FilterOp::In],
                status: FilterStatus::SchemaV1UiLater,
            },
            FieldView {
                id: "mood_tag"@,
                entities: seq![EntityKind::Track],
                ops: seq![FilterOp::Eq, FilterOp::In],
                status: FilterStatus::SchemaV1UiLater,
            },
        ],
{
}

/// A year, bpm or bit-rate clause validates with `gte`, `lte` or `between`,
/// and a year clause routes to tracks and albums.
pub proof fn law_numeric_fields_accept_ranges(id: Seq<char>, op: FilterOp)
    requires
        id == "year"@ || id == "bpm"@ || id == "bit_rate"@,
        op == FilterOp::Gte || op == FilterOp::Lte || op == FilterOp::Between,
    ensures
        lookup_spec(id) is Some,
        lookup_spec(id)->0.ops.contains(op),
        id == "year"@ ==> lookup_spec(id)->0.entities.contains(EntityKind::Track)
            && lookup_spec(id)->0.entities.contains(EntityKind::Album),
{
    let k: int = if id == "year"@ { 2 } else if id == "bpm"@ { 7 } else { 6 };
    law_lookup_registered(k);
    let f = registry()[k];
    assert(f.id == id);
    let j: int = if op == FilterOp::Gte { 0 } else if op == FilterOp::Lte { 1 } else { 2 };
    assert(f.ops[j] == op);
    if id == "year"@ {
        assert(f.entities[0] == EntityKind::Track);
        assert(f.entities[1] == EntityKind::Album);
    }
}

} // verus!
