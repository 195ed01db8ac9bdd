//! The configuration store: the entity, the mathematical model of the
//! persisted table, the store operations with their rules (key uniqueness,
//! built-in protection, enabled-only lookup), and the decision functions a
//! shell can drive against an outside database.

use crate::error::{is_bad_request, is_not_found, AppError};
use crate::utils::pagination::{PageRequest, PageResponse};
use crate::utils::text::{contains_sub, str_contains, str_eq};
use vstd::prelude::*;

verus! {

/// One configuration row. `id`, `create_time` and `update_time` are assigned
/// by the storage layer, never by callers; timestamps are held as plain
/// ticks of the storage clock.
#[derive(Debug)]
pub struct SysConfig {
    pub id: Option<i64>,
    pub param_name: String,
    pub param_key: String,
    pub param_value: String,
    pub type_: String,
    pub status: String,
    pub remark: Option<String>,
    pub create_time: Option<i64>,
    pub update_time: Option<i64>,
}

/// The mathematical image of a row.
pub ghost struct ConfigRow {
    pub id: Option<int>,
    pub param_name: Seq<char>,
    pub param_key: Seq<char>,
    pub param_value: Seq<char>,
    pub type_: Seq<char>,
    pub status: Seq<char>,
    pub remark: Option<Seq<char>>,
    pub create_time: Option<int>,
    pub update_time: Option<int>,
}

impl View for SysConfig {
    type V = ConfigRow;

    open spec fn view(&self) -> ConfigRow {
        ConfigRow {
            id: match self.id {
                Some(v) => Some(v as int),
                None => None,
            },
            param_name: self.param_name@,
            param_key: self.param_key@,
            param_value: self.param_value@,
            type_: self.type_@,
            status: self.status@,
            remark: match self.remark {
                Some(ref s) => Some(s@),
                None => None,
            },
            create_time: match self.create_time {
                Some(v) => Some(v as int),
                None => None,
            },
            update_time: match self.update_time {
                Some(v) => Some(v as int),
                None => None,
            },
        }
    }
}

impl Clone for SysConfig {
    /// A clone carries exactly the same fields.
    fn clone(&self) -> (r: Self)
        ensures
            r == *self,
    {
        SysConfig {
            id: self.id,
            param_name: self.param_name.clone(),
            param_key: self.param_key.clone(),
            param_value: self.param_value.clone(),
            type_: self.type_.clone(),
            status: self.status.clone(),
            remark: match &self.remark {
                Some(s) => Some(s.clone()),
                None => None,
            },
            create_time: self.create_time,
            update_time: self.update_time,
        }
    }
}

/// The optional substring filters of a listing request.
#[derive(Debug)]
pub struct ConfigQuery {
    pub param_name: Option<String>,
    pub param_key: Option<String>,
}

/// The mathematical image of a listing filter.
pub ghost struct QueryView {
    pub param_name: Option<Seq<char>>,
    pub param_key: Option<Seq<char>>,
}

impl View for ConfigQuery {
    type V = QueryView;

    open spec fn view(&self) -> QueryView {
        QueryView {
            param_name: match self.param_name {
                Some(ref s) => Some(s@),
                None => None,
            },
            param_key: match self.param_key {
                Some(ref s) => Some(s@),
                None => None,
            },
        }
    }
}

/// A row is built in when its `type` flag is `"Y"`; built-in rows can never
/// be deleted and their key can never be renamed.
pub open spec fn is_builtin(r: ConfigRow) -> bool {
    r.type_ == "Y"@
}

/// A row is enabled when its `status` flag is `"0"`; only enabled rows are
/// returned by value lookup.
pub open spec fn is_enabled(r: ConfigRow) -> bool {
    r.status == "0"@
}

/// The in-memory image of the persisted configuration table: the rows in
/// creation order, plus the storage clock that assigns ids and timestamps.
pub struct ConfigStore {
    pub rows: Vec<SysConfig>,
    pub clock: i64,
}

impl View for ConfigStore {
    type V = Seq<ConfigRow>;

    open spec fn view(&self) -> Seq<ConfigRow> {
        self.rows@.map_values(|c: SysConfig| c@)
    }
}

/// Structural facts the storage layer guarantees of a single row: id and
/// creation timestamp assigned, both below the clock.
pub open spec fn row_wf(r: ConfigRow, clock: int) -> bool {
    &&& r.id is Some
    &&& 0 <= r.id->Some_0 < clock
    &&& r.create_time is Some
    &&& 0 <= r.create_time->Some_0 < clock
}

/// Structural facts the storage layer guarantees of the whole table: every
/// row well formed, ids pairwise distinct, rows held in creation order.
pub open spec fn rows_wf(rows: Seq<ConfigRow>, clock: int) -> bool {
    &&& forall|i: int| 0 <= i < rows.len() ==> row_wf(#[trigger] rows[i], clock)
    &&& forall|i: int, j: int|
        #![trigger rows[i], rows[j]]
        0 <= i < j < rows.len() ==> rows[i].id != rows[j].id
    &&& forall|i: int, j: int|
        #![trigger rows[i], rows[j]]
        0 <= i < j < rows.len() ==> rows[i].create_time->Some_0 < rows[j].create_time->Some_0
}

impl ConfigStore {
    /// The store's structural invariant.
    pub open spec fn wf(&self) -> bool {
        &&& 0 <= self.clock
        &&& rows_wf(self@, self.clock as int)
    }

    /// An empty table.
    pub fn new() -> (r: ConfigStore)
        ensures
            r.wf(),
            r@ =~= Seq::<ConfigRow>::empty(),
            r.clock == 0,
    {
        ConfigStore { rows: Vec::new(), clock: 0 }
    }
}

/// The views of a sequence of rows.
pub open spec fn row_views(rows: Seq<SysConfig>) -> Seq<ConfigRow> {
    rows.map_values(|c: SysConfig| c@)
}

/// `r` satisfies the filters of `q`: each present filter must occur in the
/// corresponding field as a substring; an absent filter admits every row.
pub open spec fn row_matches(r: ConfigRow, q: QueryView) -> bool {
    &&& (q.param_name matches Some(p) ==> contains_sub(r.param_name, p))
    &&& (q.param_key matches Some(p) ==> contains_sub(r.param_key, p))
}

/// The rows among `rows[0..i]` that satisfy `q`, newest (highest creation
/// time, i.e. rightmost) first.
pub open spec fn matching_desc_from(rows: Seq<ConfigRow>, q: QueryView, i: int) -> Seq<ConfigRow>
    decreases i,
{
    if i <= 0 || i > rows.len() {
        Seq::empty()
    } else if row_matches(rows[i - 1], q) {
        seq![rows[i - 1]] + matching_desc_from(rows, q, i - 1)
    } else {
        matching_desc_from(rows, q, i - 1)
    }
}

/// All rows satisfying `q`, newest first: the order the listing returns.
pub open spec fn matching_desc(rows: Seq<ConfigRow>, q: QueryView) -> Seq<ConfigRow> {
    matching_desc_from(rows, q, rows.len() as int)
}

/// Failure text for a create whose key is already present.
pub open spec fn msg_key_exists() -> Seq<char> {
    "param key already exists"@
}

/// Failure text for renaming a built-in parameter's key.
pub open spec fn msg_builtin_rename() -> Seq<char> {
    "built-in parameters cannot have their key renamed"@
}

/// Failure text for deleting a built-in parameter.
pub open spec fn msg_builtin_delete() -> Seq<char> {
    "built-in parameters cannot be deleted"@
}

/// Failure text for a batch deletion that touches a built-in parameter.
pub open spec fn msg_batch_builtin() -> Seq<char> {
    "selection contains built-in parameters"@
}

/// Failure text for an update without an id.
pub open spec fn msg_id_required() -> Seq<char> {
    "param id must not be empty"@
}

/// Failure text for an update of an absent row.
pub open spec fn msg_not_found() -> Seq<char> {
    "param not found"@
}

/// Some row in `rows` already carries `key`.
pub open spec fn key_taken(rows: Seq<ConfigRow>, key: Seq<char>) -> bool {
    exists|i: int| 0 <= i < rows.len() && (#[trigger] rows[i]).param_key == key
}

/// The row the storage layer appends for a create at clock `t`: the caller's
/// fields with id and both timestamps assigned from `t`.
pub open spec fn created_row(c: ConfigRow, t: int) -> ConfigRow {
    ConfigRow {
        id: Some(t),
        param_name: c.param_name,
        param_key: c.param_key,
        param_value: c.param_value,
        type_: c.type_,
        status: c.status,
        remark: c.remark,
        create_time: Some(t),
        update_time: Some(t),
    }
}

/// The value of the first row at or after position `i` that carries `key`
/// and is enabled.
pub open spec fn lookup_from(rows: Seq<ConfigRow>, key: Seq<char>, i: int) -> Option<Seq<char>>
    decreases rows.len() - i,
{
    if i < 0 || i >= rows.len() {
        None
    } else if rows[i].param_key == key && is_enabled(rows[i]) {
        Some(rows[i].param_value)
    } else {
        lookup_from(rows, key, i + 1)
    }
}

/// The value the key lookup returns: that of the first enabled row carrying
/// `key`, absent when no such row exists.
pub open spec fn lookup_value(rows: Seq<ConfigRow>, key: Seq<char>) -> Option<Seq<char>> {
    lookup_from(rows, key, 0)
}

/// The filter view a listing request with these two optional patterns
/// stands for.
pub open spec fn query_view(param_name: Option<String>, param_key: Option<String>) -> QueryView {
    QueryView { param_name: opt_str_view(param_name), param_key: opt_str_view(param_key) }
}

/// The view of an optional string.
pub open spec fn opt_str_view(o: Option<String>) -> Option<Seq<char>> {
    match o {
        Some(s) => Some(s@),
        None => None,
    }
}

/// The create rule: a taken key is rejected as `BadRequest`, a fresh one is
/// admitted.
pub fn decide_add(key_exists: bool) -> (r: Result<(), AppError>)
    ensures
        key_exists ==> (r matches Err(e) && is_bad_request(e, msg_key_exists())),
        !key_exists ==> r is Ok,
{
    if key_exists {
        Err(AppError::BadRequest(String::from_str("param key already exists")))
    } else {
        Ok(())
    }
}

/// Whether some stored row already carries `key`.
fn key_taken_exec(rows: &Vec<SysConfig>, key: &String) -> (r: bool)
    ensures
        r == key_taken(row_views(rows@), key@),
{
    let n = rows.len();
    let mut i: usize = 0;
    while i < n
        invariant
            i <= n,
            n == rows@.len(),
            forall|j: int| 0 <= j < i ==> row_views(rows@)[j].param_key != key@,
        decreases n - i,
    {
        proof {
            assert(row_views(rows@)[i as int] == rows@[i as int]@);
        }
        if str_eq(rows[i].param_key.as_str(), key.as_str()) {
            return true;
        }
        i += 1;
    }
    false
}

/// Some row in `rows` carries the id `id`.
pub open spec fn has_id(rows: Seq<ConfigRow>, id: int) -> bool {
    exists|i: int| 0 <= i < rows.len() && (#[trigger] rows[i]).id == Some(id)
}

/// An update of `id` to `new_key` is blocked: the targeted row is built in
/// and the update would rename its key.
pub open spec fn update_blocked(rows: Seq<ConfigRow>, id: int, new_key: Seq<char>) -> bool {
    exists|i: int|
        0 <= i < rows.len() && (#[trigger] rows[i]).id == Some(id) && is_builtin(rows[i])
            && rows[i].param_key != new_key
}

/// A deletion of `id` is blocked: the targeted row is built in.
pub open spec fn delete_blocked(rows: Seq<ConfigRow>, id: int) -> bool {
    exists|i: int|
        0 <= i < rows.len() && (#[trigger] rows[i]).id == Some(id) && is_builtin(rows[i])
}

/// The row id `rid` stands in the id list `ids`.
pub open spec fn id_listed(ids: Seq<i64>, rid: Option<int>) -> bool {
    exists|j: int| 0 <= j < ids.len() && rid == Some((#[trigger] ids[j]) as int)
}

/// A batch deletion is blocked: some targeted row is built in.
pub open spec fn batch_blocked(rows: Seq<ConfigRow>, ids: Seq<i64>) -> bool {
    exists|i: int|
        0 <= i < rows.len() && id_listed(ids, (#[trigger] rows[i]).id) && is_builtin(rows[i])
}

/// The row an update writes over `prev` at clock `t`: name, key, value,
/// status and remark from the caller; id, type and creation time kept; the
/// update time refreshed.
pub open spec fn updated_row(prev: ConfigRow, c: ConfigRow, t: int) -> ConfigRow {
    ConfigRow {
        id: prev.id,
        param_name: c.param_name,
        param_key: c.param_key,
        param_value: c.param_value,
        type_: prev.type_,
        status: c.status,
        remark: c.remark,
        create_time: prev.create_time,
        update_time: Some(t),
    }
}

/// The rows among `rows[0..i]` that `keep` admits, in their stored order.
pub open spec fn kept_to(rows: Seq<ConfigRow>, keep: spec_fn(ConfigRow) -> bool, i: int) -> Seq<
    ConfigRow,
>
    decreases i,
{
    if i <= 0 || i > rows.len() {
        Seq::empty()
    } else if keep(rows[i - 1]) {
        kept_to(rows, keep, i - 1).push(rows[i - 1])
    } else {
        kept_to(rows, keep, i - 1)
    }
}

/// The rows of `rows` that `keep` admits, in their stored order.
pub open spec fn kept(rows: Seq<ConfigRow>, keep: spec_fn(ConfigRow) -> bool) -> Seq<ConfigRow> {
    kept_to(rows, keep, rows.len() as int)
}

/// Admits every row but the one carrying `id`.
pub open spec fn keeps_id(id: int) -> spec_fn(ConfigRow) -> bool {
    |r: ConfigRow| r.id != Some(id)
}

/// Admits every row whose id is not in `ids`.
pub open spec fn keeps_unlisted(ids: Seq<i64>) -> spec_fn(ConfigRow) -> bool {
    |r: ConfigRow| !id_listed(ids, r.id)
}

/// The table after a deletion of `id`.
pub open spec fn remove_by_id(rows: Seq<ConfigRow>, id: int) -> Seq<ConfigRow> {
    kept(rows, keeps_id(id))
}

/// The table after a batch deletion of `ids`.
pub open spec fn remove_by_ids(rows: Seq<ConfigRow>, ids: Seq<i64>) -> Seq<ConfigRow> {
    kept(rows, keeps_unlisted(ids))
}

/// Filtering a well-formed table leaves a well-formed table, and every
/// surviving row was a stored row.
proof fn lemma_kept_to_wf(rows: Seq<ConfigRow>, keep: spec_fn(ConfigRow) -> bool, i: int, clock: int)
    requires
        rows_wf(rows, clock),
        0 <= i <= rows.len(),
    ensures
        rows_wf(kept_to(rows, keep, i), clock),
        forall|k: int|
            0 <= k < kept_to(rows, keep, i).len() ==> exists|j: int|
                0 <= j < i && #[trigger] kept_to(rows, keep, i)[k] == rows[j],
    decreases i,
{
    if i <= 0 {
    } else {
        lemma_kept_to_wf(rows, keep, i - 1, clock);
        let prev = kept_to(rows, keep, i - 1);
        let cur = kept_to(rows, keep, i);
        if keep(rows[i - 1]) {
            assert(cur == prev.push(rows[i - 1]));
            assert forall|k: int| 0 <= k < cur.len() implies exists|j: int|
                0 <= j < i && #[trigger] cur[k] == rows[j] by {
                if k < prev.len() {
                    assert(cur[k] == prev[k]);
                    let j = choose|j: int| 0 <= j < i - 1 && #[trigger] prev[k] == rows[j];
                    assert(0 <= j < i && cur[k] == rows[j]);
                } else {
                    assert(cur[k] == rows[i - 1]);
                }
            }
            assert forall|a: int| 0 <= a < cur.len() implies row_wf(#[trigger] cur[a], clock) by {
                if a < prev.len() {
                    assert(row_wf(prev[a], clock));
                } else {
                    assert(cur[a] == rows[i - 1]);
                    assert(row_wf(rows[i - 1], clock));
                }
            }
            assert forall|a: int, b: int|
                #![trigger cur[a], cur[b]]
                0 <= a < b < cur.len() implies cur[a].id != cur[b].id
                && cur[a].create_time->Some_0 < cur[b].create_time->Some_0 by {
                if b < prev.len() {
                    assert(prev[a].id != prev[b].id);
                    assert(prev[a].create_time->Some_0 < prev[b].create_time->Some_0);
                } else {
                    assert(cur[b] == rows[i - 1]);
                    assert(cur[a] == prev[a]);
                    let j = choose|j: int| 0 <= j < i - 1 && #[trigger] prev[a] == rows[j];
                    assert(rows[j].id != rows[i - 1].id);
                    assert(rows[j].create_time->Some_0 < rows[i - 1].create_time->Some_0);
                }
            }
        } else {
            assert(cur == prev);
        }
    }
}

/// A row the filter admits survives the filtering.
pub proof fn lemma_kept_to_keeps(
    rows: Seq<ConfigRow>,
    keep: spec_fn(ConfigRow) -> bool,
    i: int,
    j: int,
)
    requires
        0 <= j < i <= rows.len(),
        keep(rows[j]),
    ensures
        kept_to(rows, keep, i).contains(rows[j]),
    decreases i,
{
    let prev = kept_to(rows, keep, i - 1);
    let cur = kept_to(rows, keep, i);
    if j == i - 1 {
        assert(cur[prev.len() as int] == rows[j]);
    } else {
        lemma_kept_to_keeps(rows, keep, i - 1, j);
        let k = choose|k: int| 0 <= k < prev.len() && prev[k] == rows[j];
        assert(cur[k] == rows[j]);
    }
}

/// Business keys are pairwise distinct across the table.
pub open spec fn keys_unique(rows: Seq<ConfigRow>) -> bool {
    forall|i: int, j: int|
        #![trigger rows[i], rows[j]]
        0 <= i < j < rows.len() ==> rows[i].param_key != rows[j].param_key
}

/// The pre-write existence check keeps business keys unique: an admitted
/// create never introduces a duplicate key.
pub proof fn lemma_create_preserves_key_uniqueness(rows: Seq<ConfigRow>, c: ConfigRow, t: int)
    requires
        keys_unique(rows),
        !key_taken(rows, c.param_key),
    ensures
        keys_unique(rows.push(created_row(c, t))),
{
    let post = rows.push(created_row(c, t));
    assert forall|i: int, j: int|
        #![trigger post[i], post[j]]
        0 <= i < j < post.len() implies post[i].param_key != post[j].param_key by {
        if j < rows.len() {
            assert(rows[i].param_key != rows[j].param_key);
        } else {
            assert(post[i] == rows[i]);
            if rows[i].param_key == c.param_key {
                assert(key_taken(rows, c.param_key));
            }
        }
    }
}

/// The filter of `q` as a predicate on rows.
pub open spec fn matches_pred(q: QueryView) -> spec_fn(ConfigRow) -> bool {
    |r: ConfigRow| row_matches(r, q)
}

/// Helper: the descending listing of the first `i` rows is as long as the
/// filtered prefix.
proof fn lemma_count_prefix(rows: Seq<ConfigRow>, q: QueryView, i: int)
    requires
        0 <= i <= rows.len(),
    ensures
        matching_desc_from(rows, q, i).len() == rows.take(i).filter(matches_pred(q)).len(),
    decreases i,
{
    reveal(Seq::filter);
    if i == 0 {
        assert(rows.take(0) =~= Seq::<ConfigRow>::empty());
    } else {
        lemma_count_prefix(rows, q, i - 1);
        assert(rows.take(i).drop_last() =~= rows.take(i - 1));
        assert(rows.take(i).last() == rows[i - 1]);
    }
}

/// The reported total is the number of rows satisfying the filter: every
/// matching row is counted whatever page is requested, and nothing else is.
pub proof fn lemma_total_is_filter_count(rows: Seq<ConfigRow>, q: QueryView)
    ensures
        matching_desc(rows, q).len() == rows.filter(matches_pred(q)).len(),
{
    lemma_count_prefix(rows, q, rows.len() as int);
    assert(rows.take(rows.len() as int) =~= rows);
}

/// Every listed row satisfies the filter, and every listed row is a stored
/// row: the listing invents nothing and lets nothing through the filter.
pub proof fn lemma_listed_rows_match(rows: Seq<ConfigRow>, q: QueryView, i: int, k: int)
    requires
        0 <= i <= rows.len(),
        0 <= k < matching_desc_from(rows, q, i).len(),
    ensures
        row_matches(matching_desc_from(rows, q, i)[k], q),
        exists|j: int| 0 <= j < i && matching_desc_from(rows, q, i)[k] == rows[j],
    decreases i,
{
    let cur = matching_desc_from(rows, q, i);
    if i <= 0 {
    } else if row_matches(rows[i - 1], q) {
        if k == 0 {
            assert(cur[0] == rows[i - 1]);
        } else {
            assert(cur[k] == matching_desc_from(rows, q, i - 1)[k - 1]);
            lemma_listed_rows_match(rows, q, i - 1, k - 1);
        }
    } else {
        lemma_listed_rows_match(rows, q, i - 1, k);
    }
}

/// With no filter set, the listing holds every stored row, newest first.
pub proof fn lemma_no_filter_lists_all(rows: Seq<ConfigRow>, q: QueryView, i: int)
    requires
        q.param_name is None,
        q.param_key is None,
        0 <= i <= rows.len(),
    ensures
        matching_desc_from(rows, q, i).len() == i,
        forall|k: int| 0 <= k < i ==> matching_desc_from(rows, q, i)[k] == rows[i - 1 - k],
    decreases i,
{
    if i > 0 {
        lemma_no_filter_lists_all(rows, q, i - 1);
        assert(row_matches(rows[i - 1], q));
        assert forall|k: int| 0 <= k < i implies matching_desc_from(rows, q, i)[k] == rows[i - 1
            - k] by {
            if k > 0 {
                assert(matching_desc_from(rows, q, i)[k] == matching_desc_from(rows, q, i - 1)[k
                    - 1]);
            }
        }
    }
}

/// Helper for the lookup laws: a scan that has not yet passed any row
/// carrying `key` ends at the appended enabled row.
proof fn lemma_lookup_push(rows: Seq<ConfigRow>, r2: ConfigRow, key: Seq<char>, i: int)
    requires
        0 <= i <= rows.len(),
        forall|j: int| 0 <= j < rows.len() ==> (#[trigger] rows[j]).param_key != key,
        r2.param_key == key,
        is_enabled(r2),
    ensures
        lookup_from(rows.push(r2), key, i) == Some(r2.param_value),
    decreases rows.len() - i,
{
    let s = rows.push(r2);
    if i == rows.len() {
        assert(s[i] == r2);
    } else {
        assert(s[i] == rows[i]);
        lemma_lookup_push(rows, r2, key, i + 1);
    }
}

/// A value lookup never answers from a disabled row: when every row
/// carrying `key` is disabled, the lookup is absent even though the key
/// exists.
pub proof fn lemma_disabled_value_absent(rows: Seq<ConfigRow>, key: Seq<char>)
    requires
        forall|j: int|
            0 <= j < rows.len() && (#[trigger] rows[j]).param_key == key ==> !is_enabled(rows[j]),
    ensures
        lookup_value(rows, key) is None,
{
    lemma_lookup_skip_all(rows, key, 0);
}

/// Helper: a scan over rows that never match both conditions yields none.
proof fn lemma_lookup_skip_all(rows: Seq<ConfigRow>, key: Seq<char>, i: int)
    requires
        0 <= i <= rows.len(),
        forall|j: int|
            0 <= j < rows.len() && (#[trigger] rows[j]).param_key == key ==> !is_enabled(rows[j]),
    ensures
        lookup_from(rows, key, i) is None,
    decreases rows.len() - i,
{
    if i < rows.len() {
        lemma_lookup_skip_all(rows, key, i + 1);
    }
}

/// A freshly created enabled row with a fresh key is visible to the value
/// lookup at once.
pub proof fn lemma_created_row_visible(rows: Seq<ConfigRow>, c: ConfigRow, t: int)
    requires
        !key_taken(rows, c.param_key),
        c.status == "0"@,
    ensures
        lookup_value(rows.push(created_row(c, t)), c.param_key) == Some(c.param_value),
{
    assert forall|j: int| 0 <= j < rows.len() implies (#[trigger] rows[j]).param_key
        != c.param_key by {
        if rows[j].param_key == c.param_key {
            assert(key_taken(rows, c.param_key));
        }
    }
    lemma_lookup_push(rows, created_row(c, t), c.param_key, 0);
}

/// A freshly created row that satisfies a filter is the first row the
/// listing returns: it is the newest.
pub proof fn lemma_created_row_listed(rows: Seq<ConfigRow>, c: ConfigRow, t: int, q: QueryView)
    requires
        row_matches(created_row(c, t), q),
    ensures
        matching_desc(rows.push(created_row(c, t)), q).len() >= 1,
        matching_desc(rows.push(created_row(c, t)), q)[0] == created_row(c, t),
{
    let s = rows.push(created_row(c, t));
    assert(s[s.len() - 1] == created_row(c, t));
}

/// An admitted update of a built-in row keeps its key, and every update
/// keeps the row's type flag and creation time.
pub proof fn lemma_update_preserves_builtin_key(
    rows: Seq<ConfigRow>,
    c: ConfigRow,
    i: int,
    t: int,
    id: int,
)
    requires
        0 <= i < rows.len(),
        rows[i].id == Some(id),
        is_builtin(rows[i]),
        !update_blocked(rows, id, c.param_key),
    ensures
        updated_row(rows[i], c, t).param_key == rows[i].param_key,
        updated_row(rows[i], c, t).type_ == rows[i].type_,
        updated_row(rows[i], c, t).create_time == rows[i].create_time,
{
    assert(!(0 <= i < rows.len() && rows[i].id == Some(id) && is_builtin(rows[i])
        && rows[i].param_key != c.param_key));
}

/// A built-in row survives any deletion: a blocked deletion leaves the
/// table unchanged, and an admitted one only ever removes the targeted
/// non-built-in row.
pub proof fn lemma_builtin_survives_delete(rows: Seq<ConfigRow>, id: int, i: int)
    requires
        0 <= i < rows.len(),
        is_builtin(rows[i]),
        !delete_blocked(rows, id),
    ensures
        remove_by_id(rows, id).contains(rows[i]),
{
    assert(keeps_id(id)(rows[i])) by {
        if rows[i].id == Some(id) {
            assert(delete_blocked(rows, id));
        }
    }
    lemma_kept_to_keeps(rows, keeps_id(id), rows.len() as int, i);
}

/// A built-in row survives any admitted batch deletion.
pub proof fn lemma_builtin_survives_batch_delete(rows: Seq<ConfigRow>, ids: Seq<i64>, i: int)
    requires
        0 <= i < rows.len(),
        is_builtin(rows[i]),
        !batch_blocked(rows, ids),
    ensures
        remove_by_ids(rows, ids).contains(rows[i]),
{
    assert(keeps_unlisted(ids)(rows[i])) by {
        if id_listed(ids, rows[i].id) {
            assert(batch_blocked(rows, ids));
        }
    }
    lemma_kept_to_keeps(rows, keeps_unlisted(ids), rows.len() as int, i);
}

/// Helper: a filter that admits every row filters nothing out.
proof fn lemma_keep_all(rows: Seq<ConfigRow>, keep: spec_fn(ConfigRow) -> bool, i: int)
    requires
        0 <= i <= rows.len(),
        forall|j: int| 0 <= j < rows.len() ==> keep(#[trigger] rows[j]),
    ensures
        kept_to(rows, keep, i) == rows.take(i),
    decreases i,
{
    if i <= 0 {
        assert(kept_to(rows, keep, i) =~= rows.take(i));
    } else {
        lemma_keep_all(rows, keep, i - 1);
        assert(kept_to(rows, keep, i) =~= rows.take(i));
    }
}

/// Deleting an id that no row carries is a no-op: the table is unchanged.
pub proof fn lemma_delete_absent_is_noop(rows: Seq<ConfigRow>, id: int)
    requires
        !has_id(rows, id),
    ensures
        remove_by_id(rows, id) == rows,
{
    assert forall|j: int| 0 <= j < rows.len() implies keeps_id(id)(#[trigger] rows[j]) by {
        if rows[j].id == Some(id) {
            assert(has_id(rows, id));
        }
    }
    lemma_keep_all(rows, keeps_id(id), rows.len() as int);
    assert(rows.take(rows.len() as int) =~= rows);
}

/// Two stored rows carrying the same id are the same row.
proof fn lemma_id_unique(rows: Seq<ConfigRow>, clock: int, a: int, b: int)
    requires
        rows_wf(rows, clock),
        0 <= a < rows.len(),
        0 <= b < rows.len(),
        rows[a].id == rows[b].id,
    ensures
        a == b,
{
    if a < b {
        assert(rows[a].id != rows[b].id);
    } else if b < a {
        assert(rows[b].id != rows[a].id);
    }
}

/// The slice of `s` a page request selects: up to `size` elements starting
/// at `offset`, clipped to the end of `s`.
pub open spec fn page_of(s: Seq<ConfigRow>, offset: int, size: int) -> Seq<ConfigRow> {
    if offset >= s.len() {
        Seq::empty()
    } else if offset + size >= s.len() {
        s.subrange(offset, s.len() as int)
    } else {
        s.subrange(offset, offset + size)
    }
}

/// The position of the row carrying `id`, if any.
fn find_by_id(rows: &Vec<SysConfig>, id: i64) -> (r: Option<usize>)
    ensures
        r matches Some(j) ==> j < rows@.len() && row_views(rows@)[j as int].id == Some(id as int),
        r is None ==> !has_id(row_views(rows@), id as int),
{
    let n = rows.len();
    let mut i: usize = 0;
    while i < n
        invariant
            i <= n,
            n == rows@.len(),
            forall|j: int| 0 <= j < i ==> (#[trigger] row_views(rows@)[j]).id != Some(id as int),
        decreases n - i,
    {
        proof {
            assert(row_views(rows@)[i as int] == rows@[i as int]@);
        }
        if let Some(v) = rows[i].id {
            if v == id {
                return Some(i);
            }
        }
        i += 1;
    }
    None
}

/// Whether `rid` stands in the id list `ids`.
fn ids_contain(ids: &[i64], rid: i64) -> (r: bool)
    ensures
        r == id_listed(ids@, Some(rid as int)),
{
    let m = ids.len();
    let mut j: usize = 0;
    while j < m
        invariant
            j <= m,
            m == ids@.len(),
            forall|k: int| 0 <= k < j ==> (#[trigger] ids@[k]) != rid,
        decreases m - j,
    {
        if ids[j] == rid {
            return true;
        }
        j += 1;
    }
    false
}

/// The update rule on the caller's id: an update without one is rejected
/// as `BadRequest` before the table is consulted.
pub fn require_id(id: Option<i64>) -> (r: Result<i64, AppError>)
    ensures
        id is None ==> (r matches Err(e) && is_bad_request(e, msg_id_required())),
        id matches Some(v) ==> r == Ok::<i64, AppError>(v),
{
    match id {
        None => Err(AppError::BadRequest(String::from_str("param id must not be empty"))),
        Some(v) => Ok(v),
    }
}

/// The update rule, from what the table holds of the targeted row: an
/// absent row is `NotFound`; renaming a built-in row's key is rejected as
/// `BadRequest`; everything else is admitted. `target` carries the stored
/// row's type flag and key.
pub fn decide_update(target: &Option<(String, String)>, new_key: &String) -> (r: Result<
    (),
    AppError,
>)
    ensures
        target is None ==> (r matches Err(e) && is_not_found(e, msg_not_found())),
        (target matches Some(p) && p.0@ == "Y"@ && p.1@ != new_key@) ==> (r matches Err(e)
            && is_bad_request(e, msg_builtin_rename())),
        (target matches Some(p) && !(p.0@ == "Y"@ && p.1@ != new_key@)) ==> r is Ok,
    {
    match target {
        None => Err(AppError::NotFound(String::from_str("param not found"))),
        Some(p) => {
            if str_eq(p.0.as_str(), "Y") && !str_eq(p.1.as_str(), new_key.as_str()) {
                Err(
                    AppError::BadRequest(
                        String::from_str("built-in parameters cannot have their key renamed"),
                    ),
                )
            } else {
                Ok(())
            }
        },
    }
}

/// The deletion rule, from the targeted row's type flag: a built-in row is
/// protected; an absent row is no obstacle.
pub fn decide_delete(target_type: &Option<String>) -> (r: Result<(), AppError>)
    ensures
        (target_type matches Some(t) && t@ == "Y"@) ==> (r matches Err(e) && is_bad_request(
            e,
            msg_builtin_delete(),
        )),
        !(target_type matches Some(t) && t@ == "Y"@) ==> r is Ok,
{
    match target_type {
        Some(t) => {
            if str_eq(t.as_str(), "Y") {
                Err(AppError::BadRequest(String::from_str("built-in parameters cannot be deleted")))
            } else {
                Ok(())
            }
        },
        None => Ok(()),
    }
}

/// The batch-deletion rule, from the type flags of every targeted row: one
/// built-in row among them blocks the whole batch.
pub fn decide_batch_delete(types: &Vec<String>) -> (r: Result<(), AppError>)
    ensures
        (exists|i: int| 0 <= i < types@.len() && (#[trigger] types@[i])@ == "Y"@) ==> (r matches Err(
            e,
        ) && is_bad_request(e, msg_batch_builtin())),
        !(exists|i: int| 0 <= i < types@.len() && (#[trigger] types@[i])@ == "Y"@) ==> r is Ok,
{
    let n = types.len();
    let mut i: usize = 0;
    while i < n
        invariant
            i <= n,
            n == types@.len(),
            forall|k: int| 0 <= k < i ==> (#[trigger] types@[k])@ != "Y"@,
        decreases n - i,
    {
        if str_eq(types[i].as_str(), "Y") {
            return Err(
                AppError::BadRequest(String::from_str("selection contains built-in parameters")),
            );
        }
        i += 1;
    }
    Ok(())
}

impl SysConfig {
    /// Decides whether this row satisfies the filters of `query`.
    pub fn matches_query(&self, query: &ConfigQuery) -> (r: bool)
        ensures
            r == row_matches(self@, query@),
    {
        let name_ok = match &query.param_name {
            Some(p) => str_contains(self.param_name.as_str(), p.as_str()),
            None => true,
        };
        let key_ok = match &query.param_key {
            Some(p) => str_contains(self.param_key.as_str(), p.as_str()),
            None => true,
        };
        name_ok && key_ok
    }

    /// Computes one page of the rows satisfying `query`, newest first, and
    /// the total number of matching rows. The total counts every matching
    /// row whatever page is requested, and a page never exceeds the
    /// requested size. An empty page is a normal outcome, not a failure.
    pub fn get_list(
        store: &ConfigStore,
        query: &ConfigQuery,
        page_request: &PageRequest,
    ) -> (r: Result<PageResponse<SysConfig>, AppError>)
        requires
            page_request.valid(),
            page_request.spec_offset() <= u64::MAX,
        ensures
            r is Ok,
            r->Ok_0.total == matching_desc(store@, query@).len(),
            row_views(r->Ok_0.records@) == page_of(
                matching_desc(store@, query@),
                page_request.spec_offset(),
                page_request.page_size as int,
            ),
            r->Ok_0.records@.len() <= page_request.page_size,
            r->Ok_0.current_page == page_request.current_page,
            r->Ok_0.page_size == page_request.page_size,
    {
        let offset = page_request.offset();
        let size = page_request.page_size;
        let ghost q = query@;
        let n = store.rows.len();
        let mut records: Vec<SysConfig> = Vec::new();
        let mut count: usize = 0;
        let mut i: usize = n;
        let ghost mut seen: Seq<ConfigRow> = Seq::empty();
        proof {
            assert(seen + matching_desc_from(store@, q, n as int) =~= matching_desc(store@, q));
        }
        while i > 0
            invariant
                i <= n,
                n == store.rows@.len(),
                n == store@.len(),
                q == query@,
                matching_desc(store@, q) == seen + matching_desc_from(store@, q, i as int),
                count == seen.len(),
                count <= n - i,
                row_views(records@) == page_of(seen, offset as int, size as int),
                records@.len() <= size,
            decreases i,
        {
            i -= 1;
            let row = &store.rows[i];
            let ghost rv = store@[i as int];
            proof {
                assert(rv == row@);
            }
            if row.matches_query(query) {
                proof {
                    assert(matching_desc_from(store@, q, i + 1) == seq![rv] + matching_desc_from(
                        store@,
                        q,
                        i as int,
                    ));
                    assert(seen + (seq![rv] + matching_desc_from(store@, q, i as int)) =~= (
                    seen.push(rv)) + matching_desc_from(store@, q, i as int));
                }
                if (count as u64) >= offset && (count as u64) - offset < size {
                    records.push(row.clone());
                    proof {
                        assert(page_of(seen.push(rv), offset as int, size as int) =~= page_of(
                            seen,
                            offset as int,
                            size as int,
                        ).push(rv));
                        assert(row_views(records@) =~= page_of(
                            seen.push(rv),
                            offset as int,
                            size as int,
                        ));
                    }
                } else {
                    proof {
                        assert(page_of(seen.push(rv), offset as int, size as int) =~= page_of(
                            seen,
                            offset as int,
                            size as int,
                        ));
                    }
                }
                count += 1;
                proof {
                    seen = seen.push(rv);
                }
            } else {
                proof {
                    assert(matching_desc_from(store@, q, i + 1) == matching_desc_from(
                        store@,
                        q,
                        i as int,
                    ));
                }
            }
        }
        proof {
            assert(seen + matching_desc_from(store@, q, 0) =~= seen);
            assert(seen == matching_desc(store@, q));
        }
        Ok(
            PageResponse {
                records,
                total: count as u64,
                current_page: page_request.current_page,
                page_size: page_request.page_size,
            },
        )
    }

    /// Creates a row. A key already present is rejected with `BadRequest`
    /// and leaves the table unchanged; otherwise the row is appended with
    /// id and timestamps assigned by the storage clock.
    pub fn add(store: &mut ConfigStore, config: &SysConfig) -> (r: Result<(), AppError>)
        requires
            old(store).wf(),
            old(store).clock < i64::MAX,
        ensures
            final(store).wf(),
            key_taken(old(store)@, config@.param_key) ==> (r matches Err(e) && is_bad_request(
                e,
                msg_key_exists(),
            ) && final(store)@ == old(store)@ && final(store).clock == old(store).clock),
            !key_taken(old(store)@, config@.param_key) ==> r is Ok && final(store)@ == old(
                store,
            )@.push(created_row(config@, old(store).clock as int)) && final(store).clock == old(
                store,
            ).clock + 1,
    {
        let exists_already = key_taken_exec(&store.rows, &config.param_key);
        match decide_add(exists_already) {
            Err(e) => Err(e),
            Ok(()) => {
                let t = store.clock;
                let row = SysConfig {
                    id: Some(t),
                    param_name: config.param_name.clone(),
                    param_key: config.param_key.clone(),
                    param_value: config.param_value.clone(),
                    type_: config.type_.clone(),
                    status: config.status.clone(),
                    remark: match &config.remark {
                        Some(s) => Some(s.clone()),
                        None => None,
                    },
                    create_time: Some(t),
                    update_time: Some(t),
                };
                store.rows.push(row);
                store.clock = t + 1;
                proof {
                    let pre = old(store)@;
                    let post = store@;
                    let c = t as int;
                    assert(post =~= pre.push(created_row(config@, c)));
                    assert forall|a: int| 0 <= a < post.len() implies row_wf(
                        #[trigger] post[a],
                        c + 1,
                    ) by {
                        if a < pre.len() {
                            assert(row_wf(pre[a], c));
                        }
                    }
                    assert forall|a: int, b: int|
                        #![trigger post[a], post[b]]
                        0 <= a < b < post.len() implies post[a].id != post[b].id && post[a].create_time->Some_0
                        < post[b].create_time->Some_0 by {
                        if b < pre.len() {
                            assert(pre[a].id != pre[b].id);
                            assert(pre[a].create_time->Some_0 < pre[b].create_time->Some_0);
                        } else {
                            assert(row_wf(pre[a], c));
                        }
                    }
                }
                Ok(())
            },
        }
    }

    /// Looks the value of `key` up: returns it only for an enabled row;
    /// a disabled or absent key yields an absent value, not a failure.
    pub fn get_value(store: &ConfigStore, key: &str) -> (r: Result<Option<String>, AppError>)
        ensures
            r is Ok,
            opt_str_view(r->Ok_0) == lookup_value(store@, key@),
    {
        let n = store.rows.len();
        let mut i: usize = 0;
        while i < n
            invariant
                i <= n,
                n == store.rows@.len(),
                n == store@.len(),
                lookup_value(store@, key@) == lookup_from(store@, key@, i as int),
            decreases n - i,
        {
            let row = &store.rows[i];
            proof {
                assert(store@[i as int] == row@);
            }
            if str_eq(row.param_key.as_str(), key) && str_eq(row.status.as_str(), "0") {
                return Ok(Some(row.param_value.clone()));
            }
            proof {
                assert(lookup_from(store@, key@, i as int) == lookup_from(store@, key@, i + 1));
            }
            i += 1;
        }
        Ok(None)
    }

    /// Updates the row carrying `config.id` in place: name, key, value,
    /// status and remark are written; the type flag and creation time are
    /// never mutated. An absent id is `BadRequest`; an absent row is
    /// `NotFound`; renaming a built-in row's key is `BadRequest`. Every
    /// failure leaves the table unchanged.
    pub fn update(store: &mut ConfigStore, config: &SysConfig) -> (r: Result<(), AppError>)
        requires
            old(store).wf(),
            old(store).clock < i64::MAX,
        ensures
            final(store).wf(),
            config.id is None ==> (r matches Err(e) && is_bad_request(e, msg_id_required())
                && final(store)@ == old(store)@ && final(store).clock == old(store).clock),
            (config.id matches Some(v) && !has_id(old(store)@, v as int)) ==> (r matches Err(e)
                && is_not_found(e, msg_not_found()) && final(store)@ == old(store)@
                && final(store).clock == old(store).clock),
            (config.id matches Some(v) && update_blocked(old(store)@, v as int, config@.param_key))
                ==> (r matches Err(e) && is_bad_request(e, msg_builtin_rename()) && final(store)@
                == old(store)@ && final(store).clock == old(store).clock),
            (config.id matches Some(v) && has_id(old(store)@, v as int) && !update_blocked(
                old(store)@,
                v as int,
                config@.param_key,
            )) ==> (r is Ok && final(store).clock == old(store).clock + 1 && exists|i: int|
                0 <= i < old(store)@.len() && (#[trigger] old(store)@[i]).id == Some(
                    config.id->Some_0 as int,
                ) && final(store)@ == old(store)@.update(
                    i,
                    updated_row(old(store)@[i], config@, old(store).clock as int),
                )),
    {
        let ghost pre = store@;
        let id = match require_id(config.id) {
            Err(e) => {
                return Err(e);
            },
            Ok(v) => v,
        };
        let found = find_by_id(&store.rows, id);
        let target: Option<(String, String)> = match found {
            Some(i) => Some((store.rows[i].type_.clone(), store.rows[i].param_key.clone())),
            None => None,
        };
        proof {
            if let Some(i) = found {
                if !(is_builtin(pre[i as int]) && pre[i as int].param_key != config@.param_key) {
                    assert forall|j: int|
                        !(0 <= j < pre.len() && (#[trigger] pre[j]).id == Some(id as int)
                            && is_builtin(pre[j]) && pre[j].param_key != config@.param_key) by {
                        if 0 <= j < pre.len() && pre[j].id == Some(id as int) {
                            lemma_id_unique(pre, store.clock as int, j, i as int);
                        }
                    }
                }
            }
        }
        match decide_update(&target, &config.param_key) {
            Err(e) => Err(e),
            Ok(()) => {
                if let Some(i) = found {
                    let t = store.clock;
                    let prev_id = store.rows[i].id;
                    let prev_ct = store.rows[i].create_time;
                    let prev_type = store.rows[i].type_.clone();
                    let new_row = SysConfig {
                        id: prev_id,
                        param_name: config.param_name.clone(),
                        param_key: config.param_key.clone(),
                        param_value: config.param_value.clone(),
                        type_: prev_type,
                        status: config.status.clone(),
                        remark: match &config.remark {
                            Some(s) => Some(s.clone()),
                            None => None,
                        },
                        create_time: prev_ct,
                        update_time: Some(t),
                    };
                    store.rows.remove(i);
                    store.rows.insert(i, new_row);
                    store.clock = t + 1;
                    proof {
                        let c = t as int;
                        let post = store@;
                        let ur = updated_row(pre[i as int], config@, c);
                        assert(post =~= pre.update(i as int, ur));
                        assert forall|a: int| 0 <= a < post.len() implies row_wf(
                            #[trigger] post[a],
                            c + 1,
                        ) by {
                            assert(row_wf(pre[a], c));
                        }
                        assert forall|a: int, b: int|
                            #![trigger post[a], post[b]]
                            0 <= a < b < post.len() implies post[a].id != post[b].id
                            && post[a].create_time->Some_0 < post[b].create_time->Some_0 by {
                            assert(pre[a].id != pre[b].id);
                            assert(pre[a].create_time->Some_0 < pre[b].create_time->Some_0);
                        }
                        assert(pre[i as int].id == Some(id as int));
                    }
                    Ok(())
                } else {
                    proof {
                        assert(false);
                    }
                    Err(AppError::DatabaseNotConnected)
                }
            },
        }
    }

    /// Deletes the row carrying `id`. A built-in row is protected and the
    /// table is left unchanged; an absent id is a no-op success.
    pub fn delete(store: &mut ConfigStore, id: i64) -> (r: Result<(), AppError>)
        requires
            old(store).wf(),
        ensures
            final(store).wf(),
            final(store).clock == old(store).clock,
            delete_blocked(old(store)@, id as int) ==> (r matches Err(e) && is_bad_request(
                e,
                msg_builtin_delete(),
            ) && final(store)@ == old(store)@),
            !delete_blocked(old(store)@, id as int) ==> (r is Ok && final(store)@ == remove_by_id(
                old(store)@,
                id as int,
            )),
    {
        let ghost pre = store@;
        let target_type: Option<String> = match find_by_id(&store.rows, id) {
            Some(i) => {
                proof {
                    if !is_builtin(pre[i as int]) {
                        assert forall|j: int|
                            !(0 <= j < pre.len() && (#[trigger] pre[j]).id == Some(id as int)
                                && is_builtin(pre[j])) by {
                            if 0 <= j < pre.len() && pre[j].id == Some(id as int) {
                                lemma_id_unique(pre, store.clock as int, j, i as int);
                            }
                        }
                    }
                }
                Some(store.rows[i].type_.clone())
            },
            None => None,
        };
        match decide_delete(&target_type) {
            Err(e) => Err(e),
            Ok(()) => {
                let n = store.rows.len();
                let ghost keep = keeps_id(id as int);
                let mut kept_rows: Vec<SysConfig> = Vec::new();
                let mut i: usize = 0;
                while i < n
                    invariant
                        i <= n,
                        n == store.rows@.len(),
                        store@ == pre,
                        keep == keeps_id(id as int),
                        row_views(kept_rows@) == kept_to(pre, keep, i as int),
                    decreases n - i,
                {
                    let row = &store.rows[i];
                    proof {
                        assert(pre[i as int] == row@);
                    }
                    let keep_it = match row.id {
                        Some(v) => v != id,
                        None => true,
                    };
                    proof {
                        assert(keep(pre[i as int]) == keep_it);
                    }
                    if keep_it {
                        kept_rows.push(row.clone());
                    }
                    proof {
                        assert(row_views(kept_rows@) =~= kept_to(pre, keep, i + 1));
                    }
                    i += 1;
                }
                store.rows = kept_rows;
                proof {
                    assert(store@ == remove_by_id(pre, id as int));
                    lemma_kept_to_wf(pre, keep, pre.len() as int, store.clock as int);
                }
                Ok(())
            },
        }
    }

    /// Deletes every row whose id stands in `ids`, all or nothing: one
    /// built-in row among them blocks the whole batch and the table is left
    /// unchanged.
    pub fn batch_delete(store: &mut ConfigStore, ids: &[i64]) -> (r: Result<(), AppError>)
        requires
            old(store).wf(),
        ensures
            final(store).wf(),
            final(store).clock == old(store).clock,
            batch_blocked(old(store)@, ids@) ==> (r matches Err(e) && is_bad_request(
                e,
                msg_batch_builtin(),
            ) && final(store)@ == old(store)@),
            !batch_blocked(old(store)@, ids@) ==> (r is Ok && final(store)@ == remove_by_ids(
                old(store)@,
                ids@,
            )),
    {
        let ghost pre = store@;
        let n = store.rows.len();
        let mut i: usize = 0;
        while i < n
            invariant
                i <= n,
                n == store.rows@.len(),
                store@ == pre,
                pre == old(store)@,
                store.wf(),
                store.clock == old(store).clock,
                forall|a: int|
                    0 <= a < i ==> !(id_listed(ids@, (#[trigger] pre[a]).id) && is_builtin(pre[a])),
            decreases n - i,
        {
            let row = &store.rows[i];
            proof {
                assert(pre[i as int] == row@);
            }
            if let Some(v) = row.id {
                if ids_contain(ids, v) && str_eq(row.type_.as_str(), "Y") {
                    return Err(
                        AppError::BadRequest(
                            String::from_str("selection contains built-in parameters"),
                        ),
                    );
                }
            }
            i += 1;
        }
        let ghost keep = keeps_unlisted(ids@);
        let mut kept_rows: Vec<SysConfig> = Vec::new();
        let mut i: usize = 0;
        while i < n
            invariant
                i <= n,
                n == store.rows@.len(),
                store@ == pre,
                keep == keeps_unlisted(ids@),
                row_views(kept_rows@) == kept_to(pre, keep, i as int),
            decreases n - i,
        {
            let row = &store.rows[i];
            proof {
                assert(pre[i as int] == row@);
            }
            let keep_it = match row.id {
                Some(v) => !ids_contain(ids, v),
                None => true,
            };
            proof {
                assert(keep(pre[i as int]) == keep_it);
            }
            if keep_it {
                kept_rows.push(row.clone());
            }
            proof {
                assert(row_views(kept_rows@) =~= kept_to(pre, keep, i + 1));
            }
            i += 1;
        }
        store.rows = kept_rows;
        proof {
            assert(store@ == remove_by_ids(pre, ids@));
            lemma_kept_to_wf(pre, keep, pre.len() as int, store.clock as int);
        }
        Ok(())
    }
}

} // verus!
