//! What the store publishes, as far as a screen reads it.
//!
//! The store's own types are turned into these where a snapshot arrives. They
//! hold plain values: a decision made here is a decision about what is in
//! them, and nothing in it waits for anything.

use crate::clock::{Date, Moment, Time, UtcOffset};
use crate::ids::{BusyId, ConnId, Edition, QueryId, RunId, TemplateId};
use crate::json::Json;
use crate::search::{find, first_item};
use crate::text::{copy_of, join, joined, same_text, same_texts, some_text, texts};
use std::sync::Arc;
use vstd::prelude::*;

verus! {

// ── names of things in a database ──────────────────────────────────────────

/// A relation, by the path that leads to it.
#[derive(Debug, PartialEq, Eq)]
pub struct TableRef {
    pub path: Arc<Vec<String>>,
}

impl View for TableRef {
    type V = Seq<Seq<char>>;

    open spec fn view(&self) -> Seq<Seq<char>> {
        texts(self.path@)
    }
}

impl Clone for TableRef {
    fn clone(&self) -> (r: Self)
        ensures
            r == *self,
    {
        TableRef { path: Arc::clone(&self.path) }
    }
}

impl TableRef {
    pub fn new(path: Vec<String>) -> (r: Self)
        ensures
            r@ == texts(path@),
            r.path@ == path@,
    {
        TableRef { path: Arc::new(path) }
    }

    /// The last part of the path.
    pub open spec fn own_name(self) -> Seq<char> {
        if self@.len() == 0 {
            Seq::empty()
        } else {
            self@.last()
        }
    }

    /// What the relation is called within whatever holds it.
    pub fn name(&self) -> (r: &str)
        ensures
            r@ == self.own_name(),
    {
        let n: usize = self.path.len();
        if n == 0 {
            proof {
                reveal_strlit("");
                assert(""@ =~= Seq::<char>::empty());
            }
            ""
        } else {
            proof {
                assert(self@.last() == self.path@[n - 1]@);
            }
            self.path[n - 1].as_str()
        }
    }

    /// The whole path, with dots between its parts.
    pub fn dotted(&self) -> (r: String)
        ensures
            r@ == joined(self@, "."@),
    {
        join(&self.path, ".")
    }

    /// Whether two paths are the same.
    pub fn same(&self, other: &TableRef) -> (b: bool)
        ensures
            b == (self@ == other@),
    {
        same_texts(&self.path, &other.path)
    }
}

#[derive(Debug, Clone, Copy, PartialEq, Eq, Structural)]
pub enum NodeKind {
    /// The connection itself.
    Root,
    Namespace,
    Relation,
}

/// A node of a connection's tree, by the path that leads to it.
#[derive(Debug, PartialEq, Eq)]
pub struct NodeRef {
    pub kind: NodeKind,
    pub path: Arc<Vec<String>>,
}

impl Clone for NodeRef {
    fn clone(&self) -> (r: Self)
        ensures
            r == *self,
    {
        NodeRef { kind: self.kind, path: Arc::clone(&self.path) }
    }
}

impl NodeRef {
    pub fn new(kind: NodeKind, path: Vec<String>) -> (r: Self)
        ensures
            r.kind == kind,
            r.path@ == path@,
    {
        NodeRef { kind, path: Arc::new(path) }
    }

    /// The relation a node is, if it is one.
    pub open spec fn relation(self) -> Option<TableRef> {
        if self.kind == NodeKind::Relation {
            Some(TableRef { path: self.path })
        } else {
            None
        }
    }

    pub fn as_table(&self) -> (r: Option<TableRef>)
        ensures
            r == self.relation(),
    {
        match self.kind {
            NodeKind::Relation => Some(TableRef { path: Arc::clone(&self.path) }),
            _ => None,
        }
    }

    /// The same node.
    pub open spec fn is(self, other: NodeRef) -> bool {
        self.kind == other.kind && texts(self.path@) == texts(other.path@)
    }

    pub fn same(&self, other: &NodeRef) -> (b: bool)
        ensures
            b == self.is(*other),
    {
        self.kind == other.kind && same_texts(&self.path, &other.path)
    }
}

#[derive(Debug, Clone, Copy, PartialEq, Eq, Structural)]
pub enum RelationKind {
    Table,
    View,
    MaterializedView,
    Routine,
    External,
}

/// Whether a node is open, and what happened to it.
#[derive(Debug, PartialEq, Eq)]
pub enum NodeState {
    Leaf,
    Collapsed,
    Expanded,
    Loading,
    Failed(String),
}

impl NodeState {
    /// Everything but a leaf can be opened or closed.
    pub fn is_toggleable(&self) -> (b: bool)
        ensures
            b == !(self is Leaf),
    {
        match self {
            NodeState::Leaf => false,
            _ => true,
        }
    }

    pub fn is_expanded(&self) -> (b: bool)
        ensures
            b == (self is Expanded),
    {
        match self {
            NodeState::Expanded => true,
            _ => false,
        }
    }
}

/// One line of the explorer, before a search hides any.
#[derive(Debug, PartialEq, Eq)]
pub struct VisibleNode {
    pub conn: ConnId,
    pub depth: u16,
    pub label: String,
    pub node_ref: NodeRef,
    pub relation_kind: Option<RelationKind>,
    pub state: NodeState,
}

// ── values ─────────────────────────────────────────────────────────────────

/// A floating point number: its bits, and the two ways it can be printed.
#[derive(Debug, PartialEq, Eq)]
pub struct Float {
    /// Sign, exponent and fraction, as IEEE 754 lays a double out.
    pub bits: u64,
    /// Without an exponent.
    pub plain: String,
    /// With one.
    pub scientific: String,
}

/// One value of a relation.
#[derive(Debug, PartialEq, Eq)]
pub enum Value {
    Null,
    Bool(bool),
    Int(i64),
    Float(Float),
    /// Every digit, because a wider number than an integer holds is the reason
    /// a column has this type.
    Decimal(String),
    Text(String),
    Bytes(Vec<u8>),
    Date(Date),
    Time(Time),
    Timestamp { date: Date, time: Time },
    TimestampTz { date: Date, time: Time, offset: UtcOffset },
    Json(Json),
    Array(Vec<Value>),
    Struct(Vec<(String, Value)>),
    /// A type the driver could not decode.
    Opaque { type_label: String, text: String },
}

impl Value {
    pub open spec fn numeric(self) -> bool {
        self is Int || self is Float || self is Decimal
    }

    pub open spec fn composite(self) -> bool {
        self is Array || self is Struct || self is Json
    }

    pub fn is_numeric(&self) -> (b: bool)
        ensures
            b == self.numeric(),
    {
        match self {
            Value::Int(_) | Value::Float(_) | Value::Decimal(_) => true,
            _ => false,
        }
    }

    pub fn is_composite(&self) -> (b: bool)
        ensures
            b == self.composite(),
    {
        match self {
            Value::Array(_) | Value::Struct(_) | Value::Json(_) => true,
            _ => false,
        }
    }
}

/// A value, and the JSON an agent is sent for it.
#[derive(Debug, PartialEq, Eq)]
pub struct Datum {
    pub value: Value,
    pub json: Json,
}

impl Datum {
    /// Whether this is a text with these characters.
    pub open spec fn says(self, t: Seq<char>) -> bool {
        &&& self.value matches Value::Text(s) && s@ == t
        &&& self.json matches Json::Text(s) && s@ == t
    }

    /// Whether this is that text, or a null where there is none.
    pub open spec fn says_maybe(self, t: Option<Seq<char>>) -> bool {
        match t {
            Some(t) => self.says(t),
            None => self.value is Null && self.json is Null,
        }
    }

    /// A text, or a null where there is none.
    pub fn maybe(s: Option<String>) -> (r: Self)
        ensures
            r.says_maybe(some_text(s)),
    {
        match s {
            Some(s) => Datum::text(s),
            None => Datum::null(),
        }
    }

    pub fn null() -> (r: Self)
        ensures
            r.value == Value::Null,
            r.json == Json::Null,
    {
        Datum { value: Value::Null, json: Json::Null }
    }

    pub fn text(s: String) -> (r: Self)
        ensures
            r.says(s@),
            r.value == Value::Text(s),
            r.json == Json::Text(s),
    {
        let again: String = s.clone();
        Datum { value: Value::Text(s), json: Json::Text(again) }
    }
}

#[derive(Debug, PartialEq, Eq)]
pub struct Row(pub Vec<Datum>);

#[derive(Debug, PartialEq, Eq)]
pub struct Column {
    pub name: String,
    pub type_label: String,
    pub nullable: bool,
}

impl Column {
    pub fn new(name: &str, type_label: &str, nullable: bool) -> (r: Self)
        ensures
            r.name@ == name@,
            r.type_label@ == type_label@,
            r.nullable == nullable,
    {
        Column { name: copy_of(name), type_label: copy_of(type_label), nullable }
    }
}

/// The rows fetched so far.
#[derive(Debug, PartialEq, Eq)]
pub struct PagedResult {
    pub edition: Edition,
    pub columns: Vec<Column>,
    pub rows: Vec<Row>,
    /// How many of the rows came with the first page.
    pub first_page: usize,
    /// Rows in the relation, when the driver knew.
    pub total: Option<u64>,
}

impl PagedResult {
    /// A result whose rows all came at once.
    pub fn new(edition: Edition, columns: Vec<Column>, rows: Vec<Row>, total: Option<u64>) -> (r:
        Self)
        ensures
            r.edition == edition,
            r.columns == columns,
            r.rows == rows,
            r.first_page == rows@.len(),
            r.total == total,
    {
        let first_page: usize = rows.len();
        PagedResult { edition, columns, rows, first_page, total }
    }

    pub open spec fn datum_at(self, row: int, col: int) -> Option<Datum> {
        if 0 <= row < self.rows@.len() && 0 <= col < self.rows@[row].0@.len() {
            Some(self.rows@[row].0@[col])
        } else {
            None
        }
    }

    pub open spec fn value_at(self, row: int, col: int) -> Option<Value> {
        match self.datum_at(row, col) {
            Some(datum) => Some(datum.value),
            None => None,
        }
    }

    pub open spec fn json_at(self, row: int, col: int) -> Option<Json> {
        match self.datum_at(row, col) {
            Some(datum) => Some(datum.json),
            None => None,
        }
    }

    pub fn row_count(&self) -> (n: usize)
        ensures
            n == self.rows@.len(),
    {
        self.rows.len()
    }

    pub fn column_count(&self) -> (n: usize)
        ensures
            n == self.columns@.len(),
    {
        self.columns.len()
    }

    fn datum(&self, row: usize, col: usize) -> (r: Option<&Datum>)
        ensures
            match r {
                Some(d) => self.datum_at(row as int, col as int) == Some(*d),
                None => self.datum_at(row as int, col as int) is None,
            },
    {
        if row < self.rows.len() && col < self.rows[row].0.len() {
            Some(&self.rows[row].0[col])
        } else {
            None
        }
    }

    /// The value in a cell, or `None` when there is no such cell.
    pub fn value(&self, row: usize, col: usize) -> (r: Option<&Value>)
        ensures
            match r {
                Some(v) => self.value_at(row as int, col as int) == Some(*v),
                None => self.value_at(row as int, col as int) is None,
            },
    {
        match self.datum(row, col) {
            Some(datum) => Some(&datum.value),
            None => None,
        }
    }

    /// The same cell as an agent is sent it.
    pub fn json(&self, row: usize, col: usize) -> (r: Option<&Json>)
        ensures
            match r {
                Some(j) => self.json_at(row as int, col as int) == Some(*j),
                None => self.json_at(row as int, col as int) is None,
            },
    {
        match self.datum(row, col) {
            Some(datum) => Some(&datum.json),
            None => None,
        }
    }
}

#[derive(Debug, Clone, Copy, PartialEq, Eq, Structural)]
pub enum SortDir {
    Asc,
    Desc,
}

/// Which column the rows are ordered by.
#[derive(Debug, Clone, Copy, PartialEq, Eq, Structural)]
pub struct Sort {
    pub column: usize,
    pub dir: SortDir,
}

// ── definitions ────────────────────────────────────────────────────────────

#[derive(Debug, PartialEq, Eq)]
pub struct ColumnDetail {
    pub name: String,
    pub type_label: String,
    pub nullable: bool,
    pub default: Option<String>,
    pub comment: Option<String>,
}

/// One of the driver's own sections, and the rows under it.
#[derive(Debug, PartialEq, Eq)]
pub struct Section {
    pub title: String,
    pub table: Arc<PagedResult>,
}

/// What a relation is.
#[derive(Debug, PartialEq, Eq)]
pub struct TableDetail {
    pub edition: Edition,
    /// The word for what kind of relation it is.
    pub kind: String,
    pub comment: Option<String>,
    pub columns: Vec<ColumnDetail>,
    pub sections: Vec<Section>,
    /// The statement that would make the relation, if the driver can say it.
    pub ddl: Option<String>,
    pub stats: Vec<(String, String)>,
}

// ── the snapshot ───────────────────────────────────────────────────────────

/// How far something that has to be fetched has got.
#[derive(Debug, PartialEq, Eq)]
pub enum LoadState<T> {
    Idle,
    Loading,
    Ready(T),
    Failed(String),
}

impl<T> LoadState<T> {
    pub fn ready(&self) -> (r: Option<&T>)
        ensures
            match r {
                Some(t) => *self == LoadState::Ready(*t),
                None => !(self is Ready),
            },
    {
        match self {
            LoadState::Ready(t) => Some(t),
            _ => None,
        }
    }

    pub fn error(&self) -> (r: Option<&String>)
        ensures
            match r {
                Some(why) => *self == LoadState::<T>::Failed(*why),
                None => !(self is Failed),
            },
    {
        match self {
            LoadState::Failed(why) => Some(why),
            _ => None,
        }
    }
}

/// A profile that can be connected to, by the name of its own it goes by.
#[derive(Debug, PartialEq, Eq)]
pub struct ProfileId(pub String);

impl Clone for ProfileId {
    fn clone(&self) -> (r: Self)
        ensures
            r == *self,
    {
        ProfileId(self.0.clone())
    }
}

#[derive(Debug, Clone, Copy, PartialEq, Eq, Structural)]
pub enum ProfileColor {
    Red,
    Yellow,
    Green,
    Blue,
    Magenta,
    Cyan,
}

#[derive(Debug, PartialEq, Eq)]
pub struct Profile {
    pub id: ProfileId,
    pub name: String,
}

#[derive(Debug, PartialEq, Eq)]
pub enum ConnStatus {
    Connecting,
    Ready,
    Failed(String),
    Closed,
}

/// What a driver said it can do.
#[derive(Debug, Clone, Copy, PartialEq, Eq, Structural)]
pub struct Capabilities {
    /// Order a preview by a column.
    pub sort_preview: bool,
}

#[derive(Debug, PartialEq, Eq)]
pub struct ConnectionView {
    pub id: ConnId,
    pub profile: ProfileId,
    pub name: String,
    pub color: Option<ProfileColor>,
    pub status: ConnStatus,
    pub capabilities: Option<Capabilities>,
}

impl ConnectionView {
    /// Open, or on its way to being open.
    pub open spec fn live(self) -> bool {
        self.status is Connecting || self.status is Ready
    }

    pub fn is_live(&self) -> (b: bool)
        ensures
            b == self.live(),
    {
        match self.status {
            ConnStatus::Connecting | ConnStatus::Ready => true,
            _ => false,
        }
    }

    pub open spec fn sorts(self) -> bool {
        self.capabilities matches Some(c) && c.sort_preview
    }

    pub fn can_sort_preview(&self) -> (b: bool)
        ensures
            b == self.sorts(),
    {
        match &self.capabilities {
            Some(c) => c.sort_preview,
            None => false,
        }
    }
}

#[derive(Debug, PartialEq, Eq)]
pub struct PreviewView {
    pub conn: ConnId,
    pub table: TableRef,
    pub sort: Option<Sort>,
    pub loaded_rows: usize,
    /// Whether the relation's end has been reached.
    pub exhausted: bool,
    /// How many requests for a page have come back, one way or another.
    pub attempts: u64,
    pub data: LoadState<Arc<PagedResult>>,
    pub last_error: Option<String>,
}

#[derive(Debug, PartialEq, Eq)]
pub struct DefinitionView {
    pub conn: ConnId,
    pub table: TableRef,
    pub data: LoadState<Arc<TableDetail>>,
}

/// A statement that would cost more than was agreed to.
#[derive(Debug, PartialEq, Eq)]
pub struct OverBudget {
    pub sql: String,
    /// What it would read, when that is known.
    pub estimate: Option<u64>,
    pub budget: u64,
}

#[derive(Debug, PartialEq, Eq)]
pub struct QueryView {
    pub id: QueryId,
    pub conn: ConnId,
    pub needs_approval: Option<OverBudget>,
    pub data: LoadState<Arc<PagedResult>>,
    /// Which line of the statement the server objected to, counted from one.
    pub failed_at: Option<usize>,
}

#[derive(Debug, PartialEq, Eq)]
pub struct BusyItem {
    pub id: BusyId,
    pub label: String,
}

/// A saved statement.
#[derive(Debug, PartialEq, Eq)]
pub struct Template {
    pub id: TemplateId,
    pub name: String,
    pub body: String,
    /// The word for the driver it was written for, if it was for one.
    pub driver: Option<String>,
}

#[derive(Debug, PartialEq, Eq)]
pub struct TemplatesView {
    pub data: LoadState<Vec<Template>>,
    /// Why the last change to them was not made.
    pub failed: Option<String>,
}

/// A run that the history remembers.
#[derive(Debug, PartialEq, Eq)]
pub struct HistoryEntry {
    pub id: RunId,
    /// The word for who asked for it, when that was kept.
    pub issuer: Option<String>,
    pub sql: String,
    pub started_at: Moment,
    pub status: Option<String>,
    pub duration_ms: Option<u64>,
    pub row_count: Option<u64>,
    pub error: Option<String>,
}

#[derive(Debug, PartialEq, Eq)]
pub struct HistoryView {
    /// Which search these runs answer.
    pub edition: Edition,
    pub data: LoadState<Vec<HistoryEntry>>,
}

/// Everything the store has to say at one moment.
#[derive(Debug, PartialEq, Eq)]
pub struct Snapshot {
    pub profiles: Vec<Profile>,
    pub connections: Vec<ConnectionView>,
    /// Every connection's tree, one after the other and flattened.
    pub explorer: Vec<VisibleNode>,
    pub definitions: Vec<DefinitionView>,
    pub previews: Vec<PreviewView>,
    pub queries: Vec<QueryView>,
    pub busy: Vec<BusyItem>,
    pub history: HistoryView,
    pub templates: TemplatesView,
    pub should_quit: bool,
}

pub open spec fn conn_is(id: ConnId) -> spec_fn(ConnectionView) -> bool {
    |c: ConnectionView| c.id == id
}

pub open spec fn live_conn() -> spec_fn(ConnectionView) -> bool {
    |c: ConnectionView| c.live()
}

pub open spec fn preview_of(conn: ConnId, table: Seq<Seq<char>>) -> spec_fn(PreviewView) -> bool {
    |p: PreviewView| p.conn == conn && p.table@ == table
}

pub open spec fn definition_of(conn: ConnId, table: Seq<Seq<char>>) -> spec_fn(
    DefinitionView,
) -> bool {
    |d: DefinitionView| d.conn == conn && d.table@ == table
}

pub open spec fn query_is(id: QueryId) -> spec_fn(QueryView) -> bool {
    |q: QueryView| q.id == id
}

pub open spec fn template_is(id: TemplateId) -> spec_fn(Template) -> bool {
    |t: Template| t.id == id
}

pub open spec fn template_named(name: Seq<char>) -> spec_fn(Template) -> bool {
    |t: Template| t.name@ == name
}

impl Snapshot {
    /// Nothing configured and nothing open.
    pub fn empty() -> (r: Self)
        ensures
            r.profiles@.len() == 0,
            r.connections@.len() == 0,
            r.explorer@.len() == 0,
            r.definitions@.len() == 0,
            r.previews@.len() == 0,
            r.queries@.len() == 0,
            r.busy@.len() == 0,
            r.history.edition == Edition(0),
            r.history.data is Idle,
            r.templates.data is Idle,
            r.templates.failed is None,
            !r.should_quit,
    {
        Snapshot {
            profiles: Vec::new(),
            connections: Vec::new(),
            explorer: Vec::new(),
            definitions: Vec::new(),
            previews: Vec::new(),
            queries: Vec::new(),
            busy: Vec::new(),
            history: HistoryView { edition: Edition(0), data: LoadState::Idle },
            templates: TemplatesView { data: LoadState::Idle, failed: None },
            should_quit: false,
        }
    }

    pub fn connection(&self, id: ConnId) -> (r: Option<&ConnectionView>)
        ensures
            match r {
                Some(c) => first_item(self.connections@, conn_is(id)) == Some(*c),
                None => first_item(self.connections@, conn_is(id)) is None,
            },
    {
        let wanted = |c: &ConnectionView| -> (b: bool)
            ensures b == conn_is(id)(*c)
        { c.id == id };
        find(&self.connections, wanted, Ghost(conn_is(id)))
    }

    /// Whether a connection is there and open.
    pub open spec fn has_live(self, id: ConnId) -> bool {
        first_item(self.connections@, conn_is(id)) matches Some(c) && c.live()
    }

    pub fn is_live(&self, id: ConnId) -> (b: bool)
        ensures
            b == self.has_live(id),
    {
        match self.connection(id) {
            Some(c) => c.is_live(),
            None => false,
        }
    }

    /// The first connection that is open.
    pub open spec fn first_live(self) -> Option<ConnId> {
        match first_item(self.connections@, live_conn()) {
            Some(c) => Some(c.id),
            None => None,
        }
    }

    pub fn live_connection(&self) -> (r: Option<ConnId>)
        ensures
            r == self.first_live(),
    {
        let wanted = |c: &ConnectionView| -> (b: bool)
            ensures b == live_conn()(*c)
        { c.is_live() };
        match find(&self.connections, wanted, Ghost(live_conn())) {
            Some(c) => Some(c.id),
            None => None,
        }
    }

    pub fn preview(&self, conn: ConnId, table: &TableRef) -> (r: Option<&PreviewView>)
        ensures
            match r {
                Some(p) => first_item(self.previews@, preview_of(conn, table@)) == Some(*p),
                None => first_item(self.previews@, preview_of(conn, table@)) is None,
            },
    {
        let wanted = |p: &PreviewView| -> (b: bool)
            ensures b == preview_of(conn, table@)(*p)
        { p.conn == conn && p.table.same(table) };
        find(&self.previews, wanted, Ghost(preview_of(conn, table@)))
    }

    pub fn definition(&self, conn: ConnId, table: &TableRef) -> (r: Option<&DefinitionView>)
        ensures
            match r {
                Some(d) => first_item(self.definitions@, definition_of(conn, table@)) == Some(*d),
                None => first_item(self.definitions@, definition_of(conn, table@)) is None,
            },
    {
        let wanted = |d: &DefinitionView| -> (b: bool)
            ensures b == definition_of(conn, table@)(*d)
        { d.conn == conn && d.table.same(table) };
        find(&self.definitions, wanted, Ghost(definition_of(conn, table@)))
    }

    pub fn query(&self, id: QueryId) -> (r: Option<&QueryView>)
        ensures
            match r {
                Some(q) => first_item(self.queries@, query_is(id)) == Some(*q),
                None => first_item(self.queries@, query_is(id)) is None,
            },
    {
        let wanted = |q: &QueryView| -> (b: bool)
            ensures b == query_is(id)(*q)
        { q.id == id };
        find(&self.queries, wanted, Ghost(query_is(id)))
    }

    /// The saved statements, once they have been read.
    pub open spec fn held(self) -> Option<Seq<Template>> {
        match self.templates.data {
            LoadState::Ready(held) => Some(held@),
            _ => None,
        }
    }

    pub open spec fn template_by_id(self, id: TemplateId) -> Option<Template> {
        match self.held() {
            Some(held) => first_item(held, template_is(id)),
            None => None,
        }
    }

    pub fn template(&self, id: TemplateId) -> (r: Option<&Template>)
        ensures
            match r {
                Some(t) => self.template_by_id(id) == Some(*t),
                None => self.template_by_id(id) is None,
            },
    {
        match &self.templates.data {
            LoadState::Ready(held) => {
                let wanted = |t: &Template| -> (b: bool)
                    ensures b == template_is(id)(*t)
                { t.id == id };
                find(held, wanted, Ghost(template_is(id)))
            },
            _ => None,
        }
    }

    pub open spec fn template_by_name(self, name: Seq<char>) -> Option<Template> {
        match self.held() {
            Some(held) => first_item(held, template_named(name)),
            None => None,
        }
    }

    pub fn named_template(&self, name: &str) -> (r: Option<&Template>)
        ensures
            match r {
                Some(t) => self.template_by_name(name@) == Some(*t),
                None => self.template_by_name(name@) is None,
            },
    {
        match &self.templates.data {
            LoadState::Ready(held) => {
                let wanted = |t: &Template| -> (b: bool)
                    ensures b == template_named(name@)(*t)
                { same_text(t.name.as_str(), name) };
                find(held, wanted, Ghost(template_named(name@)))
            },
            _ => None,
        }
    }
}

} // verus!
