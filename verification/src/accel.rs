//! The accelerator side of the runtime: engine tags, acceleration settings,
//! and the builder that assembles the descriptor an accelerator consumes when
//! a dataset is materialized as an external table.
//!
//! Option values reach the builder as plain strings: secret references in the
//! configured parameters are resolved by the caller before the descriptor is
//! assembled, and the descriptor carries plain strings only.

use vstd::prelude::*;
use vstd::string::StringExecFns;

use crate::strutil::clone_pairs;
use crate::strutil::clone_strings;
use crate::strutil::contains_str;
use crate::strutil::join_with;
use crate::strutil::spec_join;
use crate::strutil::str_eq;

verus! {

/// The storage engines an accelerator can be backed by; an engine outside
/// this set fails at registry lookup.
#[derive(Clone, Copy, Debug, PartialEq, Eq, Structural, Hash)]
pub enum Engine {
    Arrow,
    DuckDB,
    PostgreSQL,
    Sqlite,
}

/// Where an accelerated table lives.
#[derive(Clone, Copy, Debug, PartialEq, Eq, Structural, Hash)]
pub enum Mode {
    Memory,
    File,
}

/// The kind of index an accelerated table carries on a column.
#[derive(Clone, Copy, Debug, PartialEq, Eq, Structural, Hash)]
pub enum IndexType {
    Enabled,
    Unique,
}

impl View for IndexType {
    type V = IndexType;

    open spec fn view(&self) -> IndexType {
        *self
    }
}

impl DeepView for IndexType {
    type V = IndexType;

    open spec fn deep_view(&self) -> IndexType {
        *self
    }
}

/// What an accelerator does when a write collides with an existing row.
#[derive(Debug, PartialEq)]
pub enum OnConflict {
    /// Update the row in place, keyed by the named columns.
    Upsert(Vec<String>),
}

pub enum OnConflictView {
    Upsert(Seq<Seq<char>>),
}

impl View for OnConflict {
    type V = OnConflictView;

    open spec fn view(&self) -> OnConflictView {
        match self {
            OnConflict::Upsert(cols) => OnConflictView::Upsert(cols.deep_view()),
        }
    }
}

impl DeepView for OnConflict {
    type V = OnConflictView;

    open spec fn deep_view(&self) -> OnConflictView {
        self.view()
    }
}

impl Clone for OnConflict {
    fn clone(&self) -> (res: Self)
        ensures
            res@ == self@,
    {
        match self {
            OnConflict::Upsert(cols) => OnConflict::Upsert(clone_strings(cols.as_slice())),
        }
    }
}

/// A table constraint, as the query engine reports it: column positions into
/// the table's schema.
#[derive(Debug, PartialEq)]
pub enum Constraint {
    PrimaryKey(Vec<usize>),
    Unique(Vec<usize>),
}

pub enum ConstraintView {
    PrimaryKey(Seq<usize>),
    Unique(Seq<usize>),
}

impl View for Constraint {
    type V = ConstraintView;

    open spec fn view(&self) -> ConstraintView {
        match self {
            Constraint::PrimaryKey(ids) => ConstraintView::PrimaryKey(ids@),
            Constraint::Unique(ids) => ConstraintView::Unique(ids@),
        }
    }
}

impl DeepView for Constraint {
    type V = ConstraintView;

    open spec fn deep_view(&self) -> ConstraintView {
        self.view()
    }
}

impl Clone for Constraint {
    fn clone(&self) -> (res: Self)
        ensures
            res@ == self@,
    {
        match self {
            Constraint::PrimaryKey(ids) => {
                let mut v: Vec<usize> = Vec::new();
                let mut i: usize = 0;
                while i < ids.len()
                    invariant
                        i <= ids.len(),
                        v@ == ids@.subrange(0, i as int),
                    decreases ids.len() - i,
                {
                    v.push(ids[i]);
                    proof {
                        assert(v@ =~= ids@.subrange(0, i + 1));
                    }
                    i = i + 1;
                }
                proof {
                    assert(ids@.subrange(0, ids.len() as int) =~= ids@);
                }
                Constraint::PrimaryKey(v)
            },
            Constraint::Unique(ids) => {
                let mut v: Vec<usize> = Vec::new();
                let mut i: usize = 0;
                while i < ids.len()
                    invariant
                        i <= ids.len(),
                        v@ == ids@.subrange(0, i as int),
                    decreases ids.len() - i,
                {
                    v.push(ids[i]);
                    proof {
                        assert(v@ =~= ids@.subrange(0, i + 1));
                    }
                    i = i + 1;
                }
                proof {
                    assert(ids@.subrange(0, ids.len() as int) =~= ids@);
                }
                Constraint::Unique(v)
            },
        }
    }
}

/// The acceleration settings of one dataset, as configured: engine, mode,
/// engine parameters (secret references already resolved to plain strings),
/// indexes, and an optional explicit conflict policy.
#[derive(Debug, PartialEq)]
pub struct Acceleration {
    pub engine: Engine,
    pub mode: Mode,
    pub params: Vec<(String, String)>,
    pub indexes: Vec<(String, IndexType)>,
    pub on_conflict: Option<OnConflict>,
}

pub struct AccelerationView {
    pub engine: Engine,
    pub mode: Mode,
    pub params: Seq<(Seq<char>, Seq<char>)>,
    pub indexes: Seq<(Seq<char>, IndexType)>,
    pub on_conflict: Option<OnConflictView>,
}

impl View for Acceleration {
    type V = AccelerationView;

    open spec fn view(&self) -> AccelerationView {
        AccelerationView {
            engine: self.engine,
            mode: self.mode,
            params: self.params.deep_view(),
            indexes: self.indexes.deep_view(),
            on_conflict: self.on_conflict.deep_view(),
        }
    }
}

/// The descriptor handed to an accelerator to create or attach a table.
/// `schema` carries the table's column names; `options` is an association
/// list with the semantics of a string map.
#[derive(Debug, PartialEq)]
pub struct CreateExternalTable {
    pub name: String,
    pub schema: Vec<String>,
    pub location: String,
    pub file_type: String,
    pub if_not_exists: bool,
    pub unbounded: bool,
    pub options: Vec<(String, String)>,
    pub constraints: Vec<Constraint>,
}

pub struct CreateExternalTableView {
    pub name: Seq<char>,
    pub schema: Seq<Seq<char>>,
    pub location: Seq<char>,
    pub file_type: Seq<char>,
    pub if_not_exists: bool,
    pub unbounded: bool,
    pub options: Seq<(Seq<char>, Seq<char>)>,
    pub constraints: Seq<ConstraintView>,
}

impl View for CreateExternalTable {
    type V = CreateExternalTableView;

    open spec fn view(&self) -> CreateExternalTableView {
        CreateExternalTableView {
            name: self.name@,
            schema: self.schema.deep_view(),
            location: self.location@,
            file_type: self.file_type@,
            if_not_exists: self.if_not_exists,
            unbounded: self.unbounded,
            options: self.options.deep_view(),
            constraints: self.constraints.deep_view(),
        }
    }
}

/// What can go wrong on the accelerator path: a settings inconsistency, an
/// engine with no registered accelerator, or a failure inside the
/// accelerator itself (its cause carried as text).
#[derive(Debug, PartialEq)]
pub enum Error {
    InvalidConfiguration { msg: String },
    UnknownEngine { engine: String },
    AccelerationCreationFailed { msg: String },
}

pub enum ErrorView {
    InvalidConfiguration { msg: Seq<char> },
    UnknownEngine { engine: Seq<char> },
    AccelerationCreationFailed { msg: Seq<char> },
}

impl View for Error {
    type V = ErrorView;

    open spec fn view(&self) -> ErrorView {
        match self {
            Error::InvalidConfiguration { msg } => ErrorView::InvalidConfiguration { msg: msg@ },
            Error::UnknownEngine { engine } => ErrorView::UnknownEngine { engine: engine@ },
            Error::AccelerationCreationFailed { msg } => ErrorView::AccelerationCreationFailed {
                msg: msg@,
            },
        }
    }
}

/// The configuration name of an engine.
pub open spec fn spec_engine_name(e: Engine) -> Seq<char> {
    match e {
        Engine::Arrow => "arrow"@,
        Engine::DuckDB => "duckdb"@,
        Engine::PostgreSQL => "postgres"@,
        Engine::Sqlite => "sqlite"@,
    }
}

/// The configuration name of an engine.
pub fn engine_name(e: Engine) -> (r: &'static str)
    ensures
        r@ == spec_engine_name(e),
{
    match e {
        Engine::Arrow => "arrow",
        Engine::DuckDB => "duckdb",
        Engine::PostgreSQL => "postgres",
        Engine::Sqlite => "sqlite",
    }
}

/// The option-string form of a mode.
pub open spec fn spec_mode_name(m: Mode) -> Seq<char> {
    match m {
        Mode::Memory => "memory"@,
        Mode::File => "file"@,
    }
}

/// The option-string form of a mode.
pub fn mode_name(m: Mode) -> (r: &'static str)
    ensures
        r@ == spec_mode_name(m),
{
    match m {
        Mode::Memory => "memory",
        Mode::File => "file",
    }
}

/// The option-string form of an index kind.
pub open spec fn spec_index_name(t: IndexType) -> Seq<char> {
    match t {
        IndexType::Enabled => "enabled"@,
        IndexType::Unique => "unique"@,
    }
}

/// The option-string form of an index kind.
pub fn index_name(t: IndexType) -> (r: &'static str)
    ensures
        r@ == spec_index_name(t),
{
    match t {
        IndexType::Enabled => "enabled",
        IndexType::Unique => "unique",
    }
}

/// The single option string the configured indexes are serialized into:
/// `column:kind` entries joined with `;`.
pub open spec fn spec_render_indexes(idx: Seq<(Seq<char>, IndexType)>) -> Seq<char> {
    spec_join(idx.map_values(|p: (Seq<char>, IndexType)| p.0 + ":"@ + spec_index_name(p.1)), ";"@)
}

/// The single option string a conflict policy is serialized into:
/// `upsert:` followed by its key columns joined with `;`.
pub open spec fn spec_render_on_conflict(oc: OnConflictView) -> Seq<char> {
    match oc {
        OnConflictView::Upsert(cols) => "upsert:"@ + spec_join(cols, ";"@),
    }
}

fn render_indexes(idx: &Vec<(String, IndexType)>) -> (r: String)
    ensures
        r@ == spec_render_indexes(idx.deep_view()),
{
    let mut entries: Vec<String> = Vec::new();
    let mut i: usize = 0;
    proof {
        assert(entries.deep_view() =~~= idx.deep_view().subrange(0, 0).map_values(
            |p: (Seq<char>, IndexType)| p.0 + ":"@ + spec_index_name(p.1),
        ));
    }
    while i < idx.len()
        invariant
            i <= idx.len(),
            entries.deep_view() == idx.deep_view().subrange(0, i as int).map_values(
                |p: (Seq<char>, IndexType)| p.0 + ":"@ + spec_index_name(p.1),
            ),
        decreases idx.len() - i,
    {
        let mut e = idx[i].0.clone();
        e.append(":");
        e.append(index_name(idx[i].1));
        let ghost prior = entries.deep_view();
        entries.push(e);
        proof {
            let mapped = idx.deep_view().subrange(0, i + 1).map_values(
                |p: (Seq<char>, IndexType)| p.0 + ":"@ + spec_index_name(p.1),
            );
            assert forall|k: int| 0 <= k < prior.len() + 1 implies entries.deep_view()[k]
                == mapped[k] by {
                if k < i {
                    assert(entries.deep_view()[k] == prior[k]);
                } else {
                    assert(entries.deep_view()[k] == entries@[k].deep_view());
                    assert(idx.deep_view()[k] == idx@[k].deep_view());
                }
            }
            assert(entries.deep_view() =~= mapped);
        }
        i = i + 1;
    }
    proof {
        assert(idx.deep_view().subrange(0, idx.len() as int) =~= idx.deep_view());
    }
    join_with(&entries, ";")
}

fn render_on_conflict(oc: &OnConflict) -> (r: String)
    ensures
        r@ == spec_render_on_conflict(oc@),
{
    match oc {
        OnConflict::Upsert(cols) => {
            let mut s = "upsert:".to_owned();
            s.append(join_with(cols, ";").as_str());
            s
        },
    }
}

/// The option list with `key` bound to `value`: the first entry under `key`
/// is replaced in place, or the pair is appended when the key is new (the
/// insertion of a string map).
pub open spec fn spec_options_set(
    opts: Seq<(Seq<char>, Seq<char>)>,
    key: Seq<char>,
    value: Seq<char>,
) -> Seq<(Seq<char>, Seq<char>)>
    decreases opts.len(),
{
    if opts.len() == 0 {
        seq![(key, value)]
    } else if opts[0].0 == key {
        seq![(key, value)] + opts.subrange(1, opts.len() as int)
    } else {
        seq![opts[0]] + spec_options_set(opts.subrange(1, opts.len() as int), key, value)
    }
}

fn clone_pairs_from(opts: &Vec<(String, String)>, i: usize) -> (r: Vec<(String, String)>)
    requires
        i <= opts.len(),
    ensures
        r.deep_view() == opts.deep_view().subrange(i as int, opts.len() as int),
    decreases opts.len() - i,
{
    let mut r: Vec<(String, String)> = Vec::new();
    let mut j: usize = i;
    proof {
        assert(r.deep_view() =~~= opts.deep_view().subrange(i as int, i as int));
    }
    while j < opts.len()
        invariant
            i <= j <= opts.len(),
            r.deep_view() == opts.deep_view().subrange(i as int, j as int),
        decreases opts.len() - j,
    {
        let ghost prior = r.deep_view();
        r.push((opts[j].0.clone(), opts[j].1.clone()));
        proof {
            assert forall|k: int| 0 <= k < prior.len() + 1 implies r.deep_view()[k]
                == opts.deep_view().subrange(i as int, j + 1)[k] by {
                if k < prior.len() {
                    assert(r.deep_view()[k] == prior[k]);
                } else {
                    assert(r.deep_view()[k] == r@[k].deep_view());
                    assert(opts.deep_view()[i + k] == opts@[i + k].deep_view());
                }
            }
            assert(r.deep_view() =~= opts.deep_view().subrange(i as int, j + 1));
        }
        j = j + 1;
    }
    r
}

fn options_set_from(opts: &Vec<(String, String)>, i: usize, key: &str, value: &str) -> (r: Vec<
    (String, String),
>)
    requires
        i <= opts.len(),
    ensures
        r.deep_view() == spec_options_set(
            opts.deep_view().subrange(i as int, opts.len() as int),
            key@,
            value@,
        ),
    decreases opts.len() - i,
{
    let ghost whole = opts.deep_view().subrange(i as int, opts.len() as int);
    if i == opts.len() {
        let mut r: Vec<(String, String)> = Vec::new();
        r.push((key.to_owned(), value.to_owned()));
        proof {
            assert(r.deep_view() =~~= spec_options_set(whole, key@, value@));
        }
        r
    } else {
        proof {
            assert(whole.subrange(1, whole.len() as int) =~= opts.deep_view().subrange(
                i + 1,
                opts.len() as int,
            ));
            assert(whole[0] == opts.deep_view()[i as int]);
        }
        if str_eq(opts[i].0.as_str(), key) {
            let mut r = clone_pairs_from(opts, i + 1);
            r.insert(0, (key.to_owned(), value.to_owned()));
            proof {
                assert(r.deep_view() =~~= spec_options_set(whole, key@, value@));
            }
            r
        } else {
            let mut r = options_set_from(opts, i + 1, key, value);
            r.insert(0, (opts[i].0.clone(), opts[i].1.clone()));
            proof {
                assert(r.deep_view() =~~= spec_options_set(whole, key@, value@));
            }
            r
        }
    }
}

fn options_set(opts: &Vec<(String, String)>, key: &str, value: &str) -> (r: Vec<(String, String)>)
    ensures
        r.deep_view() == spec_options_set(opts.deep_view(), key@, value@),
{
    let r = options_set_from(opts, 0, key, value);
    proof {
        assert(opts.deep_view().subrange(0, opts.len() as int) =~= opts.deep_view());
    }
    r
}

/// The builder's accumulated configuration.
pub struct BuilderView {
    pub table_name: Seq<char>,
    pub schema: Seq<Seq<char>>,
    pub engine: Engine,
    pub mode: Mode,
    pub options: Option<Seq<(Seq<char>, Seq<char>)>>,
    pub indexes: Seq<(Seq<char>, IndexType)>,
    pub constraints: Option<Seq<ConstraintView>>,
    pub on_conflict: Option<OnConflictView>,
}

/// Accumulates the configuration of one accelerated table and emits its
/// creation descriptor.
pub struct AcceleratorExternalTableBuilder {
    table_name: String,
    schema: Vec<String>,
    engine: Engine,
    mode: Mode,
    options: Option<Vec<(String, String)>>,
    indexes: Vec<(String, IndexType)>,
    constraints: Option<Vec<Constraint>>,
    on_conflict: Option<OnConflict>,
}

impl View for AcceleratorExternalTableBuilder {
    type V = BuilderView;

    closed spec fn view(&self) -> BuilderView {
        BuilderView {
            table_name: self.table_name@,
            schema: self.schema.deep_view(),
            engine: self.engine,
            mode: self.mode,
            options: self.options.deep_view(),
            indexes: self.indexes.deep_view(),
            constraints: self.constraints.deep_view(),
            on_conflict: self.on_conflict.deep_view(),
        }
    }
}

/// The options map of the emitted descriptor: the configured options (none
/// means empty), then `mode` bound to the mode's string form, then, when any
/// indexes are configured, `indexes` bound to their serialized form, then,
/// when a conflict policy is set, `on_conflict` bound to its serialized form.
pub open spec fn spec_build_options(b: BuilderView) -> Seq<(Seq<char>, Seq<char>)> {
    let base = match b.options {
        Some(o) => o,
        None => Seq::empty(),
    };
    let with_mode = spec_options_set(base, "mode"@, spec_mode_name(b.mode));
    let with_indexes = if b.indexes.len() > 0 {
        spec_options_set(with_mode, "indexes"@, spec_render_indexes(b.indexes))
    } else {
        with_mode
    };
    match b.on_conflict {
        Some(oc) => spec_options_set(with_indexes, "on_conflict"@, spec_render_on_conflict(oc)),
        None => with_indexes,
    }
}

/// The descriptor a builder emits: its table name and schema, no location,
/// no file type, `if_not_exists` always true, bounded, the assembled options
/// map, and the configured constraints (none means empty).
pub open spec fn spec_build(b: BuilderView) -> CreateExternalTableView {
    CreateExternalTableView {
        name: b.table_name,
        schema: b.schema,
        location: Seq::empty(),
        file_type: Seq::empty(),
        if_not_exists: true,
        unbounded: false,
        options: spec_build_options(b),
        constraints: match b.constraints {
            Some(c) => c,
            None => Seq::empty(),
        },
    }
}

/// The one validation rule of the engine/mode matrix: the in-memory engine
/// cannot persist to a file.
pub open spec fn spec_builder_valid(b: BuilderView) -> bool {
    !(b.engine == Engine::Arrow && b.mode == Mode::File)
}

impl AcceleratorExternalTableBuilder {
    /// A builder for `table_name` with the given schema and engine; the mode
    /// defaults to in-memory, everything else to unset.
    pub fn new(table_name: String, schema: Vec<String>, engine: Engine) -> (r: Self)
        ensures
            r@ == (BuilderView {
                table_name: table_name@,
                schema: schema.deep_view(),
                engine,
                mode: Mode::Memory,
                options: None,
                indexes: Seq::empty(),
                constraints: None,
                on_conflict: None,
            }),
    {
        let r = AcceleratorExternalTableBuilder {
            table_name,
            schema,
            engine,
            mode: Mode::Memory,
            options: None,
            indexes: Vec::new(),
            constraints: None,
            on_conflict: None,
        };
        proof {
            assert(r@.indexes =~= Seq::<(Seq<char>, IndexType)>::empty());
        }
        r
    }

    /// This builder with its indexes replaced.
    pub fn indexes(self, indexes: Vec<(String, IndexType)>) -> (r: Self)
        ensures
            r@ == (BuilderView { indexes: indexes.deep_view(), ..self@ }),
    {
        AcceleratorExternalTableBuilder { indexes, ..self }
    }

    /// This builder with its conflict policy set.
    pub fn on_conflict(self, on_conflict: OnConflict) -> (r: Self)
        ensures
            r@ == (BuilderView { on_conflict: Some(on_conflict@), ..self@ }),
    {
        AcceleratorExternalTableBuilder { on_conflict: Some(on_conflict), ..self }
    }

    /// This builder with its mode set.
    pub fn mode(self, mode: Mode) -> (r: Self)
        ensures
            r@ == (BuilderView { mode, ..self@ }),
    {
        AcceleratorExternalTableBuilder { mode, ..self }
    }

    /// This builder with its options set.
    pub fn options(self, options: Vec<(String, String)>) -> (r: Self)
        ensures
            r@ == (BuilderView { options: Some(options.deep_view()), ..self@ }),
    {
        AcceleratorExternalTableBuilder { options: Some(options), ..self }
    }

    /// This builder with its constraints set.
    pub fn constraints(self, constraints: Vec<Constraint>) -> (r: Self)
        ensures
            r@ == (BuilderView { constraints: Some(constraints.deep_view()), ..self@ }),
    {
        AcceleratorExternalTableBuilder { constraints: Some(constraints), ..self }
    }

    fn validate(&self) -> (r: Result<(), Error>)
        ensures
            r is Ok <==> spec_builder_valid(self@),
            r matches Err(e) ==> e@ == (ErrorView::InvalidConfiguration {
                msg: "File mode not supported for Arrow engine"@,
            }),
    {
        match self.engine {
            Engine::Arrow => {
                if self.mode == Mode::File {
                    Err(
                        Error::InvalidConfiguration {
                            msg: "File mode not supported for Arrow engine".to_owned(),
                        },
                    )
                } else {
                    Ok(())
                }
            },
            _ => Ok(()),
        }
    }

    /// Validates the configuration and emits the creation descriptor;
    /// succeeds exactly when the engine/mode pair is valid, and then returns
    /// exactly the descriptor `spec_build` describes.
    pub fn build(self) -> (r: Result<CreateExternalTable, Error>)
        ensures
            r is Ok <==> spec_builder_valid(self@),
            r matches Ok(t) ==> t@ == spec_build(self@),
            r matches Err(e) ==> e@ == (ErrorView::InvalidConfiguration {
                msg: "File mode not supported for Arrow engine"@,
            }),
    {
        match self.validate() {
            Err(e) => Err(e),
            Ok(()) => {
                let base: Vec<(String, String)> = match &self.options {
                    Some(o) => clone_pairs(o),
                    None => Vec::new(),
                };
                proof {
                    if self.options is None {
                        assert(base.deep_view() =~~= Seq::<(Seq<char>, Seq<char>)>::empty());
                    }
                }
                let mut options = options_set(&base, "mode", mode_name(self.mode));
                if self.indexes.len() > 0 {
                    let rendered = render_indexes(&self.indexes);
                    options = options_set(&options, "indexes", rendered.as_str());
                }
                match &self.on_conflict {
                    Some(oc) => {
                        let rendered = render_on_conflict(oc);
                        options = options_set(&options, "on_conflict", rendered.as_str());
                    },
                    None => {},
                }
                let constraints: Vec<Constraint> = match self.constraints {
                    Some(c) => c,
                    None => Vec::new(),
                };
                proof {
                    if self@.constraints is None {
                        assert(constraints.deep_view() =~~= Seq::<ConstraintView>::empty());
                    }
                }
                let t = CreateExternalTable {
                    name: self.table_name,
                    schema: self.schema,
                    location: String::new(),
                    file_type: String::new(),
                    if_not_exists: true,
                    unbounded: false,
                    options,
                    constraints,
                };
                proof {
                    assert(t@.location =~= Seq::<char>::empty());
                    assert(t@.file_type =~= Seq::<char>::empty());
                }
                Ok(t)
            },
        }
    }
}

/// The schema columns named by the primary-key constraints, in constraint
/// order: exactly the columns a derived conflict policy targets.
pub open spec fn spec_primary_keys(
    constraints: Seq<ConstraintView>,
    schema: Seq<Seq<char>>,
) -> Seq<Seq<char>>
    decreases constraints.len(),
{
    if constraints.len() == 0 {
        Seq::empty()
    } else {
        (match constraints[0] {
            ConstraintView::PrimaryKey(ids) => ids.map_values(|i: usize| schema[i as int]),
            ConstraintView::Unique(ids) => Seq::empty(),
        }) + spec_primary_keys(constraints.subrange(1, constraints.len() as int), schema)
    }
}

/// Every column position a constraint names lies inside the schema.
pub open spec fn spec_constraints_in_bounds(
    constraints: Seq<ConstraintView>,
    schema_len: nat,
) -> bool {
    forall|k: int|
        0 <= k < constraints.len() ==> (match #[trigger] constraints[k] {
            ConstraintView::PrimaryKey(ids) => forall|j: int|
                0 <= j < ids.len() ==> (#[trigger] ids[j]) < schema_len,
            ConstraintView::Unique(ids) => forall|j: int|
                0 <= j < ids.len() ==> (#[trigger] ids[j]) < schema_len,
        })
}

fn primary_keys_from(constraints: &Vec<Constraint>, schema: &Vec<String>, i: usize) -> (r: Vec<
    String,
>)
    requires
        i <= constraints.len(),
        spec_constraints_in_bounds(constraints.deep_view(), schema.len() as nat),
    ensures
        r.deep_view() == spec_primary_keys(
            constraints.deep_view().subrange(i as int, constraints.len() as int),
            schema.deep_view(),
        ),
    decreases constraints.len() - i,
{
    let ghost whole = constraints.deep_view().subrange(i as int, constraints.len() as int);
    if i == constraints.len() {
        let r: Vec<String> = Vec::new();
        proof {
            assert(r.deep_view() =~= Seq::<Seq<char>>::empty());
        }
        r
    } else {
        proof {
            assert(whole.subrange(1, whole.len() as int) =~= constraints.deep_view().subrange(
                i + 1,
                constraints.len() as int,
            ));
            assert(whole[0] == constraints.deep_view()[i as int]);
        }
        let mut rest = primary_keys_from(constraints, schema, i + 1);
        match &constraints[i] {
            Constraint::Unique(_) => {
                proof {
                    assert(whole[0] is Unique);
                    assert(rest.deep_view() =~= spec_primary_keys(whole, schema.deep_view()));
                }
                rest
            },
            Constraint::PrimaryKey(ids) => {
                let mut named: Vec<String> = Vec::new();
                let mut j: usize = 0;
                proof {
                    assert(named.deep_view() =~~= ids@.subrange(0, 0).map_values(
                        |ix: usize| schema.deep_view()[ix as int],
                    ));
                }
                while j < ids.len()
                    invariant
                        j <= ids.len(),
                        spec_constraints_in_bounds(
                            constraints.deep_view(),
                            schema.len() as nat,
                        ),
                        i < constraints.len(),
                        constraints.deep_view()[i as int] == ConstraintView::PrimaryKey(ids@),
                        named.deep_view() == ids@.subrange(0, j as int).map_values(
                            |ix: usize| schema.deep_view()[ix as int],
                        ),
                    decreases ids.len() - j,
                {
                    proof {
                        assert((match constraints.deep_view()[i as int] {
                            ConstraintView::PrimaryKey(xs) => forall|jj: int|
                                0 <= jj < xs.len() ==> (#[trigger] xs[jj]) < schema.len() as nat,
                            ConstraintView::Unique(xs) => forall|jj: int|
                                0 <= jj < xs.len() ==> (#[trigger] xs[jj]) < schema.len() as nat,
                        }));
                        assert(ids@[j as int] < schema.len());
                    }
                    let ghost prior = named.deep_view();
                    named.push(schema[ids[j]].clone());
                    proof {
                        let mapped = ids@.subrange(0, j + 1).map_values(
                            |ix: usize| schema.deep_view()[ix as int],
                        );
                        assert forall|k: int| 0 <= k < prior.len() + 1 implies named.deep_view()[k]
                            == mapped[k] by {
                            if k < j {
                                assert(named.deep_view()[k] == prior[k]);
                            } else {
                                assert(named.deep_view()[k] == named@[k].deep_view());
                                assert(schema.deep_view()[ids@[k] as int] == schema@[ids@[k] as int]@);
                            }
                        }
                        assert(named.deep_view() =~= mapped);
                    }
                    j = j + 1;
                }
                proof {
                    assert(ids@.subrange(0, ids.len() as int) =~= ids@);
                }
                named.append(&mut rest);
                proof {
                    assert(named.deep_view() =~~= spec_primary_keys(whole, schema.deep_view()));
                }
                named
            },
        }
    }
}

/// The schema columns named by the primary-key constraints, in constraint
/// order.
pub fn get_primary_keys_from_constraints(
    constraints: &Vec<Constraint>,
    schema: &Vec<String>,
) -> (r: Vec<String>)
    requires
        spec_constraints_in_bounds(constraints.deep_view(), schema.len() as nat),
    ensures
        r.deep_view() == spec_primary_keys(constraints.deep_view(), schema.deep_view()),
{
    let r = primary_keys_from(constraints, schema, 0);
    proof {
        assert(constraints.deep_view().subrange(0, constraints.len() as int)
            =~= constraints.deep_view());
    }
    r
}

/// Message for an index referencing a column outside the table schema.
pub open spec fn spec_msg_unknown_index(c: Seq<char>) -> Seq<char> {
    "Unknown index column "@ + c
}

/// The index validation of the acceleration settings: every index must name
/// a column of the table schema; the first offender is reported.
pub open spec fn spec_validate_indexes(
    idx: Seq<(Seq<char>, IndexType)>,
    schema: Seq<Seq<char>>,
) -> Result<(), ErrorView>
    decreases idx.len(),
{
    if idx.len() == 0 {
        Ok(())
    } else if !schema.contains(idx[0].0) {
        Err(ErrorView::InvalidConfiguration { msg: spec_msg_unknown_index(idx[0].0) })
    } else {
        spec_validate_indexes(idx.subrange(1, idx.len() as int), schema)
    }
}

fn validate_indexes(idx: &Vec<(String, IndexType)>, schema: &Vec<String>) -> (r: Result<
    (),
    Error,
>)
    ensures
        match r {
            Ok(u) => spec_validate_indexes(idx.deep_view(), schema.deep_view()) is Ok,
            Err(e) => spec_validate_indexes(idx.deep_view(), schema.deep_view()) == Err::<
                (),
                ErrorView,
            >(e@),
        },
{
    proof {
        assert(idx.deep_view().subrange(0, idx.len() as int) =~= idx.deep_view());
    }
    let mut i: usize = 0;
    while i < idx.len()
        invariant
            i <= idx.len(),
            spec_validate_indexes(idx.deep_view(), schema.deep_view()) == spec_validate_indexes(
                idx.deep_view().subrange(i as int, idx.len() as int),
                schema.deep_view(),
            ),
        decreases idx.len() - i,
    {
        proof {
            assert(idx.deep_view().subrange(i as int, idx.len() as int).subrange(
                1,
                idx.deep_view().subrange(i as int, idx.len() as int).len() as int,
            ) =~= idx.deep_view().subrange(i + 1, idx.len() as int));
            assert(idx.deep_view().subrange(i as int, idx.len() as int)[0]
                == idx.deep_view()[i as int]);
        }
        if !contains_str(schema, idx[i].0.as_str()) {
            let mut m = "Unknown index column ".to_owned();
            m.append(idx[i].0.as_str());
            return Err(Error::InvalidConfiguration { msg: m });
        }
        i = i + 1;
    }
    Ok(())
}

fn clone_indexes(idx: &Vec<(String, IndexType)>) -> (r: Vec<(String, IndexType)>)
    ensures
        r.deep_view() == idx.deep_view(),
{
    let mut r: Vec<(String, IndexType)> = Vec::new();
    proof {
        assert(r.deep_view() =~~= idx.deep_view().subrange(0, 0));
    }
    let mut i: usize = 0;
    while i < idx.len()
        invariant
            i <= idx.len(),
            r.deep_view() == idx.deep_view().subrange(0, i as int),
        decreases idx.len() - i,
    {
        let ghost prior = r.deep_view();
        r.push((idx[i].0.clone(), idx[i].1));
        proof {
            assert forall|k: int| 0 <= k < prior.len() + 1 implies r.deep_view()[k]
                == idx.deep_view().subrange(0, i + 1)[k] by {
                if k < i {
                    assert(r.deep_view()[k] == prior[k]);
                } else {
                    assert(r.deep_view()[k] == r@[k].deep_view());
                    assert(idx.deep_view()[k] == idx@[k].deep_view());
                }
            }
            assert(r.deep_view() =~= idx.deep_view().subrange(0, i + 1));
        }
        i = i + 1;
    }
    proof {
        assert(idx.deep_view().subrange(0, idx.len() as int) =~= idx.deep_view());
    }
    r
}

fn clone_constraints(cs: &Vec<Constraint>) -> (r: Vec<Constraint>)
    ensures
        r.deep_view() == cs.deep_view(),
{
    let mut r: Vec<Constraint> = Vec::new();
    proof {
        assert(r.deep_view() =~~= cs.deep_view().subrange(0, 0));
    }
    let mut i: usize = 0;
    while i < cs.len()
        invariant
            i <= cs.len(),
            r.deep_view() == cs.deep_view().subrange(0, i as int),
        decreases cs.len() - i,
    {
        let ghost prior = r.deep_view();
        r.push(cs[i].clone());
        proof {
            assert forall|k: int| 0 <= k < prior.len() + 1 implies r.deep_view()[k]
                == cs.deep_view().subrange(0, i + 1)[k] by {
                if k < i {
                    assert(r.deep_view()[k] == prior[k]);
                } else {
                    assert(r.deep_view()[k] == r@[k].deep_view());
                    assert(cs.deep_view()[k] == cs@[k].deep_view());
                }
            }
            assert(r.deep_view() =~= cs.deep_view().subrange(0, i + 1));
        }
        i = i + 1;
    }
    proof {
        assert(cs.deep_view().subrange(0, cs.len() as int) =~= cs.deep_view());
    }
    r
}

/// The message of an engine with no registered accelerator.
pub fn unknown_engine_message(engine: Engine) -> (r: String)
    ensures
        r@ == "Unknown engine: "@ + spec_engine_name(engine),
{
    let mut m = "Unknown engine: ".to_owned();
    m.append(engine_name(engine));
    m
}

/// The bounds every federated constraint must respect, when any are given.
pub open spec fn spec_federated_in_bounds(
    federated: Option<Seq<ConstraintView>>,
    schema_len: nat,
) -> bool {
    match federated {
        Some(cs) => spec_constraints_in_bounds(cs, schema_len),
        None => true,
    }
}

/// The descriptor planned for one accelerated dataset, or the first
/// rejection: index validation, then the builder configured with the
/// settings; non-empty federated constraints are adopted with an automatic
/// upsert policy on their primary-key columns, which an explicit policy in
/// the settings overrides; finally the engine/mode validation of the build.
pub open spec fn spec_plan(
    table_name: Seq<char>,
    schema: Seq<Seq<char>>,
    federated: Option<Seq<ConstraintView>>,
    settings: AccelerationView,
    resolved_params: Seq<(Seq<char>, Seq<char>)>,
) -> Result<CreateExternalTableView, ErrorView> {
    match spec_validate_indexes(settings.indexes, schema) {
        Err(e) => Err(e),
        Ok(u) => {
            let base = BuilderView {
                table_name,
                schema,
                engine: settings.engine,
                mode: settings.mode,
                options: Some(resolved_params),
                indexes: settings.indexes,
                constraints: None,
                on_conflict: None,
            };
            let with_federated = (match federated {
                Some(cs) => if cs.len() > 0 {
                    BuilderView {
                        constraints: Some(cs),
                        on_conflict: Some(OnConflictView::Upsert(spec_primary_keys(cs, schema))),
                        ..base
                    }
                } else {
                    base
                },
                None => base,
            });
            let configured = (match settings.on_conflict {
                Some(oc) => BuilderView { on_conflict: Some(oc), ..with_federated },
                None => with_federated,
            });
            if spec_builder_valid(configured) {
                Ok(spec_build(configured))
            } else {
                Err(
                    ErrorView::InvalidConfiguration {
                        msg: "File mode not supported for Arrow engine"@,
                    },
                )
            }
        },
    }
}

/// Plans the creation descriptor of one accelerated dataset from its
/// resolved inputs: the bound table name, its schema columns, the
/// constraints reported by the federated table (column positions into the
/// schema), the acceleration settings, and the engine parameters with every
/// secret reference already resolved. Returns exactly what `spec_plan`
/// describes.
pub fn plan_accelerator_table(
    table_name: &str,
    schema: &Vec<String>,
    federated_constraints: &Option<Vec<Constraint>>,
    settings: &Acceleration,
    resolved_params: Vec<(String, String)>,
) -> (r: Result<CreateExternalTable, Error>)
    requires
        spec_federated_in_bounds(federated_constraints.deep_view(), schema.len() as nat),
    ensures
        match r {
            Ok(t) => spec_plan(
                table_name@,
                schema.deep_view(),
                federated_constraints.deep_view(),
                settings@,
                resolved_params.deep_view(),
            ) == Ok::<_, ErrorView>(t@),
            Err(e) => spec_plan(
                table_name@,
                schema.deep_view(),
                federated_constraints.deep_view(),
                settings@,
                resolved_params.deep_view(),
            ) == Err::<CreateExternalTableView, _>(e@),
        },
{
    match validate_indexes(&settings.indexes, schema) {
        Err(e) => {
            return Err(e);
        },
        Ok(u) => {},
    }
    let mut builder = AcceleratorExternalTableBuilder::new(
        table_name.to_owned(),
        clone_strings(schema.as_slice()),
        settings.engine,
    ).mode(settings.mode).options(resolved_params).indexes(clone_indexes(&settings.indexes));
    match federated_constraints {
        Some(cs) => {
            if cs.len() > 0 {
                let pks = get_primary_keys_from_constraints(cs, schema);
                builder = builder.constraints(clone_constraints(cs)).on_conflict(
                    OnConflict::Upsert(pks),
                );
            }
        },
        None => {},
    }
    match &settings.on_conflict {
        Some(oc) => {
            builder = builder.on_conflict(oc.clone());
        },
        None => {},
    }
    builder.build()
}

} // verus!
