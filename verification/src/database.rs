//! The store: project lookup and creation, column resolution, and the writing
//! and reading of datapoints, over relations held in memory.

use vstd::prelude::*;
use crate::backend::{Action, Response};
use crate::clock::{now, timestamp_in_range};
use crate::datapoint::{
    all_storable, cell_views, decoded_rows, encoded_names, insert_request, inserted, Row,
};
use crate::encoder::{lemma_sanitized_shape, sanitized};
use crate::engine::{
    create_column_request, create_project_request, created_column, created_project,
    found_project, listed_columns, listed_projects, projects_decoded,
};
use crate::error::{Error, ErrorKind};
use crate::fields::{keys_of, values_of, Fields};
use crate::memory::{
    answered, columns_of, copy_texts, lemma_columns_of, project_named, registry_table,
    registry_wf, rows_of, rows_wf, table_named, MemoryBackend, Relations,
};
use crate::opener::{Opener, Opening, Stage};
use crate::outcome::{
    column_outcome, datapoint_outcome, ingest_outcome, ingest_step, named_column_outcome,
    named_column_step, open_outcome, project_outcome, rows_read, stored_cells,
};
use crate::project::{column_views, decode_rows, Column, DataType, Project};
use crate::resolution::{lemma_answers_are_columns, lemma_round, resolve_outcome, resolving};
use crate::resolver::{Resolver, Step};
use crate::text::texts;
use crate::value::storable;

verus! {

/// The store. It owns its backend; projects and columns are values read from it.
pub struct Database {
    backend: MemoryBackend,
}

impl View for Database {
    type V = Relations;

    /// The relations of the backend.
    closed spec fn view(&self) -> Relations {
        self.backend@
    }
}

impl Database {
    /// The registry keeps its rules, and every stored row is complete.
    pub open spec fn wf(&self) -> bool {
        registry_wf(self@.projects, self@.columns) && rows_wf(self@.rows)
    }

    /// A store with its registry set up and nothing in it.
    pub fn new() -> (db: Database)
        ensures
            db.wf(),
            db@ == (Relations { projects: Seq::empty(), columns: Seq::empty(), rows: Seq::empty() }),
    {
        Database { backend: MemoryBackend::new() }
    }

    /// Hands a request to the backend and returns its answer.
    pub fn execute(&mut self, action: &Action) -> (response: Response)
        requires
            old(self).wf(),
        ensures
            final(self).wf(),
            answered(old(self)@, final(self)@, *action, response),
    {
        self.backend.execute(action)
    }

    /// All projects of the store, oldest first.
    pub fn get_projects(&self) -> (r: Result<Vec<Project>, Error>)
        requires
            self.wf(),
        ensures
            r matches Ok(ps) && projects_decoded(ps@, self@.projects),
    {
        let raws = self.backend.list_projects();
        listed_projects(Response::Projects(raws))
    }

    /// The project of the logical name `name`, or none when there is none.
    pub fn get_project(&self, name: &str) -> (r: Result<Option<Project>, Error>)
        requires
            self.wf(),
        ensures
            r matches Ok(found) && (found is Some <==> project_named(self@.projects, name@)),
            r matches Ok(Some(p)) ==> p.name@ == name@ && exists|i: int|
                0 <= i < self@.projects.len() && p.decodes(#[trigger] self@.projects[i]),
    {
        let found = self.backend.find_project_by_name(name);
        proof {
            if found is Some {
                let i = choose|i: int|
                    0 <= i < self@.projects.len() && self@.projects[i] == found->0@;
                assert(timestamp_in_range(self@.projects[i].created_at));
            }
        }
        found_project(name, Response::Project(found))
    }

    /// The id of the project of the logical name `name`.
    pub fn get_project_id(&self, name: &str) -> (r: Result<i64, Error>)
        requires
            self.wf(),
        ensures
            r is Ok <==> project_named(self@.projects, name@),
            r matches Ok(id) ==> exists|i: int|
                0 <= i < self@.projects.len() && (#[trigger] self@.projects[i]).name == name@
                    && self@.projects[i].id == id,
            r matches Err(e) ==> e.is(ErrorKind::NotFound, name@),
    {
        match self.get_project(name) {
            Ok(Some(p)) => Ok(p.id),
            Ok(None) => Err(Error::new(ErrorKind::NotFound, name, "no such project")),
            Err(e) => Err(e),
        }
    }

    /// Creates the project `name` with the creation time `now`: its table, with
    /// the reserved column only, and its registry row, as one unit.
    pub fn create_project_at(&mut self, name: &str, now: i64) -> (r: Result<Project, Error>)
        requires
            old(self).wf(),
        ensures
            final(self).wf(),
            project_outcome(old(self)@, final(self)@, name@, now, r),
    {
        let action = match create_project_request(name, now) {
            Ok(action) => action,
            Err(e) => {
                return Err(e);
            },
        };
        proof {
            lemma_sanitized_shape(name@);
        }
        let response = self.backend.execute(&action);
        created_project(name, response)
    }

    /// Creates the project `name`, with the current time as its creation time.
    pub fn create_project(&mut self, name: &str) -> (r: Result<Project, Error>)
        requires
            old(self).wf(),
        ensures
            final(self).wf(),
            exists|at: i64|
                timestamp_in_range(at) && #[trigger] project_outcome(
                    old(self)@,
                    final(self)@,
                    name@,
                    at,
                    r,
                ),
    {
        let at = now();
        self.create_project_at(name, at)
    }

    /// The project of the logical name `name`, created with the creation time
    /// `now` where the store has none of that name.
    pub fn open_project_at(&mut self, name: &str, now: i64) -> (r: Result<Project, Error>)
        requires
            old(self).wf(),
        ensures
            final(self).wf(),
            open_outcome(old(self)@, final(self)@, name@, now, r),
    {
        let (first, request) = Opener::start(name, now);
        let mut opener = first;
        let mut action = request;
        loop
            invariant
                self.wf(),
                opener.name@ == name@,
                opener.now == now,
                self@ == old(self)@,
                opener.stage != Stage::Creating ==> (action matches Action::FindProject {
                    name: asked,
                } && asked@ == name@),
                opener.stage != Stage::Finding ==> !project_named(self@.projects, name@)
                    && sanitized(name@).len() > 0 && timestamp_in_range(now),
                opener.stage == Stage::Creating ==> action.creates_project(
                    name@,
                    sanitized(name@),
                    now,
                ),
                opener.stage == Stage::Refinding ==> (table_named(self@.projects, sanitized(name@))
                    || registry_table(sanitized(name@))),
            decreases opener.fuel(),
        {
            let response = self.backend.execute(&action);
            proof {
                lemma_sanitized_shape(name@);
                if response is Project && response->Project_0 is Some && opener.stage
                    == Stage::Finding {
                    let row = response->Project_0->0@;
                    let i = choose|i: int|
                        0 <= i < old(self)@.projects.len() && old(self)@.projects[i] == row;
                    assert(timestamp_in_range(old(self)@.projects[i].created_at));
                }
            }
            match opener.resume(response) {
                Opening::Ask(next, asked) => {
                    opener = next;
                    action = asked;
                },
                Opening::Done(r) => {
                    return r;
                },
            }
        }
    }

    /// The project of the logical name `name`, created now where the store has
    /// none of that name.
    pub fn open_project(&mut self, name: &str) -> (r: Result<Project, Error>)
        requires
            old(self).wf(),
        ensures
            final(self).wf(),
            exists|at: i64|
                timestamp_in_range(at) && #[trigger] open_outcome(
                    old(self)@,
                    final(self)@,
                    name@,
                    at,
                    r,
                ),
    {
        let at = now();
        self.open_project_at(name, at)
    }

    /// Creates the text column `name` of the project `project`, with the
    /// creation time `now`. A project that the store does not have is not found.
    pub fn create_column_at(&mut self, project: &str, name: &str, now: i64) -> (r: Result<(), Error>)
        requires
            old(self).wf(),
        ensures
            final(self).wf(),
            named_column_outcome(old(self)@, final(self)@, project@, name@, now, r),
    {
        let owner = match self.get_project(project) {
            Ok(Some(owner)) => owner,
            Ok(None) => {
                return Err(Error::new(ErrorKind::NotFound, project, "no such project"));
            },
            Err(e) => {
                return Err(e);
            },
        };
        proof {
            let i = choose|i: int|
                0 <= i < self@.projects.len() && owner.decodes(#[trigger] self@.projects[i]);
            assert(self@.projects[i].id == owner.id);
        }
        let created = owner.create_column_at(self, name, DataType::Text, now);
        let ghost witness = created;
        let r = match created {
            Ok(_) => Ok(()),
            Err(e) => Err(e),
        };
        proof {
            assert(named_column_step(old(self)@, self@, project@, name@, now, owner, witness, r));
        }
        r
    }

    /// Creates the text column `name` of the project `project`, now.
    pub fn create_column(&mut self, project: &str, name: &str) -> (r: Result<(), Error>)
        requires
            old(self).wf(),
        ensures
            final(self).wf(),
            exists|at: i64|
                timestamp_in_range(at) && #[trigger] named_column_outcome(
                    old(self)@,
                    final(self)@,
                    project@,
                    name@,
                    at,
                    r,
                ),
    {
        let at = now();
        self.create_column_at(project, name, at)
    }

    /// Writes one datapoint for the project `project` at the time `now`. The
    /// project is created first where the store has none of that name.
    pub fn add_datapoint_at(&mut self, project: &str, fields: &Fields, now: i64) -> (r: Result<
        (),
        Error,
    >)
        requires
            old(self).wf(),
            fields.wf(),
        ensures
            final(self).wf(),
            ingest_outcome(old(self)@, final(self)@, project@, fields@, now, r),
    {
        let opened = self.open_project_at(project, now);
        let ghost mid = self@;
        let ghost witness = opened;
        let owner = match opened {
            Ok(owner) => owner,
            Err(e) => {
                proof {
                    assert(ingest_step(old(self)@, mid, self@, project@, fields@, now, witness, Err(e)));
                }
                return Err(e);
            },
        };
        let r = owner.add_datapoint_at(self, fields, now);
        proof {
            assert(ingest_step(old(self)@, mid, self@, project@, fields@, now, witness, r));
        }
        r
    }

    /// Writes one datapoint for the project `project`, now. The project is
    /// created first where the store has none of that name.
    pub fn add_datapoint(&mut self, project: &str, fields: &Fields) -> (r: Result<(), Error>)
        requires
            old(self).wf(),
            fields.wf(),
        ensures
            final(self).wf(),
            exists|at: i64|
                timestamp_in_range(at) && #[trigger] ingest_outcome(
                    old(self)@,
                    final(self)@,
                    project@,
                    fields@,
                    at,
                    r,
                ),
    {
        let at = now();
        self.add_datapoint_at(project, fields, at)
    }
}

impl Project {
    /// The columns of this project, oldest first.
    pub fn get_columns(&self, db: &Database) -> (r: Result<Vec<Column>, Error>)
        requires
            db.wf(),
        ensures
            r matches Ok(cs) && column_views(cs@) == decode_rows(columns_of(db@.columns, self.id)),
    {
        let raws = db.backend.list_columns(self.id);
        proof {
            lemma_columns_of(db@.columns, self.id);
        }
        let r = listed_columns(self, Response::Columns(raws));
        proof {
            if r is Ok {
                assert(column_views(r->Ok_0@) =~= decode_rows(columns_of(db@.columns, self.id)));
            }
        }
        r
    }

    /// Creates a column of this project with the creation time `now`: the
    /// column of the table and the registry row, as one unit.
    pub fn create_column_at(&self, db: &mut Database, name: &str, column_type: DataType, now: i64) -> (r:
        Result<Column, Error>)
        requires
            old(db).wf(),
        ensures
            final(db).wf(),
            column_outcome(old(db)@, final(db)@, *self, name@, column_type, now, r),
    {
        let action = match create_column_request(self, name, column_type, now) {
            Ok(action) => action,
            Err(e) => {
                return Err(e);
            },
        };
        proof {
            lemma_sanitized_shape(name@);
            DataType::lemma_token_round_trip();
        }
        let response = db.backend.execute(&action);
        created_column(name, response)
    }

    /// Makes sure that each of `keys` names a column of this project, creating the
    /// columns that are missing one at a time, of the type `column_type` and with
    /// the creation time `now`. The columns come back in the order of the keys; a
    /// key that occurs twice gets the same column twice. The first key that gets
    /// no column ends the resolution; the columns created before it stay.
    pub fn get_or_create_columns_at(
        &self,
        db: &mut Database,
        keys: &Vec<String>,
        column_type: DataType,
        now: i64,
    ) -> (r: Result<Vec<Column>, Error>)
        requires
            old(db).wf(),
        ensures
            final(db).wf(),
            resolve_outcome(old(db)@, final(db)@, *self, texts(keys@), column_type, now, r),
    {
        let (first, request) = Resolver::start(self, copy_texts(keys), column_type, now);
        let mut resolver = first;
        let mut action = request;
        loop
            invariant
                db.wf(),
                resolver.wf(),
                resolving(old(db)@, db@, *self, texts(keys@), column_type, now, resolver, action),
            decreases resolver.fuel(),
        {
            let ghost mid = db@;
            let ghost waiting = resolver;
            let response = db.backend.execute(&action);
            let ghost answer = response;
            let step = resolver.resume(response);
            proof {
                lemma_round(
                    old(db)@,
                    mid,
                    db@,
                    *self,
                    texts(keys@),
                    column_type,
                    now,
                    waiting,
                    action,
                    answer,
                    step,
                );
            }
            match step {
                Step::Ask(next, asked) => {
                    resolver = next;
                    action = asked;
                },
                Step::Done(r) => {
                    return r;
                },
            }
        }
    }

    /// As `get_or_create_columns_at`, with text columns and the current time.
    pub fn get_or_create_columns(&self, db: &mut Database, keys: &Vec<String>) -> (r: Result<
        Vec<Column>,
        Error,
    >)
        requires
            old(db).wf(),
        ensures
            final(db).wf(),
            exists|at: i64|
                timestamp_in_range(at) && #[trigger] resolve_outcome(
                    old(db)@,
                    final(db)@,
                    *self,
                    texts(keys@),
                    DataType::Text,
                    at,
                    r,
                ),
    {
        let at = now();
        self.get_or_create_columns_at(db, keys, DataType::Text, at)
    }

    /// Writes one datapoint with the timestamp `now`: resolves the names of its
    /// fields to columns, checks each value against the type of its column, and
    /// inserts one row.
    pub fn add_datapoint_at(&self, db: &mut Database, fields: &Fields, now: i64) -> (r: Result<
        (),
        Error,
    >)
        requires
            old(db).wf(),
            fields.wf(),
        ensures
            final(db).wf(),
            datapoint_outcome(old(db)@, final(db)@, *self, fields@, now, r),
    {
        let keys = fields.keys();
        let columns = match self.get_or_create_columns_at(db, &keys, DataType::Text, now) {
            Ok(columns) => columns,
            Err(e) => {
                return Err(e);
            },
        };
        proof {
            lemma_answers_are_columns(
                db@.projects,
                db@.columns,
                self.id,
                keys_of(fields@),
                column_views(columns@),
            );
        }
        let action = match insert_request(self, &columns, fields, now) {
            Ok(action) => action,
            Err(e) => {
                proof {
                    let views = column_views(columns@);
                    let values = values_of(fields@);
                    assert(views.len() == columns@.len());
                    assert(keys_of(fields@).len() == fields@.len());
                    let i = choose|i: int|
                        0 <= i < columns@.len() && all_storable(views, values, i) && !storable(
                            (#[trigger] columns@[i]).column_type,
                            values[i],
                        ) && e.is(ErrorKind::TypeMismatch, fields@[i].0);
                    assert(views[i].column_type == columns@[i].column_type);
                    assert(keys_of(fields@)[i] == fields@[i].0);
                }
                return Err(e);
            },
        };
        let response = db.backend.execute(&action);
        proof {
            let names = encoded_names(column_views(columns@));
            assert(names.len() == columns@.len());
        }
        inserted(self, response)
    }

    /// Writes one datapoint, with the current time as its timestamp.
    pub fn add_datapoint(&self, db: &mut Database, fields: &Fields) -> (r: Result<(), Error>)
        requires
            old(db).wf(),
            fields.wf(),
        ensures
            final(db).wf(),
            exists|at: i64|
                timestamp_in_range(at) && #[trigger] datapoint_outcome(
                    old(db)@,
                    final(db)@,
                    *self,
                    fields@,
                    at,
                    r,
                ),
    {
        let at = now();
        self.add_datapoint_at(db, fields, at)
    }

    /// All rows of this project's table, oldest first, each with its timestamp
    /// and its values by the logical names of the project's columns. A project
    /// whose table the store does not have is not found.
    pub fn get_data(&self, db: &Database) -> (r: Result<Vec<Row>, Error>)
        requires
            db.wf(),
        ensures
            r is Ok <==> table_named(db@.projects, self.encoded@),
            r matches Ok(rows) ==> rows_read(
                rows@,
                decode_rows(columns_of(db@.columns, self.id)),
                rows_of(db@.rows, self.encoded@),
            ),
            r matches Err(e) ==> e.is(ErrorKind::NotFound, self.name@),
    {
        let columns = match self.get_columns(db) {
            Ok(columns) => columns,
            Err(e) => {
                return Err(e);
            },
        };
        let response = match db.backend.read_rows(self.encoded.as_str()) {
            Ok(raws) => {
                proof {
                    let stored = rows_of(db@.rows, self.encoded@);
                    assert forall|i: int| 0 <= i < raws@.len() implies cell_views(
                        (#[trigger] raws@[i]).cells@,
                    ) == stored_cells(stored[i]) by {
                        assert(cell_views(raws@[i].cells@) =~= stored_cells(stored[i]));
                    }
                }
                Response::Rows(raws)
            },
            Err(f) => Response::Failed(f),
        };
        decoded_rows(self, &columns, response)
    }

    /// Creates a column of this project, with the current time as its creation time.
    pub fn create_column(&self, db: &mut Database, name: &str, column_type: DataType) -> (r: Result<
        Column,
        Error,
    >)
        requires
            old(db).wf(),
        ensures
            final(db).wf(),
            exists|at: i64|
                timestamp_in_range(at) && #[trigger] column_outcome(
                    old(db)@,
                    final(db)@,
                    *self,
                    name@,
                    column_type,
                    at,
                    r,
                ),
    {
        let at = now();
        self.create_column_at(db, name, column_type, at)
    }
}

} // verus!
