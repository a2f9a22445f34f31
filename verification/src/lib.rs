//! One-way, idempotent synchronisation of a local image directory with a
//! remote media server: the decisions of the sync engine, stated and proved.
//!
//! A run is a state machine (`run`): it asks for one piece of outside work at
//! a time and decides from the answer what comes next. The pieces it is made
//! of stand in modules of their own: the choice of the server (`endpoint`),
//! the search for the collection (`collection`), the files and their order
//! (`files`, `queue`), the upload and its outcome (`upload`), and the ledger
//! of what is already synchronised (`ledger`). What holds of whole runs is
//! proved in `trace`.

pub mod collection;
pub mod endpoint;
pub mod files;
pub mod ledger;
pub mod queue;
pub mod run;
pub mod text;
pub mod trace;
pub mod upload;
