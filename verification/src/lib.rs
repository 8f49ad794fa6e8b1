//! Decision logic of the catalog's HTTP routes.

pub mod agents;
pub mod assets;
pub mod audit;
pub mod branches;
pub mod commit;
pub mod commit_routes;
pub mod contracts;
pub mod error;
pub mod events;
pub mod federation;
pub mod governance;
pub mod grants;
pub mod handles;
pub mod health;
pub mod iceberg;
pub mod ids;
pub mod levels;
pub mod limits;
pub mod lineage;
pub mod maintenance;
pub mod mcp;
pub mod metadata;
pub mod namespaces;
pub mod planning;
pub mod principals;
pub mod quality;
pub mod search;
pub mod semantics;
pub mod shares;
pub mod signing;
pub mod table_routes;
pub mod tables;
pub mod text;
pub mod textmap;
pub mod textset;
pub mod transaction;
