pub mod edit;
pub mod memory;
pub mod migrations;
pub mod native;
pub mod note_repo;
pub mod sqlite;
