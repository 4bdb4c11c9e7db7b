pub mod backend;
pub mod command;
pub mod error;
pub mod facts;
pub mod forge;
pub mod github;
pub mod knowledge;
pub mod platform;
pub mod sync;
pub mod table;
pub mod template;
pub mod text;
pub mod version;
