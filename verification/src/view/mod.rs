//! One module per subcommand: each computes its payload from the hive
//! bytes (`run`) and renders it as text (`render_human`).

pub mod find;
pub mod info;
pub mod list;
pub mod show;
pub mod tree;
