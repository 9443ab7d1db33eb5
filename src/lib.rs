//! Scaffolding fetcher: resolves file identifiers to remote URLs, fills the
//! name placeholder in fetched text and plans where the result is written.

pub mod dispatch;
pub mod resolve;
pub mod task;
pub mod template;
pub mod text;

pub use dispatch::{failed_outcomes, TaskOutcome};
pub use resolve::{
    parse_file_name, resolve_against, split_identifier, ResolveError, ResolvedTarget,
    REMOTE_BASE,
};
pub use template::{
    fill_template, output_path, parent_dir, plan_write, Context, WritePlan, CONTENT_TOKEN,
    PATH_TOKEN,
};
pub use task::{FetchTask, Stage, TaskAction, TaskError, TaskEvent};
pub use text::{last_index_of, replace_token};
