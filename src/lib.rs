//! Live markdown preview: a deterministic markdown renderer, the change
//! filter of a file watcher, and the registry that fans rendered documents
//! out to connected viewers.
pub mod file_watcher;
pub mod markdown;
pub mod math;
pub mod server;
pub mod symbols;
pub mod text;

pub use file_watcher::{change_notification, is_markdown_extension, is_markdown_path, ChangeKind};
pub use markdown::{finish_html, plain_code_block, wrap_highlighted, MarkdownProcessor, MdEvent};
pub use math::{display_math, inline_math, process_latex_math};
pub use server::{asset_path, server_url, title_of, AppState, Delivery, LivedownServer, PushEvent};
pub use symbols::{get_emoji_map, process_emojis, replace};
