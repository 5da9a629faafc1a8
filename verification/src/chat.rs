//! The chat page of a tab: its messages, its session list and its footer, and
//! what each event of the host does to them.

pub mod bridge;
pub mod conversation;
pub mod events;
pub mod footer;
pub mod input;
pub mod laws;
pub mod message;
pub mod message_list;
pub mod scroll;
pub mod sidebar;
pub mod time_ago;
pub mod types;
pub mod virtual_list;
