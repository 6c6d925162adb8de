//! What the `jata` commands decide about Jatabag trees, verified: the ids a
//! pasted text holds, the file of kept ids, the tasks a plaintext render
//! draws, the queries and forms sent to the server and what its answers mean,
//! the timezone worked in, and when a choice has to be picked.
pub mod text;
pub mod id;
pub mod task;
pub mod tree_id;
pub mod store;
pub mod timezone;
pub mod render;
pub mod api;
pub mod pick;
pub mod cli;
