//! Requests of the local protocol, one per connection; and the path of the
//! socket the server listens on.

use vstd::prelude::*;

use crate::text::push_all;

verus! {

/// A request from a command-line tool to the running server.
#[derive(Debug)]
#[allow(inconsistent_fields)]
pub enum Request {
    /// A page of memories, newest first.
    List { limit: usize, cursor: Option<String>, tags: Vec<String>, source: Option<String> },
    /// The one memory whose id starts with the prefix.
    Get { id_prefix: String },
    /// Memories ranked by similarity to a query.
    Recall { query: String, top_k: usize, tags: Vec<String> },
    /// Store a new memory.
    Store { content: String, tags: Vec<String>, source: Option<String> },
    /// Replace the content of a memory.
    Update { id: String, content: String },
    /// Delete memories by id or by filter; `older_than` is an RFC 3339 time.
    Forget { id: Option<String>, tags: Vec<String>, source: Option<String>, older_than: Option<String> },
}

/// The socket path inside `data_dir`: `memori.sock` joined to the directory
/// as a path join does on Unix (no separator is added after an empty
/// directory or one that already ends in `/`).
pub open spec fn socket_path_text(data_dir: Seq<char>) -> Seq<char> {
    if data_dir.len() == 0 || data_dir.last() == '/' {
        data_dir + "memori.sock"@
    } else {
        data_dir + "/"@ + "memori.sock"@
    }
}

/// Canonical socket path given the data directory.
pub fn socket_path(data_dir: &str) -> (p: String)
    ensures
        p@ == socket_path_text(data_dir@),
{
    let mut p = data_dir.to_owned();
    let n = data_dir.unicode_len();
    if n > 0 && data_dir.get_char(n - 1) != '/' {
        push_all(&mut p, "/");
    }
    push_all(&mut p, "memori.sock");
    p
}

} // verus!
