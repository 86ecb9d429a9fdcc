use crate::state::{User, UserCursor};
use vstd::prelude::*;

verus! {

/// Something that happened in a workspace and that its participants are told
/// of. The five variants are all there are.
#[derive(Debug, Clone)]
pub enum Event {
    UserJoin { user: User },
    UserLeave { name: String },
    Cursor { user: String, cursor: UserCursor },
    BufferNew { path: String },
    BufferDelete { path: String },
}

} // verus!
