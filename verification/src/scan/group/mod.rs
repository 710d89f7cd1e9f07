//! Proto2 groups: the stack of open groups and access to a group's contents.
pub mod delimited;
pub mod stack;

pub use delimited::{GroupDelimited, GroupDelimitedImpl, GroupModel};
pub use stack::{GroupStack, GroupStackCapacity, StackModel, WrongGroupId};
