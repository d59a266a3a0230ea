//! The result handed to the user interface for each command.
use vstd::prelude::*;

verus! {

/// `{success, data, error}`: data on success, an error text otherwise.
pub struct CommandResult<T> {
    pub success: bool,
    pub data: Option<T>,
    pub error: Option<String>,
}

impl<T> CommandResult<T> {
    pub fn ok(data: T) -> (r: CommandResult<T>)
        ensures
            r.success,
            r.data == Some(data),
            r.error is None,
    {
        CommandResult { success: true, data: Some(data), error: None }
    }

    pub fn err(msg: String) -> (r: CommandResult<T>)
        ensures
            !r.success,
            r.data is None,
            r.error == Some(msg),
    {
        CommandResult { success: false, data: None, error: Some(msg) }
    }
}

impl CommandResult<()> {
    pub fn ok_empty() -> (r: CommandResult<()>)
        ensures
            r.success,
            r.data == Some(()),
            r.error is None,
    {
        CommandResult { success: true, data: Some(()), error: None }
    }
}

} // verus!
