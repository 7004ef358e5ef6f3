use vstd::prelude::*;

verus! {

/// An error reported to the caller of a service operation.
#[derive(Debug)]
pub struct AppError {
    pub message: String,
}

impl AppError {
    pub fn new(message: String) -> (r: Box<Self>)
        ensures
            r.message@ == message@,
    {
        Box::new(AppError { message })
    }
}

} // verus!
