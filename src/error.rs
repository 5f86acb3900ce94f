use vstd::prelude::*;

verus! {

/// Error of one sampling cycle, as shown to the operator.
#[derive(Debug)]
pub struct RTopError {
    pub err_msg: String,
}

impl RTopError {
    pub fn new(err_msg: String) -> (r: RTopError)
        ensures
            r.err_msg@ == err_msg@,
    {
        RTopError { err_msg }
    }
}

} // verus!
