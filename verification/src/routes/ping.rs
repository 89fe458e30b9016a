use vstd::prelude::*;
use vstd::string::*;

verus! {

/// Says that the server is online: the status 200 and the text `pong`.
pub fn ping() -> (answer: (u16, String))
    ensures
        answer.0 == 200,
        answer.1@ == "pong"@,
{
    (200, String::from_str("pong"))
}

} // verus!
