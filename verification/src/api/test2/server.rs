//! Fixed answers of the `test2/server` money routes.
use vstd::prelude::*;
use reqwest::StatusCode;

verus! {

/// `GET /test2/server/money`.
pub fn gmoney() -> (r: Result<String, (StatusCode, &'static str)>)
    ensures
        r matches Ok(s) && s@ == "get /test2/server/money path is ok. "@,
{
    Ok(String::from_str("get /test2/server/money path is ok. "))
}

/// `POST /test2/server/money`.
pub fn pmoney() -> (r: Result<String, (StatusCode, &'static str)>)
    ensures
        r matches Ok(s) && s@ == "post /test2/server/money path is ok. "@,
{
    Ok(String::from_str("post /test2/server/money path is ok. "))
}

} // verus!
