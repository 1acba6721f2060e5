//! Fixed answers of the `test2/client` routes.
use vstd::prelude::*;
use reqwest::StatusCode;

verus! {

/// The HTTP status type that a failing answer carries.
#[verifier::external_type_specification]
#[verifier::external_body]
pub struct ExStatusCode(StatusCode);

/// `GET /test2/client/money`.
pub fn gmoney() -> (r: Result<String, (StatusCode, &'static str)>)
    ensures
        r matches Ok(s) && s@ == "get /test2/client/money path is ok. "@,
{
    Ok(String::from_str("get /test2/client/money path is ok. "))
}

/// `POST /test2/client/money`.
pub fn pmoney() -> (r: Result<String, (StatusCode, &'static str)>)
    ensures
        r matches Ok(s) && s@ == "post /test2/client/money path is ok. "@,
{
    Ok(String::from_str("post /test2/client/money path is ok. "))
}

/// `GET /test2/client/`.
pub fn gclient() -> (r: Result<String, (StatusCode, &'static str)>)
    ensures
        r matches Ok(s) && s@ == "get /test2/client/ path is ok. "@,
{
    Ok(String::from_str("get /test2/client/ path is ok. "))
}

/// `POST /test2/client/`.
pub fn pclient() -> (r: Result<String, (StatusCode, &'static str)>)
    ensures
        r matches Ok(s) && s@ == "post /test2/client/ path is ok. "@,
{
    Ok(String::from_str("post /test2/client/ path is ok. "))
}

} // verus!
