use vstd::prelude::*;
use vstd::string::*;

use crate::app_error::AppError;

verus! {

/// The user agent recorded when a request names none.
pub const UNKNOWN_AGENT: &'static str = "Unknown";

/// Picks the client's address and user agent from what the request headers gave: the
/// forwarded-for address if it parsed, else the real-ip one; a request with neither is
/// refused. A missing user agent reads as `Unknown`.
pub fn extract_client_info(
    forwarded_for: Option<String>,
    real_ip: Option<String>,
    user_agent: Option<String>,
) -> (r: Result<(String, String), AppError>)
    ensures
        match (forwarded_for, real_ip) {
            (Some(f), _) => r matches Ok((ip, _)) && ip == f,
            (None, Some(x)) => r matches Ok((ip, _)) && ip == x,
            (None, None) => r is Err && r->Err_0 is ServerError,
        },
        r matches Ok((_, agent)) ==> agent@ == match user_agent {
            Some(a) => a@,
            None => UNKNOWN_AGENT@,
        },
{
    let ip = match forwarded_for {
        Some(f) => f,
        None => match real_ip {
            Some(x) => x,
            None => {
                return Err(AppError::ServerError(String::from_str("Client IP not found")));
            },
        },
    };
    let agent = match user_agent {
        Some(a) => a,
        None => String::from_str(UNKNOWN_AGENT),
    };
    Ok((ip, agent))
}

} // verus!
