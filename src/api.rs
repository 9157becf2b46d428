//! Small rules of the client's requests to the API.
use vstd::prelude::*;
use vstd::string::*;

verus! {

/// Why an API response carried no data.
#[derive(Debug, PartialEq)]
pub enum ApiError {
    /// The server reported errors; this is the first one's message.
    Server(String),
    /// The server reported neither data nor an error.
    NoData,
}

/// `Bearer `
pub open spec fn bearer_prefix() -> Seq<char> {
    seq!['B', 'e', 'a', 'r', 'e', 'r', ' ']
}

/// The value of the `Authorization` header that presents a credential.
pub fn bearer_header(token: &str) -> (r: String)
    ensures
        r@ == bearer_prefix() + token@,
{
    let prefix = "Bearer ";
    proof {
        reveal_strlit("Bearer ");
    }
    assert(prefix@ =~= bearer_prefix());
    let mut header = String::from_str(prefix);
    header.append(token);
    header
}

/// The largest flamegraph file that is uploaded: 10 MiB.
pub const MAX_FLAMEGRAPH_BYTES: i64 = 10 * 1024 * 1024;

/// Whether a flamegraph file of `size` bytes is small enough to upload.
pub fn flamegraph_size_allowed(size: i64) -> (r: bool)
    ensures
        r == (size <= MAX_FLAMEGRAPH_BYTES),
{
    size <= MAX_FLAMEGRAPH_BYTES
}

/// Settles a response: the first reported error wins over any data; with
/// no error the data is the result, and with neither the response is empty.
pub fn response_result<T>(data: Option<T>, errors: Option<Vec<String>>) -> (r: Result<T, ApiError>)
    ensures
        match errors {
            Some(es) if es.len() > 0 => r == Err::<T, ApiError>(ApiError::Server(es[0])),
            _ => match data {
                Some(d) => r == Ok::<T, ApiError>(d),
                None => r == Err::<T, ApiError>(ApiError::NoData),
            },
        },
{
    if let Some(mut es) = errors {
        if es.len() > 0 {
            let first = es.swap_remove(0);
            return Err(ApiError::Server(first));
        }
    }
    match data {
        Some(d) => Ok(d),
        None => Err(ApiError::NoData),
    }
}

} // verus!
