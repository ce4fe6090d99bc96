//! Registry metadata: the decoded shape of one package's registry response.
//! The network call itself lives outside the library; the response body is
//! decoded here, so the expected `{ name, "dist-tags": { latest } }` shape is
//! checked by verified code.

use vstd::prelude::*;

use crate::json::{field_of, get_field, get_str, parse_json, parsed_json, str_of};

verus! {

/// Registry metadata of one package.
#[derive(Debug)]
pub struct Metadata {
    pub name: String,
    pub dist_tags: LatestVersion,
}

/// The registry's `dist-tags` object, reduced to its `latest` tag.
#[derive(Debug)]
pub struct LatestVersion {
    pub latest: String,
}

/// Why one fetch failed: the transport failed, or the body did not decode.
/// Either way the failure is isolated to that one package.
#[derive(Clone, Copy, PartialEq, Eq, Structural, Debug)]
pub enum FetchError {
    NetworkError,
    DecodeError,
}

/// The name and latest version held in a registry response body, when the
/// body is JSON of the shape `{ name, "dist-tags": { latest } }` with string
/// leaves; `None` otherwise.
pub open spec fn spec_decode(s: Seq<char>) -> Option<(Seq<char>, Seq<char>)> {
    match parsed_json(s) {
        None => None,
        Some(v) => match field_of(v, "name"@) {
            None => None,
            Some(nf) => match str_of(nf) {
                None => None,
                Some(n) => match field_of(v, "dist-tags"@) {
                    None => None,
                    Some(df) => match field_of(df, "latest"@) {
                        None => None,
                        Some(lf) => match str_of(lf) {
                            None => None,
                            Some(l) => Some((n, l)),
                        },
                    },
                },
            },
        },
    }
}

/// Decode one registry response body into its metadata.  Succeeds exactly on
/// bodies of the expected shape and returns exactly the two recorded strings.
pub fn decode_metadata(body: &str) -> (r: Result<Metadata, FetchError>)
    ensures
        match r {
            Ok(m) => spec_decode(body@) == Some((m.name@, m.dist_tags.latest@)),
            Err(e) => e == FetchError::DecodeError && spec_decode(body@) is None,
        },
{
    let v = match parse_json(body) {
        Ok(v) => v,
        Err(_) => {
            return Err(FetchError::DecodeError);
        },
    };
    let name = match get_field(&v, "name") {
        Some(nf) => match get_str(nf) {
            Some(n) => n,
            None => {
                return Err(FetchError::DecodeError);
            },
        },
        None => {
            return Err(FetchError::DecodeError);
        },
    };
    let latest = match get_field(&v, "dist-tags") {
        Some(df) => match get_field(df, "latest") {
            Some(lf) => match get_str(lf) {
                Some(l) => l,
                None => {
                    return Err(FetchError::DecodeError);
                },
            },
            None => {
                return Err(FetchError::DecodeError);
            },
        },
        None => {
            return Err(FetchError::DecodeError);
        },
    };
    Ok(Metadata { name, dist_tags: LatestVersion { latest } })
}

} // verus!
