use vstd::prelude::*;

verus! {

/// The service address used when no region is chosen.
pub fn default_base_url() -> (r: &'static str)
    ensures
        r@ == "https://api.turbopuffer.com"@,
{
    "https://api.turbopuffer.com"
}

/// The service address of a region: `https://{region}.turbopuffer.com`.
pub fn region_base_url(region: &str) -> (r: String)
    ensures
        r@ == "https://"@ + region@ + ".turbopuffer.com"@,
{
    let mut url = "https://".to_owned();
    url.append(region);
    url.append(".turbopuffer.com");
    url
}

/// The full address of an endpoint: the base address followed by the path.
pub fn request_url(base_url: &str, path: &str) -> (r: String)
    ensures
        r@ == base_url@ + path@,
{
    let mut url = base_url.to_owned();
    url.append(path);
    url
}

/// The value of the `Authorization` header for an API key: `Bearer {key}`.
pub fn bearer(api_key: &str) -> (r: String)
    ensures
        r@ == "Bearer "@ + api_key@,
{
    let mut value = "Bearer ".to_owned();
    value.append(api_key);
    value
}

} // verus!
