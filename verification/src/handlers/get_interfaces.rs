//! The page showing the in or out bandwidth of a device's interfaces.
use vstd::prelude::*;
use crate::utils::{title_case, title_case_spec, title_caseable};

verus! {

/// The title of the page: the device's IP, the direction in title case, and
/// "Bandwidth" (e.g. "10.0.0.1 In Bandwidth").
pub fn interfaces_title(ip: &str, direction: &str) -> (r: String)
    requires
        title_caseable(direction@),
    ensures
        r@ == ip@ + " "@ + title_case_spec(direction@) + " Bandwidth"@,
{
    let mut r = String::from_str(ip);
    r.append(" ");
    let d = title_case(String::from_str(direction));
    r.append(d.as_str());
    r.append(" Bandwidth");
    r
}

} // verus!
