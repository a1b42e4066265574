use vstd::prelude::*;

use crate::vehicle::{parse_vehicle_type, requested_type, unknown_type_message, VehicleType};

verus! {

/// The body of an error reply.
pub struct ErrorResponse {
    pub error: String,
    pub details: Option<String>,
}

/// The body of a health-check reply.
pub struct HealthResponse {
    pub status: String,
    pub version: String,
    pub message: String,
}

/// The vehicle types a request simulates when it names none.
pub fn default_vehicle_types() -> (r: Vec<String>)
    ensures
        r@.len() == 3,
        r@[0]@ == "Heavy"@,
        r@[1]@ == "Standard"@,
        r@[2]@ == "Agile"@,
{
    let mut r: Vec<String> = Vec::new();
    r.push("Heavy".to_owned());
    r.push("Standard".to_owned());
    r.push("Agile".to_owned());
    r
}

/// The number of runs a benchmark makes when it names none.
pub fn default_iterations() -> (r: usize)
    ensures
        r == 30,
{
    30
}

/// Every name selects a vehicle type.
pub open spec fn all_requested(names: Seq<String>) -> bool {
    forall|i: int| 0 <= i < names.len() ==> (#[trigger] requested_type(names[i]@)) is Some
}

/// Parses the requested vehicle names, ignoring letter case.
///
/// Succeeds with one type per name, in order, when every name is known;
/// otherwise fails with the message for the first unknown name.
pub fn parse_vehicle_types(names: &Vec<String>) -> (r: Result<Vec<VehicleType>, String>)
    ensures
        r is Ok <==> all_requested(names@),
        r matches Ok(v) ==> v@.len() == names@.len() && forall|i: int|
            0 <= i < names@.len() ==> requested_type(names@[i]@) == Some(#[trigger] v@[i]),
        r matches Err(e) ==> exists|k: int|
            0 <= k < names@.len() && requested_type(#[trigger] names@[k]@) is None && e@ == unknown_type_message(
                names@[k]@,
            ) && all_requested(names@.subrange(0, k)),
{
    let mut out: Vec<VehicleType> = Vec::new();
    let mut i: usize = 0;
    while i < names.len()
        invariant
            i <= names.len(),
            out@.len() == i,
            forall|j: int| 0 <= j < i ==> requested_type(names@[j]@) == Some(#[trigger] out@[j]),
        decreases names.len() - i,
    {
        match parse_vehicle_type(names[i].as_str()) {
            Ok(t) => out.push(t),
            Err(e) => {
                proof {
                    let pre = names@.subrange(0, i as int);
                    assert forall|j: int| 0 <= j < pre.len() implies (#[trigger] requested_type(pre[j]@)) is Some by {
                        assert(pre[j] == names@[j]);
                        assert(requested_type(names@[j]@) == Some(out@[j]));
                    }
                    assert(requested_type(names@[i as int]@) is None);
                }
                return Err(e);
            },
        }
        i = i + 1;
    }
    proof {
        assert forall|j: int| 0 <= j < names@.len() implies (#[trigger] requested_type(names@[j]@)) is Some by {
            assert(requested_type(names@[j]@) == Some(out@[j]));
        }
    }
    Ok(out)
}

} // verus!
