use vstd::prelude::*;

verus! {

/// The kinds of vehicle, each with its own preset of characteristics.
#[derive(Clone, Copy, Debug, PartialEq, Eq, Structural)]
pub enum VehicleType {
    Heavy,
    Standard,
    Agile,
    UltraAgile,
}

/// The display name of each vehicle type.
pub open spec fn vehicle_name(t: VehicleType) -> Seq<char> {
    match t {
        VehicleType::Heavy => "Barco"@,
        VehicleType::Standard => "Lancha"@,
        VehicleType::Agile => "Avión"@,
        VehicleType::UltraAgile => "Ultra-Agile"@,
    }
}

impl VehicleType {
    pub fn name(&self) -> (r: &str)
        ensures
            r@ == vehicle_name(*self),
    {
        match self {
            VehicleType::Heavy => "Barco",
            VehicleType::Standard => "Lancha",
            VehicleType::Agile => "Avión",
            VehicleType::UltraAgile => "Ultra-Agile",
        }
    }
}

/// What `str::to_lowercase` gives for a text.
pub uninterp spec fn lower_of(s: Seq<char>) -> Seq<char>;

/// Relies on `str::to_lowercase`: the lowercase form of a text, which depends
/// on its characters alone.
#[verifier::external_body]
fn lowercase(s: &str) -> (r: String)
    ensures
        r@ == lower_of(s@),
{
    s.to_lowercase()
}

/// The vehicle type a lowercase request name selects; only the three
/// standard mission types can be requested.
pub open spec fn type_from_lowercase(s: Seq<char>) -> Option<VehicleType> {
    if s == "heavy"@ {
        Some(VehicleType::Heavy)
    } else if s == "standard"@ {
        Some(VehicleType::Standard)
    } else if s == "agile"@ {
        Some(VehicleType::Agile)
    } else {
        None
    }
}

/// The vehicle type a request name selects, whatever its letter case.
pub open spec fn requested_type(name: Seq<char>) -> Option<VehicleType> {
    type_from_lowercase(lower_of(name))
}

/// The message that rejects an unknown request name.
pub open spec fn unknown_type_message(name: Seq<char>) -> Seq<char> {
    "Unknown vehicle type: "@ + name + ". Valid types: Heavy, Standard, Agile"@
}

fn same_text(a: &str, b: &str) -> (r: bool)
    ensures
        r == (a@ == b@),
{
    a.to_owned() == b.to_owned()
}

/// The vehicle type an already lowercased request name selects.
pub fn vehicle_type_from_lowercase(lower: &str) -> (r: Option<VehicleType>)
    ensures
        r == type_from_lowercase(lower@),
{
    if same_text(lower, "heavy") {
        Some(VehicleType::Heavy)
    } else if same_text(lower, "standard") {
        Some(VehicleType::Standard)
    } else if same_text(lower, "agile") {
        Some(VehicleType::Agile)
    } else {
        None
    }
}

/// Parses one request name, ignoring letter case.
pub fn parse_vehicle_type(name: &str) -> (r: Result<VehicleType, String>)
    ensures
        match requested_type(name@) {
            Some(t) => r == Ok::<VehicleType, String>(t),
            None => r matches Err(e) && e@ == unknown_type_message(name@),
        },
{
    let lower = lowercase(name);
    match vehicle_type_from_lowercase(lower.as_str()) {
        Some(t) => Ok(t),
        None => {
            let mut msg = "Unknown vehicle type: ".to_owned();
            msg.append(name);
            msg.append(". Valid types: Heavy, Standard, Agile");
            Err(msg)
        },
    }
}

} // verus!
