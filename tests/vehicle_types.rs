use examen_parcial::api::models::{default_iterations, default_vehicle_types, parse_vehicle_types};
use examen_parcial::vehicle::{parse_vehicle_type, vehicle_type_from_lowercase, VehicleType};

#[test]
fn vehicle_type_names() {
    assert_eq!(VehicleType::Heavy.name(), "Barco");
    assert_eq!(VehicleType::Standard.name(), "Lancha");
    assert_eq!(VehicleType::Agile.name(), "Avión");
    assert_eq!(VehicleType::UltraAgile.name(), "Ultra-Agile");
}

#[test]
fn parsing_ignores_letter_case() {
    assert_eq!(parse_vehicle_type("HEAVY"), Ok(VehicleType::Heavy));
    assert_eq!(parse_vehicle_type("Standard"), Ok(VehicleType::Standard));
    assert_eq!(parse_vehicle_type("aGiLe"), Ok(VehicleType::Agile));
}

#[test]
fn lowercase_names_only_match_exactly() {
    assert_eq!(vehicle_type_from_lowercase("heavy"), Some(VehicleType::Heavy));
    assert_eq!(vehicle_type_from_lowercase("standard"), Some(VehicleType::Standard));
    assert_eq!(vehicle_type_from_lowercase("agile"), Some(VehicleType::Agile));
    assert_eq!(vehicle_type_from_lowercase("Heavy"), None);
    assert_eq!(vehicle_type_from_lowercase("ultraagile"), None);
    assert_eq!(vehicle_type_from_lowercase(""), None);
}

#[test]
fn unknown_type_is_rejected_with_message() {
    assert_eq!(
        parse_vehicle_type("UltraAgile"),
        Err("Unknown vehicle type: UltraAgile. Valid types: Heavy, Standard, Agile".to_string())
    );
}

#[test]
fn list_parses_in_order() {
    let names = vec!["agile".to_string(), "HEAVY".to_string(), "Agile".to_string()];
    assert_eq!(
        parse_vehicle_types(&names),
        Ok(vec![VehicleType::Agile, VehicleType::Heavy, VehicleType::Agile])
    );
    assert_eq!(parse_vehicle_types(&vec![]), Ok(vec![]));
}

#[test]
fn list_fails_on_first_unknown_name() {
    let names = vec!["heavy".to_string(), "boat".to_string(), "plane".to_string()];
    assert_eq!(
        parse_vehicle_types(&names),
        Err("Unknown vehicle type: boat. Valid types: Heavy, Standard, Agile".to_string())
    );
}

#[test]
fn defaults() {
    let names = default_vehicle_types();
    assert_eq!(names, vec!["Heavy".to_string(), "Standard".to_string(), "Agile".to_string()]);
    assert_eq!(
        parse_vehicle_types(&names),
        Ok(vec![VehicleType::Heavy, VehicleType::Standard, VehicleType::Agile])
    );
    assert_eq!(default_iterations(), 30);
}
