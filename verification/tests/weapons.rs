use ragnarek_core::weapons::{
    calculate_optimal_prediction_time, contains_ci, str_eq, WeaponType,
};

#[test]
fn weapon_names_classify_case_insensitively() {
    assert_eq!(WeaponType::from_weapon_name("AK47"), WeaponType::Rifle);
    assert_eq!(WeaponType::from_weapon_name("weapon_m4a1_silencer"), WeaponType::Rifle);
    assert_eq!(WeaponType::from_weapon_name("AWP"), WeaponType::Sniper);
    assert_eq!(WeaponType::from_weapon_name("ssg08 scout"), WeaponType::Sniper);
    assert_eq!(WeaponType::from_weapon_name("Glock-18"), WeaponType::Pistol);
    assert_eq!(WeaponType::from_weapon_name("USP-S"), WeaponType::Pistol);
    assert_eq!(WeaponType::from_weapon_name("P90"), WeaponType::SMG);
    assert_eq!(WeaponType::from_weapon_name("UMP-45"), WeaponType::SMG);
    assert_eq!(WeaponType::from_weapon_name("Nova"), WeaponType::Shotgun);
    assert_eq!(WeaponType::from_weapon_name("XM1014"), WeaponType::Shotgun);
    assert_eq!(WeaponType::from_weapon_name("knife"), WeaponType::Unknown);
    assert_eq!(WeaponType::from_weapon_name(""), WeaponType::Unknown);
}

#[test]
fn substring_search_folds_only_ascii_letters() {
    assert!(contains_ci("WEAPON_AK47_GOLD", "ak47"));
    assert!(contains_ci("ak47", "ak47"));
    assert!(!contains_ci("ak4", "ak47"));
    assert!(!contains_ci("", "a"));
    assert!(contains_ci("anything", ""));
    // The pattern itself is not folded: an upper-case pattern letter
    // only matches itself.
    assert!(!contains_ci("ak47", "AK47"));
}

#[test]
fn string_equality_is_exact() {
    assert!(str_eq("head_0", "head_0"));
    assert!(!str_eq("head_0", "head_1"));
    assert!(!str_eq("head", "head_0"));
    assert!(str_eq("", ""));
}

#[test]
fn prediction_time_is_travel_plus_one_frame() {
    // 1000 units at 2700 units per second: 370 ms of travel, plus 16.
    assert_eq!(calculate_optimal_prediction_time(1_000_000, WeaponType::Rifle), 370 + 16);
    // Zero distance still buffers one frame.
    assert_eq!(calculate_optimal_prediction_time(0, WeaponType::Sniper), 16);
    // Slower classes take longer.
    let shotgun = calculate_optimal_prediction_time(1_000_000, WeaponType::Shotgun);
    let sniper = calculate_optimal_prediction_time(1_000_000, WeaponType::Sniper);
    assert!(shotgun > sniper);
}
