use mirgo_utils::gltf::FlipError;
use mirgo_utils::names::has_gltf_ext;
use mirgo_utils::names::is_valid_script_name;
use mirgo_utils::names::lower_first;
use mirgo_utils::names::pick_gltf;
use mirgo_utils::names::script_file_name;
use mirgo_utils::names::to_snake_case;

#[test]
fn snake_case_splits_camel_case() {
    assert_eq!(to_snake_case("EnemyChaser").as_str(), "enemy_chaser");
}

#[test]
fn snake_case_lowercases_single_word() {
    assert_eq!(to_snake_case("Foo").as_str(), "foo");
}

#[test]
fn snake_case_separates_consecutive_uppercase() {
    assert_eq!(to_snake_case("XYZ").as_str(), "x_y_z");
}

#[test]
fn snake_case_keeps_lowercase_names() {
    assert_eq!(to_snake_case("already_snake").as_str(), "already_snake");
}

#[test]
fn snake_case_of_empty_is_empty() {
    assert_eq!(to_snake_case("").as_str(), "");
}

#[test]
fn snake_case_handles_unicode_case_mapping() {
    assert_eq!(to_snake_case("ÉcranPrincipal").as_str(), "écran_principal");
}

#[test]
fn lower_first_keeps_rest_of_name() {
    assert_eq!(lower_first("EnemyChaser").as_str(), "enemyChaser");
}

#[test]
fn script_names_must_start_uppercase() {
    assert!(is_valid_script_name("Enemy"));
    assert!(!is_valid_script_name("enemy"));
    assert!(!is_valid_script_name(""));
    assert!(!is_valid_script_name("9Lives"));
}

#[test]
fn script_file_name_appends_go_suffix() {
    assert_eq!(script_file_name("EnemyChaser").as_str(), "enemy_chaser.go");
}

#[test]
fn gltf_extension_is_after_last_dot() {
    assert!(has_gltf_ext("duck.gltf"));
    assert!(has_gltf_ext("a.tar.gltf"));
    assert!(!has_gltf_ext("duck.glb"));
    assert!(!has_gltf_ext("gltf"));
    assert!(!has_gltf_ext("duck.gltf.bak"));
    assert!(!has_gltf_ext(".gltf"));
    assert!(!has_gltf_ext(""));
}

#[test]
fn pick_gltf_without_match_is_not_found() {
    let names = vec!["scene.bin".to_string(), "readme.md".to_string()];
    assert!(matches!(pick_gltf(&names), Err(FlipError::NotFound)));
}

#[test]
fn pick_gltf_finds_single_entry() {
    let names = vec!["scene.bin".to_string(), "duck.gltf".to_string()];
    assert_eq!(pick_gltf(&names).unwrap(), 1);
}

#[test]
fn pick_gltf_takes_first_match() {
    let names = vec!["a.gltf".to_string(), "b.gltf".to_string()];
    assert_eq!(pick_gltf(&names).unwrap(), 0);
}

#[test]
fn pick_gltf_of_empty_directory_is_not_found() {
    let names: Vec<String> = Vec::new();
    assert!(matches!(pick_gltf(&names), Err(FlipError::NotFound)));
}
