use tsw_controller::config_defs::controller_profile::ControllerProfile;
use tsw_controller::config_loader::ConfigLoader;

fn profile(name: &str, controller_id: Option<&str>) -> ControllerProfile {
    ControllerProfile {
        name: name.to_string(),
        controls: vec![],
        controller_id: controller_id.map(|id| id.to_string()),
    }
}

#[test]
fn new_configuration_has_no_profiles() {
    let config = ConfigLoader::new();
    assert!(config.controller_profiles.is_empty());
    assert_eq!(config.find_controller_profile("loco", None), None);
}

#[test]
fn profile_is_found_by_name() {
    let config = ConfigLoader {
        controller_profiles: vec![profile("loco", None), profile("wagon", None)],
    };
    assert_eq!(config.find_controller_profile("wagon", None), Some(&profile("wagon", None)));
    assert_eq!(config.find_controller_profile("loco", Some("a")), Some(&profile("loco", None)));
    assert_eq!(config.find_controller_profile("tram", None), None);
    assert_eq!(config.find_controller_profile("Loco", None), None);
}

#[test]
fn profile_bound_to_a_controller_answers_for_that_controller() {
    let config = ConfigLoader {
        controller_profiles: vec![profile("loco", Some("a")), profile("loco", Some("b"))],
    };
    assert_eq!(config.find_controller_profile("loco", Some("b")), Some(&profile("loco", Some("b"))));
    assert_eq!(config.find_controller_profile("loco", Some("a")), Some(&profile("loco", Some("a"))));
    assert_eq!(config.find_controller_profile("loco", Some("c")), None);
}

#[test]
fn profile_bound_to_a_controller_answers_where_none_is_asked_for() {
    let config = ConfigLoader {
        controller_profiles: vec![profile("loco", Some("a")), profile("loco", Some("b"))],
    };
    assert_eq!(config.find_controller_profile("loco", None), Some(&profile("loco", Some("a"))));
}

#[test]
fn first_profile_that_answers_is_taken() {
    let config = ConfigLoader {
        controller_profiles: vec![
            profile("loco", Some("x")),
            profile("loco", None),
            profile("loco", Some("a")),
        ],
    };
    assert_eq!(config.find_controller_profile("loco", Some("a")), Some(&profile("loco", None)));
    assert_eq!(config.find_controller_profile("loco", Some("x")), Some(&profile("loco", Some("x"))));
}

#[test]
fn answers_to_compares_name_and_controller() {
    let bound = profile("loco", Some("a"));
    assert!(bound.answers_to("loco", Some("a")));
    assert!(bound.answers_to("loco", None));
    assert!(!bound.answers_to("loco", Some("b")));
    assert!(!bound.answers_to("wagon", Some("a")));
    let free = profile("loco", None);
    assert!(free.answers_to("loco", Some("a")));
    assert!(free.answers_to("loco", None));
    assert!(!free.answers_to("", None));
}
