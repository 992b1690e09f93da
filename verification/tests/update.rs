use syno_photo_frame::update::{latest_not_yanked, update_available, update_icon_size, Crate};

fn read_index(text: &str) -> Vec<Crate> {
    text.lines()
        .filter_map(|line| serde_json::from_str::<serde_json::Value>(line.trim()).ok())
        .map(|value| Crate {
            vers: value["vers"].as_str().unwrap().to_string(),
            yanked: value["yanked"].as_bool().unwrap(),
        })
        .collect()
}

#[test]
fn get_latest_version_returns_last_not_yanked_crate() {
    const TEXT: &str = r#"{"vers": "0.1.0", "yanked": false}
            {"vers": "0.2.0", "yanked": false}
            {"vers": "0.3.0", "yanked": true}
            {"vers": "0.4.0", "yanked": false}
            {"vers": "0.5.0", "yanked": false}
            {"vers": "0.6.0", "yanked": true}"#;

    let result = latest_not_yanked(read_index(TEXT));

    assert!(result.is_some());
    assert_eq!(result.unwrap(), Crate { vers: "0.5.0".to_string(), yanked: false });
}

#[test]
fn no_release_when_all_are_yanked() {
    let crates = vec![
        Crate { vers: "0.1.0".to_string(), yanked: true },
        Crate { vers: "0.2.0".to_string(), yanked: true },
    ];

    assert_eq!(latest_not_yanked(crates), None);
    assert_eq!(latest_not_yanked(vec![]), None);
}

#[test]
fn update_is_announced_when_versions_differ() {
    assert!(update_available("0.5.0", "0.4.1"));
    assert!(!update_available("0.5.0", "0.5.0"));
}

#[test]
fn update_icon_is_a_fifteenth_of_screen_width() {
    assert_eq!(update_icon_size((1920, 1080)), (128, 128));
    assert_eq!(update_icon_size((14, 100)), (0, 0));
}
