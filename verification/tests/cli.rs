use ariata::cli::{
    active_label, confirms_deletion, enabled_label, plan_add_source, truncate_error, AddSourceError,
    AddSourcePlan,
};
use ariata::registry::{AuthType, ConnectorDescriptor, Registry};

fn registry() -> Registry {
    let mut registry = Registry::new();
    for (name, auth_type) in [("ios", AuthType::Device), ("google", AuthType::OAuth2), ("rss", AuthType::NoAuth)] {
        registry
            .register(ConnectorDescriptor {
                name: name.to_string(),
                display_name: name.to_string(),
                description: String::new(),
                auth_type,
                streams: vec![],
                icon: None,
            })
            .unwrap();
    }
    registry
}

#[test]
fn adding_a_device_needs_id_and_name() {
    let registry = registry();
    let some = |text: &str| Some(text.to_string());
    assert_eq!(
        plan_add_source(&registry, "ios", some("iPhone-123"), some("My phone")),
        Ok(AddSourcePlan::RegisterDevice {
            device_type: "ios".to_string(),
            device_id: "iPhone-123".to_string(),
            name: "My phone".to_string(),
        })
    );
    assert_eq!(plan_add_source(&registry, "ios", None, some("My phone")), Err(AddSourceError::MissingDeviceId));
    assert_eq!(plan_add_source(&registry, "ios", None, None), Err(AddSourceError::MissingDeviceId));
    assert_eq!(plan_add_source(&registry, "ios", some("iPhone-123"), None), Err(AddSourceError::MissingName));
    assert_eq!(AddSourceError::MissingDeviceId.message(), "device_id is required for device sources");
    assert_eq!(AddSourceError::MissingName.message(), "name is required for device sources");
}

#[test]
fn adding_an_account_goes_through_authorization() {
    let registry = registry();
    let authorize = |provider: &str| {
        Ok(AddSourcePlan::Authorize {
            provider: provider.to_string(),
            redirect_uri: "http://localhost:8080".to_string(),
        })
    };
    assert_eq!(plan_add_source(&registry, "google", None, None), authorize("google"));
    assert_eq!(plan_add_source(&registry, "google", Some("x".to_string()), None), authorize("google"));
    assert_eq!(plan_add_source(&registry, "rss", None, None), authorize("rss"));
    // a type that the registry does not know is no device
    assert_eq!(plan_add_source(&registry, "unknown", None, None), authorize("unknown"));
}

#[test]
fn confirmation_reads_yes() {
    for answer in ["yes", "yes\n", "  YES  ", "Yes", "yEs\r\n"] {
        assert!(confirms_deletion(answer), "{answer:?}");
    }
    for answer in ["", "y", "no", "yes please", "ye s", "yes.", "oui"] {
        assert!(!confirms_deletion(answer), "{answer:?}");
    }
}

#[test]
fn state_labels() {
    assert_eq!(active_label(true), "active");
    assert_eq!(active_label(false), "inactive");
    assert_eq!(enabled_label(true), "enabled");
    assert_eq!(enabled_label(false), "disabled");
}

#[test]
fn long_errors_are_cut() {
    let thirty = "a".repeat(30);
    assert_eq!(truncate_error(&thirty), thirty);
    let thirty_one = "abcdefghijklmnopqrstuvwxyz01234";
    assert_eq!(thirty_one.len(), 31);
    assert_eq!(truncate_error(thirty_one), "abcdefghijklmnopqrstuvwxyz0...");
    assert_eq!(truncate_error(""), "");
    assert_eq!(truncate_error("short"), "short");
    let long = "connection to upstream service timed out after 30 seconds";
    assert_eq!(truncate_error(long), format!("{}...", &long[..27]));
    assert_eq!(truncate_error(long).len(), 30);
}

#[test]
fn cut_never_splits_a_character() {
    // 16 characters of two bytes: byte 27 lies inside the 14th
    let text = "é".repeat(16);
    assert_eq!(text.len(), 32);
    assert_eq!(truncate_error(&text), format!("{}...", "é".repeat(13)));
    // 15 characters of two bytes are 30 bytes: nothing is cut
    let fits = "é".repeat(15);
    assert_eq!(truncate_error(&fits), fits);
    // byte 27 is a boundary
    let mixed = format!("a{}", "é".repeat(20));
    assert_eq!(truncate_error(&mixed), format!("a{}...", "é".repeat(13)));
    let wide = "🦀".repeat(8);
    assert_eq!(truncate_error(&wide), format!("{}...", "🦀".repeat(6)));
}
