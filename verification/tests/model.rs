use sk2aac::descriptor::{
    ConvertError, Descriptor, Drive, Driver, DriverOption, ResolvedDrive, ShapeKeyCommon,
    ShapeKeyDrive, ShapeKeyGroup, ShapeKeyOption, ShapeKeySwitch,
};
use sk2aac::raw::{
    RawDescriptor, RawDrive, RawDriver, RawDriverOption, RawShapeKeyCommon, RawShapeKeyDrive,
    RawShapeKeyGroup, RawShapeKeyOption, RawShapeKeySwitch,
};
use sk2aac::text::{dedup_strings, sort_strings, str_lt, usize_to_string, value_text};
use sk2aac::validation::{valid_name, validate_descriptor, ValidationError};
use sk2aac::values::{NormalizedValue, PositiveIndex};

fn raw_common(name: &str, mesh: &str) -> RawShapeKeyCommon {
    RawShapeKeyCommon {
        name: name.to_string(),
        mesh: mesh.to_string(),
        prevent_eyelids: None,
        prevent_mouth: None,
    }
}

fn common(name: &str, mesh: &str) -> ShapeKeyCommon {
    ShapeKeyCommon {
        name: name.to_string(),
        mesh: mesh.to_string(),
        prevent_eyelids: false,
        prevent_mouth: false,
    }
}

fn value(permille: i64) -> NormalizedValue {
    NormalizedValue::new(permille).expect("value in range")
}

fn face_group() -> ShapeKeyGroup {
    ShapeKeyGroup {
        common: common("Face", "Body"),
        defaults: vec![],
        options: vec![
            ShapeKeyOption {
                label: "Happy".to_string(),
                index: None,
                shapes: vec![ShapeKeyDrive { shape: "Happy".to_string(), value: value(1000) }],
            },
            ShapeKeyOption {
                label: "Sad".to_string(),
                index: Some(PositiveIndex::new(5).unwrap()),
                shapes: vec![ShapeKeyDrive { shape: "Sad".to_string(), value: value(1000) }],
            },
        ],
    }
}

#[test]
fn bounded_value_accepts_exactly_unit_range() {
    assert!(NormalizedValue::new(0).is_some());
    assert!(NormalizedValue::new(1).is_some());
    assert!(NormalizedValue::new(500).is_some());
    assert!(NormalizedValue::new(1000).is_some());
    assert!(NormalizedValue::new(-1).is_none());
    assert!(NormalizedValue::new(1001).is_none());
    assert!(NormalizedValue::new(i64::MIN).is_none());
    assert!(NormalizedValue::new(i64::MAX).is_none());
    assert_eq!(NormalizedValue::new(750).unwrap().get(), 750);
}

#[test]
fn positive_index_rejects_zero() {
    assert!(PositiveIndex::new(0).is_none());
    assert_eq!(PositiveIndex::new(1).unwrap().get(), 1);
    assert_eq!(PositiveIndex::new(42).unwrap().get(), 42);
}

#[test]
fn name_validation_rejects_exactly_non_alphanumeric() {
    assert!(valid_name(&"Wink".to_string()));
    assert!(valid_name(&"Layer02".to_string()));
    assert!(valid_name(&"".to_string()));
    assert!(!valid_name(&"Wi nk".to_string()));
    assert!(!valid_name(&"Wink_L".to_string()));
    assert!(!valid_name(&"smile!".to_string()));
    assert!(!valid_name(&"ウィンク".to_string()));
}

#[test]
fn switch_conversion_applies_defaults() {
    let raw = RawShapeKeySwitch {
        common: raw_common("Wink", "Body"),
        shape: "Wink_L".to_string(),
        enabled_value: None,
        disabled_value: None,
    };
    let sw = ShapeKeySwitch::from_raw(&raw).expect("defaults are in range");
    assert_eq!(sw.enabled_value.get(), 1000);
    assert_eq!(sw.disabled_value.get(), 0);
    assert_eq!(sw.shape, "Wink_L");
    assert!(!sw.common.prevent_eyelids);
    assert!(!sw.common.prevent_mouth);
}

#[test]
fn switch_conversion_rejects_out_of_range_values() {
    let raw = RawShapeKeySwitch {
        common: raw_common("Wink", "Body"),
        shape: "Wink_L".to_string(),
        enabled_value: Some(1500),
        disabled_value: None,
    };
    match ShapeKeySwitch::from_raw(&raw) {
        Err(ConvertError::EnabledValueOutOfRange(v)) => assert_eq!(v, 1500),
        other => panic!("expected enabled-value error, got {:?}", other),
    }
    let raw = RawShapeKeySwitch {
        common: raw_common("Wink", "Body"),
        shape: "Wink_L".to_string(),
        enabled_value: None,
        disabled_value: Some(-2),
    };
    match ShapeKeySwitch::from_raw(&raw) {
        Err(ConvertError::DisabledValueOutOfRange(v)) => assert_eq!(v, -2),
        other => panic!("expected disabled-value error, got {:?}", other),
    }
}

#[test]
fn drive_conversion_uses_enclosing_default() {
    let raw = RawShapeKeyDrive::Complex { shape: "Smile".to_string(), value: None };
    let d = ShapeKeyDrive::from_raw(&raw, 300).expect("default in range");
    assert_eq!(d.value.get(), 300);
    let raw = RawShapeKeyDrive::Complex { shape: "Smile".to_string(), value: Some(1200) };
    match ShapeKeyDrive::from_raw(&raw, 300) {
        Err(ConvertError::DriveValueOutOfRange(v)) => assert_eq!(v, 1200),
        other => panic!("expected drive-value error, got {:?}", other),
    }
}

#[test]
fn bare_label_option_implies_single_full_drive() {
    let o = ShapeKeyOption::from_raw(&RawShapeKeyOption::Simple("Blink".to_string()))
        .expect("bare label converts");
    assert_eq!(o.label, "Blink");
    assert!(o.index.is_none());
    assert_eq!(o.shapes.len(), 1);
    assert_eq!(o.shapes[0].shape, "Blink");
    assert_eq!(o.shapes[0].value.get(), 1000);

    let o = ShapeKeyOption::from_raw(&RawShapeKeyOption::Complex {
        label: "Grin".to_string(),
        value: Some(400),
        index: None,
        shapes: None,
    })
    .expect("labelled option without drives converts");
    assert_eq!(o.shapes.len(), 1);
    assert_eq!(o.shapes[0].shape, "Grin");
    assert_eq!(o.shapes[0].value.get(), 1000);
}

#[test]
fn zero_index_option_is_rejected() {
    let r = ShapeKeyOption::from_raw(&RawShapeKeyOption::Complex {
        label: "Sad".to_string(),
        value: None,
        index: Some(0),
        shapes: None,
    });
    match r {
        Err(ConvertError::ZeroIndex(label)) => assert_eq!(label, "Sad"),
        other => panic!("expected zero-index error, got {:?}", other),
    }
}

#[test]
fn conversion_is_all_or_nothing() {
    let raw = RawDescriptor {
        name: "Avatar".to_string(),
        shape_switches: Some(vec![
            RawShapeKeySwitch {
                common: raw_common("Good", "Body"),
                shape: "A".to_string(),
                enabled_value: None,
                disabled_value: None,
            },
            RawShapeKeySwitch {
                common: raw_common("Bad", "Body"),
                shape: "B".to_string(),
                enabled_value: Some(2000),
                disabled_value: None,
            },
        ]),
        shape_groups: None,
        drivers: None,
    };
    match Descriptor::from_raw(&raw) {
        Err(ConvertError::EnabledValueOutOfRange(v)) => assert_eq!(v, 2000),
        other => panic!("expected conversion failure, got {:?}", other),
    }
}

#[test]
fn error_messages_name_the_failure() {
    assert_eq!(
        ConvertError::EnabledValueOutOfRange(2000).message(),
        "enabled_value out of range"
    );
    assert_eq!(
        ConvertError::DisabledValueOutOfRange(-1).message(),
        "disabled_value out of range"
    );
    assert_eq!(ConvertError::DriveValueOutOfRange(1200).message(), "Drive value out of range");
    assert_eq!(
        ConvertError::ZeroIndex("Sad".to_string()).message(),
        "Index must be non-zero"
    );
}

#[test]
fn validation_reports_bad_avatar_name() {
    let d = Descriptor {
        name: "Bad Name".to_string(),
        shape_switches: vec![],
        shape_groups: vec![],
        drivers: vec![],
    };
    match validate_descriptor(&d) {
        Err(ValidationError::InvalidName(n)) => assert_eq!(n, "Bad Name"),
        other => panic!("expected invalid-name error, got {:?}", other),
    }
}

#[test]
fn validation_reports_missing_switch_reference() {
    let d = Descriptor {
        name: "Avatar".to_string(),
        shape_switches: vec![],
        shape_groups: vec![],
        drivers: vec![Driver {
            name: "Moods".to_string(),
            options: vec![DriverOption {
                label: "On".to_string(),
                drives: vec![Drive::Switch { name: "Ghost".to_string(), enabled: true }],
            }],
        }],
    };
    match validate_descriptor(&d) {
        Err(ValidationError::NameNotExist(n)) => assert_eq!(n, "Ghost"),
        other => panic!("expected missing-name error, got {:?}", other),
    }
}

#[test]
fn validation_requires_group_label_to_exist() {
    let d = Descriptor {
        name: "Avatar".to_string(),
        shape_switches: vec![],
        shape_groups: vec![face_group()],
        drivers: vec![Driver {
            name: "Moods".to_string(),
            options: vec![DriverOption {
                label: "Angry".to_string(),
                drives: vec![
                    Drive::Group { name: "Face".to_string(), label: "Angry".to_string() },
                ],
            }],
        }],
    };
    match validate_descriptor(&d) {
        Err(ValidationError::NameNotExist(n)) => assert_eq!(n, "Face"),
        other => panic!("expected missing-label error, got {:?}", other),
    }
}

#[test]
fn validation_accepts_well_formed_descriptor() {
    let d = Descriptor {
        name: "Avatar".to_string(),
        shape_switches: vec![ShapeKeySwitch {
            common: common("Wink", "Body"),
            shape: "Wink_L".to_string(),
            enabled_value: value(1000),
            disabled_value: value(0),
        }],
        shape_groups: vec![face_group()],
        drivers: vec![Driver {
            name: "Moods".to_string(),
            options: vec![DriverOption {
                label: "Sulk".to_string(),
                drives: vec![
                    Drive::Switch { name: "Wink".to_string(), enabled: false },
                    Drive::Group { name: "Face".to_string(), label: "Sad".to_string() },
                ],
            }],
        }],
    };
    assert!(validate_descriptor(&d).is_ok());
}

#[test]
fn group_drive_resolves_explicit_and_positional_indices() {
    let d = Descriptor {
        name: "Avatar".to_string(),
        shape_switches: vec![],
        shape_groups: vec![face_group()],
        drivers: vec![],
    };
    let sad = Drive::Group { name: "Face".to_string(), label: "Sad".to_string() };
    match ResolvedDrive::resolve(&d, &sad) {
        ResolvedDrive::Integer { name, index } => {
            assert_eq!(name, "Face");
            assert_eq!(index, 5);
        }
        other => panic!("expected integer action, got {:?}", other),
    }
    let happy = Drive::Group { name: "Face".to_string(), label: "Happy".to_string() };
    match ResolvedDrive::resolve(&d, &happy) {
        ResolvedDrive::Integer { name, index } => {
            assert_eq!(name, "Face");
            assert_eq!(index, 1);
        }
        other => panic!("expected integer action, got {:?}", other),
    }
}

#[test]
fn unindexed_options_resolve_to_positions() {
    let labels = ["A", "B", "C", "D"];
    let group = ShapeKeyGroup {
        common: common("Many", "Body"),
        defaults: vec![],
        options: labels
            .iter()
            .map(|l| ShapeKeyOption {
                label: l.to_string(),
                index: None,
                shapes: vec![ShapeKeyDrive { shape: l.to_string(), value: value(1000) }],
            })
            .collect(),
    };
    let d = Descriptor {
        name: "Avatar".to_string(),
        shape_switches: vec![],
        shape_groups: vec![group],
        drivers: vec![],
    };
    for (pos, label) in labels.iter().enumerate() {
        let drive = Drive::Group { name: "Many".to_string(), label: label.to_string() };
        match ResolvedDrive::resolve(&d, &drive) {
            ResolvedDrive::Integer { index, .. } => assert_eq!(index, pos + 1),
            other => panic!("expected integer action, got {:?}", other),
        }
    }
}

#[test]
fn switch_drive_resolves_to_boolean_action() {
    let d = Descriptor {
        name: "Avatar".to_string(),
        shape_switches: vec![],
        shape_groups: vec![],
        drivers: vec![],
    };
    let drive = Drive::Switch { name: "Wink".to_string(), enabled: true };
    match ResolvedDrive::resolve(&d, &drive) {
        ResolvedDrive::Bool { name, enabled } => {
            assert_eq!(name, "Wink");
            assert!(enabled);
        }
        other => panic!("expected boolean action, got {:?}", other),
    }
}

#[test]
fn whole_driver_resolution_keeps_labels_and_order() {
    let d = Descriptor {
        name: "Avatar".to_string(),
        shape_switches: vec![ShapeKeySwitch {
            common: common("Wink", "Body"),
            shape: "Wink_L".to_string(),
            enabled_value: value(1000),
            disabled_value: value(0),
        }],
        shape_groups: vec![face_group()],
        drivers: vec![],
    };
    let driver = Driver {
        name: "Moods".to_string(),
        options: vec![DriverOption {
            label: "Sulk".to_string(),
            drives: vec![
                Drive::Switch { name: "Wink".to_string(), enabled: false },
                Drive::Group { name: "Face".to_string(), label: "Sad".to_string() },
            ],
        }],
    };
    let resolved = sk2aac::descriptor::ResolvedDriver::resolve(&d, &driver);
    assert_eq!(resolved.name, "Moods");
    assert_eq!(resolved.options.len(), 1);
    assert_eq!(resolved.options[0].label, "Sulk");
    assert_eq!(resolved.options[0].drives.len(), 2);
    match &resolved.options[0].drives[0] {
        ResolvedDrive::Bool { name, enabled } => {
            assert_eq!(name, "Wink");
            assert!(!enabled);
        }
        other => panic!("expected boolean action, got {:?}", other),
    }
    match &resolved.options[0].drives[1] {
        ResolvedDrive::Integer { name, index } => {
            assert_eq!(name, "Face");
            assert_eq!(*index, 5);
        }
        other => panic!("expected integer action, got {:?}", other),
    }
}

#[test]
fn driver_conversion_copies_structure() {
    let raw = RawDriver {
        name: "Moods".to_string(),
        options: vec![RawDriverOption {
            label: "On".to_string(),
            drives: vec![
                RawDrive::Switch { name: "Wink".to_string(), enabled: true },
                RawDrive::Group { name: "Face".to_string(), label: "Happy".to_string() },
            ],
        }],
    };
    let driver = Driver::from_raw(&raw);
    assert_eq!(driver.name, "Moods");
    assert_eq!(driver.options.len(), 1);
    assert_eq!(driver.options[0].drives.len(), 2);
    match &driver.options[0].drives[1] {
        Drive::Group { name, label } => {
            assert_eq!(name, "Face");
            assert_eq!(label, "Happy");
        }
        other => panic!("expected group drive, got {:?}", other),
    }
}

#[test]
fn group_conversion_defaults_lists_to_empty() {
    let raw = RawShapeKeyGroup {
        common: raw_common("Face", "Body"),
        defaults: None,
        options: None,
    };
    let g = ShapeKeyGroup::from_raw(&raw).expect("empty group converts");
    assert!(g.defaults.is_empty());
    assert!(g.options.is_empty());
}

#[test]
fn numbers_render_in_decimal() {
    assert_eq!(usize_to_string(0), "0");
    assert_eq!(usize_to_string(7), "7");
    assert_eq!(usize_to_string(10), "10");
    assert_eq!(usize_to_string(907), "907");
    assert_eq!(usize_to_string(120034), "120034");
}

#[test]
fn values_render_as_percentages_with_one_decimal_place() {
    assert_eq!(value_text(&value(0)), "0.0");
    assert_eq!(value_text(&value(1000)), "100.0");
    assert_eq!(value_text(&value(500)), "50.0");
    assert_eq!(value_text(&value(550)), "55.0");
    assert_eq!(value_text(&value(255)), "25.5");
    assert_eq!(value_text(&value(949)), "94.9");
    assert_eq!(value_text(&value(5)), "0.5");
}

#[test]
fn string_order_is_by_code_point() {
    assert!(str_lt("Apple", "Banana"));
    assert!(!str_lt("Banana", "Apple"));
    assert!(str_lt("App", "Apple"));
    assert!(!str_lt("Apple", "Apple"));
    assert!(str_lt("Zebra", "apple"));
}

#[test]
fn sorting_and_dedup_match_collection_order() {
    let names: Vec<String> =
        ["Sad", "Happy", "Sad", "Angry"].iter().map(|s| s.to_string()).collect();
    let sorted = sort_strings(&names);
    assert_eq!(sorted, vec!["Angry", "Happy", "Sad", "Sad"]);
    let deduped = dedup_strings(sorted);
    assert_eq!(deduped, vec!["Angry", "Happy", "Sad"]);
}

#[test]
fn validation_reports_the_first_violation() {
    let d = Descriptor {
        name: "Avatar".to_string(),
        shape_switches: vec![ShapeKeySwitch {
            common: common("Bad Switch", "Body"),
            shape: "A".to_string(),
            enabled_value: value(1000),
            disabled_value: value(0),
        }],
        shape_groups: vec![],
        drivers: vec![Driver { name: "Bad Driver".to_string(), options: vec![] }],
    };
    match validate_descriptor(&d) {
        Err(ValidationError::InvalidName(n)) => assert_eq!(n, "Bad Switch"),
        other => panic!("expected the switch violation first, got {:?}", other),
    }
}

#[test]
fn validation_messages_name_the_offender() {
    assert_eq!(
        ValidationError::InvalidName("Bad Name".to_string()).message(),
        "invalid name for an identifier: \"Bad Name\""
    );
    assert_eq!(
        ValidationError::NameNotExist("Ghost".to_string()).message(),
        "No group or switch found: \"Ghost\""
    );
}
