use sk2aac::aac::write_descriptor_code;
use sk2aac::aac_object::{AacObject, Cond, Expr, Transition};
use sk2aac::descriptor::{
    Descriptor, ShapeKeyCommon, ShapeKeyDrive, ShapeKeyGroup, ShapeKeyOption, ShapeKeySwitch,
};
use sk2aac::raw::{
    RawDescriptor, RawShapeKeyCommon, RawShapeKeyGroup, RawShapeKeyOption, RawShapeKeySwitch,
};
use sk2aac::validation::validate_descriptor;
use sk2aac::values::{NormalizedValue, PositiveIndex};
use sk2aac::writer::CodeWriter;

fn value(permille: i64) -> NormalizedValue {
    NormalizedValue::new(permille).expect("value in range")
}

fn common(name: &str, mesh: &str) -> ShapeKeyCommon {
    ShapeKeyCommon {
        name: name.to_string(),
        mesh: mesh.to_string(),
        prevent_eyelids: false,
        prevent_mouth: false,
    }
}

fn wink_switch() -> ShapeKeySwitch {
    ShapeKeySwitch {
        common: common("Wink", "Body"),
        shape: "Wink_L".to_string(),
        enabled_value: value(1000),
        disabled_value: value(0),
    }
}

fn term(e: Expr) -> Cond {
    Cond::Term(e)
}

#[test]
fn conjunctions_hold_only_terms() {
    let good = Cond::And(vec![
        term(Expr::IsTrue("a".to_string())),
        term(Expr::IntEqual("b".to_string(), 0)),
    ]);
    assert!(good.is_valid());
    let nested = Cond::And(vec![
        term(Expr::IsTrue("a".to_string())),
        Cond::And(vec![term(Expr::IsFalse("b".to_string()))]),
    ]);
    assert!(!nested.is_valid());
    let with_or = Cond::And(vec![Cond::Or(vec![term(Expr::IsTrue("a".to_string()))])]);
    assert!(!with_or.is_valid());
}

#[test]
fn disjunctions_hold_conjunctions_or_bare_terms() {
    let good = Cond::Or(vec![
        Cond::And(vec![term(Expr::IsTrue("a".to_string()))]),
        term(Expr::IntNotEqual("b".to_string(), 0)),
    ]);
    assert!(good.is_valid());
    let nested = Cond::Or(vec![Cond::Or(vec![term(Expr::IsTrue("a".to_string()))])]);
    assert!(!nested.is_valid());
}

#[test]
fn empty_conditions_are_invalid() {
    assert!(!Cond::Or(vec![]).is_valid());
    assert!(!Cond::And(vec![]).is_valid());
    assert!(Cond::Term(Expr::IsTrue("a".to_string())).is_valid());
}

#[test]
fn transition_with_empty_condition_is_omitted() {
    let mut w = CodeWriter::new(4);
    Transition::new("a".to_string(), "b".to_string())
        .cond(Cond::Or(vec![]))
        .write_into(&mut w);
    assert_eq!(w.into_output(), "");
}

#[test]
fn guarded_transition_renders_condition_chain() {
    let mut w = CodeWriter::new(4);
    Transition::new("a".to_string(), "b".to_string())
        .cond(Cond::Or(vec![
            term(Expr::IsTrue("p".to_string())),
            Cond::And(vec![
                term(Expr::IntEqual("q".to_string(), 3)),
                term(Expr::IsFalse("r".to_string())),
            ]),
        ]))
        .write_into(&mut w);
    assert_eq!(
        w.into_output(),
        "a.TransitionsTo(b).When(p.IsTrue()).Or().When(q.IsEqualTo(3)).And(r.IsFalse());\n"
    );
}

#[test]
fn writer_tracks_indent_and_terminations() {
    let mut w = CodeWriter::new(4);
    w.write("head");
    w.indent_with_block();
    w.write("inner");
    w.wrap_ifdef("FLAG");
    w.write_without_indent("bare");
    w.flush();
    w.write_empty();
    w.flush();
    assert_eq!(
        w.into_output(),
        "head\n{\n    inner\n#if FLAG\nbare\n#endif\n\n}\n"
    );
}

#[test]
fn wink_switch_emits_expected_calls() {
    let d = Descriptor {
        name: "Avatar".to_string(),
        shape_switches: vec![wink_switch()],
        shape_groups: vec![],
        drivers: vec![],
    };
    assert!(validate_descriptor(&d).is_ok());
    let (class_name, output) = write_descriptor_code(d);
    assert_eq!(class_name, "SK2AACGenerator_Avatar");
    assert!(output.contains(
        "var renderer = (SkinnedMeshRenderer) gameObject.transform.Find(\"Body\").GetComponent<SkinnedMeshRenderer>();"
    ));
    assert!(output.contains("var layer = aac.CreateSupportingFxLayer(\"Wink\");"));
    assert!(output.contains("var parameter = layer.BoolParameter(\"Wink\");"));
    assert!(output.contains(
        "var disabled = layer.NewState(\"false: Disabled\").WithAnimation(aac.NewClip().BlendShape(renderer, \"Wink_L\", 0.0f));"
    ));
    assert!(output.contains(
        "var enabled = layer.NewState(\"true: Enabled\").WithAnimation(aac.NewClip().BlendShape(renderer, \"Wink_L\", 100.0f));"
    ));
    assert!(output.contains("disabled.TransitionsTo(enabled).When(parameter.IsTrue());"));
    assert!(output.contains("enabled.TransitionsTo(disabled).When(parameter.IsFalse());"));
}

#[test]
fn no_prevention_flags_emit_no_prevention_layer() {
    let d = Descriptor {
        name: "Avatar".to_string(),
        shape_switches: vec![wink_switch()],
        shape_groups: vec![],
        drivers: vec![],
    };
    let (_, output) = write_descriptor_code(d);
    assert!(!output.contains("TrackingControl"));
    assert!(!output.contains("Prevents Animation"));
    assert!(!output.contains("TrackingTracks"));
    assert!(!output.contains("TrackingAnimates"));
}

#[test]
fn prevention_layer_lists_groups_before_switches() {
    let mut sw = wink_switch();
    sw.common.prevent_mouth = true;
    let group = ShapeKeyGroup {
        common: ShapeKeyCommon {
            name: "Face".to_string(),
            mesh: "Body".to_string(),
            prevent_eyelids: false,
            prevent_mouth: true,
        },
        defaults: vec![],
        options: vec![ShapeKeyOption {
            label: "Happy".to_string(),
            index: None,
            shapes: vec![ShapeKeyDrive { shape: "Happy".to_string(), value: value(1000) }],
        }],
    };
    let d = Descriptor {
        name: "Avatar".to_string(),
        shape_switches: vec![sw],
        shape_groups: vec![group],
        drivers: vec![],
    };
    let (_, output) = write_descriptor_code(d);
    assert!(output.contains("var layer = aac.CreateSupportingFxLayer(\"Mouth_TrackingControl\");"));
    assert!(output.contains("var paramFace = layer.IntParameter(\"Face\");"));
    assert!(output.contains("var paramWink = layer.BoolParameter(\"Wink\");"));
    assert!(output.contains(
        "var tracking = layer.NewState(\"Tracking\").WithAnimation(aac.NewClip());"
    ));
    assert!(output.contains("tracking.TrackingTracks(TrackingElement.Mouth);"));
    assert!(output.contains("animated.TrackingAnimates(TrackingElement.Mouth);"));
    assert!(output.contains(
        "tracking.TransitionsTo(animated).When(paramFace.IsNotEqualTo(0)).Or().When(paramWink.IsTrue());"
    ));
    assert!(output.contains(
        "animated.TransitionsTo(tracking).When(paramFace.IsEqualTo(0)).And(paramWink.IsFalse());"
    ));
    assert!(!output.contains("Eyes_TrackingControl"));
}

#[test]
fn group_layer_emits_indices_and_sorted_defaults() {
    let group = ShapeKeyGroup {
        common: common("Face", "Body"),
        defaults: vec![ShapeKeyDrive { shape: "Sad".to_string(), value: value(200) }],
        options: vec![
            ShapeKeyOption {
                label: "Happy".to_string(),
                index: None,
                shapes: vec![ShapeKeyDrive { shape: "Happy".to_string(), value: value(1000) }],
            },
            ShapeKeyOption {
                label: "Sad".to_string(),
                index: Some(PositiveIndex::new(5).unwrap()),
                shapes: vec![ShapeKeyDrive { shape: "Sad".to_string(), value: value(800) }],
            },
        ],
    };
    let d = Descriptor {
        name: "Avatar".to_string(),
        shape_switches: vec![],
        shape_groups: vec![group],
        drivers: vec![],
    };
    let (_, output) = write_descriptor_code(d);
    assert!(output.contains("var parameter = layer.IntParameter(\"Face\");"));
    // The disabled state drives every appearing shape, sorted, to its
    // default (0.0 when no default names it).
    assert!(output.contains(
        "            var disabled = layer.NewState(\"0: Disabled\").WithAnimation(\n                aac.NewClip()\n                    .BlendShape(renderer, \"Happy\", 0.0f)\n                    .BlendShape(renderer, \"Sad\", 20.0f)\n            );"
    ));
    // The first option state is anchored to the right of the disabled state.
    assert!(output.contains(
        "var enabled1 = layer.NewState(\"1: Happy\").RightOf(disabled).WithAnimation(aac.NewClip().BlendShape(renderer, \"Happy\", 100.0f));"
    ));
    assert!(output.contains(
        "var enabled5 = layer.NewState(\"5: Sad\").WithAnimation(aac.NewClip().BlendShape(renderer, \"Sad\", 80.0f));"
    ));
    assert!(output.contains("disabled.TransitionsTo(enabled1).When(parameter.IsEqualTo(1));"));
    assert!(output.contains("enabled1.Exits().When(parameter.IsNotEqualTo(1));"));
    assert!(output.contains("disabled.TransitionsTo(enabled5).When(parameter.IsEqualTo(5));"));
    assert!(output.contains("enabled5.Exits().When(parameter.IsNotEqualTo(5));"));
}

#[test]
fn every_eighth_option_state_is_anchored() {
    let options: Vec<ShapeKeyOption> = (0..9)
        .map(|i| ShapeKeyOption {
            label: format!("L{}", i),
            index: None,
            shapes: vec![ShapeKeyDrive { shape: format!("L{}", i), value: value(1000) }],
        })
        .collect();
    let d = Descriptor {
        name: "Avatar".to_string(),
        shape_switches: vec![],
        shape_groups: vec![ShapeKeyGroup {
            common: common("Big", "Body"),
            defaults: vec![],
            options,
        }],
        drivers: vec![],
    };
    let (_, output) = write_descriptor_code(d);
    assert!(output.contains("var enabled1 = layer.NewState(\"1: L0\").RightOf(disabled)"));
    assert!(output.contains("var enabled9 = layer.NewState(\"9: L8\").RightOf(enabled1)"));
    assert!(output.contains("var enabled2 = layer.NewState(\"2: L1\").WithAnimation"));
}

#[test]
fn preamble_and_classes_frame_the_output() {
    let d = Descriptor {
        name: "Avatar".to_string(),
        shape_switches: vec![],
        shape_groups: vec![],
        drivers: vec![],
    };
    let (_, output) = write_descriptor_code(d);
    assert!(output.starts_with("// This file is generated by sk2aac\nusing UnityEngine;\n#if UNITY_EDITOR\n"));
    assert!(output.contains("using AnimatorAsCodeFramework.Examples;\n#endif\n"));
    assert!(output.contains("public class SK2AACGenerator_Avatar_Editor : Editor"));
    assert!(output.contains("    public override void OnInspectorGUI()"));
    assert!(output.contains("        if (GUILayout.Button(\"Generate\"))"));
    assert!(output.contains("            executor.GenerateAnimator();"));
    assert!(output.contains("public class SK2AACGenerator_Avatar : MonoBehaviour"));
    assert!(output.contains("    public void GenerateAnimator()"));
    assert!(output.contains("        var avatarDescriptor = GetComponent<VRCAvatarDescriptor>();"));
    assert!(output.contains(
        "        var aac = AacExample.AnimatorAsCode(\"SK2AAC\", avatarDescriptor, TargetContainer, AssetKey, AacExample.Options().WriteDefaultsOff());"
    ));
    assert!(output.ends_with("    }\n}\n"));
}

#[test]
fn end_to_end_from_raw_document() {
    let raw = RawDescriptor {
        name: "Avatar".to_string(),
        shape_switches: Some(vec![RawShapeKeySwitch {
            common: RawShapeKeyCommon {
                name: "Wink".to_string(),
                mesh: "Body".to_string(),
                prevent_eyelids: None,
                prevent_mouth: None,
            },
            shape: "Wink_L".to_string(),
            enabled_value: None,
            disabled_value: None,
        }]),
        shape_groups: Some(vec![RawShapeKeyGroup {
            common: RawShapeKeyCommon {
                name: "Face".to_string(),
                mesh: "Body".to_string(),
                prevent_eyelids: None,
                prevent_mouth: None,
            },
            defaults: None,
            options: Some(vec![
                RawShapeKeyOption::Simple("Happy".to_string()),
                RawShapeKeyOption::Complex {
                    label: "Sad".to_string(),
                    value: None,
                    index: Some(5),
                    shapes: None,
                },
            ]),
        }]),
        drivers: None,
    };
    let d = Descriptor::from_raw(&raw).expect("document converts");
    assert!(validate_descriptor(&d).is_ok());
    let (class_name, output) = write_descriptor_code(d);
    assert_eq!(class_name, "SK2AACGenerator_Avatar");
    assert!(output.contains("var parameter = layer.BoolParameter(\"Wink\");"));
    assert!(output.contains("disabled.TransitionsTo(enabled5).When(parameter.IsEqualTo(5));"));
    assert!(output.contains("disabled.TransitionsTo(enabled1).When(parameter.IsEqualTo(1));"));
}

#[test]
fn eyelid_prevention_targets_the_eyes() {
    let mut sw = wink_switch();
    sw.common.prevent_eyelids = true;
    let d = Descriptor {
        name: "Avatar".to_string(),
        shape_switches: vec![sw],
        shape_groups: vec![],
        drivers: vec![],
    };
    let (_, output) = write_descriptor_code(d);
    assert!(output.contains("var layer = aac.CreateSupportingFxLayer(\"Eyes_TrackingControl\");"));
    assert!(output.contains("tracking.TrackingTracks(TrackingElement.Eyes);"));
    assert!(output.contains("animated.TrackingAnimates(TrackingElement.Eyes);"));
    assert!(output.contains("tracking.TransitionsTo(animated).When(paramWink.IsTrue());"));
    assert!(output.contains("animated.TransitionsTo(tracking).When(paramWink.IsFalse());"));
    assert!(!output.contains("Mouth_TrackingControl"));
}

#[test]
fn layers_appear_in_descriptor_order() {
    let d = Descriptor {
        name: "Avatar".to_string(),
        shape_switches: vec![
            ShapeKeySwitch {
                common: common("First", "Body"),
                shape: "A".to_string(),
                enabled_value: value(1000),
                disabled_value: value(0),
            },
            ShapeKeySwitch {
                common: common("Second", "Body"),
                shape: "B".to_string(),
                enabled_value: value(1000),
                disabled_value: value(0),
            },
        ],
        shape_groups: vec![ShapeKeyGroup {
            common: common("Third", "Body"),
            defaults: vec![],
            options: vec![ShapeKeyOption {
                label: "X".to_string(),
                index: None,
                shapes: vec![ShapeKeyDrive { shape: "X".to_string(), value: value(1000) }],
            }],
        }],
        drivers: vec![],
    };
    let (_, output) = write_descriptor_code(d);
    let first = output.find("// Shape Key Switch \"First\"").expect("first switch emitted");
    let second = output.find("// Shape Key Switch \"Second\"").expect("second switch emitted");
    let third = output.find("// Shape Key Switch \"Third\"").expect("group emitted");
    assert!(first < second);
    assert!(second < third);
}
