use ros_rerun::converter::{Converter, ConverterError, ConverterSettings, SettingValue};
use ros_rerun::names::{fully_qualified_name, ROSTypeName, RerunName};
use ros_rerun::registry::{registration_list, ConverterBuilder, ConverterRegistry};

fn text_target(name: &str) -> RerunName {
    RerunName::RerunArchetype(name.to_string())
}

/// A registry built from the fixed list, with a schema catalog stub that knows
/// the listed types and counts how often it is asked.
fn registry_with_catalog(known: bool, calls: &mut usize) -> ConverterRegistry {
    let mut registry = ConverterRegistry::init();
    for proto in registration_list() {
        let outcome = match registry.lookup_needed(&proto) {
            Some(t) => {
                *calls += 1;
                Some(if known { Ok(ROSTypeName::new(t.package, t.name)) } else { Err("no such type".to_string()) })
            }
            None => None,
        };
        registry.register(&proto, outcome);
    }
    registry
}

#[test]
fn specific_converter_wins_over_generic() {
    let mut calls = 0;
    let registry = registry_with_catalog(true, &mut calls);
    let t = ROSTypeName::new("std_msgs", "String");
    let c = registry.find_converter(Some(&t), Some(&text_target("TextDocument"))).expect("resolves");
    assert!(matches!(c, Converter::StdStringToTextDocument(_)));
}

#[test]
fn specific_wins_whatever_the_registration_order() {
    let mut registry = ConverterRegistry::init();
    let list = registration_list();
    registry.register(&list[1], None);
    registry.register(&list[0], Some(Ok(ROSTypeName::new("std_msgs", "String"))));
    let t = ROSTypeName::new("std_msgs", "String");
    let c = registry.find_converter(Some(&t), Some(&text_target("rerun.archetypes.TextDocument"))).expect("resolves");
    assert!(matches!(c, Converter::StdStringToTextDocument(_)));
}

#[test]
fn other_types_fall_back_to_generic() {
    let mut calls = 0;
    let registry = registry_with_catalog(true, &mut calls);
    let t = ROSTypeName::new("geometry_msgs", "Pose");
    let c = registry.find_converter(Some(&t), Some(&text_target("TextDocument"))).expect("resolves");
    assert!(matches!(c, Converter::AnyToTextDocument(_)));
}

#[test]
fn default_converter_of_a_type() {
    let mut calls = 0;
    let registry = registry_with_catalog(true, &mut calls);
    let t = ROSTypeName::new("std_msgs", "String");
    let c = registry.find_converter(Some(&t), None).expect("resolves");
    assert!(matches!(c, Converter::StdStringToTextDocument(_)));
}

#[test]
fn unknown_default_reports_any_target() {
    let mut calls = 0;
    let registry = registry_with_catalog(true, &mut calls);
    let t = ROSTypeName::new("geometry_msgs", "Pose");
    match registry.find_converter(Some(&t), None) {
        Err(ConverterError::UnsupportedConversion { name, ros_type }) => {
            assert_eq!(name.describe(), "<ANY>");
            assert_eq!(ros_type.as_deref(), Some("geometry_msgs/msg/Pose"));
        }
        other => panic!("unexpected {:?}", other),
    }
}

#[test]
fn target_only_uses_generic() {
    let mut calls = 0;
    let registry = registry_with_catalog(true, &mut calls);
    let c = registry.find_converter(None, Some(&text_target("TextDocument"))).expect("resolves");
    assert!(matches!(c, Converter::AnyToTextDocument(_)));
    match registry.find_converter(None, Some(&text_target("Points3D"))) {
        Err(ConverterError::UnsupportedConversion { name, ros_type }) => {
            assert_eq!(name.describe(), "rerun.archetypes.Points3D");
            assert!(ros_type.is_none());
        }
        other => panic!("unexpected {:?}", other),
    }
}

#[test]
fn neither_type_nor_target_fails() {
    let mut calls = 0;
    let registry = registry_with_catalog(true, &mut calls);
    match registry.find_converter(None, None) {
        Err(ConverterError::UnsupportedConversion { name, ros_type }) => {
            assert_eq!(name.describe(), "<ANY>");
            assert!(ros_type.is_none());
        }
        other => panic!("unexpected {:?}", other),
    }
}

#[test]
fn both_unknown_reports_type_and_target() {
    let registry = ConverterRegistry::init();
    let t = ROSTypeName::new("std_msgs", "String");
    match registry.find_converter(Some(&t), Some(&text_target("TextDocument"))) {
        Err(ConverterError::UnsupportedConversion { name, ros_type }) => {
            assert_eq!(name.describe(), "rerun.archetypes.TextDocument");
            assert_eq!(ros_type.as_deref(), Some("std_msgs/msg/String"));
        }
        other => panic!("unexpected {:?}", other),
    }
}

#[test]
fn failed_lookup_is_not_retried() {
    let mut calls = 0;
    let mut registry = registry_with_catalog(false, &mut calls);
    assert_eq!(calls, 1);
    let proto = &registration_list()[0];
    assert!(registry.lookup_needed(proto).is_none());
    registry.register(proto, None);
    let t = ROSTypeName::new("std_msgs", "String");
    let c = registry.find_converter(Some(&t), Some(&text_target("TextDocument"))).expect("generic still resolves");
    assert!(matches!(c, Converter::AnyToTextDocument(_)));
    assert!(registry.find_converter(Some(&t), None).is_err());
}

#[test]
fn qualification_is_idempotent() {
    let a = fully_qualified_name(&text_target("TextDocument"));
    let b = fully_qualified_name(&text_target("rerun.archetypes.TextDocument"));
    assert_eq!(a.describe(), "rerun.archetypes.TextDocument");
    assert_eq!(b.describe(), "rerun.archetypes.TextDocument");
    assert!(a.same_as(&b));
    assert!(fully_qualified_name(&a).same_as(&a));
    let other = fully_qualified_name(&RerunName::ROSArchetype("TextDocument".into()));
    assert_eq!(other.describe(), "TextDocument");
}

#[test]
fn builder_configures_the_converter() {
    let mut calls = 0;
    let registry = registry_with_catalog(true, &mut calls);
    let settings = ConverterSettings::new().with("field", SettingValue::Text("name".into()));
    let c = ConverterBuilder::new_with_registry(&registry)
        .topic("/chatter")
        .rerun_name(text_target("TextDocument"))
        .config(settings)
        .build()
        .expect("builds");
    match c {
        Converter::AnyToTextDocument(a) => assert_eq!(a.config.field.as_deref(), Some("name")),
        other => panic!("unexpected {:?}", other),
    }
}

#[test]
fn builder_rejects_bad_settings() {
    let mut calls = 0;
    let registry = registry_with_catalog(true, &mut calls);
    let settings = ConverterSettings::new().with("field", SettingValue::Integer(3));
    let r = ConverterBuilder::new_with_registry(&registry).rerun_name(text_target("TextDocument")).config(settings).build();
    assert!(matches!(r, Err(ConverterError::InvalidConfig(..))));
    let settings = ConverterSettings::new().with("anything", SettingValue::Boolean(true));
    let r = ConverterBuilder::new_with_registry(&registry)
        .ros_type(ROSTypeName::new("std_msgs", "String"))
        .rerun_name(text_target("TextDocument"))
        .config(settings)
        .build();
    match r {
        Err(ConverterError::InvalidConfig(name, ty, _)) => {
            assert_eq!(name.describe(), "rerun.archetypes.TextDocument");
            assert_eq!(ty, "std_msgs/msg/String");
        }
        other => panic!("unexpected {:?}", other),
    }
}

#[test]
fn builder_without_converter_fails() {
    let registry = ConverterRegistry::init();
    let r = ConverterBuilder::new_with_registry(&registry).rerun_name(text_target("TextDocument")).build();
    assert!(matches!(r, Err(ConverterError::UnsupportedConversion { .. })));
}

#[test]
fn validated_and_unchecked_names_compare() {
    let t = ROSTypeName::new("std_msgs", "String");
    assert!(t.matches(&ros_rerun::names::ROSTypeString::new("std_msgs", "String")));
    assert!(!t.matches(&ros_rerun::names::ROSTypeString::new("std_msgs", "Header")));
    assert!(t.same_as(&t.duplicate()));
    assert_eq!(t.path(), "std_msgs/msg/String");
}

#[test]
fn type_alone_never_resolves_a_generic_converter() {
    let mut registry = ConverterRegistry::init();
    let list = registration_list();
    registry.register(&list[1], None);
    let t = ROSTypeName::new("geometry_msgs", "Pose");
    assert!(registry.find_converter(Some(&t), None).is_err());
}
