use ros_rerun::discovery::TopicTypes;

#[test]
fn topics_with_one_type_are_kept() {
    let mut types = TopicTypes::new();
    let listing = vec![
        ("/chatter".to_string(), vec!["std_msgs/msg/String".to_string()]),
        ("/mixed".to_string(), vec!["a/msg/A".to_string(), "b/msg/B".to_string()]),
        ("/none".to_string(), vec![]),
    ];
    types.refresh(&listing);
    assert_eq!(types.get(&"/chatter".to_string()).as_deref(), Some("std_msgs/msg/String"));
    assert!(types.get(&"/mixed".to_string()).is_none());
    assert!(types.get(&"/none".to_string()).is_none());
    types.refresh(&vec![]);
    assert!(types.get(&"/chatter".to_string()).is_none());
}
