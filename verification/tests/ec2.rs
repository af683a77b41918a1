use journald_to_cloudwatch::ec2::{get_instance_name, Instance, InstanceNameError, Reservation, Tag};

fn tag(key: Option<&str>, value: Option<&str>) -> Tag {
    Tag { key: key.map(|k| k.to_string()), value: value.map(|v| v.to_string()) }
}

fn with_tags(tags: Option<Vec<Tag>>) -> Result<Option<Vec<Reservation>>, String> {
    Ok(Some(vec![Reservation { instances: Some(vec![Instance { tags }]) }]))
}

#[test]
fn the_name_tag_names_the_instance() {
    let response = with_tags(Some(vec![
        tag(Some("env"), Some("prod")),
        tag(Some("Name"), Some("web-1")),
        tag(Some("Name"), Some("web-2")),
    ]));
    assert_eq!(get_instance_name(response), Ok("web-1".to_string()));
}

#[test]
fn a_name_tag_without_value_is_passed_over() {
    let response = with_tags(Some(vec![
        tag(Some("Name"), None),
        tag(None, Some("orphan")),
        tag(Some("name"), Some("lower")),
        tag(Some("Name"), Some("db-7")),
    ]));
    assert_eq!(get_instance_name(response), Ok("db-7".to_string()));
    let response = with_tags(Some(vec![tag(Some("Name"), None)]));
    assert_eq!(get_instance_name(response), Err(InstanceNameError::MissingNameTag));
}

#[test]
fn only_the_first_instance_of_the_first_reservation_counts() {
    let named = Instance { tags: Some(vec![tag(Some("Name"), Some("second"))]) };
    let unnamed = Instance { tags: Some(vec![tag(Some("role"), Some("x"))]) };
    let response = Ok(Some(vec![
        Reservation { instances: Some(vec![unnamed.clone(), named.clone()]) },
        Reservation { instances: Some(vec![named.clone()]) },
    ]));
    assert_eq!(get_instance_name(response), Err(InstanceNameError::MissingNameTag));
    let response = Ok(Some(vec![
        Reservation { instances: Some(vec![named, unnamed]) },
        Reservation { instances: None },
    ]));
    assert_eq!(get_instance_name(response), Ok("second".to_string()));
}

#[test]
fn each_gap_in_the_answer_has_its_error() {
    assert_eq!(
        get_instance_name(Err("timeout".to_string())),
        Err(InstanceNameError::DescribeInstancesError("timeout".to_string()))
    );
    assert_eq!(get_instance_name(Ok(None)), Err(InstanceNameError::MissingReservations));
    assert_eq!(get_instance_name(Ok(Some(Vec::new()))), Err(InstanceNameError::EmptyReservations));
    assert_eq!(
        get_instance_name(Ok(Some(vec![Reservation { instances: None }]))),
        Err(InstanceNameError::MissingInstances)
    );
    assert_eq!(
        get_instance_name(Ok(Some(vec![Reservation { instances: Some(Vec::new()) }]))),
        Err(InstanceNameError::EmptyInstances)
    );
    assert_eq!(get_instance_name(with_tags(None)), Err(InstanceNameError::MissingTags));
    assert_eq!(get_instance_name(with_tags(Some(Vec::new()))), Err(InstanceNameError::MissingNameTag));
    assert_eq!(
        get_instance_name(with_tags(Some(vec![tag(Some("Names"), Some("x")), tag(None, None)]))),
        Err(InstanceNameError::MissingNameTag)
    );
}
