use hubcaps::labels::{LabelOptions, Labels, Method};

#[test]
fn update_addresses_the_old_name() {
    let labels = Labels::new("softprops".to_string(), "hubcaps".to_string());
    let options = LabelOptions::new("new-name".to_string(), "ff0000".to_string());
    let request = labels.update("old-name", &options);
    assert_eq!(request.method, Method::Patch);
    assert_eq!(request.path, "/repos/softprops/hubcaps/labels/old-name");
    let body = request.body.expect("update carries a body");
    assert_eq!(body.name, "new-name");
    assert_eq!(body.color, "ff0000");
}

#[test]
fn create_posts_to_the_collection() {
    let labels = Labels::new("o".to_string(), "r".to_string());
    let options = LabelOptions::new("bug".to_string(), "fc2929".to_string());
    let request = labels.create(&options);
    assert_eq!(request.method, Method::Post);
    assert_eq!(request.path, "/repos/o/r/labels");
    let body = request.body.expect("create carries a body");
    assert_eq!(body.name, "bug");
    assert_eq!(body.color, "fc2929");
}

#[test]
fn delete_addresses_one_label() {
    let labels = Labels::new("o".to_string(), "r".to_string());
    let request = labels.delete("bug");
    assert_eq!(request.method, Method::Delete);
    assert_eq!(request.path, "/repos/o/r/labels/bug");
    assert!(request.body.is_none());
}

#[test]
fn list_gets_the_collection() {
    let labels = Labels::new("o".to_string(), "r".to_string());
    let request = labels.list();
    assert_eq!(request.method, Method::Get);
    assert_eq!(request.path, "/repos/o/r/labels");
    assert!(request.body.is_none());
}
