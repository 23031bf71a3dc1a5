use service_metrics::tags::{outgoing_tags, Tag, TagSet, BUILD_VERSION, VERSION_KEY};

fn tag(key: &str, value: &str) -> Tag {
    Tag { key: key.to_string(), value: value.to_string() }
}

fn sorted(mut tags: Vec<Tag>) -> Vec<(String, String)> {
    let mut pairs: Vec<(String, String)> =
        tags.drain(..).map(|t| (t.key, t.value)).collect();
    pairs.sort();
    pairs
}

#[test]
fn new_tag_set_is_empty() {
    let tags = TagSet::new();
    assert_eq!(tags.len(), 0);
    assert_eq!(tags.get("method"), None);
}

#[test]
fn insert_adds_a_new_key() {
    let mut tags = TagSet::new();
    assert_eq!(tags.insert("method".to_string(), "GET".to_string()), None);
    assert_eq!(tags.len(), 1);
    assert_eq!(tags.get("method"), Some(&"GET".to_string()));
    assert_eq!(tags.get("path"), None);
}

#[test]
fn insert_replaces_the_value_of_a_known_key() {
    let mut tags = TagSet::new();
    tags.insert("method".to_string(), "GET".to_string());
    tags.insert("path".to_string(), "/".to_string());
    let previous = tags.insert("method".to_string(), "POST".to_string());
    assert_eq!(previous, Some("GET".to_string()));
    assert_eq!(tags.len(), 2);
    assert_eq!(tags.get("method"), Some(&"POST".to_string()));
    assert_eq!(tags.get("path"), Some(&"/".to_string()));
}

#[test]
fn a_replaced_key_keeps_its_place() {
    let mut tags = TagSet::new();
    tags.insert("method".to_string(), "GET".to_string());
    tags.insert("path".to_string(), "/".to_string());
    tags.insert("method".to_string(), "POST".to_string());
    assert_eq!(
        outgoing_tags(Some(tags)),
        vec![tag("method", "POST"), tag("path", "/"), tag(VERSION_KEY, BUILD_VERSION)]
    );
}

#[test]
fn keys_are_told_apart_by_their_whole_text() {
    let mut tags = TagSet::new();
    tags.insert("a".to_string(), "1".to_string());
    tags.insert("ab".to_string(), "2".to_string());
    tags.insert("".to_string(), "3".to_string());
    assert_eq!(tags.len(), 3);
    assert_eq!(tags.get("a"), Some(&"1".to_string()));
    assert_eq!(tags.get("ab"), Some(&"2".to_string()));
    assert_eq!(tags.get(""), Some(&"3".to_string()));
    assert_eq!(tags.get("b"), None);
}

#[test]
fn a_clone_holds_the_same_tags_in_the_same_order() {
    let mut tags = TagSet::new();
    tags.insert("method".to_string(), "GET".to_string());
    tags.insert("path".to_string(), "/".to_string());
    let copy = tags.clone();
    assert_eq!(copy.len(), 2);
    assert_eq!(outgoing_tags(Some(copy)), outgoing_tags(Some(tags)));
}

#[test]
fn the_version_constants() {
    assert_eq!(VERSION_KEY, "version");
    assert_eq!(BUILD_VERSION, "0.1.0");
}

#[test]
fn without_caller_tags_only_the_version_is_sent() {
    assert_eq!(outgoing_tags(None), vec![tag("version", "0.1.0")]);
    assert_eq!(outgoing_tags(Some(TagSet::new())), vec![tag("version", "0.1.0")]);
}

#[test]
fn the_version_tag_comes_last() {
    let mut tags = TagSet::new();
    tags.insert("method".to_string(), "GET".to_string());
    tags.insert("status".to_string(), "200".to_string());
    assert_eq!(
        outgoing_tags(Some(tags)),
        vec![tag("method", "GET"), tag("status", "200"), tag("version", "0.1.0")]
    );
}

#[test]
fn a_version_tag_of_the_caller_is_kept_beside_the_appended_one() {
    let mut tags = TagSet::new();
    tags.insert("version".to_string(), "mine".to_string());
    tags.insert("method".to_string(), "GET".to_string());
    let out = outgoing_tags(Some(tags));
    assert_eq!(
        out,
        vec![tag("version", "mine"), tag("method", "GET"), tag("version", "0.1.0")]
    );
    assert_eq!(out.iter().filter(|t| t.key == "version").count(), 2);
}

#[test]
fn a_caller_tag_equal_to_the_version_tag_is_sent_twice() {
    let mut tags = TagSet::new();
    tags.insert("version".to_string(), "0.1.0".to_string());
    assert_eq!(
        outgoing_tags(Some(tags)),
        vec![tag("version", "0.1.0"), tag("version", "0.1.0")]
    );
}

#[test]
fn the_order_of_insertion_does_not_change_what_is_sent() {
    let mut first = TagSet::new();
    first.insert("method".to_string(), "GET".to_string());
    first.insert("path".to_string(), "/".to_string());
    first.insert("status".to_string(), "200".to_string());
    let mut second = TagSet::new();
    second.insert("status".to_string(), "500".to_string());
    second.insert("path".to_string(), "/".to_string());
    second.insert("method".to_string(), "GET".to_string());
    second.insert("status".to_string(), "200".to_string());
    let a = outgoing_tags(Some(first));
    let b = outgoing_tags(Some(second));
    assert_eq!(a.len(), 4);
    assert_eq!(b.len(), 4);
    assert_ne!(a, b);
    assert_eq!(sorted(a), sorted(b));
}
