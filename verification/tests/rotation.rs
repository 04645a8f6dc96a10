use streambreak::content::rotation::Rotation;
use streambreak::content::ContentItem;

fn item(title: &str) -> ContentItem {
    ContentItem {
        title: title.to_string(),
        url: String::new(),
        source: String::new(),
        icon: String::new(),
        published_at: String::new(),
    }
}

#[test]
fn rotation_goes_round() {
    let mut r = Rotation::new(vec![item("a"), item("b"), item("c")]);
    assert_eq!(r.len(), 3);
    assert!(!r.is_empty());
    let got: Vec<String> = (0..7).map(|_| r.next().unwrap().title.clone()).collect();
    assert_eq!(got, vec!["a", "b", "c", "a", "b", "c", "a"]);
}

#[test]
fn empty_rotation_gives_nothing() {
    let mut r = Rotation::new(vec![]);
    assert!(r.is_empty());
    assert_eq!(r.len(), 0);
    assert!(r.next().is_none());
}

#[test]
fn update_items_restarts_from_first() {
    let mut r = Rotation::new(vec![item("a"), item("b")]);
    assert_eq!(r.next().unwrap().title, "a");
    r.update_items(vec![item("x"), item("y"), item("z")]);
    assert_eq!(r.len(), 3);
    assert_eq!(r.next().unwrap().title, "x");
    assert_eq!(r.next().unwrap().title, "y");
}
