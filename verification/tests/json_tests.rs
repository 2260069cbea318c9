use youtui::json::{
    array_at, navigate, path_exists, read_string, read_thumbnail_list, Json, JsonErrorKind,
    Thumbnail,
};
use youtui::json_text::json_to_string;

fn s(t: &str) -> Json {
    Json::Str(t.to_string())
}

fn obj(members: Vec<(&str, Json)>) -> Json {
    Json::Object(members.into_iter().map(|(k, v)| (k.to_string(), v)).collect())
}

fn sample() -> Json {
    obj(vec![
        ("a", Json::Array(vec![obj(vec![("b", s("deep"))]), Json::Int(7)])),
        ("a/b", s("slash")),
        ("m~n", s("tilde")),
        ("", s("empty key")),
        ("n", Json::Null),
    ])
}

fn text_of(j: Option<&Json>) -> Option<String> {
    j.map(json_to_string)
}

#[test]
fn pointer_walks_members_and_elements() {
    let j = sample();
    assert_eq!(text_of(j.pointer("/a/0/b")), Some("\"deep\"".to_string()));
    assert_eq!(text_of(j.pointer("/a/1")), Some("7".to_string()));
    assert_eq!(text_of(j.pointer("/n")), Some("null".to_string()));
    assert_eq!(text_of(j.pointer("")), Some(json_to_string(&j)));
    assert_eq!(text_of(j.pointer("/")), Some("\"empty key\"".to_string()));
}

#[test]
fn pointer_resolves_escapes() {
    let j = sample();
    assert_eq!(text_of(j.pointer("/a~1b")), Some("\"slash\"".to_string()));
    assert_eq!(text_of(j.pointer("/m~0n")), Some("\"tilde\"".to_string()));
    // A `~` that starts no escape is kept as it is.
    assert_eq!(text_of(j.pointer("/m~n")), Some("\"tilde\"".to_string()));
    let k = obj(vec![("~1", s("kept"))]);
    assert_eq!(text_of(k.pointer("/~01")), Some("\"kept\"".to_string()));
}

#[test]
fn pointer_rejects_bad_indices_and_paths() {
    let j = sample();
    assert!(j.pointer("/a/2").is_none());
    assert!(j.pointer("/a/01").is_none());
    assert!(j.pointer("/a/+1").is_none());
    assert!(j.pointer("/a/-").is_none());
    assert!(j.pointer("/a/x").is_none());
    assert!(j.pointer("a").is_none());
    assert!(j.pointer("/n/0").is_none());
    assert!(j.pointer("/missing").is_none());
}

#[test]
fn reads_report_the_pointer() {
    let j = sample();
    let e = navigate(&j, "/nope").unwrap_err();
    assert_eq!(e.kind, JsonErrorKind::PathNotFound);
    assert_eq!(e.path, "/nope");
    let e = read_string(&j, "/a").unwrap_err();
    assert_eq!(e.kind, JsonErrorKind::UnexpectedType);
    assert_eq!(e.path, "/a");
    assert_eq!(read_string(&j, "/a/0/b").unwrap(), "deep");
    assert!(path_exists(&j, "/a/1"));
    assert!(!path_exists(&j, "/a/5"));
    assert_eq!(array_at(&j, "/a").unwrap().len(), 2);
    assert_eq!(array_at(&j, "/n").unwrap_err().kind, JsonErrorKind::UnexpectedType);
}

#[test]
fn thumbnails_are_read_from_objects_and_triples() {
    let j = obj(vec![(
        "t",
        Json::Array(vec![
            obj(vec![
                ("url", s("http://a/1.png")),
                ("height", Json::Int(192)),
                ("width", Json::Int(190)),
                ("extra", Json::Bool(true)),
            ]),
            Json::Array(vec![Json::Int(5), Json::Int(6), s("u")]),
        ]),
    )]);
    let ts = read_thumbnail_list(&j, "/t").unwrap();
    assert_eq!(
        ts,
        vec![
            Thumbnail { height: 192, width: 190, url: "http://a/1.png".to_string() },
            Thumbnail { height: 5, width: 6, url: "u".to_string() },
        ]
    );
    let bad = obj(vec![("t", Json::Array(vec![obj(vec![("height", Json::Int(-1))])]))]);
    let e = read_thumbnail_list(&bad, "/t").unwrap_err();
    assert_eq!(e.kind, JsonErrorKind::UnexpectedType);
    assert_eq!(read_thumbnail_list(&bad, "/x").unwrap_err().kind, JsonErrorKind::PathNotFound);
}

#[test]
fn text_of_values() {
    assert_eq!(json_to_string(&Json::Null), "null");
    assert_eq!(json_to_string(&Json::Bool(true)), "true");
    assert_eq!(json_to_string(&Json::Bool(false)), "false");
    assert_eq!(json_to_string(&Json::Int(-1203)), "-1203");
    assert_eq!(json_to_string(&Json::Int(0)), "0");
    assert_eq!(json_to_string(&Json::Fractional("1.5e3".to_string())), "1.5e3");
    assert_eq!(
        json_to_string(&s("a\"b\\c\nd\te\u{1}f\u{1f}é")),
        "\"a\\\"b\\\\c\\nd\\te\\u0001f\\u001fé\""
    );
    assert_eq!(json_to_string(&Json::Array(vec![])), "[]");
    assert_eq!(json_to_string(&obj(vec![])), "{}");
    assert_eq!(
        json_to_string(&obj(vec![("k", Json::Array(vec![Json::Int(1), s("x")])), ("z", Json::Null)])),
        "{\"k\":[1,\"x\"],\"z\":null}"
    );
}

#[test]
fn joined_pointers_navigate_in_steps() {
    let j = sample();
    let whole = text_of(j.pointer("/a/0/b"));
    let stepwise = text_of(j.pointer("/a/0").and_then(|x| x.pointer("/b")));
    assert_eq!(whole, stepwise);
    assert_eq!(text_of(j.pointer("/a/9/b")), None);
    assert!(j.pointer("/a/9").is_none());
    assert_eq!(text_of(j.pointer("/a~1b")), text_of(j.pointer("").and_then(|x| x.pointer("/a~1b"))));
}
