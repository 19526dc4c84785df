use send_core::json::{collection_from_json, collection_to_json, workspace_from_json, workspace_to_json};
use send_core::model::{AppStorage, BodyType, Collection, Environment, Folder, FormDataEntry, HttpRequest};

fn full_request() -> HttpRequest {
    HttpRequest {
        id: "req-1".to_string(),
        name: "Crea\"te\\ user\n".to_string(),
        method: "POST".to_string(),
        url: "https://api.test/users?x=1".to_string(),
        headers: vec![
            ("Content-Type".to_string(), "application/json".to_string()),
            ("X-Weird".to_string(), "tab\there".to_string()),
        ],
        body: "{\"name\": \"émilie\"}".to_string(),
        body_type: BodyType::Json,
        form_data: vec![
            FormDataEntry::Text { key: "k".to_string(), value: "v".to_string() },
            FormDataEntry::File {
                key: "f".to_string(),
                file_path: "/tmp/a.bin".to_string(),
                file_name: "a.bin".to_string(),
            },
        ],
        url_encoded_data: vec![("u".to_string(), "1".to_string())],
        query_params: vec![("q".to_string(), "a b".to_string())],
    }
}

fn workspace_storage() -> AppStorage {
    let grand = Folder {
        id: "g".to_string(),
        name: "grand".to_string(),
        requests: vec![full_request()],
        folders: vec![],
    };
    let child = Folder {
        id: "c".to_string(),
        name: "child".to_string(),
        requests: vec![],
        folders: vec![grand],
    };
    let col = Collection {
        id: "col".to_string(),
        name: "Main".to_string(),
        root_folder: Folder {
            id: "root".to_string(),
            name: "Root".to_string(),
            requests: vec![full_request()],
            folders: vec![child],
        },
    };
    AppStorage {
        collections: vec![col],
        environments: vec![
            Environment {
                name: "Dev".to_string(),
                variables: vec![
                    ("base".to_string(), "https://api.test".to_string()),
                    ("base".to_string(), "duplicate kept".to_string()),
                ],
            },
            Environment { name: "Empty".to_string(), variables: vec![] },
        ],
    }
}

#[test]
fn workspace_documents_round_trip() {
    let st = workspace_storage();
    let doc = workspace_to_json(&st);
    let back = workspace_from_json(doc.as_str()).expect("the canonical document must load");
    // writing the reread model reproduces the same canonical text
    assert_eq!(workspace_to_json(&back), doc);
    // and the structure survives: ids, names, ordering, body-kind fields
    assert_eq!(back.collections.len(), 1);
    assert_eq!(back.collections[0].id, "col");
    assert_eq!(back.collections[0].root_folder.folders[0].name, "child");
    let deep = &back.collections[0].root_folder.folders[0].folders[0];
    assert_eq!(deep.name, "grand");
    let r = &deep.requests[0];
    assert_eq!(r.name, "Crea\"te\\ user\n");
    assert_eq!(r.body, "{\"name\": \"émilie\"}");
    assert_eq!(r.body_type, BodyType::Json);
    assert_eq!(r.headers.len(), 2);
    assert_eq!(r.form_data.len(), 2);
    assert_eq!(r.url_encoded_data, vec![("u".to_string(), "1".to_string())]);
    assert_eq!(r.query_params, vec![("q".to_string(), "a b".to_string())]);
    // duplicate environment variables survive in order
    assert_eq!(back.environments[0].variables.len(), 2);
    assert_eq!(back.environments[0].variables[1].1, "duplicate kept");
    assert_eq!(back.environments[1].name, "Empty");
}

#[test]
fn empty_workspace_round_trips() {
    let st = AppStorage { collections: vec![], environments: vec![] };
    let doc = workspace_to_json(&st);
    assert_eq!(doc, "{\"collections\":[],\"environments\":[]}");
    let back = workspace_from_json(doc.as_str()).expect("must load");
    assert!(back.collections.is_empty());
    assert!(back.environments.is_empty());
}

#[test]
fn collection_exports_round_trip() {
    let st = workspace_storage();
    let doc = collection_to_json(&st.collections[0]);
    let back = collection_from_json(doc.as_str()).expect("the export must load");
    assert_eq!(collection_to_json(&back), doc);
    assert_eq!(back.name, "Main");
    assert_eq!(back.root_folder.requests.len(), 1);
}

#[test]
fn malformed_documents_are_rejected() {
    assert!(workspace_from_json("").is_none());
    assert!(workspace_from_json("nonsense").is_none());
    assert!(workspace_from_json("{\"collections\":[]").is_none());
    assert!(workspace_from_json("{\"collections\":[],\"environments\":[]} ").is_none());
    assert!(collection_from_json("{}").is_none());
    // an unescaped control character inside a string is refused
    assert!(workspace_from_json("{\"collections\":[{\"id\":\"\n\",\"name\":\"x\",\"root_folder\":{\"id\":\"r\",\"name\":\"n\",\"requests\":[],\"folders\":[]}}],\"environments\":[]}").is_none());
}

#[test]
fn body_kinds_keep_their_stored_tags() {
    for (bt, tag) in [
        (BodyType::NoBody, "\"None\""),
        (BodyType::Raw, "\"Raw\""),
        (BodyType::Json, "\"Json\""),
        (BodyType::FormData, "\"FormData\""),
        (BodyType::UrlEncoded, "\"UrlEncoded\""),
    ] {
        let mut r = full_request();
        r.body_type = bt;
        let st = AppStorage {
            collections: vec![Collection {
                id: "c".to_string(),
                name: "C".to_string(),
                root_folder: Folder {
                    id: "r".to_string(),
                    name: "Root".to_string(),
                    requests: vec![r],
                    folders: vec![],
                },
            }],
            environments: vec![],
        };
        let doc = workspace_to_json(&st);
        assert!(doc.contains(&format!("\"body_type\":{}", tag)));
        let back = workspace_from_json(doc.as_str()).expect("must load");
        assert_eq!(back.collections[0].root_folder.requests[0].body_type, bt);
    }
}

#[test]
fn fresh_identifiers_are_hyphenated() {
    let a = send_core::store::new_collection("C".to_string()).id;
    let b = send_core::store::new_collection("C".to_string()).id;
    assert_eq!(a.len(), 36);
    assert_eq!(b.len(), 36);
    assert_eq!(a.chars().nth(8), Some('-'));
    assert_eq!(a.chars().nth(13), Some('-'));
    assert_eq!(a.chars().nth(18), Some('-'));
    assert_eq!(a.chars().nth(23), Some('-'));
}
