use send_core::model::{BodyType, Collection, Folder, HttpRequest};
use send_core::store::{new_collection, new_folder, Workspace, WorkspaceStore};

fn named_request(name: &str) -> HttpRequest {
    HttpRequest {
        id: format!("id-{}", name),
        name: name.to_string(),
        method: "GET".to_string(),
        url: "https://x.test".to_string(),
        headers: vec![],
        body: String::new(),
        body_type: BodyType::NoBody,
        form_data: vec![],
        url_encoded_data: vec![],
        query_params: vec![],
    }
}

fn tree() -> Collection {
    // root -> [child0 -> [grand0], child1]
    let grand = Folder {
        id: "g".to_string(),
        name: "grand".to_string(),
        requests: vec![named_request("deep")],
        folders: vec![],
    };
    let child0 = Folder {
        id: "c0".to_string(),
        name: "child0".to_string(),
        requests: vec![],
        folders: vec![grand],
    };
    let child1 = Folder {
        id: "c1".to_string(),
        name: "child1".to_string(),
        requests: vec![named_request("shallow")],
        folders: vec![],
    };
    Collection {
        id: "col".to_string(),
        name: "Col".to_string(),
        root_folder: Folder {
            id: "root".to_string(),
            name: "Root".to_string(),
            requests: vec![],
            folders: vec![child0, child1],
        },
    }
}

#[test]
fn valid_addresses_reach_the_exact_folder() {
    let c = tree();
    assert_eq!(c.get_folder_by_path(&vec![]).unwrap().name, "Root");
    assert_eq!(c.get_folder_by_path(&vec![0]).unwrap().name, "child0");
    assert_eq!(c.get_folder_by_path(&vec![1]).unwrap().name, "child1");
    assert_eq!(c.get_folder_by_path(&vec![0, 0]).unwrap().name, "grand");
}

#[test]
fn out_of_range_index_fails_lookup() {
    let c = tree();
    assert!(c.get_folder_by_path(&vec![2]).is_none());
    assert!(c.get_folder_by_path(&vec![0, 1]).is_none());
    assert!(c.get_folder_by_path(&vec![1, 0]).is_none());
    assert!(c.get_folder_by_path(&vec![0, 0, 0]).is_none());
}

#[test]
fn appending_through_an_address_lands_in_the_right_folder() {
    let mut c = tree();
    let ok = c.root_folder.append_request_at(&vec![0, 0], 0, named_request("new"));
    assert!(ok);
    let g = c.get_folder_by_path(&vec![0, 0]).unwrap();
    assert_eq!(g.requests.len(), 2);
    assert_eq!(g.requests[1].name, "new");
}

#[test]
fn appending_through_a_stale_address_is_a_no_op() {
    let mut c = tree();
    let ok = c.root_folder.append_request_at(&vec![5], 0, named_request("lost"));
    assert!(!ok);
    assert_eq!(c.get_folder_by_path(&vec![]).unwrap().requests.len(), 0);
}

#[test]
fn folders_nest_through_addresses() {
    let mut c = tree();
    assert!(c.root_folder.append_folder_at(&vec![1], 0, new_folder("inner".to_string())));
    let f = c.get_folder_by_path(&vec![1, 0]).unwrap();
    assert_eq!(f.name, "inner");
}

#[test]
fn overwriting_a_request_respects_its_index() {
    let mut c = tree();
    assert!(c.root_folder.set_request_at(&vec![1], 0, 0, named_request("edited")));
    assert_eq!(c.get_folder_by_path(&vec![1]).unwrap().requests[0].name, "edited");
    // an out-of-range request index changes nothing
    assert!(!c.root_folder.set_request_at(&vec![1], 0, 7, named_request("ghost")));
}

#[test]
fn store_starts_with_a_default_workspace() {
    let s = WorkspaceStore::new_default();
    assert_eq!(s.workspaces.len(), 1);
    assert_eq!(s.current_workspace, 0);
    let w = &s.workspaces[0];
    assert_eq!(w.name, "Default Workspace");
    assert!(w.file_path.is_none());
    assert_eq!(w.collections.len(), 1);
    assert_eq!(w.collections[0].name, "Default Collection");
    assert_eq!(w.collections[0].root_folder.name, "Root");
    assert!(w.collections[0].root_folder.requests.is_empty());
    assert!(w.collections[0].root_folder.folders.is_empty());
    assert_eq!(w.environments.len(), 1);
    assert_eq!(w.environments[0].name, "Default");
    assert!(w.environments[0].variables.is_empty());
    assert_eq!(w.selected_collection, Some(0));
    assert!(w.selected_folder_path.is_empty());
    assert_eq!(w.selected_request, None);
    assert_eq!(w.selected_environment, Some(0));
    assert_eq!(s.current_request.name, "New Request");
    assert_eq!(s.current_request.method, "GET");
    assert_eq!(s.current_request.url, "https://httpbin.org/get");
    assert_eq!(
        s.current_request.headers,
        vec![("Content-Type".to_string(), "application/json".to_string())]
    );
    assert_eq!(s.current_request.body_type, BodyType::NoBody);
    assert_eq!(s.current_request.id.len(), 36);
}

#[test]
fn blank_names_create_nothing() {
    let mut s = WorkspaceStore::new_default();
    assert!(!s.add_collection("   ".to_string()));
    assert!(!s.add_folder("".to_string()));
    assert!(!s.add_request(" \t ".to_string()));
    assert!(!s.add_environment("".to_string()));
    assert!(!s.add_workspace("  ".to_string()));
    assert_eq!(s.workspaces.len(), 1);
    assert_eq!(s.workspaces[0].collections.len(), 1);
}

#[test]
fn store_mutations_follow_the_selection_cursor() {
    let mut s = WorkspaceStore::new_default();
    assert!(s.add_collection("Apis".to_string()));
    assert_eq!(s.workspaces[0].collections.len(), 2);
    s.select_collection(Some(1));
    assert!(s.add_folder("Inner".to_string()));
    assert_eq!(s.workspaces[0].collections[1].root_folder.folders.len(), 1);
    s.select_folder(vec![0]);
    assert!(s.add_request("Ping".to_string()));
    let f = s.workspaces[0].collections[1].get_folder_by_path(&vec![0]).unwrap();
    assert_eq!(f.requests.len(), 1);
    assert_eq!(f.requests[0].name, "Ping");
    assert_eq!(f.requests[0].id.len(), 36);
    // saving the edited request through the cursor
    s.select_request(Some(0));
    let mut edited = s.current_request.duplicate();
    edited.url = "https://edited.test".to_string();
    s.set_current_request(edited);
    assert!(s.save_current_request());
    let f = s.workspaces[0].collections[1].get_folder_by_path(&vec![0]).unwrap();
    assert_eq!(f.requests[0].url, "https://edited.test");
}

#[test]
fn creation_succeeds_exactly_when_the_cursor_resolves() {
    let mut s = WorkspaceStore::new_default();
    // a resolving cursor and a non-blank name: creation is owed
    assert!(s.add_folder("Here".to_string()));
    assert!(s.add_request("Ping".to_string()));
    // no collection selected: nothing is created
    s.select_collection(None);
    assert!(!s.add_folder("Nowhere".to_string()));
    assert!(!s.add_request("Nowhere".to_string()));
    // a stale folder address: nothing is created
    s.select_collection(Some(0));
    s.select_folder(vec![7]);
    assert!(!s.add_folder("Stale".to_string()));
    assert!(!s.add_request("Stale".to_string()));
}

#[test]
fn saving_without_a_resolving_cursor_is_a_no_op() {
    let mut s = WorkspaceStore::new_default();
    // nothing selected: no-op
    s.select_request(None);
    assert!(!s.save_current_request());
    // a stale folder address: no-op
    s.select_collection(Some(0));
    s.select_folder(vec![3]);
    s.select_request(Some(0));
    assert!(!s.save_current_request());
}

#[test]
fn environments_are_appended_and_selected() {
    let mut s = WorkspaceStore::new_default();
    assert!(s.add_environment("Staging".to_string()));
    assert_eq!(s.workspaces[0].environments.len(), 2);
    assert_eq!(s.workspaces[0].selected_environment, Some(1));
    let mut_ws = &mut s.workspaces[0];
    mut_ws.environments[1].variables.push(("base".to_string(), "https://st.test".to_string()));
    assert_eq!(s.resolve_value("{{base}}/v1"), "https://st.test/v1");
    s.select_environment(None);
    assert_eq!(s.resolve_value("{{base}}/v1"), "{{base}}/v1");
}

#[test]
fn workspaces_switch_and_open() {
    let mut s = WorkspaceStore::new_default();
    assert!(s.add_workspace("Second".to_string()));
    assert_eq!(s.current_workspace, 1);
    assert_eq!(s.workspaces[1].name, "Second");
    assert!(s.switch_workspace(0));
    assert_eq!(s.current_workspace, 0);
    assert!(!s.switch_workspace(9));
    assert_eq!(s.current_workspace, 0);
    let loaded = Workspace::from_storage(
        "Loaded".to_string(),
        Some("/tmp/ws.json".to_string()),
        send_core::model::AppStorage { collections: vec![], environments: vec![] },
    );
    assert_eq!(loaded.selected_collection, None);
    assert_eq!(loaded.selected_environment, None);
    s.open_workspace(loaded);
    assert_eq!(s.current_workspace, 2);
}

#[test]
fn imported_collections_append_to_the_current_workspace() {
    let mut s = WorkspaceStore::new_default();
    s.import_collection(new_collection("Imported".to_string()));
    assert_eq!(s.workspaces[0].collections.len(), 2);
    assert_eq!(s.workspaces[0].collections[1].name, "Imported");
}

#[test]
fn autosave_payload_follows_the_backing_path() {
    let mut s = WorkspaceStore::new_default();
    assert!(s.autosave_payload().is_none());
    s.workspaces[0].file_path = Some("/tmp/ws.json".to_string());
    let (path, doc) = s.autosave_payload().expect("a payload");
    assert_eq!(path, "/tmp/ws.json");
    assert!(doc.starts_with("{\"collections\":"));
}
