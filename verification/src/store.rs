//! The workspace store: the open workspaces, the current-workspace cursor,
//! the request being edited, and every mutation the panels perform — saving
//! the edited request through the selection cursor, appending collections,
//! folders, requests and environments (each with a fresh identity), and
//! moving the selection. Addressing failures make the operation a no-op.
//!
//! Selection policy: selecting a collection resets the folder address and
//! clears the request selection; selecting a folder clears the request
//! selection. A stale address (after a structural edit at a shallower
//! depth) is not auto-corrected: the operation it would steer simply fails.

use vstd::prelude::*;
use crate::address::{folder_at, replaced_at, with_folder_pushed, with_request_pushed,
    with_request_set};
use crate::model::{AppStorage, Collection, CollectionModel, Environment, EnvironmentModel, Folder,
    FolderModel, HttpRequest, RequestModel, BodyType};
use crate::resolve::resolve_with;
use crate::text::{copy_pairs, trim_seq, trimmed};

verus! {

broadcast use vstd::std_specs::vec::group_vec_axioms;

/// One open workspace: durable state plus its transient selection cursors.
pub struct Workspace {
    pub name: String,
    /// The backing file, if the workspace has been saved or loaded.
    pub file_path: Option<String>,
    pub collections: Vec<Collection>,
    pub environments: Vec<Environment>,
    pub selected_collection: Option<usize>,
    pub selected_folder_path: Vec<usize>,
    pub selected_request: Option<usize>,
    pub selected_environment: Option<usize>,
}

/// Model of a workspace.
#[verifier::ext_equal]
pub struct WorkspaceModel {
    pub name: Seq<char>,
    pub file_path: Option<Seq<char>>,
    pub collections: Seq<CollectionModel>,
    pub environments: Seq<EnvironmentModel>,
    pub selected_collection: Option<usize>,
    pub selected_folder_path: Seq<usize>,
    pub selected_request: Option<usize>,
    pub selected_environment: Option<usize>,
}

impl DeepView for Workspace {
    type V = WorkspaceModel;

    open spec fn deep_view(&self) -> WorkspaceModel {
        WorkspaceModel {
            name: self.name@,
            file_path: match &self.file_path {
                Some(p) => Some(p@),
                None => None,
            },
            collections: self.collections.deep_view(),
            environments: self.environments.deep_view(),
            selected_collection: self.selected_collection,
            selected_folder_path: self.selected_folder_path@,
            selected_request: self.selected_request,
            selected_environment: self.selected_environment,
        }
    }
}

/// The store: every open workspace, which one is current, and the request
/// under edit.
pub struct WorkspaceStore {
    pub workspaces: Vec<Workspace>,
    pub current_workspace: usize,
    pub current_request: HttpRequest,
}

/// Model of the store.
#[verifier::ext_equal]
pub struct StoreModel {
    pub workspaces: Seq<WorkspaceModel>,
    pub current: usize,
    pub current_request: RequestModel,
}

impl DeepView for WorkspaceStore {
    type V = StoreModel;

    open spec fn deep_view(&self) -> StoreModel {
        StoreModel {
            workspaces: self.workspaces.deep_view(),
            current: self.current_workspace,
            current_request: self.current_request.deep_view(),
        }
    }
}

/// The store's invariant: the cursor names an open workspace.
pub open spec fn store_wf(s: StoreModel) -> bool {
    (s.current as int) < s.workspaces.len()
}

/// An owned copy of an index path.
pub fn copy_indices(v: &Vec<usize>) -> (r: Vec<usize>)
    ensures
        r@ == v@,
{
    let mut r: Vec<usize> = Vec::new();
    let mut i: usize = 0;
    while i < v.len()
        invariant
            i <= v@.len(),
            r@ == v@.take(i as int),
        decreases v@.len() - i,
    {
        r.push(v[i]);
        i = i + 1;
        proof {
            assert(r@ =~= v@.take(i as int));
        }
    }
    proof {
        assert(v@.take(i as int) =~= v@);
    }
    r
}

impl HttpRequest {
    /// The request every workspace starts from.
    pub fn new_default() -> (r: HttpRequest)
        ensures
            r.deep_view().name == "New Request"@,
            r.deep_view().method == "GET"@,
            r.deep_view().url == "https://httpbin.org/get"@,
            r.deep_view().headers == seq![("Content-Type"@, "application/json"@)],
            r.deep_view().body == Seq::<char>::empty(),
            r.deep_view().body_type == BodyType::NoBody,
            r.deep_view().form_data == Seq::<crate::model::FormEntryModel>::empty(),
            r.deep_view().url_encoded_data == Seq::<(Seq<char>, Seq<char>)>::empty(),
            r.deep_view().query_params == Seq::<(Seq<char>, Seq<char>)>::empty(),
            r.deep_view().id.len() == 36,
    {
        let mut headers: Vec<(String, String)> = Vec::new();
        headers.push((String::from_str("Content-Type"), String::from_str("application/json")));
        let r = HttpRequest {
            id: crate::ids::fresh_id(),
            name: String::from_str("New Request"),
            method: String::from_str("GET"),
            url: String::from_str("https://httpbin.org/get"),
            headers,
            body: String::new(),
            body_type: BodyType::NoBody,
            form_data: Vec::new(),
            url_encoded_data: Vec::new(),
            query_params: Vec::new(),
        };
        proof {
            assert(r.deep_view().headers =~= seq![("Content-Type"@, "application/json"@)]);
            assert(r.deep_view().form_data =~= Seq::<crate::model::FormEntryModel>::empty());
            assert(r.deep_view().url_encoded_data =~= Seq::<(Seq<char>, Seq<char>)>::empty());
            assert(r.deep_view().query_params =~= Seq::<(Seq<char>, Seq<char>)>::empty());
        }
        r
    }

    /// An owned copy, model-for-model.
    pub fn duplicate(&self) -> (r: HttpRequest)
        ensures
            r.deep_view() == self.deep_view(),
    {
        let r = HttpRequest {
            id: self.id.clone(),
            name: self.name.clone(),
            method: self.method.clone(),
            url: self.url.clone(),
            headers: copy_pairs(&self.headers),
            body: self.body.clone(),
            body_type: self.body_type,
            form_data: crate::executor::copy_entries(&self.form_data),
            url_encoded_data: copy_pairs(&self.url_encoded_data),
            query_params: copy_pairs(&self.query_params),
        };
        proof {
            assert(r.deep_view() =~= self.deep_view());
        }
        r
    }
}

/// A fresh, empty root folder.
pub fn new_root_folder() -> (f: Folder)
    ensures
        f.deep_view().name == "Root"@,
        f.deep_view().requests == Seq::<RequestModel>::empty(),
        f.deep_view().folders == Seq::<FolderModel>::empty(),
        f.deep_view().id.len() == 36,
{
    let f = Folder {
        id: crate::ids::fresh_id(),
        name: String::from_str("Root"),
        requests: Vec::new(),
        folders: Vec::new(),
    };
    proof {
        assert(f.deep_view().requests =~= Seq::<RequestModel>::empty());
        assert(f.deep_view().folders =~= Seq::<FolderModel>::empty());
    }
    f
}

/// A fresh, empty folder with the given display name.
pub fn new_folder(name: String) -> (f: Folder)
    ensures
        f.deep_view().name == name@,
        f.deep_view().requests == Seq::<RequestModel>::empty(),
        f.deep_view().folders == Seq::<FolderModel>::empty(),
        f.deep_view().id.len() == 36,
{
    let f = Folder { id: crate::ids::fresh_id(), name, requests: Vec::new(), folders: Vec::new() };
    proof {
        assert(f.deep_view().requests =~= Seq::<RequestModel>::empty());
        assert(f.deep_view().folders =~= Seq::<FolderModel>::empty());
    }
    f
}

/// A fresh collection holding one empty root folder.
pub fn new_collection(name: String) -> (c: Collection)
    ensures
        c.deep_view().name == name@,
        c.deep_view().root_folder.name == "Root"@,
        c.deep_view().root_folder.requests == Seq::<RequestModel>::empty(),
        c.deep_view().root_folder.folders == Seq::<FolderModel>::empty(),
        c.deep_view().id.len() == 36,
        c.deep_view().root_folder.id.len() == 36,
{
    Collection { id: crate::ids::fresh_id(), name, root_folder: new_root_folder() }
}

impl Folder {
    /// An owned copy of the whole subtree, model-for-model.
    pub fn duplicate(&self) -> (r: Folder)
        ensures
            r.deep_view() == self.deep_view(),
        decreases *self,
    {
        let mut folders: Vec<Folder> = Vec::new();
        let mut i: usize = 0;
        while i < self.folders.len()
            invariant
                i <= self.folders@.len(),
                folders.deep_view() == self.deep_view().folders.take(i as int),
            decreases self.folders@.len() - i,
        {
            let ghost before = folders.deep_view();
            folders.push(self.folders[i].duplicate());
            i = i + 1;
            proof {
                assert(before.len() == i - 1);
                assert(folders@.len() == i);
                assert(self.deep_view().folders[i - 1] == self.folders@[i - 1].deep_view());
                assert(folders@[i - 1].deep_view() == self.folders@[i - 1].deep_view());
                assert(folders.deep_view() =~= self.deep_view().folders.take(i as int));
            }
        }
        let mut requests: Vec<HttpRequest> = Vec::new();
        let mut j: usize = 0;
        while j < self.requests.len()
            invariant
                j <= self.requests@.len(),
                requests.deep_view() == self.deep_view().requests.take(j as int),
            decreases self.requests@.len() - j,
        {
            let ghost before = requests.deep_view();
            requests.push(self.requests[j].duplicate());
            j = j + 1;
            proof {
                assert(before.len() == j - 1);
                assert(requests@.len() == j);
                assert(self.deep_view().requests[j - 1] == self.requests@[j - 1].deep_view());
                assert(requests@[j - 1].deep_view() == self.requests@[j - 1].deep_view());
                assert(requests.deep_view() =~= self.deep_view().requests.take(j as int));
            }
        }
        let ghost fdv = folders.deep_view();
        let ghost rdv = requests.deep_view();
        let r = Folder { id: self.id.clone(), name: self.name.clone(), requests, folders };
        proof {
            assert(self.deep_view().folders.take(self.folders@.len() as int) =~= self.deep_view().folders);
            assert(self.deep_view().requests.take(self.requests@.len() as int) =~= self.deep_view().requests);
            assert forall|k: int| 0 <= k < r.folders@.len() implies #[trigger] r.deep_view().folders[k]
                == fdv[k] by {
                assert(fdv[k] == r.folders@[k].deep_view());
            }
            assert(r.deep_view().folders =~= fdv);
            assert(r.deep_view() =~= self.deep_view());
        }
        r
    }
}

impl Collection {
    /// An owned copy, model-for-model.
    pub fn duplicate(&self) -> (r: Collection)
        ensures
            r.deep_view() == self.deep_view(),
    {
        let r = Collection {
            id: self.id.clone(),
            name: self.name.clone(),
            root_folder: self.root_folder.duplicate(),
        };
        proof {
            assert(r.deep_view() =~= self.deep_view());
        }
        r
    }
}

impl Environment {
    /// An owned copy, model-for-model.
    pub fn duplicate(&self) -> (r: Environment)
        ensures
            r.deep_view() == self.deep_view(),
    {
        let r = Environment { name: self.name.clone(), variables: copy_pairs(&self.variables) };
        proof {
            assert(r.deep_view() =~= self.deep_view());
        }
        r
    }
}

impl Workspace {
    /// A fresh workspace: one default collection, one default environment,
    /// both selected; nothing backing it on disk.
    pub fn new_default(name: String) -> (w: Workspace)
        ensures
            w.deep_view().name == name@,
            w.deep_view().file_path is None,
            w.deep_view().collections.len() == 1,
            w.deep_view().collections[0].name == "Default Collection"@,
            w.deep_view().collections[0].root_folder.name == "Root"@,
            w.deep_view().collections[0].root_folder.requests == Seq::<RequestModel>::empty(),
            w.deep_view().collections[0].root_folder.folders == Seq::<FolderModel>::empty(),
            w.deep_view().environments.len() == 1,
            w.deep_view().environments[0].name == "Default"@,
            w.deep_view().environments[0].variables == Seq::<(Seq<char>, Seq<char>)>::empty(),
            w.deep_view().selected_collection == Some(0usize),
            w.deep_view().selected_folder_path == Seq::<usize>::empty(),
            w.deep_view().selected_request is None,
            w.deep_view().selected_environment == Some(0usize),
    {
        let mut collections: Vec<Collection> = Vec::new();
        collections.push(new_collection(String::from_str("Default Collection")));
        let mut environments: Vec<Environment> = Vec::new();
        environments.push(Environment { name: String::from_str("Default"), variables: Vec::new() });
        let w = Workspace {
            name,
            file_path: None,
            collections,
            environments,
            selected_collection: Some(0),
            selected_folder_path: Vec::new(),
            selected_request: None,
            selected_environment: Some(0),
        };
        proof {
            assert(w.deep_view().environments[0].variables =~= Seq::<(Seq<char>, Seq<char>)>::empty());
        }
        w
    }

    /// A workspace loaded from a parsed document: cursors reset to the first
    /// collection and environment, or unset where a list is empty.
    pub fn from_storage(name: String, file_path: Option<String>, storage: AppStorage) -> (w: Workspace)
        ensures
            w.deep_view().name == name@,
            w.deep_view().file_path == match file_path {
                Some(p) => Some(p@),
                None => None::<Seq<char>>,
            },
            w.deep_view().collections == storage.deep_view().collections,
            w.deep_view().environments == storage.deep_view().environments,
            w.deep_view().selected_collection == if storage.deep_view().collections.len() > 0 {
                Some(0usize)
            } else {
                None::<usize>
            },
            w.deep_view().selected_environment == if storage.deep_view().environments.len() > 0 {
                Some(0usize)
            } else {
                None::<usize>
            },
            w.deep_view().selected_folder_path == Seq::<usize>::empty(),
            w.deep_view().selected_request is None,
    {
        let selected_collection: Option<usize> = if storage.collections.len() > 0 {
            Some(0)
        } else {
            None
        };
        let selected_environment: Option<usize> = if storage.environments.len() > 0 {
            Some(0)
        } else {
            None
        };
        Workspace {
            name,
            file_path,
            collections: storage.collections,
            environments: storage.environments,
            selected_collection,
            selected_folder_path: Vec::new(),
            selected_request: None,
            selected_environment,
        }
    }

    /// The durable subset: what persistence writes.
    pub fn storage_of(&self) -> (s: AppStorage)
        ensures
            s.deep_view().collections == self.deep_view().collections,
            s.deep_view().environments == self.deep_view().environments,
    {
        let mut collections: Vec<Collection> = Vec::new();
        let mut i: usize = 0;
        while i < self.collections.len()
            invariant
                i <= self.collections@.len(),
                collections.deep_view() == self.deep_view().collections.take(i as int),
            decreases self.collections@.len() - i,
        {
            let ghost before = collections.deep_view();
            collections.push(self.collections[i].duplicate());
            i = i + 1;
            proof {
                assert(before.len() == i - 1);
                assert(collections@.len() == i);
                assert(self.deep_view().collections[i - 1] == self.collections@[i - 1].deep_view());
                assert(collections@[i - 1].deep_view() == self.collections@[i - 1].deep_view());
                assert(collections.deep_view() =~= self.deep_view().collections.take(i as int));
            }
        }
        let mut environments: Vec<Environment> = Vec::new();
        let mut j: usize = 0;
        while j < self.environments.len()
            invariant
                j <= self.environments@.len(),
                environments.deep_view() == self.deep_view().environments.take(j as int),
            decreases self.environments@.len() - j,
        {
            let ghost before = environments.deep_view();
            environments.push(self.environments[j].duplicate());
            j = j + 1;
            proof {
                assert(before.len() == j - 1);
                assert(environments@.len() == j);
                assert(self.deep_view().environments[j - 1] == self.environments@[j - 1].deep_view());
                assert(environments@[j - 1].deep_view() == self.environments@[j - 1].deep_view());
                assert(environments.deep_view() =~= self.deep_view().environments.take(j as int));
            }
        }
        let s = AppStorage { collections, environments };
        proof {
            assert(self.deep_view().collections.take(self.collections@.len() as int)
                =~= self.deep_view().collections);
            assert(self.deep_view().environments.take(self.environments@.len() as int)
                =~= self.deep_view().environments);
        }
        s
    }
}


/// The selection cursor of `w` names a folder to create into: a collection
/// in range whose selected folder address resolves.
pub open spec fn creation_target_resolves(w: WorkspaceModel) -> bool {
    &&& w.selected_collection is Some
    &&& (w.selected_collection.unwrap() as int) < w.collections.len()
    &&& folder_at(
        w.collections[w.selected_collection.unwrap() as int].root_folder,
        w.selected_folder_path,
    ) is Some
}

/// The selection cursor of `w` names an existing request: a collection, a
/// folder address that resolves inside it, and a request index in range.
pub open spec fn selection_resolves(w: WorkspaceModel) -> bool {
    &&& w.selected_collection is Some
    &&& w.selected_request is Some
    &&& (w.selected_collection.unwrap() as int) < w.collections.len()
    &&& folder_at(
        w.collections[w.selected_collection.unwrap() as int].root_folder,
        w.selected_folder_path,
    ) is Some
    &&& (w.selected_request.unwrap() as int) < folder_at(
        w.collections[w.selected_collection.unwrap() as int].root_folder,
        w.selected_folder_path,
    ).unwrap().requests.len()
}

/// `n` is `o` after the edited request has been written over the selected
/// one: only the selected collection's tree changes, and in it only the
/// folder the cursor addresses, whose selected request now carries the
/// edited copy.
pub open spec fn request_saved(o: StoreModel, n: StoreModel) -> bool {
    let w = o.workspaces[o.current as int];
    let ci = w.selected_collection.unwrap() as int;
    let ri = w.selected_request.unwrap() as int;
    let nw = n.workspaces[o.current as int];
    let oc = w.collections[ci];
    let nc = nw.collections[ci];
    &&& n.current == o.current
    &&& n.current_request == o.current_request
    &&& n.workspaces == o.workspaces.update(o.current as int, nw)
    &&& nw == (WorkspaceModel { collections: nw.collections, ..w })
    &&& nw.collections == w.collections.update(ci, nc)
    &&& nc == (CollectionModel { root_folder: nc.root_folder, ..oc })
    &&& replaced_at(
        oc.root_folder,
        nc.root_folder,
        w.selected_folder_path,
        with_request_set(
            folder_at(oc.root_folder, w.selected_folder_path).unwrap(),
            ri,
            o.current_request,
        ),
    )
}

impl WorkspaceStore {
    /// A fresh store: one default workspace — one empty default collection
    /// and one empty default environment, both selected — and the default
    /// request under edit.
    pub fn new_default() -> (s: WorkspaceStore)
        ensures
            store_wf(s.deep_view()),
            s.deep_view().workspaces.len() == 1,
            s.deep_view().current == 0,
            ({
                let w = s.deep_view().workspaces[0];
                &&& w.name == "Default Workspace"@
                &&& w.file_path is None
                &&& w.collections.len() == 1
                &&& w.collections[0].name == "Default Collection"@
                &&& w.collections[0].root_folder.name == "Root"@
                &&& w.collections[0].root_folder.requests == Seq::<RequestModel>::empty()
                &&& w.collections[0].root_folder.folders == Seq::<FolderModel>::empty()
                &&& w.environments.len() == 1
                &&& w.environments[0].name == "Default"@
                &&& w.environments[0].variables == Seq::<(Seq<char>, Seq<char>)>::empty()
                &&& w.selected_collection == Some(0usize)
                &&& w.selected_folder_path == Seq::<usize>::empty()
                &&& w.selected_request is None
                &&& w.selected_environment == Some(0usize)
            }),
            ({
                let r = s.deep_view().current_request;
                &&& r.name == "New Request"@
                &&& r.method == "GET"@
                &&& r.url == "https://httpbin.org/get"@
                &&& r.headers == seq![("Content-Type"@, "application/json"@)]
                &&& r.body == Seq::<char>::empty()
                &&& r.body_type == BodyType::NoBody
                &&& r.form_data == Seq::<crate::model::FormEntryModel>::empty()
                &&& r.url_encoded_data == Seq::<(Seq<char>, Seq<char>)>::empty()
                &&& r.query_params == Seq::<(Seq<char>, Seq<char>)>::empty()
                &&& r.id.len() == 36
            }),
    {
        let w = Workspace::new_default(String::from_str("Default Workspace"));
        let ghost wm = w.deep_view();
        let mut workspaces: Vec<Workspace> = Vec::new();
        workspaces.push(w);
        let s = WorkspaceStore {
            workspaces,
            current_workspace: 0,
            current_request: HttpRequest::new_default(),
        };
        proof {
            assert(s.deep_view().workspaces[0] == wm);
        }
        s
    }

    /// The current workspace.
    pub fn current(&self) -> (w: &Workspace)
        requires
            store_wf(self.deep_view()),
        ensures
            w.deep_view() == self.deep_view().workspaces[self.deep_view().current as int],
    {
        proof {
            assert(self.deep_view().workspaces[self.current_workspace as int]
                == self.workspaces@[self.current_workspace as int].deep_view());
        }
        &self.workspaces[self.current_workspace]
    }

    /// Switch the current-workspace cursor; out-of-range indices are ignored.
    pub fn switch_workspace(&mut self, idx: usize) -> (switched: bool)
        ensures
            switched == ((idx as int) < old(self).deep_view().workspaces.len()),
            switched ==> final(self).deep_view() == (StoreModel {
                current: idx,
                ..old(self).deep_view()
            }),
            !switched ==> final(self).deep_view() == old(self).deep_view(),
    {
        if idx < self.workspaces.len() {
            self.current_workspace = idx;
            true
        } else {
            false
        }
    }

    /// Replace the request under edit.
    pub fn set_current_request(&mut self, req: HttpRequest)
        ensures
            final(self).deep_view() == (StoreModel {
                current_request: req.deep_view(),
                ..old(self).deep_view()
            }),
    {
        self.current_request = req;
    }

    /// Write the edited request over the one the selection cursor names; a
    /// no-op returning `false` when the cursor does not resolve.
    pub fn save_current_request(&mut self) -> (saved: bool)
        requires
            store_wf(old(self).deep_view()),
        ensures
            store_wf(final(self).deep_view()),
            saved == selection_resolves(
                old(self).deep_view().workspaces[old(self).deep_view().current as int],
            ),
            saved ==> request_saved(old(self).deep_view(), final(self).deep_view()),
            !saved ==> final(self).deep_view() == old(self).deep_view(),
    {
        let ghost o = self.deep_view();
        let ghost w = o.workspaces[o.current as int];
        let wi = self.current_workspace;
        proof {
            assert(w == self.workspaces@[wi as int].deep_view());
        }
        let sel_c = self.workspaces[wi].selected_collection;
        let sel_r = self.workspaces[wi].selected_request;
        let path = copy_indices(&self.workspaces[wi].selected_folder_path);
        match (sel_c, sel_r) {
            (Some(ci), Some(ri)) => {
                if ci < self.workspaces[wi].collections.len() {
                    let req = self.current_request.duplicate();
                    proof {
                        assert(w.collections[ci as int]
                            == self.workspaces@[wi as int].collections@[ci as int].deep_view());
                        assert(path@.skip(0) =~= path@);
                    }
                    let ok = self.workspaces[wi].collections[ci].root_folder.set_request_at(
                        &path,
                        0,
                        ri,
                        req,
                    );
                    proof {
                        let n = self.deep_view();
                        let nw = n.workspaces[o.current as int];
                        assert(self.workspaces@.len() == o.workspaces.len());
                        assert(n.workspaces =~= o.workspaces.update(o.current as int, nw));
                        assert(nw.collections =~= w.collections.update(
                            ci as int,
                            nw.collections[ci as int],
                        ));
                        assert(nw =~= (WorkspaceModel { collections: nw.collections, ..w }));
                        assert(nw.collections[ci as int] =~= (CollectionModel {
                            root_folder: nw.collections[ci as int].root_folder,
                            ..w.collections[ci as int]
                        }));
                        if !ok {
                            assert(nw.collections[ci as int] =~= w.collections[ci as int]);
                            assert(nw.collections =~= w.collections);
                            assert(nw =~= w);
                            assert(n.workspaces =~= o.workspaces);
                            assert(n =~= o);
                        }
                    }
                    ok
                } else {
                    false
                }
            },
            _ => false,
        }
    }

    /// Append a fresh collection named `name` to the current workspace; a
    /// blank name creates nothing.
    pub fn add_collection(&mut self, name: String) -> (added: bool)
        requires
            store_wf(old(self).deep_view()),
        ensures
            store_wf(final(self).deep_view()),
            added == !crate::text::spec_is_blank(name@),
            !added ==> final(self).deep_view() == old(self).deep_view(),
            added ==> ({
                let o = old(self).deep_view();
                let n = final(self).deep_view();
                let w = o.workspaces[o.current as int];
                let nw = n.workspaces[o.current as int];
                let c = nw.collections.last();
                &&& n.current == o.current
                &&& n.current_request == o.current_request
                &&& n.workspaces == o.workspaces.update(o.current as int, nw)
                &&& nw == (WorkspaceModel { collections: nw.collections, ..w })
                &&& nw.collections == w.collections.push(c)
                &&& c.name == name@
                &&& c.id.len() == 36
                &&& c.root_folder.name == "Root"@
                &&& c.root_folder.requests == Seq::<RequestModel>::empty()
                &&& c.root_folder.folders == Seq::<FolderModel>::empty()
            }),
    {
        let ghost o = self.deep_view();
        if crate::text::is_blank(name.as_str()) {
            return false;
        }
        let c = new_collection(name);
        let wi = self.current_workspace;
        let ghost w = o.workspaces[o.current as int];
        proof {
            assert(w == self.workspaces@[wi as int].deep_view());
        }
        let ws = &mut self.workspaces[wi];
        ws.collections.push(c);
        proof {
            let n = self.deep_view();
            let nw = n.workspaces[o.current as int];
            assert(n.workspaces =~= o.workspaces.update(o.current as int, nw));
            assert(nw.collections =~= w.collections.push(nw.collections.last()));
            assert(nw =~= (WorkspaceModel { collections: nw.collections, ..w }));
        }
        true
    }

    /// Append a fresh folder named `name` at the selected address of the
    /// selected collection; a no-op returning `false` on a blank name or an
    /// unresolved cursor.
    pub fn add_folder(&mut self, name: String) -> (added: bool)
        requires
            store_wf(old(self).deep_view()),
        ensures
            store_wf(final(self).deep_view()),
            added == (!crate::text::spec_is_blank(name@) && creation_target_resolves(
                old(self).deep_view().workspaces[old(self).deep_view().current as int],
            )),
            !added ==> final(self).deep_view() == old(self).deep_view(),
            added ==> ({
                let o = old(self).deep_view();
                let n = final(self).deep_view();
                let w = o.workspaces[o.current as int];
                let ci = w.selected_collection.unwrap() as int;
                let nw = n.workspaces[o.current as int];
                let oc = w.collections[ci];
                let nc = nw.collections[ci];
                &&& !crate::text::spec_is_blank(name@)
                &&& w.selected_collection is Some
                &&& ci < w.collections.len()
                &&& n.current == o.current
                &&& n.current_request == o.current_request
                &&& n.workspaces == o.workspaces.update(o.current as int, nw)
                &&& nw == (WorkspaceModel { collections: nw.collections, ..w })
                &&& nw.collections == w.collections.update(ci, nc)
                &&& nc == (CollectionModel { root_folder: nc.root_folder, ..oc })
                &&& exists|g: FolderModel|
                    (#[trigger] g.name) == name@ && g.requests == Seq::<RequestModel>::empty()
                        && g.folders == Seq::<FolderModel>::empty() && replaced_at(
                        oc.root_folder,
                        nc.root_folder,
                        w.selected_folder_path,
                        with_folder_pushed(
                            folder_at(oc.root_folder, w.selected_folder_path).unwrap(),
                            g,
                        ),
                    )
            }),
    {
        let ghost o = self.deep_view();
        let ghost w = o.workspaces[o.current as int];
        if crate::text::is_blank(name.as_str()) {
            return false;
        }
        let wi = self.current_workspace;
        proof {
            assert(w == self.workspaces@[wi as int].deep_view());
        }
        let sel_c = self.workspaces[wi].selected_collection;
        let path = copy_indices(&self.workspaces[wi].selected_folder_path);
        match sel_c {
            Some(ci) => {
                if ci < self.workspaces[wi].collections.len() {
                    let g = new_folder(name);
                    let ghost gm = g.deep_view();
                    proof {
                        assert(w.collections[ci as int]
                            == self.workspaces@[wi as int].collections@[ci as int].deep_view());
                        assert(path@.skip(0) =~= path@);
                    }
                    let ok = self.workspaces[wi].collections[ci].root_folder.append_folder_at(
                        &path,
                        0,
                        g,
                    );
                    proof {
                        let n = self.deep_view();
                        let nw = n.workspaces[o.current as int];
                        assert(n.workspaces =~= o.workspaces.update(o.current as int, nw));
                        assert(nw.collections =~= w.collections.update(
                            ci as int,
                            nw.collections[ci as int],
                        ));
                        assert(nw =~= (WorkspaceModel { collections: nw.collections, ..w }));
                        assert(nw.collections[ci as int] =~= (CollectionModel {
                            root_folder: nw.collections[ci as int].root_folder,
                            ..w.collections[ci as int]
                        }));
                        if !ok {
                            assert(nw.collections[ci as int] =~= w.collections[ci as int]);
                            assert(nw.collections =~= w.collections);
                            assert(nw =~= w);
                            assert(n.workspaces =~= o.workspaces);
                            assert(n =~= o);
                        }
                    }
                    ok
                } else {
                    false
                }
            },
            None => false,
        }
    }

    /// Append a copy of the edited request, renamed and re-identified, to
    /// the selected folder; a no-op returning `false` on a blank name or an
    /// unresolved cursor.
    pub fn add_request(&mut self, name: String) -> (added: bool)
        requires
            store_wf(old(self).deep_view()),
        ensures
            store_wf(final(self).deep_view()),
            added == (!crate::text::spec_is_blank(name@) && creation_target_resolves(
                old(self).deep_view().workspaces[old(self).deep_view().current as int],
            )),
            !added ==> final(self).deep_view() == old(self).deep_view(),
            added ==> ({
                let o = old(self).deep_view();
                let n = final(self).deep_view();
                let w = o.workspaces[o.current as int];
                let ci = w.selected_collection.unwrap() as int;
                let nw = n.workspaces[o.current as int];
                let oc = w.collections[ci];
                let nc = nw.collections[ci];
                &&& !crate::text::spec_is_blank(name@)
                &&& w.selected_collection is Some
                &&& ci < w.collections.len()
                &&& n.current == o.current
                &&& n.current_request == o.current_request
                &&& n.workspaces == o.workspaces.update(o.current as int, nw)
                &&& nw == (WorkspaceModel { collections: nw.collections, ..w })
                &&& nw.collections == w.collections.update(ci, nc)
                &&& nc == (CollectionModel { root_folder: nc.root_folder, ..oc })
                &&& exists|rid: Seq<char>|
                    (#[trigger] rid.len()) == 36 && replaced_at(
                        oc.root_folder,
                        nc.root_folder,
                        w.selected_folder_path,
                        with_request_pushed(
                            folder_at(oc.root_folder, w.selected_folder_path).unwrap(),
                            RequestModel { id: rid, name: name@, ..o.current_request },
                        ),
                    )
            }),
    {
        let ghost o = self.deep_view();
        let ghost w = o.workspaces[o.current as int];
        if crate::text::is_blank(name.as_str()) {
            return false;
        }
        let wi = self.current_workspace;
        proof {
            assert(w == self.workspaces@[wi as int].deep_view());
        }
        let sel_c = self.workspaces[wi].selected_collection;
        let path = copy_indices(&self.workspaces[wi].selected_folder_path);
        match sel_c {
            Some(ci) => {
                if ci < self.workspaces[wi].collections.len() {
                    let mut req = self.current_request.duplicate();
                    req.id = crate::ids::fresh_id();
                    req.name = name;
                    let ghost rm = req.deep_view();
                    proof {
                        assert(rm == (RequestModel {
                            id: rm.id,
                            name: rm.name,
                            ..o.current_request
                        }));
                        assert(w.collections[ci as int]
                            == self.workspaces@[wi as int].collections@[ci as int].deep_view());
                        assert(path@.skip(0) =~= path@);
                    }
                    let ok = self.workspaces[wi].collections[ci].root_folder.append_request_at(
                        &path,
                        0,
                        req,
                    );
                    proof {
                        let n = self.deep_view();
                        let nw = n.workspaces[o.current as int];
                        assert(n.workspaces =~= o.workspaces.update(o.current as int, nw));
                        assert(nw.collections =~= w.collections.update(
                            ci as int,
                            nw.collections[ci as int],
                        ));
                        assert(nw =~= (WorkspaceModel { collections: nw.collections, ..w }));
                        assert(nw.collections[ci as int] =~= (CollectionModel {
                            root_folder: nw.collections[ci as int].root_folder,
                            ..w.collections[ci as int]
                        }));
                        if !ok {
                            assert(nw.collections[ci as int] =~= w.collections[ci as int]);
                            assert(nw.collections =~= w.collections);
                            assert(nw =~= w);
                            assert(n.workspaces =~= o.workspaces);
                            assert(n =~= o);
                        }
                    }
                    ok
                } else {
                    false
                }
            },
            None => false,
        }
    }

    /// Append a fresh, empty environment and select it; a blank name creates
    /// nothing.
    pub fn add_environment(&mut self, name: String) -> (added: bool)
        requires
            store_wf(old(self).deep_view()),
        ensures
            store_wf(final(self).deep_view()),
            added == !crate::text::spec_is_blank(name@),
            !added ==> final(self).deep_view() == old(self).deep_view(),
            added ==> ({
                let o = old(self).deep_view();
                let n = final(self).deep_view();
                let w = o.workspaces[o.current as int];
                let nw = n.workspaces[o.current as int];
                &&& n.current == o.current
                &&& n.current_request == o.current_request
                &&& n.workspaces == o.workspaces.update(o.current as int, nw)
                &&& nw == (WorkspaceModel {
                    environments: nw.environments,
                    selected_environment: nw.selected_environment,
                    ..w
                })
                &&& nw.environments == w.environments.push(
                    EnvironmentModel { name: name@, variables: Seq::empty() },
                )
                &&& nw.selected_environment == Some((w.environments.len()) as usize)
            }),
    {
        let ghost o = self.deep_view();
        if crate::text::is_blank(name.as_str()) {
            return false;
        }
        let wi = self.current_workspace;
        let ghost w = o.workspaces[o.current as int];
        proof {
            assert(w == self.workspaces@[wi as int].deep_view());
        }
        let ghost nm = name@;
        let env = Environment { name, variables: Vec::new() };
        let ws = &mut self.workspaces[wi];
        let new_idx = ws.environments.len();
        ws.environments.push(env);
        ws.selected_environment = Some(new_idx);
        proof {
            let n = self.deep_view();
            let nw = n.workspaces[o.current as int];
            assert(n.workspaces =~= o.workspaces.update(o.current as int, nw));
            assert(nw.environments =~~= w.environments.push(
                EnvironmentModel { name: nm, variables: Seq::empty() },
            ));
            assert(nw =~= (WorkspaceModel {
                environments: nw.environments,
                selected_environment: nw.selected_environment,
                ..w
            }));
        }
        true
    }

    /// Open a fresh workspace named `name` and make it current; a blank name
    /// creates nothing.
    pub fn add_workspace(&mut self, name: String) -> (added: bool)
        requires
            store_wf(old(self).deep_view()),
        ensures
            store_wf(final(self).deep_view()),
            added == !crate::text::spec_is_blank(name@),
            !added ==> final(self).deep_view() == old(self).deep_view(),
            added ==> ({
                let o = old(self).deep_view();
                let n = final(self).deep_view();
                &&& n.current_request == o.current_request
                &&& n.workspaces.len() == o.workspaces.len() + 1
                &&& n.workspaces.take(o.workspaces.len() as int) == o.workspaces
                &&& n.workspaces.last().name == name@
                &&& n.current as int == o.workspaces.len()
            }),
    {
        let ghost o = self.deep_view();
        if crate::text::is_blank(name.as_str()) {
            return false;
        }
        let w = Workspace::new_default(name);
        self.workspaces.push(w);
        self.current_workspace = self.workspaces.len() - 1;
        proof {
            let n = self.deep_view();
            assert(n.workspaces.take(o.workspaces.len() as int) =~= o.workspaces);
        }
        true
    }

    /// Open a loaded workspace and make it current.
    pub fn open_workspace(&mut self, w: Workspace)
        requires
            store_wf(old(self).deep_view()),
        ensures
            store_wf(final(self).deep_view()),
            final(self).deep_view().current_request == old(self).deep_view().current_request,
            final(self).deep_view().workspaces == old(self).deep_view().workspaces.push(
                w.deep_view(),
            ),
            final(self).deep_view().current as int == old(self).deep_view().workspaces.len(),
    {
        let ghost o = self.deep_view();
        let ghost wm = w.deep_view();
        self.workspaces.push(w);
        self.current_workspace = self.workspaces.len() - 1;
        proof {
            assert(self.deep_view().workspaces =~= o.workspaces.push(wm));
        }
    }

    /// Append an imported collection to the current workspace.
    pub fn import_collection(&mut self, c: Collection)
        requires
            store_wf(old(self).deep_view()),
        ensures
            store_wf(final(self).deep_view()),
            ({
                let o = old(self).deep_view();
                let n = final(self).deep_view();
                let w = o.workspaces[o.current as int];
                let nw = n.workspaces[o.current as int];
                &&& n.current == o.current
                &&& n.current_request == o.current_request
                &&& n.workspaces == o.workspaces.update(o.current as int, nw)
                &&& nw == (WorkspaceModel { collections: nw.collections, ..w })
                &&& nw.collections == w.collections.push(c.deep_view())
            }),
    {
        let ghost o = self.deep_view();
        let ghost cm = c.deep_view();
        let wi = self.current_workspace;
        let ghost w = o.workspaces[o.current as int];
        proof {
            assert(w == self.workspaces@[wi as int].deep_view());
        }
        let ws = &mut self.workspaces[wi];
        ws.collections.push(c);
        proof {
            let n = self.deep_view();
            let nw = n.workspaces[o.current as int];
            assert(n.workspaces =~= o.workspaces.update(o.current as int, nw));
            assert(nw.collections =~= w.collections.push(cm));
            assert(nw =~= (WorkspaceModel { collections: nw.collections, ..w }));
        }
    }

    /// Select a collection: the folder address resets to the root and the
    /// request selection clears.
    pub fn select_collection(&mut self, idx: Option<usize>)
        requires
            store_wf(old(self).deep_view()),
        ensures
            store_wf(final(self).deep_view()),
            ({
                let o = old(self).deep_view();
                let n = final(self).deep_view();
                let w = o.workspaces[o.current as int];
                let nw = n.workspaces[o.current as int];
                &&& n.current == o.current
                &&& n.current_request == o.current_request
                &&& n.workspaces == o.workspaces.update(o.current as int, nw)
                &&& nw == (WorkspaceModel {
                    selected_collection: idx,
                    selected_folder_path: Seq::empty(),
                    selected_request: None,
                    ..w
                })
            }),
    {
        let ghost o = self.deep_view();
        let wi = self.current_workspace;
        let ghost w = o.workspaces[o.current as int];
        proof {
            assert(w == self.workspaces@[wi as int].deep_view());
        }
        let ws = &mut self.workspaces[wi];
        ws.selected_collection = idx;
        ws.selected_folder_path = Vec::new();
        ws.selected_request = None;
        proof {
            let n = self.deep_view();
            let nw = n.workspaces[o.current as int];
            assert(n.workspaces =~= o.workspaces.update(o.current as int, nw));
            assert(nw =~= (WorkspaceModel {
                selected_collection: idx,
                selected_folder_path: Seq::empty(),
                selected_request: None,
                ..w
            }));
        }
    }

    /// Select a folder address; the request selection clears.
    pub fn select_folder(&mut self, path: Vec<usize>)
        requires
            store_wf(old(self).deep_view()),
        ensures
            store_wf(final(self).deep_view()),
            ({
                let o = old(self).deep_view();
                let n = final(self).deep_view();
                let w = o.workspaces[o.current as int];
                let nw = n.workspaces[o.current as int];
                &&& n.current == o.current
                &&& n.current_request == o.current_request
                &&& n.workspaces == o.workspaces.update(o.current as int, nw)
                &&& nw == (WorkspaceModel {
                    selected_folder_path: path@,
                    selected_request: None,
                    ..w
                })
            }),
    {
        let ghost o = self.deep_view();
        let wi = self.current_workspace;
        let ghost w = o.workspaces[o.current as int];
        proof {
            assert(w == self.workspaces@[wi as int].deep_view());
        }
        let ws = &mut self.workspaces[wi];
        ws.selected_folder_path = path;
        ws.selected_request = None;
        proof {
            let n = self.deep_view();
            let nw = n.workspaces[o.current as int];
            assert(n.workspaces =~= o.workspaces.update(o.current as int, nw));
            assert(nw =~= (WorkspaceModel {
                selected_folder_path: nw.selected_folder_path,
                selected_request: None,
                ..w
            }));
        }
    }

    /// Select a request inside the selected folder.
    pub fn select_request(&mut self, idx: Option<usize>)
        requires
            store_wf(old(self).deep_view()),
        ensures
            store_wf(final(self).deep_view()),
            ({
                let o = old(self).deep_view();
                let n = final(self).deep_view();
                let w = o.workspaces[o.current as int];
                let nw = n.workspaces[o.current as int];
                &&& n.current == o.current
                &&& n.current_request == o.current_request
                &&& n.workspaces == o.workspaces.update(o.current as int, nw)
                &&& nw == (WorkspaceModel { selected_request: idx, ..w })
            }),
    {
        let ghost o = self.deep_view();
        let wi = self.current_workspace;
        let ghost w = o.workspaces[o.current as int];
        proof {
            assert(w == self.workspaces@[wi as int].deep_view());
        }
        let ws = &mut self.workspaces[wi];
        ws.selected_request = idx;
        proof {
            let n = self.deep_view();
            let nw = n.workspaces[o.current as int];
            assert(n.workspaces =~= o.workspaces.update(o.current as int, nw));
            assert(nw =~= (WorkspaceModel { selected_request: idx, ..w }));
        }
    }

    /// Select an environment, or none.
    pub fn select_environment(&mut self, idx: Option<usize>)
        requires
            store_wf(old(self).deep_view()),
        ensures
            store_wf(final(self).deep_view()),
            ({
                let o = old(self).deep_view();
                let n = final(self).deep_view();
                let w = o.workspaces[o.current as int];
                let nw = n.workspaces[o.current as int];
                &&& n.current == o.current
                &&& n.current_request == o.current_request
                &&& n.workspaces == o.workspaces.update(o.current as int, nw)
                &&& nw == (WorkspaceModel { selected_environment: idx, ..w })
            }),
    {
        let ghost o = self.deep_view();
        let wi = self.current_workspace;
        let ghost w = o.workspaces[o.current as int];
        proof {
            assert(w == self.workspaces@[wi as int].deep_view());
        }
        let ws = &mut self.workspaces[wi];
        ws.selected_environment = idx;
        proof {
            let n = self.deep_view();
            let nw = n.workspaces[o.current as int];
            assert(n.workspaces =~= o.workspaces.update(o.current as int, nw));
            assert(nw =~= (WorkspaceModel { selected_environment: idx, ..w }));
        }
    }

    /// The active environment of the current workspace, if the cursor names
    /// one.
    pub fn active_environment(&self) -> (r: Option<&Environment>)
        requires
            store_wf(self.deep_view()),
        ensures
            ({
                let w = self.deep_view().workspaces[self.deep_view().current as int];
                match r {
                    Some(e) => {
                        let ei = w.selected_environment.unwrap() as int;
                        w.selected_environment is Some && ei < w.environments.len()
                            && e.deep_view() == w.environments[ei]
                    },
                    None => w.selected_environment is None || (w.selected_environment.unwrap()
                        as int) >= w.environments.len(),
                }
            }),
    {
        let ghost w = self.deep_view().workspaces[self.deep_view().current as int];
        let wi = self.current_workspace;
        proof {
            assert(w == self.workspaces@[wi as int].deep_view());
        }
        match self.workspaces[wi].selected_environment {
            Some(ei) => {
                if ei < self.workspaces[wi].environments.len() {
                    proof {
                        assert(w.environments[ei as int]
                            == self.workspaces@[wi as int].environments@[ei as int].deep_view());
                    }
                    Some(&self.workspaces[wi].environments[ei])
                } else {
                    None
                }
            },
            None => None,
        }
    }

    /// Substitute the active environment's variables into `input`.
    pub fn resolve_value(&self, input: &str) -> (r: String)
        requires
            store_wf(self.deep_view()),
        ensures
            ({
                let w = self.deep_view().workspaces[self.deep_view().current as int];
                if w.selected_environment is Some && (w.selected_environment.unwrap() as int)
                    < w.environments.len() {
                    r@ == resolve_with(
                        input@,
                        w.environments[w.selected_environment.unwrap() as int].variables,
                    )
                } else {
                    r@ == input@
                }
            }),
    {
        let env = self.active_environment();
        let r = crate::resolve::resolve_value(input, env);
        proof {
            if env is None {
                assert(resolve_with(input@, Seq::<(Seq<char>, Seq<char>)>::empty()) == input@);
            }
        }
        r
    }
}

impl WorkspaceStore {
    /// The persistence write the last mutation calls for: the backing path
    /// and the canonical document of the current workspace's durable subset
    /// — or nothing, for an unsaved workspace. Writing it out is the
    /// caller's best-effort, non-fatal duty.
    pub fn autosave_payload(&self) -> (r: Option<(String, String)>)
        requires
            store_wf(self.deep_view()),
        ensures
            ({
                let w = self.deep_view().workspaces[self.deep_view().current as int];
                match r {
                    Some((path, doc)) => w.file_path == Some(path@) && doc@
                        == crate::json::ser_storage(
                        crate::model::StorageModel {
                            collections: w.collections,
                            environments: w.environments,
                        },
                    ),
                    None => w.file_path is None,
                }
            }),
    {
        let ghost w = self.deep_view().workspaces[self.deep_view().current as int];
        let wi = self.current_workspace;
        proof {
            assert(w == self.workspaces@[wi as int].deep_view());
        }
        match &self.workspaces[wi].file_path {
            Some(p) => {
                let st = self.workspaces[wi].storage_of();
                let doc = crate::json::workspace_to_json(&st);
                proof {
                    assert(st.deep_view() =~= (crate::model::StorageModel {
                        collections: w.collections,
                        environments: w.environments,
                    }));
                }
                Some((p.clone(), doc))
            },
            None => None,
        }
    }
}

/// A variable name counts as a duplicate of another entry when its trimmed
/// form is non-empty and some other entry's trimmed name is the same.
pub open spec fn spec_has_duplicate(
    key: Seq<char>,
    vars: Seq<(Seq<char>, Seq<char>)>,
    self_index: int,
) -> bool {
    trim_seq(key).len() > 0 && exists|j: int|
        0 <= j < vars.len() && j != self_index && trim_seq(#[trigger] vars[j].0) == trim_seq(key)
}

/// Whether the variable at `self_index` shares its trimmed, non-empty name
/// with another entry.
pub fn has_duplicate(key: &str, all_variables: &Vec<(String, String)>, self_index: usize) -> (r: bool)
    ensures
        r == spec_has_duplicate(key@, all_variables.deep_view(), self_index as int),
{
    let ghost vv = all_variables.deep_view();
    let key_trim = trimmed(key);
    if key_trim.len() == 0 {
        return false;
    }
    let mut j: usize = 0;
    while j < all_variables.len()
        invariant
            vv == all_variables.deep_view(),
            vv.len() == all_variables@.len(),
            j <= vv.len(),
            key_trim@ == trim_seq(key@),
            key_trim@.len() > 0,
            forall|q: int|
                0 <= q < j && q != self_index as int ==> trim_seq((#[trigger] vv[q]).0) != trim_seq(
                    key@,
                ),
        decreases vv.len() - j,
    {
        proof {
            assert(vv[j as int] == (all_variables@[j as int].0@, all_variables@[j as int].1@));
        }
        if j != self_index {
            let other = trimmed(all_variables[j].0.as_str());
            if crate::text::chars_eq(&other, &key_trim) {
                proof {
                    assert(trim_seq(vv[j as int].0) == trim_seq(key@));
                }
                return true;
            }
        }
        j = j + 1;
    }
    false
}

/// Two entries sharing a trimmed, non-blank name are both flagged as
/// duplicates — and with a blank shared name, neither is.
pub proof fn lemma_duplicate_detection(vars: Seq<(Seq<char>, Seq<char>)>, i: int, j: int)
    requires
        0 <= i < vars.len(),
        0 <= j < vars.len(),
        i != j,
        trim_seq(vars[i].0) == trim_seq(vars[j].0),
    ensures
        !crate::text::spec_is_blank(vars[i].0) ==> spec_has_duplicate(vars[i].0, vars, i)
            && spec_has_duplicate(vars[j].0, vars, j),
        crate::text::spec_is_blank(vars[i].0) ==> !spec_has_duplicate(vars[i].0, vars, i)
            && !spec_has_duplicate(vars[j].0, vars, j),
{
    crate::text::lemma_trim_empty_iff_blank(vars[i].0);
    crate::text::lemma_trim_empty_iff_blank(vars[j].0);
}

} // verus!
