//! Data model: requests, folders, collections, environments, workspaces,
//! responses — and the mathematical model (`*Model` types with `Seq` fields)
//! each executable type is specified against, via `DeepView`.

use vstd::prelude::*;

verus! {

broadcast use vstd::std_specs::vec::group_vec_axioms;

/// Which of the body payloads is active on a request.
#[derive(Debug, Clone, Copy, PartialEq, Eq, Structural)]
pub enum BodyType {
    NoBody,
    Raw,
    Json,
    FormData,
    UrlEncoded,
}

/// One entry of a multipart form body: a text field, or a file field
/// naming a filesystem path and a display filename.
#[derive(Debug, Clone)]
pub enum FormDataEntry {
    Text { key: String, value: String },
    File { key: String, file_path: String, file_name: String },
}

/// Model of a form-data entry.
pub enum FormEntryModel {
    Text { key: Seq<char>, value: Seq<char> },
    File { key: Seq<char>, file_path: Seq<char>, file_name: Seq<char> },
}

impl DeepView for FormDataEntry {
    type V = FormEntryModel;

    open spec fn deep_view(&self) -> FormEntryModel {
        match self {
            FormDataEntry::Text { key, value } => FormEntryModel::Text {
                key: key@,
                value: value@,
            },
            FormDataEntry::File { key, file_path, file_name } => FormEntryModel::File {
                key: key@,
                file_path: file_path@,
                file_name: file_name@,
            },
        }
    }
}

/// One stored HTTP request.
#[derive(Debug, Clone)]
pub struct HttpRequest {
    pub id: String,
    pub name: String,
    pub method: String,
    pub url: String,
    pub headers: Vec<(String, String)>,
    pub body: String,
    pub body_type: BodyType,
    pub form_data: Vec<FormDataEntry>,
    pub url_encoded_data: Vec<(String, String)>,
    pub query_params: Vec<(String, String)>,
}

/// Model of a stored HTTP request.
#[verifier::ext_equal]
pub struct RequestModel {
    pub id: Seq<char>,
    pub name: Seq<char>,
    pub method: Seq<char>,
    pub url: Seq<char>,
    pub headers: Seq<(Seq<char>, Seq<char>)>,
    pub body: Seq<char>,
    pub body_type: BodyType,
    pub form_data: Seq<FormEntryModel>,
    pub url_encoded_data: Seq<(Seq<char>, Seq<char>)>,
    pub query_params: Seq<(Seq<char>, Seq<char>)>,
}

impl DeepView for HttpRequest {
    type V = RequestModel;

    open spec fn deep_view(&self) -> RequestModel {
        RequestModel {
            id: self.id@,
            name: self.name@,
            method: self.method@,
            url: self.url@,
            headers: self.headers.deep_view(),
            body: self.body@,
            body_type: self.body_type,
            form_data: self.form_data.deep_view(),
            url_encoded_data: self.url_encoded_data.deep_view(),
            query_params: self.query_params.deep_view(),
        }
    }
}

/// A folder holds requests and child folders; children are owned exclusively.
#[derive(Debug)]
pub struct Folder {
    pub id: String,
    pub name: String,
    pub requests: Vec<HttpRequest>,
    pub folders: Vec<Folder>,
}

/// Model of a folder tree.
#[verifier::ext_equal]
pub struct FolderModel {
    pub id: Seq<char>,
    pub name: Seq<char>,
    pub requests: Seq<RequestModel>,
    pub folders: Seq<FolderModel>,
}

/// The model of a folder tree, by structural recursion.
pub open spec fn folder_model(f: Folder) -> FolderModel
    decreases f,
{
    FolderModel {
        id: f.id@,
        name: f.name@,
        requests: f.requests.deep_view(),
        folders: Seq::new(
            f.folders@.len(),
            |i: int|
                if 0 <= i < f.folders@.len() {
                    folder_model(f.folders[i])
                } else {
                    vstd::pervasive::arbitrary()
                },
        ),
    }
}

impl DeepView for Folder {
    type V = FolderModel;

    open spec fn deep_view(&self) -> FolderModel {
        folder_model(*self)
    }
}

/// A collection owns one root folder.
#[derive(Debug)]
pub struct Collection {
    pub id: String,
    pub name: String,
    pub root_folder: Folder,
}

/// Model of a collection.
#[verifier::ext_equal]
pub struct CollectionModel {
    pub id: Seq<char>,
    pub name: Seq<char>,
    pub root_folder: FolderModel,
}

impl DeepView for Collection {
    type V = CollectionModel;

    open spec fn deep_view(&self) -> CollectionModel {
        CollectionModel { id: self.id@, name: self.name@, root_folder: self.root_folder.deep_view() }
    }
}

/// A named set of (variable name, value) pairs; duplicates are tolerated.
#[derive(Debug, Clone)]
pub struct Environment {
    pub name: String,
    pub variables: Vec<(String, String)>,
}

/// Model of an environment.
#[verifier::ext_equal]
pub struct EnvironmentModel {
    pub name: Seq<char>,
    pub variables: Seq<(Seq<char>, Seq<char>)>,
}

impl DeepView for Environment {
    type V = EnvironmentModel;

    open spec fn deep_view(&self) -> EnvironmentModel {
        EnvironmentModel { name: self.name@, variables: self.variables.deep_view() }
    }
}

/// The durable subset of a workspace: what is persisted to disk.
#[derive(Debug)]
pub struct AppStorage {
    pub collections: Vec<Collection>,
    pub environments: Vec<Environment>,
}

/// Model of the durable subset.
#[verifier::ext_equal]
pub struct StorageModel {
    pub collections: Seq<CollectionModel>,
    pub environments: Seq<EnvironmentModel>,
}

impl DeepView for AppStorage {
    type V = StorageModel;

    open spec fn deep_view(&self) -> StorageModel {
        StorageModel {
            collections: self.collections.deep_view(),
            environments: self.environments.deep_view(),
        }
    }
}

/// The Unicode `White_Space` characters: the characters `str::trim` strips.
pub open spec fn is_space_char(c: char) -> bool {
    c == '\u{0009}' || c == '\u{000A}' || c == '\u{000B}' || c == '\u{000C}'
        || c == '\u{000D}' || c == '\u{0020}' || c == '\u{0085}' || c == '\u{00A0}'
        || c == '\u{1680}' || ('\u{2000}' <= c && c <= '\u{200A}') || c == '\u{2028}'
        || c == '\u{2029}' || c == '\u{202F}' || c == '\u{205F}' || c == '\u{3000}'
}

/// Whitespace test for one character, matching `char::is_whitespace`.
pub fn is_space(c: char) -> (r: bool)
    ensures
        r == is_space_char(c),
{
    c == '\u{0009}' || c == '\u{000A}' || c == '\u{000B}' || c == '\u{000C}'
        || c == '\u{000D}' || c == '\u{0020}' || c == '\u{0085}' || c == '\u{00A0}'
        || c == '\u{1680}' || ('\u{2000}' <= c && c <= '\u{200A}') || c == '\u{2028}'
        || c == '\u{2029}' || c == '\u{202F}' || c == '\u{205F}' || c == '\u{3000}'
}

} // verus!
