//! Folder-tree addressing: an address is an ordered sequence of child-folder
//! indices, read left to right as "descend into `folders[i]`" starting from a
//! collection's root folder. Lookup fails without mutating anything as soon as
//! an index is out of range at its depth. Mutation through an address is
//! expressed as whole operations (append a request or folder, overwrite a
//! request), each a no-op when the address does not resolve.

use vstd::prelude::*;
use crate::model::{Collection, Folder, FolderModel, HttpRequest, RequestModel};

verus! {

broadcast use vstd::std_specs::vec::group_vec_axioms;

/// The folder an address reaches from `f`, or `None` if some index is out of
/// range at its depth.
pub open spec fn folder_at(f: FolderModel, path: Seq<usize>) -> Option<FolderModel>
    decreases path.len(),
{
    if path.len() == 0 {
        Some(f)
    } else if (path[0] as int) < f.folders.len() {
        folder_at(f.folders[path[0] as int], path.skip(1))
    } else {
        None
    }
}

/// Every index of the address is in range at its depth.
pub open spec fn valid_address(f: FolderModel, path: Seq<usize>) -> bool
    decreases path.len(),
{
    path.len() == 0 || ((path[0] as int) < f.folders.len() && valid_address(
        f.folders[path[0] as int],
        path.skip(1),
    ))
}

/// Addressing resolves exactly the well-formed addresses: lookup succeeds if
/// and only if every index of the address is in range at its depth.
pub proof fn lemma_folder_at_resolves_iff_valid(f: FolderModel, path: Seq<usize>)
    ensures
        folder_at(f, path) is Some <==> valid_address(f, path),
    decreases path.len(),
{
    if path.len() > 0 && (path[0] as int) < f.folders.len() {
        lemma_folder_at_resolves_iff_valid(f.folders[path[0] as int], path.skip(1));
    }
}

/// `n` is `o` with the folder at `path` replaced by `sub`, everything else
/// untouched.
pub open spec fn replaced_at(o: FolderModel, n: FolderModel, path: Seq<usize>, sub: FolderModel) -> bool
    decreases path.len(),
{
    if path.len() == 0 {
        n == sub
    } else {
        let i = path[0] as int;
        &&& 0 <= i < o.folders.len()
        &&& n.id == o.id
        &&& n.name == o.name
        &&& n.requests == o.requests
        &&& n.folders.len() == o.folders.len()
        &&& forall|j: int| 0 <= j < o.folders.len() && j != i ==> n.folders[j] == o.folders[j]
        &&& replaced_at(o.folders[i], n.folders[i], path.skip(1), sub)
    }
}

/// `m` with `r` appended to its requests.
pub open spec fn with_request_pushed(m: FolderModel, r: RequestModel) -> FolderModel {
    FolderModel { requests: m.requests.push(r), ..m }
}

/// `m` with its request `i` overwritten by `r`.
pub open spec fn with_request_set(m: FolderModel, i: int, r: RequestModel) -> FolderModel {
    FolderModel { requests: m.requests.update(i, r), ..m }
}

/// `m` with `g` appended to its child folders.
pub open spec fn with_folder_pushed(m: FolderModel, g: FolderModel) -> FolderModel {
    FolderModel { folders: m.folders.push(g), ..m }
}

impl Folder {
    /// Read-only traversal from this folder along `path`.
    pub fn descend(&self, path: &Vec<usize>) -> (r: Option<&Folder>)
        ensures
            match r {
                Some(g) => folder_at(self.deep_view(), path@) == Some(g.deep_view()),
                None => folder_at(self.deep_view(), path@) is None,
            },
    {
        let mut cur: &Folder = self;
        let mut i: usize = 0;
        proof {
            assert(path@.skip(0) =~= path@);
        }
        while i < path.len()
            invariant
                i <= path@.len(),
                folder_at(self.deep_view(), path@) == folder_at(
                    cur.deep_view(),
                    path@.skip(i as int),
                ),
            decreases path@.len() - i,
        {
            let idx = path[i];
            proof {
                assert(path@.skip(i as int)[0] == path@[i as int]);
                assert(path@.skip(i as int).skip(1) =~= path@.skip(i as int + 1));
            }
            if idx < cur.folders.len() {
                proof {
                    assert(cur.deep_view().folders[idx as int] == cur.folders[idx as int].deep_view());
                }
                cur = &cur.folders[idx];
                i = i + 1;
            } else {
                return None;
            }
        }
        proof {
            assert(path@.skip(i as int) =~= Seq::<usize>::empty());
        }
        Some(cur)
    }

    /// Append `req` to the folder reached by `path[depth..]`; a no-op
    /// returning `false` when the address does not resolve.
    pub fn append_request_at(&mut self, path: &Vec<usize>, depth: usize, req: HttpRequest) -> (ok: bool)
        requires
            depth <= path@.len(),
        ensures
            ({
                let o = old(self).deep_view();
                let n = final(self).deep_view();
                let p = path@.skip(depth as int);
                &&& ok == (folder_at(o, p) is Some)
                &&& ok ==> replaced_at(o, n, p, with_request_pushed(folder_at(o, p).unwrap(), req.deep_view()))
                &&& !ok ==> n == o
            }),
        decreases path@.len() - depth,
    {
        let ghost o = self.deep_view();
        if depth == path.len() {
            proof {
                assert(path@.skip(depth as int) =~= Seq::<usize>::empty());
            }
            self.requests.push(req);
            proof {
                assert(self.deep_view().requests =~= o.requests.push(req.deep_view()));
                assert(self.deep_view().folders =~= o.folders);
                assert(self.deep_view() =~= with_request_pushed(o, req.deep_view()));
            }
            true
        } else {
            let idx = path[depth];
            proof {
                assert(path@.skip(depth as int)[0] == path@[depth as int]);
                assert(path@.skip(depth as int).skip(1) =~= path@.skip(depth as int + 1));
            }
            if idx < self.folders.len() {
                proof {
                    assert(o.folders[idx as int] == self.folders[idx as int].deep_view());
                }
                let ok = self.folders[idx].append_request_at(path, depth + 1, req);
                proof {
                    let n = self.deep_view();
                    assert(n.folders.len() == o.folders.len());
                    assert(forall|j: int|
                        0 <= j < o.folders.len() && j != idx as int
                            ==> n.folders[j] == o.folders[j]);
                    assert(n.requests =~= o.requests);
                    if !ok {
                        assert(n.folders[idx as int] == o.folders[idx as int]);
                        assert(n.folders =~= o.folders);
                        assert(n =~= o);
                    }
                }
                ok
            } else {
                false
            }
        }
    }

    /// Overwrite request `req_idx` of the folder reached by `path[depth..]`;
    /// a no-op returning `false` when the address or the index does not
    /// resolve.
    pub fn set_request_at(
        &mut self,
        path: &Vec<usize>,
        depth: usize,
        req_idx: usize,
        req: HttpRequest,
    ) -> (ok: bool)
        requires
            depth <= path@.len(),
        ensures
            ({
                let o = old(self).deep_view();
                let n = final(self).deep_view();
                let p = path@.skip(depth as int);
                &&& ok == (folder_at(o, p) is Some && (req_idx as int)
                    < folder_at(o, p).unwrap().requests.len())
                &&& ok ==> replaced_at(o, n, p, with_request_set(folder_at(o, p).unwrap(), req_idx as int, req.deep_view()))
                &&& !ok ==> n == o
            }),
        decreases path@.len() - depth,
    {
        let ghost o = self.deep_view();
        if depth == path.len() {
            proof {
                assert(path@.skip(depth as int) =~= Seq::<usize>::empty());
            }
            if req_idx < self.requests.len() {
                let slot = &mut self.requests[req_idx];
                *slot = req;
                proof {
                    assert(self.deep_view().requests =~= o.requests.update(
                        req_idx as int,
                        req.deep_view(),
                    ));
                    assert(self.deep_view().folders =~= o.folders);
                    assert(self.deep_view() =~= with_request_set(o, req_idx as int, req.deep_view()));
                }
                true
            } else {
                false
            }
        } else {
            let idx = path[depth];
            proof {
                assert(path@.skip(depth as int)[0] == path@[depth as int]);
                assert(path@.skip(depth as int).skip(1) =~= path@.skip(depth as int + 1));
            }
            if idx < self.folders.len() {
                proof {
                    assert(o.folders[idx as int] == self.folders[idx as int].deep_view());
                }
                let ok = self.folders[idx].set_request_at(path, depth + 1, req_idx, req);
                proof {
                    let n = self.deep_view();
                    assert(n.folders.len() == o.folders.len());
                    assert(forall|j: int|
                        0 <= j < o.folders.len() && j != idx as int
                            ==> n.folders[j] == o.folders[j]);
                    assert(n.requests =~= o.requests);
                    if !ok {
                        assert(n.folders[idx as int] == o.folders[idx as int]);
                        assert(n.folders =~= o.folders);
                        assert(n =~= o);
                    }
                }
                ok
            } else {
                false
            }
        }
    }

    /// Append child folder `sub` to the folder reached by `path[depth..]`;
    /// a no-op returning `false` when the address does not resolve.
    pub fn append_folder_at(&mut self, path: &Vec<usize>, depth: usize, sub: Folder) -> (ok: bool)
        requires
            depth <= path@.len(),
        ensures
            ({
                let o = old(self).deep_view();
                let n = final(self).deep_view();
                let p = path@.skip(depth as int);
                &&& ok == (folder_at(o, p) is Some)
                &&& ok ==> replaced_at(o, n, p, with_folder_pushed(folder_at(o, p).unwrap(), sub.deep_view()))
                &&& !ok ==> n == o
            }),
        decreases path@.len() - depth,
    {
        let ghost o = self.deep_view();
        let ghost sub_model = sub.deep_view();
        if depth == path.len() {
            proof {
                assert(path@.skip(depth as int) =~= Seq::<usize>::empty());
            }
            self.folders.push(sub);
            proof {
                assert(self.deep_view().requests =~= o.requests);
                assert(self.deep_view().folders =~= o.folders.push(sub_model));
                assert(self.deep_view() =~= with_folder_pushed(o, sub_model));
            }
            true
        } else {
            let idx = path[depth];
            proof {
                assert(path@.skip(depth as int)[0] == path@[depth as int]);
                assert(path@.skip(depth as int).skip(1) =~= path@.skip(depth as int + 1));
            }
            if idx < self.folders.len() {
                proof {
                    assert(o.folders[idx as int] == self.folders[idx as int].deep_view());
                }
                let ok = self.folders[idx].append_folder_at(path, depth + 1, sub);
                proof {
                    let n = self.deep_view();
                    assert(n.folders.len() == o.folders.len());
                    assert(forall|j: int|
                        0 <= j < o.folders.len() && j != idx as int
                            ==> n.folders[j] == o.folders[j]);
                    assert(n.requests =~= o.requests);
                    if !ok {
                        assert(n.folders[idx as int] == o.folders[idx as int]);
                        assert(n.folders =~= o.folders);
                        assert(n =~= o);
                    }
                }
                ok
            } else {
                false
            }
        }
    }
}

impl Collection {
    /// The folder an address reaches inside this collection; the empty
    /// address reaches the root folder itself.
    pub fn get_folder_by_path(&self, path: &Vec<usize>) -> (r: Option<&Folder>)
        ensures
            match r {
                Some(g) => folder_at(self.deep_view().root_folder, path@) == Some(g.deep_view()),
                None => folder_at(self.deep_view().root_folder, path@) is None,
            },
    {
        self.root_folder.descend(path)
    }
}

} // verus!

