//! Repository sources of a backend, and the add/remove requests the
//! repositories view derives from them.

use vstd::prelude::*;

verus! {

/// A request to add a repository, with the repository definition data.
#[derive(Debug)]
pub struct RepositoryAdd {
    pub id: String,
    pub data: Vec<u8>,
}

/// A request to remove a repository.
#[derive(Debug)]
pub struct RepositoryRemove {
    pub id: String,
    pub name: String,
}

/// Why removing a repository was refused.
#[derive(Debug)]
pub enum RepositoryRemoveError {
    /// The repository is not present.
    NotFound,
    /// The backend reported a failure, with its message.
    Backend(String),
}

/// What kind of source this is: a recommended source shipped with the
/// store, with its definition data and current enablement, or a custom
/// one the user added.
#[derive(Clone, Debug, PartialEq)]
pub enum SourceKind {
    Recommended { data: Vec<u8>, enabled: bool },
    Custom,
}

/// One repository source of a backend.
#[derive(Debug)]
pub struct Source {
    pub backend_name: String,
    pub id: String,
    pub name: String,
    pub kind: SourceKind,
    pub requires: Vec<String>,
}

impl Source {
    /// The add request for this source: only a recommended source that is
    /// currently disabled can be added.
    pub fn add(&self) -> (r: Option<RepositoryAdd>)
        ensures
            r is Some <==> (self.kind matches SourceKind::Recommended { enabled: false, .. }),
            r is Some ==> r.unwrap().id@ == self.id@,
            r is Some ==> (self.kind matches SourceKind::Recommended { data, .. } && r.unwrap().data@
                == data@),
    {
        match &self.kind {
            SourceKind::Recommended { data, enabled } => {
                if !*enabled {
                    let mut copy: Vec<u8> = Vec::new();
                    let mut i: usize = 0;
                    while i < data.len()
                        invariant
                            i <= data@.len(),
                            copy@ == data@.subrange(0, i as int),
                        decreases data@.len() - i,
                    {
                        copy.push(data[i]);
                        i += 1;
                        proof {
                            assert(copy@ =~= data@.subrange(0, i as int));
                        }
                    }
                    proof {
                        assert(copy@ =~= data@);
                    }
                    Some(RepositoryAdd { id: self.id.clone(), data: copy })
                } else {
                    None
                }
            },
            SourceKind::Custom => None,
        }
    }

    /// The remove request for this source: a custom source, or a
    /// recommended source that is currently enabled, can be removed.
    pub fn remove(&self) -> (r: Option<RepositoryRemove>)
        ensures
            r is Some <==> ((self.kind matches SourceKind::Recommended { enabled: true, .. })
                || self.kind is Custom),
            r is Some ==> r.unwrap().id@ == self.id@ && r.unwrap().name@ == self.name@,
    {
        match &self.kind {
            SourceKind::Recommended { enabled, .. } => {
                if *enabled {
                    Some(RepositoryRemove { id: self.id.clone(), name: self.name.clone() })
                } else {
                    None
                }
            },
            SourceKind::Custom => Some(
                RepositoryRemove { id: self.id.clone(), name: self.name.clone() },
            ),
        }
    }
}

} // verus!
