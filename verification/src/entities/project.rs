//! A cached project.

use vstd::prelude::*;

verus! {

/// A project as the local cache holds it.
#[derive(Debug, Clone, PartialEq)]
pub struct Model {
    pub uuid: u128,
    pub backend_uuid: u128,
    pub remote_id: String,
    pub name: String,
    pub is_favorite: bool,
    pub is_inbox_project: bool,
    pub order_index: i32,
    pub parent_uuid: Option<u128>,
}

impl Model {
    /// A field-for-field copy of the project.
    pub fn duplicate(&self) -> (r: Model)
        ensures
            r == *self,
    {
        Model {
            uuid: self.uuid,
            backend_uuid: self.backend_uuid,
            remote_id: self.remote_id.clone(),
            name: self.name.clone(),
            is_favorite: self.is_favorite,
            is_inbox_project: self.is_inbox_project,
            order_index: self.order_index,
            parent_uuid: self.parent_uuid,
        }
    }
}

/// A copy of a list of projects.
pub fn duplicate_all(v: &Vec<Model>) -> (r: Vec<Model>)
    ensures
        r@ == v@,
{
    let mut out: Vec<Model> = Vec::new();
    let mut i: usize = 0;
    while i < v.len()
        invariant
            i <= v@.len(),
            out@ == v@.take(i as int),
        decreases v@.len() - i,
    {
        out.push(v[i].duplicate());
        proof {
            assert(v@.take(i + 1) =~= v@.take(i as int).push(v@[i as int]));
        }
        i = i + 1;
    }
    proof {
        assert(v@.take(i as int) =~= v@);
    }
    out
}

} // verus!
