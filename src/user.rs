//! User records, and the two object forms that carry one across a binding:
//! a wrapper around the record, and a flat object with the record's fields.

use vstd::prelude::*;

use crate::numbers::copy_numbers;

verus! {

/// A user: an id, favourite numbers and favourite colours, each list in the
/// order given.
pub struct UserRecord {
    pub id: u64,
    pub favorite_numbers: Vec<u64>,
    pub favorite_colors: Vec<String>,
}

impl UserRecord {
    /// `self` and `other` hold the same id and the same lists.
    pub open spec fn same_as(&self, other: &UserRecord) -> bool {
        &&& self.id == other.id
        &&& self.favorite_numbers@ == other.favorite_numbers@
        &&& self.favorite_colors@ == other.favorite_colors@
    }

    /// An independent copy of the record.
    pub fn copy(&self) -> (r: UserRecord)
        ensures
            r.same_as(self),
    {
        UserRecord {
            id: self.id,
            favorite_numbers: copy_numbers(&self.favorite_numbers),
            favorite_colors: copy_strings(&self.favorite_colors),
        }
    }
}

/// A string-by-string copy of `strings`.
fn copy_strings(strings: &Vec<String>) -> (r: Vec<String>)
    ensures
        r@ == strings@,
{
    let mut r: Vec<String> = Vec::new();
    let mut i: usize = 0;
    while i < strings.len()
        invariant
            i <= strings@.len(),
            r@ == strings@.subrange(0, i as int),
        decreases strings@.len() - i,
    {
        r.push(strings[i].clone());
        i += 1;
        assert(r@ =~= strings@.subrange(0, i as int));
    }
    assert(r@ =~= strings@);
    r
}

/// A shared handle on a user record.
pub struct UserObject {
    pub user_record: UserRecord,
}

impl UserObject {
    /// A copy of the record that the object holds.
    pub fn to_record(&self) -> (r: UserRecord)
        ensures
            r.same_as(&self.user_record),
    {
        self.user_record.copy()
    }
}

/// The object that holds `record`.
pub fn user_object_from_record(record: UserRecord) -> (r: UserObject)
    ensures
        r.user_record == record,
{
    UserObject { user_record: record }
}

/// A user record laid out as separate fields.
pub struct WasmUserObject {
    pub id: u64,
    pub favorite_numbers: Vec<u64>,
    pub favorite_colors: Vec<String>,
}

impl WasmUserObject {
    /// The object with the given fields.
    pub fn new(id: u64, favorite_numbers: Vec<u64>, favorite_colors: Vec<String>) -> (r: Self)
        ensures
            r.id == id,
            r.favorite_numbers == favorite_numbers,
            r.favorite_colors == favorite_colors,
    {
        WasmUserObject { id, favorite_numbers, favorite_colors }
    }

    /// A record holding copies of the object's fields.
    pub fn to_record(&self) -> (r: UserRecord)
        ensures
            r.id == self.id,
            r.favorite_numbers@ == self.favorite_numbers@,
            r.favorite_colors@ == self.favorite_colors@,
    {
        UserRecord {
            id: self.id,
            favorite_numbers: copy_numbers(&self.favorite_numbers),
            favorite_colors: copy_strings(&self.favorite_colors),
        }
    }
}

/// The object whose fields are those of `record`.
pub fn wasm_user_object_from_record(record: UserRecord) -> (r: WasmUserObject)
    ensures
        r.id == record.id,
        r.favorite_numbers == record.favorite_numbers,
        r.favorite_colors == record.favorite_colors,
{
    WasmUserObject {
        id: record.id,
        favorite_numbers: record.favorite_numbers,
        favorite_colors: record.favorite_colors,
    }
}

} // verus!
