//! What an object holds.

use crate::json;
use crate::json::JsonView;
use vstd::prelude::*;

verus! {

/// Whether an object has a field with this name and value, and no other of the name.
pub open spec fn has(object: JsonView, key: Seq<char>, value: JsonView) -> bool {
    &&& object is Object
    &&& object->Object_0.contains((key, value))
    &&& forall|i: int|
        0 <= i < object->Object_0.len() && (#[trigger] object->Object_0[i]).0 == key
            ==> object->Object_0[i].1 == value
}

/// Whether an object has no field with this name.
pub open spec fn lacks(object: JsonView, key: Seq<char>) -> bool {
    &&& object is Object
    &&& forall|i: int|
        0 <= i < object->Object_0.len() ==> (#[trigger] object->Object_0[i]).0 != key
}

/// Whether an object has this many fields.
pub open spec fn has_fields(object: JsonView, n: int) -> bool {
    object is Object && object->Object_0.len() == n
}

/// What is looked up is the value of the first field of that name, and nothing where there is none.
pub proof fn law_fields_are_found(fields: Seq<(Seq<char>, JsonView)>, key: Seq<char>, at: int)
    ensures
        0 <= at < fields.len() && fields[at].0 == key && (forall|i: int|
            0 <= i < at ==> (#[trigger] fields[i]).0 != key) ==> json::lookup(fields, key) == Some(
            fields[at].1,
        ),
        lacks(JsonView::Object(fields), key) ==> json::lookup(fields, key) is None,
    decreases fields.len(),
{
    if fields.len() > 0 {
        let rest = fields.drop_first();
        law_fields_are_found(rest, key, at - 1);
        if 0 < at < fields.len() && fields[at].0 == key && (forall|i: int|
            0 <= i < at ==> (#[trigger] fields[i]).0 != key) {
            assert(fields[0].0 != key);
            assert forall|i: int| 0 <= i < at - 1 implies (#[trigger] rest[i]).0 != key by {
                assert(fields[i + 1].0 != key);
            }
        }
        if lacks(JsonView::Object(fields), key) {
            let object = JsonView::Object(fields);
            assert(object->Object_0[0].0 != key);
            assert forall|i: int|
                0 <= i < JsonView::Object(rest)->Object_0.len() implies (
            #[trigger] JsonView::Object(rest)->Object_0[i]).0 != key by {
                assert(object->Object_0[i + 1].0 != key);
            }
        }
    }
}

} // verus!
