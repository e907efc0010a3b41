//! What is told of a value that has not the shape it should have.

use vstd::prelude::*;

use crate::json::JsonView;
use crate::store::shape::SlotView;

verus! {

/// A number is asked for: nothing is wrong with a whole number that fits, and with a field that
/// is not there; with everything else something is, and it is told what was found.
pub proof fn law_number_field(v: JsonView)
    ensures
        crate::store::shape::int_fault(None) is None,
        crate::store::shape::int_fault(Some(v)) is None <==> v is Int,
        crate::store::shape::int_in(Some(v)) is Some <==> v is Int,
        v matches JsonView::Int(n) ==> crate::store::shape::int_of(Some(v)) == n,
        !(v is Int) && !(v is Number) ==> crate::store::shape::int_fault(Some(v)) == Some(
            "invalid type: "@ + crate::store::shape::found(v) + ", expected "@ + "i64"@,
        ),
{
}

/// A text is asked for: nothing is wrong with a text and with a field that is not there; with
/// everything else something is, and it is told what was found.
pub proof fn law_text_field(v: JsonView)
    ensures
        crate::store::shape::text_fault(None) is None,
        crate::store::shape::text_fault(Some(v)) is None <==> v is Str,
        v matches JsonView::Str(s) ==> crate::store::shape::text_of(Some(v)) == s,
        !(v is Str) ==> crate::store::shape::text_fault(Some(v)) == Some(
            "invalid type: "@ + crate::store::shape::found(v) + ", expected "@ + "a string"@,
        ),
{
}

/// A null where a field may be left out counts as left out; any other value counts as itself.
pub proof fn law_null_left_out(v: JsonView)
    ensures
        v is Null ==> crate::store::shape::not_null(Some(v)) is None,
        !(v is Null) ==> crate::store::shape::not_null(Some(v)) == Some(v),
        crate::store::shape::not_null(None) is None,
{
}

proof fn lemma_no_member_fault(members: Seq<(Seq<char>, JsonView)>, slots: Seq<SlotView>)
    requires
        forall|i: int| 0 <= i < slots.len() ==> (#[trigger] slots[i]).fault is None,
    ensures
        crate::store::shape::member_fault(members, slots) is None,
    decreases members.len(),
{
    if members.len() > 0 {
        lemma_no_fault_named(slots, members[0].0);
        lemma_no_member_fault(members.drop_first(), slots);
    }
}

proof fn lemma_no_fault_named(slots: Seq<SlotView>, key: Seq<char>)
    requires
        forall|i: int| 0 <= i < slots.len() ==> (#[trigger] slots[i]).fault is None,
    ensures
        crate::store::shape::fault_named(slots, key) is None,
    decreases slots.len(),
{
    if slots.len() > 0 {
        assert(slots[0].fault is None);
        let rest = slots.drop_first();
        assert forall|i: int| 0 <= i < rest.len() implies (#[trigger] rest[i]).fault is None by {
            assert(rest[i] == slots[i + 1]);
        }
        lemma_no_fault_named(rest, key);
    }
}

proof fn lemma_first_missing(v: JsonView, slots: Seq<SlotView>, i: int)
    requires
        0 <= i < slots.len(),
        slots[i].required,
        v.get(slots[i].key) is None,
        forall|k: int|
            0 <= k < i ==> !(#[trigger] slots[k]).required || v.get(slots[k].key) is Some,
    ensures
        crate::store::shape::first_missing(v, slots) == Some(
            "missing field `"@ + slots[i].key + "`"@,
        ),
    decreases i,
{
    if i > 0 {
        assert(!slots[0].required || v.get(slots[0].key) is Some);
        let rest = slots.drop_first();
        assert forall|k: int| 0 <= k < i - 1 implies !(#[trigger] rest[k]).required || v.get(
            rest[k].key,
        ) is Some by {
            assert(rest[k] == slots[k + 1]);
        }
        lemma_first_missing(v, rest, i - 1);
    }
}

/// Of an object whose fields all fit, the first field that it should have and has not is told,
/// by its name.
pub proof fn law_missing_field(v: JsonView, what: Seq<char>, slots: Seq<SlotView>, i: int)
    requires
        v is Object,
        forall|k: int| 0 <= k < slots.len() ==> (#[trigger] slots[k]).fault is None,
        0 <= i < slots.len(),
        slots[i].required,
        v.get(slots[i].key) is None,
        forall|k: int|
            0 <= k < i ==> !(#[trigger] slots[k]).required || v.get(slots[k].key) is Some,
    ensures
        crate::store::shape::shape_fault(v, what, slots, true) == Some(
            "missing field `"@ + slots[i].key + "`"@,
        ),
        crate::store::shape::shape_fault(v, what, slots, false) == Some(
            "missing field `"@ + slots[i].key + "`"@,
        ),
{
    lemma_no_member_fault(v->Object_0, slots);
    lemma_first_missing(v, slots, i);
}

/// A value that is neither an object nor a list has not the shape, whatever the shape is.
pub proof fn law_no_shape(v: JsonView, what: Seq<char>, slots: Seq<SlotView>, set_aside: bool)
    requires
        !(v is Object),
        !(v is Array),
    ensures
        crate::store::shape::shape_fault(v, what, slots, set_aside) == Some(
            "invalid type: "@ + crate::store::shape::found(v) + ", expected "@ + what,
        ),
{
}

} // verus!
