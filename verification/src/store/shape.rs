//! The shape of a payload: which fields it has to have, and what is said where it has not.
//!
//! A payload is an object with named fields, or an array with the fields in their order. What is
//! wrong with it is told in the words of `serde` and `serde_json`: the first field in the order
//! of the payload whose value does not fit, then the first that is missing.

use vstd::prelude::*;

use crate::json::{Json, JsonView};
use crate::text::{i64_text, joined, same, u64_text};

verus! {

/// A string as `serde` tells of it where it stands in a wrong place: in quotes and escaped, as
/// the `Debug` of a string is.
pub uninterp spec fn string_told(s: Seq<char>) -> Seq<char>;

/// Whether a text is printable ASCII, without quotes and backslashes.
pub open spec fn is_plain(s: Seq<char>) -> bool {
    forall|i: int|
        0 <= i < s.len() ==> ' ' <= #[trigger] s[i] <= '~' && s[i] != '"' && s[i] != '\\'
}

/// `Display` of `serde::de::Unexpected::Str`: the word `string` and the text in quotes and
/// escaped. Of printable ASCII without quotes and backslashes nothing is escaped.
#[verifier::external_body]
fn tell_string(s: &str) -> (r: String)
    ensures
        r@ == string_told(s@),
        is_plain(s@) ==> r@ == "string \""@ + s@ + "\""@,
{
    serde::de::Unexpected::Str(s).to_string()
}

/// Whether the notation of a number is that of a whole number.
pub open spec fn is_whole(s: Seq<char>) -> bool {
    forall|i: int| 0 <= i < s.len() ==> '0' <= #[trigger] s[i] <= '9'
}

fn whole(s: &str) -> (r: bool)
    ensures
        r == is_whole(s@),
{
    let chars = crate::text::chars_of(s);
    let mut i: usize = 0;
    while i < chars.len()
        invariant
            i <= chars@.len(),
            chars@ == s@,
            forall|k: int| 0 <= k < i ==> '0' <= #[trigger] s@[k] <= '9',
        decreases chars.len() - i,
    {
        if !('0' <= chars[i] && chars[i] <= '9') {
            return false;
        }
        i = i + 1;
    }
    true
}

/// What a value is, in words.
pub open spec fn found(v: JsonView) -> Seq<char> {
    match v {
        JsonView::Null => "null"@,
        JsonView::Bool(b) => if b {
            "boolean `true`"@
        } else {
            "boolean `false`"@
        },
        JsonView::Int(n) => "integer `"@ + crate::text::int_decimal(n as int) + "`"@,
        JsonView::Number(s) => (if is_whole(s) {
            "integer `"@
        } else {
            "floating point `"@
        }) + s + "`"@,
        JsonView::Str(s) => string_told(s),
        JsonView::Array(_) => "sequence"@,
        JsonView::Object(_) => "map"@,
    }
}

fn tell(v: &Json) -> (r: String)
    ensures
        r@ == found(v@),
{
    match v {
        Json::Null => "null".to_owned(),
        Json::Bool(b) => if *b {
            "boolean `true`".to_owned()
        } else {
            "boolean `false`".to_owned()
        },
        Json::Int(n) => {
            let mut out = joined("integer `", i64_text(*n).as_str());
            out.append("`");
            out
        },
        Json::Number(s) => {
            let mut out = joined(
                if whole(s.as_str()) {
                    "integer `"
                } else {
                    "floating point `"
                },
                s.as_str(),
            );
            out.append("`");
            out
        },
        Json::Str(s) => tell_string(s.as_str()),
        Json::Array(_) => "sequence".to_owned(),
        Json::Object(_) => "map".to_owned(),
    }
}

/// That a value is of a wrong type.
pub open spec fn wrong_type(v: JsonView, expected: Seq<char>) -> Seq<char> {
    "invalid type: "@ + found(v) + ", expected "@ + expected
}

/// Tell that a value is of a wrong type.
pub fn tell_wrong_type(v: &Json, expected: &str) -> (r: String)
    ensures
        r@ == wrong_type(v@, expected@),
{
    let mut out = joined("invalid type: ", tell(v).as_str());
    out.append(", expected ");
    out.append(expected);
    out
}

/// That a number is too large.
pub open spec fn wrong_value(s: Seq<char>, expected: Seq<char>) -> Seq<char> {
    "invalid value: integer `"@ + s + "`, expected "@ + expected
}

/// That an array has a wrong number of items.
pub open spec fn wrong_length(n: nat, expected: Seq<char>) -> Seq<char> {
    "invalid length "@ + crate::text::decimal(n) + ", expected "@ + expected
}

fn tell_wrong_length(n: usize, expected: &str) -> (r: String)
    ensures
        r@ == wrong_length(n as nat, expected@),
{
    let mut out = joined("invalid length ", u64_text(n as u64).as_str());
    out.append(", expected ");
    out.append(expected);
    out
}

/// Some elements, in words.
pub open spec fn elements(n: nat) -> Seq<char> {
    crate::text::decimal(n) + (if n == 1 {
        " element"@
    } else {
        " elements"@
    })
}

fn tell_elements(n: usize) -> (r: String)
    ensures
        r@ == elements(n as nat),
{
    joined(
        u64_text(n as u64).as_str(),
        if n == 1 {
            " element"
        } else {
            " elements"
        },
    )
}

/// That a field is missing.
pub open spec fn missing_field(key: Seq<char>) -> Seq<char> {
    "missing field `"@ + key + "`"@
}

/// Tell that a field is missing.
pub fn tell_missing(key: &str) -> (r: String)
    ensures
        r@ == missing_field(key@),
{
    let mut out = joined("missing field `", key);
    out.append("`");
    out
}

/// A field: its name, whether it has to be there, and what is wrong with its value.
pub struct Slot {
    pub key: &'static str,
    pub required: bool,
    pub fault: Option<String>,
}

/// What a [`Slot`] stands for.
#[verifier::ext_equal]
pub struct SlotView {
    pub key: Seq<char>,
    pub required: bool,
    pub fault: Option<Seq<char>>,
}

impl View for Slot {
    type V = SlotView;

    open spec fn view(&self) -> SlotView {
        SlotView {
            key: self.key@,
            required: self.required,
            fault: crate::text::opt_view(self.fault),
        }
    }
}

/// A field that has to be there.
pub open spec fn needed(key: Seq<char>, fault: Option<Seq<char>>) -> SlotView {
    SlotView { key, required: true, fault }
}

/// A field that may be left out.
pub open spec fn optional(key: Seq<char>, fault: Option<Seq<char>>) -> SlotView {
    SlotView { key, required: false, fault }
}

/// Put a field behind some others.
pub fn add_slot(slots: &mut Vec<Slot>, key: &'static str, required: bool, fault: Option<String>)
    ensures
        crate::text::views(final(slots)@) == crate::text::views(old(slots)@).push(
            SlotView { key: key@, required, fault: crate::text::opt_view(fault) },
        ),
{
    let slot = Slot { key, required, fault };
    let ghost view = slot@;
    let ghost before = crate::text::views(slots@);
    slots.push(slot);
    proof {
        assert(crate::text::views(slots@) =~= before.push(view));
    }
}

/// The value of a field: by its name in an object, by its place in an array.
pub open spec fn field_at(v: JsonView, key: Seq<char>, place: int) -> Option<JsonView> {
    match v {
        JsonView::Object(_) => v.get(key),
        JsonView::Array(items) => if 0 <= place < items.len() {
            Some(items[place])
        } else {
            None
        },
        _ => None,
    }
}

/// Find the value of a field.
pub fn find_field<'a>(v: &'a Json, key: &str, place: usize) -> (r: Option<&'a Json>)
    ensures
        crate::text::opt_view(r) == field_at(v@, key@, place as int),
{
    match v {
        Json::Object(_) => v.get(key),
        Json::Array(items) => {
            if place < items.len() {
                proof {
                    assert(v@->Array_0[place as int] == items@[place as int]@);
                }
                Some(&items[place])
            } else {
                None
            }
        },
        _ => None,
    }
}

/// What is wrong with the field of a name.
pub open spec fn fault_named(slots: Seq<SlotView>, key: Seq<char>) -> Option<Seq<char>>
    decreases slots.len(),
{
    if slots.len() == 0 {
        None
    } else if slots[0].key == key {
        slots[0].fault
    } else {
        fault_named(slots.drop_first(), key)
    }
}

fn find_fault<'a>(slots: &'a Vec<Slot>, key: &str) -> (r: Option<&'a String>)
    ensures
        crate::text::opt_view(r) == fault_named(crate::text::views(slots@), key@),
{
    let ghost all = crate::text::views(slots@);
    proof {
        assert(all.skip(0) =~= all);
    }
    let mut i: usize = 0;
    while i < slots.len()
        invariant
            i <= slots@.len(),
            all == crate::text::views(slots@),
            fault_named(all, key@) == fault_named(all.skip(i as int), key@),
        decreases slots.len() - i,
    {
        proof {
            assert(all.skip(i as int)[0] == slots@[i as int]@);
            assert(all.skip(i as int).drop_first() =~= all.skip(i + 1));
        }
        if same(slots[i].key, key) {
            return slots[i].fault.as_ref();
        }
        i = i + 1;
    }
    None
}

/// The first of some members whose value does not fit.
pub open spec fn member_fault(members: Seq<(Seq<char>, JsonView)>, slots: Seq<SlotView>) -> Option<
    Seq<char>,
>
    decreases members.len(),
{
    if members.len() == 0 {
        None
    } else {
        match fault_named(slots, members[0].0) {
            Some(fault) => Some(fault),
            None => member_fault(members.drop_first(), slots),
        }
    }
}

/// The first field that has to be there and is not.
pub open spec fn first_missing(v: JsonView, slots: Seq<SlotView>) -> Option<Seq<char>>
    decreases slots.len(),
{
    if slots.len() == 0 {
        None
    } else if slots[0].required && v.get(slots[0].key) is None {
        Some(missing_field(slots[0].key))
    } else {
        first_missing(v, slots.drop_first())
    }
}

/// What is wrong with an object.
pub open spec fn object_fault(v: JsonView, slots: Seq<SlotView>) -> Option<Seq<char>> {
    match member_fault(v->Object_0, slots) {
        Some(fault) => Some(fault),
        None => first_missing(v, slots),
    }
}

/// The first field from place `i` on, of an array of `n` items, whose value does not fit or that
/// has to be there and is not.
pub open spec fn item_fault(n: nat, what: Seq<char>, slots: Seq<SlotView>, i: nat) -> Option<
    Seq<char>,
>
    decreases slots.len() - i,
{
    if i >= slots.len() {
        None
    } else if i < n && slots[i as int].fault is Some {
        slots[i as int].fault
    } else if i >= n && slots[i as int].required {
        Some(wrong_length(i, what + " with "@ + elements(slots.len())))
    } else {
        item_fault(n, what, slots, i + 1)
    }
}

/// What is wrong with an array of `n` items. What is said of too many items depends on whether
/// the value was set aside before it was read.
pub open spec fn array_fault(n: nat, what: Seq<char>, slots: Seq<SlotView>, set_aside: bool) -> Option<
    Seq<char>,
> {
    match item_fault(n, what, slots, 0) {
        Some(fault) => Some(fault),
        None => if n > slots.len() {
            Some(
                wrong_length(
                    n,
                    if set_aside {
                        elements(slots.len()) + " in sequence"@
                    } else {
                        "fewer elements in array"@
                    },
                ),
            )
        } else {
            None
        },
    }
}

/// What is wrong with a value as a payload with some fields; `what` is the payload in words.
pub open spec fn shape_fault(
    v: JsonView,
    what: Seq<char>,
    slots: Seq<SlotView>,
    set_aside: bool,
) -> Option<Seq<char>> {
    match v {
        JsonView::Object(_) => object_fault(v, slots),
        JsonView::Array(items) => array_fault(items.len(), what, slots, set_aside),
        _ => Some(wrong_type(v, what)),
    }
}

/// Find what is wrong with an object.
pub fn check_object(v: &Json, slots: &Vec<Slot>) -> (r: Option<String>)
    requires
        v is Object,
    ensures
        crate::text::opt_view(r) == object_fault(v@, crate::text::views(slots@)),
{
    let ghost all = crate::text::views(slots@);
    match v {
        Json::Object(members) => {
            let ghost named = v@->Object_0;
            proof {
                assert(named.skip(0) =~= named);
            }
            let mut i: usize = 0;
            while i < members.len()
                invariant
                    i <= members@.len(),
                    *v == Json::Object(*members),
                    named == v@->Object_0,
                    all == crate::text::views(slots@),
                    member_fault(named, all) == member_fault(named.skip(i as int), all),
                decreases members.len() - i,
            {
                proof {
                    assert(named.skip(i as int)[0] == named[i as int]);
                    assert(named.skip(i as int).drop_first() =~= named.skip(i + 1));
                    assert(named[i as int].0 == members@[i as int].0@);
                }
                match find_fault(slots, members[i].0.as_str()) {
                    Some(fault) => return Some(fault.clone()),
                    None => {},
                }
                i = i + 1;
            }
            proof {
                assert(named.skip(i as int) =~= Seq::empty());
            }
        },
        _ => {},
    }
    proof {
        assert(all.skip(0) =~= all);
    }
    let mut j: usize = 0;
    while j < slots.len()
        invariant
            j <= slots@.len(),
            all == crate::text::views(slots@),
            member_fault(v@->Object_0, all) is None,
            first_missing(v@, all) == first_missing(v@, all.skip(j as int)),
        decreases slots.len() - j,
    {
        proof {
            assert(all.skip(j as int)[0] == slots@[j as int]@);
            assert(all.skip(j as int).drop_first() =~= all.skip(j + 1));
        }
        if slots[j].required && v.get(slots[j].key).is_none() {
            return Some(tell_missing(slots[j].key));
        }
        j = j + 1;
    }
    None
}

/// Find what is wrong with an array of `n` items.
pub fn check_array(n: usize, what: &str, slots: &Vec<Slot>, set_aside: bool) -> (r: Option<String>)
    ensures
        crate::text::opt_view(r) == array_fault(
            n as nat,
            what@,
            crate::text::views(slots@),
            set_aside,
        ),
{
    let ghost all = crate::text::views(slots@);
    let mut i: usize = 0;
    while i < slots.len()
        invariant
            i <= slots@.len(),
            all == crate::text::views(slots@),
            item_fault(n as nat, what@, all, 0) == item_fault(n as nat, what@, all, i as nat),
        decreases slots.len() - i,
    {
        proof {
            assert(all[i as int] == slots@[i as int]@);
        }
        if i < n {
            match &slots[i].fault {
                Some(fault) => return Some(fault.clone()),
                None => {},
            }
        } else if slots[i].required {
            let mut expected = joined(what, " with ");
            expected.append(tell_elements(slots.len()).as_str());
            return Some(tell_wrong_length(i, expected.as_str()));
        }
        i = i + 1;
    }
    if n > slots.len() {
        if set_aside {
            let expected = joined(tell_elements(slots.len()).as_str(), " in sequence");
            Some(tell_wrong_length(n, expected.as_str()))
        } else {
            Some(tell_wrong_length(n, "fewer elements in array"))
        }
    } else {
        None
    }
}

/// Find what is wrong with a value as a payload with some fields.
pub fn check_shape(v: &Json, what: &str, slots: &Vec<Slot>, set_aside: bool) -> (r: Option<String>)
    ensures
        crate::text::opt_view(r) == shape_fault(
            v@,
            what@,
            crate::text::views(slots@),
            set_aside,
        ),
{
    match v {
        Json::Object(_) => check_object(v, slots),
        Json::Array(items) => {
            proof {
                assert(v@->Array_0.len() == items@.len());
            }
            check_array(items.len(), what, slots, set_aside)
        },
        _ => Some(tell_wrong_type(v, what)),
    }
}

/// The value, where there is one and it is not null.
pub open spec fn not_null(v: Option<JsonView>) -> Option<JsonView> {
    match v {
        Some(JsonView::Null) => None,
        _ => v,
    }
}

/// Leave out a null.
pub fn skip_null<'a>(v: Option<&'a Json>) -> (r: Option<&'a Json>)
    ensures
        crate::text::opt_view(r) == not_null(crate::text::opt_view(v)),
{
    match v {
        Some(x) => match x {
            Json::Null => None,
            _ => Some(x),
        },
        None => None,
    }
}

/// What is wrong with a value as an integer of 64 bits.
pub open spec fn int_fault(v: Option<JsonView>) -> Option<Seq<char>> {
    match v {
        None => None,
        Some(JsonView::Int(_)) => None,
        Some(JsonView::Number(s)) => Some(
            if is_whole(s) {
                wrong_value(s, "i64"@)
            } else {
                wrong_type(JsonView::Number(s), "i64"@)
            },
        ),
        Some(v) => Some(wrong_type(v, "i64"@)),
    }
}

/// Find what is wrong with a value as an integer of 64 bits.
pub fn check_int(v: Option<&Json>) -> (r: Option<String>)
    ensures
        crate::text::opt_view(r) == int_fault(crate::text::opt_view(v)),
{
    match v {
        None => None,
        Some(x) => match x {
            Json::Int(_) => None,
            Json::Number(s) => if whole(s.as_str()) {
                let mut out = joined("invalid value: integer `", s.as_str());
                out.append("`, expected ");
                out.append("i64");
                Some(out)
            } else {
                Some(tell_wrong_type(x, "i64"))
            },
            _ => Some(tell_wrong_type(x, "i64")),
        },
    }
}

/// What is wrong with a value as a text.
pub open spec fn text_fault(v: Option<JsonView>) -> Option<Seq<char>> {
    match v {
        None => None,
        Some(JsonView::Str(_)) => None,
        Some(v) => Some(wrong_type(v, "a string"@)),
    }
}

/// Find what is wrong with a value as a text.
pub fn check_text(v: Option<&Json>) -> (r: Option<String>)
    ensures
        crate::text::opt_view(r) == text_fault(crate::text::opt_view(v)),
{
    match v {
        None => None,
        Some(x) => match x {
            Json::Str(_) => None,
            _ => Some(tell_wrong_type(x, "a string")),
        },
    }
}

/// The integer of a field, where it is one.
pub open spec fn int_in(v: Option<JsonView>) -> Option<i64> {
    match v {
        Some(JsonView::Int(n)) => Some(n),
        _ => None,
    }
}

/// Take the integer of a field, where it is one.
pub fn take_int(v: Option<&Json>) -> (r: Option<i64>)
    ensures
        r == int_in(crate::text::opt_view(v)),
{
    match v {
        Some(x) => match x {
            Json::Int(n) => Some(*n),
            _ => None,
        },
        None => None,
    }
}

/// The text of a field, where it is one.
pub open spec fn text_in(v: Option<JsonView>) -> Option<Seq<char>> {
    match v {
        Some(JsonView::Str(s)) => Some(s),
        _ => None,
    }
}

/// Take the text of a field, where it is one.
pub fn take_text(v: Option<&Json>) -> (r: Option<String>)
    ensures
        crate::text::opt_view(r) == text_in(crate::text::opt_view(v)),
{
    match v {
        Some(x) => match x {
            Json::Str(s) => Some(s.clone()),
            _ => None,
        },
        None => None,
    }
}

/// The integer of a field, 0 where it is none.
pub open spec fn int_of(v: Option<JsonView>) -> i64 {
    match int_in(v) {
        Some(n) => n,
        None => 0,
    }
}

/// Read the integer of a field.
pub fn read_int(v: Option<&Json>) -> (r: i64)
    ensures
        r == int_of(crate::text::opt_view(v)),
{
    match take_int(v) {
        Some(n) => n,
        None => 0,
    }
}

/// The text of a field, the empty one where it is none.
pub open spec fn text_of(v: Option<JsonView>) -> Seq<char> {
    match text_in(v) {
        Some(s) => s,
        None => ""@,
    }
}

/// Read the text of a field.
pub fn read_text(v: Option<&Json>) -> (r: String)
    ensures
        r@ == text_of(crate::text::opt_view(v)),
{
    match take_text(v) {
        Some(s) => s,
        None => "".to_owned(),
    }
}

/// Whether no field is named twice.
pub open spec fn names_apart(slots: Seq<SlotView>) -> bool {
    forall|i: int, j: int|
        0 <= i < j < slots.len() ==> (#[trigger] slots[i]).key != (#[trigger] slots[j]).key
}

proof fn lemma_fault_named(slots: Seq<SlotView>, i: int)
    requires
        names_apart(slots),
        0 <= i < slots.len(),
    ensures
        fault_named(slots, slots[i].key) == slots[i].fault,
    decreases slots.len(),
{
    if i > 0 {
        assert(slots[0].key != slots[i].key);
        let rest = slots.drop_first();
        assert forall|a: int, b: int| 0 <= a < b < rest.len() implies (#[trigger] rest[a]).key != (
        #[trigger] rest[b]).key by {
            assert(rest[a] == slots[a + 1] && rest[b] == slots[b + 1]);
        }
        lemma_fault_named(rest, i - 1);
        assert(rest[i - 1] == slots[i]);
    }
}

proof fn lemma_members_fit(
    members: Seq<(Seq<char>, JsonView)>,
    slots: Seq<SlotView>,
    key: Seq<char>,
)
    requires
        member_fault(members, slots) is None,
        crate::json::find_member(members, key) is Some,
    ensures
        fault_named(slots, key) is None,
    decreases members.len(),
{
    if members.len() > 0 && members[0].0 != key {
        lemma_members_fit(members.drop_first(), slots, key);
    }
}

proof fn lemma_none_missing(v: JsonView, slots: Seq<SlotView>, i: int)
    requires
        first_missing(v, slots) is None,
        0 <= i < slots.len(),
        slots[i].required,
    ensures
        v.get(slots[i].key) is Some,
    decreases slots.len(),
{
    if i > 0 {
        lemma_none_missing(v, slots.drop_first(), i - 1);
        assert(slots.drop_first()[i - 1] == slots[i]);
    }
}

proof fn lemma_items_fit(n: nat, what: Seq<char>, slots: Seq<SlotView>, from: nat, i: int)
    requires
        item_fault(n, what, slots, from) is None,
        from <= i < slots.len(),
    ensures
        i < n ==> slots[i].fault is None,
        slots[i].required ==> i < n,
    decreases slots.len() - from,
{
    if from < i {
        lemma_items_fit(n, what, slots, from + 1, i);
    }
}

/// A value in which nothing is wrong has every field that it has to have, and each field that it
/// has fits.
pub proof fn law_good_shape(
    v: JsonView,
    what: Seq<char>,
    slots: Seq<SlotView>,
    set_aside: bool,
    i: int,
)
    requires
        shape_fault(v, what, slots, set_aside) is None,
        names_apart(slots),
        0 <= i < slots.len(),
    ensures
        slots[i].required ==> field_at(v, slots[i].key, i) is Some,
        field_at(v, slots[i].key, i) is Some ==> slots[i].fault is None,
{
    match v {
        JsonView::Object(members) => {
            lemma_fault_named(slots, i);
            if v.get(slots[i].key) is Some {
                lemma_members_fit(members, slots, slots[i].key);
            }
            if slots[i].required {
                lemma_none_missing(v, slots, i);
            }
        },
        JsonView::Array(items) => {
            lemma_items_fit(items.len(), what, slots, 0, i);
        },
        _ => {},
    }
}

} // verus!
