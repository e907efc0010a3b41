//! What editing the settings promises, whatever the settings are.

use vstd::prelude::*;

use crate::app::editor::EditorView;
use crate::app::settings::{
    FieldKindView, SettingsChangeView, SettingsFieldView, SettingsFocus, SettingsFormView,
    SettingsReply, SettingsStateView,
};
use crate::json::JsonView;
use crate::key::{KeyCode, KeyEvent};

verus! {

/// How many of the first `n` fields differ from what they were.
pub open spec fn changes_before(fields: Seq<SettingsFieldView>, n: int) -> nat
    decreases n,
{
    if n <= 0 {
        0
    } else {
        changes_before(fields, n - 1) + (if fields[n - 1].value != fields[n - 1].original {
            1nat
        } else {
            0
        })
    }
}

proof fn lemma_filtered(fields: Seq<SettingsFieldView>)
    ensures
        ({
            let kept = fields.filter(crate::app::settings::is_changed());
            &&& kept.len() == changes_before(fields, fields.len() as int)
            &&& forall|i: int|
                0 <= i < fields.len() && (#[trigger] fields[i]).value != fields[i].original ==> {
                    &&& changes_before(fields, i) < kept.len()
                    &&& kept[changes_before(fields, i) as int] == fields[i]
                }
        }),
    decreases fields.len(),
{
    reveal(Seq::filter);
    if fields.len() > 0 {
        let rest = fields.drop_last();
        lemma_filtered(rest);
        let was = rest.filter(crate::app::settings::is_changed());
        let kept = fields.filter(crate::app::settings::is_changed());
        lemma_changes_prefix(rest, fields, rest.len() as int);
        assert forall|i: int|
            0 <= i < fields.len() && (#[trigger] fields[i]).value != fields[i].original implies {
            &&& changes_before(fields, i) < kept.len()
            &&& kept[changes_before(fields, i) as int] == fields[i]
        } by {
            lemma_changes_prefix(rest, fields, i);
            if i < rest.len() {
                assert(rest[i] == fields[i]);
                assert(was[changes_before(rest, i) as int] == rest[i]);
            }
        }
    }
}

proof fn lemma_changes_prefix(a: Seq<SettingsFieldView>, b: Seq<SettingsFieldView>, n: int)
    requires
        n <= a.len() <= b.len(),
        a == b.take(a.len() as int),
    ensures
        changes_before(a, n) == changes_before(b, n),
    decreases n,
{
    if n > 0 {
        lemma_changes_prefix(a, b, n - 1);
        assert(a[n - 1] == b[n - 1]);
    }
}

/// What is saved is every field that was changed, and no other: one entry for each, in their
/// order, with the field's key and its new value.
pub proof fn law_patch(form: SettingsFormView)
    ensures
        form.patch().len() == changes_before(form.fields, form.fields.len() as int),
        forall|i: int|
            0 <= i < form.fields.len() && (#[trigger] form.fields[i]).value
                != form.fields[i].original ==> {
                let at = changes_before(form.fields, i) as int;
                &&& at < form.patch().len()
                &&& form.patch()[at] == (SettingsChangeView {
                    key: form.fields[i].key,
                    value: form.fields[i].value,
                })
            },
{
    lemma_filtered(form.fields);
}

/// Whether two forms are the same but for the value of one field.
pub open spec fn same_but(a: SettingsFormView, b: SettingsFormView, at: int) -> bool {
    &&& a.fields.len() == b.fields.len()
    &&& forall|i: int| 0 <= i < a.fields.len() && i != at ==> #[trigger] a.fields[i] == b.fields[i]
    &&& 0 <= at < a.fields.len() ==> a.fields[at].key == b.fields[at].key && a.fields[at].original
        == b.fields[at].original && a.fields[at].kind == b.fields[at].kind
    &&& a.cursor == b.cursor
    &&& a.revision == b.revision
}

/// Acting on a switch turns it over: what is on goes off, anything else goes on; acting twice
/// leads back. No other field changes.
pub proof fn law_switch_turns(form: SettingsFormView, on: bool)
    requires
        form.cursor < form.fields.len(),
        form.fields[form.cursor as int].kind is Boolean,
        form.fields[form.cursor as int].value == JsonView::Bool(on),
    ensures
        form.acted().0.fields[form.cursor as int].value == JsonView::Bool(!on),
        same_but(form, form.acted().0, form.cursor as int),
        form.acted().0.acted().0.fields == form.fields,
{
    assert(form.acted().0.acted().0.fields =~= form.fields);
}

/// Acting on a choice takes the option behind the current one, and the first behind the last or
/// behind a value that is no option. No other field changes.
pub proof fn law_choice_goes_round(form: SettingsFormView, options: Seq<Seq<char>>, at: int)
    requires
        form.cursor < form.fields.len(),
        form.fields[form.cursor as int].kind == FieldKindView::Choice(options),
        0 <= at < options.len(),
        form.fields[form.cursor as int].value == JsonView::Str(options[at]),
        options.no_duplicates(),
    ensures
        ({
            let value = form.acted().0.fields[form.cursor as int].value;
            &&& at + 1 < options.len() ==> value == JsonView::Str(options[at + 1])
            &&& at + 1 == options.len() ==> value == JsonView::Str(options[0])
            &&& same_but(form, form.acted().0, form.cursor as int)
        }),
{
    let p = crate::app::settings::is_text(options[at]);
    assert(p(options[at]));
    assert forall|i: int| 0 <= i < at implies !#[trigger] p(options[i]) by {}
    crate::seqs::lemma_first_index(options, p, at);
}

/// A text field takes what was typed, as it was typed, when it is entered; giving up leaves the
/// value as it was. No other field changes either way.
pub proof fn law_text_entered(form: SettingsFormView, enter: KeyEvent, esc: KeyEvent)
    requires
        form.cursor < form.fields.len(),
        form.fields[form.cursor as int].kind is Text,
        form.editing is Some,
        enter.code == KeyCode::Enter,
        esc.code == KeyCode::Esc,
    ensures
        form.edited(enter).0.fields[form.cursor as int].value == JsonView::Str(
            form.editing->0.text,
        ),
        form.edited(enter).0.editing is None,
        same_but(form, form.edited(enter).0, form.cursor as int),
        form.edited(esc).0.fields == form.fields,
        form.edited(esc).0.editing is None,
{
}

/// Editing starts at what the field holds, with the caret behind it.
pub proof fn law_text_opened(form: SettingsFormView, text: Seq<char>)
    requires
        form.cursor < form.fields.len(),
        form.fields[form.cursor as int].kind is Text,
        form.fields[form.cursor as int].value == JsonView::Str(text),
    ensures
        form.acted().0.fields == form.fields,
        form.acted().0.editing == Some(EditorView { text, caret: text.len() as int }),
{
}

/// A whole number that is entered is that number, an empty entry is no value, and an entry that
/// is no number is refused: the field keeps its value, and the editor stays open.
pub proof fn law_number_entered(form: SettingsFormView, enter: KeyEvent, n: i64)
    requires
        form.cursor < form.fields.len(),
        form.fields[form.cursor as int].kind is Number,
        form.editing is Some,
        enter.code == KeyCode::Enter,
        n > i64::MIN,
    ensures
        form.editing->0.text == crate::text::int_decimal(n as int) ==> form.edited(
            enter,
        ).0.fields[form.cursor as int].value == JsonView::Int(n),
        form.editing->0.text.len() == 0 ==> form.edited(enter).0.fields[form.cursor as int].value
            == JsonView::Null,
        crate::app::settings::number_of(form.editing->0.text) is None ==> form.edited(enter).0
            == form && form.edited(enter).1 == SettingsReply::NotANumber,
        form.edited(enter).0.fields.len() == form.fields.len(),
{
    let text = crate::text::int_decimal(n as int);
    let part = crate::app::settings::unsigned_part(text);
    crate::text_laws::law_int_decimal(n as int, 0);
    if n < 0 {
        let m = (-(n as int)) as nat;
        assert(part =~= crate::text::decimal(m));
        crate::text_laws::law_number_read_back(m, i64::MAX as nat);
        crate::text::lemma_decimal_value(m);
        assert(part.len() < text.len());
    } else {
        crate::text_laws::law_number_read_back(n as nat, i64::MAX as nat);
        crate::text::lemma_decimal_value(n as nat);
    }
}

/// An entry with a letter in it is no number.
pub proof fn law_letters_are_no_number(text: Seq<char>, at: int)
    requires
        0 <= at < text.len(),
        !('0' <= text[at] <= '9') && text[at] != '.' && text[at] != '-' && text[at] != '+',
    ensures
        crate::app::settings::number_of(text) is None,
{
    let part = crate::app::settings::unsigned_part(text);
    let k = if part.len() < text.len() {
        at - 1
    } else {
        at
    };
    assert(part[k] == text[at]);
    if crate::text::all_digits(part) {
        assert('0' <= part[k] <= '9');
    }
    if crate::app::settings::has_point_form(part) {
        let i = choose|i: int|
            0 < i < part.len() - 1 && part[i] == '.' && crate::text::all_digits(
                #[trigger] part.take(i),
            ) && crate::text::all_digits(part.skip(i + 1));
        if k < i {
            assert(part.take(i)[k] == part[k]);
        } else if k > i {
            assert(part.skip(i + 1)[k - i - 1] == part[k]);
        }
    }
}

/// A field that cannot be edited here stays as it is.
pub proof fn law_raw_field_stays(form: SettingsFormView)
    requires
        form.cursor < form.fields.len(),
        form.fields[form.cursor as int].kind is Raw,
    ensures
        form.acted() == (form, SettingsReply::ReadOnly),
{
}

/// A form shows a field for each property of its schema, in their order, with the value that is
/// set now; nothing is changed yet.
pub proof fn law_described(schema: JsonView, value: JsonView, revision: i64, members: Seq<(Seq<char>, JsonView)>, i: int)
    requires
        schema.get("properties"@) == Some(JsonView::Object(members)),
        0 <= i < members.len(),
    ensures
        ({
            let form = crate::app::settings::described_form(schema, value, revision);
            &&& form is Some
            &&& form->0.revision == revision
            &&& form->0.fields.len() == members.len()
            &&& form->0.fields[i].key == members[i].0
            &&& value.get(members[i].0) matches Some(v) ==> form->0.fields[i].value == v
            &&& value.get(members[i].0) is None ==> form->0.fields[i].value == JsonView::Null
            &&& form->0.fields[i].original == form->0.fields[i].value
        }),
{
}

/// How a field is edited follows from its schema: switches, texts, numbers, and choices by their
/// options; anything else is shown only.
pub proof fn law_field_kinds(schema: JsonView)
    ensures
        schema.get("enum"@) is None && schema.get_str("type"@) == Some("boolean"@)
            ==> crate::app::settings::kind_of(schema) is Boolean,
        schema.get("enum"@) is None && schema.get_str("type"@) == Some("string"@)
            ==> crate::app::settings::kind_of(schema) is Text,
        schema.get("enum"@) is None && schema.get_str("type"@) == Some("number"@)
            ==> crate::app::settings::kind_of(schema) is Number,
        schema.get("enum"@) is None && schema.get_str("type"@) == Some("integer"@)
            ==> crate::app::settings::kind_of(schema) is Number,
        schema.get("enum"@) is None && schema.get_str("type"@) is None
            ==> crate::app::settings::kind_of(schema) is Raw,
        schema.get("enum"@) is Some && schema.get("enum"@)->0 is Array
            ==> crate::app::settings::kind_of(schema) is Choice,
{
    reveal_strlit("boolean");
    reveal_strlit("string");
    reveal_strlit("number");
    reveal_strlit("integer");
    assert("boolean"@.len() == 7 && "string"@.len() == 6 && "number"@.len() == 6
        && "integer"@.len() == 7);
    assert("boolean"@[0] == 'b' && "integer"@[0] == 'i' && "string"@[0] == 's' && "number"@[0]
        == 'n');
}

/// The options of a choice are the texts that its schema lists, all of them, in their order.
pub proof fn law_choice_options(texts: Seq<Seq<char>>)
    ensures
        crate::app::settings::texts_among(texts.map_values(|t: Seq<char>| JsonView::Str(t)))
            == texts,
    decreases texts.len(),
{
    let items = texts.map_values(|t: Seq<char>| JsonView::Str(t));
    if texts.len() == 0 {
        assert(items =~= Seq::empty());
        assert(texts =~= Seq::empty());
    } else {
        law_choice_options(texts.drop_last());
        assert(items.drop_last() =~= texts.drop_last().map_values(
            |t: Seq<char>| JsonView::Str(t),
        ));
        assert(texts.drop_last().push(texts.last()) =~= texts);
    }
}

/// The save key saves where something in the section was changed, and tells that there is
/// nothing to save where nothing was; the values stay as they are.
pub proof fn law_save_key(s: SettingsStateView, key: KeyEvent)
    requires
        key.code == KeyCode::Char('s'),
        key.control,
        !s.editing(),
        !s.saving,
    ensures
        s.form() is Some && s.form()->0.dirty() ==> s.keyed(key).1 == SettingsReply::Save && s.keyed(
            key,
        ).0.saving,
        s.form() is None || !s.form()->0.dirty() ==> s.keyed(key).1 == SettingsReply::NothingToSave
            && !s.keyed(key).0.saving,
        s.keyed(key).0.sections == s.sections,
{
}

/// Leaving tells whether anything in any section was changed.
pub proof fn law_leaving_tells_changes(s: SettingsStateView, key: KeyEvent)
    requires
        key.code == KeyCode::Esc,
        !s.editing(),
    ensures
        s.keyed(key).0 == s,
        s.keyed(key).1 matches SettingsReply::Close { dirty } && (dirty <==> exists|i: int, k: int|
            {
                &&& 0 <= i < s.sections.len()
                &&& s.sections[i].form is Some
                &&& 0 <= k < s.sections[i].form->0.fields.len()
                &&& (#[trigger] s.sections[i].form->0.fields[k]).value
                    != s.sections[i].form->0.fields[k].original
            }),
{
    if s.dirty() {
        let i = choose|i: int|
            0 <= i < s.sections.len() && (#[trigger] s.sections[i]).form is Some
                && s.sections[i].form->0.dirty();
        let form = s.sections[i].form->0;
        let k = choose|k: int| 0 <= k < form.fields.len() && (#[trigger] form.fields[k]).changed();
        assert(s.sections[i].form->0.fields[k].value != s.sections[i].form->0.fields[k].original);
    }
    if exists|i: int, k: int|
        {
            &&& 0 <= i < s.sections.len()
            &&& s.sections[i].form is Some
            &&& 0 <= k < s.sections[i].form->0.fields.len()
            &&& (#[trigger] s.sections[i].form->0.fields[k]).value
                != s.sections[i].form->0.fields[k].original
        } {
        let (i, k) = choose|i: int, k: int|
            {
                &&& 0 <= i < s.sections.len()
                &&& s.sections[i].form is Some
                &&& 0 <= k < s.sections[i].form->0.fields.len()
                &&& (#[trigger] s.sections[i].form->0.fields[k]).value
                    != s.sections[i].form->0.fields[k].original
            };
        assert(s.sections[i].form->0.fields[k].changed());
        assert(s.sections[i].form->0.dirty());
    }
}

/// Up and down move within what has the focus: between the sections, or between the fields of
/// the section.
pub proof fn law_settings_moves(s: SettingsStateView, key: KeyEvent)
    requires
        !s.editing(),
        key.code == KeyCode::Down,
        s.sections.len() <= usize::MAX,
        s.form() is Some ==> s.form()->0.fields.len() <= usize::MAX,
    ensures
        s.focus == SettingsFocus::Nav && s.selected + 1 < s.sections.len() ==> s.keyed(
            key,
        ).0.selected == s.selected + 1 && s.keyed(key).0.sections == s.sections,
        s.focus == SettingsFocus::Form && s.form() is Some && s.form()->0.cursor + 1
            < s.form()->0.fields.len() ==> s.keyed(key).0.form() is Some && s.keyed(
            key,
        ).0.form()->0.cursor == s.form()->0.cursor + 1 && s.keyed(key).0.form()->0.fields
            == s.form()->0.fields && s.keyed(key).0.selected == s.selected,
{
}

} // verus!
