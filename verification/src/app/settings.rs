//! The settings view: sections, their forms, and what the keys do in them.

use vstd::prelude::*;

use crate::app::editor::{Editor, EditorView};
use crate::app::takeover::{step_down, step_up};
use crate::json::{json_string, same_json, Json, JsonView};
use crate::key::{KeyCode, KeyEvent};
use crate::text::{
    chars_of, duplicate_all, duplicate_opt, parse_unsigned, same, slice_text, Duplicate,
};

verus! {

/// How a field is edited.
#[derive(Debug)]
pub enum FieldKind {
    Boolean,
    Choice(Vec<String>),
    Text,
    Number,
    /// Shown, but not edited.
    Raw,
}

/// What a [`FieldKind`] stands for.
#[verifier::ext_equal]
pub enum FieldKindView {
    Boolean,
    Choice(Seq<Seq<char>>),
    Text,
    Number,
    Raw,
}

impl View for FieldKind {
    type V = FieldKindView;

    open spec fn view(&self) -> FieldKindView {
        match *self {
            FieldKind::Boolean => FieldKindView::Boolean,
            FieldKind::Choice(x) => FieldKindView::Choice(crate::text::views(x@)),
            FieldKind::Text => FieldKindView::Text,
            FieldKind::Number => FieldKindView::Number,
            FieldKind::Raw => FieldKindView::Raw,
        }
    }
}

impl Duplicate for FieldKind {
    fn duplicate(&self) -> (r: Self) {
        match self {
            FieldKind::Boolean => FieldKind::Boolean,
            FieldKind::Choice(x) => FieldKind::Choice(duplicate_all(x)),
            FieldKind::Text => FieldKind::Text,
            FieldKind::Number => FieldKind::Number,
            FieldKind::Raw => FieldKind::Raw,
        }
    }
}

impl Clone for FieldKind {
    fn clone(&self) -> (r: Self)
        ensures
            r@ == self@,
    {
        self.duplicate()
    }
}

/// One field: its value, and the value that the gateway has.
#[derive(Debug)]
pub struct SettingsField {
    pub key: String,
    pub kind: FieldKind,
    pub value: Json,
    pub original: Json,
}

/// What a [`SettingsField`] stands for.
#[verifier::ext_equal]
pub struct SettingsFieldView {
    pub key: Seq<char>,
    pub kind: FieldKindView,
    pub value: JsonView,
    pub original: JsonView,
}

impl View for SettingsField {
    type V = SettingsFieldView;

    open spec fn view(&self) -> SettingsFieldView {
        SettingsFieldView {
            key: self.key@,
            kind: self.kind@,
            value: self.value@,
            original: self.original@,
        }
    }
}

impl Duplicate for SettingsField {
    fn duplicate(&self) -> (r: Self) {
        SettingsField {
            key: self.key.clone(),
            kind: self.kind.duplicate(),
            value: self.value.duplicate(),
            original: self.original.duplicate(),
        }
    }
}

impl Clone for SettingsField {
    fn clone(&self) -> (r: Self)
        ensures
            r@ == self@,
    {
        self.duplicate()
    }
}

/// The fields of one namespace, at a revision. While `editing`, the keys go to that editor.
#[derive(Debug)]
pub struct SettingsForm {
    pub fields: Vec<SettingsField>,
    pub cursor: usize,
    pub editing: Option<Editor>,
    pub revision: i64,
}

/// What a [`SettingsForm`] stands for.
#[verifier::ext_equal]
pub struct SettingsFormView {
    pub fields: Seq<SettingsFieldView>,
    pub cursor: usize,
    pub editing: Option<EditorView>,
    pub revision: i64,
}

impl View for SettingsForm {
    type V = SettingsFormView;

    open spec fn view(&self) -> SettingsFormView {
        SettingsFormView {
            fields: crate::text::views(self.fields@),
            cursor: self.cursor,
            editing: crate::text::opt_view(self.editing),
            revision: self.revision,
        }
    }
}

impl Duplicate for SettingsForm {
    fn duplicate(&self) -> (r: Self) {
        SettingsForm {
            fields: duplicate_all(&self.fields),
            cursor: self.cursor,
            editing: duplicate_opt(&self.editing),
            revision: self.revision,
        }
    }
}

impl Clone for SettingsForm {
    fn clone(&self) -> (r: Self)
        ensures
            r@ == self@,
    {
        self.duplicate()
    }
}

/// One namespace of the settings. It has a form once the gateway has described it.
#[derive(Debug)]
pub struct SettingsSection {
    pub ns: String,
    pub form: Option<SettingsForm>,
}

/// What a [`SettingsSection`] stands for.
#[verifier::ext_equal]
pub struct SettingsSectionView {
    pub ns: Seq<char>,
    pub form: Option<SettingsFormView>,
}

impl View for SettingsSection {
    type V = SettingsSectionView;

    open spec fn view(&self) -> SettingsSectionView {
        SettingsSectionView {
            ns: self.ns@,
            form: crate::text::opt_view(self.form),
        }
    }
}

impl Duplicate for SettingsSection {
    fn duplicate(&self) -> (r: Self) {
        SettingsSection {
            ns: self.ns.clone(),
            form: duplicate_opt(&self.form),
        }
    }
}

impl Clone for SettingsSection {
    fn clone(&self) -> (r: Self)
        ensures
            r@ == self@,
    {
        self.duplicate()
    }
}

/// A changed field: its key and its value.
#[derive(Debug)]
pub struct SettingsChange {
    pub key: String,
    pub value: Json,
}

/// What a [`SettingsChange`] stands for.
#[verifier::ext_equal]
pub struct SettingsChangeView {
    pub key: Seq<char>,
    pub value: JsonView,
}

impl View for SettingsChange {
    type V = SettingsChangeView;

    open spec fn view(&self) -> SettingsChangeView {
        SettingsChangeView {
            key: self.key@,
            value: self.value@,
        }
    }
}

impl Duplicate for SettingsChange {
    fn duplicate(&self) -> (r: Self) {
        SettingsChange {
            key: self.key.clone(),
            value: self.value.duplicate(),
        }
    }
}

impl Clone for SettingsChange {
    fn clone(&self) -> (r: Self)
        ensures
            r@ == self@,
    {
        self.duplicate()
    }
}

/// Which half of the settings view has the keys.
#[derive(Debug, Clone, Copy, PartialEq, Eq, Structural)]
pub enum SettingsFocus {
    Nav,
    Form,
}

/// The settings view.
#[derive(Debug)]
pub struct SettingsState {
    pub sections: Vec<SettingsSection>,
    pub selected: usize,
    pub focus: SettingsFocus,
    pub loading: bool,
    pub saving: bool,
}

/// What a [`SettingsState`] stands for.
#[verifier::ext_equal]
pub struct SettingsStateView {
    pub sections: Seq<SettingsSectionView>,
    pub selected: usize,
    pub focus: SettingsFocus,
    pub loading: bool,
    pub saving: bool,
}

impl View for SettingsState {
    type V = SettingsStateView;

    open spec fn view(&self) -> SettingsStateView {
        SettingsStateView {
            sections: crate::text::views(self.sections@),
            selected: self.selected,
            focus: self.focus,
            loading: self.loading,
            saving: self.saving,
        }
    }
}

impl Duplicate for SettingsState {
    fn duplicate(&self) -> (r: Self) {
        SettingsState {
            sections: duplicate_all(&self.sections),
            selected: self.selected,
            focus: self.focus,
            loading: self.loading,
            saving: self.saving,
        }
    }
}

impl Clone for SettingsState {
    fn clone(&self) -> (r: Self)
        ensures
            r@ == self@,
    {
        self.duplicate()
    }
}

/// What a key in the settings view comes to.
#[derive(Debug, Clone, Copy, PartialEq, Eq, Structural)]
pub enum SettingsReply {
    /// Nothing.
    Inert,
    /// The view changed.
    Input,
    /// The view changed; the text that was typed is no number.
    NotANumber,
    /// The view did not change; the field cannot be edited.
    ReadOnly,
    /// The view is to be closed; `dirty` tells that edits go with it.
    Close { dirty: bool },
    /// There is nothing to save.
    NothingToSave,
    /// The selected form is to be saved.
    Save,
}

// ---------------------------------------------------------------------------
// what the operations mean
// ---------------------------------------------------------------------------

/// Digits, with a point among them.
pub open spec fn has_point_form(s: Seq<char>) -> bool {
    exists|i: int|
        0 < i < s.len() - 1 && s[i] == '.' && crate::text::all_digits(#[trigger] s.take(i))
            && crate::text::all_digits(s.skip(i + 1))
}

/// A text without its minus sign.
pub open spec fn unsigned_part(s: Seq<char>) -> Seq<char> {
    if s.len() > 0 && s[0] == '-' {
        s.skip(1)
    } else {
        s
    }
}

/// The number that a text is: nothing is null, an integer is itself, digits with a point keep
/// their notation.
pub open spec fn number_of(s: Seq<char>) -> Option<JsonView> {
    let part = unsigned_part(s);
    let whole = crate::text::unsigned_value(part, i64::MAX as nat);
    if s.len() == 0 {
        Some(JsonView::Null)
    } else if whole is Some && crate::text::all_digits(part) {
        Some(
            JsonView::Int(
                if part == s {
                    whole->0 as i64
                } else {
                    (-whole->0) as i64
                },
            ),
        )
    } else if has_point_form(part) {
        Some(JsonView::Number(s))
    } else {
        None
    }
}

impl JsonView {
    /// The text of a string, nothing where the value is none.
    pub open spec fn text_or_empty(self) -> Seq<char> {
        match self {
            JsonView::Str(s) => s,
            _ => Seq::empty(),
        }
    }
}

/// Whether an option is the wanted one.
pub open spec fn is_text(wanted: Seq<char>) -> spec_fn(Seq<char>) -> bool {
    |s: Seq<char>| s == wanted
}

/// The option that follows the current one, the first behind the last or where the current
/// value is no option.
pub open spec fn next_option(options: Seq<Seq<char>>, current: Seq<char>) -> Seq<char> {
    let at = crate::seqs::first_index(options, is_text(current));
    if at + 1 < options.len() {
        options[at + 1]
    } else {
        options[0]
    }
}

impl SettingsFieldView {
    /// Whether the value differs from that of the gateway.
    pub open spec fn changed(self) -> bool {
        self.value != self.original
    }
}

/// Whether a field is changed.
pub open spec fn is_changed() -> spec_fn(SettingsFieldView) -> bool {
    |f: SettingsFieldView| f.changed()
}

impl SettingsFormView {
    /// Whether a field is changed.
    pub open spec fn dirty(self) -> bool {
        exists|i: int| 0 <= i < self.fields.len() && (#[trigger] self.fields[i]).changed()
    }

    /// What saving the form sends: the changed fields alone.
    pub open spec fn patch(self) -> Seq<SettingsChangeView> {
        self.fields.filter(is_changed()).map_values(
            |f: SettingsFieldView| SettingsChangeView { key: f.key, value: f.value },
        )
    }

    /// The field under the cursor with another value.
    pub open spec fn with_value(self, value: JsonView) -> SettingsFormView {
        SettingsFormView {
            fields: self.fields.update(
                self.cursor as int,
                SettingsFieldView { value, ..self.fields[self.cursor as int] },
            ),
            ..self
        }
    }

    /// What the editor holds taken over into the field under the cursor. A text that is no
    /// number leaves a number's field and its editor as they are.
    pub open spec fn committed(self) -> (SettingsFormView, bool) {
        let text = self.editing->0.text;
        let closed = SettingsFormView { editing: None, ..self };
        if self.cursor >= self.fields.len() {
            (closed, true)
        } else {
            match self.fields[self.cursor as int].kind {
                FieldKindView::Text => (closed.with_value(JsonView::Str(text)), true),
                FieldKindView::Number => match number_of(text) {
                    Some(n) => (closed.with_value(n), true),
                    None => (self, false),
                },
                _ => (closed, true),
            }
        }
    }

    /// A key in the editor of a form.
    pub open spec fn edited(self, key: KeyEvent) -> (SettingsFormView, SettingsReply) {
        let e = self.editing->0;
        match key.code {
            KeyCode::Enter => (
                self.committed().0,
                if self.committed().1 {
                    SettingsReply::Input
                } else {
                    SettingsReply::NotANumber
                },
            ),
            KeyCode::Esc => (SettingsFormView { editing: None, ..self }, SettingsReply::Input),
            KeyCode::Backspace => (self.with_editor(e.without_previous()), SettingsReply::Input),
            KeyCode::Left => (self.with_editor(e.to_left()), SettingsReply::Input),
            KeyCode::Right => (self.with_editor(e.to_right()), SettingsReply::Input),
            KeyCode::Home => (
                self.with_editor(EditorView { caret: 0, ..e }),
                SettingsReply::Input,
            ),
            KeyCode::End => (
                self.with_editor(EditorView { caret: e.text.len() as int, ..e }),
                SettingsReply::Input,
            ),
            KeyCode::Char(c) => if key.control {
                (self, SettingsReply::Input)
            } else {
                (self.with_editor(e.typed(c)), SettingsReply::Input)
            },
            _ => (self, SettingsReply::Input),
        }
    }

    /// The form with its editor changed.
    pub open spec fn with_editor(self, editor: EditorView) -> SettingsFormView {
        SettingsFormView { editing: Some(editor), ..self }
    }

    /// The field under the cursor acted on: a flag is flipped, a choice goes on to the next
    /// option, a text or a number opens the editor.
    pub open spec fn acted(self) -> (SettingsFormView, SettingsReply) {
        if self.cursor >= self.fields.len() {
            (self, SettingsReply::Inert)
        } else {
            let field = self.fields[self.cursor as int];
            match field.kind {
                FieldKindView::Boolean => (
                    self.with_value(JsonView::Bool(field.value != JsonView::Bool(true))),
                    SettingsReply::Input,
                ),
                FieldKindView::Choice(options) => if options.len() == 0 {
                    (self, SettingsReply::Input)
                } else {
                    (
                        self.with_value(
                            JsonView::Str(next_option(options, field.value.text_or_empty())),
                        ),
                        SettingsReply::Input,
                    )
                },
                FieldKindView::Text => (
                    self.with_editor(EditorView::holding(field.value.text_or_empty())),
                    SettingsReply::Input,
                ),
                FieldKindView::Number => (
                    self.with_editor(
                        EditorView::holding(
                            if field.value == JsonView::Null {
                                Seq::empty()
                            } else {
                                crate::json::json_text(field.value)
                            },
                        ),
                    ),
                    SettingsReply::Input,
                ),
                FieldKindView::Raw => (self, SettingsReply::ReadOnly),
            }
        }
    }
}

impl SettingsStateView {
    /// A settings view that waits for the gateway's description.
    pub open spec fn opened() -> SettingsStateView {
        SettingsStateView {
            sections: Seq::empty(),
            selected: 0,
            focus: SettingsFocus::Nav,
            loading: true,
            saving: false,
        }
    }

    /// The form of the selected section.
    pub open spec fn form(self) -> Option<SettingsFormView> {
        if self.selected < self.sections.len() {
            self.sections[self.selected as int].form
        } else {
            None
        }
    }

    /// The form of the selected section changed.
    pub open spec fn with_form(self, form: SettingsFormView) -> SettingsStateView {
        SettingsStateView {
            sections: self.sections.update(
                self.selected as int,
                SettingsSectionView { form: Some(form), ..self.sections[self.selected as int] },
            ),
            ..self
        }
    }

    /// Whether a form has changed fields.
    pub open spec fn dirty(self) -> bool {
        exists|i: int|
            0 <= i < self.sections.len() && (#[trigger] self.sections[i]).form is Some
                && self.sections[i].form->0.dirty()
    }

    /// Whether an editor has the keys.
    pub open spec fn editing(self) -> bool {
        self.form() is Some && self.form()->0.editing is Some
    }

    /// A key in the settings view.
    pub open spec fn keyed(self, key: KeyEvent) -> (SettingsStateView, SettingsReply) {
        let up = key.code == KeyCode::Up || key.code == KeyCode::Char('k');
        let down = key.code == KeyCode::Down || key.code == KeyCode::Char('j');
        if self.editing() {
            let (form, reply) = self.form()->0.edited(key);
            (self.with_form(form), reply)
        } else if key.code == KeyCode::Esc {
            (self, SettingsReply::Close { dirty: self.dirty() })
        } else if key.code == KeyCode::Char('s') && key.control {
            if self.saving {
                (self, SettingsReply::Inert)
            } else if self.form() is Some && self.form()->0.dirty() {
                (SettingsStateView { saving: true, ..self }, SettingsReply::Save)
            } else {
                (self, SettingsReply::NothingToSave)
            }
        } else if key.code == KeyCode::Tab || key.code == KeyCode::Right || key.code
            == KeyCode::Left {
            (
                SettingsStateView {
                    focus: match self.focus {
                        SettingsFocus::Nav => SettingsFocus::Form,
                        SettingsFocus::Form => SettingsFocus::Nav,
                    },
                    ..self
                },
                SettingsReply::Input,
            )
        } else if (up || down) && self.focus == SettingsFocus::Nav {
            (
                SettingsStateView {
                    selected: if up {
                        crate::app::takeover::one_up(self.selected)
                    } else {
                        crate::app::takeover::one_down(self.selected, self.sections.len())
                    },
                    ..self
                },
                SettingsReply::Input,
            )
        } else if up || down {
            match self.form() {
                Some(form) => (
                    self.with_form(
                        SettingsFormView {
                            cursor: if up {
                                crate::app::takeover::one_up(form.cursor)
                            } else {
                                crate::app::takeover::one_down(form.cursor, form.fields.len())
                            },
                            ..form
                        },
                    ),
                    SettingsReply::Input,
                ),
                None => (self, SettingsReply::Input),
            }
        } else if (key.code == KeyCode::Enter || key.code == KeyCode::Char(' ')) && self.focus
            == SettingsFocus::Form {
            match self.form() {
                Some(form) => (self.with_form(form.acted().0), form.acted().1),
                None => (self, SettingsReply::Inert),
            }
        } else {
            (self, SettingsReply::Inert)
        }
    }
}

// ---------------------------------------------------------------------------
// the operations
// ---------------------------------------------------------------------------

fn digits_only(chars: &Vec<char>, from: usize, to: usize) -> (r: bool)
    requires
        from <= to <= chars@.len(),
    ensures
        r == crate::text::all_digits(chars@.subrange(from as int, to as int)),
{
    let ghost part = chars@.subrange(from as int, to as int);
    let mut i: usize = from;
    while i < to
        invariant
            from <= i <= to <= chars@.len(),
            part == chars@.subrange(from as int, to as int),
            forall|k: int| 0 <= k < i - from ==> '0' <= #[trigger] part[k] <= '9',
        decreases to - i,
    {
        proof {
            assert(part[i - from] == chars@[i as int]);
        }
        if !('0' <= chars[i] && chars[i] <= '9') {
            return false;
        }
        i = i + 1;
    }
    true
}

fn point_form(chars: &Vec<char>) -> (r: bool)
    ensures
        r == has_point_form(chars@),
{
    let mut i: usize = 1;
    while i < chars.len() && i < chars.len() - 1
        invariant
            1 <= i,
            i <= chars@.len() || i == 1,
            forall|k: int|
                0 < k < i && k < chars@.len() - 1 ==> !(chars@[k] == '.' && crate::text::all_digits(
                    #[trigger] chars@.take(k),
                ) && crate::text::all_digits(chars@.skip(k + 1))),
        decreases chars.len() - i,
    {
        proof {
            assert(chars@.subrange(0, i as int) =~= chars@.take(i as int));
            assert(chars@.subrange(i + 1, chars@.len() as int) =~= chars@.skip(i + 1));
        }
        if chars[i] == '.' && digits_only(chars, 0, i) && digits_only(chars, i + 1, chars.len()) {
            return true;
        }
        i = i + 1;
    }
    false
}

/// The number that a text is.
pub fn read_number(text: &str) -> (r: Option<Json>)
    ensures
        crate::text::opt_view(r) == number_of(text@),
{
    let chars = chars_of(text);
    if chars.len() == 0 {
        return Some(Json::Null);
    }
    let negative = chars[0] == '-';
    let part = slice_text(&chars, if negative { 1 } else { 0 }, chars.len());
    proof {
        assert(part@ =~= unsigned_part(text@));
        if negative {
            assert(part@.len() != text@.len());
        }
    }
    let digits = chars_of(part.as_str());
    proof {
        assert(digits@.subrange(0, digits@.len() as int) =~= digits@);
    }
    if digits_only(&digits, 0, digits.len()) {
        match parse_unsigned(part.as_str(), i64::MAX as u64) {
            Some(n) => {
                return Some(
                    Json::Int(
                        if negative {
                            -(n as i64)
                        } else {
                            n as i64
                        },
                    ),
                );
            },
            None => {},
        }
    }
    if point_form(&digits) {
        Some(Json::Number(text.to_owned()))
    } else {
        None
    }
}

fn text_of_value(value: &Json) -> (r: &str)
    ensures
        r@ == value@.text_or_empty(),
{
    match value {
        Json::Str(s) => s.as_str(),
        _ => {
            proof {
                reveal_strlit("");
                assert(""@ =~= value@.text_or_empty());
            }
            ""
        },
    }
}

fn option_after(options: &Vec<String>, current: &str) -> (r: String)
    requires
        options@.len() > 0,
    ensures
        r@ == next_option(crate::text::views(options@), current@),
{
    let ghost all = crate::text::views(options@);
    let mut i: usize = 0;
    while i < options.len()
        invariant
            i <= options@.len(),
            options@.len() > 0,
            all == crate::text::views(options@),
            forall|k: int| 0 <= k < i ==> !is_text(current@)(#[trigger] all[k]),
        decreases options.len() - i,
    {
        if same(options[i].as_str(), current) {
            proof {
                crate::seqs::lemma_first_index(all, is_text(current@), i as int);
            }
            return if i + 1 < options.len() {
                options[i + 1].clone()
            } else {
                options[0].clone()
            };
        }
        i = i + 1;
    }
    proof {
        crate::seqs::lemma_first_index(all, is_text(current@), i as int);
    }
    options[0].clone()
}

impl SettingsForm {
    /// Whether a field is changed.
    pub fn dirty(&self) -> (r: bool)
        ensures
            r == self@.dirty(),
    {
        let mut i: usize = 0;
        while i < self.fields.len()
            invariant
                i <= self.fields@.len(),
                forall|k: int| 0 <= k < i ==> !(#[trigger] self@.fields[k]).changed(),
            decreases self.fields.len() - i,
        {
            proof {
                assert(self@.fields[i as int] == self.fields@[i as int]@);
            }
            if !same_json(&self.fields[i].value, &self.fields[i].original) {
                return true;
            }
            i = i + 1;
        }
        false
    }

    /// What saving the form sends: the changed fields alone.
    pub fn patch(&self) -> (r: Vec<SettingsChange>)
        ensures
            crate::text::views(r@) == self@.patch(),
    {
        let mut out: Vec<SettingsChange> = Vec::new();
        let ghost all = self@.fields;
        let ghost sent = |f: SettingsFieldView| SettingsChangeView { key: f.key, value: f.value };
        let mut i: usize = 0;
        proof {
            reveal(Seq::filter);
            assert(crate::text::views(out@) =~= all.take(0).filter(is_changed()).map_values(sent));
        }
        while i < self.fields.len()
            invariant
                i <= self.fields@.len(),
                all == self@.fields,
                sent == (|f: SettingsFieldView|
                    SettingsChangeView { key: f.key, value: f.value }),
                crate::text::views(out@) == all.take(i as int).filter(is_changed()).map_values(sent),
            decreases self.fields.len() - i,
        {
            let field = &self.fields[i];
            proof {
                assert(all[i as int] == field@);
                assert(all.take(i + 1).drop_last() =~= all.take(i as int));
                assert(all.take(i + 1).last() == field@);
                reveal(Seq::filter);
            }
            if !same_json(&field.value, &field.original) {
                let change = SettingsChange {
                    key: field.key.clone(),
                    value: field.value.duplicate(),
                };
                let ghost kept = all.take(i as int).filter(is_changed());
                proof {
                    assert(kept.push(field@).map_values(sent) =~= kept.map_values(sent).push(
                        sent(field@),
                    ));
                    assert(crate::text::views(out@.push(change)) =~= crate::text::views(out@).push(
                        change@,
                    ));
                }
                out.push(change);
            }
            i = i + 1;
        }
        proof {
            assert(all.take(i as int) =~= all);
        }
        out
    }

    fn set_value(&mut self, value: Json)
        requires
            old(self).cursor < old(self).fields@.len(),
        ensures
            final(self)@ == old(self)@.with_value(value@),
    {
        let at = self.cursor;
        let field = SettingsField {
            key: self.fields[at].key.clone(),
            kind: self.fields[at].kind.duplicate(),
            value,
            original: self.fields[at].original.duplicate(),
        };
        self.fields.set(at, field);
        proof {
            assert(self@.fields =~= old(self)@.with_value(value@).fields);
        }
    }

    /// Take what the editor holds over into the field under the cursor. `false` where it is
    /// no number but has to be one.
    pub fn commit_edit(&mut self) -> (r: bool)
        requires
            old(self).editing is Some,
        ensures
            final(self)@ == old(self)@.committed().0,
            r == old(self)@.committed().1,
    {
        let text = match &self.editing {
            Some(editor) => editor.buffer(),
            None => String::new(),
        };
        if self.cursor >= self.fields.len() {
            self.editing = None;
            return true;
        }
        match self.fields[self.cursor].kind.duplicate() {
            FieldKind::Text => {
                self.editing = None;
                self.set_value(Json::Str(text));
                true
            },
            FieldKind::Number => {
                match read_number(text.as_str()) {
                    Some(n) => {
                        self.editing = None;
                        self.set_value(n);
                        true
                    },
                    None => false,
                }
            },
            _ => {
                self.editing = None;
                true
            },
        }
    }

    fn edit(&mut self, key: KeyEvent) -> (r: SettingsReply)
        requires
            old(self).editing is Some,
        ensures
            final(self)@ == old(self)@.edited(key).0,
            r == old(self)@.edited(key).1,
    {
        match key.code {
            KeyCode::Enter => {
                if self.commit_edit() {
                    return SettingsReply::Input;
                } else {
                    return SettingsReply::NotANumber;
                }
            },
            KeyCode::Esc => {
                self.editing = None;
                return SettingsReply::Input;
            },
            _ => {},
        }
        match self.editing.take() {
            Some(mut editor) => {
                match key.code {
                    KeyCode::Backspace => editor.backspace(),
                    KeyCode::Left => editor.move_left(),
                    KeyCode::Right => editor.move_right(),
                    KeyCode::Home => {
                        editor.caret = 0;
                    },
                    KeyCode::End => {
                        editor.caret = editor.text.len();
                    },
                    KeyCode::Char(c) => {
                        if !key.control {
                            editor.insert_char(c);
                        }
                    },
                    _ => {},
                }
                self.editing = Some(editor);
            },
            None => {},
        }
        SettingsReply::Input
    }

    fn act(&mut self) -> (r: SettingsReply)
        ensures
            final(self)@ == old(self)@.acted().0,
            r == old(self)@.acted().1,
    {
        if self.cursor >= self.fields.len() {
            return SettingsReply::Inert;
        }
        let field = self.fields[self.cursor].duplicate();
        proof {
            assert(field@ == old(self)@.fields[self.cursor as int]);
        }
        match field.kind {
            FieldKind::Boolean => {
                let on = match field.value {
                    Json::Bool(on) => on,
                    _ => false,
                };
                self.set_value(Json::Bool(!on));
                SettingsReply::Input
            },
            FieldKind::Choice(options) => {
                if options.len() > 0 {
                    let next = option_after(&options, text_of_value(&field.value));
                    self.set_value(Json::Str(next));
                }
                SettingsReply::Input
            },
            FieldKind::Text => {
                self.editing = Some(Editor::on(text_of_value(&field.value)));
                SettingsReply::Input
            },
            FieldKind::Number => {
                let text = match &field.value {
                    Json::Null => String::new(),
                    other => json_string(other),
                };
                proof {
                    if field.value@ == JsonView::Null {
                        assert(text@ =~= Seq::<char>::empty());
                    }
                }
                self.editing = Some(Editor::on(text.as_str()));
                SettingsReply::Input
            },
            FieldKind::Raw => SettingsReply::ReadOnly,
        }
    }
}

impl SettingsState {
    /// A settings view that waits for the gateway's description.
    pub fn new() -> (r: Self)
        ensures
            r@ == SettingsStateView::opened(),
    {
        let r = SettingsState {
            sections: Vec::new(),
            selected: 0,
            focus: SettingsFocus::Nav,
            loading: true,
            saving: false,
        };
        proof {
            assert(r@ =~= SettingsStateView::opened());
        }
        r
    }

    /// The form of the selected section.
    pub fn selected_form(&self) -> (r: Option<&SettingsForm>)
        ensures
            crate::text::opt_view(r) == self@.form(),
    {
        if self.selected < self.sections.len() {
            proof {
                assert(self@.sections[self.selected as int] == self.sections@[self.selected as int]@);
            }
            match &self.sections[self.selected].form {
                Some(form) => Some(form),
                None => None,
            }
        } else {
            None
        }
    }

    /// Whether a form has changed fields.
    pub fn dirty(&self) -> (r: bool)
        ensures
            r == self@.dirty(),
    {
        let mut i: usize = 0;
        while i < self.sections.len()
            invariant
                i <= self.sections@.len(),
                forall|k: int|
                    0 <= k < i ==> !((#[trigger] self@.sections[k]).form is Some
                        && self@.sections[k].form->0.dirty()),
            decreases self.sections.len() - i,
        {
            proof {
                assert(self@.sections[i as int] == self.sections@[i as int]@);
            }
            match &self.sections[i].form {
                Some(form) => {
                    if form.dirty() {
                        return true;
                    }
                },
                None => {},
            }
            i = i + 1;
        }
        false
    }

    fn put_form(&mut self, form: SettingsForm)
        requires
            old(self).selected < old(self).sections@.len(),
        ensures
            final(self)@ == old(self)@.with_form(form@),
    {
        let at = self.selected;
        let section = SettingsSection { ns: self.sections[at].ns.clone(), form: Some(form) };
        self.sections.set(at, section);
        proof {
            assert(self@.sections =~= old(self)@.with_form(form@).sections);
        }
    }

    /// A key in the settings view.
    ///
    /// An editor takes all keys until Enter takes its text over or Esc drops it. Else Esc
    /// closes the view, Ctrl+S saves, Tab and the arrows to the side change between the list
    /// of sections and the form, Up and Down move in either, Enter and Space act on a field.
    pub fn key(&mut self, key: KeyEvent) -> (r: SettingsReply)
        ensures
            final(self)@ == old(self)@.keyed(key).0,
            r == old(self)@.keyed(key).1,
    {
        let form: Option<SettingsForm> = match self.selected_form() {
            Some(form) => Some(form.duplicate()),
            None => None,
        };
        let editing = match &form {
            Some(form) => form.editing.is_some(),
            None => false,
        };
        if editing {
            match form {
                Some(mut form) => {
                    let reply = form.edit(key);
                    self.put_form(form);
                    return reply;
                },
                None => return SettingsReply::Inert,
            }
        }
        if key.code == KeyCode::Esc {
            return SettingsReply::Close { dirty: self.dirty() };
        }
        if key.code == KeyCode::Char('s') && key.control {
            if self.saving {
                return SettingsReply::Inert;
            }
            let dirty = match &form {
                Some(form) => form.dirty(),
                None => false,
            };
            if !dirty {
                return SettingsReply::NothingToSave;
            }
            self.saving = true;
            return SettingsReply::Save;
        }
        if key.code == KeyCode::Tab || key.code == KeyCode::Right || key.code == KeyCode::Left {
            self.focus = match self.focus {
                SettingsFocus::Nav => SettingsFocus::Form,
                SettingsFocus::Form => SettingsFocus::Nav,
            };
            return SettingsReply::Input;
        }
        let up = key.code == KeyCode::Up || key.code == KeyCode::Char('k');
        let down = key.code == KeyCode::Down || key.code == KeyCode::Char('j');
        if up || down {
            if self.focus == SettingsFocus::Nav {
                self.selected = if up {
                    step_up(self.selected)
                } else {
                    step_down(self.selected, self.sections.len())
                };
            } else {
                match form {
                    Some(mut form) => {
                        form.cursor = if up {
                            step_up(form.cursor)
                        } else {
                            step_down(form.cursor, form.fields.len())
                        };
                        self.put_form(form);
                    },
                    None => {},
                }
            }
            return SettingsReply::Input;
        }
        if (key.code == KeyCode::Enter || key.code == KeyCode::Char(' ')) && self.focus
            == SettingsFocus::Form {
            match form {
                Some(mut form) => {
                    let reply = form.act();
                    self.put_form(form);
                    return reply;
                },
                None => return SettingsReply::Inert,
            }
        }
        SettingsReply::Inert
    }
}

/// While an editor has the keys, no key saves or closes the view, and the other sections are
/// untouched.
pub proof fn law_editor_swallows(s: SettingsStateView, key: KeyEvent)
    requires
        s.editing(),
    ensures
        s.keyed(key).1 == SettingsReply::Input || s.keyed(key).1 == SettingsReply::NotANumber,
        s.keyed(key).0.selected == s.selected,
        s.keyed(key).0.focus == s.focus,
        forall|i: int|
            0 <= i < s.sections.len() && i != s.selected ==> #[trigger] s.keyed(key).0.sections[i]
                == s.sections[i],
{
}

/// What saving sends is empty exactly where nothing is changed.
pub proof fn law_patch_empty(form: SettingsFormView)
    ensures
        form.patch().len() == 0 <==> !form.dirty(),
{
    lemma_changed(form.fields);
}

proof fn lemma_changed(fields: Seq<SettingsFieldView>)
    ensures
        fields.filter(is_changed()).len() == 0 <==> !(exists|i: int|
            0 <= i < fields.len() && (#[trigger] fields[i]).changed()),
    decreases fields.len(),
{
    reveal(Seq::filter);
    if fields.len() > 0 {
        lemma_changed(fields.drop_last());
        if fields.last().changed() {
            assert(fields[fields.len() - 1].changed());
        } else {
            assert forall|i: int| 0 <= i < fields.len() && (#[trigger] fields[i]).changed() implies fields.drop_last()[i].changed() by {
            }
            if exists|i: int| 0 <= i < fields.drop_last().len() && (#[trigger] fields.drop_last()[i]).changed() {
                let i = choose|i: int|
                    0 <= i < fields.drop_last().len() && (#[trigger] fields.drop_last()[i]).changed();
                assert(fields[i].changed());
            }
        }
    }
}

/// A save that is under way is not asked for again.
pub proof fn law_one_save_at_a_time(s: SettingsStateView, key: KeyEvent)
    requires
        s.saving,
    ensures
        s.keyed(key).1 != SettingsReply::Save,
{
}

// ---------------------------------------------------------------------------
// the description of the settings
// ---------------------------------------------------------------------------

/// The texts among some values.
pub open spec fn texts_among(items: Seq<JsonView>) -> Seq<Seq<char>>
    decreases items.len(),
{
    if items.len() == 0 {
        Seq::empty()
    } else {
        let rest = texts_among(items.drop_last());
        match items.last() {
            JsonView::Str(s) => rest.push(s),
            _ => rest,
        }
    }
}

/// How a field is edited, by its schema: one that lists its values is a choice among those that
/// are texts, and the type of any other decides.
pub open spec fn kind_of(schema: JsonView) -> FieldKindView {
    match schema.get("enum"@) {
        Some(JsonView::Array(items)) => FieldKindView::Choice(texts_among(items)),
        _ => match schema.get_str("type"@) {
            Some(name) => if name == "boolean"@ {
                FieldKindView::Boolean
            } else if name == "string"@ {
                FieldKindView::Text
            } else if name == "number"@ || name == "integer"@ {
                FieldKindView::Number
            } else {
                FieldKindView::Raw
            },
            None => FieldKindView::Raw,
        },
    }
}

/// How a field is edited, by its schema.
pub fn field_kind(schema: &Json) -> (r: FieldKind)
    ensures
        r@ == kind_of(schema@),
{
    match schema.get("enum") {
        Some(x) => match x {
            Json::Array(items) => {
                let ghost all = x@->Array_0;
                let mut out: Vec<String> = Vec::new();
                let mut i: usize = 0;
                proof {
                    assert(all.len() == items@.len());
                    assert(crate::text::views(out@) =~= texts_among(all.take(0)));
                }
                while i < items.len()
                    invariant
                        i <= items@.len(),
                        *x == Json::Array(*items),
                        all == x@->Array_0,
                        all.len() == items@.len(),
                        crate::text::views(out@) == texts_among(all.take(i as int)),
                    decreases items.len() - i,
                {
                    proof {
                        assert(all[i as int] == items@[i as int]@);
                        assert(all.take(i + 1).drop_last() =~= all.take(i as int));
                        assert(all.take(i + 1).last() == all[i as int]);
                    }
                    match &items[i] {
                        Json::Str(s) => {
                            let text = s.clone();
                            proof {
                                assert(crate::text::views(out@.push(text)) =~= crate::text::views(
                                    out@,
                                ).push(text@));
                            }
                            out.push(text);
                        },
                        _ => {},
                    }
                    i = i + 1;
                }
                proof {
                    assert(all.take(i as int) =~= all);
                }
                return FieldKind::Choice(out);
            },
            _ => {},
        },
        None => {},
    }
    match schema.get_str("type") {
        Some(name) => if same(name, "boolean") {
            FieldKind::Boolean
        } else if same(name, "string") {
            FieldKind::Text
        } else if same(name, "number") || same(name, "integer") {
            FieldKind::Number
        } else {
            FieldKind::Raw
        },
        None => FieldKind::Raw,
    }
}

/// The value of a setting, null where it has none.
pub open spec fn value_of(value: JsonView, key: Seq<char>) -> JsonView {
    match value.get(key) {
        Some(v) => v,
        None => JsonView::Null,
    }
}

/// A field that nobody has changed.
pub open spec fn described_field(property: (Seq<char>, JsonView), value: JsonView) -> SettingsFieldView {
    SettingsFieldView {
        key: property.0,
        kind: kind_of(property.1),
        value: value_of(value, property.0),
        original: value_of(value, property.0),
    }
}

/// The form of a section, where its schema lists properties: a field for each.
pub open spec fn described_form(schema: JsonView, value: JsonView, revision: i64) -> Option<
    SettingsFormView,
> {
    match schema.get("properties"@) {
        Some(JsonView::Object(members)) => Some(
            SettingsFormView {
                fields: members.map_values(
                    |m: (Seq<char>, JsonView)| described_field(m, value),
                ),
                cursor: 0,
                editing: None,
                revision,
            },
        ),
        _ => None,
    }
}

fn read_value(value: &Json, key: &str) -> (r: Json)
    ensures
        r@ == value_of(value@, key@),
{
    match value.get(key) {
        Some(v) => v.duplicate(),
        None => Json::Null,
    }
}

/// A section of the settings, by its schema and its value.
pub fn described_section(ns: String, schema: &Json, value: &Json, revision: i64) -> (r:
    SettingsSection)
    ensures
        r@ == (SettingsSectionView {
            ns: ns@,
            form: described_form(schema@, value@, revision),
        }),
{
    match schema.get("properties") {
        Some(x) => match x {
            Json::Object(members) => {
                let ghost all = x@->Object_0;
                let ghost make = |m: (Seq<char>, JsonView)| described_field(m, value@);
                let mut fields: Vec<SettingsField> = Vec::new();
                let mut i: usize = 0;
                proof {
                    assert(all.len() == members@.len());
                    assert(crate::text::views(fields@) =~= all.take(0).map_values(make));
                }
                while i < members.len()
                    invariant
                        i <= members@.len(),
                        *x == Json::Object(*members),
                        all == x@->Object_0,
                        all.len() == members@.len(),
                        make == (|m: (Seq<char>, JsonView)| described_field(m, value@)),
                        crate::text::views(fields@) == all.take(i as int).map_values(make),
                    decreases members.len() - i,
                {
                    let key = members[i].0.as_str();
                    let field = SettingsField {
                        key: key.to_owned(),
                        kind: field_kind(&members[i].1),
                        value: read_value(value, key),
                        original: read_value(value, key),
                    };
                    proof {
                        assert(all[i as int] == (members@[i as int].0@, members@[i as int].1@));
                        assert(field@ == make(all[i as int]));
                        assert(all.take(i + 1).map_values(make) =~= all.take(i as int).map_values(
                            make,
                        ).push(field@));
                        assert(crate::text::views(fields@.push(field)) =~= crate::text::views(
                            fields@,
                        ).push(field@));
                    }
                    fields.push(field);
                    i = i + 1;
                }
                proof {
                    assert(all.take(i as int) =~= all);
                }
                let form = SettingsForm { fields, cursor: 0, editing: None, revision };
                SettingsSection { ns, form: Some(form) }
            },
            _ => SettingsSection { ns, form: None },
        },
        None => SettingsSection { ns, form: None },
    }
}

/// A form that was just described has nothing to save: every field is as it was.
pub proof fn law_described_form_is_clean(schema: JsonView, value: JsonView, revision: i64, i: int)
    requires
        described_form(schema, value, revision) matches Some(form) && 0 <= i < form.fields.len(),
    ensures
        described_form(schema, value, revision)->0.fields[i].value == described_form(
            schema,
            value,
            revision,
        )->0.fields[i].original,
{
}

} // verus!
