//! The projection of a session to what a renderer draws: the rows of the
//! list, the edit form, and the status message.

use vstd::prelude::*;
use vstd::string::StringExecFns;
use crate::profile::{text_of, Field, HostEntry, HostView, FIELD_COUNT};
use crate::session::{AppState, AppView, EditState, EditView, ModeView};
use crate::store::{ProfileStore, StoreView};

verus! {

/// A row of the list: the label of a profile, and whether it is the selected
/// one.
#[derive(Debug)]
pub struct Row {
    pub label: String,
    pub selected: bool,
}

/// A row as a mathematical value.
pub struct RowView {
    pub label: Seq<char>,
    pub selected: bool,
}

impl View for Row {
    type V = RowView;

    open spec fn view(&self) -> RowView {
        RowView { label: self.label@, selected: self.selected }
    }
}

/// A line of the edit form: its text, and whether the cursor is on it.
#[derive(Debug)]
pub struct FormField {
    pub text: String,
    pub focused: bool,
}

/// A line of the edit form as a mathematical value.
pub struct FormFieldView {
    pub text: Seq<char>,
    pub focused: bool,
}

impl View for FormField {
    type V = FormFieldView;

    open spec fn view(&self) -> FormFieldView {
        FormFieldView { text: self.text@, focused: self.focused }
    }
}

/// What is on the screen besides the list.
#[derive(Debug)]
pub enum ViewMode {
    /// The list alone.
    Browsing,
    /// The edit form, with the index of the line that the cursor is on.
    Editing { fields: Vec<FormField>, focused: usize },
}

/// The screen mode as a mathematical value.
pub enum ViewModeView {
    Browsing,
    Editing { fields: Seq<FormFieldView>, focused: nat },
}

/// The lines of a form, as mathematical values.
pub open spec fn field_views(fields: Seq<FormField>) -> Seq<FormFieldView> {
    Seq::new(fields.len(), |i: int| fields[i]@)
}

/// The rows of a list, as mathematical values.
pub open spec fn row_views(rows: Seq<Row>) -> Seq<RowView> {
    Seq::new(rows.len(), |i: int| rows[i]@)
}

impl View for ViewMode {
    type V = ViewModeView;

    open spec fn view(&self) -> ViewModeView {
        match self {
            ViewMode::Browsing => ViewModeView::Browsing,
            ViewMode::Editing { fields, focused } => ViewModeView::Editing {
                fields: field_views(fields@),
                focused: *focused as nat,
            },
        }
    }
}

/// What a renderer draws: the rows in the order of the store, the mode, and
/// the status message.
#[derive(Debug)]
pub struct ViewModel {
    pub rows: Vec<Row>,
    pub mode: ViewMode,
    pub status: Option<String>,
}

/// The view model as a mathematical value.
pub struct ViewModelView {
    pub rows: Seq<RowView>,
    pub mode: ViewModeView,
    pub status: Option<Seq<char>>,
}

impl View for ViewModel {
    type V = ViewModelView;

    open spec fn view(&self) -> ViewModelView {
        ViewModelView {
            rows: row_views(self.rows@),
            mode: self.mode@,
            status: text_of(self.status),
        }
    }
}

/// The label of a profile in the list: its name, followed by its host name
/// in round brackets where that is set.
pub open spec fn row_label(h: HostView) -> Seq<char> {
    match h.hostname {
        Some(address) => h.name + " ("@ + address + ")"@,
        None => h.name,
    }
}

/// The rows of a store: one for each profile, in order, the selected one
/// marked. An empty store has no rows and so no marked one.
pub open spec fn store_rows(store: StoreView) -> Seq<RowView> {
    Seq::new(
        store.hosts.len(),
        |i: int| RowView { label: row_label(store.hosts[i]), selected: i == store.selected },
    )
}

/// The text of a form line: the label, a colon, the value, and a mark where
/// the cursor is on the line. A field that is not set shows an empty value.
pub open spec fn form_text(h: HostView, f: Field, focused: bool) -> Seq<char> {
    let line = f.label() + ": "@ + h.text(f);
    if focused {
        line + " <"@
    } else {
        line
    }
}

/// The line of the edit form at position `i`.
pub open spec fn form_field(e: EditView, i: int) -> FormFieldView {
    FormFieldView {
        text: form_text(e.host, Field::at(i)->0, i == e.field_index),
        focused: i == e.field_index,
    }
}

/// The lines of the edit form: one for each field, in order.
pub open spec fn form_fields(e: EditView) -> Seq<FormFieldView> {
    Seq::new(FIELD_COUNT as nat, |i: int| form_field(e, i))
}

/// The view of a session.
pub open spec fn project(s: AppView) -> ViewModelView {
    ViewModelView {
        rows: store_rows(s.store),
        mode: match s.mode {
            ModeView::Editing(e) => ViewModeView::Editing {
                fields: form_fields(e),
                focused: e.field_index,
            },
            _ => ViewModeView::Browsing,
        },
        status: s.status,
    }
}

/// The label of a profile in the list.
pub fn label_of(host: &HostEntry) -> (label: String)
    ensures
        label@ == row_label(host@),
{
    let mut label = host.name.clone();
    if let Some(address) = &host.hostname {
        label.append(" (");
        label.append(address.as_str());
        label.append(")");
    }
    label
}

/// The rows of a store.
pub fn rows_of(store: &ProfileStore) -> (rows: Vec<Row>)
    requires
        store@.wf(),
    ensures
        row_views(rows@) == store_rows(store@),
{
    let hosts = store.hosts();
    let selected = store.selected();
    let mut rows: Vec<Row> = Vec::new();
    let mut i: usize = 0;
    while i < hosts.len()
        invariant
            i <= hosts.len(),
            hosts.len() == store@.hosts.len(),
            crate::profile::host_views(hosts@) == store@.hosts,
            selected == store@.selected,
            rows.len() == i,
            forall|j: int| 0 <= j < i ==> (#[trigger] rows[j])@ == store_rows(store@)[j],
        decreases hosts.len() - i,
    {
        assert(crate::profile::host_views(hosts@)[i as int] == hosts[i as int]@);
        rows.push(Row { label: label_of(&hosts[i]), selected: i == selected });
        i += 1;
    }
    assert(row_views(rows@) =~= store_rows(store@));
    rows
}

/// The text of one line of the edit form.
pub fn form_line(host: &HostEntry, f: Field, focused: bool) -> (line: String)
    ensures
        line@ == form_text(host@, f, focused),
{
    let mut line = f.label_text().to_owned();
    line.append(": ");
    match host.field(f) {
        Some(value) => {
            line.append(value.as_str());
        },
        None => {
            assert(line@ + Seq::<char>::empty() =~= line@);
        },
    }
    if focused {
        line.append(" <");
    }
    line
}

/// The lines of the edit form.
pub fn form_of(edit: &EditState) -> (fields: Vec<FormField>)
    ensures
        field_views(fields@) == form_fields(edit@),
{
    let mut fields: Vec<FormField> = Vec::new();
    let mut i: usize = 0;
    while i < FIELD_COUNT
        invariant
            i <= FIELD_COUNT,
            fields.len() == i,
            forall|j: int| 0 <= j < i ==> (#[trigger] fields[j])@ == form_field(edit@, j),
        decreases FIELD_COUNT - i,
    {
        if let Some(f) = Field::from_index(i) {
            let focused = i == edit.field_index;
            fields.push(FormField { text: form_line(&edit.host, f, focused), focused });
        }
        i += 1;
    }
    assert(field_views(fields@) =~= form_fields(edit@));
    fields
}

/// The view of a session: what a renderer draws for it.
pub fn view_model(app: &AppState) -> (vm: ViewModel)
    requires
        app@.wf(),
    ensures
        vm@ == project(app@),
{
    let rows = rows_of(app.store());
    let mode = match app.edit_state() {
        Some(edit) => ViewMode::Editing { fields: form_of(edit), focused: edit.field_index },
        None => ViewMode::Browsing,
    };
    let status = match app.status_message() {
        Some(message) => Some(message.clone()),
        None => None,
    };
    ViewModel { rows, mode, status }
}

} // verus!
