//! The form pane of the framed front end: one line of text for each editable field, scrolled by
//! hand, and the dialogs that show or edit one entry.
use vstd::prelude::*;
use vstd::string::*;

use crate::attrs::{put, values_of, values_or_none, Attr, AttrMap};
use crate::changes::EditEntry;
use crate::edit_form::{
    reordering_keeps_values, same_values, same_values_is_symmetric, value_set_eq, FormField,
    FormModel,
};
use crate::layout::{clamp_scroll, greater, lesser};
use crate::text::{
    concat2, concat3, copy_texts, decimal, decimal_of, eq_ignore_case, is_blank, join, joined,
    pieces, pieces_alone, pieces_of_line, same_ci, split, texts, trim, trimmed,
};
use crate::widgets::WidgetSpec;

verus! {

/// How a field that cannot be edited shows.
pub open spec fn shown(widget: WidgetSpec, values: Seq<Seq<char>>) -> Seq<char> {
    match widget {
        WidgetSpec::DisabledCheckBox(b) => if b {
            "[x]"@
        } else {
            "[ ]"@
        },
        WidgetSpec::BinaryNote(n) => "<"@ + decimal_of(n as nat) + " bytes>"@,
        WidgetSpec::ReadOnlyText => joined(values, ", "@),
    }
}

/// How a field that cannot be edited shows: a checkbox, the size of binary data, or its values.
pub fn field_display(widget: &WidgetSpec, values: &Vec<String>) -> (r: String)
    ensures
        r@ == shown(*widget, texts(values@)),
{
    match widget {
        WidgetSpec::DisabledCheckBox(b) => if *b {
            "[x]".to_owned()
        } else {
            "[ ]".to_owned()
        },
        WidgetSpec::BinaryNote(n) => concat3("<", &decimal(*n as u64), " bytes>"),
        WidgetSpec::ReadOnlyText => join(values, ", "),
    }
}

/// Whether a field can be edited as text: not the memberships that the server keeps, and no binary
/// data or checkbox.
pub open spec fn editable(f: FormField) -> bool {
    !same_ci(f.label@, "memberOf"@) && f.widget is ReadOnlyText
}

/// Whether a field can be edited as text.
pub fn field_is_editable(field: &FormField) -> (b: bool)
    ensures
        b == editable(*field),
{
    if eq_ignore_case(&field.label, "memberOf") {
        return false;
    }
    match field.widget {
        WidgetSpec::BinaryNote(_) => false,
        WidgetSpec::DisabledCheckBox(_) => false,
        WidgetSpec::ReadOnlyText => true,
    }
}

/// The lines that are not blank, each trimmed.
pub open spec fn kept_lines(lines: Seq<Seq<char>>) -> Seq<Seq<char>>
    decreases lines.len(),
{
    if lines.len() == 0 {
        lines
    } else if trimmed(lines.last()).len() == 0 {
        kept_lines(lines.drop_last())
    } else {
        kept_lines(lines.drop_last()).push(trimmed(lines.last()))
    }
}

/// The values that a field's text stands for: one for each line that is not blank, trimmed.
pub open spec fn entered(text: Seq<char>) -> Seq<Seq<char>> {
    kept_lines(pieces(text, '\n'))
}

/// The values that a field's text stands for.
pub fn entered_values(text: &str) -> (r: Vec<String>)
    ensures
        texts(r@) == entered(text@),
{
    let lines: Vec<String> = split(text, '\n');
    let ghost all = texts(lines@);
    let mut out: Vec<String> = Vec::new();
    let mut i: usize = 0;
    assert(texts(out@) =~= kept_lines(all.take(0)));
    while i < lines.len()
        invariant
            i <= lines@.len(),
            all == texts(lines@),
            texts(out@) == kept_lines(all.take(i as int)),
        decreases lines@.len() - i,
    {
        proof {
            assert(all.take(i + 1).drop_last() =~= all.take(i as int));
            assert(all.take(i + 1).last() == lines@[i as int]@);
        }
        let v: String = trim(&lines[i]);
        if !v.as_str().is_empty() {
            let ghost o0 = out@;
            let ghost t = v@;
            out.push(v);
            assert(texts(out@) =~= texts(o0).push(t));
        }
        i += 1;
    }
    assert(all.take(all.len() as int) =~= all);
    out
}

/// Whether values survive being shown as lines: each is not blank, is trimmed, and has no line feed.
pub open spec fn plain_lines(values: Seq<Seq<char>>) -> bool {
    forall|i: int|
        0 <= i < values.len() ==> trimmed(#[trigger] values[i]) == values[i] && values[i].len() > 0
            && !values[i].contains('\n')
}

/// Values shown as lines are read back as they were, as long as each is trimmed, not blank, and has
/// no line feed.
pub proof fn lines_are_read_back(values: Seq<Seq<char>>)
    requires
        plain_lines(values),
    ensures
        entered(joined(values, "\n"@)) == values,
    decreases values.len(),
{
    reveal_strlit("\n");
    reveal_with_fuel(kept_lines, 2);
    assert("\n"@ =~= seq!['\n']);
    if values.len() == 0 {
        let none = Seq::<char>::empty();
        assert(pieces(none, '\n') =~= seq![none]);
        assert(seq![none].drop_last() =~= Seq::<Seq<char>>::empty());
        assert(seq![none].last() == none);
        assert(trimmed(none) == none);
        assert(entered(none) =~= values);
    } else {
        let last = values.last();
        let head = values.drop_last();
        assert(last == values[values.len() - 1]);
        assert(plain_lines(head)) by {
            assert forall|i: int| 0 <= i < head.len() implies trimmed(#[trigger] head[i]) == head[i]
                && head[i].len() > 0 && !head[i].contains('\n') by {
                assert(head[i] == values[i]);
            }
        }
        if values.len() == 1 {
            pieces_alone(last, '\n');
            assert(seq![last].drop_last() =~= Seq::<Seq<char>>::empty());
            assert(seq![last].last() == last);
            assert(entered(last) =~= values);
        } else {
            lines_are_read_back(head);
            pieces_of_line(joined(head, "\n"@), last, '\n');
            let all = pieces(joined(head, "\n"@), '\n').push(last);
            assert(all.drop_last() =~= pieces(joined(head, "\n"@), '\n'));
            assert(head.push(last) =~= values);
        }
    }
}

/// The text of an editable field, by its label.
pub struct Binding {
    pub label: String,
    pub text: String,
}

/// A field's text as a mathematical value.
pub type Line = (Seq<char>, Seq<char>);

/// The texts of the fields, as mathematical values.
pub open spec fn lines_model(v: Seq<Binding>) -> Seq<Line> {
    v.map_values(|b: Binding| (b.label@, b.text@))
}

/// The values of an entry's fields by label.
pub open spec fn field_values(fields: Seq<FormField>) -> Seq<Attr>
    decreases fields.len(),
{
    if fields.len() == 0 {
        Seq::empty()
    } else {
        put(
            field_values(fields.drop_last()),
            fields.last().label@,
            texts(fields.last().values@),
        )
    }
}

/// Attributes with those of the fields in place.
pub open spec fn overlaid(l: Seq<Attr>, lines: Seq<Line>) -> Seq<Attr>
    decreases lines.len(),
{
    if lines.len() == 0 {
        l
    } else {
        put(overlaid(l, lines.drop_last()), lines.last().0, entered(lines.last().1))
    }
}

fn values_by_label(fields: &Vec<FormField>) -> (r: AttrMap)
    ensures
        r@ == field_values(fields@),
{
    let mut attrs: AttrMap = AttrMap::new();
    let mut i: usize = 0;
    assert(fields@.take(0) =~= Seq::empty());
    while i < fields.len()
        invariant
            i <= fields@.len(),
            attrs@ == field_values(fields@.take(i as int)),
        decreases fields@.len() - i,
    {
        proof {
            assert(fields@.take(i + 1).drop_last() =~= fields@.take(i as int));
        }
        attrs.insert(fields[i].label.clone(), copy_texts(&fields[i].values));
        i += 1;
    }
    assert(fields@.take(fields@.len() as int) =~= fields@);
    attrs
}

fn overlay(attrs: &mut AttrMap, bindings: &Vec<Binding>)
    ensures
        final(attrs)@ == overlaid(old(attrs)@, lines_model(bindings@)),
{
    let ghost start = attrs@;
    let ghost all = lines_model(bindings@);
    let mut i: usize = 0;
    assert(all.take(0) =~= Seq::empty());
    while i < bindings.len()
        invariant
            i <= bindings@.len(),
            all == lines_model(bindings@),
            attrs@ == overlaid(start, all.take(i as int)),
        decreases bindings@.len() - i,
    {
        proof {
            assert(all.take(i + 1).drop_last() =~= all.take(i as int));
            assert(all.take(i + 1).last() == all[i as int]);
        }
        attrs.insert(bindings[i].label.clone(), entered_values(&bindings[i].text));
        i += 1;
    }
    assert(all.take(all.len() as int) =~= all);
}

/// The entry as read.
pub fn entry_to_edit(dn: &str, model: &FormModel) -> (r: EditEntry)
    ensures
        r.dn@ == dn@,
        r.attrs@ == field_values(model.fields@),
{
    EditEntry { dn: dn.to_owned(), attrs: values_by_label(&model.fields) }
}

/// The entry as edited: what was read, with the editable fields as their texts stand.
pub fn collect_edit_entry(dn: &str, model: &FormModel, bindings: &Vec<Binding>) -> (r: EditEntry)
    ensures
        r.dn@ == dn@,
        r.attrs@ == overlaid(field_values(model.fields@), lines_model(bindings@)),
{
    let mut attrs: AttrMap = values_by_label(&model.fields);
    overlay(&mut attrs, bindings);
    EditEntry { dn: dn.to_owned(), attrs }
}

/// A row of the form: its label, marked where the attribute is a must, and what stands beside it:
/// the number of its text among the editable ones, or what it shows.
pub struct FormRow {
    pub label: String,
    pub binding: Option<usize>,
    pub display: String,
}

/// The label of a field; a must is marked.
pub open spec fn row_label(f: FormField) -> Seq<char> {
    if f.is_must {
        f.label@ + " *"@
    } else {
        f.label@
    }
}

/// The label of a field; a must is marked.
pub fn field_label(f: &FormField) -> (r: String)
    ensures
        r@ == row_label(*f),
{
    if f.is_must {
        concat2(&f.label, " *")
    } else {
        f.label.clone()
    }
}

/// The texts of the editable fields: the values of each, one to a line.
pub open spec fn editable_lines(fields: Seq<FormField>, read_only: bool) -> Seq<Line>
    decreases fields.len(),
{
    if fields.len() == 0 {
        Seq::empty()
    } else {
        let before = editable_lines(fields.drop_last(), read_only);
        if !read_only && editable(fields.last()) {
            before.push((fields.last().label@, joined(texts(fields.last().values@), "\n"@)))
        } else {
            before
        }
    }
}

/// Whether a row shows a field; `before` editable fields come before it.
pub open spec fn row_shows(r: FormRow, f: FormField, read_only: bool, before: int) -> bool {
    &&& r.label@ == row_label(f)
    &&& if !read_only && editable(f) {
        r.binding == Some(before as usize) && r.display@.len() == 0
    } else {
        r.binding is None && r.display@ == shown(f.widget, texts(f.values@))
    }
}

/// The form pane: the entry that it shows, the texts of its editable fields, and its scroll
/// position.
pub struct FormPane {
    pub read_only: bool,
    pub dn: String,
    pub bindings: Vec<Binding>,
    pub baseline: AttrMap,
    pub rows: Vec<FormRow>,
    pub content_h: i16,
    pub scroll: i16,
    pub viewport_h: i16,
}

/// The height of the form: a row for each field, and three more for the buttons where there are
/// some.
pub open spec fn content_height(fields: int, read_only: bool) -> int {
    if read_only {
        fields
    } else {
        fields + 3
    }
}

/// Whether a field's text stands for other values than the entry has. Their order does not count.
pub open spec fn line_changed(line: Line, baseline: Seq<Attr>) -> bool {
    !same_values(entered(line.1), values_or_none(baseline, line.0))
}

/// Whether a pane holds unsaved edits.
pub open spec fn pane_dirty(p: FormPane) -> bool {
    exists|i: int|
        0 <= i < p.bindings@.len() && line_changed(
            #[trigger] lines_model(p.bindings@)[i],
            p.baseline@,
        )
}

impl FormPane {
    /// A pane that shows no entry.
    pub fn new(read_only: bool, viewport_h: i16) -> (p: FormPane)
        ensures
            p.read_only == read_only,
            p.viewport_h == viewport_h,
            p.dn@.len() == 0,
            p.bindings@.len() == 0,
            p.baseline@.len() == 0,
            p.rows@.len() == 0,
            p.content_h == 0,
            p.scroll == 0,
    {
        FormPane {
            read_only,
            dn: String::new(),
            bindings: Vec::new(),
            baseline: AttrMap::new(),
            rows: Vec::new(),
            content_h: 0,
            scroll: 0,
            viewport_h,
        }
    }

    /// Shows an entry from the top: a row for each field, a text for each that can be edited. The
    /// values as read are what edits are compared with.
    pub fn set_model(&mut self, model: &FormModel)
        requires
            model.fields@.len() <= i16::MAX - 3,
        ensures
            final(self).read_only == old(self).read_only,
            final(self).viewport_h == old(self).viewport_h,
            final(self).dn@ == model.title@,
            final(self).baseline@ == field_values(model.fields@),
            lines_model(final(self).bindings@) == editable_lines(
                model.fields@,
                old(self).read_only,
            ),
            final(self).rows@.len() == model.fields@.len(),
            forall|i: int|
                0 <= i < model.fields@.len() ==> row_shows(
                    #[trigger] final(self).rows@[i],
                    model.fields@[i],
                    old(self).read_only,
                    editable_lines(model.fields@.take(i), old(self).read_only).len() as int,
                ),
            final(self).content_h == content_height(
                model.fields@.len() as int,
                old(self).read_only,
            ),
            final(self).scroll == 0,
    {
        let read_only: bool = self.read_only;
        let mut bindings: Vec<Binding> = Vec::new();
        let mut rows: Vec<FormRow> = Vec::new();
        let mut i: usize = 0;
        assert(model.fields@.take(0) =~= Seq::empty());
        assert(lines_model(bindings@) =~= Seq::empty());
        while i < model.fields.len()
            invariant
                i <= model.fields@.len(),
                bindings@.len() <= i,
                rows@.len() == i,
                lines_model(bindings@) == editable_lines(model.fields@.take(i as int), read_only),
                forall|j: int|
                    0 <= j < i ==> row_shows(
                        #[trigger] rows@[j],
                        model.fields@[j],
                        read_only,
                        editable_lines(model.fields@.take(j), read_only).len() as int,
                    ),
            decreases model.fields@.len() - i,
        {
            proof {
                assert(model.fields@.take(i + 1).drop_last() =~= model.fields@.take(i as int));
                assert(lines_model(bindings@).len() == bindings@.len());
            }
            let field: &FormField = &model.fields[i];
            let row: FormRow = if !read_only && field_is_editable(field) {
                let n: usize = bindings.len();
                let ghost b0 = bindings@;
                let text: String = join(&field.values, "\n");
                let ghost t = text@;
                bindings.push(Binding { label: field.label.clone(), text });
                assert(lines_model(bindings@) =~= lines_model(b0).push((field.label@, t)));
                FormRow { label: field_label(field), binding: Some(n), display: String::new() }
            } else {
                FormRow {
                    label: field_label(field),
                    binding: None,
                    display: field_display(&field.widget, &field.values),
                }
            };
            rows.push(row);
            i += 1;
        }
        assert(model.fields@.take(model.fields@.len() as int) =~= model.fields@);
        self.dn = model.title.clone();
        self.baseline = values_by_label(&model.fields);
        self.bindings = bindings;
        self.rows = rows;
        let n: i16 = model.fields.len() as i16;
        self.content_h = if read_only {
            n
        } else {
            n + 3
        };
        self.scroll = 0;
    }

    /// Shows no entry.
    pub fn clear(&mut self)
        ensures
            final(self).read_only == old(self).read_only,
            final(self).viewport_h == old(self).viewport_h,
            final(self).dn@.len() == 0,
            final(self).bindings@.len() == 0,
            final(self).baseline@.len() == 0,
            final(self).rows@.len() == 0,
            final(self).content_h == 0,
            final(self).scroll == 0,
    {
        self.dn = String::new();
        self.bindings = Vec::new();
        self.baseline = AttrMap::new();
        self.rows = Vec::new();
        self.content_h = 0;
        self.scroll = 0;
    }

    /// Whether a field's text stands for other values than the entry has. A mere reordering of lines
    /// is no edit.
    pub fn is_dirty(&self) -> (b: bool)
        ensures
            b == pane_dirty(*self),
    {
        let ghost all = lines_model(self.bindings@);
        let mut i: usize = 0;
        while i < self.bindings.len()
            invariant
                i <= self.bindings@.len(),
                all == lines_model(self.bindings@),
                forall|j: int| 0 <= j < i ==> !line_changed(#[trigger] all[j], self.baseline@),
            decreases self.bindings@.len() - i,
        {
            let now: Vec<String> = entered_values(&self.bindings[i].text);
            let base: Vec<String> = self.baseline.get_or_none(&self.bindings[i].label);
            if !value_set_eq(&now, &base) {
                assert(line_changed(all[i as int], self.baseline@));
                return true;
            }
            assert(!line_changed(all[i as int], self.baseline@));
            i += 1;
        }
        false
    }

    /// The entry as edited; nothing where no entry is shown.
    pub fn take_edit(&self) -> (r: Option<EditEntry>)
        ensures
            match r {
                Some(e) => self.dn@.len() > 0 && e.dn@ == self.dn@ && e.attrs@ == overlaid(
                    self.baseline@,
                    lines_model(self.bindings@),
                ),
                None => self.dn@.len() == 0,
            },
    {
        if self.dn.as_str().is_empty() {
            return None;
        }
        let mut attrs: AttrMap = self.baseline.copy();
        overlay(&mut attrs, &self.bindings);
        Some(EditEntry { dn: self.dn.clone(), attrs })
    }

    /// Gives every field the text of the values that the entry has.
    pub fn revert(&mut self)
        ensures
            *final(self) == (FormPane { bindings: final(self).bindings, ..*old(self) }),
            final(self).bindings@.len() == old(self).bindings@.len(),
            forall|i: int|
                0 <= i < old(self).bindings@.len() ==> (#[trigger] final(self).bindings@[i]).label
                    == old(self).bindings@[i].label && final(self).bindings@[i].text@ == joined(
                    values_or_none(old(self).baseline@, old(self).bindings@[i].label@),
                    "\n"@,
                ),
    {
        let ghost start = *self;
        let mut i: usize = 0;
        while i < self.bindings.len()
            invariant
                i <= self.bindings@.len(),
                *self == (FormPane { bindings: self.bindings, ..start }),
                self.bindings@.len() == start.bindings@.len(),
                forall|j: int|
                    0 <= j < i ==> (#[trigger] self.bindings@[j]).label == start.bindings@[j].label
                        && self.bindings@[j].text@ == joined(
                        values_or_none(start.baseline@, start.bindings@[j].label@),
                        "\n"@,
                    ),
                forall|j: int|
                    i <= j < start.bindings@.len() ==> self.bindings@[j]
                        == #[trigger] start.bindings@[j],
            decreases self.bindings@.len() - i,
        {
            let base: Vec<String> = self.baseline.get_or_none(&self.bindings[i].label);
            let text: String = join(&base, "\n");
            self.bindings[i].text = text;
            i += 1;
        }
    }

    /// Moves the scroll position, as far as there is content, and gives back by how many rows the
    /// content moves up.
    pub fn apply_scroll(&mut self, new_scroll: i16) -> (dy: i16)
        requires
            i16::MIN <= old(self).content_h - old(self).viewport_h <= i16::MAX,
            old(self).scroll >= 0,
        ensures
            final(self).scroll == lesser(
                greater(new_scroll as int, 0),
                greater(old(self).content_h - old(self).viewport_h, 0),
            ),
            *final(self) == (FormPane { scroll: final(self).scroll, ..*old(self) }),
            dy == final(self).scroll - old(self).scroll,
    {
        let clamped: i16 = clamp_scroll(new_scroll, self.content_h, self.viewport_h);
        let dy: i16 = clamped - self.scroll;
        self.scroll = clamped;
        dy
    }
}

/// What the form pane tells the loop: whether it holds unsaved edits, the entry as edited, and its
/// name.
pub struct FormHandles {
    pub dirty: bool,
    pub edit: Option<EditEntry>,
    pub dn: String,
}

impl FormPane {
    /// What the pane tells the loop after each event.
    pub fn publish(&self) -> (h: FormHandles)
        ensures
            h.dirty == pane_dirty(*self),
            h.dn@ == self.dn@,
            match h.edit {
                Some(e) => self.dn@.len() > 0 && e.dn@ == self.dn@ && e.attrs@ == overlaid(
                    self.baseline@,
                    lines_model(self.bindings@),
                ),
                None => self.dn@.len() == 0,
            },
    {
        FormHandles { dirty: self.is_dirty(), edit: self.take_edit(), dn: self.dn.clone() }
    }

    /// Where an event scrolls the pane to, if it scrolls: the wheel by a row, the page keys by a
    /// page.
    pub fn scroll_target(&self, ev: PaneEvent) -> (r: Option<i16>)
        requires
            ev is WheelDown ==> self.scroll < i16::MAX,
            ev is WheelUp ==> self.scroll > i16::MIN,
            ev is PageDown ==> i16::MIN <= self.scroll + self.viewport_h <= i16::MAX,
            ev is PageUp ==> i16::MIN <= self.scroll - self.viewport_h <= i16::MAX,
        ensures
            match ev {
                PaneEvent::WheelDown => r == Some((self.scroll + 1) as i16),
                PaneEvent::WheelUp => r == Some((self.scroll - 1) as i16),
                PaneEvent::PageDown => r == Some((self.scroll + self.viewport_h) as i16),
                PaneEvent::PageUp => r == Some((self.scroll - self.viewport_h) as i16),
                _ => r is None,
            },
    {
        match ev {
            PaneEvent::WheelDown => Some(self.scroll + 1),
            PaneEvent::WheelUp => Some(self.scroll - 1),
            PaneEvent::PageDown => Some(self.scroll + self.viewport_h),
            PaneEvent::PageUp => Some(self.scroll - self.viewport_h),
            _ => None,
        }
    }

    /// What an event in the pane leads to: new content is taken in, the save and cancel keys count
    /// only where the form can be written, and what does not scroll is the fields'.
    pub fn pane_step(&self, ev: PaneEvent) -> (r: PaneStep)
        ensures
            r == match ev {
                PaneEvent::Refresh => PaneStep::Reload,
                PaneEvent::SaveKey => if self.read_only {
                    PaneStep::Fields
                } else {
                    PaneStep::Save
                },
                PaneEvent::CancelKey => if self.read_only {
                    PaneStep::Fields
                } else {
                    PaneStep::Cancel
                },
                PaneEvent::Other => PaneStep::Fields,
                _ => PaneStep::Scroll,
            },
    {
        match ev {
            PaneEvent::Refresh => PaneStep::Reload,
            PaneEvent::SaveKey => if self.read_only {
                PaneStep::Fields
            } else {
                PaneStep::Save
            },
            PaneEvent::CancelKey => if self.read_only {
                PaneStep::Fields
            } else {
                PaneStep::Cancel
            },
            PaneEvent::Other => PaneStep::Fields,
            _ => PaneStep::Scroll,
        }
    }
}

/// An event in the form pane, as far as it is told apart.
#[derive(Debug, Clone, Copy, PartialEq, Eq, Structural)]
pub enum PaneEvent {
    Refresh,
    SaveKey,
    CancelKey,
    WheelDown,
    WheelUp,
    PageDown,
    PageUp,
    Other,
}

/// What an event in the form pane leads to.
#[derive(Debug, Clone, Copy, PartialEq, Eq, Structural)]
pub enum PaneStep {
    Reload,
    Save,
    Cancel,
    Scroll,
    Fields,
}

/// What the list pane and the loop tell each other: the rows, by label and name, the search text,
/// and the name of the highlighted row.
pub struct LeafHandles {
    pub rows: Vec<(String, String)>,
    pub search: String,
    pub selected: Option<String>,
}

impl LeafHandles {
    /// The labels of the rows.
    pub fn labels(&self) -> (r: Vec<String>)
        ensures
            texts(r@) == self.rows@.map_values(|p: (String, String)| p.0@),
    {
        let mut out: Vec<String> = Vec::new();
        let ghost goal = self.rows@.map_values(|p: (String, String)| p.0@);
        let mut i: usize = 0;
        while i < self.rows.len()
            invariant
                i <= self.rows@.len(),
                goal == self.rows@.map_values(|p: (String, String)| p.0@),
                texts(out@) == goal.take(i as int),
            decreases self.rows@.len() - i,
        {
            let ghost o0 = out@;
            out.push(self.rows[i].0.clone());
            i += 1;
            proof {
                assert(texts(out@) =~= texts(o0).push(goal[i - 1]));
                assert(texts(out@) =~= goal.take(i as int));
            }
        }
        assert(goal.take(goal.len() as int) =~= goal);
        out
    }

    /// Notes the name of the row that the list highlights; none where it highlights no row.
    pub fn publish_selection(&mut self, highlight: Option<usize>)
        ensures
            *final(self) == (LeafHandles { selected: final(self).selected, ..*old(self) }),
            final(self).selected == match highlight {
                Some(i) => if i < old(self).rows@.len() {
                    Some(old(self).rows@[i as int].1)
                } else {
                    None
                },
                None => None,
            },
    {
        self.selected = match highlight {
            Some(i) => if i < self.rows.len() {
                Some(self.rows[i].1.clone())
            } else {
                None
            },
            None => None,
        };
    }
}

/// A reverted pane holds no unsaved edits, as long as the entry's values survive being shown as
/// lines.
pub proof fn reverted_pane_is_clean(old: FormPane, new: FormPane)
    requires
        new == (FormPane { bindings: new.bindings, ..old }),
        new.bindings@.len() == old.bindings@.len(),
        forall|i: int|
            0 <= i < old.bindings@.len() ==> (#[trigger] new.bindings@[i]).label
                == old.bindings@[i].label && new.bindings@[i].text@ == joined(
                values_or_none(old.baseline@, old.bindings@[i].label@),
                "\n"@,
            ),
        forall|i: int|
            0 <= i < old.bindings@.len() ==> plain_lines(
                values_or_none(old.baseline@, (#[trigger] old.bindings@[i]).label@),
            ),
    ensures
        !pane_dirty(new),
{
    assert forall|i: int| 0 <= i < new.bindings@.len() implies !line_changed(
        #[trigger] lines_model(new.bindings@)[i],
        new.baseline@,
    ) by {
        let b = new.bindings@[i];
        assert(b.label == old.bindings@[i].label);
        let base = values_or_none(old.baseline@, old.bindings@[i].label@);
        lines_are_read_back(base);
        same_values_is_symmetric(base, base);
    }
}

/// A pane whose texts only reorder the values that the entry has holds no unsaved edits.
pub proof fn reordered_lines_are_clean(p: FormPane)
    requires
        forall|i: int|
            0 <= i < p.bindings@.len() ==> entered((#[trigger] p.bindings@[i]).text@).to_multiset()
                == values_or_none(p.baseline@, p.bindings@[i].label@).to_multiset(),
    ensures
        !pane_dirty(p),
{
    assert forall|i: int| 0 <= i < p.bindings@.len() implies !line_changed(
        #[trigger] lines_model(p.bindings@)[i],
        p.baseline@,
    ) by {
        let b = p.bindings@[i];
        reordering_keeps_values(entered(b.text@), values_or_none(p.baseline@, b.label@));
    }
}

/// The height of the dialog that shows or edits an entry: its rows and five more, within bounds.
pub open spec fn dialog_height(rows: int, least: int) -> int {
    lesser(greater(rows + 5, least), 24)
}

/// The number of rows that fit above the buttons.
pub open spec fn rows_fitting(rows: int, height: int) -> int {
    lesser(rows, height - 4)
}

/// The height of the dialog that shows or edits an entry, and how many of its rows fit.
pub fn dialog_rows(rows: usize, least: i16) -> (r: (i16, i16))
    requires
        rows <= i16::MAX - 5,
        5 <= least <= 24,
    ensures
        r.0 == dialog_height(rows as int, least as int),
        r.1 == rows_fitting(rows as int, r.0 as int),
{
    let wanted: i16 = rows as i16 + 5;
    let mut height: i16 = if wanted > least {
        wanted
    } else {
        least
    };
    if height > 24 {
        height = 24;
    }
    let fit: i16 = if (rows as i16) < height - 4 {
        rows as i16
    } else {
        height - 4
    };
    (height, fit)
}

/// What the preview of pending changes shows.
pub fn preview_body(ldif: &str) -> (r: String)
    ensures
        r@ == if trimmed(ldif@).len() == 0 {
            "(no changes)"@
        } else {
            ldif@
        },
{
    if is_blank(ldif) {
        "(no changes)".to_owned()
    } else {
        ldif.to_owned()
    }
}

/// A command of the framed front end, as far as its loop tells them apart.
#[derive(Debug, Clone, Copy, PartialEq, Eq, Structural)]
pub enum LoopCommand {
    Quit,
    FormSave,
    FormCancel,
    /// The highlighted branch changed.
    Activate,
    /// Any other command: the menu's.
    Menu,
}

/// What a command leads to.
#[derive(Debug)]
pub enum LoopStep {
    Quit,
    FormSave,
    FormCancel,
    /// Show the branch, whose children are loaded or not.
    Activate { dn: String, loaded: bool },
    /// Do what the menu says.
    Menu,
    Nothing,
}

/// What a command leads to, with the selected branch: a change of the highlight shows the selected
/// branch, if there is one.
pub fn loop_step(cmd: LoopCommand, selected: Option<(String, bool)>) -> (r: LoopStep)
    ensures
        r == match cmd {
            LoopCommand::Quit => LoopStep::Quit,
            LoopCommand::FormSave => LoopStep::FormSave,
            LoopCommand::FormCancel => LoopStep::FormCancel,
            LoopCommand::Activate => match selected {
                Some(p) => LoopStep::Activate { dn: p.0, loaded: p.1 },
                None => LoopStep::Nothing,
            },
            LoopCommand::Menu => LoopStep::Menu,
        },
{
    match cmd {
        LoopCommand::Quit => LoopStep::Quit,
        LoopCommand::FormSave => LoopStep::FormSave,
        LoopCommand::FormCancel => LoopStep::FormCancel,
        LoopCommand::Activate => match selected {
            Some((dn, loaded)) => LoopStep::Activate { dn, loaded },
            None => LoopStep::Nothing,
        },
        LoopCommand::Menu => LoopStep::Menu,
    }
}

/// A field's text stands for its lines, each trimmed, without the blank ones, in order.
pub proof fn every_line_is_a_value(text: Seq<char>)
    ensures
        entered(text) == pieces(text, '\n').map_values(|line: Seq<char>| trimmed(line)).filter(
            |v: Seq<char>| v.len() > 0,
        ),
{
    every_kept_line(pieces(text, '\n'));
}

proof fn every_kept_line(lines: Seq<Seq<char>>)
    ensures
        kept_lines(lines) == lines.map_values(|line: Seq<char>| trimmed(line)).filter(
            |v: Seq<char>| v.len() > 0,
        ),
    decreases lines.len(),
{
    reveal(Seq::filter);
    let all = lines.map_values(|line: Seq<char>| trimmed(line));
    if lines.len() > 0 {
        every_kept_line(lines.drop_last());
        assert(all.drop_last() =~= lines.drop_last().map_values(
            |line: Seq<char>| trimmed(line),
        ));
    } else {
        assert(all.filter(|v: Seq<char>| v.len() > 0) =~= Seq::<Seq<char>>::empty());
    }
}

/// What is read of an entry are the values of its fields by label, the last one where a label comes
/// twice, and nothing else.
pub proof fn read_values_are_the_fields(fields: Seq<FormField>, label: Seq<char>, i: int)
    ensures
        crate::attrs::ascending(field_values(fields)),
        0 <= i < fields.len() && fields[i].label@ == label && (forall|j: int|
            i < j < fields.len() ==> (#[trigger] fields[j]).label@ != label) ==> values_of(
            field_values(fields),
            label,
        ) == Some(texts(fields[i].values@)),
        (forall|j: int| 0 <= j < fields.len() ==> (#[trigger] fields[j]).label@ != label) ==> values_of(
            field_values(fields),
            label,
        ) is None,
    decreases fields.len(),
{
    if fields.len() > 0 {
        let head = fields.drop_last();
        let last = fields.last();
        assert(last == fields[fields.len() - 1]);
        assert(forall|j: int| 0 <= j < head.len() ==> head[j] == fields[j]);
        read_values_are_the_fields(head, label, i);
        crate::attrs::put_ascending(field_values(head), last.label@, texts(last.values@));
        crate::attrs::get_after_put(field_values(head), last.label@, texts(last.values@), label);
    }
}

/// The entry as edited holds, for each text, the values that it stands for, and everything else as it
/// was read.
pub proof fn edited_values_are_the_texts(l: Seq<Attr>, lines: Seq<Line>, label: Seq<char>, i: int)
    requires
        crate::attrs::ascending(l),
    ensures
        crate::attrs::ascending(overlaid(l, lines)),
        0 <= i < lines.len() && lines[i].0 == label && (forall|j: int|
            i < j < lines.len() ==> (#[trigger] lines[j]).0 != label) ==> values_of(
            overlaid(l, lines),
            label,
        ) == Some(entered(lines[i].1)),
        (forall|j: int| 0 <= j < lines.len() ==> (#[trigger] lines[j]).0 != label) ==> values_of(
            overlaid(l, lines),
            label,
        ) == values_of(l, label),
    decreases lines.len(),
{
    if lines.len() > 0 {
        let head = lines.drop_last();
        let last = lines.last();
        assert(last == lines[lines.len() - 1]);
        assert(forall|j: int| 0 <= j < head.len() ==> head[j] == lines[j]);
        edited_values_are_the_texts(l, head, label, i);
        crate::attrs::put_ascending(overlaid(l, head), last.0, entered(last.1));
        crate::attrs::get_after_put(overlaid(l, head), last.0, entered(last.1), label);
    }
}

/// Where the form can be written, each field of plain text but the memberships has a text: its values,
/// one to a line. A form that cannot be written has none.
pub proof fn editable_fields_have_a_text(fields: Seq<FormField>)
    ensures
        editable_lines(fields, true) == Seq::<Line>::empty(),
        editable_lines(fields, false) == fields.filter(
            |f: FormField| !same_ci(f.label@, "memberOf"@) && f.widget is ReadOnlyText,
        ).map_values(|f: FormField| (f.label@, joined(texts(f.values@), "\n"@))),
    decreases fields.len(),
{
    reveal(Seq::filter);
    let can = |f: FormField| !same_ci(f.label@, "memberOf"@) && f.widget is ReadOnlyText;
    let line = |f: FormField| (f.label@, joined(texts(f.values@), "\n"@));
    if fields.len() > 0 {
        editable_fields_have_a_text(fields.drop_last());
        let before = fields.drop_last().filter(can);
        if can(fields.last()) {
            assert(before.push(fields.last()).map_values(line) =~= before.map_values(line).push(
                line(fields.last()),
            ));
        }
    } else {
        assert(fields.filter(can).map_values(line) =~= Seq::<Line>::empty());
    }
}

/// The row of a field that can be edited points at that field's text.
pub proof fn rows_point_at_their_text(r: FormRow, fields: Seq<FormField>, i: int)
    requires
        0 <= i < fields.len(),
        fields.len() <= i16::MAX,
        row_shows(r, fields[i], false, editable_lines(fields.take(i), false).len() as int),
    ensures
        r.binding is Some <==> !same_ci(fields[i].label@, "memberOf"@)
            && fields[i].widget is ReadOnlyText,
        r.binding matches Some(k) ==> k < editable_lines(fields, false).len() && editable_lines(
            fields,
            false,
        )[k as int] == (fields[i].label@, joined(texts(fields[i].values@), "\n"@)),
        fields[i].is_must ==> r.label@ == fields[i].label@ + " *"@,
        !fields[i].is_must ==> r.label@ == fields[i].label@,
{
    let lines = editable_lines(fields.take(i), false);
    texts_are_counted(fields.take(i));
    if editable(fields[i]) {
        assert(fields.take(i + 1).drop_last() =~= fields.take(i));
        assert(fields.take(i + 1).last() == fields[i]);
        assert(editable_lines(fields.take(i + 1), false) == lines.push(
            (fields[i].label@, joined(texts(fields[i].values@), "\n"@)),
        ));
        lines_only_grow(fields, i + 1);
        let upto = editable_lines(fields.take(i + 1), false);
        assert(r.binding == Some(lines.len() as usize));
        assert(editable_lines(fields, false)[lines.len() as int] == upto[lines.len() as int]);
    }
}

proof fn texts_are_counted(fields: Seq<FormField>)
    ensures
        editable_lines(fields, false).len() <= fields.len(),
    decreases fields.len(),
{
    if fields.len() > 0 {
        texts_are_counted(fields.drop_last());
    }
}

proof fn lines_only_grow(fields: Seq<FormField>, n: int)
    requires
        0 <= n <= fields.len(),
    ensures
        editable_lines(fields.take(n), false).is_prefix_of(editable_lines(fields, false)),
    decreases fields.len() - n,
{
    if n == fields.len() {
        assert(fields.take(n) =~= fields);
    } else {
        lines_only_grow(fields, n + 1);
        assert(fields.take(n + 1).drop_last() =~= fields.take(n));
        let a = editable_lines(fields.take(n), false);
        let b = editable_lines(fields.take(n + 1), false);
        assert(a.is_prefix_of(b));
        assert(a =~= editable_lines(fields, false).take(a.len() as int));
    }
}

/// A field that cannot be edited shows its checkbox, the size of its data, or its values.
pub proof fn fields_show_their_values(values: Seq<Seq<char>>, n: usize)
    ensures
        shown(WidgetSpec::DisabledCheckBox(true), values) == "[x]"@,
        shown(WidgetSpec::DisabledCheckBox(false), values) == "[ ]"@,
        shown(WidgetSpec::BinaryNote(n), values) == "<"@ + decimal_of(n as nat) + " bytes>"@,
        shown(WidgetSpec::ReadOnlyText, values) == joined(values, ", "@),
{
}

/// A pane whose text for a field gains or loses a value, or comes to another number of values, holds
/// unsaved edits; one whose texts stand for what the entry has holds none.
pub proof fn edits_of_the_pane_are_seen(p: FormPane, i: int, v: Seq<char>)
    ensures
        0 <= i < p.bindings@.len() && ({
            let now = entered(p.bindings@[i].text@);
            let was = values_or_none(p.baseline@, p.bindings@[i].label@);
            now.contains(v) != was.contains(v) || now.len() != was.len()
        }) ==> pane_dirty(p),
        (forall|k: int|
            0 <= k < p.bindings@.len() ==> entered((#[trigger] p.bindings@[k]).text@)
                == values_or_none(p.baseline@, p.bindings@[k].label@)) ==> !pane_dirty(p),
{
    let lines = lines_model(p.bindings@);
    if 0 <= i < p.bindings@.len() {
        let now = entered(p.bindings@[i].text@);
        let was = values_or_none(p.baseline@, p.bindings@[i].label@);
        assert(lines[i] == (p.bindings@[i].label@, p.bindings@[i].text@));
        if now.contains(v) && !was.contains(v) {
            let k = choose|k: int| 0 <= k < now.len() && now[k] == v;
            assert(!same_values(now, was));
        } else if was.contains(v) && !now.contains(v) {
            let k = choose|k: int| 0 <= k < was.len() && was[k] == v;
            assert(!same_values(now, was));
        }
    }
    if forall|k: int|
        0 <= k < p.bindings@.len() ==> entered((#[trigger] p.bindings@[k]).text@) == values_or_none(
            p.baseline@,
            p.bindings@[k].label@,
        ) {
        assert forall|k: int| 0 <= k < p.bindings@.len() implies !line_changed(
            #[trigger] lines[k],
            p.baseline@,
        ) by {
            assert(lines[k] == (p.bindings@[k].label@, p.bindings@[k].text@));
        }
    }
}

/// The dialog is as high as its rows need, but neither below the least height nor above the greatest;
/// up to there every row fits.
pub proof fn dialogs_show_their_rows(rows: int, least: int)
    requires
        0 <= rows,
        5 <= least <= 24,
    ensures
        least <= dialog_height(rows, least) <= 24,
        rows <= 19 ==> rows_fitting(rows, dialog_height(rows, least)) == rows,
        rows > 19 ==> dialog_height(rows, least) == 24,
        rows >= 20 ==> rows_fitting(rows, dialog_height(rows, least)) == 20,
        dialog_height(rows, least) > least && rows <= 19 ==> dialog_height(rows, least) == rows + 5,
{
}

/// A form that can be written needs a row for each field and three for its buttons.
pub proof fn forms_have_room_for_their_buttons(fields: int)
    ensures
        content_height(fields, true) == fields,
        content_height(fields, false) == content_height(fields, true) + 3,
{
}

} // verus!
