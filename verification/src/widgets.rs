//! The configured widgets of form fields, and the candidates that a picker offers.
use std::rc::Rc;
use vstd::prelude::*;

verus! {

/// What a picker stores of a chosen entry: its name, or the value of one attribute.
#[derive(Debug)]
pub enum StoreKey {
    Dn,
    Attr(String),
}

/// How many candidates can be chosen.
#[derive(Debug, Clone, Copy, PartialEq, Eq, Structural)]
pub enum Cardinality {
    Single,
    Multi,
}

/// Where a picker looks for candidates: under `base`, among entries of `object_classes`, matching
/// the search term in `search_attrs`. `label_attrs` are the attributes that the label template
/// names, if there is a template.
#[derive(Debug)]
pub struct CandidateScope {
    pub base: String,
    pub object_classes: Vec<String>,
    pub search_attrs: Vec<String>,
    pub label_attrs: Option<Vec<String>>,
}

/// A picker bound to an attribute. With `fanout_attr` the choice is written to that attribute of
/// the chosen entries instead of the edited one.
#[derive(Debug)]
pub struct PickerBinding {
    pub attr: String,
    pub scope: CandidateScope,
    pub store: StoreKey,
    pub select: Option<Cardinality>,
    pub fanout_attr: Option<String>,
}

/// One option of a choice.
#[derive(Debug)]
pub struct ChoiceOption {
    pub value: String,
    pub label: String,
}

/// A choice among fixed options.
#[derive(Debug)]
pub struct ChoiceWidget {
    pub select: Cardinality,
    pub options: Vec<ChoiceOption>,
}

/// A password: the attribute that holds it, and the attributes derived from it.
#[derive(Debug)]
pub struct PasswordWidget {
    pub primary: String,
    pub derived: Vec<String>,
    pub samba: bool,
}

/// A lookup bound to a numeric attribute: where its candidates are searched, the attribute whose
/// value is stored, and those that the label template names.
#[derive(Debug)]
pub struct LookupBinding {
    pub attr: String,
    pub base: String,
    pub object_class: String,
    pub store: String,
    pub template_attrs: Vec<String>,
}

/// The widget of a field.
#[derive(Debug)]
pub enum WidgetKind {
    Choice(Rc<ChoiceWidget>),
    Password(Rc<PasswordWidget>),
    Picker(Rc<PickerBinding>),
    Lookup(Rc<LookupBinding>),
    ObjectClassPicker,
    SambaSid,
    NextNumber { min: u64, max: u64 },
    /// The field shows its values and takes no edits.
    Readonly,
    /// The order of the values counts.
    XOrdered,
}

impl WidgetKind {
    /// A copy of the widget.
    pub fn copy(&self) -> (r: WidgetKind)
        ensures
            r == *self,
    {
        match self {
            WidgetKind::Choice(w) => WidgetKind::Choice(w.clone()),
            WidgetKind::Password(w) => WidgetKind::Password(w.clone()),
            WidgetKind::Picker(w) => WidgetKind::Picker(w.clone()),
            WidgetKind::Lookup(w) => WidgetKind::Lookup(w.clone()),
            WidgetKind::ObjectClassPicker => WidgetKind::ObjectClassPicker,
            WidgetKind::SambaSid => WidgetKind::SambaSid,
            WidgetKind::NextNumber { min, max } => WidgetKind::NextNumber { min: *min, max: *max },
            WidgetKind::Readonly => WidgetKind::Readonly,
            WidgetKind::XOrdered => WidgetKind::XOrdered,
        }
    }
}

/// A configured widget: its attribute, what it is, and the object classes whose entries have it.
#[derive(Debug)]
pub struct ResolvedWidget {
    pub attr: String,
    pub kind: WidgetKind,
    pub owner_object_classes: Vec<String>,
}

/// The syntax of an attribute.
#[derive(Debug, Clone, Copy, PartialEq, Eq, Structural)]
pub enum FieldKind {
    Text,
    Integer,
    Boolean,
    DistinguishedName,
    Binary,
}

/// How a field that cannot be edited shows: a checkbox, a note on the size of binary data, or text.
#[derive(Debug, Clone, Copy, PartialEq, Eq, Structural)]
pub enum WidgetSpec {
    DisabledCheckBox(bool),
    BinaryNote(usize),
    ReadOnlyText,
}

/// An entry that can be picked: its name, what it shows, and what is stored of it.
#[derive(Debug)]
pub struct Candidate {
    pub dn: String,
    pub label: String,
    pub store_value: String,
}

impl Candidate {
    /// A copy of the candidate.
    pub fn copy(&self) -> (r: Candidate)
        ensures
            r == *self,
    {
        Candidate {
            dn: self.dn.clone(),
            label: self.label.clone(),
            store_value: self.store_value.clone(),
        }
    }
}

/// What the candidates of a list store.
pub open spec fn store_values(v: Seq<Candidate>) -> Seq<Seq<char>> {
    v.map_values(|c: Candidate| c.store_value@)
}

/// An open candidate list: what is chosen, what the last search found, the highlighted row, and
/// whether that search had a term, was cut off, and compares what is stored up to ASCII case.
#[derive(Debug)]
pub struct PickerState {
    pub selected: Vec<Candidate>,
    pub results: Vec<Candidate>,
    pub cursor: usize,
    pub search_active: bool,
    pub truncated: bool,
    pub key_ci: bool,
}

/// What the candidates of a list store is told one by one, in order.
pub proof fn stored_values_are_told_in_order(v: Seq<Candidate>)
    ensures
        store_values(v).len() == v.len(),
        forall|i: int| 0 <= i < v.len() ==> #[trigger] store_values(v)[i] == v[i].store_value@,
{
}

} // verus!
