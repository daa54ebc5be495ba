use std::rc::Rc;

use edaptor::attrs::AttrMap;
use edaptor::edit_form::{
    build_edit_form, order_fields, tag_widget_fields, value_set_eq, EditField, EditForm, FormField,
    FormMode, FormModel,
};
use edaptor::text_input::TextInput;
use edaptor::value_editor::ValueEditor;
use edaptor::widgets::{
    CandidateScope, Cardinality, ChoiceOption, ChoiceWidget, FieldKind, PasswordWidget,
    PickerBinding, ResolvedWidget, StoreKey, WidgetKind, WidgetSpec,
};

fn strings(v: &[&str]) -> Vec<String> {
    v.iter().map(|s| s.to_string()).collect()
}

fn text(v: &str) -> TextInput {
    TextInput::with_value(v.to_string())
}

fn scope(base: &str, class: &str) -> CandidateScope {
    CandidateScope {
        base: base.into(),
        object_classes: vec![class.into()],
        search_attrs: strings(&["cn"]),
        label_attrs: None,
    }
}

fn attribute(label: &str, must: bool, values: &[&str], single: bool, secret: bool) -> FormField {
    FormField {
        label: label.into(),
        is_must: must,
        values: strings(values),
        kind: FieldKind::Text,
        widget: WidgetSpec::ReadOnlyText,
        single_valued: single,
        secret,
        ordered: false,
    }
}

fn entry() -> FormModel {
    FormModel {
        title: "cn=Alice,dc=example,dc=org".into(),
        fields: vec![
            attribute("cn", true, &["Alice"], true, false),
            attribute("mail", false, &["a@x.org", "a@y.org"], false, false),
            attribute("sn", true, &["Adams"], true, false),
            attribute("userPassword", false, &["secret"], false, true),
        ],
    }
}

fn writable_form() -> EditForm {
    build_edit_form(&entry(), false)
}

fn field_index(form: &EditForm, name: &str) -> usize {
    form.fields.iter().position(|f| f.label == name).unwrap()
}

fn plain(label: &str, editable: bool) -> EditField {
    EditField {
        label: label.into(),
        must: false,
        editable,
        multi: true,
        secret: false,
        ordered: false,
        values: vec![],
        kind: FieldKind::DistinguishedName,
        widget: WidgetSpec::ReadOnlyText,
        editor: TextInput::new(),
        widget_binding: None,
        orphaned: false,
    }
}

fn single(label: &str, must: bool, secret: bool, values: &[&str]) -> EditField {
    EditField {
        label: label.into(),
        must,
        editable: true,
        multi: false,
        secret,
        ordered: false,
        values: strings(values),
        kind: FieldKind::Text,
        widget: WidgetSpec::ReadOnlyText,
        editor: text(values.first().copied().unwrap_or("")),
        widget_binding: None,
        orphaned: false,
    }
}

fn form_of(fields: Vec<EditField>) -> EditForm {
    EditForm {
        dn: "uid=alice,ou=people,dc=example,dc=org".into(),
        fields,
        baseline: AttrMap::new(),
        mode: FormMode::Edit,
        pending_password: None,
    }
}

fn labels(form: &EditForm) -> Vec<&str> {
    form.fields.iter().map(|f| f.label.as_str()).collect()
}

#[test]
fn fanout_labels_come_from_picker_binding() {
    let mk = |fanout: Option<String>| {
        let mut f = plain("memberOf", true);
        f.widget_binding = Some(WidgetKind::Picker(Rc::new(PickerBinding {
            attr: "memberOf".into(),
            scope: CandidateScope {
                base: "".into(),
                object_classes: vec![],
                search_attrs: vec![],
                label_attrs: None,
            },
            store: StoreKey::Dn,
            select: None,
            fanout_attr: fanout,
        })));
        form_of(vec![f])
    };
    let with_fanout = mk(Some("member".into()));
    assert_eq!(with_fanout.fanout_labels(), vec!["memberOf".to_string()]);
    assert!(!with_fanout.to_edit_entry().attrs.contains_key("memberOf"));
    let no_fanout = mk(None);
    assert!(no_fanout.fanout_labels().is_empty());
    assert!(no_fanout.to_edit_entry().attrs.contains_key("memberOf"));
}

#[test]
fn editform_mode_defaults_to_edit_and_reports_not_new() {
    let model = FormModel {
        title: "cn=x,dc=example,dc=org".into(),
        fields: vec![],
    };
    let form = build_edit_form(&model, false);
    assert!(matches!(form.mode, FormMode::Edit));
    assert!(!form.is_new());
}

#[test]
fn flags_are_set_from_schema_and_rules() {
    let form = writable_form();
    let field = |name: &str| form.fields.iter().find(|f| f.label == name).unwrap();
    assert!(!field("cn").multi, "cn is single-valued");
    assert!(field("mail").multi, "mail is multi-valued");
    assert!(field("userPassword").secret, "userPassword is secret");
    assert!(!field("cn").secret);
    assert!(field("cn").editable, "cn edits in writable mode");
}

#[test]
fn secret_fields_are_not_editable() {
    let form = writable_form();
    let field = |name: &str| form.fields.iter().find(|f| f.label == name).unwrap();
    assert!(field("userPassword").secret);
    assert!(
        !field("userPassword").editable,
        "secret/hash fields must be read-only inline"
    );
    assert!(field("cn").editable, "non-secret fields stay editable");
}

#[test]
fn memberships_binary_data_and_checkboxes_are_not_editable() {
    let mut model = entry();
    model.fields = vec![
        attribute("MEMBEROF", false, &[], false, false),
        attribute("jpegPhoto", false, &[], false, false),
        attribute("active", false, &[], true, false),
        attribute("cn", true, &["x"], true, false),
    ];
    model.fields[1].widget = WidgetSpec::BinaryNote(3);
    model.fields[2].widget = WidgetSpec::DisabledCheckBox(true);
    let form = build_edit_form(&model, false);
    let editable: Vec<bool> = form.fields.iter().map(|f| f.editable).collect();
    assert_eq!(editable, vec![false, false, false, true]);
}

#[test]
fn value_editor_open_and_commit_drops_empties() {
    let form = writable_form();
    let mail_idx = field_index(&form, "mail");
    let mut ve = ValueEditor::open_plain(mail_idx, &form.fields[mail_idx]);
    assert_eq!(ve.rows.len(), 2); // a@x.org, a@y.org
    assert_eq!(ve.label, "mail");
    ve.rows.push(TextInput::new());
    ve.rows.push(text("   "));
    ve.rows.push(text(" c@z.org "));
    let committed = ve.committed_values();
    assert_eq!(committed, vec!["a@x.org", "a@y.org", "c@z.org"]);
}

#[test]
fn read_only_mode_disables_all_editing() {
    let form = build_edit_form(&entry(), true);
    assert!(form.fields.iter().all(|f| !f.editable));
    assert_eq!(form.dn, "cn=Alice,dc=example,dc=org");
}

#[test]
fn fresh_form_is_not_dirty() {
    let form = writable_form();
    assert!(!form.is_dirty());
}

#[test]
fn a_value_with_whitespace_around_it_reads_as_an_edit() {
    let model = FormModel {
        title: "cn=x".into(),
        fields: vec![attribute("cn", true, &[" x "], true, false)],
    };
    assert!(build_edit_form(&model, false).is_dirty());
}

#[test]
fn editing_a_single_field_makes_it_dirty() {
    let mut form = writable_form();
    let i = field_index(&form, "cn");
    form.fields[i].editor = text("changed");

    assert!(form.is_dirty());
    assert_eq!(
        form.to_edit_entry().attrs.get("cn"),
        Some(&vec!["changed".to_string()])
    );
}

#[test]
fn reorder_of_multi_value_is_not_dirty() {
    let mut form = writable_form();
    let i = field_index(&form, "mail");
    form.fields[i].values.reverse();

    assert!(!form.is_dirty(), "a pure reorder is set-wise equal");
}

#[test]
fn adding_a_multi_value_is_dirty() {
    let mut form = writable_form();
    let i = field_index(&form, "mail");
    form.fields[i].values.push("a@z.org".to_string());

    assert!(form.is_dirty());
}

#[test]
fn value_sets_compare_both_ways() {
    assert!(value_set_eq(&strings(&["a", "b"]), &strings(&["b", "a"])));
    assert!(!value_set_eq(&strings(&["a", "a"]), &strings(&["a", "b"])));
    assert!(!value_set_eq(&strings(&["a", "b"]), &strings(&["a", "a"])));
    assert!(!value_set_eq(&strings(&["a"]), &strings(&["A"])));
    assert!(value_set_eq(&[].to_vec(), &[].to_vec()));
}

#[test]
fn emptying_a_single_field_drops_the_value() {
    let mut form = writable_form();
    let i = field_index(&form, "cn");
    form.fields[i].editor = text("");

    assert!(form.fields[i].current_values().is_empty());
    assert_eq!(form.to_edit_entry().attrs.get("cn"), Some(&vec![]));
}

#[test]
fn reverting_an_edit_clears_dirty() {
    let mut form = writable_form();
    let i = field_index(&form, "cn");
    form.fields[i].editor = text("changed");
    assert!(form.is_dirty());

    form.fields[i].editor = text("Alice");
    assert!(!form.is_dirty());
}

#[test]
fn order_fields_buckets_mandatory_then_populated_special_then_rest() {
    let mut form = form_of(vec![
        single("sn", true, false, &[]),           // bucket 0
        single("cn", true, false, &[]),           // bucket 0
        single("mail", false, false, &["x"]),     // bucket 1 (populated)
        single("userPassword", false, true, &[]), // bucket 1 (secret)
        single("displayName", false, false, &[]), // bucket 2
        single("audio", false, false, &[]),       // bucket 2
    ]);
    order_fields(&mut form);
    assert_eq!(
        labels(&form),
        vec!["cn", "sn", "mail", "userPassword", "audio", "displayName"]
    );
}

#[test]
fn order_fields_populated_optional_sorts_ahead_of_empty_optional() {
    let mut form = form_of(vec![
        single("aaa", false, false, &[]),
        single("zoo", false, false, &["v"]),
    ]);
    order_fields(&mut form);
    assert_eq!(labels(&form), vec!["zoo", "aaa"]);
}

#[test]
fn ordering_ignores_case_and_keeps_the_order_of_equal_labels() {
    let mut form = form_of(vec![
        single("Beta", true, false, &["first"]),
        single("alpha", true, false, &[]),
        single("beta", true, false, &["second"]),
    ]);
    order_fields(&mut form);
    assert_eq!(labels(&form), vec!["alpha", "Beta", "beta"]);
    order_fields(&mut form);
    assert_eq!(labels(&form), vec!["alpha", "Beta", "beta"]);
}

#[test]
fn value_editor_open_seeds_from_field_values_with_store_value_key() {
    let field = single("gidNumber", false, false, &["1001"]);
    let binding = Rc::new(PickerBinding {
        attr: "gidNumber".into(),
        scope: scope("ou=groups,dc=x", "posixGroup"),
        store: StoreKey::Attr("gidNumber".into()),
        select: Some(Cardinality::Single),
        fanout_attr: None,
    });
    let ve = ValueEditor::open(0, &field, &binding);
    let p = ve.picker.as_ref().expect("picker present");
    assert_eq!(p.selected.len(), 1);
    assert_eq!(p.selected[0].store_value, "1001");
    assert!(!p.key_ci, "scalar store → exact key compare");
    assert_eq!(ve.binding.as_ref().unwrap().attr, "gidNumber");
}

fn bash_choice() -> WidgetKind {
    WidgetKind::Choice(Rc::new(ChoiceWidget {
        select: Cardinality::Single,
        options: vec![ChoiceOption {
            value: "/bin/bash".into(),
            label: "Bash".into(),
        }],
    }))
}

#[test]
fn tag_widget_fields_attaches_matching_choice() {
    let mut form = writable_form();
    form.fields
        .push(single("loginShell", false, false, &["/bin/bash"]));
    let widgets = vec![ResolvedWidget {
        owner_object_classes: vec!["demoPerson".into()],
        attr: "loginShell".into(),
        kind: bash_choice(),
    }];
    tag_widget_fields(&mut form, &widgets, &strings(&["demoPerson"]), false);
    let f = form
        .fields
        .iter()
        .find(|f| f.label == "loginShell")
        .unwrap();
    assert!(matches!(f.widget_binding, Some(WidgetKind::Choice(_))));
    assert!(f.editable, "a choice field stays editable");
}

#[test]
fn widgets_of_other_object_classes_are_not_attached() {
    let mut form = form_of(vec![single("loginShell", false, false, &["/bin/bash"])]);
    let widgets = vec![ResolvedWidget {
        owner_object_classes: vec!["demoPerson".into()],
        attr: "LOGINSHELL".into(),
        kind: bash_choice(),
    }];
    tag_widget_fields(&mut form, &widgets, &strings(&["organization"]), false);
    assert!(form.fields[0].widget_binding.is_none());
    tag_widget_fields(&mut form, &widgets, &strings(&["DEMOPERSON"]), true);
    assert!(
        form.fields[0].widget_binding.is_none(),
        "no choices where nothing may be written"
    );
    tag_widget_fields(&mut form, &widgets, &strings(&["DEMOPERSON"]), false);
    assert!(form.fields[0].widget_binding.is_some());
}

#[test]
fn tag_widget_fields_attaches_picker_and_forces_fanout_editable() {
    let mk_form = || {
        let mut form = writable_form();
        form.fields.push(plain("memberOf", false)); // server-maintained, read-only
        form.fields.push(plain("member", true)); // editable plain picker
        form.fields.push(plain("secretary", false)); // non-editable plain picker
        form
    };
    let picker = |attr: &str, fanout: Option<String>| ResolvedWidget {
        owner_object_classes: vec!["demoPerson".into()],
        attr: attr.into(),
        kind: WidgetKind::Picker(Rc::new(PickerBinding {
            attr: attr.into(),
            scope: scope("ou=groups,dc=x", "groupOfNames"),
            store: StoreKey::Dn,
            select: None,
            fanout_attr: fanout,
        })),
    };
    let widgets = || {
        vec![
            picker("memberOf", Some("member".into())),
            picker("member", None),
            picker("secretary", None),
        ]
    };
    let find = |form: &EditForm, label: &str| {
        form.fields
            .iter()
            .find(|f| f.label == label)
            .map(|f| {
                (
                    f.editable,
                    matches!(f.widget_binding, Some(WidgetKind::Picker(_))),
                )
            })
            .unwrap()
    };

    let mut form = mk_form();
    tag_widget_fields(&mut form, &widgets(), &strings(&["demoPerson"]), false);
    let (mof_editable, mof_tagged) = find(&form, "memberOf");
    assert!(mof_tagged, "fan-out picker is tagged");
    assert!(
        mof_editable,
        "a fan-out picker forces editability despite operational read-only"
    );
    let (mem_editable, mem_tagged) = find(&form, "member");
    assert!(mem_tagged, "an editable plain picker gets a widget binding");
    assert!(mem_editable, "an editable plain picker stays editable");
    let (sec_editable, sec_tagged) = find(&form, "secretary");
    assert!(
        !sec_tagged,
        "a non-editable plain picker must not be tagged (would be unreachable)"
    );
    assert!(!sec_editable, "a non-editable plain picker stays read-only");

    let mut form2 = mk_form();
    tag_widget_fields(&mut form2, &widgets(), &strings(&["demoPerson"]), true);
    let (mof2_editable, mof2_tagged) = find(&form2, "memberOf");
    assert!(mof2_tagged);
    assert!(
        !mof2_editable,
        "global read-only must not force a fan-out field editable"
    );
}

#[test]
fn pending_password_makes_form_dirty() {
    let mut form = writable_form();
    assert!(!form.is_dirty());
    form.pending_password = Some("hunter2".into());
    assert!(form.is_dirty(), "a staged password change is dirty");
}

#[test]
fn orphaned_field_current_values_returns_empty() {
    let mut form = writable_form();
    let i = field_index(&form, "cn");
    form.fields[i].orphaned = true;
    form.fields[i].editor = text("Alice");
    assert!(
        form.fields[i].current_values().is_empty(),
        "orphaned field must return [] from current_values()"
    );
}

#[test]
fn orphaned_labels_lists_orphaned_fields() {
    let mut form = writable_form();
    let i = field_index(&form, "cn");
    form.fields[i].orphaned = true;
    assert!(form.orphaned_labels().contains(&"cn".to_string()));
    form.fields[i].orphaned = false;
    assert!(form.orphaned_labels().is_empty());
}

#[test]
fn orphaned_field_makes_form_dirty() {
    let mut form = writable_form();
    let i = field_index(&form, "cn");
    form.fields[i].orphaned = true;
    assert!(
        form.is_dirty(),
        "orphaned field with non-empty baseline is dirty"
    );
}

#[test]
fn open_objectclass_seeds_picker_from_field_values() {
    let field = EditField {
        label: "objectClass".into(),
        must: true,
        editable: true,
        multi: true,
        secret: false,
        ordered: false,
        values: strings(&["top", "person"]),
        kind: FieldKind::Text,
        widget: WidgetSpec::ReadOnlyText,
        editor: TextInput::new(),
        widget_binding: None,
        orphaned: false,
    };
    let ve = ValueEditor::open_objectclass(0, &field);
    assert!(ve.objectclass, "objectclass flag set");
    assert!(ve.binding.is_none(), "no LDAP binding for OC picker");
    assert!(ve.choice.is_none(), "not a choice editor");
    let picker = ve.picker.as_ref().expect("picker present");
    assert!(picker.results.is_empty(), "results start empty");
    assert_eq!(
        picker.selected.len(),
        2,
        "two currently-selected OCs pre-ticked"
    );
    let selected_names: Vec<&str> = picker
        .selected
        .iter()
        .map(|c| c.store_value.as_str())
        .collect();
    assert!(selected_names.contains(&"top"));
    assert!(selected_names.contains(&"person"));
    assert!(picker.key_ci);
}

#[test]
fn tag_widget_fields_tags_primary_and_derived_for_password() {
    let mut form = writable_form();
    form.fields.push(EditField {
        label: "sambaNTPassword".into(),
        must: false,
        editable: false,
        multi: false,
        secret: true,
        ordered: false,
        values: strings(&["DEAD"]),
        kind: FieldKind::Text,
        widget: WidgetSpec::ReadOnlyText,
        editor: TextInput::new(),
        widget_binding: None,
        orphaned: false,
    });
    let widgets = vec![ResolvedWidget {
        owner_object_classes: vec!["demoPerson".into()],
        attr: "userPassword".into(),
        kind: WidgetKind::Password(Rc::new(PasswordWidget {
            primary: "userPassword".into(),
            derived: strings(&["sambaNTPassword", "sambaPwdLastSet"]),
            samba: true,
        })),
    }];
    tag_widget_fields(&mut form, &widgets, &strings(&["demoPerson"]), false);
    let tagged = |n: &str| {
        matches!(
            form.fields
                .iter()
                .find(|f| f.label == n)
                .unwrap()
                .widget_binding,
            Some(WidgetKind::Password(_))
        )
    };
    assert!(
        tagged("userPassword"),
        "primary field must be tagged Password"
    );
    assert!(
        tagged("sambaNTPassword"),
        "derived field must be tagged Password"
    );
    assert!(!tagged("cn"));
}

#[test]
fn attribute_sets_keep_their_names_in_order() {
    let mut attrs = AttrMap::new();
    for name in ["sn", "cn", "Zed", "mail", "cn"] {
        attrs.insert(name.to_string(), strings(&[name]));
    }
    let names: Vec<&str> = (0..attrs.len()).map(|i| attrs.entry(i).name.as_str()).collect();
    assert_eq!(names, vec!["Zed", "cn", "mail", "sn"]);
    assert_eq!(attrs.find_ci("MAIL"), Some(2));
    assert_eq!(attrs.get("MAIL"), None);
    attrs.insert("cn".into(), strings(&["again"]));
    assert_eq!(attrs.get("cn"), Some(&strings(&["again"])));
    attrs.remove("cn");
    attrs.remove_ci("SN");
    assert_eq!(attrs.len(), 2);
    assert!(!attrs.contains_key("cn") && !attrs.contains_key("sn"));
    assert_eq!(attrs.get_or_none("cn"), Vec::<String>::new());
}
