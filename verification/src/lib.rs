//! Decision logic of an LDAP directory editor's terminal front end.
pub mod app;
pub mod attrs;
pub mod changes;
pub mod config_picker;
pub mod dialog;
pub mod directory;
pub mod dn;
pub mod dual_list;
pub mod edit_form;
pub mod form_pane;
pub mod form_state;
pub mod help_ctx;
pub mod keys;
pub mod layout;
pub mod lookup;
pub mod membership;
pub mod multi_picker;
pub mod names;
pub mod order;
pub mod passwords;
pub mod profiles;
pub mod session;
pub mod structure;
pub mod text;
pub mod text_input;
pub mod tree;
pub mod value_editor;
pub mod widgets;
pub mod writes;
