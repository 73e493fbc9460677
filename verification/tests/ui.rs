use rustpass::buffer::SecureBuffer;
use rustpass::crypto::{derive_index_key, derive_key, encrypt_str, site_hmac, DerivedKey};
use rustpass::entry::EncryptedEntry;
use rustpass::error::VaultError;
use rustpass::ui::{LoginStep, ModalState, RustPassApp, Screen, SearchRequest, SubmitStep};
use rustpass::vault::{seal_entry_with, SealedEntry, VaultMeta, VaultRecords};

const SECOND: u128 = 1_000_000_000;

fn key_of(password: &str) -> DerivedKey {
    let mut buffer = SecureBuffer::default();
    buffer.assign(password);
    derive_key(&buffer.to_secret_vec(), b"0123456789abcdef").unwrap()
}

fn row(id: i64, sealed: SealedEntry) -> EncryptedEntry {
    EncryptedEntry {
        id,
        site_enc: sealed.site_enc,
        site_idx: sealed.site_idx,
        username_enc: sealed.username_enc,
        password_enc: sealed.password_enc,
        notes_enc: sealed.notes_enc,
        created_at: String::new(),
        updated_at: String::new(),
    }
}

fn row_of(id: i64, fields: [&str; 4], key: &DerivedKey) -> EncryptedEntry {
    let idx_key = derive_index_key(key);
    let nonces = [[1u8; 12], [2u8; 12], [3u8; 12], [4u8; 12]];
    row(
        id,
        seal_entry_with(fields[0], fields[1], fields[2], fields[3], key, &idx_key, &nonces)
            .unwrap(),
    )
}

fn meta_of(records: VaultRecords) -> VaultMeta {
    VaultMeta {
        salt: Some(records.salt),
        verify: Some(records.verify),
        idx_key: Some(records.idx_key),
    }
}

fn meta_for(key: &DerivedKey) -> VaultMeta {
    let idx_key = encrypt_str(&hex::encode(derive_index_key(key)), key).unwrap();
    VaultMeta { salt: None, verify: None, idx_key: Some(idx_key) }
}

fn unlocked() -> RustPassApp {
    let mut app = RustPassApp::new(true);
    app.derived_key = Some(key_of("master"));
    app.screen = Screen::Vault;
    app
}

fn sample_rows() -> Vec<EncryptedEntry> {
    let key = key_of("master");
    vec![
        row_of(11, ["GitHub.com", "octo", "first", "note"], &key),
        row_of(22, ["gitlab.com", "fox", "second", ""], &key),
    ]
}

#[test]
fn window_starts_locked() {
    let app = RustPassApp::new(false);
    assert!(app.screen == Screen::Login);
    assert!(app.is_first_run);
    assert!(app.derived_key.is_none());
    assert!(app.entries.is_empty());
    assert!(app.view_fields.is_none());
    assert!(matches!(app.modal, ModalState::Closed));
    assert_eq!(app.status_message, "");
    assert_eq!(app.status_set_at, None);
    assert_eq!(app.clipboard_timer.set_at, None);
    assert_eq!(app.login_title(), "Create Master Password");
    let app = RustPassApp::new(true);
    assert!(!app.is_first_run);
    assert_eq!(app.login_title(), "Enter Master Password");
}

#[test]
fn status_goes_after_more_than_six_seconds() {
    let mut app = RustPassApp::new(true);
    app.set_status("hello", 10 * SECOND);
    assert!(!app.tick_clipboard(16 * SECOND));
    assert_eq!(app.status_message, "hello");
    assert!(!app.tick_clipboard(16 * SECOND + 1));
    assert_eq!(app.status_message, "");
    assert_eq!(app.status_set_at, None);
}

#[test]
fn copy_arms_the_clipboard_timer() {
    let mut app = RustPassApp::new(true);
    app.copy_finished(true, 0);
    assert_eq!(
        app.status_message,
        "✓ Copied (30s). ⚠ Disable clipboard history in Klipper/clipboard managers."
    );
    assert!(!app.tick_clipboard(30 * SECOND - 1));
    assert!(app.tick_clipboard(30 * SECOND));
    assert!(!app.tick_clipboard(60 * SECOND));
}

#[test]
fn copy_without_clipboard_arms_nothing() {
    let mut app = RustPassApp::new(true);
    app.copy_finished(false, 0);
    assert_eq!(app.status_message, "⚠ Clipboard unavailable");
    assert_eq!(app.clipboard_timer.set_at, None);
}

#[test]
fn failed_listing_keeps_the_rows() {
    let mut app = unlocked();
    app.load_entries(Ok(sample_rows()), 0);
    assert_eq!(app.entries.len(), 2);
    app.load_entries(Err("disk on fire".to_string()), 3);
    assert_eq!(app.entries.len(), 2);
    assert_eq!(app.status_message, "Load error: disk on fire");
    assert_eq!(app.status_set_at, Some(3));
}

#[test]
fn locking_leaves_nothing_decrypted() {
    let mut app = unlocked();
    app.load_entries(Ok(sample_rows()), 0);
    app.open_view_modal(0, 0).unwrap();
    app.master_pw_buf.assign("typed");
    app.login_error = "old".to_string();
    app.lock_vault();
    assert!(app.screen == Screen::Login);
    assert!(app.derived_key.is_none());
    assert!(app.entries.is_empty());
    assert!(app.view_fields.is_none());
    assert!(app.master_pw_buf.is_empty());
    assert_eq!(app.login_error, "");
}

#[test]
fn passwords_that_differ_make_no_vault() {
    let mut app = RustPassApp::new(false);
    app.master_pw_buf.assign("long enough");
    app.confirm_pw_buf.assign("long enougH");
    assert!(app.attempt_create_vault().is_none());
    assert_eq!(app.login_error, "❌ Passwords do not match");
    assert!(app.screen == Screen::Login);
}

#[test]
fn short_password_makes_no_vault() {
    let mut app = RustPassApp::new(false);
    app.master_pw_buf.assign("7 chars");
    app.confirm_pw_buf.assign("7 chars");
    assert!(app.attempt_create_vault().is_none());
    assert_eq!(app.login_error, "❌ Minimum 8 characters required");
    app.master_pw_buf.assign("éééé");
    app.confirm_pw_buf.assign("éééé");
    assert!(app.attempt_create_vault().is_some());
}

#[test]
fn created_vault_opens_and_can_be_unlocked_again() {
    let mut app = RustPassApp::new(false);
    app.master_pw_buf.assign("correct horse");
    app.confirm_pw_buf.assign("correct horse");
    let (key, records) = app.attempt_create_vault().unwrap();
    let bytes = *key.as_bytes();
    app.vault_created(key, Ok(()));
    assert!(app.screen == Screen::Vault);
    assert!(!app.is_first_run);
    assert!(app.master_pw_buf.is_empty());
    assert!(app.confirm_pw_buf.is_empty());
    assert_eq!(app.derived_key.as_ref().unwrap().as_bytes(), &bytes);

    let meta = meta_of(records);
    app.lock_vault();
    app.master_pw_buf.assign("wrong horse");
    assert!(matches!(app.attempt_login(&meta), LoginStep::Refused));
    assert_eq!(app.login_error, "❌ Wrong master password");
    assert!(app.screen == Screen::Login);
    assert_eq!(app.master_pw_buf.as_str(), "wrong horse");
    app.master_pw_buf.assign("correct horse");
    assert!(matches!(app.attempt_login(&meta), LoginStep::LoadEntries));
    assert!(app.screen == Screen::Vault);
    assert!(app.master_pw_buf.is_empty());
    assert_eq!(app.derived_key.as_ref().unwrap().as_bytes(), &bytes);
}

#[test]
fn vault_that_was_not_stored_stays_locked() {
    let mut app = RustPassApp::new(false);
    app.vault_created(key_of("any"), Err("disk full".to_string()));
    assert_eq!(app.login_error, "❌ disk full");
    assert!(app.derived_key.is_none());
    assert!(app.screen == Screen::Login);
    assert!(app.is_first_run);
}

#[test]
fn login_without_a_vault_is_refused() {
    let mut app = RustPassApp::new(false);
    let meta = VaultMeta { salt: None, verify: None, idx_key: None };
    assert!(matches!(app.attempt_login(&meta), LoginStep::Refused));
    assert_eq!(app.login_error, "❌ No salt — vault not initialised");
}

#[test]
fn login_on_damaged_rows_changes_nothing() {
    let mut app = RustPassApp::new(true);
    let meta = VaultMeta {
        salt: Some("00".repeat(32)),
        verify: Some("AAAA:AAAA".to_string()),
        idx_key: None,
    };
    let step = app.attempt_login(&meta);
    assert!(matches!(step, LoginStep::Damaged(VaultError::MalformedNonce)));
    assert_eq!(app.login_error, "");
    assert!(app.screen == Screen::Login);
}

#[test]
fn empty_query_lists_everything() {
    let mut app = unlocked();
    let meta = meta_for(&key_of("master"));
    assert!(matches!(app.search_changed(&meta, 0), SearchRequest::ListAll));
}

#[test]
fn query_is_looked_up_by_its_token() {
    let mut app = unlocked();
    let key = key_of("master");
    app.search_query = "GITHUB.com".to_string();
    match app.search_changed(&meta_for(&key), 0) {
        SearchRequest::ByToken(token) => {
            assert_eq!(token, site_hmac(&derive_index_key(&key), "github.com"))
        }
        _ => panic!("no token"),
    }
    let rows = vec![row_of(11, ["GitHub.com", "octo", "first", "note"], &key)];
    assert!(!app.search_by_token(Ok(rows), 0));
    assert_eq!(app.entries.len(), 1);
    assert_eq!(app.entries[0].id, 11);
}

#[test]
fn search_for_a_full_name_shows_that_name_only() {
    let mut app = unlocked();
    app.search_query = "GITHUB.COM".to_string();
    assert!(!app.search_by_token(Ok(sample_rows()), 0));
    assert_eq!(app.entries.len(), 1);
    assert_eq!(app.entries[0].id, 11);

    let key = key_of("master");
    let stored = format!("{}b", "a".repeat(32));
    let rows = vec![row_of(33, [&stored, "", "p", ""], &key)];
    app.search_query = format!("{}c", "a".repeat(32));
    assert!(app.search_by_token(Ok(rows.clone()), 0));
    assert_eq!(app.search_by_site(Ok(rows), 0), Ok(()));
    assert!(app.entries.is_empty());
}

#[test]
fn row_with_the_token_is_shown_though_it_does_not_decrypt() {
    let mut app = unlocked();
    app.search_query = "github.com".to_string();
    let mut rows = sample_rows();
    rows[0].site_enc = String::new();
    assert!(!app.search_by_token(Ok(rows), 0));
    assert_eq!(app.entries.len(), 1);
    assert_eq!(app.row_labels().unwrap()[0].label, "⚠ decrypt error");
}

#[test]
fn query_without_exact_match_is_filtered_by_site() {
    let mut app = unlocked();
    app.search_query = "LAB".to_string();
    assert!(app.search_by_token(Ok(vec![]), 0));
    assert_eq!(app.search_by_site(Ok(sample_rows()), 0), Ok(()));
    assert_eq!(app.entries.len(), 1);
    assert_eq!(app.entries[0].id, 22);
}

#[test]
fn search_reports_what_went_wrong() {
    let mut app = unlocked();
    app.search_query = "x".to_string();
    let none = VaultMeta { salt: None, verify: None, idx_key: None };
    assert!(matches!(app.search_changed(&none, 1), SearchRequest::Nothing));
    assert_eq!(app.status_message, "Search error: No index key stored");
    assert!(!app.search_by_token(Err("gone".to_string()), 2));
    assert_eq!(app.status_message, "Search error: gone");
    assert_eq!(app.search_by_site(Err("gone too".to_string()), 3), Ok(()));
    assert_eq!(app.status_message, "Search error: gone too");
    let mut broken = sample_rows();
    broken[1].site_enc = ":".to_string();
    assert_eq!(app.search_by_site(Ok(broken), 3), Err(VaultError::MalformedNonce));
    let damaged = VaultMeta { salt: None, verify: None, idx_key: Some(":".to_string()) };
    let request = app.search_changed(&damaged, 4);
    assert!(matches!(request, SearchRequest::Damaged(VaultError::MalformedNonce)));
    let mut locked = RustPassApp::new(true);
    locked.search_query = "x".to_string();
    assert!(matches!(locked.search_changed(&none, 0), SearchRequest::Nothing));
    assert!(!locked.search_by_token(Ok(sample_rows()), 0));
    assert!(locked.entries.is_empty());
    assert_eq!(locked.status_message, "");
}

#[test]
fn clearing_the_search_empties_the_query() {
    let mut app = unlocked();
    app.search_query = "x".to_string();
    app.clear_search();
    assert_eq!(app.search_query, "");
}

#[test]
fn rows_show_their_site_only() {
    let mut app = unlocked();
    let mut rows = sample_rows();
    rows[1].site_enc = "no blob".to_string();
    app.load_entries(Ok(rows), 0);
    let labels = app.row_labels().unwrap();
    assert_eq!(labels.len(), 2);
    assert_eq!((labels[0].index, labels[0].id), (0, 11));
    assert_eq!(labels[0].label, "GitHub.com");
    assert_eq!((labels[1].index, labels[1].id), (1, 22));
    assert_eq!(labels[1].label, "⚠ decrypt error");
    app.derived_key = None;
    assert_eq!(app.row_labels().unwrap()[0].label, "⚠ decrypt error");
}

#[test]
fn row_with_a_malformed_nonce_is_reported() {
    let mut app = unlocked();
    let mut rows = sample_rows();
    rows[1].site_enc = ":".to_string();
    app.load_entries(Ok(rows), 0);
    assert_eq!(app.row_labels().err(), Some(VaultError::MalformedNonce));
    assert_eq!(app.site_label(":"), Err(VaultError::MalformedNonce));
}

#[test]
fn password_for_copy_is_that_of_the_first_match() {
    let mut app = unlocked();
    let mut rows = sample_rows();
    rows.push(row_of(11, ["third", "", "third", ""], &key_of("master")));
    app.load_entries(Ok(rows), 0);
    assert_eq!(app.password_for_copy(11), Ok(Some("first".to_string())));
    assert_eq!(app.password_for_copy(22), Ok(Some("second".to_string())));
    assert_eq!(app.password_for_copy(33), Ok(None));
    app.entries[0].password_enc = "x".to_string();
    assert_eq!(app.password_for_copy(11), Ok(None));
    app.entries[0].password_enc = ":".to_string();
    assert_eq!(app.password_for_copy(11), Err(VaultError::MalformedNonce));
    app.derived_key = None;
    assert_eq!(app.password_for_copy(22), Ok(None));
}

#[test]
fn deletion_is_asked_for_and_carried_out() {
    let mut app = unlocked();
    app.load_entries(Ok(sample_rows()), 0);
    assert_eq!(app.delete_target(), None);
    assert_eq!(app.delete_prompt(), Ok(None));
    app.ask_delete(9);
    assert!(matches!(app.modal, ModalState::Closed));
    app.ask_delete(1);
    assert_eq!(app.delete_target(), Some(22));
    assert_eq!(app.delete_prompt(), Ok(Some("Delete entry for 'gitlab.com'?".to_string())));
    let mut rows = sample_rows();
    rows.pop();
    app.delete_finished(Ok(rows), 5);
    assert!(matches!(app.modal, ModalState::Closed));
    assert_eq!(app.entries.len(), 1);
    assert_eq!(app.status_message, "🗑 Entry deleted");
    assert_eq!(app.status_set_at, Some(5));
}

#[test]
fn deletion_reports_over_a_failed_listing() {
    let mut app = unlocked();
    app.load_entries(Ok(sample_rows()), 0);
    app.ask_delete(0);
    app.delete_finished(Err("gone".to_string()), 5);
    assert_eq!(app.entries.len(), 2);
    assert_eq!(app.status_message, "🗑 Entry deleted");
}

#[test]
fn nothing_is_deleted_while_locked() {
    let mut app = unlocked();
    app.load_entries(Ok(sample_rows()), 0);
    app.ask_delete(0);
    app.lock_vault();
    assert_eq!(app.delete_target(), None);
}

#[test]
fn dialogue_keeps_the_site_encrypted() {
    let mut app = unlocked();
    app.load_entries(Ok(sample_rows()), 0);
    app.ask_delete(0);
    match &app.modal {
        ModalState::ConfirmDelete(id, site_enc) => {
            assert_eq!(*id, 11);
            assert_eq!(*site_enc, app.entries[0].site_enc);
        }
        _ => panic!("no dialogue"),
    }
    app.close_modal();
    assert!(matches!(app.modal, ModalState::Closed));
}

#[test]
fn edit_form_holds_the_entry() {
    let mut app = unlocked();
    app.load_entries(Ok(sample_rows()), 0);
    app.form_error = "old".to_string();
    app.form_show_pass = true;
    assert_eq!(app.open_edit_modal(0), Ok(()));
    assert!(matches!(app.modal, ModalState::EditEntry(11)));
    assert_eq!(app.form_site, "GitHub.com");
    assert_eq!(app.form_user, "octo");
    assert_eq!(app.form_pass.as_str(), "first");
    assert_eq!(app.form_notes, "note");
    assert!(!app.form_show_pass);
    assert_eq!(app.form_error, "");
}

#[test]
fn edit_form_leaves_unreadable_fields_blank() {
    let mut app = unlocked();
    let mut rows = sample_rows();
    rows[0].username_enc = "x".to_string();
    rows[1].notes_enc = ":".to_string();
    app.load_entries(Ok(rows), 0);
    assert_eq!(app.open_edit_modal(0), Ok(()));
    assert_eq!(app.form_site, "GitHub.com");
    assert_eq!(app.form_user, "");
    assert_eq!(app.open_edit_modal(1), Err(VaultError::MalformedNonce));
    assert!(matches!(app.modal, ModalState::EditEntry(11)));
    assert_eq!(app.open_edit_modal(2), Ok(()));
    assert!(matches!(app.modal, ModalState::EditEntry(11)));
}

#[test]
fn viewed_entry_is_masked_and_wiped_on_close() {
    let mut app = unlocked();
    app.load_entries(Ok(sample_rows()), 0);
    app.view_show_pass = true;
    assert!(app.view_display().is_none());
    assert_eq!(app.open_view_modal(0, 0), Ok(()));
    assert!(matches!(app.modal, ModalState::ViewEntry(0)));
    let shown = app.view_display().unwrap();
    assert_eq!(shown.site, "GitHub.com");
    assert_eq!(shown.username, "octo");
    assert_eq!(shown.password, "●●●●●");
    assert_eq!(shown.notes, "note");
    assert!(shown.has_notes);
    app.view_show_pass = true;
    assert_eq!(app.view_display().unwrap().password, "first");
    app.close_view();
    assert!(app.view_fields.is_none());
    assert!(matches!(app.modal, ModalState::Closed));
}

#[test]
fn mask_has_at_most_twenty_dots() {
    let key = key_of("master");
    let mut app = unlocked();
    let long = "x".repeat(21);
    let rows = vec![
        row_of(1, ["a", "", &long, ""], &key),
        row_of(2, ["b", "", "éé", ""], &key),
        row_of(3, ["c", "", "", ""], &key),
    ];
    app.load_entries(Ok(rows), 0);
    app.open_view_modal(0, 0).unwrap();
    assert_eq!(app.view_display().unwrap().password, "●".repeat(20));
    app.open_view_modal(1, 0).unwrap();
    assert_eq!(app.view_display().unwrap().password, "●".repeat(4));
    app.open_view_modal(2, 0).unwrap();
    assert_eq!(app.view_display().unwrap().password, "");
    assert!(!app.view_display().unwrap().has_notes);
}

#[test]
fn entry_that_does_not_decrypt_is_not_viewed() {
    let mut app = unlocked();
    let mut rows = sample_rows();
    rows[0].notes_enc = rows[0].notes_enc.replace(':', ":AAAA");
    rows[1].notes_enc = ":".to_string();
    app.load_entries(Ok(rows), 0);
    assert_eq!(app.open_view_modal(0, 7), Ok(()));
    assert!(app.view_fields.is_none());
    assert_eq!(
        app.status_message,
        "Decrypt error: Decryption failed — wrong master password or corrupted data"
    );
    assert_eq!(app.open_view_modal(1, 8), Err(VaultError::MalformedNonce));
    assert_eq!(app.open_view_modal(5, 9), Ok(()));
    assert!(matches!(app.modal, ModalState::Closed));
    assert_eq!(app.status_set_at, Some(7));
}

#[test]
fn another_dialogue_ends_the_view() {
    let mut app = unlocked();
    app.load_entries(Ok(sample_rows()), 0);
    app.open_view_modal(0, 0).unwrap();
    assert_eq!(app.edit_viewed(), Ok(()));
    assert!(app.view_fields.is_none());
    assert!(matches!(app.modal, ModalState::EditEntry(11)));
    assert_eq!(app.edit_viewed(), Ok(()));
    app.close_view();
    assert!(matches!(app.modal, ModalState::EditEntry(11)));
    app.open_view_modal(0, 0).unwrap();
    app.ask_delete(1);
    assert!(app.view_fields.is_none());
    app.open_view_modal(1, 0).unwrap();
    app.entries.pop();
    assert_eq!(app.edit_viewed(), Ok(()));
    assert!(matches!(app.modal, ModalState::Closed));
    assert!(app.view_fields.is_none());
    app.open_view_modal(0, 0).unwrap();
    app.open_add_modal();
    assert!(app.view_fields.is_none());
    assert!(matches!(app.modal, ModalState::AddEntry));
}

#[test]
fn incomplete_form_is_rejected() {
    let mut app = unlocked();
    let meta = meta_for(&key_of("master"));
    app.open_add_modal();
    app.form_site = " \t\u{3000}\n".to_string();
    assert!(matches!(app.submit_entry_form(false, &meta), SubmitStep::Rejected));
    assert_eq!(app.form_error, "Site name is required.");
    app.form_site = "site".to_string();
    assert!(matches!(app.submit_entry_form(false, &meta), SubmitStep::Rejected));
    assert_eq!(app.form_error, "Password cannot be empty.");
    assert!(matches!(app.modal, ModalState::AddEntry));
}

#[test]
fn submitted_form_reads_back_trimmed() {
    let mut app = unlocked();
    let meta = meta_for(&key_of("master"));
    app.open_add_modal();
    app.form_site = "  GitHub.com\u{a0}".to_string();
    app.form_user = "\tocto cat\n".to_string();
    app.form_pass.assign(" pass word ");
    app.form_notes = "\u{2003}two\nlines\u{85}".to_string();
    let sealed = match app.submit_entry_form(false, &meta) {
        SubmitStep::Insert(sealed) => sealed,
        _ => panic!("nothing to insert"),
    };
    app.form_saved(false, Ok(vec![row(1, sealed)]), 4);
    assert_eq!(app.status_message, "✓ Entry added");
    assert_eq!(app.form_site, "");
    assert!(app.form_pass.is_empty());
    assert!(matches!(app.modal, ModalState::Closed));
    app.open_view_modal(0, 5).unwrap();
    let fields = app.view_fields.as_ref().unwrap();
    assert_eq!(fields.site, "GitHub.com");
    assert_eq!(fields.username, "octo cat");
    assert_eq!(fields.password, " pass word ");
    assert_eq!(fields.notes, "two\nlines");
}

#[test]
fn unchanged_edit_keeps_the_entry() {
    let mut app = unlocked();
    let key = key_of("master");
    let meta = meta_for(&key);
    app.load_entries(Ok(sample_rows()), 0);
    let token = app.entries[0].site_idx.clone();
    app.open_edit_modal(0).unwrap();
    let (id, sealed) = match app.submit_entry_form(true, &meta) {
        SubmitStep::Update(id, sealed) => (id, sealed),
        _ => panic!("nothing to update"),
    };
    assert_eq!(id, 11);
    assert_eq!(sealed.site_idx, token);
    let after = row(id, sealed);
    assert_eq!(after.decrypt_site(&key).unwrap(), "GitHub.com");
    assert_eq!(after.decrypt_username(&key).unwrap(), "octo");
    assert_eq!(after.decrypt_password(&key).unwrap(), "first");
    assert_eq!(after.decrypt_notes(&key).unwrap(), "note");
    app.form_saved(true, Err("gone".to_string()), 4);
    assert_eq!(app.status_message, "✓ Entry updated");
    assert_eq!(app.entries.len(), 2);
}

#[test]
fn form_that_cannot_be_stored_says_so() {
    let mut app = unlocked();
    app.open_add_modal();
    app.form_site = "site".to_string();
    app.form_pass.assign("pw");
    let none = VaultMeta { salt: None, verify: None, idx_key: None };
    assert!(matches!(app.submit_entry_form(false, &none), SubmitStep::Rejected));
    assert_eq!(app.form_error, "Error: No index key stored");
    let key = key_of("master");
    let short = VaultMeta {
        salt: None,
        verify: None,
        idx_key: Some(encrypt_str("abcd", &key).unwrap()),
    };
    let step = app.submit_entry_form(false, &short);
    assert!(matches!(step, SubmitStep::Damaged(VaultError::ShortIndexKey)));
    assert!(matches!(app.submit_entry_form(true, &short), SubmitStep::NothingToStore));
    app.form_not_saved("table is locked");
    assert_eq!(app.form_error, "Error: table is locked");
    assert_eq!(app.form_site, "site");
    app.derived_key = None;
    assert!(matches!(app.submit_entry_form(false, &none), SubmitStep::Rejected));
    assert_eq!(app.form_error, "Error: table is locked");
    app.cancel_form();
    assert_eq!(app.form_site, "");
    assert_eq!(app.form_error, "");
    assert!(matches!(app.modal, ModalState::Closed));
}
