//! What the window shows and how it answers the user. Reading and writing the store, the clipboard
//! and the clock are left to the caller: a method tells it what to do next or takes what came of
//! it. Times are nanoseconds on one clock.
use crate::buffer::SecureBuffer;
use crate::clipboard::{elapsed, time_since, ClipboardTimer};
use crate::crypto::{nonce_ok, open_text, opened_text, sealable, site_token, DerivedKey};
use crate::entry::{
    fields_of, filter_by_site, is_other_site, site_matches, DecryptedFields, EncryptedEntry,
};
use crate::error::{KdfFault, VaultError};
use crate::secret::SecretBytes;
use crate::text::{joined, law_trimming_settles, trim, trimmed};
use crate::vault::{
    entry_holds, entry_sealable, initialise_vault, is_new_vault, loaded_index_key, row_holds,
    row_text, seal_entry, seal_fault, search_step, search_token, unlocked, SealedEntry, SearchStep,
    VaultMeta, VaultRecords,
};
use vstd::prelude::*;
use vstd::utf8::*;

verus! {

/// How long a status message stays: 6 seconds.
pub const STATUS_LIFETIME: u128 = 6_000_000_000;

/// The shortest master password, in bytes.
pub const MIN_PASSWORD_LEN: usize = 8;

/// What the window shows.
#[derive(Clone, Copy, Debug, PartialEq, Eq, Structural)]
pub enum Screen {
    Login,
    Vault,
}

/// Which dialogue is open over the list of entries.
pub enum ModalState {
    Closed,
    AddEntry,
    /// The id of the entry being edited.
    EditEntry(i64),
    /// The id of the entry to delete and its encrypted site, for the label.
    ConfirmDelete(i64, String),
    /// The place in the list of the entry being viewed.
    ViewEntry(usize),
}

/// The state of the window. Entries are held encrypted.
pub struct RustPassApp {
    pub screen: Screen,
    pub master_pw_buf: SecureBuffer,
    pub confirm_pw_buf: SecureBuffer,
    pub is_first_run: bool,
    pub login_error: String,
    pub derived_key: Option<DerivedKey>,
    pub entries: Vec<EncryptedEntry>,
    pub search_query: String,
    pub modal: ModalState,
    pub form_site: String,
    pub form_user: String,
    pub form_pass: SecureBuffer,
    pub form_notes: String,
    pub form_show_pass: bool,
    pub form_error: String,
    pub view_fields: Option<DecryptedFields>,
    pub view_show_pass: bool,
    pub clipboard_timer: ClipboardTimer,
    pub status_message: String,
    pub status_set_at: Option<u128>,
}

impl RustPassApp {
    /// What holds of the window at all times: the vault is shown exactly while its key is there,
    /// and an entry is held in the clear only while it is viewed, which takes the key.
    pub open spec fn wf(self) -> bool {
        &&& self.screen == Screen::Vault <==> self.derived_key is Some
        &&& self.view_fields is Some ==> self.modal is ViewEntry && self.derived_key is Some
    }

    /// The bytes of the vault's key, while it is unlocked.
    pub open spec fn key(self) -> Option<Seq<u8>> {
        match self.derived_key {
            Some(key) => Some(key@),
            None => None,
        }
    }

    /// Whether the state is that of before with a status message shown since `now`.
    pub open spec fn shows_status(
        self,
        before: RustPassApp,
        message: Seq<char>,
        now: u128,
    ) -> bool {
        &&& self.status_message@ == message
        &&& self == (RustPassApp {
            status_message: self.status_message,
            status_set_at: Some(now),
            ..before
        })
    }

    /// Whether the state is that of before with an error under the password field.
    pub open spec fn shows_login_error(self, before: RustPassApp, message: Seq<char>) -> bool {
        &&& self.login_error@ == message
        &&& self == (RustPassApp { login_error: self.login_error, ..before })
    }

    /// Whether the state is that of before with an error under the entry form.
    pub open spec fn shows_form_error(self, before: RustPassApp, message: Seq<char>) -> bool {
        &&& self.form_error@ == message
        &&& self == (RustPassApp { form_error: self.form_error, ..before })
    }

    /// Whether the form is blank.
    pub open spec fn form_blank(self) -> bool {
        &&& self.form_site@.len() == 0
        &&& self.form_user@.len() == 0
        &&& self.form_pass@.len() == 0
        &&& self.form_notes@.len() == 0
        &&& !self.form_show_pass
        &&& self.form_error@.len() == 0
    }

    /// The state with the form taken from another.
    pub open spec fn with_form_of(self, other: RustPassApp) -> RustPassApp {
        RustPassApp {
            form_site: other.form_site,
            form_user: other.form_user,
            form_pass: other.form_pass,
            form_notes: other.form_notes,
            form_show_pass: other.form_show_pass,
            form_error: other.form_error,
            ..self
        }
    }

    /// The locked window at the start; `initialised` says whether a vault is stored.
    pub fn new(initialised: bool) -> (app: Self)
        ensures
            app.wf(),
            app.screen == Screen::Login,
            app.is_first_run == !initialised,
            app.master_pw_buf@.len() == 0,
            app.confirm_pw_buf@.len() == 0,
            app.login_error@.len() == 0,
            app.derived_key is None,
            app.entries@.len() == 0,
            app.search_query@.len() == 0,
            app.modal is Closed,
            app.form_blank(),
            app.view_fields is None,
            !app.view_show_pass,
            app.clipboard_timer == ClipboardTimer::idle(),
            app.status_message@.len() == 0,
            app.status_set_at is None,
    {
        RustPassApp {
            screen: Screen::Login,
            master_pw_buf: SecureBuffer::default(),
            confirm_pw_buf: SecureBuffer::default(),
            is_first_run: !initialised,
            login_error: String::new(),
            derived_key: None,
            entries: Vec::new(),
            search_query: String::new(),
            modal: ModalState::Closed,
            form_site: String::new(),
            form_user: String::new(),
            form_pass: SecureBuffer::default(),
            form_notes: String::new(),
            form_show_pass: false,
            form_error: String::new(),
            view_fields: None,
            view_show_pass: false,
            clipboard_timer: ClipboardTimer::new(),
            status_message: String::new(),
            status_set_at: None,
        }
    }

    /// Shows a status message from `now` on.
    pub fn set_status(&mut self, message: &str, now: u128)
        ensures
            final(self).shows_status(*old(self), message@, now),
            old(self).wf() ==> final(self).wf(),
    {
        self.status_message = message.to_owned();
        self.status_set_at = Some(now);
    }

    /// Goes on after an attempt to copy; `available` says whether there is a clipboard.
    pub fn copy_finished(&mut self, available: bool, now: u128)
        ensures
            available ==> final(self).shows_status(
                RustPassApp {
                    clipboard_timer: ClipboardTimer {
                        set_at: Some(now),
                        ..old(self).clipboard_timer
                    },
                    ..*old(self)
                },
                "✓ Copied (30s). ⚠ Disable clipboard history in Klipper/clipboard managers."@,
                now,
            ),
            !available ==> final(self).shows_status(*old(self), "⚠ Clipboard unavailable"@, now),
            old(self).wf() ==> final(self).wf(),
    {
        if available {
            self.clipboard_timer.arm(now);
            self.set_status(
                "✓ Copied (30s). ⚠ Disable clipboard history in Klipper/clipboard managers.",
                now,
            );
        } else {
            self.set_status("⚠ Clipboard unavailable", now);
        }
    }

    /// Whether the status message has been shown for long enough.
    pub open spec fn status_over(self, now: u128) -> bool {
        self.status_set_at matches Some(at) && elapsed(at, now) > STATUS_LIFETIME
    }

    /// Looks at the clock: tells whether the clipboard is to be emptied now, and takes an old
    /// status message away.
    pub fn tick_clipboard(&mut self, now: u128) -> (clear: bool)
        ensures
            clear == old(self).clipboard_timer.due(now),
            final(self).clipboard_timer == old(self).clipboard_timer.ticked(now),
            old(self).status_over(now) ==> final(self).status_message@.len() == 0
                && final(self).status_set_at is None,
            !old(self).status_over(now) ==> final(self).status_message == old(self).status_message
                && final(self).status_set_at == old(self).status_set_at,
            *final(self) == (RustPassApp {
                clipboard_timer: final(self).clipboard_timer,
                status_message: final(self).status_message,
                status_set_at: final(self).status_set_at,
                ..*old(self)
            }),
            old(self).wf() ==> final(self).wf(),
    {
        let clear: bool = self.clipboard_timer.should_clear(now);
        if clear {
            self.clipboard_timer.reset();
        }
        if let Some(at) = self.status_set_at {
            if time_since(at, now) > STATUS_LIFETIME {
                self.status_message = String::new();
                self.status_set_at = None;
            }
        }
        clear
    }

    /// Takes the rows that the store listed, or says why it listed none.
    pub fn load_entries(&mut self, listed: Result<Vec<EncryptedEntry>, String>, now: u128)
        ensures
            match listed {
                Ok(rows) => *final(self) == (RustPassApp { entries: rows, ..*old(self) }),
                Err(why) => final(self).shows_status(*old(self), "Load error: "@ + why@, now),
            },
            old(self).wf() ==> final(self).wf(),
    {
        match listed {
            Ok(rows) => {
                self.entries = rows;
            },
            Err(why) => {
                self.set_status(joined("Load error: ", why.as_str()).as_str(), now);
            },
        }
    }

    /// Blanks the form, wiping the password.
    pub fn reset_form(&mut self)
        ensures
            final(self).form_blank(),
            *final(self) == old(self).with_form_of(*final(self)),
            old(self).wf() ==> final(self).wf(),
    {
        self.form_site = String::new();
        self.form_user = String::new();
        self.form_pass.clear_secure();
        self.form_notes = String::new();
        self.form_show_pass = false;
        self.form_error = String::new();
    }

    /// Locks the vault: the key, the rows, what was decrypted and the master password are gone.
    pub fn lock_vault(&mut self)
        ensures
            final(self).wf(),
            final(self).derived_key is None,
            final(self).entries@.len() == 0,
            final(self).view_fields is None,
            final(self).master_pw_buf@.len() == 0,
            final(self).screen == Screen::Login,
            final(self).login_error@.len() == 0,
            *final(self) == (RustPassApp {
                derived_key: final(self).derived_key,
                entries: final(self).entries,
                view_fields: final(self).view_fields,
                master_pw_buf: final(self).master_pw_buf,
                screen: final(self).screen,
                login_error: final(self).login_error,
                ..*old(self)
            }),
    {
        self.derived_key = None;
        self.entries = Vec::new();
        self.view_fields = None;
        self.master_pw_buf.clear_secure();
        self.screen = Screen::Login;
        self.login_error = String::new();
    }

    /// Unlocks the vault with the master password that was typed.
    pub fn attempt_login(&mut self, meta: &VaultMeta) -> (step: LoginStep)
        ensures
            match unlocked(
                row_text(meta.salt),
                row_text(meta.verify),
                encode_utf8(old(self).master_pw_buf@),
            ) {
                Ok(key) => {
                    &&& step is LoadEntries
                    &&& final(self).key() == Some(key)
                    &&& final(self).master_pw_buf@.len() == 0
                    &&& *final(self) == (RustPassApp {
                        derived_key: final(self).derived_key,
                        master_pw_buf: final(self).master_pw_buf,
                        screen: Screen::Vault,
                        ..*old(self)
                    })
                },
                Err(e) => if e.fatal() {
                    step == LoginStep::Damaged(e) && *final(self) == *old(self)
                } else {
                    step is Refused && final(self).shows_login_error(
                        *old(self),
                        "❌ "@ + e.text(),
                    )
                },
            },
            old(self).wf() ==> final(self).wf(),
    {
        let secret: SecretBytes = self.master_pw_buf.to_secret_vec();
        match meta.unlock(&secret) {
            Ok(key) => {
                self.derived_key = Some(key);
                self.master_pw_buf.clear_secure();
                self.screen = Screen::Vault;
                LoginStep::LoadEntries
            },
            Err(e) => if e.is_fatal() {
                LoginStep::Damaged(e)
            } else {
                self.login_error = joined("❌ ", e.message());
                LoginStep::Refused
            },
        }
    }

    /// Why the two passwords that were typed make no vault, if they make none.
    pub open spec fn password_complaint(self) -> Option<Seq<char>> {
        if self.master_pw_buf@ != self.confirm_pw_buf@ {
            Some("❌ Passwords do not match"@)
        } else if encode_utf8(self.master_pw_buf@).len() < MIN_PASSWORD_LEN {
            Some("❌ Minimum 8 characters required"@)
        } else if encode_utf8(self.master_pw_buf@).len() > u32::MAX {
            Some("❌ "@ + VaultError::KdfFailed(KdfFault::PasswordTooLong).text())
        } else {
            None
        }
    }

    /// Makes a new vault from the master password that was typed twice. What is returned is to be
    /// stored and then handed to [`RustPassApp::vault_created`].
    pub fn attempt_create_vault(&mut self) -> (vault: Option<(DerivedKey, VaultRecords)>)
        ensures
            match old(self).password_complaint() {
                Some(complaint) => {
                    &&& vault is None
                    &&& final(self).shows_login_error(*old(self), complaint)
                },
                None => {
                    &&& *final(self) == *old(self)
                    &&& vault matches Some((key, records)) && is_new_vault(
                        records,
                        encode_utf8(old(self).master_pw_buf@),
                        key@,
                    )
                },
            },
            vault is Some <==> old(self).master_pw_buf@ == old(self).confirm_pw_buf@ && 8
                <= encode_utf8(old(self).master_pw_buf@).len() <= 0xFFFF_FFFF,
            vault is Some ==> *final(self) == *old(self),
            vault is None ==> *final(self) == (RustPassApp {
                login_error: final(self).login_error,
                ..*old(self)
            }),
            old(self).master_pw_buf@ != old(self).confirm_pw_buf@ ==> final(self).login_error@
                == "❌ Passwords do not match"@,
            old(self).wf() ==> final(self).wf(),
    {
        if !self.master_pw_buf.same_text(&self.confirm_pw_buf) {
            self.login_error = "❌ Passwords do not match".to_owned();
            return None;
        }
        if self.master_pw_buf.len() < MIN_PASSWORD_LEN {
            self.login_error = "❌ Minimum 8 characters required".to_owned();
            return None;
        }
        let secret: SecretBytes = self.master_pw_buf.to_secret_vec();
        match initialise_vault(&secret) {
            Ok(vault) => Some(vault),
            Err(e) => {
                self.login_error = joined("❌ ", e.message());
                None
            },
        }
    }

    /// Goes on after the rows of a new vault were stored, or says why they were not.
    pub fn vault_created(&mut self, key: DerivedKey, stored: Result<(), String>)
        ensures
            match stored {
                Ok(()) => {
                    &&& final(self).master_pw_buf@.len() == 0
                    &&& final(self).confirm_pw_buf@.len() == 0
                    &&& *final(self) == (RustPassApp {
                        derived_key: Some(key),
                        master_pw_buf: final(self).master_pw_buf,
                        confirm_pw_buf: final(self).confirm_pw_buf,
                        screen: Screen::Vault,
                        is_first_run: false,
                        ..*old(self)
                    })
                },
                Err(why) => final(self).shows_login_error(*old(self), "❌ "@ + why@),
            },
            old(self).wf() ==> final(self).wf(),
    {
        match stored {
            Ok(()) => {
                self.derived_key = Some(key);
                self.master_pw_buf.clear_secure();
                self.confirm_pw_buf.clear_secure();
                self.screen = Screen::Vault;
                self.is_first_run = false;
            },
            Err(why) => {
                self.login_error = joined("❌ ", why.as_str());
            },
        }
    }

    /// The heading over the password field.
    pub fn login_title(&self) -> (title: &'static str)
        ensures
            title@ == (if self.is_first_run {
                "Create Master Password"@
            } else {
                "Enter Master Password"@
            }),
    {
        if self.is_first_run {
            "Create Master Password"
        } else {
            "Enter Master Password"
        }
    }

    /// Closes whatever dialogue is open; an entry that was viewed is wiped.
    pub fn close_modal(&mut self)
        ensures
            *final(self) == (RustPassApp {
                modal: ModalState::Closed,
                view_fields: None,
                ..*old(self)
            }),
            old(self).wf() ==> final(self).wf(),
    {
        self.modal = ModalState::Closed;
        self.view_fields = None;
    }

    /// Opens a blank form for a new entry.
    pub fn open_add_modal(&mut self)
        ensures
            final(self).form_blank(),
            *final(self) == (RustPassApp {
                modal: ModalState::AddEntry,
                view_fields: None,
                ..old(self).with_form_of(*final(self))
            }),
            old(self).wf() ==> final(self).wf(),
    {
        self.reset_form();
        self.view_fields = None;
        self.modal = ModalState::AddEntry;
    }

    /// Leaves the form without saving.
    pub fn cancel_form(&mut self)
        ensures
            final(self).form_blank(),
            *final(self) == (RustPassApp {
                modal: ModalState::Closed,
                view_fields: None,
                ..old(self).with_form_of(*final(self))
            }),
            old(self).wf() ==> final(self).wf(),
    {
        self.reset_form();
        self.close_modal();
    }

    /// The query was edited. An empty one lists everything; any other is looked up by its token.
    pub fn search_changed(&mut self, meta: &VaultMeta, now: u128) -> (request: SearchRequest)
        ensures
            old(self).search_query@.len() == 0 ==> request is ListAll && *final(self)
                == *old(self),
            old(self).search_query@.len() > 0 ==> match old(self).key() {
                None => request is Nothing && *final(self) == *old(self),
                Some(key) => match loaded_index_key(row_text(meta.idx_key), key) {
                    Ok(idx_key) => {
                        &&& request matches SearchRequest::ByToken(token) && token@ == site_token(
                            idx_key,
                            old(self).search_query@,
                        )
                        &&& *final(self) == *old(self)
                    },
                    Err(e) => if e.fatal() {
                        request == SearchRequest::Damaged(e) && *final(self) == *old(self)
                    } else {
                        request is Nothing && final(self).shows_status(
                            *old(self),
                            "Search error: "@ + e.text(),
                            now,
                        )
                    },
                },
            },
            old(self).wf() ==> final(self).wf(),
    {
        if self.search_query.as_str().is_empty() {
            return SearchRequest::ListAll;
        }
        let outcome: Result<String, VaultError> = match &self.derived_key {
            None => return SearchRequest::Nothing,
            Some(key) => search_token(meta, self.search_query.as_str(), key),
        };
        match outcome {
            Ok(token) => SearchRequest::ByToken(token),
            Err(e) => if e.is_fatal() {
                SearchRequest::Damaged(e)
            } else {
                self.set_status(joined("Search error: ", e.message()).as_str(), now);
                SearchRequest::Nothing
            },
        }
    }

    /// Takes the rows with the query's token, but for those whose site decrypts to another name, or
    /// says why there are none to take. Where there is no such row, every row is to be listed for
    /// [`RustPassApp::search_by_site`].
    pub fn search_by_token(
        &mut self,
        exact: Result<Vec<EncryptedEntry>, String>,
        now: u128,
    ) -> (list_all: bool)
        ensures
            match (old(self).key(), exact) {
                (None, _) => !list_all && *final(self) == *old(self),
                (_, Err(why)) => !list_all && final(self).shows_status(
                    *old(self),
                    "Search error: "@ + why@,
                    now,
                ),
                (Some(key), Ok(rows)) => {
                    let query = old(self).search_query@;
                    let kept = rows@.filter(
                        |row: EncryptedEntry| !is_other_site(row, query, key),
                    );
                    &&& list_all == (kept.len() == 0)
                    &&& list_all ==> *final(self) == *old(self)
                    &&& !list_all ==> {
                        &&& final(self).entries@ == kept
                        &&& *final(self) == (RustPassApp {
                            entries: final(self).entries,
                            ..*old(self)
                        })
                    }
                },
            },
            old(self).wf() ==> final(self).wf(),
    {
        let step: SearchStep = match (&self.derived_key, exact) {
            (None, _) => return false,
            (Some(key), Ok(rows)) => search_step(rows, self.search_query.as_str(), key),
            (_, Err(why)) => {
                self.set_status(joined("Search error: ", why.as_str()).as_str(), now);
                return false;
            },
        };
        match step {
            SearchStep::Found(found) => {
                self.entries = found;
                false
            },
            SearchStep::ListAll => true,
        }
    }

    /// Takes those of all rows whose site holds the query, or says why there are none to take.
    pub fn search_by_site(
        &mut self,
        all: Result<Vec<EncryptedEntry>, String>,
        now: u128,
    ) -> (done: Result<(), VaultError>)
        ensures
            match (old(self).key(), all) {
                (None, _) => done is Ok && *final(self) == *old(self),
                (_, Err(why)) => done is Ok && final(self).shows_status(
                    *old(self),
                    "Search error: "@ + why@,
                    now,
                ),
                (Some(key), Ok(rows)) => {
                    let query = old(self).search_query@;
                    let readable = forall|i: int|
                        0 <= i < rows@.len() ==> nonce_ok(#[trigger] rows@[i].site_enc@);
                    &&& readable ==> {
                        &&& done is Ok
                        &&& final(self).entries@ == rows@.filter(
                            |row: EncryptedEntry| site_matches(row, query, key),
                        )
                        &&& *final(self) == (RustPassApp {
                            entries: final(self).entries,
                            ..*old(self)
                        })
                    }
                    &&& !readable ==> {
                        &&& done == Err::<(), VaultError>(VaultError::MalformedNonce)
                        &&& *final(self) == *old(self)
                    }
                },
            },
            old(self).wf() ==> final(self).wf(),
    {
        let outcome: Result<Vec<EncryptedEntry>, VaultError> = match (&self.derived_key, all) {
            (None, _) => return Ok(()),
            (Some(key), Ok(rows)) => filter_by_site(rows, self.search_query.as_str(), key),
            (_, Err(why)) => {
                self.set_status(joined("Search error: ", why.as_str()).as_str(), now);
                return Ok(());
            },
        };
        match outcome {
            Ok(found) => {
                self.entries = found;
                Ok(())
            },
            Err(e) => Err(e),
        }
    }

    /// Empties the query; every row is to be listed again.
    pub fn clear_search(&mut self)
        ensures
            final(self).search_query@.len() == 0,
            *final(self) == (RustPassApp { search_query: final(self).search_query, ..*old(self) }),
            old(self).wf() ==> final(self).wf(),
    {
        self.search_query = String::new();
    }

    /// The site behind an encrypted form as the window names it.
    pub fn site_label(&self, site_enc: &str) -> (label: Result<String, VaultError>)
        ensures
            match label {
                Ok(l) => {
                    &&& l@ == label_text(self.key(), site_enc@)
                    &&& self.key() is Some ==> nonce_ok(site_enc@)
                },
                Err(e) => {
                    &&& e == VaultError::MalformedNonce
                    &&& self.key() is Some
                    &&& !nonce_ok(site_enc@)
                },
            },
    {
        match &self.derived_key {
            None => Ok("⚠ decrypt error".to_owned()),
            Some(key) => match open_text(site_enc, key) {
                Ok(site) => Ok(site),
                Err(VaultError::MalformedNonce) => Err(VaultError::MalformedNonce),
                Err(_) => Ok("⚠ decrypt error".to_owned()),
            },
        }
    }

    /// The rows of the list, with nothing but the site decrypted.
    pub fn row_labels(&self) -> (rows: Result<Vec<RowLabel>, VaultError>)
        ensures
            match rows {
                Ok(r) => {
                    &&& r@.len() == self.entries@.len()
                    &&& forall|i: int|
                        0 <= i < r@.len() ==> {
                            &&& (#[trigger] r@[i]).index == i
                            &&& r@[i].id == self.entries@[i].id
                            &&& r@[i].label@ == label_text(
                                self.key(),
                                self.entries@[i].site_enc@,
                            )
                            &&& self.key() is Some ==> nonce_ok(self.entries@[i].site_enc@)
                        }
                },
                Err(e) => {
                    &&& e == VaultError::MalformedNonce
                    &&& self.key() is Some
                    &&& exists|i: int|
                        0 <= i < self.entries@.len() && !nonce_ok(
                            #[trigger] self.entries@[i].site_enc@,
                        )
                },
            },
    {
        let mut rows: Vec<RowLabel> = Vec::new();
        let mut index: usize = 0;
        while index < self.entries.len()
            invariant
                rows@.len() == index <= self.entries@.len(),
                forall|i: int|
                    0 <= i < index ==> {
                        &&& (#[trigger] rows@[i]).index == i
                        &&& rows@[i].id == self.entries@[i].id
                        &&& rows@[i].label@ == label_text(self.key(), self.entries@[i].site_enc@)
                        &&& self.key() is Some ==> nonce_ok(self.entries@[i].site_enc@)
                    },
            decreases self.entries@.len() - index,
        {
            let entry: &EncryptedEntry = &self.entries[index];
            match self.site_label(entry.site_enc.as_str()) {
                Ok(label) => rows.push(RowLabel { index, id: entry.id, label }),
                Err(e) => {
                    assert(!nonce_ok(self.entries@[index as int].site_enc@));
                    return Err(e);
                },
            }
            index += 1;
        }
        Ok(rows)
    }

    /// The password of the first entry with this id, where it is there and decrypts.
    pub fn password_for_copy(&self, id: i64) -> (password: Result<Option<String>, VaultError>)
        ensures
            match (self.key(), entry_with_id(self.entries@, id)) {
                (Some(key), Some(entry)) => match (
                    password,
                    opened_text(key, entry.password_enc@),
                ) {
                    (Ok(Some(p)), Ok(text)) => p@ == text,
                    (Ok(None), Err(e)) => !e.fatal(),
                    (Err(e), Err(f)) => e == f && e.fatal(),
                    _ => false,
                },
                _ => password == Ok::<Option<String>, VaultError>(None),
            },
            password matches Ok(Some(p)) ==> self.derived_key is Some && exists|i: int|
                0 <= i < self.entries@.len() && (#[trigger] self.entries@[i]).id == id && (forall|
                    j: int,
                |
                    0 <= j < i ==> (#[trigger] self.entries@[j]).id != id) && opened_text(
                    self.derived_key->0@,
                    self.entries@[i].password_enc@,
                ) == Ok::<Seq<char>, VaultError>(p@),
            self.derived_key is None ==> password == Ok::<Option<String>, VaultError>(None),
            (forall|j: int| 0 <= j < self.entries@.len() ==> (#[trigger] self.entries@[j]).id
                != id) ==> password == Ok::<Option<String>, VaultError>(None),
    {
        proof {
            law_lookup_finds_the_first(self.entries@, id);
        }
        let key: &DerivedKey = match &self.derived_key {
            Some(key) => key,
            None => return Ok(None),
        };
        assert(self.entries@.skip(0) =~= self.entries@);
        let mut index: usize = 0;
        while index < self.entries.len()
            invariant
                index <= self.entries@.len(),
                self.derived_key == Some(*key),
                entry_with_id(self.entries@, id) == entry_with_id(
                    self.entries@.skip(index as int),
                    id,
                ),
            decreases self.entries@.len() - index,
        {
            let entry: &EncryptedEntry = &self.entries[index];
            proof {
                let rest = self.entries@.skip(index as int);
                assert(rest[0] == entry);
                assert(rest.skip(1) =~= self.entries@.skip(index + 1));
            }
            if entry.id == id {
                proof {
                    law_lookup_finds_the_first(self.entries@, id);
                }
                return match open_text(entry.password_enc.as_str(), key) {
                    Ok(password) => Ok(Some(password)),
                    Err(e) => if e.is_fatal() {
                        Err(e)
                    } else {
                        Ok(None)
                    },
                };
            }
            index += 1;
        }
        Ok(None)
    }

    /// Asks whether the entry at a place in the list is to be deleted.
    pub fn ask_delete(&mut self, idx: usize)
        ensures
            idx < old(self).entries@.len() ==> *final(self) == (RustPassApp {
                modal: ModalState::ConfirmDelete(
                    old(self).entries@[idx as int].id,
                    old(self).entries@[idx as int].site_enc,
                ),
                view_fields: None,
                ..*old(self)
            }),
            idx >= old(self).entries@.len() ==> *final(self) == *old(self),
            old(self).wf() ==> final(self).wf(),
    {
        if idx < self.entries.len() {
            let id: i64 = self.entries[idx].id;
            let site_enc: String = self.entries[idx].site_enc.clone();
            self.view_fields = None;
            self.modal = ModalState::ConfirmDelete(id, site_enc);
        }
    }

    /// The question that the open dialogue asks before it deletes, if it is that dialogue.
    pub fn delete_prompt(&self) -> (prompt: Result<Option<String>, VaultError>)
        ensures
            match self.modal {
                ModalState::ConfirmDelete(_, site_enc) => match prompt {
                    Ok(Some(p)) => {
                        &&& p@ == "Delete entry for '"@ + label_text(self.key(), site_enc@) + "'?"@
                        &&& self.key() is Some ==> nonce_ok(site_enc@)
                    },
                    Ok(None) => false,
                    Err(e) => {
                        &&& e == VaultError::MalformedNonce
                        &&& self.key() is Some
                        &&& !nonce_ok(site_enc@)
                    },
                },
                _ => prompt == Ok::<Option<String>, VaultError>(None),
            },
    {
        match &self.modal {
            ModalState::ConfirmDelete(_, site_enc) => match self.site_label(site_enc.as_str()) {
                Ok(label) => Ok(
                    Some(
                        joined(joined("Delete entry for '", label.as_str()).as_str(), "'?"),
                    ),
                ),
                Err(e) => Err(e),
            },
            _ => Ok(None),
        }
    }

    /// The id of the entry to delete once the dialogue is confirmed: none while locked.
    pub fn delete_target(&self) -> (id: Option<i64>)
        ensures
            match (self.modal, self.key()) {
                (ModalState::ConfirmDelete(target, _), Some(_)) => id == Some(target),
                _ => id is None,
            },
    {
        match (&self.modal, &self.derived_key) {
            (ModalState::ConfirmDelete(target, _), Some(_)) => Some(*target),
            _ => None,
        }
    }

    /// Goes on after a confirmed deletion with the rows that the store lists now.
    pub fn delete_finished(&mut self, listed: Result<Vec<EncryptedEntry>, String>, now: u128)
        ensures
            final(self).shows_status(
                RustPassApp {
                    modal: ModalState::Closed,
                    view_fields: None,
                    entries: match listed {
                        Ok(rows) => rows,
                        Err(_) => old(self).entries,
                    },
                    ..*old(self)
                },
                "🗑 Entry deleted"@,
                now,
            ),
            old(self).wf() ==> final(self).wf(),
    {
        self.close_modal();
        self.load_entries(listed, now);
        self.set_status("🗑 Entry deleted", now);
    }

    /// Whether the state is that of before with the form open on what an entry holds.
    pub open spec fn edits(self, before: RustPassApp, entry: EncryptedEntry, key: Seq<u8>) -> bool {
        &&& self.form_site@ == text_or_empty(key, entry.site_enc@)
        &&& self.form_user@ == text_or_empty(key, entry.username_enc@)
        &&& self.form_pass@ == text_or_empty(key, entry.password_enc@)
        &&& self.form_notes@ == text_or_empty(key, entry.notes_enc@)
        &&& !self.form_show_pass
        &&& self.form_error@.len() == 0
        &&& self == (RustPassApp {
            modal: ModalState::EditEntry(entry.id),
            view_fields: None,
            ..before.with_form_of(self)
        })
    }

    /// Opens the form with what an entry of the list holds; a field that does not decrypt is left
    /// blank.
    pub fn open_edit_modal(&mut self, idx: usize) -> (opened: Result<(), VaultError>)
        ensures
            match old(self).key() {
                Some(key) if idx < old(self).entries@.len() => {
                    let entry = old(self).entries@[idx as int];
                    &&& !entry.nonces_ok() ==> {
                        &&& opened == Err::<(), VaultError>(VaultError::MalformedNonce)
                        &&& *final(self) == *old(self)
                    }
                    &&& entry.nonces_ok() ==> opened is Ok && final(self).edits(
                        *old(self),
                        entry,
                        key,
                    )
                },
                _ => opened is Ok && *final(self) == *old(self),
            },
            old(self).wf() ==> final(self).wf(),
    {
        if idx >= self.entries.len() {
            return Ok(());
        }
        let entry: &EncryptedEntry = &self.entries[idx];
        let key: &DerivedKey = match &self.derived_key {
            Some(key) => key,
            None => return Ok(()),
        };
        if !entry.has_nonces_ok() {
            return Err(VaultError::MalformedNonce);
        }
        let site: String = or_empty(entry.decrypt_site(key));
        let user: String = or_empty(entry.decrypt_username(key));
        let pass: String = or_empty(entry.decrypt_password(key));
        let notes: String = or_empty(entry.decrypt_notes(key));
        let id: i64 = entry.id;
        self.form_site = site;
        self.form_user = user;
        self.form_pass.assign(pass.as_str());
        self.form_notes = notes;
        self.form_show_pass = false;
        self.form_error = String::new();
        self.view_fields = None;
        self.modal = ModalState::EditEntry(id);
        Ok(())
    }

    /// Decrypts an entry of the list and shows it, with its password masked.
    pub fn open_view_modal(&mut self, idx: usize, now: u128) -> (opened: Result<(), VaultError>)
        ensures
            match old(self).key() {
                Some(key) if idx < old(self).entries@.len() => match fields_of(
                    old(self).entries@[idx as int],
                    key,
                ) {
                    Ok(fields) => {
                        &&& opened is Ok
                        &&& final(self).view_fields matches Some(shown) && shown@ == fields
                        &&& *final(self) == (RustPassApp {
                            view_fields: final(self).view_fields,
                            view_show_pass: false,
                            modal: ModalState::ViewEntry(idx),
                            ..*old(self)
                        })
                    },
                    Err(e) => if e.fatal() {
                        opened == Err::<(), VaultError>(e) && *final(self) == *old(self)
                    } else {
                        opened is Ok && final(self).shows_status(
                            *old(self),
                            "Decrypt error: "@ + e.text(),
                            now,
                        )
                    },
                },
                _ => opened is Ok && *final(self) == *old(self),
            },
            old(self).wf() ==> final(self).wf(),
    {
        if idx >= self.entries.len() {
            return Ok(());
        }
        let outcome: Result<DecryptedFields, VaultError> = match &self.derived_key {
            Some(key) => DecryptedFields::open_entry(&self.entries[idx], key),
            None => return Ok(()),
        };
        match outcome {
            Ok(fields) => {
                self.view_fields = Some(fields);
                self.view_show_pass = false;
                self.modal = ModalState::ViewEntry(idx);
                Ok(())
            },
            Err(e) => if e.is_fatal() {
                Err(e)
            } else {
                self.set_status(joined("Decrypt error: ", e.message()).as_str(), now);
                Ok(())
            },
        }
    }

    /// What is wrong with the form, if anything.
    pub open spec fn form_complaint(self) -> Option<Seq<char>> {
        if trimmed(self.form_site@).len() == 0 {
            Some("Site name is required."@)
        } else if self.form_pass@.len() == 0 {
            Some("Password cannot be empty."@)
        } else {
            None
        }
    }

    /// Whether an entry was sealed from the form.
    pub open spec fn seals_form(self, sealed: SealedEntry, key: Seq<u8>, idx_key: Seq<u8>) -> bool {
        entry_holds(
            sealed,
            key,
            idx_key,
            trimmed(self.form_site@),
            trimmed(self.form_user@),
            self.form_pass@,
            trimmed(self.form_notes@),
        )
    }

    /// Why the form cannot be sealed, if it cannot.
    pub open spec fn form_seal_fault(self, idx_key: Result<Seq<u8>, VaultError>) -> Option<
        VaultError,
    > {
        seal_fault(
            idx_key,
            entry_sealable(
                trimmed(self.form_site@),
                trimmed(self.form_user@),
                self.form_pass@,
                trimmed(self.form_notes@),
            ),
        )
    }

    /// Checks the form and seals what it holds, with white space around the site, the user name
    /// and the notes removed.
    pub fn submit_entry_form(&mut self, is_edit: bool, meta: &VaultMeta) -> (step: SubmitStep)
        ensures
            match (old(self).form_complaint(), old(self).key()) {
                (Some(complaint), _) => step is Rejected && final(self).shows_form_error(
                    *old(self),
                    complaint,
                ),
                (None, None) => step is Rejected && *final(self) == *old(self),
                (None, Some(key)) => {
                    let idx_key = loaded_index_key(row_text(meta.idx_key), key);
                    if is_edit && !(old(self).modal is EditEntry) {
                        step is NothingToStore && *final(self) == *old(self)
                    } else {
                        match old(self).form_seal_fault(idx_key) {
                            Some(e) => if e.fatal() {
                                step == SubmitStep::Damaged(e) && *final(self) == *old(self)
                            } else {
                                step is Rejected && final(self).shows_form_error(
                                    *old(self),
                                    "Error: "@ + e.text(),
                                )
                            },
                            None => {
                                &&& *final(self) == *old(self)
                                &&& match step {
                                    SubmitStep::Insert(sealed) => !is_edit && old(self).seals_form(
                                        sealed,
                                        key,
                                        idx_key->Ok_0,
                                    ),
                                    SubmitStep::Update(id, sealed) => {
                                        &&& is_edit
                                        &&& old(self).modal == ModalState::EditEntry(id)
                                        &&& old(self).seals_form(sealed, key, idx_key->Ok_0)
                                    },
                                    _ => false,
                                }
                            },
                        }
                    }
                },
            },
            step is Insert || step is Update ==> {
                &&& trimmed(old(self).form_site@).len() > 0
                &&& old(self).form_pass@.len() > 0
                &&& old(self).derived_key is Some
                &&& *final(self) == *old(self)
            },
            trimmed(old(self).form_site@).len() == 0 ==> step is Rejected
                && final(self).form_error@ == "Site name is required."@,
            trimmed(old(self).form_site@).len() > 0 && old(self).form_pass@.len() == 0 ==> step
                is Rejected && final(self).form_error@ == "Password cannot be empty."@,
            trimmed(old(self).form_site@).len() > 0 && old(self).form_pass@.len() > 0 && step
                is Rejected ==> {
                ||| old(self).derived_key is None && *final(self) == *old(self)
                ||| exists|e: VaultError|
                    final(self).form_error@ == "Error: "@ + #[trigger] e.text()
            },
            *final(self) == (RustPassApp { form_error: final(self).form_error, ..*old(self) }),
            step is Insert ==> !is_edit,
            step matches SubmitStep::Update(id, _) ==> is_edit && old(self).modal
                == ModalState::EditEntry(id),
            old(self).wf() ==> final(self).wf(),
    {
        let site: &str = trim(self.form_site.as_str());
        if site.is_empty() {
            self.form_error = "Site name is required.".to_owned();
            return SubmitStep::Rejected;
        }
        if self.form_pass.is_empty() {
            self.form_error = "Password cannot be empty.".to_owned();
            return SubmitStep::Rejected;
        }
        let key: &DerivedKey = match &self.derived_key {
            Some(key) => key,
            None => return SubmitStep::Rejected,
        };
        let target: Option<i64> = match &self.modal {
            ModalState::EditEntry(id) => Some(*id),
            _ => None,
        };
        if is_edit && target.is_none() {
            return SubmitStep::NothingToStore;
        }
        let outcome: Result<SealedEntry, VaultError> = seal_entry(
            meta,
            site,
            trim(self.form_user.as_str()),
            self.form_pass.as_str(),
            trim(self.form_notes.as_str()),
            key,
        );
        match outcome {
            Ok(sealed) => match target {
                Some(id) if is_edit => SubmitStep::Update(id, sealed),
                _ => SubmitStep::Insert(sealed),
            },
            Err(e) => if e.is_fatal() {
                SubmitStep::Damaged(e)
            } else {
                self.form_error = joined("Error: ", e.message());
                SubmitStep::Rejected
            },
        }
    }

    /// Goes on after the form was stored, with the rows that the store lists now.
    pub fn form_saved(
        &mut self,
        is_edit: bool,
        listed: Result<Vec<EncryptedEntry>, String>,
        now: u128,
    )
        ensures
            final(self).form_blank(),
            final(self).shows_status(
                RustPassApp {
                    modal: ModalState::Closed,
                    view_fields: None,
                    entries: match listed {
                        Ok(rows) => rows,
                        Err(_) => old(self).entries,
                    },
                    ..old(self).with_form_of(*final(self))
                },
                if is_edit {
                    "✓ Entry updated"@
                } else {
                    "✓ Entry added"@
                },
                now,
            ),
            old(self).wf() ==> final(self).wf(),
    {
        self.cancel_form();
        self.load_entries(listed, now);
        self.set_status(
            if is_edit {
                "✓ Entry updated"
            } else {
                "✓ Entry added"
            },
            now,
        );
    }

    /// Says under the form why the store did not take it.
    pub fn form_not_saved(&mut self, why: &str)
        ensures
            final(self).shows_form_error(*old(self), "Error: "@ + why@),
            old(self).wf() ==> final(self).wf(),
    {
        self.form_error = joined("Error: ", why);
    }

    /// The viewed entry as it is shown, if one is viewed: the password in the clear or as at most
    /// 20 dots.
    pub fn view_display(&self) -> (display: Option<ViewDisplay>)
        ensures
            match (self.view_fields, display) {
                (Some(fields), Some(d)) => {
                    &&& d.site@ == fields.site@
                    &&& d.username@ == fields.username@
                    &&& d.password@ == (if self.view_show_pass {
                        fields.password@
                    } else {
                        mask_text(encode_utf8(fields.password@).len())
                    })
                    &&& d.notes@ == fields.notes@
                    &&& d.has_notes == (fields.notes@.len() > 0)
                },
                (None, None) => true,
                _ => false,
            },
    {
        match &self.view_fields {
            None => None,
            Some(fields) => {
                let password: String = if self.view_show_pass {
                    fields.password.clone()
                } else {
                    mask(fields.password.as_str())
                };
                Some(
                    ViewDisplay {
                        site: fields.site.clone(),
                        username: fields.username.clone(),
                        password,
                        notes: fields.notes.clone(),
                        has_notes: !fields.notes.as_str().is_empty(),
                    },
                )
            },
        }
    }

    /// Stops viewing an entry; what was decrypted is wiped.
    pub fn close_view(&mut self)
        ensures
            *final(self) == (RustPassApp {
                view_fields: None,
                modal: if old(self).modal is ViewEntry {
                    ModalState::Closed
                } else {
                    old(self).modal
                },
                ..*old(self)
            }),
            old(self).wf() ==> final(self).wf(),
    {
        self.view_fields = None;
        if let ModalState::ViewEntry(_) = &self.modal {
            self.modal = ModalState::Closed;
        }
    }

    /// Turns from viewing an entry to editing it. Where it is not in the list any more, or the
    /// vault is locked, the view is closed.
    pub fn edit_viewed(&mut self) -> (opened: Result<(), VaultError>)
        ensures
            match (old(self).modal, old(self).key()) {
                (ModalState::ViewEntry(idx), Some(key)) if idx < old(self).entries@.len() => {
                    let entry = old(self).entries@[idx as int];
                    &&& !entry.nonces_ok() ==> {
                        &&& opened == Err::<(), VaultError>(VaultError::MalformedNonce)
                        &&& *final(self) == *old(self)
                    }
                    &&& entry.nonces_ok() ==> opened is Ok && final(self).edits(
                        *old(self),
                        entry,
                        key,
                    )
                },
                (ModalState::ViewEntry(_), _) => opened is Ok && *final(self) == (RustPassApp {
                    view_fields: None,
                    modal: ModalState::Closed,
                    ..*old(self)
                }),
                _ => opened is Ok && *final(self) == *old(self),
            },
            old(self).wf() ==> final(self).wf(),
    {
        let idx: usize = match &self.modal {
            ModalState::ViewEntry(idx) => *idx,
            _ => return Ok(()),
        };
        match self.open_edit_modal(idx) {
            Ok(()) => {
                self.close_view();
                Ok(())
            },
            Err(e) => Err(e),
        }
    }
}

/// What to do after an attempt to unlock the vault.
pub enum LoginStep {
    /// It is unlocked: list the entries.
    LoadEntries,
    /// It stays locked, and the window says why.
    Refused,
    /// It stays locked, and its rows are damaged.
    Damaged(VaultError),
}

/// What to ask the store for after the query was edited.
pub enum SearchRequest {
    /// Every row.
    ListAll,
    /// The rows with this token.
    ByToken(String),
    /// Nothing.
    Nothing,
    /// Nothing, as the vault's rows are damaged.
    Damaged(VaultError),
}

/// A row of the list.
pub struct RowLabel {
    pub index: usize,
    pub id: i64,
    pub label: String,
}

/// The site behind an encrypted form as the window names it.
pub open spec fn label_text(key: Option<Seq<u8>>, site_enc: Seq<char>) -> Seq<char> {
    match key {
        None => "⚠ decrypt error"@,
        Some(k) => match opened_text(k, site_enc) {
            Ok(site) => site,
            Err(_) => "⚠ decrypt error"@,
        },
    }
}

/// The first entry with an id.
pub open spec fn entry_with_id(entries: Seq<EncryptedEntry>, id: i64) -> Option<EncryptedEntry>
    decreases entries.len(),
{
    if entries.len() == 0 {
        None
    } else if entries[0].id == id {
        Some(entries[0])
    } else {
        entry_with_id(entries.skip(1), id)
    }
}

/// What to do with the form that was submitted.
pub enum SubmitStep {
    /// Nothing; where there is something to say, the form says it.
    Rejected,
    /// Store a new entry.
    Insert(SealedEntry),
    /// Store the entry in place of the one with this id.
    Update(i64, SealedEntry),
    /// There is nothing to store, and the form is done.
    NothingToStore,
    /// Nothing, as the vault's rows are damaged.
    Damaged(VaultError),
}

/// An entry as the window shows it.
pub struct ViewDisplay {
    pub site: String,
    pub username: String,
    pub password: String,
    pub notes: String,
    pub has_notes: bool,
}

/// What a stored text opens to, or nothing where it does not open.
pub open spec fn text_or_empty(key: Seq<u8>, blob: Seq<char>) -> Seq<char> {
    match opened_text(key, blob) {
        Ok(text) => text,
        Err(_) => Seq::empty(),
    }
}

/// The text, or an empty one.
fn or_empty(text: Result<String, VaultError>) -> (value: String)
    ensures
        value@ == (match text {
            Ok(t) => t@,
            Err(_) => Seq::<char>::empty(),
        }),
{
    match text {
        Ok(t) => t,
        Err(_) => String::new(),
    }
}

/// Dots in place of a password of so many bytes.
pub open spec fn mask_text(len: nat) -> Seq<char> {
    Seq::new(
        if len < 20 {
            len
        } else {
            20
        },
        |i: int| '●',
    )
}

/// Dots in place of a password.
fn mask(password: &str) -> (dots: String)
    ensures
        dots@ == mask_text(encode_utf8(password@).len()),
{
    let len: usize = password.as_bytes().len();
    let count: usize = if len < 20 {
        len
    } else {
        20
    };
    let mut dots: String = String::new();
    let mut i: usize = 0;
    proof {
        reveal_strlit("●");
    }
    while i < count
        invariant
            i <= count,
            "●"@ == seq!['●'],
            dots@ == Seq::new(i as nat, |j: int| '●'),
        decreases count - i,
    {
        dots.append("●");
        i += 1;
    }
    dots
}

/// A row that holds what a submitted form was sealed to reads back as the form: with white space
/// around the site, the user name and the notes removed, and the password as it was typed.
pub proof fn law_submitted_form_reads_back(
    app: RustPassApp,
    sealed: SealedEntry,
    row: EncryptedEntry,
    key: Seq<u8>,
    idx_key: Seq<u8>,
)
    requires
        app.seals_form(sealed, key, idx_key),
        row_holds(row, sealed),
    ensures
        row.nonces_ok(),
        fields_of(row, key) == Ok::<_, VaultError>(
            (
                trimmed(app.form_site@),
                trimmed(app.form_user@),
                app.form_pass@,
                trimmed(app.form_notes@),
            ),
        ),
        row.site_idx@ == site_token(idx_key, trimmed(app.form_site@)),
{
}

/// Saving an entry that was opened for editing and left as it was stores what was there before.
pub proof fn law_unchanged_edit_keeps_entry(
    first: RustPassApp,
    sealed: SealedEntry,
    row: EncryptedEntry,
    before: RustPassApp,
    editing: RustPassApp,
    resealed: SealedEntry,
    row_after: EncryptedEntry,
    key: Seq<u8>,
    idx_key: Seq<u8>,
)
    requires
        first.seals_form(sealed, key, idx_key),
        row_holds(row, sealed),
        editing.edits(before, row, key),
        editing.seals_form(resealed, key, idx_key),
        row_holds(row_after, resealed),
    ensures
        fields_of(row_after, key) == fields_of(row, key),
        row_after.site_idx@ == row.site_idx@,
{
    law_trimming_settles(first.form_site@);
    law_trimming_settles(first.form_user@);
    law_trimming_settles(first.form_notes@);
}

/// Showing a status message changes the message and its time, and nothing else.
pub proof fn law_status_changes_nothing_else(
    app: RustPassApp,
    before: RustPassApp,
    message: Seq<char>,
    now: u128,
)
    requires
        app.shows_status(before, message, now),
    ensures
        app.status_message@ == message,
        app.status_set_at == Some(now),
        app.screen == before.screen,
        app.master_pw_buf == before.master_pw_buf,
        app.confirm_pw_buf == before.confirm_pw_buf,
        app.is_first_run == before.is_first_run,
        app.login_error == before.login_error,
        app.derived_key == before.derived_key,
        app.entries == before.entries,
        app.search_query == before.search_query,
        app.modal == before.modal,
        app.form_site == before.form_site,
        app.form_user == before.form_user,
        app.form_pass == before.form_pass,
        app.form_notes == before.form_notes,
        app.form_show_pass == before.form_show_pass,
        app.form_error == before.form_error,
        app.view_fields == before.view_fields,
        app.view_show_pass == before.view_show_pass,
        app.clipboard_timer == before.clipboard_timer,
{
}

/// An error under the password field changes that text and nothing else.
pub proof fn law_login_error_changes_nothing_else(
    app: RustPassApp,
    before: RustPassApp,
    message: Seq<char>,
)
    requires
        app.shows_login_error(before, message),
    ensures
        app.login_error@ == message,
        app.screen == before.screen,
        app.master_pw_buf == before.master_pw_buf,
        app.confirm_pw_buf == before.confirm_pw_buf,
        app.is_first_run == before.is_first_run,
        app.derived_key == before.derived_key,
        app.entries == before.entries,
        app.search_query == before.search_query,
        app.modal == before.modal,
        app.form_site == before.form_site,
        app.form_user == before.form_user,
        app.form_pass == before.form_pass,
        app.form_notes == before.form_notes,
        app.form_show_pass == before.form_show_pass,
        app.form_error == before.form_error,
        app.view_fields == before.view_fields,
        app.view_show_pass == before.view_show_pass,
        app.clipboard_timer == before.clipboard_timer,
        app.status_message == before.status_message,
        app.status_set_at == before.status_set_at,
{
}

/// An error under the form changes that text and nothing else.
pub proof fn law_form_error_changes_nothing_else(
    app: RustPassApp,
    before: RustPassApp,
    message: Seq<char>,
)
    requires
        app.shows_form_error(before, message),
    ensures
        app.form_error@ == message,
        app.screen == before.screen,
        app.master_pw_buf == before.master_pw_buf,
        app.confirm_pw_buf == before.confirm_pw_buf,
        app.is_first_run == before.is_first_run,
        app.login_error == before.login_error,
        app.derived_key == before.derived_key,
        app.entries == before.entries,
        app.search_query == before.search_query,
        app.modal == before.modal,
        app.form_site == before.form_site,
        app.form_user == before.form_user,
        app.form_pass == before.form_pass,
        app.form_notes == before.form_notes,
        app.form_show_pass == before.form_show_pass,
        app.view_fields == before.view_fields,
        app.view_show_pass == before.view_show_pass,
        app.clipboard_timer == before.clipboard_timer,
        app.status_message == before.status_message,
        app.status_set_at == before.status_set_at,
{
}

/// Taking over a form takes its six fields and nothing else.
pub proof fn law_form_is_six_fields(before: RustPassApp, other: RustPassApp)
    ensures
        before.with_form_of(other).screen == before.screen,
        before.with_form_of(other).master_pw_buf == before.master_pw_buf,
        before.with_form_of(other).confirm_pw_buf == before.confirm_pw_buf,
        before.with_form_of(other).is_first_run == before.is_first_run,
        before.with_form_of(other).login_error == before.login_error,
        before.with_form_of(other).derived_key == before.derived_key,
        before.with_form_of(other).entries == before.entries,
        before.with_form_of(other).search_query == before.search_query,
        before.with_form_of(other).modal == before.modal,
        before.with_form_of(other).form_site == other.form_site,
        before.with_form_of(other).form_user == other.form_user,
        before.with_form_of(other).form_pass == other.form_pass,
        before.with_form_of(other).form_notes == other.form_notes,
        before.with_form_of(other).form_show_pass == other.form_show_pass,
        before.with_form_of(other).form_error == other.form_error,
        before.with_form_of(other).view_fields == before.view_fields,
        before.with_form_of(other).view_show_pass == before.view_show_pass,
        before.with_form_of(other).clipboard_timer == before.clipboard_timer,
        before.with_form_of(other).status_message == before.status_message,
        before.with_form_of(other).status_set_at == before.status_set_at,
{
}

/// A blank form has nothing typed into it, hides the password and shows no error.
pub proof fn law_blank_form(app: RustPassApp)
    ensures
        app.form_blank() <==> {
            &&& app.form_site@ =~= Seq::<char>::empty()
            &&& app.form_user@ =~= Seq::<char>::empty()
            &&& app.form_pass@ =~= Seq::<char>::empty()
            &&& app.form_notes@ =~= Seq::<char>::empty()
            &&& app.form_error@ =~= Seq::<char>::empty()
            &&& !app.form_show_pass
        },
{
}

/// A window in which the vault is shown exactly while its key is held, and which holds no entry in
/// the clear, is consistent.
pub proof fn law_consistent_windows(app: RustPassApp)
    requires
        app.view_fields is None,
        app.screen == Screen::Vault <==> app.derived_key is Some,
    ensures
        app.wf(),
{
}

/// While the window is consistent, a locked one holds no key and no decrypted entry, an unlocked one
/// holds the key, and an entry is in the clear only while it is viewed.
pub proof fn law_locked_window_holds_nothing(app: RustPassApp)
    requires
        app.wf(),
    ensures
        app.screen == Screen::Login ==> app.derived_key is None && app.view_fields is None,
        app.screen == Screen::Vault ==> app.derived_key is Some,
        app.view_fields is Some ==> app.modal is ViewEntry,
{
}

/// The window's key is that of the vault, and there is none while it is locked.
pub proof fn law_window_key(app: RustPassApp)
    ensures
        app.derived_key matches Some(key) ==> app.key() == Some(key@),
        app.derived_key is None ==> app.key() is None,
{
}

/// A status message is over exactly when more than six seconds have passed since it was set.
pub proof fn law_status_lifetime(app: RustPassApp, set_at: u128, now: u128)
    ensures
        app.status_set_at == Some(set_at) ==> (app.status_over(now) <==> now > set_at
            + 6_000_000_000),
        app.status_set_at is None ==> !app.status_over(now),
{
}

/// Two passwords make a vault exactly where they are the same text and it has at least 8 bytes, and
/// not more than the key derivation takes. Passwords that differ, in whatever way, are answered so
/// before anything else.
pub proof fn law_which_passwords_make_a_vault(app: RustPassApp)
    ensures
        ({
            let len = encode_utf8(app.master_pw_buf@).len();
            let same = app.master_pw_buf@ == app.confirm_pw_buf@;
            &&& app.password_complaint() is None <==> same && 8 <= len <= 0xFFFF_FFFF
            &&& !same ==> app.password_complaint() == Some("❌ Passwords do not match"@)
            &&& same && len < 8 ==> app.password_complaint() == Some(
                "❌ Minimum 8 characters required"@,
            )
            &&& same && len > 0xFFFF_FFFF ==> app.password_complaint() == Some(
                "❌ "@ + VaultError::KdfFailed(KdfFault::PasswordTooLong).text(),
            )
        }),
{
}

/// A form is complete exactly where something is left of the site after trimming and the password is
/// not empty, whichever dialogue is open; the site is asked for first.
pub proof fn law_which_forms_are_complete(app: RustPassApp)
    ensures
        app.form_complaint() is None <==> trimmed(app.form_site@).len() > 0 && app.form_pass@.len()
            > 0,
        trimmed(app.form_site@).len() == 0 ==> app.form_complaint() == Some(
            "Site name is required."@,
        ),
        trimmed(app.form_site@).len() > 0 && app.form_pass@.len() == 0 ==> app.form_complaint()
            == Some("Password cannot be empty."@),
{
}

/// A form can be sealed exactly where the index key is there and the trimmed site, user name and
/// notes and the password as it was typed have a stored form each.
pub proof fn law_which_forms_can_be_sealed(
    app: RustPassApp,
    idx_key: Seq<u8>,
    why: VaultError,
)
    ensures
        app.form_seal_fault(Ok(idx_key)) is None <==> sealable(
            encode_utf8(trimmed(app.form_site@)).len(),
        ) && sealable(encode_utf8(trimmed(app.form_user@)).len()) && sealable(
            encode_utf8(app.form_pass@).len(),
        ) && sealable(encode_utf8(trimmed(app.form_notes@)).len()),
        app.form_seal_fault(Ok(idx_key)) matches Some(e) ==> e == VaultError::EncryptionFailed,
        app.form_seal_fault(Err(why)) == Some(why),
{
}

/// Opening an entry for editing fills the form with what its four fields open to, leaves a field
/// that does not open blank, closes a view, and changes nothing else.
pub proof fn law_edit_form_shows_the_entry(
    app: RustPassApp,
    before: RustPassApp,
    entry: EncryptedEntry,
    key: Seq<u8>,
)
    requires
        app.edits(before, entry, key),
    ensures
        match opened_text(key, entry.site_enc@) {
            Ok(site) => app.form_site@ == site,
            Err(_) => app.form_site@.len() == 0,
        },
        match opened_text(key, entry.username_enc@) {
            Ok(username) => app.form_user@ == username,
            Err(_) => app.form_user@.len() == 0,
        },
        match opened_text(key, entry.password_enc@) {
            Ok(password) => app.form_pass@ == password,
            Err(_) => app.form_pass@.len() == 0,
        },
        match opened_text(key, entry.notes_enc@) {
            Ok(notes) => app.form_notes@ == notes,
            Err(_) => app.form_notes@.len() == 0,
        },
        !app.form_show_pass,
        app.form_error@.len() == 0,
        app.modal == ModalState::EditEntry(entry.id),
        app.view_fields is None,
        app.screen == before.screen,
        app.master_pw_buf == before.master_pw_buf,
        app.confirm_pw_buf == before.confirm_pw_buf,
        app.is_first_run == before.is_first_run,
        app.login_error == before.login_error,
        app.derived_key == before.derived_key,
        app.entries == before.entries,
        app.search_query == before.search_query,
        app.view_show_pass == before.view_show_pass,
        app.clipboard_timer == before.clipboard_timer,
        app.status_message == before.status_message,
        app.status_set_at == before.status_set_at,
{
}

/// A row is labelled with the name that its site decrypts to under the vault's key, and with a
/// warning where it does not or the vault is locked.
pub proof fn law_row_label(key: Seq<u8>, site_enc: Seq<char>)
    ensures
        opened_text(key, site_enc) matches Ok(site) ==> label_text(Some(key), site_enc) == site,
        opened_text(key, site_enc) is Err ==> label_text(Some(key), site_enc)
            == "⚠ decrypt error"@,
        label_text(None, site_enc) == "⚠ decrypt error"@,
{
}

/// Looking an id up finds the entry at the first place of the list that has it, and nothing where no
/// place has it.
pub proof fn law_lookup_finds_the_first(entries: Seq<EncryptedEntry>, id: i64)
    ensures
        match entry_with_id(entries, id) {
            Some(entry) => exists|i: int|
                0 <= i < entries.len() && #[trigger] entries[i] == entry && entries[i].id == id && (
                forall|j: int| 0 <= j < i ==> (#[trigger] entries[j]).id != id),
            None => forall|j: int| 0 <= j < entries.len() ==> (#[trigger] entries[j]).id != id,
        },
    decreases entries.len(),
{
    if entries.len() > 0 {
        let rest = entries.skip(1);
        law_lookup_finds_the_first(rest, id);
        assert forall|j: int| 0 < j < entries.len() implies #[trigger] entries[j] == rest[j
            - 1] by {}
        if entries[0].id != id {
            match entry_with_id(rest, id) {
                Some(entry) => {
                    let k = choose|k: int|
                        0 <= k < rest.len() && #[trigger] rest[k] == entry && rest[k].id == id && (
                        forall|j: int| 0 <= j < k ==> (#[trigger] rest[j]).id != id);
                    assert(entries[k + 1] == entry);
                    assert forall|j: int| 0 <= j < k + 1 implies (#[trigger] entries[j]).id
                        != id by {
                        if j > 0 {
                            assert(entries[j] == rest[j - 1]);
                        }
                    }
                },
                None => {
                    assert forall|j: int| 0 <= j < entries.len() implies (#[trigger] entries[j]).id
                        != id by {
                        if j > 0 {
                            assert(entries[j] == rest[j - 1]);
                        }
                    }
                },
            }
        } else {
            assert(entries[0] == entry_with_id(entries, id)->0);
        }
    }
}

/// What a field opens to goes into the form as it is.
pub proof fn law_text_or_empty(key: Seq<u8>, blob: Seq<char>)
    ensures
        opened_text(key, blob) matches Ok(text) ==> text_or_empty(key, blob) == text,
        opened_text(key, blob) is Err ==> text_or_empty(key, blob).len() == 0,
{
}

/// A masked password is a row of dots, one for each byte and at most 20, whatever the password.
pub proof fn law_mask(len: nat, i: int)
    ensures
        len <= 20 ==> mask_text(len).len() == len,
        len > 20 ==> mask_text(len).len() == 20,
        0 <= i < mask_text(len).len() ==> mask_text(len)[i] == '●',
{
}

} // verus!
