//! Entries: encrypted at rest, decrypted one at a time.
use crate::crypto::{
    decrypt_str, has_nonce_ok, nonce_ok, open_text, opened_text, view_ok, DerivedKey,
};
use crate::error::VaultError;
use crate::text::{contains, to_lowercase};
use crate::wipe::wipe_string;
use crate::text;
use vstd::prelude::*;
use vstd::seq_lib::group_filter_ensures;

verus! {

/// A row of the vault. Everything that the user typed is encrypted; `site_idx` is the token of
/// the site name.
#[derive(Debug)]
pub struct EncryptedEntry {
    pub id: i64,
    pub site_enc: String,
    pub site_idx: String,
    pub username_enc: String,
    pub password_enc: String,
    pub notes_enc: String,
    pub created_at: String,
    pub updated_at: String,
}

impl Clone for EncryptedEntry {
    fn clone(&self) -> (copy: Self)
        ensures
            copy == *self,
    {
        EncryptedEntry {
            id: self.id,
            site_enc: self.site_enc.clone(),
            site_idx: self.site_idx.clone(),
            username_enc: self.username_enc.clone(),
            password_enc: self.password_enc.clone(),
            notes_enc: self.notes_enc.clone(),
            created_at: self.created_at.clone(),
            updated_at: self.updated_at.clone(),
        }
    }
}

impl EncryptedEntry {
    /// Whether no field holds a nonce of the wrong length.
    pub open spec fn nonces_ok(self) -> bool {
        nonce_ok(self.site_enc@) && nonce_ok(self.username_enc@) && nonce_ok(self.password_enc@)
            && nonce_ok(self.notes_enc@)
    }

    /// Whether no field holds a nonce of the wrong length.
    pub fn has_nonces_ok(&self) -> (ok: bool)
        ensures
            ok == self.nonces_ok(),
    {
        has_nonce_ok(self.site_enc.as_str()) && has_nonce_ok(self.username_enc.as_str())
            && has_nonce_ok(self.password_enc.as_str()) && has_nonce_ok(self.notes_enc.as_str())
    }

    pub fn decrypt_site(&self, key: &DerivedKey) -> (site: Result<String, VaultError>)
        requires
            nonce_ok(self.site_enc@),
        ensures
            view_ok(site) == opened_text(key@, self.site_enc@),
    {
        decrypt_str(self.site_enc.as_str(), key)
    }

    pub fn decrypt_username(&self, key: &DerivedKey) -> (username: Result<String, VaultError>)
        requires
            nonce_ok(self.username_enc@),
        ensures
            view_ok(username) == opened_text(key@, self.username_enc@),
    {
        decrypt_str(self.username_enc.as_str(), key)
    }

    pub fn decrypt_password(&self, key: &DerivedKey) -> (password: Result<String, VaultError>)
        requires
            nonce_ok(self.password_enc@),
        ensures
            view_ok(password) == opened_text(key@, self.password_enc@),
    {
        decrypt_str(self.password_enc.as_str(), key)
    }

    pub fn decrypt_notes(&self, key: &DerivedKey) -> (notes: Result<String, VaultError>)
        requires
            nonce_ok(self.notes_enc@),
        ensures
            view_ok(notes) == opened_text(key@, self.notes_enc@),
    {
        decrypt_str(self.notes_enc.as_str(), key)
    }
}

/// An entry in the clear, wiped when dropped.
pub struct DecryptedFields {
    pub site: String,
    pub username: String,
    pub password: String,
    pub notes: String,
}

impl View for DecryptedFields {
    type V = (Seq<char>, Seq<char>, Seq<char>, Seq<char>);

    open spec fn view(&self) -> (Seq<char>, Seq<char>, Seq<char>, Seq<char>) {
        (self.site@, self.username@, self.password@, self.notes@)
    }
}

impl Default for DecryptedFields {
    fn default() -> (fields: Self)
        ensures
            fields@ == (
                Seq::<char>::empty(),
                Seq::<char>::empty(),
                Seq::<char>::empty(),
                Seq::<char>::empty(),
            ),
    {
        DecryptedFields {
            site: String::new(),
            username: String::new(),
            password: String::new(),
            notes: String::new(),
        }
    }
}

impl Drop for DecryptedFields {
    fn drop(&mut self)
        ensures
            final(self)@ == (
                Seq::<char>::empty(),
                Seq::<char>::empty(),
                Seq::<char>::empty(),
                Seq::<char>::empty(),
            ),
        opens_invariants none
        no_unwind
    {
        wipe_string(&mut self.site);
        wipe_string(&mut self.username);
        wipe_string(&mut self.password);
        wipe_string(&mut self.notes);
    }
}

/// Site, user name, password and notes of an entry under a key, or the first reason for which one
/// of them does not decrypt.
pub open spec fn fields_of(entry: EncryptedEntry, key: Seq<u8>) -> Result<
    (Seq<char>, Seq<char>, Seq<char>, Seq<char>),
    VaultError,
> {
    match opened_text(key, entry.site_enc@) {
        Err(e) => Err(e),
        Ok(site) => match opened_text(key, entry.username_enc@) {
            Err(e) => Err(e),
            Ok(username) => match opened_text(key, entry.password_enc@) {
                Err(e) => Err(e),
                Ok(password) => match opened_text(key, entry.notes_enc@) {
                    Err(e) => Err(e),
                    Ok(notes) => Ok((site, username, password, notes)),
                },
            },
        },
    }
}

/// Whether decrypting an entry field by field meets a nonce of the wrong length before anything
/// else stops it.
pub open spec fn meets_bad_nonce(entry: EncryptedEntry, key: Seq<u8>) -> bool {
    fields_of(entry, key) == Err::<(Seq<char>, Seq<char>, Seq<char>, Seq<char>), VaultError>(
        VaultError::MalformedNonce,
    )
}

impl DecryptedFields {
    /// Decrypts the four fields in turn.
    pub fn from_entry(entry: &EncryptedEntry, key: &DerivedKey) -> (fields: Result<
        Self,
        VaultError,
    >)
        requires
            !meets_bad_nonce(*entry, key@),
        ensures
            view_ok(fields) == fields_of(*entry, key@),
            fields matches Ok(f) ==> {
                &&& opened_text(key@, entry.site_enc@) == Ok::<Seq<char>, VaultError>(f.site@)
                &&& opened_text(key@, entry.username_enc@) == Ok::<Seq<char>, VaultError>(
                    f.username@,
                )
                &&& opened_text(key@, entry.password_enc@) == Ok::<Seq<char>, VaultError>(
                    f.password@,
                )
                &&& opened_text(key@, entry.notes_enc@) == Ok::<Seq<char>, VaultError>(f.notes@)
            },
    {
        let site: String = match entry.decrypt_site(key) {
            Ok(site) => site,
            Err(e) => return Err(e),
        };
        let username: String = match entry.decrypt_username(key) {
            Ok(username) => username,
            Err(e) => return Err(e),
        };
        let password: String = match entry.decrypt_password(key) {
            Ok(password) => password,
            Err(e) => return Err(e),
        };
        let notes: String = match entry.decrypt_notes(key) {
            Ok(notes) => notes,
            Err(e) => return Err(e),
        };
        Ok(DecryptedFields { site, username, password, notes })
    }

    /// Decrypts the four fields of any entry, one with a nonce of the wrong length too.
    pub fn open_entry(entry: &EncryptedEntry, key: &DerivedKey) -> (fields: Result<
        Self,
        VaultError,
    >)
        ensures
            view_ok(fields) == fields_of(*entry, key@),
            fields matches Ok(f) ==> {
                &&& opened_text(key@, entry.site_enc@) == Ok::<Seq<char>, VaultError>(f.site@)
                &&& opened_text(key@, entry.username_enc@) == Ok::<Seq<char>, VaultError>(
                    f.username@,
                )
                &&& opened_text(key@, entry.password_enc@) == Ok::<Seq<char>, VaultError>(
                    f.password@,
                )
                &&& opened_text(key@, entry.notes_enc@) == Ok::<Seq<char>, VaultError>(f.notes@)
            },
    {
        if entry.has_nonces_ok() {
            return Self::from_entry(entry, key);
        }
        if let Err(e) = open_text(entry.site_enc.as_str(), key) {
            return Err(e);
        }
        if let Err(e) = open_text(entry.username_enc.as_str(), key) {
            return Err(e);
        }
        if let Err(e) = open_text(entry.password_enc.as_str(), key) {
            return Err(e);
        }
        Err(VaultError::MalformedNonce)
    }
}

/// Whether the site of an entry decrypts and holds the query, upper and lower case alike.
pub open spec fn site_matches(entry: EncryptedEntry, query: Seq<char>, key: Seq<u8>) -> bool {
    opened_text(key, entry.site_enc@) matches Ok(site) && text::has_substring(
        text::lowercase(site),
        text::lowercase(query),
    )
}

/// Whether the site of an entry decrypts to another name than the query, cases aside.
pub open spec fn is_other_site(entry: EncryptedEntry, query: Seq<char>, key: Seq<u8>) -> bool {
    opened_text(key, entry.site_enc@) matches Ok(site) && text::lowercase(site) != text::lowercase(
        query,
    )
}

/// The entries, in their order, but for those whose site decrypts to another name than the query.
/// Entries whose site does not decrypt are kept.
pub fn drop_other_sites(rows: Vec<EncryptedEntry>, query: &str, key: &DerivedKey) -> (kept: Vec<
    EncryptedEntry,
>)
    ensures
        kept@ == rows@.filter(|e: EncryptedEntry| !is_other_site(e, query@, key@)),
{
    let q: String = to_lowercase(query);
    let ghost pred = |e: EncryptedEntry| !is_other_site(e, query@, key@);
    let mut kept: Vec<EncryptedEntry> = Vec::new();
    let ghost all = rows@;
    for entry in it: rows
        invariant
            it.seq() == all,
            q@ == text::lowercase(query@),
            pred == (|e: EncryptedEntry| !is_other_site(e, query@, key@)),
            kept@ == all.take(it.index()).filter(pred),
    {
        let ghost n = it.index();
        proof {
            assert(entry == all[n]);
            all.take(n).lemma_filter_push(entry, pred);
            assert(all.take(n + 1) =~= all.take(n).push(entry));
        }
        let keep: bool = match open_text(entry.site_enc.as_str(), key) {
            Ok(site) => to_lowercase(site.as_str()) == q,
            Err(_) => true,
        };
        if keep {
            kept.push(entry);
        }
    }
    assert(all.take(all.len() as int) =~= all);
    kept
}

/// The entries, in their order, whose site holds the query. Entries whose site does not decrypt
/// are passed over; one with a nonce of the wrong length stops the search.
pub fn filter_by_site(all: Vec<EncryptedEntry>, query: &str, key: &DerivedKey) -> (found: Result<
    Vec<EncryptedEntry>,
    VaultError,
>)
    ensures
        match found {
            Ok(f) => {
                &&& forall|i: int| 0 <= i < all@.len() ==> nonce_ok(#[trigger] all@[i].site_enc@)
                &&& f@ == all@.filter(|e: EncryptedEntry| site_matches(e, query@, key@))
            },
            Err(e) => {
                &&& e == VaultError::MalformedNonce
                &&& exists|i: int| 0 <= i < all@.len() && !nonce_ok(#[trigger] all@[i].site_enc@)
            },
        },
{
    let q: String = to_lowercase(query);
    let ghost pred = |e: EncryptedEntry| site_matches(e, query@, key@);
    let mut matches: Vec<EncryptedEntry> = Vec::new();
    let ghost rows = all@;
    for entry in it: all
        invariant
            it.seq() == rows,
            q@ == text::lowercase(query@),
            pred == (|e: EncryptedEntry| site_matches(e, query@, key@)),
            forall|i: int| 0 <= i < it.index() ==> nonce_ok(#[trigger] rows[i].site_enc@),
            matches@ == rows.take(it.index()).filter(pred),
    {
        let ghost n = it.index();
        proof {
            assert(entry == rows[n]);
            rows.take(n).lemma_filter_push(entry, pred);
            assert(rows.take(n + 1) =~= rows.take(n).push(entry));
        }
        if !has_nonce_ok(entry.site_enc.as_str()) {
            return Err(VaultError::MalformedNonce);
        }
        if let Ok(site) = entry.decrypt_site(key) {
            if contains(to_lowercase(site.as_str()).as_str(), q.as_str()) {
                matches.push(entry);
            }
        }
    }
    assert(rows.take(rows.len() as int) =~= rows);
    Ok(matches)
}

/// A decrypted entry shows each of its fields.
pub proof fn law_fields_view(fields: DecryptedFields)
    ensures
        fields@.0 == fields.site@,
        fields@.1 == fields.username@,
        fields@.2 == fields.password@,
        fields@.3 == fields.notes@,
{
}

/// An entry decrypts exactly where all four of its fields do, to what each of them opens to. The
/// first field that does not open, in the order site, user name, password, notes, gives the reason.
pub proof fn law_entry_opens_field_by_field(entry: EncryptedEntry, key: Seq<u8>)
    ensures
        ({
            let site = opened_text(key, entry.site_enc@);
            let username = opened_text(key, entry.username_enc@);
            let password = opened_text(key, entry.password_enc@);
            let notes = opened_text(key, entry.notes_enc@);
            &&& fields_of(entry, key) is Ok <==> site is Ok && username is Ok && password is Ok
                && notes is Ok
            &&& fields_of(entry, key) matches Ok(fields) ==> {
                &&& site == Ok::<Seq<char>, VaultError>(fields.0)
                &&& username == Ok::<Seq<char>, VaultError>(fields.1)
                &&& password == Ok::<Seq<char>, VaultError>(fields.2)
                &&& notes == Ok::<Seq<char>, VaultError>(fields.3)
            }
            &&& meets_bad_nonce(entry, key) <==> fields_of(entry, key) == Err::<
                (Seq<char>, Seq<char>, Seq<char>, Seq<char>),
                VaultError,
            >(VaultError::MalformedNonce)
            &&& fields_of(entry, key) matches Err(e) ==> {
                ||| site == Err::<Seq<char>, VaultError>(e)
                ||| site is Ok && username == Err::<Seq<char>, VaultError>(e)
                ||| site is Ok && username is Ok && password == Err::<Seq<char>, VaultError>(e)
                ||| site is Ok && username is Ok && password is Ok && notes == Err::<
                    Seq<char>,
                    VaultError,
                >(e)
            }
        }),
{
}

/// No field of an entry has a nonce of the wrong length exactly where that holds of each field; and
/// a field has one exactly where opening it, under whatever key, meets it.
pub proof fn law_nonces_ok(entry: EncryptedEntry, key: Seq<u8>)
    ensures
        ({
            let bad = Err::<Seq<char>, VaultError>(VaultError::MalformedNonce);
            &&& entry.nonces_ok() <==> opened_text(key, entry.site_enc@) != bad && opened_text(
                key,
                entry.username_enc@,
            ) != bad && opened_text(key, entry.password_enc@) != bad && opened_text(
                key,
                entry.notes_enc@,
            ) != bad
            &&& nonce_ok(entry.site_enc@) <==> opened_text(key, entry.site_enc@) != bad
        }),
{
}

/// Searching by a part of the name is complete: a row is found wherever its site decrypts to a name
/// whose lower-case form is some text, the lower-case query, and some more text.
pub proof fn law_substring_search_is_complete(
    rows: Seq<EncryptedEntry>,
    row: EncryptedEntry,
    query: Seq<char>,
    key: Seq<u8>,
    site: Seq<char>,
    before: Seq<char>,
    behind: Seq<char>,
)
    requires
        rows.contains(row),
        opened_text(key, row.site_enc@) == Ok::<Seq<char>, VaultError>(site),
        text::lowercase(site) == before + text::lowercase(query) + behind,
    ensures
        site_matches(row, query, key),
        rows.filter(|e: EncryptedEntry| site_matches(e, query, key)).contains(row),
{
    broadcast use group_filter_ensures;

    let name = text::lowercase(site);
    let part = text::lowercase(query);
    let n = before.len() as int;
    assert(name.subrange(n, n + part.len()) =~= part);
    let pred = |e: EncryptedEntry| site_matches(e, query, key);
    let i = rows.index_of(row);
    assert(rows[i] == row && pred(rows[i]));
}

/// Searching by a part of the name is sound: what is found is a row whose site decrypts to a name
/// whose lower-case form is some text, the lower-case query, and some more text.
pub proof fn law_substring_search_is_sound(
    rows: Seq<EncryptedEntry>,
    row: EncryptedEntry,
    query: Seq<char>,
    key: Seq<u8>,
)
    requires
        rows.filter(|e: EncryptedEntry| site_matches(e, query, key)).contains(row),
    ensures
        rows.contains(row),
        opened_text(key, row.site_enc@) is Ok,
        exists|before: Seq<char>, behind: Seq<char>|
            text::lowercase(opened_text(key, row.site_enc@)->Ok_0) == #[trigger] (before
                + text::lowercase(query) + behind),
{
    broadcast use group_filter_ensures;

    let pred = |e: EncryptedEntry| site_matches(e, query, key);
    let found = rows.filter(pred);
    let j = found.index_of(row);
    assert(found[j] == row && pred(row));
    rows.lemma_filter_contains_rev(pred, row);
    let name = text::lowercase(opened_text(key, row.site_enc@)->Ok_0);
    let part = text::lowercase(query);
    let i = choose|i: int|
        0 <= i <= name.len() - part.len() && #[trigger] name.subrange(i, i + part.len()) == part;
    let (before, behind) = (name.take(i), name.skip(i + part.len()));
    assert(name =~= before + part + behind);
}

/// A row is of another site than the query exactly where its site decrypts and its lower-case form
/// is not that of the query. Rows of that name in any case, and rows that do not decrypt, are not.
pub proof fn law_other_sites(row: EncryptedEntry, query: Seq<char>, key: Seq<u8>, site: Seq<char>)
    ensures
        opened_text(key, row.site_enc@) == Ok::<Seq<char>, VaultError>(site) ==> (is_other_site(
            row,
            query,
            key,
        ) <==> text::lowercase(site) != text::lowercase(query)),
        opened_text(key, row.site_enc@) is Err ==> !is_other_site(row, query, key),
{
}

} // verus!
