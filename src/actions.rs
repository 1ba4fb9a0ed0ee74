//! The decisions of the commands that read and refresh the store. Each
//! step function takes what the previous outside action gave (a vault
//! lookup, a download, a file read or write) and says what to do next.

use vstd::prelude::*;
use vstd::string::StringExecFns;
use vstd::utf8::encode_utf8;

use crate::disk::{
    is_saved_file, load_spec, parse_header, records_storable, records_view, DBError, Database,
};
use crate::encryption::{
    argon2id_key, generate_key, generate_new_salt, EncryptionError, PASSWORD_MAX,
};
use crate::model::Timestamp;
use crate::secrets::{AesKeyValue, FastMailAccount, PasswordStorageError};

verus! {

/// Who the user is and where the store lives.
pub struct AppConfig {
    pub user_name: String,
    pub storage: String,
}

/// The text of a configuration file: one `key = "value"` line per field.
pub open spec fn config_text(user_name: Seq<char>, storage: Seq<char>) -> Seq<char> {
    "user_name = \""@ + user_name + "\"\nstorage = \""@ + storage + "\"\n"@
}

impl AppConfig {
    /// The text of the configuration file that holds this configuration.
    pub fn to_toml(&self) -> (r: String)
        ensures
            r@ == config_text(self.user_name@, self.storage@),
    {
        let mut r = "user_name = \"".to_owned();
        r.append(self.user_name.as_str());
        r.append("\"\nstorage = \"");
        r.append(self.storage.as_str());
        r.append("\"\n");
        r
    }
}

/// Why a command failed.
#[derive(Debug)]
pub enum ActionError {
    /// The secret vault failed.
    PasswordStorage(PasswordStorageError),
    /// The vault holds no key for the store.
    PasswordNotFound,
    /// The vault holds no token for the account.
    PasswordSetup,
    /// The key could not be derived.
    KeyNotGenerated(EncryptionError),
    /// The remote service failed, as it reported.
    FastMail(String),
    /// The store could not be read or written.
    Database(DBError),
    /// No store could be opened at this location.
    DatabaseNotFound(String),
    /// The export script failed, as it reported.
    ExportScript(String),
}

/// The next thing a refresh of the store needs from outside, with what it has
/// gathered so far.
pub enum RefreshStep {
    /// Fetch every alias from the remote service with the account's token;
    /// each alias comes back as its encoded bytes.
    FetchRecords { account: FastMailAccount },
    /// Read the store file, if there is one.
    ReadStore { account: FastMailAccount, records: Vec<Vec<u8>> },
    /// Ask the vault for the key of the store.
    LoadKey { account: FastMailAccount, records: Vec<Vec<u8>>, db: Database },
    /// Put this key into the vault.
    SaveKey { key: AesKeyValue, records: Vec<Vec<u8>>, db: Database },
    /// Write these bytes as the store file.
    WriteStore { file: Vec<u8> },
    /// The refresh is over.
    Finished(Result<(), ActionError>),
}

/// The bytes of a passphrase, as the key derivation reads them.
pub open spec fn passphrase_bytes(account: FastMailAccount) -> Seq<u8> {
    encode_utf8(account.bearer.value@)
}

/// What follows once the key of the store is known: the new file, sealed with
/// the store's own salt, or an encoding error.
pub open spec fn writes_records(r: RefreshStep, db: Database, records: Seq<Seq<u8>>, key: Seq<u8>) -> bool {
    if records_storable(records) {
        r matches RefreshStep::WriteStore { file } && is_saved_file(
            file@,
            db.key_derivation_salt@,
            records,
            key,
        )
    } else {
        r == RefreshStep::Finished(Err(ActionError::Database(DBError::EncodingError)))
    }
}

/// What follows once a key must be derived for the store: the key derived
/// from the account's passphrase and the store's salt, to be put into the
/// vault, or a key derivation error.
pub open spec fn derives_key(r: RefreshStep, account: FastMailAccount, db: Database, records: Seq<Seq<u8>>) -> bool {
    if passphrase_bytes(account).len() <= PASSWORD_MAX {
        r matches RefreshStep::SaveKey { key, records: kept, db: kept_db } && key.value@
            == argon2id_key(passphrase_bytes(account), db.key_derivation_salt@)
            && records_view(kept@) == records && kept_db == db
    } else {
        r matches RefreshStep::Finished(Err(ActionError::KeyNotGenerated(e))) && e is KeyGeneration
    }
}

/// Starts a refresh from what the vault holds for the account: without a
/// token there is nothing to fetch.
pub fn refresh_db(token: Result<Option<FastMailAccount>, PasswordStorageError>) -> (r: RefreshStep)
    ensures
        match token {
            Err(e) => r == RefreshStep::Finished(Err(ActionError::PasswordStorage(e))),
            Ok(None) => r == RefreshStep::Finished(Err(ActionError::PasswordSetup)),
            Ok(Some(account)) => r == RefreshStep::FetchRecords { account },
        },
{
    match token {
        Err(e) => RefreshStep::Finished(Err(ActionError::PasswordStorage(e))),
        Ok(None) => RefreshStep::Finished(Err(ActionError::PasswordSetup)),
        Ok(Some(account)) => RefreshStep::FetchRecords { account },
    }
}

/// Goes on once the remote service answered.
pub fn refresh_after_fetch(account: FastMailAccount, fetched: Result<Vec<Vec<u8>>, String>) -> (r: RefreshStep)
    ensures
        match fetched {
            Err(m) => r == RefreshStep::Finished(Err(ActionError::FastMail(m))),
            Ok(records) => r == RefreshStep::ReadStore { account, records },
        },
{
    match fetched {
        Err(m) => RefreshStep::Finished(Err(ActionError::FastMail(m))),
        Ok(records) => RefreshStep::ReadStore { account, records },
    }
}

/// Derives the key of `db` from the account's passphrase.
fn derive_store_key(account: FastMailAccount, records: Vec<Vec<u8>>, db: Database) -> (r: RefreshStep)
    ensures
        derives_key(r, account, db, records_view(records@)),
{
    match generate_key(&account.bearer, &db.key_derivation_salt) {
        Ok(key) => RefreshStep::SaveKey { key, records, db },
        Err(e) => RefreshStep::Finished(Err(ActionError::KeyNotGenerated(e))),
    }
}

/// Seals the records into a new file for `db`.
fn seal_store(db: &Database, records: &Vec<Vec<u8>>, key: &AesKeyValue) -> (r: RefreshStep)
    ensures
        writes_records(r, *db, records_view(records@), key.value@),
{
    match db.store(records, key) {
        Ok(file) => RefreshStep::WriteStore { file },
        Err(e) => RefreshStep::Finished(Err(ActionError::Database(e))),
    }
}

/// Goes on once the store file was read (`None`: there is none). An existing
/// store keeps its salt and its key is looked up; otherwise a fresh store is
/// made with a new salt, and its key is derived from the passphrase.
pub fn refresh_after_read(config: &AppConfig, account: FastMailAccount, records: Vec<Vec<u8>>, contents: Option<Vec<u8>>) -> (r: RefreshStep)
    ensures
        contents matches Some(b) && parse_header(b@) is Some ==> (r matches RefreshStep::LoadKey {
            account: a,
            records: kept,
            db,
        } && a == account && kept == records && Some(db@) == parse_header(
            contents.unwrap()@,
        ) && db.path == config.storage),
        (contents is None || parse_header(contents.unwrap()@) is None) ==> exists|db: Database|
            db.records_count == 0 && db.path == config.storage && derives_key(
                r,
                account,
                db,
                records_view(records@),
            ),
{
    let opened = match &contents {
        Some(b) => Database::init(config.storage.clone(), Some(b.as_slice())),
        None => Database::init(config.storage.clone(), None),
    };
    match opened {
        Ok(db) => RefreshStep::LoadKey { account, records, db },
        Err(_) => {
            let db = Database::new(config.storage.clone(), generate_new_salt(), Timestamp::now());
            derive_store_key(account, records, db)
        },
    }
}

/// Goes on once the vault answered for the store key: a stored key is used
/// as it is; without one, the key is derived again from the passphrase and
/// the salt that the store has kept since it was made.
pub fn refresh_after_key_lookup(account: FastMailAccount, records: Vec<Vec<u8>>, db: Database, found: Result<Option<AesKeyValue>, PasswordStorageError>) -> (r: RefreshStep)
    ensures
        match found {
            Err(e) => r == RefreshStep::Finished(Err(ActionError::PasswordStorage(e))),
            Ok(Some(key)) => writes_records(r, db, records_view(records@), key.value@),
            Ok(None) => derives_key(r, account, db, records_view(records@)),
        },
{
    match found {
        Err(e) => RefreshStep::Finished(Err(ActionError::PasswordStorage(e))),
        Ok(Some(key)) => seal_store(&db, &records, &key),
        Ok(None) => derive_store_key(account, records, db),
    }
}

/// Goes on once the vault stored the key.
pub fn refresh_after_key_saved(key: AesKeyValue, records: Vec<Vec<u8>>, db: Database, saved: Result<(), PasswordStorageError>) -> (r: RefreshStep)
    ensures
        match saved {
            Err(e) => r == RefreshStep::Finished(Err(ActionError::PasswordStorage(e))),
            Ok(()) => writes_records(r, db, records_view(records@), key.value@),
        },
{
    match saved {
        Err(e) => RefreshStep::Finished(Err(ActionError::PasswordStorage(e))),
        Ok(()) => seal_store(&db, &records, &key),
    }
}

/// Ends the refresh once the file was written.
pub fn refresh_after_write(written: Result<(), DBError>) -> (r: RefreshStep)
    ensures
        match written {
            Err(e) => r == RefreshStep::Finished(Err(ActionError::Database(e))),
            Ok(()) => r == RefreshStep::Finished(Ok(())),
        },
{
    match written {
        Err(e) => RefreshStep::Finished(Err(ActionError::Database(e))),
        Ok(()) => RefreshStep::Finished(Ok(())),
    }
}

/// The next thing opening the store for reading needs from outside.
pub enum OpenStep {
    /// Ask the vault for the key of this store, whose file holds `contents`.
    LoadKey { db: Database, contents: Vec<u8> },
    /// Over: the encoded records, or why they could not be read.
    Finished(Result<Vec<Vec<u8>>, ActionError>),
}

/// Opens the store from its file (`None`: there is none); only the header
/// is read.
fn open_store(config: &AppConfig, contents: Option<Vec<u8>>) -> (r: OpenStep)
    ensures
        match contents {
            Some(b) => match parse_header(b@) {
                Some(h) => r matches OpenStep::LoadKey { db, contents: kept } && db@ == h && db.path
                    == config.storage && kept == b,
                None => r == OpenStep::Finished(Err(ActionError::DatabaseNotFound(config.storage))),
            },
            None => r == OpenStep::Finished(Err(ActionError::DatabaseNotFound(config.storage))),
        },
{
    let opened = match &contents {
        Some(b) => Database::init(config.storage.clone(), Some(b.as_slice())),
        None => Database::init(config.storage.clone(), None),
    };
    match (opened, contents) {
        (Ok(db), Some(b)) => OpenStep::LoadKey { db, contents: b },
        _ => OpenStep::Finished(Err(ActionError::DatabaseNotFound(config.storage.clone()))),
    }
}

/// Starts showing the aliases: opens the store from its file.
pub fn show_emails(config: &AppConfig, contents: Option<Vec<u8>>) -> (r: OpenStep)
    ensures
        match contents {
            Some(b) => match parse_header(b@) {
                Some(h) => r matches OpenStep::LoadKey { db, contents: kept } && db@ == h && db.path
                    == config.storage && kept == b,
                None => r == OpenStep::Finished(Err(ActionError::DatabaseNotFound(config.storage))),
            },
            None => r == OpenStep::Finished(Err(ActionError::DatabaseNotFound(config.storage))),
        },
{
    open_store(config, contents)
}

/// Starts exporting the aliases through a script: opens the store from its
/// file.
pub fn export_lua(config: &AppConfig, contents: Option<Vec<u8>>) -> (r: OpenStep)
    ensures
        match contents {
            Some(b) => match parse_header(b@) {
                Some(h) => r matches OpenStep::LoadKey { db, contents: kept } && db@ == h && db.path
                    == config.storage && kept == b,
                None => r == OpenStep::Finished(Err(ActionError::DatabaseNotFound(config.storage))),
            },
            None => r == OpenStep::Finished(Err(ActionError::DatabaseNotFound(config.storage))),
        },
{
    open_store(config, contents)
}

/// Decrypts the records once the vault answered for the store key.
pub fn open_with_key(db: &Database, contents: &[u8], found: Result<Option<AesKeyValue>, PasswordStorageError>) -> (r: Result<Vec<Vec<u8>>, ActionError>)
    ensures
        match found {
            Err(e) => r == Err::<Vec<Vec<u8>>, ActionError>(ActionError::PasswordStorage(e)),
            Ok(None) => r == Err::<Vec<Vec<u8>>, ActionError>(ActionError::PasswordNotFound),
            Ok(Some(key)) => match load_spec(db@, contents@, key.value@) {
                Some(recs) => r matches Ok(v) && records_view(v@) == recs,
                None => r == Err::<Vec<Vec<u8>>, ActionError>(
                    ActionError::Database(DBError::DecodingError),
                ),
            },
        },
{
    match found {
        Err(e) => Err(ActionError::PasswordStorage(e)),
        Ok(None) => Err(ActionError::PasswordNotFound),
        Ok(Some(key)) => match db.load(contents, &key) {
            Ok(records) => Ok(records),
            Err(e) => Err(ActionError::Database(e)),
        },
    }
}

} // verus!
