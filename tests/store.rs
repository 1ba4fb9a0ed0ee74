use masked_email_cli::disk::{pack_records, unpack_records, DBError, Database, HEADER_LEN};
use masked_email_cli::encryption::generate_key;
use masked_email_cli::encryption::generate_new_salt;
use masked_email_cli::model::{MaskedEmail, MaskedEmailState, Timestamp};
use masked_email_cli::secrets::{AesKeyValue, PasswordValue};

const STORE_PATH: &str = "/tmp/masked-email-test/masked_mails.db.enc";

fn put_text(out: &mut Vec<u8>, text: &str) {
    out.extend_from_slice(&(text.len() as u32).to_le_bytes());
    out.extend_from_slice(text.as_bytes());
}

fn put_optional_text(out: &mut Vec<u8>, text: &Option<String>) {
    match text {
        Some(t) => {
            out.push(1);
            put_text(out, t);
        }
        None => out.push(0),
    }
}

fn encode_email(e: &MaskedEmail) -> Vec<u8> {
    let mut out = Vec::new();
    put_text(&mut out, &e.internal_id);
    put_text(&mut out, &e.email);
    put_optional_text(&mut out, &e.description);
    put_optional_text(&mut out, &e.web_site);
    put_optional_text(&mut out, &e.integration_url);
    out.push(match e.state {
        MaskedEmailState::TemporalPending => 0,
        MaskedEmailState::Active => 1,
        MaskedEmailState::Disabled => 2,
        MaskedEmailState::MarkedForDeletion => 3,
    });
    out.extend_from_slice(&e.created_at.unix_micros.to_le_bytes());
    match e.last_message_at {
        Some(t) => {
            out.push(1);
            out.extend_from_slice(&t.unix_micros.to_le_bytes());
        }
        None => out.push(0),
    }
    out
}

struct Reader<'a> {
    bytes: &'a [u8],
    pos: usize,
}

impl<'a> Reader<'a> {
    fn take(&mut self, n: usize) -> &'a [u8] {
        let s = &self.bytes[self.pos..self.pos + n];
        self.pos += n;
        s
    }

    fn text(&mut self) -> String {
        let n = u32::from_le_bytes(self.take(4).try_into().unwrap()) as usize;
        String::from_utf8(self.take(n).to_vec()).unwrap()
    }

    fn optional_text(&mut self) -> Option<String> {
        if self.take(1)[0] == 1 {
            Some(self.text())
        } else {
            None
        }
    }

    fn time(&mut self) -> Timestamp {
        Timestamp { unix_micros: i64::from_le_bytes(self.take(8).try_into().unwrap()) }
    }
}

fn decode_email(bytes: &[u8]) -> MaskedEmail {
    let mut r = Reader { bytes, pos: 0 };
    let internal_id = r.text();
    let email = r.text();
    let description = r.optional_text();
    let web_site = r.optional_text();
    let integration_url = r.optional_text();
    let state = match r.take(1)[0] {
        0 => MaskedEmailState::TemporalPending,
        1 => MaskedEmailState::Active,
        2 => MaskedEmailState::Disabled,
        _ => MaskedEmailState::MarkedForDeletion,
    };
    let created_at = r.time();
    let last_message_at = if r.take(1)[0] == 1 { Some(r.time()) } else { None };
    MaskedEmail {
        internal_id,
        email,
        description,
        web_site,
        integration_url,
        state,
        created_at,
        last_message_at,
    }
}

fn sample_email(id: &str, email: &str) -> MaskedEmail {
    MaskedEmail {
        internal_id: id.to_owned(),
        email: email.to_owned(),
        description: None,
        web_site: None,
        integration_url: None,
        state: MaskedEmailState::Active,
        created_at: Timestamp { unix_micros: 0 },
        last_message_at: None,
    }
}

fn key_for(pass: &str, salt: &[u8; 12]) -> AesKeyValue {
    generate_key(&PasswordValue::from(pass.to_owned()), salt).expect("AES generation failed")
}

fn fixed_key(byte: u8) -> AesKeyValue {
    AesKeyValue { value: [byte; 32] }
}

fn header_of(salt: [u8; 12], micros: i64, count: u32) -> Vec<u8> {
    Database {
        path: STORE_PATH.to_owned(),
        key_derivation_salt: salt,
        last_update: Timestamp { unix_micros: micros },
        records_count: count,
    }
    .encode_header()
}

#[test]
fn database_not_exists() {
    let res = Database::init(STORE_PATH.to_owned(), None);
    match res {
        Err(DBError::FileNotFound(_)) => (),
        _ => panic!("Incorrect behaviour for database not found"),
    }
}

#[test]
fn incorrect_file_format() {
    let res = Database::init(STORE_PATH.to_owned(), Some("Masked Email Database".as_bytes()));
    match res {
        Err(DBError::IncorrectFileFormat) => (),
        _ => panic!("Incorrect behaviour for database file in incorrect format"),
    }
}

#[test]
fn read_valid_file_signature() {
    let salt = generate_new_salt();
    let now = Timestamp::now();
    let content = header_of(salt, now.unix_micros, 100u32);
    let res = Database::init(STORE_PATH.to_owned(), Some(content.as_slice())).expect("Error reading file");
    assert_eq!(res.key_derivation_salt, salt);
    assert_eq!(res.last_update, now);
    assert_eq!(res.records_count, 100u32);
}

#[test]
fn save_new_and_reload() {
    let db1 = Database::new(STORE_PATH.to_owned(), generate_new_salt(), Timestamp::now());
    assert_eq!(db1.records_count, 0u32);
    assert_eq!(db1.path, STORE_PATH);

    let records = vec![sample_email("id1", "example@example.com")];
    let key = key_for("weak_password", &db1.key_derivation_salt);

    let encoded: Vec<Vec<u8>> = records.iter().map(encode_email).collect();
    let file = db1.store(&encoded, &key).expect("Serialization failed");

    let db2 = Database::init(STORE_PATH.to_owned(), Some(file.as_slice())).expect("Failed to open the file");
    assert_eq!(db2.path, db1.path);
    assert_eq!(TryInto::<usize>::try_into(db2.records_count).unwrap(), records.len());
    assert_eq!(db2.key_derivation_salt, db1.key_derivation_salt);

    let res: Vec<MaskedEmail> = db2
        .load(file.as_slice(), &key)
        .expect("Decryption failed")
        .iter()
        .map(|b| decode_email(b))
        .collect();
    assert_eq!(res, records);
    assert!(db2.last_update.unix_micros < Timestamp::now().unix_micros);
}

#[test]
fn round_trip_keeps_every_record_in_order() {
    let salt = [7u8; 12];
    let db = Database::new(STORE_PATH.to_owned(), salt, Timestamp { unix_micros: 1 });
    let mut full = sample_email("id2", "b@c.org");
    full.description = Some("shop".to_owned());
    full.web_site = Some("shop.example".to_owned());
    full.integration_url = Some("https://shop.example/x".to_owned());
    full.state = MaskedEmailState::MarkedForDeletion;
    full.created_at = Timestamp { unix_micros: -5 };
    full.last_message_at = Some(Timestamp { unix_micros: 1_700_000_000_000_000 });
    let records = vec![sample_email("id1", "a@b.com"), full, sample_email("id3", "")];
    let encoded: Vec<Vec<u8>> = records.iter().map(encode_email).collect();
    let key = fixed_key(3);
    let file = db.store(&encoded, &key).unwrap();
    let reopened = Database::init(STORE_PATH.to_owned(), Some(file.as_slice())).unwrap();
    assert_eq!(reopened.records_count, 3);
    let loaded = reopened.load(file.as_slice(), &key).unwrap();
    assert_eq!(loaded, encoded);
    let decoded: Vec<MaskedEmail> = loaded.iter().map(|b| decode_email(b)).collect();
    assert_eq!(decoded, records);
}

#[test]
fn round_trip_of_no_records() {
    let db = Database::new(STORE_PATH.to_owned(), [1u8; 12], Timestamp { unix_micros: 9 });
    let key = fixed_key(4);
    let file = db.store(&Vec::new(), &key).unwrap();
    let reopened = Database::init(STORE_PATH.to_owned(), Some(file.as_slice())).unwrap();
    assert_eq!(reopened.records_count, 0);
    assert_eq!(reopened.load(file.as_slice(), &key).unwrap(), Vec::<Vec<u8>>::new());
}

#[test]
fn fresh_store_loads_empty_without_reading_the_body() {
    let db = Database::new(STORE_PATH.to_owned(), [2u8; 12], Timestamp { unix_micros: 5 });
    assert_eq!(db.load(b"not a store at all", &fixed_key(1)).unwrap(), Vec::<Vec<u8>>::new());
    assert_eq!(db.load(&[], &fixed_key(2)).unwrap(), Vec::<Vec<u8>>::new());
}

fn saved_file() -> (Vec<u8>, AesKeyValue) {
    let db = Database::new(STORE_PATH.to_owned(), [9u8; 12], Timestamp { unix_micros: 0 });
    let key = fixed_key(11);
    let records = vec![b"first record".to_vec(), b"second".to_vec()];
    (db.store(&records, &key).unwrap(), key)
}

fn load_file(file: &[u8], key: &AesKeyValue) -> Result<Vec<Vec<u8>>, DBError> {
    let db = Database::init(STORE_PATH.to_owned(), Some(file))?;
    db.load(file, key)
}

#[test]
fn flipping_any_sealed_byte_fails_to_load() {
    let (file, key) = saved_file();
    assert!(load_file(&file, &key).is_ok());
    // last update and record count (header), tag, ciphertext
    let mut places: Vec<usize> = (16..28).collect();
    places.extend(40..56);
    places.extend(64..file.len());
    for i in places {
        let mut bad = file.clone();
        bad[i] ^= 0x01;
        match load_file(&bad, &key) {
            Err(DBError::DecodingError) => (),
            other => panic!("byte {} flipped, got {:?}", i, other.map(|v| v.len())),
        }
    }
}

#[test]
fn wrong_key_fails_like_tampering() {
    let salt = [5u8; 12];
    let db = Database::new(STORE_PATH.to_owned(), salt, Timestamp { unix_micros: 0 });
    let right = key_for("first passphrase", &salt);
    let wrong = key_for("second passphrase", &salt);
    let file = db.store(&vec![b"secret".to_vec()], &right).unwrap();
    assert!(matches!(load_file(&file, &wrong), Err(DBError::DecodingError)));
    assert_eq!(load_file(&file, &right).unwrap(), vec![b"secret".to_vec()]);
}

#[test]
fn key_derivation_is_stable_and_salted() {
    let salt = [1u8; 12];
    let a = key_for("correct horse battery staple", &salt);
    let b = key_for("correct horse battery staple", &salt);
    let c = key_for("correct horse battery staple", &[2u8; 12]);
    assert_eq!(a.value, b.value);
    assert_ne!(a.value, c.value);
    assert_ne!(a.value, [0u8; 32]);
}

#[test]
fn two_saves_use_different_nonces() {
    let db = Database::new(STORE_PATH.to_owned(), [3u8; 12], Timestamp { unix_micros: 0 });
    let key = fixed_key(8);
    let records = vec![b"x".to_vec()];
    let first = db.store(&records, &key).unwrap();
    let second = db.store(&records, &key).unwrap();
    assert_ne!(first[HEADER_LEN..HEADER_LEN + 12], second[HEADER_LEN..HEADER_LEN + 12]);
}

#[test]
fn header_reads_over_a_garbage_body() {
    let salt = [6u8; 12];
    let mut file = header_of(salt, 42, 3);
    file.extend_from_slice(b"garbage that is no body");
    let db = Database::init(STORE_PATH.to_owned(), Some(file.as_slice())).unwrap();
    assert_eq!(db.key_derivation_salt, salt);
    assert_eq!(db.last_update, Timestamp { unix_micros: 42 });
    assert_eq!(db.records_count, 3);
    assert!(matches!(db.load(file.as_slice(), &fixed_key(1)), Err(DBError::DecodingError)));
}

#[test]
fn example_passphrase_scenario() {
    let salt = generate_new_salt();
    let db = Database::new(STORE_PATH.to_owned(), salt, Timestamp::now());
    let key = key_for("correct horse battery staple", &salt);
    let record = MaskedEmail {
        internal_id: "id1".to_owned(),
        email: "a@b.com".to_owned(),
        description: None,
        web_site: None,
        integration_url: None,
        state: MaskedEmailState::Active,
        created_at: Timestamp { unix_micros: 1_600_000_000_000_000 },
        last_message_at: None,
    };
    let file = db.store(&vec![encode_email(&record)], &key).unwrap();
    let loaded = load_file(&file, &key).unwrap();
    assert_eq!(decode_email(&loaded[0]), record);
    let mut bad = file.clone();
    bad[HEADER_LEN + 12] ^= 0xff;
    assert!(matches!(load_file(&bad, &key), Err(DBError::DecodingError)));
}

#[test]
fn file_image_layout() {
    let salt = [0xAAu8; 12];
    let db = Database::new(STORE_PATH.to_owned(), salt, Timestamp { unix_micros: 0 });
    let nonce = [0x11u8; 12];
    let now = Timestamp { unix_micros: 0x0102030405060708 };
    let records = vec![vec![1u8, 2, 3]];
    let file = db.file_image(&records, &fixed_key(2), now, &nonce).unwrap();
    assert_eq!(&file[0..4], &[b'M', b'E', b'F', 1u8]);
    assert_eq!(&file[4..16], &salt);
    assert_eq!(&file[16..24], &[8, 7, 6, 5, 4, 3, 2, 1]);
    assert_eq!(&file[24..28], &[1, 0, 0, 0]);
    assert_eq!(&file[28..40], &nonce);
    // one record: an 8-byte length and 3 bytes
    assert_eq!(&file[56..64], &[11, 0, 0, 0, 0, 0, 0, 0]);
    assert_eq!(file.len(), 64 + 11);
    let plain = pack_records(&records);
    assert_ne!(&file[64..], plain.as_slice());
    let again = db.file_image(&records, &fixed_key(2), now, &nonce).unwrap();
    assert_eq!(file, again);
}

#[test]
fn body_errors_are_decoding_errors() {
    let (file, key) = saved_file();
    let short = &file[..HEADER_LEN + 10];
    assert!(matches!(load_file(short, &key), Err(DBError::DecodingError)));
    let mut longer = file.clone();
    longer.push(0);
    assert!(matches!(load_file(&longer, &key), Err(DBError::DecodingError)));
    let header_only = &file[..HEADER_LEN];
    assert!(matches!(load_file(header_only, &key), Err(DBError::DecodingError)));
}

#[test]
fn short_or_unsigned_headers_are_refused() {
    let good = header_of([0u8; 12], 0, 0);
    assert!(matches!(
        Database::init(STORE_PATH.to_owned(), Some(&good[..HEADER_LEN - 1])),
        Err(DBError::IncorrectFileFormat)
    ));
    let mut unsigned = good.clone();
    unsigned[3] = 2;
    assert!(matches!(
        Database::init(STORE_PATH.to_owned(), Some(unsigned.as_slice())),
        Err(DBError::IncorrectFileFormat)
    ));
    assert!(Database::init(STORE_PATH.to_owned(), Some(good.as_slice())).is_ok());
}

#[test]
fn framing_layout_and_split() {
    let records = vec![vec![1u8, 2], vec![]];
    let plain = pack_records(&records);
    assert_eq!(plain, vec![2, 0, 0, 0, 0, 0, 0, 0, 1, 2, 0, 0, 0, 0, 0, 0, 0, 0]);
    assert_eq!(unpack_records(&plain), Some(records));
    assert_eq!(unpack_records(&[]), Some(vec![]));
    assert_eq!(unpack_records(&[5, 0, 0]), None);
    assert_eq!(unpack_records(&[5, 0, 0, 0, 0, 0, 0, 0, 1]), None);
}

#[test]
fn record_count_must_match_plaintext() {
    let db = Database::new(STORE_PATH.to_owned(), [0u8; 12], Timestamp { unix_micros: 0 });
    let plain = pack_records(&vec![vec![1u8]]);
    assert!(matches!(db.records_from_plaintext(&plain), Err(DBError::DecodingError)));
    let counted = Database { records_count: 1, ..db };
    assert_eq!(counted.records_from_plaintext(&plain).unwrap(), vec![vec![1u8]]);
}
