use pastebin::error::PasteError;
use pastebin::models::PasteMeta;
use pastebin::paste_data::{paste_field, PasteData, MAX_FORM_SIZE};
use pastebin::paste_id::{generate_deletion_key, token_from_draws, valid_id, PasteID, KEY_SIZE, SIZE};
use pastebin::service::{PasteDel, PasteService, DEFAULT_TTL, MAX_PASTE_SIZE};
use pastebin::store::PasteStore;
use pastebin::sweeper::{RowOutcome, Sweeper};

const BASE: &str = "http://localhost:8000";
const ID_A: &str = "pSz062HQr66TgmluU2hXK7He";
const KEY_A: &str = "0123456789abcdef";

fn alnum(s: &str) -> bool {
    s.chars().all(|c| c.is_ascii_alphanumeric())
}

fn service() -> PasteService {
    PasteService::new(BASE.to_string())
}

#[test]
fn create_then_retrieve_returns_content() {
    let svc = service();
    let mut store = PasteStore::new();
    let body = "hello world".to_string();
    let p = svc.create(&mut store, &body).unwrap();
    assert_eq!(p.id.len(), 24);
    assert!(alnum(&p.id));
    assert_eq!(p.key.len(), 16);
    assert!(alnum(&p.key));
    assert_eq!(p.ttl, 604800);
    assert_eq!(p.link, format!("{}/{}", BASE, p.id));
    assert_eq!(svc.retrieve(&store, &p.id).unwrap(), "hello world");
}

#[test]
fn create_records_current_time() {
    let svc = service();
    let mut store = PasteStore::new();
    let p = svc.create(&mut store, &"x".to_string()).unwrap();
    let record = store.find_record(&p.id).unwrap();
    assert!(record.get_created() > 1_500_000_000);
    assert_eq!(record.get_key_cloned(), p.key);
    assert_eq!(record.get_paste_cloned(), "x");
}

#[test]
fn oversized_create_is_rejected_and_stores_unchanged() {
    let svc = service();
    let mut store = PasteStore::new();
    let body = "X".repeat(MAX_PASTE_SIZE + 1);
    assert_eq!(svc.create(&mut store, &body).err(), Some(PasteError::PayloadTooLarge));
    assert!(store.meta.list_all().is_empty());
    assert!(store.content.ids().is_empty());
}

#[test]
fn oversized_multibyte_content_is_measured_in_bytes() {
    let svc = service();
    let mut store = PasteStore::new();
    let body = "é".repeat(MAX_PASTE_SIZE / 2 + 1);
    let r = svc.create_at(&mut store, &body, ID_A.to_string(), KEY_A.to_string(), 10);
    assert_eq!(r.err(), Some(PasteError::PayloadTooLarge));
}

#[test]
fn content_at_the_ceiling_is_accepted() {
    let svc = service();
    let mut store = PasteStore::new();
    let body = "X".repeat(MAX_PASTE_SIZE);
    let p = svc.create(&mut store, &body).unwrap();
    assert_eq!(svc.retrieve(&store, &p.id).unwrap().len(), 4 * 1024 * 1024);
}

#[test]
fn empty_content_is_stored() {
    let svc = service();
    let mut store = PasteStore::new();
    let p = svc.create(&mut store, &String::new()).unwrap();
    assert_eq!(svc.retrieve(&store, &p.id).unwrap(), "");
}

#[test]
fn unknown_id_is_not_found() {
    let svc = service();
    let store = PasteStore::new();
    assert_eq!(svc.retrieve(&store, ID_A).err(), Some(PasteError::NotFound));
}

#[test]
fn malformed_id_is_not_found() {
    let svc = service();
    let mut store = PasteStore::new();
    store.content.put("abc".to_string(), "data".to_string(), 0);
    assert_eq!(svc.retrieve(&store, "abc").err(), Some(PasteError::NotFound));
    assert_eq!(svc.retrieve(&store, "invalid_url").err(), Some(PasteError::NotFound));
}

#[test]
fn retrieval_ends_when_ttl_elapses() {
    let svc = PasteService::with_ttl(BASE.to_string(), 100);
    let mut store = PasteStore::new();
    svc.create_at(&mut store, &"abc".to_string(), ID_A.to_string(), KEY_A.to_string(), 1000)
        .unwrap();
    assert_eq!(svc.retrieve_at(&store, ID_A, 1000).unwrap(), "abc");
    assert_eq!(svc.retrieve_at(&store, ID_A, 1099).unwrap(), "abc");
    assert_eq!(svc.retrieve_at(&store, ID_A, 1100).err(), Some(PasteError::NotFound));
}

#[test]
fn create_with_taken_id_conflicts() {
    let svc = service();
    let mut store = PasteStore::new();
    let p = svc
        .create_at(&mut store, &"one".to_string(), ID_A.to_string(), KEY_A.to_string(), 5)
        .unwrap();
    assert_eq!(p.id, ID_A);
    assert_eq!(p.key, KEY_A);
    assert_eq!(p.link, "http://localhost:8000/pSz062HQr66TgmluU2hXK7He");
    let again =
        svc.create_at(&mut store, &"two".to_string(), ID_A.to_string(), "k".to_string(), 6);
    assert_eq!(again.err(), Some(PasteError::Conflict));
    assert_eq!(svc.retrieve_at(&store, ID_A, 6).unwrap(), "one");
}

#[test]
fn delete_with_key_removes_paste() {
    let svc = service();
    let mut store = PasteStore::new();
    let p = svc.create(&mut store, &"secret".to_string()).unwrap();
    assert_eq!(svc.delete(&mut store, &p.id, &p.key), Ok(()));
    assert_eq!(svc.retrieve(&store, &p.id).err(), Some(PasteError::NotFound));
    assert!(!store.content.contains(&p.id));
    assert!(store.meta.find_by_id(&p.id).is_none());
}

#[test]
fn delete_with_wrong_key_keeps_paste() {
    let svc = service();
    let mut store = PasteStore::new();
    let p = svc.create(&mut store, &"secret".to_string()).unwrap();
    let wrong = "AAAAAAAAAAAAAAAA";
    assert_ne!(wrong, p.key);
    assert_eq!(svc.delete(&mut store, &p.id, wrong), Err(PasteError::Authorization));
    assert_eq!(svc.retrieve(&store, &p.id).unwrap(), "secret");
}

#[test]
fn delete_with_key_of_other_length_is_refused() {
    let svc = service();
    let mut store = PasteStore::new();
    svc.create_at(&mut store, &"a".to_string(), ID_A.to_string(), KEY_A.to_string(), 1).unwrap();
    assert_eq!(svc.delete(&mut store, ID_A, "0123"), Err(PasteError::Authorization));
    assert_eq!(svc.delete(&mut store, ID_A, ""), Err(PasteError::Authorization));
    assert_eq!(svc.retrieve_at(&store, ID_A, 2).unwrap(), "a");
}

#[test]
fn second_delete_changes_nothing() {
    let svc = service();
    let mut store = PasteStore::new();
    let p = svc.create(&mut store, &"one".to_string()).unwrap();
    let q = svc.create(&mut store, &"two".to_string()).unwrap();
    assert_eq!(svc.delete(&mut store, &p.id, &p.key), Ok(()));
    assert_eq!(svc.delete(&mut store, &p.id, &p.key), Ok(()));
    assert_eq!(svc.delete(&mut store, &p.id, "AAAAAAAAAAAAAAAA"), Err(PasteError::NotFound));
    assert_eq!(store.meta.list_all().len(), 1);
    assert_eq!(store.content.ids().len(), 1);
    assert_eq!(svc.retrieve(&store, &q.id).unwrap(), "two");
}

#[test]
fn unknown_and_wrong_key_read_the_same() {
    assert_eq!(PasteError::NotFound.message(), "Invalid Paste ID or Key");
    assert_eq!(PasteError::Authorization.message(), "Invalid Paste ID or Key");
    assert_eq!(PasteError::PayloadTooLarge.message(), "Too large!");
    assert_eq!(PasteError::Conflict.message(), "Paste ID already taken");
}

#[test]
fn sweep_removes_expired_and_keeps_live() {
    let svc = PasteService::with_ttl(BASE.to_string(), 100);
    let mut store = PasteStore::new();
    let other = "AAAAAAAAAAAAAAAAAAAAAAAA";
    svc.create_at(&mut store, &"old".to_string(), ID_A.to_string(), KEY_A.to_string(), 1000)
        .unwrap();
    svc.create_at(&mut store, &"new".to_string(), other.to_string(), KEY_A.to_string(), 1050)
        .unwrap();
    let sweeper = Sweeper::new(60, 604800);
    let first = sweeper.run_cycle(&mut store, 1100);
    assert!(first.expired.is_empty() && first.zombies.is_empty() && first.orphans.is_empty());
    assert!(store.meta.find_by_id(ID_A).is_some());
    assert!(store.content.contains(ID_A));
    let second = sweeper.run_cycle(&mut store, 1101);
    assert_eq!(second.expired, vec![ID_A.to_string()]);
    assert!(second.zombies.is_empty() && second.orphans.is_empty());
    assert!(store.meta.find_by_id(ID_A).is_none());
    assert!(!store.content.contains(ID_A));
    assert!(store.meta.find_by_id(other).is_some());
    assert!(store.content.contains(other));
    sweeper.run_cycle(&mut store, 1151);
    assert!(store.meta.list_all().is_empty());
    assert!(store.content.ids().is_empty());
}

#[test]
fn sweep_removes_row_whose_content_is_gone() {
    let svc = service();
    let mut store = PasteStore::new();
    svc.create_at(&mut store, &"x".to_string(), ID_A.to_string(), KEY_A.to_string(), 500)
        .unwrap();
    assert!(store.content.delete(ID_A));
    assert!(!store.content.delete(ID_A));
    let report = Sweeper::new(60, 604800).run_cycle(&mut store, 501);
    assert_eq!(report.zombies, vec![ID_A.to_string()]);
    assert!(report.expired.is_empty() && report.orphans.is_empty());
    assert!(store.meta.find_by_id(ID_A).is_none());
}

#[test]
fn sweep_ages_out_content_without_row() {
    let mut store = PasteStore::new();
    store.content.put(ID_A.to_string(), "orphan".to_string(), 0);
    let sweeper = Sweeper::new(60, 10);
    assert_eq!(sweeper.interval_secs(), 60);
    sweeper.run_cycle(&mut store, 10);
    assert_eq!(store.content.get(ID_A), Some("orphan".to_string()));
    assert_eq!(store.content.stored_at(ID_A), Some(0));
    let report = sweeper.run_cycle(&mut store, 11);
    assert_eq!(report.orphans, vec![ID_A.to_string()]);
    assert!(!store.content.contains(ID_A));
}

#[test]
fn sweep_now_keeps_fresh_paste() {
    let svc = service();
    let mut store = PasteStore::new();
    let p = svc.create(&mut store, &"fresh".to_string()).unwrap();
    Sweeper::new(420, DEFAULT_TTL as i64).run_cycle_now(&mut store);
    assert_eq!(svc.retrieve(&store, &p.id).unwrap(), "fresh");
}

#[test]
fn hello_world_round_trip() {
    let svc = service();
    let mut store = PasteStore::new();
    let p = svc.create(&mut store, &"hello world".to_string()).unwrap();
    assert_eq!(p.id.len(), 24);
    assert_eq!(p.key.len(), 16);
    assert_eq!(p.ttl, 604800);
    assert_eq!(svc.retrieve(&store, &p.id).unwrap(), "hello world");
    let form = PasteDel { paste_id: p.id.clone(), paste_key: p.key.clone() };
    assert_eq!(svc.remove(&mut store, &form).unwrap(), format!("Paste {} removed", p.id));
    assert_eq!(svc.retrieve(&store, &p.id).err(), Some(PasteError::NotFound));
    assert_eq!(svc.remove(&mut store, &form).unwrap(), format!("Paste {} removed", p.id));
    assert_eq!(svc.retrieve(&store, &p.id).err(), Some(PasteError::NotFound));
    let wrong = PasteDel { paste_id: p.id.clone(), paste_key: "0000000000000000".to_string() };
    let err = svc.remove(&mut store, &wrong).unwrap_err();
    assert_eq!(err.message(), "Invalid Paste ID or Key");
}

#[test]
fn metadata_create_refuses_taken_id() {
    let mut store = PasteStore::new();
    let row = PasteMeta { key: KEY_A.to_string(), ttl: 5, created: 1 };
    assert_eq!(store.meta.create(ID_A.to_string(), row), Ok(()));
    let row2 = PasteMeta { key: "x".to_string(), ttl: 9, created: 2 };
    assert_eq!(store.meta.create(ID_A.to_string(), row2), Err(PasteError::Conflict));
    assert_eq!(store.meta.find_by_id(ID_A).unwrap().ttl, 5);
    assert!(store.meta.delete_by_id(ID_A));
    assert!(!store.meta.delete_by_id(ID_A));
}

#[test]
fn find_record_needs_both_stores() {
    let svc = PasteService::with_ttl(BASE.to_string(), 30);
    let mut store = PasteStore::new();
    svc.create_at(&mut store, &"body".to_string(), ID_A.to_string(), KEY_A.to_string(), 7)
        .unwrap();
    let rec = store.find_record(ID_A).unwrap();
    assert_eq!(rec.get_id_cloned(), ID_A);
    assert_eq!(rec.get_ttl_u64(), 30);
    assert_eq!(rec.get_ttl_i64(), 30);
    assert_eq!(rec.get_created(), 7);
    store.content.delete(ID_A);
    assert!(store.find_record(ID_A).is_none());
}

#[test]
fn declared_lengths_over_the_ceiling_are_refused() {
    assert_eq!(MAX_FORM_SIZE, 4 * 1024 * 1024 + 6);
    assert_eq!(PasteData::check_declared_lengths(&vec![]), Ok(()));
    assert_eq!(PasteData::check_declared_lengths(&vec![42, MAX_FORM_SIZE]), Ok(()));
    assert_eq!(
        PasteData::check_declared_lengths(&vec![42, MAX_FORM_SIZE + 1]),
        Err(PasteError::PayloadTooLarge)
    );
    let data = PasteData::new("abc".to_string());
    assert_eq!(data.get_content_cloned(), "abc");
    assert_eq!(data.into_content(), "abc");
}

#[test]
fn generated_tokens_have_the_alphabet_and_length() {
    let id = PasteID::new();
    let s = id.as_str().to_string();
    assert_eq!(s.len(), SIZE);
    assert!(alnum(&s));
    assert!(valid_id(&s));
    assert_eq!(id.id(), s);
    let key = generate_deletion_key();
    assert_eq!(key.len(), KEY_SIZE);
    assert!(alnum(&key));
    let ids: Vec<String> = (0..20).map(|_| PasteID::new().id()).collect();
    assert!(ids.iter().any(|x| x != &ids[0]));
}

#[test]
fn valid_id_checks_length_and_alphabet() {
    assert!(valid_id(ID_A));
    assert!(!valid_id("pSz062HQr66TgmluU2hXK7H"));
    assert!(!valid_id("pSz062HQr66TgmluU2hXK7Hee"));
    assert!(!valid_id("pSz062HQr66TgmluU2hXK7H-"));
    assert!(!valid_id("pSz062HQr66TgmluU2hXK7Hé"));
    assert!(!valid_id("%Sz062HQr66TgmluU2hXK7He"));
    assert!(!valid_id(""));
    assert!(PasteID::from_param(ID_A).is_ok());
    assert_eq!(PasteID::from_param("invalid_url").err(), Some("invalid_url"));
    assert_eq!(PasteID::new_with_size(7).id().len(), 7);
}

#[test]
fn content_without_row_is_not_retrievable() {
    let svc = service();
    let mut store = PasteStore::new();
    store.content.put(ID_A.to_string(), "orphan".to_string(), 0);
    assert_eq!(svc.retrieve_at(&store, ID_A, 1).err(), Some(PasteError::NotFound));
    assert_eq!(svc.delete(&mut store, ID_A, KEY_A), Err(PasteError::NotFound));
    assert!(store.content.contains(ID_A));
}

#[test]
fn service_settings_are_kept() {
    let svc = service();
    assert_eq!(svc.ttl(), DEFAULT_TTL);
    assert_eq!(svc.link("abc"), "http://localhost:8000/abc");
    let short = PasteService::with_ttl("https://paste.example".to_string(), 60);
    assert_eq!(short.ttl(), 60);
    assert_eq!(short.link(ID_A), format!("https://paste.example/{}", ID_A));
}

#[test]
fn test_post() {
    let svc = service();
    let mut store = PasteStore::new();
    let content = "X".repeat(42);
    let p = svc.create(&mut store, &content).unwrap();
    assert_eq!(p.id.len(), 24);
    assert!(alnum(&p.id));
    assert_eq!(svc.retrieve(&store, &p.id).unwrap(), content);
}

#[test]
fn tokens_follow_the_draws() {
    let draws: Vec<usize> = vec![0, 9, 10, 35, 36, 61, 62, 125, usize::MAX];
    assert_eq!(token_from_draws(&draws), format!("09AZaz01{}", "0123456789ABCDEFGHIJKLMNOPQRSTUVWXYZabcdefghijklmnopqrstuvwxyz".as_bytes()[usize::MAX % 62] as char));
    assert_eq!(token_from_draws(&vec![]), "");
    let id = PasteID::from_draws(&vec![1; 24]);
    assert_eq!(id.id(), "1".repeat(24));
}

#[test]
fn form_field_is_what_follows_the_first_marker() {
    assert_eq!(paste_field("paste=abc"), Some("abc".to_string()));
    assert_eq!(paste_field("paste="), Some(String::new()));
    assert_eq!(paste_field("x=1&paste=hi paste=there"), Some("hi paste=there".to_string()));
    assert_eq!(paste_field("pastepaste=é"), Some("é".to_string()));
    assert_eq!(paste_field("paste"), None);
    assert_eq!(paste_field(""), None);
    assert_eq!(paste_field("Paste=abc"), None);
}

#[test]
fn sweep_steps_one_entry_at_a_time() {
    let svc = PasteService::with_ttl(BASE.to_string(), 10);
    let mut store = PasteStore::new();
    let other = "BBBBBBBBBBBBBBBBBBBBBBBB";
    svc.create_at(&mut store, &"a".to_string(), ID_A.to_string(), KEY_A.to_string(), 0).unwrap();
    svc.create_at(&mut store, &"b".to_string(), other.to_string(), KEY_A.to_string(), 0).unwrap();
    store.content.delete(other);
    let sweeper = Sweeper::new(60, 100);
    assert_eq!(sweeper.sweep_row(&mut store, ID_A, 10), RowOutcome::Kept);
    assert_eq!(sweeper.sweep_row(&mut store, other, 10), RowOutcome::Zombie);
    assert_eq!(sweeper.sweep_row(&mut store, ID_A, 11), RowOutcome::Expired);
    assert_eq!(sweeper.sweep_row(&mut store, ID_A, 12), RowOutcome::Kept);
    assert!(store.meta.list_all().is_empty());
    store.content.put(ID_A.to_string(), "orphan".to_string(), 5);
    assert!(!sweeper.sweep_orphan(&mut store, ID_A, 105));
    assert!(sweeper.sweep_orphan(&mut store, ID_A, 106));
    assert!(!sweeper.sweep_orphan(&mut store, ID_A, 107));
}
