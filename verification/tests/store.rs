use icsutils::db::ejdb2;
use icsutils::db::sled2::{
    delete_in, get_cal_in, get_cals_in, init_db_in, insert_in, lookup_outcome, removed_outcome,
};

fn temp_db() -> sled::Db {
    sled::Config::new().temporary(true).open().unwrap()
}

#[test]
fn read_after_store() {
    let mut db = temp_db();
    assert_eq!(get_cal_in(&db, "a.ics"), None);
    assert_eq!(insert_in(&mut db, "a.ics".to_string(), "{\"doc\":1}".to_string()), Ok("/a.ics".to_string()));
    assert_eq!(get_cal_in(&db, "a.ics"), Some("{\"doc\":1}".to_string()));
    assert_eq!(get_cal_in(&db, "b.ics"), None);
    assert_eq!(insert_in(&mut db, "a.ics".to_string(), "second".to_string()), Ok("/a.ics".to_string()));
    assert_eq!(get_cal_in(&db, "a.ics"), Some("second".to_string()));
}

#[test]
fn store_keeps_other_urls() {
    let mut db = temp_db();
    insert_in(&mut db, "a.ics".to_string(), "A".to_string()).unwrap();
    insert_in(&mut db, "b.ics".to_string(), "B".to_string()).unwrap();
    assert_eq!(get_cal_in(&db, "a.ics"), Some("A".to_string()));
    assert_eq!(get_cal_in(&db, "b.ics"), Some("B".to_string()));
}

#[test]
fn delete_then_read() {
    let mut db = temp_db();
    insert_in(&mut db, "a.ics".to_string(), "A".to_string()).unwrap();
    insert_in(&mut db, "b.ics".to_string(), "B".to_string()).unwrap();
    assert_eq!(delete_in(&mut db, &"a.ics".to_string()), Some("a.ics".to_string()));
    assert_eq!(get_cal_in(&db, "a.ics"), None);
    assert_eq!(get_cal_in(&db, "b.ics"), Some("B".to_string()));
    assert_eq!(delete_in(&mut db, &"a.ics".to_string()), None);
}

#[test]
fn listing_in_key_order() {
    let mut db = temp_db();
    insert_in(&mut db, "c".to_string(), "3".to_string()).unwrap();
    insert_in(&mut db, "a".to_string(), "1".to_string()).unwrap();
    insert_in(&mut db, "b".to_string(), "2".to_string()).unwrap();
    assert_eq!(get_cals_in(&db), "123");
    db.insert("d", vec![0xffu8]).unwrap();
    assert_eq!(get_cals_in(&db), "123");
}

#[test]
fn init_empties_the_store() {
    let mut db = temp_db();
    insert_in(&mut db, "a".to_string(), "1".to_string()).unwrap();
    assert_eq!(init_db_in(&mut db), Ok("DB initialized".to_string()));
    assert_eq!(get_cals_in(&db), "");
    assert_eq!(get_cal_in(&db, "a"), None);
}

#[test]
fn undecodable_document_is_not_found() {
    let db = temp_db();
    db.insert("bad", vec![0xc3u8]).unwrap();
    assert_eq!(get_cal_in(&db, "bad"), None);
}

#[test]
fn lookup_and_removal_outcomes() {
    assert_eq!(lookup_outcome(Ok(Some(b"doc".to_vec()))), Some("doc".to_string()));
    assert_eq!(lookup_outcome(Ok(Some(vec![0xff]))), None);
    assert_eq!(lookup_outcome(Ok(None)), None);
    let url = "x.ics".to_string();
    assert_eq!(removed_outcome(&url, Ok(Some(vec![1]))), Some("x.ics".to_string()));
    assert_eq!(removed_outcome(&url, Ok(None)), None);
}

#[test]
fn ejdb_store_deletes_nothing() {
    assert_eq!(ejdb2::delete_calmerge(&"x.ics".to_string()), None);
}
