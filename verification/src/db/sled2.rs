//! The merge configurations stored in a sled database, keyed by the url of the
//! merged calendar (its UTF-8 bytes) and holding the configuration's JSON text
//! (its UTF-8 bytes).
//!
//! The functions that take a `sled::Db` say exactly what they read and write in
//! terms of `db_contents`; those that open the database file themselves can
//! only say what holds whatever the disk held.
use vstd::prelude::*;
use vstd::slice::slice_to_vec;
use vstd::string::*;
use vstd::utf8::*;

use crate::text::utf8_to_string;

verus! {

#[verifier::external_type_specification]
#[verifier::external_body]
pub struct ExSledDb(sled::Db);

#[verifier::external_type_specification]
#[verifier::external_body]
pub struct ExSledError(sled::Error);

/// The key-value pairs of the default tree of a sled database.
pub uninterp spec fn db_contents(db: sled::Db) -> Map<Seq<u8>, Seq<u8>>;

/// The path that a sled database was opened at.
pub uninterp spec fn opened_at(db: sled::Db) -> Seq<char>;

/// The directory of the database.
pub const DB_PATH: &'static str = "mergeics_sled_db";

/// The message of a successful initialisation.
pub const DB_INITIALIZED: &'static str = "DB initialized";

/// The contents of an empty database.
pub open spec fn empty_contents() -> Map<Seq<u8>, Seq<u8>> {
    Map::empty()
}

/// The key under which the configuration of `url` is stored.
pub open spec fn url_key(url: Seq<char>) -> Seq<u8> {
    encode_utf8(url)
}

/// The text that a stored value holds, if it is valid UTF-8.
pub open spec fn doc_text(value: Seq<u8>) -> Option<Seq<char>> {
    if valid_utf8(value) {
        Some(decode_utf8(value))
    } else {
        None
    }
}

/// The document that `contents` holds for `url`, if any, as text.
pub open spec fn stored_doc(contents: Map<Seq<u8>, Seq<u8>>, url: Seq<char>) -> Option<Seq<char>> {
    if contents.contains_key(url_key(url)) {
        doc_text(contents[url_key(url)])
    } else {
        None
    }
}

/// Byte-wise lexicographic order, the order of `Vec<u8>` (sled's key order).
pub open spec fn bytes_lt(a: Seq<u8>, b: Seq<u8>) -> bool
    decreases a.len(),
{
    if a.len() == 0 {
        b.len() > 0
    } else if b.len() == 0 {
        false
    } else if a[0] != b[0] {
        a[0] < b[0]
    } else {
        bytes_lt(a.drop_first(), b.drop_first())
    }
}

/// `entries` lists the pairs of `contents`, each once, in increasing key order.
pub open spec fn is_key_ordered_listing(
    contents: Map<Seq<u8>, Seq<u8>>,
    entries: Seq<(Seq<u8>, Seq<u8>)>,
) -> bool {
    &&& forall|i: int, j: int|
        0 <= i < j < entries.len() ==> bytes_lt(#[trigger] entries[i].0, #[trigger] entries[j].0)
    &&& forall|i: int|
        0 <= i < entries.len() ==> contents.contains_key(#[trigger] entries[i].0) && contents[entries[i].0]
            == entries[i].1
    &&& forall|k: Seq<u8>|
        #[trigger] contents.contains_key(k) ==> exists|i: int| 0 <= i < entries.len() && entries[i].0 == k
}

/// The concatenated texts of the listed values, those that are valid UTF-8, in order.
pub open spec fn listed_docs(entries: Seq<(Seq<u8>, Seq<u8>)>) -> Seq<char>
    decreases entries.len(),
{
    if entries.len() == 0 {
        Seq::empty()
    } else {
        listed_docs(entries.drop_last()) + match doc_text(entries.last().1) {
            Some(t) => t,
            None => Seq::empty(),
        }
    }
}

/// The pairs of a listing as byte sequences.
pub open spec fn entries_view(entries: Seq<(Vec<u8>, Vec<u8>)>) -> Seq<(Seq<u8>, Seq<u8>)> {
    entries.map_values(|e: (Vec<u8>, Vec<u8>)| (e.0@, e.1@))
}

/// The database `db` holds the document `doc` for `url`.
pub open spec fn holds_doc(db: sled::Db, url: Seq<char>, doc: Seq<char>) -> bool {
    stored_doc(db_contents(db), url) == Some(doc)
}

/// `docs` is what listing the database at `DB_PATH` gives: empty (a failed
/// open or listing), or the documents of the key-ordered listing of its contents.
pub open spec fn listed_by_store(docs: Seq<char>) -> bool {
    docs.len() == 0 || exists|db: sled::Db, entries: Seq<(Seq<u8>, Seq<u8>)>|
        opened_at(db) == DB_PATH@ && #[trigger] is_key_ordered_listing(db_contents(db), entries) && docs
            == listed_docs(entries)
}

/// Storing turned the database `before` into `after`: `doc` is written under the
/// key of `url`, and nothing else changed.
pub open spec fn stored_under(before: sled::Db, after: sled::Db, url: Seq<char>, doc: Seq<char>) -> bool {
    db_contents(after) == db_contents(before).insert(url_key(url), encode_utf8(doc))
}

/// Deleting turned the database `before` into `after`: the key of `url` was
/// present and is removed, and nothing else changed.
pub open spec fn removed_under(before: sled::Db, after: sled::Db, url: Seq<char>) -> bool {
    db_contents(before).contains_key(url_key(url)) && db_contents(after) == db_contents(before).remove(
        url_key(url),
    )
}

/// The database `db` is empty.
pub open spec fn is_emptied(db: sled::Db) -> bool {
    db_contents(db) == empty_contents()
}

/// The database opened at `DB_PATH` was emptied.
pub open spec fn store_was_emptied() -> bool {
    exists|db: sled::Db| opened_at(db) == DB_PATH@ && #[trigger] is_emptied(db)
}

/// The database opened at `DB_PATH` holds the document `doc` for `url`.
pub open spec fn store_holds(url: Seq<char>, doc: Seq<char>) -> bool {
    exists|db: sled::Db| opened_at(db) == DB_PATH@ && #[trigger] holds_doc(db, url, doc)
}

/// The database opened at `DB_PATH` had `doc` stored under the key of `url`.
pub open spec fn store_stored(url: Seq<char>, doc: Seq<char>) -> bool {
    exists|before: sled::Db, after: sled::Db|
        opened_at(before) == DB_PATH@ && opened_at(after) == DB_PATH@ && #[trigger] stored_under(
            before,
            after,
            url,
            doc,
        )
}

/// The database opened at `DB_PATH` had the key of `url`, which was removed.
pub open spec fn store_removed(url: Seq<char>) -> bool {
    exists|before: sled::Db, after: sled::Db|
        opened_at(before) == DB_PATH@ && opened_at(after) == DB_PATH@ && #[trigger] removed_under(
            before,
            after,
            url,
        )
}

/// Reading a document right after storing it gives it back.
pub proof fn law_read_after_store(contents: Map<Seq<u8>, Seq<u8>>, url: Seq<char>, doc: Seq<char>)
    ensures
        stored_doc(contents.insert(url_key(url), encode_utf8(doc)), url) == Some(doc),
{
    encode_utf8_valid_utf8(doc);
    encode_utf8_decode_utf8(doc);
}

/// Distinct urls have distinct keys.
proof fn lemma_url_keys_distinct(a: Seq<char>, b: Seq<char>)
    requires
        a != b,
    ensures
        url_key(a) != url_key(b),
{
    encode_utf8_decode_utf8(a);
    encode_utf8_decode_utf8(b);
}

/// Storing a document under one url leaves the document of every other url as it
/// was.
pub proof fn law_store_keeps_other_urls(
    contents: Map<Seq<u8>, Seq<u8>>,
    url: Seq<char>,
    doc: Seq<char>,
    other: Seq<char>,
)
    requires
        url != other,
    ensures
        stored_doc(contents.insert(url_key(url), encode_utf8(doc)), other) == stored_doc(
            contents,
            other,
        ),
{
    lemma_url_keys_distinct(url, other);
}

/// After a deletion, nothing is stored for the deleted url, and every other url
/// keeps its document.
pub proof fn law_read_after_delete(contents: Map<Seq<u8>, Seq<u8>>, url: Seq<char>, other: Seq<char>)
    ensures
        stored_doc(contents.remove(url_key(url)), url) is None,
        url != other ==> stored_doc(contents.remove(url_key(url)), other) == stored_doc(contents, other),
{
    if url != other {
        lemma_url_keys_distinct(url, other);
    }
}

/// A second deletion of the same url removes nothing: once the key of `url` has
/// been removed from a database, that database no longer has it, so no removal
/// of it from there can be reported (by `delete_in`, which reports one only when
/// the key was present).
pub proof fn law_second_delete_removes_nothing(
    before: sled::Db,
    after: sled::Db,
    later: sled::Db,
    url: Seq<char>,
)
    requires
        removed_under(before, after, url),
    ensures
        !db_contents(after).contains_key(url_key(url)),
        !removed_under(after, later, url),
{
}

/// An emptied store holds no document, and its listing is empty.
pub proof fn law_empty_store(url: Seq<char>, entries: Seq<(Seq<u8>, Seq<u8>)>)
    ensures
        stored_doc(empty_contents(), url) is None,
        is_key_ordered_listing(empty_contents(), entries) ==> entries.len() == 0 && listed_docs(entries)
            == Seq::<char>::empty(),
{
    if is_key_ordered_listing(empty_contents(), entries) && entries.len() > 0 {
        assert(empty_contents().contains_key(entries[0].0));
    }
}

/// The key order is irreflexive.
proof fn lemma_bytes_lt_irreflexive(a: Seq<u8>)
    ensures
        !bytes_lt(a, a),
    decreases a.len(),
{
    if a.len() > 0 {
        lemma_bytes_lt_irreflexive(a.drop_first());
    }
}

/// The key order is asymmetric.
proof fn lemma_bytes_lt_asymmetric(a: Seq<u8>, b: Seq<u8>)
    ensures
        !(bytes_lt(a, b) && bytes_lt(b, a)),
    decreases a.len(),
{
    if a.len() > 0 && b.len() > 0 && a[0] == b[0] {
        lemma_bytes_lt_asymmetric(a.drop_first(), b.drop_first());
    }
}

/// The contents hold one key-ordered listing only: the listing of the documents
/// (by `get_cals_in`) is determined by the contents.
pub proof fn law_listing_is_unique(
    contents: Map<Seq<u8>, Seq<u8>>,
    a: Seq<(Seq<u8>, Seq<u8>)>,
    b: Seq<(Seq<u8>, Seq<u8>)>,
)
    requires
        is_key_ordered_listing(contents, a),
        is_key_ordered_listing(contents, b),
    ensures
        a == b,
    decreases a.len(),
{
    if a.len() == 0 {
        if b.len() > 0 {
            assert(contents.contains_key(b[0].0));
        }
        assert(a =~= b);
    } else {
        assert(contents.contains_key(a[0].0));
        if b.len() == 0 {
            assert(false);
        }
        let ka = a[0].0;
        let kb = b[0].0;
        if ka != kb {
            assert(contents.contains_key(kb));
            let j = choose|j: int| 0 <= j < a.len() && a[j].0 == kb;
            let i = choose|i: int| 0 <= i < b.len() && b[i].0 == ka;
            assert(j != 0 && i != 0);
            assert(bytes_lt(a[0].0, a[j].0));
            assert(bytes_lt(b[0].0, b[i].0));
            lemma_bytes_lt_asymmetric(ka, kb);
        }
        let rest = contents.remove(ka);
        let a2 = a.drop_first();
        let b2 = b.drop_first();
        assert(is_key_ordered_listing(rest, a2)) by {
            assert forall|i: int| 0 <= i < a2.len() implies rest.contains_key(#[trigger] a2[i].0)
                && rest[a2[i].0] == a2[i].1 by {
                assert(a2[i] == a[i + 1]);
                assert(bytes_lt(a[0].0, a[i + 1].0));
                lemma_bytes_lt_irreflexive(ka);
            }
            assert forall|k: Seq<u8>| #[trigger] rest.contains_key(k) implies exists|i: int|
                0 <= i < a2.len() && a2[i].0 == k by {
                let i = choose|i: int| 0 <= i < a.len() && a[i].0 == k;
                assert(i != 0);
                assert(a2[i - 1].0 == k);
            }
            assert forall|i: int, j: int| 0 <= i < j < a2.len() implies bytes_lt(
                #[trigger] a2[i].0,
                #[trigger] a2[j].0,
            ) by {
                assert(a2[i] == a[i + 1] && a2[j] == a[j + 1]);
            }
        }
        assert(is_key_ordered_listing(rest, b2)) by {
            assert forall|i: int| 0 <= i < b2.len() implies rest.contains_key(#[trigger] b2[i].0)
                && rest[b2[i].0] == b2[i].1 by {
                assert(b2[i] == b[i + 1]);
                assert(bytes_lt(b[0].0, b[i + 1].0));
                lemma_bytes_lt_irreflexive(ka);
            }
            assert forall|k: Seq<u8>| #[trigger] rest.contains_key(k) implies exists|i: int|
                0 <= i < b2.len() && b2[i].0 == k by {
                let i = choose|i: int| 0 <= i < b.len() && b[i].0 == k;
                assert(i != 0);
                assert(b2[i - 1].0 == k);
            }
            assert forall|i: int, j: int| 0 <= i < j < b2.len() implies bytes_lt(
                #[trigger] b2[i].0,
                #[trigger] b2[j].0,
            ) by {
                assert(b2[i] == b[i + 1] && b2[j] == b[j + 1]);
            }
        }
        law_listing_is_unique(rest, a2, b2);
        assert(a[0] == b[0]);
        assert(a =~= seq![a[0]] + a2);
        assert(b =~= seq![b[0]] + b2);
    }
}

/// Opens the sled database at `path` (`sled::open`). Whether it opens, and what it
/// holds, depends on the disk: that is not stated. What is stated is that a
/// database it returns is the one at `path`.
#[verifier::external_body]
fn open_sled(path: &str) -> (r: Result<sled::Db, sled::Error>)
    ensures
        r matches Ok(db) ==> opened_at(db) == path@,
{
    sled::open(path)
}

/// `Tree::get` on the default tree: on success, the value stored under `key`, if
/// any. A failure (an I/O error of sled) is not described.
#[verifier::external_body]
fn sled_get(db: &sled::Db, key: &[u8]) -> (r: Result<Option<Vec<u8>>, sled::Error>)
    ensures
        r matches Ok(found) ==> match found {
            Some(v) => db_contents(*db).contains_key(key@) && v@ == db_contents(*db)[key@],
            None => !db_contents(*db).contains_key(key@),
        },
{
    db.get(key).map(|found| found.map(|v| v.to_vec()))
}

/// `Tree::insert` on the default tree: on success, `key` maps to `value` and the
/// previous value under `key`, if any, is returned. After a failure the contents
/// are not described.
#[verifier::external_body]
fn sled_insert(db: &mut sled::Db, key: &[u8], value: &[u8]) -> (r: Result<
    Option<Vec<u8>>,
    sled::Error,
>)
    ensures
        opened_at(*final(db)) == opened_at(*old(db)),
        r is Ok ==> db_contents(*final(db)) == db_contents(*old(db)).insert(key@, value@),
        r matches Ok(prev) ==> match prev {
            Some(p) => db_contents(*old(db)).contains_key(key@) && p@ == db_contents(*old(db))[key@],
            None => !db_contents(*old(db)).contains_key(key@),
        },
{
    db.insert(key, value).map(|prev| prev.map(|v| v.to_vec()))
}

/// `Tree::remove` on the default tree: on success, `key` is absent and the value
/// it had, if any, is returned. After a failure the contents are not described.
#[verifier::external_body]
fn sled_remove(db: &mut sled::Db, key: &[u8]) -> (r: Result<Option<Vec<u8>>, sled::Error>)
    ensures
        opened_at(*final(db)) == opened_at(*old(db)),
        r is Ok ==> db_contents(*final(db)) == db_contents(*old(db)).remove(key@),
        r matches Ok(prev) ==> match prev {
            Some(p) => db_contents(*old(db)).contains_key(key@) && p@ == db_contents(*old(db))[key@],
            None => !db_contents(*old(db)).contains_key(key@),
        },
{
    db.remove(key).map(|prev| prev.map(|v| v.to_vec()))
}

/// `Tree::clear` on the default tree, with its error, if any, as the result: without
/// an error the tree is empty. The clearing is not atomic: after a failure the
/// contents are not described.
#[verifier::external_body]
fn sled_clear(db: &mut sled::Db) -> (failure: Option<sled::Error>)
    ensures
        opened_at(*final(db)) == opened_at(*old(db)),
        failure is None ==> db_contents(*final(db)) == empty_contents(),
{
    db.clear().err()
}

/// `Tree::iter` on the default tree, collected: on success, every key and value,
/// in increasing key order (sled orders keys as `Vec<u8>` is ordered). A failure
/// while iterating is not described.
#[verifier::external_body]
fn sled_entries(db: &sled::Db) -> (r: Result<Vec<(Vec<u8>, Vec<u8>)>, sled::Error>)
    ensures
        r matches Ok(entries) ==> is_key_ordered_listing(db_contents(*db), entries_view(entries@)),
{
    db.iter().map(|item| item.map(|(k, v)| (k.to_vec(), v.to_vec()))).collect()
}

/// The `Display` text of a sled error (`to_string`); nothing is stated of it.
#[verifier::external_body]
fn sled_error_text(e: &sled::Error) -> String {
    e.to_string()
}

/// The `Debug` text of a sled error (`format!("{:?}", e)`); nothing is stated of it.
#[verifier::external_body]
fn sled_error_debug(e: &sled::Error) -> String {
    format!("{:?}", e)
}

/// What the initialisation returns for the outcome of clearing the tree.
pub fn cleared_outcome(failure: Option<sled::Error>) -> (r: Result<String, String>)
    ensures
        r is Ok <==> failure is None,
        r matches Ok(msg) ==> msg@ == DB_INITIALIZED@,
{
    match failure {
        None => Ok(DB_INITIALIZED.to_string()),
        Some(e) => Err(sled_error_text(&e)),
    }
}

/// Empties the database `db`.
pub fn init_db_in(db: &mut sled::Db) -> (r: Result<String, String>)
    ensures
        opened_at(*final(db)) == opened_at(*old(db)),
        r matches Ok(msg) ==> msg@ == DB_INITIALIZED@ && db_contents(*final(db)) == empty_contents(),
{
    let failure = sled_clear(db);
    cleared_outcome(failure)
}

/// Opens the database and empties it; when it cannot be opened, the error text.
pub fn init_db() -> (r: Result<String, String>)
    ensures
        r matches Ok(msg) ==> msg@ == DB_INITIALIZED@,
        r is Ok ==> store_was_emptied(),
{
    match open_sled(DB_PATH) {
        Ok(db) => {
            let mut db = db;
            let r = init_db_in(&mut db);
            proof {
                if r is Ok {
                    assert(is_emptied(db));
                }
            }
            r
        },
        Err(e) => Err(sled_error_text(&e)),
    }
}

/// The concatenated documents of a listing of the database (those that are valid
/// UTF-8); the empty text when the listing failed.
pub fn listing_outcome(listed: Result<Vec<(Vec<u8>, Vec<u8>)>, sled::Error>) -> (docs: String)
    ensures
        docs@ == match listed {
            Ok(entries) => listed_docs(entries_view(entries@)),
            Err(_) => Seq::<char>::empty(),
        },
{
    match listed {
        Ok(entries) => {
            let ghost all = entries_view(entries@);
            let mut docs = String::new();
            let mut i: usize = 0;
            while i < entries.len()
                invariant
                    i <= entries.len(),
                    all == entries_view(entries@),
                    docs@ == listed_docs(all.take(i as int)),
                decreases entries.len() - i,
            {
                let value = slice_to_vec(entries[i].1.as_slice());
                match utf8_to_string(value) {
                    Some(text) => docs.append(text.as_str()),
                    None => {},
                }
                assert(all.take(i + 1).drop_last() =~= all.take(i as int));
                i += 1;
            }
            assert(all.take(entries.len() as int) =~= all);
            docs
        },
        Err(_) => String::new(),
    }
}

/// The documents stored in `db`, concatenated in key order (those that are valid
/// UTF-8); the empty text when the listing fails.
pub fn get_cals_in(db: &sled::Db) -> (docs: String)
    ensures
        docs@ == Seq::<char>::empty() || exists|entries: Seq<(Seq<u8>, Seq<u8>)>|
            is_key_ordered_listing(db_contents(*db), entries) && docs@ == listed_docs(entries),
{
    let listed = sled_entries(db);
    let ghost l = listed;
    let docs = listing_outcome(listed);
    proof {
        if let Ok(entries) = l {
            let es = entries_view(entries@);
            assert(is_key_ordered_listing(db_contents(*db), es) && docs@ == listed_docs(es));
        }
    }
    docs
}

/// Opens the database and concatenates all its documents in key order; the empty
/// text when it cannot be opened.
pub fn get_cals_from_db() -> (docs: String)
    ensures
        listed_by_store(docs@),
{
    match open_sled(DB_PATH) {
        Ok(db) => {
            let docs = get_cals_in(&db);
            proof {
                if docs@.len() != 0 {
                    let es = choose|es: Seq<(Seq<u8>, Seq<u8>)>|
                        is_key_ordered_listing(db_contents(db), es) && docs@ == listed_docs(es);
                    assert(is_key_ordered_listing(db_contents(db), es) && docs@ == listed_docs(es));
                }
            }
            docs
        },
        Err(_) => String::new(),
    }
}

/// The document found by a lookup, when the lookup succeeded, found a value and
/// the value is valid UTF-8.
pub fn lookup_outcome(found: Result<Option<Vec<u8>>, sled::Error>) -> (doc: Option<String>)
    ensures
        match found {
            Ok(Some(v)) => match doc_text(v@) {
                Some(t) => doc matches Some(d) && d@ == t,
                None => doc is None,
            },
            _ => doc is None,
        },
{
    match found {
        Ok(Some(v)) => utf8_to_string(v),
        _ => None,
    }
}

/// The document stored in `db` for `url`. When the lookup itself fails the
/// result is `None`.
pub fn get_cal_in(db: &sled::Db, url: &str) -> (doc: Option<String>)
    ensures
        doc matches Some(d) ==> stored_doc(db_contents(*db), url@) == Some(d@),
        stored_doc(db_contents(*db), url@) is None ==> doc is None,
{
    let found = sled_get(db, url.as_bytes());
    lookup_outcome(found)
}

/// Opens the database and reads the document stored for `url`.
pub fn get_cal_from_url(url: &str) -> (doc: Option<String>)
    ensures
        doc matches Some(d) ==> store_holds(url@, d@),
{
    match open_sled(DB_PATH) {
        Ok(db) => {
            let doc = get_cal_in(&db, url);
            proof {
                if let Some(d) = &doc {
                    assert(holds_doc(db, url@, d@));
                }
            }
            doc
        },
        Err(_) => None,
    }
}

/// What a deletion returns for the outcome of removing the key of `url`: the url
/// when a value was removed.
pub fn removed_outcome(url: &String, removed: Result<Option<Vec<u8>>, sled::Error>) -> (r: Option<
    String,
>)
    ensures
        r is Some <==> removed matches Ok(Some(_)),
        r matches Some(u) ==> u@ == url@,
{
    match removed {
        Ok(Some(_)) => Some(url.clone()),
        _ => None,
    }
}

/// Deletes the document stored in `db` for `url`; returns the url when there was one.
pub fn delete_in(db: &mut sled::Db, url: &String) -> (r: Option<String>)
    ensures
        opened_at(*final(db)) == opened_at(*old(db)),
        r matches Some(u) ==> u@ == url@ && db_contents(*old(db)).contains_key(url_key(url@))
            && db_contents(*final(db)) == db_contents(*old(db)).remove(url_key(url@)),
{
    let removed = sled_remove(db, url.as_str().as_bytes());
    removed_outcome(url, removed)
}

/// Opens the database and deletes the document stored for `url`; returns the url
/// when there was one.
pub fn delete_calmerge(url: &String) -> (r: Option<String>)
    ensures
        r matches Some(u) ==> u@ == url@,
        r is Some ==> store_removed(url@),
{
    match open_sled(DB_PATH) {
        Ok(db) => {
            let mut db = db;
            let ghost before = db;
            let r = delete_in(&mut db, url);
            proof {
                if r is Some {
                    assert(removed_under(before, db, url@));
                }
            }
            r
        },
        Err(_) => None,
    }
}

/// The reply to storing a document under `url`: `/url` on success, else `/`
/// followed by the debug text of the error.
pub fn inserted_outcome(url: &String, inserted: Result<Option<Vec<u8>>, sled::Error>) -> (r: Result<
    String,
    String,
>)
    ensures
        r is Ok <==> inserted is Ok,
        r matches Ok(path) ==> path@ == "/"@ + url@,
        r matches Err(msg) ==> msg@.len() >= 1 && msg@[0] == '/',
{
    proof {
        reveal_strlit("/");
    }
    let mut reply = "/".to_string();
    match inserted {
        Ok(_) => {
            reply.append(url.as_str());
            Ok(reply)
        },
        Err(e) => {
            reply.append(sled_error_debug(&e).as_str());
            Err(reply)
        },
    }
}

/// Stores `doc` in `db` under `url`; returns `/url` on success.
pub fn insert_in(db: &mut sled::Db, url: String, doc: String) -> (r: Result<String, String>)
    ensures
        opened_at(*final(db)) == opened_at(*old(db)),
        r matches Ok(path) ==> path@ == "/"@ + url@ && db_contents(*final(db)) == db_contents(
            *old(db),
        ).insert(url_key(url@), encode_utf8(doc@)),
        r matches Err(msg) ==> msg@.len() >= 1 && msg@[0] == '/',
{
    let inserted = sled_insert(db, url.as_str().as_bytes(), doc.as_str().as_bytes());
    inserted_outcome(&url, inserted)
}

/// Opens the database and stores `doc` under `url`; returns `/url` on success.
pub fn insert_cal(url: String, doc: String) -> (r: Result<String, String>)
    ensures
        r matches Ok(path) ==> path@ == "/"@ + url@,
        r matches Err(msg) ==> msg@.len() >= 1 && msg@[0] == '/',
        r is Ok ==> store_stored(url@, doc@),
{
    proof {
        reveal_strlit("/");
    }
    match open_sled(DB_PATH) {
        Ok(db) => {
            let mut db = db;
            let ghost before = db;
            let ghost u = url@;
            let ghost d = doc@;
            let r = insert_in(&mut db, url, doc);
            proof {
                if r is Ok {
                    assert(stored_under(before, db, u, d));
                }
            }
            r
        },
        Err(e) => {
            let mut reply = "/".to_string();
            reply.append(sled_error_debug(&e).as_str());
            Err(reply)
        },
    }
}

} // verus!
