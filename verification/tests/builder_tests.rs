use places_migrator::builder::TransactBuilder;
use places_migrator::catalog::Catalog;
use places_migrator::catalog::Keyword;
use places_migrator::text::escape_string;
use places_migrator::text::push_dec_i64;
use places_migrator::text::push_dec_u64;
use places_migrator::text::unescape_string;

#[test]
fn decimal_rendering_u64() {
    let mut s = String::new();
    push_dec_u64(&mut s, 0);
    assert_eq!(s, "0");
    let mut s = String::new();
    push_dec_u64(&mut s, 12345);
    assert_eq!(s, "12345");
    let mut s = String::new();
    push_dec_u64(&mut s, u64::MAX);
    assert_eq!(s, "18446744073709551615");
}

#[test]
fn decimal_rendering_i64() {
    let mut s = String::new();
    push_dec_i64(&mut s, -42);
    assert_eq!(s, "-42");
    let mut s = String::new();
    push_dec_i64(&mut s, 7);
    assert_eq!(s, "7");
    let mut s = String::new();
    push_dec_i64(&mut s, i64::MIN);
    assert_eq!(s, "-9223372036854775808");
}

#[test]
fn escaping_backslash_and_quote() {
    let escaped = escape_string("a\\b\"c");
    assert_eq!(escaped, "a\\\\b\\\"c");
}

#[test]
fn escaping_round_trip() {
    let original = "path\\to \"quoted\" name";
    let escaped = escape_string(original);
    assert_eq!(unescape_string(&escaped), original);
}

#[test]
fn escaping_leaves_plain_text_alone() {
    assert_eq!(escape_string("http://example.com/page?q=1"), "http://example.com/page?q=1");
}

#[test]
fn unescaping_takes_a_dangling_backslash_verbatim() {
    assert_eq!(unescape_string("ab\\"), "ab\\");
    assert_eq!(unescape_string(""), "");
}

#[test]
fn catalog_holds_the_fixed_attribute_keywords() {
    let cat = Catalog::new();
    assert_eq!(cat.place_url.ns, "place");
    assert_eq!(cat.place_url.name, "url");
    assert_eq!(cat.visit_date.ns, "visit");
    assert_eq!(cat.visit_date.name, "date");
    assert_eq!(cat.visit_types.len(), 9);
    assert_eq!(cat.visit_types[0].name, "link");
    assert_eq!(cat.visit_types[8].name, "reload");
}

#[test]
fn tempids_are_fresh_and_increasing() {
    let mut b = TransactBuilder::new_with_size(1024);
    let a = b.next_tempid();
    let c = b.next_tempid();
    let d = b.next_tempid();
    assert_eq!(a, 1);
    assert_eq!(c, 2);
    assert_eq!(d, 3);
    assert_ne!(a, c);
    assert_ne!(c, d);
}

#[test]
fn tempid_counter_survives_reset() {
    let mut b = TransactBuilder::new_with_size(0);
    let a = b.next_tempid();
    b.reset();
    let c = b.next_tempid();
    assert_ne!(a, c);
    assert_eq!(c, 2);
}

#[test]
fn statement_texts_are_exact() {
    let mut b = TransactBuilder::new_with_size(1 << 20);
    let cat = Catalog::new();
    let id = b.next_tempid();
    b.add_str(id, &cat.place_url, "http://a");
    b.add_long(id, &cat.place_url_hash, -7);
    let visit = b.next_tempid();
    b.add_ref_to_tmpid(visit, &cat.visit_place, id);
    b.add_inst(visit, &cat.visit_date, 100);
    b.add_kw(visit, &cat.visit_type, &Keyword::new("visit.type", "link"));
    let text = b.finish();
    assert_eq!(
        text,
        "[\n [:db/add \"1\" :place/url \"http://a\"]\n [:db/add \"1\" :place/url_hash -7]\n [:db/add \"2\" :visit/place \"1\"]\n [:db/add \"2\" :visit/date #instmicros 100]\n [:db/add \"2\" :visit/type :visit.type/link]\n]"
    );
}

#[test]
fn string_values_are_escaped_in_statements() {
    let mut b = TransactBuilder::new_with_size(1 << 20);
    let cat = Catalog::new();
    let id = b.next_tempid();
    b.add_str(id, &cat.place_title, "a\\b\"c");
    assert_eq!(b.finish(), "[\n [:db/add \"1\" :place/title \"a\\\\b\\\"c\"]\n]");
}

#[test]
fn threshold_triggers_one_commit_and_reset() {
    // Threshold of 40 bytes: the empty buffer (2 bytes) sits under it, one
    // statement carries it over, and the next flush decision commits the
    // whole batch once and leaves the buffer back at its baseline.
    let mut b = TransactBuilder::new_with_size(40);
    assert!(!b.should_finish());
    assert!(b.maybe_transact().is_none());
    let id = b.next_tempid();
    let cat = Catalog::new();
    b.add_str(id, &cat.place_url, "http://example.com/long-enough");
    assert!(b.should_finish());
    let batch = b.maybe_transact();
    let batch = batch.expect("crossing the threshold must commit");
    assert_eq!(
        batch,
        "[\n [:db/add \"1\" :place/url \"http://example.com/long-enough\"]\n]"
    );
    b.reset();
    assert!(!b.should_finish());
    assert!(b.maybe_transact().is_none());
    assert_eq!(b.finish(), "[\n]");
}

#[test]
fn zero_threshold_always_asks_to_commit() {
    let b = TransactBuilder::new_with_size(0);
    assert!(b.should_finish());
}

#[test]
fn transact_with_no_terms_is_a_no_op() {
    let mut b = TransactBuilder::new_with_size(0);
    assert!(b.transact().is_none());
    assert!(b.maybe_transact().is_none());
}

#[test]
fn failed_commit_leaves_the_buffer_intact() {
    let mut b = TransactBuilder::new_with_size(1 << 20);
    let id = b.next_tempid();
    let cat = Catalog::new();
    b.add_long(id, &cat.place_frecency, 3);
    let batch = b.transact().expect("one term is pending");
    // The caller's commit failed: nothing was reset, so the raw batch text
    // is still held for diagnostics.
    assert_eq!(b.finish(), format!("{}]", batch));
}
