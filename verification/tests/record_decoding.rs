use hn_reader::record::gather;
use hn_reader::record::read_int;
use hn_reader::record::read_text;
use hn_reader::record::Field;
use hn_reader::record::ItemRecord;
use serde_json::Value;

fn object(text: &str) -> serde_json::Map<String, Value> {
    serde_json::from_str::<serde_json::Map<String, Value>>(text).unwrap()
}

#[test]
fn decode_reads_every_key() {
    let rec = ItemRecord::decode(&object(
        "{\"by\":\"dhouston\",\"descendants\":71,\"id\":8863,\"kids\":[9224,8917,8952],\
         \"score\":104,\"time\":1175714200,\"title\":\"My YC app\",\"type\":\"story\",\
         \"url\":\"http://www.getdropbox.com/u/2/screencast.html\",\"text\":\"<i>hi</i>\"}",
    ));
    assert_eq!(rec.kind, Field::Present("story".to_string()));
    assert_eq!(rec.title, Field::Present("My YC app".to_string()));
    assert_eq!(rec.score, Field::Present(104));
    assert_eq!(rec.author, Field::Present("dhouston".to_string()));
    assert_eq!(rec.descendants, Field::Present(71));
    assert_eq!(
        rec.url,
        Field::Present("http://www.getdropbox.com/u/2/screencast.html".to_string())
    );
    assert_eq!(rec.text, Field::Present("<i>hi</i>".to_string()));
    assert_eq!(rec.kids, Field::Present(vec![9224, 8917, 8952]));
}

#[test]
fn decode_of_an_empty_object_is_the_empty_record() {
    let rec = ItemRecord::decode(&serde_json::Map::new());
    assert_eq!(rec, ItemRecord::empty());
    assert_eq!(rec.kind, Field::Absent);
    assert_eq!(rec.title, Field::Absent);
    assert_eq!(rec.score, Field::Absent);
    assert_eq!(rec.author, Field::Absent);
    assert_eq!(rec.descendants, Field::Absent);
    assert_eq!(rec.url, Field::Absent);
    assert_eq!(rec.text, Field::Absent);
    assert_eq!(rec.kids, Field::Absent);
}

#[test]
fn decode_marks_values_of_another_shape() {
    let rec = ItemRecord::decode(&object(
        "{\"by\":7,\"descendants\":\"many\",\"kids\":\"none\",\"score\":1.5,\
         \"title\":null,\"type\":[\"story\"],\"url\":{\"a\":1},\"text\":true}",
    ));
    assert_eq!(rec.kind, Field::Malformed);
    assert_eq!(rec.title, Field::Malformed);
    assert_eq!(rec.score, Field::Malformed);
    assert_eq!(rec.author, Field::Malformed);
    assert_eq!(rec.descendants, Field::Malformed);
    assert_eq!(rec.url, Field::Malformed);
    assert_eq!(rec.text, Field::Malformed);
    assert_eq!(rec.kids, Field::Malformed);
}

#[test]
fn decode_takes_integers_in_the_range_of_i64_only() {
    let rec = ItemRecord::decode(&object(
        "{\"score\":9223372036854775807,\"descendants\":-9223372036854775808}",
    ));
    assert_eq!(rec.score, Field::Present(i64::MAX));
    assert_eq!(rec.descendants, Field::Present(i64::MIN));
    let rec = ItemRecord::decode(&object("{\"score\":9223372036854775808,\"descendants\":-3}"));
    assert_eq!(rec.score, Field::Malformed);
    assert_eq!(rec.descendants, Field::Present(-3));
}

#[test]
fn decode_takes_reply_lists_of_integers_only() {
    assert_eq!(ItemRecord::decode(&object("{\"kids\":[]}")).kids, Field::Present(vec![]));
    assert_eq!(ItemRecord::decode(&object("{\"kids\":[5]}")).kids, Field::Present(vec![5]));
    assert_eq!(ItemRecord::decode(&object("{\"kids\":[5,\"6\"]}")).kids, Field::Malformed);
    assert_eq!(ItemRecord::decode(&object("{\"kids\":[1,2.5,3]}")).kids, Field::Malformed);
    assert_eq!(ItemRecord::decode(&object("{\"kids\":[[1]]}")).kids, Field::Malformed);
    assert_eq!(ItemRecord::decode(&object("{\"kids\":{\"0\":1}}")).kids, Field::Malformed);
}

#[test]
fn decode_ignores_other_keys() {
    let rec = ItemRecord::decode(&object("{\"id\":1,\"time\":2,\"parent\":3,\"Score\":4}"));
    assert_eq!(rec, ItemRecord::empty());
}

#[test]
fn decode_keeps_texts_as_they_are() {
    let rec = ItemRecord::decode(&object("{\"title\":\"\",\"by\":\"a \\\"b\\\" \\u00e9\"}"));
    assert_eq!(rec.title, Field::Present(String::new()));
    assert_eq!(rec.author, Field::Present("a \"b\" \u{e9}".to_string()));
}

#[test]
fn decode_reads_a_map_built_by_hand() {
    let mut map = serde_json::Map::new();
    map.insert("score".to_string(), Value::from(12));
    map.insert("by".to_string(), Value::from("pg"));
    map.insert("kids".to_string(), Value::from(vec![Value::from(1), Value::from(2)]));
    let rec = ItemRecord::decode(&map);
    assert_eq!(rec.score, Field::Present(12));
    assert_eq!(rec.author, Field::Present("pg".to_string()));
    assert_eq!(rec.kids, Field::Present(vec![1, 2]));
    assert_eq!(rec.title, Field::Absent);
}

#[test]
fn slots_fall_back_to_their_default_when_absent() {
    assert_eq!(read_int(&Field::Absent, 0), Some(0));
    assert_eq!(read_int(&Field::Present(-4), 0), Some(-4));
    assert_eq!(read_int(&Field::Malformed, 0), None);
    assert_eq!(read_text(&Field::Absent, "None"), Some("None".to_string()));
    assert_eq!(read_text(&Field::Present("x".to_string()), "None"), Some("x".to_string()));
    assert_eq!(read_text(&Field::Malformed, "None"), None);
}

#[test]
fn a_lookup_becomes_a_slot() {
    assert_eq!(Field::<i64>::found(None), Field::Absent);
    assert_eq!(Field::<i64>::found(Some(None)), Field::Malformed);
    assert_eq!(Field::found(Some(Some(9i64))), Field::Present(9));
    assert_eq!(Field::found(Some(Some("x".to_string()))), Field::Present("x".to_string()));
}

#[test]
fn a_list_is_gathered_whole_or_not_at_all() {
    assert_eq!(gather(&Vec::new()), Some(Vec::new()));
    assert_eq!(gather(&vec![Some(3), Some(-1), Some(3)]), Some(vec![3, -1, 3]));
    assert_eq!(gather(&vec![Some(3), None, Some(5)]), None);
    assert_eq!(gather(&vec![None]), None);
    assert_eq!(gather(&vec![Some(1), Some(2), None]), None);
}
