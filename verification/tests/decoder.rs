use frida_gg::decoder::{
    asv_array_to_maplist, decode, decode_within, descriptor_text, encode, sv_array_to_map, Kind,
    Payload, RawValue, MAX_DEPTH,
};
use frida_gg::error::Error;
use frida_gg::variant::{Dict, Variant};

fn raw(descriptor: &str, payload: Payload) -> RawValue {
    RawValue { descriptor: descriptor.to_string(), payload }
}

fn text(value: &str) -> RawValue {
    raw("s", Payload::Text(value.to_string()))
}

fn flag(value: bool) -> RawValue {
    raw("b", Payload::Flag(value))
}

fn number(value: i64) -> RawValue {
    raw("x", Payload::Integer(value))
}

fn map(entries: Vec<(&str, RawValue)>) -> RawValue {
    raw("a{sv}", Payload::Entries(pairs(entries)))
}

fn pairs(entries: Vec<(&str, RawValue)>) -> Vec<(String, RawValue)> {
    entries.into_iter().map(|(key, value)| (key.to_string(), value)).collect()
}

fn nested(levels: usize) -> RawValue {
    let mut value = number(1);
    for _ in 0..levels {
        value = map(vec![("inner", value)]);
    }
    value
}

#[test]
fn kind_is_parsed_from_the_exact_descriptor() {
    assert_eq!(Kind::parse("s"), Some(Kind::String));
    assert_eq!(Kind::parse("b"), Some(Kind::Boolean));
    assert_eq!(Kind::parse("x"), Some(Kind::Int64));
    assert_eq!(Kind::parse("a{sv}"), Some(Kind::Mapping));
    assert_eq!(Kind::parse("aa{sv}"), Some(Kind::MapList));
    assert_eq!(Kind::parse(""), None);
    assert_eq!(Kind::parse("ss"), None);
    assert_eq!(Kind::parse("a{sv"), None);
    assert_eq!(Kind::parse("a{sv}x"), None);
    assert_eq!(Kind::parse("S"), None);
    assert_eq!(Kind::parse("i"), None);
}

#[test]
fn descriptor_text_names_the_kind() {
    assert_eq!(descriptor_text(Kind::String), "s");
    assert_eq!(descriptor_text(Kind::Boolean), "b");
    assert_eq!(descriptor_text(Kind::Int64), "x");
    assert_eq!(descriptor_text(Kind::Mapping), "a{sv}");
    assert_eq!(descriptor_text(Kind::MapList), "aa{sv}");
}

#[test]
fn scalars_are_read_directly() {
    assert_eq!(decode(&text("linux")), Ok(Variant::String("linux".to_string())));
    assert_eq!(decode(&flag(true)), Ok(Variant::Boolean(true)));
    assert_eq!(decode(&flag(false)), Ok(Variant::Boolean(false)));
    assert_eq!(decode(&number(-7)), Ok(Variant::Int64(-7)));
    assert_eq!(decode(&number(i64::MAX)), Ok(Variant::Int64(i64::MAX)));
}

#[test]
fn map_is_decoded_entry_by_entry() {
    let decoded = decode(&map(vec![("name", text("Android")), ("version", number(13))])).unwrap();
    let dict = decoded.get_map().unwrap();
    assert_eq!(dict.len(), 2);
    assert_eq!(dict.get("name"), Some(&Variant::String("Android".to_string())));
    assert_eq!(dict.get("version"), Some(&Variant::Int64(13)));
    assert_eq!(dict.get("missing"), None);
}

#[test]
fn last_write_wins_on_a_key_that_occurs_twice() {
    let decoded = decode(&map(vec![("k", number(1)), ("other", flag(true)), ("k", number(2))])).unwrap();
    let dict = decoded.get_map().unwrap();
    assert_eq!(dict.len(), 2);
    assert_eq!(dict.get("k"), Some(&Variant::Int64(2)));
}

#[test]
fn list_of_maps_keeps_its_order() {
    let value = raw(
        "aa{sv}",
        Payload::Rows(vec![
            pairs(vec![("n", number(1))]),
            pairs(vec![]),
            pairs(vec![("n", number(3))]),
        ]),
    );
    let decoded = decode(&value).unwrap();
    let list = decoded.get_maplist().unwrap();
    assert_eq!(list.len(), 3);
    assert_eq!(list[0].get("n"), Some(&Variant::Int64(1)));
    assert!(list[1].is_empty());
    assert_eq!(list[2].get("n"), Some(&Variant::Int64(3)));
}

#[test]
fn unsupported_descriptor_fails_with_the_descriptor() {
    assert_eq!(
        decode(&raw("i", Payload::Opaque)),
        Err(Error::UnsupportedVariant("i".to_string()))
    );
    assert_eq!(
        decode(&raw("as", Payload::Opaque)),
        Err(Error::UnsupportedVariant("as".to_string()))
    );
}

#[test]
fn descriptor_that_only_begins_like_a_supported_one_fails() {
    assert_eq!(
        decode(&raw("sx", Payload::Text("a".to_string()))),
        Err(Error::UnsupportedVariant("sx".to_string()))
    );
    assert_eq!(
        decode(&raw("a{sv}a", Payload::Entries(vec![]))),
        Err(Error::UnsupportedVariant("a{sv}a".to_string()))
    );
}

#[test]
fn unsupported_value_inside_a_map_fails_the_whole_map() {
    let value = map(vec![("ok", number(1)), ("bad", raw("d", Payload::Opaque)), ("later", raw("u", Payload::Opaque))]);
    assert_eq!(decode(&value), Err(Error::UnsupportedVariant("d".to_string())));
}

#[test]
fn unsupported_value_inside_a_list_of_maps_fails_the_whole_list() {
    let value = raw(
        "aa{sv}",
        Payload::Rows(vec![pairs(vec![("n", number(1))]), pairs(vec![("bad", raw("t", Payload::Opaque))])]),
    );
    assert_eq!(decode(&value), Err(Error::UnsupportedVariant("t".to_string())));
}

#[test]
fn value_that_holds_something_else_than_announced_is_malformed() {
    assert_eq!(
        decode(&raw("s", Payload::Flag(true))),
        Err(Error::MalformedVariant("s".to_string()))
    );
    assert_eq!(
        decode(&raw("a{sv}", Payload::Integer(1))),
        Err(Error::MalformedVariant("a{sv}".to_string()))
    );
    assert_eq!(
        decode(&raw("x", Payload::Opaque)),
        Err(Error::MalformedVariant("x".to_string()))
    );
}

#[test]
fn nesting_up_to_the_cap_is_decoded() {
    assert_eq!(MAX_DEPTH, 64);
    assert!(decode(&nested(MAX_DEPTH)).is_ok());
    assert!(decode(&nested(1)).is_ok());
}

#[test]
fn nesting_beyond_the_cap_fails() {
    assert_eq!(decode(&nested(MAX_DEPTH + 1)), Err(Error::NestingTooDeep));
    assert_eq!(decode_within(&nested(1), 0), Err(Error::NestingTooDeep));
    assert_eq!(decode_within(&number(5), 0), Ok(Variant::Int64(5)));
}

#[test]
fn unsupported_descriptor_fails_before_the_cap_is_looked_at() {
    assert_eq!(
        decode_within(&raw("v", Payload::Opaque), 0),
        Err(Error::UnsupportedVariant("v".to_string()))
    );
}

#[test]
fn entries_and_rows_are_decoded_on_their_own() {
    let dict = sv_array_to_map(&pairs(vec![("a", flag(true))]), 3).unwrap();
    assert_eq!(dict.get("a"), Some(&Variant::Boolean(true)));
    let list = asv_array_to_maplist(&vec![pairs(vec![("a", flag(false))])], 3).unwrap();
    assert_eq!(list.len(), 1);
    assert_eq!(list[0].get("a"), Some(&Variant::Boolean(false)));
    assert_eq!(
        sv_array_to_map(&pairs(vec![("a", raw("q", Payload::Opaque))]), 3),
        Err(Error::UnsupportedVariant("q".to_string()))
    );
}

fn sample() -> Variant {
    let mut os = Dict::new();
    os.insert("id".to_string(), Variant::String("android".to_string()));
    os.insert("version".to_string(), Variant::Int64(13));
    let mut first = Dict::new();
    first.insert("up".to_string(), Variant::Boolean(true));
    let second = Dict::new();
    let mut top = Dict::new();
    top.insert("os".to_string(), Variant::Mapping(os));
    top.insert("interfaces".to_string(), Variant::MapList(vec![first, second]));
    top.insert("arch".to_string(), Variant::String("arm64".to_string()));
    Variant::Mapping(top)
}

#[test]
fn encode_writes_descriptor_and_payload() {
    let encoded = encode(&Variant::Int64(7));
    assert_eq!(encoded.descriptor, "x");
    assert!(matches!(encoded.payload, Payload::Integer(7)));
    let encoded = encode(&Variant::String("a".to_string()));
    assert_eq!(encoded.descriptor, "s");
    assert!(matches!(&encoded.payload, Payload::Text(held) if held == "a"));
    let encoded = encode(&sample());
    assert_eq!(encoded.descriptor, "a{sv}");
    match &encoded.payload {
        Payload::Entries(entries) => {
            assert_eq!(entries.len(), 3);
            assert_eq!(entries[0].0, "os");
            assert_eq!(entries[0].1.descriptor, "a{sv}");
            assert_eq!(entries[1].0, "interfaces");
            assert_eq!(entries[1].1.descriptor, "aa{sv}");
            assert_eq!(entries[2].0, "arch");
        }
        _ => panic!("a mapping is written as entries"),
    }
}

#[test]
fn decoding_what_was_encoded_gives_the_value_back() {
    let value = sample();
    assert_eq!(decode(&encode(&value)), Ok(sample()));
    for scalar in vec![
        Variant::String(String::new()),
        Variant::Boolean(false),
        Variant::Int64(i64::MIN),
        Variant::MapList(vec![]),
        Variant::Mapping(Dict::new()),
    ] {
        let again = decode(&encode(&scalar)).unwrap();
        assert_eq!(again, scalar);
    }
}
