use secretstream::{Error, Tag};

#[test]
fn test_final_composition() {
    // FINAL == PUSH | REKEY, and parsing its byte yields a tag carrying
    // both flags.
    assert_eq!(Tag::FINAL.bits(), Tag::PUSH.bits() | Tag::REKEY.bits());
    assert_eq!(Tag::PUSH.union(Tag::REKEY), Tag::FINAL);
    let parsed = Tag::parse(Tag::FINAL.bits()).expect("parse failed");
    assert_eq!(parsed, Tag::FINAL);
    assert!(parsed.has_push());
    assert!(parsed.has_rekey());
}

#[test]
fn test_tag_parse_round_trip() {
    // every tag round-trips losslessly through its byte encoding
    for tag in [Tag::MESSAGE, Tag::PUSH, Tag::REKEY, Tag::FINAL] {
        assert_eq!(Tag::parse(tag.bits()).expect("parse failed"), tag);
    }
    assert_eq!(Tag::MESSAGE.bits(), 0);
    assert_eq!(Tag::PUSH.bits(), 1);
    assert_eq!(Tag::REKEY.bits(), 2);
    assert_eq!(Tag::FINAL.bits(), 3);
}

#[test]
fn test_invalid_tag_rejected() {
    // any byte with unrecognized bits is an invalid tag
    for b in 4..=255u8 {
        assert_eq!(Tag::parse(b).unwrap_err(), Error::InvalidTag);
    }
}

#[test]
fn test_tag_union_intersection() {
    assert_eq!(Tag::MESSAGE.union(Tag::PUSH), Tag::PUSH);
    assert_eq!(Tag::FINAL.union(Tag::MESSAGE), Tag::FINAL);
    assert_eq!(Tag::REKEY.union(Tag::REKEY), Tag::REKEY);
    assert_eq!(Tag::FINAL.intersection(Tag::PUSH), Tag::PUSH);
    assert_eq!(Tag::PUSH.intersection(Tag::REKEY), Tag::MESSAGE);
    assert_eq!(Tag::FINAL.intersection(Tag::FINAL), Tag::FINAL);
}
