use thumbor::kv::{parse_kv_pair, KvPair};

#[test]
fn parse_kv_pair_works() {
    assert!(parse_kv_pair("a").is_err());
    assert_eq!(
        parse_kv_pair("a=1").unwrap(),
        KvPair {
            k: "a".into(),
            v: "1".into()
        }
    );
    assert_eq!(
        parse_kv_pair("b=").unwrap(),
        KvPair {
            k: "b".into(),
            v: "".into()
        }
    );
}

#[test]
fn parse_kv_pair_takes_middle_segment() {
    let p = parse_kv_pair("a=1=2").unwrap();
    assert_eq!(p.k, "a");
    assert_eq!(p.v, "1");
}

#[test]
fn parse_kv_pair_rejects_empty_input() {
    assert!(parse_kv_pair("").is_err());
}

#[test]
fn parse_kv_pair_leading_equals() {
    let p = parse_kv_pair("=x").unwrap();
    assert_eq!(p.k, "");
    assert_eq!(p.v, "x");
}
