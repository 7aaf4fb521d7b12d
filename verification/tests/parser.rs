use nitori::kaizo::Kaizo;
use nitori::kaizo::RequestData;
use nitori::kaizo::arrow_segments;
use nitori::kaizo::split_with_arrow;

#[test]
fn test_split() {
    let given = "a -> b ---> c > d";
    let expect: &[&str] = &["a ", " b ", " c ", " d"];
    let result = arrow_segments(given);
    assert_eq!(expect, result.as_slice());
}

#[test]
fn test_parse_data() {
    let given = "내 이름은 메구밍!";
    let result = split_with_arrow(given);
    match result {
        RequestData::One(s) => assert_eq!(s, given),
        _ => panic!(),
    }
}

#[test]
fn test_parse_trim() {
    let given = "  아크 위저드를 생업으로    ";
    let expect = "아크 위저드를 생업으로";
    let result = split_with_arrow(given);
    match result {
        RequestData::One(s) => assert_eq!(s, expect),
        _ => panic!(),
    }
}

#[test]
fn test_parse_arrow() {
    let given = "삼고 --> 있으며,";
    let expect_from = "삼고";
    let expect_to = "있으며,";
    let result = split_with_arrow(given);
    match result {
        RequestData::Two(a, b) => {
            assert_eq!(a, expect_from);
            assert_eq!(b, expect_to);
        }
        _ => panic!(),
    }
}

#[test]
fn test_parse_multiple_arrow() {
    let given = "최강의 > 공격마법, -> 폭렬마법을 다루는 자!";
    let result = split_with_arrow(given);
    match result {
        RequestData::One(s) => assert_eq!(s, given),
        _ => panic!(),
    }
}

#[test]
fn test_parse_empty() {
    let given = "";
    let result = split_with_arrow(given);
    match result {
        RequestData::Empty => {}
        _ => panic!(),
    }
}

#[test]
fn test_parse_empty_whitespace() {
    let given = "     ";
    let result = split_with_arrow(given);
    match result {
        RequestData::Empty => {}
        _ => panic!(),
    }
}

#[test]
fn test_parse_only_arrow() {
    let given = "->";
    let result = split_with_arrow(given);
    match result {
        RequestData::One(s) => assert_eq!(s, given),
        _ => panic!(),
    }
}

#[test]
fn split_maximal_run_is_one_delimiter() {
    // a run with several `>` is still one delimiter occurrence
    match split_with_arrow("a >> b") {
        RequestData::Two(f, t) => {
            assert_eq!(f, "a");
            assert_eq!(t, "b");
        }
        _ => panic!(),
    }
    assert_eq!(arrow_segments("a >-> b"), vec!["a ", " b"]);
    assert_eq!(arrow_segments(">>"), vec!["", ""]);
}

#[test]
fn split_trailing_dashes_join_the_run() {
    match split_with_arrow("a ->- b") {
        RequestData::Two(f, t) => {
            assert_eq!(f, "a");
            assert_eq!(t, "b");
        }
        _ => panic!(),
    }
}

#[test]
fn split_lone_dash_is_no_delimiter() {
    match split_with_arrow("a - b") {
        RequestData::One(s) => assert_eq!(s, "a - b"),
        _ => panic!(),
    }
}

#[test]
fn split_two_segments_one_blank_falls_back() {
    // exactly two segments, but the right one trims to nothing
    match split_with_arrow("a ->   ") {
        RequestData::One(s) => assert_eq!(s, "a ->"),
        _ => panic!(),
    }
}

#[test]
fn kaizo_new_two_way() {
    let k = Kaizo::new("tester".to_string(), 7, "낡은 집 -> 성").unwrap();
    assert_eq!(k.screen_name, "tester");
    assert_eq!(k.status_id, 7);
    assert_eq!(k.from, "낡은 집");
    assert_eq!(k.to, "성");
}

#[test]
fn kaizo_new_one_way_gets_default_target() {
    let k = Kaizo::new("tester".to_string(), 7, "낡은 집").unwrap();
    assert_eq!(k.from, "낡은 집");
    assert_eq!(k.to, "시공");
}

#[test]
fn kaizo_new_empty_yields_nothing() {
    assert!(Kaizo::new("tester".to_string(), 7, "").is_none());
    assert!(Kaizo::new("tester".to_string(), 7, "   ").is_none());
}

#[test]
fn kaizo_new_unescapes_before_splitting() {
    // &gt; becomes > before the split, so this is a two-way command
    let k = Kaizo::new("tester".to_string(), 7, "a &gt; b").unwrap();
    assert_eq!(k.from, "a");
    assert_eq!(k.to, "b");
}

#[test]
fn kaizo_new_unescapes_exactly_once() {
    // &amp;gt; unescapes to &gt; and no further, so no delimiter appears
    let k = Kaizo::new("tester".to_string(), 7, "a &amp;gt; b").unwrap();
    assert_eq!(k.from, "a &gt; b");
    assert_eq!(k.to, "시공");
}

#[test]
fn kaizo_new_lt_and_amp_unescape() {
    let k = Kaizo::new("tester".to_string(), 7, "&lt;3 &amp; more").unwrap();
    assert_eq!(k.from, "<3 & more");
}
