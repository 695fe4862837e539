use mqtt_proto::{Pid, TopicFilter, TopicName};

#[test]
fn pid_add_sub() {
    let t: Vec<(u16, u16, u16, u16)> = vec![
        (2, 1, 1, 3),
        (100, 1, 99, 101),
        (1, 1, u16::MAX, 2),
        (1, 2, u16::MAX - 1, 3),
        (1, 3, u16::MAX - 2, 4),
        (u16::MAX, 1, u16::MAX - 1, 1),
        (u16::MAX, 2, u16::MAX - 2, 2),
        (10, u16::MAX, 10, 10),
        (10, 0, 10, 10),
        (1, 0, 1, 1),
        (u16::MAX, 0, u16::MAX, u16::MAX),
    ];
    for (cur, d, prev, next) in t {
        let cur = Pid::try_from(cur).unwrap();
        let sub = cur - d;
        let add = cur + d;
        assert_eq!(prev, sub.value(), "{cur:?} - {d} should be {prev}");
        assert_eq!(next, add.value(), "{cur:?} + {d} should be {next}");
    }
}

#[test]
fn test_valid_topic_name() {
    // valid topic name
    assert!(!TopicName::is_invalid("/abc/def"));
    assert!(!TopicName::is_invalid("abc/def"));
    assert!(!TopicName::is_invalid("abc"));
    assert!(!TopicName::is_invalid("/"));
    assert!(!TopicName::is_invalid("//"));
    // NOTE: Because v5.0 topic alias, we let up level to check empty topic name
    assert!(!TopicName::is_invalid(""));
    assert!(!TopicName::is_invalid(
        "a".repeat(u16::MAX as usize).as_str()
    ));

    // invalid topic name
    assert!(TopicName::is_invalid("#"));
    assert!(TopicName::is_invalid("+"));
    assert!(TopicName::is_invalid("/+"));
    assert!(TopicName::is_invalid("/#"));
    assert!(TopicName::is_invalid("abc/\0"));
    assert!(TopicName::is_invalid("abc\0def"));
    assert!(TopicName::is_invalid("abc#def"));
    assert!(TopicName::is_invalid("abc+def"));
    assert!(TopicName::is_invalid(
        "a".repeat(u16::MAX as usize + 1).as_str()
    ));
}

#[test]
fn test_valid_topic_filter() {
    let string_65535 = "a".repeat(u16::MAX as usize);
    let string_65536 = "a".repeat(u16::MAX as usize + 1);
    for (is_invalid, topic) in [
        // valid topic filter
        (false, "abc/def"),
        (false, "abc/+"),
        (false, "abc/#"),
        (false, "#"),
        (false, "+"),
        (false, "+/"),
        (false, "+/+"),
        (false, "///"),
        (false, "//+/"),
        (false, "//abc/"),
        (false, "//+//#"),
        (false, "/abc/+//#"),
        (false, "+/abc/+"),
        (false, string_65535.as_str()),
        // invalid topic filter
        (true, ""),
        (true, "abc\0def"),
        (true, "abc/\0def"),
        (true, "++"),
        (true, "++/"),
        (true, "/++"),
        (true, "abc/++"),
        (true, "abc/++/"),
        (true, "#/abc"),
        (true, "/ab#"),
        (true, "##"),
        (true, "/abc/ab#"),
        (true, "/+#"),
        (true, "//+#"),
        (true, "/abc/+#"),
        (true, "xxx/abc/+#"),
        (true, "xxx/a+bc/"),
        (true, "x+x/abc/"),
        (true, "x+/abc/"),
        (true, "+x/abc/"),
        (true, "+/abc/++"),
        (true, "+/a+c/+"),
        (true, string_65536.as_str()),
    ] {
        assert_eq!((is_invalid, 0), TopicFilter::is_invalid(topic));
    }
}

#[test]
fn test_valid_shared_topic_filter() {
    for (is_invalid, topic) in [
        // valid topic filter
        (false, "abc/def"),
        (false, "abc/+"),
        (false, "abc/#"),
        (false, "#"),
        (false, "+"),
        (false, "+/"),
        (false, "+/+"),
        (false, "///"),
        (false, "//+/"),
        (false, "//abc/"),
        (false, "//+//#"),
        (false, "/abc/+//#"),
        (false, "+/abc/+"),
        // invalid topic filter
        (true, "abc\0def"),
        (true, "abc/\0def"),
        (true, "++"),
        (true, "++/"),
        (true, "/++"),
        (true, "abc/++"),
        (true, "abc/++/"),
        (true, "#/abc"),
        (true, "/ab#"),
        (true, "##"),
        (true, "/abc/ab#"),
        (true, "/+#"),
        (true, "//+#"),
        (true, "/abc/+#"),
        (true, "xxx/abc/+#"),
        (true, "xxx/a+bc/"),
        (true, "x+x/abc/"),
        (true, "x+/abc/"),
        (true, "+x/abc/"),
        (true, "+/abc/++"),
        (true, "+/a+c/+"),
    ] {
        let result = if is_invalid { (true, 0) } else { (false, 10) };
        assert_eq!(
            result,
            TopicFilter::is_invalid(format!("$share/xyz/{topic}").as_str()),
        );
    }

    for (result, raw_filter) in [
        (Some((None, None)), "$abc/a/b"),
        (Some((None, None)), "$abc/a/b/xyz/def"),
        (Some((None, None)), "$sys/abc"),
        (Some((Some("abc"), Some("xyz"))), "$share/abc/xyz"),
        (Some((Some("abc"), Some("xyz/ijk"))), "$share/abc/xyz/ijk"),
        (Some((Some("abc"), Some("/xyz"))), "$share/abc//xyz"),
        (Some((Some("abc"), Some("/#"))), "$share/abc//#"),
        (Some((Some("abc"), Some("/a/x/+"))), "$share/abc//a/x/+"),
        (Some((Some("abc"), Some("+"))), "$share/abc/+"),
        (Some((Some("你好"), Some("+"))), "$share/你好/+"),
        (Some((Some("你好"), Some("你好"))), "$share/你好/你好"),
        (Some((Some("abc"), Some("#"))), "$share/abc/#"),
        (Some((Some("abc"), Some("#"))), "$share/abc/#"),
        (None, "$share/abc/"),
        (None, "$share/abc"),
        (None, "$share/+/y"),
        (None, "$share/+/+"),
        (None, "$share//y"),
        (None, "$share//+"),
    ] {
        if let Some((shared_group, shared_filter)) = result {
            let filter = TopicFilter::try_from(raw_filter).unwrap();
            assert_eq!(filter.shared_group_name(), shared_group);
            assert_eq!(filter.shared_filter(), shared_filter);
            if let Some(group_name) = shared_group {
                assert_eq!(
                    filter.shared_info(),
                    Some((group_name, shared_filter.unwrap()))
                );
            }
        } else {
            assert_eq!((true, 0), TopicFilter::is_invalid(raw_filter));
        }
    }
}

#[test]
fn types_pid_add_sub() {
    let t: Vec<(u16, u16, u16, u16)> = vec![
        (2, 1, 1, 3),
        (100, 1, 99, 101),
        (1, 1, u16::MAX, 2),
        (1, 2, u16::MAX - 1, 3),
        (1, 3, u16::MAX - 2, 4),
        (u16::MAX, 1, u16::MAX - 1, 1),
        (u16::MAX, 2, u16::MAX - 2, 2),
        (10, u16::MAX, 10, 10),
        (10, 0, 10, 10),
        (1, 0, 1, 1),
        (u16::MAX, 0, u16::MAX, u16::MAX),
    ];
    for (cur, d, prev, next) in t {
        let cur = Pid::new(cur);
        assert!(cur.is_valid());
        let sub = cur - d;
        let add = cur + d;
        assert_eq!(prev, sub.value(), "{:?} - {} should be {}", cur, d, prev);
        assert_eq!(next, add.value(), "{:?} + {} should be {}", cur, d, next);
    }
}
