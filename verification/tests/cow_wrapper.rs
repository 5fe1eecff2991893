use pundoc::cow_wrapper::CowWrapper;
use pundoc::range::{EscapedRange, SourceRange, UnescapedRange, WithRange};

fn star_foo_star_bar() -> CowWrapper {
    CowWrapper::new(
        "*Foo*Bar".to_string(),
        vec![
            EscapedRange { start: 0, end: 0 },
            EscapedRange { start: 1, end: 5 },
            EscapedRange { start: 6, end: 10 },
        ],
    )
}

#[test]
fn test_transform_escaped_range() {
    let cow = star_foo_star_bar();
    assert_eq!(
        cow.transform_escaped_range(EscapedRange { start: 0, end: 10 }),
        UnescapedRange { start: 0, end: 8 },
        "full string",
    );
    assert_eq!(
        cow.transform_escaped_range(EscapedRange { start: 0, end: 2 }),
        UnescapedRange { start: 0, end: 1 },
        "first escaped character",
    );
    assert_eq!(
        cow.transform_escaped_range(EscapedRange { start: 1, end: 10 }),
        UnescapedRange { start: 0, end: 8 },
        "start in beginning escaped character",
    );
    assert_eq!(
        cow.transform_escaped_range(EscapedRange { start: 3, end: 6 }),
        UnescapedRange { start: 2, end: 4 },
        "start in middle end in second escaped character",
    );
    assert_eq!(
        cow.transform_escaped_range(EscapedRange { start: 5, end: 10 }),
        UnescapedRange { start: 4, end: 8 },
        "start before middle escaped character",
    );
}

#[test]
fn test_transform_unescaped_range() {
    let cow = star_foo_star_bar();
    assert_eq!(
        cow.transform_unescaped_range(UnescapedRange { start: 0, end: 8 }),
        EscapedRange { start: 0, end: 10 },
        "full string",
    );
    assert_eq!(
        cow.transform_unescaped_range(UnescapedRange { start: 4, end: 8 }),
        EscapedRange { start: 5, end: 10 },
        "start at middle escaped char",
    );
    assert_eq!(
        cow.transform_unescaped_range(UnescapedRange { start: 2, end: 8 }),
        EscapedRange { start: 3, end: 10 },
        "from the middle"
    );

    let cow = CowWrapper::new(
        "FooBar".to_string(),
        vec![EscapedRange { start: 0, end: 3 }, EscapedRange { start: 7, end: 10 }],
    );
    assert_eq!(
        cow.transform_unescaped_range(UnescapedRange { start: 2, end: 5 }),
        EscapedRange { start: 2, end: 9 },
        "large gap",
    );
}

#[test]
fn test_subranges() {
    let cow = star_foo_star_bar();
    assert_eq!(
        cow.subranges(EscapedRange { start: 0, end: 10 }),
        vec![
            EscapedRange { start: 0, end: 0 },
            EscapedRange { start: 1, end: 5 },
            EscapedRange { start: 6, end: 10 },
        ],
        "full string",
    );
    assert_eq!(
        cow.subranges(EscapedRange { start: 0, end: 2 }),
        vec![EscapedRange { start: 0, end: 0 }, EscapedRange { start: 1, end: 2 },],
        "first escaped character",
    );
    assert_eq!(
        cow.subranges(EscapedRange { start: 2, end: 4 }),
        vec![EscapedRange { start: 2, end: 4 },],
        "middle in same text-range",
    );
    assert_eq!(
        cow.subranges(EscapedRange { start: 4, end: 8 }),
        vec![EscapedRange { start: 4, end: 5 }, EscapedRange { start: 6, end: 8 },],
        "multiple text-ranges",
    );
}

#[test]
fn escaped_and_unescaped_range_of_whole_text() {
    let cow = star_foo_star_bar();
    assert_eq!(cow.escaped_range(), EscapedRange { start: 0, end: 10 });
    assert_eq!(cow.unescaped_range(), UnescapedRange { start: 0, end: 8 });
}

#[test]
fn trim_keeps_source_ranges_of_what_is_left() {
    let mut cow = CowWrapper::new(
        "  ab ".to_string(),
        vec![EscapedRange { start: 0, end: 5 }],
    );
    assert_eq!(cow.trim_lengths(), (2, 1));
    cow.trim_inplace();
    assert_eq!(cow.as_str(), "ab");
    assert_eq!(cow.source_ranges(), &vec![EscapedRange { start: 2, end: 4 }]);
}

#[test]
fn split_off_divides_text_and_ranges() {
    let mut cow = CowWrapper::new("abcd".to_string(), vec![EscapedRange { start: 0, end: 4 }]);
    let right = cow.split_off(1);
    assert_eq!(cow.as_str(), "a");
    assert_eq!(right.as_str(), "bcd");
    assert_eq!(cow.source_ranges(), &vec![EscapedRange { start: 0, end: 1 }]);
    assert_eq!(right.source_ranges(), &vec![EscapedRange { start: 1, end: 4 }]);
}

#[test]
fn unescaped_ranges_come_back_from_the_source() {
    let cow = star_foo_star_bar();
    for start in 0..=8usize {
        for end in start..=8usize {
            let u = UnescapedRange { start, end };
            let e = cow.transform_unescaped_range(u);
            assert_eq!(cow.transform_escaped_range(e), u, "{:?} via {:?}", u, e);
        }
    }
}

#[test]
fn truncate_end_removes_the_last_bytes() {
    let mut cow = star_foo_star_bar();
    cow.truncate_end(4);
    assert_eq!(cow.as_str(), "*Foo");
    assert_eq!(
        cow.source_ranges(),
        &vec![
            EscapedRange { start: 0, end: 0 },
            EscapedRange { start: 1, end: 5 },
            EscapedRange { start: 6, end: 6 },
        ]
    );
    let kept: usize = cow.source_ranges().iter().map(|r| r.end - r.start).sum();
    assert_eq!(kept, 4);
}

#[test]
fn trim_end_inplace_drops_trailing_whitespace() {
    let mut cow = CowWrapper::new("Foo  ".to_string(), vec![EscapedRange { start: 0, end: 5 }]);
    cow.trim_end_inplace();
    assert_eq!(cow.as_str(), "Foo");
    assert_eq!(cow.source_ranges(), &vec![EscapedRange { start: 0, end: 3 }]);
}

#[test]
fn map_keeps_the_range_and_composes() {
    let w = WithRange(3u32, SourceRange { start: 2, end: 5 });
    assert_eq!(w.map(|x| x), w);
    assert_eq!(w.map(|x| x + 1).map(|x| x * 2), w.map(|x| (x + 1) * 2));
    assert_eq!(w.map(|x| x * 2), WithRange(6, SourceRange { start: 2, end: 5 }));
}

#[test]
fn unescaped_ranges_within_the_text_go_to_the_source_and_back() {
    let cow = star_foo_star_bar();
    for start in 0..=8 {
        for end in start..=8 {
            let u = UnescapedRange { start, end };
            assert_eq!(cow.transform_escaped_range(cow.transform_unescaped_range(u)), u, "{:?}", u);
        }
    }
}
