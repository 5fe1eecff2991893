use pundoc::convert::{join_texts, lines_of, Converted, Frontend, FrontendConfig};
use pundoc::error::DiagnosticCode;
use pundoc::event::{CmarkEvent, CmarkTag, Event, ResolveSecurity, Tag};
use pundoc::frontend::{is_pagebreak, parse_markdown};
use pundoc::latex_complex::Alignment;
use pundoc::range::{SourceRange, WithRange};
use pundoc::refs::LinkType;

fn at(e: CmarkEvent, start: usize, end: usize) -> (CmarkEvent, SourceRange) {
    (e, SourceRange { start, end })
}

fn text(t: &str) -> CmarkEvent {
    CmarkEvent::Text(t.to_string())
}

fn config(figures: bool) -> FrontendConfig {
    FrontendConfig {
        figures,
        has_bibliography: false,
        commands: vec!["toc".to_string()],
        svgbob_dir: "/tmp/".to_string(),
    }
}

fn run(figures: bool, events: Vec<(CmarkEvent, SourceRange)>) -> Option<Converted> {
    Frontend::from_events(config(figures), events).and_then(|f| f.convert())
}

fn ranged(w: &Option<WithRange<String>>) -> Option<(String, usize, usize)> {
    w.as_ref().map(|w| (w.0.clone(), w.1.start, w.1.end))
}

#[test]
fn plain_paragraph() {
    let out = run(
        false,
        vec![
            at(CmarkEvent::Start(CmarkTag::Paragraph), 0, 5),
            at(text("hello"), 0, 5),
            at(CmarkEvent::End(CmarkTag::Paragraph), 0, 5),
        ],
    )
    .unwrap();
    assert_eq!(out.events.len(), 3);
    assert!(matches!(out.events[0], Event::Start(Tag::Paragraph)));
    assert!(matches!(&out.events[1], Event::Text(t) if t == "hello"));
    assert!(matches!(out.events[2], Event::End(Tag::Paragraph)));
    assert!(out.diagnostics.is_empty());
}

#[test]
fn page_break_paragraph() {
    let out = run(
        false,
        vec![
            at(CmarkEvent::Start(CmarkTag::Paragraph), 0, 3),
            at(text("==="), 0, 3),
            at(CmarkEvent::End(CmarkTag::Paragraph), 0, 3),
        ],
    )
    .unwrap();
    assert_eq!(out.events.len(), 1);
    assert!(matches!(out.events[0], Event::PageBreak));
}

#[test]
fn header_with_inline_label() {
    let out = run(
        false,
        vec![
            at(CmarkEvent::Start(CmarkTag::Header(1)), 0, 12),
            at(text("Foo {#bar}"), 2, 12),
            at(CmarkEvent::End(CmarkTag::Header(1)), 0, 12),
        ],
    )
    .unwrap();
    assert_eq!(out.events.len(), 3);
    match &out.events[0] {
        Event::Start(Tag::Header(h)) => {
            assert_eq!(h.label.0, "bar");
            assert_eq!((h.label.1.start, h.label.1.end), (6, 12));
            assert_eq!(h.level, 1);
        },
        e => panic!("unexpected {:?}", e),
    }
    assert!(matches!(&out.events[1], Event::Text(t) if t == "Foo "));
    assert!(matches!(out.events[2], Event::End(Tag::Header(_))));
}

#[test]
fn generated_label_turns_each_other_char_into_a_dash() {
    let out = run(
        false,
        vec![
            at(CmarkEvent::Start(CmarkTag::Header(1)), 0, 10),
            at(text("Foo Bar!"), 2, 10),
            at(CmarkEvent::End(CmarkTag::Header(1)), 0, 10),
        ],
    )
    .unwrap();
    match &out.events[0] {
        Event::Start(Tag::Header(h)) => {
            assert_eq!(h.label.0, "foo-bar-");
            assert_eq!(h.level, 1);
        },
        e => panic!("unexpected {:?}", e),
    }
}

#[test]
fn header_with_generated_label() {
    let out = run(
        false,
        vec![
            at(CmarkEvent::Start(CmarkTag::Header(2)), 0, 15),
            at(text("Hello World!"), 3, 15),
            at(CmarkEvent::End(CmarkTag::Header(2)), 0, 15),
        ],
    )
    .unwrap();
    match &out.events[0] {
        Event::Start(Tag::Header(h)) => {
            assert_eq!(h.label.0, "hello-world-");
            assert_eq!((h.label.1.start, h.label.1.end), (0, 15));
            assert_eq!(h.level, 2);
        },
        e => panic!("unexpected {:?}", e),
    }
    assert!(matches!(&out.events[1], Event::Text(t) if t == "Hello World!"));
}

#[test]
fn prefix_label_before_header() {
    let out = run(
        false,
        vec![
            at(CmarkEvent::Start(CmarkTag::Paragraph), 0, 8),
            at(text("{#intro}"), 0, 8),
            at(CmarkEvent::End(CmarkTag::Paragraph), 0, 8),
            at(CmarkEvent::Start(CmarkTag::Header(2)), 10, 18),
            at(text("Intro"), 13, 18),
            at(CmarkEvent::End(CmarkTag::Header(2)), 10, 18),
        ],
    )
    .unwrap();
    assert_eq!(out.events.len(), 3);
    match &out.events[0] {
        Event::Start(Tag::Header(h)) => assert_eq!(h.label.0, "intro"),
        e => panic!("unexpected {:?}", e),
    }
    assert!(out.diagnostics.is_empty());
}

#[test]
fn both_labels_keep_the_inline_one() {
    let out = run(
        false,
        vec![
            at(CmarkEvent::Start(CmarkTag::Paragraph), 0, 8),
            at(text("{#intro}"), 0, 8),
            at(CmarkEvent::End(CmarkTag::Paragraph), 0, 8),
            at(CmarkEvent::Start(CmarkTag::Header(1)), 10, 24),
            at(text("Intro {#other}"), 12, 26),
            at(CmarkEvent::End(CmarkTag::Header(1)), 10, 26),
        ],
    )
    .unwrap();
    match &out.events[0] {
        Event::Start(Tag::Header(h)) => assert_eq!(h.label.0, "other"),
        e => panic!("unexpected {:?}", e),
    }
    assert_eq!(out.diagnostics.len(), 1);
    assert!(matches!(out.diagnostics[0], DiagnosticCode::MultipleLabels));
}

#[test]
fn config_before_image_makes_a_figure() {
    let out = run(
        true,
        vec![
            at(CmarkEvent::Start(CmarkTag::Paragraph), 0, 30),
            at(text("{#cat}"), 0, 6),
            at(CmarkEvent::SoftBreak, 6, 7),
            at(
                CmarkEvent::Start(CmarkTag::Image(LinkType::Inline, "cat.png".to_string(), String::new())),
                7,
                22,
            ),
            at(text("a cat"), 9, 14),
            at(CmarkEvent::End(CmarkTag::Image(LinkType::Inline, "cat.png".to_string(), String::new())), 7, 22),
            at(CmarkEvent::End(CmarkTag::Paragraph), 0, 30),
        ],
    )
    .unwrap();
    assert_eq!(out.events.len(), 5);
    assert!(matches!(out.events[0], Event::Start(Tag::Paragraph)));
    match &out.events[1] {
        Event::Start(Tag::Figure(f)) => {
            assert_eq!(ranged(&f.label).unwrap().0, "cat");
            assert!(f.caption.is_none());
        },
        e => panic!("unexpected {:?}", e),
    }
    match &out.events[2] {
        Event::Include(i) => {
            assert_eq!(i.dst, "cat.png");
            assert_eq!(i.alt_text, Some("a cat".to_string()));
            assert!(i.label.is_none());
            assert!(i.title.is_none());
            assert_eq!(i.resolve_security, ResolveSecurity::Default);
        },
        e => panic!("unexpected {:?}", e),
    }
    assert!(matches!(out.events[3], Event::End(Tag::Figure(_))));
    assert!(matches!(out.events[4], Event::End(Tag::Paragraph)));
}

#[test]
fn config_that_nothing_takes() {
    let out = run(
        false,
        vec![
            at(CmarkEvent::Start(CmarkTag::Paragraph), 0, 11),
            at(text("{caption=x}"), 0, 11),
            at(CmarkEvent::End(CmarkTag::Paragraph), 0, 11),
            at(CmarkEvent::Start(CmarkTag::List(None)), 12, 20),
            at(CmarkEvent::End(CmarkTag::List(None)), 12, 20),
        ],
    )
    .unwrap();
    assert_eq!(out.events.len(), 2);
    assert!(matches!(out.events[0], Event::Start(Tag::List)));
    assert!(matches!(out.events[1], Event::End(Tag::List)));
    assert_eq!(out.diagnostics.len(), 2);
    assert!(matches!(out.diagnostics[0], DiagnosticCode::UnapplicableElementConfig));
    assert!(matches!(out.diagnostics[1], DiagnosticCode::UnknownAttributesInElementConfig));
    assert_eq!(out.unused_attributes.len(), 1);
    let notes: Vec<&str> = out.unused_attributes[0].iter().map(|n| n.value.as_str()).collect();
    assert_eq!(notes, vec!["caption ignored: x"]);
}

#[test]
fn config_with_label_before_other_element_is_a_label() {
    let out = run(
        false,
        vec![
            at(CmarkEvent::Start(CmarkTag::Paragraph), 0, 5),
            at(text("{#x}"), 0, 4),
            at(CmarkEvent::End(CmarkTag::Paragraph), 0, 5),
            at(CmarkEvent::Rule, 6, 9),
        ],
    )
    .unwrap();
    assert_eq!(out.events.len(), 2);
    assert!(matches!(&out.events[0], Event::Label(l) if l == "x"));
    assert!(matches!(out.events[1], Event::Rule));
    assert!(out.diagnostics.is_empty());
}

#[test]
fn inline_code_math_latex_and_code() {
    let out = run(
        false,
        vec![
            at(CmarkEvent::Code("$ x^2".to_string()), 0, 7),
            at(CmarkEvent::Code("\\ \\LaTeX".to_string()), 8, 17),
            at(CmarkEvent::Code("ab".to_string()), 18, 22),
        ],
    )
    .unwrap();
    assert_eq!(out.events.len(), 7);
    assert!(matches!(out.events[0], Event::Start(Tag::InlineMath)));
    assert!(matches!(&out.events[1], Event::Text(t) if t == "x^2"));
    assert!(matches!(out.events[2], Event::End(Tag::InlineMath)));
    assert!(matches!(&out.events[3], Event::Latex(t) if t == "\\LaTeX"));
    assert!(matches!(out.events[4], Event::Start(Tag::InlineCode)));
    assert!(matches!(&out.events[5], Event::Text(t) if t == "ab"));
    assert!(matches!(out.events[6], Event::End(Tag::InlineCode)));
}

#[test]
fn html_line_break_is_a_hard_break() {
    let out = run(
        false,
        vec![at(CmarkEvent::Html("<br/>".to_string()), 0, 5), at(CmarkEvent::Html("<b>".to_string()), 5, 8)],
    )
    .unwrap();
    assert!(matches!(out.events[0], Event::HardBreak));
    assert!(matches!(&out.events[1], Event::Html(h) if h == "<b>"));
}

#[test]
fn code_block_with_inline_config() {
    let out = run(
        false,
        vec![
            at(CmarkEvent::Start(CmarkTag::CodeBlock("rust,#lst".to_string())), 0, 12),
            at(text("fn main() {}\n"), 13, 26),
            at(CmarkEvent::End(CmarkTag::CodeBlock("rust,#lst".to_string())), 0, 30),
        ],
    )
    .unwrap();
    assert_eq!(out.events.len(), 3);
    match &out.events[0] {
        Event::Start(Tag::CodeBlock(c)) => {
            assert_eq!(ranged(&c.label).unwrap().0, "lst");
            assert_eq!(ranged(&c.language), Some(("rust".to_string(), 8, 12)));
            assert!(c.caption.is_none());
        },
        e => panic!("unexpected {:?}", e),
    }
    assert!(matches!(&out.events[1], Event::Text(t) if t == "fn main() {}\n"));
    assert!(matches!(out.events[2], Event::End(Tag::CodeBlock(_))));
}

#[test]
fn sequence_code_block_is_not_yet_implemented() {
    let out = run(
        false,
        vec![
            at(CmarkEvent::Start(CmarkTag::CodeBlock("sequence".to_string())), 0, 11),
            at(text("a->b\n"), 12, 17),
            at(CmarkEvent::End(CmarkTag::CodeBlock("sequence".to_string())), 0, 21),
        ],
    )
    .unwrap();
    match &out.events[0] {
        Event::Start(Tag::CodeBlock(c)) => assert!(c.language.is_none()),
        e => panic!("unexpected {:?}", e),
    }
    assert_eq!(out.diagnostics.len(), 1);
    assert!(matches!(out.diagnostics[0], DiagnosticCode::NotYetImplemented));
}

#[test]
fn equation_and_inline_latex_blocks() {
    let out = run(
        false,
        vec![
            at(CmarkEvent::Start(CmarkTag::CodeBlock("$$".to_string())), 0, 5),
            at(text("x = 1\n"), 6, 12),
            at(CmarkEvent::End(CmarkTag::CodeBlock("$$".to_string())), 0, 15),
            at(CmarkEvent::Start(CmarkTag::CodeBlock("inlinelatex".to_string())), 16, 30),
            at(text("\\relax\n"), 31, 38),
            at(CmarkEvent::End(CmarkTag::CodeBlock("inlinelatex".to_string())), 16, 41),
        ],
    )
    .unwrap();
    assert_eq!(out.events.len(), 4);
    assert!(matches!(out.events[0], Event::Start(Tag::Equation(_))));
    assert!(matches!(out.events[2], Event::End(Tag::Equation(_))));
    assert!(matches!(&out.events[3], Event::Latex(t) if t == "\\relax\n"));
}

#[test]
fn svgbob_block_becomes_an_include() {
    let out = run(
        false,
        vec![
            at(CmarkEvent::Start(CmarkTag::CodeBlock("svgbob".to_string())), 0, 9),
            at(text("-->\n"), 10, 14),
            at(CmarkEvent::End(CmarkTag::CodeBlock("svgbob".to_string())), 0, 17),
        ],
    )
    .unwrap();
    assert_eq!(out.events.len(), 1);
    match &out.events[0] {
        Event::Include(i) => {
            assert_eq!(i.dst, "file:///tmp/svgbob0.svg");
            assert_eq!(i.resolve_security, ResolveSecurity::SkipChecks);
        },
        e => panic!("unexpected {:?}", e),
    }
    assert_eq!(out.svgbob.len(), 1);
    assert!(out.svgbob[0].contains("<svg"));
    assert_ne!(out.svgbob[0], "-->\n");
}

#[test]
fn table_columns_collect_their_lines() {
    let cell = |t: &str| {
        vec![
            at(CmarkEvent::Start(CmarkTag::TableCell), 0, 1),
            at(text(t), 0, 1),
            at(CmarkEvent::End(CmarkTag::TableCell), 0, 1),
        ]
    };
    let mut evs = vec![
        at(CmarkEvent::Start(CmarkTag::Table(vec![Alignment::Left, Alignment::Right])), 0, 20),
        at(CmarkEvent::Start(CmarkTag::TableHead), 0, 5),
    ];
    evs.extend(cell("a"));
    evs.extend(cell("b"));
    evs.push(at(CmarkEvent::End(CmarkTag::TableHead), 0, 5));
    evs.push(at(CmarkEvent::Start(CmarkTag::TableRow), 6, 10));
    evs.extend(cell("c"));
    evs.extend(cell("d"));
    evs.push(at(CmarkEvent::End(CmarkTag::TableRow), 6, 10));
    evs.push(at(CmarkEvent::End(CmarkTag::Table(vec![Alignment::Left, Alignment::Right])), 0, 20));
    // texts at the same range would be joined: give each its own range
    for (i, e) in evs.iter_mut().enumerate() {
        e.1 = SourceRange { start: i, end: i + 1 };
    }
    let out = run(false, evs).unwrap();
    match &out.events[0] {
        Event::Start(Tag::Table(t)) => {
            assert_eq!(t.columns.len(), 2);
            assert_eq!(t.columns[0].0, Alignment::Left);
            assert_eq!(t.columns[0].1, vec!["a".to_string(), "c".to_string()]);
            assert_eq!(t.columns[1].0, Alignment::Right);
            assert_eq!(t.columns[1].1, vec!["b".to_string(), "d".to_string()]);
        },
        e => panic!("unexpected {:?}", e),
    }
    assert_eq!(out.events.len(), 18);
    assert!(matches!(out.events[17], Event::End(Tag::Table(_))));
}

#[test]
fn links_urls_includes_and_commands() {
    let link = |typ: LinkType, dst: &str, title: &str| {
        CmarkEvent::Start(CmarkTag::Link(typ, dst.to_string(), title.to_string()))
    };
    let end = |typ: LinkType| CmarkEvent::End(CmarkTag::Link(typ, String::new(), String::new()));
    let out = run(
        false,
        vec![
            at(link(LinkType::Inline, "https://x.org", ""), 0, 20),
            at(text("X"), 1, 2),
            at(end(LinkType::Inline), 0, 20),
            at(link(LinkType::ShortcutUnknown, "include foo.md", "include foo.md"), 21, 40),
            at(text("include foo.md"), 22, 36),
            at(end(LinkType::ShortcutUnknown), 21, 40),
            at(link(LinkType::ShortcutUnknown, "toc", "toc"), 41, 46),
            at(text("toc"), 42, 45),
            at(end(LinkType::ShortcutUnknown), 41, 46),
        ],
    )
    .unwrap();
    assert_eq!(out.events.len(), 5);
    match &out.events[0] {
        Event::Start(Tag::Url(u)) => {
            assert_eq!(u.destination, "https://x.org");
            assert!(u.title.is_none());
        },
        e => panic!("unexpected {:?}", e),
    }
    assert!(matches!(&out.events[1], Event::Text(t) if t == "X"));
    assert!(matches!(out.events[2], Event::End(Tag::Url(_))));
    assert!(matches!(&out.events[3], Event::ResolveInclude(p) if p == "foo.md"));
    assert!(matches!(&out.events[4], Event::Command(c) if c == "toc"));
}

#[test]
fn interlink_keeps_case_information() {
    let out = run(
        false,
        vec![
            at(CmarkEvent::Start(CmarkTag::Link(LinkType::Shortcut, "#Intro".to_string(), String::new())), 0, 8),
            at(text("#Intro"), 1, 7),
            at(CmarkEvent::End(CmarkTag::Link(LinkType::Shortcut, String::new(), String::new())), 0, 8),
        ],
    )
    .unwrap();
    assert_eq!(out.events.len(), 1);
    match &out.events[0] {
        Event::InterLink(l) => {
            assert_eq!(l.label, "intro");
            assert!(l.uppercase);
        },
        e => panic!("unexpected {:?}", e),
    }
}

#[test]
fn stray_end_tag_is_not_converted() {
    assert!(run(false, vec![at(CmarkEvent::End(CmarkTag::Paragraph), 0, 1)]).is_none());
    assert!(run(
        false,
        vec![at(CmarkEvent::Start(CmarkTag::Paragraph), 0, 1), at(text("x"), 0, 1)]
    )
    .is_none());
}

#[test]
fn adjacent_texts_are_joined() {
    let joined = join_texts(vec![at(text("a"), 0, 1), at(text("b"), 1, 2), at(CmarkEvent::SoftBreak, 2, 3)])
        .unwrap();
    assert_eq!(joined.len(), 2);
    assert!(matches!(&joined[0].0, CmarkEvent::Text(t) if t == "ab"));
    assert_eq!((joined[0].1.start, joined[0].1.end), (0, 2));
    assert!(matches!(joined[1].0, CmarkEvent::SoftBreak));
    // a text that starts before the previous one ends
    assert!(join_texts(vec![at(text("a"), 0, 2), at(text("b"), 1, 3)]).is_none());
}

#[test]
fn lines_split_like_str_lines() {
    assert_eq!(lines_of("a\r\nb\n"), vec!["a".to_string(), "b".to_string()]);
    assert_eq!(lines_of("x\r"), vec!["x\r".to_string()]);
    assert_eq!(lines_of("\n\nz"), vec!["".to_string(), "".to_string(), "z".to_string()]);
    assert!(lines_of("").is_empty());
}

#[test]
fn converted_events_nest_like_their_input() {
    let link = CmarkEvent::Start(CmarkTag::Link(LinkType::Inline, "https://x.org".to_string(), String::new()));
    let link_end = CmarkEvent::End(CmarkTag::Link(LinkType::Inline, String::new(), String::new()));
    let code = CmarkTag::CodeBlock("rust".to_string());
    let out = run(
        true,
        vec![
            at(CmarkEvent::Start(CmarkTag::List(None)), 0, 30),
            at(CmarkEvent::Start(CmarkTag::Item), 0, 30),
            at(CmarkEvent::Start(CmarkTag::Paragraph), 2, 30),
            at(text("a "), 2, 4),
            at(CmarkEvent::Code("$ x".to_string()), 4, 10),
            at(CmarkEvent::Start(CmarkTag::Emphasis), 11, 14),
            at(text("b"), 12, 13),
            at(CmarkEvent::End(CmarkTag::Emphasis), 11, 14),
            at(CmarkEvent::End(CmarkTag::Paragraph), 2, 30),
            at(CmarkEvent::End(CmarkTag::Item), 0, 30),
            at(CmarkEvent::End(CmarkTag::List(None)), 0, 30),
            at(CmarkEvent::Start(CmarkTag::Paragraph), 31, 37),
            at(text("{#fig}"), 31, 37),
            at(CmarkEvent::End(CmarkTag::Paragraph), 31, 37),
            at(CmarkEvent::Start(code.clone()), 38, 45),
            at(text("fn main"), 46, 53),
            at(CmarkEvent::End(code), 38, 57),
            at(CmarkEvent::Start(CmarkTag::BlockQuote), 58, 80),
            at(CmarkEvent::Start(CmarkTag::Paragraph), 60, 80),
            at(link, 60, 80),
            at(text("x"), 61, 62),
            at(link_end, 60, 80),
            at(CmarkEvent::End(CmarkTag::Paragraph), 60, 80),
            at(CmarkEvent::End(CmarkTag::BlockQuote), 58, 80),
        ],
    )
    .unwrap();
    let mut depth: i64 = 0;
    let mut starts = 0;
    for e in &out.events {
        match e {
            Event::Start(_) => {
                depth += 1;
                starts += 1;
            },
            Event::End(_) => depth -= 1,
            _ => {},
        }
        assert!(depth >= 0);
    }
    assert_eq!(depth, 0);
    // list, item, paragraph, inline math, emphasis, figure, code block, quote, paragraph, url
    assert_eq!(starts, 10);
}

#[test]
fn first_line_of_a_code_block() {
    let src = "text\n  ```rust,{#x}  \n  fn main\n  ```\n";
    // the range starts at the fence, after the indentation of its line
    let r = pundoc::diagnostics::first_line(src, SourceRange { start: 7, end: 40 });
    assert_eq!(r.start, 7);
    // as long as the whole line without its trailing spaces
    assert_eq!(r.end, 7 + "  ```rust,{#x}".len());
    let last = pundoc::diagnostics::first_line("ab\ncd  ", SourceRange { start: 3, end: 7 });
    assert_eq!((last.start, last.end), (3, 5));
    let empty = pundoc::diagnostics::first_line("ab\n", SourceRange { start: 3, end: 3 });
    assert_eq!((empty.start, empty.end), (3, 3));
}

#[test]
fn links_without_definition_that_are_kept() {
    let commands = vec!["toc".to_string()];
    let kept = |r: &str| pundoc::frontend::broken_link_callback(r, &commands);
    assert_eq!(kept(" Include foo.md "), Some((" Include foo.md ".to_string(), " Include foo.md ".to_string())));
    assert!(kept("toc").is_some());
    assert!(kept("#intro").is_some());
    assert!(kept("@knuth").is_some());
    assert!(kept("include").is_none());
    assert!(kept("foo").is_none());
    assert!(kept("tocs").is_none());
}

fn parsed(markdown: &str) -> Vec<String> {
    parse_markdown(markdown, &vec!["toc".to_string()])
        .iter()
        .map(|(e, r)| format!("{:?} {}..{}", e, r.start, r.end))
        .collect()
}

#[test]
fn parse_markdown_splits_texts_at_escapes() {
    assert_eq!(
        parsed(r"Foo\\Bar"),
        vec!["Start(Paragraph) 0..8", r#"Text("Foo") 0..3"#, r#"Text("\\Bar") 4..8"#, "End(Paragraph) 0..8"]
    );
    assert_eq!(
        parsed(r"\*Foo\*Bar"),
        vec![
            "Start(Paragraph) 0..10",
            r#"Text("*Foo") 1..5"#,
            r#"Text("*Bar") 6..10"#,
            "End(Paragraph) 0..10",
        ]
    );
}

#[test]
fn parse_markdown_keeps_commands_and_citations_as_links() {
    let evs = parsed("[toc] [@foo] [nothing]");
    assert_eq!(evs[1], r#"Start(Link(ShortcutUnknown, "toc", "toc")) 0..5"#);
    assert!(evs.iter().any(|e| e.starts_with(r#"Start(Link(ShortcutUnknown, "@foo", "@foo"))"#)));
    assert!(evs.iter().all(|e| !e.contains(r#""nothing""#) || e.starts_with("Text")));
}

#[test]
fn frontend_new_reads_markdown_and_cuts_code_blocks_to_their_first_line() {
    let md = "# Foo Bar!\n\n```rust  \nfn main() {}\n```\n";
    let f = Frontend::new(config(false), md).unwrap();
    let out = f.convert().unwrap();
    match &out.events[0] {
        Event::Start(Tag::Header(h)) => {
            assert_eq!(h.label.0, "foo-bar-");
            assert_eq!(h.level, 1);
        },
        e => panic!("unexpected {:?}", e),
    }
    assert!(out.events.iter().any(|e| matches!(e, Event::Start(Tag::CodeBlock(_)))));
}

#[test]
fn pagebreak_needs_three_pattern_chars_in_a_row() {
    assert!(is_pagebreak("==="));
    assert!(is_pagebreak("= *"));
    assert!(is_pagebreak("=a***"));
    assert!(!is_pagebreak("=a=b="));
    assert!(!is_pagebreak("=="));
    assert!(!is_pagebreak("***"));
}

#[test]
fn citation_without_bibliography_is_reported_and_kept_as_text() {
    let link = || CmarkTag::Link(LinkType::ShortcutUnknown, "@foo".to_string(), "@foo".to_string());
    let out = run(
        false,
        vec![
            at(CmarkEvent::Start(CmarkTag::Paragraph), 0, 6),
            at(CmarkEvent::Start(link()), 0, 6),
            at(text("@foo"), 1, 5),
            at(CmarkEvent::End(link()), 0, 6),
            at(CmarkEvent::End(CmarkTag::Paragraph), 0, 6),
        ],
    )
    .unwrap();
    assert!(out.events.iter().any(|e| matches!(e, Event::Text(t) if t == "[@foo]")));
    assert!(matches!(out.diagnostics[..], [DiagnosticCode::InvalidReference]));
}
