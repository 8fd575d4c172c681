use wechat_ilink::markdown_filter::{filter_markdown, try_filter_markdown, StreamingMarkdownFilter};

fn one_shot(input: &str) -> String {
    filter_markdown(input)
}

fn char_by_char(input: &str) -> String {
    let mut filter = StreamingMarkdownFilter::new();
    let mut out = String::new();
    for ch in input.chars() {
        out.push_str(&filter.feed(&ch.to_string()));
    }
    out.push_str(&filter.flush());
    out
}

fn random_chunks(input: &str, seed: u32) -> String {
    let mut filter = StreamingMarkdownFilter::new();
    let mut out = String::new();
    let mut pos = 0;
    let mut s = seed;
    while pos < input.len() {
        s = s.wrapping_mul(1_103_515_245).wrapping_add(12_345) & 0x7fff_ffff;
        let mut end = (pos + (s as usize % 5) + 1).min(input.len());
        while end < input.len() && !input.is_char_boundary(end) {
            end += 1;
        }
        out.push_str(&filter.feed(&input[pos..end]));
        pos = end;
    }
    out.push_str(&filter.flush());
    out
}

fn expect_filter(input: &str, expected: &str) {
    assert_eq!(one_shot(input), expected, "one-shot mismatch");
    assert_eq!(char_by_char(input), expected, "char stream mismatch");
    assert_eq!(
        random_chunks(input, 42),
        expected,
        "random chunk stream mismatch"
    );
}

#[test]
fn plain_text_passthrough_matches_typescript_sdk() {
    expect_filter("hello world", "hello world");
    expect_filter("", "");
    expect_filter("line1\nline2\nline3", "line1\nline2\nline3");
    expect_filter("cafe monde", "cafe monde");
    expect_filter("Hello cafe World", "Hello cafe World");
    expect_filter("Grüße café 🌟", "Grüße café 🌟");
    expect_filter("Hello naïve World 🌍", "Hello naïve World 🌍");
}

#[test]
fn code_fences_match_typescript_sdk() {
    assert_eq!(one_shot("```\ncode\n```\n"), "code\n");
    assert_eq!(
        one_shot("```typescript\nconst x = 1;\n```\n"),
        "const x = 1;\n"
    );
    assert_eq!(
        one_shot("before\n```\ncode\n```\nafter"),
        "before\ncode\nafter"
    );
    assert_eq!(
        one_shot("```\n**bold** *italic* ~~strike~~\n```\n"),
        "**bold** *italic* ~~strike~~\n"
    );
    assert_eq!(
        one_shot("```\nblock1\n```\ntext\n```\nblock2\n```\n"),
        "block1\ntext\nblock2\n"
    );
    assert_eq!(one_shot("```\ncode\n```"), "code\n");

    let mut split_marker = StreamingMarkdownFilter::new();
    let out =
        split_marker.feed("```") + &split_marker.feed("\ncode\n```\n") + &split_marker.flush();
    assert_eq!(out, "\ncode\n");

    let mut split_line = StreamingMarkdownFilter::new();
    let out = split_line.feed("```\n") + &split_line.feed("code\n") + &split_line.feed("```\n");
    assert_eq!(out + &split_line.flush(), "code\n");

    let mut language = StreamingMarkdownFilter::new();
    let out = language.feed("```typescript\n")
        + &language.feed("const x = 1;\n")
        + &language.feed("```\n")
        + &language.flush();
    assert_eq!(out, "const x = 1;\n");
}

#[test]
fn inline_code_matches_typescript_sdk() {
    expect_filter("use `fmt.Println` here", "use fmt.Println here");
    expect_filter("text\n`code`", "text\ncode");
    expect_filter("hello `world\nnext", "hello `world\nnext");
    expect_filter("run `rm -rf /` carefully", "run rm -rf / carefully");
}

#[test]
fn images_match_typescript_sdk() {
    expect_filter("![alt](http://example.com/img.png)", "");
    expect_filter("before ![alt](url) after", "before  after");
    expect_filter("![not an image] text", "![not an image] text");
    expect_filter("![a](u1)![b](u2)", "");

    let mut filter = StreamingMarkdownFilter::new();
    let result = filter.feed("![alt](url") + &filter.flush();
    assert_eq!(result, "![alt](url");
}

#[test]
fn strikethrough_matches_typescript_sdk() {
    expect_filter("~~deleted~~", "deleted");
    expect_filter("keep ~~this~~ too", "keep this too");

    let mut filter = StreamingMarkdownFilter::new();
    let result = filter.feed("~~unclosed") + &filter.flush();
    assert_eq!(result, "~~unclosed");
}

#[test]
fn double_star_bold_is_preserved_like_typescript_sdk() {
    expect_filter("**bold**", "**bold**");
    expect_filter("this is **very** important", "this is **very** important");
    expect_filter("**a** and **b**", "**a** and **b**");
}

#[test]
fn single_star_italic_matches_typescript_sdk() {
    expect_filter("*italic*", "italic");
    expect_filter("this is *emphasized* text", "this is emphasized text");
    expect_filter("*unclosed\nnext", "*unclosed\nnext");
    expect_filter("3 * 4 = 12", "3 * 4 = 12");
    expect_filter("3 *\nnext", "3 *\nnext");
}

#[test]
fn triple_star_bold_italic_matches_typescript_sdk() {
    expect_filter("***bold italic***", "bold italic");
    expect_filter("this is ***very strong*** text", "this is very strong text");

    let mut filter = StreamingMarkdownFilter::new();
    let result = filter.feed("***unclosed") + &filter.flush();
    assert_eq!(result, "***unclosed");
}

#[test]
fn blockquotes_match_typescript_sdk() {
    expect_filter("> quoted text", "quoted text");
    expect_filter(">quoted", "quoted");
    expect_filter("> line1\n> line2", "line1\nline2");
    expect_filter("> **bold** in quote", "**bold** in quote");
}

#[test]
fn headings_match_typescript_sdk() {
    expect_filter("# Title", "# Title");
    expect_filter("## Subtitle", "## Subtitle");
    expect_filter("### Section", "### Section");
    expect_filter("#### Subsection", "#### Subsection");
    expect_filter("##### Small Heading", "Small Heading");
    expect_filter("###### Tiny Heading", "Tiny Heading");
    expect_filter("## Title\nbody text", "## Title\nbody text");
    expect_filter("##### Title\nbody text", "Title\nbody text");
}

#[test]
fn horizontal_rules_match_typescript_sdk() {
    expect_filter("before\n---\nafter", "before\nafter");
    expect_filter("before\n***\nafter", "before\nafter");
    expect_filter("before\n___\nafter", "before\nafter");
    expect_filter("before\n- - -\nafter", "before\nafter");
    expect_filter("text\n---", "text\n");
    expect_filter("text\n--\nnext", "text\n--\nnext");
}

#[test]
fn tables_match_typescript_sdk() {
    let table = "| Header1 | Header2 |\n|---------|---------||\n| Cell1 | Cell2 |";
    let result = one_shot(table);
    assert!(!result.contains('|'));
    assert!(result.contains("Header1"));
    assert!(result.contains("Header2"));
    assert!(result.contains("Cell1"));
    assert!(result.contains("Cell2"));

    let separator = one_shot("| A | B |\n|---|---|\n| 1 | 2 |");
    assert!(!separator.contains("---"));
    assert!(!separator.contains('|'));
    assert!(separator.contains('A'));
    assert!(separator.contains('B'));
    assert!(separator.contains('1'));
    assert!(separator.contains('2'));

    assert_eq!(one_shot("| A | B |\n"), "A\tB\n");
    assert_eq!(one_shot("|:---|---:|\n"), "");

    let surrounding = "Results:\n| A | B |\n|---|---|\n| 1 | 2 |\nDone.";
    let result = one_shot(surrounding);
    assert!(result.contains("Results:"));
    assert!(result.contains("Done."));
    assert!(!result.contains('|'));
    assert!(!result.contains("---"));
    assert!(result.contains('A'));
    assert!(result.contains('2'));

    let emoji_table = [
        "| Token | Emoji |",
        "|-------|-------|",
        "| smile | 🙂 |",
        "| face | 😐 |",
    ]
    .join("\n");
    let result = one_shot(&emoji_table);
    assert!(!result.contains('|'));
    assert!(!result.contains("---"));
    assert!(result.contains("Token"));
    assert!(result.contains('🙂'));
    assert!(result.contains("smile"));

    assert_eq!(one_shot("| A | B |"), "A\tB");

    let mut row_split = StreamingMarkdownFilter::new();
    let out = row_split.feed("| A |") + &row_split.feed(" B |\n") + &row_split.flush();
    assert_eq!(out, "A\tB\n");

    let mut separator_split = StreamingMarkdownFilter::new();
    let out = separator_split.feed("|---")
        + &separator_split.feed("|---|\n")
        + &separator_split.flush();
    assert_eq!(out, "");

    assert_eq!(one_shot("| just text\n"), "just text\n");
}

#[test]
fn lists_match_typescript_sdk() {
    expect_filter("- item 1\n- item 2", "- item 1\n- item 2");
    expect_filter("* item 1\n* item 2", "* item 1\n* item 2");
    assert_eq!(one_shot("  - nested item"), "  - nested item");
    assert_eq!(one_shot("      - deep item"), "      - deep item");
    assert_eq!(one_shot("  * nested"), "  * nested");
    assert_eq!(
        one_shot("- top\n  - nested\n- top2"),
        "- top\n  - nested\n- top2"
    );

    let mut filter = StreamingMarkdownFilter::new();
    let out = filter.feed("  - nested item") + &filter.flush();
    assert_eq!(out, "  - nested item");

    let mut split = StreamingMarkdownFilter::new();
    let out = split.feed("  ") + &split.feed("- nested") + &split.flush();
    assert_eq!(out, "  - nested");
}

#[test]
fn combined_patterns_match_typescript_sdk() {
    expect_filter(
        "## **Title**\nUse `code` here.",
        "## **Title**\nUse code here.",
    );
    expect_filter("> *italic* and ~~strike~~", "italic and strike");
    assert_eq!(
        one_shot("```\nfenced\n```\n`inline` ![img](url)"),
        "fenced\ninline "
    );
    expect_filter(
        "**bold** then ***bold-italic*** then **bold2**",
        "**bold** then bold-italic then **bold2**",
    );

    let input = [
        "## Summary",
        "",
        "> This is a quote.",
        "",
        "Here is **important** and *emphasized* text.",
        "",
        "```python",
        "print('hello')",
        "```",
        "",
        "- item 1",
        "  - nested",
        "- item 2",
        "",
        "---",
        "",
        "End.",
    ]
    .join("\n");

    let result = one_shot(&input);
    assert!(result.contains("## Summary"));
    assert!(result.contains("**important**"));
    assert!(result.contains("emphasized"));
    assert!(!result.contains("*emphasized*"));
    assert!(result.contains("print('hello')"));
    assert!(!result.contains("```"));
    assert!(result.contains("- item 1"));
    assert!(result.contains("- nested"));
    assert!(!result.contains("---"));
    assert!(result.contains("End."));
}

#[test]
fn hold_back_logic_matches_typescript_sdk() {
    let mut filter = StreamingMarkdownFilter::new();
    assert_eq!(filter.feed("hello *"), "hello ");
    assert_eq!(filter.feed("world* end"), "world end");
    assert_eq!(filter.flush(), "");

    let mut space = StreamingMarkdownFilter::new();
    assert_eq!(space.feed("3 *"), "3 ");
    assert_eq!(space.feed(" 4"), "* 4");
    assert_eq!(space.flush(), "");

    let mut double = StreamingMarkdownFilter::new();
    assert_eq!(double.feed("text **"), "text ");
    assert_eq!(double.feed("bold** end"), "**bold** end");
    assert_eq!(double.flush(), "");

    let mut triple = StreamingMarkdownFilter::new();
    assert_eq!(triple.feed("a **"), "a ");
    assert_eq!(triple.feed("*bi*** end"), "bi end");
    assert_eq!(triple.flush(), "");

    let mut strike = StreamingMarkdownFilter::new();
    assert_eq!(strike.feed("text ~"), "text ");
    assert_eq!(strike.feed("~strike~~ end"), "strike end");
    assert_eq!(strike.flush(), "");

    let mut image = StreamingMarkdownFilter::new();
    assert_eq!(image.feed("see !"), "see ");
    assert_eq!(image.feed("[alt](url) end"), " end");
    assert_eq!(image.flush(), "");

    let mut bang = StreamingMarkdownFilter::new();
    assert_eq!(bang.feed("wow!"), "wow");
    assert_eq!(bang.feed(" great"), "! great");
    assert_eq!(bang.flush(), "");
}

#[test]
fn eof_and_flush_behavior_matches_typescript_sdk() {
    let mut held = StreamingMarkdownFilter::new();
    held.feed("trailing *");
    assert_eq!(held.flush(), "*");

    let mut filter = StreamingMarkdownFilter::new();
    let result = filter.feed("unclosed `code") + &filter.flush();
    assert_eq!(result, "unclosed `code");

    let mut strike = StreamingMarkdownFilter::new();
    let result = strike.feed("~~unclosed") + &strike.flush();
    assert_eq!(result, "~~unclosed");

    let mut bold_italic = StreamingMarkdownFilter::new();
    let result = bold_italic.feed("***unclosed") + &bold_italic.flush();
    assert_eq!(result, "***unclosed");

    let mut italic = StreamingMarkdownFilter::new();
    let result = italic.feed("*unclosed") + &italic.flush();
    assert_eq!(result, "*unclosed");

    let mut image = StreamingMarkdownFilter::new();
    let result = image.feed("![alt text") + &image.flush();
    assert_eq!(result, "![alt text");

    let mut idempotent = StreamingMarkdownFilter::new();
    let feed_out = idempotent.feed("hello **bold**");
    let r1 = idempotent.flush();
    let r2 = idempotent.flush();
    assert_eq!(feed_out + &r1 + &r2, "hello **bold**");
    assert_eq!(r2, "");
}

#[test]
fn streaming_consistency_matches_typescript_sdk() {
    let cases = [
        ("plain text", "plain text"),
        ("**bold** text", "**bold** text"),
        ("*italic* text", "italic text"),
        ("***bi*** text", "bi text"),
        ("~~strike~~ text", "strike text"),
        ("`code` text", "code text"),
        ("![img](url)", ""),
        ("> blockquote", "blockquote"),
        ("##### H5 heading", "H5 heading"),
        ("## H2 heading", "## H2 heading"),
        ("before\n---\nafter", "before\nafter"),
        (
            "Here **bold** and *italic* `code` ~~strike~~ ***bi*** end",
            "Here **bold** and italic code strike bi end",
        ),
    ];

    for (input, expected) in cases {
        expect_filter(input, expected);
    }

    let input = "```\nfenced\n```\nafter";
    assert_eq!(one_shot(input), "fenced\nafter");
    let mut fence = StreamingMarkdownFilter::new();
    let out = fence.feed("```\n")
        + &fence.feed("fenced\n")
        + &fence.feed("```\n")
        + &fence.feed("after")
        + &fence.flush();
    assert_eq!(out, "fenced\nafter");

    let input = "  - nested";
    assert_eq!(one_shot(input), "  - nested");
    let mut list = StreamingMarkdownFilter::new();
    let out = list.feed("  - nested") + &list.flush();
    assert_eq!(out, "  - nested");
}

#[test]
fn edge_cases_match_typescript_sdk() {
    let result = one_shot("**b***i*");
    assert!(result.contains("**b**"));
    assert_eq!(char_by_char("**b***i*"), one_shot("**b***i*"));

    expect_filter("* item\n* item2", "* item\n* item2");
    expect_filter("- item\n- item2", "- item\n- item2");
    expect_filter("   \n  \n", "   \n  \n");
    expect_filter("\n\n\n", "\n\n\n");
    expect_filter(">> deeply nested", "> deeply nested");
    expect_filter("see ![a](u1) and ![b](u2) end", "see  and  end");
    assert_eq!(one_shot("```\n**not bold**\n```\n"), "**not bold**\n");

    let long_text = "word ".repeat(1000);
    expect_filter(&long_text, &long_text);

    expect_filter("*a* **b** *c* **d**", "a **b** c **d**");
    expect_filter("- - -\n", "");
    expect_filter("- item", "- item");
}

#[test]
fn blank_table_rows_are_told_apart() {
    assert_eq!(try_filter_markdown("|"), None);
    assert_eq!(try_filter_markdown("text\n| \n"), None);
    assert_eq!(try_filter_markdown("| a |").as_deref(), Some("a"));
    assert_eq!(try_filter_markdown("*a*").as_deref(), Some("a"));
}

fn expect_cuts_do_not_matter(text: &str, whole: &str) {
    assert_eq!(one_shot(text), whole);
    assert_eq!(char_by_char(text), whole);
    for seed in 0..50 {
        assert_eq!(random_chunks(text, seed), whole);
    }
}

#[test]
fn cuts_do_not_matter_where_each_marker_has_one_use() {
    expect_cuts_do_not_matter(
        "- **bold** and _em_ ~~gone~~ ![a](b) `c`\n> 3 * 4\n***\n| a | b |\n##### five",
        "- **bold** and em gone  c\n3 * 4\na\tb\nfive",
    );
    expect_cuts_do_not_matter(
        "* item\n* **two** ***three***\n--- \n",
        "* item\n* **two** three\n",
    );
    expect_cuts_do_not_matter("*a* _b_ *c*\n*open\n!", "a b c\n*open\n!");
}

#[test]
fn cuts_do_not_matter_where_backticks_come_in_pairs() {
    expect_cuts_do_not_matter(
        "`one` and `two`\n**bold** `three`\n_em_\n| a |\n- `four`",
        "one and two\n**bold** three\nem\na\n- four",
    );
    expect_cuts_do_not_matter("``a`` b", "a b");
}

#[test]
fn cuts_do_not_matter_where_emphasis_holds_no_doubled_marker() {
    expect_cuts_do_not_matter(
        "**bold** *em* `code`, **b** _u_ __v__ *c*\n`x` *d*",
        "**bold** em code, **b** u __v__ c\nx d",
    );
}

fn line_by_line(input: &str) -> String {
    let mut filter = StreamingMarkdownFilter::new();
    let mut out = String::new();
    for line in input.split_inclusive('\n') {
        out.push_str(&filter.feed(line));
    }
    out.push_str(&filter.flush());
    out
}

#[test]
fn cuts_at_line_ends_do_not_matter_for_fences() {
    let text = "*a*\n```rust\n`x`\n\n**\n``` end\n> b\n```\nopen";
    assert_eq!(one_shot(text), "a\n`x`\n\n**\nb\nopen");
    assert_eq!(line_by_line(text), one_shot(text));
    assert_ne!(char_by_char(text), one_shot(text));
}

#[test]
fn cuts_matter_for_doubled_markers_in_emphasis() {
    assert_eq!(one_shot("*a**b*"), "a**b");
    assert_eq!(char_by_char("*a**b*"), "ab");
}

#[test]
fn cuts_matter_for_code_over_lines() {
    assert_eq!(one_shot("`a\nb`"), "a\nb");
    assert_eq!(char_by_char("`a\nb`"), "`a\nb`");
}

#[test]
fn plain_text_may_hold_marks_that_open_nothing() {
    let text = "# one\n#### four\n- item\n-- \n1 > 0 | wow! ~ [a](b) #5 - 6\n  > quoted\n!";
    expect_cuts_do_not_matter(text, text);
}

#[test]
fn fenced_lines_are_kept() {
    assert_eq!(
        one_shot("```md\n# a\n| \n*b*\n``x\n```\n"),
        "# a\n| \n*b*\n``x\n"
    );
    assert_eq!(
        one_shot("```md\n*b*\n``` dropped\n> *c*\n"),
        "*b*\nc\n"
    );
    assert_eq!(try_filter_markdown("```\nx\n```\n|\n"), None);
}

#[test]
fn a_filter_that_meets_a_blank_row_stays_as_it_was() {
    let mut filter = StreamingMarkdownFilter::new();
    assert_eq!(filter.try_feed("a *b").as_deref(), Some("a "));
    assert_eq!(filter.try_feed("*\n|\n"), None);
    assert_eq!(filter.try_feed("* `c").as_deref(), Some("b "));
    assert_eq!(filter.try_flush().as_deref(), Some("`c"));

    let mut filter = StreamingMarkdownFilter::new();
    assert_eq!(filter.try_feed("|").as_deref(), Some(""));
    assert_eq!(filter.try_flush(), None);
    assert_eq!(filter.try_feed(" x | y").as_deref(), Some(""));
    assert_eq!(filter.try_flush().as_deref(), Some("x\ty"));
}
