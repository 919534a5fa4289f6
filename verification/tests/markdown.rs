use penumbra::util::markdown::{
    markdown_events, speech_of_events, strip_markdown_for_speech, Element, MarkdownEvent,
    CODE_BLOCK_PLACEHOLDER, SPEECH_EXTENSIONS, TABLE_PLACEHOLDER,
};

#[test]
fn strips_bold() {
    assert_eq!(strip_markdown_for_speech("This is **bold** text."), "This is bold text.");
}

#[test]
fn strips_italic_asterisk_and_underscore() {
    assert_eq!(strip_markdown_for_speech("This is *italic*."), "This is italic.");
    assert_eq!(strip_markdown_for_speech("This is _italic_."), "This is italic.");
}

#[test]
fn strips_bold_underscore() {
    assert_eq!(strip_markdown_for_speech("This is __bold__."), "This is bold.");
}

#[test]
fn strips_combined_bold_italic() {
    assert_eq!(strip_markdown_for_speech("This is ***both***."), "This is both.");
}

#[test]
fn strips_nested_emphasis() {
    assert_eq!(
        strip_markdown_for_speech("**bold with *nested* stuff**"),
        "bold with nested stuff"
    );
}

#[test]
fn strips_strikethrough() {
    assert_eq!(strip_markdown_for_speech("That is ~~wrong~~ correct."), "That is wrong correct.");
}

#[test]
fn strips_superscript_caret_with_word_boundary() {
    assert_eq!(
        strip_markdown_for_speech("The result is ^super^ neat."),
        "The result is super neat."
    );
}

#[test]
fn strips_subscript_tilde_with_word_boundary() {
    assert_eq!(
        strip_markdown_for_speech("Say ~sub~ out loud."),
        "Say sub out loud."
    );
}

#[test]
fn intraword_caret_without_boundary_is_left_as_is() {
    // ^ (like _) can't open directly against a preceding word character,
    // so this deliberately does NOT get treated as superscript.
    assert_eq!(strip_markdown_for_speech("x^2^ is x squared."), "x^2^ is x squared.");
}

#[test]
fn strips_heading_hashes() {
    assert_eq!(strip_markdown_for_speech("# Tomorrow's forecast"), "Tomorrow's forecast");
    assert_eq!(strip_markdown_for_speech("### Sub sub heading"), "Sub sub heading");
}

#[test]
fn flattens_bullet_list_to_semicolons() {
    assert_eq!(
        strip_markdown_for_speech("- one\n- two\n- three"),
        "one; two; three"
    );
}

#[test]
fn flattens_asterisk_bullet_list_to_semicolons() {
    assert_eq!(strip_markdown_for_speech("* one\n* two"), "one; two");
}

#[test]
fn flattens_numbered_list_to_semicolons() {
    assert_eq!(
        strip_markdown_for_speech("1. first\n2. second\n3. third"),
        "first; second; third"
    );
}

#[test]
fn keeps_link_text_drops_destination() {
    assert_eq!(
        strip_markdown_for_speech("According to [the New York Times](https://nytimes.com/x), it rained."),
        "According to the New York Times, it rained."
    );
}

#[test]
fn strips_inline_code_backticks() {
    assert_eq!(strip_markdown_for_speech("Run `cargo build` now."), "Run cargo build now.");
}

#[test]
fn reads_single_line_fenced_code_block_like_inline_code() {
    assert_eq!(
        strip_markdown_for_speech("Run this:\n\n```bash\ncargo build --release\n```\n\nThat's it."),
        "Run this: cargo build --release That's it."
    );
}

#[test]
fn replaces_multiline_fenced_code_block_with_placeholder() {
    assert_eq!(
        strip_markdown_for_speech("Here:\n\n```rust\nfn main() {\n    todo!();\n}\n```\n\nThat's it."),
        "Here: Code snippet was provided here, but removed for brevity. That's it."
    );
}

#[test]
fn replaces_empty_fenced_code_block_with_placeholder() {
    assert_eq!(
        strip_markdown_for_speech("```\n```"),
        "Code snippet was provided here, but removed for brevity."
    );
}

#[test]
fn replaces_table_with_placeholder() {
    let table = "| A | B |\n|---|---|\n| 1 | 2 |";
    assert_eq!(strip_markdown_for_speech(table), "Table data was provided here, but removed for brevity.");
}

#[test]
fn strips_blockquote_marker() {
    assert_eq!(strip_markdown_for_speech("> quoted text"), "quoted text");
}

#[test]
fn drops_horizontal_rule() {
    assert_eq!(
        strip_markdown_for_speech("before\n\n---\n\nafter"),
        "before after"
    );
}

#[test]
fn resolves_escaped_asterisks_as_literal_not_emphasis() {
    assert_eq!(strip_markdown_for_speech(r"\*not italic\*"), "*not italic*");
}

#[test]
fn does_not_misinterpret_math_or_snake_case_as_emphasis() {
    assert_eq!(
        strip_markdown_for_speech("2 * 3 = 6, see file_name.txt"),
        "2 * 3 = 6, see file_name.txt"
    );
}

#[test]
fn leaves_plain_text_completely_unchanged() {
    let text = "Just a normal sentence with no markdown at all.";
    assert_eq!(strip_markdown_for_speech(text), text);
}

#[test]
fn markdown_leaves_empty_string_unchanged() {
    assert_eq!(strip_markdown_for_speech(""), "");
}

#[test]
fn joins_multiple_paragraphs_with_separation() {
    assert_eq!(
        strip_markdown_for_speech("First paragraph.\n\nSecond paragraph."),
        "First paragraph. Second paragraph."
    );
}

#[test]
fn handles_realistic_mixed_response() {
    let input = "## Weekend Forecast\n\nHere's what to expect:\n\n- **Saturday**: sunny, high of 75\n- *Sunday*: rain, check [the weather site](https://weather.example.com) for updates\n\nStay dry!";
    assert_eq!(
        strip_markdown_for_speech(input),
        "Weekend Forecast Here's what to expect: Saturday: sunny, high of 75; Sunday: rain, check the weather site for updates Stay dry!"
    );
}

fn text(t: &str) -> MarkdownEvent {
    MarkdownEvent::Text(t.to_string())
}

#[test]
fn parsed_events_tell_of_the_elements() {
    let events = markdown_events("a *b*", SPEECH_EXTENSIONS);
    assert_eq!(
        events,
        vec![
            MarkdownEvent::Start(Element::Paragraph),
            text("a "),
            MarkdownEvent::Start(Element::Other),
            text("b"),
            MarkdownEvent::End(Element::Other),
            MarkdownEvent::End(Element::Paragraph),
        ]
    );
}

#[test]
fn every_element_is_told_apart() {
    let events = markdown_events(
        "# h\n\n> q\n\n```\nc\n```\n\n- i\n\n| A |\n|---|\n| 1 |\n\nx  \ny\nz `k`\n\n---\n",
        SPEECH_EXTENSIONS,
    );
    for element in [
        Element::Heading,
        Element::BlockQuote,
        Element::CodeBlock,
        Element::List,
        Element::Item,
        Element::Table,
        Element::Paragraph,
    ] {
        assert!(events.contains(&MarkdownEvent::Start(element)));
        assert!(events.contains(&MarkdownEvent::End(element)));
    }
    assert!(events.contains(&MarkdownEvent::HardBreak));
    assert!(events.contains(&MarkdownEvent::SoftBreak));
    assert!(events.contains(&MarkdownEvent::Code("k".to_string())));
    assert!(events.contains(&MarkdownEvent::Other));
}

#[test]
fn tables_need_their_extension() {
    let table = "| A |\n|---|\n| 1 |";
    assert!(markdown_events(table, SPEECH_EXTENSIONS).contains(&MarkdownEvent::Start(Element::Table)));
    assert!(!markdown_events(table, 0).contains(&MarkdownEvent::Start(Element::Table)));
}

#[test]
fn speech_of_a_paragraph_is_its_text() {
    let events = vec![
        MarkdownEvent::Start(Element::Paragraph),
        text("Hello"),
        MarkdownEvent::SoftBreak,
        text("there"),
        MarkdownEvent::End(Element::Paragraph),
    ];
    assert_eq!(speech_of_events(&events), "Hello there");
}

#[test]
fn speech_of_a_table_is_the_placeholder() {
    let events = vec![
        MarkdownEvent::Start(Element::Table),
        text("1"),
        MarkdownEvent::End(Element::Table),
    ];
    assert_eq!(speech_of_events(&events), TABLE_PLACEHOLDER);
}

#[test]
fn speech_of_code_is_one_line_or_the_placeholder() {
    let block = |t: &str| {
        vec![
            MarkdownEvent::Start(Element::CodeBlock),
            text(t),
            MarkdownEvent::End(Element::CodeBlock),
        ]
    };
    assert_eq!(speech_of_events(&block("ls\n")), "ls");
    assert_eq!(speech_of_events(&block("ls\ncd\n")), CODE_BLOCK_PLACEHOLDER);
    assert_eq!(speech_of_events(&block("")), CODE_BLOCK_PLACEHOLDER);
}

#[test]
fn speech_of_nothing_is_nothing() {
    assert_eq!(speech_of_events(&Vec::new()), "");
}
