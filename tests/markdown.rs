use livedown::markdown::{is_whitespace, split_lines};
use livedown::text::decimal;
use livedown::{
    display_math, finish_html, inline_math, plain_code_block, process_emojis,
    process_latex_math, replace, wrap_highlighted, MarkdownProcessor,
};

#[test]
fn test_basic_markdown() {
    let processor = MarkdownProcessor::new();
    let result = processor.render("# Hello World\n\nThis is **bold** text.");
    assert!(result.contains("<h1"));
    assert!(result.contains("<strong>bold</strong>"));
}

#[test]
fn test_code_highlighting() {
    let processor = MarkdownProcessor::new();
    let result = processor.render("```rust\nfn main() {\n    println!(\"Hello\");\n}\n```");
    assert!(result.contains("highlight-rust"));
    assert!(result.contains("language-rust"));
}

#[test]
fn test_emoji_replacement() {
    let processor = MarkdownProcessor::new();
    let result = processor.render("Hello :smile: world :heart:");
    assert!(result.contains("😄"));
    assert!(result.contains("❤️"));
}

#[test]
fn test_latex_math() {
    let processor = MarkdownProcessor::new();

    let result = processor.render("This is inline math: $E = mc^2$");
    assert!(result.contains("<span class=\"katex\">\\(E = mc^2\\)</span>"));

    let result = processor
        .render("Display math:\n\n$$\\int_{-\\infty}^{\\infty} e^{-x^2} dx = \\sqrt{\\pi}$$");
    assert!(result.contains("<span class=\"katex-display\">\\[\\int_{-\\infty}^{\\infty} e^{-x^2} dx = \\sqrt{\\pi}\\]</span>"));

    let multiline_math = "$$\nx = \\frac{-b \\pm \\sqrt{b^2 - 4ac}}{2a}\n$$";
    let result = processor.render(multiline_math);
    assert!(result.contains("<span class=\"katex-display\">\\[\nx = \\frac{-b \\pm \\sqrt{b^2 - 4ac}}{2a}\n\\]</span>"));
}

#[test]
fn test_task_lists() {
    let processor = MarkdownProcessor::new();
    let result = processor.render("- [x] Done\n- [ ] Todo");
    assert!(result.contains("<li>"));
}

#[test]
fn test_markdown_processing() {
    let processor = MarkdownProcessor::new();
    let result = processor.render("# Test\nHello **world**!");
    assert!(result.contains("<h1"));
    assert!(result.contains("<strong>world</strong>"));
}

#[test]
fn render_empty_input() {
    let processor = MarkdownProcessor::new();
    assert_eq!(processor.render(""), "");
}

#[test]
fn render_various_inputs_without_failing() {
    let processor = MarkdownProcessor::new();
    let inputs = [
        "**unterminated",
        "```\nno end",
        "| a | b |\n|---|---|\n| 1 | 2 |",
        "text[^1]\n\n[^1]: note",
        "~~gone~~ \"quoted\"",
        "<div>",
        "$$$$ $ $",
        "\u{0}\u{feff}é中",
    ];
    for input in inputs {
        let html = processor.render(input);
        assert_eq!(html.matches("<p>").count(), html.matches("</p>").count());
        assert_eq!(html.matches("<span").count(), html.matches("</span>").count());
    }
}

#[test]
fn code_block_without_language_is_plain_and_escaped() {
    let processor = MarkdownProcessor::new();
    let result = processor.render("```\n<b>&x\n```");
    assert!(result.contains("<pre><code>&lt;b&gt;&amp;x\n</code></pre>"));
    assert!(!result.contains("highlight"));
}

#[test]
fn code_block_with_unknown_language_keeps_class_and_escapes() {
    let processor = MarkdownProcessor::new();
    let result = processor.render("```nosuchlang\na < b && c\n```");
    assert!(result.contains("<pre class=\"highlight highlight-nosuchlang\"><code class=\"language-nosuchlang\">"));
    assert!(result.contains("&lt;"));
    assert!(!result.contains("a < b"));
    assert!(result.ends_with("</code></pre>"));
}

#[test]
fn blank_code_block_is_plain() {
    let processor = MarkdownProcessor::new();
    assert_eq!(processor.highlight_code("  \n\t\n", "rust"), "<pre><code>  \n\t\n</code></pre>");
    assert_eq!(processor.highlight_code("x < 1", ""), "<pre><code>x &lt; 1</code></pre>");
}

#[test]
fn highlighted_code_is_not_the_raw_text() {
    let processor = MarkdownProcessor::new();
    let html = processor.highlight_code("let x = 1;\nlet y = 2;\n", "rust");
    assert!(html.starts_with("<pre class=\"highlight highlight-rust\"><code class=\"language-rust\">"));
    assert!(html.ends_with("</code></pre>"));
    assert!(html.contains("<span style="));
    assert_eq!(html.matches('\n').count(), 2);
}

#[test]
fn bare_dollar_is_left_alone() {
    assert_eq!(process_latex_math("costs $5 today"), "costs $5 today");
    assert_eq!(process_latex_math("$a\nb$"), "$a\nb$");
    assert_eq!(process_latex_math("$$"), "$$");
    let processor = MarkdownProcessor::new();
    assert_eq!(processor.render("costs $5 today"), "<p>costs $5 today</p>\n");
}

#[test]
fn display_and_inline_math_on_one_line() {
    assert_eq!(
        process_latex_math("$$a$$ and $b$"),
        "<span class=\"katex-display\">\\[a\\]</span> and <span class=\"katex\">\\(b\\)</span>"
    );
    let processor = MarkdownProcessor::new();
    let html = processor.render("$$a$$ and $b$");
    assert!(html.contains("<span class=\"katex-display\">\\[a\\]</span> and <span class=\"katex\">\\(b\\)</span>"));
}

#[test]
fn math_passes_separately() {
    assert_eq!(display_math("x $$y$$ z"), "x <span class=\"katex-display\">\\[y\\]</span> z");
    assert_eq!(display_math("$a$"), "$a$");
    assert_eq!(inline_math("$a$ $b$"), "<span class=\"katex\">\\(a\\)</span> <span class=\"katex\">\\(b\\)</span>");
    assert_eq!(display_math("$$a\nb$$"), "<span class=\"katex-display\">\\[a\nb\\]</span>");
}

#[test]
fn rendering_twice_is_identical() {
    let processor = MarkdownProcessor::new();
    let text = "# T\n\n```rust\nfn f() {}\n```\n\n$x$ :fire: | a |\n|---|\n| b |\n\n## U";
    assert_eq!(processor.render(text), processor.render(text));
}

#[test]
fn shorthand_symbols_are_replaced() {
    let processor = MarkdownProcessor::new();
    let html = processor.render("Hello :smile: :heart:");
    assert!(html.contains("😄"));
    assert!(html.contains("❤️"));
    assert!(!html.contains(":smile:"));
    assert!(!html.contains(":heart:"));
}

#[test]
fn shorthand_symbols_case_sensitive_and_in_code() {
    assert_eq!(process_emojis(":Smile: :smile:"), ":Smile: 😄");
    assert_eq!(process_emojis("<code>:rocket:</code>"), "<code>🚀</code>");
    assert_eq!(process_emojis(":unknown:"), ":unknown:");
}

#[test]
fn heading_anchors() {
    let processor = MarkdownProcessor::new();
    let html = processor.render("# Title {#intro}\n\npara\n\n## Next");
    assert!(html.contains("<h1 id=\"intro\">Title</h1>"));
    assert!(html.contains("<h2 id=\"heading-6\">Next</h2>"));
    let first = processor.render("# A");
    assert_eq!(first, "<h1 id=\"heading-0\">A</h1>\n");
}

#[test]
fn replace_left_to_right_without_overlap() {
    assert_eq!(replace("aaa", "aa", "b"), "ba");
    assert_eq!(replace("abc", "", "x"), "abc");
    assert_eq!(replace("", "a", "x"), "");
}

#[test]
fn plain_and_wrapped_blocks() {
    assert_eq!(plain_code_block("<&>\"'"), "<pre><code>&lt;&amp;&gt;\"'</code></pre>");
    assert_eq!(
        wrap_highlighted("py", "x\n"),
        "<pre class=\"highlight highlight-py\"><code class=\"language-py\">x\n</code></pre>"
    );
}

#[test]
fn finish_applies_math_then_symbols() {
    assert_eq!(finish_html("$:x:$"), "<span class=\"katex\">\\(❌\\)</span>");
}

#[test]
fn lines_are_split_like_text_lines() {
    let v: Vec<char> = "a\r\nb\n\nc\n".chars().collect();
    assert_eq!(split_lines(&v), vec!["a".to_string(), "b".to_string(), "".to_string(), "c".to_string()]);
    let w: Vec<char> = "x\r".chars().collect();
    assert_eq!(split_lines(&w), vec!["x\r".to_string()]);
}

#[test]
fn decimal_numbers() {
    assert_eq!(decimal(0), "0");
    assert_eq!(decimal(1234), "1234");
}

#[test]
fn fence_tag_is_escaped_in_class_attribute() {
    let processor = MarkdownProcessor::new();
    let html = processor.highlight_code("x = 1\n", "x\"><b>&");
    assert!(html.starts_with(
        "<pre class=\"highlight highlight-x&quot;&gt;&lt;b&gt;&amp;\"><code class=\"language-x&quot;&gt;&lt;b&gt;&amp;\">"
    ));
    assert!(!html.contains("<b>"));
    assert!(html.ends_with("</code></pre>"));
}

#[test]
fn unicode_whitespace_counts_as_blank() {
    for c in ['\t', '\n', '\u{b}', '\u{c}', '\r', ' ', '\u{85}', '\u{a0}', '\u{1680}', '\u{2000}', '\u{200a}', '\u{2028}', '\u{2029}', '\u{202f}', '\u{205f}', '\u{3000}'] {
        assert!(is_whitespace(c));
        assert_eq!(is_whitespace(c), c.is_whitespace());
    }
    for c in ['a', '\u{200b}', '\u{feff}', '_', '\u{0}'] {
        assert!(!is_whitespace(c));
    }
    let processor = MarkdownProcessor::new();
    assert_eq!(processor.highlight_code("\u{a0}\u{3000}", "rust"), "<pre><code>\u{a0}\u{3000}</code></pre>");
}

#[test]
fn math_between_plain_text() {
    assert_eq!(
        process_latex_math("p $$x$$ q $y$ r"),
        "p <span class=\"katex-display\">\\[x\\]</span> q <span class=\"katex\">\\(y\\)</span> r"
    );
}
