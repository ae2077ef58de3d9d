//! The renderer: markdown text to HTML, with fenced code blocks routed to a
//! syntax highlighter, math markup and shorthand symbols applied afterwards.
use vstd::prelude::*;
use pulldown_cmark::{CodeBlockKind, CowStr, Event, Options, Parser, Tag, TagEnd};
use syntect::easy::HighlightLines;
use syntect::highlighting::{Style, Theme, ThemeSet};
use syntect::html::IncludeBackground;
use syntect::parsing::{SyntaxReference, SyntaxSet};
use crate::math::{math_markup, process_latex_math};
use crate::symbols::{process_emojis, substitute_symbols};
use crate::text::{chars_of, decimal, decimal_of, push_char, push_str};

verus! {

#[verifier::external_type_specification]
#[verifier::external_body]
pub struct ExEvent<'a>(Event<'a>);

#[verifier::external_type_specification]
#[verifier::external_body]
pub struct ExTag<'a>(Tag<'a>);

#[verifier::external_type_specification]
#[verifier::external_body]
pub struct ExSyntaxSet(SyntaxSet);

#[verifier::external_type_specification]
#[verifier::external_body]
pub struct ExSyntaxReference(SyntaxReference);

#[verifier::external_type_specification]
#[verifier::external_body]
pub struct ExThemeSet(ThemeSet);

#[verifier::external_type_specification]
#[verifier::external_body]
pub struct ExTheme(Theme);

#[verifier::external_type_specification]
#[verifier::external_body]
pub struct ExHighlightLines<'a>(HighlightLines<'a>);

#[verifier::external_type_specification]
#[verifier::external_body]
pub struct ExStyle(Style);

/// A parser event, as far as the renderer tells events apart.
pub enum MdEvent {
    /// The start of a fenced code block, with its language tag.
    FencedStart { lang: String },
    /// The end of a code block.
    CodeEnd,
    /// A run of text.
    Text { text: String },
    /// The start of a heading; `heading` keeps its level, classes and
    /// attributes, `id` its anchor.
    HeadingStart { heading: Tag<'static>, id: Option<String> },
    /// Raw HTML.
    Html { html: String },
    /// Any other event, passed through untouched.
    Other { event: Event<'static> },
}

/// Parser extensions: tables, footnotes, strikethrough, task lists, smart
/// punctuation and heading attributes (the parser's option bits 1 to 6).
pub const MARKDOWN_OPTIONS: u32 = 0x7e;

/// The HTML escape of one character of text.
pub open spec fn escape_char(c: char) -> Seq<char> {
    if c == '&' {
        "&amp;"@
    } else if c == '<' {
        "&lt;"@
    } else if c == '>' {
        "&gt;"@
    } else {
        seq![c]
    }
}

/// Text with `&`, `<` and `>` escaped, every other character kept.
pub open spec fn escape_text(s: Seq<char>) -> Seq<char>
    decreases s.len(),
{
    if s.len() == 0 {
        Seq::empty()
    } else {
        escape_text(s.drop_last()) + escape_char(s.last())
    }
}

/// A character of a double-quoted attribute value, escaped.
pub open spec fn escape_attr_char(c: char) -> Seq<char> {
    if c == '"' {
        "&quot;"@
    } else {
        escape_char(c)
    }
}

/// Text escaped for a double-quoted attribute: `&`, `<`, `>` and `"`.
pub open spec fn escape_attr(s: Seq<char>) -> Seq<char>
    decreases s.len(),
{
    if s.len() == 0 {
        Seq::empty()
    } else {
        escape_attr(s.drop_last()) + escape_attr_char(s.last())
    }
}

/// The Unicode `White_Space` property.
pub open spec fn white_space(c: char) -> bool {
    ('\u{9}' <= c && c <= '\u{d}') || c == ' ' || c == '\u{85}' || c == '\u{a0}' || c == '\u{1680}'
        || ('\u{2000}' <= c && c <= '\u{200a}') || c == '\u{2028}' || c == '\u{2029}'
        || c == '\u{202f}' || c == '\u{205f}' || c == '\u{3000}'
}

/// Empty, or whitespace only.
pub open spec fn blank(s: Seq<char>) -> bool {
    forall|i: int| 0 <= i < s.len() ==> white_space(s[i])
}

/// The code block shown without highlighting.
pub open spec fn plain_block(code: Seq<char>) -> Seq<char> {
    "<pre><code>"@ + escape_text(code) + "</code></pre>"@
}

/// The opening tags of a highlighted block; the fence tag is escaped for
/// the attribute it stands in.
pub open spec fn highlight_open(lang: Seq<char>) -> Seq<char> {
    "<pre class=\"highlight highlight-"@ + escape_attr(lang) + "\"><code class=\"language-"@
        + escape_attr(lang) + "\">"@
}

pub open spec fn highlight_close() -> Seq<char> {
    "</code></pre>"@
}

/// A highlighted block for `lang`: its body between the opening tags, which
/// carry the language classes, and the closing tags.
pub open spec fn highlighted_block(lang: Seq<char>, body: Seq<char>) -> Seq<char> {
    highlight_open(lang) + body + highlight_close()
}

/// Line fragments, each followed by a line feed.
pub open spec fn joined(pieces: Seq<Seq<char>>) -> Seq<char>
    decreases pieces.len(),
{
    if pieces.len() == 0 {
        Seq::empty()
    } else {
        joined(pieces.drop_last()) + pieces.last() + seq!['\n']
    }
}

/// `h` is what a fenced block with tag `lang` and content `code` becomes:
/// plain when the tag is empty or the code blank, else one highlighted
/// fragment per line of the code.
pub open spec fn code_block_html(lang: Seq<char>, code: Seq<char>, h: Seq<char>) -> bool {
    if lang.len() == 0 || blank(code) {
        h == plain_block(code)
    } else {
        exists|pieces: Seq<Seq<char>>| pieces.len() == lines_from(code, 0).len()
            && h == #[trigger] highlighted_block(lang, joined(pieces))
    }
}

/// An entry of the event pass's output, before highlighting.
pub enum Slot {
    /// An input event passed through unchanged.
    Keep(MdEvent),
    /// A heading start, with the anchor it is given.
    Heading(Tag<'static>, Seq<char>),
    /// A fenced code block: its language tag and its content.
    Code(Seq<char>, Seq<char>),
}

/// The state of the event pass.
pub struct Scan {
    pub in_code: bool,
    pub lang: Seq<char>,
    pub code: Seq<char>,
    pub out: Seq<Slot>,
}

/// The anchor of a heading: the explicit one, else one made from its position
/// in the output.
pub open spec fn anchor(id: Option<String>, position: nat) -> Seq<char> {
    match id {
        Some(i) => i@,
        None => "heading-"@ + decimal_of(position),
    }
}

/// One step of the event pass.
pub open spec fn step(st: Scan, e: MdEvent) -> Scan {
    match e {
        MdEvent::FencedStart { lang } => Scan { in_code: true, lang: lang@, code: Seq::empty(), ..st },
        MdEvent::CodeEnd if st.in_code => Scan {
            in_code: false,
            out: st.out.push(Slot::Code(st.lang, st.code)),
            ..st
        },
        MdEvent::Text { text } if st.in_code => Scan { code: st.code + text@, ..st },
        MdEvent::HeadingStart { heading, id } => Scan {
            out: st.out.push(Slot::Heading(heading, anchor(id, st.out.len()))),
            ..st
        },
        _ => if st.in_code { st } else { Scan { out: st.out.push(Slot::Keep(e)), ..st } },
    }
}

pub open spec fn initial_scan() -> Scan {
    Scan { in_code: false, lang: Seq::empty(), code: Seq::empty(), out: Seq::empty() }
}

/// The event pass over `events`.
pub open spec fn scan(events: Seq<MdEvent>) -> Scan
    decreases events.len(),
{
    if events.len() == 0 {
        initial_scan()
    } else {
        step(scan(events.drop_last()), events.last())
    }
}

/// A fenced block outside any other code block, its start, one text event
/// and its end, becomes exactly one code slot carrying its tag and text.
pub proof fn lemma_fenced_block_is_one_code_slot(prior: Seq<MdEvent>, lang: String, text: String)
    requires
        !scan(prior).in_code,
    ensures
        scan(prior + seq![MdEvent::FencedStart { lang }, MdEvent::Text { text }, MdEvent::CodeEnd]).out
            == scan(prior).out.push(Slot::Code(lang@, text@)),
{
    let a = prior.push(MdEvent::FencedStart { lang });
    let b = a.push(MdEvent::Text { text });
    let c = b.push(MdEvent::CodeEnd);
    assert(a.drop_last() =~= prior);
    assert(b.drop_last() =~= a);
    assert(c.drop_last() =~= b);
    assert(c =~= prior + seq![MdEvent::FencedStart { lang }, MdEvent::Text { text }, MdEvent::CodeEnd]);
    let s0 = scan(prior);
    assert(scan(a) == step(s0, MdEvent::FencedStart { lang }));
    let s1 = scan(a);
    assert(s1.in_code && s1.lang == lang@ && s1.code == Seq::<char>::empty() && s1.out == s0.out);
    assert(scan(b) == step(s1, MdEvent::Text { text }));
    let s2 = scan(b);
    assert(Seq::<char>::empty() + text@ =~= text@);
    assert(s2.in_code && s2.lang == lang@ && s2.code == text@ && s2.out == s0.out);
    assert(scan(c) == step(s2, MdEvent::CodeEnd));
}

/// `h` is a render of the markdown `text`: the parser's events for it go
/// through the event pass, and the serialised result through math markup and
/// symbol substitution.
pub open spec fn renders(text: Seq<char>, h: Seq<char>) -> bool {
    exists|out: Seq<MdEvent>| #[trigger] realises_all(scan(parsed_events(text, MARKDOWN_OPTIONS)).out, out)
        && h == substitute_symbols(math_markup(serialized(out)))
}

/// Output event `e` realises `slot`.
pub open spec fn realises(slot: Slot, e: MdEvent) -> bool {
    match slot {
        Slot::Keep(k) => e == k,
        Slot::Heading(tag, a) => match e {
            MdEvent::HeadingStart { heading, id } => heading == tag && id is Some && id->0@ == a,
            _ => false,
        },
        Slot::Code(lang, code) => match e {
            MdEvent::Html { html } => code_block_html(lang, code, html@),
            _ => false,
        },
    }
}

pub open spec fn realises_all(slots: Seq<Slot>, out: Seq<MdEvent>) -> bool {
    &&& out.len() == slots.len()
    &&& forall|i: int| 0 <= i < out.len() ==> realises(#[trigger] slots[i], out[i])
}

/// Whether `c` has the Unicode `White_Space` property.
pub fn is_whitespace(c: char) -> (r: bool)
    ensures
        r == white_space(c),
{
    ('\u{9}' <= c && c <= '\u{d}') || c == ' ' || c == '\u{85}' || c == '\u{a0}' || c == '\u{1680}'
        || ('\u{2000}' <= c && c <= '\u{200a}') || c == '\u{2028}' || c == '\u{2029}'
        || c == '\u{202f}' || c == '\u{205f}' || c == '\u{3000}'
}

/// Relies on `html_escape::encode_double_quoted_attribute`: `&`, `<`, `>`
/// and `"` become `&amp;`, `&lt;`, `&gt;` and `&quot;`, every other
/// character is kept.
#[verifier::external_body]
fn encode_attribute(s: &str) -> (r: String)
    ensures
        r@ == escape_attr(s@),
{
    html_escape::encode_double_quoted_attribute(s).into_owned()
}

/// Relies on `html_escape::encode_text`: `&`, `<` and `>` become `&amp;`,
/// `&lt;` and `&gt;`, every other character is kept.
#[verifier::external_body]
fn encode_text(s: &str) -> (r: String)
    ensures
        r@ == escape_text(s@),
{
    html_escape::encode_text(s).into_owned()
}

/// The events the parser gives for `text` under the given option bits.
pub uninterp spec fn parsed_events(text: Seq<char>, options: u32) -> Seq<MdEvent>;

/// The HTML the serialiser writes for `events`.
pub uninterp spec fn serialized(events: Seq<MdEvent>) -> Seq<char>;

/// Relies on `pulldown_cmark::Parser::new_ext`: the events of `text` under
/// the given option bits, a function of the two alone.
#[verifier::external_body]
fn parse_events(text: &str, options: u32) -> (r: Vec<MdEvent>)
    ensures
        r@ == parsed_events(text@, options),
{
    Parser::new_ext(text, Options::from_bits_truncate(options)).map(|e| to_md_event(e.into_static())).collect()
}

/// Sorts a parser event into the kinds the renderer distinguishes, moving
/// its fields; used by `parse_events` only.
#[verifier::external_body]
fn to_md_event(e: Event<'static>) -> MdEvent {
    match e {
        Event::Start(Tag::CodeBlock(CodeBlockKind::Fenced(lang))) => MdEvent::FencedStart { lang: lang.to_string() },
        Event::End(TagEnd::CodeBlock) => MdEvent::CodeEnd,
        Event::Text(text) => MdEvent::Text { text: text.to_string() },
        Event::Start(Tag::Heading { level, id, classes, attrs }) => MdEvent::HeadingStart {
            id: id.map(|i| i.to_string()),
            heading: Tag::Heading { level, id: None, classes, attrs },
        },
        event => MdEvent::Other { event },
    }
}

/// Builds the parser event for `e`, moving its fields; used by `push_html`
/// only.
#[verifier::external_body]
fn from_md_event(e: MdEvent) -> Event<'static> {
    match e {
        MdEvent::FencedStart { lang } => Event::Start(Tag::CodeBlock(CodeBlockKind::Fenced(lang.into()))),
        MdEvent::CodeEnd => Event::End(TagEnd::CodeBlock),
        MdEvent::Text { text } => Event::Text(text.into()),
        MdEvent::Html { html } => Event::Html(html.into()),
        MdEvent::HeadingStart { heading: Tag::Heading { level, classes, attrs, .. }, id } =>
            Event::Start(Tag::Heading { level, id: id.map(CowStr::from), classes, attrs }),
        MdEvent::HeadingStart { heading, .. } => Event::Start(heading),
        MdEvent::Other { event } => event,
    }
}

/// Relies on `pulldown_cmark::html::push_html`: serialises the events, a
/// function of the events alone.
#[verifier::external_body]
fn push_html(events: Vec<MdEvent>) -> (r: String)
    ensures
        r@ == serialized(events@),
{
    let mut s = String::new();
    pulldown_cmark::html::push_html(&mut s, events.into_iter().map(from_md_event));
    s
}

/// Relies on `syntect::parsing::SyntaxSet::load_defaults_newlines`.
#[verifier::external_body]
fn load_syntax_set() -> SyntaxSet {
    SyntaxSet::load_defaults_newlines()
}

/// Relies on `syntect::highlighting::ThemeSet::load_defaults`.
#[verifier::external_body]
fn load_theme_set() -> ThemeSet {
    ThemeSet::load_defaults()
}

/// Relies on `syntect::parsing::SyntaxSet::find_syntax_by_token`.
#[verifier::external_body]
fn syntax_by_token<'a>(ss: &'a SyntaxSet, token: &str) -> Option<&'a SyntaxReference> {
    ss.find_syntax_by_token(token)
}

/// Relies on `syntect::parsing::SyntaxSet::find_syntax_by_extension`.
#[verifier::external_body]
fn syntax_by_extension<'a>(ss: &'a SyntaxSet, extension: &str) -> Option<&'a SyntaxReference> {
    ss.find_syntax_by_extension(extension)
}

/// Relies on `syntect::parsing::SyntaxSet::find_syntax_by_name`.
#[verifier::external_body]
fn syntax_by_name<'a>(ss: &'a SyntaxSet, name: &str) -> Option<&'a SyntaxReference> {
    ss.find_syntax_by_name(name)
}

/// Relies on `BTreeMap::get` over the themes of a `syntect` theme set.
#[verifier::external_body]
fn theme_named<'a>(ts: &'a ThemeSet, name: &str) -> Option<&'a Theme> {
    ts.themes.get(name)
}

/// Relies on `syntect::easy::HighlightLines::new`.
#[verifier::external_body]
fn new_highlighter<'a>(syntax: &SyntaxReference, theme: &'a Theme) -> HighlightLines<'a> {
    HighlightLines::new(syntax, theme)
}

/// Relies on `syntect::easy::HighlightLines::highlight_line`: the styled
/// pieces of one line, given the lines before it; `None` on a parse error.
#[verifier::external_body]
fn highlight_line<'b>(h: &mut HighlightLines, line: &'b str, ss: &SyntaxSet) -> Option<Vec<(Style, &'b str)>> {
    h.highlight_line(line, ss).ok()
}

/// Relies on `syntect::html::styled_line_to_highlighted_html`: one HTML
/// fragment for the styled pieces of a line; `None` on a formatting error.
#[verifier::external_body]
fn styled_line_html(pieces: &Vec<(Style, &str)>) -> Option<String> {
    syntect::html::styled_line_to_highlighted_html(&pieces[..], IncludeBackground::No).ok()
}

/// The first index at or after `i` holding a line feed; `s.len()` if none.
pub open spec fn line_end(s: Seq<char>, i: int) -> int
    decreases s.len() - i,
{
    if i < 0 || i >= s.len() {
        s.len() as int
    } else if s[i] == '\n' {
        i
    } else {
        line_end(s, i + 1)
    }
}

/// A line without its terminator: a carriage return before the line feed
/// goes with it.
pub open spec fn strip_cr(line: Seq<char>, terminated: bool) -> Seq<char> {
    if terminated && line.len() > 0 && line.last() == '\r' {
        line.drop_last()
    } else {
        line
    }
}

/// The lines of `s` from index `i` on; a final line feed opens no new line.
pub open spec fn lines_from(s: Seq<char>, i: int) -> Seq<Seq<char>>
    decreases s.len() - i
    via lines_from_decreases

{
    if i < 0 || i >= s.len() {
        Seq::empty()
    } else {
        let k = line_end(s, i);
        if k < s.len() {
            seq![strip_cr(s.subrange(i, k), true)] + lines_from(s, k + 1)
        } else {
            seq![s.subrange(i, k)]
        }
    }
}

#[via_fn]
proof fn lines_from_decreases(s: Seq<char>, i: int) {
    if 0 <= i < s.len() {
        lemma_line_end_bounds(s, i);
    }
}

proof fn lemma_line_end_bounds(s: Seq<char>, i: int)
    requires
        0 <= i <= s.len(),
    ensures
        i <= line_end(s, i) <= s.len(),
        line_end(s, i) < s.len() ==> s[line_end(s, i)] == '\n',
    decreases s.len() - i,
{
    if i < s.len() && s[i] != '\n' {
        lemma_line_end_bounds(s, i + 1);
    }
}

/// Splits `s` into lines, as `lines_from(s, 0)` says.
pub fn split_lines(s: &Vec<char>) -> (r: Vec<String>)
    ensures
        r@.len() == lines_from(s@, 0).len(),
        forall|j: int| 0 <= j < r@.len() ==> #[trigger] r@[j]@ == lines_from(s@, 0)[j],
{
    let mut r: Vec<String> = Vec::new();
    let ghost done: Seq<Seq<char>> = Seq::empty();
    let mut i: usize = 0;
    while i < s.len()
        invariant
            i <= s.len(),
            done + lines_from(s@, i as int) == lines_from(s@, 0),
            r@.len() == done.len(),
            forall|j: int| 0 <= j < r@.len() ==> #[trigger] r@[j]@ == done[j],
        decreases s.len() - i,
    {
        let mut k = i;
        while k < s.len() && s[k] != '\n'
            invariant
                i <= k <= s.len(),
                line_end(s@, k as int) == line_end(s@, i as int),
            decreases s.len() - k,
        {
            k = k + 1;
        }
        proof { lemma_line_end_bounds(s@, i as int); }
        let mut e = k;
        if k < s.len() && k > i && s[k - 1] == '\r' {
            e = k - 1;
        }
        let mut line = String::new();
        crate::text::push_range(&mut line, s, i, e);
        let ghost l = strip_cr(s@.subrange(i as int, k as int), k < s.len());
        assert(line@ =~= l);
        proof {
            if k < s.len() {
                assert(done.push(l) + lines_from(s@, k + 1) =~= done + lines_from(s@, i as int));
            } else {
                assert(done.push(l) + lines_from(s@, k as int) =~= done + lines_from(s@, i as int));
            }
            done = done.push(l);
        }
        r.push(line);
        if k < s.len() {
            i = k + 1;
        } else {
            i = k;
        }
    }
    assert(lines_from(s@, i as int) =~= Seq::<Seq<char>>::empty());
    assert(done =~= lines_from(s@, 0));
    r
}

/// Whether every character of `s` is whitespace.
pub fn is_blank(s: &Vec<char>) -> (r: bool)
    ensures
        r == blank(s@),
{
    let mut i: usize = 0;
    while i < s.len()
        invariant
            i <= s.len(),
            forall|j: int| 0 <= j < i ==> white_space(s@[j]),
        decreases s.len() - i,
    {
        if !is_whitespace(s[i]) {
            return false;
        }
        i = i + 1;
    }
    true
}

/// The block shown for code without highlighting: escaped, in `<pre><code>`.
pub fn plain_code_block(code: &str) -> (r: String)
    ensures
        r@ == plain_block(code@),
{
    let mut r = String::new();
    push_str(&mut r, "<pre><code>");
    let escaped = encode_text(code);
    push_str(&mut r, escaped.as_str());
    push_str(&mut r, "</code></pre>");
    r
}

/// Wraps highlighted lines in a block carrying the language's CSS classes.
pub fn wrap_highlighted(lang: &str, body: &str) -> (r: String)
    ensures
        r@ == highlighted_block(lang@, body@),
{
    let mut r = String::new();
    let class = encode_attribute(lang);
    push_str(&mut r, "<pre class=\"highlight highlight-");
    push_str(&mut r, class.as_str());
    push_str(&mut r, "\"><code class=\"language-");
    push_str(&mut r, class.as_str());
    push_str(&mut r, "\">");
    push_str(&mut r, body);
    push_str(&mut r, "</code></pre>");
    r
}

/// The highlighter's state and the syntax definitions it reads.
pub struct MarkdownProcessor {
    syntax_set: SyntaxSet,
    theme_set: ThemeSet,
    theme_name: String,
}

impl MarkdownProcessor {
    /// The name of the highlighting theme.
    pub closed spec fn theme(&self) -> Seq<char> {
        self.theme_name@
    }

    /// A renderer with the bundled syntax definitions and themes.
    pub fn new() -> (r: MarkdownProcessor)
        ensures
            r.theme() == "base16-ocean.dark"@,
    {
        MarkdownProcessor {
            syntax_set: load_syntax_set(),
            theme_set: load_theme_set(),
            theme_name: String::from_str("base16-ocean.dark"),
        }
    }

    /// The syntax for a fence tag: by token, else by file extension, else
    /// plain text.
    fn find_syntax(&self, lang: &str) -> Option<&SyntaxReference> {
        match syntax_by_token(&self.syntax_set, lang) {
            Some(s) => Some(s),
            None => match syntax_by_extension(&self.syntax_set, lang) {
                Some(s) => Some(s),
                None => syntax_by_name(&self.syntax_set, "Plain Text"),
            },
        }
    }

    /// The highlighted HTML of each line, each followed by a line feed; a line
    /// the highlighter cannot take is escaped instead.
    fn highlight_body(&self, code: &Vec<char>, lang: &str) -> (r: String)
        ensures
            exists|pieces: Seq<Seq<char>>| pieces.len() == lines_from(code@, 0).len()
                && r@ == #[trigger] joined(pieces),
    {
        let lines = split_lines(code);
        let mut highlighter = match (self.find_syntax(lang), theme_named(&self.theme_set, self.theme_name.as_str())) {
            (Some(syntax), Some(theme)) => Some(new_highlighter(syntax, theme)),
            _ => None,
        };
        let mut body = String::new();
        let ghost pieces: Seq<Seq<char>> = Seq::empty();
        let mut i: usize = 0;
        while i < lines.len()
            invariant
                i <= lines@.len(),
                pieces.len() == i,
                body@ == joined(pieces),
            decreases lines.len() - i,
        {
            let line = lines[i].as_str();
            let styled = match &mut highlighter {
                Some(h) => match highlight_line(h, line, &self.syntax_set) {
                    Some(pieces) => styled_line_html(&pieces),
                    None => None,
                },
                None => None,
            };
            let piece = match styled {
                Some(p) => p,
                None => encode_text(line),
            };
            push_str(&mut body, piece.as_str());
            push_char(&mut body, '\n');
            proof {
                assert(pieces.push(piece@).drop_last() =~= pieces);
                pieces = pieces.push(piece@);
            }
            i = i + 1;
        }
        assert(pieces.len() == lines_from(code@, 0).len());
        body
    }

    /// The HTML of a fenced block: plain and escaped when the tag is empty or
    /// the content blank, else highlighted under the language's classes.
    pub fn highlight_code(&self, code: &str, lang: &str) -> (r: String)
        ensures
            code_block_html(lang@, code@, r@),
    {
        let cs = chars_of(code);
        if lang.is_empty() || is_blank(&cs) {
            return plain_code_block(code);
        }
        let body = self.highlight_body(&cs, lang);
        let r = wrap_highlighted(lang, body.as_str());
        let ghost pieces = choose|pieces: Seq<Seq<char>>| pieces.len() == lines_from(code@, 0).len()
            && body@ == #[trigger] joined(pieces);
        assert(r@ == highlighted_block(lang@, joined(pieces)));
        r
    }

    /// The event pass: fenced code blocks become one raw HTML event each,
    /// headings get an anchor, everything else inside a code block is dropped.
    pub fn process_events(&self, events: Vec<MdEvent>) -> (r: Vec<MdEvent>)
        ensures
            realises_all(scan(events@).out, r@),
    {
        let ghost evs = events@;
        let mut out: Vec<MdEvent> = Vec::new();
        let mut in_code = false;
        let mut lang = String::new();
        let mut code = String::new();
        let ghost slots: Seq<Slot> = Seq::empty();
        for e in it: events
            invariant
                it.seq() == evs,
                scan(evs.take(it.index() as int)) == (Scan { in_code, lang: lang@, code: code@, out: slots }),
                realises_all(slots, out@),
        {
            let ghost before = scan(evs.take(it.index() as int));
            proof {
                assert(evs.take(it.index() + 1).drop_last() =~= evs.take(it.index() as int));
                assert(evs.take(it.index() + 1).last() == e);
            }
            let ghost after = step(before, e);
            match e {
                MdEvent::FencedStart { lang: l } => {
                    in_code = true;
                    lang = l;
                    code = String::new();
                },
                MdEvent::CodeEnd => {
                    if in_code {
                        in_code = false;
                        let html = self.highlight_code(code.as_str(), lang.as_str());
                        out.push(MdEvent::Html { html });
                        proof { slots = slots.push(Slot::Code(lang@, code@)); }
                    } else {
                        out.push(MdEvent::CodeEnd);
                        proof { slots = slots.push(Slot::Keep(MdEvent::CodeEnd)); }
                    }
                },
                MdEvent::Text { text } => {
                    if in_code {
                        push_str(&mut code, text.as_str());
                    } else {
                        proof { slots = slots.push(Slot::Keep(MdEvent::Text { text })); }
                        out.push(MdEvent::Text { text });
                    }
                },
                MdEvent::HeadingStart { heading, id } => {
                    let ghost a = anchor(id, out@.len());
                    let given = match id {
                        Some(i) => i,
                        None => {
                            let mut made = String::from_str("heading-");
                            let n = decimal(out.len());
                            push_str(&mut made, n.as_str());
                            made
                        },
                    };
                    assert(given@ == a);
                    proof { slots = slots.push(Slot::Heading(heading, a)); }
                    out.push(MdEvent::HeadingStart { heading, id: Some(given) });
                },
                MdEvent::Html { html } => {
                    if !in_code {
                        proof { slots = slots.push(Slot::Keep(MdEvent::Html { html })); }
                        out.push(MdEvent::Html { html });
                    }
                },
                MdEvent::Other { event } => {
                    if !in_code {
                        proof { slots = slots.push(Slot::Keep(MdEvent::Other { event })); }
                        out.push(MdEvent::Other { event });
                    }
                },
            }
            assert(after == (Scan { in_code, lang: lang@, code: code@, out: slots }));
            assert forall|j: int| 0 <= j < out@.len() implies realises(#[trigger] slots[j], out@[j]) by {}
        }
        assert(evs.take(evs.len() as int) =~= evs);
        out
    }

    /// Renders markdown text to HTML; never fails.
    pub fn render(&self, markdown: &str) -> (r: String)
        ensures
            renders(markdown@, r@),
    {
        let events = parse_events(markdown, MARKDOWN_OPTIONS);
        let processed = self.process_events(events);
        let html = push_html(processed);
        finish_html(html.as_str())
    }
}

/// The string-level passes applied to serialised HTML: math markup, then
/// shorthand symbols.
pub fn finish_html(html: &str) -> (r: String)
    ensures
        r@ == substitute_symbols(math_markup(html@)),
{
    let latex = process_latex_math(html);
    process_emojis(latex.as_str())
}

impl Default for MarkdownProcessor {
    fn default() -> (r: MarkdownProcessor)
        ensures
            r.theme() == "base16-ocean.dark"@,
    {
        MarkdownProcessor::new()
    }
}

} // verus!
