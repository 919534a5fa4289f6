//! Markdown rendered as plain prose for text-to-speech.
//!
//! The Markdown parser hands out a stream of events. [`speech`] says what is spoken for
//! such a stream; [`speech_of_events`] computes it.

use crate::chars;
use crate::chars::{chars_of, is_whitespace, text_of};
use pulldown_cmark::Event as ParserEvent;
use vstd::prelude::*;
use vstd::string::*;

verus! {

pub const CODE_BLOCK_PLACEHOLDER: &'static str =
    "Code snippet was provided here, but removed for brevity.";

pub const TABLE_PLACEHOLDER: &'static str =
    "Table data was provided here, but removed for brevity.";

/// The parser's extensions, as bits of its options.
pub const TABLES: u32 = 2;

pub const STRIKETHROUGH: u32 = 8;

pub const TASKLISTS: u32 = 16;

pub const SUPERSCRIPT: u32 = 8192;

pub const SUBSCRIPT: u32 = 16384;

/// The extensions that spoken Markdown may use.
pub const SPEECH_EXTENSIONS: u32 = TABLES + STRIKETHROUGH + TASKLISTS + SUPERSCRIPT + SUBSCRIPT;

/// The Markdown elements that bear on speech; every other element is `Other`.
#[derive(Clone, Copy, Debug, PartialEq, Eq, Structural)]
pub enum Element {
    Paragraph,
    Heading,
    BlockQuote,
    CodeBlock,
    List,
    Item,
    Table,
    Other,
}

/// One event of parsed Markdown.
#[derive(Debug, PartialEq, Eq)]
pub enum MarkdownEvent {
    Start(Element),
    End(Element),
    Text(String),
    Code(String),
    SoftBreak,
    HardBreak,
    Other,
}

pub ghost enum EventView {
    Start(Element),
    End(Element),
    Text(Seq<char>),
    Code(Seq<char>),
    SoftBreak,
    HardBreak,
    Other,
}

impl View for MarkdownEvent {
    type V = EventView;

    open spec fn view(&self) -> EventView {
        match *self {
            MarkdownEvent::Start(e) => EventView::Start(e),
            MarkdownEvent::End(e) => EventView::End(e),
            MarkdownEvent::Text(t) => EventView::Text(t@),
            MarkdownEvent::Code(t) => EventView::Code(t@),
            MarkdownEvent::SoftBreak => EventView::SoftBreak,
            MarkdownEvent::HardBreak => EventView::HardBreak,
            MarkdownEvent::Other => EventView::Other,
        }
    }
}

/// The views of some events.
pub open spec fn event_views(events: Seq<MarkdownEvent>) -> Seq<EventView> {
    events.map_values(|e: MarkdownEvent| e@)
}

// ---- What is spoken ----

/// What the speaker is inside of, and passes over.
pub ghost enum SkipView {
    Nothing,
    /// A code block, with the code seen so far.
    CodeBlock(Seq<char>),
    Table,
}

/// The text spoken so far, whether each open list has had an item yet (innermost last),
/// and what is being passed over.
pub ghost struct SpeechView {
    pub spoken: Seq<char>,
    pub lists: Seq<bool>,
    pub skip: SkipView,
}

/// Before anything is said.
pub open spec fn silence() -> SpeechView {
    SpeechView { spoken: Seq::empty(), lists: Seq::empty(), skip: SkipView::Nothing }
}

/// `spoken`, with a blank at its end unless it is empty or ends in white space.
pub open spec fn separated(spoken: Seq<char>) -> Seq<char> {
    if spoken.len() > 0 && !chars::is_space(spoken.last()) {
        spoken.push(' ')
    } else {
        spoken
    }
}

/// `code` without one line feed at its end.
pub open spec fn without_line_feed(code: Seq<char>) -> Seq<char> {
    if code.len() > 0 && code.last() == '\n' {
        code.drop_last()
    } else {
        code
    }
}

/// What stands for a block of code: a single line stands for itself.
pub open spec fn code_speech(code: Seq<char>) -> Seq<char> {
    let line = without_line_feed(code);
    if line.len() > 0 && !line.contains('\n') {
        line
    } else {
        CODE_BLOCK_PLACEHOLDER@
    }
}

/// An element starts.
pub open spec fn after_start(s: SpeechView, e: Element) -> SpeechView {
    match e {
        Element::CodeBlock => SpeechView { skip: SkipView::CodeBlock(Seq::empty()), ..s },
        Element::Table => SpeechView {
            spoken: separated(s.spoken) + TABLE_PLACEHOLDER@,
            skip: SkipView::Table,
            ..s
        },
        Element::List => SpeechView { lists: s.lists.push(false), ..s },
        Element::Item => if s.skip is Nothing {
            SpeechView {
                spoken: if s.lists.len() > 0 && s.lists.last() {
                    s.spoken + "; "@
                } else {
                    separated(s.spoken)
                },
                lists: if s.lists.len() > 0 {
                    s.lists.drop_last().push(true)
                } else {
                    s.lists
                },
                ..s
            }
        } else {
            s
        },
        Element::Paragraph | Element::Heading | Element::BlockQuote => if s.skip is Nothing {
            SpeechView { spoken: separated(s.spoken), ..s }
        } else {
            s
        },
        Element::Other => s,
    }
}

/// An element ends.
pub open spec fn after_end(s: SpeechView, e: Element) -> SpeechView {
    match e {
        Element::CodeBlock => match s.skip {
            SkipView::CodeBlock(code) => SpeechView {
                spoken: separated(s.spoken) + code_speech(code),
                skip: SkipView::Nothing,
                ..s
            },
            _ => SpeechView { skip: SkipView::Nothing, ..s },
        },
        Element::Table => SpeechView { skip: SkipView::Nothing, ..s },
        Element::List => SpeechView {
            lists: if s.lists.len() > 0 {
                s.lists.drop_last()
            } else {
                s.lists
            },
            ..s
        },
        _ => s,
    }
}

/// A run of text or of inline code.
pub open spec fn after_text(s: SpeechView, t: Seq<char>) -> SpeechView {
    match s.skip {
        SkipView::CodeBlock(code) => SpeechView { skip: SkipView::CodeBlock(code + t), ..s },
        SkipView::Table => s,
        SkipView::Nothing => SpeechView { spoken: s.spoken + t, ..s },
    }
}

/// What one event adds.
pub open spec fn after_event(s: SpeechView, e: EventView) -> SpeechView {
    match e {
        EventView::Start(e) => after_start(s, e),
        EventView::End(e) => after_end(s, e),
        EventView::Text(t) | EventView::Code(t) => after_text(s, t),
        EventView::SoftBreak | EventView::HardBreak => if s.skip is Nothing {
            SpeechView { spoken: separated(s.spoken), ..s }
        } else {
            s
        },
        EventView::Other => s,
    }
}

/// What a run of events adds.
pub open spec fn after_events(s: SpeechView, events: Seq<EventView>) -> SpeechView
    decreases events.len(),
{
    if events.len() == 0 {
        s
    } else {
        after_events(after_event(s, events[0]), events.drop_first())
    }
}

/// What is spoken for a document.
pub open spec fn speech(events: Seq<EventView>) -> Seq<char> {
    after_events(silence(), events).spoken
}

// ---- Speaking ----

enum Skip {
    Nothing,
    CodeBlock(Vec<char>),
    Table,
}

struct Speech {
    spoken: Vec<char>,
    lists: Vec<bool>,
    skip: Skip,
}

impl View for Speech {
    type V = SpeechView;

    closed spec fn view(&self) -> SpeechView {
        SpeechView {
            spoken: self.spoken@,
            lists: self.lists@,
            skip: match self.skip {
                Skip::Nothing => SkipView::Nothing,
                Skip::CodeBlock(code) => SkipView::CodeBlock(code@),
                Skip::Table => SkipView::Table,
            },
        }
    }
}

fn push_text(v: &mut Vec<char>, t: &str)
    ensures
        final(v)@ == old(v)@ + t@,
{
    let mut more = chars_of(t);
    v.append(&mut more);
}

fn push_separator(v: &mut Vec<char>)
    ensures
        final(v)@ == separated(old(v)@),
{
    if v.len() > 0 && !is_whitespace(v[v.len() - 1]) {
        v.push(' ');
    }
}

/// Adds what stands for a block of code.
fn push_code(v: &mut Vec<char>, code: &Vec<char>)
    ensures
        final(v)@ == old(v)@ + code_speech(code@),
{
    let n: usize = if code.len() > 0 && code[code.len() - 1] == '\n' {
        code.len() - 1
    } else {
        code.len()
    };
    let ghost line = without_line_feed(code@);
    assert(line =~= code@.take(n as int));
    let mut i: usize = 0;
    while i < n && code[i] != '\n'
        invariant
            i <= n <= code@.len(),
            forall|k: int| 0 <= k < i ==> code@[k] != '\n',
        decreases n - i,
    {
        i += 1;
    }
    if n > 0 && i == n {
        assert forall|k: int| 0 <= k < line.len() implies line[k] != '\n' by {
            assert(line[k] == code@[k]);
        }
        let mut k: usize = 0;
        assert(v@ =~= old(v)@ + line.take(0));
        while k < n
            invariant
                k <= n <= code@.len(),
                line == code@.take(n as int),
                v@ == old(v)@ + line.take(k as int),
            decreases n - k,
        {
            v.push(code[k]);
            assert(line.take(k + 1) =~= line.take(k as int).push(code@[k as int]));
            k += 1;
        }
        assert(line.take(n as int) =~= line);
    } else {
        proof {
            if n > 0 {
                assert(line[i as int] == '\n');
            }
        }
        push_text(v, CODE_BLOCK_PLACEHOLDER);
    }
}

impl Speech {
    fn start(&mut self, e: Element)
        ensures
            final(self)@ == after_start(old(self)@, e),
    {
        match e {
            Element::CodeBlock => {
                self.skip = Skip::CodeBlock(Vec::new());
            },
            Element::Table => {
                push_separator(&mut self.spoken);
                push_text(&mut self.spoken, TABLE_PLACEHOLDER);
                self.skip = Skip::Table;
            },
            Element::List => {
                self.lists.push(false);
            },
            Element::Item => {
                if let Skip::Nothing = self.skip {
                    let open: usize = self.lists.len();
                    if open > 0 && self.lists[open - 1] {
                        push_text(&mut self.spoken, "; ");
                    } else {
                        push_separator(&mut self.spoken);
                    }
                    if open > 0 {
                        self.lists.set(open - 1, true);
                        assert(self.lists@ =~= old(self).lists@.drop_last().push(true));
                    }
                }
            },
            Element::Paragraph | Element::Heading | Element::BlockQuote => {
                if let Skip::Nothing = self.skip {
                    push_separator(&mut self.spoken);
                }
            },
            Element::Other => {},
        }
    }

    fn end(&mut self, e: Element)
        ensures
            final(self)@ == after_end(old(self)@, e),
    {
        match e {
            Element::CodeBlock => {
                if let Skip::CodeBlock(code) = &self.skip {
                    push_separator(&mut self.spoken);
                    push_code(&mut self.spoken, code);
                }
                self.skip = Skip::Nothing;
            },
            Element::Table => {
                self.skip = Skip::Nothing;
            },
            Element::List => {
                self.lists.pop();
            },
            _ => {},
        }
    }

    fn text(&mut self, t: &str)
        ensures
            final(self)@ == after_text(old(self)@, t@),
    {
        match &mut self.skip {
            Skip::CodeBlock(code) => {
                push_text(code, t);
            },
            Skip::Table => {},
            Skip::Nothing => {
                push_text(&mut self.spoken, t);
            },
        }
    }

    fn event(&mut self, e: &MarkdownEvent)
        ensures
            final(self)@ == after_event(old(self)@, e@),
    {
        match e {
            MarkdownEvent::Start(e) => self.start(*e),
            MarkdownEvent::End(e) => self.end(*e),
            MarkdownEvent::Text(t) => self.text(t),
            MarkdownEvent::Code(t) => self.text(t),
            MarkdownEvent::SoftBreak | MarkdownEvent::HardBreak => {
                if let Skip::Nothing = self.skip {
                    push_separator(&mut self.spoken);
                }
            },
            MarkdownEvent::Other => {},
        }
    }
}

/// Speaks a parsed document.
pub fn speech_of_events(events: &Vec<MarkdownEvent>) -> (r: String)
    ensures
        r@ == speech(event_views(events@)),
{
    let mut s = Speech { spoken: Vec::new(), lists: Vec::new(), skip: Skip::Nothing };
    let ghost all = event_views(events@);
    assert(s@.spoken =~= silence().spoken);
    assert(s@.lists =~= silence().lists);
    assert(all.skip(0) =~= all);
    let mut i: usize = 0;
    while i < events.len()
        invariant
            i <= events@.len(),
            all == event_views(events@),
            after_events(s@, all.skip(i as int)) == after_events(silence(), all),
        decreases events@.len() - i,
    {
        proof {
            assert(all.skip(i as int)[0] == events@[i as int]@);
            assert(all.skip(i as int).drop_first() =~= all.skip(i + 1));
        }
        s.event(&events[i]);
        i += 1;
    }
    assert(all.skip(i as int).len() == 0);
    text_of(&s.spoken, 0, s.spoken.len())
}

// ---- Parsing ----

/// Some element's start, as the parser gives it.
#[verifier::external_type_specification]
#[verifier::external_body]
pub struct ExTag<'a>(pulldown_cmark::Tag<'a>);

/// Some element's end, as the parser gives it.
#[verifier::external_type_specification]
#[verifier::external_body]
pub struct ExTagEnd(pulldown_cmark::TagEnd);

/// One event, as the parser gives it.
#[verifier::external_type_specification]
#[verifier::external_body]
pub struct ExEvent<'a>(ParserEvent<'a>);

/// Which element starts.
pub uninterp spec fn tag_element(tag: pulldown_cmark::Tag) -> Element;

/// Which element ends.
pub uninterp spec fn tag_end_element(end: pulldown_cmark::TagEnd) -> Element;

/// What an event of the parser holds.
pub uninterp spec fn event_view(e: ParserEvent) -> EventView;

/// The events of a Markdown text that is parsed with some extensions.
pub uninterp spec fn parsed_markdown(t: Seq<char>, extensions: u32) -> Seq<EventView>;

pub open spec fn raw_event_views(events: Seq<ParserEvent>) -> Seq<EventView> {
    events.map_values(|e: ParserEvent| event_view(e))
}

/// An event of the parser, taken apart.
enum EventShape<'a> {
    Start(pulldown_cmark::Tag<'a>),
    End(pulldown_cmark::TagEnd),
    Text(String),
    Code(String),
    SoftBreak,
    HardBreak,
    Other,
}

spec fn shape_view(shape: EventShape) -> EventView {
    match shape {
        EventShape::Start(tag) => EventView::Start(tag_element(tag)),
        EventShape::End(end) => EventView::End(tag_end_element(end)),
        EventShape::Text(t) => EventView::Text(t@),
        EventShape::Code(t) => EventView::Code(t@),
        EventShape::SoftBreak => EventView::SoftBreak,
        EventShape::HardBreak => EventView::HardBreak,
        EventShape::Other => EventView::Other,
    }
}

/// `pulldown_cmark::Parser::new_ext`, run to its end: the events are named
/// [`parsed_markdown`].
#[verifier::external_body]
fn parse<'a>(text: &'a str, extensions: u32) -> (r: Vec<ParserEvent<'a>>)
    ensures
        raw_event_views(r@) == parsed_markdown(text@, extensions),
{
    let options = pulldown_cmark::Options::from_bits_truncate(extensions);
    pulldown_cmark::Parser::new_ext(text, options).collect()
}

/// Tells the variants of `ParserEvent` apart; what the event holds is named
/// [`event_view`].
#[verifier::external_body]
fn take_apart<'a>(e: ParserEvent<'a>) -> (r: EventShape<'a>)
    ensures
        shape_view(r) == event_view(e),
{
    match e {
        ParserEvent::Start(tag) => EventShape::Start(tag),
        ParserEvent::End(end) => EventShape::End(end),
        ParserEvent::Text(t) => EventShape::Text(t.into_string()),
        ParserEvent::Code(t) => EventShape::Code(t.into_string()),
        ParserEvent::SoftBreak => EventShape::SoftBreak,
        ParserEvent::HardBreak => EventShape::HardBreak,
        _ => EventShape::Other,
    }
}

/// Tells the variants of `pulldown_cmark::Tag` apart; the element is named
/// [`tag_element`].
#[verifier::external_body]
fn element_of_tag(tag: &pulldown_cmark::Tag) -> (r: Element)
    ensures
        r == tag_element(*tag),
{
    match tag {
        pulldown_cmark::Tag::Paragraph => Element::Paragraph,
        pulldown_cmark::Tag::Heading { .. } => Element::Heading,
        pulldown_cmark::Tag::BlockQuote(_) => Element::BlockQuote,
        pulldown_cmark::Tag::CodeBlock(_) => Element::CodeBlock,
        pulldown_cmark::Tag::List(_) => Element::List,
        pulldown_cmark::Tag::Item => Element::Item,
        pulldown_cmark::Tag::Table(_) => Element::Table,
        _ => Element::Other,
    }
}

/// Tells the variants of `pulldown_cmark::TagEnd` apart; the element is named
/// [`tag_end_element`].
#[verifier::external_body]
fn element_of_tag_end(end: &pulldown_cmark::TagEnd) -> (r: Element)
    ensures
        r == tag_end_element(*end),
{
    match end {
        pulldown_cmark::TagEnd::Paragraph => Element::Paragraph,
        pulldown_cmark::TagEnd::Heading(_) => Element::Heading,
        pulldown_cmark::TagEnd::BlockQuote(_) => Element::BlockQuote,
        pulldown_cmark::TagEnd::CodeBlock => Element::CodeBlock,
        pulldown_cmark::TagEnd::List(_) => Element::List,
        pulldown_cmark::TagEnd::Item => Element::Item,
        pulldown_cmark::TagEnd::Table => Element::Table,
        _ => Element::Other,
    }
}

/// Parses Markdown into its events.
pub fn markdown_events(text: &str, extensions: u32) -> (r: Vec<MarkdownEvent>)
    ensures
        event_views(r@) == parsed_markdown(text@, extensions),
{
    let raw = parse(text, extensions);
    let ghost all = raw_event_views(raw@);
    let ghost held = raw@;
    let mut out: Vec<MarkdownEvent> = Vec::new();
    for e in it: raw
        invariant
            it.seq() == held,
            all == raw_event_views(held),
            out@.len() == it.index(),
            forall|i: int| 0 <= i < out@.len() ==> (#[trigger] out@[i])@ == all[i],
    {
        let event = match take_apart(e) {
            EventShape::Start(tag) => MarkdownEvent::Start(element_of_tag(&tag)),
            EventShape::End(end) => MarkdownEvent::End(element_of_tag_end(&end)),
            EventShape::Text(t) => MarkdownEvent::Text(t),
            EventShape::Code(t) => MarkdownEvent::Code(t),
            EventShape::SoftBreak => MarkdownEvent::SoftBreak,
            EventShape::HardBreak => MarkdownEvent::HardBreak,
            EventShape::Other => MarkdownEvent::Other,
        };
        out.push(event);
    }
    assert(event_views(out@) =~= all);
    out
}

/// Renders Markdown as plain prose that can be read aloud.
///
/// The characters of inline markup, headings, quotes and rules are dropped and the text
/// inside is kept; so are raw HTML and the addresses of links. Lists are flattened into
/// one line with semicolons. A table, or code of more than one line, is replaced by a
/// remark that it was left out.
pub fn strip_markdown_for_speech(text: &str) -> (r: String)
    ensures
        r@ == speech(parsed_markdown(text@, SPEECH_EXTENSIONS)),
{
    let events = markdown_events(text, SPEECH_EXTENSIONS);
    speech_of_events(&events)
}

// ---- Laws ----

/// Speaking goes event by event: what came before only matters through what was spoken,
/// the open lists and what is passed over.
pub proof fn law_speech_in_parts(s: SpeechView, a: Seq<EventView>, b: Seq<EventView>)
    ensures
        after_events(s, a + b) == after_events(after_events(s, a), b),
    decreases a.len(),
{
    if a.len() == 0 {
        assert(a + b =~= b);
    } else {
        assert((a + b)[0] == a[0]);
        assert((a + b).drop_first() =~= a.drop_first() + b);
        law_speech_in_parts(after_event(s, a[0]), a.drop_first(), b);
    }
}

/// Whether an event leaves what is spoken alone: inline markup (emphasis, links,
/// images and the like), rules and raw HTML.
pub open spec fn is_markup(e: EventView) -> bool {
    e == EventView::Start(Element::Other) || e == EventView::End(Element::Other) || e
        == EventView::Other
}

/// Inline markup, rules and raw HTML are dropped, and what stands around and inside them
/// is spoken as if they were not there.
pub proof fn law_markup_is_dropped(before: Seq<EventView>, e: EventView, after: Seq<EventView>)
    requires
        is_markup(e),
    ensures
        speech(before + seq![e] + after) == speech(before + after),
{
    law_speech_in_parts(silence(), before + seq![e], after);
    law_speech_in_parts(silence(), before, seq![e]);
    law_speech_in_parts(silence(), before, after);
    let s = after_events(silence(), before);
    assert(seq![e].drop_first() =~= Seq::<EventView>::empty());
    assert(after_events(s, seq![e]) == after_events(after_event(s, e), Seq::empty()));
}

/// The text of text and code events, in order.
pub open spec fn plain_text(events: Seq<EventView>) -> Seq<char>
    decreases events.len(),
{
    if events.len() == 0 {
        Seq::empty()
    } else {
        (match events[0] {
            EventView::Text(t) | EventView::Code(t) => t,
            _ => Seq::empty(),
        }) + plain_text(events.drop_first())
    }
}

/// Whether an event is text, inline code or markup.
pub open spec fn is_inline(e: EventView) -> bool {
    e is Text || e is Code || is_markup(e)
}

/// Inline content is spoken as its text and nothing else.
pub proof fn law_inline_text_is_kept(s: SpeechView, events: Seq<EventView>)
    requires
        s.skip is Nothing,
        forall|i: int| 0 <= i < events.len() ==> is_inline(#[trigger] events[i]),
    ensures
        after_events(s, events) == (SpeechView { spoken: s.spoken + plain_text(events), ..s }),
    decreases events.len(),
{
    if events.len() == 0 {
        assert(s.spoken + plain_text(events) =~= s.spoken);
    } else {
        assert(is_inline(events[0]));
        let next = after_event(s, events[0]);
        assert forall|i: int| 0 <= i < events.drop_first().len() implies is_inline(
            #[trigger] events.drop_first()[i],
        ) by {
            assert(is_inline(events[i + 1]));
        }
        law_inline_text_is_kept(next, events.drop_first());
        assert(s.spoken + plain_text(events) =~= next.spoken + plain_text(events.drop_first()));
    }
}

/// A document of one paragraph of inline content is spoken as its text, unchanged.
pub proof fn law_paragraph_is_its_text(events: Seq<EventView>)
    requires
        forall|i: int| 0 <= i < events.len() ==> is_inline(#[trigger] events[i]),
    ensures
        speech(
            seq![EventView::Start(Element::Paragraph)] + events + seq![
                EventView::End(Element::Paragraph),
            ],
        ) == plain_text(events),
{
    let start = seq![EventView::Start(Element::Paragraph)];
    let end = seq![EventView::End(Element::Paragraph)];
    law_speech_in_parts(silence(), start + events, end);
    law_speech_in_parts(silence(), start, events);
    assert(start.drop_first() =~= Seq::<EventView>::empty());
    assert(end.drop_first() =~= Seq::<EventView>::empty());
    let s = after_events(silence(), start);
    assert(s == after_events(after_event(silence(), start[0]), Seq::empty()));
    assert(s == silence());
    law_inline_text_is_kept(s, events);
    let t = after_events(s, events);
    assert(after_events(t, end) == after_events(after_event(t, end[0]), Seq::empty()));
    assert(t.spoken =~= plain_text(events));
}

/// Whether an event may stand inside a table.
pub open spec fn is_table_content(e: EventView) -> bool {
    is_inline(e) || e is SoftBreak || e is HardBreak
}

proof fn lemma_table_content(s: SpeechView, events: Seq<EventView>)
    requires
        s.skip is Table,
        forall|i: int| 0 <= i < events.len() ==> is_table_content(#[trigger] events[i]),
    ensures
        after_events(s, events) == s,
    decreases events.len(),
{
    if events.len() > 0 {
        assert(is_table_content(events[0]));
        assert forall|i: int| 0 <= i < events.drop_first().len() implies is_table_content(
            #[trigger] events.drop_first()[i],
        ) by {
            assert(is_table_content(events[i + 1]));
        }
        lemma_table_content(s, events.drop_first());
    }
}

/// A table is replaced by a remark, whatever it holds.
pub proof fn law_table_is_replaced(s: SpeechView, events: Seq<EventView>)
    requires
        s.skip is Nothing,
        forall|i: int| 0 <= i < events.len() ==> is_table_content(#[trigger] events[i]),
    ensures
        after_events(
            s,
            seq![EventView::Start(Element::Table)] + events + seq![EventView::End(Element::Table)],
        ) == (SpeechView { spoken: separated(s.spoken) + TABLE_PLACEHOLDER@, ..s }),
{
    let start = seq![EventView::Start(Element::Table)];
    let end = seq![EventView::End(Element::Table)];
    law_speech_in_parts(s, start + events, end);
    law_speech_in_parts(s, start, events);
    assert(start.drop_first() =~= Seq::<EventView>::empty());
    assert(end.drop_first() =~= Seq::<EventView>::empty());
    let t = after_events(s, start);
    assert(t == after_events(after_event(s, start[0]), Seq::empty()));
    lemma_table_content(t, events);
    assert(after_events(t, end) == after_events(after_event(t, end[0]), Seq::empty()));
}

proof fn lemma_three_events(s: SpeechView, a: EventView, b: EventView, c: EventView)
    ensures
        after_events(s, seq![a, b, c]) == after_event(after_event(after_event(s, a), b), c),
{
    assert(seq![a, b, c].drop_first() =~= seq![b, c]);
    assert(seq![b, c].drop_first() =~= seq![c]);
    assert(seq![c].drop_first() =~= Seq::<EventView>::empty());
    reveal_with_fuel(after_events, 4);
}

/// A code block is spoken as [`code_speech`] of its code: a single line as it stands,
/// anything else as a remark.
pub proof fn law_code_block(s: SpeechView, code: Seq<char>)
    requires
        s.skip is Nothing,
    ensures
        after_events(
            s,
            seq![
                EventView::Start(Element::CodeBlock),
                EventView::Text(code),
                EventView::End(Element::CodeBlock),
            ],
        ) == (SpeechView { spoken: separated(s.spoken) + code_speech(code), ..s }),
{
    let events = seq![
        EventView::Start(Element::CodeBlock),
        EventView::Text(code),
        EventView::End(Element::CodeBlock),
    ];
    lemma_three_events(s, events[0], events[1], events[2]);
    assert(Seq::<char>::empty() + code =~= code);
}

/// The events of a list with one run of text in each item.
pub open spec fn list_events(items: Seq<Seq<char>>) -> Seq<EventView>
    decreases items.len(),
{
    if items.len() == 0 {
        seq![EventView::Start(Element::List)]
    } else {
        list_events(items.drop_last()) + seq![
            EventView::Start(Element::Item),
            EventView::Text(items.last()),
            EventView::End(Element::Item),
        ]
    }
}

#[verifier::spinoff_prover]
proof fn lemma_list_items(s: SpeechView, items: Seq<Seq<char>>)
    requires
        s.skip is Nothing,
    ensures
        after_events(s, list_events(items)) == (SpeechView {
            spoken: if items.len() == 0 {
                s.spoken
            } else {
                separated(s.spoken) + chars::joined(items, "; "@)
            },
            lists: s.lists.push(items.len() > 0),
            ..s
        }),
    decreases items.len(),
{
    if items.len() == 0 {
        let start = seq![EventView::Start(Element::List)];
        assert(start.drop_first() =~= Seq::<EventView>::empty());
        assert(after_events(s, start) == after_events(after_event(s, start[0]), Seq::empty()));
    } else {
        let rest = items.drop_last();
        let item = seq![
            EventView::Start(Element::Item),
            EventView::Text(items.last()),
            EventView::End(Element::Item),
        ];
        lemma_list_items(s, rest);
        law_speech_in_parts(s, list_events(rest), item);
        let t = after_events(s, list_events(rest));
        lemma_three_events(t, item[0], item[1], item[2]);
        assert(t.lists.drop_last().push(true) =~= s.lists.push(true));
        let u = after_events(t, item);
        if rest.len() == 0 {
            assert(u.spoken =~= separated(s.spoken) + items.last());
        } else {
            assert(u.spoken =~= separated(s.spoken) + (chars::joined(rest, "; "@) + "; "@
                + items.last()));
        }
    }
}

/// A list is flattened: its items are spoken in order, with semicolons between them.
pub proof fn law_list_is_flattened(s: SpeechView, items: Seq<Seq<char>>)
    requires
        s.skip is Nothing,
        items.len() > 0,
    ensures
        after_events(s, list_events(items) + seq![EventView::End(Element::List)]) == (SpeechView {
            spoken: separated(s.spoken) + chars::joined(items, "; "@),
            ..s
        }),
{
    let end = seq![EventView::End(Element::List)];
    lemma_list_items(s, items);
    law_speech_in_parts(s, list_events(items), end);
    assert(end.drop_first() =~= Seq::<EventView>::empty());
    let t = after_events(s, list_events(items));
    assert(after_events(t, end) == after_events(after_event(t, end[0]), Seq::empty()));
    assert(t.lists.drop_last() =~= s.lists);
}

/// What is spoken is set apart from what follows by one blank, unless nothing was spoken yet or
/// white space is there already; nothing of it is lost.
pub proof fn law_blocks_are_set_apart(spoken: Seq<char>)
    ensures
        spoken.len() == 0 ==> separated(spoken).len() == 0,
        spoken.len() > 0 ==> chars::is_space(separated(spoken).last()),
        spoken.len() > 0 && chars::is_space(spoken.last()) ==> separated(spoken) == spoken,
        spoken.len() > 0 && !chars::is_space(spoken.last()) ==> separated(spoken) == spoken + seq![' '],
        separated(spoken).take(spoken.len() as int) == spoken,
{
    assert(separated(spoken).take(spoken.len() as int) =~= spoken);
    if spoken.len() > 0 && !chars::is_space(spoken.last()) {
        assert(spoken.push(' ') =~= spoken + seq![' ']);
    }
}

proof fn lemma_one_event(s: SpeechView, e: EventView)
    ensures
        after_events(s, seq![e]) == after_event(s, e),
{
    assert(seq![e].drop_first() =~= Seq::<EventView>::empty());
    assert(after_events(s, seq![e]) == after_events(after_event(s, e), Seq::empty()));
}

/// Whatever was spoken before, the text of a paragraph, a heading or a quote is spoken apart from
/// it: the words before and those of the block never run together, and nothing else is added.
pub proof fn law_block_is_spoken_apart(s: SpeechView, block: Element, events: Seq<EventView>)
    requires
        s.skip is Nothing,
        block is Paragraph || block is Heading || block is BlockQuote,
        forall|i: int| 0 <= i < events.len() ==> is_inline(#[trigger] events[i]),
    ensures
        ({
            let r = after_events(
                s,
                seq![EventView::Start(block)] + events + seq![EventView::End(block)],
            );
            let text = plain_text(events);
            &&& r.lists == s.lists
            &&& r.skip == s.skip
            &&& s.spoken.len() == 0 ==> r.spoken == text
            &&& s.spoken.len() > 0 && chars::is_space(s.spoken.last()) ==> r.spoken == s.spoken
                + text
            &&& s.spoken.len() > 0 && !chars::is_space(s.spoken.last()) ==> r.spoken == s.spoken
                + seq![' '] + text
        }),
{
    let start = seq![EventView::Start(block)];
    let end = seq![EventView::End(block)];
    law_speech_in_parts(s, start + events, end);
    law_speech_in_parts(s, start, events);
    lemma_one_event(s, start[0]);
    let t = after_events(s, start);
    law_inline_text_is_kept(t, events);
    lemma_one_event(after_events(t, events), end[0]);
    law_blocks_are_set_apart(s.spoken);
    if s.spoken.len() == 0 {
        assert(Seq::<char>::empty() + plain_text(events) =~= plain_text(events));
        assert(t.spoken =~= Seq::<char>::empty());
    }
}

/// A line break is spoken as a blank at most: the words around it do not run together.
pub proof fn law_line_break_keeps_words_apart(s: SpeechView, e: EventView)
    requires
        s.skip is Nothing,
        e is SoftBreak || e is HardBreak,
    ensures
        ({
            let r = after_events(s, seq![e]);
            &&& r.lists == s.lists
            &&& r.skip == s.skip
            &&& s.spoken.len() == 0 ==> r.spoken.len() == 0
            &&& s.spoken.len() > 0 ==> chars::is_space(r.spoken.last())
            &&& s.spoken.len() > 0 && chars::is_space(s.spoken.last()) ==> r.spoken == s.spoken
            &&& s.spoken.len() > 0 && !chars::is_space(s.spoken.last()) ==> r.spoken == s.spoken
                + seq![' ']
        }),
{
    lemma_one_event(s, e);
    law_blocks_are_set_apart(s.spoken);
}

/// Text and inline code are spoken as they stand, right behind what was spoken.
pub proof fn law_text_is_spoken(s: SpeechView, t: Seq<char>)
    requires
        s.skip is Nothing,
    ensures
        after_events(s, seq![EventView::Text(t)]) == (SpeechView { spoken: s.spoken + t, ..s }),
        after_events(s, seq![EventView::Code(t)]) == (SpeechView { spoken: s.spoken + t, ..s }),
{
    lemma_one_event(s, EventView::Text(t));
    lemma_one_event(s, EventView::Code(t));
}

/// A block with one line of code is spoken as that line; one with more lines, or with none, as a
/// remark. A line feed at the very end does not count as a line.
pub proof fn law_one_line_of_code_is_spoken(line: Seq<char>)
    requires
        line.len() > 0,
        !line.contains('\n'),
    ensures
        code_speech(line) == line,
        code_speech(line.push('\n')) == line,
{
    assert(line.push('\n').drop_last() =~= line);
    assert(line[line.len() - 1] != '\n');
}

pub proof fn law_more_code_is_replaced(a: Seq<char>, b: Seq<char>)
    requires
        b.len() > 0,
    ensures
        code_speech(a.push('\n') + b) == "Code snippet was provided here, but removed for brevity."@,
        code_speech(Seq::empty()) == "Code snippet was provided here, but removed for brevity."@,
        code_speech(seq!['\n']) == "Code snippet was provided here, but removed for brevity."@,
{
    let code = a.push('\n') + b;
    let line = without_line_feed(code);
    assert(line[a.len() as int] == '\n');
    assert(line.contains('\n'));
    assert(seq!['\n'].drop_last() =~= Seq::<char>::empty());
}

/// A code block is set apart from what was spoken before, and what it holds does not reach the
/// speech in any other way, however many texts it comes in.
pub proof fn law_code_comes_in_parts(s: SpeechView, a: Seq<char>, b: Seq<char>)
    ensures
        after_events(
            s,
            seq![EventView::Start(Element::CodeBlock), EventView::Text(a), EventView::Text(b)],
        ) == after_events(s, seq![EventView::Start(Element::CodeBlock), EventView::Text(a + b)]),
{
    lemma_three_events(
        s,
        EventView::Start(Element::CodeBlock),
        EventView::Text(a),
        EventView::Text(b),
    );
    let two = seq![EventView::Start(Element::CodeBlock), EventView::Text(a + b)];
    law_speech_in_parts(
        s,
        seq![EventView::Start(Element::CodeBlock)],
        seq![EventView::Text(a + b)],
    );
    assert(seq![EventView::Start(Element::CodeBlock)] + seq![EventView::Text(a + b)] =~= two);
    lemma_one_event(s, EventView::Start(Element::CodeBlock));
    lemma_one_event(
        after_event(s, EventView::Start(Element::CodeBlock)),
        EventView::Text(a + b),
    );
    assert(Seq::<char>::empty() + a + b =~= Seq::<char>::empty() + (a + b));
}

/// What stands in a table is passed over, and the remark in its place is the one on tables.
pub proof fn law_table_remark(s: SpeechView)
    requires
        s.skip is Nothing,
    ensures
        after_event(s, EventView::Start(Element::Table)).skip is Table,
        after_event(s, EventView::Start(Element::Table)).spoken == separated(s.spoken)
            + "Table data was provided here, but removed for brevity."@,
{
}

/// A list in a list is flattened on its own: the outer list goes on as it was.
pub proof fn law_inner_list_leaves_the_outer(s: SpeechView, items: Seq<Seq<char>>)
    requires
        s.skip is Nothing,
        items.len() > 0,
    ensures
        after_events(s, list_events(items) + seq![EventView::End(Element::List)]).lists == s.lists,
{
    law_list_is_flattened(s, items);
}

/// The first item of a list is set apart from what was spoken, and every other by a semicolon.
pub proof fn law_items_are_set_apart(s: SpeechView)
    requires
        s.skip is Nothing,
        s.lists.len() > 0,
    ensures
        !s.lists.last() ==> after_event(s, EventView::Start(Element::Item)).spoken == separated(
            s.spoken,
        ),
        s.lists.last() ==> after_event(s, EventView::Start(Element::Item)).spoken == s.spoken
            + seq![';', ' '],
        after_event(s, EventView::Start(Element::Item)).lists.last(),
        after_event(s, EventView::Start(Element::Item)).lists.drop_last() == s.lists.drop_last(),
{
    reveal_strlit("; ");
    assert("; "@ =~= seq![';', ' ']);
    assert(s.lists.drop_last().push(true).drop_last() =~= s.lists.drop_last());
}

} // verus!
