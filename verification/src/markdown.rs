//! Markdown to Pango markup: the Markdown is split into events by
//! `pulldown_cmark`, and the events are written out as Pango markup.
use vstd::prelude::*;
use pulldown_cmark::{Event, Parser, TagEnd};

verus! {

/// The elements of Markdown that the markup tells apart.
#[derive(Debug, Clone, Copy, PartialEq, Eq)]
pub enum MdTag {
    Strong,
    Emphasis,
    CodeBlock,
    Heading,
    Paragraph,
    Item,
    List,
    Other,
}

/// An event of the Markdown parser: an element opens or closes, text or
/// inline code, a line break, or something the markup leaves out.
#[derive(Debug, Clone, PartialEq, Eq)]
pub enum MdEvent {
    Start(MdTag),
    End(MdTag),
    Text(String),
    Code(String),
    SoftBreak,
    HardBreak,
    Other,
}

/// An [`MdEvent`] with its text as a sequence of characters.
pub enum MdItem {
    Start(MdTag),
    End(MdTag),
    Text(Seq<char>),
    Code(Seq<char>),
    SoftBreak,
    HardBreak,
    Other,
}

impl View for MdEvent {
    type V = MdItem;

    open spec fn view(&self) -> MdItem {
        match self {
            MdEvent::Start(t) => MdItem::Start(*t),
            MdEvent::End(t) => MdItem::End(*t),
            MdEvent::Text(s) => MdItem::Text(s@),
            MdEvent::Code(s) => MdItem::Code(s@),
            MdEvent::SoftBreak => MdItem::SoftBreak,
            MdEvent::HardBreak => MdItem::HardBreak,
            MdEvent::Other => MdItem::Other,
        }
    }
}

/// The views of a list of events.
pub open spec fn items_of(events: Seq<MdEvent>) -> Seq<MdItem> {
    events.map_values(|e: MdEvent| e@)
}

/// The events `pulldown_cmark::Parser` yields for `text`, each reduced to
/// an [`MdItem`].
pub uninterp spec fn parsed_markdown(text: Seq<char>) -> Seq<MdItem>;

/// Runs `pulldown_cmark::Parser::new` over `markdown` with no extension
/// enabled and reduces each event it yields to an [`MdEvent`]: the tag of a
/// start or end, the text of text and inline code, the line breaks; every
/// other event becomes `Other`. The contract names that sequence, and
/// states what the documentation of `pulldown_cmark::Event::Start`
/// promises: "Start and end events are guaranteed to be balanced" (each
/// `End` carries the end of the tag its `Start` opened, which the reduction
/// maps to the same [`MdTag`]).
#[verifier::external_body]
fn pulldown_events(markdown: &str) -> (events: Vec<MdEvent>)
    ensures
        items_of(events@) == parsed_markdown(markdown@),
        balanced(items_of(events@)),
{
    let tag = |t: TagEnd| match t {
        TagEnd::Strong => MdTag::Strong, TagEnd::Emphasis => MdTag::Emphasis,
        TagEnd::CodeBlock => MdTag::CodeBlock, TagEnd::Heading(_) => MdTag::Heading,
        TagEnd::Paragraph => MdTag::Paragraph, TagEnd::Item => MdTag::Item,
        TagEnd::List(_) => MdTag::List, _ => MdTag::Other,
    };
    Parser::new(markdown).map(|e| match e {
        Event::Start(t) => MdEvent::Start(tag(t.into())), Event::End(t) => MdEvent::End(tag(t)),
        Event::Text(s) => MdEvent::Text(s.into_string()),
        Event::Code(s) => MdEvent::Code(s.into_string()),
        Event::SoftBreak => MdEvent::SoftBreak, Event::HardBreak => MdEvent::HardBreak,
        _ => MdEvent::Other,
    }).collect()
}

/// The text to be escaped for markup, of the events that carry one.
pub open spec fn payloads(items: Seq<MdItem>) -> Seq<Seq<char>>
    decreases items.len(),
{
    if items.len() == 0 {
        Seq::empty()
    } else {
        payloads(items.drop_last()) + match items.last() {
            MdItem::Text(t) => seq![t],
            MdItem::Code(t) => seq![t],
            _ => Seq::empty(),
        }
    }
}

/// The state of the writer: the markup so far, whether it is inside a code
/// block, and how many escaped texts it has used.
pub struct PangoState {
    pub out: Seq<char>,
    pub in_code: bool,
    pub used: nat,
}

/// `out` ends with an empty line.
pub open spec fn ends_with_blank_line(out: Seq<char>) -> bool {
    out.len() >= 2 && out[out.len() - 2] == '\n' && out[out.len() - 1] == '\n'
}

/// The line break set before a block: none at the very start or after an
/// empty line.
pub open spec fn block_gap(out: Seq<char>) -> Seq<char> {
    if out.len() > 0 && !ends_with_blank_line(out) {
        "\n"@
    } else {
        Seq::empty()
    }
}

/// The writer's state after one more event; `escaped[k]` is the escaped
/// form of the `k`-th text.
pub open spec fn step(st: PangoState, item: MdItem, escaped: Seq<Seq<char>>) -> PangoState {
    let o = st.out;
    match item {
        MdItem::Start(tag) => match tag {
            MdTag::Strong => PangoState { out: o + "<b>"@, ..st },
            MdTag::Emphasis => PangoState { out: o + "<i>"@, ..st },
            MdTag::CodeBlock => PangoState { out: o + block_gap(o) + "<tt>"@, in_code: true, ..st },
            MdTag::Heading => PangoState { out: o + block_gap(o) + "<b><big>"@, ..st },
            MdTag::List => PangoState { out: o + block_gap(o), ..st },
            MdTag::Item => PangoState { out: o + "\u{2022} "@, ..st },
            _ => st,
        },
        MdItem::End(tag) => match tag {
            MdTag::Strong => PangoState { out: o + "</b>"@, ..st },
            MdTag::Emphasis => PangoState { out: o + "</i>"@, ..st },
            MdTag::CodeBlock => PangoState { out: o + "</tt>\n"@, in_code: false, ..st },
            MdTag::Heading => PangoState { out: o + "</big></b>\n"@, ..st },
            MdTag::Paragraph => PangoState { out: o + "\n"@, ..st },
            MdTag::Item => PangoState { out: o + "\n"@, ..st },
            MdTag::List => PangoState { out: o + "\n"@, ..st },
            _ => st,
        },
        MdItem::Text(_) => PangoState { out: o + escaped[st.used as int], used: st.used + 1, ..st },
        MdItem::Code(_) => PangoState {
            out: o + "<tt>"@ + escaped[st.used as int] + "</tt>"@,
            used: st.used + 1,
            ..st
        },
        MdItem::SoftBreak | MdItem::HardBreak => PangoState {
            out: o + if st.in_code {
                "\n"@
            } else {
                " "@
            },
            ..st
        },
        MdItem::Other => st,
    }
}

/// The writer's state after all of `items`, from an empty output outside
/// any code block.
pub open spec fn pango_state(items: Seq<MdItem>, escaped: Seq<Seq<char>>) -> PangoState
    decreases items.len(),
{
    if items.len() == 0 {
        PangoState { out: Seq::empty(), in_code: false, used: 0 }
    } else {
        step(pango_state(items.drop_last(), escaped), items.last(), escaped)
    }
}

/// The Pango markup for `items`, given the escaped form of each text.
pub open spec fn pango_markup(items: Seq<MdItem>, escaped: Seq<Seq<char>>) -> Seq<char> {
    pango_state(items, escaped).out
}

/// The markup a block writes as it opens, after the line break before it:
/// `<tt>` for code, bold and big for a heading, nothing for a list.
pub open spec fn block_opening(tag: MdTag) -> Seq<char> {
    if tag == MdTag::CodeBlock {
        "<tt>"@
    } else if tag == MdTag::Heading {
        "<b><big>"@
    } else {
        Seq::empty()
    }
}

/// A code block, heading or list starts on a line of its own. When it opens
/// after markup that is not empty and does not end in an empty line,
/// exactly one line break is written before the block's own markup; at the
/// very start, or after an empty line, none is. So the character before the
/// block's own markup is always a line break when there is one.
pub proof fn lemma_block_starts_on_new_line(
    items: Seq<MdItem>,
    escaped: Seq<Seq<char>>,
    tag: MdTag,
)
    requires
        tag == MdTag::CodeBlock || tag == MdTag::Heading || tag == MdTag::List,
    ensures
        ({
            let before = pango_markup(items, escaped);
            let after = pango_markup(items.push(MdItem::Start(tag)), escaped);
            let n = before.len();
            &&& n > 0 && !(n >= 2 && before[n - 2] == '\n' && before[n - 1] == '\n') ==> after
                == before.push('\n') + block_opening(tag)
            &&& n == 0 || (n >= 2 && before[n - 2] == '\n' && before[n - 1] == '\n') ==> after
                == before + block_opening(tag)
            &&& n > 0 ==> after.len() > block_opening(tag).len() && after[after.len()
                - block_opening(tag).len() - 1] == '\n'
        }),
{
    reveal_strlit("\n");
    let ext = items.push(MdItem::Start(tag));
    assert(ext.drop_last() == items);
    assert(ext.last() == MdItem::Start(tag));
    let before = pango_markup(items, escaped);
    let after = pango_markup(ext, escaped);
    assert(before + Seq::<char>::empty() == before);
    assert(after == before + block_gap(before) + block_opening(tag));
    if before.len() > 0 {
        if ends_with_blank_line(before) {
            assert(after == before + block_opening(tag));
            assert(after[before.len() - 1] == before[before.len() - 1]);
        } else {
            assert(before + "\n"@ == before.push('\n'));
            assert(after[before.len() as int] == '\n');
        }
    }
}

/// A code block is open after `items`: one started, and no code block ended
/// after that.
pub open spec fn code_block_open(items: Seq<MdItem>) -> bool {
    exists|k: int|
        0 <= k < items.len() && #[trigger] items[k] == MdItem::Start(MdTag::CodeBlock) && forall|
            j: int,
        | k < j < items.len() ==> #[trigger] items[j] != MdItem::End(MdTag::CodeBlock)
}

proof fn lemma_in_code_is_open_block(items: Seq<MdItem>, escaped: Seq<Seq<char>>)
    ensures
        pango_state(items, escaped).in_code == code_block_open(items),
    decreases items.len(),
{
    if items.len() > 0 {
        let rest = items.drop_last();
        let n = items.len() - 1;
        lemma_in_code_is_open_block(rest, escaped);
        assert(forall|j: int| 0 <= j < n ==> #[trigger] rest[j] == items[j]);
        if items.last() == MdItem::Start(MdTag::CodeBlock) {
            assert(items[n] == MdItem::Start(MdTag::CodeBlock));
        } else if items.last() == MdItem::End(MdTag::CodeBlock) {
            assert(items[n] == MdItem::End(MdTag::CodeBlock));
        } else {
            if code_block_open(items) {
                let k = choose|k: int|
                    0 <= k < items.len() && #[trigger] items[k] == MdItem::Start(MdTag::CodeBlock)
                        && forall|j: int|
                        k < j < items.len() ==> #[trigger] items[j] != MdItem::End(
                            MdTag::CodeBlock,
                        );
                assert(k < n);
                assert(rest[k] == MdItem::Start(MdTag::CodeBlock));
                assert(code_block_open(rest));
            }
            if code_block_open(rest) {
                let k = choose|k: int|
                    0 <= k < rest.len() && #[trigger] rest[k] == MdItem::Start(MdTag::CodeBlock)
                        && forall|j: int|
                        k < j < rest.len() ==> #[trigger] rest[j] != MdItem::End(MdTag::CodeBlock);
                assert(items[k] == MdItem::Start(MdTag::CodeBlock));
                assert forall|j: int| k < j < items.len() implies #[trigger] items[j]
                    != MdItem::End(MdTag::CodeBlock) by {
                    if j < n {
                        assert(rest[j] == items[j]);
                    }
                }
                assert(code_block_open(items));
            }
        }
    }
}

/// Plain text is written as its escaped form, piece after piece, in order:
/// for events that are all texts, the markup is the escaped texts one after
/// the other.
pub proof fn lemma_plain_texts_in_order(items: Seq<MdItem>, escaped: Seq<Seq<char>>)
    requires
        items.len() <= escaped.len(),
        forall|k: int| 0 <= k < items.len() ==> #[trigger] items[k] is Text,
    ensures
        pango_markup(items, escaped) == escaped.take(items.len() as int).flatten(),
        pango_state(items, escaped).used == items.len(),
    decreases items.len(),
{
    if items.len() == 0 {
        assert(escaped.take(0) == Seq::<Seq<char>>::empty());
    } else {
        let rest = items.drop_last();
        let n = items.len() - 1;
        assert forall|k: int| 0 <= k < rest.len() implies #[trigger] rest[k] is Text by {
            assert(rest[k] == items[k]);
        }
        lemma_plain_texts_in_order(rest, escaped);
        assert(items[n] is Text);
        assert(escaped.take(n + 1) == escaped.take(n).push(escaped[n]));
        escaped.take(n).lemma_flatten_push(escaped[n]);
    }
}

/// Every block ends its line: after a paragraph, list item, list, heading or
/// code block closes, the markup so far is kept and ends with a line break.
pub proof fn lemma_block_ends_line(items: Seq<MdItem>, escaped: Seq<Seq<char>>, tag: MdTag)
    requires
        tag == MdTag::Paragraph || tag == MdTag::Item || tag == MdTag::List || tag
            == MdTag::Heading || tag == MdTag::CodeBlock,
    ensures
        ({
            let before = pango_markup(items, escaped);
            let after = pango_markup(items.push(MdItem::End(tag)), escaped);
            &&& after.len() > before.len()
            &&& after.subrange(0, before.len() as int) == before
            &&& after.last() == '\n'
        }),
{
    reveal_strlit("\n");
    reveal_strlit("</tt>\n");
    reveal_strlit("</big></b>\n");
    let ext = items.push(MdItem::End(tag));
    assert(ext.drop_last() == items);
    assert(ext.last() == MdItem::End(tag));
    let before = pango_markup(items, escaped);
    let after = pango_markup(ext, escaped);
    let tail = after.subrange(before.len() as int, after.len() as int);
    assert(after == before + tail);
    assert(after.subrange(0, before.len() as int) == before);
}

/// A line break, soft or hard, is kept as a line break inside a code block
/// and written as a space anywhere else.
pub proof fn lemma_breaks_kept_only_in_code(
    items: Seq<MdItem>,
    escaped: Seq<Seq<char>>,
    brk: MdItem,
)
    requires
        brk == MdItem::SoftBreak || brk == MdItem::HardBreak,
    ensures
        code_block_open(items) ==> pango_markup(items.push(brk), escaped) == pango_markup(
            items,
            escaped,
        ).push('\n'),
        !code_block_open(items) ==> pango_markup(items.push(brk), escaped) == pango_markup(
            items,
            escaped,
        ).push(' '),
{
    reveal_strlit("\n");
    reveal_strlit(" ");
    lemma_in_code_is_open_block(items, escaped);
    let ext = items.push(brk);
    assert(ext.drop_last() == items);
    assert(ext.last() == brk);
    let before = pango_markup(items, escaped);
    assert(before + "\n"@ == before.push('\n'));
    assert(before + " "@ == before.push(' '));
}

/// The writer uses the escaped texts one by one, in order.
pub proof fn lemma_used_counts_payloads(items: Seq<MdItem>, escaped: Seq<Seq<char>>)
    ensures
        pango_state(items, escaped).used == payloads(items).len(),
    decreases items.len(),
{
    if items.len() > 0 {
        lemma_used_counts_payloads(items.drop_last(), escaped);
    }
}

/// A parsed Markdown text.
pub struct Markdown {
    pub events: Vec<MdEvent>,
}

fn ends_with_blank(out: &String) -> (b: bool)
    ensures
        b == ends_with_blank_line(out@),
{
    let s = out.as_str();
    let n: usize = s.unicode_len();
    n >= 2 && s.get_char(n - 2) == '\n' && s.get_char(n - 1) == '\n'
}

fn push_block_gap(out: &mut String)
    ensures
        final(out)@ == old(out)@ + block_gap(old(out)@),
        old(out)@.len() > 0 && !(old(out)@.len() >= 2 && old(out)@[old(out)@.len() - 2] == '\n'
            && old(out)@[old(out)@.len() - 1] == '\n') ==> final(out)@ == old(out)@.push('\n'),
        old(out)@.len() == 0 || (old(out)@.len() >= 2 && old(out)@[old(out)@.len() - 2] == '\n'
            && old(out)@[old(out)@.len() - 1] == '\n') ==> final(out)@ == old(out)@,
{
    let n: usize = out.as_str().unicode_len();
    proof {
        reveal_strlit("\n");
    }
    if n > 0 && !ends_with_blank(out) {
        out.append("\n");
        assert(final(out)@ =~= old(out)@.push('\n'));
    } else {
        assert(old(out)@ + Seq::<char>::empty() == old(out)@);
    }
}

impl Markdown {
    /// Parses `markdown` with `pulldown_cmark`.
    pub fn parse(markdown: &str) -> (doc: Markdown)
        ensures
            items_of(doc.events@) == parsed_markdown(markdown@),
            balanced(items_of(doc.events@)),
    {
        Markdown { events: pulldown_events(markdown) }
    }

    /// The texts of the text and inline-code events, in order: what is to
    /// be escaped for markup.
    pub fn texts(&self) -> (texts: Vec<String>)
        ensures
            texts@.map_values(|t: String| t@) == payloads(items_of(self.events@)),
    {
        let mut texts: Vec<String> = Vec::new();
        let events = &self.events;
        for i in 0..events.len()
            invariant
                texts@.map_values(|t: String| t@) == payloads(items_of(events@.take(i as int))),
        {
            let ghost before = texts@;
            assert(items_of(events@.take(i + 1)).drop_last() == items_of(events@.take(i as int)));
            assert(items_of(events@.take(i + 1)).last() == events@[i as int]@);
            match &events[i] {
                MdEvent::Text(t) => texts.push(t.clone()),
                MdEvent::Code(t) => texts.push(t.clone()),
                _ => {},
            }
            assert(texts@.map_values(|t: String| t@) =~= payloads(items_of(events@.take(i + 1))));
        }
        assert(events@.take(events@.len() as int) == events@);
        texts
    }
}

/// Writes the events of `doc` as Pango markup, taking the escaped form of
/// its `k`-th text from `escaped[k]`: bold and italics, code in `<tt>`,
/// headings in bold and big, list items after a bullet, and a line break
/// after each block.
pub fn markdown_to_pango(doc: &Markdown, escaped: &Vec<String>) -> (markup: String)
    requires
        escaped@.len() == payloads(items_of(doc.events@)).len(),
    ensures
        markup@ == pango_markup(
            items_of(doc.events@),
            escaped@.map_values(|t: String| t@),
        ),
        balanced(items_of(doc.events@)) && (forall|k: int|
            0 <= k < escaped@.len() ==> angle_free(#[trigger] escaped@[k]@)) ==> scan(
            markup@,
            Seq::empty(),
        ) == Some(Seq::<PangoTag>::empty()),
{
    let ghost esc = escaped@.map_values(|t: String| t@);
    let events = &doc.events;
    let mut out = String::new();
    let mut in_code: bool = false;
    let mut used: usize = 0;
    proof {
        lemma_used_counts_payloads(items_of(events@), esc);
    }
    for i in 0..events.len()
        invariant
            esc == escaped@.map_values(|t: String| t@),
            escaped@.len() == payloads(items_of(events@)).len(),
            pango_state(items_of(events@), esc).used == payloads(items_of(events@)).len(),
            ({
                let st = pango_state(items_of(events@.take(i as int)), esc);
                st.out == out@ && st.in_code == in_code && st.used == used
            }),
    {
        let ghost items = items_of(events@.take(i + 1));
        assert(items.drop_last() == items_of(events@.take(i as int)));
        assert(items.last() == events@[i as int]@);
        proof {
            lemma_used_counts_payloads(items, esc);
            lemma_used_counts_payloads(items_of(events@.take(i as int)), esc);
            lemma_payloads_prefix(items_of(events@), i + 1);
            assert(items_of(events@).take(i + 1) == items);
            assert(payloads(items).len() <= escaped@.len());
        }
        match &events[i] {
            MdEvent::Start(tag) => match tag {
                MdTag::Strong => out.append("<b>"),
                MdTag::Emphasis => out.append("<i>"),
                MdTag::CodeBlock => {
                    push_block_gap(&mut out);
                    out.append("<tt>");
                    in_code = true;
                },
                MdTag::Heading => {
                    push_block_gap(&mut out);
                    out.append("<b><big>");
                },
                MdTag::List => push_block_gap(&mut out),
                MdTag::Item => out.append("\u{2022} "),
                _ => {},
            },
            MdEvent::End(tag) => match tag {
                MdTag::Strong => out.append("</b>"),
                MdTag::Emphasis => out.append("</i>"),
                MdTag::CodeBlock => {
                    out.append("</tt>\n");
                    in_code = false;
                },
                MdTag::Heading => out.append("</big></b>\n"),
                MdTag::Paragraph => out.append("\n"),
                MdTag::Item => out.append("\n"),
                MdTag::List => out.append("\n"),
                _ => {},
            },
            MdEvent::Text(_) => {
                assert(payloads(items).len() == used + 1);
                assert(used < escaped.len());
                out.append(escaped[used].as_str());
                used = used + 1;
            },
            MdEvent::Code(_) => {
                assert(payloads(items).len() == used + 1);
                assert(used < escaped.len());
                out.append("<tt>");
                out.append(escaped[used].as_str());
                out.append("</tt>");
                used = used + 1;
            },
            MdEvent::SoftBreak | MdEvent::HardBreak => {
                if in_code {
                    out.append("\n");
                } else {
                    out.append(" ");
                }
            },
            MdEvent::Other => {},
        }
    }
    assert(events@.take(events@.len() as int) == events@);
    proof {
        if balanced(items_of(events@)) && (forall|k: int|
            0 <= k < escaped@.len() ==> angle_free(#[trigger] escaped@[k]@)) {
            assert forall|k: int| 0 <= k < esc.len() implies angle_free(#[trigger] esc[k]) by {
                assert(esc[k] == escaped@[k]@);
            }
            lemma_markup_well_formed(items_of(events@), esc);
        }
    }
    out
}

/// The texts of a prefix of the events are a prefix of all texts.
proof fn lemma_payloads_prefix(items: Seq<MdItem>, n: int)
    requires
        0 <= n <= items.len(),
    ensures
        payloads(items.take(n)).len() <= payloads(items).len(),
    decreases items.len() - n,
{
    if n < items.len() {
        lemma_payloads_prefix(items, n + 1);
        assert(items.take(n + 1).drop_last() == items.take(n));
    } else {
        assert(items.take(n) == items);
    }
}

} // verus!

verus! {

/// A tag of the Pango markup the writer produces.
#[derive(Debug, Clone, Copy, PartialEq, Eq)]
pub enum PangoTag {
    Bold,
    Italic,
    Mono,
    Big,
}

/// An opening or closing Pango tag.
pub enum MarkupToken {
    Open(PangoTag),
    Close(PangoTag),
}

/// The element name of a tag.
pub open spec fn tag_name(t: PangoTag) -> Seq<char> {
    match t {
        PangoTag::Bold => seq!['b'],
        PangoTag::Italic => seq!['i'],
        PangoTag::Mono => seq!['t', 't'],
        PangoTag::Big => seq!['b', 'i', 'g'],
    }
}

/// How a token is written: `<name>` or `</name>`.
pub open spec fn lexeme(tok: MarkupToken) -> Seq<char> {
    match tok {
        MarkupToken::Open(t) => seq!['<'] + tag_name(t) + seq!['>'],
        MarkupToken::Close(t) => seq!['<', '/'] + tag_name(t) + seq!['>'],
    }
}

/// `s` begins with `l`.
pub open spec fn begins_with(s: Seq<char>, l: Seq<char>) -> bool {
    l.len() <= s.len() && s.subrange(0, l.len() as int) == l
}

/// The tag token `s` begins with, if any.
pub open spec fn token_at(s: Seq<char>) -> Option<MarkupToken> {
    if begins_with(s, lexeme(MarkupToken::Open(PangoTag::Bold))) {
        Some(MarkupToken::Open(PangoTag::Bold))
    } else if begins_with(s, lexeme(MarkupToken::Open(PangoTag::Italic))) {
        Some(MarkupToken::Open(PangoTag::Italic))
    } else if begins_with(s, lexeme(MarkupToken::Open(PangoTag::Mono))) {
        Some(MarkupToken::Open(PangoTag::Mono))
    } else if begins_with(s, lexeme(MarkupToken::Open(PangoTag::Big))) {
        Some(MarkupToken::Open(PangoTag::Big))
    } else if begins_with(s, lexeme(MarkupToken::Close(PangoTag::Bold))) {
        Some(MarkupToken::Close(PangoTag::Bold))
    } else if begins_with(s, lexeme(MarkupToken::Close(PangoTag::Italic))) {
        Some(MarkupToken::Close(PangoTag::Italic))
    } else if begins_with(s, lexeme(MarkupToken::Close(PangoTag::Mono))) {
        Some(MarkupToken::Close(PangoTag::Mono))
    } else if begins_with(s, lexeme(MarkupToken::Close(PangoTag::Big))) {
        Some(MarkupToken::Close(PangoTag::Big))
    } else {
        None
    }
}

/// Reads `s` as markup from the open tags `stack`: a `<` must begin one of
/// the tags, an opening tag is pushed, a closing tag must close the
/// innermost open tag, and `>` never stands alone. Gives the tags left
/// open, or `None` where the markup breaks these rules.
pub open spec fn scan(s: Seq<char>, stack: Seq<PangoTag>) -> Option<Seq<PangoTag>>
    decreases s.len(),
{
    if s.len() == 0 {
        Some(stack)
    } else if s[0] == '<' {
        match token_at(s) {
            Some(tok) => {
                let rest = s.subrange(lexeme(tok).len() as int, s.len() as int);
                match tok {
                    MarkupToken::Open(t) => scan(rest, stack.push(t)),
                    MarkupToken::Close(t) => if stack.len() > 0 && stack.last() == t {
                        scan(rest, stack.drop_last())
                    } else {
                        None
                    },
                }
            },
            None => None,
        }
    } else if s[0] == '>' {
        None
    } else {
        scan(s.drop_first(), stack)
    }
}

/// `t` holds neither `<` nor `>`.
pub open spec fn angle_free(t: Seq<char>) -> bool {
    forall|i: int| 0 <= i < t.len() ==> t[i] != '<' && t[i] != '>'
}

proof fn lemma_lexeme_shape(tok: MarkupToken)
    ensures
        3 <= lexeme(tok).len() <= 6,
        lexeme(tok)[0] == '<',
        lexeme(tok).last() == '>',
        forall|k: int| 0 <= k < lexeme(tok).len() - 1 ==> lexeme(tok)[k] != '>',
{
    let l = lexeme(tok);
    match tok {
        MarkupToken::Open(t) => {
            assert(l == seq!['<'] + tag_name(t) + seq!['>']);
        },
        MarkupToken::Close(t) => {
            assert(l == seq!['<', '/'] + tag_name(t) + seq!['>']);
        },
    }
    assert forall|k: int| 0 <= k < l.len() - 1 implies l[k] != '>' by {
        match tok {
            MarkupToken::Open(t) => {
                if k > 0 {
                    assert(l[k] == tag_name(t)[k - 1]);
                }
            },
            MarkupToken::Close(t) => {
                if k > 1 {
                    assert(l[k] == tag_name(t)[k - 2]);
                }
            },
        }
    }
}

proof fn lemma_token_extends(a: Seq<char>, b: Seq<char>)
    requires
        token_at(a) is Some,
    ensures
        token_at(a + b) == token_at(a),
{
    let ab = a + b;
    assert forall|l: Seq<char>| l.len() <= a.len() implies ab.subrange(0, l.len() as int)
        == a.subrange(0, l.len() as int) by {
        assert(ab.subrange(0, l.len() as int) =~= a.subrange(0, l.len() as int));
    }
    let ls = seq![
        lexeme(MarkupToken::Open(PangoTag::Bold)),
        lexeme(MarkupToken::Open(PangoTag::Italic)),
        lexeme(MarkupToken::Open(PangoTag::Mono)),
        lexeme(MarkupToken::Open(PangoTag::Big)),
        lexeme(MarkupToken::Close(PangoTag::Bold)),
        lexeme(MarkupToken::Close(PangoTag::Italic)),
        lexeme(MarkupToken::Close(PangoTag::Mono)),
        lexeme(MarkupToken::Close(PangoTag::Big)),
    ];
    let toks = seq![
        MarkupToken::Open(PangoTag::Bold),
        MarkupToken::Open(PangoTag::Italic),
        MarkupToken::Open(PangoTag::Mono),
        MarkupToken::Open(PangoTag::Big),
        MarkupToken::Close(PangoTag::Bold),
        MarkupToken::Close(PangoTag::Italic),
        MarkupToken::Close(PangoTag::Mono),
        MarkupToken::Close(PangoTag::Big),
    ];
    assert forall|x: int| 0 <= x < 8 implies ls[x] == lexeme(#[trigger] toks[x]) by {}
    assert forall|x: int, y: int| 0 <= x < 8 && 0 <= y < 8 && begins_with(ab, ls[x]) && begins_with(
        a,
        ls[y],
    ) implies begins_with(a, ls[x]) by {
        let lx = ls[x];
        let ly = ls[y];
        lemma_lexeme_shape(toks[x]);
        lemma_lexeme_shape(toks[y]);
        assert forall|k: int| 0 <= k < lx.len() && k < ly.len() implies lx[k] == ly[k] by {
            assert(ab.subrange(0, lx.len() as int)[k] == ab[k]);
            assert(a.subrange(0, ly.len() as int)[k] == a[k]);
        }
        if lx.len() > a.len() {
            let k = ly.len() - 1;
            assert(lx[k] == ly[k]);
            assert(false);
        }
    }
}

proof fn lemma_token_begins(s: Seq<char>)
    ensures
        token_at(s) matches Some(tok) ==> begins_with(s, lexeme(tok)),
{
}

proof fn lemma_token_of_lexeme(tok: MarkupToken)
    ensures
        token_at(lexeme(tok)) == Some(tok),
{
    let l = lexeme(tok);
    lemma_lexeme_shape(tok);
    assert(l.subrange(0, l.len() as int) =~= l);
    match tok {
        MarkupToken::Open(PangoTag::Bold) => {},
        MarkupToken::Open(PangoTag::Italic) => {
            assert(l[1] != lexeme(MarkupToken::Open(PangoTag::Bold))[1]);
        },
        MarkupToken::Open(PangoTag::Mono) => {
            assert(l[1] != lexeme(MarkupToken::Open(PangoTag::Bold))[1]);
            assert(l[1] != lexeme(MarkupToken::Open(PangoTag::Italic))[1]);
        },
        MarkupToken::Open(PangoTag::Big) => {
            assert(l[2] != lexeme(MarkupToken::Open(PangoTag::Bold))[2]);
            assert(l[1] != lexeme(MarkupToken::Open(PangoTag::Italic))[1]);
            assert(l[1] != lexeme(MarkupToken::Open(PangoTag::Mono))[1]);
        },
        MarkupToken::Close(t) => {
            assert(l[1] == '/');
            assert(lexeme(MarkupToken::Open(PangoTag::Bold))[1] != '/');
            assert(lexeme(MarkupToken::Open(PangoTag::Italic))[1] != '/');
            assert(lexeme(MarkupToken::Open(PangoTag::Mono))[1] != '/');
            assert(lexeme(MarkupToken::Open(PangoTag::Big))[1] != '/');
            match t {
                PangoTag::Bold => {},
                PangoTag::Italic => {
                    assert(l[2] != lexeme(MarkupToken::Close(PangoTag::Bold))[2]);
                },
                PangoTag::Mono => {
                    assert(l[2] != lexeme(MarkupToken::Close(PangoTag::Bold))[2]);
                    assert(l[2] != lexeme(MarkupToken::Close(PangoTag::Italic))[2]);
                },
                PangoTag::Big => {
                    assert(l[3] != lexeme(MarkupToken::Close(PangoTag::Bold))[3]);
                    assert(l[2] != lexeme(MarkupToken::Close(PangoTag::Italic))[2]);
                    assert(l[2] != lexeme(MarkupToken::Close(PangoTag::Mono))[2]);
                },
            }
        },
    }
}

/// Reading markup in two pieces is reading the first, then the second from
/// the tags the first left open.
pub proof fn lemma_scan_concat(a: Seq<char>, b: Seq<char>, stack: Seq<PangoTag>)
    requires
        scan(a, stack) is Some,
    ensures
        scan(a + b, stack) == scan(b, scan(a, stack)->0),
    decreases a.len(),
{
    let ab = a + b;
    if a.len() == 0 {
        assert(ab =~= b);
    } else {
        assert(ab[0] == a[0]);
        if a[0] == '<' {
            let tok = token_at(a)->0;
            lemma_token_extends(a, b);
            lemma_token_begins(a);
            lemma_lexeme_shape(tok);
            let n = lexeme(tok).len() as int;
            assert(ab.subrange(n, ab.len() as int) =~= a.subrange(n, a.len() as int) + b);
            match tok {
                MarkupToken::Open(t) => {
                    lemma_scan_concat(a.subrange(n, a.len() as int), b, stack.push(t));
                },
                MarkupToken::Close(t) => {
                    lemma_scan_concat(a.subrange(n, a.len() as int), b, stack.drop_last());
                },
            }
        } else {
            assert(ab.drop_first() =~= a.drop_first() + b);
            lemma_scan_concat(a.drop_first(), b, stack);
        }
    }
}

/// Text without angle brackets reads as text: no tag opens or closes.
pub proof fn lemma_scan_text(t: Seq<char>, stack: Seq<PangoTag>)
    requires
        angle_free(t),
    ensures
        scan(t, stack) == Some(stack),
    decreases t.len(),
{
    if t.len() > 0 {
        assert(angle_free(t.drop_first()));
        lemma_scan_text(t.drop_first(), stack);
    }
}

/// A tag reads as opening or closing its element.
pub proof fn lemma_scan_lexeme(tok: MarkupToken, stack: Seq<PangoTag>)
    ensures
        scan(lexeme(tok), stack) == match tok {
            MarkupToken::Open(t) => Some(stack.push(t)),
            MarkupToken::Close(t) => if stack.len() > 0 && stack.last() == t {
                Some(stack.drop_last())
            } else {
                None
            },
        },
{
    lemma_token_of_lexeme(tok);
    lemma_lexeme_shape(tok);
    let l = lexeme(tok);
    let rest = l.subrange(l.len() as int, l.len() as int);
    assert(rest =~= Seq::<char>::empty());
    match tok {
        MarkupToken::Open(t) => {
            assert(scan(rest, stack.push(t)) == Some(stack.push(t)));
        },
        MarkupToken::Close(t) => {
            assert(scan(rest, stack.drop_last()) == Some(stack.drop_last()));
        },
    }
}

/// The elements left open after `items`, innermost last; `None` when an
/// element ends that is not the innermost open one.
pub open spec fn open_elements(items: Seq<MdItem>) -> Option<Seq<MdTag>>
    decreases items.len(),
{
    if items.len() == 0 {
        Some(Seq::empty())
    } else {
        match open_elements(items.drop_last()) {
            None => None,
            Some(st) => match items.last() {
                MdItem::Start(t) => Some(st.push(t)),
                MdItem::End(t) => if st.len() > 0 && st.last() == t {
                    Some(st.drop_last())
                } else {
                    None
                },
                _ => Some(st),
            },
        }
    }
}

/// Every element that starts ends, innermost first.
pub open spec fn balanced(items: Seq<MdItem>) -> bool {
    open_elements(items) == Some(Seq::<MdTag>::empty())
}

/// The tags the writer opens for an element.
pub open spec fn markup_tags(t: MdTag) -> Seq<PangoTag> {
    match t {
        MdTag::Strong => seq![PangoTag::Bold],
        MdTag::Emphasis => seq![PangoTag::Italic],
        MdTag::CodeBlock => seq![PangoTag::Mono],
        MdTag::Heading => seq![PangoTag::Bold, PangoTag::Big],
        _ => Seq::empty(),
    }
}

/// The tags open while the elements `st` are open.
pub open spec fn open_markup(st: Seq<MdTag>) -> Seq<PangoTag>
    decreases st.len(),
{
    if st.len() == 0 {
        Seq::empty()
    } else {
        open_markup(st.drop_last()) + markup_tags(st.last())
    }
}

proof fn lemma_literals()
    ensures
        "<b>"@ == lexeme(MarkupToken::Open(PangoTag::Bold)),
        "<i>"@ == lexeme(MarkupToken::Open(PangoTag::Italic)),
        "<tt>"@ == lexeme(MarkupToken::Open(PangoTag::Mono)),
        "<b><big>"@ == lexeme(MarkupToken::Open(PangoTag::Bold)) + lexeme(
            MarkupToken::Open(PangoTag::Big),
        ),
        "</b>"@ == lexeme(MarkupToken::Close(PangoTag::Bold)),
        "</i>"@ == lexeme(MarkupToken::Close(PangoTag::Italic)),
        "</tt>"@ == lexeme(MarkupToken::Close(PangoTag::Mono)),
        "</tt>\n"@ == lexeme(MarkupToken::Close(PangoTag::Mono)) + "\n"@,
        "</big></b>\n"@ == lexeme(MarkupToken::Close(PangoTag::Big)) + lexeme(
            MarkupToken::Close(PangoTag::Bold),
        ) + "\n"@,
        angle_free("\n"@),
        angle_free(" "@),
        angle_free("\u{2022} "@),
        angle_free(Seq::<char>::empty()),
{
    reveal_strlit("<b>");
    reveal_strlit("<i>");
    reveal_strlit("<tt>");
    reveal_strlit("<b><big>");
    reveal_strlit("</b>");
    reveal_strlit("</i>");
    reveal_strlit("</tt>");
    reveal_strlit("</tt>\n");
    reveal_strlit("</big></b>\n");
    reveal_strlit("\n");
    reveal_strlit(" ");
    reveal_strlit("\u{2022} ");
    assert("<b>"@ =~= lexeme(MarkupToken::Open(PangoTag::Bold)));
    assert("<i>"@ =~= lexeme(MarkupToken::Open(PangoTag::Italic)));
    assert("<tt>"@ =~= lexeme(MarkupToken::Open(PangoTag::Mono)));
    assert("<b><big>"@ =~= lexeme(MarkupToken::Open(PangoTag::Bold)) + lexeme(
        MarkupToken::Open(PangoTag::Big),
    ));
    assert("</b>"@ =~= lexeme(MarkupToken::Close(PangoTag::Bold)));
    assert("</i>"@ =~= lexeme(MarkupToken::Close(PangoTag::Italic)));
    assert("</tt>"@ =~= lexeme(MarkupToken::Close(PangoTag::Mono)));
    assert("</tt>\n"@ =~= lexeme(MarkupToken::Close(PangoTag::Mono)) + "\n"@);
    assert("</big></b>\n"@ =~= lexeme(MarkupToken::Close(PangoTag::Big)) + lexeme(
        MarkupToken::Close(PangoTag::Bold),
    ) + "\n"@);
}

proof fn lemma_extend(o: Seq<char>, p: Seq<char>, m0: Seq<PangoTag>, m1: Seq<PangoTag>)
    requires
        scan(o, Seq::empty()) == Some(m0),
        scan(p, m0) == Some(m1),
    ensures
        scan(o + p, Seq::empty()) == Some(m1),
{
    lemma_scan_concat(o, p, Seq::empty());
}

proof fn lemma_extend_text(o: Seq<char>, p: Seq<char>, m0: Seq<PangoTag>)
    requires
        scan(o, Seq::empty()) == Some(m0),
        angle_free(p),
    ensures
        scan(o + p, Seq::empty()) == Some(m0),
{
    lemma_scan_text(p, m0);
    lemma_extend(o, p, m0, m0);
}

proof fn lemma_extend_open(o: Seq<char>, t: PangoTag, m0: Seq<PangoTag>)
    requires
        scan(o, Seq::empty()) == Some(m0),
    ensures
        scan(o + lexeme(MarkupToken::Open(t)), Seq::empty()) == Some(m0.push(t)),
{
    lemma_scan_lexeme(MarkupToken::Open(t), m0);
    lemma_extend(o, lexeme(MarkupToken::Open(t)), m0, m0.push(t));
}

proof fn lemma_extend_close(o: Seq<char>, t: PangoTag, m: Seq<PangoTag>)
    requires
        scan(o, Seq::empty()) == Some(m.push(t)),
    ensures
        scan(o + lexeme(MarkupToken::Close(t)), Seq::empty()) == Some(m),
{
    lemma_scan_lexeme(MarkupToken::Close(t), m.push(t));
    assert(m.push(t).drop_last() =~= m);
    lemma_extend(o, lexeme(MarkupToken::Close(t)), m.push(t), m);
}

/// The tags open in the markup written so far are those of the elements
/// open so far, when the texts are free of angle brackets.
pub proof fn lemma_markup_state(items: Seq<MdItem>, escaped: Seq<Seq<char>>)
    requires
        open_elements(items) is Some,
        payloads(items).len() <= escaped.len(),
        forall|k: int| 0 <= k < escaped.len() ==> angle_free(#[trigger] escaped[k]),
    ensures
        scan(pango_markup(items, escaped), Seq::empty()) == Some(
            open_markup(open_elements(items)->0),
        ),
    decreases items.len(),
{
    if items.len() == 0 {
        assert(scan(Seq::<char>::empty(), Seq::<PangoTag>::empty()) == Some(Seq::<PangoTag>::empty()));
    } else {
        let prev = items.drop_last();
        let st0 = open_elements(prev)->0;
        lemma_markup_state(prev, escaped);
        lemma_used_counts_payloads(prev, escaped);
        lemma_literals();
        let ps = pango_state(prev, escaped);
        let o = ps.out;
        let m0 = open_markup(st0);
        let out = pango_markup(items, escaped);
        let gap = block_gap(o);
        assert(angle_free(gap));
        match items.last() {
            MdItem::Start(t) => {
                let st = st0.push(t);
                assert(st.drop_last() =~= st0);
                assert(open_markup(st) == m0 + markup_tags(t));
                match t {
                    MdTag::Strong => {
                        lemma_extend_open(o, PangoTag::Bold, m0);
                        assert(m0.push(PangoTag::Bold) =~= m0 + markup_tags(t));
                    },
                    MdTag::Emphasis => {
                        lemma_extend_open(o, PangoTag::Italic, m0);
                        assert(m0.push(PangoTag::Italic) =~= m0 + markup_tags(t));
                    },
                    MdTag::CodeBlock => {
                        lemma_extend_text(o, gap, m0);
                        lemma_extend_open(o + gap, PangoTag::Mono, m0);
                        assert(m0.push(PangoTag::Mono) =~= m0 + markup_tags(t));
                    },
                    MdTag::Heading => {
                        lemma_extend_text(o, gap, m0);
                        lemma_extend_open(o + gap, PangoTag::Bold, m0);
                        lemma_extend_open(o + gap + lexeme(MarkupToken::Open(PangoTag::Bold)), PangoTag::Big, m0.push(PangoTag::Bold));
                        assert(o + gap + lexeme(MarkupToken::Open(PangoTag::Bold)) + lexeme(MarkupToken::Open(PangoTag::Big))
                            =~= o + gap + "<b><big>"@);
                        assert(m0.push(PangoTag::Bold).push(PangoTag::Big) =~= m0 + markup_tags(t));
                    },
                    MdTag::List => {
                        lemma_extend_text(o, gap, m0);
                        assert(m0 + markup_tags(t) =~= m0);
                    },
                    MdTag::Item => {
                        lemma_extend_text(o, "\u{2022} "@, m0);
                        assert(m0 + markup_tags(t) =~= m0);
                    },
                    _ => {
                        assert(m0 + markup_tags(t) =~= m0);
                    },
                }
            },
            MdItem::End(t) => {
                let st = st0.drop_last();
                assert(st0.len() > 0 && st0.last() == t);
                assert(st0.drop_last() == st);
                assert(m0 == open_markup(st) + markup_tags(t));
                let m = open_markup(st);
                match t {
                    MdTag::Strong => {
                        assert(m0 =~= m.push(PangoTag::Bold));
                        lemma_extend_close(o, PangoTag::Bold, m);
                    },
                    MdTag::Emphasis => {
                        assert(m0 =~= m.push(PangoTag::Italic));
                        lemma_extend_close(o, PangoTag::Italic, m);
                    },
                    MdTag::CodeBlock => {
                        assert(m0 =~= m.push(PangoTag::Mono));
                        lemma_extend_close(o, PangoTag::Mono, m);
                        lemma_extend_text(o + lexeme(MarkupToken::Close(PangoTag::Mono)), "\n"@, m);
                        assert(o + lexeme(MarkupToken::Close(PangoTag::Mono)) + "\n"@ =~= o + "</tt>\n"@);
                    },
                    MdTag::Heading => {
                        assert(m0 =~= m.push(PangoTag::Bold).push(PangoTag::Big));
                        lemma_extend_close(o, PangoTag::Big, m.push(PangoTag::Bold));
                        let o1 = o + lexeme(MarkupToken::Close(PangoTag::Big));
                        lemma_extend_close(o1, PangoTag::Bold, m);
                        let o2 = o1 + lexeme(MarkupToken::Close(PangoTag::Bold));
                        lemma_extend_text(o2, "\n"@, m);
                        assert(o2 + "\n"@ =~= o + "</big></b>\n"@);
                    },
                    MdTag::Paragraph | MdTag::Item | MdTag::List => {
                        assert(m0 =~= m);
                        lemma_extend_text(o, "\n"@, m);
                    },
                    MdTag::Other => {
                        assert(m0 =~= m);
                    },
                }
            },
            MdItem::Text(_) => {
                let u = ps.used as int;
                assert(payloads(items).len() == u + 1);
                lemma_extend_text(o, escaped[u], m0);
            },
            MdItem::Code(_) => {
                let u = ps.used as int;
                assert(payloads(items).len() == u + 1);
                lemma_extend_open(o, PangoTag::Mono, m0);
                let o1 = o + "<tt>"@;
                lemma_extend_text(o1, escaped[u], m0.push(PangoTag::Mono));
                lemma_extend_close(o1 + escaped[u], PangoTag::Mono, m0);
            },
            MdItem::SoftBreak | MdItem::HardBreak => {
                if ps.in_code {
                    lemma_extend_text(o, "\n"@, m0);
                } else {
                    lemma_extend_text(o, " "@, m0);
                }
            },
            MdItem::Other => {},
        }
    }
}

/// The markup is well formed: when the events are balanced and no escaped
/// text holds an angle bracket, every `<` of the markup begins one of the
/// tags `<b>`, `<i>`, `<tt>`, `<big>` or their closing tags, every closing
/// tag closes the innermost open one, and no tag is left open.
pub proof fn lemma_markup_well_formed(items: Seq<MdItem>, escaped: Seq<Seq<char>>)
    requires
        balanced(items),
        escaped.len() == payloads(items).len(),
        forall|k: int| 0 <= k < escaped.len() ==> angle_free(#[trigger] escaped[k]),
    ensures
        scan(pango_markup(items, escaped), Seq::empty()) == Some(Seq::<PangoTag>::empty()),
{
    lemma_markup_state(items, escaped);
    assert(open_markup(Seq::<MdTag>::empty()) =~= Seq::<PangoTag>::empty());
}

} // verus!
