//! Markdown document parser: reads the event stream of pulldown-cmark and
//! extracts swatch entries grouped under headings.
//!
//! Colour tokens are taken from inline code spans inside list items
//! (`- **Red** — \`#E53935\``); the plain text of the item becomes the swatch
//! name.
use vstd::prelude::*;
use pulldown_cmark::{Event, Options, Parser, Tag, TagEnd};
use crate::token::{hex_string, rgba_of, scan, scan_color, ColorScan, ColorValue, ColorView, ScanView};
use crate::text::{chars_of, is_whitespace, is_ws, push_char, push_str, string_of, trim, trim_seq};

verus! {

// ── Events ───────────────────────────────────────────────────────────────────

/// The part of a Markdown event that swatch extraction reads.
#[derive(Debug, Clone, PartialEq)]
pub enum MdEvent {
    HeadingStart,
    HeadingEnd,
    ItemStart,
    ItemEnd,
    /// The end of a paragraph.
    ParagraphEnd,
    Code(String),
    Text(String),
    /// A soft or hard line break.
    LineBreak,
    /// Any other event (paragraph starts, emphasis, links, tables, ...).
    Other,
}

/// The mathematical content of an `MdEvent`.
pub enum MdEventView {
    HeadingStart,
    HeadingEnd,
    ItemStart,
    ItemEnd,
    ParagraphEnd,
    Code(Seq<char>),
    Text(Seq<char>),
    LineBreak,
    Other,
}

impl View for MdEvent {
    type V = MdEventView;

    open spec fn view(&self) -> MdEventView {
        match self {
            MdEvent::HeadingStart => MdEventView::HeadingStart,
            MdEvent::HeadingEnd => MdEventView::HeadingEnd,
            MdEvent::ItemStart => MdEventView::ItemStart,
            MdEvent::ItemEnd => MdEventView::ItemEnd,
            MdEvent::ParagraphEnd => MdEventView::ParagraphEnd,
            MdEvent::Code(t) => MdEventView::Code(t@),
            MdEvent::Text(t) => MdEventView::Text(t@),
            MdEvent::LineBreak => MdEventView::LineBreak,
            MdEvent::Other => MdEventView::Other,
        }
    }
}

/// The events of a sequence of `MdEvent`s.
pub open spec fn event_views(events: Seq<MdEvent>) -> Seq<MdEventView> {
    events.map_values(|e: MdEvent| e@)
}

/// The event stream pulldown-cmark produces for `markdown` with
/// strikethrough and tables enabled.
pub uninterp spec fn cmark_events(markdown: Seq<char>) -> Seq<MdEventView>;

/// Runs `pulldown_cmark::Parser::new_ext` (strikethrough and tables enabled)
/// over `markdown` and keeps, of each event, what swatch extraction reads.
/// The contract names the event stream and says nothing of its shape.
#[verifier::external_body]
fn cmark_parse(markdown: &str) -> (events: Vec<MdEvent>)
    ensures
        event_views(events@) == cmark_events(markdown@),
{
    let mut events = Vec::new();
    for event in Parser::new_ext(markdown, Options::ENABLE_STRIKETHROUGH | Options::ENABLE_TABLES) {
        events.push(match event {
            Event::Start(Tag::Heading { .. }) => MdEvent::HeadingStart,
            Event::End(TagEnd::Heading(_)) => MdEvent::HeadingEnd,
            Event::Start(Tag::Item) => MdEvent::ItemStart,
            Event::End(TagEnd::Item) => MdEvent::ItemEnd,
            Event::End(TagEnd::Paragraph) => MdEvent::ParagraphEnd,
            Event::Code(text) => MdEvent::Code(text.to_string()),
            Event::Text(text) => MdEvent::Text(text.to_string()),
            Event::SoftBreak | Event::HardBreak => MdEvent::LineBreak,
            _ => MdEvent::Other,
        });
    }
    events
}

/// The Markdown events of `markdown`, as pulldown-cmark reports them.
pub fn markdown_events(markdown: &str) -> (events: Vec<MdEvent>)
    ensures
        event_views(events@) == cmark_events(markdown@),
{
    cmark_parse(markdown)
}

// ── Document ─────────────────────────────────────────────────────────────────

/// A single named colour entry extracted from the document.
#[derive(Debug, Clone)]
pub struct SwatchEntry {
    pub name: String,
    pub color: ColorValue,
}

/// A headed group of colour swatches.
#[derive(Debug, Clone)]
pub struct Section {
    pub heading: String,
    pub swatches: Vec<SwatchEntry>,
}

/// The full parsed representation of a Markdown binder document.
#[derive(Debug, Clone)]
pub struct Document {
    pub sections: Vec<Section>,
}

/// The mathematical content of a `SwatchEntry`.
pub struct SwatchView {
    pub name: Seq<char>,
    pub color: ColorView,
}

/// The mathematical content of a `Section`.
pub struct SectionView {
    pub heading: Seq<char>,
    pub swatches: Seq<SwatchView>,
}

impl View for SwatchEntry {
    type V = SwatchView;

    open spec fn view(&self) -> SwatchView {
        SwatchView { name: self.name@, color: self.color@ }
    }
}

impl View for Section {
    type V = SectionView;

    open spec fn view(&self) -> SectionView {
        SectionView { heading: self.heading@, swatches: self.swatches@.map_values(|e: SwatchEntry| e@) }
    }
}

impl View for Document {
    type V = Seq<SectionView>;

    open spec fn view(&self) -> Seq<SectionView> {
        self.sections@.map_values(|s: Section| s@)
    }
}

impl Default for Section {
    fn default() -> (s: Self)
        ensures
            s@.heading.len() == 0,
            s@.swatches.len() == 0,
    {
        Section { heading: String::new(), swatches: Vec::new() }
    }
}

impl Default for Document {
    fn default() -> (d: Self)
        ensures
            d@.len() == 0,
    {
        Document { sections: Vec::new() }
    }
}

/// Every swatch of `sections`, in document order.
pub open spec fn flatten_swatches(sections: Seq<SectionView>) -> Seq<SwatchView>
    decreases sections.len(),
{
    if sections.len() == 0 {
        seq![]
    } else {
        flatten_swatches(sections.drop_last()) + sections.last().swatches
    }
}

impl Document {
    /// Every swatch in the document, regardless of section, in order.
    pub fn all_swatches(&self) -> (r: Vec<&SwatchEntry>)
        ensures
            r@.map_values(|e: &SwatchEntry| e@) == flatten_swatches(self@),
    {
        let mut r: Vec<&SwatchEntry> = Vec::new();
        let mut i: usize = 0;
        while i < self.sections.len()
            invariant
                i <= self.sections.len(),
                r@.map_values(|e: &SwatchEntry| e@) == flatten_swatches(self@.take(i as int)),
            decreases self.sections.len() - i,
        {
            let section = &self.sections[i];
            let ghost before = r@.map_values(|e: &SwatchEntry| e@);
            let mut j: usize = 0;
            while j < section.swatches.len()
                invariant
                    j <= section.swatches.len(),
                    i < self.sections.len(),
                    section == &self.sections@[i as int],
                    r@.map_values(|e: &SwatchEntry| e@) == before + section@.swatches.take(j as int),
                decreases section.swatches.len() - j,
            {
                let ghost prev = r@;
                r.push(&section.swatches[j]);
                assert(r@ == prev.push(&section.swatches@[j as int]));
                assert(section@.swatches.take(j + 1) =~= section@.swatches.take(j as int).push(
                    section.swatches@[j as int]@,
                ));
                assert(r@.map_values(|e: &SwatchEntry| e@) =~= prev.map_values(
                    |e: &SwatchEntry| e@,
                ).push(section.swatches@[j as int]@));
                j = j + 1;
            }
            assert(section@.swatches.take(j as int) =~= section@.swatches);
            assert(self@.take(i + 1).drop_last() =~= self@.take(i as int));
            i = i + 1;
        }
        assert(self@.take(i as int) =~= self@);
        r
    }
}

// ── Labels ───────────────────────────────────────────────────────────────────

/// `s` without any `*` or `_` (Markdown emphasis markers).
pub open spec fn without_emphasis(s: Seq<char>) -> Seq<char>
    decreases s.len(),
{
    if s.len() == 0 {
        seq![]
    } else if s.last() == '*' || s.last() == '_' {
        without_emphasis(s.drop_last())
    } else {
        without_emphasis(s.drop_last()).push(s.last())
    }
}

/// A character a label may not end with: an em dash, a hyphen, a colon or
/// whitespace.
pub open spec fn is_label_tail(c: char) -> bool {
    c == '—' || c == '-' || c == ':' || is_ws(c)
}

/// `s` without trailing label-tail characters.
pub open spec fn trim_label_tail(s: Seq<char>) -> Seq<char>
    decreases s.len(),
{
    if s.len() > 0 && is_label_tail(s.last()) {
        trim_label_tail(s.drop_last())
    } else {
        s
    }
}

/// A list item's text as a swatch name: emphasis markers dropped, trimmed, and
/// trailing dashes, colons and whitespace removed.
pub open spec fn clean_label(s: Seq<char>) -> Seq<char> {
    trim_seq(trim_label_tail(trim_seq(without_emphasis(s))))
}

fn strip_emphasis(v: &Vec<char>) -> (r: Vec<char>)
    ensures
        r@ == without_emphasis(v@),
{
    let mut r: Vec<char> = Vec::new();
    let mut i: usize = 0;
    while i < v.len()
        invariant
            i <= v.len(),
            r@ == without_emphasis(v@.take(i as int)),
        decreases v.len() - i,
    {
        assert(v@.take(i + 1).drop_last() =~= v@.take(i as int));
        if v[i] != '*' && v[i] != '_' {
            r.push(v[i]);
        }
        i = i + 1;
    }
    assert(v@.take(v.len() as int) =~= v@);
    r
}

/// Strips Markdown emphasis syntax and trailing punctuation from a label.
fn clean_label_exec(s: &String) -> (r: Vec<char>)
    ensures
        r@ == clean_label(s@),
{
    let t = trim(&strip_emphasis(&chars_of(s.as_str())));
    let mut end = t.len();
    assert(t@.take(t.len() as int) =~= t@);
    while end > 0 && (t[end - 1] == '—' || t[end - 1] == '-' || t[end - 1] == ':'
        || is_whitespace(t[end - 1]))
        invariant
            end <= t.len(),
            trim_label_tail(t@) == trim_label_tail(t@.take(end as int)),
        decreases end,
    {
        assert(t@.take(end as int).drop_last() =~= t@.take(end - 1));
        end = end - 1;
    }
    proof {
        assert(t@.take(t.len() as int) =~= t@);
    }
    let mut kept: Vec<char> = Vec::new();
    let mut k: usize = 0;
    while k < end
        invariant
            k <= end <= t.len(),
            kept@ == t@.take(k as int),
        decreases end - k,
    {
        kept.push(t[k]);
        k = k + 1;
        assert(kept@ =~= t@.take(k as int));
    }
    trim(&kept)
}

// ── Extraction ───────────────────────────────────────────────────────────────

/// The extraction state between two events.
pub struct ParseState {
    /// Sections completed so far.
    pub sections: Seq<SectionView>,
    /// The heading of the section being filled.
    pub heading: Seq<char>,
    /// The swatches of the section being filled.
    pub swatches: Seq<SwatchView>,
    /// Inside a heading.
    pub in_heading: bool,
    /// Heading text read so far.
    pub heading_buf: Seq<char>,
    /// Plain text of the current list item.
    pub label: Seq<char>,
    /// The last colour found in the current list item, or since the last
    /// swatch outside list items.
    pub pending: Option<ColorView>,
    /// How many list items are open.
    pub depth: nat,
}

/// The state before the first event.
pub open spec fn initial_state() -> ParseState {
    ParseState {
        sections: seq![],
        heading: seq![],
        swatches: seq![],
        in_heading: false,
        heading_buf: seq![],
        label: seq![],
        pending: None,
        depth: 0,
    }
}

/// Adds the pending colour as a swatch named by the label, and starts a new
/// label.
pub open spec fn emit(st: ParseState) -> ParseState {
    match st.pending {
        Some(c) => ParseState {
            swatches: st.swatches.push(SwatchView { name: swatch_name(st.label, c), color: c }),
            label: seq![],
            pending: None,
            ..st
        },
        None => ParseState { label: seq![], ..st },
    }
}

/// Outside list items, a colour found in inline code becomes a swatch when its
/// block ends.
pub open spec fn settle(st: ParseState) -> ParseState {
    if st.depth == 0 {
        emit(st)
    } else {
        st
    }
}

/// Closes the current section, once a pending colour outside list items is
/// added, when it has a heading or a swatch.
pub open spec fn flush(st0: ParseState) -> ParseState {
    let st = settle(st0);
    if st.heading.len() > 0 || st.swatches.len() > 0 {
        ParseState {
            sections: st.sections.push(SectionView { heading: st.heading, swatches: st.swatches }),
            heading: seq![],
            swatches: seq![],
            ..st
        }
    } else {
        st
    }
}

/// The colour an inline code span stands for: what `scan` resolves, or, for
/// the forms `scan` leaves to numeric evaluation, the caller's `resolved`
/// value.
pub open spec fn code_color(text: Seq<char>, resolved: Option<ColorView>) -> Option<ColorView> {
    match scan(text) {
        Some(ScanView::Ready(c)) => Some(c),
        Some(_) => resolved,
        None => None,
    }
}

/// The name a finished list item gives its swatch: its cleaned label, or the
/// colour's hex string when the label is empty.
pub open spec fn swatch_name(label: Seq<char>, c: ColorView) -> Seq<char> {
    if clean_label(label).len() == 0 {
        hex_string(rgba_of(c))
    } else {
        clean_label(label)
    }
}

/// One event of extraction.
pub open spec fn step(st: ParseState, ev: MdEventView, resolved: Option<ColorView>) -> ParseState {
    match ev {
        MdEventView::HeadingStart => ParseState {
            in_heading: true,
            heading_buf: seq![],
            ..flush(st)
        },
        MdEventView::HeadingEnd => ParseState {
            in_heading: false,
            heading: trim_seq(st.heading_buf),
            heading_buf: seq![],
            ..st
        },
        MdEventView::ItemStart => ParseState {
            label: seq![],
            pending: None,
            depth: st.depth + 1,
            ..st
        },
        MdEventView::ItemEnd => ParseState {
            depth: if st.depth > 0 {
                (st.depth - 1) as nat
            } else {
                0
            },
            ..emit(st)
        },
        MdEventView::ParagraphEnd => settle(st),
        MdEventView::Code(t) => if st.in_heading {
            ParseState { heading_buf: st.heading_buf + t, ..st }
        } else {
            match code_color(t, resolved) {
                Some(c) => ParseState { pending: Some(c), ..st },
                None => ParseState { label: st.label + t, ..st },
            }
        },
        MdEventView::Text(t) => if st.in_heading {
            ParseState { heading_buf: st.heading_buf + t, ..st }
        } else {
            ParseState { label: st.label + t, ..st }
        },
        MdEventView::LineBreak => if st.in_heading {
            st
        } else {
            ParseState { label: st.label.push(' '), ..st }
        },
        MdEventView::Other => st,
    }
}

/// The state after the first `n` events.
pub open spec fn run(
    events: Seq<MdEventView>,
    resolved: Seq<Option<ColorView>>,
    n: nat,
) -> ParseState
    decreases n,
{
    if n == 0 {
        initial_state()
    } else {
        step(run(events, resolved, (n - 1) as nat), events[n - 1], resolved[n - 1])
    }
}

/// The sections extracted from a whole event stream.
pub open spec fn parse_sections(
    events: Seq<MdEventView>,
    resolved: Seq<Option<ColorView>>,
) -> Seq<SectionView> {
    flush(run(events, resolved, events.len())).sections
}

/// The optional colour values held by a vector.
pub open spec fn color_views(v: Seq<Option<ColorValue>>) -> Seq<Option<ColorView>> {
    v.map_values(
        |c: Option<ColorValue>|
            match c {
                Some(x) => Some(x@),
                None => None,
            },
    )
}

/// The state of the extraction loop, as executable values.
struct Extractor {
    sections: Vec<Section>,
    heading: String,
    swatches: Vec<SwatchEntry>,
    in_heading: bool,
    heading_buf: String,
    label: String,
    pending: Option<ColorValue>,
    depth: usize,
}

impl Extractor {
    spec fn state(&self) -> ParseState {
        ParseState {
            sections: self.sections@.map_values(|s: Section| s@),
            heading: self.heading@,
            swatches: self.swatches@.map_values(|e: SwatchEntry| e@),
            in_heading: self.in_heading,
            heading_buf: self.heading_buf@,
            label: self.label@,
            pending: match self.pending {
                Some(c) => Some(c@),
                None => None,
            },
            depth: self.depth as nat,
        }
    }

    fn emit(&mut self)
        ensures
            final(self).state() == emit(old(self).state()),
    {
        let mut pending: Option<ColorValue> = None;
        std::mem::swap(&mut pending, &mut self.pending);
        if let Some(color) = pending {
            let cleaned = clean_label_exec(&self.label);
            let name = if cleaned.len() == 0 {
                color.to_hex_string()
            } else {
                string_of(&cleaned)
            };
            let ghost before = self.swatches@.map_values(|e: SwatchEntry| e@);
            let entry = SwatchEntry { name, color };
            self.swatches.push(entry);
            assert(self.swatches@.map_values(|e: SwatchEntry| e@) =~= before.push(entry@));
        }
        self.label = String::new();
    }

    fn settle(&mut self)
        ensures
            final(self).state() == settle(old(self).state()),
    {
        if self.depth == 0 {
            self.emit();
        }
    }

    fn flush(&mut self)
        ensures
            final(self).state() == flush(old(self).state()),
    {
        self.settle();
        if !self.heading.as_str().is_empty() || self.swatches.len() > 0 {
            let mut heading = String::new();
            std::mem::swap(&mut heading, &mut self.heading);
            let mut swatches: Vec<SwatchEntry> = Vec::new();
            std::mem::swap(&mut swatches, &mut self.swatches);
            let ghost before = self.sections@.map_values(|s: Section| s@);
            let section = Section { heading, swatches };
            self.sections.push(section);
            assert(self.sections@.map_values(|s: Section| s@) =~= before.push(section@));
            assert(self.swatches@.map_values(|e: SwatchEntry| e@) =~= Seq::<SwatchView>::empty());
        }
    }

    fn step(&mut self, ev: &MdEvent, resolved: &Option<ColorValue>)
        requires
            old(self).depth < usize::MAX,
        ensures
            final(self).state() == step(
                old(self).state(),
                ev@,
                match resolved {
                    Some(x) => Some(x@),
                    None => None,
                },
            ),
    {
        match ev {
            MdEvent::HeadingStart => {
                self.flush();
                self.in_heading = true;
                self.heading_buf = String::new();
            },
            MdEvent::HeadingEnd => {
                self.in_heading = false;
                self.heading = string_of(&trim(&chars_of(self.heading_buf.as_str())));
                self.heading_buf = String::new();
            },
            MdEvent::ItemStart => {
                self.label = String::new();
                self.pending = None;
                self.depth = self.depth + 1;
            },
            MdEvent::ItemEnd => {
                self.emit();
                if self.depth > 0 {
                    self.depth = self.depth - 1;
                }
            },
            MdEvent::ParagraphEnd => {
                self.settle();
            },
            MdEvent::Code(text) => {
                if self.in_heading {
                    push_str(&mut self.heading_buf, text.as_str());
                } else {
                    let found = match scan_color(text.as_str()) {
                        Some(ColorScan::Ready(c)) => Some(c),
                        Some(_) => copy_color(resolved),
                        None => None,
                    };
                    match found {
                        Some(c) => {
                            self.pending = Some(c);
                        },
                        None => {
                            push_str(&mut self.label, text.as_str());
                        },
                    }
                }
            },
            MdEvent::Text(text) => {
                if self.in_heading {
                    push_str(&mut self.heading_buf, text.as_str());
                } else {
                    push_str(&mut self.label, text.as_str());
                }
            },
            MdEvent::LineBreak => {
                if !self.in_heading {
                    push_char(&mut self.label, ' ');
                }
            },
            MdEvent::Other => {},
        }
    }
}

proof fn lemma_step_depth(st: ParseState, ev: MdEventView, resolved: Option<ColorView>)
    ensures
        step(st, ev, resolved).depth <= st.depth + 1,
{
}

/// A copy of an optional colour.
fn copy_color(c: &Option<ColorValue>) -> (r: Option<ColorValue>)
    ensures
        match (r, c) {
            (Some(x), Some(y)) => x@ == y@,
            (None, None) => true,
            _ => false,
        },
{
    match c {
        Some(ColorValue::Rgba(r, g, b, a)) => Some(ColorValue::Rgba(*r, *g, *b, *a)),
        Some(ColorValue::Named(n)) => Some(ColorValue::Named(string_of(&chars_of(n.as_str())))),
        None => None,
    }
}

/// Extracts the swatch sections from a Markdown event stream.
///
/// `resolved[i]` is consulted only when event `i` is an inline code span
/// whose colour `scan_color` leaves to numeric evaluation (an `rgba` alpha or
/// an `hsl` form): it is that colour, or `None` when the numbers do not read.
/// Each list item yields a swatch when one of its code spans is a colour (the
/// last such span wins), named by the item's cleaned text or, failing that,
/// by the colour's hex string. Outside list items, bare inline colour code
/// yields a swatch in the same way when its paragraph ends (or, in another
/// block, when its section closes), named by the paragraph's text or the hex
/// string. Each heading starts a new section; a section is kept when it has a
/// heading or a swatch.
pub fn parse_events(events: &Vec<MdEvent>, resolved: &Vec<Option<ColorValue>>) -> (doc: Document)
    requires
        resolved.len() == events.len(),
    ensures
        doc@ == parse_sections(event_views(events@), color_views(resolved@)),
{
    let ghost evs = event_views(events@);
    let ghost res = color_views(resolved@);
    let mut x = Extractor {
        sections: Vec::new(),
        heading: String::new(),
        swatches: Vec::new(),
        in_heading: false,
        heading_buf: String::new(),
        label: String::new(),
        pending: None,
        depth: 0,
    };
    assert(x.state().sections =~= initial_state().sections);
    assert(x.state().swatches =~= initial_state().swatches);
    assert(x.state() == initial_state());
    let mut i: usize = 0;
    while i < events.len()
        invariant
            i <= events.len(),
            resolved.len() == events.len(),
            evs == event_views(events@),
            res == color_views(resolved@),
            x.state() == run(evs, res, i as nat),
            x.depth <= i,
        decreases events.len() - i,
    {
        proof {
            lemma_step_depth(run(evs, res, i as nat), evs[i as int], res[i as int]);
        }
        x.step(&events[i], &resolved[i]);
        i = i + 1;
    }
    x.flush();
    Document { sections: x.sections }
}

// ── Laws ─────────────────────────────────────────────────────────────────────

/// Every section has a heading or at least one swatch, and every swatch name
/// is non-empty.
pub open spec fn well_formed_sections(sections: Seq<SectionView>) -> bool {
    forall|k: int|
        0 <= k < sections.len() ==> {
            &&& (#[trigger] sections[k]).heading.len() > 0 || sections[k].swatches.len() > 0
            &&& forall|m: int|
                0 <= m < sections[k].swatches.len() ==> (#[trigger] sections[k].swatches[m]).name.len()
                    > 0
        }
}

/// The invariant of the extraction state.
pub open spec fn state_ok(st: ParseState) -> bool {
    &&& well_formed_sections(st.sections)
    &&& forall|m: int| 0 <= m < st.swatches.len() ==> (#[trigger] st.swatches[m]).name.len() > 0
}

proof fn lemma_swatch_name_nonempty(label: Seq<char>, c: ColorView)
    ensures
        swatch_name(label, c).len() > 0,
{
}

proof fn lemma_emit_ok(st: ParseState)
    requires
        state_ok(st),
    ensures
        state_ok(emit(st)),
        state_ok(settle(st)),
{
    if let Some(c) = st.pending {
        lemma_swatch_name_nonempty(st.label, c);
        let n = emit(st);
        assert forall|m: int| 0 <= m < n.swatches.len() implies (
        #[trigger] n.swatches[m]).name.len() > 0 by {
            if m < st.swatches.len() {
                assert(n.swatches[m] == st.swatches[m]);
            }
        }
    }
}

proof fn lemma_flush_ok(st0: ParseState)
    requires
        state_ok(st0),
    ensures
        state_ok(flush(st0)),
{
    lemma_emit_ok(st0);
    let st = settle(st0);
    let f = flush(st0);
    if st.heading.len() > 0 || st.swatches.len() > 0 {
        let sec = SectionView { heading: st.heading, swatches: st.swatches };
        assert forall|k: int| 0 <= k < f.sections.len() implies {
            &&& (#[trigger] f.sections[k]).heading.len() > 0 || f.sections[k].swatches.len() > 0
            &&& forall|m: int|
                0 <= m < f.sections[k].swatches.len() ==> (#[trigger] f.sections[k].swatches[m]).name.len()
                    > 0
        } by {
            if k < st.sections.len() {
                assert(f.sections[k] == st.sections[k]);
            } else {
                assert(f.sections[k] == sec);
            }
        }
    }
}

proof fn lemma_step_ok(st: ParseState, ev: MdEventView, resolved: Option<ColorView>)
    requires
        state_ok(st),
    ensures
        state_ok(step(st, ev, resolved)),
        state_ok(flush(st)),
{
    lemma_flush_ok(st);
    lemma_emit_ok(st);
}

proof fn lemma_run_ok(events: Seq<MdEventView>, resolved: Seq<Option<ColorView>>, n: nat)
    ensures
        state_ok(run(events, resolved, n)),
    decreases n,
{
    if n > 0 {
        lemma_run_ok(events, resolved, (n - 1) as nat);
        lemma_step_ok(run(events, resolved, (n - 1) as nat), events[n - 1], resolved[n - 1]);
    }
}

/// Whatever the event stream, every extracted section has a heading or a
/// swatch (empty sections are dropped), and every swatch has a non-empty name
/// (an item without text is named by its colour's hex string).
pub proof fn lemma_sections_well_formed(
    events: Seq<MdEventView>,
    resolved: Seq<Option<ColorView>>,
)
    ensures
        well_formed_sections(parse_sections(events, resolved)),
{
    lemma_run_ok(events, resolved, events.len());
    lemma_step_ok(run(events, resolved, events.len()), MdEventView::Other, None);
}

proof fn lemma_trim_label_tail_last(s: Seq<char>)
    ensures
        trim_label_tail(s).len() == 0 || !is_label_tail(trim_label_tail(s).last()),
    decreases s.len(),
{
    if s.len() > 0 && is_label_tail(s.last()) {
        lemma_trim_label_tail_last(s.drop_last());
    }
}

proof fn lemma_trim_start_keeps_last(s: Seq<char>)
    requires
        s.len() > 0,
        !is_ws(s.last()),
    ensures
        crate::text::trim_start_seq(s).len() > 0,
        crate::text::trim_start_seq(s).last() == s.last(),
    decreases s.len(),
{
    if is_ws(s[0]) {
        assert(s.len() > 1);
        assert(s.drop_first().last() == s.last());
        lemma_trim_start_keeps_last(s.drop_first());
    }
}

/// A swatch name never ends in an em dash, a hyphen, a colon or whitespace:
/// the cleaned label of any text is empty or ends in another character (the
/// item text `Primary: ` names its swatch `Primary`).
pub proof fn lemma_clean_label_tail(s: Seq<char>)
    ensures
        clean_label(s).len() == 0 || {
            let c = clean_label(s).last();
            c != '—' && c != '-' && c != ':' && !is_ws(c)
        },
{
    let y = trim_label_tail(trim_seq(without_emphasis(s)));
    lemma_trim_label_tail_last(trim_seq(without_emphasis(s)));
    if y.len() > 0 {
        lemma_trim_start_keeps_last(y);
        let t = crate::text::trim_start_seq(y);
        assert(crate::text::trim_end_seq(t) == t);
    } else {
        assert(crate::text::trim_start_seq(y) == y);
        assert(crate::text::trim_end_seq(y) == y);
    }
}

} // verus!

