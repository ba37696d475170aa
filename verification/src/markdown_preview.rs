//! The Markdown preview: the parser's events are turned into the library's
//! own preview events, made safe (raw HTML shown as text, unsafe link and
//! image destinations replaced), the note's own title heading suppressed,
//! footnotes numbered and gathered at the end, and the result written as
//! HTML.
use vstd::prelude::*;
use vstd::relations::{sorted_by, total_ordering};
use vstd::utf8::is_ascii_chars;
use crate::tag_rules::{lemma_insert_sorted, lemma_sorted_unique};
use crate::text::{
    ascii_lower, ascii_lowercase_chars, chars_of, occurs_at, seq_starts_with, str_equal, trim,
    trim_seq, trim_start_seq, trim_end_seq,
};
use pulldown_cmark::{CowStr, Event, HeadingLevel, LinkType, Options, Parser, Tag, TagEnd, html};

verus! {

broadcast use vstd::string::group_string_axioms;

#[verifier::external_type_specification]
#[verifier::external_body]
pub struct ExEvent<'a>(pulldown_cmark::Event<'a>);

#[verifier::external_type_specification]
#[verifier::external_body]
pub struct ExOptions(pulldown_cmark::Options);

// ---------------------------------------------------------------------------
// Escaping and URL safety
// ---------------------------------------------------------------------------

/// The HTML escape of one character.
pub open spec fn escaped_char(c: char) -> Seq<char> {
    if c == '&' {
        "&amp;"@
    } else if c == '<' {
        "&lt;"@
    } else if c == '>' {
        "&gt;"@
    } else if c == '"' {
        "&quot;"@
    } else if c == '\'' {
        "&#39;"@
    } else {
        seq![c]
    }
}

/// The text with `&`, `<`, `>`, `"` and `'` escaped for HTML.
pub open spec fn escaped(s: Seq<char>) -> Seq<char>
    decreases s.len(),
{
    if s.len() == 0 {
        Seq::empty()
    } else {
        escaped(s.drop_last()) + escaped_char(s.last())
    }
}

/// A character that would start or end markup, or an attribute value.
pub open spec fn is_markup_char(c: char) -> bool {
    c == '<' || c == '>' || c == '"' || c == '\''
}

/// Escaped text holds no character that starts or ends markup or an
/// attribute value, so it always reads as text.
pub proof fn lemma_escaped_is_inert(s: Seq<char>)
    ensures
        forall|i: int| 0 <= i < escaped(s).len() ==> !is_markup_char(#[trigger] escaped(s)[i]),
    decreases s.len(),
{
    reveal_strlit("&amp;");
    reveal_strlit("&lt;");
    reveal_strlit("&gt;");
    reveal_strlit("&quot;");
    reveal_strlit("&#39;");
    if s.len() > 0 {
        lemma_escaped_is_inert(s.drop_last());
        let prev = escaped(s.drop_last());
        let tail = escaped_char(s.last());
        assert forall|i: int| 0 <= i < escaped(s).len() implies !is_markup_char(
            #[trigger] escaped(s)[i],
        ) by {
            if i < prev.len() {
                assert(escaped(s)[i] == prev[i]);
            } else {
                assert(escaped(s)[i] == tail[i - prev.len()]);
            }
        }
    }
}

/// Escapes a text for HTML.
pub fn escape_html(input: &str) -> (r: String)
    ensures
        r@ == escaped(input@),
{
    proof {
        reveal_strlit("&amp;");
        reveal_strlit("&lt;");
        reveal_strlit("&gt;");
        reveal_strlit("&quot;");
        reveal_strlit("&#39;");
    }
    let v = chars_of(input);
    let mut r = String::new();
    let mut i: usize = 0;
    while i < v.len()
        invariant
            i <= v.len(),
            v@ == input@,
            r@ == escaped(v@.take(i as int)),
        decreases v.len() - i,
    {
        proof {
            assert(v@.take(i + 1).drop_last() =~= v@.take(i as int));
            assert(v@.take(i + 1).last() == v@[i as int]);
        }
        let c = v[i];
        if c == '&' {
            r.append("&amp;");
        } else if c == '<' {
            r.append("&lt;");
        } else if c == '>' {
            r.append("&gt;");
        } else if c == '"' {
            r.append("&quot;");
        } else if c == '\'' {
            r.append("&#39;");
        } else {
            crate::text::push_char(&mut r, c);
            assert(r@ =~= escaped(v@.take(i as int)) + seq![c]);
        }
        i += 1;
    }
    assert(v@.take(i as int) =~= v@);
    r
}

/// Destinations the preview follows: web and mail links, in-page anchors
/// and relative paths (compared case-insensitively, after trimming); an
/// empty destination is harmless.
pub open spec fn safe_url(url: Seq<char>) -> bool {
    let t = trim_seq(url);
    let n = ascii_lower(t);
    t.len() == 0 || seq_starts_with(n, "http://"@) || seq_starts_with(n, "https://"@)
        || seq_starts_with(n, "mailto:"@) || seq_starts_with(n, "#"@) || seq_starts_with(n, "/"@)
        || seq_starts_with(n, "./"@) || seq_starts_with(n, "../"@)
}

fn starts_with_str(hay: &Vec<char>, prefix: &str) -> (r: bool)
    ensures
        r == seq_starts_with(hay@, prefix@),
{
    let p = chars_of(prefix);
    crate::text::starts_with_chars(hay, &p)
}

/// Whether the preview may keep a link or image destination.
pub fn is_safe_url(url: &str) -> (r: bool)
    ensures
        r == safe_url(url@),
{
    let t = trim(url);
    let tv = chars_of(t.as_str());
    if tv.len() == 0 {
        return true;
    }
    let n = ascii_lowercase_chars(&tv);
    starts_with_str(&n, "http://") || starts_with_str(&n, "https://") || starts_with_str(
        &n,
        "mailto:",
    ) || starts_with_str(&n, "#") || starts_with_str(&n, "/") || starts_with_str(&n, "./")
        || starts_with_str(&n, "../")
}

/// E-mail autolinks are always kept; other destinations when safe.
pub open spec fn safe_markdown_url(is_email: bool, url: Seq<char>) -> bool {
    is_email || safe_url(url)
}

pub fn is_safe_markdown_url(is_email: bool, url: &str) -> (r: bool)
    ensures
        r == safe_markdown_url(is_email, url@),
{
    is_email || is_safe_url(url)
}

/// A destination on another host (web, or protocol-relative `//`), compared
/// case-insensitively after trimming.
pub open spec fn remote_url(url: Seq<char>) -> bool {
    let n = ascii_lower(trim_seq(url));
    seq_starts_with(n, "http://"@) || seq_starts_with(n, "https://"@) || seq_starts_with(
        n,
        "//"@,
    )
}

/// Images the preview may load: safe destinations that are not remote, so
/// that remote images are blocked.
pub open spec fn safe_image_url(url: Seq<char>) -> bool {
    safe_url(url) && !remote_url(url)
}

/// A link keeps a safe destination; an image only a safe local one.
pub open spec fn safe_destination(is_image: bool, is_email: bool, url: Seq<char>) -> bool {
    if is_image {
        safe_image_url(url)
    } else {
        safe_markdown_url(is_email, url)
    }
}

/// Whether a destination is on another host.
pub fn is_remote_url(url: &str) -> (r: bool)
    ensures
        r == remote_url(url@),
{
    let t = trim(url);
    let tv = chars_of(t.as_str());
    let n = ascii_lowercase_chars(&tv);
    starts_with_str(&n, "http://") || starts_with_str(&n, "https://") || starts_with_str(&n, "//")
}

/// Whether the preview may keep a link's or an image's destination.
pub fn is_safe_destination(is_image: bool, is_email: bool, url: &str) -> (r: bool)
    ensures
        r == safe_destination(is_image, is_email, url@),
{
    if is_image {
        is_safe_url(url) && !is_remote_url(url)
    } else {
        is_safe_markdown_url(is_email, url)
    }
}

/// Elements the sanitiser removes: active content, and inputs other than
/// task-list checkboxes (tags compared case-insensitively).
pub open spec fn removed_element(tag: Seq<char>, input_type: Option<Seq<char>>) -> bool {
    let t = ascii_lower(tag);
    t == "script"@ || t == "style"@ || t == "iframe"@ || t == "object"@ || t == "embed"@ || t
        == "link"@ || t == "meta"@ || (t == "input"@ && input_type != Some("checkbox"@))
}

fn lower(s: &str) -> (r: Vec<char>)
    ensures
        r@ == ascii_lower(s@),
{
    let v = chars_of(s);
    ascii_lowercase_chars(&v)
}

fn chars_eq_str(a: &Vec<char>, b: &str) -> (r: bool)
    ensures
        r == (a@ == b@),
{
    let bv = chars_of(b);
    crate::text::chars_equal(a, &bv)
}

pub fn should_remove_element(tag: &str, input_type: Option<&str>) -> (r: bool)
    ensures
        r == removed_element(
            tag@,
            match input_type {
                Some(t) => Some(t@),
                None => None,
            },
        ),
{
    let t = lower(tag);
    if chars_eq_str(&t, "script") || chars_eq_str(&t, "style") || chars_eq_str(&t, "iframe")
        || chars_eq_str(&t, "object") || chars_eq_str(&t, "embed") || chars_eq_str(&t, "link")
        || chars_eq_str(&t, "meta") {
        return true;
    }
    if !chars_eq_str(&t, "input") {
        return false;
    }
    match input_type {
        Some(it) => !str_equal(it, "checkbox"),
        None => true,
    }
}

/// Attributes the sanitiser removes: event handlers, inline styles,
/// `srcdoc`, and unsafe `href`/`src` values (names compared
/// case-insensitively).
pub open spec fn removed_attribute(attr_name: Seq<char>, attr_value: Option<Seq<char>>) -> bool {
    let n = ascii_lower(attr_name);
    seq_starts_with(n, "on"@) || n == "style"@ || n == "srcdoc"@ || ((n == "href"@ || n
        == "src"@) && match attr_value {
        Some(v) => !safe_url(v),
        None => false,
    })
}

pub fn should_remove_attribute(tag: &str, attr_name: &str, attr_value: Option<&str>) -> (r: bool)
    ensures
        r == removed_attribute(
            attr_name@,
            match attr_value {
                Some(v) => Some(v@),
                None => None,
            },
        ),
{
    let n = lower(attr_name);
    if starts_with_str(&n, "on") || chars_eq_str(&n, "style") || chars_eq_str(&n, "srcdoc") {
        return true;
    }
    if chars_eq_str(&n, "href") || chars_eq_str(&n, "src") {
        match attr_value {
            Some(v) => !is_safe_url(v),
            None => false,
        }
    } else {
        false
    }
}

/// Links that open elsewhere get `rel="noopener noreferrer"`.
pub fn link_rel_for_target(tag: &str, attr_name: &str) -> (r: Option<&'static str>)
    ensures
        r matches Some(v) ==> v@ == "noopener noreferrer"@,
        r is Some <==> (ascii_lower(tag@) == "a"@ && ascii_lower(attr_name@) == "target"@),
{
    let t = lower(tag);
    let n = lower(attr_name);
    if chars_eq_str(&t, "a") && chars_eq_str(&n, "target") {
        Some("noopener noreferrer")
    } else {
        None
    }
}

// ---------------------------------------------------------------------------
// Preview events
// ---------------------------------------------------------------------------

/// What the preview reads of a parser event. Events it does not look into
/// keep the parser's event, which is written back unchanged.
#[derive(Debug)]
pub enum PreviewEvent {
    Text(String),
    Code(String),
    Html(String),
    InlineHtml(String),
    FootnoteReference(String),
    FootnoteStart(String),
    FootnoteEnd,
    HeadingOneStart(Event<'static>),
    HeadingOneEnd,
    /// The start of a link or an image: whether it is an image, whether it is
    /// an e-mail autolink, its destination, and the parser's event.
    Destination { is_image: bool, is_email: bool, url: String, source: Event<'static> },
    Other(Event<'static>),
}

/// A preview event as mathematical values.
pub enum EventView {
    Text(Seq<char>),
    Code(Seq<char>),
    Html(Seq<char>),
    InlineHtml(Seq<char>),
    FootnoteReference(Seq<char>),
    FootnoteStart(Seq<char>),
    FootnoteEnd,
    HeadingOneStart(Event<'static>),
    HeadingOneEnd,
    Destination(bool, bool, Seq<char>, Event<'static>),
    Other(Event<'static>),
}

pub open spec fn event_view(e: PreviewEvent) -> EventView {
    match e {
        PreviewEvent::Text(s) => EventView::Text(s@),
        PreviewEvent::Code(s) => EventView::Code(s@),
        PreviewEvent::Html(s) => EventView::Html(s@),
        PreviewEvent::InlineHtml(s) => EventView::InlineHtml(s@),
        PreviewEvent::FootnoteReference(s) => EventView::FootnoteReference(s@),
        PreviewEvent::FootnoteStart(s) => EventView::FootnoteStart(s@),
        PreviewEvent::FootnoteEnd => EventView::FootnoteEnd,
        PreviewEvent::HeadingOneStart(e) => EventView::HeadingOneStart(e),
        PreviewEvent::HeadingOneEnd => EventView::HeadingOneEnd,
        PreviewEvent::Destination { is_image, is_email, url, source } => EventView::Destination(
            is_image,
            is_email,
            url@,
            source,
        ),
        PreviewEvent::Other(e) => EventView::Other(e),
    }
}

pub open spec fn events_view(v: Seq<PreviewEvent>) -> Seq<EventView> {
    v.map_values(|e: PreviewEvent| event_view(e))
}

/// Raw HTML written in a note is shown as text.
pub open spec fn shown_as_text(e: EventView) -> EventView {
    match e {
        EventView::Html(s) => EventView::Text(s),
        EventView::InlineHtml(s) => EventView::Text(s),
        _ => e,
    }
}

/// An unsafe link or image destination is replaced by `#`.
pub open spec fn made_safe(e: EventView) -> EventView {
    match e {
        EventView::Destination(is_image, is_email, url, source) => if safe_destination(
            is_image,
            is_email,
            url,
        ) {
            e
        } else {
            EventView::Destination(is_image, is_email, "#"@, source)
        },
        _ => e,
    }
}

/// The events made safe one by one.
pub open spec fn sanitized(evs: Seq<EventView>) -> Seq<EventView> {
    evs.map_values(|e: EventView| made_safe(shown_as_text(e)))
}

/// The placeholder destination is itself safe.
proof fn lemma_placeholder_is_safe()
    ensures
        safe_url("#"@),
        !remote_url("#"@),
{
    reveal_strlit("#");
    reveal_strlit("http://");
    reveal_strlit("https://");
    reveal_strlit("//");
    let h = "#"@;
    assert(h =~= seq!['#']);
    assert(trim_start_seq(h) == h);
    assert(trim_end_seq(h) == h);
    assert(trim_seq(h) == h);
    assert(crate::text::ascii_lower_char('#') == '#');
    assert(ascii_lower(h)[0] == '#');
    assert(ascii_lower(h) =~= h);
    assert(h.subrange(0, 1) =~= h);
    assert(occurs_at(ascii_lower(trim_seq(h)), "#"@, 0));
}

/// After sanitising, no event carries raw HTML, every link destination is
/// safe, and every image destination is safe and local: the note's own
/// markup reaches the preview only as text, and remote images are blocked.
pub proof fn lemma_sanitized_is_safe(evs: Seq<EventView>)
    ensures
        forall|i: int|
            0 <= i < sanitized(evs).len() ==> {
                &&& !(#[trigger] sanitized(evs)[i] is Html)
                &&& !(sanitized(evs)[i] is InlineHtml)
                &&& (sanitized(evs)[i] matches EventView::Destination(false, is_email, url, _)
                    ==> safe_markdown_url(is_email, url))
                &&& (sanitized(evs)[i] matches EventView::Destination(true, _, url, _)
                    ==> safe_image_url(url) && !remote_url(url))
            },
{
    lemma_placeholder_is_safe();
}

fn sanitize_event(e: PreviewEvent) -> (r: PreviewEvent)
    ensures
        event_view(r) == made_safe(shown_as_text(event_view(e))),
{
    proof {
        reveal_strlit("#");
    }
    match e {
        PreviewEvent::Html(s) => PreviewEvent::Text(s),
        PreviewEvent::InlineHtml(s) => PreviewEvent::Text(s),
        PreviewEvent::Destination { is_image, is_email, url, source } => {
            if is_safe_destination(is_image, is_email, url.as_str()) {
                PreviewEvent::Destination { is_image, is_email, url, source }
            } else {
                PreviewEvent::Destination {
                    is_image,
                    is_email,
                    url: String::from_str("#"),
                    source,
                }
            }
        },
        other => other,
    }
}

// ---------------------------------------------------------------------------
// The note's own title heading
// ---------------------------------------------------------------------------

/// The first position, from `k`, of the end of a level-one heading.
pub open spec fn first_heading_end_from(evs: Seq<EventView>, k: int) -> Option<int>
    decreases evs.len() - k,
{
    if k < 0 || k >= evs.len() {
        None
    } else if evs[k] is HeadingOneEnd {
        Some(k)
    } else {
        first_heading_end_from(evs, k + 1)
    }
}

/// The text and code between positions `lo` and `hi`, concatenated.
pub open spec fn heading_text(evs: Seq<EventView>, lo: int, hi: int) -> Seq<char>
    decreases hi - lo,
{
    if hi <= lo {
        Seq::empty()
    } else {
        heading_text(evs, lo, hi - 1) + match evs[hi - 1] {
            EventView::Text(t) => t,
            EventView::Code(t) => t,
            _ => Seq::empty(),
        }
    }
}

/// The events without a first level-one heading whose text (trimmed) is the
/// note's title (trimmed).
pub open spec fn without_title_heading(title: Seq<char>, evs: Seq<EventView>) -> Seq<EventView> {
    if evs.len() > 0 && evs[0] is HeadingOneStart {
        match first_heading_end_from(evs, 0) {
            Some(p) => if trim_seq(heading_text(evs, 1, p)) == trim_seq(title) {
                evs.skip(p + 1)
            } else {
                evs
            },
            None => evs,
        }
    } else {
        evs
    }
}

pub proof fn lemma_first_heading_end_from(evs: Seq<EventView>, k: int)
    requires
        0 <= k,
    ensures
        first_heading_end_from(evs, k) matches Some(p) ==> k <= p < evs.len(),
    decreases evs.len() - k,
{
    if k < evs.len() && !(evs[k] is HeadingOneEnd) {
        lemma_first_heading_end_from(evs, k + 1);
    }
}

fn is_heading_start(e: &PreviewEvent) -> (r: bool)
    ensures
        r == (event_view(*e) is HeadingOneStart),
{
    match e {
        PreviewEvent::HeadingOneStart(_) => true,
        _ => false,
    }
}

fn is_heading_end(e: &PreviewEvent) -> (r: bool)
    ensures
        r == (event_view(*e) is HeadingOneEnd),
{
    match e {
        PreviewEvent::HeadingOneEnd => true,
        _ => false,
    }
}

/// Drops a first level-one heading that repeats the note's title.
fn suppress_title_heading(title: &str, events: Vec<PreviewEvent>) -> (r: Vec<PreviewEvent>)
    ensures
        events_view(r@) == without_title_heading(title@, events_view(events@)),
{
    let ghost ev = events_view(events@);
    if events.len() == 0 || !is_heading_start(&events[0]) {
        return events;
    }
    assert(ev[0] == event_view(events@[0]));
    let mut p: usize = 0;
    while p < events.len() && !is_heading_end(&events[p])
        invariant
            p <= events.len(),
            ev == events_view(events@),
            first_heading_end_from(ev, 0) == first_heading_end_from(ev, p as int),
        decreases events.len() - p,
    {
        assert(ev[p as int] == event_view(events@[p as int]));
        p += 1;
    }
    if p == events.len() {
        return events;
    }
    assert(ev[p as int] == event_view(events@[p as int]));
    let mut text = String::new();
    let mut k: usize = 1;
    while k < p
        invariant
            1 <= k <= p < events.len(),
            ev == events_view(events@),
            text@ == heading_text(ev, 1, k as int),
        decreases p - k,
    {
        assert(ev[k as int] == event_view(events@[k as int]));
        match &events[k] {
            PreviewEvent::Text(t) => text.append(t.as_str()),
            PreviewEvent::Code(t) => text.append(t.as_str()),
            _ => {
                assert(text@ =~= heading_text(ev, 1, k + 1));
            },
        }
        k += 1;
    }
    let a = trim(text.as_str());
    let b = trim(title);
    if !str_equal(a.as_str(), b.as_str()) {
        return events;
    }
    let mut events = events;
    let out = events.split_off(p + 1);
    assert(events_view(out@) =~= ev.skip(p + 1));
    out
}

// ---------------------------------------------------------------------------
// Footnotes
// ---------------------------------------------------------------------------

/// The decimal digit for `d` (below ten).
pub open spec fn digit(d: nat) -> char {
    if d == 0 {
        '0'
    } else if d == 1 {
        '1'
    } else if d == 2 {
        '2'
    } else if d == 3 {
        '3'
    } else if d == 4 {
        '4'
    } else if d == 5 {
        '5'
    } else if d == 6 {
        '6'
    } else if d == 7 {
        '7'
    } else if d == 8 {
        '8'
    } else {
        '9'
    }
}

/// The decimal writing of a number.
pub open spec fn decimal(n: nat) -> Seq<char>
    decreases n,
{
    if n < 10 {
        seq![digit(n)]
    } else {
        decimal(n / 10).push(digit(n % 10))
    }
}

fn push_decimal(r: &mut String, n: usize)
    ensures
        final(r)@ == old(r)@ + decimal(n as nat),
    decreases n,
{
    if n >= 10 {
        push_decimal(r, n / 10);
    }
    let d = n % 10;
    let c = if d == 0 {
        '0'
    } else if d == 1 {
        '1'
    } else if d == 2 {
        '2'
    } else if d == 3 {
        '3'
    } else if d == 4 {
        '4'
    } else if d == 5 {
        '5'
    } else if d == 6 {
        '6'
    } else if d == 7 {
        '7'
    } else if d == 8 {
        '8'
    } else {
        '9'
    };
    crate::text::push_char(r, c);
}

/// The superscript link written for a footnote reference: its `count`-th
/// reference to footnote number `number`.
pub open spec fn reference_html(name: Seq<char>, count: nat, number: nat) -> Seq<char> {
    "<sup class=\"footnote-reference\" id=\"fr-"@ + escaped(name) + "-"@ + decimal(count)
        + "\"><a href=\"#fn-"@ + escaped(name) + "\">["@ + decimal(number) + "]</a></sup>"@
}

/// The events outside footnotes, the finished footnote definitions, the one
/// being read, and for each referenced name its number and how often it was
/// referenced.
pub struct FootnoteState {
    pub preview: Seq<EventView>,
    pub footnotes: Seq<Seq<EventView>>,
    pub current: Seq<EventView>,
    pub table: Seq<(Seq<char>, nat, nat)>,
}

/// The first entry of the table for a name, from `k`.
pub open spec fn find_entry_from(table: Seq<(Seq<char>, nat, nat)>, name: Seq<char>, k: int) -> Option<int>
    decreases table.len() - k,
{
    if k < 0 || k >= table.len() {
        None
    } else if table[k].0 == name {
        Some(k)
    } else {
        find_entry_from(table, name, k + 1)
    }
}

pub open spec fn find_entry(table: Seq<(Seq<char>, nat, nat)>, name: Seq<char>) -> Option<int> {
    find_entry_from(table, name, 0)
}

pub proof fn lemma_find_entry_from(table: Seq<(Seq<char>, nat, nat)>, name: Seq<char>, k: int)
    requires
        0 <= k,
    ensures
        find_entry_from(table, name, k) matches Some(i) ==> k <= i < table.len() && table[i].0
            == name,
    decreases table.len() - k,
{
    if k < table.len() && table[k].0 != name {
        lemma_find_entry_from(table, name, k + 1);
    }
}

/// The table after one more reference to `name`, with the reference's number
/// and count.
pub open spec fn referenced(table: Seq<(Seq<char>, nat, nat)>, name: Seq<char>) -> (
    Seq<(Seq<char>, nat, nat)>,
    nat,
    nat,
) {
    match find_entry(table, name) {
        Some(i) => (table.update(i, (name, table[i].1, table[i].2 + 1)), table[i].1, table[i].2 + 1),
        None => (table.push((name, (table.len() + 1) as nat, 1nat)), (table.len() + 1) as nat, 1nat),
    }
}

/// Reading one more event: footnote definitions are set aside, references
/// become numbered superscript links.
pub open spec fn footnote_step(st: FootnoteState, e: EventView) -> FootnoteState {
    match e {
        EventView::FootnoteStart(_) => FootnoteState { current: st.current.push(e), ..st },
        EventView::FootnoteEnd => if st.current.len() > 0 {
            FootnoteState {
                footnotes: st.footnotes.push(st.current.push(e)),
                current: Seq::empty(),
                ..st
            }
        } else {
            FootnoteState { preview: st.preview.push(e), ..st }
        },
        EventView::FootnoteReference(name) => {
            let (table, number, count) = referenced(st.table, name);
            let r = EventView::Html(reference_html(name, count, number));
            if st.current.len() == 0 {
                FootnoteState { preview: st.preview.push(r), table, ..st }
            } else {
                FootnoteState { current: st.current.push(r), table, ..st }
            }
        },
        _ => if st.current.len() > 0 {
            FootnoteState { current: st.current.push(e), ..st }
        } else {
            FootnoteState { preview: st.preview.push(e), ..st }
        },
    }
}

/// Reading all the events.
pub open spec fn footnote_pass(evs: Seq<EventView>) -> FootnoteState
    decreases evs.len(),
{
    if evs.len() == 0 {
        FootnoteState {
            preview: Seq::empty(),
            footnotes: Seq::empty(),
            current: Seq::empty(),
            table: Seq::empty(),
        }
    } else {
        footnote_step(footnote_pass(evs.drop_last()), evs.last())
    }
}

/// The number of the footnote definition `f`, when its name was referenced.
pub open spec fn definition_number(table: Seq<(Seq<char>, nat, nat)>, f: Seq<EventView>) -> Option<nat> {
    if f.len() > 0 {
        match f[0] {
            EventView::FootnoteStart(name) => match find_entry(table, name) {
                Some(i) => if table[i].2 > 0 {
                    Some(table[i].1)
                } else {
                    None
                },
                None => None,
            },
            _ => None,
        }
    } else {
        None
    }
}

/// The positions of the referenced definitions, in reading order.
pub open spec fn kept_positions(table: Seq<(Seq<char>, nat, nat)>, fs: Seq<Seq<EventView>>) -> Seq<int>
    decreases fs.len(),
{
    if fs.len() == 0 {
        Seq::empty()
    } else {
        let rest = kept_positions(table, fs.drop_last());
        if definition_number(table, fs.last()) is Some {
            rest.push(fs.len() - 1)
        } else {
            rest
        }
    }
}

/// Definitions by number, in reading order among equal numbers.
pub open spec fn footnote_order(table: Seq<(Seq<char>, nat, nat)>, fs: Seq<Seq<EventView>>) -> spec_fn(int, int) -> bool {
    |i: int, j: int| {
        let (a, b) = (
            definition_number(table, fs[i])->0 as int,
            definition_number(table, fs[j])->0 as int,
        );
        a < b || (a == b && i <= j)
    }
}

/// An event of a definition as written in the footnote list.
pub open spec fn rendered_event(e: EventView) -> EventView {
    match e {
        EventView::FootnoteStart(name) => EventView::Html("<li id=\"fn-"@ + escaped(name) + "\">"@),
        EventView::FootnoteEnd => EventView::Html("</li>\n"@),
        _ => e,
    }
}

/// A definition as list-item HTML around its content.
pub open spec fn rendered_footnote(f: Seq<EventView>) -> Seq<EventView> {
    f.map_values(|e: EventView| rendered_event(e))
}

/// The concatenation of event lists.
pub open spec fn flatten(ss: Seq<Seq<EventView>>) -> Seq<EventView>
    decreases ss.len(),
{
    if ss.len() == 0 {
        Seq::empty()
    } else {
        flatten(ss.drop_last()) + ss.last()
    }
}

/// The events with footnote references numbered and the referenced
/// definitions listed at the end, by number.
pub open spec fn with_footnotes(evs: Seq<EventView>) -> Seq<EventView> {
    let st = footnote_pass(evs);
    let base = st.preview + st.current;
    let order = kept_positions(st.table, st.footnotes).sort_by(
        footnote_order(st.table, st.footnotes),
    );
    if order.len() == 0 {
        base
    } else {
        base + seq![EventView::Html("<hr><ol class=\"footnotes-list\">\n"@)] + flatten(
            order.map_values(|k: int| rendered_footnote(st.footnotes[k])),
        ) + seq![EventView::Html("</ol>\n"@)]
    }
}

pub open spec fn table_view(t: Seq<(String, usize, usize)>) -> Seq<(Seq<char>, nat, nat)> {
    t.map_values(|e: (String, usize, usize)| (e.0@, e.1 as nat, e.2 as nat))
}

pub open spec fn lists_view(v: Seq<Vec<PreviewEvent>>) -> Seq<Seq<EventView>> {
    v.map_values(|f: Vec<PreviewEvent>| events_view(f@))
}

fn reversed<T>(items: Vec<T>) -> (r: Vec<T>)
    ensures
        r@ == items@.reverse(),
{
    let ghost orig = items@;
    let mut v = items;
    let mut r: Vec<T> = Vec::new();
    loop
        invariant
            orig == items@,
            orig.len() == v@.len() + r@.len(),
            v@ == orig.take(v@.len() as int),
            r@ == orig.skip(v@.len() as int).reverse(),
        decreases v@.len(),
    {
        let ghost before_v = v@;
        let ghost before_r = r@;
        match v.pop() {
            Some(e) => {
                r.push(e);
                proof {
                    let n = v@.len() as int;
                    assert(orig.take(n) =~= before_v.drop_last());
                    assert(orig.skip(n).reverse() =~= orig.skip(n + 1).reverse().push(orig[n]));
                }
            },
            None => {
                assert(orig.skip(0) =~= orig);
                return r;
            },
        }
    }
}

fn find_entry_exec(table: &Vec<(String, usize, usize)>, name: &str) -> (r: Option<usize>)
    ensures
        match r {
            Some(i) => find_entry(table_view(table@), name@) == Some(i as int) && i < table@.len(),
            None => find_entry(table_view(table@), name@) is None,
        },
{
    let ghost tv = table_view(table@);
    let mut k: usize = 0;
    while k < table.len()
        invariant
            k <= table.len(),
            tv == table_view(table@),
            find_entry(tv, name@) == find_entry_from(tv, name@, k as int),
        decreases table.len() - k,
    {
        assert(tv[k as int].0 == table@[k as int].0@);
        if str_equal(table[k].0.as_str(), name) {
            return Some(k);
        }
        k += 1;
    }
    None
}

fn reference_html_exec(name: &str, count: usize, number: usize) -> (r: String)
    ensures
        r@ == reference_html(name@, count as nat, number as nat),
{
    let e = escape_html(name);
    let mut r = String::from_str("<sup class=\"footnote-reference\" id=\"fr-");
    r.append(e.as_str());
    r.append("-");
    push_decimal(&mut r, count);
    r.append("\"><a href=\"#fn-");
    r.append(e.as_str());
    r.append("\">[");
    push_decimal(&mut r, number);
    r.append("]</a></sup>");
    r
}

spec fn state_of(
    preview: Seq<PreviewEvent>,
    footnotes: Seq<Vec<PreviewEvent>>,
    current: Seq<PreviewEvent>,
    table: Seq<(String, usize, usize)>,
) -> FootnoteState {
    FootnoteState {
        preview: events_view(preview),
        footnotes: lists_view(footnotes),
        current: events_view(current),
        table: table_view(table),
    }
}

spec fn table_bounded(table: Seq<(String, usize, usize)>, k: int) -> bool {
    table.len() <= k && forall|i: int| 0 <= i < table.len() ==> #[trigger] table[i].1 <= k && table[i].2 <= k
}

/// One reference more to `name`: its number and count, with the table updated.
fn reference(table: &mut Vec<(String, usize, usize)>, name: &str, Ghost(k): Ghost<int>) -> (r: (usize, usize))
    requires
        table_bounded(old(table)@, k),
        k < usize::MAX,
    ensures
        (table_view(final(table)@), r.0 as nat, r.1 as nat) == referenced(table_view(old(table)@), name@),
        table_bounded(final(table)@, k + 1),
{
    let ghost tv = table_view(table@);
    match find_entry_exec(table, name) {
        Some(i) => {
            let number = table[i].1;
            let count = table[i].2 + 1;
            let ghost before = table@;
            table.set(i, (String::from_str(name), number, count));
            proof {
                assert(table_view(table@) =~= tv.update(i as int, (name@, tv[i as int].1, tv[i as int].2 + 1)));
                assert forall|j: int| 0 <= j < table@.len() implies #[trigger] table@[j].1 <= k + 1 && table@[j].2 <= k + 1 by {
                    if j != i {
                        assert(table@[j] == before[j]);
                    }
                }
            }
            (number, count)
        },
        None => {
            let number = table.len() + 1;
            let ghost before = table@;
            table.push((String::from_str(name), number, 1));
            proof {
                assert(table_view(table@) =~= tv.push((name@, (tv.len() + 1) as nat, 1nat)));
                assert forall|j: int| 0 <= j < table@.len() implies #[trigger] table@[j].1 <= k + 1 && table@[j].2 <= k + 1 by {
                    if j < before.len() {
                        assert(table@[j] == before[j]);
                    }
                }
            }
            (number, 1)
        },
    }
}

type FootnoteParts = (Vec<PreviewEvent>, Vec<Vec<PreviewEvent>>, Vec<PreviewEvent>, Vec<(String, usize, usize)>);

fn is_nonempty(v: &Vec<PreviewEvent>) -> (r: bool)
    ensures
        r == (v@.len() > 0),
{
    v.len() > 0
}

/// Reads the events: numbers the references and sets the definitions aside.
#[verifier::loop_isolation(false)]
fn read_footnotes(events: Vec<PreviewEvent>) -> (r: FootnoteParts)
    ensures
        state_of(r.0@, r.1@, r.2@, r.3@) == footnote_pass(events_view(events@)),
{
    let ghost ev = events_view(events@);
    let n = events.len();
    let mut rev = reversed(events);
    let mut preview: Vec<PreviewEvent> = Vec::new();
    let mut footnotes: Vec<Vec<PreviewEvent>> = Vec::new();
    let mut current: Vec<PreviewEvent> = Vec::new();
    let mut table: Vec<(String, usize, usize)> = Vec::new();
    let mut k: usize = 0;
    proof {
        assert(ev.take(0) =~= Seq::<EventView>::empty());
        assert(events_view(preview@) =~= Seq::<EventView>::empty());
        assert(events_view(current@) =~= Seq::<EventView>::empty());
        assert(lists_view(footnotes@) =~= Seq::<Seq<EventView>>::empty());
        assert(table_view(table@) =~= Seq::<(Seq<char>, nat, nat)>::empty());
        assert(state_of(preview@, footnotes@, current@, table@) == footnote_pass(ev.take(0)));
        assert(ev.skip(0) =~= ev);
    }
    loop
        invariant
            k <= n,
            n == ev.len(),
            rev@.len() == n - k,
            events_view(rev@) == ev.skip(k as int).reverse(),
            state_of(preview@, footnotes@, current@, table@) == footnote_pass(ev.take(k as int)),
            table_bounded(table@, k as int),
        decreases rev@.len(),
    {
        let ghost before = state_of(preview@, footnotes@, current@, table@);
        let ghost rv = events_view(rev@);
        match rev.pop() {
            None => {
                assert(ev.take(k as int) =~= ev);
                return (preview, footnotes, current, table);
            },
            Some(e) => {
                proof {
                    assert(rv.last() == event_view(e));
                    assert(ev.skip(k as int).reverse().last() == ev[k as int]);
                    assert(ev.take(k + 1).drop_last() =~= ev.take(k as int));
                    assert(ev.take(k + 1).last() == ev[k as int]);
                    assert(footnote_pass(ev.take(k + 1)) == footnote_step(before, event_view(e)));
                }
                match e {
                    PreviewEvent::FootnoteStart(name) => {
                        let ghost c = events_view(current@);
                        current.push(PreviewEvent::FootnoteStart(name));
                        assert(events_view(current@) =~= c.push(event_view(PreviewEvent::FootnoteStart(name))));
                    },
                    PreviewEvent::FootnoteEnd => {
                        if is_nonempty(&current) {
                            let ghost c = events_view(current@);
                            let ghost f = lists_view(footnotes@);
                            current.push(PreviewEvent::FootnoteEnd);
                            assert(events_view(current@) =~= c.push(EventView::FootnoteEnd));
                            let mut done: Vec<PreviewEvent> = Vec::new();
                            std::mem::swap(&mut done, &mut current);
                            footnotes.push(done);
                            assert(events_view(current@) =~= Seq::<EventView>::empty());
                            assert(lists_view(footnotes@) =~= f.push(c.push(EventView::FootnoteEnd)));
                        } else {
                            let ghost pv = events_view(preview@);
                            preview.push(PreviewEvent::FootnoteEnd);
                            assert(events_view(preview@) =~= pv.push(EventView::FootnoteEnd));
                        }
                    },
                    PreviewEvent::FootnoteReference(name) => {
                        let (number, count) = reference(&mut table, name.as_str(), Ghost(k as int));
                        let html = reference_html_exec(name.as_str(), count, number);
                        let ghost hv = EventView::Html(html@);
                        if is_nonempty(&current) {
                            let ghost c = events_view(current@);
                            current.push(PreviewEvent::Html(html));
                            assert(events_view(current@) =~= c.push(hv));
                        } else {
                            let ghost pv = events_view(preview@);
                            preview.push(PreviewEvent::Html(html));
                            assert(events_view(preview@) =~= pv.push(hv));
                        }
                    },
                    other => {
                        let ghost ov = event_view(other);
                        if is_nonempty(&current) {
                            let ghost c = events_view(current@);
                            current.push(other);
                            assert(events_view(current@) =~= c.push(ov));
                        } else {
                            let ghost pv = events_view(preview@);
                            preview.push(other);
                            assert(events_view(preview@) =~= pv.push(ov));
                        }
                    },
                }
                proof {
                    assert(events_view(rev@) =~= rv.drop_last());
                    assert(ev.skip(k + 1).reverse() =~= ev.skip(k as int).reverse().drop_last());
                }
                k += 1;
            },
        }
    }
}

fn definition_number_exec(table: &Vec<(String, usize, usize)>, f: &Vec<PreviewEvent>) -> (r: Option<usize>)
    ensures
        match r {
            Some(n) => definition_number(table_view(table@), events_view(f@)) == Some(n as nat),
            None => definition_number(table_view(table@), events_view(f@)) is None,
        },
{
    if f.len() == 0 {
        return None;
    }
    assert(events_view(f@)[0] == event_view(f@[0]));
    match &f[0] {
        PreviewEvent::FootnoteStart(name) => match find_entry_exec(table, name.as_str()) {
            Some(i) => {
                if table[i].2 > 0 {
                    Some(table[i].1)
                } else {
                    None
                }
            },
            None => None,
        },
        _ => None,
    }
}

pub proof fn lemma_footnote_order_total(table: Seq<(Seq<char>, nat, nat)>, fs: Seq<Seq<EventView>>)
    ensures
        total_ordering(footnote_order(table, fs)),
{
}

type Kept = (usize, usize, Vec<PreviewEvent>);

spec fn kept_view(v: Seq<Kept>) -> Seq<int> {
    v.map_values(|e: Kept| e.0 as int)
}

spec fn kept_wf(v: Seq<Kept>, table: Seq<(Seq<char>, nat, nat)>, fs: Seq<Seq<EventView>>) -> bool {
    forall|i: int|
        0 <= i < v.len() ==> {
            let e = #[trigger] v[i];
            &&& 0 <= e.0 < fs.len()
            &&& definition_number(table, fs[e.0 as int]) == Some(e.1 as nat)
            &&& events_view(e.2@) == fs[e.0 as int]
        }
}

/// The referenced definitions, with their positions and numbers.
#[verifier::loop_isolation(false)]
fn keep_referenced(table: &Vec<(String, usize, usize)>, footnotes: Vec<Vec<PreviewEvent>>) -> (r: Vec<Kept>)
    ensures
        kept_view(r@) == kept_positions(table_view(table@), lists_view(footnotes@)),
        kept_wf(r@, table_view(table@), lists_view(footnotes@)),
{
    let ghost fs = lists_view(footnotes@);
    let ghost tv = table_view(table@);
    let n = footnotes.len();
    let mut rev = reversed(footnotes);
    let mut kept: Vec<Kept> = Vec::new();
    let mut k: usize = 0;
    assert(fs.take(0) =~= Seq::<Seq<EventView>>::empty());
    assert(kept_view(kept@) =~= Seq::<int>::empty());
    loop
        invariant
            k <= n,
            n == fs.len(),
            rev@.len() == n - k,
            lists_view(rev@) == fs.skip(k as int).reverse(),
            kept_view(kept@) == kept_positions(tv, fs.take(k as int)),
            kept_wf(kept@, tv, fs),
        decreases rev@.len(),
    {
        let ghost rv = lists_view(rev@);
        match rev.pop() {
            None => {
                assert(fs.take(k as int) =~= fs);
                return kept;
            },
            Some(f) => {
                proof {
                    assert(rv.last() == events_view(f@));
                    assert(fs.skip(k as int).reverse().last() == fs[k as int]);
                    assert(fs.take(k + 1).drop_last() =~= fs.take(k as int));
                    assert(fs.take(k + 1).last() == fs[k as int]);
                }
                match definition_number_exec(table, &f) {
                    Some(number) => {
                        let ghost before = kept@;
                        kept.push((k, number, f));
                        proof {
                            assert(kept_view(kept@) =~= kept_view(before).push(k as int));
                            assert forall|i: int| 0 <= i < kept@.len() implies {
                                let e = #[trigger] kept@[i];
                                &&& 0 <= e.0 < fs.len()
                                &&& definition_number(tv, fs[e.0 as int]) == Some(e.1 as nat)
                                &&& events_view(e.2@) == fs[e.0 as int]
                            } by {
                                if i < before.len() {
                                    assert(kept@[i] == before[i]);
                                }
                            }
                        }
                    },
                    None => {},
                }
                proof {
                    assert(lists_view(rev@) =~= rv.drop_last());
                    assert(fs.skip(k + 1).reverse() =~= fs.skip(k as int).reverse().drop_last());
                }
                k += 1;
            },
        }
    }
}

fn kept_before(a: &Kept, b: &Kept) -> (r: bool)
    ensures
        r == ((a.1 as int) < (b.1 as int) || (a.1 == b.1 && a.0 <= b.0)),
{
    a.1 < b.1 || (a.1 == b.1 && a.0 <= b.0)
}

/// The referenced definitions in footnote order.
#[verifier::loop_isolation(false)]
fn sort_kept(kept: Vec<Kept>, Ghost(table): Ghost<Seq<(Seq<char>, nat, nat)>>, Ghost(fs): Ghost<Seq<Seq<EventView>>>) -> (r: Vec<Kept>)
    requires
        kept_wf(kept@, table, fs),
    ensures
        kept_view(r@) == kept_view(kept@).sort_by(footnote_order(table, fs)),
        kept_wf(r@, table, fs),
{
    broadcast use vstd::seq_lib::group_to_multiset_ensures;

    let ghost leq = footnote_order(table, fs);
    let ghost src = kept_view(kept@);
    proof {
        lemma_footnote_order_total(table, fs);
    }
    let n = kept.len();
    let mut rev = reversed(kept);
    let mut out: Vec<Kept> = Vec::new();
    let mut k: usize = 0;
    assert(src.take(0) =~= Seq::<int>::empty());
    assert(kept_view(out@) =~= Seq::<int>::empty());
    loop
        invariant
            k <= n,
            n == src.len(),
            rev@ == kept@.skip(k as int).reverse(),
            rev@.len() == n - k,
            total_ordering(leq),
            sorted_by(kept_view(out@), leq),
            kept_view(out@).to_multiset() == src.take(k as int).to_multiset(),
            kept_wf(out@, table, fs),
        decreases rev@.len(),
    {
        let ghost rv = rev@;
        match rev.pop() {
            None => {
                proof {
                    assert(src.take(k as int) =~= src);
                    src.lemma_sort_by_ensures(leq);
                    lemma_sorted_unique(kept_view(out@), src.sort_by(leq), leq);
                }
                return out;
            },
            Some(x) => {
                proof {
                    assert(rv.last() == x);
                    assert(kept@.skip(k as int).reverse().last() == kept@[k as int]);
                    assert(x == kept@[k as int]);
                    assert(src.take(k + 1) =~= src.take(k as int).push(x.0 as int));
                    src.take(k as int).to_multiset_ensures();
                }
                let mut p: usize = 0;
                while p < out.len() && kept_before(&out[p], &x)
                    invariant
                        p <= out.len(),
                        kept_wf(out@, table, fs),
                        0 <= x.0 < fs.len(),
                        definition_number(table, fs[x.0 as int]) == Some(x.1 as nat),
                        leq == footnote_order(table, fs),
                        forall|i: int| 0 <= i < p ==> #[trigger] leq(kept_view(out@)[i], x.0 as int),
                    decreases out.len() - p,
                {
                    assert(kept_view(out@)[p as int] == out@[p as int].0 as int);
                    p += 1;
                }
                proof {
                    if p < out.len() {
                        assert(kept_view(out@)[p as int] == out@[p as int].0 as int);
                    }
                }
                let ghost before = out@;
                let ghost xv = x.0 as int;
                out.insert(p, x);
                proof {
                    assert(kept_view(out@) =~= kept_view(before).insert(p as int, xv));
                    lemma_insert_sorted(kept_view(before), p as int, xv, leq);
                    assert forall|i: int| 0 <= i < out@.len() implies {
                        let e = #[trigger] out@[i];
                        &&& 0 <= e.0 < fs.len()
                        &&& definition_number(table, fs[e.0 as int]) == Some(e.1 as nat)
                        &&& events_view(e.2@) == fs[e.0 as int]
                    } by {
                        if i < p {
                            assert(out@[i] == before[i]);
                        } else if i > p {
                            assert(out@[i] == before[i - 1]);
                        }
                    }
                    assert(rev@ =~= kept@.skip(k + 1).reverse());
                }
                k += 1;
            },
        }
    }
}

fn render_footnote_event(e: PreviewEvent) -> (r: PreviewEvent)
    ensures
        event_view(r) == rendered_event(event_view(e)),
{
    match e {
        PreviewEvent::FootnoteStart(name) => {
            let mut h = String::from_str("<li id=\"fn-");
            let esc = escape_html(name.as_str());
            h.append(esc.as_str());
            h.append("\">");
            PreviewEvent::Html(h)
        },
        PreviewEvent::FootnoteEnd => PreviewEvent::Html(String::from_str("</li>\n")),
        other => other,
    }
}

/// Appends a definition, written as a list item.
#[verifier::loop_isolation(false)]
fn push_rendered(out: &mut Vec<PreviewEvent>, f: Vec<PreviewEvent>)
    ensures
        events_view(final(out)@) == events_view(old(out)@) + rendered_footnote(events_view(f@)),
{
    let ghost fv = events_view(f@);
    let ghost start = events_view(out@);
    let n = f.len();
    let mut rev = reversed(f);
    let mut m: usize = 0;
    assert(rendered_footnote(fv).take(0) =~= Seq::<EventView>::empty());
    assert(start + Seq::<EventView>::empty() =~= start);
    loop
        invariant
            m <= n,
            n == fv.len(),
            rev@.len() == n - m,
            events_view(rev@) == fv.skip(m as int).reverse(),
            events_view(out@) == start + rendered_footnote(fv).take(m as int),
        decreases rev@.len(),
    {
        let ghost rv = events_view(rev@);
        match rev.pop() {
            None => {
                assert(rendered_footnote(fv).take(m as int) =~= rendered_footnote(fv));
                return;
            },
            Some(e) => {
                proof {
                    assert(rv.last() == event_view(e));
                    assert(fv.skip(m as int).reverse().last() == fv[m as int]);
                }
                let ghost before = events_view(out@);
                let r = render_footnote_event(e);
                out.push(r);
                proof {
                    assert(events_view(out@) =~= before.push(rendered_event(fv[m as int])));
                    assert(rendered_footnote(fv).take(m + 1) =~= rendered_footnote(fv).take(m as int).push(rendered_event(fv[m as int])));
                    assert(events_view(rev@) =~= rv.drop_last());
                    assert(fv.skip(m + 1).reverse() =~= fv.skip(m as int).reverse().drop_last());
                }
                m += 1;
            },
        }
    }
}

/// Numbers the footnote references and lists the referenced definitions at
/// the end, by number.
#[verifier::loop_isolation(false)]
pub fn list_footnotes(events: Vec<PreviewEvent>) -> (r: Vec<PreviewEvent>)
    ensures
        events_view(r@) == with_footnotes(events_view(events@)),
{
    let ghost st = footnote_pass(events_view(events@));
    let (mut preview, footnotes, mut current, table) = read_footnotes(events);
    let ghost base = events_view(preview@) + events_view(current@);
    let ghost tv = table_view(table@);
    let ghost fs = lists_view(footnotes@);
    let ghost raw_current = current@;
    let ghost raw_preview = preview@;
    preview.append(&mut current);
    assert(preview@ == raw_preview + raw_current);
    assert(events_view(preview@) =~= base);
    let kept = keep_referenced(&table, footnotes);
    let sorted = sort_kept(kept, Ghost(tv), Ghost(fs));
    let ghost order = kept_view(sorted@);
    let ghost rendered = order.map_values(|k: int| rendered_footnote(st.footnotes[k]));
    if sorted.len() == 0 {
        return preview;
    }
    preview.push(PreviewEvent::Html(String::from_str("<hr><ol class=\"footnotes-list\">\n")));
    let ghost head = events_view(preview@);
    let ns = sorted.len();
    let mut rev = reversed(sorted);
    let mut j: usize = 0;
    assert(order.take(0) =~= Seq::<int>::empty());
    assert(rendered.take(0) =~= Seq::<Seq<EventView>>::empty());
    assert(head + flatten(rendered.take(0)) =~= head);
    loop
        invariant
            j <= ns,
            ns == order.len(),
            rev@.len() == ns - j,
            rev@ == sorted@.skip(j as int).reverse(),
            events_view(preview@) == head + flatten(rendered.take(j as int)),
        decreases rev@.len(),
    {
        let ghost rv = rev@;
        match rev.pop() {
            None => {
                assert(rendered.take(j as int) =~= rendered);
                break;
            },
            Some(x) => {
                proof {
                    assert(rv.last() == x);
                    assert(sorted@.skip(j as int).reverse().last() == sorted@[j as int]);
                    assert(order[j as int] == x.0 as int);
                    assert(events_view(x.2@) == fs[x.0 as int]);
                    assert(rendered.take(j + 1).drop_last() =~= rendered.take(j as int));
                    assert(rendered.take(j + 1).last() == rendered_footnote(fs[x.0 as int]));
                }
                push_rendered(&mut preview, x.2);
                proof {
                    assert(rev@ =~= sorted@.skip(j + 1).reverse());
                }
                j += 1;
            },
        }
    }
    let ghost body = events_view(preview@);
    preview.push(PreviewEvent::Html(String::from_str("</ol>\n")));
    assert(events_view(preview@) =~= body.push(EventView::Html("</ol>\n"@)));
    preview
}

#[verifier::loop_isolation(false)]
fn sanitize_all(events: Vec<PreviewEvent>) -> (r: Vec<PreviewEvent>)
    ensures
        events_view(r@) == sanitized(events_view(events@)),
{
    let ghost ev = events_view(events@);
    let n = events.len();
    let mut rev = reversed(events);
    let mut out: Vec<PreviewEvent> = Vec::new();
    let mut k: usize = 0;
    assert(sanitized(ev).take(0) =~= events_view(out@));
    loop
        invariant
            k <= n,
            n == ev.len(),
            rev@.len() == n - k,
            events_view(rev@) == ev.skip(k as int).reverse(),
            events_view(out@) == sanitized(ev).take(k as int),
        decreases rev@.len(),
    {
        let ghost rv = events_view(rev@);
        match rev.pop() {
            None => {
                assert(sanitized(ev).take(k as int) =~= sanitized(ev));
                return out;
            },
            Some(e) => {
                proof {
                    assert(rv.last() == event_view(e));
                    assert(ev.skip(k as int).reverse().last() == ev[k as int]);
                }
                let ghost before = events_view(out@);
                let r = sanitize_event(e);
                out.push(r);
                proof {
                    assert(events_view(out@) =~= before.push(event_view(r)));
                    assert(sanitized(ev)[k as int] == made_safe(shown_as_text(ev[k as int])));
                    assert(sanitized(ev).take(k + 1) =~= sanitized(ev).take(k as int).push(sanitized(ev)[k as int]));
                    assert(events_view(out@) =~= sanitized(ev).take(k + 1));
                    assert(events_view(rev@) =~= rv.drop_last());
                    assert(ev.skip(k + 1).reverse() =~= ev.skip(k as int).reverse().drop_last());
                }
                k += 1;
            },
        }
    }
}

/// The preview events to write for a note: made safe, without a first
/// heading that repeats the title, with footnotes numbered and listed.
pub open spec fn preview_stream(title: Seq<char>, evs: Seq<EventView>) -> Seq<EventView> {
    with_footnotes(without_title_heading(title, sanitized(evs)))
}

/// Turns a note's parsed events into the events of its preview.
pub fn preview_event_stream(title: &str, events: Vec<PreviewEvent>) -> (r: Vec<PreviewEvent>)
    ensures
        events_view(r@) == preview_stream(title@, events_view(events@)),
{
    let safe = sanitize_all(events);
    let body = suppress_title_heading(title, safe);
    list_footnotes(body)
}

// ---------------------------------------------------------------------------
// The parser and the HTML writer
// ---------------------------------------------------------------------------

/// The Markdown dialect of the preview: tables, footnotes, strikethrough and
/// task lists (`pulldown_cmark::Options`).
#[verifier::external_body]
pub fn markdown_preview_options() -> Options {
    let mut options = Options::empty();
    options.insert(Options::ENABLE_TABLES);
    options.insert(Options::ENABLE_FOOTNOTES);
    options.insert(Options::ENABLE_STRIKETHROUGH);
    options.insert(Options::ENABLE_TASKLISTS);
    options
}

/// What the preview reads of the Markdown content: pulldown-cmark's events
/// for it in the preview dialect, each as a preview event.
pub uninterp spec fn markdown_events(content: Seq<char>) -> Seq<EventView>;

/// The HTML that pulldown-cmark's writer produces for the events.
pub uninterp spec fn preview_html(events: Seq<EventView>) -> Seq<char>;

/// Parses the content in the preview dialect (`pulldown_cmark::Parser::new_ext`)
/// and classifies each event. The parser is deterministic, so its events
/// are named by `markdown_events`; nothing more is claimed of them.
#[verifier::external_body]
fn parse_preview_events(content: &str) -> (r: Vec<PreviewEvent>)
    ensures
        events_view(r@) == markdown_events(content@),
{
    Parser::new_ext(content, markdown_preview_options()).map(|e| classify(e.into_static())).collect()
}

/// Writes the events as HTML (`pulldown_cmark::html::push_html`), each
/// preview event turned back into a parser event with its destination in
/// place. The writer is deterministic, so its output is named by
/// `preview_html`.
#[verifier::external_body]
fn write_preview_html(events: Vec<PreviewEvent>) -> (r: String)
    ensures
        r@ == preview_html(events_view(events@)),
{
    let mut out = String::new();
    html::push_html(&mut out, events.into_iter().map(to_event));
    out
}

/// One parser event as a preview event, moving its text out (one arm per
/// kind of event the preview reads).
#[verifier::external_body]
fn classify(e: Event<'static>) -> PreviewEvent {
    match e {
        e @ (Event::Start(Tag::Link { .. }) | Event::Start(Tag::Image { .. })) => destination(e),
        Event::Text(s) => PreviewEvent::Text(s.into_string()),
        Event::Code(s) => PreviewEvent::Code(s.into_string()),
        Event::Html(s) => PreviewEvent::Html(s.into_string()),
        Event::InlineHtml(s) => PreviewEvent::InlineHtml(s.into_string()),
        Event::FootnoteReference(s) => PreviewEvent::FootnoteReference(s.into_string()),
        e => structural(e),
    }
}

/// Footnote definitions, level-one headings and every other event, as
/// preview events (one arm per kind).
#[verifier::external_body]
fn structural(e: Event<'static>) -> PreviewEvent {
    match e {
        Event::Start(Tag::FootnoteDefinition(s)) => PreviewEvent::FootnoteStart(s.into_string()),
        Event::End(TagEnd::FootnoteDefinition) => PreviewEvent::FootnoteEnd,
        Event::End(TagEnd::Heading(HeadingLevel::H1)) => PreviewEvent::HeadingOneEnd,
        e @ Event::Start(Tag::Heading { level: HeadingLevel::H1, .. }) => PreviewEvent::HeadingOneStart(e),
        e => PreviewEvent::Other(e),
    }
}

/// A link or image start as a destination event: whether it is an image,
/// whether it is an e-mail autolink, and its destination.
#[verifier::external_body]
fn destination(e: Event<'static>) -> PreviewEvent {
    let (is_image, is_email, url) = match &e {
        Event::Start(Tag::Link { link_type, dest_url, .. }) => (false, matches!(link_type, LinkType::Email), dest_url.to_string()),
        Event::Start(Tag::Image { link_type, dest_url, .. }) => (true, matches!(link_type, LinkType::Email), dest_url.to_string()),
        _ => (false, false, String::new()),
    };
    PreviewEvent::Destination { is_image, is_email, url, source: e }
}

/// A link or image start with another destination.
#[verifier::external_body]
fn retarget(e: Event<'static>, url: String) -> Event<'static> {
    match e {
        Event::Start(Tag::Link { link_type, title, id, .. }) => Event::Start(
            Tag::Link { link_type, dest_url: url.into(), title, id },
        ),
        Event::Start(Tag::Image { link_type, title, id, .. }) => Event::Start(
            Tag::Image { link_type, dest_url: url.into(), title, id },
        ),
        other => other,
    }
}

/// A preview event as a parser event, moving its text in.
#[verifier::external_body]
fn to_event(p: PreviewEvent) -> Event<'static> {
    match p {
        PreviewEvent::Text(s) => Event::Text(s.into()),
        PreviewEvent::Code(s) => Event::Code(s.into()),
        PreviewEvent::Html(s) => Event::Html(s.into()),
        PreviewEvent::InlineHtml(s) => Event::InlineHtml(s.into()),
        PreviewEvent::FootnoteReference(s) => Event::FootnoteReference(s.into()),
        PreviewEvent::FootnoteStart(s) => Event::Start(Tag::FootnoteDefinition(s.into())),
        PreviewEvent::FootnoteEnd => Event::End(TagEnd::FootnoteDefinition),
        PreviewEvent::HeadingOneEnd => Event::End(TagEnd::Heading(HeadingLevel::H1)),
        PreviewEvent::HeadingOneStart(e) | PreviewEvent::Other(e) => e,
        PreviewEvent::Destination { url, source, .. } => retarget(source, url),
    }
}

/// The HTML body of a note's preview: the parsed content made safe, its
/// title heading suppressed and its footnotes listed (`preview_stream`),
/// written as HTML.
pub fn render_markdown_preview_body(title: &str, content: &str) -> (r: String)
    ensures
        r@ == preview_html(preview_stream(title@, markdown_events(content@))),
{
    let events = parse_preview_events(content);
    let stream = preview_event_stream(title, events);
    write_preview_html(stream)
}

/// The preview with the note's title as its heading.
pub fn render_markdown_preview(title: &str, content: &str) -> (r: String)
    ensures
        r@ == "<h1 class=\"text-3xl font-bold mb-4\">"@ + escaped(title@) + "</h1>"@
            + preview_html(preview_stream(title@, markdown_events(content@))),
{
    let safe_title = escape_html(title);
    let body = render_markdown_preview_body(title, content);
    let mut r = String::from_str("<h1 class=\"text-3xl font-bold mb-4\">");
    r.append(safe_title.as_str());
    r.append("</h1>");
    r.append(body.as_str());
    r
}


/// The footnote names referenced in the events, each once, in order of first
/// reference.
pub open spec fn referenced_names(evs: Seq<EventView>) -> Seq<Seq<char>>
    decreases evs.len(),
{
    if evs.len() == 0 {
        Seq::empty()
    } else {
        let prev = referenced_names(evs.drop_last());
        match evs.last() {
            EventView::FootnoteReference(name) => if prev.contains(name) {
                prev
            } else {
                prev.push(name)
            },
            _ => prev,
        }
    }
}

/// How many of the events are references to `name`.
pub open spec fn reference_count(evs: Seq<EventView>, name: Seq<char>) -> nat
    decreases evs.len(),
{
    if evs.len() == 0 {
        0
    } else {
        reference_count(evs.drop_last(), name) + match evs.last() {
            EventView::FootnoteReference(n) => if n == name {
                1nat
            } else {
                0nat
            },
            _ => 0nat,
        }
    }
}

/// The event most recently written: to the definition being read, if any,
/// else to the preview.
pub open spec fn last_written(st: FootnoteState) -> EventView {
    if st.current.len() == 0 {
        st.preview.last()
    } else {
        st.current.last()
    }
}

/// The first entry for a name, from `k`, is at `i` when none before it has
/// the name (none at all when `i` is the table's length).
proof fn lemma_find_entry_at(table: Seq<(Seq<char>, nat, nat)>, name: Seq<char>, k: int, i: int)
    requires
        0 <= k <= i <= table.len(),
        i < table.len() ==> table[i].0 == name,
        forall|j: int| k <= j < i ==> table[j].0 != name,
    ensures
        find_entry_from(table, name, k) == (if i < table.len() {
            Some(i)
        } else {
            None::<int>
        }),
    decreases i - k,
{
    if k < i {
        lemma_find_entry_at(table, name, k + 1, i);
    }
}

/// After reading the events, the table lists the referenced names in order of
/// first reference, each once, with its number (its rank, from 1) and how
/// often it was referenced.
proof fn lemma_footnote_table(evs: Seq<EventView>)
    ensures
        footnote_pass(evs).table.len() == referenced_names(evs).len(),
        forall|i: int|
            0 <= i < referenced_names(evs).len() ==> #[trigger] footnote_pass(evs).table[i] == (
                referenced_names(evs)[i],
                (i + 1) as nat,
                reference_count(evs, referenced_names(evs)[i]),
            ),
        forall|i: int, j: int|
            0 <= i < j < referenced_names(evs).len() ==> referenced_names(evs)[i]
                != referenced_names(evs)[j],
        forall|name: Seq<char>|
            #[trigger] reference_count(evs, name) > 0 ==> referenced_names(evs).contains(name),
    decreases evs.len(),
{
    if evs.len() > 0 {
        let pe = evs.drop_last();
        lemma_footnote_table(pe);
        let st0 = footnote_pass(pe);
        let t0 = st0.table;
        let n0 = referenced_names(pe);
        let t = footnote_pass(evs).table;
        let ns = referenced_names(evs);
        match evs.last() {
            EventView::FootnoteReference(name) => {
                if n0.contains(name) {
                    let i = choose|i: int| 0 <= i < n0.len() && n0[i] == name;
                    assert forall|j: int| 0 <= j < i implies t0[j].0 != name by {
                        assert(t0[j] == (n0[j], (j + 1) as nat, reference_count(pe, n0[j])));
                    }
                    assert(t0[i] == (n0[i], (i + 1) as nat, reference_count(pe, n0[i])));
                    lemma_find_entry_at(t0, name, 0, i);
                    assert(t == t0.update(i, (name, t0[i].1, t0[i].2 + 1)));
                    assert(ns == n0);
                    assert forall|j: int| 0 <= j < ns.len() implies #[trigger] t[j] == (
                        ns[j],
                        (j + 1) as nat,
                        reference_count(evs, ns[j]),
                    ) by {
                        assert(t0[j] == (n0[j], (j + 1) as nat, reference_count(pe, n0[j])));
                    }
                    assert forall|m: Seq<char>| #[trigger]
                        reference_count(evs, m) > 0 implies ns.contains(m) by {
                        if m != name {
                            assert(reference_count(pe, m) > 0);
                        }
                    }
                } else {
                    assert forall|j: int| 0 <= j < t0.len() implies t0[j].0 != name by {
                        assert(t0[j] == (n0[j], (j + 1) as nat, reference_count(pe, n0[j])));
                    }
                    lemma_find_entry_at(t0, name, 0, t0.len() as int);
                    assert(reference_count(pe, name) == 0);
                    assert(t == t0.push((name, (t0.len() + 1) as nat, 1nat)));
                    assert(ns == n0.push(name));
                    assert forall|j: int| 0 <= j < ns.len() implies #[trigger] t[j] == (
                        ns[j],
                        (j + 1) as nat,
                        reference_count(evs, ns[j]),
                    ) by {
                        if j < n0.len() {
                            assert(t0[j] == (n0[j], (j + 1) as nat, reference_count(pe, n0[j])));
                            assert(ns[j] == n0[j]);
                        }
                    }
                    assert forall|a: int, b: int| 0 <= a < b < ns.len() implies ns[a] != ns[b] by {
                        if b == n0.len() {
                            assert(n0[a] == ns[a]);
                        } else {
                            assert(n0[a] == ns[a] && n0[b] == ns[b]);
                        }
                    }
                    assert forall|m: Seq<char>| #[trigger]
                        reference_count(evs, m) > 0 implies ns.contains(m) by {
                        if m != name {
                            assert(reference_count(pe, m) > 0);
                            let w = choose|w: int| 0 <= w < n0.len() && n0[w] == m;
                            assert(ns[w] == m);
                        } else {
                            assert(ns[n0.len() as int] == name);
                        }
                    }
                }
            },
            _ => {
                assert(t == t0);
                assert(ns == n0);
                assert forall|j: int| 0 <= j < ns.len() implies #[trigger] t[j] == (
                    ns[j],
                    (j + 1) as nat,
                    reference_count(evs, ns[j]),
                ) by {
                    assert(t0[j] == (n0[j], (j + 1) as nat, reference_count(pe, n0[j])));
                }
                assert forall|m: Seq<char>| #[trigger]
                    reference_count(evs, m) > 0 implies ns.contains(m) by {
                    assert(reference_count(pe, m) > 0);
                }
            },
        }
    }
}

/// The names referenced by a prefix of the events start the names referenced
/// by all of them.
proof fn lemma_referenced_names_prefix(evs: Seq<EventView>, m: int)
    requires
        0 <= m <= evs.len(),
    ensures
        referenced_names(evs.take(m)).len() <= referenced_names(evs).len(),
        forall|i: int|
            0 <= i < referenced_names(evs.take(m)).len() ==> referenced_names(evs.take(m))[i]
                == referenced_names(evs)[i],
    decreases evs.len() - m,
{
    if m < evs.len() {
        lemma_referenced_names_prefix(evs, m + 1);
        assert(evs.take(m + 1).drop_last() =~= evs.take(m));
    } else {
        assert(evs.take(m) =~= evs);
    }
}

/// Footnotes are numbered 1, 2, ... in the order in which their names are
/// first referenced. The reference to `name` at position `p` of the events is
/// written as a link labelled `[k + 1]`, where `k` is the position of `name`
/// among the distinct referenced names in order of first reference: the same
/// label on each of its references, however often it is referenced. Its
/// anchor counts the references to `name` up to and including it.
pub proof fn lemma_footnote_reference_numbers(evs: Seq<EventView>, p: int, name: Seq<char>)
    requires
        0 <= p < evs.len(),
        evs[p] == EventView::FootnoteReference(name),
    ensures
        referenced_names(evs).contains(name),
        forall|i: int, j: int|
            0 <= i < j < referenced_names(evs).len() ==> referenced_names(evs)[i]
                != referenced_names(evs)[j],
        forall|k: int|
            0 <= k < referenced_names(evs).len() && referenced_names(evs)[k] == name
                ==> last_written(footnote_pass(evs.take(p + 1))) == EventView::Html(
                reference_html(name, reference_count(evs.take(p + 1), name), (k + 1) as nat),
            ),
{
    let pre = evs.take(p + 1);
    assert(pre.drop_last() =~= evs.take(p));
    assert(pre.last() == evs[p]);
    let st0 = footnote_pass(evs.take(p));
    let t0 = st0.table;
    let st = footnote_pass(pre);
    lemma_footnote_table(evs.take(p));
    lemma_footnote_table(pre);
    lemma_footnote_table(evs);
    lemma_referenced_names_prefix(evs, p + 1);
    lemma_find_entry_from(t0, name, 0);
    let np = referenced_names(pre);
    let i: int = match find_entry(t0, name) {
        Some(i) => i,
        None => t0.len() as int,
    };
    assert(0 <= i < st.table.len() && st.table[i].0 == name);
    let r = EventView::Html(reference_html(name, st.table[i].2, st.table[i].1));
    assert(last_written(st) == r);
    assert(st.table[i] == (np[i], (i + 1) as nat, reference_count(pre, np[i])));
    assert(np[i] == name);
    assert(referenced_names(evs)[i] == name);
    assert forall|k: int|
        0 <= k < referenced_names(evs).len() && referenced_names(evs)[k] == name implies last_written(
        footnote_pass(evs.take(p + 1)),
    ) == EventView::Html(
        reference_html(name, reference_count(evs.take(p + 1), name), (k + 1) as nat),
    ) by {
        if k != i {
            assert(referenced_names(evs)[k] != referenced_names(evs)[i]);
        }
    }
}

} // verus!
