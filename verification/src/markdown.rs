use vstd::prelude::*;
use vstd::string::StrSliceExecFns;
use crate::strutil::alnum_char;

verus! {

/// What the renderer reads of one Markdown event: the URLs it may
/// rewrite, the headings it gives identifiers and a table of contents,
/// and the text runs inside a heading. Everything else is opaque.
#[derive(Debug)]
pub enum MdToken {
    /// The start of an image, with its source URL.
    Image { url: String },
    /// The start of a link, with its target URL.
    Link { url: String },
    /// The start of a heading: its level and whether an explicit
    /// identifier was authored.
    Heading { level: u8, has_id: bool },
    /// An inline code run.
    Code(String),
    /// A text run.
    Text(String),
    /// The end of a heading.
    HeadingEnd,
    /// Any other event.
    Other,
}

/// Spec-level shape of a Markdown token.
pub enum MdTokenView {
    Image { url: Seq<char> },
    Link { url: Seq<char> },
    Heading { level: u8, has_id: bool },
    Code(Seq<char>),
    Text(Seq<char>),
    HeadingEnd,
    Other,
}

impl View for MdToken {
    type V = MdTokenView;

    open spec fn view(&self) -> MdTokenView {
        match self {
            MdToken::Image { url } => MdTokenView::Image { url: url@ },
            MdToken::Link { url } => MdTokenView::Link { url: url@ },
            MdToken::Heading { level, has_id } => MdTokenView::Heading {
                level: *level,
                has_id: *has_id,
            },
            MdToken::Code(s) => MdTokenView::Code(s@),
            MdToken::Text(s) => MdTokenView::Text(s@),
            MdToken::HeadingEnd => MdTokenView::HeadingEnd,
            MdToken::Other => MdTokenView::Other,
        }
    }
}

impl DeepView for MdToken {
    type V = MdTokenView;

    open spec fn deep_view(&self) -> MdTokenView {
        self.view()
    }
}

#[verifier::external_type_specification]
#[verifier::external_body]
pub struct ExEvent<'a>(pulldown_cmark::Event<'a>);

/// The tokens the CommonMark parser produces for a text, with every
/// extension switched on; they depend on the text alone.
pub uninterp spec fn md_tokens_of(s: Seq<char>) -> Seq<MdTokenView>;

/// Relies on `pulldown_cmark::Event::into_static` through the
/// conversion below, and on the `Event` and `Tag` variant shapes: each
/// event is summarized by the one variant it holds, its fields moved.
#[verifier::external_body]
fn token_of_event(e: &pulldown_cmark::Event<'static>) -> MdToken {
    match e {
        pulldown_cmark::Event::Start(pulldown_cmark::Tag::Image { dest_url, .. }) =>
            MdToken::Image { url: dest_url.to_string() },
        pulldown_cmark::Event::Start(pulldown_cmark::Tag::Link { dest_url, .. }) =>
            MdToken::Link { url: dest_url.to_string() },
        pulldown_cmark::Event::Start(pulldown_cmark::Tag::Heading { level, id, .. }) =>
            MdToken::Heading { level: *level as u8, has_id: id.is_some() },
        pulldown_cmark::Event::Code(s) => MdToken::Code(s.to_string()),
        pulldown_cmark::Event::Text(s) => MdToken::Text(s.to_string()),
        pulldown_cmark::Event::End(pulldown_cmark::TagEnd::Heading(_)) => MdToken::HeadingEnd,
        _ => MdToken::Other,
    }
}

/// Relies on `pulldown_cmark::Parser::new_ext`: it tokenizes the text,
/// deterministically, with every extension switched on; the events are
/// handed back opaquely, beside one summary token per event.
#[verifier::external_body]
pub fn parse_markdown(md: &str) -> (r: (Vec<pulldown_cmark::Event<'static>>, Vec<MdToken>))
    ensures
        r.1.deep_view() == md_tokens_of(md@),
        r.0@.len() == r.1@.len(),
{
    let events: Vec<pulldown_cmark::Event<'static>> = pulldown_cmark::Parser::new_ext(
        md,
        pulldown_cmark::Options::all(),
    ).map(|e| e.into_static()).collect();
    let tokens: Vec<MdToken> = events.iter().map(token_of_event).collect();
    (events, tokens)
}

/// Relies on `pulldown_cmark::Tag::Image`: the event's source URL field
/// is replaced; nothing else changes, and an event of another shape is
/// left alone.
#[verifier::external_body]
pub fn set_image_url(events: &mut Vec<pulldown_cmark::Event<'static>>, i: usize, url: String)
    requires
        i < old(events)@.len(),
    ensures
        final(events)@.len() == old(events)@.len(),
{
    if let pulldown_cmark::Event::Start(pulldown_cmark::Tag::Image { dest_url, .. }) =
        &mut events[i] {
        *dest_url = pulldown_cmark::CowStr::from(url);
    }
}

/// Relies on `pulldown_cmark::Tag::Link`: the event's target URL field
/// is replaced; nothing else changes, and an event of another shape is
/// left alone.
#[verifier::external_body]
pub fn set_link_url(events: &mut Vec<pulldown_cmark::Event<'static>>, i: usize, url: String)
    requires
        i < old(events)@.len(),
    ensures
        final(events)@.len() == old(events)@.len(),
{
    if let pulldown_cmark::Event::Start(pulldown_cmark::Tag::Link { dest_url, .. }) =
        &mut events[i] {
        *dest_url = pulldown_cmark::CowStr::from(url);
    }
}

/// Relies on `pulldown_cmark::Tag::Heading`: the event's identifier
/// field is filled in; nothing else changes, and an event of another
/// shape is left alone.
#[verifier::external_body]
pub fn set_heading_id(events: &mut Vec<pulldown_cmark::Event<'static>>, i: usize, id: String)
    requires
        i < old(events)@.len(),
    ensures
        final(events)@.len() == old(events)@.len(),
{
    if let pulldown_cmark::Event::Start(pulldown_cmark::Tag::Heading { id: id_slot, .. }) =
        &mut events[i] {
        *id_slot = Some(pulldown_cmark::CowStr::from(id));
    }
}

/// Relies on `pulldown_cmark::html::push_html`: it renders the events
/// into HTML, appended to an empty string.
#[verifier::external_body]
pub fn events_to_html(events: Vec<pulldown_cmark::Event<'static>>) -> String {
    let mut s = String::new();
    pulldown_cmark::html::push_html(&mut s, events.into_iter());
    s
}

/// The text lowercased, as Unicode defines it; it depends on the text
/// alone.
pub uninterp spec fn lower_of(s: Seq<char>) -> Seq<char>;

/// Relies on `str::to_lowercase`: the result depends on the characters
/// alone, and an empty text stays empty.
#[verifier::external_body]
pub fn lowercase(s: &str) -> (r: String)
    ensures
        r@ == lower_of(s@),
        s@.len() == 0 ==> r@.len() == 0,
{
    s.to_lowercase()
}

/// The slug characters a lowercased text keeps: letters and digits
/// stay, spaces become hyphens, everything else is dropped.
pub open spec fn slug_filter(s: Seq<char>) -> Seq<char>
    decreases s.len(),
{
    if s.len() == 0 {
        Seq::empty()
    } else {
        slug_filter(s.drop_last()) + (if s.last() == ' ' {
            seq!['-']
        } else if alnum_char(s.last()) {
            seq![s.last()]
        } else {
            Seq::empty()
        })
    }
}

/// The URL-safe identifier derived from a heading text.
pub open spec fn slug_of(s: Seq<char>) -> Seq<char> {
    slug_filter(lower_of(s))
}

/// Derive the URL-safe identifier of a heading text: lowercase it, keep
/// letters and digits, turn spaces into hyphens, drop the rest.
pub fn slugify(s: &str) -> (r: String)
    ensures
        r@ == slug_of(s@),
{
    let lower = lowercase(s);
    let len = lower.as_str().unicode_len();
    let mut out = String::new();
    let mut i: usize = 0;
    while i < len
        invariant
            0 <= i <= len,
            len == lower@.len(),
            lower@ == lower_of(s@),
            out@ == slug_filter(lower@.take(i as int)),
        decreases len - i,
    {
        let c = lower.as_str().get_char(i);
        proof {
            assert(lower@.take(i + 1).drop_last() =~= lower@.take(i as int));
            assert(lower@.take(i + 1).last() == lower@[i as int]);
        }
        if c == ' ' {
            out.push('-');
            proof {
                assert(out@ =~= slug_filter(lower@.take(i + 1)));
            }
        } else if c.is_alphanumeric() {
            out.push(c);
            proof {
                assert(out@ =~= slug_filter(lower@.take(i + 1)));
            }
        } else {
            proof {
                assert(out@ =~= slug_filter(lower@.take(i + 1)));
            }
        }
        i += 1;
    }
    proof {
        assert(lower@.take(len as int) =~= lower@);
    }
    out
}

/// The decimal digit character for a value below ten.
pub open spec fn digit_char(n: nat) -> char {
    if n == 0 {
        '0'
    } else if n == 1 {
        '1'
    } else if n == 2 {
        '2'
    } else if n == 3 {
        '3'
    } else if n == 4 {
        '4'
    } else if n == 5 {
        '5'
    } else if n == 6 {
        '6'
    } else if n == 7 {
        '7'
    } else if n == 8 {
        '8'
    } else {
        '9'
    }
}

/// The decimal writing of a number.
pub open spec fn dec_str(n: nat) -> Seq<char>
    decreases n,
{
    if n < 10 {
        seq![digit_char(n)]
    } else {
        dec_str(n / 10).push(digit_char(n % 10))
    }
}

/// The decimal digit character of a value below ten.
pub fn digit_to_char(n: u32) -> (c: char)
    requires
        n < 10,
    ensures
        c == digit_char(n as nat),
{
    if n == 0 {
        '0'
    } else if n == 1 {
        '1'
    } else if n == 2 {
        '2'
    } else if n == 3 {
        '3'
    } else if n == 4 {
        '4'
    } else if n == 5 {
        '5'
    } else if n == 6 {
        '6'
    } else if n == 7 {
        '7'
    } else if n == 8 {
        '8'
    } else {
        '9'
    }
}

/// Write a number out in decimal.
pub fn u64_to_string(n: u64) -> (r: String)
    ensures
        r@ == dec_str(n as nat),
    decreases n,
{
    if n < 10 {
        let mut s = String::new();
        s.push(digit_to_char(n as u32));
        proof {
            assert(s@ =~= dec_str(n as nat));
        }
        s
    } else {
        let mut s = u64_to_string(n / 10);
        s.push(digit_to_char((n % 10) as u32));
        s
    }
}

/// Write a length out in decimal.
pub fn usize_to_string(n: usize) -> (r: String)
    ensures
        r@ == dec_str(n as nat),
{
    u64_to_string(n as u64)
}

} // verus!
