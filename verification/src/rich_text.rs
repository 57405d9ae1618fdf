//! Inline text: annotated spans and their Markdown.

use crate::text::{
    all_whitespace, char_is_whitespace, chars_of, is_leading_run, is_trailing_run, is_whitespace,
    leading_whitespace, lemma_leading_run, lemma_trailing_run, string_of_range,
    trailing_whitespace,
};
use vstd::prelude::*;
use vstd::string::*;

verus! {

/// The style flags of a span. Each applies on its own; they compose.
#[derive(Debug, Clone, Copy, PartialEq, Eq, Structural)]
pub struct Annotations {
    pub bold: bool,
    pub italic: bool,
    pub strikethrough: bool,
    pub code: bool,
    pub underline: bool,
}

impl Default for Annotations {
    fn default() -> (r: Annotations)
        ensures
            r == (Annotations {
                bold: false,
                italic: false,
                strikethrough: false,
                code: false,
                underline: false,
            }),
    {
        Annotations { bold: false, italic: false, strikethrough: false, code: false, underline: false }
    }
}

/// What a mention stands for; its display title is what gets rendered.
#[derive(Debug, Clone, PartialEq, Eq)]
pub enum Mention {
    /// A link to another page or database, shown by its title.
    LinkMention { title: String },
    /// A user, shown by name.
    User { name: String },
}

impl Mention {
    /// The text shown in place of the mention.
    pub open spec fn title(self) -> Seq<char> {
        match self {
            Mention::LinkMention { title } => title@,
            Mention::User { name } => name@,
        }
    }
}

/// One annotated run of inline text.
#[derive(Debug, Clone, PartialEq, Eq)]
pub enum RichText {
    Text { plain_text: String, href: Option<String>, annotations: Annotations },
    Mention { mention: Mention, href: Option<String>, annotations: Annotations },
}

/// `t` in bold.
pub open spec fn bold_of(t: Seq<char>) -> Seq<char> {
    "**"@ + t + "**"@
}

/// `t` in italic.
pub open spec fn italic_of(t: Seq<char>) -> Seq<char> {
    "_"@ + t + "_"@
}

/// `t` struck through.
pub open spec fn strikethrough_of(t: Seq<char>) -> Seq<char> {
    "~~"@ + t + "~~"@
}

/// `t` as a code span.
pub open spec fn code_of(t: Seq<char>) -> Seq<char> {
    "`"@ + t + "`"@
}

/// `t` underlined.
pub open spec fn underline_of(t: Seq<char>) -> Seq<char> {
    "<u>"@ + t + "</u>"@
}

/// `t` as the text of a link to `url`.
pub open spec fn link_of(t: Seq<char>, url: Seq<char>) -> Seq<char> {
    "["@ + t + "]("@ + url + ")"@
}

/// The whitespace in front of the core; nothing where the content is all whitespace.
pub open spec fn span_leading(s: Seq<char>) -> Seq<char> {
    if all_whitespace(s) {
        Seq::empty()
    } else {
        s.subrange(0, leading_whitespace(s) as int)
    }
}

/// The part of the content that markup wraps: the content without the
/// whitespace around it, or all of it where it is whitespace only.
pub open spec fn span_core(s: Seq<char>) -> Seq<char> {
    if all_whitespace(s) {
        s
    } else {
        s.subrange(leading_whitespace(s) as int, s.len() - trailing_whitespace(s))
    }
}

/// The whitespace behind the core; nothing where the content is all whitespace.
pub open spec fn span_trailing(s: Seq<char>) -> Seq<char> {
    if all_whitespace(s) {
        Seq::empty()
    } else {
        s.subrange(s.len() - trailing_whitespace(s), s.len() as int)
    }
}

/// `base` wrapped in bold, then italic, then strikethrough, then underline,
/// each only where its flag is set.
pub open spec fn styled(base: Seq<char>, a: Annotations) -> Seq<char> {
    let b = if a.bold {
        bold_of(base)
    } else {
        base
    };
    let i = if a.italic {
        italic_of(b)
    } else {
        b
    };
    let s = if a.strikethrough {
        strikethrough_of(i)
    } else {
        i
    };
    if a.underline {
        underline_of(s)
    } else {
        s
    }
}

/// The text of a span before any link is put around it. With `code` set the
/// whole content is one literal code span and no other style applies: a code
/// span stands in no emphasis. Otherwise the styles wrap the core and the
/// surrounding whitespace stays outside them.
pub open spec fn span_body(content: Seq<char>, a: Annotations) -> Seq<char> {
    if a.code {
        code_of(content)
    } else {
        span_leading(content) + styled(span_core(content), a) + span_trailing(content)
    }
}

/// The Markdown of a span with the given content, link target and styles.
pub open spec fn span_markdown(content: Seq<char>, href: Option<String>, a: Annotations) -> Seq<
    char,
> {
    match href {
        Some(url) => link_of(span_body(content, a), url@),
        None => span_body(content, a),
    }
}

/// The Markdown of a run of spans: one after the other, nothing between them.
pub open spec fn spans_markdown(spans: Seq<RichText>) -> Seq<char>
    decreases spans.len(),
{
    if spans.len() == 0 {
        Seq::empty()
    } else {
        spans_markdown(spans.drop_last()) + spans.last().markdown()
    }
}

/// The unstyled text of a run of spans.
pub open spec fn spans_plain_text(spans: Seq<RichText>) -> Seq<char>
    decreases spans.len(),
{
    if spans.len() == 0 {
        Seq::empty()
    } else {
        spans_plain_text(spans.drop_last()) + spans.last().content()
    }
}

impl RichText {
    /// The text that the span shows: its own, or the title of its mention.
    pub open spec fn content(self) -> Seq<char> {
        match self {
            RichText::Text { plain_text, .. } => plain_text@,
            RichText::Mention { mention, .. } => mention.title(),
        }
    }

    /// The Markdown of the span.
    pub open spec fn markdown(self) -> Seq<char> {
        match self {
            RichText::Text { plain_text, href, annotations } => span_markdown(
                plain_text@,
                href,
                annotations,
            ),
            RichText::Mention { mention, href, annotations } => span_markdown(
                mention.title(),
                href,
                annotations,
            ),
        }
    }

    /// Puts `text` in bold.
    pub fn bold(text: &str) -> (r: String)
        ensures
            r@ == bold_of(text@),
    {
        let mut r = String::from_str("**");
        r.append(text);
        r.append("**");
        r
    }

    /// Puts `text` in italic.
    pub fn italic(text: &str) -> (r: String)
        ensures
            r@ == italic_of(text@),
    {
        let mut r = String::from_str("_");
        r.append(text);
        r.append("_");
        r
    }

    /// Strikes `text` through.
    pub fn strikethrough(text: &str) -> (r: String)
        ensures
            r@ == strikethrough_of(text@),
    {
        let mut r = String::from_str("~~");
        r.append(text);
        r.append("~~");
        r
    }

    /// Makes `text` a code span.
    pub fn code(text: &str) -> (r: String)
        ensures
            r@ == code_of(text@),
    {
        let mut r = String::from_str("`");
        r.append(text);
        r.append("`");
        r
    }

    /// Underlines `text`.
    pub fn underline(text: &str) -> (r: String)
        ensures
            r@ == underline_of(text@),
    {
        let mut r = String::from_str("<u>");
        r.append(text);
        r.append("</u>");
        r
    }

    /// Makes `text` the text of a link to `url`.
    pub fn link(text: &str, url: &str) -> (r: String)
        ensures
            r@ == link_of(text@, url@),
    {
        let mut r = String::from_str("[");
        r.append(text);
        r.append("](");
        r.append(url);
        r.append(")");
        r
    }

    /// Renders one span from its parts.
    pub fn text_to_markdown(plain_text: &String, href: &Option<String>, annotations: &Annotations) -> (r:
        String)
        ensures
            r@ == span_markdown(plain_text@, *href, *annotations),
    {
        let markdown_text = if annotations.code {
            Self::code(plain_text.as_str())
        } else {
            let parts = split_span(plain_text.as_str());
            let mut styled_text = parts.1;
            if annotations.bold {
                styled_text = Self::bold(styled_text.as_str());
            }
            if annotations.italic {
                styled_text = Self::italic(styled_text.as_str());
            }
            if annotations.strikethrough {
                styled_text = Self::strikethrough(styled_text.as_str());
            }
            if annotations.underline {
                styled_text = Self::underline(styled_text.as_str());
            }
            let mut joined = parts.0;
            joined.append(styled_text.as_str());
            joined.append(parts.2.as_str());
            joined
        };
        match href {
            Some(url) => Self::link(markdown_text.as_str(), url.as_str()),
            None => markdown_text,
        }
    }

    /// Renders a mention as a span whose content is the mention's title.
    pub fn link_mention_to_markdown(title: &String, href: &Option<String>, annotations: &Annotations) -> (r:
        String)
        ensures
            r@ == span_markdown(title@, *href, *annotations),
    {
        Self::text_to_markdown(title, href, annotations)
    }

    /// Renders the span.
    pub fn to_markdown(&self) -> (r: String)
        ensures
            r@ == self.markdown(),
    {
        match self {
            RichText::Text { plain_text, href, annotations } => Self::text_to_markdown(
                plain_text,
                href,
                annotations,
            ),
            RichText::Mention { mention, href, annotations } => match mention {
                Mention::LinkMention { title } => Self::link_mention_to_markdown(
                    title,
                    href,
                    annotations,
                ),
                Mention::User { name } => Self::link_mention_to_markdown(name, href, annotations),
            },
        }
    }

    /// The text that the span shows, without any markup.
    pub fn plain_text(&self) -> (r: String)
        ensures
            r@ == self.content(),
    {
        match self {
            RichText::Text { plain_text, .. } => plain_text.clone(),
            RichText::Mention { mention, .. } => match mention {
                Mention::LinkMention { title } => title.clone(),
                Mention::User { name } => name.clone(),
            },
        }
    }
}

/// Splits the content of a span into the whitespace in front, the core and
/// the whitespace behind.
pub fn split_span(content: &str) -> (parts: (String, String, String))
    ensures
        parts.0@ == span_leading(content@),
        parts.1@ == span_core(content@),
        parts.2@ == span_trailing(content@),
{
    let v = chars_of(content);
    let n: usize = v.len();
    let mut lead: usize = 0;
    while lead < n && char_is_whitespace(v[lead])
        invariant
            lead <= n == v.len(),
            forall|i: int| 0 <= i < lead ==> is_whitespace(#[trigger] v@[i]),
        decreases n - lead,
    {
        lead = lead + 1;
    }
    if lead == n {
        assert(all_whitespace(v@));
        assert(v@.subrange(0, n as int) == v@);
        return (String::new(), string_of_range(&v, 0, n), String::new());
    }
    assert(!is_whitespace(v@[lead as int]));
    let mut end: usize = n;
    while end > lead && char_is_whitespace(v[end - 1])
        invariant
            lead <= end <= n == v.len(),
            !is_whitespace(v@[lead as int]),
            forall|i: int| end <= i < n ==> is_whitespace(#[trigger] v@[i]),
        decreases end,
    {
        end = end - 1;
    }
    proof {
        assert(end > lead);
        assert(is_leading_run(v@, lead as int));
        assert(is_trailing_run(v@, n - end));
        lemma_leading_run(v@, lead as int);
        lemma_trailing_run(v@, n - end);
    }
    (string_of_range(&v, 0, lead), string_of_range(&v, lead, end), string_of_range(&v, end, n))
}

/// A run of spans that renders as one piece of inline Markdown.
pub trait RichTextVec {
    /// The Markdown of the run.
    spec fn markdown(&self) -> Seq<char>;

    /// Renders the run: each span's Markdown, with nothing in between.
    fn to_markdown(&self) -> (r: String)
        ensures
            r@ == self.markdown(),
    ;
}

impl RichTextVec for Vec<RichText> {
    open spec fn markdown(&self) -> Seq<char> {
        spans_markdown(self@)
    }

    fn to_markdown(&self) -> (r: String) {
        let mut r = String::new();
        let mut i: usize = 0;
        while i < self.len()
            invariant
                i <= self.len(),
                r@ == spans_markdown(self@.take(i as int)),
            decreases self.len() - i,
        {
            let piece = self[i].to_markdown();
            r.append(piece.as_str());
            assert(self@.take(i + 1).drop_last() == self@.take(i as int));
            i = i + 1;
        }
        assert(self@.take(self.len() as int) == self@);
        r
    }
}

/// Concatenates the unstyled text of a run of spans.
pub fn plain_text_of(spans: &Vec<RichText>) -> (r: String)
    ensures
        r@ == spans_plain_text(spans@),
{
    let mut r = String::new();
    let mut i: usize = 0;
    while i < spans.len()
        invariant
            i <= spans.len(),
            r@ == spans_plain_text(spans@.take(i as int)),
        decreases spans.len() - i,
    {
        let piece = spans[i].plain_text();
        r.append(piece.as_str());
        assert(spans@.take(i + 1).drop_last() == spans@.take(i as int));
        i = i + 1;
    }
    assert(spans@.take(spans.len() as int) == spans@);
    r
}

/// Delimiters are never left out: a span without content still shows the
/// pair of every style that is set. In bold alone, with no link, that is
/// exactly `****`.
pub proof fn lemma_empty_bold(href: Option<String>, a: Annotations)
    requires
        a.bold,
        !a.code,
    ensures
        span_body(Seq::empty(), a) == styled(Seq::empty(), a),
        styled(Seq::empty(), a) == styled(
            "****"@,
            Annotations { bold: false, ..a },
        ),
        !a.italic && !a.strikethrough && !a.underline && href is None ==> span_markdown(
            Seq::empty(),
            href,
            a,
        ) == "****"@,
{
    reveal_strlit("**");
    reveal_strlit("****");
    let e = Seq::<char>::empty();
    assert(all_whitespace(e));
    assert(bold_of(e) =~= "****"@);
    assert(span_body(e, a) =~= styled(e, a));
}

/// `t` in bold where `on` is set, else as it is.
pub open spec fn bold_if(on: bool, t: Seq<char>) -> Seq<char> {
    if on {
        bold_of(t)
    } else {
        t
    }
}

/// `t` in italic where `on` is set, else as it is.
pub open spec fn italic_if(on: bool, t: Seq<char>) -> Seq<char> {
    if on {
        italic_of(t)
    } else {
        t
    }
}

/// `t` struck through where `on` is set, else as it is.
pub open spec fn strikethrough_if(on: bool, t: Seq<char>) -> Seq<char> {
    if on {
        strikethrough_of(t)
    } else {
        t
    }
}

/// `t` underlined where `on` is set, else as it is.
pub open spec fn underline_if(on: bool, t: Seq<char>) -> Seq<char> {
    if on {
        underline_of(t)
    } else {
        t
    }
}

/// `t` as the text of a link where there is a target, else as it is.
pub open spec fn link_if(href: Option<String>, t: Seq<char>) -> Seq<char> {
    match href {
        Some(url) => link_of(t, url@),
        None => t,
    }
}

/// The order of wrapping is fixed, whatever styles are set. The core sits
/// in bold, that in italic, that in strikethrough, that in underline; the
/// whitespace of the content goes around, and the link around everything.
/// Code is exclusive of the other styles: with `code` set the untrimmed
/// content sits in backticks and in nothing else but the link.
pub proof fn lemma_wrapping_order(content: Seq<char>, href: Option<String>, a: Annotations)
    ensures
        !a.code ==> span_markdown(content, href, a) == link_if(
            href,
            span_leading(content) + underline_if(
                a.underline,
                strikethrough_if(
                    a.strikethrough,
                    italic_if(a.italic, bold_if(a.bold, span_core(content))),
                ),
            ) + span_trailing(content),
        ),
        a.code ==> span_markdown(content, href, a) == link_if(href, code_of(content)),
        a.code && href is None ==> span_markdown(content, href, a) == code_of(content),
{
}

fn copy_href(href: &Option<String>) -> (r: Option<String>)
    ensures
        r == *href,
{
    match href {
        Some(url) => Some(url.clone()),
        None => None,
    }
}

impl RichText {
    /// A second span like this one.
    pub fn duplicate(&self) -> (r: RichText)
        ensures
            r == *self,
    {
        match self {
            RichText::Text { plain_text, href, annotations } => RichText::Text {
                plain_text: plain_text.clone(),
                href: copy_href(href),
                annotations: *annotations,
            },
            RichText::Mention { mention, href, annotations } => {
                let mention = match mention {
                    Mention::LinkMention { title } => Mention::LinkMention { title: title.clone() },
                    Mention::User { name } => Mention::User { name: name.clone() },
                };
                RichText::Mention { mention, href: copy_href(href), annotations: *annotations }
            },
        }
    }
}

/// A second run of spans like `spans`.
pub fn duplicate_spans(spans: &Vec<RichText>) -> (r: Vec<RichText>)
    ensures
        r@ == spans@,
{
    let mut r: Vec<RichText> = Vec::new();
    let mut i: usize = 0;
    while i < spans.len()
        invariant
            i <= spans.len(),
            r@ == spans@.take(i as int),
        decreases spans.len() - i,
    {
        r.push(spans[i].duplicate());
        assert(spans@.take(i as int).push(spans@[i as int]) == spans@.take(i + 1));
        i = i + 1;
    }
    assert(spans@.take(spans.len() as int) == spans@);
    r
}

} // verus!
