//! Reads blocks and inline text from the JSON that the listing sends.

pub mod blocks;

use crate::json::{lemma_views, views, Json, JsonView};
use crate::rich_text::{Annotations, Mention, RichText};
use crate::text::optional_text;
use vstd::prelude::*;
use vstd::string::*;

verus! {

/// `value` is the flag that `j` holds under `key`: the member itself if it
/// is a boolean, `false` where there is no such member or it is `null`.
pub open spec fn flag_decoded(j: JsonView, key: Seq<char>, value: bool) -> bool {
    match j.get_some(key) {
        None => !value,
        Some(JsonView::Bool(b)) => value == b,
        Some(_) => false,
    }
}

/// `text` is the optional string that `j` holds under `key`: nothing where
/// there is no such member or it is `null`.
pub open spec fn optional_text_decoded(j: JsonView, key: Seq<char>, text: Option<Seq<char>>) -> bool {
    match j.get_some(key) {
        None => text is None,
        Some(JsonView::Str(s)) => text == Some(s),
        Some(_) => false,
    }
}

/// `a` holds the style flags of the span `j`: those under `annotations`,
/// each `false` where it is not given.
pub open spec fn annotations_decoded(j: JsonView, a: Annotations) -> bool {
    match j.get_some("annotations"@) {
        None => a == (Annotations {
            bold: false,
            italic: false,
            strikethrough: false,
            code: false,
            underline: false,
        }),
        Some(flags) => {
            &&& flag_decoded(flags, "bold"@, a.bold)
            &&& flag_decoded(flags, "italic"@, a.italic)
            &&& flag_decoded(flags, "strikethrough"@, a.strikethrough)
            &&& flag_decoded(flags, "code"@, a.code)
            &&& flag_decoded(flags, "underline"@, a.underline)
        },
    }
}

/// `mention` is what the object `j` mentions: a user by name, or a link by
/// its title.
pub open spec fn mention_decoded(j: JsonView, mention: Mention) -> bool {
    match mention {
        Mention::User { name } => {
            &&& j.text_at("type"@) == Some("user"@)
            &&& j.get("user"@) matches Some(user)
            &&& user.text_at("name"@) == Some(name@)
        },
        Mention::LinkMention { title } => {
            &&& j.text_at("type"@) == Some("link_mention"@)
            &&& j.get("link_mention"@) matches Some(link)
            &&& link.text_at("title"@) == Some(title@)
        },
    }
}

/// `span` is the span that the object `j` describes. Its `type` says
/// whether it is text, with the text under `plain_text`, or a mention, with
/// the mention under `mention`; `href` and `annotations` may be missing.
pub open spec fn span_decoded(j: JsonView, span: RichText) -> bool {
    match span {
        RichText::Text { plain_text, href, annotations } => {
            &&& j.text_at("type"@) == Some("text"@)
            &&& j.text_at("plain_text"@) == Some(plain_text@)
            &&& optional_text_decoded(j, "href"@, optional_text(href))
            &&& annotations_decoded(j, annotations)
        },
        RichText::Mention { mention, href, annotations } => {
            &&& j.text_at("type"@) == Some("mention"@)
            &&& j.get("mention"@) matches Some(m)
            &&& mention_decoded(m, mention)
            &&& optional_text_decoded(j, "href"@, optional_text(href))
            &&& annotations_decoded(j, annotations)
        },
    }
}

/// `spans` are the spans that the array `j` describes, one for one.
pub open spec fn spans_decoded(j: JsonView, spans: Seq<RichText>) -> bool {
    &&& j matches JsonView::Array(items)
    &&& items.len() == spans.len()
    &&& forall|i: int| 0 <= i < items.len() ==> span_decoded(items[i], #[trigger] spans[i])
}

/// Reads a flag: see `flag_decoded`.
pub fn decode_flag(j: &Json, key: &str) -> (r: Option<bool>)
    ensures
        match r {
            Some(value) => flag_decoded(j@, key@, value),
            None => forall|value: bool| !flag_decoded(j@, key@, value),
        },
{
    match j.get_some(key) {
        None => Some(false),
        Some(Json::Bool(b)) => Some(*b),
        Some(_) => None,
    }
}

/// Reads an optional string: see `optional_text_decoded`.
pub fn decode_optional_text(j: &Json, key: &str) -> (r: Option<Option<String>>)
    ensures
        match r {
            Some(text) => optional_text_decoded(j@, key@, optional_text(text)),
            None => forall|text: Option<Seq<char>>| !optional_text_decoded(j@, key@, text),
        },
{
    match j.get_some(key) {
        None => Some(None),
        Some(Json::Str(s)) => Some(Some(s.clone())),
        Some(_) => None,
    }
}

/// Reads the style flags of a span: see `annotations_decoded`.
pub fn decode_annotations(j: &Json) -> (r: Option<Annotations>)
    ensures
        match r {
            Some(a) => annotations_decoded(j@, a),
            None => forall|a: Annotations| !annotations_decoded(j@, a),
        },
{
    match j.get_some("annotations") {
        None => Some(Annotations::default()),
        Some(flags) => {
            let bold = decode_flag(flags, "bold");
            let italic = decode_flag(flags, "italic");
            let strikethrough = decode_flag(flags, "strikethrough");
            let code = decode_flag(flags, "code");
            let underline = decode_flag(flags, "underline");
            match (bold, italic, strikethrough, code, underline) {
                (Some(bold), Some(italic), Some(strikethrough), Some(code), Some(underline)) => Some(
                    Annotations { bold, italic, strikethrough, code, underline },
                ),
                _ => None,
            }
        },
    }
}

/// Reads a mention: see `mention_decoded`.
pub fn decode_mention(j: &Json) -> (r: Option<Mention>)
    ensures
        match r {
            Some(mention) => mention_decoded(j@, mention),
            None => forall|mention: Mention| !mention_decoded(j@, mention),
        },
{
    proof {
        reveal_strlit("user");
        reveal_strlit("link_mention");
        assert("user"@.len() == 4 && "link_mention"@.len() == 12);
        assert("user"@ != "link_mention"@);
    }
    let kind = match j.text_at("type") {
        Some(kind) => kind,
        None => {
            return None;
        },
    };
    if crate::text::text_eq(kind.as_str(), "user") {
        match j.get("user") {
            Some(user) => match user.text_at("name") {
                Some(name) => Some(Mention::User { name: name.clone() }),
                None => None,
            },
            None => None,
        }
    } else if crate::text::text_eq(kind.as_str(), "link_mention") {
        match j.get("link_mention") {
            Some(link) => match link.text_at("title") {
                Some(title) => Some(Mention::LinkMention { title: title.clone() }),
                None => None,
            },
            None => None,
        }
    } else {
        None
    }
}

impl RichText {
    /// Reads a span: see `span_decoded`.
    pub fn from_json(j: &Json) -> (r: Option<RichText>)
        ensures
            match r {
                Some(span) => span_decoded(j@, span),
                None => forall|span: RichText| !span_decoded(j@, span),
            },
    {
        proof {
            reveal_strlit("text");
            reveal_strlit("mention");
            assert("text"@.len() == 4 && "mention"@.len() == 7);
            assert("text"@ != "mention"@);
        }
        let kind = match j.text_at("type") {
            Some(kind) => kind,
            None => {
                return None;
            },
        };
        let href = match decode_optional_text(j, "href") {
            Some(href) => href,
            None => {
                return None;
            },
        };
        let annotations = match decode_annotations(j) {
            Some(annotations) => annotations,
            None => {
                return None;
            },
        };
        if crate::text::text_eq(kind.as_str(), "text") {
            match j.text_at("plain_text") {
                Some(plain_text) => Some(
                    RichText::Text { plain_text: plain_text.clone(), href, annotations },
                ),
                None => None,
            }
        } else if crate::text::text_eq(kind.as_str(), "mention") {
            match j.get("mention") {
                Some(m) => match decode_mention(m) {
                    Some(mention) => Some(RichText::Mention { mention, href, annotations }),
                    None => None,
                },
                None => None,
            }
        } else {
            None
        }
    }
}

/// Reads a run of spans: see `spans_decoded`.
pub fn decode_spans(j: &Json) -> (r: Option<Vec<RichText>>)
    ensures
        match r {
            Some(spans) => spans_decoded(j@, spans@),
            None => forall|spans: Seq<RichText>| !spans_decoded(j@, spans),
        },
{
    let items = match j.as_items() {
        Some(items) => items,
        None => {
            return None;
        },
    };
    proof {
        lemma_views(items@);
    }
    let mut spans: Vec<RichText> = Vec::new();
    let mut i: usize = 0;
    while i < items.len()
        invariant
            i <= items.len(),
            j@ == JsonView::Array(views(items@)),
            views(items@).len() == items.len(),
            forall|k: int| 0 <= k < items.len() ==> views(items@)[k] == items@[k]@,
            spans@.len() == i,
            forall|k: int| 0 <= k < i ==> span_decoded(items@[k]@, #[trigger] spans@[k]),
        decreases items.len() - i,
    {
        match RichText::from_json(&items[i]) {
            Some(span) => spans.push(span),
            None => {
                assert forall|other: Seq<RichText>| !spans_decoded(j@, other) by {
                    if spans_decoded(j@, other) {
                        assert(span_decoded(views(items@)[i as int], other[i as int]));
                    }
                }
                return None;
            },
        }
        i = i + 1;
    }
    Some(spans)
}

} // verus!
