use crate::text::owned;
use vstd::prelude::*;
use vstd::string::StringExecFns;

verus! {

/// The text that `str::replace` makes of `text` when every match of
/// `from` is replaced by `to`.
pub uninterp spec fn replaced(text: Seq<char>, from: Seq<char>, to: Seq<char>) -> Seq<char>;

/// The text that `htmlescape::encode_attribute` makes of a text.
pub uninterp spec fn html_attribute_encoded(text: Seq<char>) -> Seq<char>;

/// The text that `urlencoding::encode` makes of a text.
pub uninterp spec fn percent_encoded(text: Seq<char>) -> Seq<char>;

/// Calls `str::replace`; the text is the one named by [`replaced`].
#[verifier::external_body]
pub(crate) fn replace_all(text: &str, from: &str, to: &str) -> (r: String)
    ensures
        r@ == replaced(text@, from@, to@),
{
    text.replace(from, to)
}

/// Calls `htmlescape::encode_attribute`; the text is the one named by
/// [`html_attribute_encoded`].
#[verifier::external_body]
pub(crate) fn html_encode_attribute(text: &str) -> (r: String)
    ensures
        r@ == html_attribute_encoded(text@),
{
    htmlescape::encode_attribute(text)
}

/// Calls `urlencoding::encode`; the text is the one named by
/// [`percent_encoded`].
#[verifier::external_body]
pub(crate) fn percent_encode(text: &str) -> (r: String)
    ensures
        r@ == percent_encoded(text@),
{
    urlencoding::encode(text)
}

/// The placeholder that stands for the parameter `key` in a template.
pub open spec fn placeholder(key: Seq<char>) -> Seq<char> {
    seq!['{', '{'] + key + seq!['}', '}']
}

/// The template after the parameters were filled in, one after the other.
pub open spec fn filled(template: Seq<char>, params: Seq<(&str, &str)>) -> Seq<char>
    decreases params.len(),
{
    if params.len() == 0 {
        template
    } else {
        replaced(
            filled(template, params.drop_last()),
            placeholder(params.last().0@),
            params.last().1@,
        )
    }
}

/// What `render_template` gives: the filled template, and the empty text
/// where there is no parameter at all.
pub open spec fn rendered(template: Seq<char>, params: Seq<(&str, &str)>) -> Seq<char> {
    if params.len() == 0 {
        Seq::empty()
    } else {
        filled(template, params)
    }
}

/// Fills the parameters into the template: every `{{key}}` becomes the
/// value given for `key`. Template and values must be escaped already.
pub fn render_template(escaped_template: &str, params: &Vec<(&str, &str)>) -> (r: String)
    ensures
        r@ == rendered(escaped_template@, params@),
{
    let mut result = String::new();
    let mut i: usize = 0;
    while i < params.len()
        invariant
            i <= params@.len(),
            result@ == rendered(escaped_template@, params@.subrange(0, i as int)),
        decreases params@.len() - i,
    {
        let (k, v) = params[i];
        let mut full_key = owned("{{");
        full_key.append(k);
        full_key.append("}}");
        proof {
            reveal_strlit("{{");
            reveal_strlit("}}");
            assert(full_key@ =~= placeholder(k@));
            assert(params@.subrange(0, i + 1).drop_last() =~= params@.subrange(0, i as int));
            assert(params@.subrange(0, i + 1).last() == params@[i as int]);
            assert(filled(escaped_template@, params@.subrange(0, i + 1)) == replaced(
                filled(escaped_template@, params@.subrange(0, i as int)),
                placeholder(k@),
                v@,
            ));
            if i == 0 {
                assert(filled(escaped_template@, params@.subrange(0, 0)) == escaped_template@);
            }
        }
        if i == 0 {
            result = replace_all(escaped_template, full_key.as_str(), v);
        } else {
            result = replace_all(result.as_str(), full_key.as_str(), v);
        }
        i = i + 1;
    }
    proof {
        assert(params@.subrange(0, i as int) =~= params@);
    }
    result
}

/// A text that is known to be escaped for some context.
pub trait EscapedString: Sized {
    /// The escaped text.
    spec fn text(&self) -> Seq<char>;

    /// What escaping makes of a text.
    spec fn escape(unescaped: Seq<char>) -> Seq<char>;

    fn as_str(&self) -> (s: &str)
        ensures
            s@ == self.text(),
    ;

    fn from_unescaped(unescaped_str: &str) -> (e: Self)
        ensures
            e.text() == Self::escape(unescaped_str@),
    ;

    fn already_escaped(escaped_str: String) -> (e: Self)
        ensures
            e.text() == escaped_str@,
    ;
}

/// A text escaped for use in an HTML attribute.
#[derive(Debug)]
pub struct HtmlEscapedString(String);

impl EscapedString for HtmlEscapedString {
    closed spec fn text(&self) -> Seq<char> {
        self.0@
    }

    open spec fn escape(unescaped: Seq<char>) -> Seq<char> {
        html_attribute_encoded(unescaped)
    }

    fn as_str(&self) -> (s: &str) {
        self.0.as_str()
    }

    fn from_unescaped(unescaped_str: &str) -> (e: Self) {
        HtmlEscapedString(html_encode_attribute(unescaped_str))
    }

    fn already_escaped(escaped_str: String) -> (e: Self) {
        HtmlEscapedString(escaped_str)
    }
}

impl HtmlEscapedString {
    /// The length of the escaped text in bytes.
    pub fn len(&self) -> (n: usize)
        ensures
            n == vstd::utf8::encode_utf8(self.text()).len() as usize,
    {
        self.0.as_str().len()
    }
}

impl AsRef<str> for HtmlEscapedString {
    fn as_ref(&self) -> (s: &str)
        ensures
            s@ == self.text(),
    {
        self.0.as_str()
    }
}

/// A text escaped for use in a URI.
#[derive(Debug)]
pub struct UriEscapedString(String);

impl EscapedString for UriEscapedString {
    closed spec fn text(&self) -> Seq<char> {
        self.0@
    }

    open spec fn escape(unescaped: Seq<char>) -> Seq<char> {
        percent_encoded(unescaped)
    }

    fn as_str(&self) -> (s: &str) {
        self.0.as_str()
    }

    fn from_unescaped(unescaped_str: &str) -> (e: Self) {
        UriEscapedString(percent_encode(unescaped_str))
    }

    fn already_escaped(escaped_str: String) -> (e: Self) {
        UriEscapedString(escaped_str)
    }
}

impl AsRef<str> for UriEscapedString {
    fn as_ref(&self) -> (s: &str)
        ensures
            s@ == self.text(),
    {
        self.0.as_str()
    }
}

} // verus!
