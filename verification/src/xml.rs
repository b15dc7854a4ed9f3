//! A minimal XML element builder: names, attribute names and values, and
//! text are escaped once, at insertion, with the fixed five-character escape
//! table; rendering concatenates the stored pieces depth-first with no
//! inserted whitespace, as `<name a="v">body</name>`.

use vstd::prelude::*;

verus! {

use vstd::string::{StrSliceExecFns, StringExecFns};

/// Whether the escape table replaces this character.
pub open spec fn is_escaped_char(c: char) -> bool {
    c == '&' || c == '"' || c == '\'' || c == '<' || c == '>'
}

/// What one character contributes to an escaped string: its named entity for
/// the five reserved characters, itself for every other character.
pub open spec fn esc_char(c: char) -> Seq<char> {
    if c == '&' {
        seq!['&', 'a', 'm', 'p', ';']
    } else if c == '"' {
        seq!['&', 'q', 'u', 'o', 't', ';']
    } else if c == '\'' {
        seq!['&', 'a', 'p', 'o', 's', ';']
    } else if c == '<' {
        seq!['&', 'l', 't', ';']
    } else if c == '>' {
        seq!['&', 'g', 't', ';']
    } else {
        seq![c]
    }
}

/// The escaped form of a string: each character replaced by [`esc_char`].
pub open spec fn escape(s: Seq<char>) -> Seq<char>
    decreases s.len(),
{
    if s.len() == 0 {
        Seq::empty()
    } else {
        esc_char(s[0]) + escape(s.drop_first())
    }
}

/// Escaping distributes over concatenation.
pub proof fn lemma_escape_concat(a: Seq<char>, b: Seq<char>)
    ensures
        escape(a + b) == escape(a) + escape(b),
    decreases a.len(),
{
    if a.len() == 0 {
        assert(a + b =~= b);
        assert(escape(a) + escape(b) =~= escape(b));
    } else {
        assert((a + b).drop_first() =~= a.drop_first() + b);
        lemma_escape_concat(a.drop_first(), b);
        assert(escape(a + b) =~= escape(a) + escape(b));
    }
}

/// A single character escapes to exactly its [`esc_char`] expansion.
pub proof fn lemma_escape_single(c: char)
    ensures
        escape(seq![c]) == esc_char(c),
{
    assert(seq![c].drop_first() =~= Seq::<char>::empty());
    assert(escape(Seq::<char>::empty()) == Seq::<char>::empty());
    assert(escape(seq![c]) == esc_char(seq![c][0]) + escape(seq![c].drop_first()));
    assert(esc_char(c) + Seq::<char>::empty() =~= esc_char(c));
}

/// A string free of the five reserved characters is unchanged by escaping.
pub proof fn lemma_escape_unchanged(s: Seq<char>)
    requires
        forall|i: int| 0 <= i < s.len() ==> !is_escaped_char(s[i]),
    ensures
        escape(s) == s,
    decreases s.len(),
{
    if s.len() == 0 {
        assert(escape(s) =~= s);
    } else {
        lemma_escape_unchanged(s.drop_first());
        assert(escape(s) =~= s);
    }
}

proof fn lemma_escape_snoc(s: Seq<char>, c: char)
    ensures
        escape(s.push(c)) == escape(s) + esc_char(c),
{
    assert(s.push(c) =~= s + seq![c]);
    lemma_escape_concat(s, seq![c]);
    lemma_escape_single(c);
}

/// Relies on `String::push`: appends exactly one character.
#[verifier::external_body]
pub fn push_char(s: &mut String, c: char)
    ensures
        final(s)@ == old(s)@ + seq![c],
{
    s.push(c);
}

/// The escaped form of a string, per the fixed five-character escape table.
pub fn xml_escape(s: &str) -> (r: String)
    ensures
        r@ == escape(s@),
{
    let n = s.unicode_len();
    let mut r = String::new();
    let mut i: usize = 0;
    while i < n
        invariant
            i <= n,
            n == s@.len(),
            r@ == escape(s@.take(i as int)),
        decreases n - i,
    {
        let c = s.get_char(i);
        if c == '&' {
            r.append("&amp;");
        } else if c == '"' {
            r.append("&quot;");
        } else if c == '\'' {
            r.append("&apos;");
        } else if c == '<' {
            r.append("&lt;");
        } else if c == '>' {
            r.append("&gt;");
        } else {
            push_char(&mut r, c);
        }
        proof {
            reveal_strlit("&amp;");
            reveal_strlit("&quot;");
            reveal_strlit("&apos;");
            reveal_strlit("&lt;");
            reveal_strlit("&gt;");
            assert("&amp;"@ =~= seq!['&', 'a', 'm', 'p', ';']);
            assert("&quot;"@ =~= seq!['&', 'q', 'u', 'o', 't', ';']);
            assert("&apos;"@ =~= seq!['&', 'a', 'p', 'o', 's', ';']);
            assert("&lt;"@ =~= seq!['&', 'l', 't', ';']);
            assert("&gt;"@ =~= seq!['&', 'g', 't', ';']);
            lemma_escape_snoc(s@.take(i as int), s@[i as int]);
            assert(s@.take(i + 1) =~= s@.take(i as int).push(s@[i as int]));
        }
        i = i + 1;
    }
    proof {
        assert(s@.take(n as int) =~= s@);
    }
    r
}

/// One text fragment of an element body; escaped when rendered into it.
pub struct XmlText {
    pub text: String,
}

impl XmlText {
    /// The fragment's contribution to the document: its escaped text.
    pub fn to_xml(&self) -> (r: String)
        ensures
            r@ == escape(self.text@),
    {
        xml_escape(self.text.as_str())
    }
}

/// The rendered form of one attribute: `name="value"`, both parts escaped.
pub open spec fn attr_str_v(name: Seq<char>, value: Seq<char>) -> Seq<char> {
    escape(name) + seq!['=', '"'] + escape(value) + seq!['"']
}

/// One attribute, rendered as `name="value"` with both parts escaped.
pub struct XmlAttribute {
    pub name: String,
    pub value: String,
}

impl XmlAttribute {
    /// The attribute's rendered form.
    pub fn to_xml(&self) -> (r: String)
        ensures
            r@ == attr_str_v(self.name@, self.value@),
    {
        let mut r = xml_escape(self.name.as_str());
        r.append("=\"");
        let v = xml_escape(self.value.as_str());
        r.append(v.as_str());
        r.append("\"");
        proof {
            reveal_strlit("=\"");
            reveal_strlit("\"");
            assert("=\""@ =~= seq!['=', '"']);
            assert("\""@ =~= seq!['"']);
            assert(r@ =~= attr_str_v(self.name@, self.value@));
        }
        r
    }
}

/// The views of a vector of stored string pieces.
pub open spec fn strs_view(v: Seq<String>) -> Seq<Seq<char>> {
    v.map_values(|s: String| s@)
}

/// The rendered attribute block: one space before each rendered attribute,
/// so it is empty exactly when there are no attributes.
pub open spec fn attrs_str_v(attrs: Seq<Seq<char>>) -> Seq<char>
    decreases attrs.len(),
{
    if attrs.len() == 0 {
        Seq::empty()
    } else {
        attrs_str_v(attrs.drop_last()) + seq![' '] + attrs.last()
    }
}

/// The concatenation of rendered body pieces, in insertion order.
pub open spec fn cat_v(pieces: Seq<Seq<char>>) -> Seq<char>
    decreases pieces.len(),
{
    if pieces.len() == 0 {
        Seq::empty()
    } else {
        cat_v(pieces.drop_last()) + pieces.last()
    }
}

/// The rendered form of an element with the given (escaped) name, rendered
/// attributes, and rendered body pieces:
/// `<name a="v">body</name>`, with no whitespace beyond the single space
/// before each attribute, and no self-closing shorthand.
pub open spec fn elem_str_v(name: Seq<char>, attrs: Seq<Seq<char>>, body: Seq<Seq<char>>) -> Seq<
    char,
> {
    seq!['<'] + name + attrs_str_v(attrs) + seq!['>'] + cat_v(body) + seq!['<', '/'] + name
        + seq!['>']
}

/// The rendered form of an element whose sole body piece is one escaped text
/// fragment and which carries no attributes.
pub open spec fn text_elem_v(name: Seq<char>, text: Seq<char>) -> Seq<char> {
    elem_str_v(escape(name), Seq::empty(), seq![escape(text)])
}

/// The rendered forms of a sequence of elements.
pub open spec fn elems_rendered(s: Seq<XmlElement>) -> Seq<Seq<char>> {
    s.map_values(|e: XmlElement| xml_of(e))
}

/// An element whose sole body piece is one text fragment; name and text are
/// escaped here, at insertion.
pub fn text_element(name: &str, text: &str) -> (e: XmlElement)
    ensures
        xml_of(e) == text_elem_v(name@, text@),
{
    let e = XmlElement::new(name).with_text(text);
    proof {
        assert(strs_view(e.attrs@) =~= Seq::<Seq<char>>::empty());
        assert(strs_view(e.body@) =~= seq![escape(text@)]);
    }
    e
}

/// An XML element under construction: an escaped name, rendered attributes,
/// and rendered body pieces (text fragments and child elements), each
/// escaped once at insertion and kept in insertion order.
#[derive(Debug)]
pub struct XmlElement {
    pub name: String,
    pub attrs: Vec<String>,
    pub body: Vec<String>,
}

/// The rendered form of an element value.
pub open spec fn xml_of(e: XmlElement) -> Seq<char> {
    elem_str_v(e.name@, strs_view(e.attrs@), strs_view(e.body@))
}

impl XmlElement {
    /// An empty element; the name is escaped here, at insertion.
    pub fn new(name: &str) -> (r: XmlElement)
        ensures
            r.name@ == escape(name@),
            r.attrs@.len() == 0,
            r.body@.len() == 0,
    {
        XmlElement { name: xml_escape(name), attrs: Vec::new(), body: Vec::new() }
    }

    /// The element with one attribute appended; name and value are escaped
    /// here, at insertion.
    pub fn with_attr(self, name: &str, value: &str) -> (r: XmlElement)
        ensures
            r.name == self.name,
            strs_view(r.attrs@) == strs_view(self.attrs@).push(attr_str_v(name@, value@)),
            r.body == self.body,
    {
        let piece = XmlAttribute { name: name.to_owned(), value: value.to_owned() }.to_xml();
        let mut r = self;
        r.attrs.push(piece);
        proof {
            assert(strs_view(r.attrs@) =~= strs_view(self.attrs@).push(
                attr_str_v(name@, value@),
            ));
        }
        r
    }

    /// The element with a rendered child element appended to its body; the
    /// child's pieces were escaped when the child was built, and are not
    /// escaped again.
    pub fn with_element(self, element: &XmlElement) -> (r: XmlElement)
        ensures
            r.name == self.name,
            r.attrs == self.attrs,
            strs_view(r.body@) == strs_view(self.body@).push(xml_of(*element)),
    {
        let piece = element.to_xml();
        let mut r = self;
        r.body.push(piece);
        proof {
            assert(strs_view(r.body@) =~= strs_view(self.body@).push(xml_of(*element)));
        }
        r
    }

    /// The element with a child appended whose sole body piece is one text
    /// fragment; name and text are escaped here, at insertion.
    pub fn with_text_element(self, name: &str, text: &str) -> (r: XmlElement)
        ensures
            r.name == self.name,
            r.attrs == self.attrs,
            strs_view(r.body@) == strs_view(self.body@).push(
                elem_str_v(escape(name@), Seq::empty(), seq![escape(text@)]),
            ),
    {
        let child = XmlElement::new(name).with_text(text);
        proof {
            assert(strs_view(child.attrs@) =~= Seq::<Seq<char>>::empty());
            assert(strs_view(child.body@) =~= seq![escape(text@)]);
        }
        self.with_element(&child)
    }

    /// The element with one text fragment appended to its body; the text is
    /// escaped here, at insertion.
    pub fn with_text(self, text: &str) -> (r: XmlElement)
        ensures
            r.name == self.name,
            r.attrs == self.attrs,
            strs_view(r.body@) == strs_view(self.body@).push(escape(text@)),
    {
        let piece = XmlText { text: text.to_owned() }.to_xml();
        let mut r = self;
        r.body.push(piece);
        proof {
            assert(strs_view(r.body@) =~= strs_view(self.body@).push(escape(text@)));
        }
        r
    }

    /// The rendered element: `<name a="v">body</name>` with attributes in
    /// insertion order, one space before each, the body pieces concatenated
    /// unchanged in insertion order, and no other whitespace. An element
    /// with no attributes and no body renders as `<name></name>`.
    pub fn to_xml(&self) -> (r: String)
        ensures
            r@ == xml_of(*self),
    {
        let mut r = String::new();
        r.append("<");
        r.append(self.name.as_str());
        proof {
            reveal_strlit("<");
            assert("<"@ =~= seq!['<']);
            assert(self.attrs@.take(0int) =~= Seq::<String>::empty());
            assert(strs_view(Seq::<String>::empty()) =~= Seq::<Seq<char>>::empty());
            assert(r@ =~= seq!['<'] + self.name@ + attrs_str_v(
                strs_view(self.attrs@.take(0int)),
            ));
        }
        let mut i: usize = 0;
        while i < self.attrs.len()
            invariant
                i <= self.attrs@.len(),
                r@ == seq!['<'] + self.name@ + attrs_str_v(strs_view(self.attrs@.take(i as int))),
            decreases self.attrs@.len() - i,
        {
            r.append(" ");
            r.append(self.attrs[i].as_str());
            proof {
                reveal_strlit(" ");
                assert(" "@ =~= seq![' ']);
                assert(strs_view(self.attrs@.take(i + 1)).drop_last() =~= strs_view(
                    self.attrs@.take(i as int),
                ));
                assert(r@ =~= seq!['<'] + self.name@ + attrs_str_v(
                    strs_view(self.attrs@.take(i + 1)),
                ));
            }
            i = i + 1;
        }
        r.append(">");
        proof {
            reveal_strlit(">");
            assert(">"@ =~= seq!['>']);
            assert(self.attrs@.take(self.attrs@.len() as int) =~= self.attrs@);
            assert(self.body@.take(0int) =~= Seq::<String>::empty());
            assert(strs_view(Seq::<String>::empty()) =~= Seq::<Seq<char>>::empty());
            assert(r@ =~= seq!['<'] + self.name@ + attrs_str_v(strs_view(self.attrs@))
                + seq!['>'] + cat_v(strs_view(self.body@.take(0int))));
        }
        let mut j: usize = 0;
        while j < self.body.len()
            invariant
                j <= self.body@.len(),
                r@ == seq!['<'] + self.name@ + attrs_str_v(strs_view(self.attrs@)) + seq!['>']
                    + cat_v(strs_view(self.body@.take(j as int))),
            decreases self.body@.len() - j,
        {
            r.append(self.body[j].as_str());
            proof {
                assert(strs_view(self.body@.take(j + 1)).drop_last() =~= strs_view(
                    self.body@.take(j as int),
                ));
                assert(r@ =~= seq!['<'] + self.name@ + attrs_str_v(strs_view(self.attrs@))
                    + seq!['>'] + cat_v(strs_view(self.body@.take(j + 1))));
            }
            j = j + 1;
        }
        r.append("</");
        r.append(self.name.as_str());
        r.append(">");
        proof {
            reveal_strlit("<");
            reveal_strlit(">");
            reveal_strlit("</");
            assert("<"@ =~= seq!['<']);
            assert(">"@ =~= seq!['>']);
            assert("</"@ =~= seq!['<', '/']);
            assert(self.attrs@.take(self.attrs@.len() as int) =~= self.attrs@);
            assert(self.body@.take(self.body@.len() as int) =~= self.body@);
            assert(r@ =~= xml_of(*self));
        }
        r
    }
}

} // verus!
