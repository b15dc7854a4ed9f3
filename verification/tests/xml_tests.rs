use ebinterface::xml::{xml_escape, XmlElement};

#[test]
fn escapes_xml() {
    let t1 = xml_escape("&");
    let t2 = xml_escape("\"");
    let t3 = xml_escape("'");
    let t4 = xml_escape("<");
    let t5 = xml_escape(">");
    let t6 = xml_escape("&\"");
    let t7 = xml_escape("&ü\"");
    let t8 = xml_escape("<test foo=\"bar\">baz</test>");
    assert_eq!(t1.as_str(), "&amp;");
    assert_eq!(t2.as_str(), "&quot;");
    assert_eq!(t3.as_str(), "&apos;");
    assert_eq!(t4.as_str(), "&lt;");
    assert_eq!(t5.as_str(), "&gt;");
    assert_eq!(t6.as_str(), "&amp;&quot;");
    assert_eq!(t7.as_str(), "&amp;ü&quot;");
    assert_eq!(t8.as_str(), "&lt;test foo=&quot;bar&quot;&gt;baz&lt;/test&gt;");
}

#[test]
fn generates_xml_element() {
    assert_eq!(XmlElement::new("foo").to_xml(), "<foo></foo>");
}

#[test]
fn generates_xml_text() {
    assert_eq!(
        XmlElement::new("foo").with_text("<bar&>").to_xml(),
        "<foo>&lt;bar&amp;&gt;</foo>"
    );
}

#[test]
fn generates_xml_texts() {
    assert_eq!(
        XmlElement::new("foo")
            .with_text("b")
            .with_text("a")
            .with_text("r")
            .to_xml(),
        "<foo>bar</foo>"
    );
}

#[test]
fn generates_xml_attribute() {
    assert_eq!(
        XmlElement::new("foo").with_attr("a", "b").with_text("bar").to_xml(),
        "<foo a=\"b\">bar</foo>"
    );
}

#[test]
fn generates_xml_attributes() {
    assert_eq!(
        XmlElement::new("foo")
            .with_attr("a", "b")
            .with_attr("c", "d")
            .with_text("bar")
            .to_xml(),
        "<foo a=\"b\" c=\"d\">bar</foo>"
    );
}

#[test]
fn generates_nested_xml_element() {
    assert_eq!(
        XmlElement::new("foo").with_element(&XmlElement::new("a")).to_xml(),
        "<foo><a></a></foo>"
    );
}

#[test]
fn generates_nested_xml_element_with_text() {
    assert_eq!(
        XmlElement::new("foo")
            .with_element(&XmlElement::new("a").with_text("b"))
            .to_xml(),
        "<foo><a>b</a></foo>"
    );
}

#[test]
fn generates_nested_xml_element_before_text() {
    assert_eq!(
        XmlElement::new("foo")
            .with_element(&XmlElement::new("a"))
            .with_text("b")
            .to_xml(),
        "<foo><a></a>b</foo>"
    );
}

#[test]
fn generates_nested_xml_element_between_text() {
    assert_eq!(
        XmlElement::new("foo")
            .with_text("a")
            .with_element(&XmlElement::new("b"))
            .with_text("c")
            .to_xml(),
        "<foo>a<b></b>c</foo>"
    );
}

#[test]
fn generates_nested_xml_element_after_text() {
    assert_eq!(
        XmlElement::new("foo")
            .with_text("a")
            .with_element(&XmlElement::new("b"))
            .to_xml(),
        "<foo>a<b></b></foo>"
    );
}

#[test]
fn generates_escaped_xml() {
    assert_eq!(
        XmlElement::new("a")
            .with_attr("foo", "b<>ar")
            .with_element(&XmlElement::new("b").with_attr("c", "\"d&e"))
            .to_xml(),
        "<a foo=\"b&lt;&gt;ar\"><b c=\"&quot;d&amp;e\"></b></a>"
    );
}

#[test]
fn escapes_with_text_element() {
    assert_eq!(
        XmlElement::new("a&b").with_text_element("c&d", "f&g").to_xml(),
        "<a&amp;b><c&amp;d>f&amp;g</c&amp;d></a&amp;b>"
    );
}

#[test]
fn escape_leaves_clean_strings_unchanged() {
    assert_eq!(xml_escape("plain text 123 üöä"), "plain text 123 üöä");
    assert_eq!(xml_escape(""), "");
}
