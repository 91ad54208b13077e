//! The vector filter synthesizer: builds each effect as a filter definition
//! injected into the document, wraps the document's element children in one
//! group that applies it, and rewrites the viewBox for crop.  Every tree
//! rewrite here is verified; only parse and write are trusted.

use vstd::prelude::*;

verus! {

use vstd::string::StringExecFns;
use crate::error::EngineError;
use crate::xml::{parse_xml, parses_ok, write_xml, XmlElement, XmlNode};

/// The view of an attribute list: each key and value as its characters.
pub open spec fn attrs_view(attrs: Seq<(String, String)>) -> Seq<(Seq<char>, Seq<char>)> {
    attrs.map_values(|p: (String, String)| (p.0@, p.1@))
}

/// An element the synthesizer created: no prefix and no namespaces.
pub open spec fn plain_elem(e: XmlElement) -> bool {
    e.prefix is None && e.namespace is None && e.namespaces@.len() == 0
}

/// A fresh element with the given tag name and nothing else.
fn new_elem(name: &str) -> (r: XmlElement)
    ensures
        plain_elem(r),
        r.name@ == name@,
        r.attributes@ =~= Seq::<(String, String)>::empty(),
        r.children@ =~= Seq::<XmlNode>::empty(),
{
    XmlElement {
        prefix: None,
        namespace: None,
        namespaces: Vec::new(),
        name: String::from_str(name),
        attributes: Vec::new(),
        children: Vec::new(),
    }
}

/// Appends one attribute to an element.
fn push_attr(e: &mut XmlElement, key: &str, value: &str)
    ensures
        final(e).prefix == old(e).prefix,
        final(e).namespace == old(e).namespace,
        final(e).namespaces == old(e).namespaces,
        final(e).name == old(e).name,
        final(e).children == old(e).children,
        attrs_view(final(e).attributes@) == attrs_view(old(e).attributes@).push((key@, value@)),
{
    e.attributes.push((String::from_str(key), String::from_str(value)));
    proof {
        assert(attrs_view(e.attributes@) =~= attrs_view(old(e).attributes@).push((key@, value@)));
    }
}

/// The element children of a node list, in order; everything else is left
/// out.
pub open spec fn elements_of(s: Seq<XmlNode>) -> Seq<XmlNode>
    decreases s.len(),
{
    if s.len() == 0 {
        Seq::empty()
    } else if s.last() matches XmlNode::Element(_) {
        elements_of(s.drop_last()).push(s.last())
    } else {
        elements_of(s.drop_last())
    }
}

/// What a rewritten document root looks like: the same element, its
/// children replaced by exactly two nodes, the filter definition `f` and
/// then one group carrying `filter="url(#EngineFilter)"` that holds every
/// element child the root had, in order; non-element children (comments,
/// text) are discarded.
pub open spec fn is_filter_wrap(r: XmlElement, doc: XmlElement, f: XmlElement) -> bool {
    &&& r.prefix == doc.prefix
    &&& r.namespace == doc.namespace
    &&& r.namespaces == doc.namespaces
    &&& r.name == doc.name
    &&& r.attributes == doc.attributes
    &&& r.children@.len() == 2
    &&& r.children@[0] == XmlNode::Element(f)
    &&& r.children@[1] matches XmlNode::Element(g) && plain_elem(g) && g.name@ == "g"@
        && attrs_view(g.attributes@) == seq![("filter"@, "url(#EngineFilter)"@)] && g.children@
        == elements_of(doc.children@)
}

/// Wraps every element child of the document in one new group that applies
/// the filter, and replaces the root's children with the filter definition
/// followed by that group.
pub fn apply_filter(doc: XmlElement, filter: XmlElement) -> (r: XmlElement)
    ensures
        is_filter_wrap(r, doc, filter),
{
    let XmlElement { prefix, namespace, namespaces, name, attributes, children } = doc;
    let mut group = new_elem("g");
    push_attr(&mut group, "filter", "url(#EngineFilter)");
    let ghost orig = children@;
    let mut rest = children;
    let mut picked: Vec<XmlNode> = Vec::new();
    proof {
        assert(rest@ =~= orig.skip(0));
        assert(orig.take(0) =~= Seq::<XmlNode>::empty());
    }
    while rest.len() > 0
        invariant
            rest@.len() <= orig.len(),
            rest@ == orig.skip(orig.len() - rest@.len()),
            picked@ == elements_of(orig.take(orig.len() - rest@.len())),
        decreases rest@.len(),
    {
        let ghost pre = rest@;
        let ghost li = orig.len() - pre.len();
        proof {
            assert(pre[0] == orig.skip(li)[0]);
            assert(orig.skip(li)[0] == orig[li]);
        }
        let n = rest.remove(0);
        proof {
            pre.remove_ensures(0);
            assert(n == orig[li]);
            assert forall|j: int| 0 <= j < rest@.len() implies rest@[j] == orig.skip(li + 1)[j] by {
                assert(rest@[j] == pre[j + 1]);
                assert(orig.skip(li + 1)[j] == orig[li + 1 + j]);
                assert(pre[j + 1] == orig.skip(li)[j + 1]);
            }
            assert(rest@ =~= orig.skip(li + 1));
            assert(orig.take(li + 1).drop_last() =~= orig.take(li));
            assert(orig.take(li + 1).last() == orig[li]);
        }
        if matches!(&n, XmlNode::Element(_)) {
            picked.push(n);
        }
    }
    proof {
        assert(orig.take(orig.len() as int) =~= orig);
        assert(attrs_view(group.attributes@) =~= seq![("filter"@, "url(#EngineFilter)"@)]);
    }
    group.children = picked;
    let mut out_children: Vec<XmlNode> = Vec::new();
    out_children.push(XmlNode::Element(filter));
    out_children.push(XmlNode::Element(group));
    XmlElement { prefix, namespace, namespaces, name, attributes, children: out_children }
}

/// The `<filter id="EngineFilter">` shell.  The invert and brighten chains
/// carry a style attribute besides, pinning sRGB filter interpolation.
pub open spec fn is_filter_shell(f: XmlElement, srgb: bool) -> bool {
    &&& plain_elem(f)
    &&& f.name@ == "filter"@
    &&& attrs_view(f.attributes@) == if srgb {
        seq![("id"@, "EngineFilter"@), ("style"@, "color-interpolation-filters:sRGB"@)]
    } else {
        seq![("id"@, "EngineFilter"@)]
    }
}

/// The grayscale chain: one color-matrix node whose R, G and B output rows
/// weight the input channels equally at one third, with an identity alpha
/// row — the exact coefficients the raster grayscale mirrors.
pub open spec fn is_grayscale_chain(c: Seq<XmlNode>) -> bool {
    &&& c.len() == 1
    &&& c[0] matches XmlNode::Element(m) && plain_elem(m) && m.name@ == "feColorMatrix"@
        && m.children@.len() == 0 && attrs_view(m.attributes@) == seq![
        ("type"@, "matrix"@),
        (
            "values"@,
            "0.3333 0.3333 0.3333 0 0 0.3333 0.3333 0.3333 0 0 0.3333 0.3333 0.3333 0 0 0 0 0 1 0"@,
        ),
    ]
}

/// Builds the grayscale filter definition.
pub fn grayscale_filter() -> (r: XmlElement)
    ensures
        is_filter_shell(r, false),
        is_grayscale_chain(r.children@),
{
    let mut matrix = new_elem("feColorMatrix");
    push_attr(&mut matrix, "type", "matrix");
    push_attr(
        &mut matrix,
        "values",
        "0.3333 0.3333 0.3333 0 0 0.3333 0.3333 0.3333 0 0 0.3333 0.3333 0.3333 0 0 0 0 0 1 0",
    );
    let mut filter = new_elem("filter");
    push_attr(&mut filter, "id", "EngineFilter");
    proof {
        assert(attrs_view(matrix.attributes@) =~= seq![
            ("type"@, "matrix"@),
            (
                "values"@,
                "0.3333 0.3333 0.3333 0 0 0.3333 0.3333 0.3333 0 0 0.3333 0.3333 0.3333 0 0 0 0 0 1 0"@,
            ),
        ]);
        assert(attrs_view(filter.attributes@) =~= seq![("id"@, "EngineFilter"@)]);
    }
    filter.children.push(XmlNode::Element(matrix));
    filter
}

/// The blur chain: one Gaussian blur node whose standard deviation is the
/// given text.
pub open spec fn is_blur_chain(c: Seq<XmlNode>, sigma: Seq<char>) -> bool {
    &&& c.len() == 1
    &&& c[0] matches XmlNode::Element(m) && plain_elem(m) && m.name@ == "feGaussianBlur"@
        && m.children@.len() == 0 && attrs_view(m.attributes@) == seq![("stdDeviation"@, sigma)]
}

/// Builds the Gaussian blur filter definition.
pub fn blur_filter(sigma: &str) -> (r: XmlElement)
    ensures
        is_filter_shell(r, false),
        is_blur_chain(r.children@, sigma@),
{
    let mut blur = new_elem("feGaussianBlur");
    push_attr(&mut blur, "stdDeviation", sigma);
    let mut filter = new_elem("filter");
    push_attr(&mut filter, "id", "EngineFilter");
    proof {
        assert(attrs_view(blur.attributes@) =~= seq![("stdDeviation"@, sigma@)]);
        assert(attrs_view(filter.attributes@) =~= seq![("id"@, "EngineFilter"@)]);
    }
    filter.children.push(XmlNode::Element(blur));
    filter
}

/// The transparency chain: a component transfer whose alpha function is
/// linear with the given slope and no intercept.
pub open spec fn is_transparency_chain(c: Seq<XmlNode>, alpha: Seq<char>) -> bool {
    &&& c.len() == 1
    &&& c[0] matches XmlNode::Element(t) && plain_elem(t) && t.name@ == "feComponentTransfer"@
        && t.attributes@.len() == 0 && t.children@.len() == 1 && (t.children@[0] matches
    XmlNode::Element(f) && plain_elem(f) && f.name@ == "feFuncA"@ && f.children@.len() == 0
        && attrs_view(f.attributes@) == seq![("type"@, "linear"@), ("slope"@, alpha)])
}

/// Builds the transparency filter definition.
pub fn transparency_filter(alpha: &str) -> (r: XmlElement)
    ensures
        is_filter_shell(r, false),
        is_transparency_chain(r.children@, alpha@),
{
    let mut func_a = new_elem("feFuncA");
    push_attr(&mut func_a, "type", "linear");
    push_attr(&mut func_a, "slope", alpha);
    proof {
        assert(attrs_view(func_a.attributes@) =~= seq![("type"@, "linear"@), ("slope"@, alpha@)]);
    }
    let mut transfer = new_elem("feComponentTransfer");
    transfer.children.push(XmlNode::Element(func_a));
    let mut filter = new_elem("filter");
    push_attr(&mut filter, "id", "EngineFilter");
    proof {
        assert(attrs_view(filter.attributes@) =~= seq![("id"@, "EngineFilter"@)]);
    }
    filter.children.push(XmlNode::Element(transfer));
    filter
}

/// One inversion transfer function: type table, table values 1 then 0.
pub open spec fn is_invert_func(n: XmlNode, func_name: Seq<char>) -> bool {
    n matches XmlNode::Element(f) && plain_elem(f) && f.name@ == func_name && f.children@.len()
        == 0 && attrs_view(f.attributes@) == seq![("type"@, "table"@), ("tableValues"@, "1 0"@)]
}

/// The invert chain: a component transfer holding one inversion table per
/// color channel; alpha untouched.
pub open spec fn is_invert_chain(c: Seq<XmlNode>) -> bool {
    &&& c.len() == 1
    &&& c[0] matches XmlNode::Element(t) && plain_elem(t) && t.name@ == "feComponentTransfer"@
        && t.attributes@.len() == 0 && t.children@.len() == 3 && is_invert_func(
        t.children@[0],
        "feFuncR"@,
    ) && is_invert_func(t.children@[1], "feFuncG"@) && is_invert_func(t.children@[2], "feFuncB"@)
}

/// Builds one inversion transfer function element.
fn invert_func(func_name: &str) -> (r: XmlNode)
    ensures
        is_invert_func(r, func_name@),
{
    let mut f = new_elem(func_name);
    push_attr(&mut f, "type", "table");
    push_attr(&mut f, "tableValues", "1 0");
    proof {
        assert(attrs_view(f.attributes@) =~= seq![("type"@, "table"@), ("tableValues"@, "1 0"@)]);
    }
    XmlNode::Element(f)
}

/// Builds the invert filter definition.
pub fn invert_filter() -> (r: XmlElement)
    ensures
        is_filter_shell(r, true),
        is_invert_chain(r.children@),
{
    let mut transfer = new_elem("feComponentTransfer");
    transfer.children.push(invert_func("feFuncR"));
    transfer.children.push(invert_func("feFuncG"));
    transfer.children.push(invert_func("feFuncB"));
    let mut filter = new_elem("filter");
    push_attr(&mut filter, "id", "EngineFilter");
    push_attr(&mut filter, "style", "color-interpolation-filters:sRGB");
    proof {
        assert(attrs_view(filter.attributes@) =~= seq![
            ("id"@, "EngineFilter"@),
            ("style"@, "color-interpolation-filters:sRGB"@),
        ]);
    }
    filter.children.push(XmlNode::Element(transfer));
    filter
}

/// One brightening transfer function: linear with slope 1 and the given
/// intercept.
pub open spec fn is_brighten_func(n: XmlNode, func_name: Seq<char>, amount: Seq<char>) -> bool {
    n matches XmlNode::Element(f) && plain_elem(f) && f.name@ == func_name && f.children@.len()
        == 0 && attrs_view(f.attributes@) == seq![
        ("type"@, "linear"@),
        ("slope"@, "1"@),
        ("intercept"@, amount),
    ]
}

/// The brighten chain: a component transfer holding one linear function per
/// color channel, slope 1 and the amount as intercept; alpha untouched.
pub open spec fn is_brighten_chain(c: Seq<XmlNode>, amount: Seq<char>) -> bool {
    &&& c.len() == 1
    &&& c[0] matches XmlNode::Element(t) && plain_elem(t) && t.name@ == "feComponentTransfer"@
        && t.attributes@.len() == 0 && t.children@.len() == 3 && is_brighten_func(
        t.children@[0],
        "feFuncR"@,
        amount,
    ) && is_brighten_func(t.children@[1], "feFuncG"@, amount) && is_brighten_func(
        t.children@[2],
        "feFuncB"@,
        amount,
    )
}

/// Builds one brightening transfer function element.
fn brighten_func(func_name: &str, amount: &str) -> (r: XmlNode)
    ensures
        is_brighten_func(r, func_name@, amount@),
{
    let mut f = new_elem(func_name);
    push_attr(&mut f, "type", "linear");
    push_attr(&mut f, "slope", "1");
    push_attr(&mut f, "intercept", amount);
    proof {
        assert(attrs_view(f.attributes@) =~= seq![
            ("type"@, "linear"@),
            ("slope"@, "1"@),
            ("intercept"@, amount@),
        ]);
    }
    XmlNode::Element(f)
}

/// Builds the brighten filter definition.
pub fn brighten_filter(amount: &str) -> (r: XmlElement)
    ensures
        is_filter_shell(r, true),
        is_brighten_chain(r.children@, amount@),
{
    let mut transfer = new_elem("feComponentTransfer");
    transfer.children.push(brighten_func("feFuncR", amount));
    transfer.children.push(brighten_func("feFuncG", amount));
    transfer.children.push(brighten_func("feFuncB", amount));
    let mut filter = new_elem("filter");
    push_attr(&mut filter, "id", "EngineFilter");
    push_attr(&mut filter, "style", "color-interpolation-filters:sRGB");
    proof {
        assert(attrs_view(filter.attributes@) =~= seq![
            ("id"@, "EngineFilter"@),
            ("style"@, "color-interpolation-filters:sRGB"@),
        ]);
    }
    filter.children.push(XmlNode::Element(transfer));
    filter
}

/// The hue-rotation chain: one color-matrix node of type hueRotate whose
/// value is the plain rotation amount, a number expressing degrees.
pub open spec fn is_huerotate_chain(c: Seq<XmlNode>, amount: Seq<char>) -> bool {
    &&& c.len() == 1
    &&& c[0] matches XmlNode::Element(m) && plain_elem(m) && m.name@ == "feColorMatrix"@
        && m.children@.len() == 0 && attrs_view(m.attributes@) == seq![
        ("type"@, "hueRotate"@),
        ("values"@, amount),
    ]
}

/// Builds the hue-rotation filter definition.
pub fn huerotate_filter(amount: &str) -> (r: XmlElement)
    ensures
        is_filter_shell(r, false),
        is_huerotate_chain(r.children@, amount@),
{
    let mut matrix = new_elem("feColorMatrix");
    push_attr(&mut matrix, "type", "hueRotate");
    push_attr(&mut matrix, "values", amount);
    let mut filter = new_elem("filter");
    push_attr(&mut filter, "id", "EngineFilter");
    proof {
        assert(attrs_view(matrix.attributes@) =~= seq![
            ("type"@, "hueRotate"@),
            ("values"@, amount@),
        ]);
        assert(attrs_view(filter.attributes@) =~= seq![("id"@, "EngineFilter"@)]);
    }
    filter.children.push(XmlNode::Element(matrix));
    filter
}

/// The attribute list after setting `key` to `value`: the first pair with
/// that key is replaced in place; when none holds it, the pair is appended.
pub open spec fn upsert(
    attrs: Seq<(Seq<char>, Seq<char>)>,
    key: Seq<char>,
    value: Seq<char>,
) -> Seq<(Seq<char>, Seq<char>)>
    decreases attrs.len(),
{
    if attrs.len() == 0 {
        seq![(key, value)]
    } else if attrs[0].0 == key {
        seq![(key, value)] + attrs.skip(1)
    } else {
        seq![attrs[0]] + upsert(attrs.skip(1), key, value)
    }
}

proof fn lemma_upsert_update(
    attrs: Seq<(Seq<char>, Seq<char>)>,
    key: Seq<char>,
    value: Seq<char>,
    i: int,
)
    requires
        0 <= i < attrs.len(),
        attrs[i].0 == key,
        forall|j: int| 0 <= j < i ==> attrs[j].0 != key,
    ensures
        upsert(attrs, key, value) =~= attrs.update(i, (key, value)),
    decreases i,
{
    if i == 0 {
    } else {
        lemma_upsert_update(attrs.skip(1), key, value, i - 1);
        assert(upsert(attrs, key, value) =~= seq![attrs[0]] + attrs.skip(1).update(
            i - 1,
            (key, value),
        ));
    }
}

proof fn lemma_upsert_absent(attrs: Seq<(Seq<char>, Seq<char>)>, key: Seq<char>, value: Seq<char>)
    requires
        forall|j: int| 0 <= j < attrs.len() ==> attrs[j].0 != key,
    ensures
        upsert(attrs, key, value) =~= attrs.push((key, value)),
    decreases attrs.len(),
{
    if attrs.len() == 0 {
    } else {
        lemma_upsert_absent(attrs.skip(1), key, value);
        assert(upsert(attrs, key, value) =~= seq![attrs[0]] + attrs.skip(1).push((key, value)));
    }
}

/// Rewrites or inserts the root's `viewBox` attribute, replacing any prior
/// value; nothing else about the document changes.
pub fn set_view_box(e: &mut XmlElement, value: &str)
    ensures
        final(e).prefix == old(e).prefix,
        final(e).namespace == old(e).namespace,
        final(e).namespaces == old(e).namespaces,
        final(e).name == old(e).name,
        final(e).children == old(e).children,
        attrs_view(final(e).attributes@) == upsert(attrs_view(old(e).attributes@), "viewBox"@, value@),
{
    let key = String::from_str("viewBox");
    let n = e.attributes.len();
    let mut i: usize = 0;
    while i < n
        invariant
            *e == *old(e),
            key@ == "viewBox"@,
            n == e.attributes@.len(),
            i <= n,
            forall|j: int| 0 <= j < i ==> attrs_view(e.attributes@)[j].0 != "viewBox"@,
        decreases n - i,
    {
        if e.attributes[i].0 == key {
            proof {
                assert(attrs_view(e.attributes@)[i as int].0 == "viewBox"@);
                lemma_upsert_update(attrs_view(e.attributes@), "viewBox"@, value@, i as int);
            }
            e.attributes.set(i, (key, String::from_str(value)));
            proof {
                assert(attrs_view(e.attributes@) =~= upsert(
                    attrs_view(old(e).attributes@),
                    "viewBox"@,
                    value@,
                ));
            }
            return ;
        }
        i += 1;
    }
    proof {
        lemma_upsert_absent(attrs_view(e.attributes@), "viewBox"@, value@);
    }
    e.attributes.push((key, String::from_str(value)));
    proof {
        assert(attrs_view(e.attributes@) =~= upsert(
            attrs_view(old(e).attributes@),
            "viewBox"@,
            value@,
        ));
    }
}

/// Injects the grayscale filter chain into the vector document and writes
/// it back.  The rewrite itself is `apply_filter` with `grayscale_filter`,
/// verified for every tree; which tree the bytes parse to is the parser's.
pub fn svg_grayscale(image_bytes: &[u8]) -> (r: Result<Vec<u8>, EngineError>)
    ensures
        r matches Err(EngineError::MalformedDocument) <==> !parses_ok(image_bytes@),
        r matches Err(e) ==> e == EngineError::MalformedDocument || e
            == EngineError::SerializationFailure,
{
    let doc = match parse_xml(image_bytes) {
        Ok(d) => d,
        Err(e) => return Err(e),
    };
    let wrapped = apply_filter(doc, grayscale_filter());
    write_xml(wrapped)
}

/// Injects the Gaussian blur filter chain, with the standard deviation
/// given as text, and writes the document back.
pub fn svg_blur(image_bytes: &[u8], sigma: &str) -> (r: Result<Vec<u8>, EngineError>)
    ensures
        r matches Err(EngineError::MalformedDocument) <==> !parses_ok(image_bytes@),
        r matches Err(e) ==> e == EngineError::MalformedDocument || e
            == EngineError::SerializationFailure,
{
    let doc = match parse_xml(image_bytes) {
        Ok(d) => d,
        Err(e) => return Err(e),
    };
    let wrapped = apply_filter(doc, blur_filter(sigma));
    write_xml(wrapped)
}

/// Injects the transparency filter chain, with the alpha slope given as
/// text, and writes the document back.
pub fn svg_transparency(image_bytes: &[u8], alpha: &str) -> (r: Result<Vec<u8>, EngineError>)
    ensures
        r matches Err(EngineError::MalformedDocument) <==> !parses_ok(image_bytes@),
        r matches Err(e) ==> e == EngineError::MalformedDocument || e
            == EngineError::SerializationFailure,
{
    let doc = match parse_xml(image_bytes) {
        Ok(d) => d,
        Err(e) => return Err(e),
    };
    let wrapped = apply_filter(doc, transparency_filter(alpha));
    write_xml(wrapped)
}

/// Injects the invert filter chain and writes the document back.
pub fn svg_invert(image_bytes: &[u8]) -> (r: Result<Vec<u8>, EngineError>)
    ensures
        r matches Err(EngineError::MalformedDocument) <==> !parses_ok(image_bytes@),
        r matches Err(e) ==> e == EngineError::MalformedDocument || e
            == EngineError::SerializationFailure,
{
    let doc = match parse_xml(image_bytes) {
        Ok(d) => d,
        Err(e) => return Err(e),
    };
    let wrapped = apply_filter(doc, invert_filter());
    write_xml(wrapped)
}

/// Injects the brighten filter chain, with the intercept given as text,
/// and writes the document back.
pub fn svg_brighten(image_bytes: &[u8], amount: &str) -> (r: Result<Vec<u8>, EngineError>)
    ensures
        r matches Err(EngineError::MalformedDocument) <==> !parses_ok(image_bytes@),
        r matches Err(e) ==> e == EngineError::MalformedDocument || e
            == EngineError::SerializationFailure,
{
    let doc = match parse_xml(image_bytes) {
        Ok(d) => d,
        Err(e) => return Err(e),
    };
    let wrapped = apply_filter(doc, brighten_filter(amount));
    write_xml(wrapped)
}

/// Injects the hue-rotation filter chain, with the angle given as text,
/// and writes the document back.
pub fn svg_huerotate(image_bytes: &[u8], amount: &str) -> (r: Result<Vec<u8>, EngineError>)
    ensures
        r matches Err(EngineError::MalformedDocument) <==> !parses_ok(image_bytes@),
        r matches Err(e) ==> e == EngineError::MalformedDocument || e
            == EngineError::SerializationFailure,
{
    let doc = match parse_xml(image_bytes) {
        Ok(d) => d,
        Err(e) => return Err(e),
    };
    let wrapped = apply_filter(doc, huerotate_filter(amount));
    write_xml(wrapped)
}

/// The crop rewrite: the same document with its root's viewBox attribute
/// set to the four values joined by single spaces, replacing any prior
/// value; the tag, every other attribute and all children are unchanged.
pub fn crop_rewrite(
    doc: XmlElement,
    start_x: &str,
    start_y: &str,
    width: &str,
    height: &str,
) -> (r: XmlElement)
    ensures
        r.prefix == doc.prefix,
        r.namespace == doc.namespace,
        r.namespaces == doc.namespaces,
        r.name == doc.name,
        r.children == doc.children,
        attrs_view(r.attributes@) == upsert(attrs_view(doc.attributes@), "viewBox"@, start_x@ + " "@ + start_y@ + " "@ + width@ + " "@ + height@),
{
    let view_box = String::from_str(start_x).concat(" ").concat(start_y).concat(" ").concat(
        width,
    ).concat(" ").concat(height);
    let mut out = doc;
    set_view_box(&mut out, view_box.as_str());
    out
}

/// Sets the document's visible region: rewrites or inserts the root's
/// viewBox attribute to the four values joined by single spaces (the
/// `crop_rewrite` contract pins the exact tree), and writes the document
/// back.  No filter graph is involved.
pub fn svg_crop(
    image_bytes: &[u8],
    start_x: &str,
    start_y: &str,
    width: &str,
    height: &str,
) -> (r: Result<Vec<u8>, EngineError>)
    ensures
        r matches Err(EngineError::MalformedDocument) <==> !parses_ok(image_bytes@),
        r matches Err(e) ==> e == EngineError::MalformedDocument || e
            == EngineError::SerializationFailure,
{
    let doc = match parse_xml(image_bytes) {
        Ok(d) => d,
        Err(e) => return Err(e),
    };
    write_xml(crop_rewrite(doc, start_x, start_y, width, height))
}

} // verus!
