//! Style hints read from niri's own configuration: the accent colour and the border
//! width, used as fallbacks by the overlays.
use vstd::prelude::*;
use crate::kdl_doc::{
    doc_arg, doc_node, kdl_document, number_of, number_value, opt_number, prop_of, read_kdl,
    value_str, ConfigDoc, Number, NumberView,
};

verus! {

/// What the overlays take from niri's configuration.
#[derive(Debug, PartialEq)]
pub struct NiriStyleHints {
    /// The active colour of the border (or of the focus ring), or the `from` colour of
    /// its active gradient.
    pub accent_color: Option<String>,
    /// The width of the border (or of the focus ring).
    pub border_width: Option<Number>,
}

/// The children of the first node named `name` inside the first `layout` node.
pub open spec fn layout_block(d: ConfigDoc, name: Seq<char>) -> Option<ConfigDoc> {
    match doc_node(d, "layout"@) {
        Some(layout) => match layout.children {
            Some(c) => match doc_node(c, name) {
                Some(b) => b.children,
                None => None,
            },
            None => None,
        },
        None => None,
    }
}

/// The width that a block sets.
pub open spec fn block_width(b: Option<ConfigDoc>) -> Option<NumberView> {
    match b {
        Some(c) => number_value(doc_arg(c, "width"@)),
        None => None,
    }
}

/// The colour that a block sets: `active-color`, else the `from` property of the
/// first `active-gradient`.
pub open spec fn block_color(b: Option<ConfigDoc>) -> Option<Seq<char>> {
    match b {
        Some(c) => match value_str(doc_arg(c, "active-color"@)) {
            Some(col) => Some(col),
            None => match doc_node(c, "active-gradient"@) {
                Some(g) => value_str(prop_of(g.entries@, "from"@)),
                None => None,
            },
        },
        None => None,
    }
}

/// The width of the hints of a document: the border's, else the focus ring's.
pub open spec fn hinted_width(d: ConfigDoc) -> Option<NumberView> {
    match block_width(layout_block(d, "border"@)) {
        Some(w) => Some(w),
        None => block_width(layout_block(d, "focus-ring"@)),
    }
}

/// The colour of the hints of a document: the border's, else the focus ring's.
pub open spec fn hinted_color(d: ConfigDoc) -> Option<Seq<char>> {
    match block_color(layout_block(d, "border"@)) {
        Some(c) => Some(c),
        None => block_color(layout_block(d, "focus-ring"@)),
    }
}

/// Whether `h` holds exactly the given colour and width.
pub open spec fn hints_are(h: NiriStyleHints, color: Option<Seq<char>>, width: Option<NumberView>) -> bool {
    &&& match h.accent_color {
        Some(c) => color == Some(c@),
        None => color is None,
    }
    &&& opt_number(h.border_width) == width
}

fn block_of<'a>(d: &'a ConfigDoc, name: &str) -> (res: Option<&'a ConfigDoc>)
    ensures
        crate::json::deref_opt(res) == layout_block(*d, name@),
{
    match d.get("layout") {
        Some(layout) => match &layout.children {
            Some(c) => match c.get(name) {
                Some(b) => match &b.children {
                    Some(bc) => Some(bc),
                    None => None,
                },
                None => None,
            },
            None => None,
        },
        None => None,
    }
}

fn color_in(c: &ConfigDoc) -> (res: Option<String>)
    ensures
        match res {
            Some(s) => block_color(Some(*c)) == Some(s@),
            None => block_color(Some(*c)) is None,
        },
{
    match crate::kdl_doc::opt_string(c.get_arg("active-color")) {
        Some(col) => Some(col.to_string()),
        None => match c.get("active-gradient") {
            Some(g) => match crate::kdl_doc::opt_string(g.prop("from")) {
                Some(col) => Some(col.to_string()),
                None => None,
            },
            None => None,
        },
    }
}

/// The style hints of a parsed niri configuration. Of the `border` and then the
/// `focus-ring` block of the first `layout` node, the first that sets a width gives
/// the width, and the first that sets a colour gives the colour.
pub fn style_hints(doc: &ConfigDoc) -> (res: NiriStyleHints)
    ensures
        hints_are(res, hinted_color(*doc), hinted_width(*doc)),
{
    let border = block_of(doc, "border");
    let ring = block_of(doc, "focus-ring");
    let mut width: Option<Number> = None;
    let mut color: Option<String> = None;
    match border {
        Some(b) => {
            width = number_of(b.get_arg("width"));
            color = color_in(b);
        },
        None => {},
    }
    if width.is_none() {
        match ring {
            Some(r) => {
                width = number_of(r.get_arg("width"));
            },
            None => {},
        }
    }
    if color.is_none() {
        match ring {
            Some(r) => {
                color = color_in(r);
            },
            None => {},
        }
    }
    NiriStyleHints { accent_color: color, border_width: width }
}

/// Reads the style hints from the text of niri's `config.kdl`; text that is not a
/// KDL document gives no hints.
pub fn parse_style_hints(content: &str) -> (res: NiriStyleHints)
    ensures
        match kdl_document(content@) {
            Some(d) => hints_are(res, hinted_color(d), hinted_width(d)),
            None => res.accent_color is None && res.border_width is None,
        },
{
    match read_kdl(content) {
        Ok(doc) => style_hints(&doc),
        Err(_) => NiriStyleHints { accent_color: None, border_width: None },
    }
}

} // verus!
