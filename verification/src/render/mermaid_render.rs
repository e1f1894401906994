//! Mermaid: inheritance lines and class blocks, indented by four spaces,
//! followed by one line for each dependency.

use vstd::prelude::*;
use vstd::string::*;
use crate::coco_struct::{ClassInfo, ClassModel};
use crate::parse_option::{OptionModel, ParseOption};
use crate::render::known_names;
use crate::render::uml::{edges, entries, uml_parts};
use crate::text::{concat_all, concat_strings, join, join_strings};

verus! {

/// Renders classes as a Mermaid class diagram.
pub struct MermaidRender;

/// The indentation of every line.
pub const INDENT: &'static str = "    ";

/// The Mermaid text for `classes`: the entries of the classes with an empty
/// line between each two, then the dependency lines.
pub open spec fn mermaid_text(classes: Seq<ClassModel>, option: OptionModel) -> Seq<char> {
    let known = known_names(classes, option);
    join(entries(classes, INDENT@, option, known), "\n\n"@) + "\n"@ + concat_all(
        edges(classes, INDENT@, option, known),
    )
}

impl MermaidRender {
    /// The Mermaid text for `classes`.
    pub fn render(classes: &[ClassInfo], parse_option: &ParseOption) -> (text: String)
        ensures
            text@ == mermaid_text(classes.deep_view(), parse_option@),
    {
        let parts = uml_parts(classes, INDENT, parse_option);
        let mut text = join_strings(&parts.entries, "\n\n");
        text.append("\n");
        text.append(concat_strings(&parts.edges).as_str());
        text
    }
}

} // verus!
