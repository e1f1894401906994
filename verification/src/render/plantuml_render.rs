//! PlantUML: inheritance lines and class blocks between `@startuml` and
//! `@enduml`, followed by one line for each dependency.

use vstd::prelude::*;
use vstd::string::*;
use crate::coco_struct::{ClassInfo, ClassModel};
use crate::parse_option::{OptionModel, ParseOption};
use crate::render::known_names;
use crate::render::uml::{edges, entries, uml_parts};
use crate::text::{concat_all, concat_strings, join, join_strings};

verus! {

/// Renders classes as PlantUML.
pub struct PlantUmlRender;

/// The PlantUML text for `classes`: the start marker, the entries of the
/// classes with an empty line between each two, the dependency lines, and
/// the end marker. Nothing is indented.
pub open spec fn plantuml_text(classes: Seq<ClassModel>, option: OptionModel) -> Seq<char> {
    let known = known_names(classes, option);
    "@startuml\n\n"@ + join(entries(classes, Seq::empty(), option, known), "\n\n"@) + "\n"@
        + concat_all(edges(classes, Seq::empty(), option, known)) + "\n@enduml"@
}

impl PlantUmlRender {
    /// The PlantUML text for `classes`.
    pub fn render(classes: &Vec<ClassInfo>, parse_option: &ParseOption) -> (text: String)
        ensures
            text@ == plantuml_text(classes.deep_view(), parse_option@),
    {
        let space = String::new();
        let list = classes.as_slice();
        assert(list.deep_view() =~= classes.deep_view());
        let parts = uml_parts(list, space.as_str(), parse_option);
        let mut text = "@startuml\n\n".to_owned();
        text.append(join_strings(&parts.entries, "\n\n").as_str());
        text.append("\n");
        text.append(concat_strings(&parts.edges).as_str());
        text.append("\n@enduml");
        text
    }
}

} // verus!
