//! Graphviz: the classes clustered by architectural layer, one arrow for
//! each dependency, and the same graph as nodes and links.

use vstd::prelude::*;
use vstd::string::*;
use crate::coco_struct::{ClassInfo, ClassModel};
use crate::parse_option::{OptionModel, ParseOption};
use crate::render::dependency::{
    class_parts, dependencies, lemma_dependencies_sound, lemma_empty_class,
};
use crate::render::{display_name, known_names, known_names_of, process_name};
use crate::text::{
    concat_all, concat_strings, ends_with, find_text, has_suffix, join, join_strings,
};

verus! {

/// Renders classes as a Graphviz digraph.
pub struct GraphvizRender;

/// The architectural layer of a class.
#[derive(Clone, Copy, Debug, PartialEq, Eq, Structural)]
pub enum Layer {
    Repository,
    Controller,
    Service,
    /// No layer: the class stands outside the clusters.
    Unclustered,
}

/// The layer that the ending of a class name tells: `Repository`;
/// `Controller` or `Ctrl`; `Service` or `ServiceImpl`; else none.
pub open spec fn layer_of(name: Seq<char>) -> Layer {
    if has_suffix(name, "Repository"@) {
        Layer::Repository
    } else if has_suffix(name, "Controller"@) || has_suffix(name, "Ctrl"@) {
        Layer::Controller
    } else if has_suffix(name, "Service"@) || has_suffix(name, "ServiceImpl"@) {
        Layer::Service
    } else {
        Layer::Unclustered
    }
}

impl Layer {
    /// The number of the layer in the node document.
    pub open spec fn group(self) -> nat {
        match self {
            Layer::Repository => 1,
            Layer::Controller => 2,
            Layer::Service => 3,
            Layer::Unclustered => 4,
        }
    }

    /// The name of the layer's cluster.
    pub open spec fn title(self) -> Seq<char> {
        match self {
            Layer::Repository => "Repository"@,
            Layer::Controller => "Controller"@,
            Layer::Service => "Service"@,
            Layer::Unclustered => Seq::empty(),
        }
    }

    /// The layer that the ending of a class name tells.
    pub fn of(name: &str) -> (layer: Layer)
        ensures
            layer == layer_of(name@),
    {
        if ends_with(name, "Repository") {
            Layer::Repository
        } else if ends_with(name, "Controller") || ends_with(name, "Ctrl") {
            Layer::Controller
        } else if ends_with(name, "Service") || ends_with(name, "ServiceImpl") {
            Layer::Service
        } else {
            Layer::Unclustered
        }
    }

    /// The number of the layer in the node document.
    pub fn index(self) -> (group: usize)
        ensures
            group == self.group(),
    {
        match self {
            Layer::Repository => 1,
            Layer::Controller => 2,
            Layer::Service => 3,
            Layer::Unclustered => 4,
        }
    }

    /// The name of the layer's cluster.
    pub fn name(self) -> (title: &'static str)
        ensures
            title@ == self.title(),
    {
        match self {
            Layer::Repository => "Repository",
            Layer::Controller => "Controller",
            Layer::Service => "Service",
            Layer::Unclustered => {
                let none: &'static str = "";
                proof {
                    reveal_strlit("");
                }
                assert(none@ =~= Seq::<char>::empty());
                none
            },
        }
    }
}

/// A node of the graph: a class.
#[derive(Debug)]
pub struct DNode {
    /// The shown name of the class.
    pub id: String,
    pub package: String,
    /// The number of the class's layer.
    pub group: usize,
}

/// A link of the graph: a dependency.
#[derive(Debug)]
pub struct DLink {
    pub source: String,
    pub target: String,
    /// The weight of the link, always 1.
    pub value: usize,
    /// The package of the class that depends.
    pub package: String,
}

/// The graph as nodes and links.
#[derive(Debug)]
pub struct DData {
    pub nodes: Vec<DNode>,
    pub links: Vec<DLink>,
}

/// A node as plain values.
pub struct NodeModel {
    pub id: Seq<char>,
    pub package: Seq<char>,
    pub group: nat,
}

/// A link as plain values.
pub struct LinkModel {
    pub source: Seq<char>,
    pub target: Seq<char>,
    pub value: nat,
    pub package: Seq<char>,
}

/// The graph as plain values.
pub struct DataModel {
    pub nodes: Seq<NodeModel>,
    pub links: Seq<LinkModel>,
}

impl View for DNode {
    type V = NodeModel;

    open spec fn view(&self) -> NodeModel {
        NodeModel { id: self.id@, package: self.package@, group: self.group as nat }
    }
}

impl DeepView for DNode {
    type V = NodeModel;

    open spec fn deep_view(&self) -> NodeModel {
        self@
    }
}

impl View for DLink {
    type V = LinkModel;

    open spec fn view(&self) -> LinkModel {
        LinkModel {
            source: self.source@,
            target: self.target@,
            value: self.value as nat,
            package: self.package@,
        }
    }
}

impl DeepView for DLink {
    type V = LinkModel;

    open spec fn deep_view(&self) -> LinkModel {
        self@
    }
}

impl View for DData {
    type V = DataModel;

    open spec fn view(&self) -> DataModel {
        DataModel { nodes: self.nodes.deep_view(), links: self.links.deep_view() }
    }
}

impl Default for DData {
    /// The graph without nodes and links.
    fn default() -> (data: DData)
        ensures
            data@ == (DataModel { nodes: Seq::empty(), links: Seq::empty() }),
    {
        let data = DData { nodes: Vec::new(), links: Vec::new() };
        assert(data.nodes.deep_view() =~= Seq::empty());
        assert(data.links.deep_view() =~= Seq::empty());
        data
    }
}

/// The weight of every link.
pub const LINK_WEIGHT: usize = 1;

/// The node of a class: its shown name, its package, and the number of the
/// layer that its own name tells.
pub open spec fn node_of(class: ClassModel, option: OptionModel) -> NodeModel {
    NodeModel {
        id: display_name(option, class.name),
        package: class.package,
        group: layer_of(class.name).group(),
    }
}

/// The node of each class, in the order of the list.
pub open spec fn nodes(classes: Seq<ClassModel>, option: OptionModel) -> Seq<NodeModel> {
    classes.map_values(|class: ClassModel| node_of(class, option))
}

/// The shown names of the classes of `layer`, in the order of the list.
pub open spec fn layer_members(classes: Seq<ClassModel>, layer: Layer, option: OptionModel) -> Seq<Seq<char>>
    decreases classes.len(),
{
    if classes.len() == 0 {
        Seq::empty()
    } else {
        let before = layer_members(classes.drop_last(), layer, option);
        if layer_of(classes.last().name) == layer {
            before.push(display_name(option, classes.last().name))
        } else {
            before
        }
    }
}

/// The block of a cluster: its title, and its members one to a line.
pub open spec fn cluster(title: Seq<char>, members: Seq<Seq<char>>) -> Seq<char> {
    "\n  subgraph cluster_"@ + title + "{\n    "@ + join(members, "\n    "@) + "\n    }"@
}

/// The cluster of `layer`, where the layer has a class.
pub open spec fn layer_cluster(classes: Seq<ClassModel>, layer: Layer, option: OptionModel) -> Seq<Seq<char>> {
    if layer_members(classes, layer, option).len() > 0 {
        seq![cluster(layer.title(), layer_members(classes, layer, option))]
    } else {
        Seq::empty()
    }
}

/// The clusters of the layers that have a class, in the order of their
/// titles: Controller, Repository, Service.
pub open spec fn clusters(classes: Seq<ClassModel>, option: OptionModel) -> Seq<Seq<char>> {
    layer_cluster(classes, Layer::Controller, option) + layer_cluster(
        classes,
        Layer::Repository,
        option,
    ) + layer_cluster(classes, Layer::Service, option)
}

/// The layer of the class that a dependency points to: that of the first
/// class of the list that is shown under the target's name.
pub open spec fn target_layer(target: Seq<char>, classes: Seq<ClassModel>, option: OptionModel) -> Layer {
    match known_names(classes, option).index_of_first(target) {
        Some(at) => layer_of(classes[at].name),
        None => Layer::Unclustered,
    }
}

/// Whether a dependency goes the expected way: from a class of the Service
/// layer to one of the Repository layer.
pub open spec fn is_expected(class: ClassModel, target: Seq<char>, classes: Seq<ClassModel>, option: OptionModel) -> bool {
    layer_of(class.name) == Layer::Service && target_layer(target, classes, option)
        == Layer::Repository
}

/// The line of an arrow; an expected one is drawn in red.
pub open spec fn arrow_line(owner: Seq<char>, target: Seq<char>, expected: bool) -> Seq<char> {
    if expected {
        owner + " -> "@ + target + " [color=red]\n"@
    } else {
        owner + " -> "@ + target + "\n"@
    }
}

/// One arrow for each dependency of `class` among `classes`.
pub open spec fn class_arrows(class: ClassModel, classes: Seq<ClassModel>, option: OptionModel) -> Seq<Seq<char>> {
    dependencies(class, option, known_names(classes, option)).map_values(
        |target: Seq<char>|
            arrow_line(
                display_name(option, class.name),
                target,
                is_expected(class, target, classes, option),
            ),
    )
}

/// One link for each dependency of `class` among `classes`.
pub open spec fn class_links(class: ClassModel, classes: Seq<ClassModel>, option: OptionModel) -> Seq<LinkModel> {
    dependencies(class, option, known_names(classes, option)).map_values(
        |target: Seq<char>|
            LinkModel {
                source: display_name(option, class.name),
                target,
                value: LINK_WEIGHT as nat,
                package: class.package,
            },
    )
}

/// The arrows of the first classes of the list, `some`, among all of them.
pub open spec fn arrows(some: Seq<ClassModel>, classes: Seq<ClassModel>, option: OptionModel) -> Seq<Seq<char>>
    decreases some.len(),
{
    if some.len() == 0 {
        Seq::empty()
    } else {
        arrows(some.drop_last(), classes, option) + class_arrows(some.last(), classes, option)
    }
}

/// The links of the first classes of the list, `some`, among all of them.
pub open spec fn links(some: Seq<ClassModel>, classes: Seq<ClassModel>, option: OptionModel) -> Seq<LinkModel>
    decreases some.len(),
{
    if some.len() == 0 {
        Seq::empty()
    } else {
        links(some.drop_last(), classes, option) + class_links(some.last(), classes, option)
    }
}

/// The graph of `classes` as nodes and links: a node for each class, and a
/// link for each dependency of each class. Dependencies between the same
/// two classes are not merged.
pub open spec fn graph_data(classes: Seq<ClassModel>, option: OptionModel) -> DataModel {
    DataModel { nodes: nodes(classes, option), links: links(classes, classes, option) }
}

/// The Graphviz text for `classes`: the head of the digraph, the clusters,
/// the arrows, and the closing brace.
pub open spec fn graphviz_text(classes: Seq<ClassModel>, option: OptionModel) -> Seq<char> {
    "digraph G {\n  compound=true;\n  ranksep=1\n  node[shape=record]\n"@ + join(
        clusters(classes, option),
        "\n"@,
    ) + "\n"@ + concat_all(arrows(classes, classes, option)) + "\n}"@
}

/// A class without members and methods has no arrows and no links.
pub proof fn lemma_empty_class_graph(class: ClassModel, classes: Seq<ClassModel>, option: OptionModel)
    requires
        class.members.len() == 0,
        class.methods.len() == 0,
    ensures
        class_arrows(class, classes, option) == Seq::<Seq<char>>::empty(),
        class_links(class, classes, option) == Seq::<LinkModel>::empty(),
{
    lemma_empty_class(class, Seq::empty(), option, known_names(classes, option));
    assert(class_arrows(class, classes, option) =~= Seq::<Seq<char>>::empty());
    assert(class_links(class, classes, option) =~= Seq::<LinkModel>::empty());
}

/// Every link of a class points to the shown name of a class of the list,
/// and none points to the class itself.
pub proof fn lemma_links_sound(class: ClassModel, classes: Seq<ClassModel>, option: OptionModel)
    ensures
        forall|k: int|
            0 <= k < class_links(class, classes, option).len() ==> {
                &&& known_names(classes, option).contains(
                    (#[trigger] class_links(class, classes, option)[k]).target,
                )
                &&& class_links(class, classes, option)[k].target != display_name(
                    option,
                    class.name,
                )
                &&& class_links(class, classes, option)[k].source == display_name(
                    option,
                    class.name,
                )
            },
{
    lemma_dependencies_sound(class, option, known_names(classes, option));
    let targets = dependencies(class, option, known_names(classes, option));
    assert forall|k: int| 0 <= k < class_links(class, classes, option).len() implies {
        &&& known_names(classes, option).contains(
            (#[trigger] class_links(class, classes, option)[k]).target,
        )
        &&& class_links(class, classes, option)[k].target != display_name(option, class.name)
        &&& class_links(class, classes, option)[k].source == display_name(option, class.name)
    } by {
        assert(class_links(class, classes, option)[k].target == targets[k]);
    }
}

/// The shown names of the classes of `layer`, in the order of the list.
pub fn layer_members_of(classes: &Vec<ClassInfo>, layer: Layer, parse_option: &ParseOption) -> (members:
    Vec<String>)
    ensures
        members.deep_view() == layer_members(classes.deep_view(), layer, parse_option@),
{
    let ghost all = classes.deep_view();
    let mut members: Vec<String> = Vec::new();
    let mut i: usize = 0;
    assert(all.take(0) =~= Seq::empty());
    assert(members.deep_view() =~= Seq::empty());
    while i < classes.len()
        invariant
            all == classes.deep_view(),
            i <= classes.len(),
            members.deep_view() == layer_members(all.take(i as int), layer, parse_option@),
        decreases classes.len() - i,
    {
        let clazz = &classes[i];
        proof {
            let upto = all.take(i + 1);
            assert(upto.drop_last() == all.take(i as int));
            assert(upto.last() == clazz@);
        }
        if Layer::of(clazz.name.as_str()) == layer {
            let ghost before = members.deep_view();
            let name = process_name(parse_option, clazz.name.as_str());
            members.push(name);
            assert(members.deep_view() =~= before.push(
                display_name(parse_option@, clazz@.name),
            ));
        }
        i += 1;
    }
    assert(all.take(classes.len() as int) == all);
    members
}

/// Adds the cluster of `layer` to `blocks`, where the layer has a class.
pub fn push_layer_cluster(
    blocks: &mut Vec<String>,
    classes: &Vec<ClassInfo>,
    layer: Layer,
    parse_option: &ParseOption,
)
    ensures
        final(blocks).deep_view() == old(blocks).deep_view() + layer_cluster(
            classes.deep_view(),
            layer,
            parse_option@,
        ),
{
    let members = layer_members_of(classes, layer, parse_option);
    if members.len() > 0 {
        let mut block = "\n  subgraph cluster_".to_owned();
        block.append(layer.name());
        block.append("{\n    ");
        block.append(join_strings(&members, "\n    ").as_str());
        block.append("\n    }");
        let ghost before = blocks.deep_view();
        blocks.push(block);
        assert(blocks.deep_view() =~= before.push(block@));
        assert(before.push(block@) =~= before + seq![block@]);
    } else {
        assert(blocks.deep_view() + Seq::<Seq<char>>::empty() =~= blocks.deep_view());
    }
}

/// The arrows of a graph, and the graph as nodes and links.
pub struct GraphParts {
    pub arrows: Vec<String>,
    pub data: DData,
}

impl GraphvizRender {
    /// The arrows for `classes`, and their graph as nodes and links.
    pub fn parts(classes: &Vec<ClassInfo>, parse_option: &ParseOption) -> (parts: GraphParts)
        ensures
            parts.arrows.deep_view() == arrows(
                classes.deep_view(),
                classes.deep_view(),
                parse_option@,
            ),
            parts.data@ == graph_data(classes.deep_view(), parse_option@),
    {
        let class_map = known_names_of(classes.as_slice(), parse_option);
        let ghost all = classes.deep_view();
        let ghost known = class_map.deep_view();
        let space = String::new();
        let mut node_list: Vec<DNode> = Vec::new();
        let mut link_list: Vec<DLink> = Vec::new();
        let mut deps: Vec<String> = Vec::new();
        let mut i: usize = 0;
        assert(all.take(0) =~= Seq::empty());
        assert(deps.deep_view() =~= Seq::empty());
        assert(link_list.deep_view() =~= Seq::empty());
        while i < classes.len()
            invariant
                all == classes.deep_view(),
                known == class_map.deep_view(),
                known == known_names(all, parse_option@),
                class_map.len() == classes.len(),
                i <= classes.len(),
                node_list.len() == i,
                forall|j: int| 0 <= j < i ==> node_list@[j]@ == node_of(all[j], parse_option@),
                deps.deep_view() == arrows(all.take(i as int), all, parse_option@),
                link_list.deep_view() == links(all.take(i as int), all, parse_option@),
            decreases classes.len() - i,
        {
            let clazz = &classes[i];
            assert(clazz@ == all[i as int]);
            proof {
                let upto = all.take(i + 1);
                assert(upto.drop_last() == all.take(i as int));
                assert(upto.last() == clazz@);
            }
            let layer = Layer::of(clazz.name.as_str());
            let class_name = process_name(parse_option, clazz.name.as_str());
            node_list.push(
                DNode { id: class_name.clone(), package: clazz.package.clone(), group: layer.index() },
            );
            let found = class_parts(clazz, space.as_str(), parse_option, &class_map);
            let ghost targets = dependencies(clazz@, parse_option@, known);
            let ghost lines = class_arrows(clazz@, all, parse_option@);
            let ghost added = class_links(clazz@, all, parse_option@);
            let ghost deps_before = deps.deep_view();
            let ghost links_before = link_list.deep_view();
            let mut k: usize = 0;
            assert(lines.take(0) =~= Seq::empty());
            assert(added.take(0) =~= Seq::empty());
            assert(deps_before + Seq::<Seq<char>>::empty() =~= deps_before);
            assert(links_before + Seq::<LinkModel>::empty() =~= links_before);
            while k < found.dependencies.len()
                invariant
                    all == classes.deep_view(),
                    known == class_map.deep_view(),
                    known == known_names(all, parse_option@),
                    class_map.len() == classes.len(),
                    i < classes.len(),
                    clazz@ == all[i as int],
                    layer == layer_of(clazz@.name),
                    class_name@ == display_name(parse_option@, clazz@.name),
                    found.dependencies.deep_view() == targets,
                    targets == dependencies(clazz@, parse_option@, known),
                    lines == class_arrows(clazz@, all, parse_option@),
                    added == class_links(clazz@, all, parse_option@),
                    k <= found.dependencies.len(),
                    deps.deep_view() == deps_before + lines.take(k as int),
                    link_list.deep_view() == links_before + added.take(k as int),
                decreases found.dependencies.len() - k,
            {
                let target = &found.dependencies[k];
                assert(targets[k as int] == target@);
                let toward = match find_text(&class_map, target.as_str()) {
                    Some(at) => {
                        assert(all[at as int] == classes@[at as int]@);
                        Layer::of(classes[at].name.as_str())
                    },
                    None => Layer::Unclustered,
                };
                assert(toward == target_layer(target@, all, parse_option@));
                let mut line = class_name.clone();
                line.append(" -> ");
                line.append(target.as_str());
                if layer == Layer::Service && toward == Layer::Repository {
                    line.append(" [color=red]\n");
                } else {
                    line.append("\n");
                }
                assert(line@ == lines[k as int]);
                let ghost before = deps.deep_view();
                deps.push(line);
                assert(deps.deep_view() =~= before.push(line@));
                assert(lines.take(k + 1) =~= lines.take(k as int).push(lines[k as int]));
                let link = DLink {
                    source: class_name.clone(),
                    target: target.clone(),
                    value: LINK_WEIGHT,
                    package: clazz.package.clone(),
                };
                assert(link@ == added[k as int]);
                let ghost before = link_list.deep_view();
                link_list.push(link);
                assert(link_list.deep_view() =~= before.push(link@));
                assert(added.take(k + 1) =~= added.take(k as int).push(added[k as int]));
                k += 1;
            }
            assert(lines.take(found.dependencies.len() as int) == lines);
            assert(added.take(found.dependencies.len() as int) == added);
            i += 1;
        }
        assert(all.take(classes.len() as int) == all);
        assert(node_list.deep_view() =~= nodes(all, parse_option@));
        GraphParts { arrows: deps, data: DData { nodes: node_list, links: link_list } }
    }

    /// The graph of `classes` as nodes and links.
    pub fn data(classes: &Vec<ClassInfo>, parse_option: &ParseOption) -> (data: DData)
        ensures
            data@ == graph_data(classes.deep_view(), parse_option@),
    {
        GraphvizRender::parts(classes, parse_option).data
    }

    /// The Graphviz text for `classes`.
    pub fn render(classes: &Vec<ClassInfo>, parse_option: &ParseOption) -> (text: String)
        ensures
            text@ == graphviz_text(classes.deep_view(), parse_option@),
    {
        let parts = GraphvizRender::parts(classes, parse_option);
        let mut sub_graphs: Vec<String> = Vec::new();
        assert(sub_graphs.deep_view() =~= Seq::empty());
        push_layer_cluster(&mut sub_graphs, classes, Layer::Controller, parse_option);
        push_layer_cluster(&mut sub_graphs, classes, Layer::Repository, parse_option);
        push_layer_cluster(&mut sub_graphs, classes, Layer::Service, parse_option);
        assert(sub_graphs.deep_view() =~= clusters(classes.deep_view(), parse_option@));
        let mut text =
            "digraph G {\n  compound=true;\n  ranksep=1\n  node[shape=record]\n".to_owned();
        text.append(join_strings(&sub_graphs, "\n").as_str());
        text.append("\n");
        text.append(concat_strings(&parts.arrows).as_str());
        text.append("\n}");
        text
    }
}

} // verus!
