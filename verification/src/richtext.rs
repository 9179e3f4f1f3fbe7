//! The rich text parser: one HTML fragment becomes an ordered sequence of
//! inline text runs, each carrying four independent style flags and a block
//! tag.
//!
//! The fragment is parsed by an outside HTML parser; its node tree, rebuilt
//! here as a plain tree of elements and text, is then walked by verified
//! code: a dispatch over the fragment's top-level nodes, a flattening of list
//! containers, and a recursive inline extraction that threads the four style
//! flags downward, OR-combining and never clearing them.
use vstd::prelude::*;

verus! {

use crate::strutil::trim_of;
use crate::strutil::trimmed;

use vstd::string::StringExecFns;

/// The structural role of a run.
#[derive(Debug, Clone, Copy, PartialEq, Eq, Structural)]
pub enum BlockType {
    Paragraph,
    ParagraphBreak,
    ListItem,
    Heading,
}

/// One contiguous span of text sharing the same style flags and block tag.
#[derive(Debug, Clone)]
pub struct TextElement {
    pub text: String,
    pub bold: bool,
    pub italic: bool,
    pub underline: bool,
    pub strikethrough: bool,
    pub block_type: BlockType,
}

pub ghost struct RunModel {
    pub text: Seq<char>,
    pub bold: bool,
    pub italic: bool,
    pub underline: bool,
    pub strikethrough: bool,
    pub block_type: BlockType,
}

impl View for TextElement {
    type V = RunModel;

    open spec fn view(&self) -> RunModel {
        RunModel {
            text: self.text@,
            bold: self.bold,
            italic: self.italic,
            underline: self.underline,
            strikethrough: self.strikethrough,
            block_type: self.block_type,
        }
    }
}

pub open spec fn runs_model(s: Seq<TextElement>) -> Seq<RunModel> {
    s.map_values(|e: TextElement| e@)
}

/// One step of a depth-first walk over the parsed fragment: an element
/// opens, a text node is met, or the innermost open element closes.
pub enum MarkupEvent {
    Open { tag: String },
    Text { text: String },
    Close,
}

pub ghost enum EventModel {
    Open { tag: Seq<char> },
    Text { text: Seq<char> },
    Close,
}

impl View for MarkupEvent {
    type V = EventModel;

    open spec fn view(&self) -> EventModel {
        match self {
            MarkupEvent::Open { tag } => EventModel::Open { tag: tag@ },
            MarkupEvent::Text { text } => EventModel::Text { text: text@ },
            MarkupEvent::Close => EventModel::Close,
        }
    }
}

pub open spec fn events_model(s: Seq<MarkupEvent>) -> Seq<EventModel> {
    s.map_values(|e: MarkupEvent| e@)
}

/// The depth-first event stream that the outside HTML parser yields for a
/// fragment; it covers the parser's synthetic root element, so the
/// fragment's own nodes are the root's children.
pub uninterp spec fn fragment_events(s: Seq<char>) -> Seq<EventModel>;

/// Relies on `scraper::Html::parse_fragment` (best-effort HTML fragment
/// parsing) and on `ego_tree`'s depth-first traversal of the resulting node
/// tree: elements open and close, text nodes appear in document order, and
/// every other node kind is passed over. The stream starts at the parser's
/// synthetic root element.
#[verifier::external_body]
fn parse_fragment_events(html: &str) -> (r: Vec<MarkupEvent>)
    ensures
        events_model(r@) == fragment_events(html@),
{
    let doc = scraper::Html::parse_fragment(html);
    let mut out: Vec<MarkupEvent> = Vec::new();
    for edge in doc.root_element().traverse() {
        match edge {
            ego_tree::iter::Edge::Open(n) => match n.value() {
                scraper::node::Node::Element(e) => out.push(MarkupEvent::Open { tag: e.name().to_string() }),
                scraper::node::Node::Text(t) => out.push(MarkupEvent::Text { text: t.text.to_string() }),
                _ => {}
            },
            ego_tree::iter::Edge::Close(n) => if n.value().is_element() { out.push(MarkupEvent::Close) },
        }
    }
    out
}

/// One node of the rebuilt fragment tree.
pub enum HtmlNode {
    Element { tag: String, children: Vec<HtmlNode> },
    Text { text: String },
}

pub ghost enum NodeModel {
    Element { tag: Seq<char>, children: Seq<NodeModel> },
    Text { text: Seq<char> },
}

pub open spec fn node_model(n: HtmlNode) -> NodeModel
    decreases n,
{
    match n {
        HtmlNode::Element { tag, children } => NodeModel::Element {
            tag: tag@,
            children: forest_model(children@),
        },
        HtmlNode::Text { text } => NodeModel::Text { text: text@ },
    }
}

pub open spec fn forest_model(s: Seq<HtmlNode>) -> Seq<NodeModel>
    decreases s,
{
    if s.len() == 0 {
        Seq::empty()
    } else {
        forest_model(s.drop_last()).push(node_model(s.last()))
    }
}

struct BuildFrame {
    tag: String,
    nodes: Vec<HtmlNode>,
}

pub ghost struct FrameModel {
    pub tag: Seq<char>,
    pub nodes: Seq<NodeModel>,
}

spec fn frame_model(f: BuildFrame) -> FrameModel {
    FrameModel { tag: f.tag@, nodes: forest_model(f.nodes@) }
}

spec fn stack_model(s: Seq<BuildFrame>) -> Seq<FrameModel> {
    s.map_values(|f: BuildFrame| frame_model(f))
}

/// How one event reshapes the stack of partially built elements: an opening
/// tag starts a new frame, text joins the innermost frame, and a close turns
/// the innermost frame into an element of the frame below. A close with no
/// open element, like text with no frame at all, is ignored.
pub open spec fn step_build(st: Seq<FrameModel>, ev: EventModel) -> Seq<FrameModel> {
    match ev {
        EventModel::Open { tag } => st.push(FrameModel { tag, nodes: Seq::empty() }),
        EventModel::Text { text } => if st.len() == 0 {
            st
        } else {
            st.update(
                st.len() - 1,
                FrameModel {
                    tag: st.last().tag,
                    nodes: st.last().nodes.push(NodeModel::Text { text }),
                },
            )
        },
        EventModel::Close => if st.len() < 2 {
            st
        } else {
            st.drop_last().update(
                st.len() - 2,
                FrameModel {
                    tag: st[st.len() - 2].tag,
                    nodes: st[st.len() - 2].nodes.push(
                        NodeModel::Element { tag: st.last().tag, children: st.last().nodes },
                    ),
                },
            )
        },
    }
}

pub open spec fn build_stack(evs: Seq<EventModel>) -> Seq<FrameModel>
    decreases evs.len(),
{
    if evs.len() == 0 {
        seq![FrameModel { tag: Seq::empty(), nodes: Seq::empty() }]
    } else {
        step_build(build_stack(evs.drop_last()), evs.last())
    }
}

/// Elements still open at the end of the stream are closed as if their
/// closing tags had been seen.
pub open spec fn collapse_stack(st: Seq<FrameModel>) -> Seq<NodeModel>
    decreases st.len(),
{
    if st.len() == 0 {
        Seq::empty()
    } else if st.len() == 1 {
        st[0].nodes
    } else {
        collapse_stack(step_build(st, EventModel::Close))
    }
}

/// The node forest that an event stream describes.
pub open spec fn forest_of_events(evs: Seq<EventModel>) -> Seq<NodeModel> {
    collapse_stack(build_stack(evs))
}

proof fn lemma_forest_push(s: Seq<HtmlNode>, x: HtmlNode)
    ensures
        forest_model(s.push(x)) == forest_model(s).push(node_model(x)),
{
    assert(s.push(x).drop_last() =~= s);
    assert(s.push(x).last() == x);
}

/// Rebuilds the node forest from the event stream.
pub fn build_forest(events: &Vec<MarkupEvent>) -> (r: Vec<HtmlNode>)
    ensures
        forest_model(r@) == forest_of_events(events_model(events@)),
{
    let ghost evs = events_model(events@);
    let mut stack: Vec<BuildFrame> = Vec::new();
    stack.push(BuildFrame { tag: String::new(), nodes: Vec::new() });
    assert(stack_model(stack@) =~= build_stack(evs.take(0)));
    let n = events.len();
    for i in 0..n
        invariant
            n == events.len(),
            evs == events_model(events@),
            stack.len() >= 1,
            stack_model(stack@) == build_stack(evs.take(i as int)),
    {
        let ghost old_stack = stack_model(stack@);
        match &events[i] {
            MarkupEvent::Open { tag } => {
                stack.push(BuildFrame { tag: tag.clone(), nodes: Vec::new() });
                assert(stack_model(stack@) =~= step_build(old_stack, evs[i as int]));
            },
            MarkupEvent::Text { text } => {
                let mut top = stack.pop().unwrap();
                let ghost old_nodes = top.nodes@;
                let node = HtmlNode::Text { text: text.clone() };
                let ghost gnode = node;
                top.nodes.push(node);
                proof {
                    lemma_forest_push(old_nodes, gnode);
                }
                stack.push(top);
                proof {
                    assert(evs[i as int] == (EventModel::Text { text: text@ }));
                    assert(frame_model(top) == (FrameModel {
                        tag: old_stack.last().tag,
                        nodes: old_stack.last().nodes.push(NodeModel::Text { text: text@ }),
                    }));
                    assert(stack_model(stack@) =~= step_build(old_stack, evs[i as int]));
                }
            },
            MarkupEvent::Close => {
                if stack.len() >= 2 {
                    let top = stack.pop().unwrap();
                    let mut parent = stack.pop().unwrap();
                    let ghost old_nodes = parent.nodes@;
                    let node = HtmlNode::Element { tag: top.tag, children: top.nodes };
                    let ghost gnode = node;
                    parent.nodes.push(node);
                    proof {
                        lemma_forest_push(old_nodes, gnode);
                    }
                    stack.push(parent);
                    proof {
                        assert(node_model(gnode) == (NodeModel::Element {
                            tag: old_stack.last().tag,
                            children: old_stack.last().nodes,
                        }));
                        assert(frame_model(parent) == (FrameModel {
                            tag: old_stack[old_stack.len() - 2].tag,
                            nodes: old_stack[old_stack.len() - 2].nodes.push(node_model(gnode)),
                        }));
                        assert(stack_model(stack@) =~= step_build(old_stack, evs[i as int]));
                    }
                } else {
                    assert(stack_model(stack@) =~= step_build(old_stack, evs[i as int]));
                }
            },
        }
        proof {
            assert(evs.take(i + 1).drop_last() =~= evs.take(i as int));
            assert(evs.take(i + 1).last() == evs[i as int]);
        }
    }
    proof {
        assert(evs.take(n as int) =~= evs);
    }
    while stack.len() >= 2
        invariant
            stack.len() >= 1,
            collapse_stack(stack_model(stack@)) == forest_of_events(evs),
        decreases stack.len(),
    {
        let ghost old_stack = stack_model(stack@);
        let top = stack.pop().unwrap();
        let mut parent = stack.pop().unwrap();
        let ghost old_nodes = parent.nodes@;
        let node = HtmlNode::Element { tag: top.tag, children: top.nodes };
        let ghost gnode = node;
        parent.nodes.push(node);
        proof {
            lemma_forest_push(old_nodes, gnode);
        }
        stack.push(parent);
        proof {
            assert(frame_model(parent) == (FrameModel {
                tag: old_stack[old_stack.len() - 2].tag,
                nodes: old_stack[old_stack.len() - 2].nodes.push(node_model(gnode)),
            }));
            assert(stack_model(stack@) =~= step_build(old_stack, EventModel::Close));
        }
    }
    let ghost closed = stack_model(stack@);
    let frame = stack.pop().unwrap();
    assert(forest_model(frame.nodes@) == collapse_stack(closed));
    frame.nodes
}

proof fn lemma_forest_model_len(s: Seq<HtmlNode>)
    ensures
        forest_model(s).len() == s.len(),
    decreases s.len(),
{
    if s.len() > 0 {
        lemma_forest_model_len(s.drop_last());
    }
}

/// Whether the tag names one of the six heading levels.
pub open spec fn is_heading_tag(tag: Seq<char>) -> bool {
    tag == "h1"@ || tag == "h2"@ || tag == "h3"@ || tag == "h4"@ || tag == "h5"@ || tag == "h6"@
}

/// The runs that inline extraction yields for a forest of nodes, given the
/// four style flags active above it and the enclosing block tag.
pub open spec fn inline_runs(
    nodes: Seq<NodeModel>,
    bold: bool,
    italic: bool,
    underline: bool,
    strike: bool,
    block: BlockType,
) -> Seq<RunModel>
    decreases nodes,
{
    if nodes.len() == 0 {
        Seq::empty()
    } else {
        inline_runs(nodes.drop_last(), bold, italic, underline, strike, block) + inline_node_runs(
            nodes.last(),
            bold,
            italic,
            underline,
            strike,
            block,
        )
    }
}

/// One node under inline extraction: a non-empty text node yields one run
/// with the flags active at that point; a style tag sets its flag for its
/// subtree; a line break yields a literal newline run and nothing below it;
/// any other element passes through with the flags unchanged.
pub open spec fn inline_node_runs(
    n: NodeModel,
    bold: bool,
    italic: bool,
    underline: bool,
    strike: bool,
    block: BlockType,
) -> Seq<RunModel>
    decreases n,
{
    match n {
        NodeModel::Text { text } => if text.len() == 0 {
            Seq::empty()
        } else {
            seq![
                RunModel {
                    text,
                    bold,
                    italic,
                    underline,
                    strikethrough: strike,
                    block_type: block,
                },
            ]
        },
        NodeModel::Element { tag, children } => {
            if tag == "br"@ {
                seq![
                    RunModel {
                        text: "\n"@,
                        bold,
                        italic,
                        underline,
                        strikethrough: strike,
                        block_type: block,
                    },
                ]
            } else if tag == "strong"@ || tag == "b"@ {
                inline_runs(children, true, italic, underline, strike, block)
            } else if tag == "em"@ || tag == "i"@ {
                inline_runs(children, bold, true, underline, strike, block)
            } else if tag == "u"@ {
                inline_runs(children, bold, italic, true, strike, block)
            } else if tag == "s"@ || tag == "del"@ || tag == "strike"@ {
                inline_runs(children, bold, italic, underline, true, block)
            } else {
                inline_runs(children, bold, italic, underline, strike, block)
            }
        },
    }
}

/// The runs of a list container's subtree: `li` children become item runs,
/// nested containers are flattened at the same depth, and anything else
/// inside the container is passed over.
pub open spec fn list_runs(nodes: Seq<NodeModel>) -> Seq<RunModel>
    decreases nodes,
{
    if nodes.len() == 0 {
        Seq::empty()
    } else {
        list_runs(nodes.drop_last()) + list_node_runs(nodes.last())
    }
}

pub open spec fn list_node_runs(n: NodeModel) -> Seq<RunModel>
    decreases n,
{
    match n {
        NodeModel::Text { .. } => Seq::empty(),
        NodeModel::Element { tag, children } => {
            if tag == "li"@ {
                inline_runs(children, false, false, false, false, BlockType::ListItem)
            } else if tag == "ol"@ || tag == "ul"@ {
                list_runs(children)
            } else {
                Seq::empty()
            }
        },
    }
}

/// The top-level dispatch over the fragment's direct children.
pub open spec fn dispatch_runs(nodes: Seq<NodeModel>) -> Seq<RunModel>
    decreases nodes,
{
    if nodes.len() == 0 {
        Seq::empty()
    } else {
        dispatch_runs(nodes.drop_last()) + dispatch_node_runs(nodes.last())
    }
}

/// One top-level node: headings, list items and list containers get their
/// block tags; a whitespace-only text node is dropped; everything else is
/// paragraph content.
pub open spec fn dispatch_node_runs(n: NodeModel) -> Seq<RunModel>
    decreases n,
{
    match n {
        NodeModel::Text { text } => if trim_of(text).len() == 0 {
            Seq::empty()
        } else {
            seq![
                RunModel {
                    text,
                    bold: false,
                    italic: false,
                    underline: false,
                    strikethrough: false,
                    block_type: BlockType::Paragraph,
                },
            ]
        },
        NodeModel::Element { tag, children } => {
            if is_heading_tag(tag) {
                inline_runs(children, false, false, false, false, BlockType::Heading)
            } else if tag == "li"@ {
                inline_runs(children, false, false, false, false, BlockType::ListItem)
            } else if tag == "ol"@ || tag == "ul"@ {
                list_runs(children)
            } else {
                inline_runs(children, false, false, false, false, BlockType::Paragraph)
            }
        },
    }
}

/// The fragment's own top-level nodes: the children of the parser's single
/// synthetic root element.
pub open spec fn top_nodes(roots: Seq<NodeModel>) -> Seq<NodeModel> {
    if roots.len() == 1 {
        match roots[0] {
            NodeModel::Element { children, .. } => children,
            _ => Seq::empty(),
        }
    } else {
        Seq::empty()
    }
}

/// What parsing an event stream yields.
pub open spec fn parse_events_spec(evs: Seq<EventModel>) -> Seq<RunModel> {
    dispatch_runs(top_nodes(forest_of_events(evs)))
}

/// What parsing a whole fragment yields: a blank fragment yields nothing,
/// any other fragment is parsed and dispatched.
pub open spec fn parse_html_spec(s: Seq<char>) -> Seq<RunModel> {
    if trim_of(s).len() == 0 {
        Seq::empty()
    } else {
        parse_events_spec(fragment_events(s))
    }
}

fn tag_is(tag: &String, lit: &str) -> (r: bool)
    ensures
        r == (tag@ == lit@),
{
    let o = lit.to_owned();
    *tag == o
}

proof fn lemma_inline_runs_push(
    s: Seq<NodeModel>,
    x: NodeModel,
    bold: bool,
    italic: bool,
    underline: bool,
    strike: bool,
    block: BlockType,
)
    ensures
        inline_runs(s.push(x), bold, italic, underline, strike, block) == inline_runs(
            s,
            bold,
            italic,
            underline,
            strike,
            block,
        ) + inline_node_runs(x, bold, italic, underline, strike, block),
{
    assert(s.push(x).drop_last() =~= s);
}

proof fn lemma_list_runs_push(s: Seq<NodeModel>, x: NodeModel)
    ensures
        list_runs(s.push(x)) == list_runs(s) + list_node_runs(x),
{
    assert(s.push(x).drop_last() =~= s);
}

proof fn lemma_dispatch_runs_push(s: Seq<NodeModel>, x: NodeModel)
    ensures
        dispatch_runs(s.push(x)) == dispatch_runs(s) + dispatch_node_runs(x),
{
    assert(s.push(x).drop_last() =~= s);
}

/// Inline-formatting extraction over a forest of nodes, mirroring
/// `inline_runs`.
fn extract_inline(
    nodes: &Vec<HtmlNode>,
    bold: bool,
    italic: bool,
    underline: bool,
    strike: bool,
    block: BlockType,
) -> (r: Vec<TextElement>)
    ensures
        runs_model(r@) == inline_runs(forest_model(nodes@), bold, italic, underline, strike, block),
    decreases nodes@,
{
    let mut out: Vec<TextElement> = Vec::new();
    proof {
        assert(nodes@.take(0) =~= Seq::empty());
        assert(runs_model(out@) =~= Seq::<RunModel>::empty());
    }
    let n = nodes.len();
    for i in 0..n
        invariant
            n == nodes.len(),
            runs_model(out@) == inline_runs(
                forest_model(nodes@.take(i as int)),
                bold,
                italic,
                underline,
                strike,
                block,
            ),
    {
        let ghost pre = forest_model(nodes@.take(i as int));
        let ghost node = nodes@[i as int];
        match &nodes[i] {
            HtmlNode::Text { text } => {
                if !text.as_str().is_empty() {
                    let ghost old_out = out@;
                    out.push(
                        TextElement {
                            text: text.clone(),
                            bold,
                            italic,
                            underline,
                            strikethrough: strike,
                            block_type: block,
                        },
                    );
                    proof {
                        assert(runs_model(out@) =~= runs_model(old_out).push(
                            RunModel {
                                text: text@,
                                bold,
                                italic,
                                underline,
                                strikethrough: strike,
                                block_type: block,
                            },
                        ));
                    }
                }
            },
            HtmlNode::Element { tag, children } => {
                if tag_is(tag, "br") {
                    let ghost old_out = out@;
                    out.push(
                        TextElement {
                            text: "\n".to_owned(),
                            bold,
                            italic,
                            underline,
                            strikethrough: strike,
                            block_type: block,
                        },
                    );
                    proof {
                        assert(runs_model(out@) =~= runs_model(old_out).push(
                            RunModel {
                                text: "\n"@,
                                bold,
                                italic,
                                underline,
                                strikethrough: strike,
                                block_type: block,
                            },
                        ));
                    }
                } else {
                    proof {
                        assert(decreases_to!(nodes@ => node));
                        assert(decreases_to!(node => *children));
                    }
                    let mut sub: Vec<TextElement>;
                    if tag_is(tag, "strong") || tag_is(tag, "b") {
                        sub = extract_inline(children, true, italic, underline, strike, block);
                    } else if tag_is(tag, "em") || tag_is(tag, "i") {
                        sub = extract_inline(children, bold, true, underline, strike, block);
                    } else if tag_is(tag, "u") {
                        sub = extract_inline(children, bold, italic, true, strike, block);
                    } else if tag_is(tag, "s") || tag_is(tag, "del") || tag_is(tag, "strike") {
                        sub = extract_inline(children, bold, italic, underline, true, block);
                    } else {
                        sub = extract_inline(children, bold, italic, underline, strike, block);
                    }
                    let ghost old_out = out@;
                    let ghost gsub = sub@;
                    out.append(&mut sub);
                    proof {
                        assert(runs_model(out@) =~= runs_model(old_out) + runs_model(gsub));
                    }
                }
            },
        }
        proof {
            assert(nodes@.take(i + 1).drop_last() =~= nodes@.take(i as int));
            assert(nodes@.take(i + 1).last() == node);
            assert(forest_model(nodes@.take(i + 1)) == pre.push(node_model(node)));
            lemma_inline_runs_push(pre, node_model(node), bold, italic, underline, strike, block);
            assert(runs_model(out@) =~= inline_runs(
                forest_model(nodes@.take(i + 1)),
                bold,
                italic,
                underline,
                strike,
                block,
            ));
        }
    }
    proof {
        assert(nodes@.take(n as int) =~= nodes@);
    }
    out
}

/// Flattens the `li` descendants of a list container, mirroring `list_runs`.
fn collect_list_items(nodes: &Vec<HtmlNode>) -> (r: Vec<TextElement>)
    ensures
        runs_model(r@) == list_runs(forest_model(nodes@)),
    decreases nodes@,
{
    let mut out: Vec<TextElement> = Vec::new();
    proof {
        assert(nodes@.take(0) =~= Seq::empty());
        assert(runs_model(out@) =~= Seq::<RunModel>::empty());
    }
    let n = nodes.len();
    for i in 0..n
        invariant
            n == nodes.len(),
            runs_model(out@) == list_runs(forest_model(nodes@.take(i as int))),
    {
        let ghost pre = forest_model(nodes@.take(i as int));
        let ghost node = nodes@[i as int];
        match &nodes[i] {
            HtmlNode::Text { .. } => {},
            HtmlNode::Element { tag, children } => {
                proof {
                    assert(decreases_to!(nodes@ => node));
                    assert(decreases_to!(node => *children));
                }
                if tag_is(tag, "li") {
                    let mut sub = extract_inline(
                        children,
                        false,
                        false,
                        false,
                        false,
                        BlockType::ListItem,
                    );
                    let ghost old_out = out@;
                    let ghost gsub = sub@;
                    out.append(&mut sub);
                    proof {
                        assert(runs_model(out@) =~= runs_model(old_out) + runs_model(gsub));
                    }
                } else if tag_is(tag, "ol") || tag_is(tag, "ul") {
                    let mut sub = collect_list_items(children);
                    let ghost old_out = out@;
                    let ghost gsub = sub@;
                    out.append(&mut sub);
                    proof {
                        assert(runs_model(out@) =~= runs_model(old_out) + runs_model(gsub));
                    }
                }
            },
        }
        proof {
            assert(nodes@.take(i + 1).drop_last() =~= nodes@.take(i as int));
            assert(nodes@.take(i + 1).last() == node);
            assert(forest_model(nodes@.take(i + 1)) == pre.push(node_model(node)));
            lemma_list_runs_push(pre, node_model(node));
            assert(runs_model(out@) =~= list_runs(forest_model(nodes@.take(i + 1))));
        }
    }
    proof {
        assert(nodes@.take(n as int) =~= nodes@);
    }
    out
}

/// The top-level dispatch over the fragment's direct children, mirroring
/// `dispatch_runs`.
fn dispatch_nodes(nodes: &Vec<HtmlNode>) -> (r: Vec<TextElement>)
    ensures
        runs_model(r@) == dispatch_runs(forest_model(nodes@)),
    decreases nodes@,
{
    let mut out: Vec<TextElement> = Vec::new();
    proof {
        assert(nodes@.take(0) =~= Seq::empty());
        assert(runs_model(out@) =~= Seq::<RunModel>::empty());
    }
    let n = nodes.len();
    for i in 0..n
        invariant
            n == nodes.len(),
            runs_model(out@) == dispatch_runs(forest_model(nodes@.take(i as int))),
    {
        let ghost pre = forest_model(nodes@.take(i as int));
        let ghost node = nodes@[i as int];
        match &nodes[i] {
            HtmlNode::Text { text } => {
                let t = trimmed(text.as_str());
                if !t.is_empty() {
                    let ghost old_out = out@;
                    out.push(
                        TextElement {
                            text: text.clone(),
                            bold: false,
                            italic: false,
                            underline: false,
                            strikethrough: false,
                            block_type: BlockType::Paragraph,
                        },
                    );
                    proof {
                        assert(runs_model(out@) =~= runs_model(old_out).push(
                            RunModel {
                                text: text@,
                                bold: false,
                                italic: false,
                                underline: false,
                                strikethrough: false,
                                block_type: BlockType::Paragraph,
                            },
                        ));
                    }
                }
            },
            HtmlNode::Element { tag, children } => {
                proof {
                    assert(decreases_to!(nodes@ => node));
                    assert(decreases_to!(node => *children));
                }
                let heading = tag_is(tag, "h1") || tag_is(tag, "h2") || tag_is(tag, "h3")
                    || tag_is(tag, "h4") || tag_is(tag, "h5") || tag_is(tag, "h6");
                let mut sub: Vec<TextElement>;
                if heading {
                    sub = extract_inline(children, false, false, false, false, BlockType::Heading);
                } else if tag_is(tag, "li") {
                    sub = extract_inline(children, false, false, false, false, BlockType::ListItem);
                } else if tag_is(tag, "ol") || tag_is(tag, "ul") {
                    sub = collect_list_items(children);
                } else {
                    sub = extract_inline(
                        children,
                        false,
                        false,
                        false,
                        false,
                        BlockType::Paragraph,
                    );
                }
                let ghost old_out = out@;
                let ghost gsub = sub@;
                out.append(&mut sub);
                proof {
                    assert(runs_model(out@) =~= runs_model(old_out) + runs_model(gsub));
                }
            },
        }
        proof {
            assert(nodes@.take(i + 1).drop_last() =~= nodes@.take(i as int));
            assert(nodes@.take(i + 1).last() == node);
            assert(forest_model(nodes@.take(i + 1)) == pre.push(node_model(node)));
            lemma_dispatch_runs_push(pre, node_model(node));
            assert(runs_model(out@) =~= dispatch_runs(forest_model(nodes@.take(i + 1))));
        }
    }
    proof {
        assert(nodes@.take(n as int) =~= nodes@);
    }
    out
}

fn top_level_nodes(roots: Vec<HtmlNode>) -> (r: Vec<HtmlNode>)
    ensures
        forest_model(r@) == top_nodes(forest_model(roots@)),
{
    proof {
        lemma_forest_model_len(roots@);
    }
    if roots.len() == 1 {
        let ghost groots = roots@;
        let mut roots = roots;
        let nd = roots.pop().unwrap();
        proof {
            assert(groots.drop_last() =~= Seq::empty());
            assert(forest_model(groots)[0] == node_model(nd));
        }
        match nd {
            HtmlNode::Element { tag: _, children } => children,
            HtmlNode::Text { .. } => Vec::new(),
        }
    } else {
        let r: Vec<HtmlNode> = Vec::new();
        proof {
            assert(forest_model(r@) =~= Seq::<NodeModel>::empty());
        }
        r
    }
}

/// Turns an already obtained event stream into the fragment's runs: the
/// verified half of `parse_html_content`, exact for every stream.
pub fn parse_markup_events(events: &Vec<MarkupEvent>) -> (r: Vec<TextElement>)
    ensures
        runs_model(r@) == parse_events_spec(events_model(events@)),
{
    let forest = build_forest(events);
    let tops = top_level_nodes(forest);
    dispatch_nodes(&tops)
}

/// Parses one HTML fragment into its ordered runs. A blank fragment yields
/// no runs at all.
pub fn parse_html_content(html: &str) -> (r: Vec<TextElement>)
    ensures
        runs_model(r@) == parse_html_spec(html@),
        html@.len() == 0 ==> r@.len() == 0,
{
    let t = trimmed(html);
    if t.is_empty() {
        let r: Vec<TextElement> = Vec::new();
        proof {
            assert(runs_model(r@) =~= Seq::<RunModel>::empty());
        }
        r
    } else {
        let events = parse_fragment_events(html);
        parse_markup_events(&events)
    }
}

} // verus!
