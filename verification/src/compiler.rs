//! The chapter builder: the flat, parent-linked node forest becomes a
//! `CompiledDocument` of ordered chapters, sections and runs.
//!
//! Top-level folders become chapters first, in input order: a folder's
//! direct child files become its sections, and files one level deeper are
//! appended after them under composite titles. Deeper folders contribute
//! nothing: the two-level flattening is a deliberate policy. Top-level files
//! then become one-section chapters numbered across the whole chapter list,
//! except that a lone top-level file with no folders keeps its own title.
use vstd::prelude::*;

verus! {

use crate::richtext::BlockType;
use crate::richtext::RunModel;
use crate::richtext::TextElement;
use crate::richtext::parse_html_content;
use crate::richtext::parse_html_spec;
use crate::richtext::runs_model;
use crate::strutil::dec_rep;
use crate::strutil::str_eq;
use crate::strutil::u64_to_dec;
use crate::types::ExportFileNode;
use crate::types::ExportPayload;
use crate::types::FileNodeModel;
use crate::types::PayloadModel;

use vstd::string::StringExecFns;

/// One section of a chapter: a file's title and its parsed runs.
#[derive(Debug, Clone)]
pub struct Section {
    pub title: String,
    pub elements: Vec<TextElement>,
}

pub ghost struct SectionModel {
    pub title: Seq<char>,
    pub elements: Seq<RunModel>,
}

impl View for Section {
    type V = SectionModel;

    open spec fn view(&self) -> SectionModel {
        SectionModel { title: self.title@, elements: runs_model(self.elements@) }
    }
}

pub open spec fn sections_model(s: Seq<Section>) -> Seq<SectionModel> {
    s.map_values(|x: Section| x@)
}

/// One chapter of the compiled document.
#[derive(Debug, Clone)]
pub struct Chapter {
    pub title: String,
    pub sections: Vec<Section>,
}

pub ghost struct ChapterModel {
    pub title: Seq<char>,
    pub sections: Seq<SectionModel>,
}

impl View for Chapter {
    type V = ChapterModel;

    open spec fn view(&self) -> ChapterModel {
        ChapterModel { title: self.title@, sections: sections_model(self.sections@) }
    }
}

pub open spec fn chapters_model(s: Seq<Chapter>) -> Seq<ChapterModel> {
    s.map_values(|x: Chapter| x@)
}

/// The structured book document, built once per export request.
#[derive(Debug, Clone)]
pub struct CompiledDocument {
    pub title: String,
    pub author: String,
    pub front_matter: Option<String>,
    pub back_matter: Option<String>,
    pub chapters: Vec<Chapter>,
}

pub ghost struct DocModel {
    pub title: Seq<char>,
    pub author: Seq<char>,
    pub front_matter: Option<Seq<char>>,
    pub back_matter: Option<Seq<char>>,
    pub chapters: Seq<ChapterModel>,
}

impl View for CompiledDocument {
    type V = DocModel;

    open spec fn view(&self) -> DocModel {
        DocModel {
            title: self.title@,
            author: self.author@,
            front_matter: match self.front_matter {
                Option::Some(c) => Option::Some(c@),
                Option::None => Option::None,
            },
            back_matter: match self.back_matter {
                Option::Some(c) => Option::Some(c@),
                Option::None => Option::None,
            },
            chapters: chapters_model(self.chapters@),
        }
    }
}

pub open spec fn is_top_folder(n: FileNodeModel) -> bool {
    n.parent == 0 && n.file_type == "folder"@
}

pub open spec fn is_top_file(n: FileNodeModel) -> bool {
    n.parent == 0 && n.file_type == "file"@
}

/// The top-level folders, in input order.
pub open spec fn top_folders(nodes: Seq<FileNodeModel>) -> Seq<FileNodeModel> {
    nodes.filter(|n: FileNodeModel| is_top_folder(n))
}

/// The top-level files, in input order.
pub open spec fn top_files(nodes: Seq<FileNodeModel>) -> Seq<FileNodeModel> {
    nodes.filter(|n: FileNodeModel| is_top_file(n))
}

/// The direct child files of the node with the given id, in input order.
pub open spec fn child_files(nodes: Seq<FileNodeModel>, id: int) -> Seq<FileNodeModel> {
    nodes.filter(|n: FileNodeModel| n.parent == id && n.file_type == "file"@)
}

/// The direct child folders of the node with the given id, in input order.
pub open spec fn child_folders(nodes: Seq<FileNodeModel>, id: int) -> Seq<FileNodeModel> {
    nodes.filter(|n: FileNodeModel| n.parent == id && n.file_type == "folder"@)
}

/// A file with no content is parsed as an empty fragment.
pub open spec fn content_of(c: Option<Seq<char>>) -> Seq<char> {
    match c {
        Option::Some(s) => s,
        Option::None => Seq::empty(),
    }
}

/// The section a file contributes under its own folder.
pub open spec fn section_of_file(f: FileNodeModel) -> SectionModel {
    SectionModel { title: f.text, elements: parse_html_spec(content_of(f.content)) }
}

/// The section a once-nested file contributes, under a composite title.
pub open spec fn nested_section(sub: FileNodeModel, f: FileNodeModel) -> SectionModel {
    SectionModel {
        title: sub.text + " — "@ + f.text,
        elements: parse_html_spec(content_of(f.content)),
    }
}

/// A folder's own sections: one per direct child file.
pub open spec fn own_sections(nodes: Seq<FileNodeModel>, folder: FileNodeModel) -> Seq<
    SectionModel,
> {
    child_files(nodes, folder.id).map_values(|f: FileNodeModel| section_of_file(f))
}

/// The sections one child folder contributes to its parent's chapter.
pub open spec fn sections_under(nodes: Seq<FileNodeModel>, sub: FileNodeModel) -> Seq<
    SectionModel,
> {
    child_files(nodes, sub.id).map_values(|f: FileNodeModel| nested_section(sub, f))
}

/// The sections all child folders contribute, in input order.
pub open spec fn nested_sections(nodes: Seq<FileNodeModel>, subs: Seq<FileNodeModel>) -> Seq<
    SectionModel,
>
    decreases subs.len(),
{
    if subs.len() == 0 {
        Seq::empty()
    } else {
        nested_sections(nodes, subs.drop_last()) + sections_under(nodes, subs.last())
    }
}

/// The chapter a top-level folder becomes.
pub open spec fn folder_chapter(nodes: Seq<FileNodeModel>, folder: FileNodeModel) -> ChapterModel {
    ChapterModel {
        title: folder.text,
        sections: own_sections(nodes, folder) + nested_sections(
            nodes,
            child_folders(nodes, folder.id),
        ),
    }
}

pub open spec fn folder_chapters(nodes: Seq<FileNodeModel>) -> Seq<ChapterModel> {
    top_folders(nodes).map_values(|f: FileNodeModel| folder_chapter(nodes, f))
}

/// A top-level file's chapter title: its own title in the singular case of
/// no folders and exactly one file, the running chapter number otherwise.
pub open spec fn file_chapter_title(nodes: Seq<FileNodeModel>, i: int, f: FileNodeModel) -> Seq<
    char,
> {
    if top_folders(nodes).len() == 0 && top_files(nodes).len() == 1 {
        f.text
    } else {
        "Chapter "@ + dec_rep((top_folders(nodes).len() + i + 1) as nat)
    }
}

pub open spec fn file_chapter(nodes: Seq<FileNodeModel>, i: int, f: FileNodeModel) -> ChapterModel {
    ChapterModel { title: file_chapter_title(nodes, i, f), sections: seq![section_of_file(f)] }
}

pub open spec fn file_chapters(nodes: Seq<FileNodeModel>) -> Seq<ChapterModel> {
    Seq::new(top_files(nodes).len(), |i: int| file_chapter(nodes, i, top_files(nodes)[i]))
}

/// All chapters: folder chapters first, then the numbered file chapters.
pub open spec fn chapters_spec(nodes: Seq<FileNodeModel>) -> Seq<ChapterModel> {
    folder_chapters(nodes) + file_chapters(nodes)
}

/// The whole compiled document: options copied verbatim, chapters built
/// from the forest.
pub open spec fn compile_spec(p: PayloadModel) -> DocModel {
    DocModel {
        title: p.options.title,
        author: p.options.author,
        front_matter: p.options.front_matter,
        back_matter: p.options.back_matter,
        chapters: chapters_spec(p.nodes),
    }
}

spec fn pick_models(nodes: Seq<FileNodeModel>, idx: Seq<usize>) -> Seq<FileNodeModel> {
    idx.map_values(|j: usize| nodes[j as int])
}

proof fn lemma_filter_push<A>(s: Seq<A>, pred: spec_fn(A) -> bool, x: A)
    ensures
        s.push(x).filter(pred) == if pred(x) {
            s.filter(pred).push(x)
        } else {
            s.filter(pred)
        },
{
    reveal(Seq::filter);
    assert(s.push(x).drop_last() =~= s);
}

proof fn lemma_nested_sections_push(
    nodes: Seq<FileNodeModel>,
    subs: Seq<FileNodeModel>,
    x: FileNodeModel,
)
    ensures
        nested_sections(nodes, subs.push(x)) == nested_sections(nodes, subs) + sections_under(
            nodes,
            x,
        ),
{
    assert(subs.push(x).drop_last() =~= subs);
}

proof fn lemma_child_files_push(s: Seq<FileNodeModel>, id: int, x: FileNodeModel)
    ensures
        child_files(s.push(x), id) == if x.parent == id && x.file_type == "file"@ {
            child_files(s, id).push(x)
        } else {
            child_files(s, id)
        },
{
    reveal(Seq::filter);
    assert(s.push(x).drop_last() =~= s);
}

proof fn lemma_child_folders_push(s: Seq<FileNodeModel>, id: int, x: FileNodeModel)
    ensures
        child_folders(s.push(x), id) == if x.parent == id && x.file_type == "folder"@ {
            child_folders(s, id).push(x)
        } else {
            child_folders(s, id)
        },
{
    reveal(Seq::filter);
    assert(s.push(x).drop_last() =~= s);
}

proof fn lemma_kind_literals_distinct()
    ensures
        "folder"@ != "file"@,
{
    reveal_strlit("folder");
    reveal_strlit("file");
    assert("folder"@.len() == 6);
    assert("file"@.len() == 4);
}

proof fn lemma_disjoint_filters_len<A>(s: Seq<A>, p1: spec_fn(A) -> bool, p2: spec_fn(A) -> bool)
    requires
        forall|x: A| #![trigger p1(x), p2(x)] !(p1(x) && p2(x)),
    ensures
        s.filter(p1).len() + s.filter(p2).len() <= s.len(),
    decreases s.len(),
{
    reveal(Seq::filter);
    if s.len() > 0 {
        lemma_disjoint_filters_len(s.drop_last(), p1, p2);
        assert(!(p1(s.last()) && p2(s.last())));
    }
}

fn parse_node_content(content: &Option<String>) -> (r: Vec<TextElement>)
    ensures
        runs_model(r@) == parse_html_spec(
            content_of(
                match *content {
                    Option::Some(ref c) => Option::Some(c@),
                    Option::None => Option::None,
                },
            ),
        ),
{
    match content {
        Option::Some(c) => parse_html_content(c.as_str()),
        Option::None => {
            proof {
                reveal_strlit("");
                assert(""@ =~= Seq::<char>::empty());
            }
            parse_html_content("")
        },
    }
}

fn section_for(node: &ExportFileNode) -> (s: Section)
    ensures
        s@ == section_of_file(node@),
{
    Section { title: node.text.clone(), elements: parse_node_content(&node.content) }
}

fn nested_section_for(sub: &ExportFileNode, node: &ExportFileNode) -> (s: Section)
    ensures
        s@ == nested_section(sub@, node@),
{
    let title = sub.text.clone().concat(" — ").concat(node.text.as_str());
    proof {
        assert(title@ =~= sub.text@ + " — "@ + node.text@);
    }
    Section { title, elements: parse_node_content(&node.content) }
}

/// Builds the compiled document from the export payload. This never fails:
/// orphan nodes are simply never visited, and malformed markup degrades
/// gracefully inside the rich text parser.
#[verifier::loop_isolation(false)]
#[verifier::rlimit(100)]
pub fn compile(payload: &ExportPayload) -> (r: Result<CompiledDocument, String>)
    ensures
        r matches Ok(doc) && doc@ == compile_spec(payload@),
{
    let nodes = &payload.nodes;
    let opts = &payload.options;
    let ghost nseq = payload@.nodes;
    let n = nodes.len();

    let mut folder_idx: Vec<usize> = Vec::new();
    let mut file_idx: Vec<usize> = Vec::new();
    proof {
        reveal(Seq::filter);
        lemma_kind_literals_distinct();
        assert(nseq.take(0) =~= Seq::empty());
        assert(pick_models(nseq, folder_idx@) =~= top_folders(nseq.take(0)));
        assert(pick_models(nseq, file_idx@) =~= top_files(nseq.take(0)));
    }
    for i in 0..n
        invariant
            forall|k: int| 0 <= k < folder_idx@.len() ==> #[trigger] folder_idx@[k] < n,
            forall|k: int| 0 <= k < file_idx@.len() ==> #[trigger] file_idx@[k] < n,
            pick_models(nseq, folder_idx@) == top_folders(nseq.take(i as int)),
            pick_models(nseq, file_idx@) == top_files(nseq.take(i as int)),
    {
        proof {
            assert(nseq[i as int] == nodes@[i as int]@);
        }
        let ghost gnode = nseq[i as int];
        if nodes[i].parent == 0 {
            if str_eq(nodes[i].file_type.as_str(), "folder") {
                folder_idx.push(i);
                proof {
                    assert(pick_models(nseq, folder_idx@) =~= pick_models(
                        nseq,
                        folder_idx@.drop_last(),
                    ).push(gnode));
                }
            } else if str_eq(nodes[i].file_type.as_str(), "file") {
                file_idx.push(i);
                proof {
                    assert(pick_models(nseq, file_idx@) =~= pick_models(
                        nseq,
                        file_idx@.drop_last(),
                    ).push(gnode));
                }
            }
        }
        proof {
            assert(nseq.take(i + 1).drop_last() =~= nseq.take(i as int));
            assert(nseq.take(i + 1).last() == gnode);
            lemma_filter_push(nseq.take(i as int), |x: FileNodeModel| is_top_folder(x), gnode);
            lemma_filter_push(nseq.take(i as int), |x: FileNodeModel| is_top_file(x), gnode);
        }
    }
    proof {
        assert(nseq.take(n as int) =~= nseq);
    }

    let mut chapters: Vec<Chapter> = Vec::new();
    let nf = folder_idx.len();
    proof {
        assert(top_folders(nseq).take(0) =~= Seq::<FileNodeModel>::empty());
        assert(chapters_model(chapters@) =~= top_folders(nseq).take(0).map_values(
            |f: FileNodeModel| folder_chapter(nseq, f),
        ));
        assert(top_folders(nseq).len() == folder_idx@.len());
    }
    for fi in 0..nf
        invariant
            chapters_model(chapters@) == top_folders(nseq).take(fi as int).map_values(
                |f: FileNodeModel| folder_chapter(nseq, f),
            ),
    {
        let fidx = folder_idx[fi];
        let ghost gfolder = top_folders(nseq)[fi as int];
        proof {
            assert(gfolder == nseq[folder_idx@[fi as int] as int]);
            assert(nseq[fidx as int] == nodes@[fidx as int]@);
        }

        let mut sections: Vec<Section> = Vec::new();
        proof {
            reveal(Seq::filter);
            assert(nseq.take(0) =~= Seq::empty());
            assert(sections_model(sections@) =~= own_sections(nseq.take(0), gfolder));
        }
        for j in 0..n
            invariant
                sections_model(sections@) == own_sections(nseq.take(j as int), gfolder),
        {
            proof {
                assert(nseq[j as int] == nodes@[j as int]@);
            }
            let ghost gnode = nseq[j as int];
            if nodes[j].parent == nodes[fidx].id && str_eq(nodes[j].file_type.as_str(), "file") {
                let sec = section_for(&nodes[j]);
                let ghost old_secs = sections@;
                sections.push(sec);
                proof {
                    assert(sections_model(sections@) =~= sections_model(old_secs).push(
                        section_of_file(gnode),
                    ));
                }
            }
            proof {
                assert(nseq.take(j + 1).drop_last() =~= nseq.take(j as int));
                assert(nseq.take(j + 1).last() == gnode);
                assert(nseq.take(j + 1) =~= nseq.take(j as int).push(gnode));
                lemma_child_files_push(nseq.take(j as int), gfolder.id, gnode);
                assert(sections_model(sections@) =~= own_sections(nseq.take(j + 1), gfolder));
            }
        }
        proof {
            assert(nseq.take(n as int) =~= nseq);
        }

        for k in 0..n
            invariant
                sections_model(sections@) == own_sections(nseq, gfolder) + nested_sections(
                    nseq,
                    child_folders(nseq.take(k as int), gfolder.id),
                ),
        {
            proof {
                assert(nseq[k as int] == nodes@[k as int]@);
            }
            let ghost gsub = nseq[k as int];
            if nodes[k].parent == nodes[fidx].id && str_eq(nodes[k].file_type.as_str(), "folder") {
                let ghost before_sub = sections_model(sections@);
                proof {
                    reveal(Seq::filter);
                    assert(nseq.take(0) =~= Seq::empty());
                    assert(child_files(nseq.take(0), gsub.id).map_values(
                        |f: FileNodeModel| nested_section(gsub, f),
                    ) =~= Seq::<SectionModel>::empty());
                    assert(sections_model(sections@) =~= before_sub + child_files(
                        nseq.take(0),
                        gsub.id,
                    ).map_values(|f: FileNodeModel| nested_section(gsub, f)));
                }
                for m in 0..n
                    invariant
                        sections_model(sections@) == before_sub + child_files(
                            nseq.take(m as int),
                            gsub.id,
                        ).map_values(|f: FileNodeModel| nested_section(gsub, f)),
                {
                    proof {
                        assert(nseq[m as int] == nodes@[m as int]@);
                    }
                    let ghost gfile = nseq[m as int];
                    if nodes[m].parent == nodes[k].id && str_eq(
                        nodes[m].file_type.as_str(),
                        "file",
                    ) {
                        let sec = nested_section_for(&nodes[k], &nodes[m]);
                        let ghost old_secs = sections@;
                        sections.push(sec);
                        proof {
                            assert(sections_model(sections@) =~= sections_model(old_secs).push(
                                nested_section(gsub, gfile),
                            ));
                        }
                    }
                    proof {
                        assert(nseq.take(m + 1).drop_last() =~= nseq.take(m as int));
                        assert(nseq.take(m + 1).last() == gfile);
                        assert(nseq.take(m + 1) =~= nseq.take(m as int).push(gfile));
                        lemma_child_files_push(nseq.take(m as int), gsub.id, gfile);
                        assert(sections_model(sections@) =~= before_sub + child_files(
                            nseq.take(m + 1),
                            gsub.id,
                        ).map_values(|f: FileNodeModel| nested_section(gsub, f)));
                    }
                }
                proof {
                    assert(nseq.take(n as int) =~= nseq);
                    assert(sections_model(sections@) == before_sub + sections_under(nseq, gsub));
                }
            }
            proof {
                assert(nseq.take(k + 1).drop_last() =~= nseq.take(k as int));
                assert(nseq.take(k + 1).last() == gsub);
                assert(nseq.take(k + 1) =~= nseq.take(k as int).push(gsub));
                lemma_child_folders_push(nseq.take(k as int), gfolder.id, gsub);
                if gsub.parent == gfolder.id && gsub.file_type == "folder"@ {
                    lemma_nested_sections_push(
                        nseq,
                        child_folders(nseq.take(k as int), gfolder.id),
                        gsub,
                    );
                }
            }
        }
        proof {
            assert(nseq.take(n as int) =~= nseq);
        }

        let chapter = Chapter { title: nodes[fidx].text.clone(), sections };
        let ghost gch = chapter@;
        let ghost old_chaps = chapters@;
        chapters.push(chapter);
        proof {
            assert(gch.title == gfolder.text);
            assert(gch.sections == own_sections(nseq, gfolder) + nested_sections(
                nseq,
                child_folders(nseq, gfolder.id),
            ));
            assert(gch == folder_chapter(nseq, gfolder));
            assert(chapters_model(chapters@) =~= chapters_model(old_chaps).push(gch));
            assert(top_folders(nseq).take(fi + 1).drop_last() =~= top_folders(nseq).take(
                fi as int,
            ));
            assert(top_folders(nseq).take(fi + 1).last() == top_folders(nseq)[fi as int]);
            assert(chapters_model(chapters@) =~= top_folders(nseq).take(fi + 1).map_values(
                |f: FileNodeModel| folder_chapter(nseq, f),
            ));
        }
    }
    proof {
        assert(top_folders(nseq).take(nf as int) =~= top_folders(nseq));
        assert(chapters_model(chapters@) == folder_chapters(nseq));
        assert(file_chapters(nseq).take(0) =~= Seq::<ChapterModel>::empty());
        assert(chapters_model(chapters@) =~= folder_chapters(nseq) + file_chapters(nseq).take(0));
        assert(top_files(nseq).len() == file_idx@.len());
    }

    let nfile = file_idx.len();
    for k in 0..nfile
        invariant
            chapters_model(chapters@) == folder_chapters(nseq) + file_chapters(nseq).take(
                k as int,
            ),
    {
        let fidx = file_idx[k];
        let ghost gfile = top_files(nseq)[k as int];
        proof {
            assert(gfile == nseq[file_idx@[k as int] as int]);
            assert(nseq[fidx as int] == nodes@[fidx as int]@);
        }
        let sec = section_for(&nodes[fidx]);
        let title: String;
        if nf == 0 && nfile == 1 {
            title = nodes[fidx].text.clone();
        } else {
            proof {
                lemma_kind_literals_distinct();
                lemma_disjoint_filters_len(
                    nseq,
                    |x: FileNodeModel| is_top_folder(x),
                    |x: FileNodeModel| is_top_file(x),
                );
            }
            let num: u64 = nf as u64 + k as u64 + 1;
            let digits = u64_to_dec(num);
            title = "Chapter ".to_owned().concat(digits.as_str());
        }
        proof {
            if !(nf == 0 && nfile == 1) {
                assert(title@ =~= "Chapter "@ + dec_rep((top_folders(nseq).len() + k + 1) as nat));
            }
        }
        let ghost gsec = sec@;
        let mut one_section: Vec<Section> = Vec::new();
        one_section.push(sec);
        proof {
            assert(sections_model(one_section@) =~= seq![gsec]);
        }
        let chapter = Chapter { title, sections: one_section };
        let ghost gch = chapter@;
        let ghost old_chaps = chapters@;
        chapters.push(chapter);
        proof {
            assert(gch.sections =~= seq![section_of_file(gfile)]);
            assert(gch == file_chapter(nseq, k as int, gfile));
            assert(file_chapters(nseq).len() == top_files(nseq).len());
            assert(file_chapters(nseq)[k as int] == file_chapter(nseq, k as int, gfile));
            assert(chapters_model(chapters@) =~= chapters_model(old_chaps).push(gch));
            assert(file_chapters(nseq).take(k + 1).drop_last() =~= file_chapters(nseq).take(
                k as int,
            ));
            assert(file_chapters(nseq).take(k + 1).last() == file_chapters(nseq)[k as int]);
            assert(chapters_model(chapters@) =~= folder_chapters(nseq) + file_chapters(nseq).take(
                k + 1,
            ));
        }
    }
    proof {
        assert(file_chapters(nseq).take(nfile as int) =~= file_chapters(nseq));
    }

    let front = match &opts.front_matter {
        Option::Some(s) => Option::Some(s.clone()),
        Option::None => Option::None,
    };
    let back = match &opts.back_matter {
        Option::Some(s) => Option::Some(s.clone()),
        Option::None => Option::None,
    };
    let doc = CompiledDocument {
        title: opts.title.clone(),
        author: opts.author.clone(),
        front_matter: front,
        back_matter: back,
        chapters,
    };
    Ok(doc)
}

/// Law: a payload whose node forest is empty compiles to a document with no
/// chapters.
pub proof fn lemma_empty_forest_no_chapters(p: PayloadModel)
    requires
        p.nodes.len() == 0,
    ensures
        compile_spec(p).chapters.len() == 0,
{
    reveal(Seq::filter);
    assert(top_folders(p.nodes).len() == 0);
    assert(top_files(p.nodes).len() == 0);
}

proof fn lemma_top_filters_all_files(s: Seq<FileNodeModel>)
    requires
        forall|k: int| 0 <= k < s.len() ==> is_top_file(#[trigger] s[k]),
    ensures
        top_files(s) == s,
        top_folders(s).len() == 0,
    decreases s.len(),
{
    reveal(Seq::filter);
    lemma_kind_literals_distinct();
    if s.len() > 0 {
        lemma_top_filters_all_files(s.drop_last());
        assert(is_top_file(s[s.len() - 1]));
        assert(!is_top_folder(s.last()));
        assert(top_files(s) =~= s);
    }
}

/// Law: when every node is a top-level file, the chapters come in input
/// order titled `Chapter 1`, `Chapter 2`, and so on — unless there is
/// exactly one such node, whose chapter keeps the file's own title.
pub proof fn lemma_only_top_level_files(p: PayloadModel)
    requires
        forall|k: int| 0 <= k < p.nodes.len() ==> is_top_file(#[trigger] p.nodes[k]),
    ensures
        compile_spec(p).chapters.len() == p.nodes.len(),
        p.nodes.len() != 1 ==> forall|k: int|
            0 <= k < p.nodes.len() ==> (#[trigger] compile_spec(p).chapters[k]).title
                == "Chapter "@ + dec_rep((k + 1) as nat),
        p.nodes.len() == 1 ==> compile_spec(p).chapters[0].title == p.nodes[0].text,
{
    lemma_top_filters_all_files(p.nodes);
    assert(folder_chapters(p.nodes).len() == 0);
    assert(file_chapters(p.nodes).len() == p.nodes.len());
    if p.nodes.len() != 1 {
        assert forall|k: int| 0 <= k < p.nodes.len() implies (#[trigger] compile_spec(
            p,
        ).chapters[k]).title == "Chapter "@ + dec_rep((k + 1) as nat) by {
            assert(compile_spec(p).chapters[k] == file_chapters(p.nodes)[k]);
            assert(file_chapters(p.nodes)[k] == file_chapter(p.nodes, k, top_files(p.nodes)[k]));
        }
    } else {
        assert(compile_spec(p).chapters[0] == file_chapters(p.nodes)[0]);
    }
}

/// Law: one top-level folder holding one child file compiles to exactly one
/// chapter, titled after the folder, holding exactly one section titled
/// after the file.
pub proof fn lemma_single_folder_single_file(p: PayloadModel)
    requires
        p.nodes.len() == 2,
        is_top_folder(p.nodes[0]),
        p.nodes[0].id != 0,
        p.nodes[1].parent == p.nodes[0].id,
        p.nodes[1].file_type == "file"@,
    ensures
        compile_spec(p).chapters.len() == 1,
        compile_spec(p).chapters[0].title == p.nodes[0].text,
        compile_spec(p).chapters[0].sections.len() == 1,
        compile_spec(p).chapters[0].sections[0].title == p.nodes[1].text,
{
    reveal_with_fuel(Seq::filter, 3);
    lemma_kind_literals_distinct();
    let s = p.nodes;
    assert(s.drop_last() =~= seq![s[0]]);
    assert(seq![s[0]].drop_last() =~= Seq::<FileNodeModel>::empty());
    assert(s.last() == s[1]);
    assert(seq![s[0]].last() == s[0]);
    assert(!is_top_folder(s[1]));
    assert(top_folders(seq![s[0]]) =~= seq![s[0]]);
    assert(top_folders(s) =~= seq![s[0]]);
    assert(!is_top_file(s[0]));
    assert(!is_top_file(s[1]));
    assert(top_files(seq![s[0]]) =~= Seq::<FileNodeModel>::empty());
    assert(top_files(s) =~= Seq::<FileNodeModel>::empty());
    assert(child_files(seq![s[0]], s[0].id) =~= Seq::<FileNodeModel>::empty());
    assert(child_files(s, s[0].id) =~= seq![s[1]]);
    assert(child_folders(seq![s[0]], s[0].id) =~= Seq::<FileNodeModel>::empty());
    assert(child_folders(s, s[0].id) =~= Seq::<FileNodeModel>::empty());
    assert(folder_chapters(s).len() == 1);
    assert(file_chapters(s).len() == 0);
    assert(compile_spec(p).chapters[0] == folder_chapter(s, s[0]));
    assert(own_sections(s, s[0]) =~= seq![section_of_file(s[1])]);
    assert(nested_sections(s, child_folders(s, s[0].id)) =~= Seq::<SectionModel>::empty());
    assert(folder_chapter(s, s[0]).sections =~= seq![section_of_file(s[1])]);
}

} // verus!
