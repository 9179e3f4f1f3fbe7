//! The page layout plan. A render is described as a plain sequence of
//! steps: progress notifications to hand to the observer, interleaved with
//! page operations — forced page breaks, vertical gaps, and styled
//! paragraphs — for the serializer to draw in order. Building the plan is
//! pure; the shell walks it and performs each step.
//!
//! Sections are laid out by a paragraph-accumulation state machine: inline
//! paragraph runs coalesce into one growing paragraph, which a paragraph
//! break, a list item, a heading or the end of the section flushes.
use vstd::prelude::*;

verus! {

use crate::compiler::Chapter;
use crate::compiler::ChapterModel;
use crate::compiler::CompiledDocument;
use crate::compiler::DocModel;
use crate::compiler::Section;
use crate::compiler::SectionModel;
use crate::richtext::BlockType;
use crate::richtext::RunModel;
use crate::richtext::TextElement;
use crate::richtext::runs_model;
use crate::strutil::dec_rep;
use crate::strutil::trim_of;
use crate::strutil::trimmed;
use crate::strutil::u64_to_dec;
use crate::types::ExportProgress;
use crate::types::ProgressModel;

use vstd::string::StrSliceExecFns;
use vstd::string::StringExecFns;

/// One styled span inside a paragraph operation. A size of `None` leaves
/// the document's default font size in force.
#[derive(Debug, Clone)]
pub struct StyledRun {
    pub text: String,
    pub bold: bool,
    pub italic: bool,
    pub size: Option<u8>,
}

pub ghost struct StyledRunModel {
    pub text: Seq<char>,
    pub bold: bool,
    pub italic: bool,
    pub size: Option<u8>,
}

impl View for StyledRun {
    type V = StyledRunModel;

    open spec fn view(&self) -> StyledRunModel {
        StyledRunModel { text: self.text@, bold: self.bold, italic: self.italic, size: self.size }
    }
}

pub open spec fn styled_runs_model(s: Seq<StyledRun>) -> Seq<StyledRunModel> {
    s.map_values(|x: StyledRun| x@)
}

/// One drawing operation. Gaps are measured in hundredths of a line
/// height, so the plan stays in integers.
#[derive(Debug, Clone)]
pub enum PdfOp {
    PageBreak,
    Gap { hundredths: u32 },
    Paragraph { runs: Vec<StyledRun>, centered: bool },
}

pub ghost enum PdfOpModel {
    PageBreak,
    Gap { hundredths: u32 },
    Paragraph { runs: Seq<StyledRunModel>, centered: bool },
}

impl View for PdfOp {
    type V = PdfOpModel;

    open spec fn view(&self) -> PdfOpModel {
        match self {
            PdfOp::PageBreak => PdfOpModel::PageBreak,
            PdfOp::Gap { hundredths } => PdfOpModel::Gap { hundredths: *hundredths },
            PdfOp::Paragraph { runs, centered } => PdfOpModel::Paragraph {
                runs: styled_runs_model(runs@),
                centered: *centered,
            },
        }
    }
}

/// One step of a render: notify the observer, or draw.
#[derive(Debug, Clone)]
pub enum RenderStep {
    Emit { progress: ExportProgress },
    Op { op: PdfOp },
}

pub ghost enum StepModel {
    Emit { progress: ProgressModel },
    Op { op: PdfOpModel },
}

impl View for RenderStep {
    type V = StepModel;

    open spec fn view(&self) -> StepModel {
        match self {
            RenderStep::Emit { progress } => StepModel::Emit { progress: progress@ },
            RenderStep::Op { op } => StepModel::Op { op: op@ },
        }
    }
}

pub open spec fn steps_model(s: Seq<RenderStep>) -> Seq<StepModel> {
    s.map_values(|x: RenderStep| x@)
}

pub open spec fn run_of(text: Seq<char>, bold: bool, italic: bool, size: Option<u8>) -> StyledRunModel {
    StyledRunModel { text, bold, italic, size }
}

pub open spec fn para_op(runs: Seq<StyledRunModel>, centered: bool) -> PdfOpModel {
    PdfOpModel::Paragraph { runs, centered }
}

/// The centered title page: twelve blank lines push the title toward the
/// middle, then the large bold title, a two-line gap, and the author.
pub open spec fn title_page_ops(title: Seq<char>, author: Seq<char>) -> Seq<PdfOpModel> {
    Seq::new(12, |i: int| PdfOpModel::Gap { hundredths: 100 }) + seq![
        para_op(seq![run_of(title, true, false, Option::Some(28u8))], true),
        PdfOpModel::Gap { hundredths: 200 },
        para_op(seq![run_of(author, false, false, Option::Some(16u8))], true),
    ]
}

/// Front or back matter: a page of raw text when the block is present and
/// not blank, nothing otherwise.
pub open spec fn matter_ops(m: Option<Seq<char>>) -> Seq<PdfOpModel> {
    match m {
        Option::Some(t) => if trim_of(t).len() == 0 {
            Seq::empty()
        } else {
            seq![
                PdfOpModel::PageBreak,
                para_op(seq![run_of(t, false, false, Option::None)], false),
            ]
        },
        Option::None => Seq::empty(),
    }
}

/// A paragraph run styled for body text.
pub open spec fn body_run(e: RunModel) -> StyledRunModel {
    run_of(e.text, e.bold, e.italic, Option::Some(12u8))
}

pub open spec fn acc_runs(acc: Option<Seq<StyledRunModel>>) -> Seq<StyledRunModel> {
    match acc {
        Option::Some(runs) => runs,
        Option::None => Seq::empty(),
    }
}

/// Flushing the accumulator: a pending paragraph is drawn with its
/// trailing gap; an empty accumulator draws nothing.
pub open spec fn flush_ops(acc: Option<Seq<StyledRunModel>>) -> Seq<PdfOpModel> {
    match acc {
        Option::Some(runs) => seq![para_op(runs, false), PdfOpModel::Gap { hundredths: 30 }],
        Option::None => Seq::empty(),
    }
}

/// The paragraph-accumulation state machine, one pass over a section's
/// runs: paragraph runs join the accumulator; a paragraph break flushes
/// it; a list item flushes it and draws its own bulleted line; a heading
/// flushes it and draws a bold enlarged line; the end flushes what is
/// left.
pub open spec fn machine_ops(elems: Seq<RunModel>, acc: Option<Seq<StyledRunModel>>) -> Seq<
    PdfOpModel,
>
    decreases elems.len(),
{
    if elems.len() == 0 {
        flush_ops(acc)
    } else {
        let e = elems.first();
        let rest = elems.drop_first();
        match e.block_type {
            BlockType::Paragraph => machine_ops(
                rest,
                Option::Some(acc_runs(acc).push(body_run(e))),
            ),
            BlockType::ParagraphBreak => flush_ops(acc) + machine_ops(rest, Option::None),
            BlockType::ListItem => flush_ops(acc) + seq![
                para_op(seq![run_of("  - "@ + e.text, e.bold, e.italic, Option::Some(12u8))], false),
                PdfOpModel::Gap { hundredths: 15 },
            ] + machine_ops(rest, Option::None),
            BlockType::Heading => flush_ops(acc) + seq![
                para_op(seq![run_of(e.text, true, false, Option::Some(16u8))], false),
                PdfOpModel::Gap { hundredths: 30 },
            ] + machine_ops(rest, Option::None),
        }
    }
}

/// One section: its bold heading, a half-line gap, the state machine's
/// output, and a closing half-line gap.
pub open spec fn section_ops(s: SectionModel) -> Seq<PdfOpModel> {
    seq![
        para_op(seq![run_of(s.title, true, false, Option::Some(14u8))], false),
        PdfOpModel::Gap { hundredths: 50 },
    ] + machine_ops(s.elements, Option::None) + seq![PdfOpModel::Gap { hundredths: 50 }]
}

/// A chapter's sections in order, a forced page break before each but the
/// first.
pub open spec fn sections_ops(ss: Seq<SectionModel>) -> Seq<PdfOpModel>
    decreases ss.len(),
{
    if ss.len() == 0 {
        Seq::empty()
    } else if ss.len() == 1 {
        section_ops(ss[0])
    } else {
        sections_ops(ss.drop_last()) + seq![PdfOpModel::PageBreak] + section_ops(ss.last())
    }
}

/// One chapter: a forced page break, the centered bold heading, a gap,
/// then its sections.
pub open spec fn chapter_ops(c: ChapterModel) -> Seq<PdfOpModel> {
    seq![
        PdfOpModel::PageBreak,
        para_op(seq![run_of(c.title, true, false, Option::Some(22u8))], true),
        PdfOpModel::Gap { hundredths: 150 },
    ] + sections_ops(c.sections)
}

pub open spec fn ops_steps(ops: Seq<PdfOpModel>) -> Seq<StepModel> {
    ops.map_values(|o: PdfOpModel| StepModel::Op { op: o })
}

pub open spec fn progress_step(stage: Seq<char>, current: int, total: int) -> StepModel {
    StepModel::Emit { progress: ProgressModel { stage, current, total } }
}

/// The stage text announced before chapter `i` of `count` is drawn.
pub open spec fn chapter_stage(i: int, count: int) -> Seq<char> {
    "Rendering chapter "@ + dec_rep((i + 1) as nat) + " of "@ + dec_rep(count as nat) + "..."@
}

/// The steps for a prefix of the chapter list: each chapter announces its
/// progress, then draws.
pub open spec fn chapters_steps(chapters: Seq<ChapterModel>, count: int, total: int) -> Seq<
    StepModel,
>
    decreases chapters.len(),
{
    if chapters.len() == 0 {
        Seq::empty()
    } else {
        chapters_steps(chapters.drop_last(), count, total) + seq![
            progress_step(
                chapter_stage(chapters.len() - 1, count),
                chapters.len() as int,
                total,
            ),
        ] + ops_steps(chapter_ops(chapters.last()))
    }
}

/// The whole render plan: a preparation notification, the title page, the
/// optional front matter, the chapters with their notifications, the
/// optional back matter, and the final write notification. The total step
/// count is always the chapter count plus two.
pub open spec fn render_steps_spec(doc: DocModel) -> Seq<StepModel> {
    let total = doc.chapters.len() as int + 2;
    seq![progress_step("Preparing document..."@, 0, total)] + ops_steps(
        title_page_ops(doc.title, doc.author),
    ) + ops_steps(matter_ops(doc.front_matter)) + chapters_steps(
        doc.chapters,
        doc.chapters.len() as int,
        total,
    ) + ops_steps(matter_ops(doc.back_matter)) + seq![
        progress_step("Writing PDF file..."@, total, total),
    ]
}

spec fn acc_m(has: bool, v: Seq<StyledRun>) -> Option<Seq<StyledRunModel>> {
    if has {
        Option::Some(styled_runs_model(v))
    } else {
        Option::None
    }
}

fn push_op(out: &mut Vec<RenderStep>, op: PdfOp)
    ensures
        steps_model(final(out)@) == steps_model(old(out)@) + seq![StepModel::Op { op: op@ }],
{
    let ghost gop = op@;
    let ghost old_out = out@;
    out.push(RenderStep::Op { op });
    proof {
        assert(steps_model(out@) =~= steps_model(old_out) + seq![StepModel::Op { op: gop }]);
    }
}

fn emit_progress_step(out: &mut Vec<RenderStep>, stage: String, current: usize, total: usize)
    ensures
        steps_model(final(out)@) == steps_model(old(out)@) + seq![
            progress_step(stage@, current as int, total as int),
        ],
{
    let ghost gs = stage@;
    let ghost old_out = out@;
    out.push(RenderStep::Emit { progress: ExportProgress { stage, current, total } });
    proof {
        assert(steps_model(out@) =~= steps_model(old_out) + seq![
            progress_step(gs, current as int, total as int),
        ]);
    }
}

fn single_run_para(text: String, bold: bool, italic: bool, size: Option<u8>, centered: bool) -> (op:
    PdfOp)
    ensures
        op@ == para_op(seq![run_of(text@, bold, italic, size)], centered),
{
    let ghost gt = text@;
    let mut runs: Vec<StyledRun> = Vec::new();
    runs.push(StyledRun { text, bold, italic, size });
    proof {
        assert(styled_runs_model(runs@) =~= seq![run_of(gt, bold, italic, size)]);
    }
    PdfOp::Paragraph { runs, centered }
}

#[verifier::loop_isolation(false)]
fn emit_title_page(out: &mut Vec<RenderStep>, title: &String, author: &String)
    ensures
        steps_model(final(out)@) == steps_model(old(out)@) + ops_steps(
            title_page_ops(title@, author@),
        ),
{
    proof {
        assert(Seq::new(0, |i: int| PdfOpModel::Gap { hundredths: 100 })
            =~= Seq::<PdfOpModel>::empty());
        assert(steps_model(out@) =~= steps_model(old(out)@) + ops_steps(
            Seq::new(0, |i: int| PdfOpModel::Gap { hundredths: 100 }),
        ));
    }
    for g in 0..12usize
        invariant
            steps_model(out@) == steps_model(old(out)@) + ops_steps(
                Seq::new(g as nat, |i: int| PdfOpModel::Gap { hundredths: 100 }),
            ),
    {
        push_op(out, PdfOp::Gap { hundredths: 100 });
        proof {
            assert(steps_model(out@) =~= steps_model(old(out)@) + ops_steps(
                Seq::new((g + 1) as nat, |i: int| PdfOpModel::Gap { hundredths: 100 }),
            ));
        }
    }
    let tp = single_run_para(title.clone(), true, false, Option::Some(28u8), true);
    push_op(out, tp);
    push_op(out, PdfOp::Gap { hundredths: 200 });
    let ap = single_run_para(author.clone(), false, false, Option::Some(16u8), true);
    push_op(out, ap);
    proof {
        assert(steps_model(out@) =~= steps_model(old(out)@) + ops_steps(
            title_page_ops(title@, author@),
        ));
    }
}

fn emit_matter(out: &mut Vec<RenderStep>, m: &Option<String>)
    ensures
        steps_model(final(out)@) == steps_model(old(out)@) + ops_steps(
            matter_ops(
                match *m {
                    Option::Some(ref c) => Option::Some(c@),
                    Option::None => Option::None,
                },
            ),
        ),
{
    match m {
        Option::Some(t) => {
            let tr = trimmed(t.as_str());
            if !tr.is_empty() {
                push_op(out, PdfOp::PageBreak);
                let p = single_run_para(t.clone(), false, false, Option::None, false);
                push_op(out, p);
                proof {
                    assert(steps_model(out@) =~= steps_model(old(out)@) + ops_steps(
                        matter_ops(Option::Some(t@)),
                    ));
                }
            } else {
                proof {
                    assert(steps_model(out@) =~= steps_model(old(out)@) + ops_steps(
                        matter_ops(Option::Some(t@)),
                    ));
                }
            }
        },
        Option::None => {
            proof {
                assert(steps_model(out@) =~= steps_model(old(out)@) + ops_steps(
                    matter_ops(Option::None),
                ));
            }
        },
    }
}

/// Flushes the accumulator into the plan; hands back the cleared state.
fn flush_acc(out: &mut Vec<RenderStep>, has_acc: bool, accv: Vec<StyledRun>) -> (r: (
    bool,
    Vec<StyledRun>,
))
    requires
        !has_acc ==> accv@.len() == 0,
    ensures
        steps_model(final(out)@) == steps_model(old(out)@) + ops_steps(
            flush_ops(acc_m(has_acc, accv@)),
        ),
        r.0 == false,
        r.1@.len() == 0,
{
    if has_acc {
        let ghost gacc = styled_runs_model(accv@);
        push_op(out, PdfOp::Paragraph { runs: accv, centered: false });
        push_op(out, PdfOp::Gap { hundredths: 30 });
        proof {
            assert(steps_model(out@) =~= steps_model(old(out)@) + ops_steps(
                flush_ops(Option::Some(gacc)),
            ));
        }
        (false, Vec::new())
    } else {
        proof {
            assert(steps_model(out@) =~= steps_model(old(out)@) + ops_steps(
                flush_ops(acc_m(false, accv@)),
            ));
        }
        (false, accv)
    }
}

/// Runs the paragraph-accumulation machine over one section's elements.
#[verifier::loop_isolation(false)]
#[verifier::rlimit(100)]
fn emit_elements(out: &mut Vec<RenderStep>, elems: &Vec<TextElement>)
    ensures
        steps_model(final(out)@) == steps_model(old(out)@) + ops_steps(
            machine_ops(runs_model(elems@), Option::None),
        ),
{
    let ghost full = runs_model(elems@);
    let mut has_acc: bool = false;
    let mut accv: Vec<StyledRun> = Vec::new();
    let n = elems.len();
    proof {
        assert(full.skip(0) =~= full);
    }
    for i in 0..n
        invariant
            n == elems.len(),
            !has_acc ==> accv@.len() == 0,
            steps_model(out@) + ops_steps(machine_ops(full.skip(i as int), acc_m(has_acc, accv@)))
                == steps_model(old(out)@) + ops_steps(machine_ops(full, Option::None)),
    {
        let ghost ge = full[i as int];
        let ghost rest = full.skip(i as int);
        let ghost acc0 = acc_m(has_acc, accv@);
        proof {
            assert(ge == elems@[i as int]@);
            assert(rest.first() == ge);
            assert(rest.drop_first() =~= full.skip(i + 1));
        }
        let e = &elems[i];
        match e.block_type {
            BlockType::Paragraph => {
                let ghost old_accv = accv@;
                accv.push(
                    StyledRun {
                        text: e.text.clone(),
                        bold: e.bold,
                        italic: e.italic,
                        size: Option::Some(12u8),
                    },
                );
                has_acc = true;
                proof {
                    assert(styled_runs_model(accv@) =~= styled_runs_model(old_accv).push(
                        body_run(ge),
                    ));
                    assert(styled_runs_model(old_accv) =~= acc_runs(acc0));
                    assert(machine_ops(rest, acc0) == machine_ops(
                        full.skip(i + 1),
                        acc_m(has_acc, accv@),
                    ));
                }
            },
            BlockType::ParagraphBreak => {
                let r = flush_acc(out, has_acc, accv);
                has_acc = r.0;
                accv = r.1;
                proof {
                    assert(machine_ops(rest, acc0) == flush_ops(acc0) + machine_ops(
                        full.skip(i + 1),
                        Option::None,
                    ));
                    assert(ops_steps(flush_ops(acc0) + machine_ops(full.skip(i + 1), Option::None))
                        =~= ops_steps(flush_ops(acc0)) + ops_steps(
                        machine_ops(full.skip(i + 1), Option::None),
                    ));
                    assert(steps_model(out@) + ops_steps(
                        machine_ops(full.skip(i + 1), acc_m(has_acc, accv@)),
                    ) =~= steps_model(old(out)@) + ops_steps(machine_ops(full, Option::None)));
                }
            },
            BlockType::ListItem => {
                let r = flush_acc(out, has_acc, accv);
                has_acc = r.0;
                accv = r.1;
                let bullet = "  - ".to_owned().concat(e.text.as_str());
                proof {
                    assert(bullet@ =~= "  - "@ + ge.text);
                }
                let p = single_run_para(bullet, e.bold, e.italic, Option::Some(12u8), false);
                push_op(out, p);
                push_op(out, PdfOp::Gap { hundredths: 15 });
                proof {
                    let item = seq![
                        para_op(
                            seq![run_of("  - "@ + ge.text, ge.bold, ge.italic, Option::Some(12u8))],
                            false,
                        ),
                        PdfOpModel::Gap { hundredths: 15 },
                    ];
                    assert(machine_ops(rest, acc0) == flush_ops(acc0) + item + machine_ops(
                        full.skip(i + 1),
                        Option::None,
                    ));
                    assert(ops_steps(flush_ops(acc0) + item + machine_ops(full.skip(i + 1), Option::None))
                        =~= ops_steps(flush_ops(acc0)) + ops_steps(item) + ops_steps(
                        machine_ops(full.skip(i + 1), Option::None),
                    ));
                    assert(steps_model(out@) + ops_steps(
                        machine_ops(full.skip(i + 1), acc_m(has_acc, accv@)),
                    ) =~= steps_model(old(out)@) + ops_steps(machine_ops(full, Option::None)));
                }
            },
            BlockType::Heading => {
                let r = flush_acc(out, has_acc, accv);
                has_acc = r.0;
                accv = r.1;
                let p = single_run_para(e.text.clone(), true, false, Option::Some(16u8), false);
                push_op(out, p);
                push_op(out, PdfOp::Gap { hundredths: 30 });
                proof {
                    let item = seq![
                        para_op(seq![run_of(ge.text, true, false, Option::Some(16u8))], false),
                        PdfOpModel::Gap { hundredths: 30 },
                    ];
                    assert(machine_ops(rest, acc0) == flush_ops(acc0) + item + machine_ops(
                        full.skip(i + 1),
                        Option::None,
                    ));
                    assert(ops_steps(flush_ops(acc0) + item + machine_ops(full.skip(i + 1), Option::None))
                        =~= ops_steps(flush_ops(acc0)) + ops_steps(item) + ops_steps(
                        machine_ops(full.skip(i + 1), Option::None),
                    ));
                    assert(steps_model(out@) + ops_steps(
                        machine_ops(full.skip(i + 1), acc_m(has_acc, accv@)),
                    ) =~= steps_model(old(out)@) + ops_steps(machine_ops(full, Option::None)));
                }
            },
        }
    }
    proof {
        assert(full.skip(n as int) =~= Seq::<RunModel>::empty());
    }
    let r = flush_acc(out, has_acc, accv);
    proof {
        assert(steps_model(out@) =~= steps_model(old(out)@) + ops_steps(
            machine_ops(full, Option::None),
        ));
    }
}

/// Lays out one section: its heading, the machine's output, and the
/// closing gap.
fn emit_section(out: &mut Vec<RenderStep>, s: &Section)
    ensures
        steps_model(final(out)@) == steps_model(old(out)@) + ops_steps(section_ops(s@)),
{
    let p = single_run_para(s.title.clone(), true, false, Option::Some(14u8), false);
    push_op(out, p);
    push_op(out, PdfOp::Gap { hundredths: 50 });
    emit_elements(out, &s.elements);
    push_op(out, PdfOp::Gap { hundredths: 50 });
    proof {
        assert(steps_model(out@) =~= steps_model(old(out)@) + ops_steps(section_ops(s@)));
    }
}

/// Lays out one chapter: the forced page break, the centered heading, and
/// the sections with page breaks between them.
#[verifier::loop_isolation(false)]
fn emit_chapter(out: &mut Vec<RenderStep>, c: &Chapter)
    ensures
        steps_model(final(out)@) == steps_model(old(out)@) + ops_steps(chapter_ops(c@)),
{
    push_op(out, PdfOp::PageBreak);
    let p = single_run_para(c.title.clone(), true, false, Option::Some(22u8), true);
    push_op(out, p);
    push_op(out, PdfOp::Gap { hundredths: 150 });
    let ghost head_ops = seq![
        PdfOpModel::PageBreak,
        para_op(seq![run_of(c.title@, true, false, Option::Some(22u8))], true),
        PdfOpModel::Gap { hundredths: 150 },
    ];
    let ghost head = steps_model(out@);
    proof {
        assert(head =~= steps_model(old(out)@) + ops_steps(head_ops));
        assert(sections_ops(c@.sections.take(0)) =~= Seq::<PdfOpModel>::empty());
        assert(steps_model(out@) =~= head + ops_steps(sections_ops(c@.sections.take(0))));
    }
    let ns = c.sections.len();
    for j in 0..ns
        invariant
            ns == c.sections.len(),
            steps_model(out@) == head + ops_steps(sections_ops(c@.sections.take(j as int))),
    {
        proof {
            assert(c@.sections[j as int] == c.sections@[j as int]@);
        }
        if j > 0 {
            push_op(out, PdfOp::PageBreak);
        }
        emit_section(out, &c.sections[j]);
        proof {
            assert(c@.sections.take(j + 1).drop_last() =~= c@.sections.take(j as int));
            assert(c@.sections.take(j + 1).last() == c@.sections[j as int]);
            assert(steps_model(out@) =~= head + ops_steps(sections_ops(c@.sections.take(j + 1))));
        }
    }
    proof {
        assert(c@.sections.take(ns as int) =~= c@.sections);
        assert(steps_model(out@) =~= steps_model(old(out)@) + ops_steps(chapter_ops(c@)));
    }
}

/// Builds the whole render plan for a compiled document. Pure: the shell
/// walks the steps, emitting each notification and drawing each operation
/// in order before serializing.
#[verifier::loop_isolation(false)]
#[verifier::rlimit(100)]
pub fn render_steps(doc: &CompiledDocument) -> (r: Vec<RenderStep>)
    requires
        doc.chapters@.len() + 2 <= usize::MAX,
    ensures
        steps_model(r@) == render_steps_spec(doc@),
{
    let nchap = doc.chapters.len();
    let total = nchap + 2;
    let mut out: Vec<RenderStep> = Vec::new();
    emit_progress_step(&mut out, "Preparing document...".to_owned(), 0, total);
    emit_title_page(&mut out, &doc.title, &doc.author);
    emit_matter(&mut out, &doc.front_matter);
    let ghost head = steps_model(out@);
    proof {
        assert(head =~= seq![progress_step("Preparing document..."@, 0, total as int)] + ops_steps(
            title_page_ops(doc.title@, doc.author@),
        ) + ops_steps(matter_ops(doc@.front_matter)));
        assert(doc@.chapters.take(0) =~= Seq::<ChapterModel>::empty());
    }
    for i in 0..nchap
        invariant
            steps_model(out@) == head + chapters_steps(
                doc@.chapters.take(i as int),
                nchap as int,
                total as int,
            ),
    {
        let num = u64_to_dec(i as u64 + 1);
        let cnt = u64_to_dec(nchap as u64);
        let stage = "Rendering chapter ".to_owned().concat(num.as_str()).concat(" of ").concat(
            cnt.as_str(),
        ).concat("...");
        proof {
            assert(stage@ =~= chapter_stage(i as int, nchap as int));
        }
        emit_progress_step(&mut out, stage, i + 1, total);
        proof {
            assert(doc@.chapters[i as int] == doc.chapters@[i as int]@);
        }
        emit_chapter(&mut out, &doc.chapters[i]);
        proof {
            assert(doc@.chapters.take(i + 1).drop_last() =~= doc@.chapters.take(i as int));
            assert(doc@.chapters.take(i + 1).last() == doc@.chapters[i as int]);
            assert(steps_model(out@) =~= head + chapters_steps(
                doc@.chapters.take(i + 1),
                nchap as int,
                total as int,
            ));
        }
    }
    proof {
        assert(doc@.chapters.take(nchap as int) =~= doc@.chapters);
    }
    emit_matter(&mut out, &doc.back_matter);
    emit_progress_step(&mut out, "Writing PDF file...".to_owned(), total, total);
    proof {
        assert(steps_model(out@) =~= render_steps_spec(doc@));
    }
    out
}

/// The progress notifications of a plan, in order.
pub open spec fn progress_of(steps: Seq<StepModel>) -> Seq<ProgressModel>
    decreases steps.len(),
{
    if steps.len() == 0 {
        Seq::empty()
    } else {
        progress_of(steps.drop_last()) + (match steps.last() {
            StepModel::Emit { progress } => seq![progress],
            StepModel::Op { .. } => Seq::empty(),
        })
    }
}

proof fn lemma_progress_of_concat(a: Seq<StepModel>, b: Seq<StepModel>)
    ensures
        progress_of(a + b) == progress_of(a) + progress_of(b),
    decreases b.len(),
{
    if b.len() == 0 {
        assert(a + b =~= a);
        assert(progress_of(a) + progress_of(b) =~= progress_of(a));
    } else {
        lemma_progress_of_concat(a, b.drop_last());
        assert((a + b).drop_last() =~= a + b.drop_last());
        assert((a + b).last() == b.last());
        assert(progress_of(a + b) =~= progress_of(a) + progress_of(b));
    }
}

proof fn lemma_progress_of_ops(ops: Seq<PdfOpModel>)
    ensures
        progress_of(ops_steps(ops)).len() == 0,
    decreases ops.len(),
{
    if ops.len() == 0 {
        assert(ops_steps(ops) =~= Seq::<StepModel>::empty());
    } else {
        lemma_progress_of_ops(ops.drop_last());
        assert(ops_steps(ops).drop_last() =~= ops_steps(ops.drop_last()));
        assert(ops_steps(ops).last() == (StepModel::Op { op: ops.last() }));
    }
}

proof fn lemma_progress_of_single(p: ProgressModel)
    ensures
        progress_of(seq![StepModel::Emit { progress: p }]) == seq![p],
{
    let s = seq![StepModel::Emit { progress: p }];
    assert(s.drop_last() =~= Seq::<StepModel>::empty());
    assert(s.last() == (StepModel::Emit { progress: p }));
    assert(progress_of(Seq::<StepModel>::empty()) =~= Seq::<ProgressModel>::empty());
    assert(progress_of(s) =~= seq![p]);
}

/// Law: a render over an empty chapter list still announces exactly two
/// progress steps — preparation and the final write — each reporting a
/// total of two, and the plan itself is produced without failure.
pub proof fn lemma_empty_doc_progress(doc: DocModel)
    requires
        doc.chapters.len() == 0,
    ensures
        progress_of(render_steps_spec(doc)).len() == 2,
        progress_of(render_steps_spec(doc))[0] == (ProgressModel {
            stage: "Preparing document..."@,
            current: 0,
            total: 2,
        }),
        progress_of(render_steps_spec(doc))[1] == (ProgressModel {
            stage: "Writing PDF file..."@,
            current: 2,
            total: 2,
        }),
{
    lemma_render_progress(doc);
    assert(progress_plan(0) =~= seq![
        ProgressModel { stage: "Preparing document..."@, current: 0, total: 2 },
        ProgressModel { stage: "Writing PDF file..."@, current: 2, total: 2 },
    ]);
}

/// The progress notifications a render of `n` chapters is expected to
/// make: preparation at zero, one step per chapter, and the final write at
/// the total, which is always the chapter count plus two.
pub open spec fn progress_plan(n: int) -> Seq<ProgressModel> {
    seq![ProgressModel { stage: "Preparing document..."@, current: 0, total: n + 2 }] + Seq::new(
        n as nat,
        |i: int| ProgressModel { stage: chapter_stage(i, n), current: i + 1, total: n + 2 },
    ) + seq![ProgressModel { stage: "Writing PDF file..."@, current: n + 2, total: n + 2 }]
}

proof fn lemma_progress_of_chapters(cs: Seq<ChapterModel>, count: int, total: int)
    ensures
        progress_of(chapters_steps(cs, count, total)) == Seq::new(
            cs.len(),
            |i: int| ProgressModel { stage: chapter_stage(i, count), current: i + 1, total },
        ),
    decreases cs.len(),
{
    if cs.len() == 0 {
        assert(chapters_steps(cs, count, total) =~= Seq::<StepModel>::empty());
        assert(progress_of(chapters_steps(cs, count, total)) =~= Seq::new(
            cs.len(),
            |i: int| ProgressModel { stage: chapter_stage(i, count), current: i + 1, total },
        ));
    } else {
        lemma_progress_of_chapters(cs.drop_last(), count, total);
        let prev = chapters_steps(cs.drop_last(), count, total);
        let mark = seq![
            progress_step(chapter_stage(cs.len() - 1, count), cs.len() as int, total),
        ];
        let body = ops_steps(chapter_ops(cs.last()));
        lemma_progress_of_concat(prev + mark, body);
        lemma_progress_of_concat(prev, mark);
        lemma_progress_of_ops(chapter_ops(cs.last()));
        lemma_progress_of_single(
            ProgressModel {
                stage: chapter_stage(cs.len() - 1, count),
                current: cs.len() as int,
                total,
            },
        );
        assert(progress_of(chapters_steps(cs, count, total)) =~= Seq::new(
            cs.len(),
            |i: int| ProgressModel { stage: chapter_stage(i, count), current: i + 1, total },
        ));
    }
}

/// Law: the progress channel of any render plan is exactly the expected
/// sequence — every notification reports a total of the chapter count
/// plus two, and the currents climb from zero through each chapter to the
/// total.
pub proof fn lemma_render_progress(doc: DocModel)
    ensures
        progress_of(render_steps_spec(doc)) == progress_plan(doc.chapters.len() as int),
{
    let n = doc.chapters.len() as int;
    let total = n + 2;
    let s1 = seq![progress_step("Preparing document..."@, 0, total)];
    let tp = ops_steps(title_page_ops(doc.title, doc.author));
    let fm = ops_steps(matter_ops(doc.front_matter));
    let ch = chapters_steps(doc.chapters, n, total);
    let bm = ops_steps(matter_ops(doc.back_matter));
    let s2 = seq![progress_step("Writing PDF file..."@, total, total)];
    assert(render_steps_spec(doc) == s1 + tp + fm + ch + bm + s2);
    lemma_progress_of_concat(s1 + tp + fm + ch + bm, s2);
    lemma_progress_of_concat(s1 + tp + fm + ch, bm);
    lemma_progress_of_concat(s1 + tp + fm, ch);
    lemma_progress_of_concat(s1 + tp, fm);
    lemma_progress_of_concat(s1, tp);
    lemma_progress_of_ops(title_page_ops(doc.title, doc.author));
    lemma_progress_of_ops(matter_ops(doc.front_matter));
    lemma_progress_of_ops(matter_ops(doc.back_matter));
    lemma_progress_of_chapters(doc.chapters, n, total);
    lemma_progress_of_single(ProgressModel { stage: "Preparing document..."@, current: 0, total });
    lemma_progress_of_single(ProgressModel { stage: "Writing PDF file..."@, current: total, total });
    assert(progress_of(render_steps_spec(doc)) =~= progress_plan(n));
}

/// Whether a character counts as alphanumeric, as `char::is_alphanumeric`
/// decides it.
pub uninterp spec fn alnum_char(c: char) -> bool;

/// Relies on `char::is_alphanumeric`: whether the character is a letter or
/// digit; the result depends on the character alone.
#[verifier::external_body]
fn char_is_alnum(c: char) -> (r: bool)
    ensures
        r == alnum_char(c),
{
    c.is_alphanumeric()
}

/// A character the title sanitizer keeps as it stands.
pub open spec fn keep_char(c: char) -> bool {
    alnum_char(c) || c == ' ' || c == '-' || c == '_'
}

/// The document title with every character outside the kept set replaced
/// by an underscore.
pub open spec fn sanitize_spec(s: Seq<char>) -> Seq<char> {
    s.map_values(|c: char| if keep_char(c) { c } else { '_' })
}

/// The derived output file name: the sanitized, trimmed title, an
/// underscore, the timestamp text, and the `.pdf` suffix.
pub open spec fn filename_spec(title: Seq<char>, ts: Seq<char>) -> Seq<char> {
    trim_of(sanitize_spec(title)) + "_"@ + ts + ".pdf"@
}

/// A character the derived file name may hold: a letter or digit, the kept
/// punctuation, a timestamp digit or separator, or part of the suffix.
pub open spec fn filename_char_ok(c: char) -> bool {
    alnum_char(c) || c == ' ' || c == '-' || c == '_' || c == '.' || c == 'p' || c == 'd'
        || c == 'f' || ('0' <= c && c <= '9')
}

#[verifier::loop_isolation(false)]
fn sanitize_title(title: &str) -> (r: String)
    ensures
        r@ == sanitize_spec(title@),
{
    let mut out = String::new();
    let n = title.unicode_len();
    proof {
        assert(sanitize_spec(title@.take(0)) =~= Seq::<char>::empty());
    }
    for i in 0..n
        invariant
            n == title@.len(),
            out@ == sanitize_spec(title@.take(i as int)),
    {
        let c = title.get_char(i);
        if char_is_alnum(c) || c == ' ' || c == '-' || c == '_' {
            let piece = title.substring_char(i, i + 1);
            out.append(piece);
        } else {
            out.append("_");
        }
        proof {
            reveal_strlit("_");
            assert(out@ =~= sanitize_spec(title@.take(i + 1)));
        }
    }
    proof {
        assert(title@.take(n as int) =~= title@);
    }
    out
}

/// Derives the output file name from the document title and a preformatted
/// timestamp. When the timestamp holds only digits and underscores — as
/// the fixed format produces — every character of the result is a letter
/// or digit, kept punctuation, or part of the fixed suffix.
pub fn derive_filename(title: &str, timestamp: &str) -> (r: String)
    ensures
        r@ == filename_spec(title@, timestamp@),
        (forall|k: int|
            0 <= k < timestamp@.len() ==> ('0' <= #[trigger] timestamp@[k] <= '9'
                || timestamp@[k] == '_')) ==> (forall|k: int|
            0 <= k < r@.len() ==> filename_char_ok(#[trigger] r@[k])),
{
    let s = sanitize_title(title);
    let t = trimmed(s.as_str());
    let r = t.to_owned().concat("_").concat(timestamp).concat(".pdf");
    proof {
        reveal_strlit("_");
        reveal_strlit(".pdf");
        assert(r@ =~= filename_spec(title@, timestamp@));
        if forall|k: int|
            0 <= k < timestamp@.len() ==> ('0' <= #[trigger] timestamp@[k] <= '9'
                || timestamp@[k] == '_') {
            assert forall|k: int| 0 <= k < r@.len() implies filename_char_ok(
                #[trigger] r@[k],
            ) by {
                let a = t@.len() as int;
                let b = a + 1;
                let c2 = b + timestamp@.len() as int;
                if k < a {
                    assert(r@[k] == t@[k]);
                    assert(s@.contains(t@[k]));
                    let j = choose|j: int| 0 <= j < s@.len() && s@[j] == t@[k];
                    assert(s@[j] == if keep_char(title@[j]) {
                        title@[j]
                    } else {
                        '_'
                    });
                } else if k < b {
                    assert(r@[k] == '_');
                } else if k < c2 {
                    assert(r@[k] == timestamp@[k - b]);
                } else {
                    assert(r@[k] == ".pdf"@[k - c2]);
                }
            }
        }
    }
    r
}

} // verus!
