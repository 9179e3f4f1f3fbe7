//! The export payload handed in by the caller, the result and progress
//! records handed back, and their ghost models.
use vstd::prelude::*;

verus! {

/// One entry of the project forest: a folder or a file, linked to its parent
/// by id. A `parent` of `0` means the node is top-level.
#[derive(Debug, Clone)]
pub struct ExportFileNode {
    pub id: i64,
    pub parent: i64,
    pub text: String,
    pub file_type: String,
    pub content: Option<String>,
}

pub ghost struct FileNodeModel {
    pub id: int,
    pub parent: int,
    pub text: Seq<char>,
    pub file_type: Seq<char>,
    pub content: Option<Seq<char>>,
}

impl View for ExportFileNode {
    type V = FileNodeModel;

    open spec fn view(&self) -> FileNodeModel {
        FileNodeModel {
            id: self.id as int,
            parent: self.parent as int,
            text: self.text@,
            file_type: self.file_type@,
            content: match self.content {
                Option::Some(c) => Option::Some(c@),
                Option::None => Option::None,
            },
        }
    }
}

impl DeepView for ExportFileNode {
    type V = FileNodeModel;

    open spec fn deep_view(&self) -> FileNodeModel {
        self.view()
    }
}

/// Caller-supplied presentation options, copied verbatim into the compiled
/// document.
#[derive(Debug, Clone)]
pub struct ExportOptions {
    pub title: String,
    pub author: String,
    pub front_matter: Option<String>,
    pub back_matter: Option<String>,
}

pub ghost struct OptionsModel {
    pub title: Seq<char>,
    pub author: Seq<char>,
    pub front_matter: Option<Seq<char>>,
    pub back_matter: Option<Seq<char>>,
}

impl View for ExportOptions {
    type V = OptionsModel;

    open spec fn view(&self) -> OptionsModel {
        OptionsModel {
            title: self.title@,
            author: self.author@,
            front_matter: match self.front_matter {
                Option::Some(c) => Option::Some(c@),
                Option::None => Option::None,
            },
            back_matter: match self.back_matter {
                Option::Some(c) => Option::Some(c@),
                Option::None => Option::None,
            },
        }
    }
}

/// The whole input of one export request.
#[derive(Debug)]
pub struct ExportPayload {
    pub project_name: String,
    pub nodes: Vec<ExportFileNode>,
    pub options: ExportOptions,
}

pub ghost struct PayloadModel {
    pub project_name: Seq<char>,
    pub nodes: Seq<FileNodeModel>,
    pub options: OptionsModel,
}

impl View for ExportPayload {
    type V = PayloadModel;

    open spec fn view(&self) -> PayloadModel {
        PayloadModel {
            project_name: self.project_name@,
            nodes: self.nodes.deep_view(),
            options: self.options@,
        }
    }
}

/// The outcome of one export request: exactly one of `output_path` and
/// `error` is meaningful, gated by `success`.
#[derive(Debug)]
pub struct ExportResult {
    pub success: bool,
    pub output_path: Option<String>,
    pub error: Option<String>,
}

/// One entry of the read-only listing of previously produced files.
#[derive(Debug, Clone)]
pub struct ExportEntry {
    pub filename: String,
    pub path: String,
    pub modified: String,
}

/// A transient progress notification: `current` out of `total` steps of the
/// named stage have been reached.
#[derive(Debug, Clone)]
pub struct ExportProgress {
    pub stage: String,
    pub current: usize,
    pub total: usize,
}

pub ghost struct ProgressModel {
    pub stage: Seq<char>,
    pub current: int,
    pub total: int,
}

impl View for ExportProgress {
    type V = ProgressModel;

    open spec fn view(&self) -> ProgressModel {
        ProgressModel { stage: self.stage@, current: self.current as int, total: self.total as int }
    }
}

} // verus!
