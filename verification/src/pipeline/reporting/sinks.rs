//! Where rendered reports go: the console, or a file.
use vstd::prelude::*;

use crate::models::{opt_view, ReportFile, ReportTemplate, RunOptions};
use crate::strings::{concat, concat3, copy_str, starts_with, str_starts_with};
use crate::templating::{plain_text, put, tv_pairs, Globals, LiquidEngine, TemplateValue};

verus! {

/// Where a piece of output is written.
pub enum SinkTarget {
    Console,
    File(String),
}

pub enum SinkTargetView {
    Console,
    File(Seq<char>),
}

impl View for SinkTarget {
    type V = SinkTargetView;

    open spec fn view(&self) -> SinkTargetView {
        match self {
            SinkTarget::Console => SinkTargetView::Console,
            SinkTarget::File(p) => SinkTargetView::File(p@),
        }
    }
}

impl SinkTarget {
    pub fn duplicate(&self) -> (r: SinkTarget)
        ensures
            r@ == self@,
    {
        match self {
            SinkTarget::Console => SinkTarget::Console,
            SinkTarget::File(p) => SinkTarget::File(p.clone()),
        }
    }
}

/// Text to write to a target, followed by a line break or not.
pub struct Output {
    pub target: SinkTarget,
    pub text: String,
    pub newline: bool,
}

/// A place output goes to.
pub trait OutputSink {
    spec fn target_view(&self) -> SinkTargetView;

    /// `msg` and a line break.
    fn println(&self, msg: &str) -> (r: Output)
        ensures
            r.target@ == self.target_view(),
            r.text@ == msg@,
            r.newline,
    ;

    /// `msg` as it is.
    fn print(&self, msg: &str) -> (r: Output)
        ensures
            r.target@ == self.target_view(),
            r.text@ == msg@,
            !r.newline,
    ;
}

/// Standard output.
pub struct ConsoleSink;

impl OutputSink for ConsoleSink {
    open spec fn target_view(&self) -> SinkTargetView {
        SinkTargetView::Console
    }

    fn println(&self, msg: &str) -> (r: Output) {
        Output { target: SinkTarget::Console, text: copy_str(msg), newline: true }
    }

    fn print(&self, msg: &str) -> (r: Output) {
        Output { target: SinkTarget::Console, text: copy_str(msg), newline: false }
    }
}

/// A report file, appended to.
pub struct FileSink {
    pub path: String,
}

/// `dir` joined with `name` as `PathBuf::join` does on Unix: an absolute name replaces the
/// directory, an empty directory gives the name, else one `/` between them.
pub open spec fn join_path(dir: Seq<char>, name: Seq<char>) -> Seq<char> {
    if starts_with(name, "/"@) || dir.len() == 0 {
        name
    } else if dir.last() == '/' {
        dir + name
    } else {
        dir + "/"@ + name
    }
}

/// The path of a report file: its directory (`.` when unset) joined with its name.
pub open spec fn report_path(dir: Option<Seq<char>>, name: Seq<char>) -> Seq<char> {
    join_path(
        match dir {
            Some(d) => d,
            None => "."@,
        },
        name,
    )
}

/// The name a report file is configured with: its `file_name`, or `report.txt`.
pub open spec fn configured_name(f: ReportFile) -> Seq<char> {
    match f.file_name {
        Some(n) => n@,
        None => "report.txt"@,
    }
}

/// `path` is where a report file goes: its directory joined with its configured name
/// as rendered, which is the configured name itself when that is plain text.
pub open spec fn report_target(f: ReportFile, path: Seq<char>) -> bool {
    exists|name: Seq<char>|
        path == report_path(opt_view(f.dir), name) && (plain_text(configured_name(f)) ==> name
            == configured_name(f))
}

/// The default name has no Liquid markup.
pub proof fn lemma_default_name_plain()
    ensures
        plain_text("report.txt"@),
{
    reveal_strlit("report.txt");
}

/// The path of a report file named `name` in `dir` (`.` when unset).
pub fn report_file_path(dir: &Option<String>, name: &str) -> (r: String)
    ensures
        r@ == report_path(opt_view(*dir), name@),
{
    let d = match dir {
        Some(d) => copy_str(d.as_str()),
        None => copy_str("."),
    };
    proof {
        reveal_strlit("/");
    }
    if str_starts_with(name, "/") {
        return copy_str(name);
    }
    let dv = crate::strings::chars_of(d.as_str());
    if dv.len() == 0 {
        copy_str(name)
    } else if dv[dv.len() - 1] == '/' {
        concat(d.as_str(), name)
    } else {
        concat3(d.as_str(), "/", name)
    }
}

/// The values a report file name is rendered with: the run's start as a Unix timestamp.
pub open spec fn file_name_globals(options: RunOptions) -> Seq<
    (Seq<char>, crate::templating::TemplateValueView),
> {
    seq![
        ("start_timestamp"@, crate::templating::TemplateValueView::Int(
            match options.start_time {
                Some(t) => t,
                None => 0,
            },
        )),
    ]
}

pub fn file_name_globals_of(options: &RunOptions) -> (r: Globals)
    ensures
        tv_pairs(r@) == file_name_globals(*options),
{
    let mut g: Globals = Vec::new();
    assert(tv_pairs(g@) =~= Seq::<(Seq<char>, crate::templating::TemplateValueView)>::empty());
    let t = match options.start_time {
        Some(t) => t,
        None => 0,
    };
    put(&mut g, "start_timestamp", TemplateValue::Int(t));
    assert(tv_pairs(g@) =~= file_name_globals(*options));
    g
}

impl FileSink {
    /// The sink of a report file: its name (`report.txt` when unset) is rendered with the
    /// run's start timestamp (kept as written where rendering fails) and joined to its
    /// directory (`.` when unset).
    pub fn new(file_cfg: &ReportFile, options: &RunOptions, engine: &LiquidEngine) -> (r: FileSink)
        ensures
            report_target(*file_cfg, r.path@),
            file_cfg.file_name is None ==> r.path@ == report_path(opt_view(file_cfg.dir), "report.txt"@),
    {
        let name = match &file_cfg.file_name {
            Some(n) => copy_str(n.as_str()),
            None => copy_str("report.txt"),
        };
        proof {
            lemma_default_name_plain();
        }
        let globals = file_name_globals_of(options);
        let rendered = engine.render_string_or_self(name.as_str(), &globals);
        let path = report_file_path(&file_cfg.dir, rendered.as_str());
        proof {
            assert(name@ == configured_name(*file_cfg));
            assert(path@ == report_path(opt_view(file_cfg.dir), rendered@));
        }
        FileSink { path }
    }
}

impl OutputSink for FileSink {
    open spec fn target_view(&self) -> SinkTargetView {
        SinkTargetView::File(self.path@)
    }

    fn println(&self, msg: &str) -> (r: Output) {
        Output { target: SinkTarget::File(self.path.clone()), text: copy_str(msg), newline: true }
    }

    fn print(&self, msg: &str) -> (r: Output) {
        Output { target: SinkTarget::File(self.path.clone()), text: copy_str(msg), newline: false }
    }
}

/// The sinks a report may write to.
pub enum AnyOutputSink {
    ConsoleSink(ConsoleSink),
    FileSink(FileSink),
}

impl OutputSink for AnyOutputSink {
    open spec fn target_view(&self) -> SinkTargetView {
        match self {
            AnyOutputSink::ConsoleSink(c) => c.target_view(),
            AnyOutputSink::FileSink(f) => f.target_view(),
        }
    }

    fn println(&self, msg: &str) -> (r: Output) {
        match self {
            AnyOutputSink::ConsoleSink(c) => c.println(msg),
            AnyOutputSink::FileSink(f) => f.println(msg),
        }
    }

    fn print(&self, msg: &str) -> (r: Output) {
        match self {
            AnyOutputSink::ConsoleSink(c) => c.print(msg),
            AnyOutputSink::FileSink(f) => f.print(msg),
        }
    }
}

/// A report writes to its file when it has one, else to the console.
pub fn output_sink_for(template: &ReportTemplate, options: &RunOptions, engine: &LiquidEngine) -> (r:
    AnyOutputSink)
    ensures
        template.file is Some <==> r is FileSink,
        template.file is Some ==> (r.target_view() matches SinkTargetView::File(p) && report_target(
            template.file->0,
            p,
        )),
{
    match &template.file {
        Some(file_cfg) => AnyOutputSink::FileSink(FileSink::new(file_cfg, options, engine)),
        None => AnyOutputSink::ConsoleSink(ConsoleSink),
    }
}

} // verus!
