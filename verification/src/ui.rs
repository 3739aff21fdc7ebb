//! Plain state types of the interactive dashboard: views, job and pack
//! summaries, and the submit form. The event loop and the rendering live
//! outside this library.

use vstd::prelude::*;

verus! {

/// The navigable views of the dashboard.
#[derive(Debug, Clone, Copy, PartialEq, Eq, Structural)]
pub enum UiView {
    Jobs,
    JobDetail,
    Packs,
    Submit,
    Context,
    Agents,
}

/// The title of a view.
pub open spec fn spec_view_title(v: UiView) -> Seq<char> {
    match v {
        UiView::Jobs => "Jobs"@,
        UiView::JobDetail => "Job Details"@,
        UiView::Packs => "Packs"@,
        UiView::Submit => "Submit"@,
        UiView::Context => "Context"@,
        UiView::Agents => "Agents"@,
    }
}

impl UiView {
    /// The tab-navigable views, in tab order (the detail view is reached
    /// from the jobs list, not by tab).
    pub fn all() -> (views: Vec<UiView>)
        ensures
            views@ =~= seq![
                UiView::Jobs,
                UiView::Packs,
                UiView::Submit,
                UiView::Context,
                UiView::Agents,
            ],
    {
        let mut views: Vec<UiView> = Vec::new();
        views.push(UiView::Jobs);
        views.push(UiView::Packs);
        views.push(UiView::Submit);
        views.push(UiView::Context);
        views.push(UiView::Agents);
        views
    }

    /// The view's title.
    pub fn title(&self) -> (r: &'static str)
        ensures
            r@ == spec_view_title(*self),
    {
        match self {
            UiView::Jobs => "Jobs",
            UiView::JobDetail => "Job Details",
            UiView::Packs => "Packs",
            UiView::Submit => "Submit",
            UiView::Context => "Context",
            UiView::Agents => "Agents",
        }
    }
}

/// One segment of the hierarchical breadcrumb.
#[derive(Debug, Clone)]
pub struct BreadcrumbSegment {
    pub label: String,
    pub target: UiView,
    pub data_id: Option<String>,
}

/// The lifecycle state of a job.
#[derive(Debug, Clone, Copy, PartialEq, Eq, Structural)]
pub enum JobStatus {
    Pending,
    Running,
    Converged,
    Failed,
    Paused,
}

/// The printed form of a job status.
pub open spec fn spec_job_status_str(s: JobStatus) -> Seq<char> {
    match s {
        JobStatus::Pending => "Pending"@,
        JobStatus::Running => "Running"@,
        JobStatus::Converged => "Converged"@,
        JobStatus::Failed => "Failed"@,
        JobStatus::Paused => "Paused"@,
    }
}

impl JobStatus {
    /// The status as text.
    pub fn as_str(&self) -> (r: &'static str)
        ensures
            r@ == spec_job_status_str(*self),
    {
        match self {
            JobStatus::Pending => "Pending",
            JobStatus::Running => "Running",
            JobStatus::Converged => "Converged",
            JobStatus::Failed => "Failed",
            JobStatus::Paused => "Paused",
        }
    }
}

/// Summary of one job.
#[derive(Debug, Clone)]
pub struct JobInfo {
    pub id: String,
    pub pack: String,
    pub status: JobStatus,
    pub cycles: u32,
    pub facts: usize,
    pub created_at: String,
}

/// Summary of one pack as the dashboard shows it.
#[derive(Debug, Clone)]
pub struct PackInfo {
    pub name: String,
    pub version: String,
    pub description: String,
    pub agents: Vec<String>,
    pub invariants: Vec<String>,
}

/// Summary of one agent.
#[derive(Debug, Clone)]
pub struct AgentInfo {
    pub name: String,
    pub status: String,
    pub last_run: Option<String>,
    pub facts_produced: usize,
}

/// The job submission form.
#[derive(Debug, Clone)]
pub struct SubmitForm {
    pub pack: String,
    pub seeds: String,
    pub max_cycles: String,
    pub selected_field: usize,
    pub error: Option<String>,
    pub success: Option<String>,
}

impl SubmitForm {
    /// An empty form with the default cycle budget.
    pub fn new() -> (form: SubmitForm)
        ensures
            form.pack@ == Seq::<char>::empty(),
            form.seeds@ == Seq::<char>::empty(),
            form.max_cycles@ == "50"@,
            form.selected_field == 0,
            form.error is None,
            form.success is None,
    {
        SubmitForm {
            pack: String::new(),
            seeds: String::new(),
            max_cycles: "50".to_owned(),
            selected_field: 0,
            error: None,
            success: None,
        }
    }
}

impl Default for SubmitForm {
    fn default() -> (form: Self)
        ensures
            form.pack@ == Seq::<char>::empty(),
            form.seeds@ == Seq::<char>::empty(),
            form.max_cycles@ == "50"@,
            form.selected_field == 0,
            form.error is None,
            form.success is None,
    {
        SubmitForm::new()
    }
}

} // verus!
