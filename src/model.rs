use vstd::prelude::*;

verus! {

/// One job posting, as listed on the page.
#[derive(Debug, Clone)]
pub struct JobEntry {
    pub key: u32,
    pub name: String,
    pub details: String,
    pub tools: String,
    pub screen: String,
    pub link: String,
}

/// The mathematical value of a job posting.
pub struct JobView {
    pub key: u32,
    pub name: Seq<char>,
    pub details: Seq<char>,
    pub tools: Seq<char>,
    pub screen: Seq<char>,
    pub link: Seq<char>,
}

impl View for JobEntry {
    type V = JobView;

    open spec fn view(&self) -> JobView {
        JobView {
            key: self.key,
            name: self.name@,
            details: self.details@,
            tools: self.tools@,
            screen: self.screen@,
            link: self.link@,
        }
    }
}

/// The whole job list, in the order of the source document.
#[derive(Debug)]
pub struct JobData {
    pub entries: Vec<JobEntry>,
}

impl View for JobData {
    type V = Seq<JobView>;

    open spec fn view(&self) -> Seq<JobView> {
        self.entries@.map_values(|e: JobEntry| e@)
    }
}

/// The state shared read-only by every request: the job list loaded at startup.
pub struct AppState {
    pub jobs: Vec<JobEntry>,
}

} // verus!
