use vstd::prelude::*;
use crate::model::{JobEntry, JobView};
use crate::loader::job_list_of_text;
use crate::text::{append_escaped, append_int, escape_html, int_text};

verus! {

/// The text of the page before the first job.
pub open spec fn page_head() -> Seq<char> {
    "<!DOCTYPE html>\n<html lang=\"en\">\n<head>\n<meta charset=\"utf-8\">\n<title>Jobs</title>\n<link rel=\"stylesheet\" href=\"/static/style.css\">\n</head>\n<body>\n<h1>Jobs</h1>\n<ul class=\"jobs\">\n"@
}

/// The text of the page between the last job and the year.
pub open spec fn page_mid() -> Seq<char> {
    "</ul>\n<footer>&copy; "@
}

/// The text of the page after the year.
pub open spec fn page_tail() -> Seq<char> {
    "</footer>\n</body>\n</html>\n"@
}

/// The text that opens one job's item, just before its name.
pub open spec fn job_open() -> Seq<char> {
    "<li class=\"job\">\n<h2>"@
}

/// What follows a job's name in its list item: the screenshot as an image,
/// the details, the tools and the link as an anchor, every field escaped.
#[verifier::opaque]
pub open spec fn job_after_name(j: JobView) -> Seq<char> {
    "</h2>\n<img src=\""@ + escape_html(j.screen) + "\" alt=\""@ + escape_html(j.name)
        + "\">\n<p>"@ + escape_html(j.details) + "</p>\n<p class=\"tools\">"@
        + escape_html(j.tools) + "</p>\n<a href=\""@ + escape_html(j.link)
        + "\">Visit</a>\n</li>\n"@
}

/// One job's list item, which starts with its name.
pub open spec fn job_html(j: JobView) -> Seq<char> {
    job_open() + escape_html(j.name) + job_after_name(j)
}

/// The items of all jobs, in order.
pub open spec fn jobs_html(jobs: Seq<JobView>) -> Seq<char>
    decreases jobs.len(),
{
    if jobs.len() == 0 {
        Seq::empty()
    } else {
        jobs_html(jobs.drop_last()) + job_html(jobs.last())
    }
}

/// The whole index page for a job list and a year.
pub open spec fn index_html(jobs: Seq<JobView>, year: int) -> Seq<char> {
    page_head() + jobs_html(jobs) + page_mid() + int_text(year) + page_tail()
}

/// The views of a slice of job entries.
pub open spec fn views_of(jobs: Seq<JobEntry>) -> Seq<JobView> {
    jobs.map_values(|e: JobEntry| e@)
}

fn append_job(out: &mut String, j: &JobEntry)
    ensures
        final(out)@ == old(out)@ + job_html(j@),
{
    out.append("<li class=\"job\">\n<h2>");
    append_escaped(out, j.name.as_str());
    out.append("</h2>\n<img src=\"");
    append_escaped(out, j.screen.as_str());
    out.append("\" alt=\"");
    append_escaped(out, j.name.as_str());
    out.append("\">\n<p>");
    append_escaped(out, j.details.as_str());
    out.append("</p>\n<p class=\"tools\">");
    append_escaped(out, j.tools.as_str());
    out.append("</p>\n<a href=\"");
    append_escaped(out, j.link.as_str());
    out.append("\">Visit</a>\n</li>\n");
    reveal(job_after_name);
    assert(final(out)@ =~= old(out)@ + job_html(j@));
}

/// Renders the index page: every job in order, then the year. The result
/// depends on its arguments alone.
pub fn render_index(jobs: &[JobEntry], year: i32) -> (r: String)
    ensures
        r@ == index_html(views_of(jobs@), year as int),
{
    let mut out = String::from_str("<!DOCTYPE html>\n<html lang=\"en\">\n<head>\n<meta charset=\"utf-8\">\n<title>Jobs</title>\n<link rel=\"stylesheet\" href=\"/static/style.css\">\n</head>\n<body>\n<h1>Jobs</h1>\n<ul class=\"jobs\">\n");
    let ghost vs = views_of(jobs@);
    let mut i: usize = 0;
    assert(vs.take(0) =~= Seq::<JobView>::empty());
    while i < jobs.len()
        invariant
            vs == views_of(jobs@),
            i <= jobs@.len(),
            out@ == page_head() + jobs_html(vs.take(i as int)),
        decreases jobs@.len() - i,
    {
        append_job(&mut out, &jobs[i]);
        proof {
            assert(vs.take(i + 1).drop_last() =~= vs.take(i as int));
            assert(vs.take(i + 1).last() == jobs@[i as int]@);
            assert(out@ =~= page_head() + jobs_html(vs.take(i + 1)));
        }
        i = i + 1;
    }
    assert(vs.take(jobs@.len() as int) =~= vs);
    out.append("</ul>\n<footer>&copy; ");
    append_int(&mut out, year);
    out.append("</footer>\n</body>\n</html>\n");
    assert(out@ =~= index_html(vs, year as int));
    out
}

/// `needle` stands in `hay` from position `p` on.
pub open spec fn occurs_at(hay: Seq<char>, needle: Seq<char>, p: int) -> bool {
    0 <= p && p + needle.len() <= hay.len() && hay.subrange(p, p + needle.len()) == needle
}

proof fn lemma_take_step(jobs: Seq<JobView>, k: int)
    requires
        0 <= k < jobs.len(),
    ensures
        jobs_html(jobs.take(k + 1)) == jobs_html(jobs.take(k)) + job_html(jobs[k]),
{
    assert(jobs.take(k + 1).drop_last() =~= jobs.take(k));
}

proof fn lemma_take_prefix(jobs: Seq<JobView>, k: int, m: int)
    requires
        0 <= k <= m <= jobs.len(),
    ensures
        jobs_html(jobs.take(k)).len() <= jobs_html(jobs.take(m)).len(),
        jobs_html(jobs.take(m)).subrange(0, jobs_html(jobs.take(k)).len() as int)
            == jobs_html(jobs.take(k)),
    decreases m - k,
{
    if k == m {
        assert(jobs_html(jobs.take(m)).subrange(0, jobs_html(jobs.take(k)).len() as int)
            =~= jobs_html(jobs.take(k)));
    } else {
        lemma_take_prefix(jobs, k, m - 1);
        lemma_take_step(jobs, m - 1);
        let a = jobs_html(jobs.take(k));
        let b = jobs_html(jobs.take(m - 1));
        let c = jobs_html(jobs.take(m));
        assert(c.subrange(0, a.len() as int) =~= b.subrange(0, a.len() as int));
    }
}

/// The position in the index page where the name of job `i` is written.
pub open spec fn name_position(jobs: Seq<JobView>, i: int) -> int {
    (page_head().len() + jobs_html(jobs.take(i)).len() + job_open().len()) as int
}

proof fn lemma_name_at(jobs: Seq<JobView>, year: int, i: int)
    requires
        0 <= i < jobs.len(),
    ensures
        occurs_at(index_html(jobs, year), escape_html(jobs[i].name), name_position(jobs, i)),
        name_position(jobs, i) + job_html(jobs[i]).len() - job_open().len()
            <= page_head().len() + jobs_html(jobs.take(i + 1)).len(),
{
    lemma_take_step(jobs, i);
    lemma_take_prefix(jobs, i + 1, jobs.len() as int);
    assert(jobs.take(jobs.len() as int) =~= jobs);
    let page = index_html(jobs, year);
    let all = jobs_html(jobs);
    let pre = jobs_html(jobs.take(i));
    let item = job_html(jobs[i]);
    let upto = jobs_html(jobs.take(i + 1));
    let name = escape_html(jobs[i].name);
    let p = name_position(jobs, i);
    assert(all.subrange(0, upto.len() as int) == upto);
    assert(upto.subrange(pre.len() as int, (pre.len() + item.len()) as int) =~= item);
    assert(item.subrange(job_open().len() as int, (job_open().len() + name.len()) as int) =~= name);
    assert(page.subrange(page_head().len() as int, (page_head().len() + all.len()) as int) =~= all);
    assert(page.subrange(p, p + name.len()) =~= name);
}

/// The index page shows every job's (escaped) name, in the order of the list,
/// and the year.
pub proof fn lemma_page_lists_names_in_order(jobs: Seq<JobView>, year: int)
    ensures
        forall|i: int| 0 <= i < jobs.len()
            ==> occurs_at(index_html(jobs, year), escape_html(jobs[i].name), #[trigger] name_position(jobs, i)),
        forall|i: int, j: int| 0 <= i < j < jobs.len()
            ==> #[trigger] name_position(jobs, i) < #[trigger] name_position(jobs, j),
        occurs_at(index_html(jobs, year), int_text(year),
            (page_head().len() + jobs_html(jobs).len() + page_mid().len()) as int),
{
    assert forall|i: int| 0 <= i < jobs.len()
        implies occurs_at(index_html(jobs, year), escape_html(jobs[i].name), #[trigger] name_position(jobs, i)) by {
        lemma_name_at(jobs, year, i);
    }
    assert forall|i: int, j: int| 0 <= i < j < jobs.len()
        implies #[trigger] name_position(jobs, i) < #[trigger] name_position(jobs, j) by {
        lemma_name_at(jobs, year, i);
        lemma_take_prefix(jobs, i + 1, j);
        reveal_strlit("<li class=\"job\">\n<h2>");
        assert(job_open().len() > 0);
    }
    let page = index_html(jobs, year);
    let p = (page_head().len() + jobs_html(jobs).len() + page_mid().len()) as int;
    assert(page.subrange(p, p + int_text(year).len()) =~= int_text(year));
}

/// Rendering is a function of the job list and the year: two renderings of
/// the same arguments are the same text.
pub proof fn lemma_render_deterministic(jobs: Seq<JobView>, year: int, a: Seq<char>, b: Seq<char>)
    requires
        a == index_html(jobs, year),
        b == index_html(jobs, year),
    ensures
        a == b,
{
}

/// A job list loaded from a text and then rendered shows every job's
/// (escaped) name, in the order of the document, and the year.
pub proof fn lemma_loaded_page_lists_names(text: Seq<char>, year: int)
    requires
        job_list_of_text(text) is Some,
    ensures
        ({
            let jobs = job_list_of_text(text)->Some_0;
            &&& forall|i: int| 0 <= i < jobs.len()
                ==> occurs_at(index_html(jobs, year), escape_html(jobs[i].name), #[trigger] name_position(jobs, i))
            &&& forall|i: int, j: int| 0 <= i < j < jobs.len()
                ==> #[trigger] name_position(jobs, i) < #[trigger] name_position(jobs, j)
            &&& occurs_at(index_html(jobs, year), int_text(year),
                (page_head().len() + jobs_html(jobs).len() + page_mid().len()) as int)
        }),
{
    lemma_page_lists_names_in_order(job_list_of_text(text)->Some_0, year);
}

/// A text whose `entries` is an empty array loads as the empty job list,
/// whose page is the page with no job items.
pub proof fn lemma_empty_list_page(text: Seq<char>, year: int)
    requires
        job_list_of_text(text) == Some(Seq::<JobView>::empty()),
    ensures
        index_html(job_list_of_text(text)->Some_0, year)
            == page_head() + page_mid() + int_text(year) + page_tail(),
{
    assert(jobs_html(Seq::<JobView>::empty()) =~= Seq::<char>::empty());
    assert(page_head() + Seq::<char>::empty() =~= page_head());
}

} // verus!
