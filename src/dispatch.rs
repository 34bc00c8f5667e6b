use vstd::prelude::*;
use crate::model::AppState;
use crate::render::{index_html, render_index, views_of};

verus! {

/// Which of the site's routes a request takes.
#[derive(Debug, Clone, Copy, PartialEq, Eq, Structural)]
pub enum Route {
    /// `GET /`: the index page.
    Index,
    /// `GET /health`, where the health check is switched on.
    Health,
    /// A path under `/static/`: handed to the static-file service.
    Static,
    /// A known path with a method other than `GET` or `HEAD`.
    MethodNotAllowed,
    /// Any other path.
    NotFound,
}

/// The optional parts of the router.
#[derive(Debug, Clone, Copy, PartialEq, Eq, Structural)]
pub struct RouterConfig {
    /// Whether `GET /health` answers.
    pub health_check: bool,
}

/// A response that the library writes in full.
pub struct Response {
    pub status: u16,
    pub content_type: String,
    pub headers: Vec<(String, String)>,
    pub body: String,
}

/// What to do with a request.
pub enum Outcome {
    /// Send this response.
    Respond(Response),
    /// Let the static-file service answer for this path under the static root.
    ServeStatic(String),
}

pub open spec fn is_get(method: Seq<char>) -> bool {
    method == "GET"@ || method == "HEAD"@
}

pub open spec fn static_prefix() -> Seq<char> {
    "/static/"@
}

/// The route of a request, by its method and path.
pub open spec fn route_of(health_check: bool, method: Seq<char>, path: Seq<char>) -> Route {
    if path == "/"@ || (health_check && path == "/health"@) {
        if !is_get(method) {
            Route::MethodNotAllowed
        } else if path == "/"@ {
            Route::Index
        } else {
            Route::Health
        }
    } else if static_prefix().len() <= path.len() && path.take(static_prefix().len() as int)
        == static_prefix() {
        Route::Static
    } else {
        Route::NotFound
    }
}

/// The fixed headers that every response carries.
pub open spec fn hardening_headers_view() -> Seq<(Seq<char>, Seq<char>)> {
    seq![
        ("X-Content-Type-Options"@, "nosniff"@),
        ("X-Frame-Options"@, "DENY"@),
        ("X-XSS-Protection"@, "1; mode=block"@),
        ("Referrer-Policy"@, "strict-origin-when-cross-origin"@),
    ]
}

pub open spec fn headers_view(h: Seq<(String, String)>) -> Seq<(Seq<char>, Seq<char>)> {
    h.map_values(|p: (String, String)| (p.0@, p.1@))
}

/// The body of the health check.
pub open spec fn health_body() -> Seq<char> {
    "{\"status\":\"healthy\"}"@
}

/// A response with the given status, content type and body, and the
/// hardening headers.
pub open spec fn is_response(r: Response, status: u16, content_type: Seq<char>, body: Seq<char>) -> bool {
    r.status == status && r.content_type@ == content_type && r.body@ == body
        && headers_view(r.headers@) == hardening_headers_view()
}

/// What the site answers to a request for `path` with `method`, for a job
/// list and a year.
pub open spec fn answers(
    jobs: Seq<crate::model::JobView>,
    config: RouterConfig,
    method: Seq<char>,
    path: Seq<char>,
    year: int,
    r: Outcome,
) -> bool {
    match route_of(config.health_check, method, path) {
        Route::Index => r matches Outcome::Respond(resp) && is_response(
            resp,
            200,
            "text/html; charset=utf-8"@,
            index_html(jobs, year),
        ),
        Route::Health => r matches Outcome::Respond(resp) && is_response(
            resp,
            200,
            "application/json"@,
            health_body(),
        ),
        Route::Static => r matches Outcome::ServeStatic(rest) && rest@ == path.skip(
            static_prefix().len() as int,
        ),
        Route::MethodNotAllowed => r matches Outcome::Respond(resp) && is_response(
            resp,
            405,
            "text/plain; charset=utf-8"@,
            Seq::empty(),
        ),
        Route::NotFound => r matches Outcome::Respond(resp) && is_response(
            resp,
            404,
            "text/plain; charset=utf-8"@,
            Seq::empty(),
        ),
    }
}

fn same_text(a: &str, b: &str) -> (r: bool)
    ensures
        r == (a@ == b@),
{
    String::from_str(a) == String::from_str(b)
}

/// The route of a request, by its method and path.
pub fn route(config: RouterConfig, method: &str, path: &str) -> (r: Route)
    ensures
        r == route_of(config.health_check, method@, path@),
{
    let get = same_text(method, "GET") || same_text(method, "HEAD");
    let is_root = same_text(path, "/");
    if is_root || (config.health_check && same_text(path, "/health")) {
        if !get {
            Route::MethodNotAllowed
        } else if is_root {
            Route::Index
        } else {
            Route::Health
        }
    } else {
        let n = path.unicode_len();
        let p = "/static/";
        let k = p.unicode_len();
        if k <= n && same_text(path.substring_char(0, k), p) {
            Route::Static
        } else {
            Route::NotFound
        }
    }
}

/// The hardening headers, as name and value.
pub fn hardening_headers() -> (r: Vec<(String, String)>)
    ensures
        headers_view(r@) == hardening_headers_view(),
{
    let mut r: Vec<(String, String)> = Vec::new();
    r.push((String::from_str("X-Content-Type-Options"), String::from_str("nosniff")));
    r.push((String::from_str("X-Frame-Options"), String::from_str("DENY")));
    r.push((String::from_str("X-XSS-Protection"), String::from_str("1; mode=block")));
    r.push((
        String::from_str("Referrer-Policy"),
        String::from_str("strict-origin-when-cross-origin"),
    ));
    assert(headers_view(r@) =~= hardening_headers_view());
    r
}

fn respond(status: u16, content_type: &str, body: String) -> (r: Outcome)
    ensures
        r matches Outcome::Respond(resp) && is_response(resp, status, content_type@, body@),
{
    Outcome::Respond(
        Response {
            status,
            content_type: String::from_str(content_type),
            headers: hardening_headers(),
            body,
        },
    )
}

/// Answers a request for `path` with `method`, with the page rendered for
/// `year`.
pub fn dispatch(state: &AppState, config: RouterConfig, method: &str, path: &str, year: i32) -> (r: Outcome)
    ensures
        answers(views_of(state.jobs@), config, method@, path@, year as int, r),
{
    match route(config, method, path) {
        Route::Index => {
            let html = render_index(state.jobs.as_slice(), year);
            respond(200, "text/html; charset=utf-8", html)
        },
        Route::Health => respond(200, "application/json", String::from_str("{\"status\":\"healthy\"}")),
        Route::Static => {
            let k = "/static/".unicode_len();
            let n = path.unicode_len();
            let rest = path.substring_char(k, n);
            assert(rest@ =~= path@.skip(static_prefix().len() as int));
            Outcome::ServeStatic(String::from_str(rest))
        },
        Route::MethodNotAllowed => {
            proof { reveal_strlit(""); }
            let r = respond(405, "text/plain; charset=utf-8", String::new());
            r
        },
        Route::NotFound => respond(404, "text/plain; charset=utf-8", String::new()),
    }
}

/// The body of the answer to `GET /` when the page cannot be made.
pub open spec fn server_error_body() -> Seq<char> {
    "Internal Server Error"@
}

/// What the site answers to a request when the page's year is `year`, or
/// when no year could be had (`None`). Only the index page needs a year:
/// without one it is answered 500, and every other route as `answers` says
/// for any year (which none of them reads).
pub open spec fn answers_for(
    jobs: Seq<crate::model::JobView>,
    config: RouterConfig,
    method: Seq<char>,
    path: Seq<char>,
    year: Option<i32>,
    r: Outcome,
) -> bool {
    match year {
        Some(y) => answers(jobs, config, method, path, y as int, r),
        None => if route_of(config.health_check, method, path) == Route::Index {
            r matches Outcome::Respond(resp) && is_response(
                resp,
                500,
                "text/plain; charset=utf-8"@,
                server_error_body(),
            )
        } else {
            forall|y: int| #[trigger] answers(jobs, config, method, path, y, r)
        },
    }
}

/// Answers a request for `path` with `method`, with the page rendered for
/// `year` where there is one.
pub fn dispatch_at(
    state: &AppState,
    config: RouterConfig,
    method: &str,
    path: &str,
    year: Option<i32>,
) -> (r: Outcome)
    ensures
        answers_for(views_of(state.jobs@), config, method@, path@, year, r),
{
    match year {
        Some(y) => dispatch(state, config, method, path, y),
        None => {
            if route(config, method, path) == Route::Index {
                respond(500, "text/plain; charset=utf-8", String::from_str("Internal Server Error"))
            } else {
                let r = dispatch(state, config, method, path, 0);
                assert forall|y: int|
                    #[trigger] answers(views_of(state.jobs@), config, method@, path@, y, r) by {
                    assert(answers(views_of(state.jobs@), config, method@, path@, 0, r));
                }
                r
            }
        },
    }
}

/// The calendar year (UTC) of a time given in seconds since the Unix epoch,
/// or `None` where the time is out of chrono's range.
pub uninterp spec fn utc_year(secs: int) -> Option<i32>;

/// Relies on chrono::DateTime::from_timestamp, which returns `None` for a
/// time out of its range, and chrono::Datelike::year on the UTC date: the
/// result depends on the seconds alone.
#[verifier::external_body]
fn year_of_unix_seconds(secs: i64) -> (r: Option<i32>)
    ensures
        r == utc_year(secs as int),
{
    match chrono::DateTime::from_timestamp(secs, 0) {
        Some(t) => Some(chrono::Datelike::year(&t)),
        None => None,
    }
}

/// The page's year for a reading of the clock in seconds since the Unix
/// epoch; none for a clock that reads earlier than the epoch (`None`).
pub open spec fn year_for_reading(secs: Option<u64>) -> Option<i32> {
    match secs {
        Some(s) => if s <= i64::MAX {
            utc_year(s as int)
        } else {
            None
        },
        None => None,
    }
}

/// The page's year for a reading of the clock.
pub fn year_at(secs: Option<u64>) -> (r: Option<i32>)
    ensures
        r == year_for_reading(secs),
{
    match secs {
        Some(s) => if s <= i64::MAX as u64 {
            year_of_unix_seconds(s as i64)
        } else {
            None
        },
        None => None,
    }
}

/// Relies on std::time::SystemTime::duration_since, applied to
/// SystemTime::now() and UNIX_EPOCH: the whole seconds since the epoch, and
/// `None` while the clock reads earlier than the epoch. Any reading may come.
#[verifier::external_body]
fn unix_seconds_now() -> (r: Option<u64>) {
    match std::time::SystemTime::now().duration_since(std::time::UNIX_EPOCH) {
        Ok(d) => Some(d.as_secs()),
        Err(_) => None,
    }
}

/// Answers a request with the page rendered for the year of the clock's
/// reading now: the answer is that of `dispatch_at` for the year of some
/// reading.
pub fn dispatch_now(state: &AppState, config: RouterConfig, method: &str, path: &str) -> (r: Outcome)
    ensures
        exists|secs: Option<u64>|
            answers_for(views_of(state.jobs@), config, method@, path@, year_for_reading(secs), r),
{
    let secs = unix_seconds_now();
    let year = year_at(secs);
    dispatch_at(state, config, method, path, year)
}

/// The health check, where it is switched on, answers 200 with its fixed
/// body whatever the job list and the year, and whether a year could be had.
pub proof fn lemma_health_is_fixed(
    jobs: Seq<crate::model::JobView>,
    config: RouterConfig,
    method: Seq<char>,
    year: Option<i32>,
    r: Outcome,
)
    requires
        config.health_check,
        is_get(method),
        answers_for(jobs, config, method, "/health"@, year, r),
    ensures
        r matches Outcome::Respond(resp) && resp.status == 200 && resp.body@ == health_body(),
{
    reveal_strlit("/health");
    reveal_strlit("/");
    assert("/health"@.len() != "/"@.len());
    if year is None {
        assert(answers(jobs, config, method, "/health"@, 0, r));
    }
}

/// A request for `/nonexistent` is answered 404, whatever the router's
/// configuration, the method, the job list and the year.
pub proof fn lemma_unknown_path_not_found(
    jobs: Seq<crate::model::JobView>,
    config: RouterConfig,
    method: Seq<char>,
    year: Option<i32>,
    r: Outcome,
)
    requires
        answers_for(jobs, config, method, "/nonexistent"@, year, r),
    ensures
        r matches Outcome::Respond(resp) && resp.status == 404,
{
    reveal_strlit("/nonexistent");
    reveal_strlit("/health");
    reveal_strlit("/");
    reveal_strlit("/static/");
    assert("/nonexistent"@.len() != "/"@.len());
    assert("/nonexistent"@.len() != "/health"@.len());
    assert("/nonexistent"@.take(8) != static_prefix()) by {
        assert("/nonexistent"@[1] != static_prefix()[1]);
        assert("/nonexistent"@.take(8)[1] == "/nonexistent"@[1]);
    }
    if year is None {
        assert(answers(jobs, config, method, "/nonexistent"@, 0, r));
    }
}

/// Every answer to `GET /` carries the four hardening headers with their
/// fixed values: the page, and the error where no year could be had.
pub proof fn lemma_index_is_hardened(
    jobs: Seq<crate::model::JobView>,
    config: RouterConfig,
    year: Option<i32>,
    r: Outcome,
)
    requires
        answers_for(jobs, config, "GET"@, "/"@, year, r),
    ensures
        r matches Outcome::Respond(resp) && (resp.status == 200 || resp.status == 500)
            && headers_view(resp.headers@) == hardening_headers_view(),
{
}

} // verus!
