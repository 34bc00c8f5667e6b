use vstd::prelude::*;
use crate::json::{find_member, lookup, parse_json, json_document, JsonValue};
use crate::model::{JobData, JobEntry, JobView};

verus! {

/// Why the job list could not be loaded.
#[derive(Debug, Clone, Copy, PartialEq, Eq, Structural)]
pub enum LoadError {
    /// The document could not be read.
    Io,
    /// The document is not JSON, or not a job list.
    Parse,
}

impl LoadError {
    /// A short description of the error.
    pub fn describe(&self) -> (r: String)
        ensures
            *self == LoadError::Io ==> r@ == "could not read the job list"@,
            *self == LoadError::Parse ==> r@ == "the job list is not valid JSON of the expected shape"@,
    {
        match self {
            LoadError::Io => String::from_str("could not read the job list"),
            LoadError::Parse => String::from_str("the job list is not valid JSON of the expected shape"),
        }
    }
}

pub open spec fn is_digit(c: char) -> bool {
    '0' <= c && c <= '9'
}

/// The value of a text of decimal digits.
pub open spec fn digits_value(s: Seq<char>) -> nat
    decreases s.len(),
{
    if s.len() == 0 {
        0
    } else {
        digits_value(s.drop_last()) * 10 + (s.last() as nat - '0' as nat) as nat
    }
}

/// A non-empty text of decimal digits.
pub open spec fn is_decimal(s: Seq<char>) -> bool {
    s.len() > 0 && forall|i: int| 0 <= i < s.len() ==> is_digit(#[trigger] s[i])
}

/// The `u32` that a number's text stands for, where it stands for one.
pub open spec fn u32_of_text(s: Seq<char>) -> Option<u32> {
    if is_decimal(s) && digits_value(s) <= u32::MAX {
        Some(digits_value(s) as u32)
    } else {
        None
    }
}

proof fn lemma_digits_value_grows(s: Seq<char>, i: int, j: int)
    requires
        0 <= i <= j <= s.len(),
    ensures
        digits_value(s.take(i)) <= digits_value(s.take(j)),
    decreases j - i,
{
    if i < j {
        lemma_digits_value_grows(s, i, j - 1);
        assert(s.take(j).drop_last() =~= s.take(j - 1));
    }
}

/// Reads the text of a JSON number as a `u32`.
pub fn parse_u32_text(s: &str) -> (r: Option<u32>)
    ensures
        r == u32_of_text(s@),
{
    let n = s.unicode_len();
    if n == 0 {
        return None;
    }
    let mut i: usize = 0;
    while i < n
        invariant
            n == s@.len(),
            i <= n,
            forall|k: int| 0 <= k < i ==> is_digit(#[trigger] s@[k]),
        decreases n - i,
    {
        let c = s.get_char(i);
        if !('0' <= c && c <= '9') {
            return None;
        }
        i = i + 1;
    }
    let mut acc: u64 = 0;
    let mut i: usize = 0;
    assert(s@.take(0) =~= Seq::<char>::empty());
    while i < n
        invariant
            n == s@.len(),
            i <= n,
            is_decimal(s@),
            acc == digits_value(s@.take(i as int)),
            acc <= u32::MAX,
        decreases n - i,
    {
        let c = s.get_char(i);
        proof {
            assert(s@.take(i + 1).drop_last() =~= s@.take(i as int));
            assert(s@.take(i + 1).last() == c);
            assert(is_digit(s@[i as int]));
        }
        acc = acc * 10 + (c as u64 - '0' as u64);
        if acc > u32::MAX as u64 {
            proof {
                lemma_digits_value_grows(s@, i + 1, n as int);
                assert(s@.take(n as int) =~= s@);
            }
            return None;
        }
        i = i + 1;
    }
    assert(s@.take(n as int) =~= s@);
    Some(acc as u32)
}

/// The text held by a member value, where it is a string.
pub open spec fn text_of(v: Option<JsonValue>) -> Option<Seq<char>> {
    match v {
        Some(JsonValue::Str(s)) => Some(s@),
        _ => None,
    }
}

/// The `u32` held by a member value, where it is a number in range.
pub open spec fn key_of(v: Option<JsonValue>) -> Option<u32> {
    match v {
        Some(JsonValue::Number(t)) => u32_of_text(t@),
        _ => None,
    }
}

/// The job that a JSON value describes: an object whose members `key`,
/// `name`, `details`, `tools`, `screen` and `link` all have the right type.
/// Other members are ignored.
pub open spec fn entry_of(v: JsonValue) -> Option<JobView> {
    match v {
        JsonValue::Object(fields) => {
            let f = fields@;
            let key = key_of(lookup(f, "key"@));
            let name = text_of(lookup(f, "name"@));
            let details = text_of(lookup(f, "details"@));
            let tools = text_of(lookup(f, "tools"@));
            let screen = text_of(lookup(f, "screen"@));
            let link = text_of(lookup(f, "link"@));
            if key is Some && name is Some && details is Some && tools is Some && screen is Some
                && link is Some {
                Some(JobView {
                    key: key->Some_0,
                    name: name->Some_0,
                    details: details->Some_0,
                    tools: tools->Some_0,
                    screen: screen->Some_0,
                    link: link->Some_0,
                })
            } else {
                None
            }
        },
        _ => None,
    }
}

/// The jobs that a JSON array describes, in order; `None` if any element is
/// not a job.
pub open spec fn entries_of(items: Seq<JsonValue>) -> Option<Seq<JobView>>
    decreases items.len(),
{
    if items.len() == 0 {
        Some(Seq::empty())
    } else {
        match (entries_of(items.drop_last()), entry_of(items.last())) {
            (Some(es), Some(e)) => Some(es.push(e)),
            _ => None,
        }
    }
}

/// The job list that a JSON document describes: an object whose member
/// `entries` is an array of jobs.
pub open spec fn job_data_of(v: JsonValue) -> Option<Seq<JobView>> {
    match v {
        JsonValue::Object(fields) => match lookup(fields@, "entries"@) {
            Some(JsonValue::Array(items)) => entries_of(items@),
            _ => None,
        },
        _ => None,
    }
}

/// The job list that a JSON text describes, if it describes one.
pub open spec fn job_list_of_text(s: Seq<char>) -> Option<Seq<JobView>> {
    match json_document(s) {
        Some(v) => job_data_of(v),
        None => None,
    }
}

fn text_member(fields: &Vec<(String, JsonValue)>, name: &str) -> (r: Option<String>)
    ensures
        r is Some <==> text_of(lookup(fields@, name@)) is Some,
        r matches Some(t) ==> text_of(lookup(fields@, name@)) == Some(t@),
{
    let name = String::from_str(name);
    match find_member(fields, &name) {
        Some(k) => match &fields[k].1 {
            JsonValue::Str(t) => Some(t.clone()),
            _ => None,
        },
        None => None,
    }
}

fn key_member(fields: &Vec<(String, JsonValue)>) -> (r: Option<u32>)
    ensures
        r == key_of(lookup(fields@, "key"@)),
{
    let name = String::from_str("key");
    match find_member(fields, &name) {
        Some(k) => match &fields[k].1 {
            JsonValue::Number(t) => parse_u32_text(t.as_str()),
            _ => None,
        },
        None => None,
    }
}

/// Reads one job from a JSON value.
pub fn job_entry_from(v: &JsonValue) -> (r: Option<JobEntry>)
    ensures
        r is Some <==> entry_of(*v) is Some,
        r matches Some(e) ==> entry_of(*v) == Some(e@),
{
    match v {
        JsonValue::Object(fields) => {
            let key = key_member(fields);
            let name = text_member(fields, "name");
            let details = text_member(fields, "details");
            let tools = text_member(fields, "tools");
            let screen = text_member(fields, "screen");
            let link = text_member(fields, "link");
            match (key, name, details, tools, screen, link) {
                (Some(key), Some(name), Some(details), Some(tools), Some(screen), Some(link)) => {
                    Some(JobEntry { key, name, details, tools, screen, link })
                },
                _ => None,
            }
        },
        _ => None,
    }
}

/// Reads the job list from a JSON document: all of it, or nothing.
pub fn decode_job_data(v: &JsonValue) -> (r: Option<JobData>)
    ensures
        r is Some <==> job_data_of(*v) is Some,
        r matches Some(d) ==> job_data_of(*v) == Some(d@),
{
    let fields = match v {
        JsonValue::Object(fields) => fields,
        _ => return None,
    };
    let name = String::from_str("entries");
    let items = match find_member(fields, &name) {
        Some(k) => match &fields[k].1 {
            JsonValue::Array(items) => items,
            _ => return None,
        },
        None => return None,
    };
    let mut entries: Vec<JobEntry> = Vec::new();
    let mut i: usize = 0;
    assert(items@.take(0) =~= Seq::<JsonValue>::empty());
    assert(lookup(fields@, "entries"@) == Some(JsonValue::Array(*items)));
    while i < items.len()
        invariant
            *v == JsonValue::Object(*fields),
            lookup(fields@, "entries"@) == Some(JsonValue::Array(*items)),
            i <= items@.len(),
            entries_of(items@.take(i as int)) == Some(entries@.map_values(|e: JobEntry| e@)),
        decreases items@.len() - i,
    {
        proof {
            assert(items@.take(i + 1).drop_last() =~= items@.take(i as int));
            assert(items@.take(i + 1).last() == items@[i as int]);
        }
        match job_entry_from(&items[i]) {
            Some(e) => {
                let ghost before = entries@;
                entries.push(e);
                assert(entries@.map_values(|e: JobEntry| e@) =~= before.map_values(|e: JobEntry| e@).push(e@));
            },
            None => {
                proof {
                    lemma_no_partial_load(items@, i as int);
                }
                return None;
            },
        }
        i = i + 1;
    }
    assert(items@.take(items@.len() as int) =~= items@);
    Some(JobData { entries })
}

/// Loads the job list from the text of a JSON document. It succeeds exactly
/// when the text is JSON of the expected shape, and then holds every job in
/// the order of the document; there is no partial result.
pub fn parse_job_data(json: &str) -> (r: Result<JobData, LoadError>)
    ensures
        r is Ok <==> job_list_of_text(json@) is Some,
        r matches Ok(d) ==> job_list_of_text(json@) == Some(d@),
        r matches Err(e) ==> e == LoadError::Parse,
{
    match parse_json(json) {
        Some(v) => match decode_job_data(&v) {
            Some(d) => Ok(d),
            None => Err(LoadError::Parse),
        },
        None => Err(LoadError::Parse),
    }
}

proof fn lemma_bad_item_spoils_all(items: Seq<JsonValue>, i: int, m: int)
    requires
        0 <= i < m <= items.len(),
        entry_of(items[i]) is None,
    ensures
        entries_of(items.take(m)) is None,
    decreases m - i,
{
    assert(items.take(m).drop_last() =~= items.take(m - 1));
    if m - 1 > i {
        lemma_bad_item_spoils_all(items, i, m - 1);
    } else {
        assert(items.take(m).last() == items[i]);
    }
}

/// One element of `entries` that is not a job spoils the whole list: no job
/// list is read from such a document.
pub proof fn lemma_no_partial_load(items: Seq<JsonValue>, i: int)
    requires
        0 <= i < items.len(),
        entry_of(items[i]) is None,
    ensures
        entries_of(items) is None,
{
    lemma_bad_item_spoils_all(items, i, items.len() as int);
    assert(items.take(items.len() as int) =~= items);
}

/// An object that lacks any of the six members that a job needs is no job,
/// whatever else it holds.
pub proof fn lemma_missing_member_is_no_job(fields: Vec<(String, JsonValue)>, missing: Seq<char>)
    requires
        missing == "key"@ || missing == "name"@ || missing == "details"@ || missing == "tools"@
            || missing == "screen"@ || missing == "link"@,
        lookup(fields@, missing) is None,
    ensures
        entry_of(JsonValue::Object(fields)) is None,
{
}

/// A text whose JSON document is an object with an empty array `entries`
/// loads, as the empty job list.
pub proof fn lemma_empty_entries_load(
    text: Seq<char>,
    fields: Vec<(String, JsonValue)>,
    items: Vec<JsonValue>,
)
    requires
        json_document(text) == Some(JsonValue::Object(fields)),
        lookup(fields@, "entries"@) == Some(JsonValue::Array(items)),
        items@.len() == 0,
    ensures
        job_list_of_text(text) == Some(Seq::<JobView>::empty()),
{
}

/// The jobs read from an array are its elements read one by one: it is read
/// exactly when every element is a job, and then as many jobs come out as
/// there are elements, each read from the element at its place.
pub proof fn lemma_entries_elementwise(items: Seq<JsonValue>)
    ensures
        entries_of(items) is Some <==> forall|i: int| 0 <= i < items.len()
            ==> (#[trigger] entry_of(items[i])) is Some,
        entries_of(items) matches Some(es) ==> {
            &&& es.len() == items.len()
            &&& forall|i: int| 0 <= i < items.len() ==> #[trigger] entry_of(items[i]) == Some(es[i])
        },
    decreases items.len(),
{
    if items.len() > 0 {
        let front = items.drop_last();
        let n = items.len() - 1;
        lemma_entries_elementwise(front);
        assert forall|i: int| 0 <= i < front.len() implies #[trigger] front[i] == items[i] by {}
        if forall|i: int| 0 <= i < items.len() ==> (#[trigger] entry_of(items[i])) is Some {
            assert forall|i: int| 0 <= i < front.len() implies (#[trigger] entry_of(front[i])) is Some by {
                assert(entry_of(items[i]) is Some);
            }
            assert(entry_of(items[n]) is Some);
        }
        match (entries_of(front), entry_of(items.last())) {
            (Some(ef), Some(e)) => {
                let es = ef.push(e);
                assert(entries_of(items) == Some(es));
                assert forall|i: int| 0 <= i < items.len() implies #[trigger] entry_of(items[i]) == Some(es[i]) by {
                    if i < n {
                        assert(entry_of(front[i]) == Some(ef[i]));
                    }
                }
            },
            (None, _) => {
                let i = choose|i: int| 0 <= i < front.len() && !((#[trigger] entry_of(front[i])) is Some);
                assert(entry_of(items[i]) is None);
            },
            (_, None) => {
                assert(entry_of(items[n]) is None);
            },
        }
    }
}

/// A text whose document is an object with an array `entries` loads exactly
/// when every element of the array is a job, and then as the list of those
/// jobs, element by element and in the array's order.
pub proof fn lemma_loaded_list_elementwise(
    text: Seq<char>,
    fields: Vec<(String, JsonValue)>,
    items: Vec<JsonValue>,
)
    requires
        json_document(text) == Some(JsonValue::Object(fields)),
        lookup(fields@, "entries"@) == Some(JsonValue::Array(items)),
    ensures
        job_list_of_text(text) is Some <==> forall|i: int| 0 <= i < items@.len()
            ==> (#[trigger] entry_of(items@[i])) is Some,
        job_list_of_text(text) matches Some(es) ==> {
            &&& es.len() == items@.len()
            &&& forall|i: int| 0 <= i < items@.len() ==> #[trigger] entry_of(items@[i]) == Some(es[i])
        },
{
    lemma_entries_elementwise(items@);
}

} // verus!
