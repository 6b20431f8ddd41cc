//! Snapshot records: one commit of a branch.
use vstd::prelude::*;
use vstd::string::*;
use crate::paths::{decimal, decimal_string, texts};

verus! {

/// What a commit holds.
pub struct CommitView {
    pub id: usize,
    pub message: Seq<char>,
    pub creation_datetime: Seq<char>,
    pub modified_files: Seq<Seq<char>>,
}

/// One snapshot event: its id within the branch, its message, the moment it
/// was made (RFC 3339 text) and the files it captured, in staging order.
#[derive(Debug)]
pub struct Commit {
    pub id: usize,
    pub message: String,
    pub creation_datetime: String,
    pub modified_files: Vec<String>,
}

impl View for Commit {
    type V = CommitView;

    open spec fn view(&self) -> CommitView {
        CommitView {
            id: self.id,
            message: self.message@,
            creation_datetime: self.creation_datetime@,
            modified_files: texts(self.modified_files@),
        }
    }
}

/// The lines that list the files of a commit, each indented by two spaces.
pub open spec fn file_lines(files: Seq<Seq<char>>) -> Seq<char>
    decreases files.len(),
{
    if files.len() == 0 {
        Seq::empty()
    } else {
        file_lines(files.drop_last()) + "  "@ + files.last() + "\n"@
    }
}

/// The text that shows a commit, with its moment written as `time`.
pub open spec fn rendered(c: CommitView, time: Seq<char>) -> Seq<char> {
    "ID: "@ + decimal(c.id as nat) + "\nMessage: "@ + c.message + "\nCreated at: "@ + time
        + "\nModified Files:\n"@ + file_lines(c.modified_files)
}

/// Relies on `std::time::SystemTime::now` measured from the Unix epoch, then
/// chrono's `DateTime::from_timestamp` and `to_rfc3339`: the present moment
/// as RFC 3339 text; `None` where the clock reads before 1970 or beyond
/// what chrono can represent.
#[verifier::external_body]
pub(crate) fn now_rfc3339() -> (r: Option<String>) {
    let since = match std::time::SystemTime::now().duration_since(std::time::UNIX_EPOCH) {
        Ok(d) => d,
        Err(_) => return None,
    };
    let secs = match i64::try_from(since.as_secs()) {
        Ok(s) => s,
        Err(_) => return None,
    };
    match chrono::DateTime::from_timestamp(secs, since.subsec_nanos()) {
        Some(t) => Some(t.to_rfc3339()),
        None => None,
    }
}

/// `stamp` is RFC 3339 text and `pattern` a valid strftime format: the
/// moment can then be written in local time with that pattern.
pub uninterp spec fn local_time_ok(stamp: Seq<char>, pattern: Seq<char>) -> bool;

/// The format in which a commit's moment is shown.
pub open spec fn shown_time_format() -> Seq<char> {
    "%Y-%m-%d %H:%M:%S"@
}

/// Relies on chrono's `StrftimeItems::parse`, `DateTime::parse_from_rfc3339`,
/// the conversion into the machine's local time zone and
/// `format_with_items`: `None` where `pattern` is not a valid format or
/// `stamp` does not parse, which the two parsers decide from the two texts
/// alone.
#[verifier::external_body]
fn local_time_text(stamp: &str, pattern: &str) -> (r: Option<String>)
    ensures
        r is Some <==> local_time_ok(stamp@, pattern@),
{
    let items = match chrono::format::StrftimeItems::new(pattern).parse() {
        Ok(items) => items,
        Err(_) => return None,
    };
    match chrono::DateTime::parse_from_rfc3339(stamp) {
        Ok(t) => Some(chrono::DateTime::<chrono::Local>::from(t).format_with_items(items.iter()).to_string()),
        Err(_) => None,
    }
}

impl Clone for Commit {
    fn clone(&self) -> (r: Commit)
        ensures
            r@ == self@,
    {
        let files = self.modified_files.clone();
        assert(texts(files@) =~= texts(self.modified_files@));
        Commit {
            id: self.id,
            message: self.message.clone(),
            creation_datetime: self.creation_datetime.clone(),
            modified_files: files,
        }
    }
}

impl Commit {
    /// A commit stamped with the present moment; `None` where the system
    /// clock cannot be read as a date.
    pub fn new(id: usize, message: String, modified_files: Vec<String>) -> (r: Option<Commit>)
        ensures
            r matches Some(c) ==> c.id == id && c.message == message && c.modified_files == modified_files,
    {
        match now_rfc3339() {
            Some(creation_datetime) => Some(Commit { id, message, creation_datetime, modified_files }),
            None => None,
        }
    }

    /// The moment of the commit in the local time zone, as
    /// `year-month-day hour:minute:second`; `None` where the stored moment is
    /// not RFC 3339 text.
    pub fn get_time_formatted(&self) -> (r: Option<String>)
        ensures
            r is Some <==> local_time_ok(self@.creation_datetime, shown_time_format()),
    {
        local_time_text(self.creation_datetime.as_str(), "%Y-%m-%d %H:%M:%S")
    }

    /// The text that shows this commit, with its moment given as `time`.
    pub fn render_with_time(&self, time: &str) -> (r: String)
        ensures
            r@ == rendered(self@, time@),
    {
        let mut r = String::new();
        r.append("ID: ");
        let id_text = decimal_string(self.id);
        r.append(id_text.as_str());
        r.append("\nMessage: ");
        r.append(self.message.as_str());
        r.append("\nCreated at: ");
        r.append(time);
        r.append("\nModified Files:\n");
        assert(r@ =~= rendered(self@, time@).subrange(0, r@.len() as int));
        let ghost head = r@;
        let ghost files = texts(self.modified_files@);
        let mut i: usize = 0;
        assert(files.subrange(0, 0) =~= Seq::<Seq<char>>::empty());
        while i < self.modified_files.len()
            invariant
                i <= self.modified_files@.len(),
                files == texts(self.modified_files@),
                r@ == head + file_lines(files.subrange(0, i as int)),
            decreases self.modified_files@.len() - i,
        {
            r.append("  ");
            r.append(self.modified_files[i].as_str());
            r.append("\n");
            assert(files.subrange(0, i + 1).drop_last() =~= files.subrange(0, i as int));
            i = i + 1;
        }
        assert(files.subrange(0, i as int) =~= files);
        assert(rendered(self@, time@) =~= head + file_lines(files));
        r
    }

    /// The text that shows this commit, its moment in the local time zone;
    /// `None` where the stored moment is not RFC 3339 text.
    pub fn render(&self) -> (r: Option<String>)
        ensures
            r is Some <==> local_time_ok(self@.creation_datetime, shown_time_format()),
            r matches Some(s) ==> exists|t: Seq<char>| s@ == rendered(self@, t),
    {
        match self.get_time_formatted() {
            Some(t) => Some(self.render_with_time(t.as_str())),
            None => None,
        }
    }
}

} // verus!
