use vstd::prelude::*;

use crate::http::{Field, Request, Response};

verus! {

/// What stands in a log line in place of a sensitive value.
pub const REDACTED: &'static str = "{redacted}";

/// Which fields of a request or of a response must not reach a log.
pub struct Sensitivity {
    pub sensitive: Vec<String>,
}

/// A field as it is logged: its name, and its value or the redaction marker.
pub struct LoggedField {
    pub name: String,
    pub value: String,
}

/// One log entry, tagged with the operation's name.
pub struct LogEntry {
    pub operation: String,
    pub fields: Vec<LoggedField>,
}

/// Instrumentation of one operation: logs requests and responses through
/// the operation's redaction policies.
pub struct InstrumentLayer {
    pub operation_name: String,
    pub request_fmt: Sensitivity,
    pub response_fmt: Sensitivity,
}

pub open spec fn names_view(names: Seq<String>) -> Seq<Seq<char>> {
    names.map_values(|n: String| n@)
}

/// A logged field list as name/value pairs.
pub open spec fn logged_pairs(fields: Seq<LoggedField>) -> Seq<(Seq<char>, Seq<char>)> {
    fields.map_values(|f: LoggedField| (f.name@, f.value@))
}

impl Sensitivity {
    /// The fields as they may be logged: every field keeps its name and
    /// place, and the value of every marked field is replaced by `REDACTED`.
    pub open spec fn spec_format(&self, fields: Seq<Field>) -> Seq<(Seq<char>, Seq<char>)> {
        Seq::new(
            fields.len(),
            |i: int| (fields[i].name@, self.logged_value(fields[i].name@, fields[i].value@)),
        )
    }

    pub open spec fn marks(&self, name: Seq<char>) -> bool {
        names_view(self.sensitive@).contains(name)
    }

    /// The logged value of a field named `name` whose value is `value`.
    pub open spec fn logged_value(&self, name: Seq<char>, value: Seq<char>) -> Seq<char> {
        if self.marks(name) {
            REDACTED@
        } else {
            value
        }
    }

    /// A policy that marks nothing.
    pub fn none() -> (r: Sensitivity)
        ensures
            r.sensitive@.len() == 0,
    {
        Sensitivity { sensitive: Vec::new() }
    }

    /// A policy that marks the given field names.
    pub fn new(sensitive: Vec<String>) -> (r: Sensitivity)
        ensures
            r.sensitive@ == sensitive@,
    {
        Sensitivity { sensitive }
    }

    pub fn is_sensitive(&self, name: &String) -> (r: bool)
        ensures
            r == self.marks(name@),
    {
        let mut i: usize = 0;
        while i < self.sensitive.len()
            invariant
                i <= self.sensitive@.len(),
                forall|j: int| 0 <= j < i ==> self.sensitive@[j]@ != name@,
            decreases self.sensitive@.len() - i,
        {
            if self.sensitive[i] == *name {
                assert(names_view(self.sensitive@)[i as int] == name@);
                return true;
            }
            i = i + 1;
        }
        assert forall|j: int| 0 <= j < names_view(self.sensitive@).len() implies names_view(
            self.sensitive@,
        )[j] != name@ by {
            assert(self.sensitive@[j]@ != name@);
        }
        false
    }

    /// A copy of this policy, with the same field names.
    pub fn duplicate(&self) -> (r: Sensitivity)
        ensures
            names_view(r.sensitive@) == names_view(self.sensitive@),
    {
        let mut out: Vec<String> = Vec::new();
        let mut i: usize = 0;
        while i < self.sensitive.len()
            invariant
                i <= self.sensitive@.len(),
                names_view(out@) == names_view(self.sensitive@.take(i as int)),
            decreases self.sensitive@.len() - i,
        {
            let ghost before = out@;
            let name = self.sensitive[i].clone();
            out.push(name);
            assert(self.sensitive@.take(i + 1) =~= self.sensitive@.take(i as int).push(
                self.sensitive@[i as int],
            ));
            assert(names_view(before.push(name)) =~= names_view(before).push(name@));
            assert(names_view(self.sensitive@.take(i as int).push(self.sensitive@[i as int]))
                =~= names_view(self.sensitive@.take(i as int)).push(self.sensitive@[i as int]@));
            i = i + 1;
        }
        assert(self.sensitive@.take(i as int) =~= self.sensitive@);
        Sensitivity { sensitive: out }
    }

    /// Formats fields for a log through this policy.
    pub fn format(&self, fields: &Vec<Field>) -> (r: Vec<LoggedField>)
        ensures
            logged_pairs(r@) == self.spec_format(fields@),
    {
        let mut out: Vec<LoggedField> = Vec::new();
        let mut i: usize = 0;
        while i < fields.len()
            invariant
                i <= fields@.len(),
                out@.len() == i,
                forall|j: int|
                    0 <= j < i ==> {
                        &&& (#[trigger] out@[j]).name@ == fields@[j].name@
                        &&& out@[j].value@ == self.logged_value(fields@[j].name@, fields@[j].value@)
                    },
            decreases fields@.len() - i,
        {
            let f = &fields[i];
            let value = if self.is_sensitive(&f.name) {
                REDACTED.to_string()
            } else {
                f.value.clone()
            };
            out.push(LoggedField { name: f.name.clone(), value });
            i = i + 1;
        }
        assert(logged_pairs(out@) =~= self.spec_format(fields@));
        out
    }
}

impl InstrumentLayer {
    /// Instrumentation that logs under `operation_name` and redacts nothing.
    pub fn new(operation_name: String) -> (r: InstrumentLayer)
        ensures
            r.operation_name@ == operation_name@,
            r.request_fmt.sensitive@.len() == 0,
            r.response_fmt.sensitive@.len() == 0,
    {
        InstrumentLayer {
            operation_name,
            request_fmt: Sensitivity::none(),
            response_fmt: Sensitivity::none(),
        }
    }

    pub fn request_fmt(self, request_fmt: Sensitivity) -> (r: InstrumentLayer)
        ensures
            r.operation_name == self.operation_name,
            r.request_fmt == request_fmt,
            r.response_fmt == self.response_fmt,
    {
        InstrumentLayer { request_fmt, ..self }
    }

    pub fn response_fmt(self, response_fmt: Sensitivity) -> (r: InstrumentLayer)
        ensures
            r.operation_name == self.operation_name,
            r.request_fmt == self.request_fmt,
            r.response_fmt == response_fmt,
    {
        InstrumentLayer { response_fmt, ..self }
    }

    /// The log entry for an inbound request; the request itself is only read.
    pub fn on_request(&self, request: &Request) -> (r: LogEntry)
        ensures
            r.operation@ == self.operation_name@,
            logged_pairs(r.fields@) == self.request_fmt.spec_format(request.fields@),
    {
        LogEntry {
            operation: self.operation_name.clone(),
            fields: self.request_fmt.format(&request.fields),
        }
    }

    /// The log entry for an outbound response; the response itself is only read.
    pub fn on_response(&self, response: &Response) -> (r: LogEntry)
        ensures
            r.operation@ == self.operation_name@,
            logged_pairs(r.fields@) == self.response_fmt.spec_format(response.fields@),
    {
        LogEntry {
            operation: self.operation_name.clone(),
            fields: self.response_fmt.format(&response.fields),
        }
    }
}

/// A sensitive field's value never reaches the log: its own entry holds the
/// redaction marker, and no other entry holds that value unless an unmarked
/// field carries it too.
pub proof fn lemma_sensitive_value_not_logged(sens: Sensitivity, fields: Seq<Field>, i: int)
    requires
        0 <= i < fields.len(),
        sens.marks(fields[i].name@),
        fields[i].value@ != REDACTED@,
        forall|j: int|
            0 <= j < fields.len() && !sens.marks(#[trigger] fields[j].name@) ==> fields[j].value@
                != fields[i].value@,
    ensures
        sens.spec_format(fields)[i].1 == REDACTED@,
        forall|j: int|
            0 <= j < fields.len() ==> (#[trigger] sens.spec_format(fields)[j]).1 != fields[i].value@,
{
    assert forall|j: int| 0 <= j < fields.len() implies (#[trigger] sens.spec_format(fields)[j]).1
        != fields[i].value@ by {
        if !sens.marks(fields[j].name@) {
            assert(fields[j].value@ != fields[i].value@);
        }
    }
}

} // verus!
