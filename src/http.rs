use vstd::prelude::*;

verus! {

/// One named field of a request or response (a header, a label, a query
/// parameter).
#[derive(Debug)]
pub struct Field {
    pub name: String,
    pub value: String,
}

/// A transport request: its target, its named fields, its body, and the
/// attempt that sends it.
#[derive(Debug)]
pub struct Request {
    pub uri: String,
    pub fields: Vec<Field>,
    pub body: Vec<u8>,
    pub attempt: u32,
}

/// A transport response: status, named fields, body.
#[derive(Debug)]
pub struct Response {
    pub status: u16,
    pub fields: Vec<Field>,
    pub body: Vec<u8>,
}

pub open spec fn fields_view(fields: Seq<Field>) -> Seq<(Seq<char>, Seq<char>)> {
    fields.map_values(|f: Field| (f.name@, f.value@))
}

pub struct RequestView {
    pub uri: Seq<char>,
    pub fields: Seq<(Seq<char>, Seq<char>)>,
    pub body: Seq<u8>,
    pub attempt: u32,
}

impl View for Request {
    type V = RequestView;

    open spec fn view(&self) -> RequestView {
        RequestView {
            uri: self.uri@,
            fields: fields_view(self.fields@),
            body: self.body@,
            attempt: self.attempt,
        }
    }
}

impl Field {
    pub fn new(name: String, value: String) -> (r: Field)
        ensures
            r.name == name,
            r.value == value,
    {
        Field { name, value }
    }
}

/// A copy of `fields`, field for field.
pub fn duplicate_fields(fields: &Vec<Field>) -> (r: Vec<Field>)
    ensures
        fields_view(r@) == fields_view(fields@),
{
    let mut out: Vec<Field> = Vec::new();
    let mut i: usize = 0;
    while i < fields.len()
        invariant
            i <= fields@.len(),
            fields_view(out@) == fields_view(fields@.take(i as int)),
        decreases fields@.len() - i,
    {
        let ghost before = out@;
        let f = Field { name: fields[i].name.clone(), value: fields[i].value.clone() };
        out.push(f);
        assert(fields@.take(i + 1) =~= fields@.take(i as int).push(fields@[i as int]));
        assert(fields_view(before.push(f)) =~= fields_view(before).push((f.name@, f.value@)));
        assert(fields_view(fields@.take(i as int).push(fields@[i as int])) =~= fields_view(
            fields@.take(i as int),
        ).push((fields@[i as int].name@, fields@[i as int].value@)));
        i = i + 1;
    }
    assert(fields@.take(i as int) =~= fields@);
    out
}

impl Request {
    /// A request for `uri` with no fields, carrying `body`, not yet sent.
    pub fn new(uri: String, body: Vec<u8>) -> (r: Request)
        ensures
            r.uri == uri,
            r.fields@.len() == 0,
            r.body == body,
            r.attempt == 0,
    {
        Request { uri, fields: Vec::new(), body, attempt: 0 }
    }

    /// An equivalent request for attempt `attempt`: requests are re-sendable.
    pub fn for_attempt(&self, attempt: u32) -> (r: Request)
        ensures
            r@ == (RequestView { attempt, ..self@ }),
    {
        Request {
            uri: self.uri.clone(),
            fields: duplicate_fields(&self.fields),
            body: self.body.clone(),
            attempt,
        }
    }
}

impl Response {
    /// A response with status `status`, no fields, and `body`.
    pub fn new(status: u16, body: Vec<u8>) -> (r: Response)
        ensures
            r.status == status,
            r.fields@.len() == 0,
            r.body == body,
    {
        Response { status, fields: Vec::new(), body }
    }

    /// A status in `200 ..= 299`.
    pub open spec fn spec_is_success(&self) -> bool {
        200 <= self.status < 300
    }

    pub fn is_success(&self) -> (r: bool)
        ensures
            r == self.spec_is_success(),
    {
        200 <= self.status && self.status < 300
    }
}

} // verus!
