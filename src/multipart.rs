//! `multipart/form-data` bodies.
use vstd::prelude::*;
use crate::bytes::{append_bytes, ascii_of, literal, opt_chars, string_bytes, utf8};

verus! {

broadcast use vstd::string::group_string_axioms;

/// One field of a multipart body.
pub struct MultipartPart {
    name: String,
    filename: Option<String>,
    content_type: Option<String>,
    data: Vec<u8>,
}

pub struct PartView {
    pub name: Seq<char>,
    pub filename: Option<Seq<char>>,
    pub content_type: Option<Seq<char>>,
    pub data: Seq<u8>,
}

impl View for MultipartPart {
    type V = PartView;

    closed spec fn view(&self) -> PartView {
        PartView {
            name: self.name@,
            filename: opt_chars(self.filename),
            content_type: opt_chars(self.content_type),
            data: self.data@,
        }
    }
}

/// The bytes of one part under `boundary`.
pub open spec fn part_bytes(boundary: Seq<u8>, p: PartView) -> Seq<u8> {
    let disposition = ascii_of("Content-Disposition: form-data; name=\""@) + utf8(p.name)
        + ascii_of("\""@) + match p.filename {
        Some(f) => ascii_of("; filename=\""@) + utf8(f) + ascii_of("\""@),
        None => Seq::<u8>::empty(),
    } + ascii_of("\r\n"@);
    let content_type = match p.content_type {
        Some(c) => ascii_of("Content-Type: "@) + utf8(c) + ascii_of("\r\n"@),
        None => Seq::<u8>::empty(),
    };
    ascii_of("--"@) + boundary + ascii_of("\r\n"@) + disposition + content_type + ascii_of(
        "\r\n"@,
    ) + p.data + ascii_of("\r\n"@)
}

pub open spec fn parts_bytes(boundary: Seq<u8>, ps: Seq<PartView>) -> Seq<u8>
    decreases ps.len(),
{
    if ps.len() == 0 {
        Seq::empty()
    } else {
        parts_bytes(boundary, ps.drop_last()) + part_bytes(boundary, ps.last())
    }
}

/// The whole body: every part, then the closing delimiter.
pub open spec fn multipart_body(boundary: Seq<u8>, ps: Seq<PartView>) -> Seq<u8> {
    parts_bytes(boundary, ps) + ascii_of("--"@) + boundary + ascii_of("--\r\n"@)
}

pub open spec fn parts_view(ps: Seq<MultipartPart>) -> Seq<PartView> {
    Seq::new(ps.len(), |i: int| ps[i]@)
}

impl MultipartPart {
    /// A field holding raw bytes.
    pub fn new(name: String, data: Vec<u8>) -> (r: MultipartPart)
        ensures
            r@ == (PartView { name: name@, filename: None, content_type: None, data: data@ }),
    {
        MultipartPart { name, filename: None, content_type: None, data }
    }

    /// A field holding UTF-8 text.
    pub fn text(name: String, value: String) -> (r: MultipartPart)
        ensures
            r@ == (PartView {
                name: name@,
                filename: None,
                content_type: None,
                data: utf8(value@),
            }),
    {
        MultipartPart::new(name, string_bytes(&value))
    }

    /// A field with a filename and a content type.
    pub fn binary(name: String, filename: String, content_type: String, data: Vec<u8>) -> (r:
        MultipartPart)
        ensures
            r@ == (PartView {
                name: name@,
                filename: Some(filename@),
                content_type: Some(content_type@),
                data: data@,
            }),
    {
        MultipartPart { name, filename: Some(filename), content_type: Some(content_type), data }
    }

    /// Sets the filename.
    pub fn with_filename(self, filename: String) -> (r: MultipartPart)
        ensures
            r@ == (PartView { filename: Some(filename@), ..self@ }),
    {
        MultipartPart { filename: Some(filename), ..self }
    }

    /// Sets the content type.
    pub fn with_content_type(self, content_type: String) -> (r: MultipartPart)
        ensures
            r@ == (PartView { content_type: Some(content_type@), ..self@ }),
    {
        MultipartPart { content_type: Some(content_type), ..self }
    }

    pub fn name(&self) -> (r: &String)
        ensures
            r@ == self@.name,
    {
        &self.name
    }

    pub fn filename(&self) -> (r: Option<&String>)
        ensures
            match r {
                Some(f) => self@.filename == Some(f@),
                None => self@.filename is None,
            },
    {
        self.filename.as_ref()
    }

    pub fn content_type(&self) -> (r: Option<&String>)
        ensures
            match r {
                Some(c) => self@.content_type == Some(c@),
                None => self@.content_type is None,
            },
    {
        self.content_type.as_ref()
    }

    pub fn data(&self) -> (r: &[u8])
        ensures
            r@ == self@.data,
    {
        self.data.as_slice()
    }

    fn write_to(&self, boundary: &[u8], body: &mut Vec<u8>)
        ensures
            final(body)@ == old(body)@ + part_bytes(boundary@, self@),
    {
        proof {
            reveal_strlit("--");
            reveal_strlit("\r\n");
            reveal_strlit("Content-Disposition: form-data; name=\"");
            reveal_strlit("\"");
            reveal_strlit("; filename=\"");
            reveal_strlit("Content-Type: ");
        }
        let crlf = literal("\r\n");
        let quote = literal("\"");
        append_bytes(body, literal("--").as_slice());
        append_bytes(body, boundary);
        append_bytes(body, crlf.as_slice());
        append_bytes(body, literal("Content-Disposition: form-data; name=\"").as_slice());
        append_bytes(body, string_bytes(&self.name).as_slice());
        append_bytes(body, quote.as_slice());
        if let Some(f) = &self.filename {
            append_bytes(body, literal("; filename=\"").as_slice());
            append_bytes(body, string_bytes(f).as_slice());
            append_bytes(body, quote.as_slice());
        }
        append_bytes(body, crlf.as_slice());
        if let Some(c) = &self.content_type {
            append_bytes(body, literal("Content-Type: ").as_slice());
            append_bytes(body, string_bytes(c).as_slice());
            append_bytes(body, crlf.as_slice());
        }
        append_bytes(body, crlf.as_slice());
        append_bytes(body, self.data.as_slice());
        append_bytes(body, crlf.as_slice());
        assert(final(body)@ =~= old(body)@ + part_bytes(boundary@, self@));
    }
}

/// A multipart body under construction.
pub struct Multipart {
    boundary: Option<String>,
    parts: Vec<MultipartPart>,
}

pub struct MultipartView {
    pub boundary: Option<Seq<char>>,
    pub parts: Seq<PartView>,
}

impl View for Multipart {
    type V = MultipartView;

    closed spec fn view(&self) -> MultipartView {
        MultipartView { boundary: opt_chars(self.boundary), parts: parts_view(self.parts@) }
    }
}

/// The text of `n` in lowercase hexadecimal digits.
pub open spec fn hex_digits(n: nat) -> Seq<char>
    decreases n,
{
    let d = n % 16;
    let c = if d < 10 {
        (48 + d) as char
    } else {
        (87 + d) as char
    };
    if n < 16 {
        seq![c]
    } else {
        hex_digits(n / 16).push(c)
    }
}

/// Relies on `format!` with `{:#x}`: `0x` followed by the lowercase hexadecimal digits.
#[verifier::external_body]
fn hex_text(n: u128) -> (r: String)
    ensures
        r@ == "0x"@ + hex_digits(n as nat),
{
    format!("{:#x}", n)
}

/// Relies on `SystemTime::now`: microseconds since the Unix epoch, or zero
/// for a clock set before it.
#[verifier::external_body]
fn monotonic_suffix() -> (r: u128) {
    std::time::SystemTime::now()
        .duration_since(std::time::UNIX_EPOCH)
        .map_or(0, |d| d.as_micros())
}

/// A boundary derived from the current time: `zenwave-0x` and hexadecimal digits.
pub fn default_boundary() -> (r: String)
    ensures
        exists|n: nat| r@ == "zenwave-"@ + "0x"@ + hex_digits(n),
{
    let n = monotonic_suffix();
    let mut s = "zenwave-".to_owned();
    let h = hex_text(n);
    s.append(h.as_str());
    assert(s@ =~= "zenwave-"@ + "0x"@ + hex_digits(n as nat));
    s
}

impl Multipart {
    /// An empty body with a generated boundary.
    pub fn new() -> (r: Multipart)
        ensures
            r@.boundary is None,
            r@.parts.len() == 0,
    {
        let r = Multipart { boundary: None, parts: Vec::new() };
        assert(r@.parts =~= Seq::<PartView>::empty());
        r
    }

    /// Uses `boundary` instead of a generated one.
    pub fn boundary(self, boundary: String) -> (r: Multipart)
        ensures
            r@ == (MultipartView { boundary: Some(boundary@), ..self@ }),
    {
        Multipart { boundary: Some(boundary), ..self }
    }

    /// Adds a part at the end.
    pub fn with_part(self, part: MultipartPart) -> (r: Multipart)
        ensures
            r@ == (MultipartView { parts: self@.parts.push(part@), ..self@ }),
    {
        let mut s = self;
        s.push(part);
        s
    }

    /// Adds a part at the end.
    pub fn push(&mut self, part: MultipartPart)
        ensures
            final(self)@ == (MultipartView { parts: old(self)@.parts.push(part@), ..old(self)@ }),
    {
        self.parts.push(part);
        assert(parts_view(self.parts@) =~= parts_view(old(self).parts@).push(part@));
    }

    /// The boundary and the encoded body.
    pub fn encode(self) -> (r: (String, Vec<u8>))
        ensures
            r.1@ == multipart_body(utf8(r.0@), self@.parts),
            self@.boundary matches Some(b) ==> r.0@ == b,
            self@.boundary is None ==> exists|n: nat| r.0@ == "zenwave-"@ + "0x"@ + hex_digits(n),
    {
        encode_with(self.boundary, self.parts)
    }
}

/// Encodes parts under a generated boundary.
pub fn encode(parts: Vec<MultipartPart>) -> (r: (String, Vec<u8>))
    ensures
        r.1@ == multipart_body(utf8(r.0@), parts_view(parts@)),
        exists|n: nat| r.0@ == "zenwave-"@ + "0x"@ + hex_digits(n),
{
    encode_with(None, parts)
}

/// Encodes parts under `boundary`, or a generated one.
pub fn encode_with(boundary: Option<String>, parts: Vec<MultipartPart>) -> (r: (String, Vec<u8>))
    ensures
        r.1@ == multipart_body(utf8(r.0@), parts_view(parts@)),
        boundary matches Some(b) ==> r.0@ == b@,
        boundary is None ==> exists|n: nat| r.0@ == "zenwave-"@ + "0x"@ + hex_digits(n),
{
    proof {
        reveal_strlit("--");
        reveal_strlit("--\r\n");
    }
    let boundary = match boundary {
        Some(b) => b,
        None => default_boundary(),
    };
    let b = string_bytes(&boundary);
    let mut body: Vec<u8> = Vec::new();
    let mut i: usize = 0;
    assert(parts_view(parts@).take(0) =~= Seq::<PartView>::empty());
    while i < parts.len()
        invariant
            i <= parts@.len(),
            b@ == utf8(boundary@),
            body@ == parts_bytes(b@, parts_view(parts@).take(i as int)),
        decreases parts@.len() - i,
    {
        assert(parts_view(parts@).take(i + 1).drop_last() =~= parts_view(parts@).take(i as int));
        parts[i].write_to(b.as_slice(), &mut body);
        i = i + 1;
    }
    assert(parts_view(parts@).take(i as int) =~= parts_view(parts@));
    append_bytes(&mut body, literal("--").as_slice());
    append_bytes(&mut body, b.as_slice());
    append_bytes(&mut body, literal("--\r\n").as_slice());
    assert(body@ =~= multipart_body(b@, parts_view(parts@)));
    (boundary, body)
}

} // verus!
