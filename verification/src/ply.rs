//! The layout of a minimal ASCII mesh file: a header of twelve lines that
//! names the number of vertices on its fourth line and the number of faces
//! on its tenth, then one line per vertex, then one line per triangle.
use vstd::prelude::*;
use vstd::string::StringSliceAdditionalSpecFns;
use crate::text::{find_byte, lemma_next_byte_bounds, next_byte, parse_unsigned, parse_unsigned_spec};

verus! {

pub const NEWLINE: u8 = 10;

pub const CARRIAGE_RETURN: u8 = 13;

pub const SPACE: u8 = 32;

/// The line of the header that names the number of vertices, counted from 0.
pub const VERTEX_COUNT_LINE: usize = 3;

/// The line of the header that names the number of faces, counted from 0.
pub const FACE_COUNT_LINE: usize = 9;

/// The field of those lines that holds the number, counted from 0.
pub const COUNT_FIELD: usize = 2;

/// The number of lines of the header.
pub const HEADER_LINES: usize = 12;

/// A stretch of the text, by the places of its first byte and of the byte
/// after its last.
#[derive(Clone, Copy, Debug, PartialEq, Eq, Structural)]
pub struct TextRange {
    pub start: usize,
    pub end: usize,
}

/// What the text of a mesh holds: the two counts of the header, for every
/// vertex where its three coordinates are written, and the vertices of the
/// triangles, three for each.
#[derive(Debug)]
pub struct PlyText {
    pub vertex_count: usize,
    pub face_count: usize,
    pub coordinates: Vec<(TextRange, TextRange, TextRange)>,
    pub indices: Vec<usize>,
}

/// Why a text is no mesh.
#[derive(Clone, Copy, Debug, PartialEq, Eq, Structural)]
pub enum PlyError {
    /// A count of the header is missing or is no number.
    BadHeader,
    /// The line of a vertex has fewer than three fields.
    BadVertex { line: usize },
    /// The line of a face does not name three vertices.
    BadFace { line: usize },
}

/// Where line `n` starts. The text has a line `n` where this is within the
/// text: a line break at the very end of the text starts no further line.
pub open spec fn line_start(s: Seq<u8>, n: nat) -> int
    decreases n,
{
    if n == 0 {
        0
    } else {
        let prev = line_start(s, (n - 1) as nat);
        if prev >= s.len() {
            s.len() as int
        } else {
            next_byte(s, prev, NEWLINE) + 1
        }
    }
}

pub open spec fn has_line(s: Seq<u8>, n: nat) -> bool {
    line_start(s, n) < s.len()
}

/// Where the line that starts at `start` ends: before its line break, and
/// before the carriage return that may precede the line break.
pub open spec fn line_end(s: Seq<u8>, start: int) -> int {
    let e = next_byte(s, start, NEWLINE);
    if e < s.len() && start < e && s[e - 1] == CARRIAGE_RETURN {
        e - 1
    } else {
        e
    }
}

/// The end of the field that starts at `from` in a line that ends at `b`:
/// the next space, or the end of the line.
pub open spec fn field_end(s: Seq<u8>, from: int, b: int) -> int {
    let e = next_byte(s, from, SPACE);
    if e < b {
        e
    } else {
        b
    }
}

/// Where field `k` of the line `[a, b)` starts, the fields being what
/// single spaces separate. The line has a field `k` where this is not
/// beyond the end of the line.
pub open spec fn field_start(s: Seq<u8>, a: int, b: int, k: nat) -> int
    decreases k,
{
    if k == 0 {
        a
    } else {
        let prev = field_start(s, a, b, (k - 1) as nat);
        if prev > b {
            prev
        } else {
            field_end(s, prev, b) + 1
        }
    }
}

/// Field `k` of line `n`, if the text has it.
pub open spec fn field_of_line(s: Seq<u8>, n: nat, k: nat) -> Option<TextRange> {
    let a = line_start(s, n);
    let b = line_end(s, a);
    let x = field_start(s, a, b, k);
    if has_line(s, n) && x <= b {
        Some(TextRange { start: x as usize, end: field_end(s, x, b) as usize })
    } else {
        None
    }
}

/// The number that field `k` of line `n` writes.
pub open spec fn number_at(s: Seq<u8>, n: nat, k: nat) -> Option<usize> {
    match field_of_line(s, n, k) {
        Some(range) => match parse_unsigned_spec(
            s.subrange(range.start as int, range.end as int),
            usize::MAX as u64,
        ) {
            Some(v) => Some(v as usize),
            None => None,
        },
        None => None,
    }
}

/// Where the three coordinates of the vertex on line `n` are written: its
/// first three fields.
pub open spec fn vertex_at(s: Seq<u8>, n: nat) -> Option<(TextRange, TextRange, TextRange)> {
    match (field_of_line(s, n, 0), field_of_line(s, n, 1), field_of_line(s, n, 2)) {
        (Some(x), Some(y), Some(z)) => Some((x, y, z)),
        _ => None,
    }
}

/// The three vertices that the face on line `n` names: its second to fourth
/// field.
pub open spec fn face_at(s: Seq<u8>, n: nat) -> Option<(usize, usize, usize)> {
    match (number_at(s, n, 1), number_at(s, n, 2), number_at(s, n, 3)) {
        (Some(a), Some(b), Some(c)) => Some((a, b, c)),
        _ => None,
    }
}

/// The two counts of the header.
pub open spec fn header(s: Seq<u8>) -> Option<(usize, usize)> {
    match (
        number_at(s, VERTEX_COUNT_LINE as nat, COUNT_FIELD as nat),
        number_at(s, FACE_COUNT_LINE as nat, COUNT_FIELD as nat),
    ) {
        (Some(v), Some(f)) => Some((v, f)),
        _ => None,
    }
}

/// The number of vertices that the header names.
pub open spec fn vertices_named(s: Seq<u8>) -> nat {
    match header(s) {
        Some((v, _)) => v as nat,
        None => 0,
    }
}

/// The text is the mesh `d`: its header names the counts; the lines after
/// the header, as many as there are vertices or as the text has, hold the
/// coordinates; every line after them is a face, and no line is left.
pub open spec fn is_mesh(s: Seq<u8>, d: PlyText) -> bool {
    let vertices = d.coordinates@.len() as nat;
    let faces = (d.indices@.len() / 3) as nat;
    &&& header(s) == Some((d.vertex_count, d.face_count))
    &&& vertices <= d.vertex_count
    &&& vertices < d.vertex_count ==> !has_line(s, HEADER_LINES as nat + vertices)
    &&& forall|i: int|
        0 <= i < vertices ==> vertex_at(s, (HEADER_LINES + i) as nat) == Some(
            #[trigger] d.coordinates@[i],
        )
    &&& d.indices@.len() == 3 * faces
    &&& forall|j: int|
        0 <= j < faces ==> #[trigger] face_at(s, (HEADER_LINES + vertices + j) as nat) == Some(
            (d.indices@[3 * j], d.indices@[3 * j + 1], d.indices@[3 * j + 2]),
        )
    &&& !has_line(s, HEADER_LINES as nat + vertices + faces)
}

/// The text is no mesh for the reason `e`: a count is missing; or the
/// header is sound and `line` is the first line after it that is not what
/// its place asks for.
pub open spec fn is_no_mesh(s: Seq<u8>, e: PlyError) -> bool {
    match e {
        PlyError::BadHeader => header(s) is None,
        PlyError::BadVertex { line } => {
            &&& header(s) is Some
            &&& HEADER_LINES <= line < HEADER_LINES + vertices_named(s)
            &&& has_line(s, line as nat)
            &&& vertex_at(s, line as nat) is None
            &&& forall|i: int| HEADER_LINES <= i < line ==> #[trigger] vertex_at(s, i as nat) is Some
        },
        PlyError::BadFace { line } => {
            &&& header(s) is Some
            &&& HEADER_LINES + vertices_named(s) <= line
            &&& has_line(s, line as nat)
            &&& face_at(s, line as nat) is None
            &&& forall|i: int|
                HEADER_LINES <= i < HEADER_LINES + vertices_named(s) ==> #[trigger] vertex_at(
                    s,
                    i as nat,
                ) is Some
            &&& forall|j: int|
                HEADER_LINES + vertices_named(s) <= j < line ==> #[trigger] face_at(s, j as nat) is Some
        },
    }
}

/// A line starts no earlier than as many bytes into the text as lines
/// precede it, and once the text has no line it has no later line.
pub proof fn lemma_line_start_bounds(s: Seq<u8>, n: nat)
    ensures
        line_start(s, n) >= 0,
        has_line(s, n) ==> n <= line_start(s, n),
        !has_line(s, n) ==> !has_line(s, n + 1),
        n > 0 && has_line(s, n) ==> has_line(s, (n - 1) as nat),
    decreases n,
{
    if n > 0 {
        lemma_line_start_bounds(s, (n - 1) as nat);
        let prev = line_start(s, (n - 1) as nat);
        if prev < s.len() {
            lemma_next_byte_bounds(s, prev, NEWLINE);
        }
    }
}

/// Where the line that starts at `a` ends, and where its line break is (the
/// end of the text where it has none).
fn line_at(bytes: &[u8], a: usize) -> (r: (usize, usize))
    requires
        a < bytes@.len(),
    ensures
        r.0 == line_end(bytes@, a as int),
        r.1 == next_byte(bytes@, a as int, NEWLINE),
        a <= r.0 <= r.1 <= bytes@.len(),
{
    let e: usize = find_byte(bytes, a, NEWLINE);
    proof {
        lemma_next_byte_bounds(bytes@, a as int, NEWLINE);
    }
    let end: usize = if e < bytes.len() && a < e && bytes[e - 1] == CARRIAGE_RETURN {
        e - 1
    } else {
        e
    };
    (end, e)
}

/// Where line `n` starts, if the text has it.
fn start_of_line(bytes: &[u8], n: usize) -> (r: Option<usize>)
    ensures
        r matches Some(a) ==> a == line_start(bytes@, n as nat) && has_line(bytes@, n as nat),
        r is None ==> !has_line(bytes@, n as nat),
{
    let mut pos: usize = 0;
    let mut i: usize = 0;
    while i < n
        invariant
            i <= n,
            pos == line_start(bytes@, i as nat),
            pos <= bytes@.len(),
        decreases n - i,
    {
        if pos >= bytes.len() {
            proof {
                lemma_no_later_line(bytes@, i as nat, n as nat);
            }
            return None;
        }
        let (_end, line_break) = line_at(bytes, pos);
        if line_break >= bytes.len() {
            proof {
                assert(line_start(bytes@, (i + 1) as nat) == line_break + 1);
                lemma_no_later_line(bytes@, (i + 1) as nat, n as nat);
            }
            return None;
        }
        pos = line_break + 1;
        i += 1;
    }
    if pos < bytes.len() {
        Some(pos)
    } else {
        None
    }
}

/// Once the text has no line it has no later line.
pub proof fn lemma_no_later_line(s: Seq<u8>, n: nat, m: nat)
    requires
        n <= m,
        !has_line(s, n),
    ensures
        !has_line(s, m),
    decreases m - n,
{
    if n < m {
        lemma_line_start_bounds(s, n);
        lemma_no_later_line(s, n + 1, m);
    }
}

/// Field `k` of the line `[a, b)`.
fn field(bytes: &[u8], a: usize, b: usize, k: usize) -> (r: Option<TextRange>)
    requires
        a <= b <= bytes@.len(),
    ensures
        r matches Some(range) ==> range.start == field_start(bytes@, a as int, b as int, k as nat)
            && range.start <= b && range.end == field_end(
            bytes@,
            range.start as int,
            b as int,
        ) && range.start <= range.end <= b,
        r is None ==> field_start(bytes@, a as int, b as int, k as nat) > b,
{
    let mut pos: usize = a;
    let mut i: usize = 0;
    while i < k
        invariant
            i <= k,
            a <= pos <= b <= bytes@.len(),
            pos == field_start(bytes@, a as int, b as int, i as nat),
        decreases k - i,
    {
        let e: usize = find_byte(bytes, pos, SPACE);
        if e >= b {
            proof {
                assert(field_start(bytes@, a as int, b as int, (i + 1) as nat) == b + 1);
                lemma_no_later_field(bytes@, a as int, b as int, (i + 1) as nat, k as nat);
            }
            return None;
        }
        pos = e + 1;
        i += 1;
    }
    let e: usize = find_byte(bytes, pos, SPACE);
    let end: usize = if e < b {
        e
    } else {
        b
    };
    Some(TextRange { start: pos, end })
}

/// Once a line has no field it has no later field.
pub proof fn lemma_no_later_field(s: Seq<u8>, a: int, b: int, k: nat, m: nat)
    requires
        k <= m,
        field_start(s, a, b, k) > b,
    ensures
        field_start(s, a, b, m) > b,
    decreases m - k,
{
    if k < m {
        lemma_no_later_field(s, a, b, k + 1, m);
    }
}

/// The number that field `k` of the line that starts at `a` writes.
fn number(bytes: &[u8], a: usize, k: usize) -> (r: Option<usize>)
    requires
        a < bytes@.len(),
    ensures
        forall|n: nat|
            a == line_start(bytes@, n) ==> r == #[trigger] number_at(bytes@, n, k as nat),
{
    let (b, _next) = line_at(bytes, a);
    match field(bytes, a, b, k) {
        Some(range) => match parse_unsigned(bytes, range.start, range.end, usize::MAX as u64) {
            Some(v) => Some(v as usize),
            None => None,
        },
        None => None,
    }
}

/// Reads the layout of a mesh from its text.
pub fn read_ply(text: &str) -> (r: Result<PlyText, PlyError>)
    ensures
        match r {
            Ok(d) => is_mesh(text.spec_bytes(), d),
            Err(e) => is_no_mesh(text.spec_bytes(), e),
        },
{
    let bytes = text.as_bytes();
    let ghost s = bytes@;
    // The two counts of the header
    let vertex_count: usize = match start_of_line(bytes, VERTEX_COUNT_LINE) {
        Some(a) => match number(bytes, a, COUNT_FIELD) {
            Some(v) => v,
            None => {
                return Err(PlyError::BadHeader);
            },
        },
        None => {
            return Err(PlyError::BadHeader);
        },
    };
    let face_count: usize = match start_of_line(bytes, FACE_COUNT_LINE) {
        Some(a) => match number(bytes, a, COUNT_FIELD) {
            Some(v) => v,
            None => {
                return Err(PlyError::BadHeader);
            },
        },
        None => {
            return Err(PlyError::BadHeader);
        },
    };
    assert(header(s) == Some((vertex_count, face_count)));
    let mut coordinates: Vec<(TextRange, TextRange, TextRange)> = Vec::new();
    let mut indices: Vec<usize> = Vec::new();
    let mut pos: usize = match start_of_line(bytes, HEADER_LINES) {
        Some(a) => a,
        None => {
            let d = PlyText { vertex_count, face_count, coordinates, indices };
            proof {
                lemma_line_start_bounds(s, HEADER_LINES as nat);
            }
            return Ok(d);
        },
    };
    proof {
        lemma_line_start_bounds(s, HEADER_LINES as nat);
    }
    // One line for every vertex, as far as the text has them
    let mut line: usize = HEADER_LINES;
    let mut more: bool = true;
    while more && coordinates.len() < vertex_count
        invariant
            s == bytes@,
            s == text.spec_bytes(),
            header(s) == Some((vertex_count, face_count)),
            indices@.len() == 0,
            line == HEADER_LINES + coordinates@.len(),
            coordinates@.len() <= vertex_count,
            more ==> pos == line_start(s, line as nat) && has_line(s, line as nat),
            !more ==> !has_line(s, line as nat),
            line <= pos || !more,
            forall|i: int|
                0 <= i < coordinates@.len() ==> vertex_at(s, (HEADER_LINES + i) as nat) == Some(
                    #[trigger] coordinates@[i],
                ),
        decreases vertex_count - coordinates@.len() + (if more { 1int } else { 0int }),
    {
        proof {
            lemma_line_start_bounds(s, line as nat);
        }
        let (b, line_break) = line_at(bytes, pos);
        let vertex = match (field(bytes, pos, b, 0), field(bytes, pos, b, 1), field(bytes, pos, b, 2)) {
            (Some(x), Some(y), Some(z)) => (x, y, z),
            _ => {
                proof {
                    assert forall|i: int| HEADER_LINES <= i < line implies #[trigger] vertex_at(
                        s,
                        i as nat,
                    ) is Some by {
                        assert(vertex_at(s, (HEADER_LINES + (i - HEADER_LINES)) as nat) == Some(
                            coordinates@[i - HEADER_LINES],
                        ));
                    }
                }
                return Err(PlyError::BadVertex { line });
            },
        };
        assert(vertex_at(s, line as nat) == Some(vertex));
        coordinates.push(vertex);
        assert(line_start(s, (line + 1) as nat) == line_break + 1);
        line += 1;
        if line_break < bytes.len() && line_break + 1 < bytes.len() {
            pos = line_break + 1;
        } else {
            more = false;
        }
    }
    // Every further line is a face
    let ghost vertices = coordinates@.len();
    let size: usize = bytes.len();
    while more
        invariant
            s == bytes@,
            size == s.len(),
            s == text.spec_bytes(),
            header(s) == Some((vertex_count, face_count)),
            vertices == coordinates@.len(),
            vertices <= vertex_count,
            more ==> vertices == vertex_count,
            indices@.len() % 3 == 0,
            line == HEADER_LINES + vertices + indices@.len() / 3,
            more ==> pos == line_start(s, line as nat) && has_line(s, line as nat),
            !more ==> !has_line(s, line as nat),
            line <= pos || !more,
            forall|i: int|
                0 <= i < vertices ==> vertex_at(s, (HEADER_LINES + i) as nat) == Some(
                    #[trigger] coordinates@[i],
                ),
            forall|j: int|
                0 <= j < indices@.len() / 3 ==> #[trigger] face_at(
                    s,
                    (HEADER_LINES + vertices + j) as nat,
                ) == Some((indices@[3 * j], indices@[3 * j + 1], indices@[3 * j + 2])),
        decreases bytes@.len() - pos + (if more { 1int } else { 0int }),
    {
        proof {
            lemma_line_start_bounds(s, line as nat);
        }
        let (_b, line_break) = line_at(bytes, pos);
        let face = match (number(bytes, pos, 1), number(bytes, pos, 2), number(bytes, pos, 3)) {
            (Some(a), Some(b), Some(c)) => (a, b, c),
            _ => {
                proof {
                    assert forall|i: int|
                        HEADER_LINES <= i < HEADER_LINES + vertex_count implies #[trigger] vertex_at(
                        s,
                        i as nat,
                    ) is Some by {
                        assert(vertex_at(s, (HEADER_LINES + (i - HEADER_LINES)) as nat) == Some(
                            coordinates@[i - HEADER_LINES],
                        ));
                    }
                    assert forall|j: int|
                        HEADER_LINES + vertex_count <= j < line implies #[trigger] face_at(
                        s,
                        j as nat,
                    ) is Some by {
                        let k = j - HEADER_LINES - vertices;
                        assert(face_at(s, (HEADER_LINES + vertices + k) as nat) is Some);
                    }
                }
                return Err(PlyError::BadFace { line });
            },
        };
        let ghost before = indices@;
        indices.push(face.0);
        indices.push(face.1);
        indices.push(face.2);
        proof {
            let m = before.len() / 3;
            assert(indices@.len() / 3 == m + 1);
            assert forall|j: int| 0 <= j < indices@.len() / 3 implies #[trigger] face_at(
                s,
                (HEADER_LINES + vertices + j) as nat,
            ) == Some((indices@[3 * j], indices@[3 * j + 1], indices@[3 * j + 2])) by {
                if j < m {
                    assert(indices@[3 * j] == before[3 * j]);
                    assert(indices@[3 * j + 1] == before[3 * j + 1]);
                    assert(indices@[3 * j + 2] == before[3 * j + 2]);
                }
            }
            assert(line_start(s, (line + 1) as nat) == line_break + 1);
        }
        line += 1;
        if line_break < bytes.len() && line_break + 1 < bytes.len() {
            pos = line_break + 1;
        } else {
            more = false;
        }
    }
    Ok(PlyText { vertex_count, face_count, coordinates, indices })
}

} // verus!
