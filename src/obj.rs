//! The integer side of reading a text mesh: what kind of record a line holds,
//! the whitespace-separated fields after its one-letter tag, and the vertex
//! numbers of a face record.
use vstd::prelude::*;

verus! {

/// The characters of `s`, in order.
pub fn chars_of(s: &str) -> (r: Vec<char>)
    ensures
        r@ == s@,
{
    let mut r: Vec<char> = Vec::new();
    for c in it: s.chars()
        invariant
            it.seq() == s@,
            r@ == s@.take(it.index() as int),
    {
        r.push(c);
    }
    r
}

/// White space as `char::is_whitespace` has it: the Unicode `White_Space`
/// property.
pub open spec fn is_space(c: char) -> bool {
    let u = c as u32;
    ||| 0x09 <= u <= 0x0d
    ||| u == 0x20
    ||| u == 0x85
    ||| u == 0xa0
    ||| u == 0x1680
    ||| 0x2000 <= u <= 0x200a
    ||| u == 0x2028
    ||| u == 0x2029
    ||| u == 0x202f
    ||| u == 0x205f
    ||| u == 0x3000
}

/// Whether `c` is white space.
pub fn space(c: char) -> (r: bool)
    ensures
        r == is_space(c),
{
    let u = c as u32;
    (0x09 <= u && u <= 0x0d) || u == 0x20 || u == 0x85 || u == 0xa0 || u == 0x1680 || (0x2000
        <= u && u <= 0x200a) || u == 0x2028 || u == 0x2029 || u == 0x202f || u == 0x205f || u
        == 0x3000
}

/// The maximal runs of characters other than white space in `s`, in order.
pub open spec fn fields(s: Seq<char>) -> Seq<Seq<char>>
    decreases s.len(),
{
    if s.len() == 0 {
        seq![]
    } else {
        let before = fields(s.drop_last());
        let c = s.last();
        if is_space(c) {
            before
        } else if s.len() >= 2 && !is_space(s[s.len() - 2]) {
            before.update(before.len() - 1, before.last().push(c))
        } else {
            before.push(seq![c])
        }
    }
}

/// A line less its first character, the record's tag.
pub open spec fn body(line: Seq<char>) -> Seq<char> {
    if line.len() == 0 {
        line
    } else {
        line.drop_first()
    }
}

/// The views of a list of character lists.
pub open spec fn views(v: Seq<Vec<char>>) -> Seq<Seq<char>> {
    v.map_values(|t: Vec<char>| t@)
}

/// The whitespace-separated fields of a record line after its tag.
pub fn tokens(line: &str) -> (r: Vec<Vec<char>>)
    ensures
        views(r@) == fields(body(line@)),
{
    let cs = chars_of(line);
    let mut out: Vec<Vec<char>> = Vec::new();
    let mut cur: Vec<char> = Vec::new();
    if cs.len() == 0 {
        assert(views(out@) =~= fields(body(line@)));
        return out;
    }
    let ghost b = body(line@);
    let mut i: usize = 1;
    while i < cs.len()
        invariant
            cs@ == line@,
            cs.len() > 0,
            b == cs@.drop_first(),
            1 <= i <= cs.len(),
            cur.len() == 0 ==> views(out@) == fields(b.take(i - 1)),
            cur.len() > 0 ==> views(out@).push(cur@) == fields(b.take(i - 1)),
            cur.len() > 0 <==> (i > 1 && !is_space(b[i - 2])),
        decreases cs.len() - i,
    {
        let c = cs[i];
        let ghost s = b.take(i - 1);
        let ghost t = b.take(i as int);
        assert(t.drop_last() =~= s);
        assert(t.last() == c);
        let ghost out0 = views(out@);
        let ghost cur0 = cur@;
        if space(c) {
            if cur.len() > 0 {
                out.push(cur);
                cur = Vec::new();
                assert(views(out@) =~= out0.push(cur0));
            }
        } else {
            cur.push(c);
            if cur.len() > 1 {
                assert(t[t.len() - 2] == b[i - 2]);
                assert(views(out@).push(cur@) =~= fields(t));
            } else {
                assert(i > 1 ==> t[t.len() - 2] == b[i - 2]);
                assert(cur@ =~= seq![c]);
                assert(views(out@).push(cur@) =~= fields(t));
            }
        }
        i = i + 1;
    }
    assert(b.take(cs.len() - 1) =~= b);
    if cur.len() > 0 {
        let ghost out0 = views(out@);
        let ghost cur0 = cur@;
        out.push(cur);
        assert(views(out@) =~= out0.push(cur0));
    }
    out
}

/// A decimal digit.
pub open spec fn is_digit(c: char) -> bool {
    '0' <= c <= '9'
}

/// The number that the digits `d` write, most significant first.
pub open spec fn digits_value(d: Seq<char>) -> nat
    decreases d.len(),
{
    if d.len() == 0 {
        0
    } else {
        digits_value(d.drop_last()) * 10 + (d.last() as nat - '0' as nat) as nat
    }
}

/// The digits of a field written as an unsigned number: an optional `+`, then
/// at least one digit.
pub open spec fn digits_part(t: Seq<char>) -> Seq<char> {
    if t.len() > 0 && t[0] == '+' {
        t.drop_first()
    } else {
        t
    }
}

/// The field reads as a `usize`, as `usize::from_str` reads one: an optional
/// `+`, at least one decimal digit, and a value within the type.
pub open spec fn index_value(t: Seq<char>) -> Option<usize> {
    let d = digits_part(t);
    if d.len() > 0 && (forall|k: int| 0 <= k < d.len() ==> is_digit(#[trigger] d[k]))
        && digits_value(d) <= usize::MAX {
        Some(digits_value(d) as usize)
    } else {
        None
    }
}

proof fn lemma_digits_grow(d: Seq<char>, n: int)
    requires
        0 <= n <= d.len(),
        forall|k: int| 0 <= k < d.len() ==> is_digit(#[trigger] d[k]),
    ensures
        digits_value(d.take(n)) <= digits_value(d),
    decreases d.len() - n,
{
    if n < d.len() {
        lemma_digits_grow(d, n + 1);
        assert(d.take(n + 1).drop_last() =~= d.take(n));
    } else {
        assert(d.take(n) =~= d);
    }
}

/// Reads one field as a vertex number.
pub fn read_index(t: &Vec<char>) -> (r: Option<usize>)
    ensures
        r == index_value(t@),
{
    let mut i: usize = 0;
    if t.len() > 0 && t[0] == '+' {
        i = 1;
    }
    let ghost d = digits_part(t@);
    assert(d =~= t@.skip(i as int));
    if i >= t.len() {
        return None;
    }
    let ghost off: int = t.len() - d.len();
    let mut value: usize = 0;
    while i < t.len()
        invariant
            d == t@.skip(off),
            d == digits_part(t@),
            0 <= off <= i <= t.len(),
            d.len() > 0,
            forall|k: int| 0 <= k < i - off ==> is_digit(#[trigger] d[k]),
            value == digits_value(d.take(i - off)),
        decreases t.len() - i,
    {
        let ghost j = i - off;
        let c = t[i];
        assert(c == d[j]);
        if c < '0' || c > '9' {
            assert(!is_digit(d[j]));
            return None;
        }
        let digit = (c as u32 - '0' as u32) as usize;
        assert(d.take(j + 1).drop_last() =~= d.take(j));
        assert(digits_value(d.take(j + 1)) == value * 10 + digit);
        if value > (usize::MAX - digit) / 10 {
            proof {
                assert(value * 10 + digit > usize::MAX) by (nonlinear_arith)
                    requires
                        value > (usize::MAX - digit) / 10,
                        digit <= 9,
                ;
                if forall|k: int| 0 <= k < d.len() ==> is_digit(#[trigger] d[k]) {
                    lemma_digits_grow(d, j + 1);
                }
            }
            return None;
        }
        assert(value * 10 + digit <= usize::MAX) by (nonlinear_arith)
            requires
                value <= (usize::MAX - digit) / 10,
                digit <= 9,
        ;
        value = value * 10 + digit;
        i = i + 1;
    }
    assert(d.take(d.len() as int) =~= d);
    Some(value)
}

/// Every field reads as a vertex number.
pub open spec fn all_indices(f: Seq<Seq<char>>) -> bool {
    forall|k: int| 0 <= k < f.len() ==> (#[trigger] index_value(f[k])) is Some
}

/// Reads every field of a record line after its tag as a vertex number:
/// `None` when one of them does not read.
pub fn parse(line: &str) -> (r: Option<Vec<usize>>)
    ensures
        r is Some <==> all_indices(fields(body(line@))),
        r matches Some(v) ==> {
            &&& v.len() == fields(body(line@)).len()
            &&& forall|k: int|
                0 <= k < v.len() ==> Some(#[trigger] v[k]) == index_value(fields(body(line@))[k])
        },
{
    let toks = tokens(line);
    let ghost f = fields(body(line@));
    let mut v: Vec<usize> = Vec::with_capacity(toks.len());
    let mut i: usize = 0;
    while i < toks.len()
        invariant
            f == fields(body(line@)),
            views(toks@) == f,
            i <= toks.len(),
            v.len() == i,
            forall|k: int| 0 <= k < i ==> Some(#[trigger] v[k]) == index_value(f[k]),
        decreases toks.len() - i,
    {
        assert(f[i as int] == toks@[i as int]@);
        match read_index(&toks[i]) {
            Some(n) => v.push(n),
            None => {
                assert(index_value(f[i as int]) is None);
                return None;
            },
        }
        i = i + 1;
    }
    assert(f.len() == toks.len());
    assert forall|k: int| 0 <= k < f.len() implies (#[trigger] index_value(f[k])) is Some by {
        assert(Some(v[k]) == index_value(f[k]));
    }
    Some(v)
}

/// What a line of a text mesh holds, by its first character.
#[derive(Clone, Copy, Debug, PartialEq, Eq, Structural)]
pub enum Record {
    /// A vertex position: the line starts with `v`.
    Vertex,
    /// A triangle: the line starts with `f`.
    Face,
    /// Anything else, which the reader skips.
    Other,
}

/// The kind of record a line holds.
pub open spec fn record_of(line: Seq<char>) -> Record {
    if line.len() > 0 && line[0] == 'v' {
        Record::Vertex
    } else if line.len() > 0 && line[0] == 'f' {
        Record::Face
    } else {
        Record::Other
    }
}

/// Tells what kind of record a line holds.
pub fn record(line: &str) -> (r: Record)
    ensures
        r == record_of(line@),
{
    let cs = chars_of(line);
    if cs.len() > 0 && cs[0] == 'v' {
        Record::Vertex
    } else if cs.len() > 0 && cs[0] == 'f' {
        Record::Face
    } else {
        Record::Other
    }
}

/// Why a face record cannot be read.
#[derive(Clone, Copy, Debug, PartialEq, Eq, Structural)]
pub enum MeshError {
    /// A field is not an unsigned decimal number that fits a `usize`.
    BadNumber,
    /// The record names this many vertices, not three.
    NotATriangle(usize),
    /// A vertex number (counted from 1) names no vertex read so far.
    NoSuchVertex(usize),
}

/// A vertex number, counted from 1, names one of `vertex_count` vertices.
pub open spec fn names_vertex(n: usize, vertex_count: usize) -> bool {
    1 <= n <= vertex_count
}

/// The triangle a face record names, as positions (counted from 0) in the
/// list of the `vertex_count` vertices read before it; or why it names none.
/// Its vertex numbers are checked in order.
pub open spec fn face_of(line: Seq<char>, vertex_count: usize) -> Result<
    (usize, usize, usize),
    MeshError,
> {
    let f = fields(body(line));
    if !all_indices(f) {
        Err(MeshError::BadNumber)
    } else if f.len() != 3 {
        Err(MeshError::NotATriangle(f.len() as usize))
    } else {
        let a = index_value(f[0])->0;
        let b = index_value(f[1])->0;
        let c = index_value(f[2])->0;
        if !names_vertex(a, vertex_count) {
            Err(MeshError::NoSuchVertex(a))
        } else if !names_vertex(b, vertex_count) {
            Err(MeshError::NoSuchVertex(b))
        } else if !names_vertex(c, vertex_count) {
            Err(MeshError::NoSuchVertex(c))
        } else {
            Ok(((a - 1) as usize, (b - 1) as usize, (c - 1) as usize))
        }
    }
}

/// Reads a face record: its three vertex numbers, turned into positions in
/// the list of the `vertex_count` vertices read so far.
pub fn face(line: &str, vertex_count: usize) -> (r: Result<(usize, usize, usize), MeshError>)
    ensures
        r == face_of(line@, vertex_count),
{
    let v = match parse(line) {
        Some(v) => v,
        None => return Err(MeshError::BadNumber),
    };
    if v.len() != 3 {
        return Err(MeshError::NotATriangle(v.len()));
    }
    let (a, b, c) = (v[0], v[1], v[2]);
    if a < 1 || a > vertex_count {
        return Err(MeshError::NoSuchVertex(a));
    }
    if b < 1 || b > vertex_count {
        return Err(MeshError::NoSuchVertex(b));
    }
    if c < 1 || c > vertex_count {
        return Err(MeshError::NoSuchVertex(c));
    }
    Ok((a - 1, b - 1, c - 1))
}

} // verus!
