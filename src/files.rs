//! The template store: where records live, how a lookup falls back to the
//! `any` language, and how a record is laid out as bytes.
//!
//! ```text
//! <root>/
//!      - <tool>/
//!               - <platform>-<language>.bc
//! ```
use vstd::prelude::*;

use crate::config::{strings_view, Element, ElementModel, Tool, ToolModel, any_name};

verus! {

#[verifier::external_type_specification]
#[verifier::external_body]
pub struct ExDecodeError(bincode::error::DecodeError);

/// One stored template body and the key it is stored under.
#[derive(Debug, Clone)]
pub struct DevFile {
    pub language: Element,
    pub platform: Element,
    pub tool: Tool,
    pub data: String,
}

/// The mathematical value of a [`DevFile`].
pub struct DevFileModel {
    pub language: ElementModel,
    pub platform: ElementModel,
    pub tool: ToolModel,
    pub data: Seq<char>,
}

impl View for DevFile {
    type V = DevFileModel;

    open spec fn view(&self) -> DevFileModel {
        DevFileModel {
            language: self.language@,
            platform: self.platform@,
            tool: self.tool@,
            data: self.data@,
        }
    }
}

/// Why the store could not hand back a record.
#[derive(Debug, Clone)]
pub enum StoreError {
    /// Neither the exact key nor its `any`-language fallback holds a record.
    NoMatchingTemplate { tool: String, platform: String, language: String },
    /// The stored bytes are not the layout of a record.
    CorruptRecord,
}

/// The bytes that bincode's standard configuration writes for a string.
pub uninterp spec fn bincode_text(s: Seq<char>) -> Seq<u8>;

/// The little-endian value of the first `k` bytes of `b`.
pub open spec fn le_value(b: Seq<u8>, k: nat) -> nat
    decreases k,
{
    if k == 0 || b.len() == 0 {
        0
    } else {
        b[0] as nat + 256 * le_value(b.drop_first(), (k - 1) as nat)
    }
}

/// The `k` little-endian bytes of `n`.
pub open spec fn le_bytes(n: nat, k: nat) -> Seq<u8>
    decreases k,
{
    if k == 0 {
        Seq::empty()
    } else {
        seq![(n % 256) as u8] + le_bytes(n / 256, (k - 1) as nat)
    }
}

/// bincode's variable-length encoding of an unsigned integer: one byte up to
/// 250, else a marker (251, 252, 253) and 2, 4 or 8 little-endian bytes.
pub open spec fn varint(n: u64) -> Seq<u8> {
    if n <= 250 {
        seq![n as u8]
    } else if n <= 0xFFFF {
        seq![251u8] + le_bytes(n as nat, 2)
    } else if n <= 0xFFFF_FFFF {
        seq![252u8] + le_bytes(n as nat, 4)
    } else {
        seq![253u8] + le_bytes(n as nat, 8)
    }
}

/// What bincode reads as an unsigned integer at the head of `b`: the value
/// and the count of bytes it takes; `None` where the head is no such number.
pub open spec fn varint_read(b: Seq<u8>) -> Option<(u64, nat)> {
    if b.len() == 0 {
        None
    } else if b[0] <= 250 {
        Some((b[0] as u64, 1))
    } else if b[0] == 251 && b.len() >= 3 {
        Some((le_value(b.drop_first(), 2) as u64, 3))
    } else if b[0] == 252 && b.len() >= 5 {
        Some((le_value(b.drop_first(), 4) as u64, 5))
    } else if b[0] == 253 && b.len() >= 9 {
        Some((le_value(b.drop_first(), 8) as u64, 9))
    } else {
        None
    }
}

/// The bytes of `b` from `pos` on.
pub open spec fn tail(b: Seq<u8>, pos: int) -> Seq<u8> {
    b.subrange(pos, b.len() as int)
}

/// Relies on `bincode::encode_to_vec` with `config::standard()`: an integer
/// is written in the variable-length form to a growing vector, which cannot
/// fail.
#[verifier::external_body]
fn encode_u64(n: u64) -> (r: Vec<u8>)
    ensures
        r@ == varint(n),
{
    bincode::encode_to_vec(n, bincode::config::standard()).unwrap_or_default()
}

/// Relies on `bincode::encode_to_vec` with `config::standard()`: a string is
/// written to a growing vector, which cannot fail.
#[verifier::external_body]
fn encode_text(s: &String) -> (r: Vec<u8>)
    ensures
        r@ == bincode_text(s@),
{
    bincode::encode_to_vec(s, bincode::config::standard()).unwrap_or_default()
}

/// Relies on `bincode::decode_from_slice::<u64, _>` with `config::standard()`:
/// it reads the variable-length integer at the head of the slice, without
/// allocating. A string's encoding starts with its byte count in that form,
/// so the count and its width add up to the encoding's length.
#[verifier::external_body]
fn decode_u64(bytes: &Vec<u8>, start: usize) -> (r: Result<(u64, usize), bincode::error::DecodeError>)
    requires
        start <= bytes@.len(),
    ensures
        r is Ok <==> varint_read(tail(bytes@, start as int)) is Some,
        r is Ok ==> varint_read(tail(bytes@, start as int)) == Some((r->Ok_0.0, r->Ok_0.1 as nat)),
        forall|v: u64|
            #[trigger] varint(v).is_prefix_of(tail(bytes@, start as int)) ==> (r is Ok && r->Ok_0.0
                == v && r->Ok_0.1 == varint(v).len()),
        forall|s: Seq<char>|
            #[trigger] bincode_text(s).is_prefix_of(tail(bytes@, start as int)) ==> (r is Ok
                && r->Ok_0.0 + r->Ok_0.1 == bincode_text(s).len()),
{
    bincode::decode_from_slice(&bytes[start..], bincode::config::standard())
}

/// Relies on `bincode::decode_from_slice::<String, _>` with
/// `config::standard()`: a string's encoding at the head of the slice decodes
/// to that string, and the count of bytes read is never more than the slice.
/// The byte count at the head is allocated before it is read, so it must fit
/// in what is left.
#[verifier::external_body]
fn decode_text(bytes: &Vec<u8>, start: usize) -> (r: Result<(String, usize), bincode::error::DecodeError>)
    requires
        start <= bytes@.len(),
        varint_read(tail(bytes@, start as int)) is Some,
        varint_read(tail(bytes@, start as int))->Some_0.0 + varint_read(
            tail(bytes@, start as int),
        )->Some_0.1 <= bytes@.len() - start,
    ensures
        r is Ok ==> r->Ok_0.1 <= bytes@.len() - start,
        forall|s: Seq<char>|
            #[trigger] bincode_text(s).is_prefix_of(tail(bytes@, start as int)) ==> (r is Ok
                && r->Ok_0.0@ == s && r->Ok_0.1 == bincode_text(s).len()),
{
    bincode::decode_from_slice(&bytes[start..], bincode::config::standard())
}

/// The encodings of `l[i..]`, one after the other.
pub open spec fn texts_from(l: Seq<Seq<char>>, i: int) -> Seq<u8>
    decreases l.len() - i,
{
    if i < 0 || i >= l.len() {
        Seq::empty()
    } else {
        bincode_text(l[i]) + texts_from(l, i + 1)
    }
}

/// The bytes of a list of strings: its length, then each string.
pub open spec fn texts_bytes(l: Seq<Seq<char>>) -> Seq<u8> {
    if l.len() <= u64::MAX {
        varint(l.len() as u64) + texts_from(l, 0)
    } else {
        seq![255u8]
    }
}

/// The bytes of an entity: its name, then its aliases.
pub open spec fn element_bytes(e: ElementModel) -> Seq<u8> {
    bincode_text(e.name) + texts_bytes(e.aliases)
}

/// The bytes of a record: language, platform, tool (entity, then file name),
/// then the body.
pub open spec fn record_bytes(m: DevFileModel) -> Seq<u8> {
    element_bytes(m.language) + (element_bytes(m.platform) + (element_bytes(m.tool.element) + (
    bincode_text(m.tool.filename) + bincode_text(m.data))))
}

/// `x` stands at `pos` in `b`.
pub open spec fn stands_at(x: Seq<u8>, b: Seq<u8>, pos: int) -> bool {
    x.is_prefix_of(tail(b, pos))
}

proof fn lemma_split(b: Seq<u8>, pos: int, x: Seq<u8>, y: Seq<u8>)
    requires
        0 <= pos <= b.len(),
        stands_at(x + y, b, pos),
    ensures
        stands_at(x, b, pos),
        stands_at(y, b, pos + x.len()),
{
    let w = tail(b, pos);
    assert(x =~= w.subrange(0, x.len() as int)) by {
        assert forall|i: int| 0 <= i < x.len() implies x[i] == w[i] by {
            assert((x + y)[i] == x[i]);
        }
    }
    let v = tail(b, pos + x.len());
    assert(y =~= v.subrange(0, y.len() as int)) by {
        assert forall|i: int| 0 <= i < y.len() implies y[i] == v[i] by {
            assert((x + y)[x.len() + i] == y[i]);
            assert(w[x.len() + i] == v[i]);
        }
    }
}

fn read_u64(bytes: &Vec<u8>, pos: usize) -> (r: Result<(u64, usize), StoreError>)
    requires
        pos <= bytes@.len(),
    ensures
        r is Ok ==> pos <= r->Ok_0.1 <= bytes@.len(),
        r is Ok ==> varint_read(tail(bytes@, pos as int)) == Some((r->Ok_0.0, (r->Ok_0.1 - pos) as nat)),
        r is Err ==> varint_read(tail(bytes@, pos as int)) is None,
        forall|v: u64|
            #[trigger] stands_at(varint(v), bytes@, pos as int) ==> (r is Ok && r->Ok_0.0 == v
                && r->Ok_0.1 == pos + varint(v).len()),
        forall|s: Seq<char>|
            #[trigger] stands_at(bincode_text(s), bytes@, pos as int) ==> (r is Ok && r->Ok_0.0
                + r->Ok_0.1 - pos == bincode_text(s).len()),
{
    let total = bytes.len();
    let d = decode_u64(bytes, pos);
    match d {
        Ok((n, w)) => {
            assert(n == d->Ok_0.0 && w == d->Ok_0.1 && pos + w <= total);
            Ok((n, pos + w))
        },
        Err(_) => Err(StoreError::CorruptRecord),
    }
}

fn read_text(bytes: &Vec<u8>, pos: usize) -> (r: Result<(String, usize), StoreError>)
    requires
        pos <= bytes@.len(),
    ensures
        r is Ok ==> pos <= r->Ok_0.1 <= bytes@.len(),
        forall|s: Seq<char>|
            #[trigger] stands_at(bincode_text(s), bytes@, pos as int) ==> (r is Ok && r->Ok_0.0@ == s
                && r->Ok_0.1 == pos + bincode_text(s).len()),
{
    let (n, p) = match read_u64(bytes, pos) {
        Ok(x) => x,
        Err(_) => return Err(StoreError::CorruptRecord),
    };
    if n as u128 > (bytes.len() - p) as u128 {
        return Err(StoreError::CorruptRecord);
    }
    let total = bytes.len();
    let d = decode_text(bytes, pos);
    match d {
        Ok((t, m)) => {
            assert(m == d->Ok_0.1 && pos + m <= total);
            Ok((t, pos + m))
        },
        Err(_) => Err(StoreError::CorruptRecord),
    }
}

fn read_texts(bytes: &Vec<u8>, pos: usize) -> (r: Result<(Vec<String>, usize), StoreError>)
    requires
        pos <= bytes@.len(),
    ensures
        r is Ok ==> pos <= r->Ok_0.1 <= bytes@.len(),
        forall|l: Seq<Seq<char>>|
            l.len() <= u64::MAX && #[trigger] stands_at(texts_bytes(l), bytes@, pos as int) ==> (r is Ok && strings_view(
                r->Ok_0.0@,
            ) == l && r->Ok_0.1 == pos + texts_bytes(l).len()),
{
    let (count, w) = match read_u64(bytes, pos) {
        Ok(x) => x,
        Err(_) => {
            proof {
                lemma_texts_head(bytes@, pos as int);
            }
            return Err(StoreError::CorruptRecord);
        },
    };
    proof {
        lemma_texts_head(bytes@, pos as int);
    }
    let mut out: Vec<String> = Vec::new();
    let mut p: usize = w;
    let mut i: u64 = 0;
    while i < count
        invariant
            pos <= w <= p <= bytes@.len(),
            out@.len() == i,
            i <= count,
            forall|l: Seq<Seq<char>>|
                l.len() <= u64::MAX && #[trigger] stands_at(texts_bytes(l), bytes@, pos as int) ==> (l.len() == count
                    && strings_view(out@) == l.subrange(0, i as int) && stands_at(
                    texts_from(l, i as int),
                    bytes@,
                    p as int,
                ) && p + texts_from(l, i as int).len() == pos + texts_bytes(l).len()),
        decreases count - i,
    {
        let (s, q) = match read_text(bytes, p) {
            Ok(x) => x,
            Err(_) => {
                proof {
                    assert forall|l: Seq<Seq<char>>| !(l.len() <= u64::MAX && #[trigger] stands_at(texts_bytes(l), bytes@, pos as int)) by {
                        if l.len() <= u64::MAX && stands_at(texts_bytes(l), bytes@, pos as int) {
                            lemma_split(bytes@, p as int, bincode_text(l[i as int]), texts_from(l, i + 1));
                        }
                    }
                }
                return Err(StoreError::CorruptRecord);
            },
        };
        proof {
            assert forall|l: Seq<Seq<char>>| l.len() <= u64::MAX && #[trigger] stands_at(texts_bytes(l), bytes@, pos as int) implies (
            strings_view(out@.push(s)) == l.subrange(0, i + 1) && stands_at(
                texts_from(l, i + 1),
                bytes@,
                q as int,
            ) && q + texts_from(l, i + 1).len() == pos + texts_bytes(l).len()) by {
                lemma_split(bytes@, p as int, bincode_text(l[i as int]), texts_from(l, i + 1));
                assert(strings_view(out@.push(s)) =~= l.subrange(0, i + 1));
            }
        }
        out.push(s);
        p = q;
        i = i + 1;
    }
    proof {
        assert forall|l: Seq<Seq<char>>| l.len() <= u64::MAX && #[trigger] stands_at(texts_bytes(l), bytes@, pos as int) implies strings_view(
            out@,
        ) == l by {
            assert(l.subrange(0, l.len() as int) =~= l);
        }
    }
    Ok((out, p))
}

/// The length at the head of a list's bytes is read as the list's length.
proof fn lemma_texts_head(b: Seq<u8>, pos: int)
    requires
        0 <= pos <= b.len(),
    ensures
        forall|l: Seq<Seq<char>>|
            #[trigger] stands_at(texts_bytes(l), b, pos) ==> (if l.len() <= u64::MAX {
                stands_at(varint(l.len() as u64), b, pos) && stands_at(
                    texts_from(l, 0),
                    b,
                    pos + varint(l.len() as u64).len(),
                )
            } else {
                varint_read(tail(b, pos)) is None
            }),
{
    assert forall|l: Seq<Seq<char>>| #[trigger] stands_at(texts_bytes(l), b, pos) implies (if l.len()
        <= u64::MAX {
        stands_at(varint(l.len() as u64), b, pos) && stands_at(
            texts_from(l, 0),
            b,
            pos + varint(l.len() as u64).len(),
        )
    } else {
        varint_read(tail(b, pos)) is None
    }) by {
        if l.len() > u64::MAX {
            assert(tail(b, pos)[0] == texts_bytes(l)[0]);
        } else {
            lemma_split(b, pos, varint(l.len() as u64), texts_from(l, 0));
        }
    }
}

/// Where the name and the aliases of an entity stand in its bytes.
proof fn lemma_element_parts(b: Seq<u8>, pos: int)
    requires
        0 <= pos <= b.len(),
    ensures
        forall|e: ElementModel|
            #[trigger] stands_at(element_bytes(e), b, pos) ==> stands_at(bincode_text(e.name), b, pos)
                && stands_at(texts_bytes(e.aliases), b, pos + bincode_text(e.name).len()),
{
    assert forall|e: ElementModel| #[trigger] stands_at(element_bytes(e), b, pos) implies stands_at(
        bincode_text(e.name),
        b,
        pos,
    ) && stands_at(texts_bytes(e.aliases), b, pos + bincode_text(e.name).len()) by {
        lemma_split(b, pos, bincode_text(e.name), texts_bytes(e.aliases));
    }
}

fn read_element(bytes: &Vec<u8>, pos: usize) -> (r: Result<(Element, usize), StoreError>)
    requires
        pos <= bytes@.len(),
    ensures
        r is Ok ==> pos <= r->Ok_0.1 <= bytes@.len(),
        forall|e: ElementModel|
            e.aliases.len() <= u64::MAX && #[trigger] stands_at(element_bytes(e), bytes@, pos as int) ==> (r is Ok && r->Ok_0.0@ == e
                && r->Ok_0.1 == pos + element_bytes(e).len()),
{
    proof {
        lemma_element_parts(bytes@, pos as int);
    }
    let (name, p1) = match read_text(bytes, pos) {
        Ok(x) => x,
        Err(_) => return Err(StoreError::CorruptRecord),
    };
    let (aliases, p2) = match read_texts(bytes, p1) {
        Ok(x) => x,
        Err(_) => return Err(StoreError::CorruptRecord),
    };
    Ok((Element { name, aliases }, p2))
}

fn encode_texts(v: &Vec<String>) -> (r: Vec<u8>)
    ensures
        r@ == texts_bytes(strings_view(v@)),
        v@.len() <= u64::MAX,
{
    let ghost l = strings_view(v@);
    let mut r = encode_u64(v.len() as u64);
    let ghost head = r@;
    let mut i: usize = 0;
    while i < v.len()
        invariant
            l == strings_view(v@),
            i <= v.len(),
            head == varint(v@.len() as u64),
            r@ + texts_from(l, i as int) == head + texts_from(l, 0),
        decreases v.len() - i,
    {
        let mut next = encode_text(&v[i]);
        assert(l[i as int] == v@[i as int]@);
        assert(texts_from(l, i as int) == bincode_text(l[i as int]) + texts_from(l, i + 1));
        assert(r@ + next@ + texts_from(l, i + 1) =~= r@ + texts_from(l, i as int));
        r.append(&mut next);
        i = i + 1;
    }
    assert(texts_from(l, i as int) =~= Seq::<u8>::empty());
    assert(r@ =~= r@ + texts_from(l, i as int));
    r
}

fn element_encoding(e: &Element) -> (r: Vec<u8>)
    ensures
        r@ == element_bytes(e@),
        e@.aliases.len() <= u64::MAX,
{
    let mut r = encode_text(&e.name);
    let mut rest = encode_texts(&e.aliases);
    r.append(&mut rest);
    r
}

fn same_bytes(a: &Vec<u8>, b: &Vec<u8>) -> (r: bool)
    ensures
        r == (a@ == b@),
{
    if a.len() != b.len() {
        return false;
    }
    let mut i: usize = 0;
    while i < a.len()
        invariant
            a@.len() == b@.len(),
            i <= a@.len(),
            forall|k: int| 0 <= k < i ==> a@[k] == b@[k],
        decreases a.len() - i,
    {
        if a[i] != b[i] {
            return false;
        }
        i = i + 1;
    }
    assert(a@ =~= b@);
    true
}

impl DevFile {
    /// The bytes this record is stored as.
    pub fn encode(&self) -> (r: Vec<u8>)
        ensures
            r@ == record_bytes(self@),
            fits(self@),
    {
        let mut r = element_encoding(&self.language);
        let mut platform = element_encoding(&self.platform);
        let mut tool = element_encoding(&self.tool.element);
        let mut filename = encode_text(&self.tool.filename);
        let mut data = encode_text(&self.data);
        r.append(&mut platform);
        r.append(&mut tool);
        r.append(&mut filename);
        r.append(&mut data);
        assert(r@ =~= record_bytes(self@));
        r
    }

    /// The record that `bytes` hold: the record whose bytes they are exactly,
    /// else `CorruptRecord`.
    pub fn decode(bytes: &Vec<u8>) -> (r: Result<DevFile, StoreError>)
        ensures
            forall|m: DevFileModel| #[trigger] record_bytes(m) == bytes@ && fits(m) ==> (r is Ok && r->Ok_0@ == m),
            r is Ok ==> record_bytes(r->Ok_0@) == bytes@,
            r is Err ==> r->Err_0 is CorruptRecord,
    {
        proof {
            assert forall|m: DevFileModel| #[trigger] record_bytes(m) == bytes@ implies layout_holds(bytes@, m) by {
                lemma_layout(bytes@, m);
            }
        }
        let (language, p1) = match read_element(bytes, 0) {
            Ok(x) => x,
            Err(_) => return Err(StoreError::CorruptRecord),
        };
        let (platform, p2) = match read_element(bytes, p1) {
            Ok(x) => x,
            Err(_) => return Err(StoreError::CorruptRecord),
        };
        let (element, p3) = match read_element(bytes, p2) {
            Ok(x) => x,
            Err(_) => return Err(StoreError::CorruptRecord),
        };
        let (filename, p4) = match read_text(bytes, p3) {
            Ok(x) => x,
            Err(_) => return Err(StoreError::CorruptRecord),
        };
        let (data, _) = match read_text(bytes, p4) {
            Ok(x) => x,
            Err(_) => return Err(StoreError::CorruptRecord),
        };
        let r = DevFile { language, platform, tool: Tool { element, filename }, data };
        if !same_bytes(&r.encode(), bytes) {
            return Err(StoreError::CorruptRecord);
        }
        Ok(r)
    }
}

/// The alias lists of `m` are short enough for their length to be written.
pub open spec fn fits(m: DevFileModel) -> bool {
    &&& m.language.aliases.len() <= u64::MAX
    &&& m.platform.aliases.len() <= u64::MAX
    &&& m.tool.element.aliases.len() <= u64::MAX
}

/// Each field of record `m` stands in `b` where the layout puts it.
pub open spec fn layout_holds(b: Seq<u8>, m: DevFileModel) -> bool {
    let l = element_bytes(m.language).len();
    let p = element_bytes(m.platform).len();
    let t = element_bytes(m.tool.element).len();
    let f = bincode_text(m.tool.filename).len();
    &&& stands_at(element_bytes(m.language), b, 0)
    &&& stands_at(element_bytes(m.platform), b, l as int)
    &&& stands_at(element_bytes(m.tool.element), b, (l + p) as int)
    &&& stands_at(bincode_text(m.tool.filename), b, (l + p + t) as int)
    &&& stands_at(bincode_text(m.data), b, (l + p + t + f) as int)
}

proof fn lemma_layout(b: Seq<u8>, m: DevFileModel)
    requires
        record_bytes(m) == b,
    ensures
        layout_holds(b, m),
{
    let l = element_bytes(m.language);
    let p = element_bytes(m.platform);
    let t = element_bytes(m.tool.element);
    let f = bincode_text(m.tool.filename);
    let d = bincode_text(m.data);
    assert(tail(b, 0) =~= b);
    assert(stands_at(l + (p + (t + (f + d))), b, 0));
    lemma_split(b, 0, l, p + (t + (f + d)));
    lemma_split(b, l.len() as int, p, t + (f + d));
    lemma_split(b, (l.len() + p.len()) as int, t, f + d);
    lemma_split(b, (l.len() + p.len() + t.len()) as int, f, d);
}

/// The directory that holds the records of tool `tool`.
pub open spec fn tool_address(root: Seq<char>, tool: Seq<char>) -> Seq<char> {
    root + seq!['/'] + tool
}

/// The file that holds the record of key (`tool`, `platform`, `language`).
pub open spec fn record_address(
    root: Seq<char>,
    tool: Seq<char>,
    platform: Seq<char>,
    language: Seq<char>,
) -> Seq<char> {
    tool_address(root, tool) + seq!['/'] + platform + seq!['-'] + language + seq!['.', 'b', 'c']
}

/// The directory under `root` that holds the records of `tool`.
pub fn tool_dir(root: &str, tool: &Tool) -> (r: String)
    ensures
        r@ == tool_address(root@, tool@.element.name),
{
    proof {
        reveal_strlit("/");
    }
    let r = root.to_owned().concat("/").concat(tool.element.name.as_str());
    assert(r@ =~= tool_address(root@, tool@.element.name));
    r
}

/// The file under `root` for the key (`tool`, `platform`, `language`).
pub fn record_path(root: &str, tool: &Tool, platform: &Element, language: &str) -> (r: String)
    ensures
        r@ == record_address(root@, tool@.element.name, platform@.name, language@),
{
    proof {
        reveal_strlit("/");
        reveal_strlit("-");
        reveal_strlit(".bc");
    }
    let r = tool_dir(root, tool).concat("/").concat(platform.name.as_str()).concat("-").concat(
        language,
    ).concat(".bc");
    assert(r@ =~= record_address(root@, tool@.element.name, platform@.name, language@));
    r
}

impl DevFile {
    /// The file under `root` that this record is stored in.
    pub fn storage_path(&self, root: &str) -> (r: String)
        ensures
            r@ == record_address(root@, self@.tool.element.name, self@.platform.name, self@.language.name),
    {
        record_path(root, &self.tool, &self.platform, self.language.name.as_str())
    }
}

/// What a lookup asks of the file system next.
#[derive(Debug, Clone)]
pub enum FetchStep {
    /// Tell whether this file exists.
    Probe(String),
    /// Read the record in this file.
    Read(String),
    /// Stop: no record answers the key.
    Fail(StoreError),
}

/// One step of a lookup of key (`tool`, `platform`, `language`) under `root`.
///
/// `exact` is what is known of the file of the exact key, `fallback` of the
/// file of the same tool and platform with the `any` language. The exact file
/// is probed first and, where it exists, read without the fallback being
/// consulted; where it does not, the fallback is probed and read; where
/// neither exists the lookup fails. No step writes.
pub fn fetch_step(
    root: &str,
    tool: &Tool,
    platform: &Element,
    language: &Element,
    exact: Option<bool>,
    fallback: Option<bool>,
) -> (r: FetchStep)
    ensures
        exact is None ==> (r is Probe && r->Probe_0@ == record_address(
            root@,
            tool@.element.name,
            platform@.name,
            language@.name,
        )),
        exact == Some(true) ==> (r is Read && r->Read_0@ == record_address(
            root@,
            tool@.element.name,
            platform@.name,
            language@.name,
        )),
        exact == Some(false) && fallback is None ==> (r is Probe && r->Probe_0@ == record_address(
            root@,
            tool@.element.name,
            platform@.name,
            any_name(),
        )),
        exact == Some(false) && fallback == Some(true) ==> (r is Read && r->Read_0@
            == record_address(root@, tool@.element.name, platform@.name, any_name())),
        exact == Some(false) && fallback == Some(false) ==> (r is Fail && r->Fail_0
            is NoMatchingTemplate && r->Fail_0->tool@ == tool@.element.name
            && r->Fail_0->platform@ == platform@.name && r->Fail_0->language@ == language@.name),
{
    proof {
        reveal_strlit("any");
    }
    match exact {
        None => FetchStep::Probe(record_path(root, tool, platform, language.name.as_str())),
        Some(true) => FetchStep::Read(record_path(root, tool, platform, language.name.as_str())),
        Some(false) => {
            let any = "any";
            assert(any@ =~= any_name());
            match fallback {
                None => FetchStep::Probe(record_path(root, tool, platform, any)),
                Some(true) => FetchStep::Read(record_path(root, tool, platform, any)),
                Some(false) => FetchStep::Fail(
                    StoreError::NoMatchingTemplate {
                        tool: tool.element.name.clone(),
                        platform: platform.name.clone(),
                        language: language.name.clone(),
                    },
                ),
            }
        },
    }
}

} // verus!
