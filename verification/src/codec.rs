use vstd::prelude::*;

verus! {

/// An application command carried by a log entry: set `key` to `value`.
/// Keys and values are byte strings; the empty value is a legitimate
/// stored value, distinct from absence of the key.
#[derive(Clone, Debug)]
pub struct LogEntry {
    pub key: Vec<u8>,
    pub value: Vec<u8>,
}

/// One record of the replicated log: the consensus metadata (term and
/// index, together the "log id") plus the application command.
#[derive(Clone, Debug)]
pub struct Entry {
    pub term: u64,
    pub index: u64,
    pub payload: LogEntry,
}

pub ghost struct LogEntryView {
    pub key: Seq<u8>,
    pub value: Seq<u8>,
}

pub ghost struct EntryView {
    pub term: u64,
    pub index: u64,
    pub payload: LogEntryView,
}

impl Entry {
    /// The storage key an entry is filed under: its own index.
    pub fn to_key(&self) -> (r: u64)
        ensures
            r == self.index,
    {
        self.index
    }
}

impl View for LogEntry {
    type V = LogEntryView;

    open spec fn view(&self) -> LogEntryView {
        LogEntryView { key: self.key@, value: self.value@ }
    }
}

impl View for Entry {
    type V = EntryView;

    open spec fn view(&self) -> EntryView {
        EntryView { term: self.term, index: self.index, payload: self.payload@ }
    }
}

/// The eight bytes of `x`, most significant first.
pub open spec fn be_bytes(x: u64) -> Seq<u8> {
    seq![
        ((x >> 56) & 0xff) as u8,
        ((x >> 48) & 0xff) as u8,
        ((x >> 40) & 0xff) as u8,
        ((x >> 32) & 0xff) as u8,
        ((x >> 24) & 0xff) as u8,
        ((x >> 16) & 0xff) as u8,
        ((x >> 8) & 0xff) as u8,
        (x & 0xff) as u8,
    ]
}

/// The integer whose big-endian bytes are `s` (the first eight bytes of it).
pub open spec fn be_val(s: Seq<u8>) -> u64
    recommends
        s.len() >= 8,
{
    (((s[0] as u64) << 56) | ((s[1] as u64) << 48) | ((s[2] as u64) << 40)
        | ((s[3] as u64) << 32) | ((s[4] as u64) << 24) | ((s[5] as u64) << 16)
        | ((s[6] as u64) << 8) | (s[7] as u64)) as u64
}

/// Big-endian encoding loses nothing: reading the eight bytes back gives
/// the integer that was written.
pub proof fn lemma_be_round_trip(x: u64)
    ensures
        be_val(be_bytes(x)) == x,
{
    assert(((((((x >> 56) & 0xff) as u8) as u64) << 56)
        | (((((x >> 48) & 0xff) as u8) as u64) << 48)
        | (((((x >> 40) & 0xff) as u8) as u64) << 40)
        | (((((x >> 32) & 0xff) as u8) as u64) << 32)
        | (((((x >> 24) & 0xff) as u8) as u64) << 24)
        | (((((x >> 16) & 0xff) as u8) as u64) << 16)
        | (((((x >> 8) & 0xff) as u8) as u64) << 8)
        | (((x & 0xff) as u8) as u64)) == x) by (bit_vector);
}

/// The wire and storage encoding of a command: the key's length as eight
/// big-endian bytes, then the key, then the value (to the end).
pub open spec fn spec_encode_cmd(c: LogEntryView) -> Seq<u8> {
    be_bytes(c.key.len() as u64) + c.key + c.value
}

/// The encoding of a log entry: term, index, then the encoded command.
pub open spec fn spec_encode_entry(e: EntryView) -> Seq<u8> {
    be_bytes(e.term) + be_bytes(e.index) + spec_encode_cmd(e.payload)
}

/// What decoding a command from `b` yields, if anything.
pub open spec fn spec_decode_cmd(b: Seq<u8>) -> Option<LogEntryView> {
    if b.len() < 8 {
        None
    } else {
        let klen = be_val(b.subrange(0, 8));
        if b.len() - 8 < klen {
            None
        } else {
            Some(LogEntryView {
                key: b.subrange(8, 8 + klen as int),
                value: b.subrange(8 + klen as int, b.len() as int),
            })
        }
    }
}

/// What decoding an entry from `b` yields, if anything.
pub open spec fn spec_decode_entry(b: Seq<u8>) -> Option<EntryView> {
    if b.len() < 16 {
        None
    } else {
        match spec_decode_cmd(b.subrange(16, b.len() as int)) {
            Some(c) => Some(EntryView {
                term: be_val(b.subrange(0, 8)),
                index: be_val(b.subrange(8, 16)),
                payload: c,
            }),
            None => None,
        }
    }
}

/// Commands survive the encoding: decoding what was encoded gives back the
/// same command.
pub proof fn lemma_cmd_round_trip(c: LogEntryView)
    requires
        c.key.len() <= u64::MAX,
    ensures
        spec_decode_cmd(spec_encode_cmd(c)) == Some(c),
{
    let b = spec_encode_cmd(c);
    lemma_be_round_trip(c.key.len() as u64);
    assert(b.subrange(0, 8) =~= be_bytes(c.key.len() as u64));
    let klen = be_val(b.subrange(0, 8));
    assert(klen == c.key.len());
    assert(b.subrange(8, 8 + klen as int) =~= c.key);
    assert(b.subrange(8 + klen as int, b.len() as int) =~= c.value);
}

/// Entries survive the encoding: decoding what was encoded gives back the
/// same entry.
pub proof fn lemma_entry_round_trip(e: EntryView)
    requires
        e.payload.key.len() <= u64::MAX,
    ensures
        spec_decode_entry(spec_encode_entry(e)) == Some(e),
{
    let b = spec_encode_entry(e);
    assert(b.subrange(16, b.len() as int) =~= spec_encode_cmd(e.payload));
    lemma_cmd_round_trip(e.payload);
    assert(b.subrange(0, 8) =~= be_bytes(e.term));
    assert(b.subrange(8, 16) =~= be_bytes(e.index));
    lemma_be_round_trip(e.term);
    lemma_be_round_trip(e.index);
}

/// Pushes the eight big-endian bytes of `x` onto `out`.
pub fn push_u64_be(out: &mut Vec<u8>, x: u64)
    ensures
        final(out)@ == old(out)@ + be_bytes(x),
{
    out.push(((x >> 56) & 0xff) as u8);
    out.push(((x >> 48) & 0xff) as u8);
    out.push(((x >> 40) & 0xff) as u8);
    out.push(((x >> 32) & 0xff) as u8);
    out.push(((x >> 24) & 0xff) as u8);
    out.push(((x >> 16) & 0xff) as u8);
    out.push(((x >> 8) & 0xff) as u8);
    out.push((x & 0xff) as u8);
    proof {
        assert(out@ =~= old(out)@ + be_bytes(x));
    }
}

/// Reads the big-endian integer stored at `off` in `b`.
pub fn read_u64_be(b: &Vec<u8>, off: usize) -> (r: u64)
    requires
        off + 8 <= b@.len(),
    ensures
        r == be_val(b@.subrange(off as int, off as int + 8)),
{
    let n: usize = b.len();
    assert(off + 8 <= n);
    let r = ((b[off] as u64) << 56) | ((b[off + 1] as u64) << 48)
        | ((b[off + 2] as u64) << 40) | ((b[off + 3] as u64) << 32)
        | ((b[off + 4] as u64) << 24) | ((b[off + 5] as u64) << 16)
        | ((b[off + 6] as u64) << 8) | (b[off + 7] as u64);
    proof {
        let s = b@.subrange(off as int, off as int + 8);
        assert(s[0] == b@[off as int]);
        assert(s[7] == b@[off as int + 7]);
    }
    r
}

/// Appends a copy of `src` to `dst`.
pub fn extend_bytes(dst: &mut Vec<u8>, src: &Vec<u8>)
    ensures
        final(dst)@ == old(dst)@ + src@,
{
    let mut i: usize = 0;
    while i < src.len()
        invariant
            i <= src@.len(),
            dst@ == old(dst)@ + src@.subrange(0, i as int),
        decreases src@.len() - i,
    {
        dst.push(src[i]);
        i = i + 1;
        proof {
            assert(dst@ =~= old(dst)@ + src@.subrange(0, i as int));
        }
    }
    proof {
        assert(dst@ =~= old(dst)@ + src@);
    }
}

/// A fresh copy of `src`.
pub fn copy_bytes(src: &Vec<u8>) -> (r: Vec<u8>)
    ensures
        r@ == src@,
{
    let mut r: Vec<u8> = Vec::new();
    extend_bytes(&mut r, src);
    proof {
        assert(r@ =~= src@);
    }
    r
}

/// Copies `b[lo..hi]` into a fresh vector.
pub fn slice_bytes(b: &Vec<u8>, lo: usize, hi: usize) -> (r: Vec<u8>)
    requires
        lo <= hi <= b@.len(),
    ensures
        r@ == b@.subrange(lo as int, hi as int),
{
    let mut r: Vec<u8> = Vec::new();
    let mut i: usize = lo;
    while i < hi
        invariant
            lo <= i <= hi <= b@.len(),
            r@ == b@.subrange(lo as int, i as int),
        decreases hi - i,
    {
        r.push(b[i]);
        i = i + 1;
        proof {
            assert(r@ =~= b@.subrange(lo as int, i as int));
        }
    }
    r
}

/// Whether two byte strings hold the same bytes.
pub fn bytes_eq(a: &Vec<u8>, b: &Vec<u8>) -> (r: bool)
    ensures
        r == (a@ == b@),
{
    if a.len() != b.len() {
        proof {
            assert(a@ != b@);
        }
        return false;
    }
    let mut i: usize = 0;
    while i < a.len()
        invariant
            i <= a@.len(),
            a@.len() == b@.len(),
            forall|j: int| 0 <= j < i ==> a@[j] == b@[j],
        decreases a@.len() - i,
    {
        if a[i] != b[i] {
            return false;
        }
        i = i + 1;
    }
    proof {
        assert(a@ =~= b@);
    }
    true
}

/// Encodes a command for the wire and for storage.
pub fn encode_cmd(c: &LogEntry) -> (r: Vec<u8>)
    ensures
        r@ == spec_encode_cmd(c@),
{
    let mut out: Vec<u8> = Vec::new();
    push_u64_be(&mut out, c.key.len() as u64);
    extend_bytes(&mut out, &c.key);
    extend_bytes(&mut out, &c.value);
    proof {
        assert(out@ =~= spec_encode_cmd(c@));
    }
    out
}

/// Encodes an entry for the wire and for storage.
pub fn encode_entry(e: &Entry) -> (r: Vec<u8>)
    ensures
        r@ == spec_encode_entry(e@),
{
    let mut out: Vec<u8> = Vec::new();
    push_u64_be(&mut out, e.term);
    push_u64_be(&mut out, e.index);
    push_u64_be(&mut out, e.payload.key.len() as u64);
    extend_bytes(&mut out, &e.payload.key);
    extend_bytes(&mut out, &e.payload.value);
    proof {
        assert(out@ =~= spec_encode_entry(e@));
    }
    out
}

/// Decodes a command from `b[off..]`; `None` on any malformed input.
pub fn decode_cmd_from(b: &Vec<u8>, off: usize) -> (r: Option<LogEntry>)
    requires
        off <= b@.len(),
    ensures
        match r {
            Some(c) => spec_decode_cmd(b@.subrange(off as int, b@.len() as int)) == Some(c@),
            None => spec_decode_cmd(b@.subrange(off as int, b@.len() as int)) is None,
        },
{
    let ghost tail = b@.subrange(off as int, b@.len() as int);
    if b.len() - off < 8 {
        return None;
    }
    let klen = read_u64_be(b, off);
    proof {
        assert(tail.subrange(0, 8) =~= b@.subrange(off as int, off as int + 8));
    }
    let rest: usize = b.len() - off - 8;
    if klen > rest as u64 {
        return None;
    }
    let klen_us = klen as usize;
    let key = slice_bytes(b, off + 8, off + 8 + klen_us);
    let value = slice_bytes(b, off + 8 + klen_us, b.len());
    proof {
        assert(tail.subrange(8, 8 + klen as int)
            =~= b@.subrange(off as int + 8, off as int + 8 + klen as int));
        assert(tail.subrange(8 + klen as int, tail.len() as int)
            =~= b@.subrange(off as int + 8 + klen as int, b@.len() as int));
    }
    Some(LogEntry { key, value })
}

/// Decodes a command from the whole of `b`.
pub fn decode_cmd(b: &Vec<u8>) -> (r: Option<LogEntry>)
    ensures
        match r {
            Some(c) => spec_decode_cmd(b@) == Some(c@),
            None => spec_decode_cmd(b@) is None,
        },
{
    let r = decode_cmd_from(b, 0);
    proof {
        assert(b@.subrange(0, b@.len() as int) =~= b@);
    }
    r
}

/// Decodes an entry from the whole of `b`; `None` on any malformed input.
pub fn decode_entry(b: &Vec<u8>) -> (r: Option<Entry>)
    ensures
        match r {
            Some(e) => spec_decode_entry(b@) == Some(e@),
            None => spec_decode_entry(b@) is None,
        },
{
    if b.len() < 16 {
        return None;
    }
    let term = read_u64_be(b, 0);
    let index = read_u64_be(b, 8);
    proof {
        assert(b@.subrange(0int, 8int) =~= b@.subrange(0, 8));
    }
    match decode_cmd_from(b, 16) {
        Some(payload) => Some(Entry { term, index, payload }),
        None => None,
    }
}

} // verus!
