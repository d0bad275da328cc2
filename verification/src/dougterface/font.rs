//! The interface font: unpacking a WOFF font into the plain font it wraps, blending text
//! onto the frame, and breaking text into lines.
use vstd::prelude::*;

use crate::runtime::lines_of;
use crate::text::{char_is_whitespace, is_unicode_whitespace, str_chars, string_from_chars};

verus! {

/// The offsets, around a pixel, at which a glyph's dark outline is drawn.
pub const OUTLINE: [(i32, i32); 8] = [(-1, -1), (-1, 0), (-1, 1), (0, -1), (0, 1), (1, -1), (1, 0), (1, 1)];

/// The height in pixels of one line of text.
pub const LINE_HEIGHT: usize = 38;

/// The big-endian 16-bit number at `o` in `d`.
pub open spec fn be16(d: Seq<u8>, o: int) -> nat {
    (d[o] as nat) * 256 + (d[o + 1] as nat)
}

/// The big-endian 32-bit number at `o` in `d`.
pub open spec fn be32(d: Seq<u8>, o: int) -> nat {
    be16(d, o) * 65536 + be16(d, o + 2)
}

/// The big-endian 16-bit number at `offset` in `data`, where it lies within `data`.
pub fn read_u16(data: &[u8], offset: usize) -> (r: Option<u16>)
    requires
        offset <= usize::MAX - 2,
    ensures
        match r {
            Some(v) => offset + 2 <= data@.len() && v == be16(data@, offset as int),
            None => offset + 2 > data@.len(),
        },
{
    if offset + 2 > data.len() {
        None
    } else {
        Some((data[offset] as u16) * 256 + (data[offset + 1] as u16))
    }
}

/// The big-endian 32-bit number at `offset` in `data`, where it lies within `data`.
pub fn read_u32(data: &[u8], offset: usize) -> (r: Option<u32>)
    requires
        offset <= usize::MAX - 4,
    ensures
        match r {
            Some(v) => offset + 4 <= data@.len() && v == be32(data@, offset as int),
            None => offset + 4 > data@.len(),
        },
{
    if offset + 4 > data.len() {
        None
    } else {
        let hi = (data[offset] as u32) * 256 + (data[offset + 1] as u32);
        let lo = (data[offset + 2] as u32) * 256 + (data[offset + 3] as u32);
        Some(hi * 65536 + lo)
    }
}

/// `s` with the two bytes of `v`, most significant first, written at `o`.
pub open spec fn put16(s: Seq<u8>, o: int, v: u16) -> Seq<u8> {
    s.update(o, (v / 256) as u8).update(o + 1, (v % 256) as u8)
}

/// `s` with the four bytes of `v`, most significant first, written at `o`.
pub open spec fn put32(s: Seq<u8>, o: int, v: u32) -> Seq<u8> {
    put16(put16(s, o, (v / 65536) as u16), o + 2, (v % 65536) as u16)
}

/// Writes `value` big-endian at `offset` of `out`.
pub fn write_u16(out: &mut Vec<u8>, offset: usize, value: u16)
    requires
        offset + 2 <= old(out)@.len(),
    ensures
        final(out)@ == put16(old(out)@, offset as int, value),
{
    let len = out.len();
    assert(offset + 2 <= len);
    out.set(offset, (value / 256) as u8);
    out.set(offset + 1, (value % 256) as u8);
}

/// Writes `value` big-endian at `offset` of `out`.
pub fn write_u32(out: &mut Vec<u8>, offset: usize, value: u32)
    requires
        offset + 4 <= old(out)@.len(),
    ensures
        final(out)@ == put32(old(out)@, offset as int, value),
{
    let len = out.len();
    assert(offset + 4 <= len);
    write_u16(out, offset, (value / 65536) as u16);
    write_u16(out, offset + 2, (value % 65536) as u16);
}

/// `v` rounded up to a multiple of four.
pub open spec fn align4_of(v: nat) -> nat {
    ((v + 3) / 4 * 4) as nat
}

/// `value` rounded up to a multiple of four.
pub fn align4(value: usize) -> (r: usize)
    requires
        value <= usize::MAX - 3,
    ensures
        r == align4_of(value as nat),
{
    let v3: usize = value + 3;
    let r = v3 & !3usize;
    assert(r == v3 / 4 * 4) by (bit_vector)
        requires
            r == v3 & !3usize,
    ;
    r
}

fn align4_u64(value: u64) -> (r: u64)
    requires
        value <= u64::MAX - 3,
    ensures
        r == align4_of(value as nat),
{
    let v3: u64 = value + 3;
    let r = v3 & !3u64;
    assert(r == v3 / 4 * 4) by (bit_vector)
        requires
            r == v3 & !3u64,
    ;
    r
}

/// One table of a font: its tag, checksum, length, and the bytes it holds.
pub struct SfntTable {
    pub tag: u32,
    pub checksum: u32,
    pub orig_len: u32,
    pub data: Vec<u8>,
}

/// The mathematical content of an [`SfntTable`].
pub struct SfntTableView {
    pub tag: u32,
    pub checksum: u32,
    pub orig_len: u32,
    pub data: Seq<u8>,
}

impl View for SfntTable {
    type V = SfntTableView;

    open spec fn view(&self) -> SfntTableView {
        SfntTableView { tag: self.tag, checksum: self.checksum, orig_len: self.orig_len, data: self.data@ }
    }
}

/// The views of a sequence of tables.
pub open spec fn tables_view(ts: Seq<SfntTable>) -> Seq<SfntTableView> {
    ts.map_values(|t: SfntTable| t@)
}

/// Where table `i` of `ts` starts in the font: after the directory of all the tables,
/// each table after the one before it, at a multiple of four.
pub open spec fn table_offset(ts: Seq<SfntTableView>, i: nat) -> nat
    decreases i,
{
    if i == 0 {
        align4_of(12 + 16 * ts.len())
    } else {
        align4_of(table_offset(ts, (i - 1) as nat) + ts[i - 1].orig_len as nat)
    }
}

/// The size of the font: what the header asks for, or the end of the last table if
/// that lies further.
pub open spec fn sfnt_size(total_size: nat, ts: Seq<SfntTableView>) -> nat {
    let end = table_offset(ts, ts.len());
    if total_size >= end { total_size } else { end }
}

/// The greatest power of two no greater than `n`, for `n` at least one.
pub open spec fn max_pow2(n: nat) -> nat
    decreases n,
{
    if n <= 1 { 1 } else { 2 * max_pow2(n / 2) }
}

/// The exponent of [`max_pow2`].
pub open spec fn log2_floor(n: nat) -> nat
    decreases n,
{
    if n <= 1 { 0 } else { 1 + log2_floor(n / 2) }
}

/// `s` with `x` copied in at `o`.
pub open spec fn copy_in(s: Seq<u8>, o: int, x: Seq<u8>) -> Seq<u8> {
    Seq::new(s.len(), |j: int| if o <= j < o + x.len() { x[j - o] } else { s[j] })
}

/// `out` with the directory entries and the bytes of the first `k` tables written,
/// each entry and then its table's bytes in turn.
pub open spec fn tables_written(out: Seq<u8>, ts: Seq<SfntTableView>, k: nat) -> Seq<u8>
    decreases k,
{
    if k == 0 {
        out
    } else {
        let i = (k - 1) as nat;
        let o = tables_written(out, ts, i);
        let entry: int = (12 + 16 * i) as int;
        let off = table_offset(ts, i);
        let with_entry = put32(
            put32(put32(put32(o, entry, ts[i as int].tag), entry + 4, ts[i as int].checksum), entry + 8, (off % 0x1_0000_0000) as u32),
            entry + 12,
            (ts[i as int].data.len() % 0x1_0000_0000) as u32,
        );
        copy_in(with_entry, off as int, ts[i as int].data)
    }
}

/// The header of the font with the given flavor and tables, in a font of zeros of the
/// font's size: the flavor, the number of tables and the binary-search fields over them.
pub open spec fn sfnt_header(flavor: u32, total_size: nat, ts: Seq<SfntTableView>) -> Seq<u8> {
    let n = ts.len();
    let size = sfnt_size(total_size, ts);
    let search_range = ((max_pow2(n) * 16) % 0x1_0000) as u16;
    put16(
        put16(
            put16(put16(put32(Seq::new(size, |j: int| 0u8), 0, flavor), 4, n as u16), 6, search_range),
            8,
            log2_floor(n) as u16,
        ),
        10,
        ((n * 16 - search_range) % 0x1_0000) as u16,
    )
}

/// The font with the given flavor and tables: its header, a directory of the tables,
/// and the tables themselves, the rest zero.
pub open spec fn sfnt_output(flavor: u32, total_size: nat, ts: Seq<SfntTableView>) -> Seq<u8> {
    tables_written(sfnt_header(flavor, total_size, ts), ts, ts.len())
}

/// Whether the tables `ts` can be laid out by [`sfnt_from_tables`]: there is at least
/// one, no more than a 16-bit count, and each table's bytes fit the font from where the
/// table starts.
pub open spec fn sfnt_layable(total_size: nat, ts: Seq<SfntTableView>) -> bool {
    &&& 1 <= ts.len() <= 0xffff
    &&& forall|i: int| 0 <= i < ts.len() ==> table_offset(ts, i as nat) + #[trigger] ts[i].data.len() <= sfnt_size(total_size, ts)
}

/// Offsets grow, and stay within what a 64-bit size holds.
proof fn lemma_offsets(ts: Seq<SfntTableView>, i: nat)
    requires
        ts.len() <= 0xffff,
        i <= ts.len(),
    ensures
        table_offset(ts, i) <= 12 + 16 * ts.len() + 3 + i * (0x1_0000_0003),
        i > 0 ==> table_offset(ts, (i - 1) as nat) <= table_offset(ts, i),
        table_offset(ts, 0) <= table_offset(ts, i),
        table_offset(ts, i) >= 12 + 16 * ts.len(),
    decreases i,
{
    if i > 0 {
        lemma_offsets(ts, (i - 1) as nat);
    }
}

/// `max_pow2` is the greatest power of two no greater than `n`, with exponent `log2_floor`.
proof fn lemma_max_pow2(n: nat)
    requires
        n >= 1,
    ensures
        max_pow2(n) <= n < 2 * max_pow2(n),
        max_pow2(n) == vstd::arithmetic::power2::pow2(log2_floor(n)),
    decreases n,
{
    if n > 1 {
        lemma_max_pow2(n / 2);
        vstd::arithmetic::power2::lemma_pow2_unfold(log2_floor(n));
    } else {
        vstd::arithmetic::power2::lemma2_to64();
    }
}

/// Copies `x` into `out` at `offset`.
fn copy_into(out: &mut Vec<u8>, offset: usize, x: &[u8])
    requires
        offset + x@.len() <= old(out)@.len(),
    ensures
        final(out)@ == copy_in(old(out)@, offset as int, x@),
{
    let ghost start = out@;
    let len = out.len();
    let mut k: usize = 0;
    while k < x.len()
        invariant
            len == start.len(),
            k <= x@.len(),
            offset + x@.len() <= start.len(),
            out@.len() == start.len(),
            forall|j: int| 0 <= j < out@.len() ==> out@[j] == if offset <= j < offset + k { x@[j - offset] } else { start[j] },
        decreases x@.len() - k,
    {
        out.set(offset + k, x[k]);
        k = k + 1;
    }
    assert(out@ =~= copy_in(start, offset as int, x@));
}

/// Lays out a font from its flavor, the size its header asks for, and its tables: the
/// part of unpacking a WOFF font that follows the decompression of its tables.
pub fn sfnt_from_tables(flavor: u32, total_size: u32, tables: &[SfntTable]) -> (out: Vec<u8>)
    requires
        sfnt_layable(total_size as nat, tables_view(tables@)),
        sfnt_size(total_size as nat, tables_view(tables@)) <= usize::MAX,
    ensures
        out@ == sfnt_output(flavor, total_size as nat, tables_view(tables@)),
{
    let ghost ts = tables_view(tables@);
    let n = tables.len();
    proof {
        lemma_offsets(ts, n as nat);
    }
    let data_offset = table_offset_exec(tables, n);
    let size: usize = if (total_size as u64) >= data_offset { total_size as usize } else { data_offset as usize };
    assert(size == sfnt_size(total_size as nat, ts));
    let mut out: Vec<u8> = Vec::new();
    let mut z: usize = 0;
    while z < size
        invariant
            z <= size,
            out@ == Seq::new(z as nat, |j: int| 0u8),
        decreases size - z,
    {
        out.push(0);
        z = z + 1;
        assert(out@ =~= Seq::new(z as nat, |j: int| 0u8));
    }
    proof {
        lemma_offsets(ts, 0);
    }
    write_u32(&mut out, 0, flavor);
    write_u16(&mut out, 4, n as u16);
    let mut max_pow: usize = 1;
    let mut selector: u16 = 0;
    proof {
        lemma_max_pow2(n as nat);
        vstd::arithmetic::power2::lemma2_to64();
    }
    while max_pow * 2 <= n
        invariant
            1 <= n <= 0xffff,
            1 <= max_pow <= n,
            max_pow == vstd::arithmetic::power2::pow2(selector as nat),
            selector <= 16,
            max_pow2(n as nat) == vstd::arithmetic::power2::pow2(log2_floor(n as nat)),
            max_pow2(n as nat) <= n < 2 * max_pow2(n as nat),
            max_pow <= max_pow2(n as nat),
        decreases n - max_pow,
    {
        proof {
            vstd::arithmetic::power2::lemma_pow2_unfold((selector + 1) as nat);
            lemma_pow2_le_between(selector as nat, log2_floor(n as nat), n as nat);
            vstd::arithmetic::power2::lemma2_to64();
            if selector + 1 > 16 {
                vstd::arithmetic::power2::lemma_pow2_strictly_increases(16, (selector + 1) as nat);
            }
        }
        max_pow = max_pow * 2;
        selector = selector + 1;
    }
    proof {
        lemma_pow2_eq(selector as nat, log2_floor(n as nat), n as nat);
    }
    let search_range: u16 = ((max_pow * 16) % 0x1_0000) as u16;
    let range_shift: u16 = ((n * 16 - search_range as usize) % 0x1_0000) as u16;
    write_u16(&mut out, 6, search_range);
    write_u16(&mut out, 8, selector);
    write_u16(&mut out, 10, range_shift);
    let ghost header = out@;
    let mut k: usize = 0;
    while k < n
        invariant
            k <= n,
            n == ts.len(),
            1 <= n <= 0xffff,
            ts == tables_view(tables@),
            out@.len() == size,
            size == sfnt_size(total_size as nat, ts),
            size >= 12 + 16 * n,
            sfnt_layable(total_size as nat, ts),
            out@ == tables_written(header, ts, k as nat),
        decreases n - k,
    {
        let entry = 12 + k * 16;
        proof {
            lemma_offsets(ts, k as nat);
            lemma_offsets(ts, n as nat);
            lemma_offset_mono(ts, k as nat, n as nat);
        }
        let off = table_offset_exec(tables, k);
        let t = &tables[k];
        write_u32(&mut out, entry, t.tag);
        write_u32(&mut out, entry + 4, t.checksum);
        write_u32(&mut out, entry + 8, (off % 0x1_0000_0000) as u32);
        let off = off as usize;
        write_u32(&mut out, entry + 12, ((t.data.len() as u64) % 0x1_0000_0000) as u32);
        assert(table_offset(ts, k as nat) + ts[k as int].data.len() <= size);
        copy_into(&mut out, off, t.data.as_slice());
        k = k + 1;
    }
    out
}

/// Offsets never shrink from one table to a later one.
proof fn lemma_offset_mono(ts: Seq<SfntTableView>, i: nat, j: nat)
    requires
        ts.len() <= 0xffff,
        i <= j <= ts.len(),
    ensures
        table_offset(ts, i) <= table_offset(ts, j),
    decreases j - i,
{
    if i < j {
        lemma_offsets(ts, j);
        lemma_offset_mono(ts, i, (j - 1) as nat);
    }
}

/// A power of two below `2^e` with `2^e <= n` lies at most at `2^e`.
proof fn lemma_pow2_le_between(s: nat, e: nat, n: nat)
    requires
        vstd::arithmetic::power2::pow2(s) * 2 <= n,
        vstd::arithmetic::power2::pow2(e) <= n < 2 * vstd::arithmetic::power2::pow2(e),
    ensures
        s < e,
        vstd::arithmetic::power2::pow2(s) * 2 <= vstd::arithmetic::power2::pow2(e),
{
    if s >= e {
        if s > e {
            vstd::arithmetic::power2::lemma_pow2_strictly_increases(e, s);
        }
    }
    vstd::arithmetic::power2::lemma_pow2_unfold(s + 1);
    if s + 1 < e {
        vstd::arithmetic::power2::lemma_pow2_strictly_increases(s + 1, e);
    }
}

/// Where `2^s <= n < 2^(s+1)`, `s` is the exponent of the greatest power of two
/// no greater than `n`.
proof fn lemma_pow2_eq(s: nat, e: nat, n: nat)
    requires
        vstd::arithmetic::power2::pow2(s) <= n,
        n < vstd::arithmetic::power2::pow2(s) * 2,
        vstd::arithmetic::power2::pow2(e) <= n < 2 * vstd::arithmetic::power2::pow2(e),
    ensures
        s == e,
{
    vstd::arithmetic::power2::lemma_pow2_unfold(s + 1);
    vstd::arithmetic::power2::lemma_pow2_unfold(e + 1);
    if s < e {
        if s + 1 < e {
            vstd::arithmetic::power2::lemma_pow2_strictly_increases(s + 1, e);
        }
    } else if s > e {
        if e + 1 < s {
            vstd::arithmetic::power2::lemma_pow2_strictly_increases(e + 1, s);
        }
    }
}

/// Where table `k` starts.
fn table_offset_exec(tables: &[SfntTable], k: usize) -> (r: u64)
    requires
        k <= tables@.len(),
        tables@.len() <= 0xffff,
    ensures
        r == table_offset(tables_view(tables@), k as nat),
{
    let ghost ts = tables_view(tables@);
    let n = tables.len();
    proof {
        lemma_offsets(ts, n as nat);
    }
    let mut off = align4_u64(12 + (n as u64) * 16);
    let mut i: usize = 0;
    while i < k
        invariant
            i <= k <= n,
            n == ts.len(),
            n <= 0xffff,
            ts == tables_view(tables@),
            off == table_offset(ts, i as nat),
        decreases k - i,
    {
        proof {
            lemma_offsets(ts, (i + 1) as nat);
        }
        off = align4_u64(off + tables[i].orig_len as u64);
        i = i + 1;
    }
    off
}

/// What reading `data` to its end through a zlib decoder gives: the inflated bytes, or
/// `None` where the decoder reports an error; defined for any bytes.
pub uninterp spec fn zlib_inflated(data: Seq<u8>) -> Option<Seq<u8>>;

/// Inflates the zlib stream `data` with flate2's `ZlibDecoder`, reading it to its end.
/// What the inflated bytes are is named by [`zlib_inflated`], not stated; a stream the
/// decoder reports an error on gives nothing.
#[verifier::external_body]
fn inflate_zlib(data: &[u8]) -> (r: Option<Vec<u8>>)
    ensures
        match r {
            Some(v) => zlib_inflated(data@) == Some(v@),
            None => zlib_inflated(data@) is None,
        },
{
    let mut decoder = flate2::read::ZlibDecoder::new(data);
    let mut decoded = Vec::new();
    match std::io::Read::read_to_end(&mut decoder, &mut decoded) {
        Ok(_) => Some(decoded),
        Err(_) => None,
    }
}

/// Whether `d` starts with the WOFF signature and holds the whole WOFF header fields
/// that are read: flavor, number of tables and total size.
pub open spec fn is_woff(d: Seq<u8>) -> bool {
    &&& d.len() >= 20
    &&& d[0] == 0x77u8
    &&& d[1] == 0x4fu8
    &&& d[2] == 0x46u8
    &&& d[3] == 0x46u8
}

/// The table of directory entry `i` of the WOFF font `d`: its entry must lie within
/// `d`, and so must its stored bytes; a table stored shorter than its length is
/// inflated, and must inflate to exactly its length.
pub open spec fn woff_table(d: Seq<u8>, i: nat) -> Option<SfntTableView> {
    let e: int = (44 + 20 * i) as int;
    if e + 20 > d.len() {
        None
    } else {
        let offset = be32(d, e + 4);
        let comp_len = be32(d, e + 8);
        let orig_len = be32(d, e + 12);
        if offset + comp_len > d.len() {
            None
        } else {
            let bytes = d.subrange(offset as int, (offset + comp_len) as int);
            let data = if comp_len < orig_len {
                match zlib_inflated(bytes) {
                    Some(x) => if x.len() == orig_len { Some(x) } else { None },
                    None => None,
                }
            } else {
                Some(bytes)
            };
            match data {
                Some(x) => Some(SfntTableView {
                    tag: be32(d, e) as u32,
                    checksum: be32(d, e + 16) as u32,
                    orig_len: orig_len as u32,
                    data: x,
                }),
                None => None,
            }
        }
    }
}

/// The first `n` tables of the WOFF font `d`, where each of them can be read.
pub open spec fn woff_tables(d: Seq<u8>, n: nat) -> Option<Seq<SfntTableView>>
    decreases n,
{
    if n == 0 {
        Some(Seq::empty())
    } else {
        match woff_tables(d, (n - 1) as nat) {
            None => None,
            Some(ts) => match woff_table(d, (n - 1) as nat) {
                Some(t) => Some(ts.push(t)),
                None => None,
            },
        }
    }
}

/// The plain font the WOFF font `d` wraps, where it can be unpacked.
pub open spec fn woff_decoded(d: Seq<u8>) -> Option<Seq<u8>> {
    if !is_woff(d) {
        None
    } else {
        match woff_tables(d, be16(d, 12)) {
            None => None,
            Some(ts) => Some(sfnt_output(be32(d, 4) as u32, be32(d, 16), ts)),
        }
    }
}

/// Whether unpacking `d` runs to its end: where all of its tables can be read, there
/// is at least one, each fits the font from where it starts, and the font fits memory.
pub open spec fn woff_unpacks(d: Seq<u8>) -> bool {
    is_woff(d) ==> match woff_tables(d, be16(d, 12)) {
        None => true,
        Some(ts) => sfnt_layable(be32(d, 16), ts) && sfnt_size(be32(d, 16), ts) <= usize::MAX,
    }
}

proof fn lemma_woff_tables_none(d: Seq<u8>, k: nat, n: nat)
    requires
        k <= n,
        woff_tables(d, k) is None,
    ensures
        woff_tables(d, n) is None,
    decreases n - k,
{
    if k < n {
        lemma_woff_tables_none(d, k, (n - 1) as nat);
    }
}

proof fn lemma_woff_tables_len(d: Seq<u8>, n: nat)
    requires
        woff_tables(d, n) is Some,
    ensures
        woff_tables(d, n)->0.len() == n,
    decreases n,
{
    if n > 0 {
        lemma_woff_tables_len(d, (n - 1) as nat);
    }
}

fn copy_bytes(x: &[u8]) -> (v: Vec<u8>)
    ensures
        v@ == x@,
{
    let mut v: Vec<u8> = Vec::new();
    let mut k: usize = 0;
    while k < x.len()
        invariant
            k <= x@.len(),
            v@ == x@.take(k as int),
        decreases x@.len() - k,
    {
        v.push(x[k]);
        k = k + 1;
        assert(v@ =~= x@.take(k as int));
    }
    assert(x@.take(x@.len() as int) =~= x@);
    v
}

/// Reads the table of directory entry `i` of the WOFF font `data`.
fn read_woff_table(data: &[u8], i: usize) -> (r: Option<SfntTable>)
    requires
        i <= 0xffff,
    ensures
        match woff_table(data@, i as nat) {
            Some(t) => r matches Some(x) && x@ == t,
            None => r is None,
        },
{
    let entry = 44 + i * 20;
    let tag = match read_u32(data, entry) {
        Some(v) => v,
        None => {
            return None;
        },
    };
    let offset = match read_u32(data, entry + 4) {
        Some(v) => v,
        None => {
            return None;
        },
    };
    let comp_len = match read_u32(data, entry + 8) {
        Some(v) => v,
        None => {
            return None;
        },
    };
    let orig_len = match read_u32(data, entry + 12) {
        Some(v) => v,
        None => {
            return None;
        },
    };
    let checksum = match read_u32(data, entry + 16) {
        Some(v) => v,
        None => {
            return None;
        },
    };
    let off = offset as usize;
    let clen = comp_len as usize;
    if off > data.len() || clen > data.len() - off {
        return None;
    }
    let bytes = vstd::slice::slice_subrange(data, off, off + clen);
    let table_data = if comp_len < orig_len {
        match inflate_zlib(bytes) {
            None => {
                return None;
            },
            Some(dec) => {
                if dec.len() != orig_len as usize {
                    return None;
                }
                dec
            },
        }
    } else {
        copy_bytes(bytes)
    };
    Some(SfntTable { tag, checksum, orig_len, data: table_data })
}

/// The header fields of the WOFF font `data` that unpacking reads: flavor, number of
/// tables and total size; `None` where `data` is no WOFF font.
fn woff_header(data: &[u8]) -> (r: Option<(u32, u16, u32)>)
    ensures
        match r {
            Some((flavor, n, total)) => {
                &&& is_woff(data@)
                &&& flavor == be32(data@, 4)
                &&& n == be16(data@, 12)
                &&& total == be32(data@, 16)
            },
            None => !is_woff(data@),
        },
{
    if data.len() < 20 || data[0] != 0x77u8 || data[1] != 0x4fu8 || data[2] != 0x46u8 || data[3] != 0x46u8 {
        return None;
    }
    let flavor = match read_u32(data, 4) {
        Some(v) => v,
        None => {
            return None;
        },
    };
    let num_tables = match read_u16(data, 12) {
        Some(v) => v,
        None => {
            return None;
        },
    };
    let total_size = match read_u32(data, 16) {
        Some(v) => v,
        None => {
            return None;
        },
    };
    Some((flavor, num_tables, total_size))
}

/// The first `n` tables of the WOFF font `data`, each read and inflated; `None` where one
/// cannot be.
fn woff_table_list(data: &[u8], n: u16) -> (r: Option<Vec<SfntTable>>)
    ensures
        match woff_tables(data@, n as nat) {
            Some(ts) => r matches Some(v) && tables_view(v@) == ts,
            None => r is None,
        },
{
    let count = n as usize;
    let mut tables: Vec<SfntTable> = Vec::new();
    let mut i: usize = 0;
    assert(tables_view(tables@) =~= Seq::<SfntTableView>::empty());
    while i < count
        invariant
            i <= count,
            count == n,
            count <= 0xffff,
            woff_tables(data@, i as nat) == Some(tables_view(tables@)),
        decreases count - i,
    {
        match read_woff_table(data, i) {
            None => {
                proof {
                    lemma_woff_tables_none(data@, (i + 1) as nat, count as nat);
                }
                return None;
            },
            Some(t) => {
                let ghost before = tables_view(tables@);
                let ghost tv = t@;
                tables.push(t);
                assert(tables_view(tables@) =~= before.push(tv));
            },
        }
        i = i + 1;
    }
    Some(tables)
}

/// Unpacks the WOFF font `data` into the plain font it wraps; `None` where `data` is no
/// WOFF font, or one of its tables cannot be read or inflated.
pub fn decode_woff(data: &[u8]) -> (r: Option<Vec<u8>>)
    requires
        woff_unpacks(data@),
    ensures
        match woff_decoded(data@) {
            Some(x) => r matches Some(v) && v@ == x,
            None => r is None,
        },
{
    let (flavor, num_tables, total_size) = match woff_header(data) {
        Some(h) => h,
        None => {
            return None;
        },
    };
    let tables = match woff_table_list(data, num_tables) {
        Some(t) => t,
        None => {
            return None;
        },
    };
    Some(sfnt_from_tables(flavor, total_size, tables.as_slice()))
}

/// Whether `tables` can be laid out in a font of at least `total_size` bytes that fits
/// memory: there is at least one, and each fits from where it starts.
fn layable(total_size: u32, tables: &[SfntTable]) -> (b: bool)
    ensures
        b == (sfnt_layable(total_size as nat, tables_view(tables@))
            && sfnt_size(total_size as nat, tables_view(tables@)) <= usize::MAX),
{
    let ghost ts = tables_view(tables@);
    let n = tables.len();
    if n == 0 || n > 0xffff {
        return false;
    }
    proof {
        lemma_offsets(ts, n as nat);
    }
    let end = table_offset_exec(tables, n);
    let size: u64 = if (total_size as u64) >= end {
        total_size as u64
    } else {
        end
    };
    if (size as u128) > (usize::MAX as u128) {
        return false;
    }
    let mut off = align4_u64(12 + (n as u64) * 16);
    let mut i: usize = 0;
    while i < n
        invariant
            i <= n,
            n == ts.len(),
            1 <= n <= 0xffff,
            ts == tables_view(tables@),
            size == sfnt_size(total_size as nat, ts),
            off == table_offset(ts, i as nat),
            forall|j: int| 0 <= j < i ==> table_offset(ts, j as nat) + #[trigger] ts[j].data.len() <= size,
        decreases n - i,
    {
        proof {
            lemma_offsets(ts, (i + 1) as nat);
        }
        proof {
            assert(ts[i as int] == tables@[i as int]@);
        }
        if (off as u128) + (tables[i].data.len() as u128) > (size as u128) {
            proof {
                assert(table_offset(ts, i as nat) + ts[i as int].data.len() > sfnt_size(total_size as nat, ts));
            }
            return false;
        }
        off = align4_u64(off + tables[i].orig_len as u64);
        i = i + 1;
    }
    true
}

/// Unpacks the WOFF font `data` as [`decode_woff`] does, where it can be unpacked
/// without running past what a font can lay out; `None` also where it cannot.
pub fn try_decode_woff(data: &[u8]) -> (r: Option<Vec<u8>>)
    ensures
        woff_unpacks(data@) ==> match woff_decoded(data@) {
            Some(x) => r matches Some(v) && v@ == x,
            None => r is None,
        },
        !woff_unpacks(data@) ==> r is None,
{
    let (_, num_tables, total_size) = match woff_header(data) {
        Some(h) => h,
        None => {
            return None;
        },
    };
    let tables = match woff_table_list(data, num_tables) {
        Some(t) => t,
        None => {
            return None;
        },
    };
    if !layable(total_size, tables.as_slice()) {
        return None;
    }
    decode_woff(data)
}

/// A color channel of `bg` blended toward `c` by the coverage `a` out of 255.
pub open spec fn blend_channel(bg: u32, shift: u32, c: u32, a: u32) -> u32 {
    ((c * a + ((bg >> shift) & 0xff) * (255 - a)) / 255) as u32
}

/// Blends the opaque color `(r, g, b)` over the pixel `bg` with coverage `a` out of
/// 255: each channel is the weighted mean, rounded down, and the result is opaque.
pub fn blend_pixel(bg: u32, r: u32, g: u32, b: u32, a: u32) -> (p: u32)
    requires
        a <= 255,
        r * a + ((bg >> 16u32) & 0xff) * (255 - a) <= u32::MAX,
        g * a + ((bg >> 8u32) & 0xff) * (255 - a) <= u32::MAX,
        b * a + (bg & 0xff) * (255 - a) <= u32::MAX,
    ensures
        p == 0xff00_0000u32 | (blend_channel(bg, 16, r, a) << 16u32) | (blend_channel(bg, 8, g, a) << 8u32)
            | blend_channel(bg, 0, b, a),
{
    let inv = 255 - a;
    let ro = (r * a + ((bg >> 16u32) & 0xff) * inv) / 255;
    let go = (g * a + ((bg >> 8u32) & 0xff) * inv) / 255;
    let bo = (b * a + (bg & 0xff) * inv) / 255;
    assert(bg >> 0u32 == bg) by (bit_vector);
    0xff00_0000u32 | (ro << 16u32) | (go << 8u32) | bo
}

/// The number of characters at the start of `s` that are not Unicode whitespace.
pub open spec fn word_len(s: Seq<char>) -> nat
    decreases s.len(),
{
    if s.len() == 0 || is_unicode_whitespace(s[0]) {
        0
    } else {
        1 + word_len(s.skip(1))
    }
}

/// The words of `s`: its runs of characters other than Unicode whitespace, in order.
pub open spec fn words_of(s: Seq<char>) -> Seq<Seq<char>>
    decreases s.len(),
{
    if s.len() == 0 {
        Seq::empty()
    } else if is_unicode_whitespace(s[0]) {
        words_of(s.skip(1))
    } else {
        let k = word_len(s);
        proof {
            lemma_word_len_bounds(s);
        }
        seq![s.take(k as int)] + words_of(s.skip(k as int))
    }
}

/// A word is no longer than what it is taken from, and a word that starts is not empty.
pub proof fn lemma_word_len_bounds(s: Seq<char>)
    ensures
        word_len(s) <= s.len(),
        s.len() > 0 && !is_unicode_whitespace(s[0]) ==> word_len(s) >= 1,
    decreases s.len(),
{
    if s.len() > 0 && !is_unicode_whitespace(s[0]) {
        lemma_word_len_bounds(s.skip(1));
    }
}

proof fn lemma_word_len(s: Seq<char>, k: int)
    requires
        0 <= k <= s.len(),
        forall|j: int| 0 <= j < k ==> !is_unicode_whitespace(s[j]),
        k == s.len() || is_unicode_whitespace(s[k]),
    ensures
        word_len(s) == k,
        k > 0 ==> word_len(s) <= s.len(),
    decreases k,
{
    if k > 0 {
        lemma_word_len(s.skip(1), k - 1);
    }
}

/// The words of the characters `s`.
pub fn split_words(s: &[char]) -> (r: Vec<Vec<char>>)
    ensures
        r@.map_values(|w: Vec<char>| w@) == words_of(s@),
{
    let mut out: Vec<Vec<char>> = Vec::new();
    let mut i: usize = 0;
    let n = s.len();
    assert(s@.skip(0) =~= s@);
    assert(out@.map_values(|w: Vec<char>| w@) =~= Seq::<Seq<char>>::empty());
    while i < n
        invariant
            i <= n,
            n == s@.len(),
            out@.map_values(|w: Vec<char>| w@) + words_of(s@.skip(i as int)) == words_of(s@),
        decreases n - i,
    {
        let ghost t = s@.skip(i as int);
        if char_is_whitespace(s[i]) {
            assert(t.skip(1) =~= s@.skip(i + 1));
            i = i + 1;
        } else {
            let mut j = i;
            let mut word: Vec<char> = Vec::new();
            while j < n && !char_is_whitespace(s[j])
                invariant
                    i <= j <= n,
                    n == s@.len(),
                    word@ == s@.subrange(i as int, j as int),
                    forall|q: int| i <= q < j ==> !is_unicode_whitespace(s@[q]),
                decreases n - j,
            {
                word.push(s[j]);
                j = j + 1;
                assert(word@ =~= s@.subrange(i as int, j as int));
            }
            proof {
                lemma_word_len(t, (j - i) as int);
                assert(t.take((j - i) as int) =~= word@);
                assert(t.skip((j - i) as int) =~= s@.skip(j as int));
            }
            let ghost before = out@.map_values(|w: Vec<char>| w@);
            let ghost wv = word@;
            out.push(word);
            assert(out@.map_values(|w: Vec<char>| w@) =~= before.push(wv));
            assert(before.push(wv) + words_of(s@.skip(j as int)) =~= before + (seq![wv] + words_of(s@.skip(j as int))));
            i = j;
        }
    }
    assert(s@.skip(n as int) =~= Seq::<char>::empty());
    assert(out@.map_values(|w: Vec<char>| w@) + Seq::<Seq<char>>::empty() =~= out@.map_values(|w: Vec<char>| w@));
    out
}

/// The lines of `text`, as `str::lines` gives them.
pub fn split_lines(text: &str) -> (r: Vec<Vec<char>>)
    ensures
        r@.map_values(|l: Vec<char>| l@) == lines_of(text@),
{
    let chars = str_chars(text);
    let ghost s = chars@;
    let n = chars.len();
    let mut out: Vec<Vec<char>> = Vec::new();
    let mut pos: usize = 0;
    assert(s.skip(0) =~= s);
    assert(out@.map_values(|l: Vec<char>| l@) =~= Seq::<Seq<char>>::empty());
    while pos < n
        invariant
            s == chars@,
            n == s.len(),
            pos <= n,
            out@.map_values(|l: Vec<char>| l@) + lines_of(s.skip(pos as int)) == lines_of(s),
        decreases n - pos,
    {
        let ghost t = s.skip(pos as int);
        let mut end: usize = pos;
        while end < n && chars[end] != '\n'
            invariant
                s == chars@,
                n == s.len(),
                pos <= end <= n,
                forall|j: int| pos <= j < end ==> s[j] != '\n',
            decreases n - end,
        {
            end = end + 1;
        }
        proof {
            lemma_first_line(t, end - pos);
        }
        let next: usize = if end < n { end + 1 } else { end };
        let line_end: usize = if end < n && end > pos && chars[end - 1] == '\r' { end - 1 } else { end };
        let mut line: Vec<char> = Vec::new();
        let mut k = pos;
        while k < line_end
            invariant
                pos <= k <= line_end,
                line_end <= n,
                n == chars@.len(),
                line@ == chars@.subrange(pos as int, k as int),
            decreases line_end - k,
        {
            line.push(chars[k]);
            k = k + 1;
            assert(line@ =~= chars@.subrange(pos as int, k as int));
        }
        proof {
            if end < n {
                assert(t.take((end - pos) as int) =~= s.subrange(pos as int, end as int));
                assert(line@ =~= crate::runtime::strip_cr(s.subrange(pos as int, end as int)));
                assert(t.skip(end - pos + 1) =~= s.skip(next as int));
            } else {
                assert(t =~= line@);
                assert(s.skip(next as int) =~= Seq::<char>::empty());
            }
            assert(lines_of(t) =~= seq![line@] + lines_of(s.skip(next as int)));
        }
        let ghost before = out@.map_values(|l: Vec<char>| l@);
        let ghost lv = line@;
        out.push(line);
        assert(out@.map_values(|l: Vec<char>| l@) =~= before.push(lv));
        assert(before.push(lv) + lines_of(s.skip(next as int)) =~= before + (seq![lv] + lines_of(s.skip(next as int))));
        pos = next;
    }
    assert(s.skip(n as int) =~= Seq::<char>::empty());
    assert(out@.map_values(|l: Vec<char>| l@) + Seq::<Seq<char>>::empty() =~= out@.map_values(|l: Vec<char>| l@));
    out
}

proof fn lemma_first_line(s: Seq<char>, k: int)
    requires
        0 <= k <= s.len(),
        forall|j: int| 0 <= j < k ==> s[j] != '\n',
        k == s.len() || s[k] == '\n',
    ensures
        crate::runtime::first_line_len(s) == k,
    decreases k,
{
    if k > 0 {
        lemma_first_line(s.skip(1), k - 1);
    }
}

/// What a line under construction becomes with `word` added: the word alone on an empty
/// line, else after a space.
pub open spec fn with_word(line: Seq<char>, word: Seq<char>) -> Seq<char> {
    if line.len() == 0 { word } else { line + seq![' '] + word }
}

/// The finished lines `done` and the line under construction `current` after `word` is
/// placed: where the line holds words and the word would make it too wide, the line is
/// finished and the word starts the next; else the word joins the line.
pub open spec fn placed(done: Seq<Seq<char>>, current: Seq<char>, word: Seq<char>, too_wide: bool) -> (Seq<Seq<char>>, Seq<char>) {
    if current.len() > 0 && too_wide {
        (done.push(current), word)
    } else {
        (done, with_word(current, word))
    }
}

/// The lines that placing `words` one after another gives, from no lines, where word
/// `i` is found too wide for its line exactly when `too_wide[i]` holds.
pub open spec fn wrapped(words: Seq<Seq<char>>, too_wide: Seq<bool>) -> (Seq<Seq<char>>, Seq<char>)
    decreases words.len(),
{
    if words.len() == 0 {
        (Seq::empty(), Seq::empty())
    } else {
        let p = wrapped(words.drop_last(), too_wide);
        placed(p.0, p.1, words.last(), too_wide[words.len() - 1])
    }
}

/// `lines` joined with single spaces.
pub open spec fn joined(lines: Seq<Seq<char>>) -> Seq<char>
    decreases lines.len(),
{
    if lines.len() == 0 {
        Seq::empty()
    } else if lines.len() == 1 {
        lines[0]
    } else {
        joined(lines.drop_last()) + seq![' '] + lines.last()
    }
}

proof fn lemma_joined_extend(lines: Seq<Seq<char>>, x: Seq<char>, w: Seq<char>)
    ensures
        joined(lines.push(x + seq![' '] + w)) == joined(lines.push(x)) + seq![' '] + w,
{
    let a = lines.push(x + seq![' '] + w);
    let b = lines.push(x);
    assert(a.drop_last() =~= lines);
    assert(b.drop_last() =~= lines);
    if lines.len() > 0 {
        assert(joined(a) =~= joined(b) + seq![' '] + w);
    }
}

/// Breaking lines keeps the words in order: whichever words are found too wide, the
/// lines, the one under construction last, joined with single spaces are the words
/// joined with single spaces.
pub proof fn lemma_wrapping_keeps_words(words: Seq<Seq<char>>, too_wide: Seq<bool>)
    requires
        too_wide.len() >= words.len(),
        forall|i: int| 0 <= i < words.len() ==> #[trigger] words[i].len() > 0,
    ensures
        joined(wrapped(words, too_wide).0.push(wrapped(words, too_wide).1)) == joined(words),
        words.len() > 0 ==> wrapped(words, too_wide).1.len() > 0,
        words.len() == 0 ==> wrapped(words, too_wide) == (Seq::<Seq<char>>::empty(), Seq::<char>::empty()),
    decreases words.len(),
{
    if words.len() > 0 {
        let rest = words.drop_last();
        assert forall|i: int| 0 <= i < rest.len() implies #[trigger] rest[i].len() > 0 by {
            assert(rest[i] == words[i]);
        }
        lemma_wrapping_keeps_words(rest, too_wide);
        let p = wrapped(rest, too_wide);
        let w = words.last();
        assert(w.len() > 0);
        if p.1.len() > 0 && too_wide[words.len() - 1] {
            let l = p.0.push(p.1).push(w);
            assert(l.drop_last() =~= p.0.push(p.1));
        } else if p.1.len() == 0 {
            assert(rest.len() == 0);
            assert(p.0.push(w) =~= seq![w]);
        } else {
            lemma_joined_extend(p.0, p.1, w);
        }
    } else {
        assert(Seq::<Seq<char>>::empty().push(Seq::<char>::empty()) =~= seq![Seq::<char>::empty()]);
    }
}

/// Breaks text into lines, one word at a time; whether a line is too wide is measured
/// by whoever drives it.
pub struct LineWrapper {
    lines: Vec<Vec<char>>,
    line: Vec<char>,
}

impl LineWrapper {
    /// The lines finished so far.
    pub closed spec fn done(&self) -> Seq<Seq<char>> {
        self.lines@.map_values(|l: Vec<char>| l@)
    }

    /// The line under construction.
    pub closed spec fn current(&self) -> Seq<char> {
        self.line@
    }

    pub fn new() -> (w: Self)
        ensures
            w.done() == Seq::<Seq<char>>::empty(),
            w.current() == Seq::<char>::empty(),
    {
        let w = LineWrapper { lines: Vec::new(), line: Vec::new() };
        assert(w.done() =~= Seq::<Seq<char>>::empty());
        w
    }

    /// The line under construction with `word` added.
    pub fn candidate(&self, word: &[char]) -> (c: Vec<char>)
        ensures
            c@ == with_word(self.current(), word@),
    {
        let mut c: Vec<char> = Vec::new();
        crate::text::push_chars(&mut c, self.line.as_slice());
        if self.line.len() > 0 {
            c.push(' ');
        }
        crate::text::push_chars(&mut c, word);
        assert(c@ =~= with_word(self.current(), word@));
        c
    }

    /// Adds `word`: where the line under construction holds words and adding this one
    /// would make it too wide, that line is finished and the word starts the next.
    pub fn place(&mut self, word: &[char], too_wide: bool)
        ensures
            (final(self).done(), final(self).current()) == placed(old(self).done(), old(self).current(), word@, too_wide),
    {
        if self.line.len() > 0 && too_wide {
            let ghost before = self.done();
            let mut w: Vec<char> = Vec::new();
            crate::text::push_chars(&mut w, word);
            let mut finished = w;
            std::mem::swap(&mut self.line, &mut finished);
            let ghost fv = finished@;
            self.lines.push(finished);
            assert(self.done() =~= before.push(fv));
        } else {
            let c = self.candidate(word);
            self.line = c;
        }
    }

    /// Finishes the line under construction, empty or not.
    pub fn end_line(&mut self)
        ensures
            final(self).done() == old(self).done().push(old(self).current()),
            final(self).current() == Seq::<char>::empty(),
    {
        let ghost before = self.done();
        let mut finished: Vec<char> = Vec::new();
        std::mem::swap(&mut self.line, &mut finished);
        let ghost fv = finished@;
        self.lines.push(finished);
        assert(self.done() =~= before.push(fv));
    }

    /// The finished lines; a text with no lines gives one empty line.
    pub fn finish(self) -> (r: Vec<String>)
        ensures
            r@.map_values(|s: String| s@) == if self.done().len() == 0 {
                seq![Seq::<char>::empty()]
            } else {
                self.done()
            },
    {
        let mut out: Vec<String> = Vec::new();
        if self.lines.len() == 0 {
            let empty: Vec<char> = Vec::new();
            out.push(string_from_chars(empty.as_slice()));
            assert(out@.map_values(|s: String| s@) =~= seq![Seq::<char>::empty()]);
            return out;
        }
        let mut i: usize = 0;
        while i < self.lines.len()
            invariant
                i <= self.lines@.len(),
                out@.map_values(|s: String| s@) == self.done().take(i as int),
            decreases self.lines@.len() - i,
        {
            let ghost before = out@.map_values(|s: String| s@);
            let line = string_from_chars(self.lines[i].as_slice());
            assert(line@ == self.done()[i as int]);
            out.push(line);
            assert(out@.map_values(|s: String| s@) =~= before.push(line@));
            assert(self.done().take(i + 1) =~= self.done().take(i as int).push(self.done()[i as int]));
            i = i + 1;
        }
        assert(self.done().take(self.lines@.len() as int) =~= self.done());
        out
    }
}

/// Rounding up to a multiple of four gives a multiple of four, less than four above.
pub proof fn lemma_align4(v: nat)
    ensures
        align4_of(v) % 4 == 0,
        v <= align4_of(v) < v + 4,
{
}

proof fn lemma_written_len(out: Seq<u8>, ts: Seq<SfntTableView>, k: nat)
    requires
        k <= ts.len(),
        12 + 16 * ts.len() <= out.len(),
    ensures
        tables_written(out, ts, k).len() == out.len(),
    decreases k,
{
    if k > 0 {
        lemma_written_len(out, ts, (k - 1) as nat);
    }
}

/// Writing the tables after table `i` leaves the bytes of table `i` alone, where every
/// table holds exactly its length.
proof fn lemma_written_keeps(out: Seq<u8>, ts: Seq<SfntTableView>, i: nat, k: nat, p: int)
    requires
        ts.len() <= 0xffff,
        i < k <= ts.len(),
        forall|q: int| 0 <= q < ts.len() ==> #[trigger] ts[q].data.len() == ts[q].orig_len,
        table_offset(ts, i) <= p < table_offset(ts, i) + ts[i as int].data.len(),
        p < out.len(),
        12 + 16 * ts.len() <= out.len(),
    ensures
        tables_written(out, ts, k)[p] == tables_written(out, ts, (i + 1) as nat)[p],
    decreases k,
{
    if k > i + 1 {
        let m = (k - 1) as nat;
        lemma_written_keeps(out, ts, i, m, p);
        lemma_written_len(out, ts, m);
        lemma_offsets(ts, ts.len() as nat);
        lemma_offset_mono(ts, 0, i);
        lemma_offset_mono(ts, i + 1, m);
        lemma_offsets(ts, i + 1);
        lemma_align4(table_offset(ts, i) + ts[i as int].orig_len as nat);
        assert(table_offset(ts, i + 1) >= table_offset(ts, i) + ts[i as int].orig_len);
        assert(12 + 16 * m + 16 <= table_offset(ts, 0));
    }
}

/// Where every table holds exactly its length, each table's bytes stand in the font at
/// the offset its directory entry gives.
pub proof fn lemma_sfnt_table_bytes(flavor: u32, total: nat, ts: Seq<SfntTableView>, i: int, j: int)
    requires
        sfnt_layable(total, ts),
        forall|q: int| 0 <= q < ts.len() ==> #[trigger] ts[q].data.len() == ts[q].orig_len,
        0 <= i < ts.len(),
        0 <= j < ts[i].data.len(),
    ensures
        sfnt_output(flavor, total, ts)[table_offset(ts, i as nat) + j] == ts[i].data[j],
{
    let n = ts.len();
    let size = sfnt_size(total, ts);
    let header = sfnt_header(flavor, total, ts);
    let p = table_offset(ts, i as nat) + j;
    lemma_offsets(ts, n as nat);
    lemma_offsets(ts, 0);
    assert(ts[i].data.len() == ts[i].orig_len);
    assert(table_offset(ts, i as nat) + ts[i].data.len() <= size);
    assert(header.len() == size);
    lemma_written_len(header, ts, i as nat);
    lemma_written_keeps(header, ts, i as nat, n as nat, p);
}

} // verus!
