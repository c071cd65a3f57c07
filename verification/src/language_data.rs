//! The interface language table that MakeMKV sends compressed: names of
//! attribute values, looked up by number.

use crate::error::MakeMkvError;
use crate::text::{push_decimal, spec_decimal};
use crate::util::{spec_le_u32, u32_from_le_bytes};
use std::collections::HashMap;
use std::io::Read;
use vstd::prelude::*;
use vstd::string::*;

verus! {

broadcast use vstd::std_specs::hash::group_hash_axioms;

/// The number of interface strings that the client asks for with its
/// language table.
pub const AP_APP_LOC_MAX: u32 = 7000;

/// The names of attribute values, by number.
pub struct LanguageData {
    pub table: HashMap<u32, String>,
}

impl View for LanguageData {
    type V = Map<u32, Seq<char>>;

    open spec fn view(&self) -> Map<u32, Seq<char>> {
        Map::new(|k: u32| self.table@.contains_key(k), |k: u32| self.table@[k]@)
    }
}

/// The number of entries of a language table.
pub open spec fn lang_count(d: Seq<u8>) -> int {
    spec_le_u32(d.subrange(0, 4))
}

/// The number of entry `k`, little-endian after the count.
pub open spec fn lang_id(d: Seq<u8>, k: int) -> int {
    spec_le_u32(d.subrange(4 + 4 * k, 8 + 4 * k))
}

/// The offset of the text of entry `k`, in units of four bytes, stored
/// after all the entry numbers.
pub open spec fn lang_offset(d: Seq<u8>, k: int) -> int {
    let c = lang_count(d);
    spec_le_u32(d.subrange(4 + 4 * k + 4 * c, 8 + 4 * k + 4 * c))
}

/// A table that can be read without going out of bounds: the count, the
/// numbers and the offsets lie in the data, and every offset, times four,
/// fits in 32 bits and points into the data.
pub open spec fn spec_language_data_ok(d: Seq<u8>) -> bool {
    &&& d.len() >= 4
    &&& 8 * lang_count(d) + 4 <= d.len()
    &&& forall|k: int|
        0 <= k < lang_count(d) ==> #[trigger] lang_offset(d, k) < 0x4000_0000 && 4 * lang_offset(
            d,
            k,
        ) <= d.len()
}

/// The table of the first `n` entries. The text of an entry starts at its
/// offset and ends at its terminator; the search for the terminator
/// compares a one-byte window with a two-byte pattern, so it never finds
/// one and every text is empty.
pub open spec fn spec_language_table(d: Seq<u8>, n: nat) -> Map<u32, Seq<char>>
    decreases n,
{
    if n == 0 {
        Map::empty()
    } else {
        spec_language_table(d, (n - 1) as nat).insert(
            lang_id(d, n - 1) as u32,
            Seq::empty(),
        )
    }
}

/// Where the UTF-16 terminator of `data` starts. The search looks at each
/// even offset and compares the one byte there with the two-byte pattern
/// `[0, 0]`, which never matches.
pub fn find_utf16_terminator(data: &[u8]) -> (r: Option<usize>)
    ensures
        r is None,
{
    let n = data.len();
    let mut i: usize = 0;
    while i < n
        invariant
            n == data@.len(),
            i <= n,
        decreases n - i,
    {
        let window = &data[i..i + 1];
        if window.len() == 2 && window[0] == 0 && window[1] == 0 {
            return Some(i);
        }
        if n - i <= 2 {
            return None;
        }
        i = i + 2;
    }
    None
}

/// The little-endian 16-bit units of a byte sequence of even length.
pub open spec fn spec_u8_to_u16(d: Seq<u8>) -> Seq<u16> {
    Seq::new(d.len() / 2, |k: int| (d[2 * k] + 256 * d[2 * k + 1]) as u16)
}

/// The little-endian 16-bit units of a byte slice of even length.
pub fn u8_to_u16(data: &[u8]) -> (r: Vec<u16>)
    requires
        data@.len() % 2 == 0,
    ensures
        r@ == spec_u8_to_u16(data@),
{
    let mut units: Vec<u16> = Vec::new();
    let mut i: usize = 0;
    while i < data.len()
        invariant
            i <= data@.len(),
            i % 2 == 0,
            data@.len() % 2 == 0,
            units@ == spec_u8_to_u16(data@.subrange(0, i as int)),
        decreases data@.len() - i,
    {
        units.push(data[i] as u16 + 256 * (data[i + 1] as u16));
        i = i + 2;
        assert(units@ =~= spec_u8_to_u16(data@.subrange(0, i as int)));
    }
    assert(data@.subrange(0, i as int) =~= data@);
    units
}

/// What lossy UTF-16 decoding makes of a sequence of code units.
pub uninterp spec fn utf16_lossy(units: Seq<u16>) -> Seq<char>;

/// Decodes UTF-16, replacing invalid units with U+FFFD.
///
/// Calls `String::from_utf16_lossy`. The contract names its result and
/// states that no units give the empty string.
#[verifier::external_body]
fn from_utf16_lossy(units: &[u16]) -> (s: String)
    ensures
        s@ == utf16_lossy(units@),
        units@.len() == 0 ==> s@ == Seq::<char>::empty(),
{
    String::from_utf16_lossy(units)
}

/// The four bytes at `at`, read little-endian.
fn le_u32_at(d: &[u8], at: usize) -> (r: u32)
    requires
        at + 4 <= d@.len(),
    ensures
        r == spec_le_u32(d@.subrange(at as int, at + 4)),
{
    let n = d.len();
    assert(at + 4 <= n);
    let b = [d[at], d[at + 1], d[at + 2], d[at + 3]];
    u32_from_le_bytes(b)
}

impl LanguageData {
    /// The table that the data holds.
    pub fn new(data: &[u8]) -> (l: LanguageData)
        requires
            spec_language_data_ok(data@),
        ensures
            l@ == spec_language_table(data@, lang_count(data@) as nat),
    {
        let mut table: HashMap<u32, String> = HashMap::new();
        let n = data.len();
        let count = le_u32_at(data, 0) as usize;
        let mut k: usize = 0;
        while k < count
            invariant
                n == data@.len(),
                spec_language_data_ok(data@),
                count == lang_count(data@),
                k <= count,
                Map::new(|x: u32| table@.contains_key(x), |x: u32| table@[x]@)
                    == spec_language_table(data@, k as nat),
            decreases count - k,
        {
            let i = 4 + 4 * k;
            let id = le_u32_at(data, i);
            let offset = le_u32_at(data, i + 4 * count);
            assert(lang_offset(data@, k as int) == offset);
            let start = (offset * 4) as usize;
            let end = match find_utf16_terminator(&data[start..data.len()]) {
                Some(t) => start + t,
                None => start,
            };
            let units = u8_to_u16(&data[start..end]);
            let value = from_utf16_lossy(units.as_slice());
            let ghost before = table@;
            table.insert(id, value);
            assert(Map::new(|x: u32| table@.contains_key(x), |x: u32| table@[x]@)
                =~= spec_language_table(data@, (k + 1) as nat));
            k = k + 1;
        }
        LanguageData { table }
    }

    /// The name with the given number.
    pub fn get(&self, id: u32) -> (r: Option<String>)
        ensures
            r matches Some(s) ==> self@.contains_key(id) && s@ == self@[id],
            r is None ==> !self@.contains_key(id),
    {
        match self.table.get(&id) {
            Some(v) => Some(v.clone()),
            None => None,
        }
    }
}

/// What zlib decompression makes of a byte sequence, if it is a valid
/// stream.
pub uninterp spec fn zlib_inflate(data: Seq<u8>) -> Option<Seq<u8>>;

/// Decompresses a zlib stream; a failure is reported with the text of its
/// I/O error.
///
/// Calls `flate2::bufread::ZlibDecoder::new` and `Read::read_to_end`. The
/// contract names the decompressed bytes; the text of a failure is the
/// `Display` of the I/O error, which nothing states.
#[verifier::external_body]
fn zlib_decompress(data: &[u8]) -> (r: Result<Vec<u8>, String>)
    ensures
        r is Ok <==> zlib_inflate(data@) is Some,
        r matches Ok(v) ==> zlib_inflate(data@) == Some(v@),
{
    let mut out = Vec::new();
    match flate2::bufread::ZlibDecoder::new(data).read_to_end(&mut out) {
        Ok(_) => Ok(out),
        Err(e) => Err(e.to_string()),
    }
}

/// The language table of a response to `CallGetInterfaceLanguageData`, whose
/// arguments are the unpacked and the packed size and whose data is the
/// packed table.
pub open spec fn spec_language_response(args: Seq<u32>, data: Seq<u8>) -> Option<
    Map<u32, Seq<char>>,
> {
    if args.len() < 2 || args[1] != data.len() {
        None
    } else {
        match zlib_inflate(data) {
            Some(u) => if u.len() == args[0] && spec_language_data_ok(u) {
                Some(spec_language_table(u, lang_count(u) as nat))
            } else {
                None
            },
            None => None,
        }
    }
}

/// The message of a packed size that is not the size of the data.
pub open spec fn spec_packed_size_message(args: Seq<u32>, data_len: nat) -> Seq<char> {
    "Returned data size "@ + spec_decimal(data_len) + " does not match expected data size "@
        + spec_decimal(args[1] as nat) + ", unpacked size: "@ + spec_decimal(args[0] as nat)
}

impl LanguageData {
    /// The language table of a response: at least two arguments, data of
    /// the packed size, a stream that decompresses to the unpacked size, and
    /// a table that can be read. Each failure is an error of its own: a
    /// short or mismatched response, a table of the wrong size or one that
    /// cannot be read is an invalid response, and a stream that does not
    /// decompress is reported with the text of its I/O error.
    pub fn from_response(args: &[u32], data: &[u8]) -> (r: Result<LanguageData, MakeMkvError>)
        ensures
            match spec_language_response(args@, data@) {
                Some(t) => r matches Ok(l) && l@ == t,
                None => r is Err,
            },
            args@.len() < 2 ==> {
                &&& r matches Err(MakeMkvError::InvalidResponse(m))
                &&& m@ == "Load language interface returned less than two args"@
            },
            args@.len() >= 2 && args@[1] != data@.len() ==> {
                &&& r matches Err(MakeMkvError::InvalidResponse(m))
                &&& m@ == spec_packed_size_message(args@, data@.len())
            },
            args@.len() >= 2 && args@[1] == data@.len() ==> match zlib_inflate(data@) {
                None => {
                    &&& r matches Err(MakeMkvError::MakeMkv(m))
                    &&& exists|t: Seq<char>| m@ == "IO Error: "@ + t
                },
                Some(u) => {
                    &&& u.len() != args@[0] ==> {
                        &&& r matches Err(MakeMkvError::InvalidResponse(m))
                        &&& m@ == "Decompressed data size does not match expected data size"@
                    }
                    &&& u.len() == args@[0] && !spec_language_data_ok(u) ==> {
                        &&& r matches Err(MakeMkvError::InvalidResponse(m))
                        &&& m@ == "Language data is malformed"@
                    }
                },
            },
    {
        if args.len() < 2 {
            return Err(
                MakeMkvError::InvalidResponse(
                    "Load language interface returned less than two args".to_owned(),
                ),
            );
        }
        let unpacked_size = args[0];
        let packed_size = args[1];
        if packed_size as usize != data.len() {
            let mut m = String::new();
            m.append("Returned data size ");
            push_decimal(&mut m, data.len() as u64);
            m.append(" does not match expected data size ");
            push_decimal(&mut m, packed_size as u64);
            m.append(", unpacked size: ");
            push_decimal(&mut m, unpacked_size as u64);
            return Err(MakeMkvError::InvalidResponse(m));
        }
        let unpacked = match zlib_decompress(data) {
            Ok(u) => u,
            Err(e) => {
                let mut m = String::new();
                m.append("IO Error: ");
                m.append(e.as_str());
                assert(m@ == "IO Error: "@ + e@);
                return Err(MakeMkvError::MakeMkv(m));
            },
        };
        if unpacked.len() != unpacked_size as usize {
            return Err(
                MakeMkvError::InvalidResponse(
                    "Decompressed data size does not match expected data size".to_owned(),
                ),
            );
        }
        if !language_data_ok(unpacked.as_slice()) {
            return Err(MakeMkvError::InvalidResponse("Language data is malformed".to_owned()));
        }
        Ok(LanguageData::new(unpacked.as_slice()))
    }
}

/// Whether a language table can be read without going out of bounds.
pub fn language_data_ok(d: &[u8]) -> (b: bool)
    ensures
        b == spec_language_data_ok(d@),
{
    let n = d.len();
    if n < 4 {
        return false;
    }
    let count = le_u32_at(d, 0) as u64;
    if 8 * count + 4 > n as u64 {
        return false;
    }
    let c = count as usize;
    let mut k: usize = 0;
    while k < c
        invariant
            n == d@.len(),
            c == lang_count(d@),
            8 * c + 4 <= n,
            k <= c,
            forall|j: int|
                0 <= j < k ==> #[trigger] lang_offset(d@, j) < 0x4000_0000 && 4 * lang_offset(
                    d@,
                    j,
                ) <= n,
        decreases c - k,
    {
        let offset = le_u32_at(d, 4 + 4 * k + 4 * c);
        assert(lang_offset(d@, k as int) == offset);
        if offset >= 0x4000_0000 || 4 * (offset as u64) > n as u64 {
            return false;
        }
        k = k + 1;
    }
    true
}

} // verus!
