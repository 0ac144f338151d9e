//! Parsing and display helpers for values the vendor SDK reports:
//! sentinel-terminated name arrays, camera ids, binning lists, image
//! types and Bayer patterns.

use vstd::prelude::*;
use vstd::slice::slice_index_get;
use vstd::string::StringExecFns;
use crate::numtext::{int_chars, i64_to_string};
use rand::Rng;

verus! {

/// Relies on String::push, which appends one character.
pub assume_specification[ String::push ](s: &mut String, ch: char)
    ensures
        final(s)@ == old(s)@.push(ch),
;

/// Relies on core::str::from_utf8: it succeeds exactly on valid UTF-8
/// and decodes it.
#[verifier::external_body]
fn bytes_to_str(v: &[u8]) -> (r: Option<&str>)
    ensures
        match r {
            Some(s) => vstd::utf8::valid_utf8(v@) && s@ == vstd::utf8::decode_utf8(v@),
            None => !vstd::utf8::valid_utf8(v@),
        },
{
    match core::str::from_utf8(v) {
        Ok(s) => Some(s),
        Err(_) => None,
    }
}

/// How many leading entries of a name array come before the first
/// zero sentinel.
pub open spec fn zero_prefix_len_i8(a: Seq<i8>) -> int
    decreases a.len(),
{
    if a.len() == 0 || a[0] == 0 {
        0
    } else {
        1 + zero_prefix_len_i8(a.drop_first())
    }
}

proof fn lemma_zero_prefix_i8(a: Seq<i8>, k: int)
    requires
        0 <= k <= a.len(),
        forall|j: int| 0 <= j < k ==> a[j] != 0,
        k == a.len() || a[k] == 0,
    ensures
        zero_prefix_len_i8(a) == k,
    decreases a.len(),
{
    if a.len() > 0 && a[0] != 0 {
        assert(forall|j: int| 0 <= j < k - 1 ==> #[trigger] a.drop_first()[j] == a[j + 1]);
        lemma_zero_prefix_i8(a.drop_first(), k - 1);
    }
}

/// The character one name-array entry turns into: printable entries
/// (positive, hence ASCII) stand for themselves, anything else becomes
/// a `#` placeholder.
pub open spec fn name_char(e: i8) -> char {
    if e > 0 {
        (e as u8) as char
    } else {
        '#'
    }
}

/// The text a sentinel-terminated name array denotes.
pub open spec fn name_chars(a: Seq<i8>) -> Seq<char> {
    Seq::new(zero_prefix_len_i8(a) as nat, |i: int| name_char(a[i]))
}

/// Decode a sentinel-terminated name array from the SDK: the entries
/// before the first zero, each non-printable one replaced by `#`.
pub fn asi_name_to_string(name_array: &[i8]) -> (r: String)
    ensures
        r@ == name_chars(name_array@),
{
    let n: usize = name_array.len();
    let mut s: String = String::new();
    let mut i: usize = 0;
    while i < n && *slice_index_get(name_array, i) != 0
        invariant
            0 <= i <= n,
            n == name_array@.len(),
            forall|j: int| 0 <= j < i ==> name_array@[j] != 0,
            s@ == Seq::new(i as nat, |j: int| name_char(name_array@[j])),
        decreases n - i,
    {
        let e: i8 = *slice_index_get(name_array, i);
        if e > 0 {
            s.push(e as u8 as char);
        } else {
            s.push('#');
        }
        proof {
            assert(s@ =~= Seq::new((i + 1) as nat, |j: int| name_char(name_array@[j])));
        }
        i = i + 1;
    }
    proof {
        lemma_zero_prefix_i8(name_array@, i as int);
        assert(s@ =~= name_chars(name_array@));
    }
    s
}

/// Decode a sentinel-terminated name array of `i8` entries.
pub fn asi_name_to_string_i8(name_array: &[i8]) -> (r: String)
    ensures
        r@ == name_chars(name_array@),
{
    asi_name_to_string(name_array)
}

/// How many leading bytes of an id array come before the first zero.
pub open spec fn zero_prefix_len_u8(a: Seq<u8>) -> int
    decreases a.len(),
{
    if a.len() == 0 || a[0] == 0 {
        0
    } else {
        1 + zero_prefix_len_u8(a.drop_first())
    }
}

proof fn lemma_zero_prefix_u8(a: Seq<u8>, k: int)
    requires
        0 <= k <= a.len(),
        forall|j: int| 0 <= j < k ==> a[j] != 0,
        k == a.len() || a[k] == 0,
    ensures
        zero_prefix_len_u8(a) == k,
    decreases a.len(),
{
    if a.len() > 0 && a[0] != 0 {
        assert(forall|j: int| 0 <= j < k - 1 ==> #[trigger] a.drop_first()[j] == a[j + 1]);
        lemma_zero_prefix_u8(a.drop_first(), k - 1);
    }
}

/// The text an id array denotes: its bytes before the first zero,
/// decoded as UTF-8, or `UNKNOWN` when they are not valid UTF-8.
pub open spec fn id_chars(a: Seq<u8>) -> Seq<char> {
    let p = a.take(zero_prefix_len_u8(a));
    if vstd::utf8::valid_utf8(p) {
        vstd::utf8::decode_utf8(p)
    } else {
        "UNKNOWN"@
    }
}

/// Decode a camera id array: the bytes before the first zero as UTF-8
/// text, or `UNKNOWN` when they do not decode.
pub fn asi_id_to_string(id_array: &[u8]) -> (r: String)
    ensures
        r@ == id_chars(id_array@),
{
    let n: usize = id_array.len();
    let mut prefix: Vec<u8> = Vec::new();
    let mut i: usize = 0;
    while i < n && *slice_index_get(id_array, i) != 0
        invariant
            0 <= i <= n,
            n == id_array@.len(),
            forall|j: int| 0 <= j < i ==> id_array@[j] != 0,
            prefix@ == id_array@.take(i as int),
        decreases n - i,
    {
        prefix.push(*slice_index_get(id_array, i));
        proof {
            assert(prefix@ =~= id_array@.take((i + 1) as int));
        }
        i = i + 1;
    }
    proof {
        lemma_zero_prefix_u8(id_array@, i as int);
    }
    match bytes_to_str(prefix.as_slice()) {
        Some(s) => s.to_owned(),
        None => String::from_str("UNKNOWN"),
    }
}

/// The human-readable binning list a supported-bins array denotes:
/// each entry before the first zero as `NxN`, comma separated.
pub open spec fn binning_chars(a: Seq<i32>, i: int) -> Seq<char>
    decreases a.len() - i,
{
    if i < 0 || i >= a.len() || a[i] == 0 {
        Seq::empty()
    } else {
        (if i != 0 {
            seq![',']
        } else {
            Seq::<char>::empty()
        }) + int_chars(a[i] as int) + seq!['x'] + int_chars(a[i] as int) + binning_chars(a, i + 1)
    }
}

/// Given an array of binning factors, return the human friendly list:
/// `[1, 2, 3]` becomes `1x1,2x2,3x3`.  A zero entry ends the list.
pub fn int_to_binning_str(array: &[i32]) -> (r: String)
    ensures
        r@ == binning_chars(array@, 0),
{
    proof {
        reveal_strlit(",");
        reveal_strlit("x");
    }
    let n: usize = array.len();
    let mut s: String = String::new();
    let mut i: usize = 0;
    while i < n && *slice_index_get(array, i) != 0
        invariant
            0 <= i <= n,
            n == array@.len(),
            ","@ == seq![','],
            "x"@ == seq!['x'],
            binning_chars(array@, 0) == s@ + binning_chars(array@, i as int),
        decreases n - i,
    {
        let el: i32 = *slice_index_get(array, i);
        if i != 0 {
            s.append(",");
        }
        let digits = i64_to_string(el as i64);
        s.append(digits.as_str());
        s.append("x");
        s.append(digits.as_str());
        proof {
            assert(binning_chars(array@, 0) =~= s@ + binning_chars(array@, i + 1));
        }
        i = i + 1;
    }
    s
}

/// The name of one image type code.
pub open spec fn image_type_chars(i: int) -> Seq<char> {
    if i == 0 {
        "RAW8"@
    } else if i == 1 {
        "RGB24"@
    } else if i == 2 {
        "RAW16"@
    } else if i == 3 {
        "Y8"@
    } else if i == -1 {
        "END"@
    } else {
        "UNKNOWN"@
    }
}

/// Given an image type code, return its human friendly name.
pub fn int_to_image_type(i: i32) -> (r: String)
    ensures
        r@ == image_type_chars(i as int),
{
    let s: &'static str = match i {
        0 => "RAW8",
        1 => "RGB24",
        2 => "RAW16",
        3 => "Y8",
        -1 => "END",
        _ => "UNKNOWN",
    };
    s.to_owned()
}

/// The comma-separated names a supported-video-format array denotes;
/// a `-1` entry ends the list.
pub open spec fn image_types_chars(a: Seq<i32>, i: int) -> Seq<char>
    decreases a.len() - i,
{
    if i < 0 || i >= a.len() || a[i] == -1 {
        Seq::empty()
    } else {
        (if i != 0 {
            seq![',']
        } else {
            Seq::<char>::empty()
        }) + image_type_chars(a[i] as int) + image_types_chars(a, i + 1)
    }
}

/// Given an array of image type codes, return the comma-separated list
/// of their names.  A `-1` entry ends the list.
pub fn int_to_image_type_array(array: &[i32]) -> (r: String)
    ensures
        r@ == image_types_chars(array@, 0),
{
    proof {
        reveal_strlit(",");
    }
    let n: usize = array.len();
    let mut s: String = String::new();
    let mut i: usize = 0;
    while i < n && *slice_index_get(array, i) != -1
        invariant
            0 <= i <= n,
            n == array@.len(),
            ","@ == seq![','],
            image_types_chars(array@, 0) == s@ + image_types_chars(array@, i as int),
        decreases n - i,
    {
        let el: i32 = *slice_index_get(array, i);
        if i != 0 {
            s.append(",");
        }
        let name = int_to_image_type(el);
        s.append(name.as_str());
        proof {
            assert(image_types_chars(array@, 0) =~= s@ + image_types_chars(array@, i + 1));
        }
        i = i + 1;
    }
    s
}

/// The two-letter name of a Bayer pattern code.
pub open spec fn bayer_chars(n: int) -> Seq<char> {
    if n == 0 {
        "RG"@
    } else if n == 1 {
        "BG"@
    } else if n == 2 {
        "GR"@
    } else if n == 3 {
        "GB"@
    } else {
        "UNKNOWN"@
    }
}

/// The name of the Bayer filter layout a camera reports.
pub fn bayer_pattern_to_str(n: &u32) -> (r: &'static str)
    ensures
        r@ == bayer_chars(*n as int),
{
    match *n {
        0 => "RG",
        1 => "BG",
        2 => "GR",
        3 => "GB",
        _ => "UNKNOWN",
    }
}

/// Whether a byte is an ASCII letter or digit.
pub open spec fn is_alnum_byte(b: u8) -> bool {
    (48 <= b <= 57) || (65 <= b <= 90) || (97 <= b <= 122)
}

/// Relies on rand's `Alphanumeric` distribution: one uniformly drawn
/// ASCII letter or digit.
#[verifier::external_body]
fn random_alphanumeric_byte() -> (r: u8)
    ensures
        is_alnum_byte(r),
{
    rand::thread_rng().sample(rand::distributions::Alphanumeric)
}

/// Pick the id to store in a camera's flash memory: the requested one,
/// or eight random alphanumeric bytes when none is requested.
pub fn fresh_camera_id(requested: Option<[u8; 8]>) -> (r: [u8; 8])
    ensures
        match requested {
            Some(id) => r == id,
            None => forall|i: int| 0 <= i < 8 ==> is_alnum_byte(#[trigger] r@[i]),
        },
{
    match requested {
        Some(id) => id,
        None => {
            let b0 = random_alphanumeric_byte();
            let b1 = random_alphanumeric_byte();
            let b2 = random_alphanumeric_byte();
            let b3 = random_alphanumeric_byte();
            let b4 = random_alphanumeric_byte();
            let b5 = random_alphanumeric_byte();
            let b6 = random_alphanumeric_byte();
            let b7 = random_alphanumeric_byte();
            let r: [u8; 8] = [b0, b1, b2, b3, b4, b5, b6, b7];
            proof {
                assert(r@ =~= seq![b0, b1, b2, b3, b4, b5, b6, b7]);
            }
            r
        },
    }
}

/// Whether a camera id read back from flash is blank (never assigned).
pub fn asi_id_is_blank(id: &[u8; 8]) -> (r: bool)
    ensures
        r == (forall|i: int| 0 <= i < 8 ==> id@[i] == 0),
{
    let sl: &[u8] = id.as_slice();
    let mut i: usize = 0;
    let mut blank: bool = true;
    while i < 8
        invariant
            0 <= i <= 8,
            sl@ == id@,
            sl@.len() == 8,
            blank == (forall|j: int| 0 <= j < i ==> id@[j] == 0),
        decreases 8 - i,
    {
        if *slice_index_get(sl, i) != 0 {
            blank = false;
        }
        i = i + 1;
    }
    blank
}

} // verus!
