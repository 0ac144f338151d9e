//! FITS encoder: serializes a raw pixel buffer into the fixed-block
//! binary image format.
//!
//! The output is a sequence of 80-byte ASCII header records, padded with
//! spaces to a multiple of the 2880-byte block size, followed by the
//! pixel data verbatim, padded again to a block boundary.  The encoder
//! is pure: it performs no I/O and its output is pinned byte for byte.

use vstd::prelude::*;

verus! {

broadcast use vstd::string::is_ascii_spec_bytes;

/// The bytes of an ASCII string, one byte per character.
pub open spec fn ascii_bytes(s: Seq<char>) -> Seq<u8> {
    Seq::new(s.len(), |i: int| s[i] as u8)
}

/// Decimal digits of a natural number, most significant first.
pub open spec fn dec_bytes(n: nat) -> Seq<u8>
    decreases n,
{
    if n < 10 {
        seq![(48 + n) as u8]
    } else {
        dec_bytes(n / 10).push((48 + n % 10) as u8)
    }
}

/// How many digits a number below ten thousand has.
proof fn lemma_dec_bytes_len(n: nat)
    requires
        n < 10000,
    ensures
        dec_bytes(n).len() == if n < 10 {
            1int
        } else if n < 100 {
            2int
        } else if n < 1000 {
            3int
        } else {
            4int
        },
    decreases n,
{
    if n >= 10 {
        lemma_dec_bytes_len(n / 10);
    }
}

/// Padding needed to reach the next multiple of the block size.
pub open spec fn fill_to_block(len: int) -> int {
    if len % 2880 == 0 {
        0
    } else {
        2880 - len % 2880
    }
}

/// A run of ASCII spaces.
pub open spec fn spaces(n: int) -> Seq<u8> {
    Seq::new(n as nat, |i: int| 32u8)
}

proof fn lemma_fill_aligns(n: int)
    requires
        n >= 0,
    ensures
        (n + fill_to_block(n)) % 2880 == 0,
        0 <= fill_to_block(n) < 2880,
{
    vstd::arithmetic::div_mod::lemma_fundamental_div_mod(n, 2880);
    if n % 2880 != 0 {
        let q = n / 2880;
        assert(n + (2880 - n % 2880) == (q + 1) * 2880);
        vstd::arithmetic::div_mod::lemma_mod_multiples_basic(q + 1, 2880);
    }
}

/// The mandatory conformance record.
pub open spec fn simple_record() -> Seq<u8> {
    ascii_bytes("SIMPLE  =                    T / file conforms to FITS standard                 "@)
}

/// The bits-per-pixel record: `16` for sixteen-bit data, ` 8` otherwise.
pub open spec fn bitpix_record(bit_depth: int) -> Seq<u8> {
    if bit_depth == 16 {
        ascii_bytes(
            "BITPIX  =                   16 / number of bits per data pixel                  "@,
        )
    } else {
        ascii_bytes(
            "BITPIX  =                    8 / number of bits per data pixel                  "@,
        )
    }
}

/// The number-of-axes record; an image always has two axes.
pub open spec fn naxis_record() -> Seq<u8> {
    ascii_bytes("NAXIS   =                    2 / number of axis                                 "@)
}

/// The first-axis (width) record: the size right-justified in a
/// four-digit field, so every record is the same width.
pub open spec fn naxis1_record(w: int) -> Seq<u8> {
    ascii_bytes("NAXIS1  =                 "@) + spaces(4 - dec_bytes(w as nat).len()) + dec_bytes(
        w as nat,
    ) + ascii_bytes(" / length of data axis 1                          "@)
}

/// The second-axis (height) record.
pub open spec fn naxis2_record(h: int) -> Seq<u8> {
    ascii_bytes("NAXIS2  =                 "@) + spaces(4 - dec_bytes(h as nat).len()) + dec_bytes(
        h as nat,
    ) + ascii_bytes(" / length of data axis 2                          "@)
}

/// The terminating marker.
pub open spec fn end_marker() -> Seq<u8> {
    ascii_bytes("END"@)
}

/// All header records, before block padding.
pub open spec fn header_records(bit_depth: int, w: int, h: int) -> Seq<u8> {
    simple_record() + bitpix_record(bit_depth) + naxis_record() + naxis1_record(w)
        + naxis2_record(h) + end_marker()
}

/// The header block: the records padded with spaces to a multiple of
/// the 2880-byte block size.
pub open spec fn header_block(bit_depth: int, w: int, h: int) -> Seq<u8> {
    header_records(bit_depth, w, h) + spaces(fill_to_block(header_records(bit_depth, w, h).len() as int))
}

/// The whole encoded file: header block, pixel data verbatim, and a
/// final space padding to a block boundary.
pub open spec fn encoded(bit_depth: int, w: int, h: int, data: Seq<u8>) -> Seq<u8> {
    header_block(bit_depth, w, h) + data + spaces(
        fill_to_block(header_block(bit_depth, w, h).len() + data.len() as int),
    )
}

/// Relies on rfitsio::fill_to_2880: the number of padding bytes needed
/// to align `n` to the next 2880-byte block boundary, zero if `n` is
/// already aligned.
#[verifier::external_body]
fn fill_to_2880(n: i32) -> (r: i32)
    requires
        n >= 0,
    ensures
        r as int == fill_to_block(n as int),
{
    rfitsio::fill_to_2880(n)
}

/// Append the bytes of an ASCII record.
fn push_record(out: &mut Vec<u8>, s: &str)
    requires
        s.is_ascii(),
    ensures
        final(out)@ == old(out)@ + ascii_bytes(s@),
{
    let b: &[u8] = s.as_bytes();
    out.extend_from_slice(b);
    proof {
        assert(b@ =~= ascii_bytes(s@));
    }
}

/// Append a run of spaces.
fn push_spaces(out: &mut Vec<u8>, n: i32)
    requires
        n >= 0,
    ensures
        final(out)@ == old(out)@ + spaces(n as int),
{
    let mut k: i32 = 0;
    while k < n
        invariant
            0 <= k <= n,
            out@ == old(out)@ + spaces(k as int),
        decreases n - k,
    {
        out.push(32);
        proof {
            assert(old(out)@ + spaces(k + 1) =~= (old(out)@ + spaces(k as int)).push(32u8));
        }
        k = k + 1;
    }
    proof {
        assert(out@ == old(out)@ + spaces(n as int));
    }
}

/// Append the decimal digits of `n`.
fn push_dec(out: &mut Vec<u8>, n: u64)
    ensures
        final(out)@ == old(out)@ + dec_bytes(n as nat),
    decreases n,
{
    if n < 10 {
        out.push(48 + n as u8);
        proof {
            assert(old(out)@ + dec_bytes(n as nat) =~= old(out)@.push((48 + n) as u8));
        }
    } else {
        push_dec(out, n / 10);
        out.push(48 + (n % 10) as u8);
        proof {
            assert(old(out)@ + dec_bytes(n as nat) =~= (old(out)@ + dec_bytes((n / 10) as nat)).push(
                (48 + n % 10) as u8,
            ));
        }
    }
}

/// Serialize a raw pixel buffer with its dimensions and bit depth into
/// the fixed-block binary image format.
///
/// The output is pinned exactly: header block, then the buffer verbatim,
/// then space padding.  Its length and the header block's length are
/// both multiples of 2880, and the pixel data begins at the first byte
/// after the header block.
// The axis sizes are capped at four digits: each axis record carries
// its size right-justified in a four-digit field, and only then is
// every header record exactly 80 bytes, as the format demands.
pub fn encode(buffer: &Vec<u8>, width: i32, height: i32, bit_depth: u8) -> (r: Vec<u8>)
    requires
        0 <= width <= 9999,
        0 <= height <= 9999,
        bit_depth == 8 || bit_depth == 16,
        buffer@.len() + 2880 <= i32::MAX,
    ensures
        r@ == encoded(bit_depth as int, width as int, height as int, buffer@),
        r@.len() % 2880 == 0,
        header_block(bit_depth as int, width as int, height as int).len() % 2880 == 0,
        r@.subrange(
            header_block(bit_depth as int, width as int, height as int).len() as int,
            header_block(bit_depth as int, width as int, height as int).len() + buffer@.len() as int,
        ) == buffer@,
{
    let ghost bd = bit_depth as int;
    let ghost w = width as int;
    let ghost h = height as int;
    proof {
        reveal_strlit("SIMPLE  =                    T / file conforms to FITS standard                 ");
        reveal_strlit("BITPIX  =                   16 / number of bits per data pixel                  ");
        reveal_strlit("BITPIX  =                    8 / number of bits per data pixel                  ");
        reveal_strlit("NAXIS   =                    2 / number of axis                                 ");
        reveal_strlit("NAXIS1  =                 ");
        reveal_strlit(" / length of data axis 1                          ");
        reveal_strlit("NAXIS2  =                 ");
        reveal_strlit(" / length of data axis 2                          ");
        reveal_strlit("END");
        reveal_strlit(" ");
        assert(vstd::utf8::is_ascii_chars(
            "SIMPLE  =                    T / file conforms to FITS standard                 "@,
        ));
        assert(vstd::utf8::is_ascii_chars(
            "BITPIX  =                   16 / number of bits per data pixel                  "@,
        ));
        assert(vstd::utf8::is_ascii_chars(
            "BITPIX  =                    8 / number of bits per data pixel                  "@,
        ));
        assert(vstd::utf8::is_ascii_chars(
            "NAXIS   =                    2 / number of axis                                 "@,
        ));
        assert(vstd::utf8::is_ascii_chars("NAXIS1  =                 "@));
        assert(vstd::utf8::is_ascii_chars(" / length of data axis 1                          "@));
        assert(vstd::utf8::is_ascii_chars("NAXIS2  =                 "@));
        assert(vstd::utf8::is_ascii_chars(" / length of data axis 2                          "@));
        assert(vstd::utf8::is_ascii_chars("END"@));
        assert(vstd::utf8::is_ascii_chars(" "@));
    }
    let mut out: Vec<u8> = Vec::new();

    push_record(
        &mut out,
        "SIMPLE  =                    T / file conforms to FITS standard                 ",
    );
    if bit_depth == 16 {
        push_record(
            &mut out,
            "BITPIX  =                   16 / number of bits per data pixel                  ",
        );
    } else {
        push_record(
            &mut out,
            "BITPIX  =                    8 / number of bits per data pixel                  ",
        );
    }
    push_record(
        &mut out,
        "NAXIS   =                    2 / number of axis                                 ",
    );

    push_record(&mut out, "NAXIS1  =                 ");
    let wpad: i32 = if width < 10 {
        3
    } else if width < 100 {
        2
    } else if width < 1000 {
        1
    } else {
        0
    };
    proof {
        lemma_dec_bytes_len(w as nat);
    }
    push_spaces(&mut out, wpad);
    push_dec(&mut out, width as u64);
    push_record(&mut out, " / length of data axis 1                          ");

    push_record(&mut out, "NAXIS2  =                 ");
    let hpad: i32 = if height < 10 {
        3
    } else if height < 100 {
        2
    } else if height < 1000 {
        1
    } else {
        0
    };
    proof {
        lemma_dec_bytes_len(h as nat);
    }
    push_spaces(&mut out, hpad);
    push_dec(&mut out, height as u64);
    push_record(&mut out, " / length of data axis 2                          ");

    push_record(&mut out, "END");

    proof {
        assert(" "@ =~= seq![' ']);
        assert(ascii_bytes(seq![' ']) =~= seq![32u8]);
        assert(out@ =~= header_records(bd, w, h));
        lemma_dec_bytes_len(w as nat);
        lemma_dec_bytes_len(h as nat);
        lemma_fill_aligns(header_records(bd, w, h).len() as int);
    }

    // pad the header to the block boundary
    let header_fill: i32 = fill_to_2880(out.len() as i32);
    push_spaces(&mut out, header_fill);
    proof {
        assert(out@ =~= header_block(bd, w, h));
        lemma_fill_aligns(header_block(bd, w, h).len() + buffer@.len() as int);
    }

    // the pixel data goes in verbatim, no byte-order transformation
    let mut i: usize = 0;
    let n: usize = buffer.len();
    while i < n
        invariant
            0 <= i <= n,
            n == buffer@.len(),
            out@ == header_block(bd, w, h) + buffer@.take(i as int),
        decreases n - i,
    {
        out.push(buffer[i]);
        proof {
            assert(header_block(bd, w, h) + buffer@.take(i + 1) =~= (header_block(bd, w, h)
                + buffer@.take(i as int)).push(buffer@[i as int]));
        }
        i = i + 1;
    }
    proof {
        assert(buffer@.take(n as int) =~= buffer@);
    }

    // pad the whole file to the block boundary
    let data_fill: i32 = fill_to_2880(out.len() as i32);
    push_spaces(&mut out, data_fill);

    proof {
        assert(out@ =~= encoded(bd, w, h, buffer@));
        lemma_fill_aligns(header_block(bd, w, h).len() + buffer@.len() as int);
        assert(out@.subrange(
            header_block(bd, w, h).len() as int,
            header_block(bd, w, h).len() + buffer@.len() as int,
        ) =~= buffer@);
    }
    out
}

/// Every header record is exactly 80 bytes long, whatever the
/// dimensions and bit depth; the `END` marker is the only shorter piece.
pub proof fn lemma_record_lengths(bit_depth: int, w: int, h: int)
    requires
        0 <= w <= 9999,
        0 <= h <= 9999,
    ensures
        simple_record().len() == 80,
        bitpix_record(bit_depth).len() == 80,
        naxis_record().len() == 80,
        naxis1_record(w).len() == 80,
        naxis2_record(h).len() == 80,
        end_marker().len() == 3,
{
    reveal_strlit("SIMPLE  =                    T / file conforms to FITS standard                 ");
    reveal_strlit("BITPIX  =                   16 / number of bits per data pixel                  ");
    reveal_strlit("BITPIX  =                    8 / number of bits per data pixel                  ");
    reveal_strlit("NAXIS   =                    2 / number of axis                                 ");
    reveal_strlit("NAXIS1  =                 ");
    reveal_strlit(" / length of data axis 1                          ");
    reveal_strlit("NAXIS2  =                 ");
    reveal_strlit(" / length of data axis 2                          ");
    reveal_strlit("END");
    lemma_dec_bytes_len(w as nat);
    lemma_dec_bytes_len(h as nat);
}

} // verus!
