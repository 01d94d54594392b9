//! A minimal POSIX ustar writer and reader: exactly what a backup of two
//! files needs. Entries are regular files with mode 0600, owner 0 and
//! mtime 0; reading stops at the first all-zero block.

use vstd::prelude::*;
use vstd::utf8::{decode_utf8, encode_utf8, valid_utf8};

verus! {

/// Size of a tar block.
pub const BLOCK: usize = 512;

/// Why an archive could not be read, or an entry not written.
#[derive(Debug, Clone, Copy, PartialEq, Eq, Structural)]
pub enum TarError {
    /// The entry name takes 100 bytes or more.
    NameTooLong,
    /// The entry name in a header is not UTF-8.
    NameNotUtf8,
    /// A size field holds something other than octal digits.
    InvalidOctal,
    /// An entry's data runs past the end of the archive.
    Truncated,
    /// The archive holds no entry at all.
    NoEntries,
}

// ---------- the format, as mathematics ----------

pub open spec fn pow8(k: nat) -> nat
    decreases k,
{
    if k == 0 {
        1
    } else {
        8 * pow8((k - 1) as nat)
    }
}

/// The ASCII digit for an octal digit value.
pub open spec fn octal_byte(d: nat) -> u8 {
    (48 + d) as u8
}

/// The lowest `k` octal digits of `v`, most significant first, zero padded.
pub open spec fn octal_digits(v: nat, k: nat) -> Seq<u8> {
    Seq::new(k, |j: int| octal_byte((v / pow8((k - 1 - j) as nat)) % 8))
}

/// An `n`-byte numeric header field: `n - 1` octal digits and a NUL.
pub open spec fn octal_field(v: nat, n: nat) -> Seq<u8> {
    octal_digits(v, (n - 1) as nat).push(0u8)
}

pub open spec fn zeros(n: nat) -> Seq<u8> {
    Seq::new(n, |i: int| 0u8)
}

pub open spec fn spaces(n: nat) -> Seq<u8> {
    Seq::new(n, |i: int| 32u8)
}

/// The header of an entry with the checksum field still blank (spaces).
pub open spec fn raw_header(name: Seq<u8>, size: nat) -> Seq<u8> {
    name + zeros((100 - name.len()) as nat) + octal_field(0o600, 8) + octal_field(0, 8)
        + octal_field(0, 8) + octal_field(size, 12) + octal_field(0, 12) + spaces(8) + seq![48u8]
        + zeros(100) + seq![117u8, 115u8, 116u8, 97u8, 114u8, 0u8] + seq![48u8, 48u8] + zeros(64)
        + octal_field(0, 8) + octal_field(0, 8) + zeros(167)
}

/// Sum of the bytes of `s`.
pub open spec fn byte_sum(s: Seq<u8>) -> nat
    decreases s.len(),
{
    if s.len() == 0 {
        0
    } else {
        byte_sum(s.drop_last()) + s.last() as nat
    }
}

/// The complete header: the checksum is six octal digits, a NUL and a space.
pub open spec fn header(name: Seq<u8>, size: nat) -> Seq<u8> {
    let raw = raw_header(name, size);
    raw.take(148) + octal_digits(byte_sum(raw), 6) + seq![0u8, 32u8] + raw.skip(156)
}

/// Zero bytes that fill the last data block of an entry of `n` bytes.
pub open spec fn pad(n: nat) -> nat {
    ((512 - n % 512) % 512) as nat
}

/// The bytes of one entry: header, data, padding.
pub open spec fn entry_bytes(name: Seq<u8>, body: Seq<u8>) -> Seq<u8> {
    header(name, body.len()) + body + zeros(pad(body.len()))
}

/// The two zero blocks that end an archive.
pub open spec fn terminator() -> Seq<u8> {
    zeros(1024)
}

/// The entries one after another, each written with its name's UTF-8 bytes.
pub open spec fn entries_bytes(es: Seq<(Seq<char>, Seq<u8>)>) -> Seq<u8>
    decreases es.len(),
{
    if es.len() == 0 {
        Seq::empty()
    } else {
        entry_bytes(encode_utf8(es[0].0), es[0].1) + entries_bytes(es.drop_first())
    }
}

/// A complete archive of the given entries.
pub open spec fn archive(es: Seq<(Seq<char>, Seq<u8>)>) -> Seq<u8> {
    entries_bytes(es) + terminator()
}

pub open spec fn all_zero(s: Seq<u8>) -> bool {
    forall|i: int| 0 <= i < s.len() ==> s[i] == 0
}

/// Index of the first zero byte of `s`, or its length.
pub open spec fn first_zero(s: Seq<u8>) -> nat
    decreases s.len(),
{
    if s.len() == 0 || s[0] == 0 {
        0
    } else {
        1 + first_zero(s.drop_first())
    }
}

/// Octal digits up to the first NUL or space, accumulated onto `acc`;
/// `None` on any other byte.
pub open spec fn parse_octal(s: Seq<u8>, acc: nat) -> Option<nat>
    decreases s.len(),
{
    if s.len() == 0 || s[0] == 0 || s[0] == 32 {
        Some(acc)
    } else if 48 <= s[0] && s[0] <= 55 {
        parse_octal(s.drop_first(), acc * 8 + (s[0] - 48) as nat)
    } else {
        None
    }
}

/// Data of `n` bytes rounded up to whole blocks.
pub open spec fn padded(n: nat) -> nat {
    ((n + 511) / 512 * 512) as nat
}

/// The entries of an archive, read block by block until an all-zero block
/// or fewer than 512 bytes remain.
pub open spec fn parse_entries(b: Seq<u8>) -> Result<Seq<(Seq<char>, Seq<u8>)>, TarError>
    decreases b.len(),
{
    if b.len() < 512 {
        Ok(Seq::empty())
    } else {
        let h = b.take(512);
        if all_zero(h) {
            Ok(Seq::empty())
        } else {
            let nb = h.take(first_zero(h.take(100)) as int);
            if !valid_utf8(nb) {
                Err(TarError::NameNotUtf8)
            } else {
                match parse_octal(h.subrange(124, 136), 0) {
                    None => Err(TarError::InvalidOctal),
                    Some(size) => if 512 + size > b.len() {
                        Err(TarError::Truncated)
                    } else {
                        let body = b.subrange(512, 512 + size as int);
                        let next = 512 + padded(size);
                        let rest = if next <= b.len() {
                            parse_entries(b.skip(next as int))
                        } else {
                            Ok(Seq::empty())
                        };
                        match rest {
                            Ok(r) => Ok(seq![(decode_utf8(nb), body)] + r),
                            Err(e) => Err(e),
                        }
                    },
                }
            }
        }
    }
}

/// The entries of an archive; an archive without entries is an error.
pub open spec fn parse_tar(b: Seq<u8>) -> Result<Seq<(Seq<char>, Seq<u8>)>, TarError> {
    match parse_entries(b) {
        Ok(es) => if es.len() == 0 {
            Err(TarError::NoEntries)
        } else {
            Ok(es)
        },
        Err(e) => Err(e),
    }
}

/// Entries as they come out of [`read_tar`], seen as characters and bytes.
pub open spec fn entries_view(es: Seq<(String, Vec<u8>)>) -> Seq<(Seq<char>, Seq<u8>)> {
    es.map_values(|e: (String, Vec<u8>)| (e.0@, e.1@))
}

// ---------- writing ----------

proof fn lemma_pow8_pos(k: nat)
    ensures
        pow8(k) >= 1,
    decreases k,
{
    if k > 0 {
        lemma_pow8_pos((k - 1) as nat);
    }
}

proof fn lemma_div_step(x: nat, k: nat)
    ensures
        x / pow8(k) / 8 == x / pow8(k + 1),
{
    lemma_pow8_pos(k);
    assert(pow8(k + 1) == 8 * pow8(k));
    vstd::arithmetic::div_mod::lemma_div_denominator(x as int, pow8(k) as int, 8);
    assert(pow8(k) * 8 == 8 * pow8(k)) by (nonlinear_arith);
}

/// Write `value` into `buf` as `buf.len() - 1` octal digits and a NUL.
pub fn write_octal(buf: &mut [u8], value: u64)
    requires
        old(buf)@.len() >= 1,
    ensures
        final(buf)@ == octal_field(value as nat, old(buf)@.len() as nat),
{
    let n = buf.len();
    let ghost v0 = value as nat;
    let ghost k = (n - 1) as nat;
    let mut v = value;
    let mut i: usize = n - 1;
    proof {
        assert(pow8(0) == 1);
        assert(v0 / pow8(0) == v0);
    }
    while i > 0
        invariant
            0 <= i <= n - 1,
            buf@.len() == n,
            n >= 1,
            k == n - 1,
            v as nat == v0 / pow8((k - i) as nat),
            forall|j: int|
                i <= j < k ==> buf@[j] == octal_byte((v0 / pow8((k - 1 - j) as nat)) % 8),
        decreases i,
    {
        i = i - 1;
        buf[i] = 48 + (v % 8) as u8;
        proof {
            lemma_div_step(v0, (k - 1 - i) as nat);
        }
        v = v / 8;
    }
    buf[n - 1] = 0;
    assert(buf@ =~= octal_field(v0, n as nat));
}

/// Append `n` zero bytes.
fn push_zeros(out: &mut Vec<u8>, n: usize)
    ensures
        final(out)@ == old(out)@ + zeros(n as nat),
{
    let mut i: usize = 0;
    while i < n
        invariant
            i <= n,
            out@ == old(out)@ + zeros(i as nat),
        decreases n - i,
    {
        out.push(0);
        i = i + 1;
        assert(out@ =~= old(out)@ + zeros(i as nat));
    }
}

/// Append the bytes of `s`.
fn push_slice(out: &mut Vec<u8>, s: &[u8])
    ensures
        final(out)@ == old(out)@ + s@,
{
    let mut i: usize = 0;
    while i < s.len()
        invariant
            i <= s@.len(),
            out@ == old(out)@ + s@.take(i as int),
        decreases s@.len() - i,
    {
        out.push(s[i]);
        i = i + 1;
        assert(out@ =~= old(out)@ + s@.take(i as int));
    }
    assert(s@.take(s@.len() as int) =~= s@);
}

/// Append an `n`-byte octal field holding `value`.
fn push_octal_field(out: &mut Vec<u8>, value: u64, n: usize)
    requires
        n >= 1,
    ensures
        final(out)@ == old(out)@ + octal_field(value as nat, n as nat),
{
    let mut f: Vec<u8> = Vec::new();
    push_zeros(&mut f, n);
    write_octal(f.as_mut_slice(), value);
    push_slice(out, f.as_slice());
}

/// The header block of an entry named `name` holding `size` bytes.
fn header_block(name: &[u8], size: u64) -> (h: Vec<u8>)
    requires
        name@.len() < 100,
    ensures
        h@ == header(name@, size as nat),
{
    let mut raw: Vec<u8> = Vec::new();
    push_slice(&mut raw, name);
    push_zeros(&mut raw, 100 - name.len());
    push_octal_field(&mut raw, 0o600, 8);
    push_octal_field(&mut raw, 0, 8);
    push_octal_field(&mut raw, 0, 8);
    push_octal_field(&mut raw, size, 12);
    push_octal_field(&mut raw, 0, 12);
    let mut i: usize = 0;
    while i < 8
        invariant
            i <= 8,
            raw@ == name@ + zeros((100 - name@.len()) as nat) + octal_field(0o600, 8)
                + octal_field(0, 8) + octal_field(0, 8) + octal_field(size as nat, 12)
                + octal_field(0, 12) + spaces(i as nat),
        decreases 8 - i,
    {
        raw.push(32);
        i = i + 1;
        proof {
            let p = name@ + zeros((100 - name@.len()) as nat) + octal_field(0o600, 8)
                + octal_field(0, 8) + octal_field(0, 8) + octal_field(size as nat, 12)
                + octal_field(0, 12);
            assert(p + spaces((i - 1) as nat) + seq![32u8] =~= p + spaces(i as nat));
        }
    }
    raw.push(48);
    push_zeros(&mut raw, 100);
    raw.push(117);
    raw.push(115);
    raw.push(116);
    raw.push(97);
    raw.push(114);
    raw.push(0);
    raw.push(48);
    raw.push(48);
    push_zeros(&mut raw, 64);
    push_octal_field(&mut raw, 0, 8);
    push_octal_field(&mut raw, 0, 8);
    push_zeros(&mut raw, 167);
    assert(raw@ =~= raw_header(name@, size as nat));
    assert(raw@.len() == 512);
    let mut sum: u32 = 0;
    let mut j: usize = 0;
    while j < 512
        invariant
            j <= 512,
            raw@.len() == 512,
            sum as nat == byte_sum(raw@.take(j as int)),
            sum <= 255 * j,
        decreases 512 - j,
    {
        proof {
            assert(raw@.take(j + 1).drop_last() =~= raw@.take(j as int));
        }
        sum = sum + raw[j] as u32;
        j = j + 1;
    }
    assert(raw@.take(512) =~= raw@);
    let mut chk: Vec<u8> = Vec::new();
    push_zeros(&mut chk, 7);
    write_octal(chk.as_mut_slice(), sum as u64);
    let mut h: Vec<u8> = Vec::new();
    let mut k: usize = 0;
    while k < 148
        invariant
            k <= 148,
            raw@.len() == 512,
            h@ == raw@.take(k as int),
        decreases 148 - k,
    {
        h.push(raw[k]);
        k = k + 1;
        assert(h@ =~= raw@.take(k as int));
    }
    let mut d: usize = 0;
    while d < 6
        invariant
            d <= 6,
            chk@ == octal_field(sum as nat, 7),
            h@ == raw@.take(148) + octal_digits(sum as nat, 6).take(d as int),
        decreases 6 - d,
    {
        h.push(chk[d]);
        d = d + 1;
        assert(h@ =~= raw@.take(148) + octal_digits(sum as nat, 6).take(d as int));
    }
    h.push(0);
    h.push(32);
    let mut m: usize = 156;
    while m < 512
        invariant
            156 <= m <= 512,
            raw@.len() == 512,
            h@ == raw@.take(148) + octal_digits(sum as nat, 6) + seq![0u8, 32u8]
                + raw@.subrange(156, m as int),
        decreases 512 - m,
    {
        h.push(raw[m]);
        m = m + 1;
        assert(h@ =~= raw@.take(148) + octal_digits(sum as nat, 6) + seq![0u8, 32u8]
            + raw@.subrange(156, m as int));
    }
    proof {
        assert(octal_digits(sum as nat, 6).take(6) =~= octal_digits(sum as nat, 6));
        assert(raw@.subrange(156, 512) =~= raw@.skip(156));
    }
    h
}

/// Append one entry (header, data, padding) to `out`.
pub fn write_tar_entry(out: &mut Vec<u8>, name: &str, bytes: &[u8]) -> (r: Result<(), TarError>)
    ensures
        r is Ok <==> encode_utf8(name@).len() < 100,
        r is Ok ==> final(out)@ == old(out)@ + entry_bytes(encode_utf8(name@), bytes@),
        r is Err ==> r == Err::<(), TarError>(TarError::NameTooLong) && final(out)@ == old(out)@,
{
    let nb = name.as_bytes();
    if nb.len() >= 100 {
        return Err(TarError::NameTooLong);
    }
    let h = header_block(nb, bytes.len() as u64);
    push_slice(out, h.as_slice());
    push_slice(out, bytes);
    let p = (BLOCK - (bytes.len() % BLOCK)) % BLOCK;
    push_zeros(out, p);
    assert(out@ =~= old(out)@ + entry_bytes(encode_utf8(name@), bytes@));
    Ok(())
}

/// Append the end-of-archive marker: two zero blocks.
pub fn write_tar_terminator(out: &mut Vec<u8>)
    ensures
        final(out)@ == old(out)@ + terminator(),
{
    push_zeros(out, BLOCK * 2);
}

// ---------- reading ----------

#[verifier::external_type_specification]
#[verifier::external_body]
pub struct ExUtf8Error(std::str::Utf8Error);

/// `std::str::from_utf8`: succeeds exactly on well-formed UTF-8, and the
/// string it returns has exactly the given bytes as its encoding.
#[verifier::external_body]
pub(crate) fn str_from_utf8<'a>(v: &'a [u8]) -> (r: Result<&'a str, std::str::Utf8Error>)
    ensures
        r is Ok <==> valid_utf8(v@),
        r matches Ok(s) ==> encode_utf8(s@) == v@,
{
    std::str::from_utf8(v)
}

proof fn lemma_pow8_mono(i: nat, j: nat)
    requires
        i <= j,
    ensures
        pow8(i) <= pow8(j),
    decreases j,
{
    if i < j {
        lemma_pow8_mono(i, (j - 1) as nat);
        lemma_pow8_pos((j - 1) as nat);
    }
}

proof fn lemma_pow8_21()
    ensures
        pow8(21) == 0x8000_0000_0000_0000,
{
    reveal_with_fuel(pow8, 22);
}

/// A number read from a field only grows as digits are added.
proof fn lemma_parse_octal_grows(s: Seq<u8>, acc: nat)
    ensures
        parse_octal(s, acc) matches Some(x) ==> x >= acc,
    decreases s.len(),
{
    if s.len() > 0 && s[0] != 0 && s[0] != 32 && 48 <= s[0] && s[0] <= 55 {
        lemma_parse_octal_grows(s.drop_first(), acc * 8 + (s[0] - 48) as nat);
    }
}

/// Read an octal number that ends at the first NUL or space (or at the end
/// of `buf`). A field whose digits are not octal, or whose value does not
/// fit in a `u64`, is `InvalidOctal`; a field of at most 21 bytes always
/// fits.
pub fn read_octal(buf: &[u8]) -> (r: Result<u64, TarError>)
    ensures
        match r {
            Ok(v) => parse_octal(buf@, 0) == Some(v as nat) && (buf@.len() <= 21 ==> (v as nat)
                < pow8(buf@.len())),
            Err(e) => e == TarError::InvalidOctal && (parse_octal(buf@, 0) is None || (parse_octal(
                buf@,
                0,
            ) matches Some(x) && x > u64::MAX)) && (buf@.len() <= 21 ==> parse_octal(buf@, 0) is None),
        },
{
    let mut v: u64 = 0;
    let mut i: usize = 0;
    proof {
        assert(buf@.skip(0) =~= buf@);
        assert(pow8(0) == 1);
        lemma_pow8_21();
        assert(pow8(21) == 8 * pow8(20));
    }
    while i < buf.len()
        invariant
            i <= buf@.len(),
            pow8(20) == 0x1000_0000_0000_0000,
            buf@.len() <= 21 ==> (v as nat) < pow8(i as nat),
            parse_octal(buf@, 0) == parse_octal(buf@.skip(i as int), v as nat),
        decreases buf@.len() - i,
    {
        let b = buf[i];
        if b == 0 || b == 32 {
            proof {
                if buf@.len() <= 21 {
                    lemma_pow8_mono(i as nat, buf@.len());
                }
            }
            return Ok(v);
        }
        if !(48 <= b && b <= 55) {
            return Err(TarError::InvalidOctal);
        }
        proof {
            assert(buf@.skip(i as int).drop_first() =~= buf@.skip(i + 1));
            if buf@.len() <= 21 {
                lemma_pow8_mono(i as nat, 20);
                lemma_pow8_mono((i + 1) as nat, 21);
                lemma_pow8_21();
            }
        }
        if v > 0x1FFF_FFFF_FFFF_FFFF {
            proof {
                lemma_parse_octal_grows(buf@.skip(i + 1), v as nat * 8 + (b - 48) as nat);
            }
            return Err(TarError::InvalidOctal);
        }
        v = v * 8 + (b - 48) as u64;
        i = i + 1;
    }
    Ok(v)
}

proof fn lemma_pow8_12()
    ensures
        pow8(12) == 0x10_0000_0000,
{
    reveal_with_fuel(pow8, 13);
}

proof fn lemma_first_zero_index(s: Seq<u8>, k: int)
    requires
        0 <= k <= s.len(),
        k < s.len() ==> s[k] == 0,
        forall|i: int| 0 <= i < k ==> s[i] != 0,
    ensures
        first_zero(s) == k,
    decreases s.len(),
{
    if s.len() > 0 && s[0] != 0 {
        let t = s.drop_first();
        assert forall|i: int| 0 <= i < k - 1 implies t[i] != 0 by {
            assert(t[i] == s[i + 1]);
        }
        lemma_first_zero_index(t, k - 1);
    }
}

fn is_all_zero(s: &[u8]) -> (r: bool)
    ensures
        r == all_zero(s@),
{
    let mut i: usize = 0;
    while i < s.len()
        invariant
            i <= s@.len(),
            forall|j: int| 0 <= j < i ==> s@[j] == 0,
        decreases s@.len() - i,
    {
        if s[i] != 0 {
            return false;
        }
        i = i + 1;
    }
    true
}

/// Copy of a byte slice.
fn bytes_to_vec(s: &[u8]) -> (r: Vec<u8>)
    ensures
        r@ == s@,
{
    let mut r: Vec<u8> = Vec::new();
    push_slice(&mut r, s);
    assert(r@ =~= s@);
    r
}

/// `Ok(prefix + rest)` when `rest` is `Ok`; the error otherwise.
pub open spec fn prepend(
    p: Seq<(Seq<char>, Seq<u8>)>,
    r: Result<Seq<(Seq<char>, Seq<u8>)>, TarError>,
) -> Result<Seq<(Seq<char>, Seq<u8>)>, TarError> {
    match r {
        Ok(rest) => Ok(p + rest),
        Err(e) => Err(e),
    }
}

fn finish_read(out: Vec<(String, Vec<u8>)>) -> (r: Result<Vec<(String, Vec<u8>)>, TarError>)
    ensures
        out@.len() == 0 ==> r == Err::<Vec<(String, Vec<u8>)>, TarError>(TarError::NoEntries),
        out@.len() > 0 ==> r == Ok::<Vec<(String, Vec<u8>)>, TarError>(out),
{
    if out.len() == 0 {
        Err(TarError::NoEntries)
    } else {
        Ok(out)
    }
}

/// Read every entry of an archive as (name, data) pairs, in order.
pub fn read_tar(bytes: &[u8]) -> (r: Result<Vec<(String, Vec<u8>)>, TarError>)
    ensures
        match r {
            Ok(es) => parse_tar(bytes@) == Ok::<Seq<(Seq<char>, Seq<u8>)>, TarError>(
                entries_view(es@),
            ),
            Err(e) => parse_tar(bytes@) == Err::<Seq<(Seq<char>, Seq<u8>)>, TarError>(e),
        },
{
    let mut out: Vec<(String, Vec<u8>)> = Vec::new();
    let mut idx: usize = 0;
    let len = bytes.len();
    proof {
        assert(bytes@.skip(0) =~= bytes@);
        assert(entries_view(out@) =~= Seq::empty());
        assert(Seq::<(Seq<char>, Seq<u8>)>::empty() + Seq::<(Seq<char>, Seq<u8>)>::empty()
            =~= Seq::<(Seq<char>, Seq<u8>)>::empty());
    }
    loop
        invariant
            idx <= len,
            len == bytes@.len(),
            parse_entries(bytes@) == prepend(
                entries_view(out@),
                parse_entries(bytes@.skip(idx as int)),
            ),
        decreases len - idx,
    {
        let ghost b = bytes@.skip(idx as int);
        if len - idx < BLOCK {
            assert(parse_entries(b) == Ok::<Seq<(Seq<char>, Seq<u8>)>, TarError>(Seq::empty()));
            assert(entries_view(out@) + Seq::<(Seq<char>, Seq<u8>)>::empty() =~= entries_view(
                out@,
            ));
            return finish_read(out);
        }
        let header = &bytes[idx..idx + BLOCK];
        assert(header@ =~= b.take(512));
        if is_all_zero(header) {
            assert(entries_view(out@) + Seq::<(Seq<char>, Seq<u8>)>::empty() =~= entries_view(
                out@,
            ));
            return finish_read(out);
        }
        let mut name_end: usize = 0;
        while name_end < 100 && header[name_end] != 0
            invariant
                name_end <= 100,
                header@.len() == 512,
                forall|j: int| 0 <= j < name_end ==> header@[j] != 0,
            decreases 100 - name_end,
        {
            name_end = name_end + 1;
        }
        proof {
            let t = header@.take(100);
            assert forall|j: int| 0 <= j < name_end implies t[j] != 0 by {}
            lemma_first_zero_index(t, name_end as int);
        }
        let name_bytes = &header[0..name_end];
        assert(name_bytes@ =~= header@.take(name_end as int));
        let name_str = match str_from_utf8(name_bytes) {
            Ok(s) => s,
            Err(_) => {
                return Err(TarError::NameNotUtf8);
            },
        };
        let size_field = &header[124..136];
        assert(size_field@ =~= header@.subrange(124, 136));
        let size = match read_octal(size_field) {
            Ok(v) => v,
            Err(e) => {
                return Err(e);
            },
        };
        let start = idx + BLOCK;
        proof {
            lemma_pow8_12();
        }
        if (start as u128) + (size as u128) > len as u128 {
            return Err(TarError::Truncated);
        }
        let end = start + size as usize;
        let body = bytes_to_vec(&bytes[start..end]);
        assert(body@ =~= b.subrange(512, 512 + size as int));
        let name = name_str.to_owned();
        proof {
            vstd::utf8::encode_utf8_decode_utf8(name_str@);
        }
        let ghost e = (decode_utf8(name_bytes@), body@);
        let ghost out0 = entries_view(out@);
        out.push((name, body));
        proof {
            assert(entries_view(out@) =~= out0.push(e));
        }
        let padded_len: u64 = (size + 511) / 512 * 512;
        let next: u128 = (start as u128) + (padded_len as u128);
        if next > len as u128 {
            proof {
                assert(parse_entries(b) == Ok::<Seq<(Seq<char>, Seq<u8>)>, TarError>(
                    seq![e] + Seq::<(Seq<char>, Seq<u8>)>::empty(),
                ));
                assert(out0 + (seq![e] + Seq::<(Seq<char>, Seq<u8>)>::empty()) =~= out0.push(e));
            }
            return finish_read(out);
        }
        proof {
            let nr = (512 + padded(size as nat)) as int;
            assert(b.skip(nr) =~= bytes@.skip(next as int));
            match parse_entries(b.skip(nr)) {
                Ok(r) => {
                    assert(out0 + (seq![e] + r) =~= out0.push(e) + r);
                },
                Err(_) => {},
            }
        }
        idx = next as usize;
    }
}

// ---------- what a written archive reads back as ----------

/// An entry that survives a write and a read: its name takes fewer than
/// 100 bytes and holds no NUL, and its size fits the 11-digit size field.
pub open spec fn storable(e: (Seq<char>, Seq<u8>)) -> bool {
    let nb = encode_utf8(e.0);
    &&& nb.len() < 100
    &&& forall|i: int| 0 <= i < nb.len() ==> nb[i] != 0
    &&& e.1.len() < pow8(11)
}

proof fn lemma_parse_octal_digits(v: nat, k: nat, t: Seq<u8>, acc: nat)
    ensures
        parse_octal(octal_digits(v, k) + t, acc) == parse_octal(t, acc * pow8(k) + v % pow8(k)),
    decreases k,
{
    let s = octal_digits(v, k) + t;
    if k == 0 {
        assert(s =~= t);
        assert(pow8(0) == 1);
        assert(v % 1 == 0);
    } else {
        let p = pow8((k - 1) as nat);
        lemma_pow8_pos((k - 1) as nat);
        let d = (v / p) % 8;
        assert(s[0] == octal_byte(d));
        assert(s.drop_first() =~= octal_digits(v, (k - 1) as nat) + t);
        lemma_parse_octal_digits(v, (k - 1) as nat, t, acc * 8 + d);
        assert(pow8(k) == 8 * p);
        vstd::arithmetic::div_mod::lemma_mod_breakdown(v as int, p as int, 8);
        let r = v % p;
        assert(p * 8 == 8 * p) by (nonlinear_arith);
        assert((acc * 8 + d) * p + r == acc * (8 * p) + (p * d + r)) by (nonlinear_arith);
    }
}

proof fn lemma_parse_octal_field(v: nat)
    requires
        v < pow8(11),
    ensures
        parse_octal(octal_field(v, 12), 0) == Some(v),
{
    assert(octal_field(v, 12) =~= octal_digits(v, 11) + seq![0u8]);
    lemma_parse_octal_digits(v, 11, seq![0u8], 0);
    vstd::arithmetic::div_mod::lemma_small_mod(v, pow8(11));
}

/// Reading a numeric field gives back the value written into it, whenever
/// the value fits in the field's digits.
pub proof fn lemma_octal_round_trip(v: nat, n: nat)
    requires
        n >= 1,
        v < pow8((n - 1) as nat),
    ensures
        parse_octal(octal_field(v, n), 0) == Some(v),
{
    let k = (n - 1) as nat;
    assert(octal_field(v, n) =~= octal_digits(v, k) + seq![0u8]);
    lemma_parse_octal_digits(v, k, seq![0u8], 0);
    vstd::arithmetic::div_mod::lemma_small_mod(v, pow8(k));
}

proof fn lemma_padded(n: nat)
    ensures
        padded(n) == n + pad(n),
{
    let q = n / 512;
    let r = n % 512;
    assert(n == 512 * q + r && 0 <= r < 512) by {
        vstd::arithmetic::div_mod::lemma_fundamental_div_mod(n as int, 512);
    }
    if r == 0 {
        assert((n + 511) / 512 == q) by (nonlinear_arith)
            requires
                n == 512 * q,
        ;
    } else {
        assert((n + 511) / 512 == q + 1) by (nonlinear_arith)
            requires
                n == 512 * q + r,
                0 < r < 512,
        ;
    }
}

proof fn lemma_header_shape(nb: Seq<u8>, size: nat)
    requires
        nb.len() < 100,
    ensures
        header(nb, size).len() == 512,
        header(nb, size).take(nb.len() as int) == nb,
        header(nb, size)[nb.len() as int] == 0,
        header(nb, size).subrange(124, 136) == octal_field(size, 12),
        header(nb, size)[156] == 48,
{
    let raw = raw_header(nb, size);
    let p1 = nb + zeros((100 - nb.len()) as nat);
    let p2 = p1 + octal_field(0o600, 8) + octal_field(0, 8) + octal_field(0, 8);
    let p3 = p2 + octal_field(size, 12);
    let p4 = p3 + octal_field(0, 12) + spaces(8);
    let p5 = p4 + seq![48u8];
    assert(p1.len() == 100);
    assert(p2.len() == 124);
    assert(p3.len() == 136);
    assert(p4.len() == 156);
    assert(raw =~= p5 + zeros(100) + seq![117u8, 115u8, 116u8, 97u8, 114u8, 0u8] + seq![
        48u8,
        48u8,
    ] + zeros(64) + octal_field(0, 8) + octal_field(0, 8) + zeros(167));
    assert(raw.len() == 512);
    let h = header(nb, size);
    let chk = octal_digits(byte_sum(raw), 6);
    assert(h =~= raw.take(148) + chk + seq![0u8, 32u8] + raw.skip(156));
    assert(raw[156] == p5[156]);
    assert(h[156] == raw[156]);
    assert(raw.take(nb.len() as int) =~= nb);
    assert(h.take(nb.len() as int) =~= raw.take(nb.len() as int));
    assert(raw[nb.len() as int] == p1[nb.len() as int]);
    assert(h[nb.len() as int] == raw[nb.len() as int]);
    assert(raw.subrange(124, 136) =~= p3.subrange(124, 136));
    assert(p3.subrange(124, 136) =~= octal_field(size, 12));
    assert(h.subrange(124, 136) =~= raw.subrange(124, 136));
}

proof fn lemma_entry_parse(e: (Seq<char>, Seq<u8>), rest: Seq<u8>)
    requires
        storable(e),
    ensures
        parse_entries(entry_bytes(encode_utf8(e.0), e.1) + rest) == prepend(
            seq![e],
            parse_entries(rest),
        ),
{
    let nb = encode_utf8(e.0);
    let body = e.1;
    let size = body.len();
    let eb = entry_bytes(nb, body);
    let b = eb + rest;
    lemma_header_shape(nb, size);
    let h = header(nb, size);
    lemma_padded(size);
    assert(eb.len() == 512 + size + pad(size));
    assert(b.take(512) =~= h);
    assert(!all_zero(h)) by {
        assert(h[156] != 0);
    }
    assert forall|i: int| 0 <= i < nb.len() implies h.take(100)[i] != 0 by {
        assert(h.take(nb.len() as int)[i] == nb[i]);
    }
    lemma_first_zero_index(h.take(100), nb.len() as int);
    assert(h.take(first_zero(h.take(100)) as int) =~= nb);
    vstd::utf8::encode_utf8_valid_utf8(e.0);
    vstd::utf8::encode_utf8_decode_utf8(e.0);
    lemma_parse_octal_field(size);
    assert(b.subrange(512, 512 + size as int) =~= body);
    assert(b.skip((512 + padded(size)) as int) =~= rest);
    match parse_entries(rest) {
        Ok(r) => {
            assert(seq![(decode_utf8(nb), body)] + r =~= seq![e] + r);
        },
        Err(_) => {},
    }
}

proof fn lemma_terminator_parse()
    ensures
        parse_entries(terminator()) == Ok::<Seq<(Seq<char>, Seq<u8>)>, TarError>(Seq::empty()),
{
    assert(all_zero(terminator().take(512)));
}

proof fn lemma_entries_parse(es: Seq<(Seq<char>, Seq<u8>)>)
    requires
        forall|i: int| 0 <= i < es.len() ==> storable(#[trigger] es[i]),
    ensures
        parse_entries(archive(es)) == Ok::<Seq<(Seq<char>, Seq<u8>)>, TarError>(es),
    decreases es.len(),
{
    if es.len() == 0 {
        assert(archive(es) =~= terminator());
        lemma_terminator_parse();
        assert(es =~= Seq::<(Seq<char>, Seq<u8>)>::empty());
    } else {
        let tl = es.drop_first();
        assert forall|i: int| 0 <= i < tl.len() implies storable(#[trigger] tl[i]) by {
            assert(tl[i] == es[i + 1]);
        }
        lemma_entries_parse(tl);
        assert(storable(es[0]));
        assert(archive(es) =~= entry_bytes(encode_utf8(es[0].0), es[0].1) + archive(tl));
        lemma_entry_parse(es[0], archive(tl));
        assert(seq![es[0]] + tl =~= es);
    }
}

/// Reading back an archive written from entries gives those entries, in
/// order, with names and data unchanged.
pub proof fn lemma_tar_roundtrip(es: Seq<(Seq<char>, Seq<u8>)>)
    requires
        es.len() > 0,
        forall|i: int| 0 <= i < es.len() ==> storable(#[trigger] es[i]),
    ensures
        parse_tar(archive(es)) == Ok::<Seq<(Seq<char>, Seq<u8>)>, TarError>(es),
{
    lemma_entries_parse(es);
}

proof fn lemma_entries_parse_trailing(es: Seq<(Seq<char>, Seq<u8>)>, x: Seq<u8>)
    requires
        forall|i: int| 0 <= i < es.len() ==> storable(#[trigger] es[i]),
    ensures
        parse_entries(archive(es) + x) == Ok::<Seq<(Seq<char>, Seq<u8>)>, TarError>(es),
    decreases es.len(),
{
    if es.len() == 0 {
        assert(archive(es) =~= terminator());
        assert((terminator() + x).take(512) =~= terminator().take(512));
        assert(all_zero(terminator().take(512)));
        assert(es =~= Seq::<(Seq<char>, Seq<u8>)>::empty());
    } else {
        let tl = es.drop_first();
        assert forall|i: int| 0 <= i < tl.len() implies storable(#[trigger] tl[i]) by {
            assert(tl[i] == es[i + 1]);
        }
        lemma_entries_parse_trailing(tl, x);
        assert(storable(es[0]));
        assert(archive(es) =~= entry_bytes(encode_utf8(es[0].0), es[0].1) + archive(tl));
        assert(archive(es) + x =~= entry_bytes(encode_utf8(es[0].0), es[0].1) + (archive(tl) + x));
        lemma_entry_parse(es[0], archive(tl) + x);
        assert(seq![es[0]] + tl =~= es);
    }
}

/// Whatever follows the end-of-archive marker is ignored: an archive with
/// any bytes appended reads back as the same entries.
pub proof fn lemma_tar_trailing_bytes_ignored(es: Seq<(Seq<char>, Seq<u8>)>, x: Seq<u8>)
    requires
        es.len() > 0,
        forall|i: int| 0 <= i < es.len() ==> storable(#[trigger] es[i]),
    ensures
        parse_tar(archive(es) + x) == parse_tar(archive(es)),
        parse_tar(archive(es) + x) == Ok::<Seq<(Seq<char>, Seq<u8>)>, TarError>(es),
{
    lemma_entries_parse(es);
    lemma_entries_parse_trailing(es, x);
}

proof fn lemma_byte_sum_bound(s: Seq<u8>)
    ensures
        byte_sum(s) <= 255 * s.len(),
    decreases s.len(),
{
    if s.len() > 0 {
        lemma_byte_sum_bound(s.drop_last());
    }
}

/// The checksum stored in a header is the ustar checksum of that header:
/// read back as an octal number, it equals the sum of all 512 header bytes
/// with the checksum field itself counted as eight spaces.
pub proof fn lemma_header_checksum(nb: Seq<u8>, size: nat)
    requires
        nb.len() < 100,
    ensures
        header(nb, size).len() == 512,
        parse_octal(header(nb, size).subrange(148, 156), 0) == Some(
            byte_sum(header(nb, size).take(148) + spaces(8) + header(nb, size).skip(156)),
        ),
{
    lemma_header_shape(nb, size);
    let raw = raw_header(nb, size);
    let p1 = nb + zeros((100 - nb.len()) as nat);
    let p2 = p1 + octal_field(0o600, 8) + octal_field(0, 8) + octal_field(0, 8);
    let p3 = p2 + octal_field(size, 12);
    let a = p3 + octal_field(0, 12);
    let b = seq![48u8] + zeros(100) + seq![117u8, 115u8, 116u8, 97u8, 114u8, 0u8] + seq![
        48u8,
        48u8,
    ] + zeros(64) + octal_field(0, 8) + octal_field(0, 8) + zeros(167);
    assert(p1.len() == 100);
    assert(a.len() == 148);
    assert(raw =~= a + spaces(8) + b);
    assert(raw.len() == 512);
    let sum = byte_sum(raw);
    let h = header(nb, size);
    assert(h =~= raw.take(148) + octal_digits(sum, 6) + seq![0u8, 32u8] + raw.skip(156));
    assert(h.take(148) =~= a);
    assert(h.skip(156) =~= b);
    assert(h.take(148) + spaces(8) + h.skip(156) =~= raw);
    assert(h.subrange(148, 156) =~= octal_digits(sum, 6) + seq![0u8, 32u8]);
    lemma_parse_octal_digits(sum, 6, seq![0u8, 32u8], 0);
    lemma_byte_sum_bound(raw);
    reveal_with_fuel(pow8, 7);
    assert(pow8(6) == 262144);
    vstd::arithmetic::div_mod::lemma_small_mod(sum, pow8(6));
    assert(parse_octal(seq![0u8, 32u8], sum) == Some(sum));
}

} // verus!
